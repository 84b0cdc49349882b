use vstd::prelude::*;
use crate::json::SpecJson;
use crate::json::spec_lookup;
use crate::error::MismatchKind;
use crate::error::SpecErr;
use crate::error::spec_err_at;
use crate::error::spec_err_here;
use crate::decode::spec_field_maybe_str;
use crate::decode::spec_field_str;
use crate::defs::SpecDefaultOverride;
use crate::defs::spec_decode_override;
use crate::levels::SpecLevel;
use crate::levels::spec_layer_kind;
use crate::levels::spec_field_layer_kind;
use crate::levels::spec_decode_level;
use crate::levels::spec_decode_layer;
use crate::raw::json_of;
use crate::Maybe;

verus! {

// What the library warrants of itself, stated once and proved from the
// decoders' definitions.

/// An optional field observably distinguishes its three states: a document
/// with the field omitted, one with the field null, and one with the field
/// set decode to three pairwise different values.
pub proof fn lemma_absent_null_value_distinct(
    e1: Seq<(Seq<char>, SpecJson)>,
    e2: Seq<(Seq<char>, SpecJson)>,
    e3: Seq<(Seq<char>, SpecJson)>,
    key: Seq<char>,
    s: Seq<char>,
)
    requires
        spec_lookup(e1, key) is None,
        spec_lookup(e2, key) == Some(SpecJson::Null),
        spec_lookup(e3, key) == Some(SpecJson::Str(s)),
    ensures
        spec_field_maybe_str(e1, key) == Ok::<Maybe<Seq<char>>, SpecErr>(Maybe::Absent),
        spec_field_maybe_str(e2, key) == Ok::<Maybe<Seq<char>>, SpecErr>(Maybe::Null),
        spec_field_maybe_str(e3, key) == Ok::<Maybe<Seq<char>>, SpecErr>(Maybe::Value(s)),
        spec_field_maybe_str(e1, key) != spec_field_maybe_str(e2, key),
        spec_field_maybe_str(e1, key) != spec_field_maybe_str(e3, key),
        spec_field_maybe_str(e2, key) != spec_field_maybe_str(e3, key),
{
}

/// A closed enumeration never absorbs an unknown value: a layer-kind field
/// holding a string outside the closed set is a schema mismatch at that
/// field, not a default.
pub proof fn lemma_closed_enum_rejected(e: Seq<(Seq<char>, SpecJson)>, key: Seq<char>, s: Seq<char>)
    requires
        spec_lookup(e, key) == Some(SpecJson::Str(s)),
        spec_layer_kind(s) is None,
    ensures
        spec_field_layer_kind(e, key) == Err::<crate::levels::LayerKind, SpecErr>(
            spec_err_at(key, MismatchKind::UnknownEnumValue),
        ),
{
}

/// A whole layer object with an unrecognized kind string fails its decode
/// with that mismatch, provided the field read before the kind passed.
pub proof fn lemma_layer_unknown_kind_refused(j: SpecJson, s: Seq<char>)
    requires
        j is Obj,
        spec_field_str(j->Obj_0, "__identifier"@) is Ok,
        spec_lookup(j->Obj_0, "__type"@) == Some(SpecJson::Str(s)),
        spec_layer_kind(s) is None,
    ensures
        spec_decode_layer(j) == Err::<crate::levels::SpecLayerInstance, SpecErr>(
            spec_err_at("__type"@, MismatchKind::UnknownEnumValue),
        ),
{
}

/// A value that may be a string or an object decodes deterministically by its
/// JSON kind: a string gives the string variant, an object the object
/// variant, and any other kind, an array included, is refused.
pub proof fn lemma_polymorphic_decode_by_kind(
    s: Seq<char>,
    m: Seq<(Seq<char>, SpecJson)>,
    items: Seq<SpecJson>,
)
    ensures
        spec_decode_override(SpecJson::Str(s)) == Ok::<SpecDefaultOverride, SpecErr>(
            SpecDefaultOverride::Str(s),
        ),
        spec_decode_override(SpecJson::Obj(m)) == Ok::<SpecDefaultOverride, SpecErr>(
            SpecDefaultOverride::Object(m),
        ),
        spec_decode_override(SpecJson::Arr(items)) == Err::<SpecDefaultOverride, SpecErr>(
            spec_err_here(MismatchKind::WrongKind),
        ),
        spec_decode_override(SpecJson::Null) == Err::<SpecDefaultOverride, SpecErr>(
            spec_err_here(MismatchKind::WrongKind),
        ),
{
}

/// The level an external level text resolves to, when it resolves at all.
pub open spec fn spec_resolved_level(t: Seq<char>) -> Option<SpecLevel> {
    match json_of(t) {
        Some(j) => match spec_decode_level(j) {
            Ok(l) => Some(l),
            Err(_) => None,
        },
        None => None,
    }
}

/// Resolving the same external level text twice yields structurally equal
/// levels: the resolved level is a function of the text alone, and
/// `Level::from_json_text` returns exactly it.
pub proof fn lemma_external_merge_idempotent(t: Seq<char>, a: SpecLevel, b: SpecLevel)
    requires
        spec_resolved_level(t) == Some(a),
        spec_resolved_level(t) == Some(b),
    ensures
        a == b,
{
}

} // verus!
