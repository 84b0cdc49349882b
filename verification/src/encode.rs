use vstd::prelude::*;
use crate::json::Json;
use crate::json::SpecJson;
use crate::json::spec_lookup;
use crate::json::spec_keys_unique;
use crate::json::spec_objs_unique;
use crate::json::entries_view;
use crate::json::items_view;
use crate::json::lemma_arr_view_from;
use crate::json::lemma_obj_view_from;
use crate::error::SpecErr;
use crate::decode::spec_extras;
use crate::decode::spec_list;
use crate::decode::spec_list_upto;
use crate::decode::spec_elem_i32;
use crate::decode::elem_i32_dec;
use crate::num::spec_render_int;
use crate::num::lemma_render_of_parse;
use crate::num::render_i64;
use crate::levels::TileInstance;
use crate::levels::SpecTileInstance;
use crate::levels::spec_decode_tile;
use crate::levels::spec_is_tile_key;
use crate::levels::IntGrid;
use crate::levels::SpecIntGrid;
use crate::levels::spec_decode_int_grid;
use crate::levels::spec_is_int_grid_key;
use crate::levels::OptionalTile;
use crate::levels::SpecOptionalTile;
use crate::levels::spec_decode_optional_tile;
use crate::levels::spec_is_optional_tile_key;
use crate::levels::FieldInstance;
use crate::levels::SpecFieldInstance;
use crate::levels::spec_decode_field_instance;
use crate::levels::spec_is_field_instance_key;
use crate::levels::EntityInstance;
use crate::levels::SpecEntityInstance;
use crate::levels::spec_decode_entity;
use crate::levels::LayerKind;
use crate::levels::spec_layer_kind;
use crate::levels::LayerInstance;
use crate::levels::SpecLayerInstance;
use crate::levels::spec_decode_layer;
use crate::levels::Level;
use crate::levels::SpecLevel;
use crate::levels::spec_decode_level;
use crate::decode::sdec_of;
use crate::decode::structs_view;
use crate::Maybe;
use crate::decode::KnownKeys;

verus! {

// The inverse of the level-side decode: an accepted level document prints
// back to a JSON value deep-equal to the original, field order aside. The
// equivalence, the encoders and the round-trip proofs live here.

/// Two JSON values are the same document up to the order of object entries:
/// leaves are equal, arrays agree position by position, and objects with
/// pairwise distinct keys carry the same fields with equivalent values.
pub open spec fn json_equiv(a: SpecJson, b: SpecJson) -> bool
    decreases a, 0int,
{
    match a {
        SpecJson::Arr(xs) => {
            &&& b is Arr
            &&& xs.len() == b->Arr_0.len()
            &&& forall|i: int| 0 <= i < xs.len() ==> json_equiv(#[trigger] xs[i], b->Arr_0[i])
        },
        SpecJson::Obj(ea) => {
            &&& b is Obj
            &&& spec_keys_unique(ea)
            &&& spec_keys_unique(b->Obj_0)
            &&& forall|i: int|
                0 <= i < ea.len() ==> entry_matched_in((#[trigger] ea[i]).1, ea[i].0, b->Obj_0)
            &&& forall|m: int|
                0 <= m < b->Obj_0.len() ==> entry_covers(ea, (#[trigger] b->Obj_0[m]).0, b->Obj_0[m].1)
        },
        _ => a == b,
    }
}

/// Some entry of `eb` has key `key` and a value that `v` is equivalent to.
pub open spec fn entry_matched_in(v: SpecJson, key: Seq<char>, eb: Seq<(Seq<char>, SpecJson)>) -> bool
    decreases v, 1int,
{
    exists|m: int| 0 <= m < eb.len() && (#[trigger] eb[m]).0 == key && json_equiv(v, eb[m].1)
}

/// Some entry of `ea` has key `key` and a value equivalent to `v`.
pub open spec fn entry_covers(ea: Seq<(Seq<char>, SpecJson)>, key: Seq<char>, v: SpecJson) -> bool
    decreases ea, 1int,
{
    exists|i: int| 0 <= i < ea.len() && (#[trigger] ea[i]).0 == key && json_equiv(ea[i].1, v)
}

/// A value whose objects have pairwise distinct keys is equivalent to
/// itself.
pub proof fn lemma_equiv_refl(a: SpecJson)
    requires
        spec_objs_unique(a),
    ensures
        json_equiv(a, a),
    decreases a,
{
    if a is Arr {
        let xs = a->Arr_0;
        assert forall|i: int| 0 <= i < xs.len() implies json_equiv(#[trigger] xs[i], a->Arr_0[i]) by {
            assert(spec_objs_unique(xs[i]));
            lemma_equiv_refl(xs[i]);
        }
    } else if a is Obj {
        let ea = a->Obj_0;
        assert forall|i: int|
            0 <= i < ea.len() implies entry_matched_in((#[trigger] ea[i]).1, ea[i].0, a->Obj_0) by {
            assert(spec_objs_unique(ea[i].1));
            lemma_equiv_refl(ea[i].1);
            assert(0 <= i < a->Obj_0.len() && a->Obj_0[i].0 == ea[i].0 && json_equiv(
                ea[i].1,
                a->Obj_0[i].1,
            ));
        }
        assert forall|m: int|
            0 <= m < a->Obj_0.len() implies entry_covers(ea, (#[trigger] a->Obj_0[m]).0, a->Obj_0[m].1) by {
            assert(spec_objs_unique(ea[m].1));
            lemma_equiv_refl(ea[m].1);
            assert(0 <= m < ea.len() && ea[m].0 == a->Obj_0[m].0 && json_equiv(
                ea[m].1,
                a->Obj_0[m].1,
            ));
        }
    }
}

/// A key that `spec_lookup` answers is the key of some entry, with that
/// value.
pub proof fn lemma_lookup_mem(e: Seq<(Seq<char>, SpecJson)>, key: Seq<char>, v: SpecJson)
    requires
        spec_lookup(e, key) == Some(v),
    ensures
        exists|i: int| 0 <= i < e.len() && #[trigger] e[i] == (key, v),
    decreases e.len(),
{
    if e.len() > 0 {
        if e[0].0 == key {
            assert(e[0] == (key, v));
        } else {
            lemma_lookup_mem(e.skip(1), key, v);
            let i = choose|i: int| 0 <= i < e.skip(1).len() && #[trigger] e.skip(1)[i] == (key, v);
            assert(e[i + 1] == (key, v));
        }
    }
}

/// Under pairwise distinct keys, every entry is what `spec_lookup` answers
/// for its key.
pub proof fn lemma_unique_lookup(e: Seq<(Seq<char>, SpecJson)>, i: int)
    requires
        spec_keys_unique(e),
        0 <= i < e.len(),
    ensures
        spec_lookup(e, e[i].0) == Some(e[i].1),
    decreases e.len(),
{
    if i == 0 {
    } else {
        assert(e[0].0 != e[i].0);
        assert(spec_keys_unique(e.skip(1))) by {
            assert(forall|a: int, b: int|
                0 <= a < b < e.skip(1).len() ==> e.skip(1)[a] == e[a + 1] && e.skip(1)[b] == e[b
                    + 1]);
        }
        lemma_unique_lookup(e.skip(1), i - 1);
        assert(e.skip(1)[i - 1] == e[i]);
    }
}

/// Every retained extra entry is an entry of the object, under an unknown
/// key.
pub proof fn lemma_extras_sub(
    e: Seq<(Seq<char>, SpecJson)>,
    known: spec_fn(Seq<char>) -> bool,
    m: int,
)
    requires
        0 <= m < spec_extras(e, known).len(),
    ensures
        !known(spec_extras(e, known)[m].0),
        exists|i: int| 0 <= i < e.len() && #[trigger] e[i] == spec_extras(e, known)[m],
    decreases e.len(),
{
    if e.len() > 0 {
        if known(e[0].0) {
            lemma_extras_sub(e.skip(1), known, m);
            let i = choose|i: int|
                0 <= i < e.skip(1).len() && #[trigger] e.skip(1)[i] == spec_extras(e.skip(1), known)[m];
            assert(e[i + 1] == spec_extras(e, known)[m]);
        } else {
            if m == 0 {
                assert(e[0] == spec_extras(e, known)[0]);
            } else {
                lemma_extras_sub(e.skip(1), known, m - 1);
                let i = choose|i: int|
                    0 <= i < e.skip(1).len() && #[trigger] e.skip(1)[i] == spec_extras(
                        e.skip(1),
                        known,
                    )[m - 1];
                assert(e[i + 1] == spec_extras(e, known)[m]);
            }
        }
    }
}

/// Every entry of the object under an unknown key is retained among the
/// extras.
pub proof fn lemma_extras_mem(
    e: Seq<(Seq<char>, SpecJson)>,
    known: spec_fn(Seq<char>) -> bool,
    i: int,
)
    requires
        0 <= i < e.len(),
        !known(e[i].0),
    ensures
        exists|m: int| 0 <= m < spec_extras(e, known).len() && #[trigger] spec_extras(e, known)[m] == e[i],
    decreases e.len(),
{
    if i == 0 {
        assert(spec_extras(e, known)[0] == e[0]);
    } else {
        lemma_extras_mem(e.skip(1), known, i - 1);
        let m = choose|m: int|
            0 <= m < spec_extras(e.skip(1), known).len() && #[trigger] spec_extras(e.skip(1), known)[m]
                == e.skip(1)[i - 1];
        if known(e[0].0) {
            assert(spec_extras(e, known)[m] == e[i]);
        } else {
            assert(spec_extras(e, known)[m + 1] == e[i]);
        }
    }
}

/// The extras of an object with pairwise distinct keys have pairwise
/// distinct keys.
pub proof fn lemma_extras_unique(e: Seq<(Seq<char>, SpecJson)>, known: spec_fn(Seq<char>) -> bool)
    requires
        spec_keys_unique(e),
    ensures
        spec_keys_unique(spec_extras(e, known)),
    decreases e.len(),
{
    if e.len() > 0 {
        assert(spec_keys_unique(e.skip(1))) by {
            assert(forall|a: int, b: int|
                0 <= a < b < e.skip(1).len() ==> e.skip(1)[a] == e[a + 1] && e.skip(1)[b] == e[b
                    + 1]);
        }
        lemma_extras_unique(e.skip(1), known);
        if !known(e[0].0) {
            let tail = spec_extras(e.skip(1), known);
            assert forall|a: int, b: int|
                0 <= a < b < spec_extras(e, known).len() implies spec_extras(e, known)[a].0
                != spec_extras(e, known)[b].0 by {
                if a == 0 {
                    lemma_extras_sub(e.skip(1), known, b - 1);
                    let i = choose|i: int|
                        0 <= i < e.skip(1).len() && #[trigger] e.skip(1)[i] == tail[b - 1];
                    assert(e.skip(1)[i] == e[i + 1]);
                    assert(e[0].0 != e[i + 1].0);
                } else {
                    assert(spec_extras(e, known)[a] == tail[a - 1]);
                    assert(spec_extras(e, known)[b] == tail[b - 1]);
                }
            }
        }
    }
}

/// Every successfully decoded element list pins each element: the list is as
/// long as the array, and each decoded value comes from its position.
pub proof fn lemma_list_ok<T>(
    items: Seq<SpecJson>,
    k: int,
    dec: spec_fn(SpecJson) -> Result<T, SpecErr>,
    s: Seq<T>,
)
    requires
        0 <= k <= items.len(),
        spec_list_upto(items, k, dec) == Ok::<Seq<T>, SpecErr>(s),
    ensures
        s.len() == k,
        forall|m: int| 0 <= m < k ==> dec(#[trigger] items[m]) == Ok::<T, SpecErr>(s[m]),
    decreases k,
{
    if k > 0 {
        let prev = spec_list_upto(items, k - 1, dec);
        assert(prev is Ok);
        lemma_list_ok(items, k - 1, dec, prev->Ok_0);
    }
}

/// The canonical number values of an integer sequence, position by position.
pub open spec fn num_items(s: Seq<int>) -> Seq<SpecJson>
    decreases s.len(),
{
    if s.len() == 0 {
        Seq::empty()
    } else {
        num_items(s.drop_last()).push(SpecJson::Num(spec_render_int(s.last())))
    }
}

/// `num_items` renders every position.
pub proof fn lemma_num_items(s: Seq<int>)
    ensures
        num_items(s).len() == s.len(),
        forall|i: int|
            0 <= i < s.len() ==> num_items(s)[i] == SpecJson::Num(spec_render_int(#[trigger] s[i])),
    decreases s.len(),
{
    if s.len() > 0 {
        lemma_num_items(s.drop_last());
        assert forall|i: int|
            0 <= i < s.len() implies num_items(s)[i] == SpecJson::Num(
            spec_render_int(#[trigger] s[i]),
        ) by {
            if i < s.len() - 1 {
                assert(s.drop_last()[i] == s[i]);
                assert(num_items(s)[i] == num_items(s.drop_last())[i]);
            } else {
                assert(s.last() == s[i]);
            }
        }
    }
}

/// An accepted integer array prints back to the very array it came from.
pub proof fn lemma_int_arr_round_trip(items: Seq<SpecJson>, s: Seq<int>)
    requires
        spec_list(items, elem_i32_dec()) == Ok::<Seq<int>, SpecErr>(s),
    ensures
        num_items(s) == items,
{
    lemma_list_ok(items, items.len() as int, elem_i32_dec(), s);
    lemma_num_items(s);
    assert forall|m: int| 0 <= m < items.len() implies num_items(s)[m] == items[m] by {
        assert(elem_i32_dec()(items[m]) == spec_elem_i32(items[m]));
        let t = items[m]->Num_0;
        lemma_render_of_parse(t, s[m]);
    }
    assert(num_items(s) =~= items);
}

/// The wire object of a tile placement: the named fields in this order, then
/// the retained extras.
pub open spec fn spec_encode_tile(t: SpecTileInstance) -> SpecJson {
    SpecJson::Obj(
        seq![
            ("px"@, SpecJson::Arr(num_items(t.px))),
            ("src"@, SpecJson::Arr(num_items(t.src))),
            ("f"@, SpecJson::Num(spec_render_int(t.f))),
            ("t"@, SpecJson::Num(spec_render_int(t.t))),
            ("d"@, SpecJson::Arr(num_items(t.d))),
        ] + t.extras,
    )
}

/// The five field names of a tile object are pairwise different.
pub proof fn lemma_tile_keys_distinct()
    ensures
        "px"@ != "src"@ && "px"@ != "f"@ && "px"@ != "t"@ && "px"@ != "d"@,
        "src"@ != "f"@ && "src"@ != "t"@ && "src"@ != "d"@,
        "f"@ != "t"@ && "f"@ != "d"@,
        "t"@ != "d"@,
{
    reveal_strlit("px");
    reveal_strlit("src");
    reveal_strlit("f");
    reveal_strlit("t");
    reveal_strlit("d");
    assert("px"@.len() == 2 && "src"@.len() == 3 && "f"@.len() == 1 && "t"@.len() == 1 && "d"@.len()
        == 1);
    assert("f"@[0] == 'f' && "t"@[0] == 't' && "d"@[0] == 'd');
}

/// An accepted tile object prints back to a value deep-equal to the one it
/// was decoded from.
#[verifier::rlimit(50)]
pub proof fn lemma_tile_round_trip(j: SpecJson, t: SpecTileInstance)
    requires
        spec_objs_unique(j),
        spec_decode_tile(j) == Ok::<SpecTileInstance, SpecErr>(t),
    ensures
        json_equiv(spec_encode_tile(t), j),
{
    let e = j->Obj_0;
    let known = TileInstance::known();
    let enc = spec_encode_tile(t)->Obj_0;
    let base: Seq<(Seq<char>, SpecJson)> = seq![
        ("px"@, SpecJson::Arr(num_items(t.px))),
        ("src"@, SpecJson::Arr(num_items(t.src))),
        ("f"@, SpecJson::Num(spec_render_int(t.f))),
        ("t"@, SpecJson::Num(spec_render_int(t.t))),
        ("d"@, SpecJson::Arr(num_items(t.d))),
    ];
    assert(enc == base + t.extras);
    lemma_tile_keys_distinct();

    // the original values of the five named fields
    let vpx = spec_lookup(e, "px"@)->Some_0;
    let vsrc = spec_lookup(e, "src"@)->Some_0;
    let vf = spec_lookup(e, "f"@)->Some_0;
    let vt = spec_lookup(e, "t"@)->Some_0;
    let vd = spec_lookup(e, "d"@)->Some_0;
    lemma_int_arr_round_trip(vpx->Arr_0, t.px);
    lemma_int_arr_round_trip(vsrc->Arr_0, t.src);
    lemma_int_arr_round_trip(vd->Arr_0, t.d);
    lemma_render_of_parse(vf->Num_0, t.f);
    lemma_render_of_parse(vt->Num_0, t.t);
    assert(base[0].1 == vpx);
    assert(base[1].1 == vsrc);
    assert(base[2].1 == vf);
    assert(base[3].1 == vt);
    assert(base[4].1 == vd);

    // the encoded entries have pairwise distinct keys
    assert(enc[0] == base[0] && enc[1] == base[1] && enc[2] == base[2] && enc[3] == base[3]
        && enc[4] == base[4]);
    assert(spec_keys_unique(enc)) by {
        lemma_extras_unique(e, known);
        assert(spec_keys_unique(t.extras));
        assert forall|a: int, b: int| 0 <= a < b < enc.len() implies enc[a].0 != enc[b].0 by {
            if b < 5 {
                assert(spec_is_tile_key(enc[a].0));
                assert(spec_is_tile_key(enc[b].0));
            } else if a < 5 {
                assert(spec_is_tile_key(enc[a].0));
                assert(enc[b] == t.extras[b - 5]);
                lemma_extras_sub(e, known, b - 5);
                assert(!spec_is_tile_key(enc[b].0));
            } else {
                assert(enc[a] == t.extras[a - 5]);
                assert(enc[b] == t.extras[b - 5]);
            }
        }
    }

    // every encoded entry has an equivalent counterpart in the original
    assert forall|m: int| 0 <= m < enc.len() implies entry_matched_in(
        (#[trigger] enc[m]).1,
        enc[m].0,
        e,
    ) by {
        if m < 5 {
            let key = enc[m].0;
            let v = spec_lookup(e, key)->Some_0;
            lemma_lookup_mem(e, key, v);
            let i = choose|i: int| 0 <= i < e.len() && #[trigger] e[i] == (key, v);
            assert(spec_objs_unique(e[i].1));
            lemma_equiv_refl(e[i].1);
            assert(0 <= i < e.len() && e[i].0 == enc[m].0 && json_equiv(enc[m].1, e[i].1));
        } else {
            lemma_extras_sub(e, known, m - 5);
            let i = choose|i: int| 0 <= i < e.len() && #[trigger] e[i] == spec_extras(e, known)[m - 5];
            assert(spec_objs_unique(e[i].1));
            lemma_equiv_refl(e[i].1);
            assert(0 <= i < e.len() && e[i].0 == enc[m].0 && json_equiv(enc[m].1, e[i].1));
        }
    }

    // every original entry has an equivalent counterpart among the encoded
    assert forall|i: int| 0 <= i < e.len() implies entry_covers(enc, (#[trigger] e[i]).0, e[i].1) by {
        lemma_unique_lookup(e, i);
        assert(spec_objs_unique(e[i].1));
        lemma_equiv_refl(e[i].1);
        if known(e[i].0) {
            if e[i].0 == "px"@ {
                assert(0 <= 0 < enc.len() && enc[0].0 == e[i].0 && json_equiv(enc[0].1, e[i].1));
            } else if e[i].0 == "src"@ {
                assert(0 <= 1 < enc.len() && enc[1].0 == e[i].0 && json_equiv(enc[1].1, e[i].1));
            } else if e[i].0 == "f"@ {
                assert(0 <= 2 < enc.len() && enc[2].0 == e[i].0 && json_equiv(enc[2].1, e[i].1));
            } else if e[i].0 == "t"@ {
                assert(0 <= 3 < enc.len() && enc[3].0 == e[i].0 && json_equiv(enc[3].1, e[i].1));
            } else {
                assert(0 <= 4 < enc.len() && enc[4].0 == e[i].0 && json_equiv(enc[4].1, e[i].1));
            }
        } else {
            lemma_extras_mem(e, known, i);
            let m = choose|m: int|
                0 <= m < spec_extras(e, known).len() && #[trigger] spec_extras(e, known)[m] == e[i];
            assert(0 <= m + 5 < enc.len() && enc[m + 5].0 == e[i].0 && json_equiv(
                enc[m + 5].1,
                e[i].1,
            ));
        }
    }
    assert(spec_keys_unique(e));
}

/// Prints the canonical number values of an integer vector.
fn encode_ints(s: &Vec<i32>) -> (r: Json)
    ensures
        r@ == SpecJson::Arr(num_items(crate::decode::ints_view(s@))),
{
    let ghost sv = crate::decode::ints_view(s@);
    proof {
        lemma_num_items(sv);
    }
    let mut out: Vec<Json> = Vec::new();
    let mut i: usize = 0;
    while i < s.len()
        invariant
            0 <= i <= s.len(),
            sv == crate::decode::ints_view(s@),
            sv.len() == s@.len(),
            out@.len() == i,
            forall|m: int|
                0 <= m < i ==> crate::json::json_view(#[trigger] out@[m]) == SpecJson::Num(
                    spec_render_int(sv[m]),
                ),
        decreases s.len() - i,
    {
        let n = render_i64(s[i] as i64);
        out.push(Json::Num(n));
        i = i + 1;
    }
    proof {
        lemma_arr_view_from(out@, 0);
        lemma_num_items(sv);
        assert forall|m: int| 0 <= m < out@.len() implies items_view(out@)[m] == num_items(sv)[m] by {
            assert(items_view(out@)[m] == crate::json::json_view(out@[m]));
        }
        assert(items_view(out@) =~= num_items(sv));
    }
    Json::Arr(out)
}

impl TileInstance {
    /// Prints this tile placement back to its wire object.
    pub fn to_json(&self) -> (r: Json)
        ensures
            r@ == spec_encode_tile(self@),
    {
        let mut entries: Vec<(String, Json)> = Vec::new();
        entries.push(("px".to_owned(), encode_ints(&self.px)));
        entries.push(("src".to_owned(), encode_ints(&self.src)));
        entries.push(("f".to_owned(), Json::Num(render_i64(self.f as i64))));
        entries.push(("t".to_owned(), Json::Num(render_i64(self.t as i64))));
        entries.push(("d".to_owned(), encode_ints(&self.d)));
        let mut i: usize = 0;
        let ghost base = entries@;
        while i < self.extras.len()
            invariant
                0 <= i <= self.extras@.len(),
                entries@.len() == 5 + i,
                entries@.subrange(0, 5) == base.subrange(0, 5),
                base.len() == 5,
                forall|m: int| 0 <= m < 5 ==> entries@[m] == base[m],
                forall|m: int|
                    0 <= m < i ==> (#[trigger] entries@[m + 5]).0@ == self.extras@[m].0@ && crate::json::json_view(
                        entries@[m + 5].1,
                    ) == crate::json::json_view(self.extras@[m].1),
            decreases self.extras@.len() - i,
        {
            let key = self.extras[i].0.clone();
            let val = self.extras[i].1.duplicate();
            entries.push((key, val));
            i = i + 1;
        }
        proof {
            lemma_obj_view_from(entries@, 0);
            lemma_obj_view_from(self.extras@, 0);
            let target = spec_encode_tile(self@)->Obj_0;
            assert(entries@.len() == 5 + self.extras@.len());
            assert forall|m: int|
                0 <= m < entries@.len() implies entries_view(entries@)[m] == target[m] by {
                assert(entries_view(entries@)[m] == ((entries@[m]).0@, crate::json::json_view(
                    entries@[m].1,
                )));
                if m < 5 {
                    assert(entries@[m] == base[m]);
                } else {
                    let k = m - 5;
                    assert((entries@[k + 5]).0@ == self.extras@[k].0@ && crate::json::json_view(
                        entries@[k + 5].1,
                    ) == crate::json::json_view(self.extras@[k].1));
                    assert(entries@[k + 5] == entries@[m]);
                    assert(target[m] == entries_view(self.extras@)[m - 5]);
                }
            }
            assert(entries_view(entries@) =~= target);
        }
        Json::Obj(entries)
    }
}


/// The wire object of an integer-grid cell: the named fields in this order,
/// then the retained extras.
pub open spec fn spec_encode_int_grid(c: SpecIntGrid) -> SpecJson {
    SpecJson::Obj(
        seq![
            ("coordId"@, SpecJson::Num(spec_render_int(c.coord_id))),
            ("v"@, SpecJson::Num(spec_render_int(c.v))),
        ] + c.extras,
    )
}

/// An accepted integer-grid cell prints back to a value deep-equal to the one
/// it was decoded from.
#[verifier::rlimit(50)]
pub proof fn lemma_int_grid_round_trip(j: SpecJson, c: SpecIntGrid)
    requires
        spec_objs_unique(j),
        spec_decode_int_grid(j) == Ok::<SpecIntGrid, SpecErr>(c),
    ensures
        json_equiv(spec_encode_int_grid(c), j),
{
    let e = j->Obj_0;
    let known = IntGrid::known();
    let enc = spec_encode_int_grid(c)->Obj_0;
    let base: Seq<(Seq<char>, SpecJson)> = seq![
        ("coordId"@, SpecJson::Num(spec_render_int(c.coord_id))),
        ("v"@, SpecJson::Num(spec_render_int(c.v))),
    ];
    assert(enc == base + c.extras);
    reveal_strlit("coordId");
    reveal_strlit("v");
    assert("coordId"@ != "v"@) by {
        assert("coordId"@.len() == 7 && "v"@.len() == 1);
    }

    let vcoord = spec_lookup(e, "coordId"@)->Some_0;
    let vv = spec_lookup(e, "v"@)->Some_0;
    lemma_render_of_parse(vcoord->Num_0, c.coord_id);
    lemma_render_of_parse(vv->Num_0, c.v);
    assert(base[0].1 == vcoord);
    assert(base[1].1 == vv);
    assert(enc[0] == base[0] && enc[1] == base[1]);

    assert(spec_keys_unique(enc)) by {
        lemma_extras_unique(e, known);
        assert(spec_keys_unique(c.extras));
        assert forall|a: int, b: int| 0 <= a < b < enc.len() implies enc[a].0 != enc[b].0 by {
            if b < 2 {
                assert(spec_is_int_grid_key(enc[a].0));
                assert(spec_is_int_grid_key(enc[b].0));
            } else if a < 2 {
                assert(spec_is_int_grid_key(enc[a].0));
                assert(enc[b] == c.extras[b - 2]);
                lemma_extras_sub(e, known, b - 2);
                assert(!spec_is_int_grid_key(enc[b].0));
            } else {
                assert(enc[a] == c.extras[a - 2]);
                assert(enc[b] == c.extras[b - 2]);
            }
        }
    }

    assert forall|m: int| 0 <= m < enc.len() implies entry_matched_in(
        (#[trigger] enc[m]).1,
        enc[m].0,
        e,
    ) by {
        if m < 2 {
            let key = enc[m].0;
            let v = spec_lookup(e, key)->Some_0;
            lemma_lookup_mem(e, key, v);
            let i = choose|i: int| 0 <= i < e.len() && #[trigger] e[i] == (key, v);
            assert(spec_objs_unique(e[i].1));
            lemma_equiv_refl(e[i].1);
            assert(0 <= i < e.len() && e[i].0 == enc[m].0 && json_equiv(enc[m].1, e[i].1));
        } else {
            lemma_extras_sub(e, known, m - 2);
            let i = choose|i: int| 0 <= i < e.len() && #[trigger] e[i] == spec_extras(e, known)[m - 2];
            assert(spec_objs_unique(e[i].1));
            lemma_equiv_refl(e[i].1);
            assert(0 <= i < e.len() && e[i].0 == enc[m].0 && json_equiv(enc[m].1, e[i].1));
        }
    }

    assert forall|i: int| 0 <= i < e.len() implies entry_covers(enc, (#[trigger] e[i]).0, e[i].1) by {
        lemma_unique_lookup(e, i);
        assert(spec_objs_unique(e[i].1));
        lemma_equiv_refl(e[i].1);
        if known(e[i].0) {
            if e[i].0 == "coordId"@ {
                assert(0 <= 0 < enc.len() && enc[0].0 == e[i].0 && json_equiv(enc[0].1, e[i].1));
            } else {
                assert(0 <= 1 < enc.len() && enc[1].0 == e[i].0 && json_equiv(enc[1].1, e[i].1));
            }
        } else {
            lemma_extras_mem(e, known, i);
            let m = choose|m: int|
                0 <= m < spec_extras(e, known).len() && #[trigger] spec_extras(e, known)[m] == e[i];
            assert(0 <= m + 2 < enc.len() && enc[m + 2].0 == e[i].0 && json_equiv(
                enc[m + 2].1,
                e[i].1,
            ));
        }
    }
    assert(spec_keys_unique(e));
}

/// The wire object of an entity tile: the named fields in this order, then
/// the retained extras.
pub open spec fn spec_encode_optional_tile(t: SpecOptionalTile) -> SpecJson {
    SpecJson::Obj(
        seq![
            ("srcRect"@, SpecJson::Arr(num_items(t.src_rect))),
            ("tilesetUid"@, SpecJson::Num(spec_render_int(t.tileset_uid))),
        ] + t.extras,
    )
}

/// An accepted entity tile prints back to a value deep-equal to the one it
/// was decoded from.
#[verifier::rlimit(50)]
pub proof fn lemma_optional_tile_round_trip(j: SpecJson, t: SpecOptionalTile)
    requires
        spec_objs_unique(j),
        spec_decode_optional_tile(j) == Ok::<SpecOptionalTile, SpecErr>(t),
    ensures
        json_equiv(spec_encode_optional_tile(t), j),
{
    let e = j->Obj_0;
    let known = OptionalTile::known();
    let enc = spec_encode_optional_tile(t)->Obj_0;
    let base: Seq<(Seq<char>, SpecJson)> = seq![
        ("srcRect"@, SpecJson::Arr(num_items(t.src_rect))),
        ("tilesetUid"@, SpecJson::Num(spec_render_int(t.tileset_uid))),
    ];
    assert(enc == base + t.extras);
    reveal_strlit("srcRect");
    reveal_strlit("tilesetUid");
    assert("srcRect"@ != "tilesetUid"@) by {
        assert("srcRect"@.len() == 7 && "tilesetUid"@.len() == 10);
    }

    let vrect = spec_lookup(e, "srcRect"@)->Some_0;
    let vuid = spec_lookup(e, "tilesetUid"@)->Some_0;
    lemma_int_arr_round_trip(vrect->Arr_0, t.src_rect);
    lemma_render_of_parse(vuid->Num_0, t.tileset_uid);
    assert(base[0].1 == vrect);
    assert(base[1].1 == vuid);
    assert(enc[0] == base[0] && enc[1] == base[1]);

    assert(spec_keys_unique(enc)) by {
        lemma_extras_unique(e, known);
        assert(spec_keys_unique(t.extras));
        assert forall|a: int, b: int| 0 <= a < b < enc.len() implies enc[a].0 != enc[b].0 by {
            if b < 2 {
                assert(spec_is_optional_tile_key(enc[a].0));
                assert(spec_is_optional_tile_key(enc[b].0));
            } else if a < 2 {
                assert(spec_is_optional_tile_key(enc[a].0));
                assert(enc[b] == t.extras[b - 2]);
                lemma_extras_sub(e, known, b - 2);
                assert(!spec_is_optional_tile_key(enc[b].0));
            } else {
                assert(enc[a] == t.extras[a - 2]);
                assert(enc[b] == t.extras[b - 2]);
            }
        }
    }

    assert forall|m: int| 0 <= m < enc.len() implies entry_matched_in(
        (#[trigger] enc[m]).1,
        enc[m].0,
        e,
    ) by {
        if m < 2 {
            let key = enc[m].0;
            let v = spec_lookup(e, key)->Some_0;
            lemma_lookup_mem(e, key, v);
            let i = choose|i: int| 0 <= i < e.len() && #[trigger] e[i] == (key, v);
            assert(spec_objs_unique(e[i].1));
            lemma_equiv_refl(e[i].1);
            assert(0 <= i < e.len() && e[i].0 == enc[m].0 && json_equiv(enc[m].1, e[i].1));
        } else {
            lemma_extras_sub(e, known, m - 2);
            let i = choose|i: int| 0 <= i < e.len() && #[trigger] e[i] == spec_extras(e, known)[m - 2];
            assert(spec_objs_unique(e[i].1));
            lemma_equiv_refl(e[i].1);
            assert(0 <= i < e.len() && e[i].0 == enc[m].0 && json_equiv(enc[m].1, e[i].1));
        }
    }

    assert forall|i: int| 0 <= i < e.len() implies entry_covers(enc, (#[trigger] e[i]).0, e[i].1) by {
        lemma_unique_lookup(e, i);
        assert(spec_objs_unique(e[i].1));
        lemma_equiv_refl(e[i].1);
        if known(e[i].0) {
            if e[i].0 == "srcRect"@ {
                assert(0 <= 0 < enc.len() && enc[0].0 == e[i].0 && json_equiv(enc[0].1, e[i].1));
            } else {
                assert(0 <= 1 < enc.len() && enc[1].0 == e[i].0 && json_equiv(enc[1].1, e[i].1));
            }
        } else {
            lemma_extras_mem(e, known, i);
            let m = choose|m: int|
                0 <= m < spec_extras(e, known).len() && #[trigger] spec_extras(e, known)[m] == e[i];
            assert(0 <= m + 2 < enc.len() && enc[m + 2].0 == e[i].0 && json_equiv(
                enc[m + 2].1,
                e[i].1,
            ));
        }
    }
    assert(spec_keys_unique(e));
}

/// The wire object of a field instance: the named fields in this order, the
/// polymorphic value verbatim, then the retained extras.
pub open spec fn spec_encode_field_instance(f: SpecFieldInstance) -> SpecJson {
    SpecJson::Obj(
        seq![
            ("__identifier"@, SpecJson::Str(f.__identifier)),
            ("__type"@, SpecJson::Str(f.__type)),
            ("__value"@, f.__value),
            ("defUid"@, SpecJson::Num(spec_render_int(f.def_uid))),
        ] + f.extras,
    )
}

/// An accepted field instance prints back to a value deep-equal to the one it
/// was decoded from; the polymorphic value comes back verbatim.
#[verifier::rlimit(50)]
pub proof fn lemma_field_instance_round_trip(j: SpecJson, f: SpecFieldInstance)
    requires
        spec_objs_unique(j),
        spec_decode_field_instance(j) == Ok::<SpecFieldInstance, SpecErr>(f),
    ensures
        json_equiv(spec_encode_field_instance(f), j),
{
    let e = j->Obj_0;
    let known = FieldInstance::known();
    let enc = spec_encode_field_instance(f)->Obj_0;
    let base: Seq<(Seq<char>, SpecJson)> = seq![
        ("__identifier"@, SpecJson::Str(f.__identifier)),
        ("__type"@, SpecJson::Str(f.__type)),
        ("__value"@, f.__value),
        ("defUid"@, SpecJson::Num(spec_render_int(f.def_uid))),
    ];
    assert(enc == base + f.extras);
    reveal_strlit("__identifier");
    reveal_strlit("__type");
    reveal_strlit("__value");
    reveal_strlit("defUid");
    assert("__identifier"@.len() == 12 && "__type"@.len() == 6 && "__value"@.len() == 7
        && "defUid"@.len() == 6);
    assert("__type"@ != "defUid"@) by {
        assert("__type"@[0] == '_' && "defUid"@[0] == 'd');
    }

    let vident = spec_lookup(e, "__identifier"@)->Some_0;
    let vty = spec_lookup(e, "__type"@)->Some_0;
    let vval = spec_lookup(e, "__value"@)->Some_0;
    let vuid = spec_lookup(e, "defUid"@)->Some_0;
    lemma_render_of_parse(vuid->Num_0, f.def_uid);
    assert(base[0].1 == vident);
    assert(base[1].1 == vty);
    assert(base[2].1 == vval);
    assert(base[3].1 == vuid);
    assert(enc[0] == base[0] && enc[1] == base[1] && enc[2] == base[2] && enc[3] == base[3]);

    assert(spec_keys_unique(enc)) by {
        lemma_extras_unique(e, known);
        assert(spec_keys_unique(f.extras));
        assert forall|a: int, b: int| 0 <= a < b < enc.len() implies enc[a].0 != enc[b].0 by {
            if b < 4 {
                assert(spec_is_field_instance_key(enc[a].0));
                assert(spec_is_field_instance_key(enc[b].0));
            } else if a < 4 {
                assert(spec_is_field_instance_key(enc[a].0));
                assert(enc[b] == f.extras[b - 4]);
                lemma_extras_sub(e, known, b - 4);
                assert(!spec_is_field_instance_key(enc[b].0));
            } else {
                assert(enc[a] == f.extras[a - 4]);
                assert(enc[b] == f.extras[b - 4]);
            }
        }
    }

    assert forall|m: int| 0 <= m < enc.len() implies entry_matched_in(
        (#[trigger] enc[m]).1,
        enc[m].0,
        e,
    ) by {
        if m < 4 {
            let key = enc[m].0;
            let v = spec_lookup(e, key)->Some_0;
            lemma_lookup_mem(e, key, v);
            let i = choose|i: int| 0 <= i < e.len() && #[trigger] e[i] == (key, v);
            assert(spec_objs_unique(e[i].1));
            lemma_equiv_refl(e[i].1);
            assert(0 <= i < e.len() && e[i].0 == enc[m].0 && json_equiv(enc[m].1, e[i].1));
        } else {
            lemma_extras_sub(e, known, m - 4);
            let i = choose|i: int| 0 <= i < e.len() && #[trigger] e[i] == spec_extras(e, known)[m - 4];
            assert(spec_objs_unique(e[i].1));
            lemma_equiv_refl(e[i].1);
            assert(0 <= i < e.len() && e[i].0 == enc[m].0 && json_equiv(enc[m].1, e[i].1));
        }
    }

    assert forall|i: int| 0 <= i < e.len() implies entry_covers(enc, (#[trigger] e[i]).0, e[i].1) by {
        lemma_unique_lookup(e, i);
        assert(spec_objs_unique(e[i].1));
        lemma_equiv_refl(e[i].1);
        if known(e[i].0) {
            if e[i].0 == "__identifier"@ {
                assert(0 <= 0 < enc.len() && enc[0].0 == e[i].0 && json_equiv(enc[0].1, e[i].1));
            } else if e[i].0 == "__type"@ {
                assert(0 <= 1 < enc.len() && enc[1].0 == e[i].0 && json_equiv(enc[1].1, e[i].1));
            } else if e[i].0 == "__value"@ {
                assert(0 <= 2 < enc.len() && enc[2].0 == e[i].0 && json_equiv(enc[2].1, e[i].1));
            } else {
                assert(0 <= 3 < enc.len() && enc[3].0 == e[i].0 && json_equiv(enc[3].1, e[i].1));
            }
        } else {
            lemma_extras_mem(e, known, i);
            let m = choose|m: int|
                0 <= m < spec_extras(e, known).len() && #[trigger] spec_extras(e, known)[m] == e[i];
            assert(0 <= m + 4 < enc.len() && enc[m + 4].0 == e[i].0 && json_equiv(
                enc[m + 4].1,
                e[i].1,
            ));
        }
    }
    assert(spec_keys_unique(e));
}


// Toolkit for objects whose encoded entry list is a concatenation of parts:
// lookups, uniqueness and membership distribute over concatenation, so a
// round-trip proof never needs entry positions.

/// A lookup in a concatenation reads the first part first.
pub proof fn lemma_lookup_append(
    s1: Seq<(Seq<char>, SpecJson)>,
    s2: Seq<(Seq<char>, SpecJson)>,
    key: Seq<char>,
)
    ensures
        spec_lookup(s1 + s2, key) == match spec_lookup(s1, key) {
            Some(v) => Some(v),
            None => spec_lookup(s2, key),
        },
    decreases s1.len(),
{
    if s1.len() == 0 {
        assert(s1 + s2 =~= s2);
    } else {
        assert((s1 + s2)[0] == s1[0]);
        if s1[0].0 != key {
            lemma_lookup_append(s1.skip(1), s2, key);
            assert((s1 + s2).skip(1) =~= s1.skip(1) + s2);
        }
    }
}

/// A key without a lookup answer is no entry's key, and the other way round.
pub proof fn lemma_lookup_none_iff(s: Seq<(Seq<char>, SpecJson)>, key: Seq<char>)
    ensures
        (spec_lookup(s, key) is None) <==> (forall|i: int| 0 <= i < s.len() ==> (#[trigger] s[i]).0 != key),
    decreases s.len(),
{
    if s.len() > 0 {
        lemma_lookup_none_iff(s.skip(1), key);
        if s[0].0 != key {
            assert(forall|i: int| 0 <= i < s.skip(1).len() ==> s.skip(1)[i] == s[i + 1]);
            if spec_lookup(s, key) is None {
                assert forall|i: int| 0 <= i < s.len() implies (#[trigger] s[i]).0 != key by {
                    if i > 0 {
                        assert(s.skip(1)[i - 1] == s[i]);
                    }
                }
            }
        }
    }
}

/// A concatenation of two entry lists with pairwise distinct keys, sharing no
/// key, has pairwise distinct keys.
pub proof fn lemma_unique_append(s1: Seq<(Seq<char>, SpecJson)>, s2: Seq<(Seq<char>, SpecJson)>)
    requires
        spec_keys_unique(s1),
        spec_keys_unique(s2),
        forall|i: int| 0 <= i < s1.len() ==> spec_lookup(s2, (#[trigger] s1[i]).0) is None,
    ensures
        spec_keys_unique(s1 + s2),
{
    assert forall|a: int, b: int| 0 <= a < b < (s1 + s2).len() implies (s1 + s2)[a].0 != (s1
        + s2)[b].0 by {
        if a < s1.len() && b >= s1.len() {
            lemma_lookup_none_iff(s2, s1[a].0);
            assert((s1 + s2)[b] == s2[b - s1.len()]);
        }
    }
}

/// For an unknown key, the extras answer exactly as the whole object does;
/// for a known key, the extras have no answer.
pub proof fn lemma_extras_lookup(
    e: Seq<(Seq<char>, SpecJson)>,
    known: spec_fn(Seq<char>) -> bool,
    key: Seq<char>,
)
    ensures
        known(key) ==> spec_lookup(spec_extras(e, known), key) is None,
        !known(key) ==> spec_lookup(spec_extras(e, known), key) == spec_lookup(e, key),
    decreases e.len(),
{
    if e.len() > 0 {
        lemma_extras_lookup(e.skip(1), known, key);
        if !known(e[0].0) {
            let rest = spec_extras(e.skip(1), known);
            assert(spec_extras(e, known) == seq![e[0]] + rest);
            assert((seq![e[0]] + rest)[0] == e[0]);
            if e[0].0 != key {
                assert((seq![e[0]] + rest).skip(1) =~= rest);
            }
        }
    }
}

/// Every entry of an object with pairwise distinct keys is answered by a
/// lookup among the extras when its key is unknown.
pub proof fn lemma_extras_entry_lookup(
    e: Seq<(Seq<char>, SpecJson)>,
    known: spec_fn(Seq<char>) -> bool,
    i: int,
)
    requires
        spec_keys_unique(e),
        0 <= i < e.len(),
        !known(e[i].0),
    ensures
        spec_lookup(spec_extras(e, known), e[i].0) == Some(e[i].1),
{
    lemma_unique_lookup(e, i);
    lemma_extras_lookup(e, known, e[i].0);
}

/// An entry whose key no earlier entry carries is what the lookup answers.
pub proof fn lemma_lookup_at(s: Seq<(Seq<char>, SpecJson)>, i: int)
    requires
        0 <= i < s.len(),
        forall|m: int| 0 <= m < i ==> (#[trigger] s[m]).0 != s[i].0,
    ensures
        spec_lookup(s, s[i].0) == Some(s[i].1),
    decreases i,
{
    if i == 0 {
    } else {
        assert(forall|m: int| 0 <= m < s.skip(1).len() ==> s.skip(1)[m] == s[m + 1]);
        lemma_lookup_at(s.skip(1), i - 1);
    }
}

/// A value a lookup answers inside a tree whose objects all have pairwise
/// distinct keys is such a tree itself.
pub proof fn lemma_lookup_objs_unique(j: SpecJson, key: Seq<char>)
    requires
        j is Obj,
        spec_objs_unique(j),
        spec_lookup(j->Obj_0, key) is Some,
    ensures
        spec_objs_unique(spec_lookup(j->Obj_0, key)->Some_0),
{
    let v = spec_lookup(j->Obj_0, key)->Some_0;
    lemma_lookup_mem(j->Obj_0, key, v);
    let i = choose|i: int| 0 <= i < j->Obj_0.len() && #[trigger] j->Obj_0[i] == (key, v);
    assert(spec_objs_unique(j->Obj_0[i].1));
}

/// Two objects with pairwise distinct keys whose lookups answer each other
/// with equivalent values are equivalent documents.
pub proof fn lemma_obj_equiv_from_lookups(
    enc: Seq<(Seq<char>, SpecJson)>,
    e: Seq<(Seq<char>, SpecJson)>,
)
    requires
        spec_keys_unique(enc),
        spec_keys_unique(e),
        forall|m: int|
            0 <= m < enc.len() ==> spec_lookup(e, (#[trigger] enc[m]).0) is Some && json_equiv(
                enc[m].1,
                spec_lookup(e, enc[m].0)->Some_0,
            ),
        forall|i: int|
            0 <= i < e.len() ==> spec_lookup(enc, (#[trigger] e[i]).0) is Some && json_equiv(
                spec_lookup(enc, e[i].0)->Some_0,
                e[i].1,
            ),
    ensures
        json_equiv(SpecJson::Obj(enc), SpecJson::Obj(e)),
{
    assert forall|m: int| 0 <= m < enc.len() implies entry_matched_in(
        (#[trigger] enc[m]).1,
        enc[m].0,
        e,
    ) by {
        let v = spec_lookup(e, enc[m].0)->Some_0;
        lemma_lookup_mem(e, enc[m].0, v);
        let i = choose|i: int| 0 <= i < e.len() && #[trigger] e[i] == (enc[m].0, v);
        assert(0 <= i < e.len() && e[i].0 == enc[m].0 && json_equiv(enc[m].1, e[i].1));
    }
    assert forall|i: int| 0 <= i < e.len() implies entry_covers(enc, (#[trigger] e[i]).0, e[i].1) by {
        let w = spec_lookup(enc, e[i].0)->Some_0;
        lemma_lookup_mem(enc, e[i].0, w);
        let m = choose|m: int| 0 <= m < enc.len() && #[trigger] enc[m] == (e[i].0, w);
        assert(0 <= m < enc.len() && enc[m].0 == e[i].0 && json_equiv(enc[m].1, e[i].1));
    }
}


/// The wire objects of a field instance sequence, position by position.
pub open spec fn field_items(s: Seq<SpecFieldInstance>) -> Seq<SpecJson>
    decreases s.len(),
{
    if s.len() == 0 {
        Seq::empty()
    } else {
        field_items(s.drop_last()).push(spec_encode_field_instance(s.last()))
    }
}

/// `field_items` encodes every position.
pub proof fn lemma_field_items(s: Seq<SpecFieldInstance>)
    ensures
        field_items(s).len() == s.len(),
        forall|i: int|
            0 <= i < s.len() ==> field_items(s)[i] == spec_encode_field_instance(#[trigger] s[i]),
    decreases s.len(),
{
    if s.len() > 0 {
        lemma_field_items(s.drop_last());
        assert forall|i: int|
            0 <= i < s.len() implies field_items(s)[i] == spec_encode_field_instance(
            #[trigger] s[i],
        ) by {
            if i < s.len() - 1 {
                assert(s.drop_last()[i] == s[i]);
                assert(field_items(s)[i] == field_items(s.drop_last())[i]);
            } else {
                assert(s.last() == s[i]);
            }
        }
    }
}

/// An accepted field instance array prints back to an array deep-equal to the
/// one it was decoded from, element by element.
pub proof fn lemma_field_list_round_trip(items: Seq<SpecJson>, s: Seq<SpecFieldInstance>)
    requires
        spec_list(items, sdec_of::<FieldInstance>()) == Ok::<Seq<SpecFieldInstance>, SpecErr>(s),
        forall|m: int| 0 <= m < items.len() ==> spec_objs_unique(#[trigger] items[m]),
    ensures
        json_equiv(SpecJson::Arr(field_items(s)), SpecJson::Arr(items)),
{
    lemma_list_ok(items, items.len() as int, sdec_of::<FieldInstance>(), s);
    lemma_field_items(s);
    assert forall|m: int| 0 <= m < field_items(s).len() implies json_equiv(
        #[trigger] field_items(s)[m],
        SpecJson::Arr(items)->Arr_0[m],
    ) by {
        assert(sdec_of::<FieldInstance>()(items[m]) == spec_decode_field_instance(items[m]));
        lemma_field_instance_round_trip(items[m], s[m]);
    }
}

/// The one entry of an optional entity tile: nothing when the field was
/// absent, a null when it was null, the tile's wire object when it was set.
pub open spec fn maybe_tile_entry(m: Maybe<SpecOptionalTile>) -> Seq<(Seq<char>, SpecJson)> {
    match m {
        Maybe::Absent => Seq::empty(),
        Maybe::Null => seq![("__tile"@, SpecJson::Null)],
        Maybe::Value(t) => seq![("__tile"@, spec_encode_optional_tile(t))],
    }
}

/// The wire object of an entity instance: the named fields in this order, the
/// optional tile only when the document carried it, then the retained extras.
pub open spec fn spec_encode_entity(x: SpecEntityInstance) -> SpecJson {
    SpecJson::Obj(
        seq![
            ("__grid"@, SpecJson::Arr(num_items(x.__grid))),
            ("__identifier"@, SpecJson::Str(x.__identifier)),
        ] + (maybe_tile_entry(x.__tile) + (seq![
            ("defUid"@, SpecJson::Num(spec_render_int(x.def_uid))),
            ("fieldInstances"@, SpecJson::Arr(field_items(x.field_instances))),
            ("px"@, SpecJson::Arr(num_items(x.px))),
        ] + x.extras)),
    )
}

/// The six field names of an entity instance are pairwise different.
pub proof fn lemma_entity_keys_distinct()
    ensures
        "__grid"@ != "__identifier"@ && "__grid"@ != "__tile"@ && "__grid"@ != "defUid"@
            && "__grid"@ != "fieldInstances"@ && "__grid"@ != "px"@,
        "__identifier"@ != "__tile"@ && "__identifier"@ != "defUid"@ && "__identifier"@
            != "fieldInstances"@ && "__identifier"@ != "px"@,
        "__tile"@ != "defUid"@ && "__tile"@ != "fieldInstances"@ && "__tile"@ != "px"@,
        "defUid"@ != "fieldInstances"@ && "defUid"@ != "px"@,
        "fieldInstances"@ != "px"@,
{
    reveal_strlit("__grid");
    reveal_strlit("__identifier");
    reveal_strlit("__tile");
    reveal_strlit("defUid");
    reveal_strlit("fieldInstances");
    reveal_strlit("px");
    assert("__grid"@.len() == 6 && "__identifier"@.len() == 12 && "__tile"@.len() == 6
        && "defUid"@.len() == 6 && "fieldInstances"@.len() == 14 && "px"@.len() == 2);
    assert("__grid"@[2] == 'g' && "__tile"@[2] == 't' && "defUid"@[2] == 'f');
}

/// An accepted entity instance prints back to a value deep-equal to the one
/// it was decoded from.
#[verifier::rlimit(100)]
pub proof fn lemma_entity_round_trip(j: SpecJson, x: SpecEntityInstance)
    requires
        spec_objs_unique(j),
        spec_decode_entity(j) == Ok::<SpecEntityInstance, SpecErr>(x),
    ensures
        json_equiv(spec_encode_entity(x), j),
{
    let e = j->Obj_0;
    let known = EntityInstance::known();
    let enc = spec_encode_entity(x)->Obj_0;
    lemma_entity_keys_distinct();
    let p1: Seq<(Seq<char>, SpecJson)> = seq![
        ("__grid"@, SpecJson::Arr(num_items(x.__grid))),
        ("__identifier"@, SpecJson::Str(x.__identifier)),
    ];
    let pt = maybe_tile_entry(x.__tile);
    let p2: Seq<(Seq<char>, SpecJson)> = seq![
        ("defUid"@, SpecJson::Num(spec_render_int(x.def_uid))),
        ("fieldInstances"@, SpecJson::Arr(field_items(x.field_instances))),
        ("px"@, SpecJson::Arr(num_items(x.px))),
    ];
    let ex = x.extras;
    assert(enc == p1 + (pt + (p2 + ex)));

    // the original values of the named fields
    let vgrid = spec_lookup(e, "__grid"@)->Some_0;
    let vident = spec_lookup(e, "__identifier"@)->Some_0;
    let vuid = spec_lookup(e, "defUid"@)->Some_0;
    let vfields = spec_lookup(e, "fieldInstances"@)->Some_0;
    let vpx = spec_lookup(e, "px"@)->Some_0;
    lemma_int_arr_round_trip(vgrid->Arr_0, x.__grid);
    lemma_int_arr_round_trip(vpx->Arr_0, x.px);
    lemma_render_of_parse(vuid->Num_0, x.def_uid);
    lemma_lookup_objs_unique(j, "__grid"@);
    lemma_lookup_objs_unique(j, "__identifier"@);
    lemma_lookup_objs_unique(j, "defUid"@);
    lemma_lookup_objs_unique(j, "fieldInstances"@);
    lemma_lookup_objs_unique(j, "px"@);
    lemma_field_list_round_trip(vfields->Arr_0, x.field_instances);
    assert(json_equiv(SpecJson::Arr(field_items(x.field_instances)), vfields));

    // the lookups the encoded object answers
    lemma_extras_unique(e, known);
    assert(spec_keys_unique(ex));
    assert(spec_keys_unique(p1) && spec_keys_unique(p2));
    assert(spec_keys_unique(pt)) by {
        match x.__tile {
            Maybe::Absent => {},
            Maybe::Null => {},
            Maybe::Value(_) => {},
        }
    }
    assert forall|i: int| 0 <= i < p2.len() implies spec_lookup(ex, (#[trigger] p2[i]).0) is None by {
        lemma_extras_lookup(e, known, p2[i].0);
    }
    lemma_unique_append(p2, ex);
    assert forall|i: int| 0 <= i < pt.len() implies spec_lookup(p2 + ex, (#[trigger] pt[i]).0) is None by {
        lemma_lookup_append(p2, ex, pt[i].0);
        lemma_lookup_none_iff(p2, pt[i].0);
        lemma_extras_lookup(e, known, pt[i].0);
    }
    lemma_unique_append(pt, p2 + ex);
    assert forall|i: int| 0 <= i < p1.len() implies spec_lookup(pt + (p2 + ex), (#[trigger] p1[i]).0)
        is None by {
        lemma_lookup_append(pt, p2 + ex, p1[i].0);
        lemma_lookup_none_iff(pt, p1[i].0);
        lemma_lookup_append(p2, ex, p1[i].0);
        lemma_lookup_none_iff(p2, p1[i].0);
        lemma_extras_lookup(e, known, p1[i].0);
    }
    lemma_unique_append(p1, pt + (p2 + ex));
    assert(spec_keys_unique(enc));

    // every encoded entry is answered by the original with an equivalent value
    assert forall|m: int| 0 <= m < enc.len() implies spec_lookup(e, (#[trigger] enc[m]).0) is Some
        && json_equiv(enc[m].1, spec_lookup(e, enc[m].0)->Some_0) by {
        let back = p2 + ex;
        if m < 2 {
            assert(enc[m] == p1[m]);
            if m == 0 {
                assert(json_equiv(enc[m].1, vgrid)) by {
                    lemma_equiv_refl(vgrid);
                }
            } else {
                assert(json_equiv(enc[m].1, vident));
            }
        } else if m < 2 + pt.len() {
            assert(enc[m] == pt[m - 2]);
            let vt = spec_lookup(e, "__tile"@)->Some_0;
            match x.__tile {
                Maybe::Absent => {
                    assert(false);
                },
                Maybe::Null => {
                    assert(vt == SpecJson::Null);
                },
                Maybe::Value(tv) => {
                    lemma_lookup_objs_unique(j, "__tile"@);
                    assert(sdec_of::<OptionalTile>()(vt) == spec_decode_optional_tile(vt));
                    lemma_optional_tile_round_trip(vt, tv);
                },
            }
        } else if m < 2 + pt.len() + 3 {
            assert(enc[m] == p2[m - 2 - pt.len()]);
            if m - 2 - pt.len() == 0 {
            } else if m - 2 - pt.len() == 1 {
            } else {
                assert(json_equiv(enc[m].1, vpx)) by {
                    lemma_equiv_refl(vpx);
                }
            }
        } else {
            assert(enc[m] == ex[m - 5 - pt.len()]);
            lemma_extras_sub(e, known, m - 5 - pt.len());
            let i = choose|i: int| 0 <= i < e.len() && #[trigger] e[i] == ex[m - 5 - pt.len()];
            lemma_unique_lookup(e, i);
            assert(spec_objs_unique(e[i].1));
            lemma_equiv_refl(e[i].1);
        }
    }

    // every original entry is answered by the encoded object with an
    // equivalent value
    assert forall|i: int| 0 <= i < e.len() implies spec_lookup(enc, (#[trigger] e[i]).0) is Some
        && json_equiv(spec_lookup(enc, e[i].0)->Some_0, e[i].1) by {
        lemma_unique_lookup(e, i);
        let k = e[i].0;
        lemma_lookup_append(p1, pt + (p2 + ex), k);
        lemma_lookup_append(pt, p2 + ex, k);
        lemma_lookup_append(p2, ex, k);
        assert(spec_objs_unique(e[i].1));
        if known(k) {
            if k == "__grid"@ {
                lemma_lookup_at(p1, 0);
                lemma_equiv_refl(e[i].1);
            } else if k == "__identifier"@ {
                lemma_lookup_at(p1, 1);
            } else if k == "__tile"@ {
                lemma_lookup_none_iff(p1, k);
                let vt = e[i].1;
                match x.__tile {
                    Maybe::Absent => {
                        assert(false);
                    },
                    Maybe::Null => {
                        lemma_lookup_at(pt, 0);
                        assert(spec_lookup(pt, k) == Some(SpecJson::Null));
                    },
                    Maybe::Value(tv) => {
                        lemma_lookup_objs_unique(j, "__tile"@);
                        assert(sdec_of::<OptionalTile>()(vt) == spec_decode_optional_tile(vt));
                        lemma_optional_tile_round_trip(vt, tv);
                        lemma_lookup_at(pt, 0);
                        assert(spec_lookup(pt, k) == Some(spec_encode_optional_tile(tv)));
                    },
                }
            } else if k == "defUid"@ {
                lemma_lookup_none_iff(p1, k);
                lemma_lookup_none_iff(pt, k);
                lemma_lookup_at(p2, 0);
            } else if k == "fieldInstances"@ {
                lemma_lookup_none_iff(p1, k);
                lemma_lookup_none_iff(pt, k);
                lemma_lookup_at(p2, 1);
            } else {
                assert(k == "px"@);
                lemma_lookup_none_iff(p1, k);
                lemma_lookup_none_iff(pt, k);
                lemma_lookup_at(p2, 2);
                lemma_equiv_refl(e[i].1);
            }
        } else {
            lemma_lookup_none_iff(p1, k);
            lemma_lookup_none_iff(pt, k);
            lemma_lookup_none_iff(p2, k);
            assert(spec_lookup(pt, k) is None) by {
                match x.__tile {
                    Maybe::Absent => {},
                    Maybe::Null => {},
                    Maybe::Value(_) => {},
                }
            }
            lemma_extras_entry_lookup(e, known, i);
            lemma_equiv_refl(e[i].1);
        }
    }

    lemma_obj_equiv_from_lookups(enc, e);
}


/// The wire objects of a tile sequence, position by position.
pub open spec fn tile_items(s: Seq<SpecTileInstance>) -> Seq<SpecJson>
    decreases s.len(),
{
    if s.len() == 0 {
        Seq::empty()
    } else {
        tile_items(s.drop_last()).push(spec_encode_tile(s.last()))
    }
}

/// `tile_items` encodes every position.
pub proof fn lemma_tile_items(s: Seq<SpecTileInstance>)
    ensures
        tile_items(s).len() == s.len(),
        forall|i: int| 0 <= i < s.len() ==> tile_items(s)[i] == spec_encode_tile(#[trigger] s[i]),
    decreases s.len(),
{
    if s.len() > 0 {
        lemma_tile_items(s.drop_last());
        assert forall|i: int|
            0 <= i < s.len() implies tile_items(s)[i] == spec_encode_tile(#[trigger] s[i]) by {
            if i < s.len() - 1 {
                assert(s.drop_last()[i] == s[i]);
                assert(tile_items(s)[i] == tile_items(s.drop_last())[i]);
            } else {
                assert(s.last() == s[i]);
            }
        }
    }
}

/// An accepted tile array prints back to an array deep-equal to the one it
/// was decoded from, element by element.
pub proof fn lemma_tile_list_round_trip(items: Seq<SpecJson>, s: Seq<SpecTileInstance>)
    requires
        spec_list(items, sdec_of::<TileInstance>()) == Ok::<Seq<SpecTileInstance>, SpecErr>(s),
        forall|m: int| 0 <= m < items.len() ==> spec_objs_unique(#[trigger] items[m]),
    ensures
        json_equiv(SpecJson::Arr(tile_items(s)), SpecJson::Arr(items)),
{
    lemma_list_ok(items, items.len() as int, sdec_of::<TileInstance>(), s);
    lemma_tile_items(s);
    assert forall|m: int| 0 <= m < tile_items(s).len() implies json_equiv(
        #[trigger] tile_items(s)[m],
        SpecJson::Arr(items)->Arr_0[m],
    ) by {
        assert(sdec_of::<TileInstance>()(items[m]) == spec_decode_tile(items[m]));
        lemma_tile_round_trip(items[m], s[m]);
    }
}

/// The wire objects of an integer-grid cell sequence, position by position.
pub open spec fn cell_items(s: Seq<SpecIntGrid>) -> Seq<SpecJson>
    decreases s.len(),
{
    if s.len() == 0 {
        Seq::empty()
    } else {
        cell_items(s.drop_last()).push(spec_encode_int_grid(s.last()))
    }
}

/// `cell_items` encodes every position.
pub proof fn lemma_cell_items(s: Seq<SpecIntGrid>)
    ensures
        cell_items(s).len() == s.len(),
        forall|i: int| 0 <= i < s.len() ==> cell_items(s)[i] == spec_encode_int_grid(#[trigger] s[i]),
    decreases s.len(),
{
    if s.len() > 0 {
        lemma_cell_items(s.drop_last());
        assert forall|i: int|
            0 <= i < s.len() implies cell_items(s)[i] == spec_encode_int_grid(#[trigger] s[i]) by {
            if i < s.len() - 1 {
                assert(s.drop_last()[i] == s[i]);
                assert(cell_items(s)[i] == cell_items(s.drop_last())[i]);
            } else {
                assert(s.last() == s[i]);
            }
        }
    }
}

/// An accepted integer-grid cell array prints back to an array deep-equal to
/// the one it was decoded from, element by element.
pub proof fn lemma_cell_list_round_trip(items: Seq<SpecJson>, s: Seq<SpecIntGrid>)
    requires
        spec_list(items, sdec_of::<IntGrid>()) == Ok::<Seq<SpecIntGrid>, SpecErr>(s),
        forall|m: int| 0 <= m < items.len() ==> spec_objs_unique(#[trigger] items[m]),
    ensures
        json_equiv(SpecJson::Arr(cell_items(s)), SpecJson::Arr(items)),
{
    lemma_list_ok(items, items.len() as int, sdec_of::<IntGrid>(), s);
    lemma_cell_items(s);
    assert forall|m: int| 0 <= m < cell_items(s).len() implies json_equiv(
        #[trigger] cell_items(s)[m],
        SpecJson::Arr(items)->Arr_0[m],
    ) by {
        assert(sdec_of::<IntGrid>()(items[m]) == spec_decode_int_grid(items[m]));
        lemma_int_grid_round_trip(items[m], s[m]);
    }
}

/// The wire objects of an entity instance sequence, position by position.
pub open spec fn entity_items(s: Seq<SpecEntityInstance>) -> Seq<SpecJson>
    decreases s.len(),
{
    if s.len() == 0 {
        Seq::empty()
    } else {
        entity_items(s.drop_last()).push(spec_encode_entity(s.last()))
    }
}

/// `entity_items` encodes every position.
pub proof fn lemma_entity_items(s: Seq<SpecEntityInstance>)
    ensures
        entity_items(s).len() == s.len(),
        forall|i: int| 0 <= i < s.len() ==> entity_items(s)[i] == spec_encode_entity(#[trigger] s[i]),
    decreases s.len(),
{
    if s.len() > 0 {
        lemma_entity_items(s.drop_last());
        assert forall|i: int|
            0 <= i < s.len() implies entity_items(s)[i] == spec_encode_entity(#[trigger] s[i]) by {
            if i < s.len() - 1 {
                assert(s.drop_last()[i] == s[i]);
                assert(entity_items(s)[i] == entity_items(s.drop_last())[i]);
            } else {
                assert(s.last() == s[i]);
            }
        }
    }
}

/// An accepted entity array prints back to an array deep-equal to the one it
/// was decoded from, element by element.
pub proof fn lemma_entity_list_round_trip(items: Seq<SpecJson>, s: Seq<SpecEntityInstance>)
    requires
        spec_list(items, sdec_of::<EntityInstance>()) == Ok::<Seq<SpecEntityInstance>, SpecErr>(s),
        forall|m: int| 0 <= m < items.len() ==> spec_objs_unique(#[trigger] items[m]),
    ensures
        json_equiv(SpecJson::Arr(entity_items(s)), SpecJson::Arr(items)),
{
    lemma_list_ok(items, items.len() as int, sdec_of::<EntityInstance>(), s);
    lemma_entity_items(s);
    assert forall|m: int| 0 <= m < entity_items(s).len() implies json_equiv(
        #[trigger] entity_items(s)[m],
        SpecJson::Arr(items)->Arr_0[m],
    ) by {
        assert(sdec_of::<EntityInstance>()(items[m]) == spec_decode_entity(items[m]));
        lemma_entity_round_trip(items[m], s[m]);
    }
}

/// The wire spelling of a layer kind.
pub open spec fn layer_kind_text(k: LayerKind) -> Seq<char> {
    match k {
        LayerKind::IntGrid => "IntGrid"@,
        LayerKind::Entities => "Entities"@,
        LayerKind::Tiles => "Tiles"@,
        LayerKind::AutoLayer => "AutoLayer"@,
    }
}

/// A recognized kind string is the kind's own spelling: the closed set reads
/// back what it prints.
pub proof fn lemma_layer_kind_text(s: Seq<char>, k: LayerKind)
    requires
        spec_layer_kind(s) == Some(k),
    ensures
        layer_kind_text(k) == s,
{
}

/// The one entry of an optional integer field.
pub open spec fn maybe_num_entry(key: Seq<char>, m: Maybe<int>) -> Seq<(Seq<char>, SpecJson)> {
    match m {
        Maybe::Absent => Seq::empty(),
        Maybe::Null => seq![(key, SpecJson::Null)],
        Maybe::Value(n) => seq![(key, SpecJson::Num(spec_render_int(n)))],
    }
}

/// The one entry of an optional string field.
pub open spec fn maybe_str_entry(key: Seq<char>, m: Maybe<Seq<char>>) -> Seq<(Seq<char>, SpecJson)> {
    match m {
        Maybe::Absent => Seq::empty(),
        Maybe::Null => seq![(key, SpecJson::Null)],
        Maybe::Value(s) => seq![(key, SpecJson::Str(s))],
    }
}


/// The wire object of a layer instance: the named fields in this order, the
/// two optional tileset references only when the document carried them, then
/// the retained extras.
pub open spec fn spec_encode_layer(x: SpecLayerInstance) -> SpecJson {
    SpecJson::Obj(
        seq![
            ("__identifier"@, SpecJson::Str(x.__identifier)),
            ("__type"@, SpecJson::Str(layer_kind_text(x.__type))),
            ("__cWid"@, SpecJson::Num(spec_render_int(x.__c_wid))),
            ("__cHei"@, SpecJson::Num(spec_render_int(x.__c_hei))),
            ("__gridSize"@, SpecJson::Num(spec_render_int(x.__grid_size))),
            ("__opacity"@, SpecJson::Num(x.__opacity)),
            ("__pxTotalOffsetX"@, SpecJson::Num(spec_render_int(x.__px_total_offset_x))),
            ("__pxTotalOffsetY"@, SpecJson::Num(spec_render_int(x.__px_total_offset_y))),
        ] + (maybe_num_entry("__tilesetDefUid"@, x.__tileset_def_uid) + (maybe_str_entry(
            "__tilesetRelPath"@,
            x.__tileset_rel_path,
        ) + (seq![
            ("levelId"@, SpecJson::Num(spec_render_int(x.level_id))),
            ("layerDefUid"@, SpecJson::Num(spec_render_int(x.layer_def_uid))),
            ("pxOffsetX"@, SpecJson::Num(spec_render_int(x.px_offset_x))),
            ("pxOffsetY"@, SpecJson::Num(spec_render_int(x.px_offset_y))),
            ("intGrid"@, SpecJson::Arr(cell_items(x.int_grid))),
            ("autoLayerTiles"@, SpecJson::Arr(tile_items(x.auto_layer_tiles))),
            ("seed"@, SpecJson::Num(spec_render_int(x.seed))),
            ("gridTiles"@, SpecJson::Arr(tile_items(x.grid_tiles))),
            ("entityInstances"@, SpecJson::Arr(entity_items(x.entity_instances))),
        ] + x.extras))),
    )
}

/// The nineteen field names of a layer instance are pairwise different. The
/// facts below pin each name's length and, within a length, a
/// distinguishing character.
pub proof fn lemma_layer_keys_facts()
    ensures
        "__identifier"@.len() == 12,
        "__type"@.len() == 6 && "__cWid"@.len() == 6 && "__cHei"@.len() == 6,
        "__gridSize"@.len() == 10,
        "__opacity"@.len() == 9 && "pxOffsetX"@.len() == 9 && "pxOffsetY"@.len() == 9
            && "gridTiles"@.len() == 9,
        "__pxTotalOffsetX"@.len() == 16 && "__pxTotalOffsetY"@.len() == 16 && "__tilesetRelPath"@.len()
            == 16,
        "__tilesetDefUid"@.len() == 15 && "entityInstances"@.len() == 15,
        "levelId"@.len() == 7 && "intGrid"@.len() == 7,
        "layerDefUid"@.len() == 11,
        "autoLayerTiles"@.len() == 14,
        "seed"@.len() == 4,
        "__type"@[2] == 't' && "__cWid"@[2] == 'c' && "__cHei"@[2] == 'c',
        "__cWid"@[3] == 'W' && "__cHei"@[3] == 'H',
        "levelId"@[0] == 'l' && "intGrid"@[0] == 'i',
        "__opacity"@[0] == '_' && "pxOffsetX"@[0] == 'p' && "pxOffsetY"@[0] == 'p' && "gridTiles"@[0]
            == 'g',
        "pxOffsetX"@[8] == 'X' && "pxOffsetY"@[8] == 'Y',
        "__tilesetDefUid"@[0] == '_' && "entityInstances"@[0] == 'e',
        "__pxTotalOffsetX"@[2] == 'p' && "__pxTotalOffsetY"@[2] == 'p' && "__tilesetRelPath"@[2]
            == 't',
        "__pxTotalOffsetX"@[15] == 'X' && "__pxTotalOffsetY"@[15] == 'Y',
{
    reveal_strlit("__identifier");
    reveal_strlit("__type");
    reveal_strlit("__cWid");
    reveal_strlit("__cHei");
    reveal_strlit("__gridSize");
    reveal_strlit("__opacity");
    reveal_strlit("__pxTotalOffsetX");
    reveal_strlit("__pxTotalOffsetY");
    reveal_strlit("__tilesetDefUid");
    reveal_strlit("__tilesetRelPath");
    reveal_strlit("levelId");
    reveal_strlit("layerDefUid");
    reveal_strlit("pxOffsetX");
    reveal_strlit("pxOffsetY");
    reveal_strlit("intGrid");
    reveal_strlit("autoLayerTiles");
    reveal_strlit("seed");
    reveal_strlit("gridTiles");
    reveal_strlit("entityInstances");
}

/// An accepted layer instance prints back to a value deep-equal to the one it
/// was decoded from.
#[verifier::rlimit(100)]
pub proof fn lemma_layer_round_trip(j: SpecJson, x: SpecLayerInstance)
    requires
        spec_objs_unique(j),
        spec_decode_layer(j) == Ok::<SpecLayerInstance, SpecErr>(x),
    ensures
        json_equiv(spec_encode_layer(x), j),
{
    let e = j->Obj_0;
    let known = LayerInstance::known();
    let enc = spec_encode_layer(x)->Obj_0;
    lemma_layer_keys_facts();
    let p1: Seq<(Seq<char>, SpecJson)> = seq![
        ("__identifier"@, SpecJson::Str(x.__identifier)),
        ("__type"@, SpecJson::Str(layer_kind_text(x.__type))),
        ("__cWid"@, SpecJson::Num(spec_render_int(x.__c_wid))),
        ("__cHei"@, SpecJson::Num(spec_render_int(x.__c_hei))),
        ("__gridSize"@, SpecJson::Num(spec_render_int(x.__grid_size))),
        ("__opacity"@, SpecJson::Num(x.__opacity)),
        ("__pxTotalOffsetX"@, SpecJson::Num(spec_render_int(x.__px_total_offset_x))),
        ("__pxTotalOffsetY"@, SpecJson::Num(spec_render_int(x.__px_total_offset_y))),
    ];
    let m1 = maybe_num_entry("__tilesetDefUid"@, x.__tileset_def_uid);
    let m2 = maybe_str_entry("__tilesetRelPath"@, x.__tileset_rel_path);
    let p2: Seq<(Seq<char>, SpecJson)> = seq![
        ("levelId"@, SpecJson::Num(spec_render_int(x.level_id))),
        ("layerDefUid"@, SpecJson::Num(spec_render_int(x.layer_def_uid))),
        ("pxOffsetX"@, SpecJson::Num(spec_render_int(x.px_offset_x))),
        ("pxOffsetY"@, SpecJson::Num(spec_render_int(x.px_offset_y))),
        ("intGrid"@, SpecJson::Arr(cell_items(x.int_grid))),
        ("autoLayerTiles"@, SpecJson::Arr(tile_items(x.auto_layer_tiles))),
        ("seed"@, SpecJson::Num(spec_render_int(x.seed))),
        ("gridTiles"@, SpecJson::Arr(tile_items(x.grid_tiles))),
        ("entityInstances"@, SpecJson::Arr(entity_items(x.entity_instances))),
    ];
    let ex = x.extras;
    assert(enc == p1 + (m1 + (m2 + (p2 + ex))));

    // the original values of the named fields, and their equivalences
    let vident = spec_lookup(e, "__identifier"@)->Some_0;
    let vkind = spec_lookup(e, "__type"@)->Some_0;
    let vcw = spec_lookup(e, "__cWid"@)->Some_0;
    let vch = spec_lookup(e, "__cHei"@)->Some_0;
    let vgs = spec_lookup(e, "__gridSize"@)->Some_0;
    let vop = spec_lookup(e, "__opacity"@)->Some_0;
    let vox = spec_lookup(e, "__pxTotalOffsetX"@)->Some_0;
    let voy = spec_lookup(e, "__pxTotalOffsetY"@)->Some_0;
    let vlid = spec_lookup(e, "levelId"@)->Some_0;
    let vldu = spec_lookup(e, "layerDefUid"@)->Some_0;
    let vpox = spec_lookup(e, "pxOffsetX"@)->Some_0;
    let vpoy = spec_lookup(e, "pxOffsetY"@)->Some_0;
    let vig = spec_lookup(e, "intGrid"@)->Some_0;
    let vat = spec_lookup(e, "autoLayerTiles"@)->Some_0;
    let vseed = spec_lookup(e, "seed"@)->Some_0;
    let vgt = spec_lookup(e, "gridTiles"@)->Some_0;
    let ven = spec_lookup(e, "entityInstances"@)->Some_0;
    lemma_layer_kind_text(vkind->Str_0, x.__type);
    lemma_render_of_parse(vcw->Num_0, x.__c_wid);
    lemma_render_of_parse(vch->Num_0, x.__c_hei);
    lemma_render_of_parse(vgs->Num_0, x.__grid_size);
    lemma_render_of_parse(vox->Num_0, x.__px_total_offset_x);
    lemma_render_of_parse(voy->Num_0, x.__px_total_offset_y);
    lemma_render_of_parse(vlid->Num_0, x.level_id);
    lemma_render_of_parse(vldu->Num_0, x.layer_def_uid);
    lemma_render_of_parse(vpox->Num_0, x.px_offset_x);
    lemma_render_of_parse(vpoy->Num_0, x.px_offset_y);
    lemma_render_of_parse(vseed->Num_0, x.seed);
    lemma_lookup_objs_unique(j, "intGrid"@);
    lemma_lookup_objs_unique(j, "autoLayerTiles"@);
    lemma_lookup_objs_unique(j, "gridTiles"@);
    lemma_lookup_objs_unique(j, "entityInstances"@);
    lemma_cell_list_round_trip(vig->Arr_0, x.int_grid);
    lemma_tile_list_round_trip(vat->Arr_0, x.auto_layer_tiles);
    lemma_tile_list_round_trip(vgt->Arr_0, x.grid_tiles);
    lemma_entity_list_round_trip(ven->Arr_0, x.entity_instances);

    // the encoded object has pairwise distinct keys
    lemma_extras_unique(e, known);
    assert(spec_keys_unique(ex));
    assert(spec_keys_unique(p1) && spec_keys_unique(p2));
    assert(spec_keys_unique(m1)) by {
        match x.__tileset_def_uid {
            Maybe::Absent => {},
            Maybe::Null => {},
            Maybe::Value(_) => {},
        }
    }
    assert(spec_keys_unique(m2)) by {
        match x.__tileset_rel_path {
            Maybe::Absent => {},
            Maybe::Null => {},
            Maybe::Value(_) => {},
        }
    }
    assert forall|i: int| 0 <= i < p2.len() implies spec_lookup(ex, (#[trigger] p2[i]).0) is None by {
        lemma_extras_lookup(e, known, p2[i].0);
    }
    lemma_unique_append(p2, ex);
    assert forall|i: int| 0 <= i < m2.len() implies spec_lookup(p2 + ex, (#[trigger] m2[i]).0) is None by {
        lemma_lookup_append(p2, ex, m2[i].0);
        lemma_lookup_none_iff(p2, m2[i].0);
        lemma_extras_lookup(e, known, m2[i].0);
    }
    lemma_unique_append(m2, p2 + ex);
    assert forall|i: int| 0 <= i < m1.len() implies spec_lookup(m2 + (p2 + ex), (#[trigger] m1[i]).0)
        is None by {
        lemma_lookup_append(m2, p2 + ex, m1[i].0);
        lemma_lookup_none_iff(m2, m1[i].0);
        lemma_lookup_append(p2, ex, m1[i].0);
        lemma_lookup_none_iff(p2, m1[i].0);
        lemma_extras_lookup(e, known, m1[i].0);
    }
    lemma_unique_append(m1, m2 + (p2 + ex));
    assert forall|i: int| 0 <= i < p1.len() implies spec_lookup(m1 + (m2 + (p2 + ex)), (#[trigger] p1[i]).0)
        is None by {
        lemma_lookup_append(m1, m2 + (p2 + ex), p1[i].0);
        lemma_lookup_none_iff(m1, p1[i].0);
        lemma_lookup_append(m2, p2 + ex, p1[i].0);
        lemma_lookup_none_iff(m2, p1[i].0);
        lemma_lookup_append(p2, ex, p1[i].0);
        lemma_lookup_none_iff(p2, p1[i].0);
        lemma_extras_lookup(e, known, p1[i].0);
    }
    lemma_unique_append(p1, m1 + (m2 + (p2 + ex)));
    assert(spec_keys_unique(enc));

    // every encoded entry is answered by the original with an equivalent value
    assert forall|m: int| 0 <= m < enc.len() implies spec_lookup(e, (#[trigger] enc[m]).0) is Some
        && json_equiv(enc[m].1, spec_lookup(e, enc[m].0)->Some_0) by {
        if m < 8 {
            assert(enc[m] == p1[m]);
        } else if m < 8 + m1.len() {
            assert(enc[m] == m1[m - 8]);
            let vt = spec_lookup(e, "__tilesetDefUid"@)->Some_0;
            match x.__tileset_def_uid {
                Maybe::Absent => {
                    assert(false);
                },
                Maybe::Null => {
                    assert(vt == SpecJson::Null);
                },
                Maybe::Value(n) => {
                    lemma_render_of_parse(vt->Num_0, n);
                },
            }
        } else if m < 8 + m1.len() + m2.len() {
            assert(enc[m] == m2[m - 8 - m1.len()]);
            let vt = spec_lookup(e, "__tilesetRelPath"@)->Some_0;
            match x.__tileset_rel_path {
                Maybe::Absent => {
                    assert(false);
                },
                Maybe::Null => {
                    assert(vt == SpecJson::Null);
                },
                Maybe::Value(_) => {},
            }
        } else if m < 8 + m1.len() + m2.len() + 9 {
            assert(enc[m] == p2[m - 8 - m1.len() - m2.len()]);
        } else {
            assert(enc[m] == ex[m - 17 - m1.len() - m2.len()]);
            lemma_extras_sub(e, known, m - 17 - m1.len() - m2.len());
            let i = choose|i: int| 0 <= i < e.len() && #[trigger] e[i] == ex[m - 17 - m1.len() - m2.len()];
            lemma_unique_lookup(e, i);
            assert(spec_objs_unique(e[i].1));
            lemma_equiv_refl(e[i].1);
        }
    }

    // every original entry is answered by the encoded object with an
    // equivalent value
    assert forall|i: int| 0 <= i < e.len() implies spec_lookup(enc, (#[trigger] e[i]).0) is Some
        && json_equiv(spec_lookup(enc, e[i].0)->Some_0, e[i].1) by {
        lemma_unique_lookup(e, i);
        let k = e[i].0;
        lemma_lookup_append(p1, m1 + (m2 + (p2 + ex)), k);
        lemma_lookup_append(m1, m2 + (p2 + ex), k);
        lemma_lookup_append(m2, p2 + ex, k);
        lemma_lookup_append(p2, ex, k);
        lemma_lookup_none_iff(p1, k);
        lemma_lookup_none_iff(m1, k);
        lemma_lookup_none_iff(m2, k);
        lemma_lookup_none_iff(p2, k);
        assert(spec_objs_unique(e[i].1));
        if known(k) {
            if k == "__identifier"@ {
                lemma_lookup_at(p1, 0);
            } else if k == "__type"@ {
                lemma_lookup_at(p1, 1);
            } else if k == "__cWid"@ {
                lemma_lookup_at(p1, 2);
            } else if k == "__cHei"@ {
                lemma_lookup_at(p1, 3);
            } else if k == "__gridSize"@ {
                lemma_lookup_at(p1, 4);
            } else if k == "__opacity"@ {
                lemma_lookup_at(p1, 5);
            } else if k == "__pxTotalOffsetX"@ {
                lemma_lookup_at(p1, 6);
            } else if k == "__pxTotalOffsetY"@ {
                lemma_lookup_at(p1, 7);
            } else if k == "__tilesetDefUid"@ {
                match x.__tileset_def_uid {
                    Maybe::Absent => {
                        assert(false);
                    },
                    Maybe::Null => {
                        lemma_lookup_at(m1, 0);
                    },
                    Maybe::Value(n) => {
                        lemma_render_of_parse(e[i].1->Num_0, n);
                        lemma_lookup_at(m1, 0);
                    },
                }
            } else if k == "__tilesetRelPath"@ {
                match x.__tileset_rel_path {
                    Maybe::Absent => {
                        assert(false);
                    },
                    Maybe::Null => {
                        lemma_lookup_at(m2, 0);
                    },
                    Maybe::Value(_) => {
                        lemma_lookup_at(m2, 0);
                    },
                }
            } else if k == "levelId"@ {
                lemma_lookup_at(p2, 0);
            } else if k == "layerDefUid"@ {
                lemma_lookup_at(p2, 1);
            } else if k == "pxOffsetX"@ {
                lemma_lookup_at(p2, 2);
            } else if k == "pxOffsetY"@ {
                lemma_lookup_at(p2, 3);
            } else if k == "intGrid"@ {
                lemma_lookup_at(p2, 4);
            } else if k == "autoLayerTiles"@ {
                lemma_lookup_at(p2, 5);
            } else if k == "seed"@ {
                lemma_lookup_at(p2, 6);
            } else if k == "gridTiles"@ {
                lemma_lookup_at(p2, 7);
            } else {
                assert(k == "entityInstances"@);
                lemma_lookup_at(p2, 8);
            }
        } else {
            lemma_extras_entry_lookup(e, known, i);
            lemma_equiv_refl(e[i].1);
        }
    }

    lemma_obj_equiv_from_lookups(enc, e);
}


/// The wire objects of a layer instance sequence, position by position.
pub open spec fn layer_items(s: Seq<SpecLayerInstance>) -> Seq<SpecJson>
    decreases s.len(),
{
    if s.len() == 0 {
        Seq::empty()
    } else {
        layer_items(s.drop_last()).push(spec_encode_layer(s.last()))
    }
}

/// `layer_items` encodes every position.
pub proof fn lemma_layer_items(s: Seq<SpecLayerInstance>)
    ensures
        layer_items(s).len() == s.len(),
        forall|i: int| 0 <= i < s.len() ==> layer_items(s)[i] == spec_encode_layer(#[trigger] s[i]),
    decreases s.len(),
{
    if s.len() > 0 {
        lemma_layer_items(s.drop_last());
        assert forall|i: int|
            0 <= i < s.len() implies layer_items(s)[i] == spec_encode_layer(#[trigger] s[i]) by {
            if i < s.len() - 1 {
                assert(s.drop_last()[i] == s[i]);
                assert(layer_items(s)[i] == layer_items(s.drop_last())[i]);
            } else {
                assert(s.last() == s[i]);
            }
        }
    }
}

/// An accepted layer array prints back to an array deep-equal to the one it
/// was decoded from, element by element.
pub proof fn lemma_layer_list_round_trip(items: Seq<SpecJson>, s: Seq<SpecLayerInstance>)
    requires
        spec_list(items, sdec_of::<LayerInstance>()) == Ok::<Seq<SpecLayerInstance>, SpecErr>(s),
        forall|m: int| 0 <= m < items.len() ==> spec_objs_unique(#[trigger] items[m]),
    ensures
        json_equiv(SpecJson::Arr(layer_items(s)), SpecJson::Arr(items)),
{
    lemma_list_ok(items, items.len() as int, sdec_of::<LayerInstance>(), s);
    lemma_layer_items(s);
    assert forall|m: int| 0 <= m < layer_items(s).len() implies json_equiv(
        #[trigger] layer_items(s)[m],
        SpecJson::Arr(items)->Arr_0[m],
    ) by {
        assert(sdec_of::<LayerInstance>()(items[m]) == spec_decode_layer(items[m]));
        lemma_layer_round_trip(items[m], s[m]);
    }
}

/// The one entry of the optional layer-instance array: nothing when the field
/// was absent, a null for a level whose layer data lives in an external file,
/// the encoded array when it was inlined.
pub open spec fn maybe_layers_entry(m: Maybe<Seq<SpecLayerInstance>>) -> Seq<(Seq<char>, SpecJson)> {
    match m {
        Maybe::Absent => Seq::empty(),
        Maybe::Null => seq![("layerInstances"@, SpecJson::Null)],
        Maybe::Value(s) => seq![("layerInstances"@, SpecJson::Arr(layer_items(s)))],
    }
}

/// The wire object of a level: the named fields in this order, the optional
/// fields only when the document carried them, then the retained extras.
pub open spec fn spec_encode_level(x: SpecLevel) -> SpecJson {
    SpecJson::Obj(
        seq![
            ("identifier"@, SpecJson::Str(x.identifier)),
            ("uid"@, SpecJson::Num(spec_render_int(x.uid))),
            ("worldX"@, SpecJson::Num(spec_render_int(x.world_x))),
            ("worldY"@, SpecJson::Num(spec_render_int(x.world_y))),
            ("pxWid"@, SpecJson::Num(spec_render_int(x.px_wid))),
            ("pxHei"@, SpecJson::Num(spec_render_int(x.px_hei))),
            ("__bgColor"@, SpecJson::Str(x.__bg_color)),
        ] + (maybe_str_entry("bgColor"@, x.bg_color) + (maybe_str_entry(
            "externalRelPath"@,
            x.external_rel_path,
        ) + (maybe_layers_entry(x.layer_instances) + x.extras))),
    )
}

/// The ten field names of a level are pairwise different: each name's length,
/// and a distinguishing character within a length.
pub proof fn lemma_level_keys_facts()
    ensures
        "identifier"@.len() == 10,
        "uid"@.len() == 3,
        "worldX"@.len() == 6 && "worldY"@.len() == 6,
        "pxWid"@.len() == 5 && "pxHei"@.len() == 5,
        "__bgColor"@.len() == 9,
        "bgColor"@.len() == 7,
        "externalRelPath"@.len() == 15,
        "layerInstances"@.len() == 14,
        "worldX"@[5] == 'X' && "worldY"@[5] == 'Y',
        "pxWid"@[2] == 'W' && "pxHei"@[2] == 'H',
{
    reveal_strlit("identifier");
    reveal_strlit("uid");
    reveal_strlit("worldX");
    reveal_strlit("worldY");
    reveal_strlit("pxWid");
    reveal_strlit("pxHei");
    reveal_strlit("__bgColor");
    reveal_strlit("bgColor");
    reveal_strlit("externalRelPath");
    reveal_strlit("layerInstances");
}

/// An accepted level prints back to a value deep-equal to the one it was
/// decoded from: the whole level subtree of the schema claims round-trip
/// fidelity.
#[verifier::rlimit(100)]
pub proof fn lemma_level_round_trip(j: SpecJson, x: SpecLevel)
    requires
        spec_objs_unique(j),
        spec_decode_level(j) == Ok::<SpecLevel, SpecErr>(x),
    ensures
        json_equiv(spec_encode_level(x), j),
{
    let e = j->Obj_0;
    let known = Level::known();
    let enc = spec_encode_level(x)->Obj_0;
    lemma_level_keys_facts();
    let p1: Seq<(Seq<char>, SpecJson)> = seq![
        ("identifier"@, SpecJson::Str(x.identifier)),
        ("uid"@, SpecJson::Num(spec_render_int(x.uid))),
        ("worldX"@, SpecJson::Num(spec_render_int(x.world_x))),
        ("worldY"@, SpecJson::Num(spec_render_int(x.world_y))),
        ("pxWid"@, SpecJson::Num(spec_render_int(x.px_wid))),
        ("pxHei"@, SpecJson::Num(spec_render_int(x.px_hei))),
        ("__bgColor"@, SpecJson::Str(x.__bg_color)),
    ];
    let m1 = maybe_str_entry("bgColor"@, x.bg_color);
    let m2 = maybe_str_entry("externalRelPath"@, x.external_rel_path);
    let m3 = maybe_layers_entry(x.layer_instances);
    let ex = x.extras;
    assert(enc == p1 + (m1 + (m2 + (m3 + ex))));

    // the original values of the named fields, and their equivalences
    let vident = spec_lookup(e, "identifier"@)->Some_0;
    let vuid = spec_lookup(e, "uid"@)->Some_0;
    let vwx = spec_lookup(e, "worldX"@)->Some_0;
    let vwy = spec_lookup(e, "worldY"@)->Some_0;
    let vpw = spec_lookup(e, "pxWid"@)->Some_0;
    let vph = spec_lookup(e, "pxHei"@)->Some_0;
    lemma_render_of_parse(vuid->Num_0, x.uid);
    lemma_render_of_parse(vwx->Num_0, x.world_x);
    lemma_render_of_parse(vwy->Num_0, x.world_y);
    lemma_render_of_parse(vpw->Num_0, x.px_wid);
    lemma_render_of_parse(vph->Num_0, x.px_hei);

    // the encoded object has pairwise distinct keys
    lemma_extras_unique(e, known);
    assert(spec_keys_unique(ex));
    assert(spec_keys_unique(p1));
    assert(spec_keys_unique(m1)) by {
        match x.bg_color {
            Maybe::Absent => {},
            Maybe::Null => {},
            Maybe::Value(_) => {},
        }
    }
    assert(spec_keys_unique(m2)) by {
        match x.external_rel_path {
            Maybe::Absent => {},
            Maybe::Null => {},
            Maybe::Value(_) => {},
        }
    }
    assert(spec_keys_unique(m3)) by {
        match x.layer_instances {
            Maybe::Absent => {},
            Maybe::Null => {},
            Maybe::Value(_) => {},
        }
    }
    assert forall|i: int| 0 <= i < m3.len() implies spec_lookup(ex, (#[trigger] m3[i]).0) is None by {
        lemma_extras_lookup(e, known, m3[i].0);
    }
    lemma_unique_append(m3, ex);
    assert forall|i: int| 0 <= i < m2.len() implies spec_lookup(m3 + ex, (#[trigger] m2[i]).0) is None by {
        lemma_lookup_append(m3, ex, m2[i].0);
        lemma_lookup_none_iff(m3, m2[i].0);
        lemma_extras_lookup(e, known, m2[i].0);
    }
    lemma_unique_append(m2, m3 + ex);
    assert forall|i: int| 0 <= i < m1.len() implies spec_lookup(m2 + (m3 + ex), (#[trigger] m1[i]).0)
        is None by {
        lemma_lookup_append(m2, m3 + ex, m1[i].0);
        lemma_lookup_none_iff(m2, m1[i].0);
        lemma_lookup_append(m3, ex, m1[i].0);
        lemma_lookup_none_iff(m3, m1[i].0);
        lemma_extras_lookup(e, known, m1[i].0);
    }
    lemma_unique_append(m1, m2 + (m3 + ex));
    assert forall|i: int| 0 <= i < p1.len() implies spec_lookup(m1 + (m2 + (m3 + ex)), (#[trigger] p1[i]).0)
        is None by {
        lemma_lookup_append(m1, m2 + (m3 + ex), p1[i].0);
        lemma_lookup_none_iff(m1, p1[i].0);
        lemma_lookup_append(m2, m3 + ex, p1[i].0);
        lemma_lookup_none_iff(m2, p1[i].0);
        lemma_lookup_append(m3, ex, p1[i].0);
        lemma_lookup_none_iff(m3, p1[i].0);
        lemma_extras_lookup(e, known, p1[i].0);
    }
    lemma_unique_append(p1, m1 + (m2 + (m3 + ex)));
    assert(spec_keys_unique(enc));

    // every encoded entry is answered by the original with an equivalent value
    assert forall|m: int| 0 <= m < enc.len() implies spec_lookup(e, (#[trigger] enc[m]).0) is Some
        && json_equiv(enc[m].1, spec_lookup(e, enc[m].0)->Some_0) by {
        if m < 7 {
            assert(enc[m] == p1[m]);
        } else if m < 7 + m1.len() {
            assert(enc[m] == m1[m - 7]);
            let vt = spec_lookup(e, "bgColor"@)->Some_0;
            match x.bg_color {
                Maybe::Absent => {
                    assert(false);
                },
                Maybe::Null => {
                    assert(vt == SpecJson::Null);
                },
                Maybe::Value(_) => {},
            }
        } else if m < 7 + m1.len() + m2.len() {
            assert(enc[m] == m2[m - 7 - m1.len()]);
            let vt = spec_lookup(e, "externalRelPath"@)->Some_0;
            match x.external_rel_path {
                Maybe::Absent => {
                    assert(false);
                },
                Maybe::Null => {
                    assert(vt == SpecJson::Null);
                },
                Maybe::Value(_) => {},
            }
        } else if m < 7 + m1.len() + m2.len() + m3.len() {
            assert(enc[m] == m3[m - 7 - m1.len() - m2.len()]);
            let vt = spec_lookup(e, "layerInstances"@)->Some_0;
            match x.layer_instances {
                Maybe::Absent => {
                    assert(false);
                },
                Maybe::Null => {
                    assert(vt == SpecJson::Null);
                },
                Maybe::Value(layers) => {
                    lemma_lookup_objs_unique(j, "layerInstances"@);
                    lemma_layer_list_round_trip(vt->Arr_0, layers);
                },
            }
        } else {
            assert(enc[m] == ex[m - 7 - m1.len() - m2.len() - m3.len()]);
            lemma_extras_sub(e, known, m - 7 - m1.len() - m2.len() - m3.len());
            let i = choose|i: int|
                0 <= i < e.len() && #[trigger] e[i] == ex[m - 7 - m1.len() - m2.len() - m3.len()];
            lemma_unique_lookup(e, i);
            assert(spec_objs_unique(e[i].1));
            lemma_equiv_refl(e[i].1);
        }
    }

    // every original entry is answered by the encoded object with an
    // equivalent value
    assert forall|i: int| 0 <= i < e.len() implies spec_lookup(enc, (#[trigger] e[i]).0) is Some
        && json_equiv(spec_lookup(enc, e[i].0)->Some_0, e[i].1) by {
        lemma_unique_lookup(e, i);
        let k = e[i].0;
        lemma_lookup_append(p1, m1 + (m2 + (m3 + ex)), k);
        lemma_lookup_append(m1, m2 + (m3 + ex), k);
        lemma_lookup_append(m2, m3 + ex, k);
        lemma_lookup_append(m3, ex, k);
        lemma_lookup_none_iff(p1, k);
        lemma_lookup_none_iff(m1, k);
        lemma_lookup_none_iff(m2, k);
        lemma_lookup_none_iff(m3, k);
        assert(spec_objs_unique(e[i].1));
        if known(k) {
            if k == "identifier"@ {
                lemma_lookup_at(p1, 0);
            } else if k == "uid"@ {
                lemma_lookup_at(p1, 1);
            } else if k == "worldX"@ {
                lemma_lookup_at(p1, 2);
            } else if k == "worldY"@ {
                lemma_lookup_at(p1, 3);
            } else if k == "pxWid"@ {
                lemma_lookup_at(p1, 4);
            } else if k == "pxHei"@ {
                lemma_lookup_at(p1, 5);
            } else if k == "__bgColor"@ {
                lemma_lookup_at(p1, 6);
            } else if k == "bgColor"@ {
                match x.bg_color {
                    Maybe::Absent => {
                        assert(false);
                    },
                    Maybe::Null => {
                        lemma_lookup_at(m1, 0);
                    },
                    Maybe::Value(_) => {
                        lemma_lookup_at(m1, 0);
                    },
                }
            } else if k == "externalRelPath"@ {
                match x.external_rel_path {
                    Maybe::Absent => {
                        assert(false);
                    },
                    Maybe::Null => {
                        lemma_lookup_at(m2, 0);
                    },
                    Maybe::Value(_) => {
                        lemma_lookup_at(m2, 0);
                    },
                }
            } else {
                assert(k == "layerInstances"@);
                match x.layer_instances {
                    Maybe::Absent => {
                        assert(false);
                    },
                    Maybe::Null => {
                        lemma_lookup_at(m3, 0);
                    },
                    Maybe::Value(layers) => {
                        lemma_lookup_objs_unique(j, "layerInstances"@);
                        lemma_layer_list_round_trip(e[i].1->Arr_0, layers);
                        lemma_lookup_at(m3, 0);
                    },
                }
            }
        } else {
            lemma_extras_entry_lookup(e, known, i);
            lemma_equiv_refl(e[i].1);
        }
    }

    lemma_obj_equiv_from_lookups(enc, e);
}


/// Appends copies of `more`'s entries to `out`.
fn push_entries(out: &mut Vec<(String, Json)>, more: &Vec<(String, Json)>)
    ensures
        entries_view(final(out)@) == entries_view(old(out)@) + entries_view(more@),
{
    let ghost start = out@;
    proof {
        lemma_obj_view_from(more@, 0);
        lemma_obj_view_from(start, 0);
        assert(entries_view(more@.take(0)) =~= Seq::<(Seq<char>, SpecJson)>::empty());
        assert(entries_view(out@) =~= entries_view(start) + entries_view(more@.take(0)));
    }
    let mut i: usize = 0;
    while i < more.len()
        invariant
            0 <= i <= more@.len(),
            entries_view(out@) == entries_view(start) + entries_view(more@.take(i as int)),
        decreases more@.len() - i,
    {
        let ghost old_out = out@;
        let key = more[i].0.clone();
        let val = more[i].1.duplicate();
        out.push((key, val));
        proof {
            lemma_obj_view_from(start, 0);
            lemma_obj_view_from(old_out, 0);
            lemma_obj_view_from(out@, 0);
            lemma_obj_view_from(more@, 0);
            lemma_obj_view_from(more@.take(i as int), 0);
            lemma_obj_view_from(more@.take(i + 1 as int), 0);
            assert(out@ =~= old_out.push((key, val)));
            assert(more@.take(i + 1 as int) =~= more@.take(i as int).push(more@[i as int]));
            assert forall|m: int| 0 <= m < entries_view(out@).len() implies entries_view(out@)[m]
                == (entries_view(start) + entries_view(more@.take(i + 1 as int)))[m] by {
                assert(entries_view(out@)[m] == ((out@[m]).0@, crate::json::json_view(out@[m].1)));
                if m < old_out.len() {
                    assert(out@[m] == old_out[m]);
                    assert(entries_view(old_out)[m] == ((old_out[m]).0@, crate::json::json_view(
                        old_out[m].1,
                    )));
                    if m >= start.len() {
                        let k = m - start.len();
                        assert(more@.take(i + 1 as int)[k] == more@.take(i as int)[k]);
                        assert(entries_view(more@.take(i as int))[k] == ((more@.take(i as int)[k]).0@, crate::json::json_view(
                            more@.take(i as int)[k].1,
                        )));
                        assert(entries_view(more@.take(i + 1 as int))[k] == ((more@.take(
                            i + 1 as int,
                        )[k]).0@, crate::json::json_view(more@.take(i + 1 as int)[k].1)));
                    }
                } else {
                    assert(out@[m] == (key, val));
                    assert(m == old_out.len());
                    assert(entries_view(old_out).len() == old_out.len());
                    assert(entries_view(more@.take(i as int)).len() == i);
                    assert(m - start.len() == i);
                    assert(more@.take(i + 1 as int)[i as int] == more@[i as int]);
                    assert(entries_view(more@.take(i + 1 as int))[i as int] == ((
                    more@[i as int]).0@, crate::json::json_view(more@[i as int].1)));
                }
            }
            assert(entries_view(out@) =~= entries_view(start) + entries_view(more@.take(i + 1 as int)));
        }
        i = i + 1;
    }
    proof {
        assert(more@.take(i as int) =~= more@);
    }
}

impl IntGrid {
    /// Prints this integer-grid cell back to its wire object.
    pub fn to_json(&self) -> (r: Json)
        ensures
            r@ == spec_encode_int_grid(self@),
    {
        let mut entries: Vec<(String, Json)> = Vec::new();
        entries.push(("coordId".to_owned(), Json::Num(render_i64(self.coord_id as i64))));
        entries.push(("v".to_owned(), Json::Num(render_i64(self.v as i64))));
        let ghost base = entries@;
        proof {
            lemma_obj_view_from(base, 0);
            let target = spec_encode_int_grid(self@)->Obj_0;
            assert forall|m: int| 0 <= m < 2 implies entries_view(base)[m] == target.take(2)[m] by {
                assert(entries_view(base)[m] == ((base[m]).0@, crate::json::json_view(base[m].1)));
            }
            assert(entries_view(base) =~= spec_encode_int_grid(self@)->Obj_0.take(2));
        }
        push_entries(&mut entries, &self.extras);
        proof {
            assert(spec_encode_int_grid(self@)->Obj_0 =~= entries_view(base) + entries_view(
                self.extras@,
            ));
        }
        Json::Obj(entries)
    }
}

impl OptionalTile {
    /// Prints this entity tile back to its wire object.
    pub fn to_json(&self) -> (r: Json)
        ensures
            r@ == spec_encode_optional_tile(self@),
    {
        let mut entries: Vec<(String, Json)> = Vec::new();
        entries.push(("srcRect".to_owned(), encode_ints(&self.src_rect)));
        entries.push(("tilesetUid".to_owned(), Json::Num(render_i64(self.tileset_uid as i64))));
        let ghost base = entries@;
        proof {
            lemma_obj_view_from(base, 0);
            let target = spec_encode_optional_tile(self@)->Obj_0;
            assert forall|m: int| 0 <= m < 2 implies entries_view(base)[m] == target.take(2)[m] by {
                assert(entries_view(base)[m] == ((base[m]).0@, crate::json::json_view(base[m].1)));
            }
            assert(entries_view(base) =~= spec_encode_optional_tile(self@)->Obj_0.take(2));
        }
        push_entries(&mut entries, &self.extras);
        proof {
            assert(spec_encode_optional_tile(self@)->Obj_0 =~= entries_view(base) + entries_view(
                self.extras@,
            ));
        }
        Json::Obj(entries)
    }
}

impl FieldInstance {
    /// Prints this field instance back to its wire object, the polymorphic
    /// value verbatim.
    pub fn to_json(&self) -> (r: Json)
        ensures
            r@ == spec_encode_field_instance(self@),
    {
        let mut entries: Vec<(String, Json)> = Vec::new();
        entries.push(("__identifier".to_owned(), Json::Str(self.__identifier.clone())));
        entries.push(("__type".to_owned(), Json::Str(self.__type.clone())));
        entries.push(("__value".to_owned(), self.__value.duplicate()));
        entries.push(("defUid".to_owned(), Json::Num(render_i64(self.def_uid as i64))));
        let ghost base = entries@;
        proof {
            lemma_obj_view_from(base, 0);
            let target = spec_encode_field_instance(self@)->Obj_0;
            assert forall|m: int| 0 <= m < 4 implies entries_view(base)[m] == target.take(4)[m] by {
                assert(entries_view(base)[m] == ((base[m]).0@, crate::json::json_view(base[m].1)));
            }
            assert(entries_view(base) =~= spec_encode_field_instance(self@)->Obj_0.take(4));
        }
        push_entries(&mut entries, &self.extras);
        proof {
            assert(spec_encode_field_instance(self@)->Obj_0 =~= entries_view(base) + entries_view(
                self.extras@,
            ));
        }
        Json::Obj(entries)
    }
}

/// Prints a field instance vector as a wire array.
fn encode_field_instances(s: &Vec<FieldInstance>) -> (r: Json)
    ensures
        r@ == SpecJson::Arr(field_items(structs_view(s@))),
{
    let ghost sv = structs_view(s@);
    proof {
        lemma_field_items(sv);
    }
    let mut out: Vec<Json> = Vec::new();
    let mut i: usize = 0;
    while i < s.len()
        invariant
            0 <= i <= s.len(),
            sv == structs_view(s@),
            sv.len() == s@.len(),
            out@.len() == i,
            forall|m: int|
                0 <= m < i ==> crate::json::json_view(#[trigger] out@[m]) == spec_encode_field_instance(
                    sv[m],
                ),
        decreases s.len() - i,
    {
        let piece = s[i].to_json();
        out.push(piece);
        i = i + 1;
    }
    proof {
        lemma_arr_view_from(out@, 0);
        lemma_field_items(sv);
        assert forall|m: int| 0 <= m < out@.len() implies items_view(out@)[m] == field_items(sv)[m] by {
            assert(items_view(out@)[m] == crate::json::json_view(out@[m]));
        }
        assert(items_view(out@) =~= field_items(sv));
    }
    Json::Arr(out)
}

impl EntityInstance {
    /// Prints this entity instance back to its wire object.
    pub fn to_json(&self) -> (r: Json)
        ensures
            r@ == spec_encode_entity(self@),
    {
        let ghost target = spec_encode_entity(self@)->Obj_0;
        let mut entries: Vec<(String, Json)> = Vec::new();
        entries.push(("__grid".to_owned(), encode_ints(&self.__grid)));
        entries.push(("__identifier".to_owned(), Json::Str(self.__identifier.clone())));
        let ghost p1 = entries@;
        proof {
            lemma_obj_view_from(p1, 0);
            assert forall|m: int| 0 <= m < 2 implies entries_view(p1)[m] == target.take(2)[m] by {
                assert(entries_view(p1)[m] == ((p1[m]).0@, crate::json::json_view(p1[m].1)));
            }
            assert(entries_view(p1) =~= target.take(2));
        }
        match &self.__tile {
            Maybe::Absent => {},
            Maybe::Null => {
                entries.push(("__tile".to_owned(), Json::Null));
            },
            Maybe::Value(t) => {
                let piece = t.to_json();
                entries.push(("__tile".to_owned(), piece));
            },
        }
        let ghost pt = entries@;
        let ghost tlen = maybe_tile_entry(self@.__tile).len() as int;
        proof {
            lemma_obj_view_from(pt, 0);
            assert forall|m: int| 0 <= m < 2 + tlen implies entries_view(pt)[m] == target.take(
                2 + tlen,
            )[m] by {
                assert(entries_view(pt)[m] == ((pt[m]).0@, crate::json::json_view(pt[m].1)));
                if m < 2 {
                    assert(pt[m] == p1[m]);
                }
            }
            assert(entries_view(pt) =~= target.take(2 + tlen));
        }
        entries.push(("defUid".to_owned(), Json::Num(render_i64(self.def_uid as i64))));
        entries.push(("fieldInstances".to_owned(), encode_field_instances(&self.field_instances)));
        entries.push(("px".to_owned(), encode_ints(&self.px)));
        let ghost p2 = entries@;
        proof {
            lemma_obj_view_from(p2, 0);
            assert forall|m: int| 0 <= m < 5 + tlen implies entries_view(p2)[m] == target.take(
                5 + tlen,
            )[m] by {
                assert(entries_view(p2)[m] == ((p2[m]).0@, crate::json::json_view(p2[m].1)));
                if m < 2 + tlen {
                    assert(p2[m] == pt[m]);
                    assert(entries_view(pt)[m] == target.take(2 + tlen)[m]);
                }
            }
            assert(entries_view(p2) =~= target.take(5 + tlen));
        }
        push_entries(&mut entries, &self.extras);
        proof {
            assert(target =~= entries_view(p2) + entries_view(self.extras@));
        }
        Json::Obj(entries)
    }
}


/// Prints a tile vector as a wire array.
fn encode_tiles(s: &Vec<TileInstance>) -> (r: Json)
    ensures
        r@ == SpecJson::Arr(tile_items(structs_view(s@))),
{
    let ghost sv = structs_view(s@);
    proof {
        lemma_tile_items(sv);
    }
    let mut out: Vec<Json> = Vec::new();
    let mut i: usize = 0;
    while i < s.len()
        invariant
            0 <= i <= s.len(),
            sv == structs_view(s@),
            sv.len() == s@.len(),
            out@.len() == i,
            forall|m: int|
                0 <= m < i ==> crate::json::json_view(#[trigger] out@[m]) == spec_encode_tile(sv[m]),
        decreases s.len() - i,
    {
        let piece = s[i].to_json();
        out.push(piece);
        i = i + 1;
    }
    proof {
        lemma_arr_view_from(out@, 0);
        lemma_tile_items(sv);
        assert forall|m: int| 0 <= m < out@.len() implies items_view(out@)[m] == tile_items(sv)[m] by {
            assert(items_view(out@)[m] == crate::json::json_view(out@[m]));
        }
        assert(items_view(out@) =~= tile_items(sv));
    }
    Json::Arr(out)
}

/// Prints an integer-grid cell vector as a wire array.
fn encode_cells(s: &Vec<IntGrid>) -> (r: Json)
    ensures
        r@ == SpecJson::Arr(cell_items(structs_view(s@))),
{
    let ghost sv = structs_view(s@);
    proof {
        lemma_cell_items(sv);
    }
    let mut out: Vec<Json> = Vec::new();
    let mut i: usize = 0;
    while i < s.len()
        invariant
            0 <= i <= s.len(),
            sv == structs_view(s@),
            sv.len() == s@.len(),
            out@.len() == i,
            forall|m: int|
                0 <= m < i ==> crate::json::json_view(#[trigger] out@[m]) == spec_encode_int_grid(sv[m]),
        decreases s.len() - i,
    {
        let piece = s[i].to_json();
        out.push(piece);
        i = i + 1;
    }
    proof {
        lemma_arr_view_from(out@, 0);
        lemma_cell_items(sv);
        assert forall|m: int| 0 <= m < out@.len() implies items_view(out@)[m] == cell_items(sv)[m] by {
            assert(items_view(out@)[m] == crate::json::json_view(out@[m]));
        }
        assert(items_view(out@) =~= cell_items(sv));
    }
    Json::Arr(out)
}

/// Prints an entity instance vector as a wire array.
fn encode_entities(s: &Vec<EntityInstance>) -> (r: Json)
    ensures
        r@ == SpecJson::Arr(entity_items(structs_view(s@))),
{
    let ghost sv = structs_view(s@);
    proof {
        lemma_entity_items(sv);
    }
    let mut out: Vec<Json> = Vec::new();
    let mut i: usize = 0;
    while i < s.len()
        invariant
            0 <= i <= s.len(),
            sv == structs_view(s@),
            sv.len() == s@.len(),
            out@.len() == i,
            forall|m: int|
                0 <= m < i ==> crate::json::json_view(#[trigger] out@[m]) == spec_encode_entity(sv[m]),
        decreases s.len() - i,
    {
        let piece = s[i].to_json();
        out.push(piece);
        i = i + 1;
    }
    proof {
        lemma_arr_view_from(out@, 0);
        lemma_entity_items(sv);
        assert forall|m: int| 0 <= m < out@.len() implies items_view(out@)[m] == entity_items(sv)[m] by {
            assert(items_view(out@)[m] == crate::json::json_view(out@[m]));
        }
        assert(items_view(out@) =~= entity_items(sv));
    }
    Json::Arr(out)
}

/// The wire spelling of a layer kind.
pub fn layer_kind_str(k: LayerKind) -> (r: &'static str)
    ensures
        r@ == layer_kind_text(k),
{
    match k {
        LayerKind::IntGrid => "IntGrid",
        LayerKind::Entities => "Entities",
        LayerKind::Tiles => "Tiles",
        LayerKind::AutoLayer => "AutoLayer",
    }
}

impl LayerInstance {
    /// Prints this layer instance back to its wire object.
    pub fn to_json(&self) -> (r: Json)
        ensures
            r@ == spec_encode_layer(self@),
    {
        let ghost target = spec_encode_layer(self@)->Obj_0;
        let mut entries: Vec<(String, Json)> = Vec::new();
        entries.push(("__identifier".to_owned(), Json::Str(self.__identifier.clone())));
        entries.push(("__type".to_owned(), Json::Str(layer_kind_str(self.__type).to_owned())));
        entries.push(("__cWid".to_owned(), Json::Num(render_i64(self.__c_wid as i64))));
        entries.push(("__cHei".to_owned(), Json::Num(render_i64(self.__c_hei as i64))));
        entries.push(("__gridSize".to_owned(), Json::Num(render_i64(self.__grid_size as i64))));
        entries.push(("__opacity".to_owned(), Json::Num(self.__opacity.clone())));
        entries.push((
            "__pxTotalOffsetX".to_owned(),
            Json::Num(render_i64(self.__px_total_offset_x as i64)),
        ));
        entries.push((
            "__pxTotalOffsetY".to_owned(),
            Json::Num(render_i64(self.__px_total_offset_y as i64)),
        ));
        let ghost p1 = entries@;
        proof {
            lemma_obj_view_from(p1, 0);
            assert forall|m: int| 0 <= m < 8 implies entries_view(p1)[m] == target.take(8)[m] by {
                assert(entries_view(p1)[m] == ((p1[m]).0@, crate::json::json_view(p1[m].1)));
            }
            assert(entries_view(p1) =~= target.take(8));
        }
        match &self.__tileset_def_uid {
            Maybe::Absent => {},
            Maybe::Null => {
                entries.push(("__tilesetDefUid".to_owned(), Json::Null));
            },
            Maybe::Value(n) => {
                entries.push(("__tilesetDefUid".to_owned(), Json::Num(render_i64(*n as i64))));
            },
        }
        let ghost t1 = maybe_num_entry("__tilesetDefUid"@, self@.__tileset_def_uid).len() as int;
        let ghost pm1 = entries@;
        proof {
            lemma_obj_view_from(pm1, 0);
            assert forall|m: int| 0 <= m < 8 + t1 implies entries_view(pm1)[m] == target.take(
                8 + t1,
            )[m] by {
                assert(entries_view(pm1)[m] == ((pm1[m]).0@, crate::json::json_view(pm1[m].1)));
                if m < 8 {
                    assert(pm1[m] == p1[m]);
                    assert(entries_view(p1)[m] == target.take(8)[m]);
                }
            }
            assert(entries_view(pm1) =~= target.take(8 + t1));
        }
        match &self.__tileset_rel_path {
            Maybe::Absent => {},
            Maybe::Null => {
                entries.push(("__tilesetRelPath".to_owned(), Json::Null));
            },
            Maybe::Value(p) => {
                entries.push(("__tilesetRelPath".to_owned(), Json::Str(p.clone())));
            },
        }
        let ghost t2 = maybe_str_entry("__tilesetRelPath"@, self@.__tileset_rel_path).len() as int;
        let ghost pm2 = entries@;
        proof {
            lemma_obj_view_from(pm2, 0);
            assert forall|m: int| 0 <= m < 8 + t1 + t2 implies entries_view(pm2)[m] == target.take(
                8 + t1 + t2,
            )[m] by {
                assert(entries_view(pm2)[m] == ((pm2[m]).0@, crate::json::json_view(pm2[m].1)));
                if m < 8 + t1 {
                    assert(pm2[m] == pm1[m]);
                    assert(entries_view(pm1)[m] == target.take(8 + t1)[m]);
                }
            }
            assert(entries_view(pm2) =~= target.take(8 + t1 + t2));
        }
        entries.push(("levelId".to_owned(), Json::Num(render_i64(self.level_id as i64))));
        entries.push(("layerDefUid".to_owned(), Json::Num(render_i64(self.layer_def_uid as i64))));
        entries.push(("pxOffsetX".to_owned(), Json::Num(render_i64(self.px_offset_x as i64))));
        entries.push(("pxOffsetY".to_owned(), Json::Num(render_i64(self.px_offset_y as i64))));
        entries.push(("intGrid".to_owned(), encode_cells(&self.int_grid)));
        entries.push(("autoLayerTiles".to_owned(), encode_tiles(&self.auto_layer_tiles)));
        entries.push(("seed".to_owned(), Json::Num(render_i64(self.seed as i64))));
        entries.push(("gridTiles".to_owned(), encode_tiles(&self.grid_tiles)));
        entries.push(("entityInstances".to_owned(), encode_entities(&self.entity_instances)));
        let ghost p2 = entries@;
        proof {
            lemma_obj_view_from(p2, 0);
            assert forall|m: int| 0 <= m < 17 + t1 + t2 implies entries_view(p2)[m] == target.take(
                17 + t1 + t2,
            )[m] by {
                assert(entries_view(p2)[m] == ((p2[m]).0@, crate::json::json_view(p2[m].1)));
                if m < 8 + t1 + t2 {
                    assert(p2[m] == pm2[m]);
                    assert(entries_view(pm2)[m] == target.take(8 + t1 + t2)[m]);
                }
            }
            assert(entries_view(p2) =~= target.take(17 + t1 + t2));
        }
        push_entries(&mut entries, &self.extras);
        proof {
            assert(target =~= entries_view(p2) + entries_view(self.extras@));
        }
        Json::Obj(entries)
    }
}

/// Prints a layer instance vector as a wire array.
fn encode_layers(s: &Vec<LayerInstance>) -> (r: Json)
    ensures
        r@ == SpecJson::Arr(layer_items(structs_view(s@))),
{
    let ghost sv = structs_view(s@);
    proof {
        lemma_layer_items(sv);
    }
    let mut out: Vec<Json> = Vec::new();
    let mut i: usize = 0;
    while i < s.len()
        invariant
            0 <= i <= s.len(),
            sv == structs_view(s@),
            sv.len() == s@.len(),
            out@.len() == i,
            forall|m: int|
                0 <= m < i ==> crate::json::json_view(#[trigger] out@[m]) == spec_encode_layer(sv[m]),
        decreases s.len() - i,
    {
        let piece = s[i].to_json();
        out.push(piece);
        i = i + 1;
    }
    proof {
        lemma_arr_view_from(out@, 0);
        lemma_layer_items(sv);
        assert forall|m: int| 0 <= m < out@.len() implies items_view(out@)[m] == layer_items(sv)[m] by {
            assert(items_view(out@)[m] == crate::json::json_view(out@[m]));
        }
        assert(items_view(out@) =~= layer_items(sv));
    }
    Json::Arr(out)
}

impl Level {
    /// Prints this level back to its wire object: for an accepted document
    /// the result is deep-equal to what was decoded, so an external level
    /// file survives a load-and-save unchanged but for entry order.
    pub fn to_json(&self) -> (r: Json)
        ensures
            r@ == spec_encode_level(self@),
    {
        let ghost target = spec_encode_level(self@)->Obj_0;
        let mut entries: Vec<(String, Json)> = Vec::new();
        entries.push(("identifier".to_owned(), Json::Str(self.identifier.clone())));
        entries.push(("uid".to_owned(), Json::Num(render_i64(self.uid as i64))));
        entries.push(("worldX".to_owned(), Json::Num(render_i64(self.world_x as i64))));
        entries.push(("worldY".to_owned(), Json::Num(render_i64(self.world_y as i64))));
        entries.push(("pxWid".to_owned(), Json::Num(render_i64(self.px_wid as i64))));
        entries.push(("pxHei".to_owned(), Json::Num(render_i64(self.px_hei as i64))));
        entries.push(("__bgColor".to_owned(), Json::Str(self.__bg_color.clone())));
        let ghost p1 = entries@;
        proof {
            lemma_obj_view_from(p1, 0);
            assert forall|m: int| 0 <= m < 7 implies entries_view(p1)[m] == target.take(7)[m] by {
                assert(entries_view(p1)[m] == ((p1[m]).0@, crate::json::json_view(p1[m].1)));
            }
            assert(entries_view(p1) =~= target.take(7));
        }
        match &self.bg_color {
            Maybe::Absent => {},
            Maybe::Null => {
                entries.push(("bgColor".to_owned(), Json::Null));
            },
            Maybe::Value(c) => {
                entries.push(("bgColor".to_owned(), Json::Str(c.clone())));
            },
        }
        let ghost t1 = maybe_str_entry("bgColor"@, self@.bg_color).len() as int;
        let ghost pm1 = entries@;
        proof {
            lemma_obj_view_from(pm1, 0);
            assert forall|m: int| 0 <= m < 7 + t1 implies entries_view(pm1)[m] == target.take(
                7 + t1,
            )[m] by {
                assert(entries_view(pm1)[m] == ((pm1[m]).0@, crate::json::json_view(pm1[m].1)));
                if m < 7 {
                    assert(pm1[m] == p1[m]);
                    assert(entries_view(p1)[m] == target.take(7)[m]);
                }
            }
            assert(entries_view(pm1) =~= target.take(7 + t1));
        }
        match &self.external_rel_path {
            Maybe::Absent => {},
            Maybe::Null => {
                entries.push(("externalRelPath".to_owned(), Json::Null));
            },
            Maybe::Value(p) => {
                entries.push(("externalRelPath".to_owned(), Json::Str(p.clone())));
            },
        }
        let ghost t2 = maybe_str_entry("externalRelPath"@, self@.external_rel_path).len() as int;
        let ghost pm2 = entries@;
        proof {
            lemma_obj_view_from(pm2, 0);
            assert forall|m: int| 0 <= m < 7 + t1 + t2 implies entries_view(pm2)[m] == target.take(
                7 + t1 + t2,
            )[m] by {
                assert(entries_view(pm2)[m] == ((pm2[m]).0@, crate::json::json_view(pm2[m].1)));
                if m < 7 + t1 {
                    assert(pm2[m] == pm1[m]);
                    assert(entries_view(pm1)[m] == target.take(7 + t1)[m]);
                }
            }
            assert(entries_view(pm2) =~= target.take(7 + t1 + t2));
        }
        match &self.layer_instances {
            Maybe::Absent => {},
            Maybe::Null => {
                entries.push(("layerInstances".to_owned(), Json::Null));
            },
            Maybe::Value(layers) => {
                let piece = encode_layers(layers);
                entries.push(("layerInstances".to_owned(), piece));
            },
        }
        let ghost t3 = maybe_layers_entry(self@.layer_instances).len() as int;
        let ghost pm3 = entries@;
        proof {
            lemma_obj_view_from(pm3, 0);
            assert forall|m: int| 0 <= m < 7 + t1 + t2 + t3 implies entries_view(pm3)[m]
                == target.take(7 + t1 + t2 + t3)[m] by {
                assert(entries_view(pm3)[m] == ((pm3[m]).0@, crate::json::json_view(pm3[m].1)));
                if m < 7 + t1 + t2 {
                    assert(pm3[m] == pm2[m]);
                    assert(entries_view(pm2)[m] == target.take(7 + t1 + t2)[m]);
                }
            }
            assert(entries_view(pm3) =~= target.take(7 + t1 + t2 + t3));
        }
        push_entries(&mut entries, &self.extras);
        proof {
            assert(target =~= entries_view(pm3) + entries_view(self.extras@));
        }
        Json::Obj(entries)
    }

    /// Prints this level as one line of JSON text.
    pub fn to_json_text(&self) -> (r: String)
        ensures
            r@ == crate::raw::text_of(spec_encode_level(self@)),
    {
        let j = self.to_json();
        crate::raw::json_to_text(&j)
    }
}

} // verus!
