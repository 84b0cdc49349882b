use vstd::prelude::*;
use crate::json::Json;
use crate::json::SpecJson;
use crate::json::spec_lookup;
use crate::json::entries_view;
use crate::error::DecodeError;
use crate::error::MismatchKind;
use crate::error::SpecErr;
use crate::error::spec_err_at;
use crate::error::spec_err_under;
use crate::error::spec_err_here;
use crate::num::spec_parse_i64;
use crate::num::spec_render_int;
use crate::num::parse_i64;
use crate::num::render_u64;
use crate::Maybe;

verus! {

// Field extraction from a decoded object, one helper per field shape. Each
// exec helper returns exactly what its spec twin says for the object's view,
// error included, so a struct decoder's contract is the composition of these
// twins in the order the fields are read.

/// A decoded result seen at the spec level.
pub open spec fn res_view<T: View>(r: Result<T, DecodeError>) -> Result<T::V, SpecErr> {
    match r {
        Ok(x) => Ok(x@),
        Err(e) => Err(e@),
    }
}

/// The required integer field `key`: present, a number in canonical integer
/// form, and between `lo` and `hi`.
pub open spec fn spec_field_int(
    e: Seq<(Seq<char>, SpecJson)>,
    key: Seq<char>,
    lo: int,
    hi: int,
) -> Result<int, SpecErr> {
    match spec_lookup(e, key) {
        Option::None => Err(spec_err_at(key, MismatchKind::MissingField)),
        Option::Some(v) => match v {
            SpecJson::Num(t) => match spec_parse_i64(t) {
                Option::Some(n) => if lo <= n <= hi {
                    Ok(n)
                } else {
                    Err(spec_err_at(key, MismatchKind::IntOutOfRange))
                },
                Option::None => Err(spec_err_at(key, MismatchKind::IntOutOfRange)),
            },
            _ => Err(spec_err_at(key, MismatchKind::WrongKind)),
        },
    }
}

/// The required string field `key`.
pub open spec fn spec_field_str(e: Seq<(Seq<char>, SpecJson)>, key: Seq<char>) -> Result<
    Seq<char>,
    SpecErr,
> {
    match spec_lookup(e, key) {
        Option::None => Err(spec_err_at(key, MismatchKind::MissingField)),
        Option::Some(v) => match v {
            SpecJson::Str(s) => Ok(s),
            _ => Err(spec_err_at(key, MismatchKind::WrongKind)),
        },
    }
}

/// The required boolean field `key`.
pub open spec fn spec_field_bool(e: Seq<(Seq<char>, SpecJson)>, key: Seq<char>) -> Result<
    bool,
    SpecErr,
> {
    match spec_lookup(e, key) {
        Option::None => Err(spec_err_at(key, MismatchKind::MissingField)),
        Option::Some(v) => match v {
            SpecJson::Bool(b) => Ok(b),
            _ => Err(spec_err_at(key, MismatchKind::WrongKind)),
        },
    }
}

/// The optional string field `key`: absent, null and a string value are three
/// distinct outcomes; any other kind is refused.
pub open spec fn spec_field_maybe_str(e: Seq<(Seq<char>, SpecJson)>, key: Seq<char>) -> Result<
    Maybe<Seq<char>>,
    SpecErr,
> {
    match spec_lookup(e, key) {
        Option::None => Ok(Maybe::Absent),
        Option::Some(v) => match v {
            SpecJson::Null => Ok(Maybe::Null),
            SpecJson::Str(s) => Ok(Maybe::Value(s)),
            _ => Err(spec_err_at(key, MismatchKind::WrongKind)),
        },
    }
}

/// The optional integer field `key`: absent, null and an integer value are
/// three distinct outcomes; any other kind, or a number out of canonical
/// integer form or range, is refused.
pub open spec fn spec_field_maybe_int(
    e: Seq<(Seq<char>, SpecJson)>,
    key: Seq<char>,
    lo: int,
    hi: int,
) -> Result<Maybe<int>, SpecErr> {
    match spec_lookup(e, key) {
        Option::None => Ok(Maybe::Absent),
        Option::Some(v) => match v {
            SpecJson::Null => Ok(Maybe::Null),
            SpecJson::Num(t) => match spec_parse_i64(t) {
                Option::Some(n) => if lo <= n <= hi {
                    Ok(Maybe::Value(n))
                } else {
                    Err(spec_err_at(key, MismatchKind::IntOutOfRange))
                },
                Option::None => Err(spec_err_at(key, MismatchKind::IntOutOfRange)),
            },
            _ => Err(spec_err_at(key, MismatchKind::WrongKind)),
        },
    }
}

/// The elements of `items` up to position `k`, each decoded by `dec`; the
/// first element `dec` refuses decides the error, its position prefixed to
/// the path.
pub open spec fn spec_list_upto<T>(
    items: Seq<SpecJson>,
    k: int,
    dec: spec_fn(SpecJson) -> Result<T, SpecErr>,
) -> Result<Seq<T>, SpecErr>
    decreases k,
{
    if k <= 0 {
        Ok(Seq::empty())
    } else {
        match spec_list_upto(items, k - 1, dec) {
            Err(e) => Err(e),
            Ok(s) => match dec(items[k - 1]) {
                Ok(x) => Ok(s.push(x)),
                Err(e) => Err(spec_err_under(spec_render_int(k - 1), e)),
            },
        }
    }
}

/// All elements of `items`, each decoded by `dec`.
pub open spec fn spec_list<T>(
    items: Seq<SpecJson>,
    dec: spec_fn(SpecJson) -> Result<T, SpecErr>,
) -> Result<Seq<T>, SpecErr> {
    spec_list_upto(items, items.len() as int, dec)
}

/// Once a prefix fails, every longer prefix fails the same way.
pub proof fn lemma_list_err_persists<T>(
    items: Seq<SpecJson>,
    k: int,
    m: int,
    dec: spec_fn(SpecJson) -> Result<T, SpecErr>,
)
    requires
        0 <= k <= m,
        spec_list_upto(items, k, dec) is Err,
    ensures
        spec_list_upto(items, m, dec) == spec_list_upto(items, k, dec),
    decreases m - k,
{
    if m > k {
        lemma_list_err_persists(items, k, m - 1, dec);
    }
}

/// The required integer field `key`, read into an `i64`.
pub fn field_i64(entries: &Vec<(String, Json)>, key: &str) -> (r: Result<i64, DecodeError>)
    ensures
        match r {
            Ok(n) => spec_field_int(entries_view(entries@), key@, i64::MIN as int, i64::MAX as int) == Ok::<int, SpecErr>(n as int),
            Err(e) => spec_field_int(entries_view(entries@), key@, i64::MIN as int, i64::MAX as int) == Err::<int, SpecErr>(e@),
        },
{
    match Json::lookup(entries, key) {
        Option::None => Err(DecodeError::at(key, MismatchKind::MissingField)),
        Option::Some(v) => match v {
            Json::Num(t) => match parse_i64(t.as_str()) {
                Option::Some(n) => Ok(n),
                Option::None => Err(DecodeError::at(key, MismatchKind::IntOutOfRange)),
            },
            _ => Err(DecodeError::at(key, MismatchKind::WrongKind)),
        },
    }
}

/// The required integer field `key`, read into an `i32`.
pub fn field_i32(entries: &Vec<(String, Json)>, key: &str) -> (r: Result<i32, DecodeError>)
    ensures
        match r {
            Ok(n) => spec_field_int(entries_view(entries@), key@, i32::MIN as int, i32::MAX as int) == Ok::<int, SpecErr>(n as int),
            Err(e) => spec_field_int(entries_view(entries@), key@, i32::MIN as int, i32::MAX as int) == Err::<int, SpecErr>(e@),
        },
{
    match Json::lookup(entries, key) {
        Option::None => Err(DecodeError::at(key, MismatchKind::MissingField)),
        Option::Some(v) => match v {
            Json::Num(t) => match parse_i64(t.as_str()) {
                Option::Some(n) => if i32::MIN as i64 <= n && n <= i32::MAX as i64 {
                    Ok(n as i32)
                } else {
                    Err(DecodeError::at(key, MismatchKind::IntOutOfRange))
                },
                Option::None => Err(DecodeError::at(key, MismatchKind::IntOutOfRange)),
            },
            _ => Err(DecodeError::at(key, MismatchKind::WrongKind)),
        },
    }
}

/// The required integer field `key`, read into a `u8`.
pub fn field_u8(entries: &Vec<(String, Json)>, key: &str) -> (r: Result<u8, DecodeError>)
    ensures
        match r {
            Ok(n) => spec_field_int(entries_view(entries@), key@, 0, u8::MAX as int) == Ok::<int, SpecErr>(n as int),
            Err(e) => spec_field_int(entries_view(entries@), key@, 0, u8::MAX as int) == Err::<int, SpecErr>(e@),
        },
{
    match Json::lookup(entries, key) {
        Option::None => Err(DecodeError::at(key, MismatchKind::MissingField)),
        Option::Some(v) => match v {
            Json::Num(t) => match parse_i64(t.as_str()) {
                Option::Some(n) => if 0 <= n && n <= u8::MAX as i64 {
                    Ok(n as u8)
                } else {
                    Err(DecodeError::at(key, MismatchKind::IntOutOfRange))
                },
                Option::None => Err(DecodeError::at(key, MismatchKind::IntOutOfRange)),
            },
            _ => Err(DecodeError::at(key, MismatchKind::WrongKind)),
        },
    }
}

/// The required string field `key`.
pub fn field_str(entries: &Vec<(String, Json)>, key: &str) -> (r: Result<String, DecodeError>)
    ensures
        res_view(r) == spec_field_str(entries_view(entries@), key@),
{
    match Json::lookup(entries, key) {
        Option::None => Err(DecodeError::at(key, MismatchKind::MissingField)),
        Option::Some(v) => match v {
            Json::Str(s) => Ok(s.clone()),
            _ => Err(DecodeError::at(key, MismatchKind::WrongKind)),
        },
    }
}

/// The required boolean field `key`.
pub fn field_bool(entries: &Vec<(String, Json)>, key: &str) -> (r: Result<bool, DecodeError>)
    ensures
        res_view(r) == spec_field_bool(entries_view(entries@), key@),
{
    match Json::lookup(entries, key) {
        Option::None => Err(DecodeError::at(key, MismatchKind::MissingField)),
        Option::Some(v) => match v {
            Json::Bool(b) => Ok(*b),
            _ => Err(DecodeError::at(key, MismatchKind::WrongKind)),
        },
    }
}

/// The optional string field `key`, absent and null kept apart.
pub fn field_maybe_str(entries: &Vec<(String, Json)>, key: &str) -> (r: Result<
    Maybe<String>,
    DecodeError,
>)
    ensures
        res_view(r) == spec_field_maybe_str(entries_view(entries@), key@),
{
    match Json::lookup(entries, key) {
        Option::None => Ok(Maybe::Absent),
        Option::Some(v) => match v {
            Json::Null => Ok(Maybe::Null),
            Json::Str(s) => Ok(Maybe::Value(s.clone())),
            _ => Err(DecodeError::at(key, MismatchKind::WrongKind)),
        },
    }
}

/// The optional `i32` field `key`, absent and null kept apart.
pub fn field_maybe_i32(entries: &Vec<(String, Json)>, key: &str) -> (r: Result<
    Maybe<i32>,
    DecodeError,
>)
    ensures
        match r {
            Ok(m) => spec_field_maybe_int(entries_view(entries@), key@, i32::MIN as int, i32::MAX as int) == Ok::<Maybe<int>, SpecErr>(maybe_i32_view(m)),
            Err(e) => spec_field_maybe_int(entries_view(entries@), key@, i32::MIN as int, i32::MAX as int) == Err::<Maybe<int>, SpecErr>(e@),
        },
{
    match Json::lookup(entries, key) {
        Option::None => Ok(Maybe::Absent),
        Option::Some(v) => match v {
            Json::Null => Ok(Maybe::Null),
            Json::Num(t) => match parse_i64(t.as_str()) {
                Option::Some(n) => if i32::MIN as i64 <= n && n <= i32::MAX as i64 {
                    Ok(Maybe::Value(n as i32))
                } else {
                    Err(DecodeError::at(key, MismatchKind::IntOutOfRange))
                },
                Option::None => Err(DecodeError::at(key, MismatchKind::IntOutOfRange)),
            },
            _ => Err(DecodeError::at(key, MismatchKind::WrongKind)),
        },
    }
}

/// A sequence of `i32` values seen at the spec level.
pub open spec fn ints_view(s: Seq<i32>) -> Seq<int> {
    Seq::new(s.len(), |i: int| s[i] as int)
}

/// One array element read as an `i32`.
pub open spec fn spec_elem_i32(v: SpecJson) -> Result<int, SpecErr> {
    match v {
        SpecJson::Num(t) => match spec_parse_i64(t) {
            Option::Some(n) => if i32::MIN as int <= n <= i32::MAX as int {
                Ok(n)
            } else {
                Err(spec_err_here(MismatchKind::IntOutOfRange))
            },
            Option::None => Err(spec_err_here(MismatchKind::IntOutOfRange)),
        },
        _ => Err(spec_err_here(MismatchKind::WrongKind)),
    }
}

/// The element decoder of integer arrays, under one name so that every
/// mention is the same function.
pub open spec fn elem_i32_dec() -> spec_fn(SpecJson) -> Result<int, SpecErr> {
    |v: SpecJson| spec_elem_i32(v)
}

/// The required field `key` holding an array of integers.
pub open spec fn spec_field_int_arr(e: Seq<(Seq<char>, SpecJson)>, key: Seq<char>) -> Result<
    Seq<int>,
    SpecErr,
> {
    match spec_lookup(e, key) {
        Option::None => Err(spec_err_at(key, MismatchKind::MissingField)),
        Option::Some(v) => match v {
            SpecJson::Arr(items) => match spec_list(items, elem_i32_dec()) {
                Ok(s) => Ok(s),
                Err(er) => Err(spec_err_under(key, er)),
            },
            _ => Err(spec_err_at(key, MismatchKind::WrongKind)),
        },
    }
}

/// One array element read as an `i32`.
fn elem_i32(v: &Json) -> (r: Result<i32, DecodeError>)
    ensures
        match r {
            Ok(n) => spec_elem_i32(v@) == Ok::<int, SpecErr>(n as int),
            Err(e) => spec_elem_i32(v@) == Err::<int, SpecErr>(e@),
        },
{
    match v {
        Json::Num(t) => match parse_i64(t.as_str()) {
            Option::Some(n) => if i32::MIN as i64 <= n && n <= i32::MAX as i64 {
                Ok(n as i32)
            } else {
                Err(DecodeError::here(MismatchKind::IntOutOfRange))
            },
            Option::None => Err(DecodeError::here(MismatchKind::IntOutOfRange)),
        },
        _ => Err(DecodeError::here(MismatchKind::WrongKind)),
    }
}

/// The required field `key` holding an array of integers, read into `i32`s.
pub fn field_int_arr(entries: &Vec<(String, Json)>, key: &str) -> (r: Result<
    Vec<i32>,
    DecodeError,
>)
    ensures
        match r {
            Ok(v) => spec_field_int_arr(entries_view(entries@), key@) == Ok::<Seq<int>, SpecErr>(ints_view(v@)),
            Err(e) => spec_field_int_arr(entries_view(entries@), key@) == Err::<Seq<int>, SpecErr>(e@),
        },
{
    let items = match Json::lookup(entries, key) {
        Option::None => {
            return Err(DecodeError::at(key, MismatchKind::MissingField));
        },
        Option::Some(v) => match v {
            Json::Arr(items) => items,
            _ => {
                return Err(DecodeError::at(key, MismatchKind::WrongKind));
            },
        },
    };
    let ghost iv = crate::json::items_view(items@);
    let ghost dec = elem_i32_dec();
    proof {
        crate::json::lemma_arr_view_from(items@, 0);
        assert(spec_lookup(entries_view(entries@), key@) == Some(SpecJson::Arr(iv)));
    }
    let mut out: Vec<i32> = Vec::new();
    proof {
        assert(ints_view(out@) =~= Seq::<int>::empty());
    }
    let mut i: usize = 0;
    while i < items.len()
        invariant
            0 <= i <= items.len(),
            iv == crate::json::items_view(items@),
            iv.len() == items@.len(),
            forall|k: int| 0 <= k < items@.len() ==> iv[k] == crate::json::json_view(#[trigger] items@[k]),
            dec == elem_i32_dec(),
            spec_lookup(entries_view(entries@), key@) == Some(SpecJson::Arr(iv)),
            spec_list_upto(iv, i as int, dec) == Ok::<Seq<int>, SpecErr>(ints_view(out@)),
        decreases items.len() - i,
    {
        let ghost before = ints_view(out@);
        match elem_i32(&items[i]) {
            Ok(n) => {
                out.push(n);
                proof {
                    assert(dec(iv[i as int]) == spec_elem_i32(iv[i as int]));
                    assert(ints_view(out@) =~= before.push(n as int));
                }
            },
            Err(e0) => {
                proof {
                    assert(dec(iv[i as int]) == spec_elem_i32(iv[i as int]));
                    assert(spec_list_upto(iv, i + 1 as int, dec) is Err);
                    lemma_list_err_persists(iv, i + 1 as int, iv.len() as int, dec);
                }
                return Err(e0.under(index_segment(i)).under(key.to_owned()));
            },
        }
        i = i + 1;
    }
    Ok(out)
}

/// The required field `key` holding a number: its text is kept as it stands
/// in the document, uninterpreted.
pub open spec fn spec_field_num(e: Seq<(Seq<char>, SpecJson)>, key: Seq<char>) -> Result<
    Seq<char>,
    SpecErr,
> {
    match spec_lookup(e, key) {
        Option::None => Err(spec_err_at(key, MismatchKind::MissingField)),
        Option::Some(v) => match v {
            SpecJson::Num(t) => Ok(t),
            _ => Err(spec_err_at(key, MismatchKind::WrongKind)),
        },
    }
}

/// The required field `key` holding a number, kept as its wire text.
pub fn field_num(entries: &Vec<(String, Json)>, key: &str) -> (r: Result<String, DecodeError>)
    ensures
        res_view(r) == spec_field_num(entries_view(entries@), key@),
{
    match Json::lookup(entries, key) {
        Option::None => Err(DecodeError::at(key, MismatchKind::MissingField)),
        Option::Some(v) => match v {
            Json::Num(t) => Ok(t.clone()),
            _ => Err(DecodeError::at(key, MismatchKind::WrongKind)),
        },
    }
}

/// The required field `key` of any kind, kept verbatim.
pub open spec fn spec_field_raw(e: Seq<(Seq<char>, SpecJson)>, key: Seq<char>) -> Result<
    SpecJson,
    SpecErr,
> {
    match spec_lookup(e, key) {
        Option::None => Err(spec_err_at(key, MismatchKind::MissingField)),
        Option::Some(v) => Ok(v),
    }
}

/// The required field `key` of any kind, kept verbatim.
pub fn field_raw(entries: &Vec<(String, Json)>, key: &str) -> (r: Result<Json, DecodeError>)
    ensures
        res_view(r) == spec_field_raw(entries_view(entries@), key@),
{
    match Json::lookup(entries, key) {
        Option::None => Err(DecodeError::at(key, MismatchKind::MissingField)),
        Option::Some(v) => Ok(v.duplicate()),
    }
}

/// The entries whose keys the schema does not know, in their original order;
/// they are retained so that nothing of the document is lost.
pub open spec fn spec_extras(
    e: Seq<(Seq<char>, SpecJson)>,
    known: spec_fn(Seq<char>) -> bool,
) -> Seq<(Seq<char>, SpecJson)>
    decreases e.len(),
{
    if e.len() == 0 {
        Seq::empty()
    } else if known(e[0].0) {
        spec_extras(e.skip(1), known)
    } else {
        seq![e[0]] + spec_extras(e.skip(1), known)
    }
}

/// A sequence of decoded values seen at the spec level.
pub open spec fn structs_view<T: View>(s: Seq<T>) -> Seq<T::V> {
    Seq::new(s.len(), |i: int| s[i]@)
}

/// A value that is read out of one JSON value, exactly as its spec decoder
/// says.
pub trait DecodeElem: Sized + View {
    /// What decoding yields for a value.
    spec fn sdec(j: SpecJson) -> Result<Self::V, SpecErr>;

    /// Reads one value.
    fn dec(j: &Json) -> (r: Result<Self, DecodeError>)
        ensures
            res_view(r) == Self::sdec(j@),
    ;
}

/// The element decoder of `T`, under one name so that every mention is the
/// same function.
pub open spec fn sdec_of<T: DecodeElem>() -> spec_fn(SpecJson) -> Result<T::V, SpecErr> {
    |v: SpecJson| T::sdec(v)
}

/// Reads every element of an array; the first refused element decides the
/// error, its position prefixed to the path.
pub fn decode_list<T: DecodeElem>(items: &Vec<Json>) -> (r: Result<Vec<T>, DecodeError>)
    ensures
        match r {
            Ok(v) => spec_list(crate::json::items_view(items@), sdec_of::<T>()) == Ok::<Seq<T::V>, SpecErr>(structs_view(v@)),
            Err(e) => spec_list(crate::json::items_view(items@), sdec_of::<T>()) == Err::<Seq<T::V>, SpecErr>(e@),
        },
{
    let ghost iv = crate::json::items_view(items@);
    let ghost dec = sdec_of::<T>();
    proof {
        crate::json::lemma_arr_view_from(items@, 0);
    }
    let mut out: Vec<T> = Vec::new();
    proof {
        assert(structs_view(out@) =~= Seq::<T::V>::empty());
    }
    let mut i: usize = 0;
    while i < items.len()
        invariant
            0 <= i <= items.len(),
            iv == crate::json::items_view(items@),
            iv.len() == items@.len(),
            forall|k: int| 0 <= k < items@.len() ==> iv[k] == crate::json::json_view(#[trigger] items@[k]),
            dec == sdec_of::<T>(),
            spec_list_upto(iv, i as int, dec) == Ok::<Seq<T::V>, SpecErr>(structs_view(out@)),
        decreases items.len() - i,
    {
        let ghost before = structs_view(out@);
        match T::dec(&items[i]) {
            Ok(x) => {
                let ghost xv = x@;
                out.push(x);
                proof {
                    assert(dec(iv[i as int]) == T::sdec(iv[i as int]));
                    assert(structs_view(out@) =~= before.push(xv));
                }
            },
            Err(e0) => {
                proof {
                    assert(dec(iv[i as int]) == T::sdec(iv[i as int]));
                    assert(spec_list_upto(iv, i + 1 as int, dec) is Err);
                    lemma_list_err_persists(iv, i + 1 as int, iv.len() as int, dec);
                }
                return Err(e0.under(index_segment(i)));
            },
        }
        i = i + 1;
    }
    Ok(out)
}

/// The required field `key` holding an array, every element decoded by `dec`.
pub open spec fn spec_field_list<V>(
    e: Seq<(Seq<char>, SpecJson)>,
    key: Seq<char>,
    dec: spec_fn(SpecJson) -> Result<V, SpecErr>,
) -> Result<Seq<V>, SpecErr> {
    match spec_lookup(e, key) {
        Option::None => Err(spec_err_at(key, MismatchKind::MissingField)),
        Option::Some(v) => match v {
            SpecJson::Arr(items) => match spec_list(items, dec) {
                Ok(s) => Ok(s),
                Err(er) => Err(spec_err_under(key, er)),
            },
            _ => Err(spec_err_at(key, MismatchKind::WrongKind)),
        },
    }
}

/// The required field `key` holding an array of `T` values.
pub fn field_list<T: DecodeElem>(entries: &Vec<(String, Json)>, key: &str) -> (r: Result<
    Vec<T>,
    DecodeError,
>)
    ensures
        match r {
            Ok(v) => spec_field_list(entries_view(entries@), key@, sdec_of::<T>()) == Ok::<Seq<T::V>, SpecErr>(structs_view(v@)),
            Err(e) => spec_field_list(entries_view(entries@), key@, sdec_of::<T>()) == Err::<Seq<T::V>, SpecErr>(e@),
        },
{
    match Json::lookup(entries, key) {
        Option::None => Err(DecodeError::at(key, MismatchKind::MissingField)),
        Option::Some(v) => match v {
            Json::Arr(items) => match decode_list::<T>(items) {
                Ok(out) => Ok(out),
                Err(e0) => Err(e0.under(key.to_owned())),
            },
            _ => Err(DecodeError::at(key, MismatchKind::WrongKind)),
        },
    }
}

/// The optional field `key` holding an array of `T` values: absent, null and
/// an array are three distinct outcomes.
pub open spec fn spec_field_maybe_list<V>(
    e: Seq<(Seq<char>, SpecJson)>,
    key: Seq<char>,
    dec: spec_fn(SpecJson) -> Result<V, SpecErr>,
) -> Result<Maybe<Seq<V>>, SpecErr> {
    match spec_lookup(e, key) {
        Option::None => Ok(Maybe::Absent),
        Option::Some(v) => match v {
            SpecJson::Null => Ok(Maybe::Null),
            SpecJson::Arr(items) => match spec_list(items, dec) {
                Ok(s) => Ok(Maybe::Value(s)),
                Err(er) => Err(spec_err_under(key, er)),
            },
            _ => Err(spec_err_at(key, MismatchKind::WrongKind)),
        },
    }
}

/// A `Maybe` of decoded values seen at the spec level.
pub open spec fn maybe_structs_view<T: View>(m: Maybe<Vec<T>>) -> Maybe<Seq<T::V>> {
    match m {
        Maybe::Absent => Maybe::Absent,
        Maybe::Null => Maybe::Null,
        Maybe::Value(v) => Maybe::Value(structs_view(v@)),
    }
}

/// The optional field `key` holding an array of `T` values.
pub fn field_maybe_list<T: DecodeElem>(entries: &Vec<(String, Json)>, key: &str) -> (r: Result<
    Maybe<Vec<T>>,
    DecodeError,
>)
    ensures
        match r {
            Ok(m) => spec_field_maybe_list(entries_view(entries@), key@, sdec_of::<T>()) == Ok::<Maybe<Seq<T::V>>, SpecErr>(maybe_structs_view(m)),
            Err(e) => spec_field_maybe_list(entries_view(entries@), key@, sdec_of::<T>()) == Err::<Maybe<Seq<T::V>>, SpecErr>(e@),
        },
{
    match Json::lookup(entries, key) {
        Option::None => Ok(Maybe::Absent),
        Option::Some(v) => match v {
            Json::Null => Ok(Maybe::Null),
            Json::Arr(items) => match decode_list::<T>(items) {
                Ok(out) => Ok(Maybe::Value(out)),
                Err(e0) => Err(e0.under(key.to_owned())),
            },
            _ => Err(DecodeError::at(key, MismatchKind::WrongKind)),
        },
    }
}

/// The optional field `key` holding one `T` value: absent, null and a value
/// are three distinct outcomes.
pub open spec fn spec_field_maybe_elem<V>(
    e: Seq<(Seq<char>, SpecJson)>,
    key: Seq<char>,
    dec: spec_fn(SpecJson) -> Result<V, SpecErr>,
) -> Result<Maybe<V>, SpecErr> {
    match spec_lookup(e, key) {
        Option::None => Ok(Maybe::Absent),
        Option::Some(v) => match v {
            SpecJson::Null => Ok(Maybe::Null),
            _ => match dec(v) {
                Ok(x) => Ok(Maybe::Value(x)),
                Err(er) => Err(spec_err_under(key, er)),
            },
        },
    }
}

/// The optional field `key` holding one `T` value.
pub fn field_maybe_elem<T: DecodeElem>(entries: &Vec<(String, Json)>, key: &str) -> (r: Result<
    Maybe<T>,
    DecodeError,
>)
    ensures
        match r {
            Ok(m) => spec_field_maybe_elem(entries_view(entries@), key@, sdec_of::<T>()) == Ok::<Maybe<T::V>, SpecErr>(m@),
            Err(e) => spec_field_maybe_elem(entries_view(entries@), key@, sdec_of::<T>()) == Err::<Maybe<T::V>, SpecErr>(e@),
        },
{
    match Json::lookup(entries, key) {
        Option::None => Ok(Maybe::Absent),
        Option::Some(v) => match v {
            Json::Null => Ok(Maybe::Null),
            _ => match T::dec(v) {
                Ok(x) => Ok(Maybe::Value(x)),
                Err(e0) => Err(e0.under(key.to_owned())),
            },
        },
    }
}

/// A schema object with a fixed set of known keys; entries under other keys
/// are retained as extras.
pub trait KnownKeys {
    /// The key test, under one name so that every mention is the same
    /// function.
    spec fn known() -> spec_fn(Seq<char>) -> bool;

    /// Whether the schema knows key `k`.
    fn is_known(k: &str) -> (r: bool)
        ensures
            r == Self::known()(k@),
    ;
}

/// The entries whose keys the schema of `T` does not know, in their original
/// order, each retained verbatim.
pub fn extras_of<T: KnownKeys>(entries: &Vec<(String, Json)>) -> (r: Vec<(String, Json)>)
    ensures
        entries_view(r@) == spec_extras(entries_view(entries@), T::known()),
{
    let ghost known = T::known();
    let ghost ev = entries_view(entries@);
    proof {
        crate::json::lemma_obj_view_from(entries@, 0);
    }
    let mut out: Vec<(String, Json)> = Vec::new();
    proof {
        crate::json::lemma_obj_view_from(out@, 0);
        assert(entries_view(out@) =~= Seq::<(Seq<char>, SpecJson)>::empty());
        assert(ev.skip(0) =~= ev);
        assert(entries_view(out@) + spec_extras(ev.skip(0), known) =~= spec_extras(ev, known));
    }
    let mut i: usize = 0;
    while i < entries.len()
        invariant
            0 <= i <= entries.len(),
            ev == entries_view(entries@),
            ev.len() == entries@.len(),
            forall|k: int|
                0 <= k < entries@.len() ==> ev[k] == ((#[trigger] entries@[k]).0@, crate::json::json_view(entries@[k].1)),
            known == T::known(),
            entries_view(out@) + spec_extras(ev.skip(i as int), known) == spec_extras(ev, known),
        decreases entries.len() - i,
    {
        proof {
            assert(ev.skip(i as int)[0] == ev[i as int]);
            assert(ev.skip(i as int).skip(1) =~= ev.skip(i + 1 as int));
        }
        if !T::is_known(entries[i].0.as_str()) {
            let ghost old_out = out@;
            let ghost before = entries_view(out@);
            let key = entries[i].0.clone();
            let val = entries[i].1.duplicate();
            out.push((key, val));
            proof {
                crate::json::lemma_obj_view_from(old_out, 0);
                crate::json::lemma_obj_view_from(out@, 0);
                assert(out@ =~= old_out.push((key, val)));
                assert forall|m: int| 0 <= m < entries_view(out@).len() implies entries_view(out@)[m]
                    == (before + seq![ev[i as int]])[m] by {
                    assert(entries_view(out@)[m] == ((out@[m]).0@, crate::json::json_view(out@[m].1)));
                    if m < old_out.len() {
                        assert(out@[m] == old_out[m]);
                        assert(before[m] == ((old_out[m]).0@, crate::json::json_view(old_out[m].1)));
                    } else {
                        assert(out@[m] == (key, val));
                    }
                }
                assert(entries_view(out@) =~= before + seq![ev[i as int]]);
                assert((before + seq![ev[i as int]]) + spec_extras(ev.skip(i + 1 as int), known) =~= before + (
                seq![ev[i as int]] + spec_extras(ev.skip(i + 1 as int), known)));
            }
        }
        i = i + 1;
    }
    proof {
        assert(ev.skip(i as int) =~= Seq::<(Seq<char>, SpecJson)>::empty());
        assert(entries_view(out@) + Seq::<(Seq<char>, SpecJson)>::empty() =~= entries_view(out@));
    }
    out
}

/// The optional boolean field `key`, absent and null kept apart.
pub open spec fn spec_field_maybe_bool(e: Seq<(Seq<char>, SpecJson)>, key: Seq<char>) -> Result<
    Maybe<bool>,
    SpecErr,
> {
    match spec_lookup(e, key) {
        Option::None => Ok(Maybe::Absent),
        Option::Some(v) => match v {
            SpecJson::Null => Ok(Maybe::Null),
            SpecJson::Bool(b) => Ok(Maybe::Value(b)),
            _ => Err(spec_err_at(key, MismatchKind::WrongKind)),
        },
    }
}

/// The optional boolean field `key`, absent and null kept apart.
pub fn field_maybe_bool(entries: &Vec<(String, Json)>, key: &str) -> (r: Result<
    Maybe<bool>,
    DecodeError,
>)
    ensures
        match r {
            Ok(m) => spec_field_maybe_bool(entries_view(entries@), key@) == Ok::<Maybe<bool>, SpecErr>(m@),
            Err(e) => spec_field_maybe_bool(entries_view(entries@), key@) == Err::<Maybe<bool>, SpecErr>(e@),
        },
{
    match Json::lookup(entries, key) {
        Option::None => Ok(Maybe::Absent),
        Option::Some(v) => match v {
            Json::Null => Ok(Maybe::Null),
            Json::Bool(b) => Ok(Maybe::Value(*b)),
            _ => Err(DecodeError::at(key, MismatchKind::WrongKind)),
        },
    }
}

/// The required field `key` holding one `T` value.
pub open spec fn spec_field_elem<V>(
    e: Seq<(Seq<char>, SpecJson)>,
    key: Seq<char>,
    dec: spec_fn(SpecJson) -> Result<V, SpecErr>,
) -> Result<V, SpecErr> {
    match spec_lookup(e, key) {
        Option::None => Err(spec_err_at(key, MismatchKind::MissingField)),
        Option::Some(v) => match dec(v) {
            Ok(x) => Ok(x),
            Err(er) => Err(spec_err_under(key, er)),
        },
    }
}

/// The required field `key` holding one `T` value.
pub fn field_elem<T: DecodeElem>(entries: &Vec<(String, Json)>, key: &str) -> (r: Result<
    T,
    DecodeError,
>)
    ensures
        match r {
            Ok(x) => spec_field_elem(entries_view(entries@), key@, sdec_of::<T>()) == Ok::<T::V, SpecErr>(x@),
            Err(e) => spec_field_elem(entries_view(entries@), key@, sdec_of::<T>()) == Err::<T::V, SpecErr>(e@),
        },
{
    match Json::lookup(entries, key) {
        Option::None => Err(DecodeError::at(key, MismatchKind::MissingField)),
        Option::Some(v) => match T::dec(v) {
            Ok(x) => Ok(x),
            Err(e0) => Err(e0.under(key.to_owned())),
        },
    }
}

/// A `Maybe<i32>` seen at the spec level.
pub open spec fn maybe_i32_view(m: Maybe<i32>) -> Maybe<int> {
    match m {
        Maybe::Absent => Maybe::Absent,
        Maybe::Null => Maybe::Null,
        Maybe::Value(n) => Maybe::Value(n as int),
    }
}

/// The position `idx` as a path segment.
pub fn index_segment(idx: usize) -> (r: String)
    ensures
        r@ == spec_render_int(idx as int),
{
    render_u64(idx as u64)
}

} // verus!
