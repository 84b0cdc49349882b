use vstd::prelude::*;

verus! {

/// The library's model of a JSON document: a tagged union over the six JSON
/// value kinds. A number is kept as its wire text, never interpreted as a
/// machine float, so a decoded tree preserves numeric values exactly; integer
/// fields of the schema are read from the text by a verified parser.
///
/// An object is an ordered list of key/value entries. Entries produced by the
/// document parser have pairwise distinct keys.
#[derive(Debug, PartialEq)]
pub enum Json {
    Null,
    Bool(bool),
    Num(String),
    Str(String),
    Arr(Vec<Json>),
    Obj(Vec<(String, Json)>),
}

/// The mathematical value of a `Json` tree: text becomes `Seq<char>`, vectors
/// become `Seq`.
pub enum SpecJson {
    Null,
    Bool(bool),
    Num(Seq<char>),
    Str(Seq<char>),
    Arr(Seq<SpecJson>),
    Obj(Seq<(Seq<char>, SpecJson)>),
}

/// The mathematical value of a `Json` tree.
pub open spec fn json_view(j: Json) -> SpecJson
    decreases j, 0int,
{
    match j {
        Json::Null => SpecJson::Null,
        Json::Bool(b) => SpecJson::Bool(b),
        Json::Num(t) => SpecJson::Num(t@),
        Json::Str(s) => SpecJson::Str(s@),
        Json::Arr(items) => {
            proof {
                assert(decreases_to!(j => items));
                assert(decreases_to!(items => items@));
            }
            SpecJson::Arr(arr_view_from(items@, 0))
        },
        Json::Obj(entries) => {
            proof {
                assert(decreases_to!(j => entries));
                assert(decreases_to!(entries => entries@));
            }
            SpecJson::Obj(obj_view_from(entries@, 0))
        },
    }
}

/// The element-wise view of an array's items, from position `idx` on.
pub open spec fn arr_view_from(items: Seq<Json>, idx: int) -> Seq<SpecJson>
    decreases items, items.len() - idx,
{
    if idx < 0 || idx >= items.len() {
        Seq::empty()
    } else {
        seq![json_view(items[idx])] + arr_view_from(items, idx + 1)
    }
}

/// The entry-wise view of an object's entries, from position `idx` on.
pub open spec fn obj_view_from(entries: Seq<(String, Json)>, idx: int) -> Seq<(Seq<char>, SpecJson)>
    decreases entries, entries.len() - idx,
{
    if idx < 0 || idx >= entries.len() {
        Seq::empty()
    } else {
        proof {
            assert(decreases_to!(entries => entries[idx]));
        }
        seq![(entries[idx].0@, json_view(entries[idx].1))] + obj_view_from(entries, idx + 1)
    }
}

impl View for Json {
    type V = SpecJson;

    open spec fn view(&self) -> SpecJson {
        json_view(*self)
    }
}

/// The views of item and entry vectors, element by element.
pub open spec fn items_view(items: Seq<Json>) -> Seq<SpecJson> {
    arr_view_from(items, 0)
}

/// The views of item and entry vectors, element by element.
pub open spec fn entries_view(entries: Seq<(String, Json)>) -> Seq<(Seq<char>, SpecJson)> {
    obj_view_from(entries, 0)
}

/// `arr_view_from` maps every remaining item through `json_view`, in place.
pub proof fn lemma_arr_view_from(items: Seq<Json>, idx: int)
    requires
        0 <= idx <= items.len(),
    ensures
        arr_view_from(items, idx).len() == items.len() - idx,
        forall|k: int|
            idx <= k < items.len() ==> arr_view_from(items, idx)[k - idx] == json_view(#[trigger] items[k]),
    decreases items.len() - idx,
{
    if idx < items.len() {
        lemma_arr_view_from(items, idx + 1);
    }
}

/// `obj_view_from` maps every remaining entry through the views, in place.
pub proof fn lemma_obj_view_from(entries: Seq<(String, Json)>, idx: int)
    requires
        0 <= idx <= entries.len(),
    ensures
        obj_view_from(entries, idx).len() == entries.len() - idx,
        forall|k: int|
            idx <= k < entries.len() ==> obj_view_from(entries, idx)[k - idx] == ((#[trigger] entries[k]).0@, json_view(entries[k].1)),
    decreases entries.len() - idx,
{
    if idx < entries.len() {
        lemma_obj_view_from(entries, idx + 1);
    }
}

/// The value bound to `key` in an entry list: the first entry with that key,
/// or `None` when no entry has it.
pub open spec fn spec_lookup(entries: Seq<(Seq<char>, SpecJson)>, key: Seq<char>) -> Option<SpecJson>
    decreases entries.len(),
{
    if entries.len() == 0 {
        None
    } else if entries[0].0 == key {
        Some(entries[0].1)
    } else {
        spec_lookup(entries.skip(1), key)
    }
}

/// Keys of an object's entries are pairwise distinct.
pub open spec fn spec_keys_unique(entries: Seq<(Seq<char>, SpecJson)>) -> bool {
    forall|i: int, j: int|
        0 <= i < j < entries.len() ==> entries[i].0 != entries[j].0
}

/// Every object anywhere in the tree has pairwise distinct keys.
pub open spec fn spec_objs_unique(j: SpecJson) -> bool
    decreases j,
{
    match j {
        SpecJson::Arr(items) => forall|i: int|
            0 <= i < items.len() ==> spec_objs_unique(#[trigger] items[i]),
        SpecJson::Obj(entries) => spec_keys_unique(entries) && forall|i: int|
            0 <= i < entries.len() ==> spec_objs_unique(#[trigger] entries[i].1),
        _ => true,
    }
}

impl Json {
    /// The first entry of an object with the given key, by linear scan.
    pub fn lookup<'a>(entries: &'a Vec<(String, Json)>, key: &str) -> (r: Option<&'a Json>)
        ensures
            match r {
                Some(v) => spec_lookup(entries_view(entries@), key@) == Some(v@),
                None => spec_lookup(entries_view(entries@), key@) is None,
            },
    {
        let ghost all = entries_view(entries@);
        proof {
            lemma_obj_view_from(entries@, 0);
        }
        assert(all.skip(0) =~= all);
        let mut i: usize = 0;
        while i < entries.len()
            invariant
                0 <= i <= entries.len(),
                all == entries_view(entries@),
                all.len() == entries@.len(),
                forall|k: int|
                    0 <= k < entries@.len() ==> all[k] == ((#[trigger] entries@[k]).0@, json_view(entries@[k].1)),
                spec_lookup(all.skip(i as int), key@) == spec_lookup(all, key@),
            decreases entries.len() - i,
        {
            if str_eq(entries[i].0.as_str(), key) {
                assert(all.skip(i as int)[0] == all[i as int]);
                return Some(&entries[i].1);
            }
            assert(all.skip(i as int).skip(1) =~= all.skip(i + 1 as int));
            i = i + 1;
        }
        assert(all.skip(i as int) =~= Seq::<(Seq<char>, SpecJson)>::empty());
        None
    }
}

impl Json {
    /// An independently owned copy with the same value.
    pub fn duplicate(&self) -> (r: Json)
        ensures
            r@ == self@,
        decreases self,
    {
        match self {
            Json::Null => Json::Null,
            Json::Bool(b) => Json::Bool(*b),
            Json::Num(t) => Json::Num(t.clone()),
            Json::Str(s) => Json::Str(s.clone()),
            Json::Arr(items) => {
                let mut out: Vec<Json> = Vec::new();
                let mut i: usize = 0;
                while i < items.len()
                    invariant
                        0 <= i <= items.len(),
                        out@.len() == i,
                        *self == Json::Arr(*items),
                        forall|m: int| 0 <= m < i ==> json_view(#[trigger] out@[m]) == json_view(items@[m]),
                    decreases items.len() - i,
                {
                    proof {
                        assert(decreases_to!(*self => (*self)->Arr_0));
                        assert((*self)->Arr_0 == *items);
                        assert(decreases_to!(*items => items@));
                        assert(decreases_to!(items@ => items@[i as int]));
                    }
                    let copy = items[i].duplicate();
                    out.push(copy);
                    i = i + 1;
                }
                proof {
                    lemma_arr_view_from(items@, 0);
                    lemma_arr_view_from(out@, 0);
                    assert forall|m: int| 0 <= m < items@.len() implies arr_view_from(out@, 0)[m]
                        == arr_view_from(items@, 0)[m] by {
                        assert(json_view(out@[m]) == json_view(items@[m]));
                    }
                    assert(arr_view_from(out@, 0) =~= arr_view_from(items@, 0));
                }
                Json::Arr(out)
            },
            Json::Obj(entries) => {
                let mut out: Vec<(String, Json)> = Vec::new();
                let mut i: usize = 0;
                while i < entries.len()
                    invariant
                        0 <= i <= entries.len(),
                        out@.len() == i,
                        *self == Json::Obj(*entries),
                        forall|m: int|
                            0 <= m < i ==> (#[trigger] out@[m]).0@ == entries@[m].0@ && json_view(out@[m].1) == json_view(entries@[m].1),
                    decreases entries.len() - i,
                {
                    proof {
                        assert(decreases_to!(*self => (*self)->Obj_0));
                        assert((*self)->Obj_0 == *entries);
                        assert(decreases_to!(*entries => entries@));
                        assert(decreases_to!(entries@ => entries@[i as int]));
                        assert(decreases_to!(entries@[i as int] => entries@[i as int].1));
                    }
                    let copy = entries[i].1.duplicate();
                    let key = entries[i].0.clone();
                    out.push((key, copy));
                    i = i + 1;
                }
                proof {
                    lemma_obj_view_from(entries@, 0);
                    lemma_obj_view_from(out@, 0);
                    assert forall|m: int| 0 <= m < entries@.len() implies obj_view_from(out@, 0)[m]
                        == obj_view_from(entries@, 0)[m] by {
                        assert((out@[m]).0@ == entries@[m].0@ && json_view(out@[m].1) == json_view(entries@[m].1));
                    }
                    assert(obj_view_from(out@, 0) =~= obj_view_from(entries@, 0));
                }
                Json::Obj(out)
            },
        }
    }
}

/// Character-by-character equality of two text slices.
pub fn str_eq(a: &str, b: &str) -> (r: bool)
    ensures
        r == (a@ == b@),
{
    let alen = a.unicode_len();
    let blen = b.unicode_len();
    if alen != blen {
        assert(a@ != b@);
        return false;
    }
    let mut i: usize = 0;
    while i < alen
        invariant
            0 <= i <= alen,
            alen == a@.len(),
            alen == b@.len(),
            forall|k: int| 0 <= k < i ==> a@[k] == b@[k],
        decreases alen - i,
    {
        if a.get_char(i) != b.get_char(i) {
            assert(a@ != b@);
            return false;
        }
        i = i + 1;
    }
    assert(a@ =~= b@);
    true
}

} // verus!
