use vstd::prelude::*;
use crate::json::str_eq;

verus! {

/// Why a well-formed document was refused by the schema: the four ways a
/// field can disagree with what the schema declares for it.
#[derive(Debug, Clone, Copy, PartialEq, Eq, Structural)]
pub enum MismatchKind {
    /// A required key is not present in the object.
    MissingField,
    /// The value is of another JSON kind than the field requires.
    WrongKind,
    /// A closed enumeration was fed a string it does not contain.
    UnknownEnumValue,
    /// A number text that is not a canonical integer in the field's range.
    IntOutOfRange,
}

/// The mathematical content of a `DecodeError`: the path of the offending
/// field, outermost segment first, and what is wrong with it.
pub struct SpecErr {
    pub path: Seq<Seq<char>>,
    pub kind: MismatchKind,
}

/// A schema mismatch: the document is well-formed JSON, but the field at
/// `path` is missing, of the wrong kind, an unknown enumeration value, or an
/// out-of-range integer. Array positions appear in the path as decimal
/// segments.
#[derive(Debug, PartialEq)]
pub struct DecodeError {
    pub path: Vec<String>,
    pub kind: MismatchKind,
}

impl View for DecodeError {
    type V = SpecErr;

    open spec fn view(&self) -> SpecErr {
        SpecErr { path: Seq::new(self.path@.len(), |i: int| self.path@[i]@), kind: self.kind }
    }
}

/// `SpecErr` with one segment added at the front of the path.
pub open spec fn spec_err_under(seg: Seq<char>, e: SpecErr) -> SpecErr {
    SpecErr { path: seq![seg] + e.path, kind: e.kind }
}

/// A mismatch at one field, path of a single segment.
pub open spec fn spec_err_at(seg: Seq<char>, kind: MismatchKind) -> SpecErr {
    SpecErr { path: seq![seg], kind }
}

/// A mismatch of the value itself, with an empty path.
pub open spec fn spec_err_here(kind: MismatchKind) -> SpecErr {
    SpecErr { path: Seq::empty(), kind }
}

impl DecodeError {
    /// A mismatch of the value itself, with an empty path.
    pub fn here(kind: MismatchKind) -> (r: DecodeError)
        ensures
            r@ == spec_err_here(kind),
    {
        let r = DecodeError { path: Vec::new(), kind };
        proof {
            assert(r@.path =~= Seq::<Seq<char>>::empty());
        }
        r
    }

    /// A mismatch at one field of an object.
    pub fn at(seg: &str, kind: MismatchKind) -> (r: DecodeError)
        ensures
            r@ == spec_err_at(seg@, kind),
    {
        let mut path: Vec<String> = Vec::new();
        path.push(seg.to_owned());
        let r = DecodeError { path, kind };
        proof {
            assert(r@.path =~= seq![seg@]);
        }
        r
    }

    /// The same mismatch, seen from the enclosing object or array: `seg` is
    /// put in front of the path.
    pub fn under(self, seg: String) -> (r: DecodeError)
        ensures
            r@ == spec_err_under(seg@, self@),
    {
        let ghost before = self@;
        let mut path = self.path;
        path.insert(0, seg);
        let r = DecodeError { path, kind: self.kind };
        proof {
            assert(r@.path =~= seq![seg@] + before.path);
        }
        r
    }

    /// The path segments joined with dots: `levels.0.uid`.
    pub fn path_string(&self) -> (r: String)
        ensures
            r@ == spec_path_string(self@.path),
    {
        let mut out = String::new();
        let mut i: usize = 0;
        proof {
            reveal_strlit(".");
            assert(self@.path.take(0) =~= Seq::<Seq<char>>::empty());
        }
        while i < self.path.len()
            invariant
                0 <= i <= self.path.len(),
                self@.path.len() == self.path@.len(),
                forall|k: int| 0 <= k < self.path@.len() ==> self@.path[k] == self.path@[k]@,
                out@ == spec_path_string(self@.path.take(i as int)),
            decreases self.path.len() - i,
        {
            if i > 0 {
                out.append(".");
            }
            out.append(self.path[i].as_str());
            proof {
                reveal_strlit(".");
                assert(self@.path.take(i + 1 as int).drop_last() =~= self@.path.take(i as int));
            }
            i = i + 1;
        }
        proof {
            assert(self@.path.take(i as int) =~= self@.path);
        }
        out
    }

    /// True when the innermost path segment is `seg`: the mismatch is at a
    /// field of that name.
    pub fn path_ends_at(&self, seg: &str) -> (r: bool)
        ensures
            r == (self@.path.len() > 0 && self@.path.last() == seg@),
    {
        if self.path.len() == 0 {
            return false;
        }
        str_eq(self.path[self.path.len() - 1].as_str(), seg)
    }
}

/// The segments joined with dots.
pub open spec fn spec_path_string(path: Seq<Seq<char>>) -> Seq<char>
    decreases path.len(),
{
    if path.len() == 0 {
        Seq::empty()
    } else if path.len() == 1 {
        path[0]
    } else {
        spec_path_string(path.drop_last()) + seq!['.'] + path.last()
    }
}

/// Why a document could not be loaded at all: the bytes are not well-formed
/// JSON, or the JSON does not fit the schema.
#[derive(Debug, PartialEq)]
pub enum LoadError {
    /// Not well-formed JSON; the position is serde_json's line and column.
    MalformedDocument { line: usize, column: usize },
    /// Well-formed JSON that does not fit the schema.
    SchemaMismatch(DecodeError),
}

} // verus!
