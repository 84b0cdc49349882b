//! A verified loader for LDtk project files: a JSON-based level-editor
//! export format of tile grids, layers, entities and tilesets. A document is
//! parsed into the library's own JSON value model and decoded, all or
//! nothing, into a typed tree; the level side of the schema also prints back,
//! and an accepted level document survives the round trip deep-equal, entry
//! order aside.

pub mod decode;
pub mod defs;
pub mod encode;
pub mod error;
pub mod json;
pub mod laws;
pub mod ldtk_file;
pub mod levels;
pub mod num;
pub mod raw;

use vstd::prelude::*;

verus! {

/// A tri-state optional value: a JSON field may be entirely absent from its
/// object, present with an explicit `null`, or present with a value. The three
/// states are observably distinct.
#[derive(Debug, PartialEq)]
pub enum Maybe<T> {
    Absent,
    Null,
    Value(T),
}

impl<T> Maybe<T> {
    /// True when the field was present with a concrete value.
    pub fn is_value(&self) -> (r: bool)
        ensures
            r == (self is Value),
    {
        match self {
            Maybe::Value(_) => true,
            _ => false,
        }
    }
}

} // verus!

verus! {

/// The loaded project: the whole content of one root document, plus the path
/// it was read from. A decode is atomic: a caller sees either a complete,
/// internally consistent tree or an error, never a partial one. The tree is
/// an immutable snapshot; the loader never mutates it after construction.
#[derive(Debug, PartialEq)]
pub struct Project {
    /// The path the document was read from, as the caller gave it.
    pub file: String,
    pub defs: defs::Defs,
    pub levels: Vec<levels::Level>,
}

/// The mathematical value of a `Project`.
pub struct SpecProject {
    pub file: Seq<char>,
    pub defs: defs::SpecDefs,
    pub levels: Seq<levels::SpecLevel>,
}

impl View for Project {
    type V = SpecProject;

    open spec fn view(&self) -> SpecProject {
        SpecProject {
            file: self.file@,
            defs: self.defs@,
            levels: decode::structs_view(self.levels@),
        }
    }
}

impl Project {
    /// Decodes a whole project document into the flattened view: the
    /// definitions catalog and the levels of the root document, under the
    /// given source path. All or nothing: malformed text and a schema
    /// mismatch are refused apart, and no partial project is returned.
    pub fn from_json_text(file: String, text: &str) -> (r: Result<Project, error::LoadError>)
        ensures
            match r {
                Ok(p) => {
                    &&& p@.file == file@
                    &&& raw::json_of(text@) matches Some(j) && ldtk_file::spec_decode_ldtk(j)
                        matches Ok(f) && p@.defs == f.defs && p@.levels == f.levels
                },
                Err(error::LoadError::MalformedDocument { .. }) => raw::json_of(text@) is None,
                Err(error::LoadError::SchemaMismatch(e)) => raw::json_of(text@) matches Some(j)
                    && ldtk_file::spec_decode_ldtk(j) == Err::<ldtk_file::SpecLdtkFile, error::SpecErr>(e@),
            },
    {
        match ldtk_file::LdtkFile::from_json_text(text) {
            Ok(f) => Ok(Project { file, defs: f.defs, levels: f.levels }),
            Err(e) => Err(e),
        }
    }
}

impl<T: View> View for Maybe<T> {
    type V = Maybe<T::V>;

    open spec fn view(&self) -> Maybe<T::V> {
        match self {
            Maybe::Absent => Maybe::Absent,
            Maybe::Null => Maybe::Null,
            Maybe::Value(t) => Maybe::Value(t.view()),
        }
    }
}

} // verus!
