use vstd::prelude::*;
use crate::json::Json;
use crate::json::SpecJson;
use crate::json::entries_view;
use crate::json::str_eq;
use crate::error::DecodeError;
use crate::error::LoadError;
use crate::error::MismatchKind;
use crate::error::SpecErr;
use crate::error::spec_err_at;
use crate::error::spec_err_here;
use crate::decode::res_view;
use crate::decode::structs_view;
use crate::decode::spec_field_int;
use crate::decode::spec_field_str;
use crate::decode::spec_field_num;
use crate::decode::spec_field_bool;
use crate::decode::spec_field_list;
use crate::decode::spec_field_maybe_bool;
use crate::decode::field_i32;
use crate::decode::field_str;
use crate::decode::field_num;
use crate::decode::field_bool;
use crate::decode::field_list;
use crate::decode::field_maybe_bool;
use crate::decode::spec_field_elem;
use crate::decode::field_elem;
use crate::decode::sdec_of;
use crate::defs::Defs;
use crate::defs::SpecDefs;
use crate::levels::Level;
use crate::levels::SpecLevel;
use crate::raw::json_of;
use crate::raw::parse_json_text;
use crate::Maybe;

verus! {

// The root document: project settings, the definitions catalog and the
// levels. `from_json_text` is the one-shot, fail-fast decode of a whole
// document: a malformed text and a schema mismatch are reported apart, and no
// partial tree is ever returned.

/// How levels are organized in the world; closed set.
#[derive(Debug, Clone, Copy, PartialEq, Eq, Structural)]
pub enum WorldLayout {
    Free,
    GridVania,
    LinearHorizontal,
    LinearVertical,
}

/// The world layout a wire string names, if any.
pub open spec fn spec_world_layout(s: Seq<char>) -> Option<WorldLayout> {
    if s == "Free"@ {
        Some(WorldLayout::Free)
    } else if s == "GridVania"@ {
        Some(WorldLayout::GridVania)
    } else if s == "LinearHorizontal"@ {
        Some(WorldLayout::LinearHorizontal)
    } else if s == "LinearVertical"@ {
        Some(WorldLayout::LinearVertical)
    } else {
        None
    }
}

/// The world layout a wire string names, if any.
pub fn world_layout_of(s: &str) -> (r: Option<WorldLayout>)
    ensures
        r == spec_world_layout(s@),
{
    if str_eq(s, "Free") {
        Some(WorldLayout::Free)
    } else if str_eq(s, "GridVania") {
        Some(WorldLayout::GridVania)
    } else if str_eq(s, "LinearHorizontal") {
        Some(WorldLayout::LinearHorizontal)
    } else if str_eq(s, "LinearVertical") {
        Some(WorldLayout::LinearVertical)
    } else {
        None
    }
}

/// The root of a project document. The default pivot is kept as its wire
/// number text. `external_levels` tells whether level layer data lives in
/// separate files; old documents may omit it.
#[derive(Debug, PartialEq)]
pub struct LdtkFile {
    pub json_version: String,
    pub default_pivot_x: String,
    pub default_pivot_y: String,
    pub default_grid_size: i32,
    pub bg_color: String,
    pub default_level_bg_color: String,
    pub next_uid: i32,
    pub minify_json: bool,
    pub export_tiled: bool,
    pub world_layout: WorldLayout,
    pub world_grid_width: i32,
    pub world_grid_height: i32,
    pub external_levels: Maybe<bool>,
    pub defs: Defs,
    pub levels: Vec<Level>,
}

/// The mathematical value of an `LdtkFile`.
pub struct SpecLdtkFile {
    pub json_version: Seq<char>,
    pub default_pivot_x: Seq<char>,
    pub default_pivot_y: Seq<char>,
    pub default_grid_size: int,
    pub bg_color: Seq<char>,
    pub default_level_bg_color: Seq<char>,
    pub next_uid: int,
    pub minify_json: bool,
    pub export_tiled: bool,
    pub world_layout: WorldLayout,
    pub world_grid_width: int,
    pub world_grid_height: int,
    pub external_levels: Maybe<bool>,
    pub defs: SpecDefs,
    pub levels: Seq<SpecLevel>,
}

impl View for LdtkFile {
    type V = SpecLdtkFile;

    open spec fn view(&self) -> SpecLdtkFile {
        SpecLdtkFile {
            json_version: self.json_version@,
            default_pivot_x: self.default_pivot_x@,
            default_pivot_y: self.default_pivot_y@,
            default_grid_size: self.default_grid_size as int,
            bg_color: self.bg_color@,
            default_level_bg_color: self.default_level_bg_color@,
            next_uid: self.next_uid as int,
            minify_json: self.minify_json,
            export_tiled: self.export_tiled,
            world_layout: self.world_layout,
            world_grid_width: self.world_grid_width as int,
            world_grid_height: self.world_grid_height as int,
            external_levels: self.external_levels@,
            defs: self.defs@,
            levels: structs_view(self.levels@),
        }
    }
}

/// What `decode` yields for a root document value.
pub open spec fn spec_decode_ldtk(j: SpecJson) -> Result<SpecLdtkFile, SpecErr> {
    if !(j is Obj) {
        Err(spec_err_here(MismatchKind::WrongKind))
    } else {
        let e = j->Obj_0;
        let json_version = spec_field_str(e, "jsonVersion"@);
        let pivot_x = spec_field_num(e, "defaultPivotX"@);
        let pivot_y = spec_field_num(e, "defaultPivotY"@);
        let grid_size = spec_field_int(e, "defaultGridSize"@, i32::MIN as int, i32::MAX as int);
        let bg_color = spec_field_str(e, "bgColor"@);
        let level_bg = spec_field_str(e, "defaultLevelBgColor"@);
        let next_uid = spec_field_int(e, "nextUid"@, i32::MIN as int, i32::MAX as int);
        let minify = spec_field_bool(e, "minifyJson"@);
        let tiled = spec_field_bool(e, "exportTiled"@);
        let layout = spec_field_world_layout(e, "worldLayout"@);
        let grid_w = spec_field_int(e, "worldGridWidth"@, i32::MIN as int, i32::MAX as int);
        let grid_h = spec_field_int(e, "worldGridHeight"@, i32::MIN as int, i32::MAX as int);
        let external = spec_field_maybe_bool(e, "externalLevels"@);
        let defs = spec_field_elem(e, "defs"@, sdec_of::<Defs>());
        let levels = spec_field_list(e, "levels"@, sdec_of::<Level>());
        if json_version is Err {
            Err(json_version->Err_0)
        } else if pivot_x is Err {
            Err(pivot_x->Err_0)
        } else if pivot_y is Err {
            Err(pivot_y->Err_0)
        } else if grid_size is Err {
            Err(grid_size->Err_0)
        } else if bg_color is Err {
            Err(bg_color->Err_0)
        } else if level_bg is Err {
            Err(level_bg->Err_0)
        } else if next_uid is Err {
            Err(next_uid->Err_0)
        } else if minify is Err {
            Err(minify->Err_0)
        } else if tiled is Err {
            Err(tiled->Err_0)
        } else if layout is Err {
            Err(layout->Err_0)
        } else if grid_w is Err {
            Err(grid_w->Err_0)
        } else if grid_h is Err {
            Err(grid_h->Err_0)
        } else if external is Err {
            Err(external->Err_0)
        } else if defs is Err {
            Err(defs->Err_0)
        } else if levels is Err {
            Err(levels->Err_0)
        } else {
            Ok(
                SpecLdtkFile {
                    json_version: json_version->Ok_0,
                    default_pivot_x: pivot_x->Ok_0,
                    default_pivot_y: pivot_y->Ok_0,
                    default_grid_size: grid_size->Ok_0,
                    bg_color: bg_color->Ok_0,
                    default_level_bg_color: level_bg->Ok_0,
                    next_uid: next_uid->Ok_0,
                    minify_json: minify->Ok_0,
                    export_tiled: tiled->Ok_0,
                    world_layout: layout->Ok_0,
                    world_grid_width: grid_w->Ok_0,
                    world_grid_height: grid_h->Ok_0,
                    external_levels: external->Ok_0,
                    defs: defs->Ok_0,
                    levels: levels->Ok_0,
                },
            )
        }
    }
}

/// The required field `key` naming a world layout.
pub open spec fn spec_field_world_layout(e: Seq<(Seq<char>, SpecJson)>, key: Seq<char>) -> Result<
    WorldLayout,
    SpecErr,
> {
    match spec_field_str(e, key) {
        Err(er) => Err(er),
        Ok(s) => match spec_world_layout(s) {
            Some(w) => Ok(w),
            None => Err(spec_err_at(key, MismatchKind::UnknownEnumValue)),
        },
    }
}

/// The required field `key` naming a world layout.
pub fn field_world_layout(entries: &Vec<(String, Json)>, key: &str) -> (r: Result<
    WorldLayout,
    DecodeError,
>)
    ensures
        match r {
            Ok(w) => spec_field_world_layout(entries_view(entries@), key@) == Ok::<WorldLayout, SpecErr>(w),
            Err(e) => spec_field_world_layout(entries_view(entries@), key@) == Err::<WorldLayout, SpecErr>(e@),
        },
{
    let s = match field_str(entries, key) {
        Ok(s) => s,
        Err(e) => {
            return Err(e);
        },
    };
    match world_layout_of(s.as_str()) {
        Some(w) => Ok(w),
        None => Err(DecodeError::at(key, MismatchKind::UnknownEnumValue)),
    }
}

/// Reads a root document from its wire object.
pub fn decode_ldtk(j: &Json) -> (r: Result<LdtkFile, DecodeError>)
    ensures
        res_view(r) == spec_decode_ldtk(j@),
{
    let entries = match j {
        Json::Obj(entries) => entries,
        _ => {
            return Err(DecodeError::here(MismatchKind::WrongKind));
        },
    };
    let json_version = match field_str(entries, "jsonVersion") {
        Ok(v) => v,
        Err(e) => {
            return Err(e);
        },
    };
    let pivot_x = match field_num(entries, "defaultPivotX") {
        Ok(v) => v,
        Err(e) => {
            return Err(e);
        },
    };
    let pivot_y = match field_num(entries, "defaultPivotY") {
        Ok(v) => v,
        Err(e) => {
            return Err(e);
        },
    };
    let grid_size = match field_i32(entries, "defaultGridSize") {
        Ok(v) => v,
        Err(e) => {
            return Err(e);
        },
    };
    let bg_color = match field_str(entries, "bgColor") {
        Ok(v) => v,
        Err(e) => {
            return Err(e);
        },
    };
    let level_bg = match field_str(entries, "defaultLevelBgColor") {
        Ok(v) => v,
        Err(e) => {
            return Err(e);
        },
    };
    let next_uid = match field_i32(entries, "nextUid") {
        Ok(v) => v,
        Err(e) => {
            return Err(e);
        },
    };
    let minify = match field_bool(entries, "minifyJson") {
        Ok(v) => v,
        Err(e) => {
            return Err(e);
        },
    };
    let tiled = match field_bool(entries, "exportTiled") {
        Ok(v) => v,
        Err(e) => {
            return Err(e);
        },
    };
    let layout = match field_world_layout(entries, "worldLayout") {
        Ok(v) => v,
        Err(e) => {
            return Err(e);
        },
    };
    let grid_w = match field_i32(entries, "worldGridWidth") {
        Ok(v) => v,
        Err(e) => {
            return Err(e);
        },
    };
    let grid_h = match field_i32(entries, "worldGridHeight") {
        Ok(v) => v,
        Err(e) => {
            return Err(e);
        },
    };
    let external = match field_maybe_bool(entries, "externalLevels") {
        Ok(v) => v,
        Err(e) => {
            return Err(e);
        },
    };
    let defs = match field_elem::<Defs>(entries, "defs") {
        Ok(v) => v,
        Err(e) => {
            return Err(e);
        },
    };
    let levels = match field_list::<Level>(entries, "levels") {
        Ok(v) => v,
        Err(e) => {
            return Err(e);
        },
    };
    Ok(
        LdtkFile {
            json_version,
            default_pivot_x: pivot_x,
            default_pivot_y: pivot_y,
            default_grid_size: grid_size,
            bg_color,
            default_level_bg_color: level_bg,
            next_uid,
            minify_json: minify,
            export_tiled: tiled,
            world_layout: layout,
            world_grid_width: grid_w,
            world_grid_height: grid_h,
            external_levels: external,
            defs,
            levels,
        },
    )
}

impl LdtkFile {
    /// Decodes a whole project document, all or nothing: well-formed text
    /// that fits the schema yields the complete tree; malformed text and a
    /// schema mismatch are refused apart, and no partial tree is returned.
    pub fn from_json_text(text: &str) -> (r: Result<LdtkFile, LoadError>)
        ensures
            match r {
                Ok(f) => json_of(text@) matches Some(j) && spec_decode_ldtk(j) == Ok::<SpecLdtkFile, SpecErr>(f@),
                Err(LoadError::MalformedDocument { .. }) => json_of(text@) is None,
                Err(LoadError::SchemaMismatch(e)) => json_of(text@) matches Some(j) && spec_decode_ldtk(j) == Err::<SpecLdtkFile, SpecErr>(e@),
            },
    {
        let j = match parse_json_text(text) {
            Ok(j) => j,
            Err(pos) => {
                return Err(LoadError::MalformedDocument { line: pos.line, column: pos.column });
            },
        };
        match decode_ldtk(&j) {
            Ok(f) => Ok(f),
            Err(e) => Err(LoadError::SchemaMismatch(e)),
        }
    }
}

impl Level {
    /// Decodes one external level document, all or nothing, as
    /// `LdtkFile::from_json_text` does for a whole project. Resolving the
    /// same text twice yields structurally equal levels: the result is a
    /// function of the text.
    pub fn from_json_text(text: &str) -> (r: Result<Level, LoadError>)
        ensures
            match r {
                Ok(l) => json_of(text@) matches Some(j) && crate::levels::spec_decode_level(j) == Ok::<SpecLevel, SpecErr>(l@),
                Err(LoadError::MalformedDocument { .. }) => json_of(text@) is None,
                Err(LoadError::SchemaMismatch(e)) => json_of(text@) matches Some(j) && crate::levels::spec_decode_level(j) == Err::<SpecLevel, SpecErr>(e@),
            },
    {
        let j = match parse_json_text(text) {
            Ok(j) => j,
            Err(pos) => {
                return Err(LoadError::MalformedDocument { line: pos.line, column: pos.column });
            },
        };
        match crate::levels::decode_level(&j) {
            Ok(l) => Ok(l),
            Err(e) => Err(LoadError::SchemaMismatch(e)),
        }
    }
}

} // verus!
