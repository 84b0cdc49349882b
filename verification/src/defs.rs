use vstd::prelude::*;
use crate::json::Json;
use crate::json::SpecJson;
use crate::json::entries_view;
use crate::json::str_eq;
use crate::error::DecodeError;
use crate::error::MismatchKind;
use crate::error::SpecErr;
use crate::error::spec_err_at;
use crate::error::spec_err_here;
use crate::error::spec_err_under;
use crate::decode::res_view;
use crate::decode::ints_view;
use crate::decode::structs_view;
use crate::decode::spec_field_int;
use crate::decode::spec_field_str;
use crate::decode::spec_field_num;
use crate::decode::spec_field_bool;
use crate::decode::spec_field_int_arr;
use crate::decode::spec_field_maybe_str;
use crate::decode::spec_field_maybe_int;
use crate::decode::spec_field_list;
use crate::decode::maybe_i32_view;
use crate::decode::field_i32;
use crate::decode::field_str;
use crate::decode::field_num;
use crate::decode::field_bool;
use crate::decode::field_int_arr;
use crate::decode::field_maybe_str;
use crate::decode::field_maybe_i32;
use crate::decode::field_list;
use crate::decode::DecodeElem;
use crate::decode::sdec_of;
use crate::json::spec_lookup;
use crate::Maybe;

verus! {

// The definitions catalog: the reusable templates that instance data
// references by UID. This side of the schema is a read-only catalog; unknown
// keys are tolerated and ignored, and the enumerated string fields decode
// into closed variant sets.

/// A closed enumeration spelled as a string on the wire. Reading a field of
/// such a type refuses any string outside the set.
#[derive(Debug, Clone, Copy, PartialEq, Eq, Structural)]
pub enum RenderMode {
    Rectangle,
    Ellipse,
    Tile,
    Cross,
}

/// The render mode a wire string names, if any.
pub open spec fn spec_render_mode(s: Seq<char>) -> Option<RenderMode> {
    if s == "Rectangle"@ {
        Some(RenderMode::Rectangle)
    } else if s == "Ellipse"@ {
        Some(RenderMode::Ellipse)
    } else if s == "Tile"@ {
        Some(RenderMode::Tile)
    } else if s == "Cross"@ {
        Some(RenderMode::Cross)
    } else {
        None
    }
}

fn render_mode_of(s: &str) -> (r: Option<RenderMode>)
    ensures
        r == spec_render_mode(s@),
{
    if str_eq(s, "Rectangle") {
        Some(RenderMode::Rectangle)
    } else if str_eq(s, "Ellipse") {
        Some(RenderMode::Ellipse)
    } else if str_eq(s, "Tile") {
        Some(RenderMode::Tile)
    } else if str_eq(s, "Cross") {
        Some(RenderMode::Cross)
    } else {
        None
    }
}

/// How an entity's tile is fitted into the entity's bounds; closed set.
#[derive(Debug, Clone, Copy, PartialEq, Eq, Structural)]
pub enum TileRenderMode {
    Cover,
    FitInside,
    Repeat,
    Stretch,
    FullSizeCropped,
    FullSizeUncropped,
    NineSlice,
}

/// The tile render mode a wire string names, if any.
pub open spec fn spec_tile_render_mode(s: Seq<char>) -> Option<TileRenderMode> {
    if s == "Cover"@ {
        Some(TileRenderMode::Cover)
    } else if s == "FitInside"@ {
        Some(TileRenderMode::FitInside)
    } else if s == "Repeat"@ {
        Some(TileRenderMode::Repeat)
    } else if s == "Stretch"@ {
        Some(TileRenderMode::Stretch)
    } else if s == "FullSizeCropped"@ {
        Some(TileRenderMode::FullSizeCropped)
    } else if s == "FullSizeUncropped"@ {
        Some(TileRenderMode::FullSizeUncropped)
    } else if s == "NineSlice"@ {
        Some(TileRenderMode::NineSlice)
    } else {
        None
    }
}

fn tile_render_mode_of(s: &str) -> (r: Option<TileRenderMode>)
    ensures
        r == spec_tile_render_mode(s@),
{
    if str_eq(s, "Cover") {
        Some(TileRenderMode::Cover)
    } else if str_eq(s, "FitInside") {
        Some(TileRenderMode::FitInside)
    } else if str_eq(s, "Repeat") {
        Some(TileRenderMode::Repeat)
    } else if str_eq(s, "Stretch") {
        Some(TileRenderMode::Stretch)
    } else if str_eq(s, "FullSizeCropped") {
        Some(TileRenderMode::FullSizeCropped)
    } else if str_eq(s, "FullSizeUncropped") {
        Some(TileRenderMode::FullSizeUncropped)
    } else if str_eq(s, "NineSlice") {
        Some(TileRenderMode::NineSlice)
    } else {
        None
    }
}

/// What happens when more entities of a kind are placed than allowed; closed
/// set.
#[derive(Debug, Clone, Copy, PartialEq, Eq, Structural)]
pub enum LimitBehavior {
    DiscardOldOnes,
    MoveLastOne,
    PreventAdding,
}

/// The limit behavior a wire string names, if any.
pub open spec fn spec_limit_behavior(s: Seq<char>) -> Option<LimitBehavior> {
    if s == "DiscardOldOnes"@ {
        Some(LimitBehavior::DiscardOldOnes)
    } else if s == "MoveLastOne"@ {
        Some(LimitBehavior::MoveLastOne)
    } else if s == "PreventAdding"@ {
        Some(LimitBehavior::PreventAdding)
    } else {
        None
    }
}

fn limit_behavior_of(s: &str) -> (r: Option<LimitBehavior>)
    ensures
        r == spec_limit_behavior(s@),
{
    if str_eq(s, "DiscardOldOnes") {
        Some(LimitBehavior::DiscardOldOnes)
    } else if str_eq(s, "MoveLastOne") {
        Some(LimitBehavior::MoveLastOne)
    } else if str_eq(s, "PreventAdding") {
        Some(LimitBehavior::PreventAdding)
    } else {
        None
    }
}

/// The checker mode of an auto-layer rule; closed set. The wire spells the
/// first variant `"None"`.
#[derive(Debug, Clone, Copy, PartialEq, Eq, Structural)]
pub enum CheckerMode {
    NoChecker,
    Horizontal,
    Vertical,
}

/// The checker mode a wire string names, if any.
pub open spec fn spec_checker_mode(s: Seq<char>) -> Option<CheckerMode> {
    if s == "None"@ {
        Some(CheckerMode::NoChecker)
    } else if s == "Horizontal"@ {
        Some(CheckerMode::Horizontal)
    } else if s == "Vertical"@ {
        Some(CheckerMode::Vertical)
    } else {
        None
    }
}

fn checker_mode_of(s: &str) -> (r: Option<CheckerMode>)
    ensures
        r == spec_checker_mode(s@),
{
    if str_eq(s, "None") {
        Some(CheckerMode::NoChecker)
    } else if str_eq(s, "Horizontal") {
        Some(CheckerMode::Horizontal)
    } else if str_eq(s, "Vertical") {
        Some(CheckerMode::Vertical)
    } else {
        None
    }
}

/// The required field `key` naming a value of the closed enumeration read by
/// `of`: a string outside the set is refused, never defaulted.
pub open spec fn spec_field_enum<T>(
    e: Seq<(Seq<char>, SpecJson)>,
    key: Seq<char>,
    of: spec_fn(Seq<char>) -> Option<T>,
) -> Result<T, SpecErr> {
    match spec_field_str(e, key) {
        Err(er) => Err(er),
        Ok(s) => match of(s) {
            Some(x) => Ok(x),
            None => Err(spec_err_at(key, MismatchKind::UnknownEnumValue)),
        },
    }
}

/// The names of the closed-enumeration readers, each under one name so that
/// every mention is the same function.
pub open spec fn render_mode_fn() -> spec_fn(Seq<char>) -> Option<RenderMode> {
    |s: Seq<char>| spec_render_mode(s)
}

/// The names of the closed-enumeration readers, each under one name so that
/// every mention is the same function.
pub open spec fn tile_render_mode_fn() -> spec_fn(Seq<char>) -> Option<TileRenderMode> {
    |s: Seq<char>| spec_tile_render_mode(s)
}

/// The names of the closed-enumeration readers, each under one name so that
/// every mention is the same function.
pub open spec fn limit_behavior_fn() -> spec_fn(Seq<char>) -> Option<LimitBehavior> {
    |s: Seq<char>| spec_limit_behavior(s)
}

/// The names of the closed-enumeration readers, each under one name so that
/// every mention is the same function.
pub open spec fn checker_mode_fn() -> spec_fn(Seq<char>) -> Option<CheckerMode> {
    |s: Seq<char>| spec_checker_mode(s)
}

/// A string-or-object value: the default-override slot of a field definition
/// may hold either a plain string or an object. The two shapes decode to the
/// two variants by the JSON kind alone; any other kind, an array included, is
/// refused.
#[derive(Debug, PartialEq)]
pub enum DefaultOverride {
    Str(String),
    Object(Vec<(String, Json)>),
}

/// The mathematical value of a `DefaultOverride`.
pub enum SpecDefaultOverride {
    Str(Seq<char>),
    Object(Seq<(Seq<char>, SpecJson)>),
}

impl View for DefaultOverride {
    type V = SpecDefaultOverride;

    open spec fn view(&self) -> SpecDefaultOverride {
        match self {
            DefaultOverride::Str(s) => SpecDefaultOverride::Str(s@),
            DefaultOverride::Object(m) => SpecDefaultOverride::Object(entries_view(m@)),
        }
    }
}

/// What decoding yields for a default-override value: a string decodes to
/// `Str`, an object to `Map`, and every other kind is a mismatch.
pub open spec fn spec_decode_override(j: SpecJson) -> Result<SpecDefaultOverride, SpecErr> {
    match j {
        SpecJson::Str(s) => Ok(SpecDefaultOverride::Str(s)),
        SpecJson::Obj(m) => Ok(SpecDefaultOverride::Object(m)),
        _ => Err(spec_err_here(MismatchKind::WrongKind)),
    }
}

/// Reads one default-override value by its JSON kind.
pub fn decode_override(j: &Json) -> (r: Result<DefaultOverride, DecodeError>)
    ensures
        res_view(r) == spec_decode_override(j@),
{
    match j {
        Json::Str(s) => Ok(DefaultOverride::Str(s.clone())),
        Json::Obj(_) => match j.duplicate() {
            Json::Obj(entries) => Ok(DefaultOverride::Object(entries)),
            _ => {
                proof {
                    assert(false);
                }
                Err(DecodeError::here(MismatchKind::WrongKind))
            },
        },
        _ => Err(DecodeError::here(MismatchKind::WrongKind)),
    }
}

impl DecodeElem for DefaultOverride {
    open spec fn sdec(j: SpecJson) -> Result<SpecDefaultOverride, SpecErr> {
        spec_decode_override(j)
    }

    fn dec(j: &Json) -> (r: Result<DefaultOverride, DecodeError>) {
        decode_override(j)
    }
}

/// The optional field `key` holding a default override.
pub open spec fn spec_field_maybe_override(e: Seq<(Seq<char>, SpecJson)>, key: Seq<char>) -> Result<
    Maybe<SpecDefaultOverride>,
    SpecErr,
> {
    match spec_lookup(e, key) {
        Option::None => Ok(Maybe::Absent),
        Option::Some(v) => match v {
            SpecJson::Null => Ok(Maybe::Null),
            _ => match spec_decode_override(v) {
                Ok(x) => Ok(Maybe::Value(x)),
                Err(er) => Err(spec_err_under(key, er)),
            },
        },
    }
}

/// The optional field `key` holding a default override.
pub fn field_maybe_override(entries: &Vec<(String, Json)>, key: &str) -> (r: Result<
    Maybe<DefaultOverride>,
    DecodeError,
>)
    ensures
        match r {
            Ok(m) => spec_field_maybe_override(entries_view(entries@), key@) == Ok::<Maybe<SpecDefaultOverride>, SpecErr>(m@),
            Err(e) => spec_field_maybe_override(entries_view(entries@), key@) == Err::<Maybe<SpecDefaultOverride>, SpecErr>(e@),
        },
{
    match Json::lookup(entries, key) {
        Option::None => Ok(Maybe::Absent),
        Option::Some(v) => match v {
            Json::Null => Ok(Maybe::Null),
            _ => match decode_override(v) {
                Ok(x) => Ok(Maybe::Value(x)),
                Err(e0) => Err(e0.under(key.to_owned())),
            },
        },
    }
}

/// The display color and optional name of one integer-grid value.
#[derive(Debug, PartialEq)]
pub struct IntGridValuesColors {
    pub color: String,
    pub identifier: Maybe<String>,
}

/// The mathematical value of an `IntGridValuesColors`.
pub struct SpecIntGridValuesColors {
    pub color: Seq<char>,
    pub identifier: Maybe<Seq<char>>,
}

impl View for IntGridValuesColors {
    type V = SpecIntGridValuesColors;

    open spec fn view(&self) -> SpecIntGridValuesColors {
        SpecIntGridValuesColors { color: self.color@, identifier: self.identifier@ }
    }
}

/// What `decode` yields for an integer-grid value entry.
pub open spec fn spec_decode_int_grid_colors(j: SpecJson) -> Result<
    SpecIntGridValuesColors,
    SpecErr,
> {
    if !(j is Obj) {
        Err(spec_err_here(MismatchKind::WrongKind))
    } else {
        let e = j->Obj_0;
        let color = spec_field_str(e, "color"@);
        let ident = spec_field_maybe_str(e, "identifier"@);
        if color is Err {
            Err(color->Err_0)
        } else if ident is Err {
            Err(ident->Err_0)
        } else {
            Ok(SpecIntGridValuesColors { color: color->Ok_0, identifier: ident->Ok_0 })
        }
    }
}

/// Reads one integer-grid value entry.
pub fn decode_int_grid_colors(j: &Json) -> (r: Result<IntGridValuesColors, DecodeError>)
    ensures
        res_view(r) == spec_decode_int_grid_colors(j@),
{
    let entries = match j {
        Json::Obj(entries) => entries,
        _ => {
            return Err(DecodeError::here(MismatchKind::WrongKind));
        },
    };
    let color = match field_str(entries, "color") {
        Ok(v) => v,
        Err(e) => {
            return Err(e);
        },
    };
    let ident = match field_maybe_str(entries, "identifier") {
        Ok(v) => v,
        Err(e) => {
            return Err(e);
        },
    };
    Ok(IntGridValuesColors { color, identifier: ident })
}

impl DecodeElem for IntGridValuesColors {
    open spec fn sdec(j: SpecJson) -> Result<SpecIntGridValuesColors, SpecErr> {
        spec_decode_int_grid_colors(j)
    }

    fn dec(j: &Json) -> (r: Result<IntGridValuesColors, DecodeError>) {
        decode_int_grid_colors(j)
    }
}

/// One auto-layer rule. The fractional settings (`chance`, the perlin
/// parameters and the pivot) are kept as their wire number text.
#[derive(Debug, PartialEq)]
pub struct AutoLayerRuleDefinition {
    pub active: bool,
    pub break_on_match: bool,
    pub chance: String,
    pub checker: CheckerMode,
    pub flip_x: bool,
    pub flip_y: bool,
    pub pattern: Vec<i32>,
    pub perlin_active: bool,
    pub perlin_octaves: String,
    pub perlin_scale: String,
    pub perlin_seed: String,
    pub pivot_x: String,
    pub pivot_y: String,
    pub size: i32,
    pub tile_ids: Vec<i32>,
    pub uid: i32,
    pub x_modulo: i32,
    pub y_modulo: i32,
}

/// The mathematical value of an `AutoLayerRuleDefinition`.
pub struct SpecAutoLayerRuleDefinition {
    pub active: bool,
    pub break_on_match: bool,
    pub chance: Seq<char>,
    pub checker: CheckerMode,
    pub flip_x: bool,
    pub flip_y: bool,
    pub pattern: Seq<int>,
    pub perlin_active: bool,
    pub perlin_octaves: Seq<char>,
    pub perlin_scale: Seq<char>,
    pub perlin_seed: Seq<char>,
    pub pivot_x: Seq<char>,
    pub pivot_y: Seq<char>,
    pub size: int,
    pub tile_ids: Seq<int>,
    pub uid: int,
    pub x_modulo: int,
    pub y_modulo: int,
}

impl View for AutoLayerRuleDefinition {
    type V = SpecAutoLayerRuleDefinition;

    open spec fn view(&self) -> SpecAutoLayerRuleDefinition {
        SpecAutoLayerRuleDefinition {
            active: self.active,
            break_on_match: self.break_on_match,
            chance: self.chance@,
            checker: self.checker,
            flip_x: self.flip_x,
            flip_y: self.flip_y,
            pattern: ints_view(self.pattern@),
            perlin_active: self.perlin_active,
            perlin_octaves: self.perlin_octaves@,
            perlin_scale: self.perlin_scale@,
            perlin_seed: self.perlin_seed@,
            pivot_x: self.pivot_x@,
            pivot_y: self.pivot_y@,
            size: self.size as int,
            tile_ids: ints_view(self.tile_ids@),
            uid: self.uid as int,
            x_modulo: self.x_modulo as int,
            y_modulo: self.y_modulo as int,
        }
    }
}

/// What `decode` yields for an auto-layer rule object.
pub open spec fn spec_decode_rule(j: SpecJson) -> Result<SpecAutoLayerRuleDefinition, SpecErr> {
    if !(j is Obj) {
        Err(spec_err_here(MismatchKind::WrongKind))
    } else {
        let e = j->Obj_0;
        let active = spec_field_bool(e, "active"@);
        let break_on_match = spec_field_bool(e, "breakOnMatch"@);
        let chance = spec_field_num(e, "chance"@);
        let checker = spec_field_enum(e, "checker"@, checker_mode_fn());
        let flip_x = spec_field_bool(e, "flipX"@);
        let flip_y = spec_field_bool(e, "flipY"@);
        let pattern = spec_field_int_arr(e, "pattern"@);
        let perlin_active = spec_field_bool(e, "perlinActive"@);
        let perlin_octaves = spec_field_num(e, "perlinOctaves"@);
        let perlin_scale = spec_field_num(e, "perlinScale"@);
        let perlin_seed = spec_field_num(e, "perlinSeed"@);
        let pivot_x = spec_field_num(e, "pivotX"@);
        let pivot_y = spec_field_num(e, "pivotY"@);
        let size = spec_field_int(e, "size"@, i32::MIN as int, i32::MAX as int);
        let tile_ids = spec_field_int_arr(e, "tileIds"@);
        let uid = spec_field_int(e, "uid"@, i32::MIN as int, i32::MAX as int);
        let x_modulo = spec_field_int(e, "xModulo"@, i32::MIN as int, i32::MAX as int);
        let y_modulo = spec_field_int(e, "yModulo"@, i32::MIN as int, i32::MAX as int);
        if active is Err {
            Err(active->Err_0)
        } else if break_on_match is Err {
            Err(break_on_match->Err_0)
        } else if chance is Err {
            Err(chance->Err_0)
        } else if checker is Err {
            Err(checker->Err_0)
        } else if flip_x is Err {
            Err(flip_x->Err_0)
        } else if flip_y is Err {
            Err(flip_y->Err_0)
        } else if pattern is Err {
            Err(pattern->Err_0)
        } else if perlin_active is Err {
            Err(perlin_active->Err_0)
        } else if perlin_octaves is Err {
            Err(perlin_octaves->Err_0)
        } else if perlin_scale is Err {
            Err(perlin_scale->Err_0)
        } else if perlin_seed is Err {
            Err(perlin_seed->Err_0)
        } else if pivot_x is Err {
            Err(pivot_x->Err_0)
        } else if pivot_y is Err {
            Err(pivot_y->Err_0)
        } else if size is Err {
            Err(size->Err_0)
        } else if tile_ids is Err {
            Err(tile_ids->Err_0)
        } else if uid is Err {
            Err(uid->Err_0)
        } else if x_modulo is Err {
            Err(x_modulo->Err_0)
        } else if y_modulo is Err {
            Err(y_modulo->Err_0)
        } else {
            Ok(
                SpecAutoLayerRuleDefinition {
                    active: active->Ok_0,
                    break_on_match: break_on_match->Ok_0,
                    chance: chance->Ok_0,
                    checker: checker->Ok_0,
                    flip_x: flip_x->Ok_0,
                    flip_y: flip_y->Ok_0,
                    pattern: pattern->Ok_0,
                    perlin_active: perlin_active->Ok_0,
                    perlin_octaves: perlin_octaves->Ok_0,
                    perlin_scale: perlin_scale->Ok_0,
                    perlin_seed: perlin_seed->Ok_0,
                    pivot_x: pivot_x->Ok_0,
                    pivot_y: pivot_y->Ok_0,
                    size: size->Ok_0,
                    tile_ids: tile_ids->Ok_0,
                    uid: uid->Ok_0,
                    x_modulo: x_modulo->Ok_0,
                    y_modulo: y_modulo->Ok_0,
                },
            )
        }
    }
}

/// Reads one auto-layer rule from its wire object.
pub fn decode_rule(j: &Json) -> (r: Result<AutoLayerRuleDefinition, DecodeError>)
    ensures
        res_view(r) == spec_decode_rule(j@),
{
    let entries = match j {
        Json::Obj(entries) => entries,
        _ => {
            return Err(DecodeError::here(MismatchKind::WrongKind));
        },
    };
    let active = match field_bool(entries, "active") {
        Ok(v) => v,
        Err(e) => {
            return Err(e);
        },
    };
    let break_on_match = match field_bool(entries, "breakOnMatch") {
        Ok(v) => v,
        Err(e) => {
            return Err(e);
        },
    };
    let chance = match field_num(entries, "chance") {
        Ok(v) => v,
        Err(e) => {
            return Err(e);
        },
    };
    let checker = match field_str(entries, "checker") {
        Ok(s) => match checker_mode_of(s.as_str()) {
            Some(c) => c,
            None => {
                return Err(DecodeError::at("checker", MismatchKind::UnknownEnumValue));
            },
        },
        Err(e) => {
            return Err(e);
        },
    };
    let flip_x = match field_bool(entries, "flipX") {
        Ok(v) => v,
        Err(e) => {
            return Err(e);
        },
    };
    let flip_y = match field_bool(entries, "flipY") {
        Ok(v) => v,
        Err(e) => {
            return Err(e);
        },
    };
    let pattern = match field_int_arr(entries, "pattern") {
        Ok(v) => v,
        Err(e) => {
            return Err(e);
        },
    };
    let perlin_active = match field_bool(entries, "perlinActive") {
        Ok(v) => v,
        Err(e) => {
            return Err(e);
        },
    };
    let perlin_octaves = match field_num(entries, "perlinOctaves") {
        Ok(v) => v,
        Err(e) => {
            return Err(e);
        },
    };
    let perlin_scale = match field_num(entries, "perlinScale") {
        Ok(v) => v,
        Err(e) => {
            return Err(e);
        },
    };
    let perlin_seed = match field_num(entries, "perlinSeed") {
        Ok(v) => v,
        Err(e) => {
            return Err(e);
        },
    };
    let pivot_x = match field_num(entries, "pivotX") {
        Ok(v) => v,
        Err(e) => {
            return Err(e);
        },
    };
    let pivot_y = match field_num(entries, "pivotY") {
        Ok(v) => v,
        Err(e) => {
            return Err(e);
        },
    };
    let size = match field_i32(entries, "size") {
        Ok(v) => v,
        Err(e) => {
            return Err(e);
        },
    };
    let tile_ids = match field_int_arr(entries, "tileIds") {
        Ok(v) => v,
        Err(e) => {
            return Err(e);
        },
    };
    let uid = match field_i32(entries, "uid") {
        Ok(v) => v,
        Err(e) => {
            return Err(e);
        },
    };
    let x_modulo = match field_i32(entries, "xModulo") {
        Ok(v) => v,
        Err(e) => {
            return Err(e);
        },
    };
    let y_modulo = match field_i32(entries, "yModulo") {
        Ok(v) => v,
        Err(e) => {
            return Err(e);
        },
    };
    Ok(
        AutoLayerRuleDefinition {
            active,
            break_on_match,
            chance,
            checker,
            flip_x,
            flip_y,
            pattern,
            perlin_active,
            perlin_octaves,
            perlin_scale,
            perlin_seed,
            pivot_x,
            pivot_y,
            size,
            tile_ids,
            uid,
            x_modulo,
            y_modulo,
        },
    )
}

impl DecodeElem for AutoLayerRuleDefinition {
    open spec fn sdec(j: SpecJson) -> Result<SpecAutoLayerRuleDefinition, SpecErr> {
        spec_decode_rule(j)
    }

    fn dec(j: &Json) -> (r: Result<AutoLayerRuleDefinition, DecodeError>) {
        decode_rule(j)
    }
}

/// A named group of auto-layer rules.
#[derive(Debug, PartialEq)]
pub struct AutoRuleGroup {
    pub active: bool,
    pub collapsed: bool,
    pub name: String,
    pub rules: Vec<AutoLayerRuleDefinition>,
    pub uid: i32,
}

/// The mathematical value of an `AutoRuleGroup`.
pub struct SpecAutoRuleGroup {
    pub active: bool,
    pub collapsed: bool,
    pub name: Seq<char>,
    pub rules: Seq<SpecAutoLayerRuleDefinition>,
    pub uid: int,
}

impl View for AutoRuleGroup {
    type V = SpecAutoRuleGroup;

    open spec fn view(&self) -> SpecAutoRuleGroup {
        SpecAutoRuleGroup {
            active: self.active,
            collapsed: self.collapsed,
            name: self.name@,
            rules: structs_view(self.rules@),
            uid: self.uid as int,
        }
    }
}

/// What `decode` yields for a rule group object.
pub open spec fn spec_decode_rule_group(j: SpecJson) -> Result<SpecAutoRuleGroup, SpecErr> {
    if !(j is Obj) {
        Err(spec_err_here(MismatchKind::WrongKind))
    } else {
        let e = j->Obj_0;
        let active = spec_field_bool(e, "active"@);
        let collapsed = spec_field_bool(e, "collapsed"@);
        let name = spec_field_str(e, "name"@);
        let rules = spec_field_list(e, "rules"@, sdec_of::<AutoLayerRuleDefinition>());
        let uid = spec_field_int(e, "uid"@, i32::MIN as int, i32::MAX as int);
        if active is Err {
            Err(active->Err_0)
        } else if collapsed is Err {
            Err(collapsed->Err_0)
        } else if name is Err {
            Err(name->Err_0)
        } else if rules is Err {
            Err(rules->Err_0)
        } else if uid is Err {
            Err(uid->Err_0)
        } else {
            Ok(
                SpecAutoRuleGroup {
                    active: active->Ok_0,
                    collapsed: collapsed->Ok_0,
                    name: name->Ok_0,
                    rules: rules->Ok_0,
                    uid: uid->Ok_0,
                },
            )
        }
    }
}

/// Reads one rule group from its wire object.
pub fn decode_rule_group(j: &Json) -> (r: Result<AutoRuleGroup, DecodeError>)
    ensures
        res_view(r) == spec_decode_rule_group(j@),
{
    let entries = match j {
        Json::Obj(entries) => entries,
        _ => {
            return Err(DecodeError::here(MismatchKind::WrongKind));
        },
    };
    let active = match field_bool(entries, "active") {
        Ok(v) => v,
        Err(e) => {
            return Err(e);
        },
    };
    let collapsed = match field_bool(entries, "collapsed") {
        Ok(v) => v,
        Err(e) => {
            return Err(e);
        },
    };
    let name = match field_str(entries, "name") {
        Ok(v) => v,
        Err(e) => {
            return Err(e);
        },
    };
    let rules = match field_list::<AutoLayerRuleDefinition>(entries, "rules") {
        Ok(v) => v,
        Err(e) => {
            return Err(e);
        },
    };
    let uid = match field_i32(entries, "uid") {
        Ok(v) => v,
        Err(e) => {
            return Err(e);
        },
    };
    Ok(AutoRuleGroup { active, collapsed, name, rules, uid })
}

impl DecodeElem for AutoRuleGroup {
    open spec fn sdec(j: SpecJson) -> Result<SpecAutoRuleGroup, SpecErr> {
        spec_decode_rule_group(j)
    }

    fn dec(j: &Json) -> (r: Result<AutoRuleGroup, DecodeError>) {
        decode_rule_group(j)
    }
}

/// One entity template: size, color, render settings and the custom field
/// slots its instances carry. The pivot is kept as its wire number text.
#[derive(Debug, PartialEq)]
pub struct Entity {
    pub identifier: String,
    pub uid: i32,
    pub width: i32,
    pub height: i32,
    pub color: String,
    pub render_mode: RenderMode,
    pub show_name: bool,
    pub tileset_id: Maybe<i32>,
    pub tile_id: Maybe<i32>,
    pub tile_render_mode: TileRenderMode,
    pub max_per_level: i32,
    pub limit_behavior: LimitBehavior,
    pub pivot_x: String,
    pub pivot_y: String,
    pub field_defs: Vec<FieldDefs>,
}

/// The mathematical value of an `Entity`.
pub struct SpecEntity {
    pub identifier: Seq<char>,
    pub uid: int,
    pub width: int,
    pub height: int,
    pub color: Seq<char>,
    pub render_mode: RenderMode,
    pub show_name: bool,
    pub tileset_id: Maybe<int>,
    pub tile_id: Maybe<int>,
    pub tile_render_mode: TileRenderMode,
    pub max_per_level: int,
    pub limit_behavior: LimitBehavior,
    pub pivot_x: Seq<char>,
    pub pivot_y: Seq<char>,
    pub field_defs: Seq<SpecFieldDefs>,
}

impl View for Entity {
    type V = SpecEntity;

    open spec fn view(&self) -> SpecEntity {
        SpecEntity {
            identifier: self.identifier@,
            uid: self.uid as int,
            width: self.width as int,
            height: self.height as int,
            color: self.color@,
            render_mode: self.render_mode,
            show_name: self.show_name,
            tileset_id: maybe_i32_view(self.tileset_id),
            tile_id: maybe_i32_view(self.tile_id),
            tile_render_mode: self.tile_render_mode,
            max_per_level: self.max_per_level as int,
            limit_behavior: self.limit_behavior,
            pivot_x: self.pivot_x@,
            pivot_y: self.pivot_y@,
            field_defs: structs_view(self.field_defs@),
        }
    }
}

/// What `decode` yields for an entity definition object.
pub open spec fn spec_decode_entity_def(j: SpecJson) -> Result<SpecEntity, SpecErr> {
    if !(j is Obj) {
        Err(spec_err_here(MismatchKind::WrongKind))
    } else {
        let e = j->Obj_0;
        let ident = spec_field_str(e, "identifier"@);
        let uid = spec_field_int(e, "uid"@, i32::MIN as int, i32::MAX as int);
        let width = spec_field_int(e, "width"@, i32::MIN as int, i32::MAX as int);
        let height = spec_field_int(e, "height"@, i32::MIN as int, i32::MAX as int);
        let color = spec_field_str(e, "color"@);
        let render_mode = spec_field_enum(e, "renderMode"@, render_mode_fn());
        let show_name = spec_field_bool(e, "showName"@);
        let tileset_id = spec_field_maybe_int(e, "tilesetId"@, i32::MIN as int, i32::MAX as int);
        let tile_id = spec_field_maybe_int(e, "tileId"@, i32::MIN as int, i32::MAX as int);
        let tile_render_mode = spec_field_enum(e, "tileRenderMode"@, tile_render_mode_fn());
        let max_per_level = spec_field_int(e, "maxPerLevel"@, i32::MIN as int, i32::MAX as int);
        let limit_behavior = spec_field_enum(e, "limitBehavior"@, limit_behavior_fn());
        let pivot_x = spec_field_num(e, "pivotX"@);
        let pivot_y = spec_field_num(e, "pivotY"@);
        let field_defs = spec_field_list(e, "fieldDefs"@, sdec_of::<FieldDefs>());
        if ident is Err {
            Err(ident->Err_0)
        } else if uid is Err {
            Err(uid->Err_0)
        } else if width is Err {
            Err(width->Err_0)
        } else if height is Err {
            Err(height->Err_0)
        } else if color is Err {
            Err(color->Err_0)
        } else if render_mode is Err {
            Err(render_mode->Err_0)
        } else if show_name is Err {
            Err(show_name->Err_0)
        } else if tileset_id is Err {
            Err(tileset_id->Err_0)
        } else if tile_id is Err {
            Err(tile_id->Err_0)
        } else if tile_render_mode is Err {
            Err(tile_render_mode->Err_0)
        } else if max_per_level is Err {
            Err(max_per_level->Err_0)
        } else if limit_behavior is Err {
            Err(limit_behavior->Err_0)
        } else if pivot_x is Err {
            Err(pivot_x->Err_0)
        } else if pivot_y is Err {
            Err(pivot_y->Err_0)
        } else if field_defs is Err {
            Err(field_defs->Err_0)
        } else {
            Ok(
                SpecEntity {
                    identifier: ident->Ok_0,
                    uid: uid->Ok_0,
                    width: width->Ok_0,
                    height: height->Ok_0,
                    color: color->Ok_0,
                    render_mode: render_mode->Ok_0,
                    show_name: show_name->Ok_0,
                    tileset_id: tileset_id->Ok_0,
                    tile_id: tile_id->Ok_0,
                    tile_render_mode: tile_render_mode->Ok_0,
                    max_per_level: max_per_level->Ok_0,
                    limit_behavior: limit_behavior->Ok_0,
                    pivot_x: pivot_x->Ok_0,
                    pivot_y: pivot_y->Ok_0,
                    field_defs: field_defs->Ok_0,
                },
            )
        }
    }
}

/// Reads one entity definition from its wire object.
pub fn decode_entity_def(j: &Json) -> (r: Result<Entity, DecodeError>)
    ensures
        res_view(r) == spec_decode_entity_def(j@),
{
    let entries = match j {
        Json::Obj(entries) => entries,
        _ => {
            return Err(DecodeError::here(MismatchKind::WrongKind));
        },
    };
    let ident = match field_str(entries, "identifier") {
        Ok(v) => v,
        Err(e) => {
            return Err(e);
        },
    };
    let uid = match field_i32(entries, "uid") {
        Ok(v) => v,
        Err(e) => {
            return Err(e);
        },
    };
    let width = match field_i32(entries, "width") {
        Ok(v) => v,
        Err(e) => {
            return Err(e);
        },
    };
    let height = match field_i32(entries, "height") {
        Ok(v) => v,
        Err(e) => {
            return Err(e);
        },
    };
    let color = match field_str(entries, "color") {
        Ok(v) => v,
        Err(e) => {
            return Err(e);
        },
    };
    let render_mode = match field_str(entries, "renderMode") {
        Ok(s) => match render_mode_of(s.as_str()) {
            Some(m) => m,
            None => {
                return Err(DecodeError::at("renderMode", MismatchKind::UnknownEnumValue));
            },
        },
        Err(e) => {
            return Err(e);
        },
    };
    let show_name = match field_bool(entries, "showName") {
        Ok(v) => v,
        Err(e) => {
            return Err(e);
        },
    };
    let tileset_id = match field_maybe_i32(entries, "tilesetId") {
        Ok(v) => v,
        Err(e) => {
            return Err(e);
        },
    };
    let tile_id = match field_maybe_i32(entries, "tileId") {
        Ok(v) => v,
        Err(e) => {
            return Err(e);
        },
    };
    let tile_render_mode = match field_str(entries, "tileRenderMode") {
        Ok(s) => match tile_render_mode_of(s.as_str()) {
            Some(m) => m,
            None => {
                return Err(DecodeError::at("tileRenderMode", MismatchKind::UnknownEnumValue));
            },
        },
        Err(e) => {
            return Err(e);
        },
    };
    let max_per_level = match field_i32(entries, "maxPerLevel") {
        Ok(v) => v,
        Err(e) => {
            return Err(e);
        },
    };
    let limit_behavior = match field_str(entries, "limitBehavior") {
        Ok(s) => match limit_behavior_of(s.as_str()) {
            Some(m) => m,
            None => {
                return Err(DecodeError::at("limitBehavior", MismatchKind::UnknownEnumValue));
            },
        },
        Err(e) => {
            return Err(e);
        },
    };
    let pivot_x = match field_num(entries, "pivotX") {
        Ok(v) => v,
        Err(e) => {
            return Err(e);
        },
    };
    let pivot_y = match field_num(entries, "pivotY") {
        Ok(v) => v,
        Err(e) => {
            return Err(e);
        },
    };
    let field_defs = match field_list::<FieldDefs>(entries, "fieldDefs") {
        Ok(v) => v,
        Err(e) => {
            return Err(e);
        },
    };
    Ok(
        Entity {
            identifier: ident,
            uid,
            width,
            height,
            color,
            render_mode,
            show_name,
            tileset_id,
            tile_id,
            tile_render_mode,
            max_per_level,
            limit_behavior,
            pivot_x,
            pivot_y,
            field_defs,
        },
    )
}

impl DecodeElem for Entity {
    open spec fn sdec(j: SpecJson) -> Result<SpecEntity, SpecErr> {
        spec_decode_entity_def(j)
    }

    fn dec(j: &Json) -> (r: Result<Entity, DecodeError>) {
        decode_entity_def(j)
    }
}

/// One custom field slot's definition: its name, declared type tag, array
/// and nullability settings, and the optional default override.
#[derive(Debug, PartialEq)]
pub struct FieldDefs {
    pub identifier: String,
    pub __type: String,
    pub uid: i32,
    pub is_array: bool,
    pub can_be_null: bool,
    pub array_min_length: Maybe<i32>,
    pub array_max_length: Maybe<i32>,
    pub default_override: Maybe<DefaultOverride>,
}

/// The mathematical value of a `FieldDefs`.
pub struct SpecFieldDefs {
    pub identifier: Seq<char>,
    pub __type: Seq<char>,
    pub uid: int,
    pub is_array: bool,
    pub can_be_null: bool,
    pub array_min_length: Maybe<int>,
    pub array_max_length: Maybe<int>,
    pub default_override: Maybe<SpecDefaultOverride>,
}

impl View for FieldDefs {
    type V = SpecFieldDefs;

    open spec fn view(&self) -> SpecFieldDefs {
        SpecFieldDefs {
            identifier: self.identifier@,
            __type: self.__type@,
            uid: self.uid as int,
            is_array: self.is_array,
            can_be_null: self.can_be_null,
            array_min_length: maybe_i32_view(self.array_min_length),
            array_max_length: maybe_i32_view(self.array_max_length),
            default_override: self.default_override@,
        }
    }
}

/// What `decode` yields for a field definition object.
pub open spec fn spec_decode_field_defs(j: SpecJson) -> Result<SpecFieldDefs, SpecErr> {
    if !(j is Obj) {
        Err(spec_err_here(MismatchKind::WrongKind))
    } else {
        let e = j->Obj_0;
        let ident = spec_field_str(e, "identifier"@);
        let ty = spec_field_str(e, "__type"@);
        let uid = spec_field_int(e, "uid"@, i32::MIN as int, i32::MAX as int);
        let is_array = spec_field_bool(e, "isArray"@);
        let can_be_null = spec_field_bool(e, "canBeNull"@);
        let min_len = spec_field_maybe_int(e, "arrayMinLength"@, i32::MIN as int, i32::MAX as int);
        let max_len = spec_field_maybe_int(e, "arrayMaxLength"@, i32::MIN as int, i32::MAX as int);
        let over = spec_field_maybe_override(e, "defaultOverride"@);
        if ident is Err {
            Err(ident->Err_0)
        } else if ty is Err {
            Err(ty->Err_0)
        } else if uid is Err {
            Err(uid->Err_0)
        } else if is_array is Err {
            Err(is_array->Err_0)
        } else if can_be_null is Err {
            Err(can_be_null->Err_0)
        } else if min_len is Err {
            Err(min_len->Err_0)
        } else if max_len is Err {
            Err(max_len->Err_0)
        } else if over is Err {
            Err(over->Err_0)
        } else {
            Ok(
                SpecFieldDefs {
                    identifier: ident->Ok_0,
                    __type: ty->Ok_0,
                    uid: uid->Ok_0,
                    is_array: is_array->Ok_0,
                    can_be_null: can_be_null->Ok_0,
                    array_min_length: min_len->Ok_0,
                    array_max_length: max_len->Ok_0,
                    default_override: over->Ok_0,
                },
            )
        }
    }
}

/// Reads one field definition from its wire object.
pub fn decode_field_defs(j: &Json) -> (r: Result<FieldDefs, DecodeError>)
    ensures
        res_view(r) == spec_decode_field_defs(j@),
{
    let entries = match j {
        Json::Obj(entries) => entries,
        _ => {
            return Err(DecodeError::here(MismatchKind::WrongKind));
        },
    };
    let ident = match field_str(entries, "identifier") {
        Ok(v) => v,
        Err(e) => {
            return Err(e);
        },
    };
    let ty = match field_str(entries, "__type") {
        Ok(v) => v,
        Err(e) => {
            return Err(e);
        },
    };
    let uid = match field_i32(entries, "uid") {
        Ok(v) => v,
        Err(e) => {
            return Err(e);
        },
    };
    let is_array = match field_bool(entries, "isArray") {
        Ok(v) => v,
        Err(e) => {
            return Err(e);
        },
    };
    let can_be_null = match field_bool(entries, "canBeNull") {
        Ok(v) => v,
        Err(e) => {
            return Err(e);
        },
    };
    let min_len = match field_maybe_i32(entries, "arrayMinLength") {
        Ok(v) => v,
        Err(e) => {
            return Err(e);
        },
    };
    let max_len = match field_maybe_i32(entries, "arrayMaxLength") {
        Ok(v) => v,
        Err(e) => {
            return Err(e);
        },
    };
    let over = match field_maybe_override(entries, "defaultOverride") {
        Ok(v) => v,
        Err(e) => {
            return Err(e);
        },
    };
    Ok(
        FieldDefs {
            identifier: ident,
            __type: ty,
            uid,
            is_array,
            can_be_null,
            array_min_length: min_len,
            array_max_length: max_len,
            default_override: over,
        },
    )
}

impl DecodeElem for FieldDefs {
    open spec fn sdec(j: SpecJson) -> Result<SpecFieldDefs, SpecErr> {
        spec_decode_field_defs(j)
    }

    fn dec(j: &Json) -> (r: Result<FieldDefs, DecodeError>) {
        decode_field_defs(j)
    }
}

/// One source image sliced into a uniform grid of tiles.
#[derive(Debug, PartialEq)]
pub struct TileSet {
    pub identifier: String,
    pub uid: i32,
    pub rel_path: String,
    pub px_wid: i32,
    pub px_hei: i32,
    pub tile_grid_size: i32,
    pub spacing: i32,
    pub padding: i32,
}

/// The mathematical value of a `TileSet`.
pub struct SpecTileSet {
    pub identifier: Seq<char>,
    pub uid: int,
    pub rel_path: Seq<char>,
    pub px_wid: int,
    pub px_hei: int,
    pub tile_grid_size: int,
    pub spacing: int,
    pub padding: int,
}

impl View for TileSet {
    type V = SpecTileSet;

    open spec fn view(&self) -> SpecTileSet {
        SpecTileSet {
            identifier: self.identifier@,
            uid: self.uid as int,
            rel_path: self.rel_path@,
            px_wid: self.px_wid as int,
            px_hei: self.px_hei as int,
            tile_grid_size: self.tile_grid_size as int,
            spacing: self.spacing as int,
            padding: self.padding as int,
        }
    }
}

/// What `decode` yields for a tileset definition object.
pub open spec fn spec_decode_tileset(j: SpecJson) -> Result<SpecTileSet, SpecErr> {
    if !(j is Obj) {
        Err(spec_err_here(MismatchKind::WrongKind))
    } else {
        let e = j->Obj_0;
        let ident = spec_field_str(e, "identifier"@);
        let uid = spec_field_int(e, "uid"@, i32::MIN as int, i32::MAX as int);
        let rel_path = spec_field_str(e, "relPath"@);
        let px_wid = spec_field_int(e, "pxWid"@, i32::MIN as int, i32::MAX as int);
        let px_hei = spec_field_int(e, "pxHei"@, i32::MIN as int, i32::MAX as int);
        let tile_grid_size = spec_field_int(e, "tileGridSize"@, i32::MIN as int, i32::MAX as int);
        let spacing = spec_field_int(e, "spacing"@, i32::MIN as int, i32::MAX as int);
        let padding = spec_field_int(e, "padding"@, i32::MIN as int, i32::MAX as int);
        if ident is Err {
            Err(ident->Err_0)
        } else if uid is Err {
            Err(uid->Err_0)
        } else if rel_path is Err {
            Err(rel_path->Err_0)
        } else if px_wid is Err {
            Err(px_wid->Err_0)
        } else if px_hei is Err {
            Err(px_hei->Err_0)
        } else if tile_grid_size is Err {
            Err(tile_grid_size->Err_0)
        } else if spacing is Err {
            Err(spacing->Err_0)
        } else if padding is Err {
            Err(padding->Err_0)
        } else {
            Ok(
                SpecTileSet {
                    identifier: ident->Ok_0,
                    uid: uid->Ok_0,
                    rel_path: rel_path->Ok_0,
                    px_wid: px_wid->Ok_0,
                    px_hei: px_hei->Ok_0,
                    tile_grid_size: tile_grid_size->Ok_0,
                    spacing: spacing->Ok_0,
                    padding: padding->Ok_0,
                },
            )
        }
    }
}

/// Reads one tileset definition from its wire object.
pub fn decode_tileset(j: &Json) -> (r: Result<TileSet, DecodeError>)
    ensures
        res_view(r) == spec_decode_tileset(j@),
{
    let entries = match j {
        Json::Obj(entries) => entries,
        _ => {
            return Err(DecodeError::here(MismatchKind::WrongKind));
        },
    };
    let ident = match field_str(entries, "identifier") {
        Ok(v) => v,
        Err(e) => {
            return Err(e);
        },
    };
    let uid = match field_i32(entries, "uid") {
        Ok(v) => v,
        Err(e) => {
            return Err(e);
        },
    };
    let rel_path = match field_str(entries, "relPath") {
        Ok(v) => v,
        Err(e) => {
            return Err(e);
        },
    };
    let px_wid = match field_i32(entries, "pxWid") {
        Ok(v) => v,
        Err(e) => {
            return Err(e);
        },
    };
    let px_hei = match field_i32(entries, "pxHei") {
        Ok(v) => v,
        Err(e) => {
            return Err(e);
        },
    };
    let tile_grid_size = match field_i32(entries, "tileGridSize") {
        Ok(v) => v,
        Err(e) => {
            return Err(e);
        },
    };
    let spacing = match field_i32(entries, "spacing") {
        Ok(v) => v,
        Err(e) => {
            return Err(e);
        },
    };
    let padding = match field_i32(entries, "padding") {
        Ok(v) => v,
        Err(e) => {
            return Err(e);
        },
    };
    Ok(TileSet { identifier: ident, uid, rel_path, px_wid, px_hei, tile_grid_size, spacing, padding })
}

impl DecodeElem for TileSet {
    open spec fn sdec(j: SpecJson) -> Result<SpecTileSet, SpecErr> {
        spec_decode_tileset(j)
    }

    fn dec(j: &Json) -> (r: Result<TileSet, DecodeError>) {
        decode_tileset(j)
    }
}

/// One layer template. Both kind fields hold the same closed set; the wire
/// carries the kind twice, as `__type` and as `type`.
#[derive(Debug, PartialEq)]
pub struct Layer {
    pub __type: crate::levels::LayerKind,
    pub identifier: String,
    pub layer_type: crate::levels::LayerKind,
    pub uid: i32,
    pub grid_size: i32,
    pub display_opacity: String,
    pub px_offset_x: i32,
    pub px_offset_y: i32,
    pub int_grid_values: Vec<IntGridValuesColors>,
    pub auto_tileset_def_uid: Maybe<i32>,
    pub auto_rule_groups: Vec<AutoRuleGroup>,
    pub auto_source_layer_def_uid: Maybe<i32>,
    pub tileset_def_uid: Maybe<i32>,
    pub tile_pivot_x: i32,
    pub tile_pivot_y: i32,
}

/// The mathematical value of a `Layer`.
pub struct SpecLayer {
    pub __type: crate::levels::LayerKind,
    pub identifier: Seq<char>,
    pub layer_type: crate::levels::LayerKind,
    pub uid: int,
    pub grid_size: int,
    pub display_opacity: Seq<char>,
    pub px_offset_x: int,
    pub px_offset_y: int,
    pub int_grid_values: Seq<SpecIntGridValuesColors>,
    pub auto_tileset_def_uid: Maybe<int>,
    pub auto_rule_groups: Seq<SpecAutoRuleGroup>,
    pub auto_source_layer_def_uid: Maybe<int>,
    pub tileset_def_uid: Maybe<int>,
    pub tile_pivot_x: int,
    pub tile_pivot_y: int,
}

impl View for Layer {
    type V = SpecLayer;

    open spec fn view(&self) -> SpecLayer {
        SpecLayer {
            __type: self.__type,
            identifier: self.identifier@,
            layer_type: self.layer_type,
            uid: self.uid as int,
            grid_size: self.grid_size as int,
            display_opacity: self.display_opacity@,
            px_offset_x: self.px_offset_x as int,
            px_offset_y: self.px_offset_y as int,
            int_grid_values: structs_view(self.int_grid_values@),
            auto_tileset_def_uid: maybe_i32_view(self.auto_tileset_def_uid),
            auto_rule_groups: structs_view(self.auto_rule_groups@),
            auto_source_layer_def_uid: maybe_i32_view(self.auto_source_layer_def_uid),
            tileset_def_uid: maybe_i32_view(self.tileset_def_uid),
            tile_pivot_x: self.tile_pivot_x as int,
            tile_pivot_y: self.tile_pivot_y as int,
        }
    }
}

/// What `decode` yields for a layer definition object.
pub open spec fn spec_decode_layer_def(j: SpecJson) -> Result<SpecLayer, SpecErr> {
    if !(j is Obj) {
        Err(spec_err_here(MismatchKind::WrongKind))
    } else {
        let e = j->Obj_0;
        let ty = crate::levels::spec_field_layer_kind(e, "__type"@);
        let ident = spec_field_str(e, "identifier"@);
        let layer_type = crate::levels::spec_field_layer_kind(e, "type"@);
        let uid = spec_field_int(e, "uid"@, i32::MIN as int, i32::MAX as int);
        let grid_size = spec_field_int(e, "gridSize"@, i32::MIN as int, i32::MAX as int);
        let display_opacity = spec_field_num(e, "displayOpacity"@);
        let px_offset_x = spec_field_int(e, "pxOffsetX"@, i32::MIN as int, i32::MAX as int);
        let px_offset_y = spec_field_int(e, "pxOffsetY"@, i32::MIN as int, i32::MAX as int);
        let colors = spec_field_list(e, "intGridValues"@, sdec_of::<IntGridValuesColors>());
        let auto_ts = spec_field_maybe_int(e, "autoTilesetDefUid"@, i32::MIN as int, i32::MAX as int);
        let groups = spec_field_list(e, "autoRuleGroups"@, sdec_of::<AutoRuleGroup>());
        let auto_src = spec_field_maybe_int(e, "autoSourceLayerDefUid"@, i32::MIN as int, i32::MAX as int);
        let ts_uid = spec_field_maybe_int(e, "tilesetDefUid"@, i32::MIN as int, i32::MAX as int);
        let piv_x = spec_field_int(e, "tilePivotX"@, i32::MIN as int, i32::MAX as int);
        let piv_y = spec_field_int(e, "tilePivotY"@, i32::MIN as int, i32::MAX as int);
        if ty is Err {
            Err(ty->Err_0)
        } else if ident is Err {
            Err(ident->Err_0)
        } else if layer_type is Err {
            Err(layer_type->Err_0)
        } else if uid is Err {
            Err(uid->Err_0)
        } else if grid_size is Err {
            Err(grid_size->Err_0)
        } else if display_opacity is Err {
            Err(display_opacity->Err_0)
        } else if px_offset_x is Err {
            Err(px_offset_x->Err_0)
        } else if px_offset_y is Err {
            Err(px_offset_y->Err_0)
        } else if colors is Err {
            Err(colors->Err_0)
        } else if auto_ts is Err {
            Err(auto_ts->Err_0)
        } else if groups is Err {
            Err(groups->Err_0)
        } else if auto_src is Err {
            Err(auto_src->Err_0)
        } else if ts_uid is Err {
            Err(ts_uid->Err_0)
        } else if piv_x is Err {
            Err(piv_x->Err_0)
        } else if piv_y is Err {
            Err(piv_y->Err_0)
        } else {
            Ok(
                SpecLayer {
                    __type: ty->Ok_0,
                    identifier: ident->Ok_0,
                    layer_type: layer_type->Ok_0,
                    uid: uid->Ok_0,
                    grid_size: grid_size->Ok_0,
                    display_opacity: display_opacity->Ok_0,
                    px_offset_x: px_offset_x->Ok_0,
                    px_offset_y: px_offset_y->Ok_0,
                    int_grid_values: colors->Ok_0,
                    auto_tileset_def_uid: auto_ts->Ok_0,
                    auto_rule_groups: groups->Ok_0,
                    auto_source_layer_def_uid: auto_src->Ok_0,
                    tileset_def_uid: ts_uid->Ok_0,
                    tile_pivot_x: piv_x->Ok_0,
                    tile_pivot_y: piv_y->Ok_0,
                },
            )
        }
    }
}

/// Reads one layer definition from its wire object.
pub fn decode_layer_def(j: &Json) -> (r: Result<Layer, DecodeError>)
    ensures
        res_view(r) == spec_decode_layer_def(j@),
{
    let entries = match j {
        Json::Obj(entries) => entries,
        _ => {
            return Err(DecodeError::here(MismatchKind::WrongKind));
        },
    };
    let ty = match crate::levels::field_layer_kind(entries, "__type") {
        Ok(v) => v,
        Err(e) => {
            return Err(e);
        },
    };
    let ident = match field_str(entries, "identifier") {
        Ok(v) => v,
        Err(e) => {
            return Err(e);
        },
    };
    let layer_type = match crate::levels::field_layer_kind(entries, "type") {
        Ok(v) => v,
        Err(e) => {
            return Err(e);
        },
    };
    let uid = match field_i32(entries, "uid") {
        Ok(v) => v,
        Err(e) => {
            return Err(e);
        },
    };
    let grid_size = match field_i32(entries, "gridSize") {
        Ok(v) => v,
        Err(e) => {
            return Err(e);
        },
    };
    let display_opacity = match field_num(entries, "displayOpacity") {
        Ok(v) => v,
        Err(e) => {
            return Err(e);
        },
    };
    let px_offset_x = match field_i32(entries, "pxOffsetX") {
        Ok(v) => v,
        Err(e) => {
            return Err(e);
        },
    };
    let px_offset_y = match field_i32(entries, "pxOffsetY") {
        Ok(v) => v,
        Err(e) => {
            return Err(e);
        },
    };
    let colors = match field_list::<IntGridValuesColors>(entries, "intGridValues") {
        Ok(v) => v,
        Err(e) => {
            return Err(e);
        },
    };
    let auto_ts = match field_maybe_i32(entries, "autoTilesetDefUid") {
        Ok(v) => v,
        Err(e) => {
            return Err(e);
        },
    };
    let groups = match field_list::<AutoRuleGroup>(entries, "autoRuleGroups") {
        Ok(v) => v,
        Err(e) => {
            return Err(e);
        },
    };
    let auto_src = match field_maybe_i32(entries, "autoSourceLayerDefUid") {
        Ok(v) => v,
        Err(e) => {
            return Err(e);
        },
    };
    let ts_uid = match field_maybe_i32(entries, "tilesetDefUid") {
        Ok(v) => v,
        Err(e) => {
            return Err(e);
        },
    };
    let piv_x = match field_i32(entries, "tilePivotX") {
        Ok(v) => v,
        Err(e) => {
            return Err(e);
        },
    };
    let piv_y = match field_i32(entries, "tilePivotY") {
        Ok(v) => v,
        Err(e) => {
            return Err(e);
        },
    };
    Ok(
        Layer {
            __type: ty,
            identifier: ident,
            layer_type,
            uid,
            grid_size,
            display_opacity,
            px_offset_x,
            px_offset_y,
            int_grid_values: colors,
            auto_tileset_def_uid: auto_ts,
            auto_rule_groups: groups,
            auto_source_layer_def_uid: auto_src,
            tileset_def_uid: ts_uid,
            tile_pivot_x: piv_x,
            tile_pivot_y: piv_y,
        },
    )
}

impl DecodeElem for Layer {
    open spec fn sdec(j: SpecJson) -> Result<SpecLayer, SpecErr> {
        spec_decode_layer_def(j)
    }

    fn dec(j: &Json) -> (r: Result<Layer, DecodeError>) {
        decode_layer_def(j)
    }
}

/// The catalog of reusable templates: layer, entity and tileset definitions.
/// Instances elsewhere reference an entry by its UID; a dangling UID is
/// answered with "not found", never a crash.
#[derive(Debug, PartialEq)]
pub struct Defs {
    pub layers: Vec<Layer>,
    pub entities: Vec<Entity>,
    pub tilesets: Vec<TileSet>,
}

/// The mathematical value of a `Defs`.
pub struct SpecDefs {
    pub layers: Seq<SpecLayer>,
    pub entities: Seq<SpecEntity>,
    pub tilesets: Seq<SpecTileSet>,
}

impl View for Defs {
    type V = SpecDefs;

    open spec fn view(&self) -> SpecDefs {
        SpecDefs {
            layers: structs_view(self.layers@),
            entities: structs_view(self.entities@),
            tilesets: structs_view(self.tilesets@),
        }
    }
}

/// What `decode` yields for the definitions block.
pub open spec fn spec_decode_defs(j: SpecJson) -> Result<SpecDefs, SpecErr> {
    if !(j is Obj) {
        Err(spec_err_here(MismatchKind::WrongKind))
    } else {
        let e = j->Obj_0;
        let layers = spec_field_list(e, "layers"@, sdec_of::<Layer>());
        let entities = spec_field_list(e, "entities"@, sdec_of::<Entity>());
        let tilesets = spec_field_list(e, "tilesets"@, sdec_of::<TileSet>());
        if layers is Err {
            Err(layers->Err_0)
        } else if entities is Err {
            Err(entities->Err_0)
        } else if tilesets is Err {
            Err(tilesets->Err_0)
        } else {
            Ok(
                SpecDefs {
                    layers: layers->Ok_0,
                    entities: entities->Ok_0,
                    tilesets: tilesets->Ok_0,
                },
            )
        }
    }
}

/// Reads the definitions block from its wire object.
pub fn decode_defs(j: &Json) -> (r: Result<Defs, DecodeError>)
    ensures
        res_view(r) == spec_decode_defs(j@),
{
    let entries = match j {
        Json::Obj(entries) => entries,
        _ => {
            return Err(DecodeError::here(MismatchKind::WrongKind));
        },
    };
    let layers = match field_list::<Layer>(entries, "layers") {
        Ok(v) => v,
        Err(e) => {
            return Err(e);
        },
    };
    let entities = match field_list::<Entity>(entries, "entities") {
        Ok(v) => v,
        Err(e) => {
            return Err(e);
        },
    };
    let tilesets = match field_list::<TileSet>(entries, "tilesets") {
        Ok(v) => v,
        Err(e) => {
            return Err(e);
        },
    };
    Ok(Defs { layers, entities, tilesets })
}

impl Defs {
    /// The tileset definition with the given UID, or `None` when no entry has
    /// it: a dangling UID yields "not found", never a crash.
    pub fn find_tileset(&self, uid: i32) -> (r: Option<&TileSet>)
        ensures
            match r {
                Some(t) => exists|i: int|
                    0 <= i < self.tilesets@.len() && (#[trigger] self.tilesets@[i])@.uid == uid as int && t@
                        == self.tilesets@[i]@,
                None => forall|i: int|
                    0 <= i < self.tilesets@.len() ==> (#[trigger] self.tilesets@[i])@.uid != uid as int,
            },
    {
        let mut i: usize = 0;
        while i < self.tilesets.len()
            invariant
                0 <= i <= self.tilesets@.len(),
                forall|k: int| 0 <= k < i ==> (#[trigger] self.tilesets@[k])@.uid != uid as int,
            decreases self.tilesets@.len() - i,
        {
            if self.tilesets[i].uid == uid {
                return Some(&self.tilesets[i]);
            }
            i = i + 1;
        }
        None
    }

    /// The layer definition with the given UID, or `None` when no entry has
    /// it.
    pub fn find_layer(&self, uid: i32) -> (r: Option<&Layer>)
        ensures
            match r {
                Some(t) => exists|i: int|
                    0 <= i < self.layers@.len() && (#[trigger] self.layers@[i])@.uid == uid as int && t@
                        == self.layers@[i]@,
                None => forall|i: int|
                    0 <= i < self.layers@.len() ==> (#[trigger] self.layers@[i])@.uid != uid as int,
            },
    {
        let mut i: usize = 0;
        while i < self.layers.len()
            invariant
                0 <= i <= self.layers@.len(),
                forall|k: int| 0 <= k < i ==> (#[trigger] self.layers@[k])@.uid != uid as int,
            decreases self.layers@.len() - i,
        {
            if self.layers[i].uid == uid {
                return Some(&self.layers[i]);
            }
            i = i + 1;
        }
        None
    }

    /// The entity definition with the given UID, or `None` when no entry has
    /// it.
    pub fn find_entity(&self, uid: i32) -> (r: Option<&Entity>)
        ensures
            match r {
                Some(t) => exists|i: int|
                    0 <= i < self.entities@.len() && (#[trigger] self.entities@[i])@.uid == uid as int && t@
                        == self.entities@[i]@,
                None => forall|i: int|
                    0 <= i < self.entities@.len() ==> (#[trigger] self.entities@[i])@.uid != uid as int,
            },
    {
        let mut i: usize = 0;
        while i < self.entities.len()
            invariant
                0 <= i <= self.entities@.len(),
                forall|k: int| 0 <= k < i ==> (#[trigger] self.entities@[k])@.uid != uid as int,
            decreases self.entities@.len() - i,
        {
            if self.entities[i].uid == uid {
                return Some(&self.entities[i]);
            }
            i = i + 1;
        }
        None
    }
}

impl DecodeElem for Defs {
    open spec fn sdec(j: SpecJson) -> Result<SpecDefs, SpecErr> {
        spec_decode_defs(j)
    }

    fn dec(j: &Json) -> (r: Result<Defs, DecodeError>) {
        decode_defs(j)
    }
}

} // verus!
