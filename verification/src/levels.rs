use vstd::prelude::*;
use crate::json::Json;
use crate::json::SpecJson;
use crate::json::entries_view;
use crate::json::str_eq;
use crate::error::DecodeError;
use crate::error::MismatchKind;
use crate::error::SpecErr;
use crate::error::spec_err_at;
use crate::error::spec_err_here;
use crate::decode::res_view;
use crate::decode::ints_view;
use crate::decode::structs_view;
use crate::decode::maybe_structs_view;
use crate::decode::maybe_i32_view;
use crate::decode::spec_field_int;
use crate::decode::spec_field_str;
use crate::decode::spec_field_num;
use crate::decode::spec_field_raw;
use crate::decode::spec_field_int_arr;
use crate::decode::spec_field_maybe_str;
use crate::decode::spec_field_maybe_int;
use crate::decode::spec_field_list;
use crate::decode::spec_field_maybe_list;
use crate::decode::spec_field_maybe_elem;
use crate::decode::spec_extras;
use crate::decode::field_i32;
use crate::decode::field_u8;
use crate::decode::field_str;
use crate::decode::field_num;
use crate::decode::field_raw;
use crate::decode::field_int_arr;
use crate::decode::field_maybe_str;
use crate::decode::field_maybe_i32;
use crate::decode::field_list;
use crate::decode::field_maybe_list;
use crate::decode::field_maybe_elem;
use crate::decode::extras_of;
use crate::decode::DecodeElem;
use crate::decode::KnownKeys;
use crate::decode::sdec_of;
use crate::Maybe;

verus! {

// The level side of the schema: a level, its layer instances, and the tiles,
// entities and custom fields placed in them. Decoding is all-or-nothing; keys
// the schema does not know are retained verbatim in `extras`, entry for
// entry, so that an accepted level document can be printed back without loss.

/// One rendered tile placement: a tile index `t` into the layer's tileset,
/// the pixel position `px` in the layer, the pixel position `src` in the
/// tileset image, the two flip bits `f` (bit 0 horizontal, bit 1 vertical),
/// and editor provenance data `d`.
#[derive(Debug, PartialEq)]
pub struct TileInstance {
    pub px: Vec<i32>,
    pub src: Vec<i32>,
    pub f: u8,
    pub t: i32,
    pub d: Vec<i32>,
    /// Entries of the wire object that the schema does not know, retained.
    pub extras: Vec<(String, Json)>,
}

/// The mathematical value of a `TileInstance`.
pub struct SpecTileInstance {
    pub px: Seq<int>,
    pub src: Seq<int>,
    pub f: int,
    pub t: int,
    pub d: Seq<int>,
    pub extras: Seq<(Seq<char>, SpecJson)>,
}

impl View for TileInstance {
    type V = SpecTileInstance;

    open spec fn view(&self) -> SpecTileInstance {
        SpecTileInstance {
            px: ints_view(self.px@),
            src: ints_view(self.src@),
            f: self.f as int,
            t: self.t as int,
            d: ints_view(self.d@),
            extras: entries_view(self.extras@),
        }
    }
}

impl TileInstance {
    /// Bit 0 of `f`: the tile is drawn mirrored horizontally.
    pub fn flip_x(&self) -> (r: bool)
        ensures
            r == (self.f as int % 2 == 1),
    {
        self.f % 2 == 1
    }

    /// Bit 1 of `f`: the tile is drawn mirrored vertically.
    pub fn flip_y(&self) -> (r: bool)
        ensures
            r == ((self.f as int / 2) % 2 == 1),
    {
        (self.f / 2) % 2 == 1
    }
}

/// The keys a tile object's schema knows.
pub open spec fn spec_is_tile_key(k: Seq<char>) -> bool {
    ||| k == "px"@
    ||| k == "src"@
    ||| k == "f"@
    ||| k == "t"@
    ||| k == "d"@
}

impl KnownKeys for TileInstance {
    open spec fn known() -> spec_fn(Seq<char>) -> bool {
        |k: Seq<char>| spec_is_tile_key(k)
    }

    fn is_known(k: &str) -> (r: bool) {
        str_eq(k, "px") || str_eq(k, "src") || str_eq(k, "f") || str_eq(k, "t") || str_eq(k, "d")
    }
}

/// What `decode` yields for a tile object: every named field read as the
/// schema declares it, in this order, and the unrecognized entries retained.
pub open spec fn spec_decode_tile(j: SpecJson) -> Result<SpecTileInstance, SpecErr> {
    if !(j is Obj) {
        Err(spec_err_here(MismatchKind::WrongKind))
    } else {
        let e = j->Obj_0;
        let px = spec_field_int_arr(e, "px"@);
        let src = spec_field_int_arr(e, "src"@);
        let f = spec_field_int(e, "f"@, 0, u8::MAX as int);
        let t = spec_field_int(e, "t"@, i32::MIN as int, i32::MAX as int);
        let d = spec_field_int_arr(e, "d"@);
        if px is Err {
            Err(px->Err_0)
        } else if src is Err {
            Err(src->Err_0)
        } else if f is Err {
            Err(f->Err_0)
        } else if t is Err {
            Err(t->Err_0)
        } else if d is Err {
            Err(d->Err_0)
        } else {
            Ok(
                SpecTileInstance {
                    px: px->Ok_0,
                    src: src->Ok_0,
                    f: f->Ok_0,
                    t: t->Ok_0,
                    d: d->Ok_0,
                    extras: spec_extras(e, TileInstance::known()),
                },
            )
        }
    }
}

/// Reads one tile placement from its wire object.
pub fn decode_tile(j: &Json) -> (r: Result<TileInstance, DecodeError>)
    ensures
        res_view(r) == spec_decode_tile(j@),
{
    let entries = match j {
        Json::Obj(entries) => entries,
        _ => {
            return Err(DecodeError::here(MismatchKind::WrongKind));
        },
    };
    let px = match field_int_arr(entries, "px") {
        Ok(v) => v,
        Err(e) => {
            return Err(e);
        },
    };
    let src = match field_int_arr(entries, "src") {
        Ok(v) => v,
        Err(e) => {
            return Err(e);
        },
    };
    let f = match field_u8(entries, "f") {
        Ok(v) => v,
        Err(e) => {
            return Err(e);
        },
    };
    let t = match field_i32(entries, "t") {
        Ok(v) => v,
        Err(e) => {
            return Err(e);
        },
    };
    let d = match field_int_arr(entries, "d") {
        Ok(v) => v,
        Err(e) => {
            return Err(e);
        },
    };
    let extras = extras_of::<TileInstance>(entries);
    Ok(TileInstance { px, src, f, t, d, extras })
}

impl DecodeElem for TileInstance {
    open spec fn sdec(j: SpecJson) -> Result<SpecTileInstance, SpecErr> {
        spec_decode_tile(j)
    }

    fn dec(j: &Json) -> (r: Result<TileInstance, DecodeError>) {
        decode_tile(j)
    }
}

/// One cell of an integer-grid layer: the cell's position `coord_id` in
/// row-major order, and its value `v`.
#[derive(Debug, PartialEq)]
pub struct IntGrid {
    pub coord_id: i32,
    pub v: i32,
    /// Entries of the wire object that the schema does not know, retained.
    pub extras: Vec<(String, Json)>,
}

/// The mathematical value of an `IntGrid` cell.
pub struct SpecIntGrid {
    pub coord_id: int,
    pub v: int,
    pub extras: Seq<(Seq<char>, SpecJson)>,
}

impl View for IntGrid {
    type V = SpecIntGrid;

    open spec fn view(&self) -> SpecIntGrid {
        SpecIntGrid {
            coord_id: self.coord_id as int,
            v: self.v as int,
            extras: entries_view(self.extras@),
        }
    }
}

/// The keys an integer-grid cell's schema knows.
pub open spec fn spec_is_int_grid_key(k: Seq<char>) -> bool {
    ||| k == "coordId"@
    ||| k == "v"@
}

impl KnownKeys for IntGrid {
    open spec fn known() -> spec_fn(Seq<char>) -> bool {
        |k: Seq<char>| spec_is_int_grid_key(k)
    }

    fn is_known(k: &str) -> (r: bool) {
        str_eq(k, "coordId") || str_eq(k, "v")
    }
}

/// What `decode` yields for an integer-grid cell object.
pub open spec fn spec_decode_int_grid(j: SpecJson) -> Result<SpecIntGrid, SpecErr> {
    if !(j is Obj) {
        Err(spec_err_here(MismatchKind::WrongKind))
    } else {
        let e = j->Obj_0;
        let coord_id = spec_field_int(e, "coordId"@, i32::MIN as int, i32::MAX as int);
        let v = spec_field_int(e, "v"@, i32::MIN as int, i32::MAX as int);
        if coord_id is Err {
            Err(coord_id->Err_0)
        } else if v is Err {
            Err(v->Err_0)
        } else {
            Ok(
                SpecIntGrid {
                    coord_id: coord_id->Ok_0,
                    v: v->Ok_0,
                    extras: spec_extras(e, IntGrid::known()),
                },
            )
        }
    }
}

/// Reads one integer-grid cell from its wire object.
pub fn decode_int_grid(j: &Json) -> (r: Result<IntGrid, DecodeError>)
    ensures
        res_view(r) == spec_decode_int_grid(j@),
{
    let entries = match j {
        Json::Obj(entries) => entries,
        _ => {
            return Err(DecodeError::here(MismatchKind::WrongKind));
        },
    };
    let coord_id = match field_i32(entries, "coordId") {
        Ok(v) => v,
        Err(e) => {
            return Err(e);
        },
    };
    let v = match field_i32(entries, "v") {
        Ok(v) => v,
        Err(e) => {
            return Err(e);
        },
    };
    let extras = extras_of::<IntGrid>(entries);
    Ok(IntGrid { coord_id, v, extras })
}

impl DecodeElem for IntGrid {
    open spec fn sdec(j: SpecJson) -> Result<SpecIntGrid, SpecErr> {
        spec_decode_int_grid(j)
    }

    fn dec(j: &Json) -> (r: Result<IntGrid, DecodeError>) {
        decode_int_grid(j)
    }
}

/// The visual of an entity: a sub-rectangle `src_rect` of the tileset with
/// identifier `tileset_uid`.
#[derive(Debug, PartialEq)]
pub struct OptionalTile {
    pub src_rect: Vec<i32>,
    pub tileset_uid: i32,
    /// Entries of the wire object that the schema does not know, retained.
    pub extras: Vec<(String, Json)>,
}

/// The mathematical value of an `OptionalTile`.
pub struct SpecOptionalTile {
    pub src_rect: Seq<int>,
    pub tileset_uid: int,
    pub extras: Seq<(Seq<char>, SpecJson)>,
}

impl View for OptionalTile {
    type V = SpecOptionalTile;

    open spec fn view(&self) -> SpecOptionalTile {
        SpecOptionalTile {
            src_rect: ints_view(self.src_rect@),
            tileset_uid: self.tileset_uid as int,
            extras: entries_view(self.extras@),
        }
    }
}

/// The keys an entity tile's schema knows.
pub open spec fn spec_is_optional_tile_key(k: Seq<char>) -> bool {
    ||| k == "srcRect"@
    ||| k == "tilesetUid"@
}

impl KnownKeys for OptionalTile {
    open spec fn known() -> spec_fn(Seq<char>) -> bool {
        |k: Seq<char>| spec_is_optional_tile_key(k)
    }

    fn is_known(k: &str) -> (r: bool) {
        str_eq(k, "srcRect") || str_eq(k, "tilesetUid")
    }
}

/// What `decode` yields for an entity tile object.
pub open spec fn spec_decode_optional_tile(j: SpecJson) -> Result<SpecOptionalTile, SpecErr> {
    if !(j is Obj) {
        Err(spec_err_here(MismatchKind::WrongKind))
    } else {
        let e = j->Obj_0;
        let src_rect = spec_field_int_arr(e, "srcRect"@);
        let tileset_uid = spec_field_int(e, "tilesetUid"@, i32::MIN as int, i32::MAX as int);
        if src_rect is Err {
            Err(src_rect->Err_0)
        } else if tileset_uid is Err {
            Err(tileset_uid->Err_0)
        } else {
            Ok(
                SpecOptionalTile {
                    src_rect: src_rect->Ok_0,
                    tileset_uid: tileset_uid->Ok_0,
                    extras: spec_extras(e, OptionalTile::known()),
                },
            )
        }
    }
}

/// Reads one entity tile from its wire object.
pub fn decode_optional_tile(j: &Json) -> (r: Result<OptionalTile, DecodeError>)
    ensures
        res_view(r) == spec_decode_optional_tile(j@),
{
    let entries = match j {
        Json::Obj(entries) => entries,
        _ => {
            return Err(DecodeError::here(MismatchKind::WrongKind));
        },
    };
    let src_rect = match field_int_arr(entries, "srcRect") {
        Ok(v) => v,
        Err(e) => {
            return Err(e);
        },
    };
    let tileset_uid = match field_i32(entries, "tilesetUid") {
        Ok(v) => v,
        Err(e) => {
            return Err(e);
        },
    };
    let extras = extras_of::<OptionalTile>(entries);
    Ok(OptionalTile { src_rect, tileset_uid, extras })
}

impl DecodeElem for OptionalTile {
    open spec fn sdec(j: SpecJson) -> Result<SpecOptionalTile, SpecErr> {
        spec_decode_optional_tile(j)
    }

    fn dec(j: &Json) -> (r: Result<OptionalTile, DecodeError>) {
        decode_optional_tile(j)
    }
}

/// One custom-data slot of an entity: the slot's name, its declared type tag,
/// and its value, which is polymorphic on the wire and is retained verbatim
/// here; `typed_value` in the fields module reads it by the type tag.
#[derive(Debug, PartialEq)]
pub struct FieldInstance {
    pub __identifier: String,
    pub __type: String,
    pub __value: Json,
    pub def_uid: i32,
    /// Entries of the wire object that the schema does not know, retained.
    pub extras: Vec<(String, Json)>,
}

/// The mathematical value of a `FieldInstance`.
pub struct SpecFieldInstance {
    pub __identifier: Seq<char>,
    pub __type: Seq<char>,
    pub __value: SpecJson,
    pub def_uid: int,
    pub extras: Seq<(Seq<char>, SpecJson)>,
}

impl View for FieldInstance {
    type V = SpecFieldInstance;

    open spec fn view(&self) -> SpecFieldInstance {
        SpecFieldInstance {
            __identifier: self.__identifier@,
            __type: self.__type@,
            __value: self.__value@,
            def_uid: self.def_uid as int,
            extras: entries_view(self.extras@),
        }
    }
}

/// The keys a field instance's schema knows.
pub open spec fn spec_is_field_instance_key(k: Seq<char>) -> bool {
    ||| k == "__identifier"@
    ||| k == "__type"@
    ||| k == "__value"@
    ||| k == "defUid"@
}

impl KnownKeys for FieldInstance {
    open spec fn known() -> spec_fn(Seq<char>) -> bool {
        |k: Seq<char>| spec_is_field_instance_key(k)
    }

    fn is_known(k: &str) -> (r: bool) {
        str_eq(k, "__identifier") || str_eq(k, "__type") || str_eq(k, "__value") || str_eq(
            k,
            "defUid",
        )
    }
}

/// What `decode` yields for a field instance object. The value under
/// `__value` may be of any JSON kind, null included; only its absence is a
/// mismatch.
pub open spec fn spec_decode_field_instance(j: SpecJson) -> Result<SpecFieldInstance, SpecErr> {
    if !(j is Obj) {
        Err(spec_err_here(MismatchKind::WrongKind))
    } else {
        let e = j->Obj_0;
        let ident = spec_field_str(e, "__identifier"@);
        let ty = spec_field_str(e, "__type"@);
        let value = spec_field_raw(e, "__value"@);
        let def_uid = spec_field_int(e, "defUid"@, i32::MIN as int, i32::MAX as int);
        if ident is Err {
            Err(ident->Err_0)
        } else if ty is Err {
            Err(ty->Err_0)
        } else if value is Err {
            Err(value->Err_0)
        } else if def_uid is Err {
            Err(def_uid->Err_0)
        } else {
            Ok(
                SpecFieldInstance {
                    __identifier: ident->Ok_0,
                    __type: ty->Ok_0,
                    __value: value->Ok_0,
                    def_uid: def_uid->Ok_0,
                    extras: spec_extras(e, FieldInstance::known()),
                },
            )
        }
    }
}

/// Reads one field instance from its wire object.
pub fn decode_field_instance(j: &Json) -> (r: Result<FieldInstance, DecodeError>)
    ensures
        res_view(r) == spec_decode_field_instance(j@),
{
    let entries = match j {
        Json::Obj(entries) => entries,
        _ => {
            return Err(DecodeError::here(MismatchKind::WrongKind));
        },
    };
    let ident = match field_str(entries, "__identifier") {
        Ok(v) => v,
        Err(e) => {
            return Err(e);
        },
    };
    let ty = match field_str(entries, "__type") {
        Ok(v) => v,
        Err(e) => {
            return Err(e);
        },
    };
    let value = match field_raw(entries, "__value") {
        Ok(v) => v,
        Err(e) => {
            return Err(e);
        },
    };
    let def_uid = match field_i32(entries, "defUid") {
        Ok(v) => v,
        Err(e) => {
            return Err(e);
        },
    };
    let extras = extras_of::<FieldInstance>(entries);
    Ok(FieldInstance { __identifier: ident, __type: ty, __value: value, def_uid, extras })
}

impl DecodeElem for FieldInstance {
    open spec fn sdec(j: SpecJson) -> Result<SpecFieldInstance, SpecErr> {
        spec_decode_field_instance(j)
    }

    fn dec(j: &Json) -> (r: Result<FieldInstance, DecodeError>) {
        decode_field_instance(j)
    }
}

/// One placed entity: grid and pixel coordinates, the defining
/// EntityDefinition's UID, the custom field values, and an optional visual.
#[derive(Debug, PartialEq)]
pub struct EntityInstance {
    pub __grid: Vec<i32>,
    pub __identifier: String,
    pub __tile: Maybe<OptionalTile>,
    pub def_uid: i32,
    pub field_instances: Vec<FieldInstance>,
    pub px: Vec<i32>,
    /// Entries of the wire object that the schema does not know, retained.
    pub extras: Vec<(String, Json)>,
}

/// The mathematical value of an `EntityInstance`.
pub struct SpecEntityInstance {
    pub __grid: Seq<int>,
    pub __identifier: Seq<char>,
    pub __tile: Maybe<SpecOptionalTile>,
    pub def_uid: int,
    pub field_instances: Seq<SpecFieldInstance>,
    pub px: Seq<int>,
    pub extras: Seq<(Seq<char>, SpecJson)>,
}

impl View for EntityInstance {
    type V = SpecEntityInstance;

    open spec fn view(&self) -> SpecEntityInstance {
        SpecEntityInstance {
            __grid: ints_view(self.__grid@),
            __identifier: self.__identifier@,
            __tile: self.__tile@,
            def_uid: self.def_uid as int,
            field_instances: structs_view(self.field_instances@),
            px: ints_view(self.px@),
            extras: entries_view(self.extras@),
        }
    }
}

/// The keys an entity instance's schema knows.
pub open spec fn spec_is_entity_key(k: Seq<char>) -> bool {
    ||| k == "__grid"@
    ||| k == "__identifier"@
    ||| k == "__tile"@
    ||| k == "defUid"@
    ||| k == "fieldInstances"@
    ||| k == "px"@
}

impl KnownKeys for EntityInstance {
    open spec fn known() -> spec_fn(Seq<char>) -> bool {
        |k: Seq<char>| spec_is_entity_key(k)
    }

    fn is_known(k: &str) -> (r: bool) {
        str_eq(k, "__grid") || str_eq(k, "__identifier") || str_eq(k, "__tile") || str_eq(
            k,
            "defUid",
        ) || str_eq(k, "fieldInstances") || str_eq(k, "px")
    }
}

/// What `decode` yields for an entity instance object.
pub open spec fn spec_decode_entity(j: SpecJson) -> Result<SpecEntityInstance, SpecErr> {
    if !(j is Obj) {
        Err(spec_err_here(MismatchKind::WrongKind))
    } else {
        let e = j->Obj_0;
        let grid = spec_field_int_arr(e, "__grid"@);
        let ident = spec_field_str(e, "__identifier"@);
        let tile = spec_field_maybe_elem(e, "__tile"@, sdec_of::<OptionalTile>());
        let def_uid = spec_field_int(e, "defUid"@, i32::MIN as int, i32::MAX as int);
        let fields = spec_field_list(e, "fieldInstances"@, sdec_of::<FieldInstance>());
        let px = spec_field_int_arr(e, "px"@);
        if grid is Err {
            Err(grid->Err_0)
        } else if ident is Err {
            Err(ident->Err_0)
        } else if tile is Err {
            Err(tile->Err_0)
        } else if def_uid is Err {
            Err(def_uid->Err_0)
        } else if fields is Err {
            Err(fields->Err_0)
        } else if px is Err {
            Err(px->Err_0)
        } else {
            Ok(
                SpecEntityInstance {
                    __grid: grid->Ok_0,
                    __identifier: ident->Ok_0,
                    __tile: tile->Ok_0,
                    def_uid: def_uid->Ok_0,
                    field_instances: fields->Ok_0,
                    px: px->Ok_0,
                    extras: spec_extras(e, EntityInstance::known()),
                },
            )
        }
    }
}

/// Reads one entity instance from its wire object.
pub fn decode_entity(j: &Json) -> (r: Result<EntityInstance, DecodeError>)
    ensures
        res_view(r) == spec_decode_entity(j@),
{
    let entries = match j {
        Json::Obj(entries) => entries,
        _ => {
            return Err(DecodeError::here(MismatchKind::WrongKind));
        },
    };
    let grid = match field_int_arr(entries, "__grid") {
        Ok(v) => v,
        Err(e) => {
            return Err(e);
        },
    };
    let ident = match field_str(entries, "__identifier") {
        Ok(v) => v,
        Err(e) => {
            return Err(e);
        },
    };
    let tile = match field_maybe_elem::<OptionalTile>(entries, "__tile") {
        Ok(v) => v,
        Err(e) => {
            return Err(e);
        },
    };
    let def_uid = match field_i32(entries, "defUid") {
        Ok(v) => v,
        Err(e) => {
            return Err(e);
        },
    };
    let field_instances = match field_list::<FieldInstance>(entries, "fieldInstances") {
        Ok(v) => v,
        Err(e) => {
            return Err(e);
        },
    };
    let px = match field_int_arr(entries, "px") {
        Ok(v) => v,
        Err(e) => {
            return Err(e);
        },
    };
    let extras = extras_of::<EntityInstance>(entries);
    Ok(
        EntityInstance {
            __grid: grid,
            __identifier: ident,
            __tile: tile,
            def_uid,
            field_instances,
            px,
            extras,
        },
    )
}

impl DecodeElem for EntityInstance {
    open spec fn sdec(j: SpecJson) -> Result<SpecEntityInstance, SpecErr> {
        spec_decode_entity(j)
    }

    fn dec(j: &Json) -> (r: Result<EntityInstance, DecodeError>) {
        decode_entity(j)
    }
}

/// The closed set of layer kinds. The wire format spells the kind as a
/// string; any other string is a schema mismatch, never a default.
#[derive(Debug, Clone, Copy, PartialEq, Eq, Structural)]
pub enum LayerKind {
    IntGrid,
    Entities,
    Tiles,
    AutoLayer,
}

/// The layer kind a wire string names, if any.
pub open spec fn spec_layer_kind(s: Seq<char>) -> Option<LayerKind> {
    if s == "IntGrid"@ {
        Some(LayerKind::IntGrid)
    } else if s == "Entities"@ {
        Some(LayerKind::Entities)
    } else if s == "Tiles"@ {
        Some(LayerKind::Tiles)
    } else if s == "AutoLayer"@ {
        Some(LayerKind::AutoLayer)
    } else {
        None
    }
}

/// The layer kind a wire string names, if any.
pub fn layer_kind_of(s: &str) -> (r: Option<LayerKind>)
    ensures
        r == spec_layer_kind(s@),
{
    if str_eq(s, "IntGrid") {
        Some(LayerKind::IntGrid)
    } else if str_eq(s, "Entities") {
        Some(LayerKind::Entities)
    } else if str_eq(s, "Tiles") {
        Some(LayerKind::Tiles)
    } else if str_eq(s, "AutoLayer") {
        Some(LayerKind::AutoLayer)
    } else {
        None
    }
}

/// The required field `key` naming a layer kind: a missing key, a value of
/// another kind, and a string outside the closed set are all refused.
pub open spec fn spec_field_layer_kind(e: Seq<(Seq<char>, SpecJson)>, key: Seq<char>) -> Result<
    LayerKind,
    SpecErr,
> {
    match spec_field_str(e, key) {
        Err(er) => Err(er),
        Ok(s) => match spec_layer_kind(s) {
            Some(kind) => Ok(kind),
            None => Err(spec_err_at(key, MismatchKind::UnknownEnumValue)),
        },
    }
}

/// The required field `key` naming a layer kind.
pub fn field_layer_kind(entries: &Vec<(String, Json)>, key: &str) -> (r: Result<
    LayerKind,
    DecodeError,
>)
    ensures
        match r {
            Ok(kind) => spec_field_layer_kind(entries_view(entries@), key@) == Ok::<LayerKind, SpecErr>(kind),
            Err(e) => spec_field_layer_kind(entries_view(entries@), key@) == Err::<LayerKind, SpecErr>(e@),
        },
{
    let s = match field_str(entries, key) {
        Ok(s) => s,
        Err(e) => {
            return Err(e);
        },
    };
    match layer_kind_of(s.as_str()) {
        Some(kind) => Ok(kind),
        None => Err(DecodeError::at(key, MismatchKind::UnknownEnumValue)),
    }
}

/// One layer within a level, of one of the closed kinds. The grid is
/// `__c_wid` by `__c_hei` cells of `__grid_size` pixels. Depending on the
/// kind, cells live in `int_grid`, placed tiles in `grid_tiles` or
/// `auto_layer_tiles`, and placed entities in `entity_instances`; the wire
/// format carries all four sequences whatever the kind. `__opacity` is the
/// wire number text, kept uninterpreted.
#[derive(Debug, PartialEq)]
pub struct LayerInstance {
    pub __identifier: String,
    pub __type: LayerKind,
    pub __c_wid: i32,
    pub __c_hei: i32,
    pub __grid_size: i32,
    pub __opacity: String,
    pub __px_total_offset_x: i32,
    pub __px_total_offset_y: i32,
    pub __tileset_def_uid: Maybe<i32>,
    pub __tileset_rel_path: Maybe<String>,
    pub level_id: i32,
    pub layer_def_uid: i32,
    pub px_offset_x: i32,
    pub px_offset_y: i32,
    pub int_grid: Vec<IntGrid>,
    pub auto_layer_tiles: Vec<TileInstance>,
    pub seed: i32,
    pub grid_tiles: Vec<TileInstance>,
    pub entity_instances: Vec<EntityInstance>,
    /// Entries of the wire object that the schema does not know, retained.
    pub extras: Vec<(String, Json)>,
}

/// The mathematical value of a `LayerInstance`.
pub struct SpecLayerInstance {
    pub __identifier: Seq<char>,
    pub __type: LayerKind,
    pub __c_wid: int,
    pub __c_hei: int,
    pub __grid_size: int,
    pub __opacity: Seq<char>,
    pub __px_total_offset_x: int,
    pub __px_total_offset_y: int,
    pub __tileset_def_uid: Maybe<int>,
    pub __tileset_rel_path: Maybe<Seq<char>>,
    pub level_id: int,
    pub layer_def_uid: int,
    pub px_offset_x: int,
    pub px_offset_y: int,
    pub int_grid: Seq<SpecIntGrid>,
    pub auto_layer_tiles: Seq<SpecTileInstance>,
    pub seed: int,
    pub grid_tiles: Seq<SpecTileInstance>,
    pub entity_instances: Seq<SpecEntityInstance>,
    pub extras: Seq<(Seq<char>, SpecJson)>,
}

impl View for LayerInstance {
    type V = SpecLayerInstance;

    open spec fn view(&self) -> SpecLayerInstance {
        SpecLayerInstance {
            __identifier: self.__identifier@,
            __type: self.__type,
            __c_wid: self.__c_wid as int,
            __c_hei: self.__c_hei as int,
            __grid_size: self.__grid_size as int,
            __opacity: self.__opacity@,
            __px_total_offset_x: self.__px_total_offset_x as int,
            __px_total_offset_y: self.__px_total_offset_y as int,
            __tileset_def_uid: maybe_i32_view(self.__tileset_def_uid),
            __tileset_rel_path: self.__tileset_rel_path@,
            level_id: self.level_id as int,
            layer_def_uid: self.layer_def_uid as int,
            px_offset_x: self.px_offset_x as int,
            px_offset_y: self.px_offset_y as int,
            int_grid: structs_view(self.int_grid@),
            auto_layer_tiles: structs_view(self.auto_layer_tiles@),
            seed: self.seed as int,
            grid_tiles: structs_view(self.grid_tiles@),
            entity_instances: structs_view(self.entity_instances@),
            extras: entries_view(self.extras@),
        }
    }
}

/// The keys a layer instance's schema knows.
pub open spec fn spec_is_layer_key(k: Seq<char>) -> bool {
    ||| k == "__identifier"@
    ||| k == "__type"@
    ||| k == "__cWid"@
    ||| k == "__cHei"@
    ||| k == "__gridSize"@
    ||| k == "__opacity"@
    ||| k == "__pxTotalOffsetX"@
    ||| k == "__pxTotalOffsetY"@
    ||| k == "__tilesetDefUid"@
    ||| k == "__tilesetRelPath"@
    ||| k == "levelId"@
    ||| k == "layerDefUid"@
    ||| k == "pxOffsetX"@
    ||| k == "pxOffsetY"@
    ||| k == "intGrid"@
    ||| k == "autoLayerTiles"@
    ||| k == "seed"@
    ||| k == "gridTiles"@
    ||| k == "entityInstances"@
}

impl KnownKeys for LayerInstance {
    open spec fn known() -> spec_fn(Seq<char>) -> bool {
        |k: Seq<char>| spec_is_layer_key(k)
    }

    fn is_known(k: &str) -> (r: bool) {
        str_eq(k, "__identifier") || str_eq(k, "__type") || str_eq(k, "__cWid") || str_eq(
            k,
            "__cHei",
        ) || str_eq(k, "__gridSize") || str_eq(k, "__opacity") || str_eq(k, "__pxTotalOffsetX")
            || str_eq(k, "__pxTotalOffsetY") || str_eq(k, "__tilesetDefUid") || str_eq(
            k,
            "__tilesetRelPath",
        ) || str_eq(k, "levelId") || str_eq(k, "layerDefUid") || str_eq(k, "pxOffsetX") || str_eq(
            k,
            "pxOffsetY",
        ) || str_eq(k, "intGrid") || str_eq(k, "autoLayerTiles") || str_eq(k, "seed") || str_eq(
            k,
            "gridTiles",
        ) || str_eq(k, "entityInstances")
    }
}

/// What `decode` yields for a layer instance object.
pub open spec fn spec_decode_layer(j: SpecJson) -> Result<SpecLayerInstance, SpecErr> {
    if !(j is Obj) {
        Err(spec_err_here(MismatchKind::WrongKind))
    } else {
        let e = j->Obj_0;
        let ident = spec_field_str(e, "__identifier"@);
        let kind = spec_field_layer_kind(e, "__type"@);
        let c_wid = spec_field_int(e, "__cWid"@, i32::MIN as int, i32::MAX as int);
        let c_hei = spec_field_int(e, "__cHei"@, i32::MIN as int, i32::MAX as int);
        let grid_size = spec_field_int(e, "__gridSize"@, i32::MIN as int, i32::MAX as int);
        let opacity = spec_field_num(e, "__opacity"@);
        let off_x = spec_field_int(e, "__pxTotalOffsetX"@, i32::MIN as int, i32::MAX as int);
        let off_y = spec_field_int(e, "__pxTotalOffsetY"@, i32::MIN as int, i32::MAX as int);
        let ts_uid = spec_field_maybe_int(e, "__tilesetDefUid"@, i32::MIN as int, i32::MAX as int);
        let ts_path = spec_field_maybe_str(e, "__tilesetRelPath"@);
        let level_id = spec_field_int(e, "levelId"@, i32::MIN as int, i32::MAX as int);
        let layer_def_uid = spec_field_int(e, "layerDefUid"@, i32::MIN as int, i32::MAX as int);
        let px_off_x = spec_field_int(e, "pxOffsetX"@, i32::MIN as int, i32::MAX as int);
        let px_off_y = spec_field_int(e, "pxOffsetY"@, i32::MIN as int, i32::MAX as int);
        let int_grid = spec_field_list(e, "intGrid"@, sdec_of::<IntGrid>());
        let auto_tiles = spec_field_list(e, "autoLayerTiles"@, sdec_of::<TileInstance>());
        let seed = spec_field_int(e, "seed"@, i32::MIN as int, i32::MAX as int);
        let grid_tiles = spec_field_list(e, "gridTiles"@, sdec_of::<TileInstance>());
        let entity_instances = spec_field_list(e, "entityInstances"@, sdec_of::<EntityInstance>());
        if ident is Err {
            Err(ident->Err_0)
        } else if kind is Err {
            Err(kind->Err_0)
        } else if c_wid is Err {
            Err(c_wid->Err_0)
        } else if c_hei is Err {
            Err(c_hei->Err_0)
        } else if grid_size is Err {
            Err(grid_size->Err_0)
        } else if opacity is Err {
            Err(opacity->Err_0)
        } else if off_x is Err {
            Err(off_x->Err_0)
        } else if off_y is Err {
            Err(off_y->Err_0)
        } else if ts_uid is Err {
            Err(ts_uid->Err_0)
        } else if ts_path is Err {
            Err(ts_path->Err_0)
        } else if level_id is Err {
            Err(level_id->Err_0)
        } else if layer_def_uid is Err {
            Err(layer_def_uid->Err_0)
        } else if px_off_x is Err {
            Err(px_off_x->Err_0)
        } else if px_off_y is Err {
            Err(px_off_y->Err_0)
        } else if int_grid is Err {
            Err(int_grid->Err_0)
        } else if auto_tiles is Err {
            Err(auto_tiles->Err_0)
        } else if seed is Err {
            Err(seed->Err_0)
        } else if grid_tiles is Err {
            Err(grid_tiles->Err_0)
        } else if entity_instances is Err {
            Err(entity_instances->Err_0)
        } else {
            Ok(
                SpecLayerInstance {
                    __identifier: ident->Ok_0,
                    __type: kind->Ok_0,
                    __c_wid: c_wid->Ok_0,
                    __c_hei: c_hei->Ok_0,
                    __grid_size: grid_size->Ok_0,
                    __opacity: opacity->Ok_0,
                    __px_total_offset_x: off_x->Ok_0,
                    __px_total_offset_y: off_y->Ok_0,
                    __tileset_def_uid: ts_uid->Ok_0,
                    __tileset_rel_path: ts_path->Ok_0,
                    level_id: level_id->Ok_0,
                    layer_def_uid: layer_def_uid->Ok_0,
                    px_offset_x: px_off_x->Ok_0,
                    px_offset_y: px_off_y->Ok_0,
                    int_grid: int_grid->Ok_0,
                    auto_layer_tiles: auto_tiles->Ok_0,
                    seed: seed->Ok_0,
                    grid_tiles: grid_tiles->Ok_0,
                    entity_instances: entity_instances->Ok_0,
                    extras: spec_extras(e, LayerInstance::known()),
                },
            )
        }
    }
}

/// Reads one layer instance from its wire object.
pub fn decode_layer(j: &Json) -> (r: Result<LayerInstance, DecodeError>)
    ensures
        res_view(r) == spec_decode_layer(j@),
{
    let entries = match j {
        Json::Obj(entries) => entries,
        _ => {
            return Err(DecodeError::here(MismatchKind::WrongKind));
        },
    };
    let ident = match field_str(entries, "__identifier") {
        Ok(v) => v,
        Err(e) => {
            return Err(e);
        },
    };
    let kind = match field_layer_kind(entries, "__type") {
        Ok(v) => v,
        Err(e) => {
            return Err(e);
        },
    };
    let c_wid = match field_i32(entries, "__cWid") {
        Ok(v) => v,
        Err(e) => {
            return Err(e);
        },
    };
    let c_hei = match field_i32(entries, "__cHei") {
        Ok(v) => v,
        Err(e) => {
            return Err(e);
        },
    };
    let grid_size = match field_i32(entries, "__gridSize") {
        Ok(v) => v,
        Err(e) => {
            return Err(e);
        },
    };
    let opacity = match field_num(entries, "__opacity") {
        Ok(v) => v,
        Err(e) => {
            return Err(e);
        },
    };
    let off_x = match field_i32(entries, "__pxTotalOffsetX") {
        Ok(v) => v,
        Err(e) => {
            return Err(e);
        },
    };
    let off_y = match field_i32(entries, "__pxTotalOffsetY") {
        Ok(v) => v,
        Err(e) => {
            return Err(e);
        },
    };
    let ts_uid = match field_maybe_i32(entries, "__tilesetDefUid") {
        Ok(v) => v,
        Err(e) => {
            return Err(e);
        },
    };
    let ts_path = match field_maybe_str(entries, "__tilesetRelPath") {
        Ok(v) => v,
        Err(e) => {
            return Err(e);
        },
    };
    let level_id = match field_i32(entries, "levelId") {
        Ok(v) => v,
        Err(e) => {
            return Err(e);
        },
    };
    let layer_def_uid = match field_i32(entries, "layerDefUid") {
        Ok(v) => v,
        Err(e) => {
            return Err(e);
        },
    };
    let px_off_x = match field_i32(entries, "pxOffsetX") {
        Ok(v) => v,
        Err(e) => {
            return Err(e);
        },
    };
    let px_off_y = match field_i32(entries, "pxOffsetY") {
        Ok(v) => v,
        Err(e) => {
            return Err(e);
        },
    };
    let int_grid = match field_list::<IntGrid>(entries, "intGrid") {
        Ok(v) => v,
        Err(e) => {
            return Err(e);
        },
    };
    let auto_layer_tiles = match field_list::<TileInstance>(entries, "autoLayerTiles") {
        Ok(v) => v,
        Err(e) => {
            return Err(e);
        },
    };
    let seed = match field_i32(entries, "seed") {
        Ok(v) => v,
        Err(e) => {
            return Err(e);
        },
    };
    let grid_tiles = match field_list::<TileInstance>(entries, "gridTiles") {
        Ok(v) => v,
        Err(e) => {
            return Err(e);
        },
    };
    let entity_instances = match field_list::<EntityInstance>(entries, "entityInstances") {
        Ok(v) => v,
        Err(e) => {
            return Err(e);
        },
    };
    let extras = extras_of::<LayerInstance>(entries);
    Ok(
        LayerInstance {
            __identifier: ident,
            __type: kind,
            __c_wid: c_wid,
            __c_hei: c_hei,
            __grid_size: grid_size,
            __opacity: opacity,
            __px_total_offset_x: off_x,
            __px_total_offset_y: off_y,
            __tileset_def_uid: ts_uid,
            __tileset_rel_path: ts_path,
            level_id,
            layer_def_uid,
            px_offset_x: px_off_x,
            px_offset_y: px_off_y,
            int_grid,
            auto_layer_tiles,
            seed,
            grid_tiles,
            entity_instances,
            extras,
        },
    )
}

impl DecodeElem for LayerInstance {
    open spec fn sdec(j: SpecJson) -> Result<SpecLayerInstance, SpecErr> {
        spec_decode_layer(j)
    }

    fn dec(j: &Json) -> (r: Result<LayerInstance, DecodeError>) {
        decode_layer(j)
    }
}

/// One play area. Its layer data is either inlined under `layer_instances` or
/// held in a separate file named by `external_rel_path`; in the latter case
/// `layer_instances` is `Null` on the wire. `__bg_color` is the effective
/// background color; `bg_color` is the level's own, `Null` or `Absent` when
/// the project default applies.
#[derive(Debug, PartialEq)]
pub struct Level {
    pub identifier: String,
    pub uid: i32,
    pub world_x: i32,
    pub world_y: i32,
    pub px_wid: i32,
    pub px_hei: i32,
    pub __bg_color: String,
    pub bg_color: Maybe<String>,
    pub external_rel_path: Maybe<String>,
    pub layer_instances: Maybe<Vec<LayerInstance>>,
    /// Entries of the wire object that the schema does not know, retained.
    pub extras: Vec<(String, Json)>,
}

/// The mathematical value of a `Level`.
pub struct SpecLevel {
    pub identifier: Seq<char>,
    pub uid: int,
    pub world_x: int,
    pub world_y: int,
    pub px_wid: int,
    pub px_hei: int,
    pub __bg_color: Seq<char>,
    pub bg_color: Maybe<Seq<char>>,
    pub external_rel_path: Maybe<Seq<char>>,
    pub layer_instances: Maybe<Seq<SpecLayerInstance>>,
    pub extras: Seq<(Seq<char>, SpecJson)>,
}

impl View for Level {
    type V = SpecLevel;

    open spec fn view(&self) -> SpecLevel {
        SpecLevel {
            identifier: self.identifier@,
            uid: self.uid as int,
            world_x: self.world_x as int,
            world_y: self.world_y as int,
            px_wid: self.px_wid as int,
            px_hei: self.px_hei as int,
            __bg_color: self.__bg_color@,
            bg_color: self.bg_color@,
            external_rel_path: self.external_rel_path@,
            layer_instances: maybe_structs_view(self.layer_instances),
            extras: entries_view(self.extras@),
        }
    }
}

/// The keys a level's schema knows.
pub open spec fn spec_is_level_key(k: Seq<char>) -> bool {
    ||| k == "identifier"@
    ||| k == "uid"@
    ||| k == "worldX"@
    ||| k == "worldY"@
    ||| k == "pxWid"@
    ||| k == "pxHei"@
    ||| k == "__bgColor"@
    ||| k == "bgColor"@
    ||| k == "externalRelPath"@
    ||| k == "layerInstances"@
}

impl KnownKeys for Level {
    open spec fn known() -> spec_fn(Seq<char>) -> bool {
        |k: Seq<char>| spec_is_level_key(k)
    }

    fn is_known(k: &str) -> (r: bool) {
        str_eq(k, "identifier") || str_eq(k, "uid") || str_eq(k, "worldX") || str_eq(k, "worldY")
            || str_eq(k, "pxWid") || str_eq(k, "pxHei") || str_eq(k, "__bgColor") || str_eq(
            k,
            "bgColor",
        ) || str_eq(k, "externalRelPath") || str_eq(k, "layerInstances")
    }
}

/// What `decode` yields for a level object.
pub open spec fn spec_decode_level(j: SpecJson) -> Result<SpecLevel, SpecErr> {
    if !(j is Obj) {
        Err(spec_err_here(MismatchKind::WrongKind))
    } else {
        let e = j->Obj_0;
        let ident = spec_field_str(e, "identifier"@);
        let uid = spec_field_int(e, "uid"@, i32::MIN as int, i32::MAX as int);
        let world_x = spec_field_int(e, "worldX"@, i32::MIN as int, i32::MAX as int);
        let world_y = spec_field_int(e, "worldY"@, i32::MIN as int, i32::MAX as int);
        let px_wid = spec_field_int(e, "pxWid"@, i32::MIN as int, i32::MAX as int);
        let px_hei = spec_field_int(e, "pxHei"@, i32::MIN as int, i32::MAX as int);
        let eff_bg = spec_field_str(e, "__bgColor"@);
        let bg = spec_field_maybe_str(e, "bgColor"@);
        let ext = spec_field_maybe_str(e, "externalRelPath"@);
        let layers = spec_field_maybe_list(e, "layerInstances"@, sdec_of::<LayerInstance>());
        if ident is Err {
            Err(ident->Err_0)
        } else if uid is Err {
            Err(uid->Err_0)
        } else if world_x is Err {
            Err(world_x->Err_0)
        } else if world_y is Err {
            Err(world_y->Err_0)
        } else if px_wid is Err {
            Err(px_wid->Err_0)
        } else if px_hei is Err {
            Err(px_hei->Err_0)
        } else if eff_bg is Err {
            Err(eff_bg->Err_0)
        } else if bg is Err {
            Err(bg->Err_0)
        } else if ext is Err {
            Err(ext->Err_0)
        } else if layers is Err {
            Err(layers->Err_0)
        } else {
            Ok(
                SpecLevel {
                    identifier: ident->Ok_0,
                    uid: uid->Ok_0,
                    world_x: world_x->Ok_0,
                    world_y: world_y->Ok_0,
                    px_wid: px_wid->Ok_0,
                    px_hei: px_hei->Ok_0,
                    __bg_color: eff_bg->Ok_0,
                    bg_color: bg->Ok_0,
                    external_rel_path: ext->Ok_0,
                    layer_instances: layers->Ok_0,
                    extras: spec_extras(e, Level::known()),
                },
            )
        }
    }
}

/// Reads one level from its wire object.
pub fn decode_level(j: &Json) -> (r: Result<Level, DecodeError>)
    ensures
        res_view(r) == spec_decode_level(j@),
{
    let entries = match j {
        Json::Obj(entries) => entries,
        _ => {
            return Err(DecodeError::here(MismatchKind::WrongKind));
        },
    };
    let ident = match field_str(entries, "identifier") {
        Ok(v) => v,
        Err(e) => {
            return Err(e);
        },
    };
    let uid = match field_i32(entries, "uid") {
        Ok(v) => v,
        Err(e) => {
            return Err(e);
        },
    };
    let world_x = match field_i32(entries, "worldX") {
        Ok(v) => v,
        Err(e) => {
            return Err(e);
        },
    };
    let world_y = match field_i32(entries, "worldY") {
        Ok(v) => v,
        Err(e) => {
            return Err(e);
        },
    };
    let px_wid = match field_i32(entries, "pxWid") {
        Ok(v) => v,
        Err(e) => {
            return Err(e);
        },
    };
    let px_hei = match field_i32(entries, "pxHei") {
        Ok(v) => v,
        Err(e) => {
            return Err(e);
        },
    };
    let eff_bg = match field_str(entries, "__bgColor") {
        Ok(v) => v,
        Err(e) => {
            return Err(e);
        },
    };
    let bg = match field_maybe_str(entries, "bgColor") {
        Ok(v) => v,
        Err(e) => {
            return Err(e);
        },
    };
    let ext = match field_maybe_str(entries, "externalRelPath") {
        Ok(v) => v,
        Err(e) => {
            return Err(e);
        },
    };
    let layers = match field_maybe_list::<LayerInstance>(entries, "layerInstances") {
        Ok(v) => v,
        Err(e) => {
            return Err(e);
        },
    };
    let extras = extras_of::<Level>(entries);
    Ok(
        Level {
            identifier: ident,
            uid,
            world_x,
            world_y,
            px_wid,
            px_hei,
            __bg_color: eff_bg,
            bg_color: bg,
            external_rel_path: ext,
            layer_instances: layers,
            extras,
        },
    )
}

/// The value of the cell at position `idx`: the first recorded cell with
/// that coordinate, or 0 when the position is not recorded (an empty cell).
pub open spec fn spec_cell_at(cells: Seq<SpecIntGrid>, idx: int) -> int
    decreases cells.len(),
{
    if cells.len() == 0 {
        0
    } else if cells[0].coord_id == idx {
        cells[0].v
    } else {
        spec_cell_at(cells.skip(1), idx)
    }
}

impl LayerInstance {
    /// The integer grid as one row-major sequence of `__c_wid` times
    /// `__c_hei` cell values: recorded cells carry their value, every other
    /// position is 0. `None` when the grid dimensions are negative or their
    /// product does not fit in memory.
    pub fn int_grid_flattened(&self) -> (r: Option<Vec<i32>>)
        ensures
            match r {
                Some(g) => {
                    &&& self.__c_wid >= 0 && self.__c_hei >= 0
                    &&& g@.len() == self@.__c_wid * self@.__c_hei
                    &&& forall|idx: int|
                        0 <= idx < g@.len() ==> g@[idx] as int == spec_cell_at(self@.int_grid, idx)
                },
                None => self.__c_wid < 0 || self.__c_hei < 0 || self.__c_wid as int * self.__c_hei as int > usize::MAX as int,
            },
    {
        if self.__c_wid < 0 || self.__c_hei < 0 {
            return None;
        }
        let total = match (self.__c_wid as usize).checked_mul(self.__c_hei as usize) {
            Some(t) => t,
            None => {
                return None;
            },
        };
        let ghost cells = structs_view(self.int_grid@);
        let mut g: Vec<i32> = Vec::new();
        let mut z: usize = 0;
        while z < total
            invariant
                0 <= z <= total,
                g@.len() == z,
                forall|idx: int| 0 <= idx < z ==> g@[idx] as int == 0,
            decreases total - z,
        {
            g.push(0);
            z = z + 1;
        }
        proof {
            assert(cells.skip(cells.len() as int) =~= Seq::<SpecIntGrid>::empty());
            assert(forall|idx: int|
                0 <= idx < g@.len() ==> g@[idx] as int == spec_cell_at(
                    cells.skip(cells.len() as int),
                    idx,
                ));
        }
        let mut i: usize = self.int_grid.len();
        while i > 0
            invariant
                0 <= i <= self.int_grid@.len(),
                cells == structs_view(self.int_grid@),
                cells.len() == self.int_grid@.len(),
                forall|k: int| 0 <= k < cells.len() ==> cells[k] == (#[trigger] self.int_grid@[k])@,
                g@.len() == total,
                total == self.__c_wid as int * self.__c_hei as int,
                forall|idx: int|
                    0 <= idx < g@.len() ==> g@[idx] as int == spec_cell_at(cells.skip(i as int), idx),
            decreases i,
        {
            i = i - 1;
            let cell = &self.int_grid[i];
            let ghost before = g@;
            if 0 <= cell.coord_id && (cell.coord_id as usize) < total {
                let at = cell.coord_id as usize;
                g[at] = cell.v;
            }
            proof {
                assert(cells.skip(i as int)[0] == cells[i as int]);
                assert(cells.skip(i as int).skip(1) =~= cells.skip(i + 1 as int));
                assert forall|idx: int| 0 <= idx < g@.len() implies g@[idx] as int == spec_cell_at(
                    cells.skip(i as int),
                    idx,
                ) by {
                    if cells[i as int].coord_id == idx {
                        assert(g@[idx] == cell.v);
                    } else {
                        assert(g@[idx] == before[idx]);
                    }
                }
            }
        }
        proof {
            assert(cells.skip(0) =~= cells);
        }
        Some(g)
    }
}

impl DecodeElem for Level {
    open spec fn sdec(j: SpecJson) -> Result<SpecLevel, SpecErr> {
        spec_decode_level(j)
    }

    fn dec(j: &Json) -> (r: Result<Level, DecodeError>) {
        decode_level(j)
    }
}

} // verus!
