use ldtk::Maybe;
use ldtk::Project;
use ldtk::error::LoadError;
use ldtk::error::MismatchKind;
use ldtk::json::Json;
use ldtk::ldtk_file::LdtkFile;
use ldtk::ldtk_file::WorldLayout;
use ldtk::levels::LayerKind;
use ldtk::levels::Level;
use ldtk::defs::DefaultOverride;
use ldtk::defs::decode_field_defs;
use ldtk::raw::parse_json_text;

fn root_doc(levels_json: &str) -> String {
    let mut s = String::new();
    s.push_str(
        r##"{"jsonVersion":"0.6.3","defaultPivotX":0.5,"defaultPivotY":0.5,"defaultGridSize":16,
        "bgColor":"#40465B","defaultLevelBgColor":"#696A79","nextUid":10,"minifyJson":false,
        "exportTiled":false,"worldLayout":"Free","worldGridWidth":256,"worldGridHeight":256,
        "defs":{"layers":[],"entities":[],"tilesets":[]},"levels":"##,
    );
    s.push_str(levels_json);
    s.push('}');
    s
}

fn layer_tiles(grid_tiles: &str) -> String {
    let mut s = String::new();
    s.push_str(
        r##"{"__identifier":"Ground","__type":"Tiles","__cWid":16,"__cHei":16,"__gridSize":16,
        "__opacity":1,"__pxTotalOffsetX":0,"__pxTotalOffsetY":0,"__tilesetDefUid":7,
        "__tilesetRelPath":"atlas.png","levelId":0,"layerDefUid":2,"pxOffsetX":0,"pxOffsetY":0,
        "intGrid":[],"autoLayerTiles":[],"seed":42,"gridTiles":"##,
    );
    s.push_str(grid_tiles);
    s.push_str(r##","entityInstances":[]}"##);
    s
}

#[test]
fn scenario_free_world_one_tile() {
    let tile = r##"[{"px":[32,48],"src":[64,0],"f":3,"t":4,"d":[136]}]"##;
    let level = format!(
        r##"[{{"identifier":"Level_0","uid":0,"worldX":0,"worldY":0,"pxWid":256,"pxHei":256,
        "__bgColor":"#696A79","bgColor":null,"layerInstances":[{}]}}]"##,
        layer_tiles(tile)
    );
    let doc = root_doc(&level);
    let p = Project::from_json_text(String::from("root.ldtk"), &doc).unwrap();
    assert_eq!(p.file, "root.ldtk");
    assert_eq!(p.levels.len(), 1);
    let lv = &p.levels[0];
    assert_eq!(lv.px_hei, 256);
    assert_eq!(lv.px_wid, 256);
    let layers = match &lv.layer_instances {
        Maybe::Value(layers) => layers,
        _ => panic!("layer instances must be inlined"),
    };
    assert_eq!(layers.len(), 1);
    assert_eq!(layers[0].__type, LayerKind::Tiles);
    assert_eq!(layers[0].__grid_size, 16);
    let t = &layers[0].grid_tiles[0];
    assert_eq!(t.t, 4);
    assert_eq!(t.f, 3);
    assert!(t.flip_x());
    assert!(t.flip_y());
    assert_eq!(t.px, vec![32, 48]);
}

#[test]
fn scenario_world_layout_decoded() {
    let doc = root_doc("[]");
    let f = LdtkFile::from_json_text(&doc).unwrap();
    assert_eq!(f.world_layout, WorldLayout::Free);
    assert_eq!(f.json_version, "0.6.3");
    assert_eq!(f.default_pivot_x, "0.5");
    assert_eq!(f.next_uid, 10);
    assert!(matches!(f.external_levels, Maybe::Absent));
}

fn external_level_doc() -> String {
    let cells = r##"[{"coordId":1,"v":1},{"coordId":2,"v":1},{"coordId":5,"v":1},{"coordId":6,"v":1}]"##;
    format!(
        r##"{{"identifier":"Level_0","uid":0,"worldX":0,"worldY":0,"pxWid":64,"pxHei":64,
        "__bgColor":"#696A79",
        "layerInstances":[{{"__identifier":"Walls","__type":"IntGrid","__cWid":4,"__cHei":4,
        "__gridSize":16,"__opacity":1,"__pxTotalOffsetX":0,"__pxTotalOffsetY":0,
        "levelId":0,"layerDefUid":3,"pxOffsetX":0,"pxOffsetY":0,
        "intGrid":{},"autoLayerTiles":[],"seed":1,"gridTiles":[],"entityInstances":[]}}]}}"##,
        cells
    )
}

#[test]
fn scenario_external_levels() {
    let stub = r##"[{"identifier":"Level_0","uid":0,"worldX":0,"worldY":0,"pxWid":64,"pxHei":64,
        "__bgColor":"#696A79","externalRelPath":"level_0.ldtkl","layerInstances":null}]"##;
    let mut doc = root_doc(stub);
    // splice the externalLevels flag into the root object
    doc.insert_str(1, r##""externalLevels":true,"##);
    let root = LdtkFile::from_json_text(&doc).unwrap();
    assert!(matches!(root.external_levels, Maybe::Value(true)));
    let stub_level = &root.levels[0];
    assert!(matches!(stub_level.layer_instances, Maybe::Null));
    assert_eq!(stub_level.external_rel_path, Maybe::Value(String::from("level_0.ldtkl")));

    // the sibling file's content, resolved explicitly
    let resolved = Level::from_json_text(&external_level_doc()).unwrap();
    let layers = match &resolved.layer_instances {
        Maybe::Value(layers) => layers,
        _ => panic!("external level must inline its layers"),
    };
    assert_eq!(layers.len(), 1);
    assert_eq!(layers[0].__type, LayerKind::IntGrid);
    let flat = layers[0].int_grid_flattened().unwrap();
    assert_eq!(flat, vec![0, 1, 1, 0, 0, 1, 1, 0, 0, 0, 0, 0, 0, 0, 0, 0]);
}

#[test]
fn scenario_missing_uid_path() {
    let doc = r##"{"jsonVersion":"0.6.3","defaultPivotX":0,"defaultPivotY":0,"defaultGridSize":16,
        "bgColor":"#000000","defaultLevelBgColor":"#000000","nextUid":1,"minifyJson":false,
        "exportTiled":false,"worldLayout":"Free","worldGridWidth":256,"worldGridHeight":256,
        "defs":{"layers":[],"entities":[],"tilesets":[{"identifier":"Atlas","relPath":"a.png",
        "pxWid":128,"pxHei":128,"tileGridSize":16,"spacing":0,"padding":0}]},"levels":[]}"##;
    let err = Project::from_json_text(String::from("root.ldtk"), doc).unwrap_err();
    let e = match err {
        LoadError::SchemaMismatch(e) => e,
        other => panic!("expected a schema mismatch, got {:?}", other),
    };
    assert_eq!(e.kind, MismatchKind::MissingField);
    assert!(e.path_ends_at("uid"));
    let path = e.path_string();
    assert!(path.ends_with(".uid"), "path was {}", path);
    assert_eq!(path, "defs.tilesets.0.uid");
}

#[test]
fn absent_null_value_are_distinct() {
    let absent = r##"{"identifier":"L","uid":0,"worldX":0,"worldY":0,"pxWid":16,"pxHei":16,
        "__bgColor":"#000000","layerInstances":[]}"##;
    let null = r##"{"identifier":"L","uid":0,"worldX":0,"worldY":0,"pxWid":16,"pxHei":16,
        "__bgColor":"#000000","bgColor":null,"layerInstances":[]}"##;
    let set = r##"{"identifier":"L","uid":0,"worldX":0,"worldY":0,"pxWid":16,"pxHei":16,
        "__bgColor":"#000000","bgColor":"#112233","layerInstances":[]}"##;
    let a = Level::from_json_text(absent).unwrap();
    let b = Level::from_json_text(null).unwrap();
    let c = Level::from_json_text(set).unwrap();
    assert_eq!(a.bg_color, Maybe::Absent);
    assert_eq!(b.bg_color, Maybe::Null);
    assert_eq!(c.bg_color, Maybe::Value(String::from("#112233")));
    assert_ne!(a.bg_color, b.bg_color);
    assert_ne!(a.bg_color, c.bg_color);
    assert_ne!(b.bg_color, c.bg_color);
}

#[test]
fn unknown_layer_kind_is_refused() {
    let level = format!(
        r##"[{{"identifier":"L","uid":0,"worldX":0,"worldY":0,"pxWid":16,"pxHei":16,
        "__bgColor":"#000000","layerInstances":[{}]}}]"##,
        layer_tiles("[]").replace("\"Tiles\"", "\"Foo\"")
    );
    let doc = root_doc(&level);
    let err = Project::from_json_text(String::from("root.ldtk"), &doc).unwrap_err();
    let e = match err {
        LoadError::SchemaMismatch(e) => e,
        other => panic!("expected a schema mismatch, got {:?}", other),
    };
    assert_eq!(e.kind, MismatchKind::UnknownEnumValue);
    assert!(e.path_ends_at("__type"));
}

fn field_defs_doc(default_override: &str) -> String {
    format!(
        r##"{{"identifier":"hp","__type":"Int","uid":9,"isArray":false,"canBeNull":false,
        "arrayMinLength":null,"arrayMaxLength":null,"defaultOverride":{}}}"##,
        default_override
    )
}

#[test]
fn polymorphic_override_decodes_by_kind() {
    let as_string = parse_json_text(&field_defs_doc(r##""full""##)).unwrap();
    let fd = decode_field_defs(&as_string).unwrap();
    assert_eq!(fd.default_override, Maybe::Value(DefaultOverride::Str(String::from("full"))));

    let as_object = parse_json_text(&field_defs_doc(r##"{"id":"V_Int","params":[3]}"##)).unwrap();
    let fd = decode_field_defs(&as_object).unwrap();
    match fd.default_override {
        Maybe::Value(DefaultOverride::Object(entries)) => {
            assert_eq!(entries.len(), 2);
            assert_eq!(entries[0].0, "id");
            assert_eq!(entries[0].1, Json::Str(String::from("V_Int")));
        },
        other => panic!("expected the object variant, got {:?}", other),
    }

    let as_array = parse_json_text(&field_defs_doc(r##"[3]"##)).unwrap();
    let err = decode_field_defs(&as_array).unwrap_err();
    assert_eq!(err.kind, MismatchKind::WrongKind);
    assert!(err.path_ends_at("defaultOverride"));
}

#[test]
fn external_resolution_is_idempotent() {
    let text = external_level_doc();
    let a = Level::from_json_text(&text).unwrap();
    let b = Level::from_json_text(&text).unwrap();
    assert_eq!(a, b);
}

#[test]
fn dangling_uid_lookup_returns_not_found() {
    let doc = root_doc("[]").replace(
        r##""tilesets":[]"##,
        r##""tilesets":[{"identifier":"Atlas","uid":7,"relPath":"a.png","pxWid":128,"pxHei":128,
        "tileGridSize":16,"spacing":0,"padding":0}]"##,
    );
    let p = Project::from_json_text(String::from("root.ldtk"), &doc).unwrap();
    assert!(p.defs.find_tileset(999).is_none());
    assert!(p.defs.find_layer(7).is_none());
    assert!(p.defs.find_entity(7).is_none());
    let ts = p.defs.find_tileset(7).unwrap();
    assert_eq!(ts.identifier, "Atlas");
    assert_eq!(ts.rel_path, "a.png");
    assert_eq!(ts.tile_grid_size, 16);
}

#[test]
fn malformed_document_reports_position() {
    let err = Project::from_json_text(String::from("root.ldtk"), "{ not json").unwrap_err();
    match err {
        LoadError::MalformedDocument { line, .. } => assert_eq!(line, 1),
        other => panic!("expected malformed document, got {:?}", other),
    }
}

#[test]
fn unknown_keys_are_tolerated_and_retained() {
    let doc = r##"{"identifier":"L","uid":0,"worldX":0,"worldY":0,"pxWid":16,"pxHei":16,
        "__bgColor":"#000000","layerInstances":[],"iid":"abc-123","worldDepth":2}"##;
    let level = Level::from_json_text(doc).unwrap();
    assert_eq!(level.extras.len(), 2);
    assert_eq!(level.extras[0].0, "iid");
    assert_eq!(level.extras[0].1, Json::Str(String::from("abc-123")));
    assert_eq!(level.extras[1].0, "worldDepth");
    assert_eq!(level.extras[1].1, Json::Num(String::from("2")));
}

#[test]
fn decode_is_all_or_nothing() {
    // the first level is fine; the second omits pxHei: the whole decode fails
    let levels = r##"[{"identifier":"A","uid":0,"worldX":0,"worldY":0,"pxWid":16,"pxHei":16,
        "__bgColor":"#000000","layerInstances":[]},
        {"identifier":"B","uid":1,"worldX":0,"worldY":0,"pxWid":16,
        "__bgColor":"#000000","layerInstances":[]}]"##;
    let doc = root_doc(levels);
    let err = Project::from_json_text(String::from("root.ldtk"), &doc).unwrap_err();
    let e = match err {
        LoadError::SchemaMismatch(e) => e,
        other => panic!("expected a schema mismatch, got {:?}", other),
    };
    assert_eq!(e.kind, MismatchKind::MissingField);
    assert_eq!(e.path_string(), "levels.1.pxHei");
}

#[test]
fn non_canonical_integer_is_refused() {
    let cases = [
        r##"{"identifier":"L","uid":3.5,"worldX":0,"worldY":0,"pxWid":16,"pxHei":16,
        "__bgColor":"#000000","layerInstances":[]}"##,
        r##"{"identifier":"L","uid":007,"worldX":0,"worldY":0,"pxWid":16,"pxHei":16,
        "__bgColor":"#000000","layerInstances":[]}"##,
        r##"{"identifier":"L","uid":99999999999999999999,"worldX":0,"worldY":0,"pxWid":16,
        "pxHei":16,"__bgColor":"#000000","layerInstances":[]}"##,
    ];
    for (n, doc) in cases.iter().enumerate() {
        match Level::from_json_text(doc) {
            Err(LoadError::SchemaMismatch(e)) => {
                assert_eq!(e.kind, MismatchKind::IntOutOfRange, "case {}", n);
                assert!(e.path_ends_at("uid"));
            },
            Err(LoadError::MalformedDocument { .. }) => {
                // a leading zero is not even well-formed JSON
                assert_eq!(n, 1);
            },
            Ok(_) => panic!("case {} must be refused", n),
        }
    }
}

#[test]
fn wrong_kind_for_required_field_is_refused() {
    let doc = r##"{"identifier":"L","uid":"zero","worldX":0,"worldY":0,"pxWid":16,"pxHei":16,
        "__bgColor":"#000000","layerInstances":[]}"##;
    let err = Level::from_json_text(doc).unwrap_err();
    match err {
        LoadError::SchemaMismatch(e) => {
            assert_eq!(e.kind, MismatchKind::WrongKind);
            assert!(e.path_ends_at("uid"));
        },
        other => panic!("expected a schema mismatch, got {:?}", other),
    }
}
