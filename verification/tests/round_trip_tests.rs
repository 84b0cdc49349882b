use ldtk::levels::Level;
use ldtk::levels::TileInstance;
use ldtk::raw::json_to_text;
use ldtk::raw::parse_json_text;
use ldtk::levels::decode_tile;

// A level document exercising every field shape: required scalars, optional
// fields in all three states, nested arrays, number texts, and unknown keys.
fn sample_level_text() -> String {
    let mut s = String::new();
    s.push_str(r##"{"identifier":"Keep","uid":12,"worldX":-32,"worldY":640,"pxWid":256,"pxHei":128,"##);
    s.push_str(r##""__bgColor":"#696A79","bgColor":null,"iid":"f7c0-11","worldDepth":-1,"##);
    s.push_str(r##""layerInstances":[{"__identifier":"Walls","__type":"IntGrid","__cWid":2,"__cHei":2,"##);
    s.push_str(r##""__gridSize":16,"__opacity":0.75,"__pxTotalOffsetX":0,"__pxTotalOffsetY":-8,"##);
    s.push_str(r##""__tilesetDefUid":null,"levelId":12,"layerDefUid":3,"pxOffsetX":0,"pxOffsetY":0,"##);
    s.push_str(r##""intGrid":[{"coordId":0,"v":2,"color":"#FFFFFF"}],"autoLayerTiles":[],"seed":77,"##);
    s.push_str(r##""gridTiles":[{"px":[32,48],"src":[64,0],"f":3,"t":4,"d":[136],"a":1}],"##);
    s.push_str(r##""entityInstances":[{"__grid":[1,1],"__identifier":"Chest","__tile":{"srcRect":[0,0,16,16],"##);
    s.push_str(r##""tilesetUid":9},"defUid":41,"fieldInstances":[{"__identifier":"loot","__type":"String","##);
    s.push_str(r##""__value":{"kind":"gold","n":[1,2]},"defUid":8,"editor":true}],"px":[16,16]}]}]}"##);
    s
}

#[test]
fn level_round_trips_to_deep_equal_json() {
    let text = sample_level_text();
    let level = Level::from_json_text(&text).unwrap();
    let printed = level.to_json_text();
    let original: serde_json::Value = serde_json::from_str(&text).unwrap();
    let reprinted: serde_json::Value = serde_json::from_str(&printed).unwrap();
    assert_eq!(original, reprinted);
}

#[test]
fn tile_round_trips_to_deep_equal_json() {
    let text = r##"{"px":[32,48],"src":[64,0],"f":3,"t":-4,"d":[136,9],"flags":null}"##;
    let parsed = parse_json_text(text).unwrap();
    let tile: TileInstance = decode_tile(&parsed).unwrap();
    let printed = json_to_text(&tile.to_json());
    let original: serde_json::Value = serde_json::from_str(text).unwrap();
    let reprinted: serde_json::Value = serde_json::from_str(&printed).unwrap();
    assert_eq!(original, reprinted);
}

#[test]
fn encoding_is_not_the_input_text() {
    // entry order may change, values may not: the reprinted text differs from
    // the original only after the keys are reordered
    let text = sample_level_text();
    let level = Level::from_json_text(&text).unwrap();
    let printed = level.to_json_text();
    assert!(printed.contains("\"pxHei\":128"));
    assert!(printed.contains("\"__opacity\":0.75"));
    assert!(printed.contains("\"worldX\":-32"));
    assert!(printed.contains("\"iid\":\"f7c0-11\""));
}
