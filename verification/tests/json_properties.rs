use sky_render::tiled::color::TiledColor;
use sky_render::tiled::data::TiledLayerData;
use sky_render::tiled::error::TiledImportError;
use sky_render::tiled::parse::collect_tile_layers;
use sky_render::tiled::parse::layers_fit_check;
use sky_render::tiled::parse::ParsedLayers;
use sky_render::tiled::parse::TiledJsonLayer;
use sky_render::tiled::properties::collect_json_properties;
use sky_render::tiled::properties::collect_json_tile_properties;
use sky_render::tiled::properties::json_property_colors_split_cleanly;
use sky_render::tiled::properties::parse_json_property_value;
use sky_render::tiled::properties::JsonNumber;
use sky_render::tiled::properties::JsonProperty;
use sky_render::tiled::properties::JsonTileProperties;
use sky_render::tiled::properties::JsonValue;
use sky_render::tiled::properties::TiledPropertyValue;

fn number(text: &str, as_i64: Option<i64>, as_u64: Option<u64>) -> JsonValue {
    JsonValue::Number(JsonNumber { as_i64, as_u64, text: text.to_string() })
}

fn string(text: &str) -> JsonValue {
    JsonValue::String(text.to_string())
}

fn property(name: &str, value_type: Option<&str>, value: JsonValue) -> JsonProperty {
    JsonProperty { name: name.to_string(), value_type: value_type.map(str::to_string), value }
}

fn malformed<T: std::fmt::Debug>(r: Result<T, TiledImportError>) -> String {
    match r {
        Err(TiledImportError::MalformedMap(message)) => message,
        other => panic!("expected a malformed map error, got {other:?}"),
    }
}

#[test]
fn json_property_values_read_each_type() {
    assert!(matches!(
        parse_json_property_value("bool", &JsonValue::Bool(true)),
        Ok(TiledPropertyValue::Bool(true))
    ));
    assert!(matches!(
        parse_json_property_value("bool", &string("true")),
        Ok(TiledPropertyValue::Bool(false))
    ));
    assert!(matches!(
        parse_json_property_value("int", &number("-7", Some(-7), None)),
        Ok(TiledPropertyValue::Int(-7))
    ));
    assert!(matches!(
        parse_json_property_value("int", &number("4294967297", Some(4294967297), Some(4294967297))),
        Ok(TiledPropertyValue::Int(1))
    ));
    assert!(matches!(parse_json_property_value("int", &string("3")), Ok(TiledPropertyValue::Int(0))));
    assert!(matches!(
        parse_json_property_value("float", &number("2.5", None, None)),
        Ok(TiledPropertyValue::Float(t)) if t == "2.5"
    ));
    assert!(matches!(
        parse_json_property_value("float", &JsonValue::Null),
        Ok(TiledPropertyValue::Float(t)) if t == "0"
    ));
    assert!(matches!(
        parse_json_property_value("color", &string("#80ff0000")),
        Ok(TiledPropertyValue::Color(TiledColor { r: 255, g: 0, b: 0, a: 128 }))
    ));
    assert!(matches!(
        parse_json_property_value("file", &string("a.lua")),
        Ok(TiledPropertyValue::File(p)) if p == "a.lua"
    ));
    assert!(matches!(
        parse_json_property_value("object", &number("12", Some(12), Some(12))),
        Ok(TiledPropertyValue::Object(12))
    ));
    assert!(matches!(
        parse_json_property_value("object", &number("-1", Some(-1), None)),
        Ok(TiledPropertyValue::Object(0))
    ));
    assert!(matches!(
        parse_json_property_value("string", &string("gate")),
        Ok(TiledPropertyValue::String(s)) if s == "gate"
    ));
    assert!(matches!(
        parse_json_property_value("string", &JsonValue::Bool(false)),
        Ok(TiledPropertyValue::String(s)) if s == "false"
    ));
    assert!(matches!(
        parse_json_property_value("class", &JsonValue::Object("{\"a\":1}".to_string())),
        Ok(TiledPropertyValue::String(s)) if s == "{\"a\":1}"
    ));
}

#[test]
fn json_color_property_reports_bad_text() {
    assert_eq!(
        malformed(parse_json_property_value("color", &string("#12345"))),
        "property value `#12345` is not a valid color"
    );
    assert_eq!(
        malformed(parse_json_property_value("color", &JsonValue::Null)),
        "property value `` is not a valid color"
    );
}

#[test]
fn json_properties_default_to_string_and_keep_order() {
    let properties = vec![
        property("label", None, string("gate")),
        property("solid", Some("bool"), JsonValue::Bool(true)),
        property("count", Some("int"), number("3", Some(3), Some(3))),
    ];
    assert!(json_property_colors_split_cleanly(&properties));
    let read = collect_json_properties(&properties).unwrap();
    let names: Vec<&str> = read.iter().map(|p| p.name.as_str()).collect();
    assert_eq!(names, vec!["label", "solid", "count"]);
    assert!(matches!(&read[0].value, TiledPropertyValue::String(s) if s == "gate"));
    assert!(matches!(read[1].value, TiledPropertyValue::Bool(true)));
    assert!(matches!(read[2].value, TiledPropertyValue::Int(3)));

    let bad = vec![property("ok", None, string("x")), property("tint", Some("color"), string("zz"))];
    assert_eq!(malformed(collect_json_properties(&bad)), "property value `zz` is not a valid color");

    let split = vec![property("tint", Some("color"), string("1é122"))];
    assert!(!json_property_colors_split_cleanly(&split));
}

#[test]
fn json_tile_properties_are_indexed_by_tile_id() {
    let tiles = vec![
        JsonTileProperties { id: 3, properties: vec![property("solid", Some("bool"), JsonValue::Bool(true))] },
        JsonTileProperties { id: 1, properties: vec![] },
        JsonTileProperties { id: 0, properties: vec![property("trigger", Some("bool"), JsonValue::Bool(true))] },
    ];
    let table = collect_json_tile_properties(&tiles).unwrap();
    assert_eq!(table.len(), 4);
    assert_eq!(table[3][0].name, "solid");
    assert!(table[1].is_empty());
    assert!(table[2].is_empty());
    assert_eq!(table[0][0].name, "trigger");
}

fn layer(name: &str, layer_type: &str, properties: Vec<JsonProperty>) -> TiledJsonLayer {
    let tile = layer_type == "tilelayer";
    TiledJsonLayer {
        name: name.to_string(),
        layer_type: layer_type.to_string(),
        visible: true,
        x: 0,
        y: 0,
        width: if tile { Some(1) } else { None },
        height: if tile { Some(1) } else { None },
        data: if tile { Some(TiledLayerData::Array(vec![1])) } else { None },
        encoding: None,
        compression: None,
        chunks: vec![],
        layers: vec![],
        properties,
    }
}

#[test]
fn json_layer_properties_follow_their_layers() {
    let raws = vec![
        layer("ground", "tilelayer", vec![property("solid", Some("bool"), JsonValue::Bool(true))]),
        layer("things", "objectgroup", vec![property("trigger", Some("bool"), JsonValue::Bool(true))]),
        layer("top", "tilelayer", vec![]),
    ];
    assert!(layers_fit_check(&raws));
    let mut read = ParsedLayers::new();
    collect_tile_layers(&raws, true, &mut read).unwrap();
    assert_eq!(read.layers.len(), 2);
    assert_eq!(read.layer_properties.len(), 2);
    assert_eq!(read.layer_properties[0][0].name, "solid");
    assert!(read.layer_properties[1].is_empty());
    assert_eq!(read.object_layers.len(), 1);
    assert_eq!(read.object_properties[0][0].name, "trigger");

    let bad = vec![layer("ground", "tilelayer", vec![property("n", Some("color"), string("x"))])];
    let mut read = ParsedLayers::new();
    assert_eq!(
        malformed(collect_tile_layers(&bad, true, &mut read)),
        "property value `x` is not a valid color"
    );
}
