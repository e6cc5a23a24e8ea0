use base64::Engine;
use std::io::Write;

use sky_render::tiled::color::parse_tiled_color;
use sky_render::tiled::color::parse_transparent_color;
use sky_render::tiled::color::TiledColor;
use sky_render::tiled::data::decode_base64_gids;
use sky_render::tiled::data::decode_tmx_gids;
use sky_render::tiled::data::required_tile_gid;
use sky_render::tiled::data::TmxTileData;
use sky_render::tiled::data::decode_json_gids;
use sky_render::tiled::data::decode_little_endian_gids;
use sky_render::tiled::data::decompress_gzip;
use sky_render::tiled::data::decompress_zlib;
use sky_render::tiled::data::parse_csv_gids;
use sky_render::tiled::data::TiledLayerData;
use sky_render::tiled::error::Base64DecodeError;
use sky_render::tiled::error::TiledImportError;
use sky_render::tiled::grid::merge_grid;
use sky_render::tiled::grid::GridRect;
use sky_render::tiled::layer::decode_cell;
use sky_render::tiled::layer::gid_without_flags;
use sky_render::tiled::layer::split_layers_by_tileset;
use sky_render::tiled::layer::tile_flags_from_gid;
use sky_render::tiled::layer::tiled_depth_sort_for_layers;
use sky_render::tiled::layer::tilemap_bounds;
use sky_render::tiled::layer::tileset_index_for_gid;
use sky_render::tiled::layer::ParsedLayer;
use sky_render::tiled::layer::RawCell;
use sky_render::tiled::layer::TiledTileset;
use sky_render::tiled::parse::collect_layer_cells;
use sky_render::tiled::parse::collect_tile_layers;
use sky_render::tiled::parse::ParsedLayers;
use sky_render::tiled::parse::parse_orientation;
use sky_render::tiled::parse::parse_render_order;
use sky_render::tiled::parse::parse_stagger_axis;
use sky_render::tiled::parse::parse_stagger_index;
use sky_render::tiled::parse::renderer_stagger_index;
use sky_render::tiled::parse::TiledJsonChunk;
use sky_render::tiled::parse::TiledJsonLayer;
use sky_render::tilemap::types::TilemapDepthSort;
use sky_render::tilemap::types::TilemapOrientation;
use sky_render::tilemap::types::TilemapRenderOrder;
use sky_render::tilemap::types::TilemapStaggerAxis;
use sky_render::tilemap::types::TilemapStaggerIndex;
use sky_render::tilemap::types::TILE_FLIP_DIAGONAL;
use sky_render::tilemap::types::TILE_FLIP_X;
use sky_render::tilemap::types::TILE_FLIP_Y;

fn tileset(first_gid: u32, tile_count: u32) -> TiledTileset {
    TiledTileset {
        first_gid,
        image: "tiles.png".to_string(),
        tile_size: [16, 16],
        columns: 4,
        rows: 4,
        tile_count,
        image_size: [64, 64],
        margin: 0,
        spacing: 0,
        tile_rects: Vec::new(),
        tile_images: Vec::new(),
        tile_offset: [0, 0],
        animations: Vec::new(),
        transparent_color: None,
    }
}

fn le_bytes(gids: &[u32]) -> Vec<u8> {
    gids.iter().flat_map(|gid| gid.to_le_bytes()).collect()
}

fn base64_text(bytes: &[u8]) -> String {
    base64::engine::general_purpose::STANDARD.encode(bytes)
}

#[test]
fn csv_gids_split_on_commas_and_whitespace() {
    let gids = parse_csv_gids("1,2, 3\n4,,\t5\u{a0}6", "ground").unwrap();
    assert_eq!(gids, vec![1, 2, 3, 4, 5, 6]);
    assert_eq!(parse_csv_gids(" ,\n", "ground").unwrap(), Vec::<u32>::new());
    assert_eq!(parse_csv_gids("+7,4294967295", "ground").unwrap(), vec![7, u32::MAX]);
}

#[test]
fn csv_gids_report_the_first_invalid_part() {
    match parse_csv_gids("1,x2,-3", "ground") {
        Err(TiledImportError::MalformedMap(message)) => assert_eq!(
            message,
            "layer `ground` contains an invalid CSV gid `x2`"
        ),
        other => panic!("unexpected {other:?}"),
    }
    assert!(matches!(
        parse_csv_gids("4294967296", "ground"),
        Err(TiledImportError::MalformedMap(_))
    ));
}

#[test]
fn little_endian_gids_need_whole_words() {
    assert_eq!(
        decode_little_endian_gids(&[1, 0, 0, 0, 0x78, 0x56, 0x34, 0x12], "l").unwrap(),
        vec![1, 0x1234_5678]
    );
    match decode_little_endian_gids(&[1, 2, 3], "l") {
        Err(TiledImportError::UnsupportedLayerData { layer, reason }) => {
            assert_eq!(layer, "l");
            assert_eq!(reason, "base64 tile data byte length must be divisible by 4");
        }
        other => panic!("unexpected {other:?}"),
    }
}

#[test]
fn base64_gids_decode_plain_zlib_and_gzip_data() {
    let gids = [1u32, 2, 0x8000_0003, 0];
    let raw = le_bytes(&gids);
    let text = format!(" {}\n", base64_text(&raw));
    assert_eq!(decode_base64_gids(&text, None, "l").unwrap(), gids.to_vec());
    assert_eq!(decode_base64_gids(&text, Some(""), "l").unwrap(), gids.to_vec());

    let mut zlib = flate2::write::ZlibEncoder::new(Vec::new(), flate2::Compression::default());
    zlib.write_all(&raw).unwrap();
    let zlib = zlib.finish().unwrap();
    assert_eq!(decompress_zlib(&zlib, "l").unwrap(), raw);
    assert_eq!(
        decode_base64_gids(&base64_text(&zlib), Some("zlib"), "l").unwrap(),
        gids.to_vec()
    );

    let mut gzip = flate2::write::GzEncoder::new(Vec::new(), flate2::Compression::default());
    gzip.write_all(&raw).unwrap();
    let gzip = gzip.finish().unwrap();
    assert_eq!(decompress_gzip(&gzip, "l").unwrap(), raw);
    assert_eq!(
        decode_base64_gids(&base64_text(&gzip), Some("gzip"), "l").unwrap(),
        gids.to_vec()
    );
}

#[test]
fn base64_gids_report_each_failure() {
    assert!(matches!(
        decode_base64_gids("AQ*A", None, "l"),
        Err(TiledImportError::DecodeLayerData {
            source: Base64DecodeError::InvalidByte(2, b'*'),
            ..
        })
    ));
    let text = base64_text(&le_bytes(&[1]));
    assert!(matches!(
        decode_base64_gids(&text, Some("zstd"), "l"),
        Err(TiledImportError::UnsupportedLayerData {
            reason: "only zlib and gzip compressed tile data are supported",
            ..
        })
    ));
    assert!(matches!(
        decode_base64_gids(&text, Some("zlib"), "l"),
        Err(TiledImportError::InflateLayerData { .. })
    ));
    assert!(matches!(
        decode_base64_gids(&base64_text(&[1, 2, 3]), None, "l"),
        Err(TiledImportError::UnsupportedLayerData { .. })
    ));
}

#[test]
fn json_gids_follow_the_layer_encoding() {
    let array = TiledLayerData::Array(vec![3, 4]);
    assert_eq!(decode_json_gids(&array, "l", None, None).unwrap(), vec![3, 4]);
    let csv = TiledLayerData::Encoded("5,6".to_string());
    assert_eq!(decode_json_gids(&csv, "l", Some("csv"), None).unwrap(), vec![5, 6]);
    let b64 = TiledLayerData::Encoded(base64_text(&le_bytes(&[9])));
    assert_eq!(decode_json_gids(&b64, "l", Some("base64"), None).unwrap(), vec![9]);
    assert!(matches!(
        decode_json_gids(&csv, "l", None, None),
        Err(TiledImportError::UnsupportedLayerData {
            reason: "encoded JSON tile data requires encoding `csv` or `base64`",
            ..
        })
    ));
}

#[test]
fn map_attributes_parse_tiled_names() {
    assert_eq!(
        parse_orientation("isometric").unwrap(),
        TilemapOrientation::Isometric
    );
    match parse_orientation("cubic") {
        Err(TiledImportError::UnsupportedOrientation(value)) => assert_eq!(value, "cubic"),
        other => panic!("unexpected {other:?}"),
    }
    assert_eq!(parse_stagger_axis("y").unwrap(), TilemapStaggerAxis::Y);
    assert!(parse_stagger_axis("z").is_err());
    assert_eq!(parse_stagger_index("even").unwrap(), TilemapStaggerIndex::Even);
    assert!(parse_stagger_index("").is_err());
    assert_eq!(parse_render_order("left-up").unwrap(), TilemapRenderOrder::LeftUp);
    assert!(matches!(
        parse_render_order(""),
        Err(TiledImportError::UnsupportedLayerData {
            reason: "renderorder is empty",
            ..
        })
    ));
    assert!(matches!(
        parse_render_order("up"),
        Err(TiledImportError::UnsupportedLayerData {
            reason: "unsupported renderorder; expected right-down, right-up, left-down, or left-up",
            ..
        })
    ));
}

#[test]
fn renderer_stagger_index_flips_on_odd_origin() {
    assert_eq!(
        renderer_stagger_index(
            TilemapOrientation::Orthogonal,
            TilemapStaggerAxis::Y,
            TilemapStaggerIndex::Odd,
            [0, 0],
            4
        ),
        TilemapStaggerIndex::Odd
    );
    assert_eq!(
        renderer_stagger_index(
            TilemapOrientation::Staggered,
            TilemapStaggerAxis::Y,
            TilemapStaggerIndex::Odd,
            [0, 0],
            4
        ),
        TilemapStaggerIndex::Even
    );
    assert_eq!(
        renderer_stagger_index(
            TilemapOrientation::Hexagonal,
            TilemapStaggerAxis::X,
            TilemapStaggerIndex::Even,
            [-3, 0],
            4
        ),
        TilemapStaggerIndex::Odd
    );
}

#[test]
fn gid_flags_and_tilesets() {
    assert_eq!(gid_without_flags(0xF000_0005), 5);
    assert_eq!(
        tile_flags_from_gid(0xE000_0001).bits,
        TILE_FLIP_X | TILE_FLIP_Y | TILE_FLIP_DIAGONAL
    );
    assert_eq!(tile_flags_from_gid(0x4000_0001).bits, TILE_FLIP_Y);
    let tilesets = vec![tileset(1, 4), tileset(5, 2)];
    assert_eq!(tileset_index_for_gid(6, &tilesets).unwrap(), 1);
    assert!(matches!(
        tileset_index_for_gid(7, &tilesets),
        Err(TiledImportError::TileGidOutOfRange { gid: 7 })
    ));
}

#[test]
fn decode_cell_flips_rows_and_swaps_isometric_axes() {
    let ts = tileset(1, 4);
    let cell = RawCell {
        x: 1,
        y: 0,
        gid: 0x8000_0002,
    };
    let (tile, x, y) = decode_cell(cell, &ts, TilemapOrientation::Orthogonal, (0, 0), 3, 2)
        .unwrap()
        .unwrap();
    assert_eq!(tile.id.0, 1);
    assert_eq!(tile.flags.bits, TILE_FLIP_X);
    assert_eq!((x, y), (1, 1));
    let (_, x, y) = decode_cell(cell, &ts, TilemapOrientation::Isometric, (0, 0), 3, 2)
        .unwrap()
        .unwrap();
    assert_eq!((x, y), (1, 1));
    let empty = RawCell { x: 0, y: 0, gid: 0 };
    assert!(decode_cell(empty, &ts, TilemapOrientation::Orthogonal, (0, 0), 3, 2)
        .unwrap()
        .is_none());
    let outside = RawCell { x: 0, y: 0, gid: 9 };
    assert!(matches!(
        decode_cell(outside, &ts, TilemapOrientation::Orthogonal, (0, 0), 3, 2),
        Err(TiledImportError::TileGidOutOfRange { gid: 9 })
    ));
}

fn layer(name: &str, cells: Vec<RawCell>) -> ParsedLayer {
    ParsedLayer {
        name: name.to_string(),
        source_order: 0,
        visible: true,
        cells,
    }
}

#[test]
fn bounds_of_finite_and_infinite_maps() {
    let layers = vec![
        layer(
            "a",
            vec![RawCell { x: -2, y: 5, gid: 1 }, RawCell { x: 3, y: 7, gid: 1 }],
        ),
        layer("b", vec![RawCell { x: 0, y: 4, gid: 1 }]),
    ];
    assert_eq!(tilemap_bounds(false, 0, 9, &layers), ((0, 0), 1, 9));
    assert_eq!(tilemap_bounds(true, 0, 0, &layers), ((-2, 4), 6, 4));
    assert_eq!(tilemap_bounds(true, 3, 3, &Vec::new()), ((0, 0), 1, 1));
}

#[test]
fn layers_split_by_tileset_in_tileset_order() {
    let tilesets = vec![tileset(1, 4), tileset(5, 4)];
    let layers = vec![
        layer(
            "ground",
            vec![
                RawCell { x: 0, y: 0, gid: 6 },
                RawCell { x: 1, y: 0, gid: 0 },
                RawCell { x: 2, y: 0, gid: 0x8000_0002 },
            ],
        ),
        layer("top", vec![RawCell { x: 0, y: 0, gid: 3 }]),
    ];
    let splits = split_layers_by_tileset(&layers, &tilesets).unwrap();
    let summary: Vec<(usize, usize, usize, usize)> = splits
        .iter()
        .map(|s| (s.source_layer, s.tileset_index, s.split_order, s.cells.len()))
        .collect();
    assert_eq!(summary, vec![(0, 0, 0, 1), (0, 1, 1, 1), (1, 0, 0, 1)]);
    assert_eq!(splits[0].cells[0].x, 2);

    let bad = vec![layer("bad", vec![RawCell { x: 0, y: 0, gid: 20 }])];
    assert!(matches!(
        split_layers_by_tileset(&bad, &tilesets),
        Err(TiledImportError::TileGidOutOfRange { gid: 20 })
    ));
}

#[test]
fn overhanging_tilesets_sort_cell_by_cell() {
    let mut tall = tileset(1, 4);
    tall.tile_size = [16, 32];
    let tilesets = vec![tileset(1, 4), tall];
    assert_eq!(
        tiled_depth_sort_for_layers(TilemapOrientation::Orthogonal, [16, 16], &tilesets, 2),
        TilemapDepthSort::YThenLayer
    );
    assert_eq!(
        tiled_depth_sort_for_layers(TilemapOrientation::Orthogonal, [16, 16], &tilesets, 1),
        TilemapDepthSort::Layer
    );
    assert_eq!(
        tiled_depth_sort_for_layers(TilemapOrientation::Isometric, [16, 16], &tilesets, 2),
        TilemapDepthSort::Layer
    );
}

#[test]
fn layer_cells_come_from_chunks_or_data() {
    let finite = TiledJsonLayer {
        name: "ground".to_string(),
        layer_type: "tilelayer".to_string(),
        visible: true,
        x: 1,
        y: 2,
        width: Some(2),
        height: Some(2),
        data: Some(TiledLayerData::Array(vec![1, 2, 3, 4])),
        encoding: None,
        compression: None,
        chunks: Vec::new(),
        layers: Vec::new(),
        properties: Vec::new(),
    };
    let cells = collect_layer_cells(&finite).unwrap();
    assert_eq!(cells.len(), 4);
    assert_eq!((cells[3].x, cells[3].y, cells[3].gid), (2, 3, 4));

    let chunked = TiledJsonLayer {
        name: "inf".to_string(),
        layer_type: "tilelayer".to_string(),
        visible: true,
        x: 0,
        y: 0,
        width: None,
        height: None,
        data: None,
        encoding: Some("csv".to_string()),
        compression: None,
        chunks: vec![TiledJsonChunk {
            x: -16,
            y: 0,
            width: 2,
            height: 1,
            data: TiledLayerData::Encoded("7,8".to_string()),
            encoding: None,
            compression: None,
        }],
        layers: Vec::new(),
        properties: Vec::new(),
    };
    let cells = collect_layer_cells(&chunked).unwrap();
    assert_eq!((cells[1].x, cells[1].y, cells[1].gid), (-15, 0, 8));

    let short = TiledJsonLayer {
        data: Some(TiledLayerData::Array(vec![1])),
        ..finite
    };
    assert!(matches!(
        collect_layer_cells(&short),
        Err(TiledImportError::UnsupportedLayerData {
            reason: "tile data length does not match width * height",
            ..
        })
    ));
}

#[test]
fn merged_grid_covers_set_cells_with_greedy_rectangles() {
    let grid = [
        true, true, false, //
        true, true, true, //
        false, false, true,
    ];
    let rects = merge_grid(&grid, 3, 3);
    assert_eq!(
        rects,
        vec![
            GridRect {
                x: 0,
                y: 0,
                width: 2,
                height: 2
            },
            GridRect {
                x: 2,
                y: 1,
                width: 1,
                height: 2
            },
        ]
    );
    assert!(merge_grid(&[false; 4], 2, 2).is_empty());
}

fn malformed_message(r: Result<Option<[u8; 3]>, TiledImportError>) -> String {
    match r {
        Err(TiledImportError::MalformedMap(m)) => m,
        other => panic!("expected a malformed-map error, got {:?}", other),
    }
}

#[test]
fn transparent_color_trims_whitespace_and_hashes() {
    assert_eq!(parse_transparent_color(None).unwrap(), None);
    assert_eq!(parse_transparent_color(Some(" #ff00FF\n")).unwrap(), Some([255, 0, 255]));
    assert_eq!(parse_transparent_color(Some("##102030")).unwrap(), Some([16, 32, 48]));
    assert_eq!(parse_transparent_color(Some("+f+a09")).unwrap(), Some([15, 10, 9]));
}

#[test]
fn transparent_color_reports_length_and_digit_errors() {
    assert_eq!(
        malformed_message(parse_transparent_color(Some(" #abc "))),
        "transparent color `abc` must be a 6-digit RGB hex value"
    );
    assert_eq!(
        malformed_message(parse_transparent_color(Some("gg0000"))),
        "transparent color `gg0000` is invalid"
    );
    assert_eq!(
        malformed_message(parse_transparent_color(Some("00-100"))),
        "transparent color `00-100` is invalid"
    );
    assert_eq!(
        malformed_message(parse_transparent_color(Some("éé00"))),
        "transparent color `éé00` is invalid"
    );
}

#[test]
fn color_properties_read_rgb_and_argb() {
    assert_eq!(parse_tiled_color("#ff8000").unwrap(), TiledColor { r: 255, g: 128, b: 0, a: 255 });
    assert_eq!(parse_tiled_color("80102030").unwrap(), TiledColor { r: 16, g: 32, b: 48, a: 128 });
    assert_eq!(parse_tiled_color("#zz102030").unwrap(), TiledColor { r: 16, g: 32, b: 48, a: 255 });
    for bad in ["#12345", "##123456", "#1234567", "#12x456", ""] {
        match parse_tiled_color(bad) {
            Err(TiledImportError::MalformedMap(m)) => {
                assert_eq!(m, format!("property value `{bad}` is not a valid color"))
            }
            other => panic!("{bad} gave {:?}", other),
        }
    }
}

fn json_layer(name: &str, layer_type: &str, visible: bool, gids: Vec<u32>, children: Vec<TiledJsonLayer>) -> TiledJsonLayer {
    let n = gids.len() as u32;
    TiledJsonLayer {
        name: name.to_string(),
        layer_type: layer_type.to_string(),
        visible,
        x: 0,
        y: 0,
        width: Some(n),
        height: Some(1),
        data: if layer_type == "tilelayer" { Some(TiledLayerData::Array(gids)) } else { None },
        encoding: None,
        compression: None,
        chunks: Vec::new(),
        layers: children,
        properties: Vec::new(),
    }
}

#[test]
fn tile_layers_are_numbered_through_groups() {
    let raws = vec![
        json_layer("back", "tilelayer", true, vec![1, 2], Vec::new()),
        json_layer("picture", "imagelayer", true, Vec::new(), Vec::new()),
        json_layer(
            "hidden group",
            "group",
            false,
            Vec::new(),
            vec![
                json_layer("inner", "tilelayer", true, vec![3], Vec::new()),
                json_layer("spawns", "objectgroup", true, Vec::new(), Vec::new()),
            ],
        ),
        json_layer("front", "tilelayer", true, vec![4], Vec::new()),
    ];
    let mut acc = ParsedLayers::new();
    collect_tile_layers(&raws, true, &mut acc).unwrap();
    assert_eq!(acc.order, 5);
    assert_eq!(acc.layer_properties.len(), 3);
    assert_eq!(acc.object_properties.len(), 1);
    let objects = acc.object_layers;
    let summary: Vec<(String, i32, bool, usize)> = acc
        .layers
        .iter()
        .map(|l| (l.name.clone(), l.source_order, l.visible, l.cells.len()))
        .collect();
    assert_eq!(
        summary,
        vec![
            ("back".to_string(), 0, true, 2),
            ("inner".to_string(), 2, false, 1),
            ("front".to_string(), 4, true, 1),
        ]
    );
    assert_eq!(objects.len(), 1);
    assert_eq!((objects[0].name.as_str(), objects[0].source_order, objects[0].visible), ("spawns", 3, false));
}

#[test]
fn tile_layer_errors_stop_the_walk() {
    let mut bad = json_layer("broken", "tilelayer", true, vec![1], Vec::new());
    bad.width = Some(2);
    let raws = vec![json_layer("group", "group", true, Vec::new(), vec![bad])];
    let mut acc = ParsedLayers::new();
    acc.order = i32::MAX;
    match collect_tile_layers(&raws, true, &mut acc) {
        Err(TiledImportError::UnsupportedLayerData { layer, reason }) => {
            assert_eq!(layer, "broken");
            assert_eq!(reason, "tile data length does not match width * height");
        }
        other => panic!("unexpected {other:?}"),
    }

    let mut acc = ParsedLayers::new();
    acc.order = i32::MAX;
    let raws = vec![json_layer("a", "tilelayer", true, vec![1], Vec::new())];
    collect_tile_layers(&raws, true, &mut acc).unwrap();
    assert_eq!((acc.layers[0].source_order, acc.order), (i32::MAX, i32::MAX));
}

fn tmx_data(text: Option<&str>, gids: &[Option<&str>]) -> TmxTileData {
    TmxTileData {
        text: text.map(str::to_string),
        tile_gids: gids.iter().map(|g| g.map(str::to_string)).collect(),
    }
}

fn malformed(r: Result<Vec<u32>, TiledImportError>) -> String {
    match r {
        Err(TiledImportError::MalformedMap(m)) => m,
        other => panic!("unexpected {other:?}"),
    }
}

fn unsupported_reason(r: Result<Vec<u32>, TiledImportError>) -> (String, &'static str) {
    match r {
        Err(TiledImportError::UnsupportedLayerData { layer, reason }) => (layer, reason),
        other => panic!("unexpected {other:?}"),
    }
}

#[test]
fn tmx_gids_come_from_text_or_tile_elements() {
    let csv = tmx_data(Some("\n1,2,\n3,4\n"), &[]);
    assert_eq!(decode_tmx_gids(&csv, "Ground", 4, Some("csv"), None).unwrap(), vec![1, 2, 3, 4]);
    let tiles = tmx_data(None, &[Some("5"), Some("+6"), Some("0")]);
    assert_eq!(decode_tmx_gids(&tiles, "Ground", 3, None, None).unwrap(), vec![5, 6, 0]);
    let empty = tmx_data(None, &[]);
    assert_eq!(decode_tmx_gids(&empty, "Ground", 0, Some("csv"), None).unwrap(), Vec::<u32>::new());
    assert_eq!(required_tile_gid(Some("42")).unwrap(), 42);
}

#[test]
fn tmx_gids_report_each_failure() {
    assert_eq!(
        malformed(decode_tmx_gids(&tmx_data(None, &[Some("1"), None]), "L", 2, None, None)),
        "<tile> is missing required `gid` attribute"
    );
    assert_eq!(
        malformed(decode_tmx_gids(&tmx_data(None, &[Some("x1"), None]), "L", 2, None, None)),
        "<tile> has invalid `gid` attribute `x1`"
    );
    assert_eq!(
        unsupported_reason(decode_tmx_gids(&tmx_data(Some("1"), &[]), "L", 1, Some("xml"), None)),
        ("L".to_string(), "only CSV and base64 TMX tile data are supported")
    );
    assert_eq!(
        unsupported_reason(decode_tmx_gids(&tmx_data(None, &[]), "L", 0, None, Some("zlib"))),
        ("L".to_string(), "compressed tile data requires base64 encoding")
    );
    assert_eq!(
        unsupported_reason(decode_tmx_gids(&tmx_data(Some("1,2"), &[]), "L", 3, Some("csv"), None)),
        ("L".to_string(), "tile data length does not match width * height")
    );
    match required_tile_gid(Some("-1")) {
        Err(TiledImportError::MalformedMap(m)) => assert_eq!(m, "<tile> has invalid `gid` attribute `-1`"),
        other => panic!("unexpected {other:?}"),
    }
}
