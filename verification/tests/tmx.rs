use sky_render::text::is_number_text;
use sky_render::text::parse_i32;
use sky_render::tiled::collection::tmx_image_collection_image_to_measure;
use sky_render::tiled::error::TiledImportError;
use sky_render::tiled::import::from_parts;
use sky_render::tiled::import::ParsedMap;
use sky_render::tiled::color::TiledColor;
use sky_render::tiled::layer::TiledTileset;
use sky_render::tiled::properties::collect_tmx_properties;
use sky_render::tiled::properties::collect_tmx_tile_properties;
use sky_render::tiled::properties::property_colors_split_cleanly_check;
use sky_render::tiled::properties::TiledPropertyValue;
use sky_render::tiled::tileset::build_tileset;
use sky_render::tiled::tmx::read_tmx_header;
use sky_render::tiled::tmx::read_tmx_layers;
use sky_render::tiled::tmx::tmx_blocks_fit;
use sky_render::tiled::tmx_tileset::build_tmx_image_collection_tileset;
use sky_render::tiled::tmx_tileset::external_tileset_root;
use sky_render::tiled::tmx_tileset::read_tmx_collection;
use sky_render::tiled::tmx_tileset::read_tmx_image_tileset;
use sky_render::tiled::tmx_tileset::read_tmx_tileset_ref;
use sky_render::tiled::tmx_tileset::TmxTilesetRef;
use sky_render::tiled::xml::child_elements;
use sky_render::tiled::xml::first_child_element;
use sky_render::tiled::xml::parse_xml;
use sky_render::tiled::xml::XmlNode;
use sky_render::tilemap::types::TileId;
use sky_render::tilemap::types::TilemapDepthSort;
use sky_render::tilemap::types::TilemapOrientation;
use sky_render::tilemap::types::TilemapRenderOrder;
use sky_render::tilemap::types::TilemapStaggerAxis;
use sky_render::tilemap::types::TilemapStaggerIndex;
use sky_render::tilemap::types::TilesetTileRect;

const MAP: &str = r#"<?xml version="1.0" encoding="UTF-8"?>
<map version="1.10" orientation="orthogonal" renderorder="right-down" width="2" height="2" tilewidth="16" tileheight="16" infinite="0" parallaxoriginx="0.5">
 <tileset firstgid="1" name="ground" tilewidth="16" tileheight="16" tilecount="4" columns="2">
  <tileoffset x="2" y="-3"/>
  <image source="tiles.png" width="32" height="32" trans="ff00ff"/>
  <tile id="1">
   <animation>
    <frame tileid="1" duration="100"/>
    <frame tileid="2" duration="50"/>
   </animation>
  </tile>
 </tileset>
 <layer id="1" name="Ground" width="2" height="2" opacity="0.75">
  <data encoding="csv">1,2,
3,4</data>
 </layer>
 <group name="Hidden" visible="0">
  <layer name="Inner" width="1" height="1" visible="oops"><data><tile gid="3"/></data></layer>
  <objectgroup name="Things"/>
 </group>
 <imagelayer name="Sky"/>
 <objectgroup/>
</map>
"#;

fn nodes_of(text: &str) -> Vec<XmlNode> {
    parse_xml(text).expect("the document should parse")
}

fn malformed_message<T: std::fmt::Debug>(r: Result<T, TiledImportError>) -> String {
    match r {
        Err(TiledImportError::MalformedMap(m)) => m,
        other => panic!("expected a malformed map error, got {other:?}"),
    }
}

fn map_with_layer(layer: &str) -> String {
    format!(
        r#"<map orientation="orthogonal" width="2" height="2" tilewidth="8" tileheight="8">{layer}</map>"#
    )
}

#[test]
fn tmx_header_reads_map_attributes_and_defaults() {
    let nodes = nodes_of(MAP);
    let header = read_tmx_header(&nodes).unwrap();
    assert_eq!(nodes[header.root].tag, "map");
    assert_eq!(header.orientation, TilemapOrientation::Orthogonal);
    assert_eq!(header.stagger_axis, TilemapStaggerAxis::Y);
    assert_eq!(header.stagger_index, TilemapStaggerIndex::Odd);
    assert_eq!(header.render_order, TilemapRenderOrder::RightDown);
    assert_eq!((header.width, header.height), (2, 2));
    assert_eq!((header.tile_width, header.tile_height), (16, 16));
    assert_eq!(header.hex_side_length, 0);
    assert!(!header.infinite);
}

#[test]
fn tmx_header_rejects_other_roots_and_bad_attributes() {
    let nodes = nodes_of("<tileset firstgid=\"1\"/>");
    assert_eq!(malformed_message(read_tmx_header(&nodes)), "TMX root element must be <map>");

    let nodes = nodes_of(r#"<map orientation="orthogonal" width="2" tilewidth="8" tileheight="8"/>"#);
    assert_eq!(
        malformed_message(read_tmx_header(&nodes)),
        "<map> is missing required `height` attribute"
    );

    let nodes = nodes_of(r#"<map orientation="orthogonal" width="-2" height="2" tilewidth="8" tileheight="8"/>"#);
    assert_eq!(
        malformed_message(read_tmx_header(&nodes)),
        "<map> has invalid `width` attribute `-2`"
    );

    let nodes = nodes_of(r#"<map orientation="octagonal" width="2" height="2" tilewidth="8" tileheight="8"/>"#);
    match read_tmx_header(&nodes) {
        Err(TiledImportError::UnsupportedOrientation(o)) => assert_eq!(o, "octagonal"),
        other => panic!("unexpected {other:?}"),
    }

    let nodes = nodes_of(r#"<map orientation="staggered" staggeraxis="z" width="2" height="2" tilewidth="8" tileheight="8"/>"#);
    match read_tmx_header(&nodes) {
        Err(TiledImportError::UnsupportedLayerData { layer, reason }) => {
            assert_eq!(layer, "map");
            assert_eq!(reason, "unsupported staggeraxis; expected x or y");
        }
        other => panic!("unexpected {other:?}"),
    }

    let nodes = nodes_of(r#"<map orientation="orthogonal" width="2" height="2" tilewidth="8" tileheight="8" parallaxoriginx="left"/>"#);
    assert_eq!(
        malformed_message(read_tmx_header(&nodes)),
        "<map> has invalid `parallaxoriginx` attribute `left`"
    );
}

#[test]
fn tmx_rejects_text_that_is_not_xml() {
    match parse_xml("<map><layer></map>") {
        Err(error) => {
            assert!(matches!(error, TiledImportError::Xml(_)));
            assert!(error.message().starts_with("failed to parse Tiled TMX: "));
        }
        Ok(_) => panic!("mismatched tags must not parse"),
    }
}

#[test]
fn tmx_layers_walk_groups_in_document_order() {
    let nodes = nodes_of(MAP);
    assert!(tmx_blocks_fit(&nodes));
    let header = read_tmx_header(&nodes).unwrap();
    let read = read_tmx_layers(&nodes, header.root).unwrap();
    let layers = read.layers;
    let objects = read.object_layers;

    assert_eq!(layers.len(), 2);
    assert_eq!(layers[0].name, "Ground");
    assert_eq!(layers[0].source_order, 0);
    assert!(layers[0].visible);
    let cells: Vec<(i32, i32, u32)> = layers[0].cells.iter().map(|c| (c.x, c.y, c.gid)).collect();
    assert_eq!(cells, vec![(0, 0, 1), (1, 0, 2), (0, 1, 3), (1, 1, 4)]);

    // Inside an invisible group the layer's own `visible` is not read.
    assert_eq!(layers[1].name, "Inner");
    assert_eq!(layers[1].source_order, 1);
    assert!(!layers[1].visible);
    assert_eq!(layers[1].cells.len(), 1);
    assert_eq!(layers[1].cells[0].gid, 3);

    let objects: Vec<(String, i32, bool)> =
        objects.into_iter().map(|o| (o.name, o.source_order, o.visible)).collect();
    assert_eq!(
        objects,
        vec![("Things".to_string(), 2, false), ("Object Layer".to_string(), 4, true)]
    );
}

#[test]
fn tmx_layers_read_chunks_of_infinite_maps() {
    let text = map_with_layer(
        r#"<layer name="Far" width="4" height="4"><data encoding="csv"><chunk x="-16" y="2" width="2" height="1">5,0</chunk><chunk x="0" y="0" width="1" height="1">7</chunk></data></layer>"#,
    );
    let nodes = nodes_of(&text);
    let header = read_tmx_header(&nodes).unwrap();
    let layers = read_tmx_layers(&nodes, header.root).unwrap().layers;
    let cells: Vec<(i32, i32, u32)> = layers[0].cells.iter().map(|c| (c.x, c.y, c.gid)).collect();
    assert_eq!(cells, vec![(-16, 2, 5), (-15, 2, 0), (0, 0, 7)]);
}

#[test]
fn tmx_layers_report_each_failure() {
    let layers_of = |layer: &str| {
        let nodes = nodes_of(&map_with_layer(layer));
        let header = read_tmx_header(&nodes).unwrap();
        read_tmx_layers(&nodes, header.root)
    };
    assert_eq!(
        malformed_message(layers_of(r#"<layer height="1"><data encoding="csv">1</data></layer>"#)),
        "<layer> is missing required `width` attribute"
    );
    assert_eq!(
        malformed_message(layers_of(r#"<layer width="1" height="1" visible="maybe"><data encoding="csv">1</data></layer>"#)),
        "<layer> has invalid `visible` attribute `maybe`"
    );
    assert_eq!(
        malformed_message(layers_of(r#"<layer width="1" height="1" opacity="half"><data encoding="csv">1</data></layer>"#)),
        "<layer> has invalid `opacity` attribute `half`"
    );
    assert_eq!(
        malformed_message(layers_of(r#"<layer width="1" height="1"><data encoding="csv"><chunk y="0" width="1" height="1">1</chunk></data></layer>"#)),
        "<chunk> is missing required `x` attribute"
    );
    match layers_of(r#"<layer name="Bare" width="1" height="1"/>"#) {
        Err(TiledImportError::UnsupportedLayerData { layer, reason }) => {
            assert_eq!(layer, "Bare");
            assert_eq!(reason, "tile layer is missing <data>");
        }
        other => panic!("unexpected {other:?}"),
    }
    match layers_of(r#"<layer width="2" height="1"><data encoding="csv">1</data></layer>"#) {
        Err(TiledImportError::UnsupportedLayerData { layer, reason }) => {
            assert_eq!(layer, "Tile Layer");
            assert_eq!(reason, "tile data length does not match width * height");
        }
        other => panic!("unexpected {other:?}"),
    }
}

#[test]
fn tmx_blocks_that_overflow_are_detected() {
    let nodes = nodes_of(&map_with_layer(
        r#"<layer width="70000" height="70000"><data encoding="csv"/></layer>"#,
    ));
    assert!(!tmx_blocks_fit(&nodes));
    let nodes = nodes_of(&map_with_layer(
        r#"<layer x="2147483647" width="1" height="1"><data encoding="csv">1</data></layer>"#,
    ));
    assert!(!tmx_blocks_fit(&nodes));
}

#[test]
fn tmx_single_image_tileset_fields() {
    let nodes = nodes_of(MAP);
    let header = read_tmx_header(&nodes).unwrap();
    let tilesets = child_elements(&nodes, header.root, "tileset");
    assert_eq!(tilesets.len(), 1);
    let t = tilesets[0];
    match read_tmx_tileset_ref(&nodes, t).unwrap() {
        TmxTilesetRef::Embedded { first_gid, node } => {
            assert_eq!(first_gid, 1);
            assert_eq!(node, t);
        }
        other => panic!("unexpected {other:?}"),
    }
    let image = first_child_element(&nodes, t, "image").unwrap();
    let fields = read_tmx_image_tileset(&nodes, t, image).unwrap();
    assert_eq!(fields.image.as_deref(), Some("tiles.png"));
    assert_eq!((fields.tilewidth, fields.tileheight), (Some(16), Some(16)));
    assert_eq!((fields.columns, fields.tilecount), (Some(2), Some(4)));
    assert_eq!((fields.imagewidth, fields.imageheight), (Some(32), Some(32)));
    assert_eq!(fields.transparent_color, Some([255, 0, 255]));
    assert_eq!(fields.tile_offset, [2, -3]);
    assert_eq!((fields.margin, fields.spacing), (0, 0));
    assert_eq!(fields.animations.len(), 1);
    assert_eq!(fields.animations[0].tile_id, TileId(1));
    let frames: Vec<(u32, u32)> =
        fields.animations[0].frames.iter().map(|f| (f.tile_id.0, f.duration_ms)).collect();
    assert_eq!(frames, vec![(1, 100), (2, 50)]);

    let tileset = build_tileset(
        1,
        fields.image.as_deref(),
        fields.tilewidth,
        fields.tileheight,
        fields.columns,
        fields.tilecount,
        fields.imagewidth,
        fields.imageheight,
        None,
        fields.transparent_color,
        fields.tile_offset,
        fields.animations,
        fields.margin,
        fields.spacing,
        None,
    )
    .unwrap();
    assert_eq!((tileset.columns, tileset.rows, tileset.tile_count), (2, 2, 4));
    assert_eq!(tileset.image_size, [32, 32]);
}

#[test]
fn tmx_tileset_references_and_external_roots() {
    let nodes = nodes_of(r#"<map><tileset firstgid="5" source="terrain.tsx"/><tileset source="x.tsx"/></map>"#);
    let tilesets = child_elements(&nodes, 1, "tileset");
    match read_tmx_tileset_ref(&nodes, tilesets[0]).unwrap() {
        TmxTilesetRef::External { first_gid, source } => {
            assert_eq!(first_gid, 5);
            assert_eq!(source, "terrain.tsx");
        }
        other => panic!("unexpected {other:?}"),
    }
    assert_eq!(
        malformed_message(read_tmx_tileset_ref(&nodes, tilesets[1])),
        "<tileset> is missing required `firstgid` attribute"
    );

    let tsx = nodes_of(r#"<tileset name="t" tilewidth="8" tileheight="8"/>"#);
    assert_eq!(external_tileset_root(&tsx, "dir/t.tsx").unwrap(), 1);
    let wrong = nodes_of("<map/>");
    assert_eq!(
        malformed_message(external_tileset_root(&wrong, "dir/t.tsx")),
        "external tileset dir/t.tsx must use a <tileset> root"
    );
}

const COLLECTION: &str = r#"<tileset firstgid="1" name="props" tilewidth="8" tileheight="8" tilecount="3">
 <tileoffset y="4"/>
 <tile id="0"><image source="red.png" width="2" height="2"/></tile>
 <tile id="2" width="3"><image source="green.png" height="1"/></tile>
 <tile id="1"><animation><frame tileid="2" duration="30"/></animation></tile>
</tileset>"#;

#[test]
fn tmx_image_collection_packs_its_images() {
    let nodes = nodes_of(COLLECTION);
    let t = external_tileset_root(&nodes, "props.tsx").unwrap();
    let collection = read_tmx_collection(&nodes, t, 1, &None).unwrap();
    assert_eq!((collection.tile_width, collection.tile_height), (8, 8));
    let ids: Vec<u32> = collection.tiles.iter().map(|tile| tile.id).collect();
    assert_eq!(ids, vec![0, 2]);
    assert_eq!(collection.tiles[1].width, Some(3));
    assert_eq!(collection.tiles[1].imagewidth, None);
    assert_eq!(collection.tiles[1].imageheight, Some(1));
    assert_eq!(tmx_image_collection_image_to_measure(&collection.tiles), None);

    let (tileset, properties, tile_properties): (TiledTileset, _, _) = build_tmx_image_collection_tileset(
        1,
        collection.tile_width,
        collection.tile_height,
        &collection.tiles,
        None,
        &nodes,
        t,
        None,
    )
    .unwrap();
    assert!(properties.is_empty());
    assert!(tile_properties.is_empty());
    assert_eq!(tileset.tile_count, 3);
    assert_eq!(tileset.image_size, [6, 2]);
    assert_eq!(tileset.tile_rects[0], Some(TilesetTileRect { x: 0, y: 0, width: 2, height: 2 }));
    assert_eq!(tileset.tile_rects[2], Some(TilesetTileRect { x: 3, y: 0, width: 3, height: 1 }));
    assert_eq!(tileset.tile_rects[1], None);
    assert_eq!(tileset.tile_offset, [0, 4]);
    assert_eq!(tileset.animations.len(), 1);
    assert_eq!(tileset.animations[0].tile_id, TileId(1));
}

#[test]
fn tmx_image_collection_sizes_come_from_images_only() {
    // One image whose size the tiles give only through their own width and
    // height: unlike JSON tilesets, TMX ones must then measure the image.
    let text = r#"<tileset firstgid="1" tilewidth="8" tileheight="8"><tile id="0" width="4" height="4"><image source="sheet.png"/></tile></tileset>"#;
    let nodes = nodes_of(text);
    let collection = read_tmx_collection(&nodes, 1, 1, &None).unwrap();
    assert_eq!(
        tmx_image_collection_image_to_measure(&collection.tiles),
        Some("sheet.png".to_string())
    );
    let (tileset, _, _) = build_tmx_image_collection_tileset(
        1, 8, 8, &collection.tiles, Some((40, 20)), &nodes, 1, None,
    )
    .unwrap();
    assert_eq!(tileset.image_size, [40, 20]);
    assert_eq!(tileset.tile_rects[0], Some(TilesetTileRect { x: 0, y: 0, width: 4, height: 4 }));
}

fn unsupported<T>(r: Result<T, TiledImportError>) -> &'static str {
    match r {
        Err(TiledImportError::UnsupportedTileset { reason, .. }) => reason,
        Ok(_) => panic!("expected an unsupported tileset"),
        Err(other) => panic!("unexpected {other:?}"),
    }
}

#[test]
fn tmx_image_collection_reports_each_failure() {
    let nodes = nodes_of(COLLECTION);
    assert_eq!(
        unsupported(read_tmx_collection(&nodes, 1, 0, &Some("props.tsx".to_string()))),
        "firstgid must be greater than zero"
    );
    let no_width = nodes_of(r#"<tileset tileheight="8"/>"#);
    assert_eq!(unsupported(read_tmx_collection(&no_width, 1, 1, &None)), "tileset is missing tilewidth");
    let no_source = nodes_of(r#"<tileset tilewidth="8" tileheight="8"><tile id="0"><image/></tile></tileset>"#);
    assert_eq!(
        malformed_message(read_tmx_collection(&no_source, 1, 1, &None)),
        "<image> is missing required `source` attribute"
    );
    let no_images = nodes_of(r#"<tileset tilewidth="8" tileheight="8"><tile id="0"/></tileset>"#);
    let collection = read_tmx_collection(&no_images, 1, 1, &None).unwrap();
    assert_eq!(
        unsupported(build_tmx_image_collection_tileset(1, 8, 8, &collection.tiles, None, &no_images, 1, None)),
        "only single-image tilesets are supported"
    );
    let far = nodes_of(r#"<tileset tilewidth="8" tileheight="8"><tile id="0"><image source="a.png" width="1" height="1"/><animation><frame tileid="9" duration="1"/></animation></tile></tileset>"#);
    let collection = read_tmx_collection(&far, 1, 1, &None).unwrap();
    assert_eq!(
        unsupported(build_tmx_image_collection_tileset(1, 8, 8, &collection.tiles, None, &far, 1, None)),
        "tileset animation references a tile outside tilecount"
    );
}

#[test]
fn tmx_map_imports_through_from_parts() {
    let nodes = nodes_of(MAP);
    let header = read_tmx_header(&nodes).unwrap();
    let t = child_elements(&nodes, header.root, "tileset")[0];
    let image = first_child_element(&nodes, t, "image").unwrap();
    let fields = read_tmx_image_tileset(&nodes, t, image).unwrap();
    let tileset = build_tileset(
        1,
        fields.image.as_deref(),
        fields.tilewidth,
        fields.tileheight,
        fields.columns,
        fields.tilecount,
        fields.imagewidth,
        fields.imageheight,
        None,
        fields.transparent_color,
        fields.tile_offset,
        fields.animations,
        fields.margin,
        fields.spacing,
        None,
    )
    .unwrap();
    let layers = read_tmx_layers(&nodes, header.root).unwrap().layers;
    let import = from_parts(ParsedMap {
        orientation: header.orientation,
        stagger_axis: header.stagger_axis,
        stagger_index: header.stagger_index,
        hex_side_length: header.hex_side_length,
        render_order: header.render_order,
        width: header.width,
        height: header.height,
        tile_width: header.tile_width,
        tile_height: header.tile_height,
        infinite: header.infinite,
        layers,
        tilesets: vec![tileset],
    })
    .unwrap();
    assert_eq!(import.layers.len(), 2);
    assert_eq!(import.layers[0].name, "Ground");
    assert!(!import.layers[1].visible);
    assert_eq!(import.tiles.len(), 5);
}

#[test]
fn number_texts_follow_the_float_grammar() {
    for good in ["0.5", "1", "-2.", ".5", "+1e3", "1E-2", "inf", "-Infinity", "NaN"] {
        assert!(is_number_text(good), "{good} should be a number");
    }
    for bad in ["", ".", "e5", "1e", "1.2.3", "0x10", " 1", "infinit", "1e+"] {
        assert!(!is_number_text(bad), "{bad} should not be a number");
    }
}

#[test]
fn signed_attributes_parse_like_i32() {
    assert_eq!(parse_i32("-2147483648"), Some(i32::MIN));
    assert_eq!(parse_i32("2147483647"), Some(i32::MAX));
    assert_eq!(parse_i32("2147483648"), None);
    assert_eq!(parse_i32("+5"), Some(5));
    assert_eq!(parse_i32("-+5"), None);
    assert_eq!(parse_i32("-"), None);
    assert_eq!(parse_i32("12a"), None);
}

fn single_image_tileset(nodes: &Vec<XmlNode>, t: usize, first_gid: u32, image_size: Option<(u32, u32)>) -> TiledTileset {
    let image = first_child_element(nodes, t, "image").unwrap();
    let fields = read_tmx_image_tileset(nodes, t, image).unwrap();
    build_tileset(
        first_gid,
        fields.image.as_deref(),
        fields.tilewidth,
        fields.tileheight,
        fields.columns,
        fields.tilecount,
        fields.imagewidth,
        fields.imageheight,
        image_size,
        fields.transparent_color,
        fields.tile_offset,
        fields.animations,
        fields.margin,
        fields.spacing,
        None,
    )
    .unwrap()
}

#[test]
fn tmx_overhanging_layers_sort_by_y_then_layer() {
    let text = r#"<?xml version="1.0" encoding="UTF-8"?>
        <map version="1.0" orientation="orthogonal" renderorder="right-down" width="2" height="2" tilewidth="31" tileheight="31">
            <tileset firstgid="1" name="walls" tilewidth="64" tileheight="64" columns="1" tilecount="1">
                <tileoffset x="-32" y="0"/>
                <image source="walls.png" width="64" height="64"/>
            </tileset>
            <layer name="Walls" width="2" height="2">
                <data><tile gid="1"/><tile gid="0"/><tile gid="0"/><tile gid="0"/></data>
            </layer>
            <layer name="Walls level 2" width="2" height="2">
                <data><tile gid="0"/><tile gid="0"/><tile gid="0"/><tile gid="1"/></data>
            </layer>
        </map>"#;
    let nodes = nodes_of(text);
    let header = read_tmx_header(&nodes).unwrap();
    let t = child_elements(&nodes, header.root, "tileset")[0];
    let tileset = single_image_tileset(&nodes, t, 1, None);
    assert_eq!(tileset.tile_offset, [-32, 0]);
    let layers = read_tmx_layers(&nodes, header.root).unwrap().layers;
    let import = from_parts(ParsedMap {
        orientation: header.orientation,
        stagger_axis: header.stagger_axis,
        stagger_index: header.stagger_index,
        hex_side_length: header.hex_side_length,
        render_order: header.render_order,
        width: header.width,
        height: header.height,
        tile_width: header.tile_width,
        tile_height: header.tile_height,
        infinite: header.infinite,
        layers,
        tilesets: vec![tileset],
    })
    .unwrap();
    assert_eq!(import.depth_sort, TilemapDepthSort::YThenLayer);
    assert_eq!(import.layers[0].sorting_layer, 0);
    assert_eq!(import.layers[1].sorting_layer, 0);
}

#[test]
fn tsx_tilesets_read_animations_offsets_and_measured_images() {
    let water = nodes_of(
        r#"<?xml version="1.0" encoding="UTF-8"?>
        <tileset version="1.8" name="water" tilewidth="8" tileheight="8" tilecount="4" columns="4">
            <image source="water.png" width="32" height="8"/>
            <tile id="1">
                <animation>
                    <frame tileid="1" duration="100"/>
                    <frame tileid="2" duration="150"/>
                </animation>
            </tile>
        </tileset>"#,
    );
    let root = external_tileset_root(&water, "water.tsx").unwrap();
    let tileset = single_image_tileset(&water, root, 1, None);
    assert_eq!(tileset.animations.len(), 1);
    assert_eq!(tileset.animations[0].tile_id, TileId(1));
    let frames: Vec<(u32, u32)> =
        tileset.animations[0].frames.iter().map(|f| (f.tile_id.0, f.duration_ms)).collect();
    assert_eq!(frames, vec![(1, 100), (2, 150)]);

    let walls = nodes_of(
        r#"<tileset name="walls" tilewidth="64" tileheight="64">
            <tileoffset x="-32" y="4"/>
            <image source="walls.png"/>
        </tileset>"#,
    );
    let root = external_tileset_root(&walls, "walls.tsx").unwrap();
    let tileset = single_image_tileset(&walls, root, 1, Some((128, 64)));
    assert_eq!(tileset.tile_size, [64, 64]);
    assert_eq!(tileset.image_size, [128, 64]);
    assert_eq!((tileset.columns, tileset.tile_count), (2, 2));
    assert_eq!(tileset.tile_offset, [-32, 4]);
    assert_eq!((tileset.margin, tileset.spacing), (0, 0));
}

#[test]
fn tmx_properties_read_each_type() {
    let text = r##"<map orientation="orthogonal" width="1" height="1" tilewidth="8" tileheight="8">
        <properties>
            <property name="solid" type="bool" value="true"/>
            <property name="count" type="int" value="-7"/>
            <property name="speed" type="float" value="2.5e1"/>
            <property name="tint" type="color" value="#80ff0000"/>
            <property name="script" type="file" value="scripts/a.lua"/>
            <property name="target" type="object" value="12"/>
            <property name="label" value="gate"/>
            <property name="note">multi line</property>
            <property name="flag" type="bool" value="yes"/>
        </properties>
        <layer name="L" width="1" height="1">
            <properties><property name="trigger" type="bool" value="1"/></properties>
            <data encoding="csv">0</data>
        </layer>
    </map>"##;
    let nodes = nodes_of(text);
    assert!(property_colors_split_cleanly_check(&nodes));
    let header = read_tmx_header(&nodes).unwrap();
    let properties = collect_tmx_properties(&nodes, header.root).unwrap();
    let names: Vec<&str> = properties.iter().map(|p| p.name.as_str()).collect();
    assert_eq!(names, vec!["solid", "count", "speed", "tint", "script", "target", "label", "note", "flag"]);
    assert!(matches!(properties[0].value, TiledPropertyValue::Bool(true)));
    assert!(matches!(properties[1].value, TiledPropertyValue::Int(-7)));
    assert!(matches!(&properties[2].value, TiledPropertyValue::Float(t) if t == "2.5e1"));
    assert!(matches!(
        properties[3].value,
        TiledPropertyValue::Color(TiledColor { r: 255, g: 0, b: 0, a: 128 })
    ));
    assert!(matches!(&properties[4].value, TiledPropertyValue::File(p) if p == "scripts/a.lua"));
    assert!(matches!(properties[5].value, TiledPropertyValue::Object(12)));
    assert!(matches!(&properties[6].value, TiledPropertyValue::String(s) if s == "gate"));
    assert!(matches!(&properties[7].value, TiledPropertyValue::String(s) if s == "multi line"));
    assert!(matches!(properties[8].value, TiledPropertyValue::Bool(false)));

    let read = read_tmx_layers(&nodes, header.root).unwrap();
    assert_eq!(read.layer_properties.len(), 1);
    assert_eq!(read.layer_properties[0][0].name, "trigger");
    assert!(matches!(read.layer_properties[0][0].value, TiledPropertyValue::Bool(true)));
}

#[test]
fn tmx_properties_report_bad_values() {
    let first = |props: &str| {
        let nodes = nodes_of(&format!("<map><properties>{props}</properties></map>"));
        collect_tmx_properties(&nodes, 1)
    };
    assert_eq!(
        malformed_message(first(r#"<property name="n" type="int" value="x"/>"#)),
        "property value `x` is not a valid int"
    );
    assert_eq!(
        malformed_message(first(r#"<property name="n" type="float" value="1.2.3"/>"#)),
        "property value `1.2.3` is not a valid float"
    );
    assert_eq!(
        malformed_message(first(r#"<property name="n" type="object" value="-1"/>"#)),
        "property value `-1` is not a valid object"
    );
    assert_eq!(
        malformed_message(first(r##"<property name="n" type="color" value="#12345"/>"##)),
        "property value `#12345` is not a valid color"
    );
    assert_eq!(
        malformed_message(first(r#"<property type="int" value="1"/>"#)),
        "<property> is missing required `name` attribute"
    );
    let nodes = nodes_of(r#"<map><properties><property name="c" type="color" value="1é122"/></properties></map>"#);
    assert!(!property_colors_split_cleanly_check(&nodes));
}

#[test]
fn tmx_tile_properties_are_indexed_by_tile_id() {
    let text = r#"<tileset tilewidth="8" tileheight="8">
        <tile id="3"><properties><property name="solid" type="bool" value="true"/></properties></tile>
        <tile id="1"/>
        <tile id="0"><properties><property name="trigger" type="bool" value="1"/></properties></tile>
    </tileset>"#;
    let nodes = nodes_of(text);
    let table = collect_tmx_tile_properties(&nodes, 1).unwrap();
    assert_eq!(table.len(), 4);
    assert_eq!(table[3][0].name, "solid");
    assert!(table[1].is_empty());
    assert!(table[2].is_empty());
    assert_eq!(table[0][0].name, "trigger");

    let missing = nodes_of(r#"<tileset><tile><properties/></tile></tileset>"#);
    assert_eq!(
        malformed_message(collect_tmx_tile_properties(&missing, 1)),
        "<tile> is missing required `id` attribute"
    );
}

#[test]
fn tmx_image_collection_rejects_first_gid_zero_first() {
    let nodes = nodes_of(COLLECTION);
    let t = external_tileset_root(&nodes, "props.tsx").unwrap();
    let collection = read_tmx_collection(&nodes, t, 1, &None).unwrap();
    let result = build_tmx_image_collection_tileset(
        0,
        collection.tile_width,
        collection.tile_height,
        &collection.tiles,
        None,
        &nodes,
        t,
        Some("props.tsx".to_string()),
    );
    match result {
        Err(TiledImportError::UnsupportedTileset { source, reason }) => {
            assert_eq!(source.as_deref(), Some("props.tsx"));
            assert_eq!(reason, "firstgid must be greater than zero");
        }
        other => panic!("expected the firstgid error, got {other:?}"),
    }
}
