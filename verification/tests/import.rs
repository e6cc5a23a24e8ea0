use sky_render::tiled::collection::build_json_image_collection_tileset;
use sky_render::tiled::collection::image_collection_image_to_measure;
use sky_render::tiled::grid::GridRect;
use sky_render::tiled::import::from_parts;
use sky_render::tiled::import::TiledImport;
use sky_render::tiled::physics::collect_tile_colliders;
use sky_render::tiled::physics::LayerCollision;
use sky_render::tiled::physics::TiledPhysicsError;
use sky_render::tiled::physics::TiledPhysicsOptions;
use sky_render::tiled::physics::TilesetCollision;
use sky_render::tiled::import::ParsedMap;
use sky_render::tiled::layer::ParsedLayer;
use sky_render::tiled::layer::RawCell;
use sky_render::tiled::layer::TiledTileset;
use sky_render::tiled::error::TiledImportError;
use sky_render::tiled::tileset::build_tileset;
use sky_render::tiled::tileset::collect_json_tile_animations;
use sky_render::tiled::tileset::json_tile_offset;
use sky_render::tiled::tileset::pack_image_collection_atlas;
use sky_render::tiled::tileset::tiles_in_image_span;
use sky_render::tiled::tileset::tileset_needs_image_size;
use sky_render::tiled::tileset::ImageCollectionTile;
use sky_render::tiled::tileset::TiledJsonFrame;
use sky_render::tiled::tileset::TiledJsonTile;
use sky_render::tiled::tileset::TiledJsonTileOffset;
use sky_render::tilemap::types::TileAnimation;
use sky_render::tilemap::types::TileAnimationFrame;
use sky_render::tilemap::types::TileId;
use sky_render::tilemap::types::TilemapDepthSort;
use sky_render::tilemap::types::TilemapOrientation;
use sky_render::tilemap::types::TilemapRenderOrder;
use sky_render::tilemap::types::TilemapStaggerAxis;
use sky_render::tilemap::types::TilemapStaggerIndex;
use sky_render::tilemap::types::TilesetTileRect;
use sky_render::tilemap::types::TILE_FLIP_X;

fn tileset(first_gid: u32, tile_count: u32, tile_size: [u32; 2]) -> TiledTileset {
    TiledTileset {
        first_gid,
        image: "tiles.png".to_string(),
        tile_size,
        columns: 4,
        rows: 4,
        tile_count,
        image_size: [64, 64],
        margin: 0,
        spacing: 0,
        tile_rects: Vec::new(),
        tile_images: Vec::new(),
        tile_offset: [0, 0],
        animations: Vec::new(),
        transparent_color: None,
    }
}

fn parsed_map(
    orientation: TilemapOrientation,
    infinite: bool,
    layers: Vec<ParsedLayer>,
    tilesets: Vec<TiledTileset>,
) -> ParsedMap {
    ParsedMap {
        orientation,
        stagger_axis: TilemapStaggerAxis::Y,
        stagger_index: TilemapStaggerIndex::Odd,
        hex_side_length: 0,
        render_order: TilemapRenderOrder::RightDown,
        width: 3,
        height: 2,
        tile_width: 16,
        tile_height: 16,
        infinite,
        layers,
        tilesets,
    }
}

fn layer(name: &str, source_order: i32, cells: Vec<RawCell>) -> ParsedLayer {
    ParsedLayer {
        name: name.to_string(),
        source_order,
        visible: true,
        cells,
    }
}

#[test]
fn from_parts_splits_layers_and_places_tiles() {
    let layers = vec![
        layer(
            "ground",
            0,
            vec![
                RawCell { x: 0, y: 0, gid: 0x8000_0001 },
                RawCell { x: 2, y: 1, gid: 6 },
                RawCell { x: 1, y: 1, gid: 0 },
            ],
        ),
        layer("top", 1, vec![RawCell { x: 1, y: 0, gid: 2 }]),
    ];
    let import = from_parts(parsed_map(
        TilemapOrientation::Orthogonal,
        false,
        layers,
        vec![tileset(1, 4, [16, 16]), tileset(5, 4, [16, 16])],
    ))
    .unwrap();
    assert_eq!(import.map.width, 3);
    assert_eq!(import.map.height, 2);
    assert_eq!(import.map.layer_count, 3);
    assert_eq!(import.depth_sort, TilemapDepthSort::Layer);
    let layers: Vec<(usize, usize, u32, i32)> = import
        .layers
        .iter()
        .map(|l| (l.source_layer, l.tileset_index, l.storage_layer, l.sorting_layer))
        .collect();
    assert_eq!(layers, vec![(0, 0, 0, 0), (0, 1, 1, 1), (1, 0, 2, 256)]);
    let tiles: Vec<(u32, u32, u32, u32)> = import
        .tiles
        .iter()
        .map(|t| (t.layer, t.x, t.y, t.tile.id.0))
        .collect();
    assert_eq!(tiles, vec![(0, 0, 1, 0), (1, 2, 0, 1), (2, 1, 1, 1)]);
    assert_eq!(import.tiles[0].tile.flags.bits, TILE_FLIP_X);
    assert_eq!(import.tileset.first_gid, 1);
    assert_eq!(import.tileset.tile_count, import.tilesets[0].tile_count);
    assert_eq!(import.tileset.image, import.tilesets[0].image);
}

#[test]
fn from_parts_uses_cell_bounds_of_infinite_maps() {
    let layers = vec![layer(
        "inf",
        0,
        vec![RawCell { x: -4, y: 10, gid: 1 }, RawCell { x: -2, y: 13, gid: 2 }],
    )];
    let import = from_parts(parsed_map(
        TilemapOrientation::Isometric,
        true,
        layers,
        vec![tileset(1, 4, [32, 16])],
    ))
    .unwrap();
    assert_eq!(import.tile_origin, [-4, 10]);
    // isometric maps swap the axes of the 3 x 4 cell span
    assert_eq!((import.map.width, import.map.height), (4, 3));
    let tiles: Vec<(u32, u32)> = import.tiles.iter().map(|t| (t.x, t.y)).collect();
    assert_eq!(tiles, vec![(3, 2), (0, 0)]);
}

#[test]
fn from_parts_reports_missing_tilesets_and_stray_gids() {
    assert!(matches!(
        from_parts(parsed_map(TilemapOrientation::Orthogonal, false, Vec::new(), Vec::new())),
        Err(TiledImportError::MissingTileset)
    ));
    let layers = vec![layer("bad", 0, vec![RawCell { x: 0, y: 0, gid: 99 }])];
    assert!(matches!(
        from_parts(parsed_map(
            TilemapOrientation::Orthogonal,
            false,
            layers,
            vec![tileset(1, 4, [16, 16])]
        )),
        Err(TiledImportError::TileGidOutOfRange { gid: 99 })
    ));
}

#[test]
fn overhanging_tiles_make_layers_sort_by_cell() {
    let layers = vec![
        layer("a", 0, vec![RawCell { x: 0, y: 0, gid: 1 }]),
        layer("b", 1, vec![RawCell { x: 0, y: 0, gid: 1 }]),
    ];
    let import = from_parts(parsed_map(
        TilemapOrientation::Orthogonal,
        false,
        layers,
        vec![tileset(1, 4, [16, 32])],
    ))
    .unwrap();
    assert_eq!(import.depth_sort, TilemapDepthSort::YThenLayer);
    assert!(import.layers.iter().all(|l| l.sorting_layer == 0));
}

#[test]
fn tiles_in_image_span_counts_margin_and_spacing() {
    assert_eq!(tiles_in_image_span(64, 16, 0, 0), Some(4));
    assert_eq!(tiles_in_image_span(70, 16, 1, 2), Some(3));
    assert_eq!(tiles_in_image_span(10, 16, 0, 0), None);
    assert_eq!(tiles_in_image_span(4, 16, 5, 0), None);
    assert_eq!(tiles_in_image_span(8, 0, 0, 0), Some(8));
}

#[test]
fn build_tileset_infers_grid_from_image() {
    assert!(tileset_needs_image_size(None, Some(4), None, Some(3)));
    assert!(!tileset_needs_image_size(Some(2), Some(4), None, None));
    let ts = build_tileset(
        1,
        Some("assets/tiles.png"),
        Some(16),
        Some(16),
        None,
        None,
        None,
        None,
        Some((64, 48)),
        Some([255, 0, 255]),
        [0, 4],
        Vec::new(),
        0,
        0,
        None,
    )
    .unwrap();
    assert_eq!((ts.columns, ts.rows, ts.tile_count), (4, 3, 12));
    assert_eq!(ts.image_size, [64, 48]);
    assert_eq!(ts.image, "assets/tiles.png");
    assert_eq!(ts.tile_offset, [0, 4]);

    let given = build_tileset(
        1, Some("t.png"), Some(8), Some(8), Some(3), Some(7), None, None, None, None, [0, 0],
        Vec::new(), 0, 0, None,
    )
    .unwrap();
    assert_eq!((given.rows, given.image_size), (3, [24, 24]));
}

#[test]
fn build_tileset_reports_each_missing_attribute() {
    let reason = |r: Result<TiledTileset, TiledImportError>| match r {
        Err(TiledImportError::UnsupportedTileset { reason, .. }) => reason,
        other => panic!("unexpected {other:?}"),
    };
    let none: Vec<TileAnimation> = Vec::new();
    assert_eq!(
        reason(build_tileset(0, Some("t"), Some(8), Some(8), Some(1), Some(1), None, None, None, None, [0, 0], none.clone(), 0, 0, None)),
        "firstgid must be greater than zero"
    );
    assert_eq!(
        reason(build_tileset(1, None, Some(8), Some(8), Some(1), Some(1), None, None, None, None, [0, 0], none.clone(), 0, 0, None)),
        "only single-image tilesets are supported"
    );
    assert_eq!(
        reason(build_tileset(1, Some("t"), None, Some(8), Some(1), Some(1), None, None, None, None, [0, 0], none.clone(), 0, 0, None)),
        "tileset is missing tilewidth"
    );
    assert_eq!(
        reason(build_tileset(1, Some("t"), Some(8), Some(8), Some(0), Some(1), None, None, None, None, [0, 0], none.clone(), 0, 0, None)),
        "tileset is missing columns"
    );
    assert_eq!(
        reason(build_tileset(1, Some("t"), Some(8), Some(8), Some(2), None, Some(16), None, None, None, [0, 0], none.clone(), 0, 0, None)),
        "tileset is missing tilecount"
    );
    let animations = vec![TileAnimation {
        tile_id: TileId(0),
        frames: vec![TileAnimationFrame { tile_id: TileId(9), duration_ms: 100 }],
    }];
    assert_eq!(
        reason(build_tileset(1, Some("t"), Some(8), Some(8), Some(2), Some(4), None, None, None, None, [0, 0], animations.clone(), 0, 0, Some("ts.tsx".to_string()))),
        "tileset animation references a tile outside tilecount"
    );
}

#[test]
fn image_collection_atlas_packs_tiles_by_id() {
    let tiles = vec![
        ImageCollectionTile {
            tile_id: 2,
            image: "b.png".to_string(),
            source_rect: TilesetTileRect { x: 0, y: 0, width: 10, height: 20 },
        },
        ImageCollectionTile {
            tile_id: 0,
            image: "a.png".to_string(),
            source_rect: TilesetTileRect { x: 0, y: 0, width: 4, height: 8 },
        },
    ];
    let mut rects = vec![None; 3];
    let mut images = vec![None, None, None];
    let size = pack_image_collection_atlas(&tiles, &mut rects, &mut images);
    assert_eq!(size, [15, 20]);
    assert_eq!(rects[0], Some(TilesetTileRect { x: 0, y: 0, width: 4, height: 8 }));
    assert_eq!(rects[1], None);
    assert_eq!(rects[2], Some(TilesetTileRect { x: 5, y: 0, width: 10, height: 20 }));
    assert_eq!(images[2].as_ref().map(|s| s.image.as_str()), Some("b.png"));
    let mut empty_rects: Vec<Option<TilesetTileRect>> = Vec::new();
    let mut empty_images = Vec::new();
    assert_eq!(
        pack_image_collection_atlas(&Vec::new(), &mut empty_rects, &mut empty_images),
        [1, 1]
    );
}

fn json_tile(id: u32, image: Option<&str>, animation: Vec<TiledJsonFrame>) -> TiledJsonTile {
    TiledJsonTile {
        id,
        image: image.map(str::to_string),
        x: None,
        y: None,
        width: None,
        height: None,
        imagewidth: None,
        imageheight: None,
        animation,
    }
}

#[test]
fn json_tiles_give_animations_and_offsets() {
    let tiles = vec![
        json_tile(0, None, Vec::new()),
        json_tile(
            3,
            None,
            vec![
                TiledJsonFrame { tileid: 3, duration: 100 },
                TiledJsonFrame { tileid: 4, duration: 50 },
            ],
        ),
    ];
    let animations = collect_json_tile_animations(&tiles);
    assert_eq!(animations.len(), 1);
    assert_eq!(animations[0].tile_id, TileId(3));
    assert_eq!(
        animations[0].frames,
        vec![
            TileAnimationFrame { tile_id: TileId(3), duration_ms: 100 },
            TileAnimationFrame { tile_id: TileId(4), duration_ms: 50 },
        ]
    );
    assert_eq!(json_tile_offset(None), [0, 0]);
    assert_eq!(json_tile_offset(Some(TiledJsonTileOffset { x: 2, y: -3 })), [2, -3]);
}

fn csv_layer(name: &str, width: i32, gids: &[u32]) -> ParsedLayer {
    let cells = gids
        .iter()
        .enumerate()
        .map(|(i, &gid)| RawCell { x: i as i32 % width, y: i as i32 / width, gid })
        .collect();
    layer(name, 0, cells)
}

fn collision_import(orientation: TilemapOrientation, width: u32, height: u32, gids: &[u32]) -> TiledImport {
    let mut map = parsed_map(
        orientation,
        false,
        vec![csv_layer("Ground", width as i32, gids)],
        vec![tileset(1, 3, [16, 16])],
    );
    map.width = width;
    map.height = height;
    from_parts(map).unwrap()
}

/// Tile 1 is solid and tile 2 a trigger.
fn solid_and_trigger_tiles() -> Vec<TilesetCollision> {
    vec![TilesetCollision { solid: vec![false, true, false], trigger: vec![false, false, true] }]
}

#[test]
fn tile_colliders_merge_solid_and_trigger_cells() {
    let import = collision_import(
        TilemapOrientation::Orthogonal,
        4,
        3,
        &[2, 2, 0, 3, 2, 2, 0, 3, 0, 0, 0, 0],
    );
    let layers = collect_tile_colliders(
        &import,
        &vec![LayerCollision { solid: false, trigger: false }],
        &solid_and_trigger_tiles(),
        TiledPhysicsOptions::default(),
    )
    .unwrap();
    assert_eq!(layers.len(), 1);
    assert_eq!(layers[0].layer_index, 0);
    assert_eq!(layers[0].solid, vec![GridRect { x: 0, y: 1, width: 2, height: 2 }]);
    assert_eq!(layers[0].trigger, vec![GridRect { x: 3, y: 1, width: 1, height: 2 }]);

    // Placed at origin (10, 20) with 16-pixel tiles, the colliders are
    // centered where the physics import puts them.
    let center = |r: &GridRect| {
        let size = [r.width as f32 * 16.0, r.height as f32 * 16.0];
        [10.0 + r.x as f32 * 16.0 + size[0] * 0.5, 20.0 + r.y as f32 * 16.0 + size[1] * 0.5]
    };
    assert_eq!(center(&layers[0].solid[0]), [26.0, 52.0]);
    assert_eq!(center(&layers[0].trigger[0]), [66.0, 52.0]);
}

#[test]
fn layer_properties_make_every_tile_collide() {
    let import = collision_import(TilemapOrientation::Orthogonal, 2, 1, &[1, 3]);
    let none = vec![TilesetCollision { solid: vec![], trigger: vec![] }];
    let solid = collect_tile_colliders(
        &import,
        &vec![LayerCollision { solid: true, trigger: false }],
        &none,
        TiledPhysicsOptions::default(),
    )
    .unwrap();
    assert_eq!(solid[0].solid, vec![GridRect { x: 0, y: 0, width: 2, height: 1 }]);
    assert!(solid[0].trigger.is_empty());

    let trigger = collect_tile_colliders(
        &import,
        &vec![LayerCollision { solid: true, trigger: true }],
        &none,
        TiledPhysicsOptions::default(),
    )
    .unwrap();
    assert!(trigger[0].solid.is_empty());
    assert_eq!(trigger[0].trigger, vec![GridRect { x: 0, y: 0, width: 2, height: 1 }]);
}

#[test]
fn non_orthogonal_tile_colliders_are_rejected() {
    let import = collision_import(TilemapOrientation::Isometric, 1, 1, &[1]);
    let solid_first = vec![TilesetCollision { solid: vec![true], trigger: vec![] }];
    let err = collect_tile_colliders(
        &import,
        &vec![LayerCollision { solid: false, trigger: false }],
        &solid_first,
        TiledPhysicsOptions::default(),
    )
    .unwrap_err();
    assert!(matches!(
        err,
        TiledPhysicsError::UnsupportedTileOrientation { orientation: TilemapOrientation::Isometric }
    ));

    // Without collision, other orientations give no colliders and no error.
    let plain = vec![TilesetCollision { solid: vec![], trigger: vec![] }];
    let layers = collect_tile_colliders(
        &import,
        &vec![LayerCollision { solid: false, trigger: false }],
        &plain,
        TiledPhysicsOptions::default(),
    )
    .unwrap();
    assert!(layers[0].solid.is_empty() && layers[0].trigger.is_empty());
}

#[test]
fn invisible_layers_are_skipped_unless_included() {
    let mut map = parsed_map(
        TilemapOrientation::Orthogonal,
        false,
        vec![csv_layer("Hidden", 3, &[2, 2, 2])],
        vec![tileset(1, 3, [16, 16])],
    );
    map.layers[0].visible = false;
    let import = from_parts(map).unwrap();
    let options = TiledPhysicsOptions {
        spawn_tile_colliders: true,
        spawn_object_colliders: true,
        include_invisible_layers: false,
    };
    let layers = collect_tile_colliders(
        &import,
        &vec![LayerCollision { solid: false, trigger: false }],
        &solid_and_trigger_tiles(),
        options,
    )
    .unwrap();
    assert!(layers.is_empty());
}

fn image_tile(id: u32, image: &str, size: Option<[u32; 2]>) -> TiledJsonTile {
    let mut tile = json_tile(id, Some(image), Vec::new());
    if let Some([w, h]) = size {
        tile.imagewidth = Some(w);
        tile.imageheight = Some(h);
        tile.width = Some(w);
        tile.height = Some(h);
    }
    tile
}

#[test]
fn json_image_collection_packs_multiple_images() {
    let tiles = vec![
        image_tile(0, "dir/red.png", Some([2, 2])),
        image_tile(1, "dir/green.png", Some([3, 1])),
    ];
    assert_eq!(image_collection_image_to_measure(&tiles), None);
    let ts = build_json_image_collection_tileset(1, Some(3), Some(2), None, &tiles, None, None)
        .unwrap();
    assert_eq!(ts.image_size, [6, 2]);
    assert_eq!(ts.tile_rects[0], Some(TilesetTileRect { x: 0, y: 0, width: 2, height: 2 }));
    assert_eq!(ts.tile_rects[1], Some(TilesetTileRect { x: 3, y: 0, width: 3, height: 1 }));
    assert_eq!(ts.tile_images.len(), 2);
    let green = ts.tile_images[1].as_ref().unwrap();
    assert_eq!(green.image, "dir/green.png");
    assert_eq!(green.source_rect, TilesetTileRect { x: 0, y: 0, width: 3, height: 1 });
    assert_eq!((ts.columns, ts.rows, ts.tile_count), (2, 1, 2));
    assert_eq!(ts.image, "dir/red.png");
}

#[test]
fn json_image_collection_keeps_rects_of_one_image() {
    let mut a = image_tile(4, "sheet.png", None);
    a.x = Some(16);
    a.width = Some(8);
    let b = image_tile(1, "sheet.png", None);
    let plain = json_tile(2, None, vec![TiledJsonFrame { tileid: 4, duration: 10 }]);
    let tiles = vec![a, plain, b];
    assert_eq!(image_collection_image_to_measure(&tiles), Some("sheet.png".to_string()));
    let ts = build_json_image_collection_tileset(
        5,
        Some(4),
        Some(6),
        Some(TiledJsonTileOffset { x: 1, y: -2 }),
        &tiles,
        Some((64, 32)),
        None,
    )
    .unwrap();
    assert_eq!(ts.tile_count, 5);
    assert_eq!(ts.image_size, [64, 32]);
    assert_eq!(ts.tile_rects.len(), 5);
    assert_eq!(ts.tile_rects[4], Some(TilesetTileRect { x: 16, y: 0, width: 8, height: 6 }));
    assert_eq!(ts.tile_rects[1], Some(TilesetTileRect { x: 0, y: 0, width: 4, height: 6 }));
    assert_eq!(ts.tile_rects[0], None);
    assert!(ts.tile_images.is_empty());
    assert_eq!(ts.tile_offset, [1, -2]);
    assert_eq!(ts.animations.len(), 1);
    assert_eq!(ts.animations[0].tile_id, TileId(2));
}

#[test]
fn json_image_collection_reports_each_failure() {
    let reason = |r: Result<TiledTileset, TiledImportError>| match r {
        Err(TiledImportError::UnsupportedTileset { reason, .. }) => reason,
        other => panic!("unexpected {other:?}"),
    };
    let tiles = vec![image_tile(0, "a.png", Some([2, 2]))];
    assert_eq!(
        reason(build_json_image_collection_tileset(0, Some(2), Some(2), None, &tiles, None, None)),
        "firstgid must be greater than zero"
    );
    assert_eq!(
        reason(build_json_image_collection_tileset(1, None, Some(2), None, &tiles, None, None)),
        "tileset is missing tilewidth"
    );
    assert_eq!(
        reason(build_json_image_collection_tileset(1, Some(2), None, None, &tiles, None, None)),
        "tileset is missing tileheight"
    );
    assert_eq!(
        reason(build_json_image_collection_tileset(
            1,
            Some(2),
            Some(2),
            None,
            &vec![json_tile(0, None, Vec::new())],
            None,
            None
        )),
        "only single-image tilesets are supported"
    );
    let animated = vec![
        image_tile(0, "a.png", Some([2, 2])),
        json_tile(0, None, vec![TiledJsonFrame { tileid: 1, duration: 10 }]),
    ];
    assert_eq!(
        reason(build_json_image_collection_tileset(1, Some(2), Some(2), None, &animated, None, None)),
        "tileset animation references a tile outside tilecount"
    );
}

#[test]
fn tiles_draw_at_their_own_rect_size() {
    let mut ts = tileset(1, 4, [16, 16]);
    assert_eq!(ts.tile_draw_size(TileId(2)), [16, 16]);
    ts.tile_rects = vec![None, Some(TilesetTileRect { x: 4, y: 0, width: 32, height: 48 })];
    assert_eq!(ts.tile_draw_size(TileId(1)), [32, 48]);
    assert_eq!(ts.tile_draw_size(TileId(0)), [16, 16]);
    assert_eq!(ts.tile_draw_size(TileId(9)), [16, 16]);
}
