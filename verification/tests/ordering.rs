use sky_render::tilemap::order::for_each_ordered_cell;
use sky_render::tilemap::order::for_each_ordered_chunk;
use sky_render::tilemap::order::ordered_chunk_coords;
use sky_render::tilemap::order::tile_sort_order;
use sky_render::tilemap::types::TileChunkBounds;
use sky_render::tilemap::types::Tilemap;
use sky_render::tilemap::types::TilemapDepthSort;
use sky_render::tilemap::types::TilemapOrientation;
use sky_render::tilemap::types::TilemapRenderOrder;
use sky_render::tilemap::types::TilemapRenderer;

#[test]
fn orthogonal_right_down_draws_high_engine_y_first() {
    let cells = for_each_ordered_cell(
        TileChunkBounds {
            x: 0,
            y: 0,
            width: 2,
            height: 2,
        },
        TilemapRenderOrder::RightDown,
    );

    assert_eq!(cells, [(0, 1), (1, 1), (0, 0), (1, 0)]);
}

#[test]
fn orthogonal_chunk_order_matches_tiled_render_order() {
    let map = Tilemap::new(64, 64, 1);

    assert_eq!(
        ordered_chunk_coords(
            &map,
            TilemapOrientation::Orthogonal,
            TilemapRenderOrder::RightDown,
        ),
        [(0, 1), (1, 1), (0, 0), (1, 0)]
    );
    assert_eq!(
        ordered_chunk_coords(
            &map,
            TilemapOrientation::Orthogonal,
            TilemapRenderOrder::LeftUp,
        ),
        [(1, 0), (0, 0), (1, 1), (0, 1)]
    );
}

#[test]
fn y_then_layer_sort_interleaves_layers_by_tiled_cell_order() {
    let map = Tilemap::new(4, 4, 3);
    let renderer = TilemapRenderer::new()
        .render_order(TilemapRenderOrder::RightDown)
        .depth_sort(TilemapDepthSort::YThenLayer);

    let back_upper_layer = tile_sort_order(&map, &renderer, 2, 1, 3);
    let same_cell_lower_layer = tile_sort_order(&map, &renderer, 0, 1, 3);
    let front_lower_layer = tile_sort_order(&map, &renderer, 0, 1, 2);

    assert!(same_cell_lower_layer < back_upper_layer);
    assert!(back_upper_layer < front_lower_layer);
}

#[test]
fn ordered_cells_cover_offset_bounds_in_every_render_order() {
    let bounds = TileChunkBounds {
        x: 3,
        y: 5,
        width: 3,
        height: 2,
    };
    assert_eq!(
        for_each_ordered_cell(bounds, TilemapRenderOrder::RightUp),
        [(3, 5), (4, 5), (5, 5), (3, 6), (4, 6), (5, 6)]
    );
    assert_eq!(
        for_each_ordered_cell(bounds, TilemapRenderOrder::LeftDown),
        [(5, 6), (4, 6), (3, 6), (5, 5), (4, 5), (3, 5)]
    );
    assert!(for_each_ordered_cell(
        TileChunkBounds {
            x: 0,
            y: 0,
            width: 0,
            height: 4
        },
        TilemapRenderOrder::RightDown
    )
    .is_empty());
}

#[test]
fn chunk_grid_rounds_partial_chunks_up() {
    let map = Tilemap::new(33, 1, 1);
    assert_eq!(map.chunk_columns(), 2);
    assert_eq!(map.chunk_rows(), 1);
    assert_eq!(
        for_each_ordered_chunk(&map, TilemapRenderOrder::LeftDown),
        [(1, 0), (0, 0)]
    );
}

#[test]
fn isometric_chunks_draw_far_diagonals_first_left_to_right() {
    let map = Tilemap::new(96, 64, 1);
    assert_eq!(
        ordered_chunk_coords(
            &map,
            TilemapOrientation::Isometric,
            TilemapRenderOrder::RightDown
        ),
        [(2, 1), (1, 1), (2, 0), (0, 1), (1, 0), (0, 0)]
    );
}

#[test]
fn orthogonal_sort_order_matches_formula() {
    let map = Tilemap::new(4, 4, 3);
    let renderer = TilemapRenderer::new();
    // row rank 0 (top Tiled row = engine row 3), column 1, layer 2
    assert_eq!(tile_sort_order(&map, &renderer, 2, 1, 3), 5);
    // out-of-range layer and cell clamp into the map
    assert_eq!(tile_sort_order(&map, &renderer, 9, 9, 0), ((3 * 4 + 3) * 3) + 2);
    let left_up = renderer.render_order(TilemapRenderOrder::LeftUp);
    assert_eq!(tile_sort_order(&map, &left_up, 0, 0, 0), 3 * 3);
}

#[test]
fn isometric_sort_order_matches_formula() {
    let map = Tilemap::new(4, 4, 1);
    let renderer = TilemapRenderer::new().orientation(TilemapOrientation::Isometric);
    // max diagonal 6, cell (1, 2): diagonal rank 3, screen x 1 + 1
    assert_eq!(tile_sort_order(&map, &renderer, 0, 1, 2), 3 * 8 + 2);
}
