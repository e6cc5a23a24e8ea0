use sky_render::tilemap::extract::renderer_extract_mode;
use sky_render::tilemap::types::Tilemap;
use sky_render::tilemap::extract::chunk_plan;
use sky_render::tilemap::extract::tilemap_extract_mode;
use sky_render::tilemap::extract::ChunkPlan;
use sky_render::tilemap::extract::TilemapExtractMode;

#[test]
fn visible_tilemaps_draw_where_layer_masks_meet() {
    assert_eq!(tilemap_extract_mode(true, false, false, 0b01, None, 0b01), TilemapExtractMode::Draw);
    assert_eq!(tilemap_extract_mode(true, false, true, 0b10, None, 0b01), TilemapExtractMode::Skip);
    // The entity's own mask overrides the renderer's.
    assert_eq!(tilemap_extract_mode(true, false, true, 0b10, Some(0b10), 0b01), TilemapExtractMode::Draw);
    assert_eq!(tilemap_extract_mode(true, false, true, 0b01, Some(0b10), 0b01), TilemapExtractMode::Skip);
}

#[test]
fn hidden_tilemaps_prewarm_in_the_first_view_only() {
    assert_eq!(tilemap_extract_mode(false, true, true, 0, None, 0), TilemapExtractMode::PrewarmOnly);
    assert_eq!(tilemap_extract_mode(false, true, false, 1, None, 1), TilemapExtractMode::Skip);
    assert_eq!(tilemap_extract_mode(false, false, true, 1, None, 1), TilemapExtractMode::Skip);
}

#[test]
fn chunk_plans_reuse_cache_and_respect_background_budget() {
    assert_eq!(chunk_plan(false, false, true, true), ChunkPlan::Skip);
    assert_eq!(chunk_plan(true, false, true, false), ChunkPlan::UseCached { draw: true });
    assert_eq!(chunk_plan(true, false, false, false), ChunkPlan::Build { draw: true });
    assert_eq!(chunk_plan(false, true, true, false), ChunkPlan::UseCached { draw: false });
    assert_eq!(chunk_plan(false, true, false, false), ChunkPlan::Skip);
    assert_eq!(chunk_plan(false, true, false, true), ChunkPlan::Build { draw: false });
}

#[test]
fn renderer_without_its_map_or_layer_is_skipped() {
    let map = Tilemap { width: 4, height: 4, layer_count: 2 };
    assert_eq!(
        renderer_extract_mode(true, false, true, 1, None, 1, Some(map), 1),
        TilemapExtractMode::Draw
    );
    assert_eq!(
        renderer_extract_mode(true, false, true, 1, None, 1, Some(map), 2),
        TilemapExtractMode::Skip
    );
    assert_eq!(renderer_extract_mode(true, false, true, 1, None, 1, None, 0), TilemapExtractMode::Skip);
    assert_eq!(
        renderer_extract_mode(false, true, true, 0, None, 0, Some(map), 0),
        TilemapExtractMode::PrewarmOnly
    );
}
