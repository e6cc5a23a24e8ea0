//! The decisions of extracting tilemaps for a view: which renderers take
//! part, and what happens to each of their chunks.
use crate::tilemap::types::Tilemap;
use vstd::prelude::*;

verus! {

/// How a tilemap renderer takes part in a view's extraction.
#[derive(Clone, Copy, Debug, PartialEq, Eq, Structural)]
pub enum TilemapExtractMode {
    /// Not at all.
    Skip,
    /// Its visible chunks are prepared and drawn.
    Draw,
    /// It is hidden, but its chunks are prepared ahead of being shown.
    PrewarmOnly,
}

/// The mode of a renderer: a hidden renderer that asks for cache prewarming
/// is prepared in the first view of the frame only; a visible one is drawn
/// where its layer mask (the entity's, else the renderer's) shares a bit
/// with the view's.
pub open spec fn spec_extract_mode(
    visible: bool,
    cache_prewarm: bool,
    first_view: bool,
    view_layer_mask: u32,
    entity_layer_mask: Option<u32>,
    renderer_layer_mask: u32,
) -> TilemapExtractMode {
    let mask = match entity_layer_mask {
        Some(m) => m,
        None => renderer_layer_mask,
    };
    if visible && view_layer_mask & mask != 0 {
        TilemapExtractMode::Draw
    } else if !visible && cache_prewarm && first_view {
        TilemapExtractMode::PrewarmOnly
    } else {
        TilemapExtractMode::Skip
    }
}

/// Decides how a renderer takes part in a view (see [`spec_extract_mode`]).
pub fn tilemap_extract_mode(
    visible: bool,
    cache_prewarm: bool,
    first_view: bool,
    view_layer_mask: u32,
    entity_layer_mask: Option<u32>,
    renderer_layer_mask: u32,
) -> (r: TilemapExtractMode)
    ensures
        r == spec_extract_mode(
            visible,
            cache_prewarm,
            first_view,
            view_layer_mask,
            entity_layer_mask,
            renderer_layer_mask,
        ),
{
    let prewarm_only = !visible && cache_prewarm && first_view;
    if !visible && !prewarm_only {
        return TilemapExtractMode::Skip;
    }
    let mask = match entity_layer_mask {
        Some(m) => m,
        None => renderer_layer_mask,
    };
    if visible && view_layer_mask & mask == 0 {
        return TilemapExtractMode::Skip;
    }
    if visible {
        TilemapExtractMode::Draw
    } else {
        TilemapExtractMode::PrewarmOnly
    }
}

/// How a renderer takes part in a view, given the map its handle finds in
/// the tilemap storage (`None` where there is none): as
/// [`spec_extract_mode`] says, where the map is found and holds the
/// renderer's layer; else not at all.
pub open spec fn spec_renderer_extract_mode(
    visible: bool,
    cache_prewarm: bool,
    first_view: bool,
    view_layer_mask: u32,
    entity_layer_mask: Option<u32>,
    renderer_layer_mask: u32,
    map: Option<Tilemap>,
    layer: u32,
) -> TilemapExtractMode {
    match map {
        Some(m) if layer < m.layer_count => spec_extract_mode(
            visible,
            cache_prewarm,
            first_view,
            view_layer_mask,
            entity_layer_mask,
            renderer_layer_mask,
        ),
        _ => TilemapExtractMode::Skip,
    }
}

/// Decides how a renderer takes part in a view (see
/// [`spec_renderer_extract_mode`]).
pub fn renderer_extract_mode(
    visible: bool,
    cache_prewarm: bool,
    first_view: bool,
    view_layer_mask: u32,
    entity_layer_mask: Option<u32>,
    renderer_layer_mask: u32,
    map: Option<Tilemap>,
    layer: u32,
) -> (r: TilemapExtractMode)
    ensures
        r == spec_renderer_extract_mode(
            visible,
            cache_prewarm,
            first_view,
            view_layer_mask,
            entity_layer_mask,
            renderer_layer_mask,
            map,
            layer,
        ),
{
    let mode = tilemap_extract_mode(
        visible,
        cache_prewarm,
        first_view,
        view_layer_mask,
        entity_layer_mask,
        renderer_layer_mask,
    );
    if mode == TilemapExtractMode::Skip {
        return TilemapExtractMode::Skip;
    }
    match map {
        None => TilemapExtractMode::Skip,
        Some(m) => if layer >= m.layer_count() {
            TilemapExtractMode::Skip
        } else {
            mode
        },
    }
}

/// What happens to one non-empty chunk of a renderer.
#[derive(Clone, Copy, Debug, PartialEq, Eq, Structural)]
pub enum ChunkPlan {
    /// Nothing.
    Skip,
    /// Its cached instances are used; drawn when `draw` holds.
    UseCached { draw: bool },
    /// Its instances are built and cached; drawn when `draw` holds and they
    /// are not empty.
    Build { draw: bool },
}

/// The plan of a chunk: `draw_chunk` says whether it is drawn in this view
/// (the renderer is drawn and the chunk meets the view). A chunk that is
/// drawn or prewarmed uses its cached instances where they are current, and
/// is otherwise built when it is drawn or the cache may prepare chunks in
/// the background; every other chunk is skipped.
pub open spec fn spec_chunk_plan(
    draw_chunk: bool,
    prewarm_only: bool,
    cached: bool,
    can_prepare_background: bool,
) -> ChunkPlan {
    let takes_part = draw_chunk || prewarm_only;
    if takes_part && cached {
        ChunkPlan::UseCached { draw: draw_chunk }
    } else if takes_part && (draw_chunk || can_prepare_background) {
        ChunkPlan::Build { draw: draw_chunk }
    } else {
        ChunkPlan::Skip
    }
}

/// Decides what happens to a chunk (see [`spec_chunk_plan`]).
pub fn chunk_plan(draw_chunk: bool, prewarm_only: bool, cached: bool, can_prepare_background: bool) -> (r:
    ChunkPlan)
    ensures
        r == spec_chunk_plan(draw_chunk, prewarm_only, cached, can_prepare_background),
{
    if !draw_chunk && !prewarm_only {
        ChunkPlan::Skip
    } else if cached {
        ChunkPlan::UseCached { draw: draw_chunk }
    } else if prewarm_only && !draw_chunk && !can_prepare_background {
        ChunkPlan::Skip
    } else {
        ChunkPlan::Build { draw: draw_chunk }
    }
}

/// A hidden renderer's chunks are never drawn, whatever the cache holds: its
/// chunks are at most built or kept for later.
pub proof fn lemma_hidden_renderers_draw_nothing(
    cache_prewarm: bool,
    first_view: bool,
    view_layer_mask: u32,
    entity_layer_mask: Option<u32>,
    renderer_layer_mask: u32,
    cached: bool,
    can_prepare_background: bool,
)
    ensures
        spec_extract_mode(false, cache_prewarm, first_view, view_layer_mask, entity_layer_mask, renderer_layer_mask)
            != TilemapExtractMode::Draw,
        !(spec_chunk_plan(false, true, cached, can_prepare_background) matches ChunkPlan::UseCached { draw: true }),
        !(spec_chunk_plan(false, true, cached, can_prepare_background) matches ChunkPlan::Build { draw: true }),
{
}

} // verus!
