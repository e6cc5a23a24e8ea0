use vstd::prelude::*;

verus! {

/// Settings of the tilemap chunk cache that the feature creates.
#[derive(Clone, Copy, Debug, PartialEq, Eq, Structural)]
pub struct TilemapCacheConfig {}

impl TilemapCacheConfig {
    pub fn new() -> (r: TilemapCacheConfig)
        ensures
            r == (TilemapCacheConfig {}),
    {
        TilemapCacheConfig {}
    }
}

/// Render feature for chunked 2D tilemaps.
#[derive(Clone, Copy, Debug, PartialEq, Eq, Structural)]
pub struct TilemapFeature {
    pub cache_config: TilemapCacheConfig,
}

impl TilemapFeature {
    /// The default tilemap feature: unlit, with the default cache.
    pub fn new() -> (r: TilemapFeature)
        ensures
            r.cache_config == (TilemapCacheConfig {}),
    {
        Self::unlit()
    }

    pub fn unlit() -> (r: TilemapFeature)
        ensures
            r.cache_config == (TilemapCacheConfig {}),
    {
        TilemapFeature { cache_config: TilemapCacheConfig::new() }
    }

    pub fn with_cache_config(self, cache_config: TilemapCacheConfig) -> (r: TilemapFeature)
        ensures
            r.cache_config == cache_config,
    {
        TilemapFeature { cache_config }
    }

    /// Name under which the feature registers.
    pub fn name(&self) -> (r: &'static str)
        ensures
            r@ == "tilemap"@,
    {
        "tilemap"
    }
}

/// Index of a registered draw function.
#[derive(Clone, Copy, Debug, PartialEq, Eq, Structural)]
pub struct DrawFunctionId(pub u32);

/// Extracts visible tilemaps into draw items of one draw function.
#[derive(Clone, Copy, Debug, PartialEq, Eq, Structural)]
pub struct ExtractTilemaps {
    pub draw_function_id: DrawFunctionId,
}

impl ExtractTilemaps {
    pub fn new(draw_function_id: DrawFunctionId) -> (r: ExtractTilemaps)
        ensures
            r.draw_function_id == draw_function_id,
    {
        ExtractTilemaps { draw_function_id }
    }

    /// Tilemaps are extracted for main views only, never for shadow views.
    pub fn extracts_main_views_only(&self) -> (r: bool)
        ensures
            r,
    {
        true
    }
}

/// Batch key of a tilemap draw: the low byte of the draw function index in
/// the top byte, the low 56 bits of the texture key below it.
pub open spec fn spec_batch_key(draw_function: u32, texture_key: u64) -> int {
    (draw_function % 256) as int * 0x100_0000_0000_0000 + (texture_key % 0x100_0000_0000_0000) as int
}

pub fn tilemap_batch_key_for(draw_function_id: DrawFunctionId, texture_key: u64) -> (r: u64)
    ensures
        r == spec_batch_key(draw_function_id.0, texture_key),
{
    let id = draw_function_id.0 as u64;
    let r = ((id & 0xff) << 56u64) | (texture_key & 0x00ff_ffff_ffff_ffff);
    assert(((id & 0xff) << 56u64) | (texture_key & 0x00ff_ffff_ffff_ffff) == (id % 256) * 0x100_0000_0000_0000 + texture_key % 0x100_0000_0000_0000) by (bit_vector);
    r
}

} // verus!
