use crate::ecs::EntityId;
use crate::text::decimal;
use crate::text::decimal_string;
use vstd::string::StringExecFns;
use crate::ecs::World;
use crate::tiled::grid::cell_at;
use crate::tiled::grid::cell_index;
use crate::tiled::grid::greedy_cover;
use crate::tiled::grid::in_grid;
use crate::tiled::grid::merge_grid;
use crate::tiled::grid::GridRect;
use crate::tiled::import::PlacedTile;
use crate::tiled::import::TiledImport;
use crate::tiled::import::TiledLayer;
use crate::tilemap::types::Tile;
use crate::tilemap::types::TilemapOrientation;
use vstd::prelude::*;

verus! {

/// Options for spawning physics colliders from a Tiled import.
#[derive(Clone, Copy, Debug, PartialEq, Eq, Structural)]
pub struct TiledPhysicsOptions {
    pub spawn_tile_colliders: bool,
    pub spawn_object_colliders: bool,
    pub include_invisible_layers: bool,
}

impl TiledPhysicsOptions {
    /// Everything on: tile and object colliders, invisible layers included.
    pub fn default_options() -> (r: TiledPhysicsOptions)
        ensures
            r.spawn_tile_colliders,
            r.spawn_object_colliders,
            r.include_invisible_layers,
    {
        TiledPhysicsOptions {
            spawn_tile_colliders: true,
            spawn_object_colliders: true,
            include_invisible_layers: true,
        }
    }
}

impl Default for TiledPhysicsOptions {
    fn default() -> (r: TiledPhysicsOptions)
        ensures
            r.spawn_tile_colliders,
            r.spawn_object_colliders,
            r.include_invisible_layers,
    {
        Self::default_options()
    }
}

/// Entities spawned for one Tiled physics import.
#[derive(Debug)]
pub struct TiledPhysicsInstance {
    pub entities: Vec<EntityId>,
}

/// The ids of `entities`.
pub open spec fn entity_ids(entities: Seq<EntityId>) -> Set<u64> {
    Set::new(|id: u64| exists|i: int| 0 <= i < entities.len() && (#[trigger] entities[i]).0 == id)
}

impl TiledPhysicsInstance {
    /// Removes every entity of the instance from `world`.
    pub fn despawn(self, world: &mut World)
        requires
            old(world).wf(),
        ensures
            final(world).wf(),
            final(world).live() == old(world).live().difference(entity_ids(self.entities@)),
    {
        let entities = self.entities;
        let mut i: usize = 0;
        assert(old(world).live() =~= old(world).live().difference(entity_ids(entities@.take(0))));
        while i < entities.len()
            invariant
                i <= entities.len(),
                world.wf(),
                world.live() == old(world).live().difference(entity_ids(entities@.take(i as int))),
            decreases entities.len() - i,
        {
            let _ = world.despawn(entities[i]);
            proof {
                let next = entities@.take(i + 1);
                assert(next =~= entities@.take(i as int).push(entities@[i as int]));
                assert forall|x: u64| #[trigger] entity_ids(next).contains(x) == (entity_ids(
                    entities@.take(i as int),
                ).contains(x) || x == entities@[i as int].0) by {
                    if entity_ids(next).contains(x) {
                        let k = choose|k: int| 0 <= k < next.len() && (#[trigger] next[k]).0 == x;
                        if k < i {
                            assert(entities@.take(i as int)[k] == next[k]);
                        }
                    }
                    if entity_ids(entities@.take(i as int)).contains(x) {
                        let k = choose|k: int|
                            0 <= k < i && (#[trigger] entities@.take(i as int)[k]).0 == x;
                        assert(next[k] == entities@.take(i as int)[k]);
                    }
                    if x == entities@[i as int].0 {
                        assert(next[i as int] == entities@[i as int]);
                    }
                }
                assert(world.live() =~= old(world).live().difference(entity_ids(next)));
            }
            i = i + 1;
        }
        assert(entities@.take(i as int) =~= entities@);
    }
}

/// Why physics colliders could not be spawned from a Tiled import.
#[derive(Debug)]
pub enum TiledPhysicsError {
    UnsupportedTileOrientation { orientation: TilemapOrientation },
    UnsupportedObjectShape { layer: String, object_id: u32, shape: &'static str },
}

/// What a tile layer's `solid` and `trigger` properties say.
#[derive(Clone, Copy, Debug, PartialEq, Eq, Structural)]
pub struct LayerCollision {
    pub solid: bool,
    pub trigger: bool,
}

/// What the `solid` and `trigger` properties of each tile of a tileset say,
/// by tile id (ids past the end have neither).
#[derive(Clone, Debug)]
pub struct TilesetCollision {
    pub solid: Vec<bool>,
    pub trigger: Vec<bool>,
}

/// The merged solid and trigger rectangles of one imported tile layer, in
/// cells of the tilemap.
#[derive(Debug)]
pub struct LayerColliderRects {
    pub layer_index: usize,
    pub solid: Vec<GridRect>,
    pub trigger: Vec<GridRect>,
}

pub open spec fn flag_at(v: Seq<bool>, i: int) -> bool {
    0 <= i < v.len() && v[i]
}

/// Some tile of the tileset is solid or a trigger.
pub open spec fn tileset_has_collision_tiles(t: TilesetCollision) -> bool {
    exists|i: int| flag_at(t.solid@, i) || flag_at(t.trigger@, i)
}

/// Index of the first layer imported from source layer `source`.
pub open spec fn first_layer_of_source(layers: Seq<TiledLayer>, source: usize) -> Option<int>
    decreases layers.len(),
{
    if layers.len() == 0 {
        None
    } else {
        match first_layer_of_source(layers.drop_last(), source) {
            Some(i) => Some(i),
            None => if layers.last().source_layer == source {
                Some(layers.len() - 1)
            } else {
                None
            },
        }
    }
}

/// The tileset of the first layer imported from `source` has collision tiles.
pub open spec fn source_has_collision_tiles(
    layers: Seq<TiledLayer>,
    tilesets: Seq<TilesetCollision>,
    source: usize,
) -> bool {
    match first_layer_of_source(layers, source) {
        Some(i) => layers[i].tileset_index < tilesets.len() && tileset_has_collision_tiles(
            tilesets[layers[i].tileset_index as int],
        ),
        None => false,
    }
}

pub open spec fn layer_included(layer: TiledLayer, include_invisible: bool) -> bool {
    include_invisible || layer.visible
}

/// Some layer that colliders are made for is solid, a trigger, or has
/// collision tiles.
pub open spec fn has_tile_collision(
    layers: Seq<TiledLayer>,
    collision: Seq<LayerCollision>,
    tilesets: Seq<TilesetCollision>,
    include_invisible: bool,
) -> bool {
    exists|l: int|
        0 <= l < layers.len() && layer_included(#[trigger] layers[l], include_invisible) && (
        collision[l].solid || collision[l].trigger || source_has_collision_tiles(
            layers,
            tilesets,
            layers[l].source_layer,
        ))
}

/// Indices of the layers that colliders are made for, in order.
pub open spec fn included_layers(layers: Seq<TiledLayer>, include_invisible: bool) -> Seq<usize>
    decreases layers.len(),
{
    if layers.len() == 0 {
        Seq::empty()
    } else {
        let rest = included_layers(layers.drop_last(), include_invisible);
        if layer_included(layers.last(), include_invisible) {
            rest.push((layers.len() - 1) as usize)
        } else {
            rest
        }
    }
}

/// The tile that the placements leave at cell `(x, y)` of storage layer
/// `layer`: that of the last placement there.
pub open spec fn tile_at(tiles: Seq<PlacedTile>, layer: u32, x: int, y: int) -> Option<Tile>
    decreases tiles.len(),
{
    if tiles.len() == 0 {
        None
    } else if tiles.last().layer == layer && tiles.last().x == x && tiles.last().y == y {
        Some(tiles.last().tile)
    } else {
        tile_at(tiles.drop_last(), layer, x, y)
    }
}

/// The `solid` (or, with `trigger`, the `trigger`) property of tile `id` of
/// tileset `tileset`.
pub open spec fn tile_flag(tilesets: Seq<TilesetCollision>, tileset: usize, id: int, trigger: bool) -> bool {
    tileset < tilesets.len() && flag_at(
        if trigger {
            tilesets[tileset as int].trigger@
        } else {
            tilesets[tileset as int].solid@
        },
        id,
    )
}

/// A tile is a trigger if its layer or the tile says so; otherwise it is
/// solid if its layer or the tile says so.
pub open spec fn tile_class(
    layer: LayerCollision,
    tilesets: Seq<TilesetCollision>,
    tileset: usize,
    tile: Tile,
    trigger: bool,
) -> bool {
    let is_trigger = layer.trigger || tile_flag(tilesets, tileset, tile.id.0 as int, true);
    let is_solid = is_trigger || layer.solid || tile_flag(tilesets, tileset, tile.id.0 as int, false);
    if trigger {
        is_trigger
    } else {
        is_solid && !is_trigger
    }
}

/// The row-major grid of the cells of storage layer `layer` whose tile is
/// solid (or, with `trigger`, a trigger).
pub open spec fn collision_grid(
    tiles: Seq<PlacedTile>,
    layer: u32,
    width: int,
    height: int,
    collision: LayerCollision,
    tilesets: Seq<TilesetCollision>,
    tileset: usize,
    trigger: bool,
) -> Seq<bool> {
    Seq::new(
        (width * height) as nat,
        |i: int|
            match tile_at(tiles, layer, i % width, i / width) {
                Some(t) => tile_class(collision, tilesets, tileset, t, trigger),
                None => false,
            },
    )
}

/// The grid of imported layer `l` of `import`.
pub open spec fn layer_grid(
    import: TiledImport,
    l: int,
    collision: Seq<LayerCollision>,
    tilesets: Seq<TilesetCollision>,
    trigger: bool,
) -> Seq<bool> {
    collision_grid(
        import.tiles@,
        import.layers@[l].storage_layer,
        import.map.width as int,
        import.map.height as int,
        collision[l],
        tilesets,
        import.layers@[l].tileset_index,
        trigger,
    )
}

/// `r` holds the greedy merges of the solid cells and of the trigger cells
/// of imported layer `l`.
pub open spec fn is_layer_collider_rects(
    import: TiledImport,
    collision: Seq<LayerCollision>,
    tilesets: Seq<TilesetCollision>,
    r: LayerColliderRects,
    l: int,
) -> bool {
    &&& r.layer_index == l
    &&& greedy_cover(
        layer_grid(import, l, collision, tilesets, false),
        import.map.width as int,
        import.map.height as int,
        r.solid@,
    )
    &&& greedy_cover(
        layer_grid(import, l, collision, tilesets, true),
        import.map.width as int,
        import.map.height as int,
        r.trigger@,
    )
}

/// `rects` holds, for each of the first `n` layers that colliders are made
/// for, its merged rectangles.
pub open spec fn collider_rects_upto(
    import: TiledImport,
    collision: Seq<LayerCollision>,
    tilesets: Seq<TilesetCollision>,
    include_invisible: bool,
    rects: Seq<LayerColliderRects>,
    n: int,
) -> bool {
    let layers = included_layers(import.layers@.take(n), include_invisible);
    &&& rects.len() == layers.len()
    &&& forall|k: int|
        0 <= k < rects.len() ==> is_layer_collider_rects(
            import,
            collision,
            tilesets,
            #[trigger] rects[k],
            layers[k] as int,
        )
}

/// `rects` holds, for each layer that colliders are made for, the greedy
/// merge of its solid cells and of its trigger cells.
pub open spec fn tile_collider_rects(
    import: TiledImport,
    collision: Seq<LayerCollision>,
    tilesets: Seq<TilesetCollision>,
    include_invisible: bool,
    rects: Seq<LayerColliderRects>,
) -> bool {
    collider_rects_upto(
        import,
        collision,
        tilesets,
        include_invisible,
        rects,
        import.layers@.len() as int,
    )
}

proof fn lemma_index_cell(width: int, height: int, i: int)
    requires
        width > 0,
        0 <= i < width * height,
    ensures
        in_grid(width, height, i % width, i / width),
        cell_index(width, i % width, i / width) == i,
{
    vstd::arithmetic::div_mod::lemma_fundamental_div_mod(i, width);
    vstd::arithmetic::div_mod::lemma_mod_pos_bound(i, width);
    assert(i / width >= 0) by (nonlinear_arith)
        requires
            width > 0,
            i >= 0,
    ;
    assert(i / width < height) by (nonlinear_arith)
        requires
            width > 0,
            0 <= i < width * height,
            i == width * (i / width) + i % width,
            0 <= i % width < width,
    ;
    assert(cell_index(width, i % width, i / width) == i) by (nonlinear_arith)
        requires
            i == width * (i / width) + i % width,
    ;
}

proof fn lemma_cell_index_mod(width: int, x: int, y: int)
    requires
        width > 0,
        0 <= x < width,
        0 <= y,
    ensures
        cell_index(width, x, y) % width == x,
        cell_index(width, x, y) / width == y,
{
    vstd::arithmetic::div_mod::lemma_fundamental_div_mod_converse(cell_index(width, x, y), width, y, x);
}

/// The solid and trigger grids of storage layer `layer`, from the placements.
fn collision_grids(
    tiles: &Vec<PlacedTile>,
    layer: u32,
    width: usize,
    height: usize,
    collision: LayerCollision,
    tilesets: &Vec<TilesetCollision>,
    tileset: usize,
) -> (r: (Vec<bool>, Vec<bool>))
    requires
        width * height <= usize::MAX,
    ensures
        r.0@ == collision_grid(tiles@, layer, width as int, height as int, collision, tilesets@, tileset, false),
        r.1@ == collision_grid(tiles@, layer, width as int, height as int, collision, tilesets@, tileset, true),
{
    let n: usize = width * height;
    let mut solid: Vec<bool> = Vec::new();
    let mut trigger: Vec<bool> = Vec::new();
    while solid.len() < n
        invariant
            solid.len() == trigger.len() <= n,
            forall|i: int| 0 <= i < solid.len() ==> !solid@[i] && !trigger@[i],
        decreases n - solid.len(),
    {
        solid.push(false);
        trigger.push(false);
    }
    assert(tiles@.take(0) =~= Seq::<PlacedTile>::empty());
    assert(solid@ =~= collision_grid(tiles@.take(0), layer, width as int, height as int, collision, tilesets@, tileset, false));
    assert(trigger@ =~= collision_grid(tiles@.take(0), layer, width as int, height as int, collision, tilesets@, tileset, true));
    let mut k: usize = 0;
    while k < tiles.len()
        invariant
            k <= tiles.len(),
            n == width * height,
            solid@ == collision_grid(tiles@.take(k as int), layer, width as int, height as int, collision, tilesets@, tileset, false),
            trigger@ == collision_grid(tiles@.take(k as int), layer, width as int, height as int, collision, tilesets@, tileset, true),
        decreases tiles.len() - k,
    {
        let p = tiles[k];
        let ghost before = tiles@.take(k as int);
        let ghost after = tiles@.take(k + 1);
        assert(after.drop_last() =~= before);
        assert(after.last() == p);
        if p.layer == layer && (p.x as usize) < width && (p.y as usize) < height {
            let x = p.x as usize;
            let y = p.y as usize;
            assert(y * width + x < width * height) by (nonlinear_arith)
                requires
                    x < width,
                    y < height,
            ;
            let index = y * width + x;
            let id = p.tile.id.0 as usize;
            let mut tile_trigger = false;
            let mut tile_solid = false;
            if tileset < tilesets.len() {
                let t = &tilesets[tileset];
                tile_trigger = id < t.trigger.len() && t.trigger[id];
                tile_solid = id < t.solid.len() && t.solid[id];
            }
            let is_trigger = collision.trigger || tile_trigger;
            let is_solid = is_trigger || collision.solid || tile_solid;
            solid.set(index, is_solid && !is_trigger);
            trigger.set(index, is_trigger);
            proof {
                lemma_cell_index_mod(width as int, x as int, y as int);
                assert forall|i: int| 0 <= i < n implies #[trigger] tile_at(after, layer, i % (width as int), i / (width as int))
                    == if i == index { Some(p.tile) } else { tile_at(before, layer, i % (width as int), i / (width as int)) } by {
                    lemma_index_cell(width as int, height as int, i);
                }
                assert(solid@ =~= collision_grid(after, layer, width as int, height as int, collision, tilesets@, tileset, false));
                assert(trigger@ =~= collision_grid(after, layer, width as int, height as int, collision, tilesets@, tileset, true));
            }
        } else {
            proof {
                assert forall|i: int| 0 <= i < n implies #[trigger] tile_at(after, layer, i % (width as int), i / (width as int))
                    == tile_at(before, layer, i % (width as int), i / (width as int)) by {
                    if width > 0 {
                        lemma_index_cell(width as int, height as int, i);
                    }
                }
                assert(solid@ =~= collision_grid(after, layer, width as int, height as int, collision, tilesets@, tileset, false));
                assert(trigger@ =~= collision_grid(after, layer, width as int, height as int, collision, tilesets@, tileset, true));
            }
        }
        k = k + 1;
    }
    assert(tiles@.take(k as int) =~= tiles@);
    (solid, trigger)
}

proof fn lemma_first_layer_of_source_extends(layers: Seq<TiledLayer>, k: int, source: usize)
    requires
        0 <= k <= layers.len(),
        first_layer_of_source(layers.take(k), source) is Some,
    ensures
        first_layer_of_source(layers, source) == first_layer_of_source(layers.take(k), source),
    decreases layers.len(),
{
    if k < layers.len() {
        assert(layers.drop_last().take(k) =~= layers.take(k));
        lemma_first_layer_of_source_extends(layers.drop_last(), k, source);
    } else {
        assert(layers.take(k) =~= layers);
    }
}

fn tileset_has_collision(t: &TilesetCollision) -> (r: bool)
    ensures
        r == tileset_has_collision_tiles(*t),
{
    let mut i: usize = 0;
    while i < t.solid.len()
        invariant
            i <= t.solid.len(),
            forall|j: int| 0 <= j < i ==> !t.solid@[j],
        decreases t.solid.len() - i,
    {
        if t.solid[i] {
            assert(flag_at(t.solid@, i as int));
            return true;
        }
        i = i + 1;
    }
    let mut i: usize = 0;
    while i < t.trigger.len()
        invariant
            i <= t.trigger.len(),
            forall|j: int| 0 <= j < t.solid@.len() ==> !t.solid@[j],
            forall|j: int| 0 <= j < i ==> !t.trigger@[j],
        decreases t.trigger.len() - i,
    {
        if t.trigger[i] {
            assert(flag_at(t.trigger@, i as int));
            return true;
        }
        i = i + 1;
    }
    false
}

fn source_collision_tiles(
    layers: &Vec<TiledLayer>,
    tilesets: &Vec<TilesetCollision>,
    source: usize,
) -> (r: bool)
    ensures
        r == source_has_collision_tiles(layers@, tilesets@, source),
{
    let mut i: usize = 0;
    assert(layers@.take(0) =~= Seq::<TiledLayer>::empty());
    while i < layers.len()
        invariant
            i <= layers.len(),
            first_layer_of_source(layers@.take(i as int), source) is None,
        decreases layers.len() - i,
    {
        let ghost after = layers@.take(i + 1);
        assert(after.drop_last() =~= layers@.take(i as int));
        if layers[i].source_layer == source {
            proof {
                lemma_first_layer_of_source_extends(layers@, i + 1, source);
            }
            let t = layers[i].tileset_index;
            if t < tilesets.len() {
                return tileset_has_collision(&tilesets[t]);
            } else {
                return false;
            }
        }
        i = i + 1;
    }
    assert(layers@.take(i as int) =~= layers@);
    false
}

/// The merged solid and trigger rectangles of imported layer `l`.
fn layer_collider_rects(
    import: &TiledImport,
    l: usize,
    collision: &Vec<LayerCollision>,
    tilesets: &Vec<TilesetCollision>,
) -> (r: LayerColliderRects)
    requires
        l < import.layers.len() == collision.len(),
        import.map.width * import.map.height <= usize::MAX,
    ensures
        is_layer_collider_rects(*import, collision@, tilesets@, r, l as int),
{
    let width = import.map.width as usize;
    let height = import.map.height as usize;
    let layer = &import.layers[l];
    let (solid, trigger) = collision_grids(
        &import.tiles,
        layer.storage_layer,
        width,
        height,
        collision[l],
        tilesets,
        layer.tileset_index,
    );
    let solid_rects = merge_grid(solid.as_slice(), width, height);
    let trigger_rects = merge_grid(trigger.as_slice(), width, height);
    LayerColliderRects { layer_index: l, solid: solid_rects, trigger: trigger_rects }
}

/// Cell rectangles for the tile colliders of an import: for each tile layer
/// (invisible ones only if the options with_invisible them), the greedy merge of
/// its solid cells and of its trigger cells. Maps other than orthogonal
/// ones are refused if any such layer has collision.
pub fn collect_tile_colliders(
    import: &TiledImport,
    collision: &Vec<LayerCollision>,
    tilesets: &Vec<TilesetCollision>,
    options: TiledPhysicsOptions,
) -> (r: Result<Vec<LayerColliderRects>, TiledPhysicsError>)
    requires
        collision.len() == import.layers.len(),
        import.map.width * import.map.height <= usize::MAX,
    ensures
        if has_tile_collision(
            import.layers@,
            collision@,
            tilesets@,
            options.include_invisible_layers,
        ) && import.orientation != TilemapOrientation::Orthogonal {
            r matches Err(TiledPhysicsError::UnsupportedTileOrientation { orientation })
                && orientation == import.orientation
        } else {
            r matches Ok(v) && tile_collider_rects(
                *import,
                collision@,
                tilesets@,
                options.include_invisible_layers,
                v@,
            )
        },
{
    let with_invisible = options.include_invisible_layers;
    let mut found = false;
    let mut l: usize = 0;
    while l < import.layers.len()
        invariant
            l <= import.layers.len() == collision.len(),
            with_invisible == options.include_invisible_layers,
            found == exists|j: int|
                0 <= j < l && layer_included(#[trigger] import.layers@[j], with_invisible) && (
                collision@[j].solid || collision@[j].trigger || source_has_collision_tiles(
                    import.layers@,
                    tilesets@,
                    import.layers@[j].source_layer,
                )),
        decreases import.layers.len() - l,
    {
        let layer = &import.layers[l];
        if (with_invisible || layer.visible) && (collision[l].solid || collision[l].trigger
            || source_collision_tiles(&import.layers, tilesets, layer.source_layer)) {
            found = true;
        }
        l = l + 1;
    }
    if found && import.orientation != TilemapOrientation::Orthogonal {
        return Err(TiledPhysicsError::UnsupportedTileOrientation { orientation: import.orientation });
    }
    let width = import.map.width as usize;
    let height = import.map.height as usize;
    let mut out: Vec<LayerColliderRects> = Vec::new();
    let mut l: usize = 0;
    assert(import.layers@.take(0) =~= Seq::<TiledLayer>::empty());
    while l < import.layers.len()
        invariant
            l <= import.layers.len() == collision.len(),
            with_invisible == options.include_invisible_layers,
            width == import.map.width,
            height == import.map.height,
            width * height <= usize::MAX,
            collider_rects_upto(*import, collision@, tilesets@, with_invisible, out@, l as int),
        decreases import.layers.len() - l,
    {
        let ghost before = import.layers@.take(l as int);
        let ghost after = import.layers@.take(l + 1);
        assert(after.drop_last() =~= before);
        assert(after.last() == import.layers@[l as int]);
        let layer = &import.layers[l];
        let ghost old_out = out@;
        let ghost old_included = included_layers(before, with_invisible);
        let ghost new_included = included_layers(after, with_invisible);
        if with_invisible || layer.visible {
            let rects = layer_collider_rects(import, l, collision, tilesets);
            out.push(rects);
            assert(new_included == old_included.push(l));
        } else {
            assert(new_included == old_included);
        }
        assert forall|k: int| 0 <= k < out@.len() implies is_layer_collider_rects(
            *import,
            collision@,
            tilesets@,
            #[trigger] out@[k],
            new_included[k] as int,
        ) by {
            if k < old_out.len() {
                assert(out@[k] == old_out[k]);
                assert(new_included[k] == old_included[k]);
            }
        }
        l = l + 1;
    }
    assert(import.layers@.take(l as int) =~= import.layers@);
    proof {
        if has_tile_collision(import.layers@, collision@, tilesets@, with_invisible) {
            let j = choose|j: int|
                0 <= j < import.layers@.len() && layer_included(#[trigger] import.layers@[j], with_invisible)
                    && (collision@[j].solid || collision@[j].trigger || source_has_collision_tiles(
                    import.layers@,
                    tilesets@,
                    import.layers@[j].source_layer,
                ));
            assert(found);
        }
    }
    Ok(out)
}

/// How `Debug` names an orientation.
pub open spec fn orientation_name(o: TilemapOrientation) -> Seq<char> {
    match o {
        TilemapOrientation::Orthogonal => "Orthogonal"@,
        TilemapOrientation::Isometric => "Isometric"@,
        TilemapOrientation::Staggered => "Staggered"@,
        TilemapOrientation::Hexagonal => "Hexagonal"@,
    }
}

/// The message of a physics import error.
pub open spec fn physics_error_message(e: TiledPhysicsError) -> Seq<char> {
    match e {
        TiledPhysicsError::UnsupportedTileOrientation { orientation } =>
            "tile colliders are only supported for orthogonal maps in v1; got "@ + orientation_name(
            orientation,
        ),
        TiledPhysicsError::UnsupportedObjectShape { layer, object_id, shape } => "object "@
            + decimal(object_id as nat) + " in layer '"@ + layer@ + "' uses unsupported physics shape "@
            + shape@,
    }
}

impl TiledPhysicsError {
    /// The error's message, as `Display` shows it.
    pub fn message(&self) -> (r: String)
        ensures
            r@ == physics_error_message(*self),
    {
        match self {
            TiledPhysicsError::UnsupportedTileOrientation { orientation } => {
                let mut s = String::from_str(
                    "tile colliders are only supported for orthogonal maps in v1; got ",
                );
                let name = match orientation {
                    TilemapOrientation::Orthogonal => "Orthogonal",
                    TilemapOrientation::Isometric => "Isometric",
                    TilemapOrientation::Staggered => "Staggered",
                    TilemapOrientation::Hexagonal => "Hexagonal",
                };
                s.append(name);
                s
            },
            TiledPhysicsError::UnsupportedObjectShape { layer, object_id, shape } => {
                let mut s = String::from_str("object ");
                let id = decimal_string(*object_id as u64);
                s.append(id.as_str());
                s.append(" in layer '");
                s.append(layer.as_str());
                s.append("' uses unsupported physics shape ");
                s.append(shape);
                s
            },
        }
    }
}


/// Law: in the collision grids of a tile layer, a cell is a trigger exactly
/// when it holds a tile and the layer or that tile has the trigger
/// property, whatever either's solid property says; it is solid exactly
/// when it holds a tile, is no trigger, and the layer or the tile is solid.
pub proof fn lemma_trigger_wins_over_solid(
    tiles: Seq<PlacedTile>,
    layer: u32,
    width: int,
    height: int,
    collision: LayerCollision,
    tilesets: Seq<TilesetCollision>,
    tileset: usize,
    i: int,
)
    requires
        width > 0,
        0 <= i < width * height,
    ensures
        ({
            let cell = tile_at(tiles, layer, i % width, i / width);
            let tile_trigger = cell matches Some(t) && tileset < tilesets.len() && 0 <= t.id.0
                < tilesets[tileset as int].trigger@.len()
                && tilesets[tileset as int].trigger@[t.id.0 as int];
            let tile_solid = cell matches Some(t) && tileset < tilesets.len() && 0 <= t.id.0
                < tilesets[tileset as int].solid@.len() && tilesets[tileset as int].solid@[t.id.0 as int];
            let trigger = collision_grid(tiles, layer, width, height, collision, tilesets, tileset, true)[i];
            let solid = collision_grid(tiles, layer, width, height, collision, tilesets, tileset, false)[i];
            &&& trigger <==> (cell is Some && (collision.trigger || tile_trigger))
            &&& solid <==> (cell is Some && !(collision.trigger || tile_trigger) && (collision.solid
                || tile_solid))
            &&& !(trigger && solid)
        }),
{
}

} // verus!
