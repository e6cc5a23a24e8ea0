use crate::tilemap::types::TileChunkBounds;
use crate::tilemap::types::Tilemap;
use crate::tilemap::types::TilemapOrientation;
use crate::tilemap::types::TilemapRenderOrder;
use crate::tilemap::types::TilemapRenderer;
use vstd::prelude::*;

verus! {

/// Rows are visited from the highest engine row down (Tiled's "down").
pub open spec fn goes_down(order: TilemapRenderOrder) -> bool {
    order == TilemapRenderOrder::RightDown || order == TilemapRenderOrder::LeftDown
}

/// Columns are visited from left to right.
pub open spec fn goes_right(order: TilemapRenderOrder) -> bool {
    order == TilemapRenderOrder::RightDown || order == TilemapRenderOrder::RightUp
}

/// Position `r * w + c` of step `(r, c)` in a row-major walk of rows `w` wide.
pub open spec fn row_major(w: int, r: int, c: int) -> int {
    r * w + c
}

/// Engine column of the cell visited at column step `c`.
pub open spec fn ordered_x(b: TileChunkBounds, order: TilemapRenderOrder, c: int) -> int {
    if goes_right(order) {
        b.x + c
    } else {
        b.x + b.width - 1 - c
    }
}

/// Engine row of the cell visited at row step `r`.
pub open spec fn ordered_y(b: TileChunkBounds, order: TilemapRenderOrder, r: int) -> int {
    if goes_down(order) {
        b.y + b.height - 1 - r
    } else {
        b.y + r
    }
}

/// `cells` lists every cell of `b` once, row by row, in the walk that
/// `order` describes: Tiled's "down" visits the highest engine row first,
/// "left" the highest column first.
pub open spec fn is_ordered_walk(
    cells: Seq<(u32, u32)>,
    b: TileChunkBounds,
    order: TilemapRenderOrder,
) -> bool {
    &&& cells.len() == b.width * b.height
    &&& forall|r: int, c: int|
        0 <= r < b.height && 0 <= c < b.width ==> (#[trigger] cells[row_major(
            b.width as int,
            r,
            c,
        )]).0 == ordered_x(b, order, c) && cells[row_major(b.width as int, r, c)].1 == ordered_y(
            b,
            order,
            r,
        )
}

proof fn lemma_row_major_before(w: int, r1: int, c1: int, r2: int, c2: int)
    requires
        0 <= r1 < r2,
        0 <= c1 < w,
        0 <= c2,
    ensures
        row_major(w, r1, c1) < row_major(w, r2, c2),
{
    assert(r1 * w + c1 < r2 * w + c2) by (nonlinear_arith)
        requires
            0 <= r1 < r2,
            0 <= c1 < w,
            0 <= c2,
    ;
}

/// Every cell of `bounds`, in the order Tiled's `render_order` draws them.
pub fn for_each_ordered_cell(bounds: TileChunkBounds, render_order: TilemapRenderOrder) -> (cells:
    Vec<(u32, u32)>)
    requires
        bounds.x + bounds.width <= u32::MAX,
        bounds.y + bounds.height <= u32::MAX,
    ensures
        is_ordered_walk(cells@, bounds, render_order),
{
    let w = bounds.width;
    let h = bounds.height;
    let down = match render_order {
        TilemapRenderOrder::RightDown | TilemapRenderOrder::LeftDown => true,
        _ => false,
    };
    let right = match render_order {
        TilemapRenderOrder::RightDown | TilemapRenderOrder::RightUp => true,
        _ => false,
    };
    let mut cells: Vec<(u32, u32)> = Vec::new();
    let mut r: u32 = 0;
    while r < h
        invariant
            w == bounds.width,
            h == bounds.height,
            bounds.x + bounds.width <= u32::MAX,
            bounds.y + bounds.height <= u32::MAX,
            down == goes_down(render_order),
            right == goes_right(render_order),
            r <= h,
            cells.len() == r * w,
            forall|r1: int, c1: int|
                0 <= r1 < r && 0 <= c1 < w ==> (#[trigger] cells@[row_major(w as int, r1, c1)]).0
                    == ordered_x(bounds, render_order, c1) && cells@[row_major(
                    w as int,
                    r1,
                    c1,
                )].1 == ordered_y(bounds, render_order, r1),
        decreases h - r,
    {
        let y = if down {
            bounds.y + h - 1 - r
        } else {
            bounds.y + r
        };
        let mut c: u32 = 0;
        while c < w
            invariant
                w == bounds.width,
                h == bounds.height,
                bounds.x + bounds.width <= u32::MAX,
                bounds.y + bounds.height <= u32::MAX,
                right == goes_right(render_order),
                r < h,
                c <= w,
                y == ordered_y(bounds, render_order, r as int),
                cells.len() == r * w + c,
                forall|r1: int, c1: int|
                    (0 <= r1 < r && 0 <= c1 < w) || (r1 == r && 0 <= c1 < c) ==> (
                    #[trigger] cells@[row_major(w as int, r1, c1)]).0 == ordered_x(
                        bounds,
                        render_order,
                        c1,
                    ) && cells@[row_major(w as int, r1, c1)].1 == ordered_y(
                        bounds,
                        render_order,
                        r1,
                    ),
            decreases w - c,
        {
            let x = if right {
                bounds.x + c
            } else {
                bounds.x + w - 1 - c
            };
            let ghost before = cells@;
            cells.push((x, y));
            assert forall|r1: int, c1: int|
                (0 <= r1 < r && 0 <= c1 < w) || (r1 == r && 0 <= c1 < c + 1) implies (
            #[trigger] cells@[row_major(w as int, r1, c1)]).0 == ordered_x(
                bounds,
                render_order,
                c1,
            ) && cells@[row_major(w as int, r1, c1)].1 == ordered_y(bounds, render_order, r1) by {
                if r1 < r {
                    lemma_row_major_before(w as int, r1, c1, r as int, c as int);
                    assert(cells@[row_major(w as int, r1, c1)] == before[row_major(
                        w as int,
                        r1,
                        c1,
                    )]);
                } else if c1 < c {
                    assert(cells@[row_major(w as int, r1, c1)] == before[row_major(
                        w as int,
                        r1,
                        c1,
                    )]);
                }
            }
            c = c + 1;
        }
        assert((r + 1) * w == r * w + w) by (nonlinear_arith);
        r = r + 1;
    }
    assert(r * w == w * h) by (nonlinear_arith)
        requires
            r == h,
    ;
    cells
}

/// The chunk grid of `map` as cell bounds: one cell per chunk.
pub open spec fn chunk_grid(map: Tilemap) -> TileChunkBounds {
    TileChunkBounds {
        x: 0,
        y: 0,
        width: crate::tilemap::types::chunk_count_for(map.width as int) as u32,
        height: crate::tilemap::types::chunk_count_for(map.height as int) as u32,
    }
}

/// Every chunk of `map`, in the order Tiled's `render_order` draws them.
pub fn for_each_ordered_chunk(map: &Tilemap, render_order: TilemapRenderOrder) -> (chunks: Vec<
    (u32, u32),
>)
    ensures
        is_ordered_walk(chunks@, chunk_grid(*map), render_order),
{
    let bounds = TileChunkBounds {
        x: 0,
        y: 0,
        width: map.chunk_columns(),
        height: map.chunk_rows(),
    };
    for_each_ordered_cell(bounds, render_order)
}

/// The sort key of chunk `p` in an isometric map of `cols` x `rows` chunks:
/// first the distance from the far corner's diagonal, then the screen column.
pub open spec fn iso_before(cols: int, rows: int, a: (u32, u32), b: (u32, u32)) -> bool {
    let max_diagonal = cols + rows - 2;
    let ka = max_diagonal - (a.0 + a.1);
    let kb = max_diagonal - (b.0 + b.1);
    ka < kb || (ka == kb && a.0 - a.1 < b.0 - b.1)
}

pub open spec fn in_chunk_grid(cols: int, rows: int, p: (u32, u32)) -> bool {
    p.0 < cols && p.1 < rows
}

pub open spec fn lists_cell(s: Seq<(u32, u32)>, x: int, y: int) -> bool {
    exists|i: int| 0 <= i < s.len() && (#[trigger] s[i]).0 == x && s[i].1 == y
}

/// `coords` holds every chunk of a `cols` x `rows` grid once, sorted by the
/// isometric draw key.
pub open spec fn is_isometric_order(cols: int, rows: int, coords: Seq<(u32, u32)>) -> bool {
    &&& forall|i: int| 0 <= i < coords.len() ==> in_chunk_grid(cols, rows, #[trigger] coords[i])
    &&& forall|i: int, j: int|
        0 <= i < j < coords.len() ==> iso_before(cols, rows, #[trigger] coords[i], #[trigger] coords[j])
    &&& forall|x: int, y: int| 0 <= x < cols && 0 <= y < rows ==> #[trigger] lists_cell(coords, x, y)
}

proof fn lemma_lists_cell_push(s: Seq<(u32, u32)>, p: (u32, u32), x: int, y: int)
    ensures
        lists_cell(s, x, y) ==> lists_cell(s.push(p), x, y),
        (p.0 == x && p.1 == y) ==> lists_cell(s.push(p), x, y),
{
    let t = s.push(p);
    if lists_cell(s, x, y) {
        let i = choose|i: int| 0 <= i < s.len() && (#[trigger] s[i]).0 == x && s[i].1 == y;
        assert(t[i] == s[i]);
    }
    if p.0 == x && p.1 == y {
        assert(t[s.len() as int] == p);
    }
}

/// Chunks of a `cols` x `rows` grid in isometric draw order: far diagonals
/// first, and within a diagonal from the left of the screen to the right.
fn isometric_chunk_coords(cols: u32, rows: u32) -> (coords: Vec<(u32, u32)>)
    requires
        cols + rows <= u32::MAX,
    ensures
        is_isometric_order(cols as int, rows as int, coords@),
{
    let mut coords: Vec<(u32, u32)> = Vec::new();
    if cols == 0 || rows == 0 {
        return coords;
    }
    let max_diagonal = cols + rows - 2;
    let mut k: u32 = 0;
    while k <= max_diagonal
        invariant
            1 <= cols,
            1 <= rows,
            cols + rows <= u32::MAX,
            max_diagonal == cols + rows - 2,
            k <= max_diagonal + 1,
            forall|i: int|
                0 <= i < coords.len() ==> in_chunk_grid(cols as int, rows as int, #[trigger] coords@[i]),
            forall|i: int|
                0 <= i < coords.len() ==> max_diagonal - ((#[trigger] coords@[i]).0 + coords@[i].1)
                    < k,
            forall|i: int, j: int|
                0 <= i < j < coords.len() ==> iso_before(
                    cols as int,
                    rows as int,
                    #[trigger] coords@[i],
                    #[trigger] coords@[j],
                ),
            forall|x: int, y: int|
                0 <= x < cols && 0 <= y < rows && max_diagonal - (x + y) < k ==> #[trigger] lists_cell(
                    coords@,
                    x,
                    y,
                ),
        decreases max_diagonal + 1 - k,
    {
        let diagonal = max_diagonal - k;
        let lo = if diagonal > rows - 1 {
            diagonal - (rows - 1)
        } else {
            0
        };
        let hi = if diagonal < cols - 1 {
            diagonal
        } else {
            cols - 1
        };
        let mut x = lo;
        while x <= hi
            invariant
                1 <= cols,
                1 <= rows,
                cols + rows <= u32::MAX,
                max_diagonal == cols + rows - 2,
                k <= max_diagonal,
                diagonal == max_diagonal - k,
                lo <= x <= hi + 1,
                hi < cols,
                hi <= diagonal,
                lo + rows - 1 >= diagonal,
                forall|i: int|
                    0 <= i < coords.len() ==> in_chunk_grid(
                        cols as int,
                        rows as int,
                        #[trigger] coords@[i],
                    ),
                forall|i: int|
                    0 <= i < coords.len() ==> max_diagonal - ((#[trigger] coords@[i]).0
                        + coords@[i].1) < k || (max_diagonal - (coords@[i].0 + coords@[i].1) == k
                        && coords@[i].0 < x),
                forall|i: int, j: int|
                    0 <= i < j < coords.len() ==> iso_before(
                        cols as int,
                        rows as int,
                        #[trigger] coords@[i],
                        #[trigger] coords@[j],
                    ),
                forall|cx: int, cy: int|
                    0 <= cx < cols && 0 <= cy < rows && (max_diagonal - (cx + cy) < k || (
                    max_diagonal - (cx + cy) == k && cx < x)) ==> #[trigger] lists_cell(
                        coords@,
                        cx,
                        cy,
                    ),
            decreases hi + 1 - x,
        {
            let p = (x, diagonal - x);
            let ghost before = coords@;
            coords.push(p);
            assert forall|i: int, j: int|
                0 <= i < j < coords.len() implies iso_before(
                cols as int,
                rows as int,
                #[trigger] coords@[i],
                #[trigger] coords@[j],
            ) by {
                if j < before.len() {
                    assert(coords@[i] == before[i]);
                    assert(coords@[j] == before[j]);
                } else {
                    assert(coords@[i] == before[i]);
                    assert(coords@[j] == p);
                }
            }
            assert forall|cx: int, cy: int|
                0 <= cx < cols && 0 <= cy < rows && (max_diagonal - (cx + cy) < k || (max_diagonal
                    - (cx + cy) == k && cx < x + 1)) implies #[trigger] lists_cell(
                coords@,
                cx,
                cy,
            ) by {
                lemma_lists_cell_push(before, p, cx, cy);
            }
            assert forall|i: int|
                0 <= i < coords.len() implies max_diagonal - ((#[trigger] coords@[i]).0
                + coords@[i].1) < k || (max_diagonal - (coords@[i].0 + coords@[i].1) == k
                && coords@[i].0 < x + 1) by {
                if i < before.len() {
                    assert(coords@[i] == before[i]);
                }
            }
            x = x + 1;
        }
        k = k + 1;
    }
    coords
}

/// Chunk coordinates of `map` in draw order. Orthogonal, staggered and
/// hexagonal maps walk the chunk grid as Tiled's render order says;
/// isometric maps draw far diagonals first, each from left to right on screen.
pub fn ordered_chunk_coords(
    map: &Tilemap,
    orientation: TilemapOrientation,
    render_order: TilemapRenderOrder,
) -> (coords: Vec<(u32, u32)>)
    ensures
        orientation != TilemapOrientation::Isometric ==> is_ordered_walk(
            coords@,
            chunk_grid(*map),
            render_order,
        ),
        orientation == TilemapOrientation::Isometric ==> is_isometric_order(
            crate::tilemap::types::chunk_count_for(map.width as int),
            crate::tilemap::types::chunk_count_for(map.height as int),
            coords@,
        ),
{
    match orientation {
        TilemapOrientation::Isometric => {
            let cols = map.chunk_columns();
            let rows = map.chunk_rows();
            isometric_chunk_coords(cols, rows)
        },
        _ => for_each_ordered_chunk(map, render_order),
    }
}

pub open spec fn min_int(a: int, b: int) -> int {
    if a <= b {
        a
    } else {
        b
    }
}

pub open spec fn max_int(a: int, b: int) -> int {
    if a >= b {
        a
    } else {
        b
    }
}

pub open spec fn sat_sub(a: int, b: int) -> int {
    if a >= b {
        a - b
    } else {
        0
    }
}

/// Draw rank of cell `(x, y)` in an orthogonal-style map: its position in
/// the walk of `renderer.render_order`, clamped into the map.
pub open spec fn ortho_cell_rank(map: Tilemap, renderer: TilemapRenderer, x: int, y: int) -> int {
    let height = max_int(map.height as int, 1);
    let width = max_int(map.width as int, 1);
    let tiled_y = height - 1 - min_int(y, height - 1);
    let row_rank = if goes_down(renderer.render_order) {
        tiled_y
    } else {
        height - 1 - tiled_y
    };
    let col_rank = if goes_right(renderer.render_order) {
        min_int(x, width - 1)
    } else {
        width - 1 - min_int(x, width - 1)
    };
    row_rank * width + col_rank
}

/// Draw rank of cell `(x, y)` in an isometric map: far diagonals first, then
/// the screen column.
pub open spec fn iso_cell_rank(map: Tilemap, x: int, y: int) -> int {
    let height = max_int(map.height as int, 1);
    let width = max_int(map.width as int, 1);
    let cy = min_int(y, height - 1);
    let cx = min_int(x, width - 1);
    let max_diagonal = sat_sub(min_int(width + height, u32::MAX as int), 2);
    let diagonal_rank = sat_sub(max_diagonal, min_int(cx + cy, u32::MAX as int));
    let screen_x_rank = cx + (height - 1 - cy);
    diagonal_rank * (width + height) + screen_x_rank
}

pub open spec fn cell_rank(map: Tilemap, renderer: TilemapRenderer, x: int, y: int) -> int {
    if renderer.orientation == TilemapOrientation::Isometric {
        iso_cell_rank(map, x, y)
    } else {
        ortho_cell_rank(map, renderer, x, y)
    }
}

/// Sort key of tile `(layer, x, y)`: the cell's draw rank, with the layers of
/// one cell next to each other in layer order.
pub open spec fn spec_tile_sort_order(
    map: Tilemap,
    renderer: TilemapRenderer,
    layer: int,
    x: int,
    y: int,
) -> int {
    let layer_count = max_int(map.layer_count as int, 1);
    let layer_rank = min_int(layer, sat_sub(map.layer_count as int, 1));
    cell_rank(map, renderer, x, y) * layer_count + layer_rank
}

proof fn lemma_affine_bounds(a: int, b: int, c: int)
    requires
        0 <= a,
        0 <= b,
        0 <= c,
    ensures
        0 <= a * b,
        a * b <= a * b + c,
{
    assert(0 <= a * b) by (nonlinear_arith)
        requires
            0 <= a,
            0 <= b,
    ;
}

proof fn lemma_scaled_bound(v: int, l: int, r: int)
    requires
        0 <= v,
        1 <= l,
        0 <= r,
    ensures
        v <= v * l,
        v * l <= v * l + r,
{
    assert(v <= v * l) by (nonlinear_arith)
        requires
            0 <= v,
            1 <= l,
    ;
}

fn ortho_cell_rank_u64(map: &Tilemap, renderer: &TilemapRenderer, x: u32, y: u32) -> (r: u64)
    requires
        ortho_cell_rank(*map, *renderer, x as int, y as int) <= u64::MAX,
    ensures
        r == ortho_cell_rank(*map, *renderer, x as int, y as int),
{
    let height: u32 = if map.height == 0 {
        1
    } else {
        map.height
    };
    let width: u32 = if map.width == 0 {
        1
    } else {
        map.width
    };
    let cy: u32 = if y < height - 1 {
        y
    } else {
        height - 1
    };
    let cx: u32 = if x < width - 1 {
        x
    } else {
        width - 1
    };
    let tiled_y: u32 = height - 1 - cy;
    let row_rank: u64 = match renderer.render_order {
        TilemapRenderOrder::RightDown | TilemapRenderOrder::LeftDown => tiled_y as u64,
        _ => (height - 1 - tiled_y) as u64,
    };
    let col_rank: u64 = match renderer.render_order {
        TilemapRenderOrder::RightDown | TilemapRenderOrder::RightUp => cx as u64,
        _ => (width - 1 - cx) as u64,
    };
    proof {
        lemma_affine_bounds(row_rank as int, width as int, col_rank as int);
    }
    row_rank * width as u64 + col_rank
}

fn iso_cell_rank_u64(map: &Tilemap, x: u32, y: u32) -> (r: u64)
    requires
        iso_cell_rank(*map, x as int, y as int) <= u64::MAX,
    ensures
        r == iso_cell_rank(*map, x as int, y as int),
{
    let height: u32 = if map.height == 0 {
        1
    } else {
        map.height
    };
    let width: u32 = if map.width == 0 {
        1
    } else {
        map.width
    };
    let cy: u32 = if y < height - 1 {
        y
    } else {
        height - 1
    };
    let cx: u32 = if x < width - 1 {
        x
    } else {
        width - 1
    };
    let sum: u32 = width.saturating_add(height);
    let max_diagonal: u32 = sum.saturating_sub(2);
    let diagonal: u32 = cx.saturating_add(cy);
    let diagonal_rank: u64 = max_diagonal.saturating_sub(diagonal) as u64;
    let screen_x_rank: u64 = cx as u64 + (height - 1 - cy) as u64;
    let diagonal_width: u64 = width as u64 + height as u64;
    proof {
        lemma_affine_bounds(diagonal_rank as int, diagonal_width as int, screen_x_rank as int);
    }
    diagonal_rank * diagonal_width + screen_x_rank
}

/// Sort key of tile `(layer, x, y)` of `map` for the draw order of `renderer`.
pub fn tile_sort_order(map: &Tilemap, renderer: &TilemapRenderer, layer: u32, x: u32, y: u32) -> (r:
    u64)
    requires
        spec_tile_sort_order(*map, *renderer, layer as int, x as int, y as int) <= u64::MAX,
    ensures
        r == spec_tile_sort_order(*map, *renderer, layer as int, x as int, y as int),
{
    let layer_count: u64 = if map.layer_count == 0 {
        1
    } else {
        map.layer_count as u64
    };
    let layer_limit: u32 = if map.layer_count == 0 {
        0
    } else {
        map.layer_count - 1
    };
    let layer_rank: u64 = if layer < layer_limit {
        layer as u64
    } else {
        layer_limit as u64
    };
    let ghost rank = cell_rank(*map, *renderer, x as int, y as int);
    proof {
        assert(rank >= 0) by {
            if renderer.orientation == TilemapOrientation::Isometric {
                let height = max_int(map.height as int, 1);
                let width = max_int(map.width as int, 1);
                let max_diagonal = sat_sub(min_int(width + height, u32::MAX as int), 2);
                let cy = min_int(y as int, height - 1);
                let cx = min_int(x as int, width - 1);
                lemma_affine_bounds(
                    sat_sub(max_diagonal, min_int(cx + cy, u32::MAX as int)),
                    width + height,
                    cx + (height - 1 - cy),
                );
            } else {
                let height = max_int(map.height as int, 1);
                let width = max_int(map.width as int, 1);
                let tiled_y = height - 1 - min_int(y as int, height - 1);
                let row_rank = if goes_down(renderer.render_order) {
                    tiled_y
                } else {
                    height - 1 - tiled_y
                };
                let col_rank = if goes_right(renderer.render_order) {
                    min_int(x as int, width - 1)
                } else {
                    width - 1 - min_int(x as int, width - 1)
                };
                lemma_affine_bounds(row_rank, width, col_rank);
            }
        }
        lemma_scaled_bound(rank, layer_count as int, layer_rank as int);
    }
    let rank_u64: u64 = match renderer.orientation {
        TilemapOrientation::Isometric => iso_cell_rank_u64(map, x, y),
        _ => ortho_cell_rank_u64(map, renderer, x, y),
    };
    rank_u64 * layer_count + layer_rank
}

/// Law: with the layers of a map in range, tile sort keys order tiles by
/// their cell's draw rank first, and the layers of one cell by layer index;
/// so layers interleave cell by cell.
pub proof fn lemma_tile_sort_order_interleaves_layers(
    map: Tilemap,
    renderer: TilemapRenderer,
    l1: int,
    x1: int,
    y1: int,
    l2: int,
    x2: int,
    y2: int,
)
    requires
        0 <= l1 < map.layer_count,
        0 <= l2 < map.layer_count,
        0 <= x1,
        0 <= y1,
        0 <= x2,
        0 <= y2,
    ensures
        (spec_tile_sort_order(map, renderer, l1, x1, y1) < spec_tile_sort_order(
            map,
            renderer,
            l2,
            x2,
            y2,
        )) <==> (cell_rank(map, renderer, x1, y1) < cell_rank(map, renderer, x2, y2) || (
        cell_rank(map, renderer, x1, y1) == cell_rank(map, renderer, x2, y2) && l1 < l2)),
{
    let n = map.layer_count as int;
    let a = cell_rank(map, renderer, x1, y1);
    let b = cell_rank(map, renderer, x2, y2);
    assert((a * n + l1 < b * n + l2) <==> (a < b || (a == b && l1 < l2))) by (nonlinear_arith)
        requires
            0 <= l1 < n,
            0 <= l2 < n,
    ;
}


/// Law: on a map of an orthogonal (or staggered or hexagonal) renderer, the
/// sort key of the bottom layer's tile in cell `cells[p]` of any walk of the
/// whole map in the renderer's render order is `p` (times the layer count):
/// tiles sort in exactly the order that render order walks their cells.
pub proof fn lemma_tile_sort_order_follows_render_order(
    map: Tilemap,
    renderer: TilemapRenderer,
    cells: Seq<(u32, u32)>,
    p: int,
)
    requires
        renderer.orientation != TilemapOrientation::Isometric,
        map.width >= 1,
        map.height >= 1,
        is_ordered_walk(
            cells,
            TileChunkBounds { x: 0, y: 0, width: map.width, height: map.height },
            renderer.render_order,
        ),
        0 <= p < cells.len(),
    ensures
        spec_tile_sort_order(map, renderer, 0, cells[p].0 as int, cells[p].1 as int) == p * (if map.layer_count
            >= 1 {
            map.layer_count as int
        } else {
            1
        }),
{
    let w = map.width as int;
    let h = map.height as int;
    let b = TileChunkBounds { x: 0, y: 0, width: map.width, height: map.height };
    let r = p / w;
    let c = p % w;
    vstd::arithmetic::div_mod::lemma_fundamental_div_mod(p, w);
    assert(0 <= c < w);
    assert(p == r * w + c);
    assert(0 <= r < h) by {
        assert(p < w * h);
        if r >= h {
            assert(r * w >= h * w) by (nonlinear_arith)
                requires
                    r >= h,
                    w >= 1,
            ;
        }
        assert(r >= 0) by (nonlinear_arith)
            requires
                p >= 0,
                w >= 1,
                r == p / w,
        ;
    }
    assert(row_major(w, r, c) == p);
    let cell = cells[row_major(w, r, c)];
    assert(cell.0 == ordered_x(b, renderer.render_order, c));
    assert(cell.1 == ordered_y(b, renderer.render_order, r));
    assert(ortho_cell_rank(map, renderer, cell.0 as int, cell.1 as int) == r * w + c);
}

} // verus!
