use vstd::prelude::*;

verus! {

/// A rectangle of cells in a row-major cell grid.
#[derive(Clone, Copy, Debug, PartialEq, Eq, Structural)]
pub struct GridRect {
    pub x: usize,
    pub y: usize,
    pub width: usize,
    pub height: usize,
}

/// Row-major index of cell `(x, y)` in a grid `width` cells wide.
pub open spec fn cell_index(width: int, x: int, y: int) -> int {
    y * width + x
}

/// The flag of cell `(x, y)` of a row-major grid.
pub open spec fn cell_at(cells: Seq<bool>, width: int, x: int, y: int) -> bool {
    cells[cell_index(width, x, y)]
}

pub open spec fn in_grid(width: int, height: int, x: int, y: int) -> bool {
    0 <= x < width && 0 <= y < height
}

pub open spec fn rect_contains(r: GridRect, x: int, y: int) -> bool {
    r.x <= x < r.x + r.width && r.y <= y < r.y + r.height
}

/// Some rectangle of `rects` holds cell `(x, y)`.
pub open spec fn covered(rects: Seq<GridRect>, x: int, y: int) -> bool {
    exists|i: int| 0 <= i < rects.len() && #[trigger] rect_contains(rects[i], x, y)
}

/// Cell `(x1, y1)` comes before `(x2, y2)` in a row-major scan.
pub open spec fn scan_before(x1: int, y1: int, x2: int, y2: int) -> bool {
    y1 < y2 || (y1 == y2 && x1 < x2)
}

/// Every cell of row `row` in span `[x, x + w)` is set and not yet covered.
pub open spec fn row_clear(
    grid: Seq<bool>,
    width: int,
    rects: Seq<GridRect>,
    x: int,
    w: int,
    row: int,
) -> bool {
    forall|cx: int|
        #![trigger cell_at(grid, width, cx, row)]
        x <= cx < x + w ==> cell_at(grid, width, cx, row) && !covered(rects, cx, row)
}

/// `r` is the rectangle that a greedy row-major merge picks after `prior`:
/// it starts at the first set cell that `prior` leaves uncovered, grows to
/// the right as far as set uncovered cells go, then grows down as long as
/// every cell of the next row below its span is set and uncovered.
pub open spec fn greedy_next(
    grid: Seq<bool>,
    width: int,
    height: int,
    prior: Seq<GridRect>,
    r: GridRect,
) -> bool {
    &&& r.width >= 1
    &&& r.height >= 1
    &&& r.x + r.width <= width
    &&& r.y + r.height <= height
    &&& forall|x: int, y: int|
        #![trigger rect_contains(r, x, y)]
        rect_contains(r, x, y) ==> cell_at(grid, width, x, y) && !covered(prior, x, y)
    &&& forall|x: int, y: int|
        #![trigger cell_at(grid, width, x, y)]
        in_grid(width, height, x, y) && scan_before(x, y, r.x as int, r.y as int) && cell_at(
            grid,
            width,
            x,
            y,
        ) ==> covered(prior, x, y)
    &&& r.x + r.width == width || !cell_at(grid, width, r.x + r.width, r.y as int) || covered(
        prior,
        r.x + r.width,
        r.y as int,
    )
    &&& r.y + r.height == height || exists|x: int|
        #![trigger cell_at(grid, width, x, r.y + r.height)]
        r.x <= x < r.x + r.width && (!cell_at(grid, width, x, r.y + r.height) || covered(
            prior,
            x,
            r.y + r.height,
        ))
}

/// `rects` is exactly the output of the greedy merge of the set cells of `grid`.
pub open spec fn greedy_cover(grid: Seq<bool>, width: int, height: int, rects: Seq<GridRect>) -> bool {
    &&& forall|i: int|
        0 <= i < rects.len() ==> greedy_next(grid, width, height, rects.take(i), #[trigger] rects[i])
    &&& forall|x: int, y: int|
        #![trigger cell_at(grid, width, x, y)]
        in_grid(width, height, x, y) && cell_at(grid, width, x, y) ==> covered(rects, x, y)
}

pub proof fn lemma_cell_index_bounds(width: int, height: int, x: int, y: int)
    requires
        in_grid(width, height, x, y),
    ensures
        0 <= cell_index(width, x, y) < width * height,
{
    assert(0 <= y * width + x < width * height) by (nonlinear_arith)
        requires
            0 <= x < width,
            0 <= y < height,
    ;
}

pub proof fn lemma_cell_index_injective(width: int, x1: int, y1: int, x2: int, y2: int)
    requires
        0 <= x1 < width,
        0 <= x2 < width,
        0 <= y1,
        0 <= y2,
    ensures
        (cell_index(width, x1, y1) == cell_index(width, x2, y2)) <==> (x1 == x2 && y1 == y2),
{
    if y1 < y2 {
        assert(y1 * width + x1 < y2 * width + x2) by (nonlinear_arith)
            requires
                0 <= x1 < width,
                0 <= x2,
                y1 < y2,
        ;
    } else if y2 < y1 {
        assert(y2 * width + x2 < y1 * width + x1) by (nonlinear_arith)
            requires
                0 <= x2 < width,
                0 <= x1,
                y2 < y1,
        ;
    }
}

pub proof fn lemma_covered_push(rects: Seq<GridRect>, r: GridRect, x: int, y: int)
    ensures
        covered(rects.push(r), x, y) == (covered(rects, x, y) || rect_contains(r, x, y)),
{
    let s = rects.push(r);
    if covered(rects, x, y) {
        let i = choose|i: int| 0 <= i < rects.len() && #[trigger] rect_contains(rects[i], x, y);
        assert(s[i] == rects[i]);
        assert(rect_contains(s[i], x, y));
    }
    if rect_contains(r, x, y) {
        assert(s[rects.len() as int] == r);
        assert(rect_contains(s[rects.len() as int], x, y));
    }
    if covered(s, x, y) {
        let i = choose|i: int| 0 <= i < s.len() && #[trigger] rect_contains(s[i], x, y);
        if i < rects.len() {
            assert(s[i] == rects[i]);
            assert(rect_contains(rects[i], x, y));
        }
    }
}

fn cell_offset(width: usize, height: usize, x: usize, y: usize) -> (r: usize)
    requires
        x < width,
        y < height,
        width * height <= usize::MAX,
    ensures
        r as int == cell_index(width as int, x as int, y as int),
        r < width * height,
{
    proof {
        lemma_cell_index_bounds(width as int, height as int, x as int, y as int);
    }
    y * width + x
}

/// How far the rectangle starting at `(x, y)` extends to the right.
fn extend_width(
    grid: &[bool],
    visited: &Vec<bool>,
    width: usize,
    height: usize,
    x: usize,
    y: usize,
    Ghost(rects): Ghost<Seq<GridRect>>,
) -> (w: usize)
    requires
        grid.len() == width * height,
        visited.len() == grid.len(),
        x < width,
        y < height,
        cell_at(grid@, width as int, x as int, y as int),
        !covered(rects, x as int, y as int),
        forall|cx: int, cy: int|
            in_grid(width as int, height as int, cx, cy) ==> #[trigger] cell_at(
                visited@,
                width as int,
                cx,
                cy,
            ) == covered(rects, cx, cy),
    ensures
        1 <= w,
        x + w <= width,
        row_clear(grid@, width as int, rects, x as int, w as int, y as int),
        x + w == width || !cell_at(grid@, width as int, x + w, y as int) || covered(
            rects,
            x + w,
            y as int,
        ),
{
    let mut w: usize = 1;
    let mut done = false;
    while !done && x + w < width
        invariant
            grid.len() == width * height,
            visited.len() == grid.len(),
            x < width,
            y < height,
            1 <= w,
            x + w <= width,
            forall|cx: int, cy: int|
                in_grid(width as int, height as int, cx, cy) ==> #[trigger] cell_at(
                    visited@,
                    width as int,
                    cx,
                    cy,
                ) == covered(rects, cx, cy),
            row_clear(grid@, width as int, rects, x as int, w as int, y as int),
            done ==> x + w < width && (!cell_at(grid@, width as int, x + w, y as int) || covered(
                rects,
                x + w,
                y as int,
            )),
        decreases width - w - (if done { 1int } else { 0int }),
    {
        let next = cell_offset(width, height, x + w, y);
        assert(cell_at(visited@, width as int, (x + w) as int, y as int) == covered(
            rects,
            (x + w) as int,
            y as int,
        ));
        if visited[next] || !grid[next] {
            done = true;
        } else {
            let ghost old_w = w as int;
            assert(cell_at(grid@, width as int, x + old_w, y as int));
            w = w + 1;
            assert forall|cx: int|
                #![trigger cell_at(grid@, width as int, cx, y as int)]
                x <= cx < x + w implies cell_at(grid@, width as int, cx, y as int) && !covered(
                rects,
                cx,
                y as int,
            ) by {
                if cx < x + old_w {
                    assert(row_clear(grid@, width as int, rects, x as int, old_w, y as int));
                }
            }
        }
    }
    w
}

/// The first cell of row `row` in span `[x, x + w)` that is clear or already
/// merged, if any.
fn first_blocked_in_row(
    grid: &[bool],
    visited: &Vec<bool>,
    width: usize,
    height: usize,
    x: usize,
    w: usize,
    row: usize,
    Ghost(rects): Ghost<Seq<GridRect>>,
) -> (r: Option<usize>)
    requires
        grid.len() == width * height,
        visited.len() == grid.len(),
        x + w <= width,
        row < height,
        forall|cx: int, cy: int|
            in_grid(width as int, height as int, cx, cy) ==> #[trigger] cell_at(
                visited@,
                width as int,
                cx,
                cy,
            ) == covered(rects, cx, cy),
    ensures
        match r {
            None => row_clear(grid@, width as int, rects, x as int, w as int, row as int),
            Some(b) => x <= b < x + w && (!cell_at(grid@, width as int, b as int, row as int)
                || covered(rects, b as int, row as int)),
        },
{
    let mut cx: usize = x;
    while cx < x + w
        invariant
            grid.len() == width * height,
            visited.len() == grid.len(),
            x <= cx <= x + w,
            x + w <= width,
            row < height,
            forall|ax: int, ay: int|
                in_grid(width as int, height as int, ax, ay) ==> #[trigger] cell_at(
                    visited@,
                    width as int,
                    ax,
                    ay,
                ) == covered(rects, ax, ay),
            row_clear(grid@, width as int, rects, x as int, cx - x, row as int),
        decreases x + w - cx,
    {
        let next = cell_offset(width, height, cx, row);
        assert(cell_at(visited@, width as int, cx as int, row as int) == covered(
            rects,
            cx as int,
            row as int,
        ));
        if visited[next] || !grid[next] {
            return Some(cx);
        }
        cx = cx + 1;
    }
    None
}

/// How far the rectangle of row span `[x, x + w)` starting at row `y` extends downwards.
fn extend_height(
    grid: &[bool],
    visited: &Vec<bool>,
    width: usize,
    height: usize,
    x: usize,
    y: usize,
    w: usize,
    Ghost(rects): Ghost<Seq<GridRect>>,
) -> (rows: usize)
    requires
        grid.len() == width * height,
        visited.len() == grid.len(),
        1 <= w,
        x + w <= width,
        y < height,
        row_clear(grid@, width as int, rects, x as int, w as int, y as int),
        forall|cx: int, cy: int|
            in_grid(width as int, height as int, cx, cy) ==> #[trigger] cell_at(
                visited@,
                width as int,
                cx,
                cy,
            ) == covered(rects, cx, cy),
    ensures
        1 <= rows,
        y + rows <= height,
        forall|cy: int|
            y <= cy < y + rows ==> #[trigger] row_clear(
                grid@,
                width as int,
                rects,
                x as int,
                w as int,
                cy,
            ),
        y + rows == height || exists|cx: int|
            #![trigger cell_at(grid@, width as int, cx, y + rows)]
            x <= cx < x + w && (!cell_at(grid@, width as int, cx, y + rows) || covered(
                rects,
                cx,
                y + rows,
            )),
{
    let mut h: usize = 1;
    while y + h < height
        invariant
            grid.len() == width * height,
            visited.len() == grid.len(),
            1 <= w,
            x + w <= width,
            1 <= h,
            y + h <= height,
            forall|cx: int, cy: int|
                in_grid(width as int, height as int, cx, cy) ==> #[trigger] cell_at(
                    visited@,
                    width as int,
                    cx,
                    cy,
                ) == covered(rects, cx, cy),
            forall|cy: int|
                y <= cy < y + h ==> #[trigger] row_clear(
                    grid@,
                    width as int,
                    rects,
                    x as int,
                    w as int,
                    cy,
                ),
        decreases height - h,
    {
        let row = y + h;
        match first_blocked_in_row(grid, visited, width, height, x, w, row, Ghost(rects)) {
            Some(b) => {
                assert(cell_at(grid@, width as int, b as int, row as int) || !cell_at(
                    grid@,
                    width as int,
                    b as int,
                    row as int,
                ));
                return h;
            },
            None => {
                h = h + 1;
            },
        }
    }
    h
}

/// Marks every cell of `r` as visited.
fn mark_rect(
    visited: &mut Vec<bool>,
    width: usize,
    height: usize,
    r: GridRect,
    Ghost(rects): Ghost<Seq<GridRect>>,
)
    requires
        old(visited).len() == width * height,
        1 <= r.width,
        1 <= r.height,
        r.x + r.width <= width,
        r.y + r.height <= height,
        forall|cx: int, cy: int|
            in_grid(width as int, height as int, cx, cy) ==> #[trigger] cell_at(
                old(visited)@,
                width as int,
                cx,
                cy,
            ) == covered(rects, cx, cy),
    ensures
        final(visited).len() == width * height,
        forall|cx: int, cy: int|
            in_grid(width as int, height as int, cx, cy) ==> #[trigger] cell_at(
                final(visited)@,
                width as int,
                cx,
                cy,
            ) == covered(rects.push(r), cx, cy),
{
    let mut yy: usize = r.y;
    while yy < r.y + r.height
        invariant
            visited.len() == width * height,
            r.y <= yy <= r.y + r.height,
            r.x + r.width <= width,
            r.y + r.height <= height,
            forall|cx: int, cy: int|
                in_grid(width as int, height as int, cx, cy) ==> #[trigger] cell_at(
                    visited@,
                    width as int,
                    cx,
                    cy,
                ) == (covered(rects, cx, cy) || (rect_contains(r, cx, cy) && cy < yy)),
        decreases r.y + r.height - yy,
    {
        let mut xx: usize = r.x;
        while xx < r.x + r.width
            invariant
                visited.len() == width * height,
                r.y <= yy < r.y + r.height,
                r.x <= xx <= r.x + r.width,
                r.x + r.width <= width,
                r.y + r.height <= height,
                forall|cx: int, cy: int|
                    in_grid(width as int, height as int, cx, cy) ==> #[trigger] cell_at(
                        visited@,
                        width as int,
                        cx,
                        cy,
                    ) == (covered(rects, cx, cy) || (rect_contains(r, cx, cy) && (cy < yy || (cy
                        == yy && cx < xx)))),
            decreases r.x + r.width - xx,
        {
            let index = cell_offset(width, height, xx, yy);
            let ghost before = visited@;
            visited.set(index, true);
            assert forall|cx: int, cy: int|
                in_grid(width as int, height as int, cx, cy) implies #[trigger] cell_at(
                visited@,
                width as int,
                cx,
                cy,
            ) == (covered(rects, cx, cy) || (rect_contains(r, cx, cy) && (cy < yy || (cy == yy
                && cx < xx + 1)))) by {
                lemma_cell_index_injective(width as int, cx, cy, xx as int, yy as int);
                lemma_cell_index_bounds(width as int, height as int, cx, cy);
                if cx == xx && cy == yy {
                } else {
                    assert(cell_at(visited@, width as int, cx, cy) == cell_at(
                        before,
                        width as int,
                        cx,
                        cy,
                    ));
                }
            }
            xx = xx + 1;
        }
        yy = yy + 1;
    }
    assert forall|cx: int, cy: int|
        in_grid(width as int, height as int, cx, cy) implies #[trigger] cell_at(
        visited@,
        width as int,
        cx,
        cy,
    ) == covered(rects.push(r), cx, cy) by {
        lemma_covered_push(rects, r, cx, cy);
    }
}

/// Merges the set cells of a row-major `width` x `height` grid into
/// rectangles, greedily in row-major order: each rectangle starts at the
/// first set cell not yet merged, takes the longest run of such cells to the
/// right, then grows down while the whole span of the next row is set and
/// not yet merged.
pub fn merge_grid(grid: &[bool], width: usize, height: usize) -> (rects: Vec<GridRect>)
    requires
        grid.len() == width * height,
    ensures
        greedy_cover(grid@, width as int, height as int, rects@),
{
    let n = grid.len();
    let mut visited: Vec<bool> = Vec::new();
    while visited.len() < n
        invariant
            visited.len() <= n,
            forall|i: int| 0 <= i < visited.len() ==> !#[trigger] visited@[i],
        decreases n - visited.len(),
    {
        visited.push(false);
    }
    let mut rects: Vec<GridRect> = Vec::new();
    assert forall|cx: int, cy: int|
        in_grid(width as int, height as int, cx, cy) implies #[trigger] cell_at(
        visited@,
        width as int,
        cx,
        cy,
    ) == covered(rects@, cx, cy) by {
        lemma_cell_index_bounds(width as int, height as int, cx, cy);
    }
    let mut y: usize = 0;
    while y < height
        invariant
            grid.len() == width * height,
            visited.len() == grid.len(),
            y <= height,
            forall|cx: int, cy: int|
                in_grid(width as int, height as int, cx, cy) ==> #[trigger] cell_at(
                    visited@,
                    width as int,
                    cx,
                    cy,
                ) == covered(rects@, cx, cy),
            forall|cx: int, cy: int|
                #![trigger cell_at(grid@, width as int, cx, cy)]
                in_grid(width as int, height as int, cx, cy) && cy < y && cell_at(
                    grid@,
                    width as int,
                    cx,
                    cy,
                ) ==> covered(rects@, cx, cy),
            forall|i: int|
                0 <= i < rects.len() ==> greedy_next(
                    grid@,
                    width as int,
                    height as int,
                    rects@.take(i),
                    #[trigger] rects@[i],
                ),
        decreases height - y,
    {
        let mut x: usize = 0;
        while x < width
            invariant
                grid.len() == width * height,
                visited.len() == grid.len(),
                y < height,
                x <= width,
                forall|cx: int, cy: int|
                    in_grid(width as int, height as int, cx, cy) ==> #[trigger] cell_at(
                        visited@,
                        width as int,
                        cx,
                        cy,
                    ) == covered(rects@, cx, cy),
                forall|cx: int, cy: int|
                    #![trigger cell_at(grid@, width as int, cx, cy)]
                    in_grid(width as int, height as int, cx, cy) && scan_before(
                        cx,
                        cy,
                        x as int,
                        y as int,
                    ) && cell_at(grid@, width as int, cx, cy) ==> covered(rects@, cx, cy),
                forall|i: int|
                    0 <= i < rects.len() ==> greedy_next(
                        grid@,
                        width as int,
                        height as int,
                        rects@.take(i),
                        #[trigger] rects@[i],
                    ),
            decreases width - x,
        {
            let index = cell_offset(width, height, x, y);
            assert(cell_at(visited@, width as int, x as int, y as int) == covered(
                rects@,
                x as int,
                y as int,
            ));
            if !visited[index] && grid[index] {
                let ghost prior = rects@;
                let w = extend_width(grid, &visited, width, height, x, y, Ghost(prior));
                let h = extend_height(grid, &visited, width, height, x, y, w, Ghost(prior));
                let r = GridRect { x, y, width: w, height: h };
                assert(greedy_next(grid@, width as int, height as int, prior, r)) by {
                    assert forall|cx: int, cy: int|
                        #![trigger rect_contains(r, cx, cy)]
                        rect_contains(r, cx, cy) implies cell_at(grid@, width as int, cx, cy)
                        && !covered(prior, cx, cy) by {
                        assert(row_clear(grid@, width as int, prior, x as int, w as int, cy));
                    }
                    if x + w < width {
                        assert(cell_at(grid@, width as int, x + w, y as int) || !cell_at(
                            grid@,
                            width as int,
                            x + w,
                            y as int,
                        ));
                    }
                }
                mark_rect(&mut visited, width, height, r, Ghost(prior));
                rects.push(r);
                assert forall|i: int| 0 <= i < rects.len() implies greedy_next(
                    grid@,
                    width as int,
                    height as int,
                    rects@.take(i),
                    #[trigger] rects@[i],
                ) by {
                    if i < prior.len() {
                        assert(rects@.take(i) =~= prior.take(i));
                        assert(rects@[i] == prior[i]);
                    } else {
                        assert(rects@.take(i) =~= prior);
                    }
                }
                assert forall|cx: int, cy: int|
                    #![trigger cell_at(grid@, width as int, cx, cy)]
                    in_grid(width as int, height as int, cx, cy) && scan_before(
                        cx,
                        cy,
                        x + 1,
                        y as int,
                    ) && cell_at(grid@, width as int, cx, cy) implies covered(rects@, cx, cy) by {
                    lemma_covered_push(prior, r, cx, cy);
                    if cx == x && cy == y {
                        assert(rect_contains(r, cx, cy));
                    }
                }
            } else {
                assert forall|cx: int, cy: int|
                    #![trigger cell_at(grid@, width as int, cx, cy)]
                    in_grid(width as int, height as int, cx, cy) && scan_before(
                        cx,
                        cy,
                        x + 1,
                        y as int,
                    ) && cell_at(grid@, width as int, cx, cy) implies covered(rects@, cx, cy) by {
                    if cx == x && cy == y {
                        assert(cell_at(visited@, width as int, cx, cy) == covered(rects@, cx, cy));
                    }
                }
            }
            x = x + 1;
        }
        y = y + 1;
    }
    rects
}

/// Law: the merged rectangles cover exactly the set cells of the grid, and no
/// two of them share a cell.
pub proof fn lemma_merge_grid_exact_cover(
    grid: Seq<bool>,
    width: int,
    height: int,
    rects: Seq<GridRect>,
)
    requires
        greedy_cover(grid, width, height, rects),
    ensures
        forall|x: int, y: int|
            #![trigger cell_at(grid, width, x, y)]
            in_grid(width, height, x, y) ==> (cell_at(grid, width, x, y) <==> covered(
                rects,
                x,
                y,
            )),
        forall|i: int, j: int, x: int, y: int|
            0 <= i < j < rects.len() && #[trigger] rect_contains(rects[i], x, y)
                ==> !#[trigger] rect_contains(rects[j], x, y),
        forall|i: int, x: int, y: int|
            0 <= i < rects.len() && #[trigger] rect_contains(rects[i], x, y) ==> in_grid(
                width,
                height,
                x,
                y,
            ),
{
    assert forall|i: int, j: int, x: int, y: int|
        0 <= i < j < rects.len() && #[trigger] rect_contains(rects[i], x, y) implies !#[trigger] rect_contains(
        rects[j],
        x,
        y,
    ) by {
        assert(greedy_next(grid, width, height, rects.take(j), rects[j]));
        assert(rects.take(j)[i] == rects[i]);
        if rect_contains(rects[j], x, y) {
            assert(covered(rects.take(j), x, y));
        }
    }
    assert forall|x: int, y: int|
        #![trigger cell_at(grid, width, x, y)]
        in_grid(width, height, x, y) implies (cell_at(grid, width, x, y) <==> covered(
        rects,
        x,
        y,
    )) by {
        if covered(rects, x, y) {
            let i = choose|i: int| 0 <= i < rects.len() && #[trigger] rect_contains(rects[i], x, y);
            assert(greedy_next(grid, width, height, rects.take(i), rects[i]));
        }
    }
    assert forall|i: int, x: int, y: int|
        0 <= i < rects.len() && #[trigger] rect_contains(rects[i], x, y) implies in_grid(
        width,
        height,
        x,
        y,
    ) by {
        assert(greedy_next(grid, width, height, rects.take(i), rects[i]));
    }
}

} // verus!
