//! Grid/map generation: an immutable rectangular tile grid, one tile per cell,
//! walls on the border and floor inside.

use vstd::prelude::*;
use crate::components::Color;

verus! {

/// One cell of the generated map. Immutable once generated.
#[derive(Clone, Copy, Debug, PartialEq, Eq, Structural)]
pub struct Tile {
    pub grid_x: i64,
    pub grid_y: i64,
    pub glyph: char,
    pub color: Color,
}

/// The border rule: a cell is a wall exactly on the edge of the grid.
pub open spec fn is_border_cell(x: int, y: int, width: int, height: int) -> bool {
    x == 0 || x == width - 1 || y == 0 || y == height - 1
}

/// Glyph of the cell at `(x, y)`: `'#'` on the border, `'.'` inside.
pub open spec fn cell_glyph(x: int, y: int, width: int, height: int) -> char {
    if is_border_cell(x, y, width, height) {
        '#'
    } else {
        '.'
    }
}

/// The tile stored at flat index `i` of the generated map. Cells are laid out
/// column-major: index `i` holds cell `(i / height, i % height)`.
pub open spec fn cell_at(i: int, width: int, height: int) -> Tile {
    Tile {
        grid_x: (i / height) as i64,
        grid_y: (i % height) as i64,
        glyph: cell_glyph(i / height, i % height, width, height),
        color: Color::Black,
    }
}

/// The whole generated map for a `width * height` grid, as a sequence.
pub open spec fn grid_spec(width: int, height: int) -> Seq<Tile> {
    Seq::new((width * height) as nat, |i: int| cell_at(i, width, height))
}

/// Produce the immutable tile grid for the given size: `width * height` tiles,
/// one per cell `(x, y)` with `x in [0, width)` and `y in [0, height)`, walls
/// on the border and black floor elsewhere. Deterministic, no side effects.
pub fn generate_map(width: u32, height: u32) -> (map: Vec<Tile>)
    requires
        width >= 1,
        height >= 1,
        width as int * height as int <= usize::MAX as int,
    ensures
        map@ == grid_spec(width as int, height as int),
        map@.len() == width as int * height as int,
{
    let w: usize = width as usize;
    let h: usize = height as usize;
    let total: usize = w * h;
    let mut map: Vec<Tile> = Vec::with_capacity(total);
    let mut x: usize = 0;
    while x < w
        invariant
            w == width as int,
            h == height as int,
            w as int * h as int <= usize::MAX as int,
            1 <= h,
            x <= w,
            map@.len() == x as int * h as int,
            forall|k: int|
                0 <= k < map@.len() ==> map@[k] == cell_at(k, width as int, height as int),
        decreases w - x,
    {
        let mut y: usize = 0;
        proof {
            assert((x + 1) * h as int <= w as int * h as int) by (nonlinear_arith)
                requires
                    0 <= x < w,
                    0 <= h,
            ;
        }
        while y < h
            invariant
                w == width as int,
                h == height as int,
                w as int * h as int <= usize::MAX as int,
                x < w,
                (x + 1) * h as int <= w as int * h as int,
                y <= h,
                map@.len() == x as int * h as int + y as int,
                forall|k: int|
                    0 <= k < map@.len() ==> map@[k] == cell_at(k, width as int, height as int),
            decreases h - y,
        {
            proof {
                assert(x as int * h as int + y < (x + 1) * h as int && (x as int * h as int
                    + y as int) / (h as int) == x as int && (x as int * h as int + y as int) % (
                h as int) == y as int) by (nonlinear_arith)
                    requires
                        0 <= x,
                        0 <= y < h,
                ;
            }
            let glyph: char = if x == 0 || x == w - 1 || y == 0 || y == h - 1 {
                '#'
            } else {
                '.'
            };
            let tile = Tile { grid_x: x as i64, grid_y: y as i64, glyph, color: Color::Black };
            assert(tile == cell_at(
                x as int * h as int + y as int,
                width as int,
                height as int,
            ));
            map.push(tile);
            y = y + 1;
        }
        x = x + 1;
        proof {
            assert((x - 1) * h as int + h as int == x as int * h as int) by (nonlinear_arith);
        }
    }
    proof {
        assert(map@ =~= grid_spec(width as int, height as int));
    }
    map
}

/// Every cell coordinate pair of the grid appears in the generated map:
/// for each `(x, y)` in range there is an index holding that cell.
pub proof fn lemma_grid_complete(width: int, height: int, x: int, y: int)
    requires
        1 <= width <= u32::MAX as int,
        1 <= height <= u32::MAX as int,
        0 <= x < width,
        0 <= y < height,
    ensures
        0 <= x * height + y < grid_spec(width, height).len(),
        grid_spec(width, height)[x * height + y].grid_x == x,
        grid_spec(width, height)[x * height + y].grid_y == y,
{
    assert(0 <= x * height + y < width * height && (x * height + y) / height == x && (x * height
        + y) % height == y) by (nonlinear_arith)
        requires
            0 <= x < width,
            0 <= y < height,
    ;
}

/// No cell coordinate pair is duplicated: two distinct indices of the
/// generated map hold distinct `(grid_x, grid_y)` pairs.
pub proof fn lemma_grid_duplicate_free(width: int, height: int, i: int, j: int)
    requires
        1 <= width <= u32::MAX as int,
        1 <= height <= u32::MAX as int,
        0 <= i < grid_spec(width, height).len(),
        0 <= j < grid_spec(width, height).len(),
        i != j,
    ensures
        grid_spec(width, height)[i].grid_x != grid_spec(width, height)[j].grid_x || grid_spec(
            width,
            height,
        )[i].grid_y != grid_spec(width, height)[j].grid_y,
{
    lemma_cell_coords_in_range(width, height, i);
    lemma_cell_coords_in_range(width, height, j);
    assert(i / height != j / height || i % height != j % height) by (nonlinear_arith)
        requires
            height >= 1,
            0 <= i,
            0 <= j,
            i != j,
    ;
}

/// The flat-index decomposition of any in-range index stays within the grid:
/// `i / height` is a column inside `[0, width)` and `i % height` a row inside
/// `[0, height)`.
pub proof fn lemma_cell_coords_in_range(width: int, height: int, i: int)
    requires
        1 <= width,
        1 <= height,
        0 <= i < grid_spec(width, height).len(),
    ensures
        0 <= i / height < width,
        0 <= i % height < height,
{
    assert(0 <= i / height < width && 0 <= i % height < height) by (nonlinear_arith)
        requires
            1 <= width,
            1 <= height,
            0 <= i < width * height,
    ;
}

/// Exactly the border cells are walls: a generated tile's glyph is `'#'` if
/// its cell lies on the grid border and `'.'` otherwise.
pub proof fn lemma_grid_border_walls(width: int, height: int, i: int)
    requires
        1 <= width <= u32::MAX as int,
        1 <= height <= u32::MAX as int,
        0 <= i < grid_spec(width, height).len(),
    ensures
        grid_spec(width, height)[i].glyph == '#' <==> is_border_cell(
            grid_spec(width, height)[i].grid_x as int,
            grid_spec(width, height)[i].grid_y as int,
            width,
            height,
        ),
        grid_spec(width, height)[i].glyph == '#' || grid_spec(width, height)[i].glyph == '.',
{
    lemma_cell_coords_in_range(width, height, i);
}

} // verus!
