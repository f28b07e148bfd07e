//! The tile grid under the terrain, kept in a `grid::Grid` of tile coordinates.
use vstd::prelude::*;
use grid::Grid;

verus! {

#[verifier::external_type_specification]
#[verifier::external_body]
#[verifier::reject_recursive_types(T)]
pub struct ExGrid<T>(Grid<T>);

/// The cells of a tile grid, row by row.
pub uninterp spec fn tile_grid_cells(g: Grid<(u32, u32)>) -> Seq<(u32, u32)>;

/// The number of rows of a tile grid.
pub uninterp spec fn tile_grid_rows(g: Grid<(u32, u32)>) -> nat;

/// The number of columns of a tile grid.
pub uninterp spec fn tile_grid_cols(g: Grid<(u32, u32)>) -> nat;

/// `grid::Grid::from_vec(vec![], 0)`, what `grid![]` expands to: a grid with
/// no cells, no rows and no columns.
#[verifier::external_body]
fn empty_tile_grid() -> (g: Grid<(u32, u32)>)
    ensures
        tile_grid_cells(g) == Seq::<(u32, u32)>::empty(),
        tile_grid_rows(g) == 0,
        tile_grid_cols(g) == 0,
{
    Grid::from_vec(Vec::new(), 0)
}

/// `grid::Grid::push_row`: appends `row` as the last row. It panics on an
/// empty row, on a row whose length differs from the column count of a grid
/// that has rows, and when the row count would overflow. A grid without
/// columns takes its column count from its cells after the push.
#[verifier::external_body]
fn push_tile_row(g: &mut Grid<(u32, u32)>, row: Vec<(u32, u32)>)
    requires
        row@.len() > 0,
        tile_grid_rows(*old(g)) == 0 || row@.len() == tile_grid_cols(*old(g)),
        tile_grid_rows(*old(g)) < usize::MAX,
    ensures
        tile_grid_cells(*final(g)) == tile_grid_cells(*old(g)) + row@,
        tile_grid_rows(*final(g)) == tile_grid_rows(*old(g)) + 1,
        tile_grid_cols(*final(g)) == if tile_grid_cols(*old(g)) == 0 {
            tile_grid_cells(*old(g)).len() + row@.len()
        } else {
            tile_grid_cols(*old(g))
        },
{
    g.push_row(row)
}

/// The tile grid: each cell holds its own coordinates (row `x`, column `z`),
/// `counts_xz` rows by columns.
pub struct GridData {
    pub data: Grid<(u32, u32)>,
    pub counts_xz: (u32, u32),
}

/// The cells of a grid of `rows` by `cols` tiles, row by row, each cell its
/// own coordinates.
pub open spec fn tiles_of(rows: nat, cols: nat) -> Seq<(u32, u32)> {
    Seq::new(rows * cols, |k: int| ((k / cols as int) as u32, (k % cols as int) as u32))
}

impl GridData {
    /// The grid the terrain starts with: no tiles.
    pub fn new() -> (r: GridData)
        ensures
            r.counts_xz == (0u32, 0u32),
            tile_grid_cells(r.data) == Seq::<(u32, u32)>::empty(),
            tile_grid_rows(r.data) == 0,
    {
        GridData::with_counts((0, 0))
    }

    /// A grid of `counts_xz.0` rows of `counts_xz.1` tiles, filled row by row
    /// with each tile's coordinates. A row without tiles cannot be pushed.
    pub fn with_counts(counts_xz: (u32, u32)) -> (r: GridData)
        requires
            counts_xz.0 == 0 || counts_xz.1 > 0,
        ensures
            r.counts_xz == counts_xz,
            tile_grid_rows(r.data) == counts_xz.0,
            counts_xz.0 > 0 ==> tile_grid_cols(r.data) == counts_xz.1,
            tile_grid_cells(r.data) == tiles_of(counts_xz.0 as nat, counts_xz.1 as nat),
    {
        let mut data = empty_tile_grid();
        let ghost cols = counts_xz.1 as int;
        let mut x: u32 = 0;
        while x < counts_xz.0
            invariant
                x <= counts_xz.0,
                counts_xz.0 == 0 || counts_xz.1 > 0,
                cols == counts_xz.1,
                tile_grid_rows(data) == x,
                x > 0 ==> tile_grid_cols(data) == cols,
                x == 0 ==> tile_grid_cols(data) == 0,
                tile_grid_cells(data) == tiles_of(x as nat, cols as nat),
            decreases counts_xz.0 - x,
        {
            let mut row: Vec<(u32, u32)> = Vec::with_capacity(counts_xz.1 as usize);
            let mut z: u32 = 0;
            while z < counts_xz.1
                invariant
                    z <= counts_xz.1,
                    row@ == Seq::new(z as nat, |k: int| (x, k as u32)),
                decreases counts_xz.1 - z,
            {
                row.push((x, z));
                z += 1;
            }
            let ghost before = tile_grid_cells(data);
            proof {
                assert(x * cols + cols == (x + 1) * cols) by (nonlinear_arith);
                assert(0 <= x * cols) by (nonlinear_arith)
                    requires
                        x >= 0,
                        cols >= 0,
                ;
            }
            push_tile_row(&mut data, row);
            proof {
                let after = tiles_of((x + 1) as nat, cols as nat);
                assert(after.len() == x * cols + cols) by (nonlinear_arith)
                    requires
                        after.len() == (x + 1) * cols,
                ;
                assert forall|k: int| 0 <= k < after.len() implies #[trigger] tile_grid_cells(data)[k]
                    == after[k] by {
                    if k < x * cols {
                        assert(tile_grid_cells(data)[k] == before[k]);
                    } else {
                        let j = k - x * cols;
                        assert(k == x * cols + j);
                        assert(k / cols == x && k % cols == j) by (nonlinear_arith)
                            requires
                                k == x * cols + j,
                                0 <= j < cols,
                        ;
                    }
                }
                assert(tile_grid_cells(data) =~= after);
            }
            x += 1;
        }
        GridData { data, counts_xz }
    }
}

} // verus!
