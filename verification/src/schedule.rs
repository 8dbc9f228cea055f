//! The job schedule: one triangulation job for every unit cell of the grid.

use vstd::prelude::*;
use crate::grid::{cube, lemma_coord_of_index, lemma_cube_bounds, lemma_index_of_coord, spec_coord,
    spec_index, Grid, Vector3Int, MAX_EDGE};

verus! {

/// The cell offsets in dispatch order: `x` outermost, `z` innermost, so that
/// job `j` works on the cell whose offset has flat index `j` among the cells.
pub open spec fn spec_cell_offsets(g: Grid) -> Seq<Vector3Int> {
    Seq::new(g.spec_cell_count() as nat, |j: int| spec_coord(g.spec_edge() - 1, j))
}

/// The offsets of all unit cells of `grid`, in dispatch order.
pub fn cell_offsets(grid: &Grid) -> (jobs: Vec<Vector3Int>)
    requires
        grid.wf(),
    ensures
        jobs@ == spec_cell_offsets(*grid),
        jobs@.len() == grid.spec_cell_count(),
{
    let m: i32 = grid.edge() - 1;
    let mut jobs: Vec<Vector3Int> = Vec::new();
    proof {
        lemma_cube_bounds(m as int);
    }
    let mut x: i32 = 0;
    while x < m
        invariant
            0 <= m < MAX_EDGE,
            0 <= x <= m,
            jobs@.len() == m * (m * x),
            forall|j: int| 0 <= j < jobs@.len() ==> jobs@[j] == spec_coord(m as int, j),
        decreases m - x,
    {
        let mut y: i32 = 0;
        assert(m * (0 + m * x) == m * (m * x)) by (nonlinear_arith);
        while y < m
            invariant
                0 <= m < MAX_EDGE,
                0 <= x < m,
                0 <= y <= m,
                jobs@.len() == m * (y + m * x),
                forall|j: int| 0 <= j < jobs@.len() ==> jobs@[j] == spec_coord(m as int, j),
            decreases m - y,
        {
            let mut z: i32 = 0;
            while z < m
                invariant
                    0 <= m < MAX_EDGE,
                    0 <= x < m,
                    0 <= y < m,
                    0 <= z <= m,
                    jobs@.len() == z + m * (y + m * x),
                    forall|j: int| 0 <= j < jobs@.len() ==> jobs@[j] == spec_coord(m as int, j),
                decreases m - z,
            {
                let o: Vector3Int = Vector3Int::new(x, y, z);
                proof {
                    lemma_coord_of_index(m as int, o);
                }
                jobs.push(o);
                z = z + 1;
            }
            assert(m + m * (y + m * x) == m * ((y + 1) + m * x)) by (nonlinear_arith);
            y = y + 1;
        }
        assert(m * (m + m * x) == m * (m * (x + 1))) by (nonlinear_arith);
        x = x + 1;
    }
    assert(m * (m * m) == cube(m as int)) by (nonlinear_arith);
    assert(jobs@ =~= spec_cell_offsets(*grid));
    jobs
}

/// Coverage: the schedule holds exactly `(N - 1)^3` jobs, every job works on a
/// cell of the grid, and every cell of the grid is the subject of the job at
/// the cell's own flat index.
pub proof fn lemma_schedule_covers_cells(g: Grid)
    requires
        g.wf(),
    ensures
        spec_cell_offsets(g).len() == g.spec_cell_count(),
        forall|j: int|
            0 <= j < spec_cell_offsets(g).len() ==> g.spec_contains_cell(
                #[trigger] spec_cell_offsets(g)[j],
            ),
        forall|o: Vector3Int| #[trigger]
            g.spec_contains_cell(o) ==> 0 <= spec_index(g.spec_edge() - 1, o)
                < spec_cell_offsets(g).len() && spec_cell_offsets(g)[spec_index(
                g.spec_edge() - 1,
                o,
            )] == o,
{
    let m: int = g.spec_edge() - 1;
    lemma_cube_bounds(m);
    assert forall|j: int| 0 <= j < spec_cell_offsets(g).len() implies g.spec_contains_cell(
        #[trigger] spec_cell_offsets(g)[j],
    ) by {
        lemma_index_of_coord(m, j);
    }
    assert forall|o: Vector3Int| #[trigger] g.spec_contains_cell(o) implies 0 <= spec_index(m, o)
        < spec_cell_offsets(g).len() && spec_cell_offsets(g)[spec_index(m, o)] == o by {
        lemma_coord_of_index(m, o);
    }
}

/// No cell is scheduled twice.
pub proof fn lemma_schedule_has_no_duplicates(g: Grid)
    requires
        g.wf(),
    ensures
        spec_cell_offsets(g).no_duplicates(),
{
    let m: int = g.spec_edge() - 1;
    lemma_cube_bounds(m);
    assert forall|i: int, j: int|
        0 <= i < spec_cell_offsets(g).len() && 0 <= j < spec_cell_offsets(g).len() && i
            != j implies spec_cell_offsets(g)[i] != spec_cell_offsets(g)[j] by {
        lemma_index_of_coord(m, i);
        lemma_index_of_coord(m, j);
    }
}

} // verus!
