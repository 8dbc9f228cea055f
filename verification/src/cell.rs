//! Unit cells: the eight corners of a cell and the samples found at them.

use vstd::prelude::*;
use crate::field::DensityField;
use crate::grid::{in_cube, spec_index, Grid, Vector3Int};

verus! {

/// Component-wise sum of two triples.
pub open spec fn spec_translate(a: Vector3Int, b: Vector3Int) -> Vector3Int {
    Vector3Int { x: (a.x + b.x) as i32, y: (a.y + b.y) as i32, z: (a.z + b.z) as i32 }
}

/// `k` is a corner offset: each of its components is 0 or 1.
pub open spec fn is_corner(k: Vector3Int) -> bool {
    in_cube(2, k)
}

/// Eight corner offsets, pairwise distinct.
pub open spec fn spec_valid_corners(points: Seq<Vector3Int>) -> bool {
    &&& points.len() == 8
    &&& forall|k: int| 0 <= k < 8 ==> is_corner(#[trigger] points[k])
    &&& forall|a: int, b: int| 0 <= a < b < 8 ==> points[a] != points[b]
}

impl Vector3Int {
    /// Component-wise sum, where no component overflows.
    pub fn translate(self, by: Vector3Int) -> (r: Vector3Int)
        requires
            i32::MIN <= self.x + by.x <= i32::MAX,
            i32::MIN <= self.y + by.y <= i32::MAX,
            i32::MIN <= self.z + by.z <= i32::MAX,
        ensures
            r == spec_translate(self, by),
    {
        Vector3Int { x: self.x + by.x, y: self.y + by.y, z: self.z + by.z }
    }
}

/// The eight corner offsets of a cell, in the order in which a triangulator
/// expects the corner samples.
#[derive(Clone, Copy, Debug)]
pub struct CornerTable {
    points: [Vector3Int; 8],
}

impl View for CornerTable {
    type V = Seq<Vector3Int>;

    /// The corner offsets, in canonical order.
    closed spec fn view(&self) -> Seq<Vector3Int> {
        self.points@
    }
}

impl CornerTable {
    /// There are eight corners, each a corner offset, no two of them equal.
    pub open spec fn wf(&self) -> bool {
        spec_valid_corners(self@)
    }

    /// A table of the given corner offsets, where they are the eight distinct
    /// corners of the unit cube.
    pub fn new(points: [Vector3Int; 8]) -> (r: Option<CornerTable>)
        ensures
            r is Some <==> spec_valid_corners(points@),
            r matches Some(t) ==> t.wf() && t@ == points@,
    {
        let mut i: usize = 0;
        while i < 8
            invariant
                0 <= i <= 8,
                points@.len() == 8,
                forall|k: int| 0 <= k < i ==> is_corner(#[trigger] points@[k]),
                forall|a: int, b: int| 0 <= a < b < i ==> points@[a] != points@[b],
            decreases 8 - i,
        {
            let p: Vector3Int = points[i];
            if !(0 <= p.x && p.x <= 1 && 0 <= p.y && p.y <= 1 && 0 <= p.z && p.z <= 1) {
                assert(!is_corner(points@[i as int]));
                return None;
            }
            let mut j: usize = 0;
            while j < i
                invariant
                    0 <= j <= i < 8,
                    points@.len() == 8,
                    p == points@[i as int],
                    forall|a: int| 0 <= a < j ==> points@[a] != p,
                decreases i - j,
            {
                let q: Vector3Int = points[j];
                if q.x == p.x && q.y == p.y && q.z == p.z {
                    assert(points@[j as int] == points@[i as int]);
                    return None;
                }
                j = j + 1;
            }
            i = i + 1;
        }
        Some(CornerTable { points })
    }

    /// The `k`-th corner offset.
    pub fn corner(&self, k: usize) -> (p: Vector3Int)
        requires
            k < 8,
        ensures
            p == self@[k as int],
    {
        self.points[k]
    }

    /// All eight corner offsets, in canonical order.
    pub fn points(&self) -> (p: [Vector3Int; 8])
        ensures
            p@ == self@,
    {
        self.points
    }
}

/// The grid coordinates of the corners of the cell at `offset`, in canonical
/// order.
pub open spec fn spec_corner_coords(corners: CornerTable, offset: Vector3Int) -> Seq<Vector3Int> {
    Seq::new(8, |k: int| spec_translate(corners@[k], offset))
}

/// The samples at the corners of the cell at `offset`, in canonical order.
pub open spec fn spec_corner_values<T>(
    field: DensityField<T>,
    corners: CornerTable,
    offset: Vector3Int,
) -> Seq<T> {
    Seq::new(8, |k: int| field.spec_at(spec_translate(corners@[k], offset)))
}

/// Safety: a cell offset moved by a corner offset is a coordinate of the grid.
pub proof fn lemma_corner_in_grid(g: Grid, offset: Vector3Int, k: Vector3Int)
    requires
        g.wf(),
        g.spec_contains_cell(offset),
        is_corner(k),
    ensures
        g.spec_contains(spec_translate(k, offset)),
        g.spec_contains(spec_translate(offset, k)),
{
}

/// The grid coordinate of the `k`-th corner of the cell at `offset`.
pub fn corner_coord(grid: &Grid, corners: &CornerTable, offset: Vector3Int, k: usize) -> (c:
    Vector3Int)
    requires
        grid.wf(),
        corners.wf(),
        grid.spec_contains_cell(offset),
        k < 8,
    ensures
        c == spec_corner_coords(*corners, offset)[k as int],
        grid.spec_contains(c),
{
    let p: Vector3Int = corners.corner(k);
    assert(is_corner(corners@[k as int]));
    p.translate(offset)
}

/// The flat indices of the corners of the cell at `offset`, in canonical order.
pub fn corner_indices(grid: &Grid, corners: &CornerTable, offset: Vector3Int) -> (indices: [usize;
    8])
    requires
        grid.wf(),
        corners.wf(),
        grid.spec_contains_cell(offset),
    ensures
        forall|k: int|
            0 <= k < 8 ==> #[trigger] indices@[k] == spec_index(
                grid.spec_edge(),
                spec_corner_coords(*corners, offset)[k],
            ),
        forall|k: int| 0 <= k < 8 ==> #[trigger] indices@[k] < grid.spec_len(),
{
    [
        grid.index(corner_coord(grid, corners, offset, 0)),
        grid.index(corner_coord(grid, corners, offset, 1)),
        grid.index(corner_coord(grid, corners, offset, 2)),
        grid.index(corner_coord(grid, corners, offset, 3)),
        grid.index(corner_coord(grid, corners, offset, 4)),
        grid.index(corner_coord(grid, corners, offset, 5)),
        grid.index(corner_coord(grid, corners, offset, 6)),
        grid.index(corner_coord(grid, corners, offset, 7)),
    ]
}

/// The samples at the corners of the cell at `offset`, in canonical order.
pub fn gather_corners<T: Copy>(
    field: &DensityField<T>,
    corners: &CornerTable,
    offset: Vector3Int,
) -> (values: [T; 8])
    requires
        field.wf(),
        corners.wf(),
        field.spec_grid().spec_contains_cell(offset),
    ensures
        values@ == spec_corner_values(*field, *corners, offset),
{
    let indices: [usize; 8] = corner_indices(&field.grid(), corners, offset);
    let values: [T; 8] = [
        *field.get_flat(indices[0]),
        *field.get_flat(indices[1]),
        *field.get_flat(indices[2]),
        *field.get_flat(indices[3]),
        *field.get_flat(indices[4]),
        *field.get_flat(indices[5]),
        *field.get_flat(indices[6]),
        *field.get_flat(indices[7]),
    ];
    assert(values@ =~= spec_corner_values(*field, *corners, offset));
    values
}

} // verus!
