//! One triangulation job: gather the corners of a cell, hand them to the
//! triangulator, tag what comes back with the cell's offset.

use vstd::prelude::*;
use crate::cell::{gather_corners, spec_corner_values, CornerTable};
use crate::field::DensityField;
use crate::grid::Vector3Int;

verus! {

/// What one job hands back: the triangles of a cell, each as three vertices in
/// the frame of the cell, and the offset of the cell they came from.
pub struct JobResult<V> {
    pub triangles: Vec<[V; 3]>,
    pub offset: Vector3Int,
}

/// `result` is a possible outcome of the job for the cell at `offset`: it is
/// tagged with `offset`, and its triangles are an answer of the triangulator to
/// the samples at the eight corners of the cell in canonical order.
pub open spec fn spec_is_outcome<T, V, F: Fn([T; 8]) -> Vec<[V; 3]>>(
    field: DensityField<T>,
    corners: CornerTable,
    offset: Vector3Int,
    triangulator: F,
    result: JobResult<V>,
) -> bool {
    &&& result.offset == offset
    &&& exists|values: [T; 8]|
        values@ == spec_corner_values(field, corners, offset) && call_ensures(
            triangulator,
            (values,),
            result.triangles,
        )
}

/// The triangulator can be called on the corner samples of the cell at
/// `offset`.
pub open spec fn spec_accepts_cell<T, V, F: Fn([T; 8]) -> Vec<[V; 3]>>(
    field: DensityField<T>,
    corners: CornerTable,
    offset: Vector3Int,
    triangulator: F,
) -> bool {
    forall|values: [T; 8]|
        values@ == spec_corner_values(field, corners, offset) ==> call_requires(
            triangulator,
            (values,),
        )
}

/// Runs the job for the cell at `offset`: the triangulator is called once,
/// with the samples at the eight corners of the cell in canonical order, and
/// its answer is tagged with `offset`.
pub fn triangulate_cell<T: Copy, V, F: Fn([T; 8]) -> Vec<[V; 3]>>(
    field: &DensityField<T>,
    corners: &CornerTable,
    offset: Vector3Int,
    triangulator: &F,
) -> (result: JobResult<V>)
    requires
        field.wf(),
        corners.wf(),
        field.spec_grid().spec_contains_cell(offset),
        spec_accepts_cell(*field, *corners, offset, *triangulator),
    ensures
        spec_is_outcome(*field, *corners, offset, *triangulator, result),
{
    let values: [T; 8] = gather_corners(field, corners, offset);
    let triangles: Vec<[V; 3]> = triangulator(values);
    JobResult { triangles, offset }
}

} // verus!
