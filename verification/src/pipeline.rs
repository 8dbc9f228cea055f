//! The whole triangulation on the calling thread: every job of the schedule
//! is run in dispatch order and its result collected.

use vstd::prelude::*;
use crate::aggregate::{lemma_flat_map_permutation, lemma_flat_map_through_keys,
    spec_result_triangles, spec_result_vertices, spec_stream, spec_triangles, Aggregator,
    StreamVertex};
use crate::cell::{spec_corner_values, CornerTable};
use crate::field::DensityField;
use crate::grid::{Grid, Vector3Int};
use crate::job::{spec_accepts_cell, spec_is_outcome, triangulate_cell, JobResult};
use crate::schedule::{cell_offsets, lemma_schedule_covers_cells, spec_cell_offsets};

verus! {

/// `results` is a complete run over `field`: one result for every job of the
/// schedule, in dispatch order, each a possible outcome of its job.
pub open spec fn spec_is_run<T, V, F: Fn([T; 8]) -> Vec<[V; 3]>>(
    field: DensityField<T>,
    corners: CornerTable,
    triangulator: F,
    results: Seq<JobResult<V>>,
) -> bool {
    &&& results.len() == field.spec_grid().spec_cell_count()
    &&& forall|j: int|
        0 <= j < results.len() ==> spec_is_outcome(
            field,
            corners,
            spec_cell_offsets(field.spec_grid())[j],
            triangulator,
            #[trigger] results[j],
        )
}

/// Triangulates every cell of `field`, one after the other in dispatch order,
/// and returns the vertex stream of the results.
pub fn triangulate_field<T: Copy, V: Copy, F: Fn([T; 8]) -> Vec<[V; 3]>>(
    field: &DensityField<T>,
    corners: &CornerTable,
    triangulator: &F,
) -> (stream: Vec<StreamVertex<V>>)
    requires
        field.wf(),
        corners.wf(),
        forall|offset: Vector3Int|
            field.spec_grid().spec_contains_cell(offset) ==> spec_accepts_cell(
                *field,
                *corners,
                offset,
                *triangulator,
            ),
    ensures
        exists|results: Seq<JobResult<V>>|
            spec_is_run(*field, *corners, *triangulator, results) && stream@ == spec_stream(
                results,
            ) && stream@.len() == 3 * spec_triangles(results).len(),
{
    let grid: Grid = field.grid();
    let jobs: Vec<Vector3Int> = cell_offsets(&grid);
    let mut collected: Aggregator<V> = Aggregator::for_grid(&grid);
    proof {
        lemma_schedule_covers_cells(grid);
    }
    let mut j: usize = 0;
    while j < jobs.len()
        invariant
            field.wf(),
            corners.wf(),
            grid == field.spec_grid(),
            jobs@ == spec_cell_offsets(grid),
            jobs@.len() == grid.spec_cell_count(),
            collected.wf(),
            collected.spec_expected() == grid.spec_cell_count(),
            0 <= j <= jobs@.len(),
            collected.spec_arrived().len() == j,
            forall|o: Vector3Int|
                field.spec_grid().spec_contains_cell(o) ==> spec_accepts_cell(
                    *field,
                    *corners,
                    o,
                    *triangulator,
                ),
            forall|k: int| 0 <= k < jobs@.len() ==> grid.spec_contains_cell(#[trigger] jobs@[k]),
            forall|k: int|
                0 <= k < j ==> spec_is_outcome(
                    *field,
                    *corners,
                    jobs@[k],
                    *triangulator,
                    #[trigger] collected.spec_arrived()[k],
                ),
        decreases jobs@.len() - j,
    {
        let offset: Vector3Int = jobs[j];
        let result: JobResult<V> = triangulate_cell(field, corners, offset, triangulator);
        let outcome = collected.accept(result);
        assert(outcome is Ok);
        j = j + 1;
    }
    let ghost results: Seq<JobResult<V>> = collected.spec_arrived();
    assert(spec_is_run(*field, *corners, *triangulator, results));
    match collected.finish() {
        Ok(stream) => stream,
        Err(_) => {
            assert(false);
            Vec::new()
        },
    }
}

/// The triangulator answers the same corner samples with the same triangles
/// every time.
pub open spec fn spec_is_deterministic<T, V, F: Fn([T; 8]) -> Vec<[V; 3]>>(triangulator: F) -> bool {
    forall|values: [T; 8], a: Vec<[V; 3]>, b: Vec<[V; 3]>|
        call_ensures(triangulator, (values,), a) && call_ensures(triangulator, (values,), b)
            ==> a@ == b@
}

/// `results` is what a collection over `field` may hold at its end: every cell
/// of the schedule has its result among them as often as it was scheduled, in
/// whatever order the results came in, and each is a possible outcome of the
/// job for its cell.
pub open spec fn spec_is_arrival<T, V, F: Fn([T; 8]) -> Vec<[V; 3]>>(
    field: DensityField<T>,
    corners: CornerTable,
    triangulator: F,
    results: Seq<JobResult<V>>,
) -> bool {
    &&& results.map_values(|r: JobResult<V>| r.offset).to_multiset() == spec_cell_offsets(
        field.spec_grid(),
    ).to_multiset()
    &&& forall|i: int|
        0 <= i < results.len() ==> spec_is_outcome(
            field,
            corners,
            results[i].offset,
            triangulator,
            #[trigger] results[i],
        )
}

/// A run in dispatch order is one of the possible arrivals.
pub proof fn lemma_run_is_arrival<T, V, F: Fn([T; 8]) -> Vec<[V; 3]>>(
    field: DensityField<T>,
    corners: CornerTable,
    triangulator: F,
    results: Seq<JobResult<V>>,
)
    requires
        spec_is_run(field, corners, triangulator, results),
    ensures
        spec_is_arrival(field, corners, triangulator, results),
{
    assert(results.map_values(|r: JobResult<V>| r.offset) =~= spec_cell_offsets(
        field.spec_grid(),
    ));
}

/// Two outcomes of the job for one cell hold the same triangles, where the
/// triangulator is deterministic.
proof fn lemma_outcomes_agree<T, V, F: Fn([T; 8]) -> Vec<[V; 3]>>(
    field: DensityField<T>,
    corners: CornerTable,
    offset: Vector3Int,
    triangulator: F,
    a: JobResult<V>,
    b: JobResult<V>,
)
    requires
        spec_is_deterministic(triangulator),
        spec_is_outcome(field, corners, offset, triangulator, a),
        spec_is_outcome(field, corners, offset, triangulator, b),
    ensures
        a.offset == b.offset,
        a.triangles@ == b.triangles@,
        spec_result_triangles(a) == spec_result_triangles(b),
        spec_result_vertices(a) == spec_result_vertices(b),
{
    broadcast use vstd::array::axiom_array_ext_equal;

    let va: [T; 8] = choose|values: [T; 8]|
        values@ == spec_corner_values(field, corners, offset) && call_ensures(
            triangulator,
            (values,),
            a.triangles,
        );
    let vb: [T; 8] = choose|values: [T; 8]|
        values@ == spec_corner_values(field, corners, offset) && call_ensures(
            triangulator,
            (values,),
            b.triangles,
        );
    assert(va =~= vb);
    assert(spec_result_triangles(a) =~= spec_result_triangles(b));
    assert(spec_result_vertices(a) =~= spec_result_vertices(b));
}

/// Invariance under the way the jobs were spread over workers: whatever the
/// order in which the results of a generation come in, a deterministic
/// triangulator gives the same triangles and the same vertices, each as often
/// in one arrival as in the other.
pub proof fn lemma_arrivals_agree<T, V, F: Fn([T; 8]) -> Vec<[V; 3]>>(
    field: DensityField<T>,
    corners: CornerTable,
    triangulator: F,
    first: Seq<JobResult<V>>,
    second: Seq<JobResult<V>>,
)
    requires
        spec_is_deterministic(triangulator),
        spec_is_arrival(field, corners, triangulator, first),
        spec_is_arrival(field, corners, triangulator, second),
    ensures
        first.len() == second.len(),
        spec_triangles(first).to_multiset() == spec_triangles(second).to_multiset(),
        spec_stream(first).to_multiset() == spec_stream(second).to_multiset(),
{
    let key = |r: JobResult<V>| r.offset;
    let chosen = |o: Vector3Int|
        choose|r: JobResult<V>| spec_is_outcome(field, corners, o, triangulator, r);
    let triangles = |r: JobResult<V>| spec_result_triangles(r);
    let vertices = |r: JobResult<V>| spec_result_vertices(r);
    let triangles_at = |o: Vector3Int| spec_result_triangles(chosen(o));
    let vertices_at = |o: Vector3Int| spec_result_vertices(chosen(o));
    assert forall|i: int| 0 <= i < first.len() implies triangles(#[trigger] first[i])
        == triangles_at(key(first[i])) && vertices(first[i]) == vertices_at(key(first[i])) by {
        let r: JobResult<V> = first[i];
        assert(spec_is_outcome(field, corners, r.offset, triangulator, r));
        lemma_outcomes_agree(field, corners, r.offset, triangulator, r, chosen(r.offset));
    }
    assert forall|i: int| 0 <= i < second.len() implies triangles(#[trigger] second[i])
        == triangles_at(key(second[i])) && vertices(second[i]) == vertices_at(key(second[i])) by {
        let r: JobResult<V> = second[i];
        assert(spec_is_outcome(field, corners, r.offset, triangulator, r));
        lemma_outcomes_agree(field, corners, r.offset, triangulator, r, chosen(r.offset));
    }
    lemma_flat_map_through_keys(first, key, triangles, triangles_at);
    lemma_flat_map_through_keys(second, key, triangles, triangles_at);
    lemma_flat_map_through_keys(first, key, vertices, vertices_at);
    lemma_flat_map_through_keys(second, key, vertices, vertices_at);
    lemma_flat_map_permutation(first.map_values(key), second.map_values(key), triangles_at);
    lemma_flat_map_permutation(first.map_values(key), second.map_values(key), vertices_at);
    vstd::seq_lib::to_multiset_len(first.map_values(key));
    vstd::seq_lib::to_multiset_len(second.map_values(key));
}

} // verus!
