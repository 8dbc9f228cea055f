//! The density field: one sample for every coordinate of a grid, stored flat.
//!
//! The field is generic in its sample type. It is filled once, completely,
//! and offers no way to change a sample afterwards, so a filled field can be
//! shared freely among readers.

use vstd::prelude::*;
use crate::grid::{spec_coord, spec_index, Grid, Vector3Int};

verus! {

/// A grid together with one sample per coordinate, stored at the flat index of
/// the coordinate.
pub struct DensityField<T> {
    grid: Grid,
    values: Vec<T>,
}

impl<T> View for DensityField<T> {
    type V = Seq<T>;

    /// The samples, by flat index.
    closed spec fn view(&self) -> Seq<T> {
        self.values@
    }
}

impl<T> DensityField<T> {
    /// The grid that the samples belong to.
    pub closed spec fn spec_grid(&self) -> Grid {
        self.grid
    }

    /// The field holds exactly one sample for every coordinate of its grid.
    pub open spec fn wf(&self) -> bool {
        &&& self.spec_grid().wf()
        &&& self@.len() == self.spec_grid().spec_len()
    }

    /// The sample at coordinate `c`.
    pub open spec fn spec_at(&self, c: Vector3Int) -> T {
        self@[spec_index(self.spec_grid().spec_edge(), c)]
    }

    /// Fills a field by asking `source` once for every coordinate of `grid`,
    /// in the order of the flat index.
    pub fn sample<F: Fn(Vector3Int) -> T>(grid: Grid, source: F) -> (field: DensityField<T>)
        requires
            grid.wf(),
            forall|c: Vector3Int| grid.spec_contains(c) ==> call_requires(source, (c,)),
        ensures
            field.wf(),
            field.spec_grid() == grid,
            forall|i: int|
                0 <= i < grid.spec_len() ==> call_ensures(
                    source,
                    (spec_coord(grid.spec_edge(), i),),
                    #[trigger] field@[i],
                ),
    {
        let total: usize = grid.len();
        let mut values: Vec<T> = Vec::new();
        let mut i: usize = 0;
        while i < total
            invariant
                grid.wf(),
                total == grid.spec_len(),
                0 <= i <= total,
                values@.len() == i,
                forall|c: Vector3Int| grid.spec_contains(c) ==> call_requires(source, (c,)),
                forall|j: int|
                    0 <= j < i ==> call_ensures(
                        source,
                        (spec_coord(grid.spec_edge(), j),),
                        #[trigger] values@[j],
                    ),
            decreases total - i,
        {
            let c: Vector3Int = grid.coord(i);
            let value: T = source(c);
            values.push(value);
            i = i + 1;
        }
        DensityField { grid, values }
    }

    /// Wraps samples that were produced elsewhere, where there is exactly one
    /// for every coordinate of `grid`.
    pub fn from_samples(grid: Grid, values: Vec<T>) -> (r: Option<DensityField<T>>)
        requires
            grid.wf(),
        ensures
            r is Some <==> values@.len() == grid.spec_len(),
            r matches Some(field) ==> field.wf() && field.spec_grid() == grid && field@
                == values@,
    {
        if values.len() == grid.len() {
            Some(DensityField { grid, values })
        } else {
            None
        }
    }

    /// The grid that the samples belong to.
    pub fn grid(&self) -> (g: Grid)
        ensures
            g == self.spec_grid(),
    {
        self.grid
    }

    /// The number of samples.
    pub fn len(&self) -> (n: usize)
        ensures
            n == self@.len(),
    {
        self.values.len()
    }

    /// The sample at coordinate `c`.
    pub fn get(&self, c: Vector3Int) -> (value: &T)
        requires
            self.wf(),
            self.spec_grid().spec_contains(c),
        ensures
            *value == self.spec_at(c),
    {
        let i: usize = self.grid.index(c);
        &self.values[i]
    }

    /// The sample at flat index `i`.
    pub fn get_flat(&self, i: usize) -> (value: &T)
        requires
            i < self@.len(),
        ensures
            *value == self@[i as int],
    {
        &self.values[i]
    }
}

/// Range: whatever holds of every value that the source can give holds of
/// every sample of a field that was filled from it.
pub proof fn lemma_samples_keep_range<T, F: Fn(Vector3Int) -> T>(
    field: DensityField<T>,
    source: F,
    within: spec_fn(T) -> bool,
)
    requires
        field.wf(),
        forall|i: int|
            0 <= i < field.spec_grid().spec_len() ==> call_ensures(
                source,
                (spec_coord(field.spec_grid().spec_edge(), i),),
                #[trigger] field@[i],
            ),
        forall|c: Vector3Int, value: T| call_ensures(source, (c,), value) ==> within(value),
    ensures
        forall|i: int| 0 <= i < field@.len() ==> within(#[trigger] field@[i]),
        forall|c: Vector3Int| field.spec_grid().spec_contains(c) ==> within(field.spec_at(c)),
{
    assert forall|c: Vector3Int| field.spec_grid().spec_contains(c) implies within(
        field.spec_at(c),
    ) by {
        crate::grid::lemma_index_in_range(field.spec_grid().spec_edge(), c);
    }
}

} // verus!
