//! Collecting the job results: a counter that knows how many results are
//! owed, and the vertex stream that the results are flattened into.

use vstd::prelude::*;
use crate::grid::{Grid, Vector3Int};
use crate::job::JobResult;

verus! {

/// One vertex of the stream: its position in the frame of its cell, and the
/// offset of that cell. The position in the grid is the sum of the two.
#[derive(Debug)]
pub struct StreamVertex<V> {
    pub local: V,
    pub cell: Vector3Int,
}

/// Why a collection did not end with the stream.
#[derive(Clone, Copy, Debug, PartialEq, Eq, Structural)]
pub enum AggregateError {
    /// The results ran out before the expected number had arrived.
    CountMismatch { expected: usize, received: usize },
    /// A result arrived after the expected number had been reached.
    Surplus { expected: usize },
}

/// The items of `f(s[0])`, then those of `f(s[1])`, and so on.
pub open spec fn spec_flat_map<A, B>(s: Seq<A>, f: spec_fn(A) -> Seq<B>) -> Seq<B>
    decreases s.len(),
{
    if s.len() == 0 {
        Seq::empty()
    } else {
        spec_flat_map(s.drop_last(), f) + f(s.last())
    }
}

/// The vertices of one result: triangle after triangle, three vertices each,
/// every one tagged with the offset of the result.
pub open spec fn spec_result_vertices<V>(result: JobResult<V>) -> Seq<StreamVertex<V>> {
    Seq::new(
        3 * result.triangles@.len(),
        |i: int| StreamVertex { local: result.triangles@[i / 3]@[i % 3], cell: result.offset },
    )
}

/// The triangles of one result, each paired with the offset of the result.
pub open spec fn spec_result_triangles<V>(result: JobResult<V>) -> Seq<([V; 3], Vector3Int)> {
    Seq::new(result.triangles@.len(), |i: int| (result.triangles@[i], result.offset))
}

/// The vertex stream of a run of results: the vertices of each result, in the
/// order in which the results arrived.
pub open spec fn spec_stream<V>(results: Seq<JobResult<V>>) -> Seq<StreamVertex<V>> {
    spec_flat_map(results, |r: JobResult<V>| spec_result_vertices(r))
}

/// The triangles of a run of results, each paired with the offset of its
/// cell, in the order in which the results arrived.
pub open spec fn spec_triangles<V>(results: Seq<JobResult<V>>) -> Seq<([V; 3], Vector3Int)> {
    spec_flat_map(results, |r: JobResult<V>| spec_result_triangles(r))
}

/// Collects job results until the expected number has arrived.
pub struct Aggregator<V> {
    expected: usize,
    received: usize,
    stream: Vec<StreamVertex<V>>,
    arrived: Ghost<Seq<JobResult<V>>>,
}

impl<V: Copy> Aggregator<V> {
    /// The number of results that are owed.
    pub closed spec fn spec_expected(&self) -> nat {
        self.expected as nat
    }

    /// The results that were accepted so far, in the order of their arrival.
    pub closed spec fn spec_arrived(&self) -> Seq<JobResult<V>> {
        self.arrived@
    }

    /// The vertices that were collected so far.
    pub closed spec fn spec_collected(&self) -> Seq<StreamVertex<V>> {
        self.stream@
    }

    /// The number of results that were counted so far.
    pub closed spec fn spec_received(&self) -> nat {
        self.received as nat
    }

    /// Every accepted result was counted, never more results than expected
    /// were accepted, and the collected vertices are the stream of the
    /// accepted results.
    pub open spec fn wf(&self) -> bool {
        &&& self.spec_received() == self.spec_arrived().len()
        &&& self.spec_arrived().len() <= self.spec_expected()
        &&& self.spec_collected() == spec_stream(self.spec_arrived())
    }

    /// A collection that waits for `expected` results.
    pub fn new(expected: usize) -> (agg: Aggregator<V>)
        ensures
            agg.wf(),
            agg.spec_expected() == expected,
            agg.spec_arrived() == Seq::<JobResult<V>>::empty(),
    {
        Aggregator { expected, received: 0, stream: Vec::new(), arrived: Ghost(Seq::empty()) }
    }

    /// A collection that waits for one result per unit cell of `grid`.
    pub fn for_grid(grid: &Grid) -> (agg: Aggregator<V>)
        requires
            grid.wf(),
        ensures
            agg.wf(),
            agg.spec_expected() == grid.spec_cell_count(),
            agg.spec_arrived() == Seq::<JobResult<V>>::empty(),
    {
        Aggregator::new(grid.cell_count())
    }

    /// The number of results that are owed.
    pub fn expected(&self) -> (n: usize)
        ensures
            n == self.spec_expected(),
    {
        self.expected
    }

    /// The number of results that were accepted so far.
    pub fn received(&self) -> (n: usize)
        requires
            self.wf(),
        ensures
            n == self.spec_arrived().len(),
    {
        self.received
    }

    /// The number of results that are still missing.
    pub fn remaining(&self) -> (n: usize)
        requires
            self.wf(),
        ensures
            n == self.spec_expected() - self.spec_arrived().len(),
    {
        self.expected - self.received
    }

    /// Whether the expected number of results has arrived.
    pub fn is_complete(&self) -> (done: bool)
        requires
            self.wf(),
        ensures
            done <==> self.spec_arrived().len() == self.spec_expected(),
    {
        self.received == self.expected
    }

    /// Takes in one result. While results are owed, the result is accepted and
    /// its vertices are appended to the stream; once the expected number has
    /// been reached, the result is refused and nothing changes.
    pub fn accept(&mut self, result: JobResult<V>) -> (outcome: Result<(), AggregateError>)
        requires
            old(self).wf(),
        ensures
            final(self).wf(),
            final(self).spec_expected() == old(self).spec_expected(),
            old(self).spec_arrived().len() < old(self).spec_expected() ==> outcome is Ok
                && final(self).spec_arrived() == old(self).spec_arrived().push(result)
                && final(self).spec_collected() == old(self).spec_collected()
                + spec_result_vertices(result),
            old(self).spec_arrived().len() >= old(self).spec_expected() ==> outcome == Err::<
                (),
                AggregateError,
            >(AggregateError::Surplus { expected: old(self).spec_expected() as usize })
                && final(self).spec_arrived() == old(self).spec_arrived()
                && final(self).spec_collected() == old(self).spec_collected(),
    {
        if self.received >= self.expected {
            return Err(AggregateError::Surplus { expected: self.expected });
        }
        let ghost before: Seq<StreamVertex<V>> = self.stream@;
        let ghost vertices: Seq<StreamVertex<V>> = spec_result_vertices(result);
        let count: usize = result.triangles.len();
        let mut t: usize = 0;
        while t < count
            invariant
                0 <= t <= count,
                count == result.triangles@.len(),
                vertices == spec_result_vertices(result),
                self.stream@ == before + vertices.take(3 * t),
                self.expected == old(self).expected,
                self.received == old(self).received,
                self.arrived == old(self).arrived,
            decreases count - t,
        {
            let triangle: &[V; 3] = &result.triangles[t];
            let offset: Vector3Int = result.offset;
            self.stream.push(StreamVertex { local: triangle[0], cell: offset });
            self.stream.push(StreamVertex { local: triangle[1], cell: offset });
            self.stream.push(StreamVertex { local: triangle[2], cell: offset });
            assert(self.stream@ =~= before + vertices.take(3 * (t + 1)));
            t = t + 1;
        }
        assert(vertices.take(3 * count) =~= vertices);
        self.received = self.received + 1;
        proof {
            let grown: Seq<JobResult<V>> = self.arrived@.push(result);
            assert(grown.drop_last() =~= self.arrived@);
            assert(grown.last() == result);
            self.arrived@ = grown;
        }
        Ok(())
    }

    /// Ends the collection. The stream is handed out when exactly the expected
    /// number of results has arrived; otherwise the two counts are reported.
    pub fn finish(self) -> (outcome: Result<Vec<StreamVertex<V>>, AggregateError>)
        requires
            self.wf(),
        ensures
            self.spec_arrived().len() == self.spec_expected() ==> (outcome matches Ok(stream)
                && stream@ == spec_stream(self.spec_arrived()) && stream@.len() == 3
                * spec_triangles(self.spec_arrived()).len()),
            self.spec_arrived().len() != self.spec_expected() ==> outcome == Err::<
                Vec<StreamVertex<V>>,
                AggregateError,
            >(
                AggregateError::CountMismatch {
                    expected: self.spec_expected() as usize,
                    received: self.spec_arrived().len() as usize,
                },
            ),
    {
        if self.received == self.expected {
            proof {
                lemma_stream_len(self.arrived@);
            }
            Ok(self.stream)
        } else {
            Err(AggregateError::CountMismatch { expected: self.expected, received: self.received })
        }
    }
}

/// Flattening distributes over concatenation.
pub proof fn lemma_flat_map_concat<A, B>(a: Seq<A>, b: Seq<A>, f: spec_fn(A) -> Seq<B>)
    ensures
        spec_flat_map(a + b, f) == spec_flat_map(a, f) + spec_flat_map(b, f),
    decreases b.len(),
{
    if b.len() == 0 {
        assert(a + b =~= a);
        assert(spec_flat_map(a, f) + spec_flat_map(b, f) =~= spec_flat_map(a, f));
    } else {
        lemma_flat_map_concat(a, b.drop_last(), f);
        assert((a + b).drop_last() =~= a + b.drop_last());
        assert((a + b).last() == b.last());
        assert(spec_flat_map(a + b, f) =~= spec_flat_map(a, f) + spec_flat_map(b, f));
    }
}

/// Two runs that hold the same items, whatever their order, flatten to
/// sequences that hold the same items.
pub proof fn lemma_flat_map_permutation<A, B>(a: Seq<A>, b: Seq<A>, f: spec_fn(A) -> Seq<B>)
    requires
        a.to_multiset() == b.to_multiset(),
    ensures
        spec_flat_map(a, f).to_multiset() == spec_flat_map(b, f).to_multiset(),
    decreases a.len(),
{
    broadcast use vstd::seq_lib::group_to_multiset_ensures;
    broadcast use vstd::multiset::group_multiset_axioms;

    if a.len() == 0 {
        vstd::seq_lib::to_multiset_len(a);
        vstd::seq_lib::to_multiset_len(b);
    } else {
        let x: A = a.last();
        let shorter: Seq<A> = a.drop_last();
        assert(a =~= shorter.push(x));
        assert(b.to_multiset().count(x) > 0);
        assert(b.contains(x));
        let i: int = choose|i: int| 0 <= i < b.len() && b[i] == x;
        let head: Seq<A> = b.take(i);
        let tail: Seq<A> = b.skip(i + 1);
        let rest: Seq<A> = b.remove(i);
        assert(rest =~= head + tail);
        assert(b =~= head + seq![x] + tail);
        assert(shorter.to_multiset() =~= a.to_multiset().remove(x));
        assert(rest.to_multiset() =~= b.to_multiset().remove(x));
        lemma_flat_map_permutation(shorter, rest, f);
        lemma_flat_map_concat(head, tail, f);
        lemma_flat_map_concat(head, seq![x], f);
        lemma_flat_map_concat(head + seq![x], tail, f);
        let single: Seq<A> = seq![x];
        assert(single.len() == 1 && single.last() == x);
        assert(single.drop_last() =~= Seq::<A>::empty());
        assert(spec_flat_map(single.drop_last(), f) =~= Seq::<B>::empty());
        assert(spec_flat_map(single, f) =~= f(x));
        vstd::seq_lib::lemma_multiset_commutative(spec_flat_map(shorter, f), f(x));
        vstd::seq_lib::lemma_multiset_commutative(spec_flat_map(head, f), spec_flat_map(tail, f));
        vstd::seq_lib::lemma_multiset_commutative(spec_flat_map(head, f), f(x));
        vstd::seq_lib::lemma_multiset_commutative(
            spec_flat_map(head, f) + f(x),
            spec_flat_map(tail, f),
        );
        assert(spec_flat_map(a, f).to_multiset() =~= spec_flat_map(b, f).to_multiset());
    }
}

/// Flattening `f` over `s` is flattening `h` over the keys of `s`, where `f`
/// looks at nothing but the key of an item.
pub proof fn lemma_flat_map_through_keys<A, C, B>(
    s: Seq<A>,
    key: spec_fn(A) -> C,
    f: spec_fn(A) -> Seq<B>,
    h: spec_fn(C) -> Seq<B>,
)
    requires
        forall|i: int| 0 <= i < s.len() ==> f(#[trigger] s[i]) == h(key(s[i])),
    ensures
        spec_flat_map(s, f) == spec_flat_map(s.map_values(key), h),
    decreases s.len(),
{
    if s.len() > 0 {
        lemma_flat_map_through_keys(s.drop_last(), key, f, h);
        assert(s.map_values(key).drop_last() =~= s.drop_last().map_values(key));
        assert(s.map_values(key).last() == key(s.last()));
        assert(f(s[s.len() - 1]) == h(key(s[s.len() - 1])));
    }
}

/// The stream of a run of results holds three vertices for every triangle of
/// the run, so its length is a multiple of three.
pub proof fn lemma_stream_len<V>(results: Seq<JobResult<V>>)
    ensures
        spec_stream(results).len() == 3 * spec_triangles(results).len(),
        spec_stream(results).len() % 3 == 0,
    decreases results.len(),
{
    if results.len() > 0 {
        lemma_stream_len(results.drop_last());
    }
}

/// The order in which the results arrive does not matter to what the stream
/// holds: two runs of the same results, in whatever order, give the same
/// triangles and the same vertices, each as often in one as in the other.
pub proof fn lemma_arrival_order_is_irrelevant<V>(
    first: Seq<JobResult<V>>,
    second: Seq<JobResult<V>>,
)
    requires
        first.to_multiset() == second.to_multiset(),
    ensures
        spec_triangles(first).to_multiset() == spec_triangles(second).to_multiset(),
        spec_stream(first).to_multiset() == spec_stream(second).to_multiset(),
        spec_stream(first).len() == spec_stream(second).len(),
{
    lemma_flat_map_permutation(first, second, |r: JobResult<V>| spec_result_triangles(r));
    lemma_flat_map_permutation(first, second, |r: JobResult<V>| spec_result_vertices(r));
    spec_stream(first).to_multiset_ensures();
    spec_stream(second).to_multiset_ensures();
}

} // verus!
