//! Grid coordinates and the bijection between a coordinate and its flat index.

use vstd::prelude::*;

verus! {

/// Edge length of the reference grid.
pub const C_SIZE: i32 = 64;

/// Number of samples in the reference grid: `C_SIZE` cubed.
pub const C_C_SIZE: i32 = 262144;

/// Largest edge length whose cube still fits an `i32`.
pub const MAX_EDGE: i32 = 1290;

/// Number of samples in the largest grid: `MAX_EDGE` cubed.
pub const MAX_LEN: i32 = 2146689000;

/// An integer triple: a grid coordinate, a cell offset or a corner offset.
#[derive(Clone, Copy, Debug, PartialEq, Eq, Hash, Structural)]
pub struct Vector3Int {
    pub x: i32,
    pub y: i32,
    pub z: i32,
}

/// `n` cubed.
pub open spec fn cube(n: int) -> int {
    n * n * n
}

/// Every component of `c` lies in `[0, n)`.
pub open spec fn in_cube(n: int, c: Vector3Int) -> bool {
    &&& 0 <= c.x < n
    &&& 0 <= c.y < n
    &&& 0 <= c.z < n
}

/// The flat index of `c` in a grid of edge `n`: `z` runs fastest, `x` slowest.
pub open spec fn spec_index(n: int, c: Vector3Int) -> int {
    c.z + n * (c.y + n * c.x)
}

/// The coordinate at flat index `i` in a grid of edge `n`.
pub open spec fn spec_coord(n: int, i: int) -> Vector3Int {
    Vector3Int { x: (i / (n * n)) as i32, y: ((i / n) % n) as i32, z: (i % n) as i32 }
}

impl Vector3Int {
    /// The triple `(x, y, z)`.
    pub fn new(x: i32, y: i32, z: i32) -> (v: Vector3Int)
        ensures
            v == (Vector3Int { x, y, z }),
    {
        Vector3Int { x, y, z }
    }
}

/// A cubic grid of samples, known by its edge length.
#[derive(Clone, Copy, Debug)]
pub struct Grid {
    edge: i32,
}

impl Grid {
    /// The edge length `N`.
    pub closed spec fn spec_edge(&self) -> int {
        self.edge as int
    }

    /// A grid has at least one sample, and its sample count fits an `i32`.
    pub open spec fn wf(&self) -> bool {
        1 <= self.spec_edge() <= MAX_EDGE
    }

    /// The number of samples, `N` cubed.
    pub open spec fn spec_len(&self) -> int {
        cube(self.spec_edge())
    }

    /// The number of unit cells, `N - 1` cubed.
    pub open spec fn spec_cell_count(&self) -> int {
        cube(self.spec_edge() - 1)
    }

    /// `c` names a sample of this grid.
    pub open spec fn spec_contains(&self, c: Vector3Int) -> bool {
        in_cube(self.spec_edge(), c)
    }

    /// `o` is the lowest corner of a unit cell of this grid.
    pub open spec fn spec_contains_cell(&self, o: Vector3Int) -> bool {
        in_cube(self.spec_edge() - 1, o)
    }

    /// A grid of the given edge length, where that length is admissible.
    pub fn new(edge: i32) -> (r: Option<Grid>)
        ensures
            r is Some <==> 1 <= edge <= MAX_EDGE,
            r matches Some(g) ==> g.wf() && g.spec_edge() == edge,
    {
        if 1 <= edge && edge <= MAX_EDGE {
            Some(Grid { edge })
        } else {
            None
        }
    }

    /// The reference grid, of edge `C_SIZE`.
    pub fn reference() -> (g: Grid)
        ensures
            g.wf(),
            g.spec_edge() == C_SIZE,
            g.spec_len() == C_C_SIZE,
    {
        assert(cube(64) == 262144) by (nonlinear_arith);
        Grid { edge: C_SIZE }
    }

    /// The edge length.
    pub fn edge(&self) -> (n: i32)
        ensures
            n == self.spec_edge(),
    {
        self.edge
    }

    /// The number of samples.
    pub fn len(&self) -> (r: usize)
        requires
            self.wf(),
        ensures
            r == self.spec_len(),
    {
        proof {
            lemma_cube_bounds(self.spec_edge());
        }
        let n: i32 = self.edge;
        assert(0 <= n * n <= MAX_EDGE * MAX_EDGE) by (nonlinear_arith)
            requires
                0 <= n <= MAX_EDGE,
        ;
        let total: i32 = n * n * n;
        total as usize
    }

    /// The number of unit cells.
    pub fn cell_count(&self) -> (r: usize)
        requires
            self.wf(),
        ensures
            r == self.spec_cell_count(),
    {
        proof {
            lemma_cube_bounds(self.spec_edge() - 1);
        }
        let m: i32 = self.edge - 1;
        assert(0 <= m * m <= MAX_EDGE * MAX_EDGE) by (nonlinear_arith)
            requires
                0 <= m <= MAX_EDGE,
        ;
        let total: i32 = m * m * m;
        total as usize
    }

    /// Whether `o` is the lowest corner of a unit cell of this grid.
    pub fn contains_cell(&self, o: Vector3Int) -> (r: bool)
        ensures
            r == self.spec_contains_cell(o),
    {
        let n: i32 = self.edge;
        0 <= o.x && o.x < n && o.x + 1 < n && 0 <= o.y && o.y < n && o.y + 1 < n && 0 <= o.z
            && o.z < n && o.z + 1 < n
    }

    /// Whether `c` names a sample of this grid.
    pub fn contains(&self, c: Vector3Int) -> (r: bool)
        ensures
            r == self.spec_contains(c),
    {
        0 <= c.x && c.x < self.edge && 0 <= c.y && c.y < self.edge && 0 <= c.z && c.z
            < self.edge
    }

    /// The flat index of the sample at `c`.
    pub fn index(&self, c: Vector3Int) -> (i: usize)
        requires
            self.wf(),
            self.spec_contains(c),
        ensures
            i == spec_index(self.spec_edge(), c),
            i < self.spec_len(),
    {
        let n: i32 = self.edge;
        proof {
            lemma_index_in_range(n as int, c);
            lemma_cube_bounds(n as int);
            assert(0 <= n * c.x) by (nonlinear_arith)
                requires
                    0 <= c.x,
                    0 <= n,
            ;
            assert(c.y + n * c.x <= n * (c.y + n * c.x)) by (nonlinear_arith)
                requires
                    0 <= c.y + n * c.x,
                    1 <= n,
            ;
        }
        let idx: i32 = c.z + n * (c.y + n * c.x);
        idx as usize
    }

    /// The coordinate of the sample at flat index `i`.
    pub fn coord(&self, i: usize) -> (c: Vector3Int)
        requires
            self.wf(),
            i < self.spec_len(),
        ensures
            c == spec_coord(self.spec_edge(), i as int),
            self.spec_contains(c),
    {
        let n: i32 = self.edge;
        proof {
            lemma_cube_bounds(n as int);
            lemma_coord_in_range(n as int, i as int);
            assert(0 < n * n <= MAX_EDGE * MAX_EDGE) by (nonlinear_arith)
                requires
                    1 <= n <= MAX_EDGE,
            ;
        }
        let idx: i32 = i as i32;
        let z: i32 = idx % n;
        let y: i32 = (idx / n) % n;
        let x: i32 = idx / (n * n);
        Vector3Int { x, y, z }
    }
}

/// The cube of an admissible edge length fits an `i32`.
pub proof fn lemma_cube_bounds(n: int)
    requires
        0 <= n <= MAX_EDGE,
    ensures
        0 <= cube(n) <= MAX_LEN,
        n == 0 ==> cube(n) == 0,
        n >= 1 ==> cube(n - 1) < cube(n),
{
    if n == 0 {
        assert(cube(0) == 0) by (nonlinear_arith);
    }
    assert(0 <= n * n <= 1290 * 1290) by (nonlinear_arith)
        requires
            0 <= n <= 1290,
    ;
    assert(0 <= (n * n) * n <= (1290 * 1290) * 1290) by (nonlinear_arith)
        requires
            0 <= n <= 1290,
            0 <= n * n <= 1290 * 1290,
    ;
    if n >= 1 {
        assert((n - 1) * (n - 1) * (n - 1) < n * n * n) by (nonlinear_arith)
            requires
                n >= 1,
        ;
    }
}

/// The flat index of a coordinate of the grid is below the sample count.
pub proof fn lemma_index_in_range(n: int, c: Vector3Int)
    requires
        1 <= n,
        in_cube(n, c),
    ensures
        0 <= spec_index(n, c) < cube(n),
        0 <= c.y + n * c.x < n * n,
{
    assert(0 <= n * c.x <= n * (n - 1)) by (nonlinear_arith)
        requires
            0 <= c.x <= n - 1,
            0 <= n,
    ;
    let row: int = c.y + n * c.x;
    assert(row <= n * n - 1) by (nonlinear_arith)
        requires
            row <= (n - 1) + n * (n - 1),
    ;
    assert(0 <= n * row <= n * (n * n - 1)) by (nonlinear_arith)
        requires
            0 <= row <= n * n - 1,
            0 <= n,
    ;
    assert(c.z + n * (n * n - 1) < n * n * n) by (nonlinear_arith)
        requires
            c.z < n,
    ;
}

/// The coordinate at a flat index below the sample count lies in the grid.
pub proof fn lemma_coord_in_range(n: int, i: int)
    requires
        1 <= n <= MAX_EDGE,
        0 <= i < cube(n),
    ensures
        0 <= i / (n * n) < n,
        0 <= (i / n) % n < n,
        0 <= i % n < n,
        i / (n * n) == (i / n) / n,
        in_cube(n, spec_coord(n, i)),
{
    vstd::arithmetic::div_mod::lemma_div_denominator(i, n, n);
    vstd::arithmetic::div_mod::lemma_fundamental_div_mod(i, n);
    vstd::arithmetic::div_mod::lemma_fundamental_div_mod(i / n, n);
    vstd::arithmetic::div_mod::lemma_mod_bound(i, n);
    vstd::arithmetic::div_mod::lemma_div_pos_is_pos(i, n);
    vstd::arithmetic::div_mod::lemma_mod_bound(i / n, n);
    vstd::arithmetic::div_mod::lemma_div_pos_is_pos(i / n, n);
    let q: int = i / n;
    let x: int = q / n;
    assert(x < n) by (nonlinear_arith)
        requires
            i == n * q + i % n,
            q == n * x + q % n,
            0 <= i % n,
            0 <= q % n,
            i < n * n * n,
            1 <= n,
    ;
}

/// Round trip from a flat index: for every `i` in `[0, n^3)` the coordinate at
/// `i` lies in the grid and its flat index is `i` again.
pub proof fn lemma_index_of_coord(n: int, i: int)
    requires
        1 <= n <= MAX_EDGE,
        0 <= i < cube(n),
    ensures
        in_cube(n, spec_coord(n, i)),
        spec_index(n, spec_coord(n, i)) == i,
{
    lemma_coord_in_range(n, i);
    vstd::arithmetic::div_mod::lemma_fundamental_div_mod(i, n);
    vstd::arithmetic::div_mod::lemma_fundamental_div_mod(i / n, n);
}

/// Round trip from a coordinate: for every `c` in `[0, n)^3` the flat index of
/// `c` lies in `[0, n^3)` and the coordinate at that index is `c` again.
pub proof fn lemma_coord_of_index(n: int, c: Vector3Int)
    requires
        1 <= n <= MAX_EDGE,
        in_cube(n, c),
    ensures
        0 <= spec_index(n, c) < cube(n),
        spec_coord(n, spec_index(n, c)) == c,
{
    lemma_index_in_range(n, c);
    let row: int = c.y + n * c.x;
    let i: int = spec_index(n, c);
    vstd::arithmetic::div_mod::lemma_fundamental_div_mod_converse(i, n, row, c.z as int);
    vstd::arithmetic::div_mod::lemma_fundamental_div_mod_converse(row, n, c.x as int, c.y as int);
    vstd::arithmetic::div_mod::lemma_div_denominator(i, n, n);
}

/// Two coordinates of the grid with the same flat index are the same coordinate.
pub proof fn lemma_index_injective(n: int, a: Vector3Int, b: Vector3Int)
    requires
        1 <= n <= MAX_EDGE,
        in_cube(n, a),
        in_cube(n, b),
        spec_index(n, a) == spec_index(n, b),
    ensures
        a == b,
{
    lemma_coord_of_index(n, a);
    lemma_coord_of_index(n, b);
}

/// Two flat indices below the sample count with the same coordinate are the
/// same index.
pub proof fn lemma_coord_injective(n: int, i: int, j: int)
    requires
        1 <= n <= MAX_EDGE,
        0 <= i < cube(n),
        0 <= j < cube(n),
        spec_coord(n, i) == spec_coord(n, j),
    ensures
        i == j,
{
    lemma_index_of_coord(n, i);
    lemma_index_of_coord(n, j);
}

/// The coordinate at flat index `idx` of the reference grid.
pub fn idx_to_vec3int(idx: usize) -> (v: Vector3Int)
    requires
        idx < C_C_SIZE,
    ensures
        v == spec_coord(C_SIZE as int, idx as int),
        in_cube(C_SIZE as int, v),
{
    let g: Grid = Grid::reference();
    g.coord(idx)
}

/// The flat index of the coordinate `vec3` of the reference grid.
pub fn vec3int_to_idx(vec3: Vector3Int) -> (idx: usize)
    requires
        in_cube(C_SIZE as int, vec3),
    ensures
        idx == spec_index(C_SIZE as int, vec3),
        idx < C_C_SIZE,
{
    let g: Grid = Grid::reference();
    g.index(vec3)
}

} // verus!
