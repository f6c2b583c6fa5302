//! The occupancy lattice of one chunk.

use vstd::prelude::*;

verus! {

/// Largest edge length of a grid. A chunk of this size has at most
/// `24 * MAX_EDGE^3` mesh vertices, which still fits a 32-bit index.
pub const MAX_EDGE: usize = 512;

/// Edge length of the chunk that [`crate::chunkmesh::ChunkMesh::new`] builds.
pub const CHUNK_SIZE: usize = 32;

/// A cube of `edge * edge * edge` cells, each holding an occupancy code:
/// `0` is empty, anything else is solid. Every coordinate outside the cube
/// reads as empty.
pub struct VoxelGrid {
    edge: usize,
    cells: Vec<i8>,
}

/// Position of cell `(x, y, z)` in the flat cell buffer of a grid of edge `n`.
pub open spec fn linear_index(n: int, x: int, y: int, z: int) -> int {
    (x * n + y) * n + z
}

/// Whether `(x, y, z)` lies inside a grid of edge `n`.
pub open spec fn in_bounds(n: int, x: int, y: int, z: int) -> bool {
    0 <= x < n && 0 <= y < n && 0 <= z < n
}

/// The cube of an edge within the limit fits the machine's integers.
pub proof fn lemma_cube_bound(n: int)
    requires
        0 <= n <= MAX_EDGE,
    ensures
        0 <= n * n <= 262144,
        0 <= n * n * n <= 134217728,
{
    assert(0 <= n * n <= 262144) by (nonlinear_arith)
        requires
            0 <= n <= 512,
    ;
    assert(0 <= n * n * n <= 134217728) by (nonlinear_arith)
        requires
            0 <= n <= 512,
            0 <= n * n <= 262144,
    ;
}

/// The flat position of a cell inside the grid lies inside the buffer.
pub proof fn lemma_linear_index_bound(n: int, x: int, y: int, z: int)
    requires
        in_bounds(n, x, y, z),
    ensures
        0 <= linear_index(n, x, y, z) < n * n * n,
{
    assert(0 <= (x * n + y) * n + z < n * n * n) by (nonlinear_arith)
        requires
            0 <= x < n,
            0 <= y < n,
            0 <= z < n,
    ;
}

/// Two cells inside the grid that share a flat position are the same cell.
pub proof fn lemma_linear_index_injective(n: int, x: int, y: int, z: int, a: int, b: int, c: int)
    requires
        in_bounds(n, x, y, z),
        in_bounds(n, a, b, c),
        linear_index(n, x, y, z) == linear_index(n, a, b, c),
    ensures
        x == a && y == b && z == c,
{
    lemma_digits_injective(n, x * n + y, z, a * n + b, c);
    lemma_digits_injective(n, x, y, a, b);
}

/// A number below `n` and the multiple of `n` it is added to can be read
/// back from the sum.
proof fn lemma_digits_injective(n: int, hi: int, lo: int, hi2: int, lo2: int)
    requires
        0 <= lo < n,
        0 <= lo2 < n,
        hi * n + lo == hi2 * n + lo2,
    ensures
        hi == hi2 && lo == lo2,
{
    assert(hi == hi2) by (nonlinear_arith)
        requires
            0 <= lo < n,
            0 <= lo2 < n,
            hi * n + lo == hi2 * n + lo2,
    ;
    assert(hi * n == hi2 * n);
}

impl VoxelGrid {
    /// Edge length of the grid.
    pub closed spec fn edge_len(&self) -> int {
        self.edge as int
    }

    /// The code stored for a cell inside the grid.
    pub closed spec fn stored(&self, x: int, y: int, z: int) -> i8 {
        self.cells@[linear_index(self.edge as int, x, y, z)]
    }

    /// The buffer holds exactly one code per cell.
    pub closed spec fn buffer_matches(&self) -> bool {
        self.cells@.len() == self.edge * self.edge * self.edge
    }

    /// Validity of a grid: its edge is within the limit and its buffer is complete.
    pub open spec fn wf(&self) -> bool {
        &&& 0 <= self.edge_len() <= MAX_EDGE
        &&& self.buffer_matches()
    }

    /// The occupancy code at any integer coordinate: the stored code inside
    /// the grid, empty everywhere else.
    pub open spec fn cell(&self, x: int, y: int, z: int) -> i8 {
        if in_bounds(self.edge_len(), x, y, z) {
            self.stored(x, y, z)
        } else {
            0i8
        }
    }

    /// Two grids that agree on their edge and on every cell.
    pub open spec fn same_cells(&self, other: &VoxelGrid) -> bool {
        &&& self.edge_len() == other.edge_len()
        &&& forall|x: int, y: int, z: int| #[trigger] self.cell(x, y, z) == other.cell(x, y, z)
    }

    /// A grid of the given edge with every cell empty.
    pub fn new(edge: usize) -> (grid: VoxelGrid)
        requires
            edge <= MAX_EDGE,
        ensures
            grid.wf(),
            grid.edge_len() == edge,
            forall|x: int, y: int, z: int| #[trigger] grid.cell(x, y, z) == 0,
    {
        VoxelGrid::filled(edge, 0)
    }

    /// A grid of the given edge with `code` in every cell.
    pub fn filled(edge: usize, code: i8) -> (grid: VoxelGrid)
        requires
            edge <= MAX_EDGE,
        ensures
            grid.wf(),
            grid.edge_len() == edge,
            forall|x: int, y: int, z: int|
                #[trigger] grid.cell(x, y, z) == if in_bounds(edge as int, x, y, z) {
                    code
                } else {
                    0i8
                },
    {
        proof {
            lemma_cube_bound(edge as int);
        }
        let total: usize = edge * edge * edge;
        let mut cells: Vec<i8> = Vec::new();
        let mut i: usize = 0;
        while i < total
            invariant
                i <= total,
                cells@.len() == i,
                forall|k: int| 0 <= k < i ==> cells@[k] == code,
            decreases total - i,
        {
            cells.push(code);
            i += 1;
        }
        let grid = VoxelGrid { edge, cells };
        proof {
            assert forall|x: int, y: int, z: int|
                #[trigger] grid.cell(x, y, z) == if in_bounds(edge as int, x, y, z) {
                    code
                } else {
                    0i8
                } by {
                if in_bounds(edge as int, x, y, z) {
                    lemma_linear_index_bound(edge as int, x, y, z);
                }
            }
        }
        grid
    }

    /// Edge length of the grid.
    pub fn edge(&self) -> (n: usize)
        ensures
            n == self.edge_len(),
    {
        self.edge
    }

    /// The occupancy code at `(x, y, z)`. Coordinates outside the grid are
    /// not an error: they read as empty.
    pub fn get(&self, x: i32, y: i32, z: i32) -> (code: i8)
        requires
            self.wf(),
        ensures
            code == self.cell(x as int, y as int, z as int),
            !in_bounds(self.edge_len(), x as int, y as int, z as int) ==> code == 0,
    {
        if x < 0 || y < 0 || z < 0 {
            return 0;
        }
        let n = self.edge;
        let (ux, uy, uz) = (x as usize, y as usize, z as usize);
        if ux >= n || uy >= n || uz >= n {
            return 0;
        }
        proof {
            lemma_cube_bound(n as int);
            lemma_linear_index_bound(n as int, ux as int, uy as int, uz as int);
            assert(0 <= ux * n + uy < n * n) by (nonlinear_arith)
                requires
                    0 <= ux < n,
                    0 <= uy < n,
            ;
        }
        self.cells[(ux * n + uy) * n + uz]
    }

    /// Stores `code` at `(x, y, z)`. A coordinate outside the grid has no
    /// cell to store into, and the grid is left as it was.
    pub fn set(&mut self, x: i32, y: i32, z: i32, code: i8)
        requires
            old(self).wf(),
        ensures
            final(self).wf(),
            final(self).edge_len() == old(self).edge_len(),
            forall|a: int, b: int, c: int|
                #[trigger] final(self).cell(a, b, c) == if a == x && b == y && c == z && in_bounds(
                    old(self).edge_len(),
                    a,
                    b,
                    c,
                ) {
                    code
                } else {
                    old(self).cell(a, b, c)
                },
    {
        if x < 0 || y < 0 || z < 0 {
            return ;
        }
        let n = self.edge;
        let (ux, uy, uz) = (x as usize, y as usize, z as usize);
        if ux >= n || uy >= n || uz >= n {
            return ;
        }
        proof {
            lemma_cube_bound(n as int);
            lemma_linear_index_bound(n as int, ux as int, uy as int, uz as int);
            assert(0 <= ux * n + uy < n * n) by (nonlinear_arith)
                requires
                    0 <= ux < n,
                    0 <= uy < n,
            ;
        }
        let at: usize = (ux * n + uy) * n + uz;
        self.cells.set(at, code);
        proof {
            assert forall|a: int, b: int, c: int|
                #[trigger] self.cell(a, b, c) == if a == x && b == y && c == z {
                    code
                } else {
                    old(self).cell(a, b, c)
                } by {
                if in_bounds(n as int, a, b, c) {
                    lemma_linear_index_bound(n as int, a, b, c);
                    if linear_index(n as int, a, b, c) == at {
                        lemma_linear_index_injective(n as int, a, b, c, x as int, y as int, z as int);
                    }
                }
            }
        }
    }
}

} // verus!
