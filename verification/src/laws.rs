//! What holds of every mesh: theorems about the mesh of a grid, proved from
//! the definition of the mesh alone.

use vstd::prelude::*;
use crate::cubemesh::{offset, template, Face, Vertex, INDICES};
use crate::grid::{in_bounds, VoxelGrid, MAX_EDGE};
use crate::surface::{
    cell_vertices, chunk_vertices, cube_vertices, exposed, mesh_faces, mesh_indices,
    lemma_pattern_values, mesh_vertices, placed_quad, quad_indices, row_vertices, slab_vertices,
};

verus! {

/// All six quads of the cell `(x, y, z)`, in emission order.
pub open spec fn whole_cube(x: int, y: int, z: int) -> Seq<Vertex> {
    placed_quad(Face::East, x, y, z) + placed_quad(Face::West, x, y, z) + placed_quad(
        Face::Top,
        x,
        y,
        z,
    ) + placed_quad(Face::Bottom, x, y, z) + placed_quad(Face::North, x, y, z) + placed_quad(
        Face::South,
        x,
        y,
        z,
    )
}

/// Every cell of the grid is solid.
pub open spec fn all_solid(grid: VoxelGrid) -> bool {
    forall|x: int, y: int, z: int|
        in_bounds(grid.edge_len(), x, y, z) ==> #[trigger] grid.cell(x, y, z) != 0
}

/// Every cell of the grid is empty.
pub open spec fn all_empty(grid: VoxelGrid) -> bool {
    forall|x: int, y: int, z: int| #[trigger] grid.cell(x, y, z) == 0
}

/// The cell `(x, y, z)` is the only solid cell of the grid.
pub open spec fn only_solid_at(grid: VoxelGrid, x: int, y: int, z: int) -> bool {
    &&& in_bounds(grid.edge_len(), x, y, z)
    &&& grid.cell(x, y, z) != 0
    &&& forall|a: int, b: int, c: int|
        !(a == x && b == y && c == z) ==> #[trigger] grid.cell(a, b, c) == 0
}

/// A coordinate outside the grid reads as empty, whatever the grid holds.
pub proof fn lemma_outside_is_empty(grid: VoxelGrid, x: int, y: int, z: int)
    requires
        x < 0 || y < 0 || z < 0 || x >= grid.edge_len() || y >= grid.edge_len() || z
            >= grid.edge_len(),
    ensures
        grid.cell(x, y, z) == 0,
{
}

/// A row whose first `depth` cells are empty has no vertex among them.
proof fn lemma_empty_row(grid: VoxelGrid, x: int, y: int, depth: nat)
    requires
        forall|z: int| 0 <= z < depth ==> #[trigger] grid.cell(x, y, z) == 0,
    ensures
        row_vertices(grid, x, y, depth) == Seq::<Vertex>::empty(),
    decreases depth,
{
    if depth > 0 {
        lemma_empty_row(grid, x, y, (depth - 1) as nat);
        assert(grid.cell(x, y, depth - 1) == 0);
        assert(row_vertices(grid, x, y, depth) =~= Seq::<Vertex>::empty());
    }
}

/// A slab whose first `height` rows are empty has no vertex among them.
proof fn lemma_empty_slab(grid: VoxelGrid, x: int, height: nat)
    requires
        forall|y: int, z: int| 0 <= y < height ==> #[trigger] grid.cell(x, y, z) == 0,
    ensures
        slab_vertices(grid, x, height) == Seq::<Vertex>::empty(),
    decreases height,
{
    if height > 0 {
        lemma_empty_slab(grid, x, (height - 1) as nat);
        lemma_empty_row(grid, x, height - 1, grid.edge_len() as nat);
        assert(slab_vertices(grid, x, height) =~= Seq::<Vertex>::empty());
    }
}

/// A chunk whose first `width` slabs are empty has no vertex among them.
proof fn lemma_empty_chunk(grid: VoxelGrid, width: nat)
    requires
        forall|x: int, y: int, z: int| 0 <= x < width ==> #[trigger] grid.cell(x, y, z) == 0,
    ensures
        chunk_vertices(grid, width) == Seq::<Vertex>::empty(),
    decreases width,
{
    if width > 0 {
        lemma_empty_chunk(grid, (width - 1) as nat);
        lemma_empty_slab(grid, width - 1, grid.edge_len() as nat);
        assert(chunk_vertices(grid, width) =~= Seq::<Vertex>::empty());
    }
}

/// A grid without a solid cell has the empty mesh: no vertex and no index.
pub proof fn lemma_empty_grid(grid: VoxelGrid)
    requires
        all_empty(grid),
    ensures
        mesh_vertices(grid).len() == 0,
        mesh_indices(grid).len() == 0,
{
    lemma_empty_chunk(grid, grid.edge_len() as nat);
}

/// The row through the only solid cell holds that cube once the row has
/// reached it, and nothing before.
proof fn lemma_single_row(grid: VoxelGrid, x: int, y: int, z: int, depth: nat)
    requires
        only_solid_at(grid, x, y, z),
    ensures
        row_vertices(grid, x, y, depth) == if depth <= z {
            Seq::<Vertex>::empty()
        } else {
            whole_cube(x, y, z)
        },
    decreases depth,
{
    if depth > 0 {
        lemma_single_row(grid, x, y, z, (depth - 1) as nat);
        if depth - 1 == z {
            assert(grid.cell(x + 1, y, z) == 0);
            assert(grid.cell(x - 1, y, z) == 0);
            assert(grid.cell(x, y + 1, z) == 0);
            assert(grid.cell(x, y - 1, z) == 0);
            assert(grid.cell(x, y, z + 1) == 0);
            assert(grid.cell(x, y, z - 1) == 0);
            assert(cube_vertices(grid, x, y, z) =~= whole_cube(x, y, z));
            assert(row_vertices(grid, x, y, depth) =~= whole_cube(x, y, z));
        } else {
            assert(grid.cell(x, y, depth - 1) == 0);
            assert(row_vertices(grid, x, y, depth) =~= row_vertices(
                grid,
                x,
                y,
                (depth - 1) as nat,
            ));
        }
    }
}

/// The slab through the only solid cell holds that cube once the slab has
/// reached its row, and nothing before.
proof fn lemma_single_slab(grid: VoxelGrid, x: int, y: int, z: int, height: nat)
    requires
        only_solid_at(grid, x, y, z),
    ensures
        slab_vertices(grid, x, height) == if height <= y {
            Seq::<Vertex>::empty()
        } else {
            whole_cube(x, y, z)
        },
    decreases height,
{
    if height > 0 {
        lemma_single_slab(grid, x, y, z, (height - 1) as nat);
        let row = row_vertices(grid, x, height - 1, grid.edge_len() as nat);
        if height - 1 == y {
            lemma_single_row(grid, x, y, z, grid.edge_len() as nat);
            assert(slab_vertices(grid, x, height) =~= whole_cube(x, y, z));
        } else {
            lemma_empty_row(grid, x, height - 1, grid.edge_len() as nat);
            assert(slab_vertices(grid, x, height) =~= slab_vertices(
                grid,
                x,
                (height - 1) as nat,
            ));
        }
    }
}

/// The chunk holds the cube of its only solid cell once it has reached the
/// cell's slab, and nothing before.
proof fn lemma_single_chunk(grid: VoxelGrid, x: int, y: int, z: int, width: nat)
    requires
        only_solid_at(grid, x, y, z),
    ensures
        chunk_vertices(grid, width) == if width <= x {
            Seq::<Vertex>::empty()
        } else {
            whole_cube(x, y, z)
        },
    decreases width,
{
    if width > 0 {
        lemma_single_chunk(grid, x, y, z, (width - 1) as nat);
        if width - 1 == x {
            lemma_single_slab(grid, x, y, z, grid.edge_len() as nat);
            assert(chunk_vertices(grid, width) =~= whole_cube(x, y, z));
        } else {
            lemma_empty_slab(grid, width - 1, grid.edge_len() as nat);
            assert(chunk_vertices(grid, width) =~= chunk_vertices(grid, (width - 1) as nat));
        }
    }
}

/// A grid whose only solid cell is `(x, y, z)` has the mesh of that one cube:
/// its six quads, so 24 vertices and 36 indices.
pub proof fn lemma_single_voxel(grid: VoxelGrid, x: int, y: int, z: int)
    requires
        only_solid_at(grid, x, y, z),
    ensures
        mesh_vertices(grid) == whole_cube(x, y, z),
        mesh_vertices(grid).len() == 24,
        mesh_faces(grid) == 6,
        mesh_indices(grid) == quad_indices(6),
        mesh_indices(grid).len() == 36,
{
    lemma_single_chunk(grid, x, y, z, grid.edge_len() as nat);
}

/// Grids that agree on every cell agree on every row.
proof fn lemma_same_row(a: VoxelGrid, b: VoxelGrid, x: int, y: int, depth: nat)
    requires
        a.same_cells(&b),
    ensures
        row_vertices(a, x, y, depth) == row_vertices(b, x, y, depth),
    decreases depth,
{
    if depth > 0 {
        lemma_same_row(a, b, x, y, (depth - 1) as nat);
        let z = depth - 1;
        assert(a.cell(x, y, z) == b.cell(x, y, z));
        assert(a.cell(x + 1, y, z) == b.cell(x + 1, y, z));
        assert(a.cell(x - 1, y, z) == b.cell(x - 1, y, z));
        assert(a.cell(x, y + 1, z) == b.cell(x, y + 1, z));
        assert(a.cell(x, y - 1, z) == b.cell(x, y - 1, z));
        assert(a.cell(x, y, z + 1) == b.cell(x, y, z + 1));
        assert(a.cell(x, y, z - 1) == b.cell(x, y, z - 1));
        assert(cell_vertices(a, x, y, z) =~= cell_vertices(b, x, y, z));
    }
}

/// Grids that agree on every cell agree on every slab.
proof fn lemma_same_slab(a: VoxelGrid, b: VoxelGrid, x: int, height: nat)
    requires
        a.same_cells(&b),
    ensures
        slab_vertices(a, x, height) == slab_vertices(b, x, height),
    decreases height,
{
    if height > 0 {
        lemma_same_slab(a, b, x, (height - 1) as nat);
        lemma_same_row(a, b, x, height - 1, a.edge_len() as nat);
    }
}

/// Grids that agree on every cell agree on every run of slabs.
proof fn lemma_same_chunk(a: VoxelGrid, b: VoxelGrid, width: nat)
    requires
        a.same_cells(&b),
    ensures
        chunk_vertices(a, width) == chunk_vertices(b, width),
    decreases width,
{
    if width > 0 {
        lemma_same_chunk(a, b, (width - 1) as nat);
        lemma_same_slab(a, b, width - 1, a.edge_len() as nat);
    }
}

/// The mesh is a function of the cells: two grids of one edge that agree on
/// every cell have the same vertex sequence and the same index sequence.
pub proof fn lemma_mesh_determined_by_cells(a: VoxelGrid, b: VoxelGrid)
    requires
        a.same_cells(&b),
    ensures
        mesh_vertices(a) == mesh_vertices(b),
        mesh_indices(a) == mesh_indices(b),
{
    lemma_same_chunk(a, b, a.edge_len() as nat);
}

/// How many of the two faces across one axis lie on the chunk's boundary
/// for a cell at coordinate `c`: one for the first cell, one for the last.
pub open spec fn rim(n: int, c: int) -> int {
    (if c == 0 {
        1int
    } else {
        0int
    }) + (if c == n - 1 {
        1int
    } else {
        0int
    })
}

/// The sum of `rim(n, c)` over the coordinates below `count`.
pub open spec fn rim_below(n: int, count: int) -> int {
    (if count > 0 {
        1int
    } else {
        0int
    }) + (if count == n {
        1int
    } else {
        0int
    })
}

/// In a solid grid a face is exposed exactly where it looks out of the chunk.
pub proof fn lemma_solid_exposes_boundary_only(
    grid: VoxelGrid,
    x: int,
    y: int,
    z: int,
    face: Face,
)
    requires
        all_solid(grid),
        in_bounds(grid.edge_len(), x, y, z),
    ensures
        exposed(grid, x, y, z, face) <==> !in_bounds(
            grid.edge_len(),
            x + offset(face).0,
            y + offset(face).1,
            z + offset(face).2,
        ),
{
}

/// A cell of a solid grid has one quad for each of its faces on the
/// chunk's boundary.
proof fn lemma_solid_cell(grid: VoxelGrid, x: int, y: int, z: int)
    requires
        all_solid(grid),
        in_bounds(grid.edge_len(), x, y, z),
    ensures
        cell_vertices(grid, x, y, z).len() == 4 * (rim(grid.edge_len(), x) + rim(
            grid.edge_len(),
            y,
        ) + rim(grid.edge_len(), z)),
{
    lemma_solid_exposes_boundary_only(grid, x, y, z, Face::East);
    lemma_solid_exposes_boundary_only(grid, x, y, z, Face::West);
    lemma_solid_exposes_boundary_only(grid, x, y, z, Face::Top);
    lemma_solid_exposes_boundary_only(grid, x, y, z, Face::Bottom);
    lemma_solid_exposes_boundary_only(grid, x, y, z, Face::North);
    lemma_solid_exposes_boundary_only(grid, x, y, z, Face::South);
}

/// The number of vertices in the first `depth` cells of a row of a solid grid.
proof fn lemma_solid_row(grid: VoxelGrid, x: int, y: int, depth: nat)
    requires
        all_solid(grid),
        0 <= x < grid.edge_len(),
        0 <= y < grid.edge_len(),
        depth <= grid.edge_len(),
    ensures
        row_vertices(grid, x, y, depth).len() == 4 * (depth * (rim(grid.edge_len(), x) + rim(
            grid.edge_len(),
            y,
        )) + rim_below(grid.edge_len(), depth as int)),
    decreases depth,
{
    if depth > 0 {
        let n = grid.edge_len();
        let k = rim(n, x) + rim(n, y);
        lemma_solid_row(grid, x, y, (depth - 1) as nat);
        lemma_solid_cell(grid, x, y, depth - 1);
        assert((depth - 1) * k + k == depth * k) by (nonlinear_arith);
    } else {
        let k = rim(grid.edge_len(), x) + rim(grid.edge_len(), y);
        assert(depth * k == 0) by (nonlinear_arith)
            requires
                depth == 0,
        ;
    }
}

/// The number of vertices in the first `height` rows of a slab of a solid grid.
proof fn lemma_solid_slab(grid: VoxelGrid, x: int, height: nat)
    requires
        all_solid(grid),
        0 <= x < grid.edge_len(),
        height <= grid.edge_len(),
    ensures
        slab_vertices(grid, x, height).len() == 4 * (height * (grid.edge_len() * rim(
            grid.edge_len(),
            x,
        ) + 2) + grid.edge_len() * rim_below(grid.edge_len(), height as int)),
    decreases height,
{
    let n = grid.edge_len();
    let rx = rim(n, x);
    let q = n * rx + 2;
    if height > 0 {
        let ry = rim(n, height - 1);
        lemma_solid_slab(grid, x, (height - 1) as nat);
        lemma_solid_row(grid, x, height - 1, n as nat);
        assert((height - 1) * q + q == height * q) by (nonlinear_arith);
        assert(n * (rx + ry) == n * rx + n * ry) by (nonlinear_arith);
        assert(n * rim_below(n, height - 1) + n * ry == n * rim_below(n, height as int))
            by (nonlinear_arith)
            requires
                rim_below(n, height - 1) + ry == rim_below(n, height as int),
        ;
    } else {
        assert(height * q == 0) by (nonlinear_arith)
            requires
                height == 0,
        ;
        assert(n * rim_below(n, 0) == 0) by (nonlinear_arith)
            requires
                rim_below(n, 0) == 0,
        ;
    }
}

/// The number of vertices in the first `width` slabs of a solid grid.
proof fn lemma_solid_chunk(grid: VoxelGrid, width: nat)
    requires
        all_solid(grid),
        width <= grid.edge_len(),
    ensures
        chunk_vertices(grid, width).len() == 4 * (grid.edge_len() * grid.edge_len() * rim_below(
            grid.edge_len(),
            width as int,
        ) + 4 * grid.edge_len() * width),
    decreases width,
{
    let n = grid.edge_len();
    if width > 0 {
        let rx = rim(n, width - 1);
        lemma_solid_chunk(grid, (width - 1) as nat);
        lemma_solid_slab(grid, width - 1, n as nat);
        assert(n * (n * rx + 2) == n * n * rx + 2 * n) by (nonlinear_arith);
        assert(n * rim_below(n, n) == 2 * n) by (nonlinear_arith)
            requires
                rim_below(n, n) == 2,
        ;
        assert(n * n * rim_below(n, width - 1) + n * n * rx == n * n * rim_below(n, width as int))
            by (nonlinear_arith)
            requires
                rim_below(n, width - 1) + rx == rim_below(n, width as int),
        ;
        assert(4 * n * (width - 1) + 4 * n == 4 * n * width) by (nonlinear_arith);
    } else {
        assert(n * n * rim_below(n, 0) == 0) by (nonlinear_arith)
            requires
                rim_below(n, 0) == 0 || n == 0,
        ;
        assert(4 * n * 0 == 0);
    }
}

/// A grid of edge `n` with every cell solid exposes the shell of the chunk
/// and nothing inside it: `6 * n * n` quads, so `24 * n * n` vertices and
/// `36 * n * n` indices.
pub proof fn lemma_solid_shell(grid: VoxelGrid)
    requires
        grid.wf(),
        all_solid(grid),
    ensures
        mesh_faces(grid) == 6 * grid.edge_len() * grid.edge_len(),
        mesh_vertices(grid).len() == 24 * grid.edge_len() * grid.edge_len(),
        mesh_indices(grid).len() == 36 * grid.edge_len() * grid.edge_len(),
{
    let n = grid.edge_len();
    lemma_solid_chunk(grid, n as nat);
    if n > 0 {
        assert(n * n * rim_below(n, n) == 2 * (n * n)) by (nonlinear_arith)
            requires
                rim_below(n, n) == 2,
        ;
    }
    assert(4 * n * n == 4 * (n * n)) by (nonlinear_arith);
    assert(6 * n * n == 6 * (n * n)) by (nonlinear_arith);
    assert(24 * n * n == 24 * (n * n)) by (nonlinear_arith);
    assert(36 * n * n == 36 * (n * n)) by (nonlinear_arith);
}

/// A vertex of a chunk of edge `n`: a lattice point of the cube from the
/// origin to `(n, n, n)` with `w = 1`, textured at a corner of the unit
/// square.
pub open spec fn on_lattice(v: Vertex, n: int) -> bool {
    &&& 0 <= v.position[0] <= n
    &&& 0 <= v.position[1] <= n
    &&& 0 <= v.position[2] <= n
    &&& v.position[3] == 1
    &&& 0 <= v.tex_coords[0] <= 1
    &&& 0 <= v.tex_coords[1] <= 1
}

/// Every vertex of the sequence is a vertex of a chunk of edge `n`.
pub open spec fn all_on_lattice(vertices: Seq<Vertex>, n: int) -> bool {
    forall|i: int| 0 <= i < vertices.len() ==> on_lattice(#[trigger] vertices[i], n)
}

/// The quad of a face of a cell inside the chunk lies on the chunk's lattice.
proof fn lemma_quad_on_lattice(face: Face, x: int, y: int, z: int, n: int)
    requires
        in_bounds(n, x, y, z),
        n <= MAX_EDGE,
    ensures
        all_on_lattice(placed_quad(face, x, y, z), n),
{
    let quad = placed_quad(face, x, y, z);
    let unit = template(face);
    assert forall|i: int| 0 <= i < quad.len() implies on_lattice(#[trigger] quad[i], n) by {
        assert(quad[i] == unit[i].translated(x, y, z));
        assert(0 <= unit[i].position[0] <= 1);
        assert(0 <= unit[i].position[1] <= 1);
        assert(0 <= unit[i].position[2] <= 1);
        assert(unit[i].position[3] == 1);
        assert(0 <= unit[i].tex_coords[0] <= 1);
        assert(0 <= unit[i].tex_coords[1] <= 1);
    }
}

/// A cell inside the chunk adds at most six quads, all on the chunk's lattice.
proof fn lemma_cell_on_lattice(grid: VoxelGrid, x: int, y: int, z: int)
    requires
        grid.wf(),
        in_bounds(grid.edge_len(), x, y, z),
    ensures
        all_on_lattice(cell_vertices(grid, x, y, z), grid.edge_len()),
        cell_vertices(grid, x, y, z).len() <= 24,
{
    let n = grid.edge_len();
    lemma_quad_on_lattice(Face::East, x, y, z, n);
    lemma_quad_on_lattice(Face::West, x, y, z, n);
    lemma_quad_on_lattice(Face::Top, x, y, z, n);
    lemma_quad_on_lattice(Face::Bottom, x, y, z, n);
    lemma_quad_on_lattice(Face::North, x, y, z, n);
    lemma_quad_on_lattice(Face::South, x, y, z, n);
}

/// The first `depth` cells of a row add at most six quads each, all on the
/// chunk's lattice.
proof fn lemma_row_on_lattice(grid: VoxelGrid, x: int, y: int, depth: nat)
    requires
        grid.wf(),
        0 <= x < grid.edge_len(),
        0 <= y < grid.edge_len(),
        depth <= grid.edge_len(),
    ensures
        all_on_lattice(row_vertices(grid, x, y, depth), grid.edge_len()),
        row_vertices(grid, x, y, depth).len() <= 24 * depth,
    decreases depth,
{
    if depth > 0 {
        lemma_row_on_lattice(grid, x, y, (depth - 1) as nat);
        lemma_cell_on_lattice(grid, x, y, depth - 1);
    }
}

/// The first `height` rows of a slab add at most six quads for each of
/// their cells, all on the chunk's lattice.
proof fn lemma_slab_on_lattice(grid: VoxelGrid, x: int, height: nat)
    requires
        grid.wf(),
        0 <= x < grid.edge_len(),
        height <= grid.edge_len(),
    ensures
        all_on_lattice(slab_vertices(grid, x, height), grid.edge_len()),
        slab_vertices(grid, x, height).len() <= 24 * (height * grid.edge_len()),
    decreases height,
{
    let n = grid.edge_len();
    if height > 0 {
        lemma_slab_on_lattice(grid, x, (height - 1) as nat);
        lemma_row_on_lattice(grid, x, height - 1, n as nat);
        assert((height - 1) * n + n == height * n) by (nonlinear_arith);
    } else {
        assert(height * n == 0) by (nonlinear_arith)
            requires
                height == 0,
        ;
    }
}

/// The first `width` slabs of a chunk add at most six quads for each of
/// their cells, all on the chunk's lattice.
proof fn lemma_chunk_on_lattice(grid: VoxelGrid, width: nat)
    requires
        grid.wf(),
        width <= grid.edge_len(),
    ensures
        all_on_lattice(chunk_vertices(grid, width), grid.edge_len()),
        chunk_vertices(grid, width).len() <= 24 * (width * grid.edge_len() * grid.edge_len()),
    decreases width,
{
    let n = grid.edge_len();
    if width > 0 {
        lemma_chunk_on_lattice(grid, (width - 1) as nat);
        lemma_slab_on_lattice(grid, width - 1, n as nat);
        assert((width - 1) * n * n + n * n == width * n * n) by (nonlinear_arith);
    } else {
        assert(width * n * n == 0) by (nonlinear_arith)
            requires
                width == 0,
        ;
    }
}

/// The mesh of a grid of edge `n` stays inside the chunk and is bounded by
/// it: every vertex is a lattice point of the cube from the origin to
/// `(n, n, n)`, and there are at most six quads for each of the `n * n * n`
/// cells.
pub proof fn lemma_mesh_within_chunk(grid: VoxelGrid)
    requires
        grid.wf(),
    ensures
        all_on_lattice(mesh_vertices(grid), grid.edge_len()),
        mesh_vertices(grid).len() <= 24 * (grid.edge_len() * grid.edge_len() * grid.edge_len()),
        mesh_faces(grid) <= 6 * (grid.edge_len() * grid.edge_len() * grid.edge_len()),
{
    lemma_chunk_on_lattice(grid, grid.edge_len() as nat);
}

/// The step from one vertex to another, without the `w` component.
pub open spec fn edge(from: Vertex, to: Vertex) -> (int, int, int) {
    (
        to.position[0] - from.position[0],
        to.position[1] - from.position[1],
        to.position[2] - from.position[2],
    )
}

/// The cross product of two steps.
pub open spec fn cross(u: (int, int, int), v: (int, int, int)) -> (int, int, int) {
    (u.1 * v.2 - u.2 * v.1, u.2 * v.0 - u.0 * v.2, u.0 * v.1 - u.1 * v.0)
}

/// The normal of the triangle over corners `a`, `b`, `c` of a quad, by the
/// right-hand rule.
pub open spec fn triangle_normal(quad: Seq<Vertex>, a: int, b: int, c: int) -> (int, int, int) {
    cross(edge(quad[a], quad[b]), edge(quad[a], quad[c]))
}

/// The faces whose quad winds so that its normal points away from the cube.
/// The quads of the other three faces wind the other way round.
pub open spec fn winds_outward(face: Face) -> bool {
    match face {
        Face::North | Face::South | Face::Top => true,
        Face::East | Face::West | Face::Bottom => false,
    }
}

/// The two triangles that the shared pattern cuts from a placed quad are not
/// degenerate and wind alike: both normals are the unit step across the
/// face, pointing out of the cube for north, south and top, and into it for
/// east, west and bottom. Moving the quad to another cell changes neither.
pub proof fn lemma_quad_normals(face: Face, x: int, y: int, z: int)
    requires
        0 <= x <= MAX_EDGE,
        0 <= y <= MAX_EDGE,
        0 <= z <= MAX_EDGE,
    ensures
        triangle_normal(
            placed_quad(face, x, y, z),
            INDICES[0] as int,
            INDICES[1] as int,
            INDICES[2] as int,
        ) == triangle_normal(
            placed_quad(face, x, y, z),
            INDICES[3] as int,
            INDICES[4] as int,
            INDICES[5] as int,
        ),
        triangle_normal(
            placed_quad(face, x, y, z),
            INDICES[0] as int,
            INDICES[1] as int,
            INDICES[2] as int,
        ) == if winds_outward(face) {
            offset(face)
        } else {
            (-offset(face).0, -offset(face).1, -offset(face).2)
        },
{
    lemma_pattern_values();
    let quad = placed_quad(face, x, y, z);
    let unit = template(face);
    assert forall|i: int| 0 <= i < 4 implies edge(quad[0], #[trigger] quad[i]) == edge(
        unit[0],
        unit[i],
    ) by {
        assert(quad[i] == unit[i].translated(x, y, z));
        assert(quad[0] == unit[0].translated(x, y, z));
    }
    let first = edge(unit[0], unit[1]);
    let second = edge(unit[0], unit[2]);
    let third = edge(unit[0], unit[3]);
    assert(edge(quad[0], quad[1]) == first);
    assert(edge(quad[0], quad[2]) == second);
    assert(edge(quad[0], quad[3]) == third);
    match face {
        Face::North => {
            assert(first == (0int, 1int, 0int));
            assert(second == (-1int, 1int, 0int));
            assert(third == (-1int, 0int, 0int));
            assert(cross(first, second) == (0int, 0int, 1int)) by (nonlinear_arith)
                requires
                    first == (0int, 1int, 0int),
                    second == (-1int, 1int, 0int),
            ;
            assert(cross(second, third) == (0int, 0int, 1int)) by (nonlinear_arith)
                requires
                    second == (-1int, 1int, 0int),
                    third == (-1int, 0int, 0int),
            ;
        },
        Face::South => {
            assert(first == (0int, 1int, 0int));
            assert(second == (1int, 1int, 0int));
            assert(third == (1int, 0int, 0int));
            assert(cross(first, second) == (0int, 0int, -1int)) by (nonlinear_arith)
                requires
                    first == (0int, 1int, 0int),
                    second == (1int, 1int, 0int),
            ;
            assert(cross(second, third) == (0int, 0int, -1int)) by (nonlinear_arith)
                requires
                    second == (1int, 1int, 0int),
                    third == (1int, 0int, 0int),
            ;
        },
        Face::East => {
            assert(first == (0int, -1int, 0int));
            assert(second == (0int, -1int, 1int));
            assert(third == (0int, 0int, 1int));
            assert(cross(first, second) == (-1int, 0int, 0int)) by (nonlinear_arith)
                requires
                    first == (0int, -1int, 0int),
                    second == (0int, -1int, 1int),
            ;
            assert(cross(second, third) == (-1int, 0int, 0int)) by (nonlinear_arith)
                requires
                    second == (0int, -1int, 1int),
                    third == (0int, 0int, 1int),
            ;
        },
        Face::West => {
            assert(first == (0int, 1int, 0int));
            assert(second == (0int, 1int, 1int));
            assert(third == (0int, 0int, 1int));
            assert(cross(first, second) == (1int, 0int, 0int)) by (nonlinear_arith)
                requires
                    first == (0int, 1int, 0int),
                    second == (0int, 1int, 1int),
            ;
            assert(cross(second, third) == (1int, 0int, 0int)) by (nonlinear_arith)
                requires
                    second == (0int, 1int, 1int),
                    third == (0int, 0int, 1int),
            ;
        },
        Face::Top => {
            assert(first == (0int, 0int, 1int));
            assert(second == (1int, 0int, 1int));
            assert(third == (1int, 0int, 0int));
            assert(cross(first, second) == (0int, 1int, 0int)) by (nonlinear_arith)
                requires
                    first == (0int, 0int, 1int),
                    second == (1int, 0int, 1int),
            ;
            assert(cross(second, third) == (0int, 1int, 0int)) by (nonlinear_arith)
                requires
                    second == (1int, 0int, 1int),
                    third == (1int, 0int, 0int),
            ;
        },
        Face::Bottom => {
            assert(first == (0int, 0int, 1int));
            assert(second == (1int, 0int, 1int));
            assert(third == (1int, 0int, 0int));
            assert(cross(first, second) == (0int, 1int, 0int)) by (nonlinear_arith)
                requires
                    first == (0int, 0int, 1int),
                    second == (1int, 0int, 1int),
            ;
            assert(cross(second, third) == (0int, 1int, 0int)) by (nonlinear_arith)
                requires
                    second == (1int, 0int, 1int),
                    third == (1int, 0int, 0int),
            ;
        },
    }
}

} // verus!
