//! What the mesh of a grid is: the vertex and index sequences that meshing
//! must produce, stated over the grid's cells.

use vstd::prelude::*;
use crate::cubemesh::{offset, template, Face, Vertex, INDICES};
use crate::grid::VoxelGrid;

verus! {

/// Whether the given face of cell `(x, y, z)` borders empty space.
pub open spec fn exposed(grid: VoxelGrid, x: int, y: int, z: int, face: Face) -> bool {
    grid.cell(x + offset(face).0, y + offset(face).1, z + offset(face).2) == 0
}

/// The quad of a face, moved to cell `(x, y, z)`.
pub open spec fn placed_quad(face: Face, x: int, y: int, z: int) -> Seq<Vertex> {
    Seq::new(4, |i: int| template(face)[i].translated(x, y, z))
}

/// The vertices that one face of a solid cell adds to the mesh: its quad if
/// the face is exposed, nothing otherwise.
pub open spec fn face_vertices(grid: VoxelGrid, x: int, y: int, z: int, face: Face) -> Seq<
    Vertex,
> {
    if exposed(grid, x, y, z, face) {
        placed_quad(face, x, y, z)
    } else {
        Seq::empty()
    }
}

/// The vertices of a solid cell: its exposed faces in the order east, west,
/// top, bottom, north, south.
pub open spec fn cube_vertices(grid: VoxelGrid, x: int, y: int, z: int) -> Seq<Vertex> {
    face_vertices(grid, x, y, z, Face::East) + face_vertices(grid, x, y, z, Face::West)
        + face_vertices(grid, x, y, z, Face::Top) + face_vertices(grid, x, y, z, Face::Bottom)
        + face_vertices(grid, x, y, z, Face::North) + face_vertices(grid, x, y, z, Face::South)
}

/// The vertices that cell `(x, y, z)` adds to the mesh; an empty cell adds none.
pub open spec fn cell_vertices(grid: VoxelGrid, x: int, y: int, z: int) -> Seq<Vertex> {
    if grid.cell(x, y, z) != 0 {
        cube_vertices(grid, x, y, z)
    } else {
        Seq::empty()
    }
}

/// The vertices of the cells `(x, y, 0)` to `(x, y, depth - 1)`, in that order.
pub open spec fn row_vertices(grid: VoxelGrid, x: int, y: int, depth: nat) -> Seq<Vertex>
    decreases depth,
{
    if depth == 0 {
        Seq::empty()
    } else {
        row_vertices(grid, x, y, (depth - 1) as nat) + cell_vertices(grid, x, y, depth - 1)
    }
}

/// The vertices of the full rows `(x, 0)` to `(x, height - 1)`, in that order.
pub open spec fn slab_vertices(grid: VoxelGrid, x: int, height: nat) -> Seq<Vertex>
    decreases height,
{
    if height == 0 {
        Seq::empty()
    } else {
        slab_vertices(grid, x, (height - 1) as nat) + row_vertices(
            grid,
            x,
            height - 1,
            grid.edge_len() as nat,
        )
    }
}

/// The vertices of the full slabs `0` to `width - 1`, in that order.
pub open spec fn chunk_vertices(grid: VoxelGrid, width: nat) -> Seq<Vertex>
    decreases width,
{
    if width == 0 {
        Seq::empty()
    } else {
        chunk_vertices(grid, (width - 1) as nat) + slab_vertices(
            grid,
            width - 1,
            grid.edge_len() as nat,
        )
    }
}

/// The vertex sequence of a grid's mesh: the cells are visited with `x`
/// outermost and `z` innermost, and each solid cell contributes the quads of
/// its exposed faces.
pub open spec fn mesh_vertices(grid: VoxelGrid) -> Seq<Vertex> {
    chunk_vertices(grid, grid.edge_len() as nat)
}

/// The index sequence of a mesh of `faces` quads: quad `f` owns the vertices
/// `4f` to `4f + 3` and draws them with the shared pattern.
pub open spec fn quad_indices(faces: nat) -> Seq<u32> {
    Seq::new(6 * faces, |k: int| (4 * (k / 6) + INDICES[k % 6]) as u32)
}

/// The number of quads in a grid's mesh.
pub open spec fn mesh_faces(grid: VoxelGrid) -> nat {
    mesh_vertices(grid).len() / 4
}

/// The index sequence of a grid's mesh.
pub open spec fn mesh_indices(grid: VoxelGrid) -> Seq<u32> {
    quad_indices(mesh_faces(grid))
}

/// Every index points at one of the four vertices of its own quad, so below
/// the number of vertices that existed when it was appended, and below
/// `vertices` in all.
pub open spec fn indices_within(indices: Seq<u32>, vertices: nat) -> bool {
    forall|k: int|
        0 <= k < indices.len() ==> 4 * (k / 6) <= #[trigger] indices[k] < 4 * (k / 6) + 4
            <= vertices
}

/// The indices come in groups of six, and group `f` is the shared pattern
/// moved by `4f`.
pub open spec fn indices_patterned(indices: Seq<u32>) -> bool {
    &&& indices.len() % 6 == 0
    &&& forall|f: int, j: int|
        0 <= f < indices.len() / 6 && 0 <= j < 6 ==> #[trigger] indices[6 * f + j] == 4 * f
            + INDICES[j]
}

/// The indices of a mesh of whole quads never point past the quad they
/// belong to.
pub proof fn lemma_quad_indices_within(faces: nat)
    requires
        4 * faces <= u32::MAX,
    ensures
        indices_within(quad_indices(faces), 4 * faces),
{
    let indices = quad_indices(faces);
    assert forall|k: int| 0 <= k < indices.len() implies 4 * (k / 6) <= #[trigger] indices[k] < 4
        * (k / 6) + 4 <= 4 * faces by {
        lemma_pattern_values();
        assert(0 <= INDICES[k % 6] <= 3);
        assert(k / 6 < faces);
    }
}

/// The indices of a mesh of whole quads repeat the shared pattern, moved by
/// four from one quad to the next.
pub proof fn lemma_quad_indices_patterned(faces: nat)
    requires
        4 * faces <= u32::MAX,
    ensures
        indices_patterned(quad_indices(faces)),
{
    let indices = quad_indices(faces);
    assert forall|f: int, j: int| 0 <= f < indices.len() / 6 && 0 <= j < 6 implies #[trigger] indices[6
        * f + j] == 4 * f + INDICES[j] by {
        lemma_pattern_values();
        let k = 6 * f + j;
        assert(k / 6 == f && k % 6 == j);
    }
}

/// Each group of six indices draws exactly the four vertices of its quad:
/// it names no other vertex, and every one of the four.
pub proof fn lemma_group_draws_its_quad(indices: Seq<u32>, f: int)
    requires
        indices_patterned(indices),
        0 <= f < indices.len() / 6,
    ensures
        forall|j: int| 0 <= j < 6 ==> 4 * f <= #[trigger] indices[6 * f + j] < 4 * f + 4,
        indices[6 * f] == 4 * f,
        indices[6 * f + 1] == 4 * f + 1,
        indices[6 * f + 2] == 4 * f + 2,
        indices[6 * f + 5] == 4 * f + 3,
{
    lemma_pattern_values();
    assert(indices[6 * f + 0] == 4 * f + INDICES[0]);
    assert(indices[6 * f + 1] == 4 * f + INDICES[1]);
    assert(indices[6 * f + 2] == 4 * f + INDICES[2]);
    assert(indices[6 * f + 5] == 4 * f + INDICES[5]);
    assert forall|j: int| 0 <= j < 6 implies 4 * f <= #[trigger] indices[6 * f + j] < 4 * f
        + 4 by {
        assert(indices[6 * f + j] == 4 * f + INDICES[j]);
    }
}

/// The six values of the shared pattern.
pub proof fn lemma_pattern_values()
    ensures
        INDICES[0] == 0,
        INDICES[1] == 1,
        INDICES[2] == 2,
        INDICES[3] == 0,
        INDICES[4] == 2,
        INDICES[5] == 3,
{
}

} // verus!
