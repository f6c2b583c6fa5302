//! Meshing: from a grid of voxels to the vertex and index buffers of its
//! visible surface.

use vstd::prelude::*;
use crate::cubemesh::{
    lemma_translation_moves, transform_fits, translation, translation_matrix, Face, Vertex,
    INDICES,
};
use crate::grid::{in_bounds, lemma_cube_bound, lemma_linear_index_bound, VoxelGrid, CHUNK_SIZE};
use crate::surface::{
    cell_vertices, chunk_vertices, cube_vertices, face_vertices, indices_patterned,
    indices_within, lemma_pattern_values, lemma_quad_indices_patterned,
    lemma_quad_indices_within, mesh_indices, mesh_vertices, placed_quad, quad_indices,
    row_vertices, slab_vertices,
};

verus! {

/// A chunk of voxels together with the mesh buffers built from it.
pub struct ChunkMesh {
    pub vertices: Vec<Vertex>,
    pub indices: Vec<u32>,
    pub voxel_map: VoxelGrid,
}

/// The vertices of a quad after each was multiplied by `matrix`.
pub open spec fn transformed_quad(face: [Vertex; 4], matrix: [[i32; 4]; 4]) -> Seq<Vertex> {
    Seq::new(4, |i: int| face[i].transformed(matrix))
}

impl Default for ChunkMesh {
    /// A solid chunk of edge `CHUNK_SIZE` whose mesh is not built yet.
    fn default() -> (mesh: ChunkMesh)
        ensures
            mesh.is_fresh_solid_chunk(),
    {
        ChunkMesh {
            vertices: Vec::new(),
            indices: Vec::new(),
            voxel_map: VoxelGrid::filled(CHUNK_SIZE, 1),
        }
    }
}

impl ChunkMesh {
    /// The number of quads that the index buffer draws.
    pub open spec fn quads(&self) -> nat {
        (self.indices@.len() / 6) as nat
    }

    /// The index buffer is that of a mesh of whole quads.
    pub open spec fn indexed(&self) -> bool {
        self.indices@ == quad_indices(self.quads())
    }

    /// The two buffers belong together: the vertices come in quads, and the
    /// indices draw each of them with the shared pattern.
    pub open spec fn buffers_wf(&self) -> bool {
        &&& self.vertices@.len() == 4 * self.quads()
        &&& self.indexed()
    }

    /// A chunk as `new` makes it: both buffers empty, and the grid a cube of
    /// edge `CHUNK_SIZE` with code 1 in every cell.
    pub open spec fn is_fresh_solid_chunk(&self) -> bool {
        &&& self.vertices@.len() == 0
        &&& self.indices@.len() == 0
        &&& self.voxel_map.wf()
        &&& self.voxel_map.edge_len() == CHUNK_SIZE
        &&& forall|x: int, y: int, z: int|
            #[trigger] self.voxel_map.cell(x, y, z) == if in_bounds(CHUNK_SIZE as int, x, y, z) {
                1i8
            } else {
                0i8
            }
    }

    /// A solid chunk of edge `CHUNK_SIZE` whose mesh is not built yet.
    pub fn new() -> (mesh: ChunkMesh)
        ensures
            mesh.is_fresh_solid_chunk(),
    {
        ChunkMesh { ..Default::default() }
    }

    /// A chunk over the given grid whose mesh is not built yet.
    pub fn from_grid(voxel_map: VoxelGrid) -> (mesh: ChunkMesh)
        ensures
            mesh.vertices@.len() == 0,
            mesh.indices@.len() == 0,
            mesh.voxel_map == voxel_map,
    {
        ChunkMesh { vertices: Vec::new(), indices: Vec::new(), voxel_map }
    }

    /// Builds the mesh of the chunk's grid. Whatever the buffers held before
    /// is discarded. The cells are visited with `x` outermost and `z`
    /// innermost; each solid cell emits one quad per face whose neighbour is
    /// empty, and each quad brings the six indices that draw it.
    pub fn generate_mesh(&mut self)
        requires
            old(self).voxel_map.wf(),
        ensures
            final(self).voxel_map == old(self).voxel_map,
            final(self).vertices@ == mesh_vertices(old(self).voxel_map),
            final(self).indices@ == mesh_indices(old(self).voxel_map),
            final(self).buffers_wf(),
            indices_within(final(self).indices@, final(self).vertices@.len()),
            indices_patterned(final(self).indices@),
    {
        self.vertices = Vec::new();
        self.indices = Vec::new();
        let n: usize = self.voxel_map.edge();
        let ghost grid = self.voxel_map;
        proof {
            assert(self.indices@ =~= quad_indices(0));
        }
        let mut x: usize = 0;
        while x < n
            invariant
                x <= n,
                n == grid.edge_len(),
                grid.wf(),
                self.voxel_map == grid,
                self.buffers_wf(),
                self.vertices@ == chunk_vertices(grid, x as nat),
                self.vertices@.len() <= 24 * (x * n * n),
            decreases n - x,
        {
            let mut y: usize = 0;
            while y < n
                invariant
                    x < n,
                    y <= n,
                    n == grid.edge_len(),
                    grid.wf(),
                    self.voxel_map == grid,
                    self.buffers_wf(),
                    self.vertices@ == chunk_vertices(grid, x as nat) + slab_vertices(
                        grid,
                        x as int,
                        y as nat,
                    ),
                    self.vertices@.len() <= 24 * ((x * n + y) * n),
                decreases n - y,
            {
                let mut z: usize = 0;
                while z < n
                    invariant
                        x < n,
                        y < n,
                        z <= n,
                        n == grid.edge_len(),
                        grid.wf(),
                        self.voxel_map == grid,
                        self.buffers_wf(),
                        self.vertices@ == chunk_vertices(grid, x as nat) + slab_vertices(
                            grid,
                            x as int,
                            y as nat,
                        ) + row_vertices(grid, x as int, y as int, z as nat),
                        self.vertices@.len() <= 24 * ((x * n + y) * n + z),
                    decreases n - z,
                {
                    let ghost before = self.vertices@;
                    if self.get_voxel(x as i32, y as i32, z as i32) != 0 {
                        let matrix = translation(x as i32, y as i32, z as i32);
                        proof {
                            lemma_cube_bound(n as int);
                            lemma_linear_index_bound(n as int, x as int, y as int, z as int);
                        }
                        self.draw_cube(matrix, x, y, z);
                    }
                    proof {
                        let cell = cell_vertices(grid, x as int, y as int, z as int);
                        assert(self.vertices@ =~= before + cell);
                        assert(cell.len() <= 24);
                        assert(self.vertices@ =~= chunk_vertices(grid, x as nat) + slab_vertices(
                            grid,
                            x as int,
                            y as nat,
                        ) + row_vertices(grid, x as int, y as int, (z + 1) as nat));
                    }
                    z += 1;
                }
                proof {
                    assert((x * n + y) * n + n == (x * n + (y + 1)) * n) by (nonlinear_arith);
                    assert(self.vertices@ =~= chunk_vertices(grid, x as nat) + slab_vertices(
                        grid,
                        x as int,
                        (y + 1) as nat,
                    ));
                }
                y += 1;
            }
            proof {
                assert((x * n + n) * n == (x + 1) * n * n) by (nonlinear_arith);
                assert(self.vertices@ =~= chunk_vertices(grid, (x + 1) as nat));
            }
            x += 1;
        }
        proof {
            lemma_cube_bound(n as int);
            lemma_quad_indices_within(self.quads());
            lemma_quad_indices_patterned(self.quads());
        }
    }

    /// The value one past the last index: the first vertex of the next quad.
    fn get_last_index(&self) -> (base: u32)
        requires
            self.indexed(),
            4 * self.quads() <= u32::MAX,
        ensures
            base == 4 * self.quads(),
    {
        if self.indices.len() == 0 {
            let last_index: u32 = 0;
            return last_index;
        }
        let at: usize = self.indices.len() - 1;
        proof {
            lemma_pattern_values();
            assert(self.indices@.len() == 6 * self.quads());
            assert(self.indices@[at as int] == quad_indices(self.quads())[at as int]);
        }
        let mut last_index: u32 = self.indices[at];
        last_index += 1;
        last_index
    }

    /// Appends the six indices of the quad whose vertices were pushed last.
    fn push_indices(&mut self)
        requires
            old(self).indexed(),
            4 * old(self).quads() + 3 <= u32::MAX,
        ensures
            final(self).indexed(),
            final(self).quads() == old(self).quads() + 1,
            final(self).vertices == old(self).vertices,
            final(self).voxel_map == old(self).voxel_map,
    {
        let last_index = self.get_last_index();
        let ghost before = self.indices@;
        let ghost quads = self.quads();
        let mut i: usize = 0;
        while i < 6
            invariant
                i <= 6,
                before == quad_indices(quads),
                last_index == 4 * quads,
                4 * quads + 3 <= u32::MAX,
                self.indices@.len() == before.len() + i,
                forall|k: int| 0 <= k < before.len() ==> self.indices@[k] == before[k],
                forall|k: int|
                    0 <= k < i ==> #[trigger] self.indices@[before.len() + k] == 4 * quads
                        + INDICES[k],
                self.vertices == old(self).vertices,
                self.voxel_map == old(self).voxel_map,
            decreases 6 - i,
        {
            proof {
                lemma_pattern_values();
            }
            let index: u32 = INDICES[i];
            self.indices.push(index + last_index);
            i += 1;
        }
        proof {
            let after = quad_indices(quads + 1);
            assert(self.indices@.len() == 6 * (quads + 1));
            assert forall|k: int| 0 <= k < after.len() implies self.indices@[k] == after[k] by {
                if k < before.len() {
                    assert(self.indices@[k] == before[k]);
                } else {
                    let j = k - before.len();
                    assert(self.indices@[before.len() + j] == 4 * quads + INDICES[j]);
                    assert(k / 6 == quads && k % 6 == j);
                }
            }
            assert(self.indices@ =~= after);
        }
    }

    /// Appends a quad: the four vertices of `face`, each multiplied by
    /// `matrix`, and the six indices that draw them.
    fn push_vertex(&mut self, face: [Vertex; 4], matrix: [[i32; 4]; 4])
        requires
            old(self).buffers_wf(),
            old(self).vertices@.len() + 4 <= u32::MAX,
            forall|i: int| 0 <= i < 4 ==> transform_fits(matrix, #[trigger] face[i].position),
        ensures
            final(self).buffers_wf(),
            final(self).vertices@ == old(self).vertices@ + transformed_quad(face, matrix),
            final(self).voxel_map == old(self).voxel_map,
    {
        let mut i: usize = 0;
        while i < 4
            invariant
                i <= 4,
                forall|k: int| 0 <= k < 4 ==> transform_fits(matrix, #[trigger] face[k].position),
                self.vertices@.len() == old(self).vertices@.len() + i,
                forall|k: int|
                    0 <= k < old(self).vertices@.len() ==> self.vertices@[k] == old(
                        self,
                    ).vertices@[k],
                forall|k: int|
                    0 <= k < i ==> #[trigger] self.vertices@[old(self).vertices@.len() + k]
                        == face[k].transformed(matrix),
                self.indices == old(self).indices,
                self.voxel_map == old(self).voxel_map,
            decreases 4 - i,
        {
            let mut vertex = face[i];
            vertex.transform(matrix);
            self.vertices.push(vertex);
            i += 1;
        }
        self.push_indices();
        proof {
            let quad = transformed_quad(face, matrix);
            let want = old(self).vertices@ + quad;
            assert forall|k: int| 0 <= k < want.len() implies self.vertices@[k] == want[k] by {
                if k >= old(self).vertices@.len() {
                    let j = k - old(self).vertices@.len();
                    assert(self.vertices@[old(self).vertices@.len() + j] == face[j].transformed(
                        matrix,
                    ));
                }
            }
            assert(self.vertices@ =~= want);
        }
    }

    /// The occupancy code at `(x, y, z)`; empty outside the chunk.
    fn get_voxel(&self, x: i32, y: i32, z: i32) -> (code: i8)
        requires
            self.voxel_map.wf(),
        ensures
            code == self.voxel_map.cell(x as int, y as int, z as int),
    {
        self.voxel_map.get(x, y, z)
    }

    /// Appends the quad of one face of cell `(x, y, z)` if the neighbour on
    /// that side is empty.
    fn draw_face(&mut self, face: Face, matrix: [[i32; 4]; 4], x: i32, y: i32, z: i32)
        requires
            old(self).voxel_map.wf(),
            old(self).buffers_wf(),
            in_bounds(old(self).voxel_map.edge_len(), x as int, y as int, z as int),
            matrix == translation_matrix(x, y, z),
            old(self).vertices@.len() + 4 <= u32::MAX,
        ensures
            final(self).buffers_wf(),
            final(self).vertices@ == old(self).vertices@ + face_vertices(
                old(self).voxel_map,
                x as int,
                y as int,
                z as int,
                face,
            ),
            final(self).voxel_map == old(self).voxel_map,
    {
        let neighbour = match face {
            Face::East => self.get_voxel(x + 1, y, z),
            Face::West => self.get_voxel(x - 1, y, z),
            Face::Top => self.get_voxel(x, y + 1, z),
            Face::Bottom => self.get_voxel(x, y - 1, z),
            Face::North => self.get_voxel(x, y, z + 1),
            Face::South => self.get_voxel(x, y, z - 1),
        };
        if neighbour == 0 {
            let quad = face.template();
            proof {
                assert forall|i: int| 0 <= i < 4 implies transform_fits(
                    matrix,
                    #[trigger] quad[i].position,
                ) && quad[i].transformed(matrix) == quad[i].translated(
                    x as int,
                    y as int,
                    z as int,
                ) by {
                    lemma_translation_moves(quad[i], x, y, z);
                }
                assert(transformed_quad(quad, matrix) =~= placed_quad(
                    face,
                    x as int,
                    y as int,
                    z as int,
                ));
            }
            self.push_vertex(quad, matrix);
        } else {
            proof {
                assert(self.vertices@ =~= old(self).vertices@ + Seq::<Vertex>::empty());
            }
        }
    }

    /// Appends the exposed faces of the solid cell `(x, y, z)`, where
    /// `matrix` places the unit cube at that cell.
    fn draw_cube(&mut self, matrix: [[i32; 4]; 4], x: usize, y: usize, z: usize)
        requires
            old(self).voxel_map.wf(),
            old(self).buffers_wf(),
            in_bounds(old(self).voxel_map.edge_len(), x as int, y as int, z as int),
            matrix == translation_matrix(x as i32, y as i32, z as i32),
            old(self).vertices@.len() + 24 <= u32::MAX,
        ensures
            final(self).buffers_wf(),
            final(self).vertices@ == old(self).vertices@ + cube_vertices(
                old(self).voxel_map,
                x as int,
                y as int,
                z as int,
            ),
            final(self).voxel_map == old(self).voxel_map,
    {
        let (x, y, z) = (x as i32, y as i32, z as i32);
        let ghost grid = self.voxel_map;
        let ghost start = self.vertices@;
        self.draw_face(Face::East, matrix, x, y, z);
        self.draw_face(Face::West, matrix, x, y, z);
        self.draw_face(Face::Top, matrix, x, y, z);
        self.draw_face(Face::Bottom, matrix, x, y, z);
        self.draw_face(Face::North, matrix, x, y, z);
        self.draw_face(Face::South, matrix, x, y, z);
        proof {
            assert(self.vertices@ =~= start + cube_vertices(grid, x as int, y as int, z as int));
        }
    }
}

/// Meshes a grid: the chunk that holds the grid and the buffers of its
/// visible surface.
pub fn generate(grid: VoxelGrid) -> (mesh: ChunkMesh)
    requires
        grid.wf(),
    ensures
        mesh.voxel_map == grid,
        mesh.vertices@ == mesh_vertices(grid),
        mesh.indices@ == mesh_indices(grid),
        mesh.buffers_wf(),
        indices_within(mesh.indices@, mesh.vertices@.len()),
        indices_patterned(mesh.indices@),
{
    let mut mesh = ChunkMesh::from_grid(grid);
    mesh.generate_mesh();
    mesh
}

} // verus!
