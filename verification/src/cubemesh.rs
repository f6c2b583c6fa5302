//! The geometry of a unit cube: one textured quad per face, the index
//! pattern that splits a quad into two triangles, and the transform that
//! places a quad in the chunk.

use vstd::prelude::*;

verus! {

/// A mesh vertex: a homogeneous position on the integer lattice and a
/// texture coordinate at a corner of the unit square.
#[derive(Clone, Copy, Debug, PartialEq, Eq)]
pub struct Vertex {
    pub position: [i32; 4],
    pub tex_coords: [i32; 2],
}

/// The six faces of a cube, in the order in which a cell emits them.
#[derive(Clone, Copy, Debug, PartialEq, Eq)]
pub enum Face {
    East,
    West,
    Top,
    Bottom,
    North,
    South,
}

/// The triangle pattern shared by every quad: corners 0, 1, 2 and 0, 2, 3.
pub const INDICES: [u32; 6] = [0, 1, 2, 0, 2, 3];

/// A vertex of the unit cube with `w = 1`.
pub open spec fn corner(px: i32, py: i32, pz: i32, u: i32, v: i32) -> Vertex {
    Vertex { position: [px, py, pz, 1i32], tex_coords: [u, v] }
}

/// The quad of a face in the unit cube, corners in drawing order.
pub open spec fn template(face: Face) -> [Vertex; 4] {
    match face {
        Face::North => [
            corner(1, 0, 1, 1, 0),
            corner(1, 1, 1, 1, 1),
            corner(0, 1, 1, 0, 1),
            corner(0, 0, 1, 0, 0),
        ],
        Face::South => [
            corner(0, 0, 0, 0, 0),
            corner(0, 1, 0, 0, 1),
            corner(1, 1, 0, 1, 1),
            corner(1, 0, 0, 1, 0),
        ],
        Face::East => [
            corner(1, 1, 0, 0, 1),
            corner(1, 0, 0, 0, 0),
            corner(1, 0, 1, 1, 0),
            corner(1, 1, 1, 1, 1),
        ],
        Face::West => [
            corner(0, 0, 0, 1, 0),
            corner(0, 1, 0, 1, 1),
            corner(0, 1, 1, 0, 1),
            corner(0, 0, 1, 0, 0),
        ],
        Face::Top => [
            corner(0, 1, 0, 0, 0),
            corner(0, 1, 1, 0, 1),
            corner(1, 1, 1, 1, 1),
            corner(1, 1, 0, 1, 0),
        ],
        Face::Bottom => [
            corner(0, 0, 0, 0, 1),
            corner(0, 0, 1, 0, 0),
            corner(1, 0, 1, 1, 0),
            corner(1, 0, 0, 1, 1),
        ],
    }
}

/// The step from a cell to the neighbour that a face looks at.
pub open spec fn offset(face: Face) -> (int, int, int) {
    match face {
        Face::East => (1, 0, 0),
        Face::West => (-1, 0, 0),
        Face::Top => (0, 1, 0),
        Face::Bottom => (0, -1, 0),
        Face::North => (0, 0, 1),
        Face::South => (0, 0, -1),
    }
}

/// Row `r` of a column-major matrix times a vector.
pub open spec fn dot_row(mat: [[i32; 4]; 4], r: int, a: [i32; 4]) -> int {
    mat[0][r] * a[0] + mat[1][r] * a[1] + mat[2][r] * a[2] + mat[3][r] * a[3]
}

/// Whether an integer is an `i32`.
pub open spec fn fits_i32(v: int) -> bool {
    i32::MIN <= v <= i32::MAX
}

/// Every product and every partial sum of `dot_row(mat, r, a)`, taken from
/// the left, is an `i32`.
pub open spec fn row_fits(mat: [[i32; 4]; 4], r: int, a: [i32; 4]) -> bool {
    &&& fits_i32(mat[0][r] * a[0])
    &&& fits_i32(mat[1][r] * a[1])
    &&& fits_i32(mat[2][r] * a[2])
    &&& fits_i32(mat[3][r] * a[3])
    &&& fits_i32(mat[0][r] * a[0] + mat[1][r] * a[1])
    &&& fits_i32(mat[0][r] * a[0] + mat[1][r] * a[1] + mat[2][r] * a[2])
    &&& fits_i32(dot_row(mat, r, a))
}

/// The whole matrix-vector product can be computed in `i32`.
pub open spec fn transform_fits(mat: [[i32; 4]; 4], a: [i32; 4]) -> bool {
    row_fits(mat, 0, a) && row_fits(mat, 1, a) && row_fits(mat, 2, a) && row_fits(mat, 3, a)
}

/// The column-major matrix that moves a point by `(x, y, z)`.
pub open spec fn translation_matrix(x: i32, y: i32, z: i32) -> [[i32; 4]; 4] {
    [[1i32, 0i32, 0i32, 0i32], [0i32, 1i32, 0i32, 0i32], [0i32, 0i32, 1i32, 0i32], [x, y, z, 1i32]]
}

/// Calls `vecmath::col_mat4_transform` on `i32` components. The contract
/// states the product as that function computes it: component `r` of the
/// result is the dot product of the matrix's row `r`, read across its four
/// columns, with the vector. The precondition keeps every product and partial
/// sum inside `i32`, where the integer operators neither trap nor wrap.
#[verifier::external_body]
fn col_mat4_transform(mat: [[i32; 4]; 4], a: [i32; 4]) -> (out: [i32; 4])
    requires
        transform_fits(mat, a),
    ensures
        out[0] == dot_row(mat, 0, a),
        out[1] == dot_row(mat, 1, a),
        out[2] == dot_row(mat, 2, a),
        out[3] == dot_row(mat, 3, a),
{
    vecmath::col_mat4_transform(mat, a)
}

/// Builds the matrix that places the unit cube at cell `(x, y, z)`.
pub fn translation(x: i32, y: i32, z: i32) -> (mat: [[i32; 4]; 4])
    ensures
        mat == translation_matrix(x, y, z),
{
    let mat: [[i32; 4]; 4] = [[1, 0, 0, 0], [0, 1, 0, 0], [0, 0, 1, 0], [x, y, z, 1]];
    proof {
        let m = translation_matrix(x, y, z);
        assert(mat[0] =~= m[0]);
        assert(mat[1] =~= m[1]);
        assert(mat[2] =~= m[2]);
        assert(mat[3] =~= m[3]);
        assert(mat =~= m);
    }
    mat
}

impl Vertex {
    /// This vertex with its position multiplied by `mat`.
    pub open spec fn transformed(self, mat: [[i32; 4]; 4]) -> Vertex {
        Vertex {
            position: [
                dot_row(mat, 0, self.position) as i32,
                dot_row(mat, 1, self.position) as i32,
                dot_row(mat, 2, self.position) as i32,
                dot_row(mat, 3, self.position) as i32,
            ],
            tex_coords: self.tex_coords,
        }
    }

    /// This vertex moved by `(x, y, z)`.
    pub open spec fn translated(self, x: int, y: int, z: int) -> Vertex {
        Vertex {
            position: [
                (self.position[0] + x) as i32,
                (self.position[1] + y) as i32,
                (self.position[2] + z) as i32,
                self.position[3],
            ],
            tex_coords: self.tex_coords,
        }
    }

    /// Multiplies the position by the column-major matrix `mat`. The texture
    /// coordinate stays.
    pub fn transform(&mut self, mat: [[i32; 4]; 4])
        requires
            transform_fits(mat, old(self).position),
        ensures
            *final(self) == old(self).transformed(mat),
    {
        self.position = col_mat4_transform(mat, self.position);
        proof {
            assert(self.position =~= old(self).transformed(mat).position);
        }
    }
}

impl Face {
    /// The quad of this face in the unit cube.
    pub fn template(self) -> (quad: [Vertex; 4])
        ensures
            quad == template(self),
    {
        let quad = match self {
            Face::North => [
                unit(1, 0, 1, 1, 0),
                unit(1, 1, 1, 1, 1),
                unit(0, 1, 1, 0, 1),
                unit(0, 0, 1, 0, 0),
            ],
            Face::South => [
                unit(0, 0, 0, 0, 0),
                unit(0, 1, 0, 0, 1),
                unit(1, 1, 0, 1, 1),
                unit(1, 0, 0, 1, 0),
            ],
            Face::East => [
                unit(1, 1, 0, 0, 1),
                unit(1, 0, 0, 0, 0),
                unit(1, 0, 1, 1, 0),
                unit(1, 1, 1, 1, 1),
            ],
            Face::West => [
                unit(0, 0, 0, 1, 0),
                unit(0, 1, 0, 1, 1),
                unit(0, 1, 1, 0, 1),
                unit(0, 0, 1, 0, 0),
            ],
            Face::Top => [
                unit(0, 1, 0, 0, 0),
                unit(0, 1, 1, 0, 1),
                unit(1, 1, 1, 1, 1),
                unit(1, 1, 0, 1, 0),
            ],
            Face::Bottom => [
                unit(0, 0, 0, 0, 1),
                unit(0, 0, 1, 0, 0),
                unit(1, 0, 1, 1, 0),
                unit(1, 0, 0, 1, 1),
            ],
        };
        proof {
            assert(quad =~= template(self));
        }
        quad
    }
}

/// Builds a vertex of the unit cube with `w = 1`.
fn unit(px: i32, py: i32, pz: i32, u: i32, v: i32) -> (vertex: Vertex)
    ensures
        vertex == corner(px, py, pz, u, v),
{
    let vertex = Vertex { position: [px, py, pz, 1], tex_coords: [u, v] };
    proof {
        assert(vertex.position =~= corner(px, py, pz, u, v).position);
        assert(vertex.tex_coords =~= corner(px, py, pz, u, v).tex_coords);
    }
    vertex
}

/// On a vertex with `w = 1`, multiplying by a translation matrix moves the
/// vertex by the matrix's offsets, and the product can be computed in `i32`
/// wherever the moved position is one.
pub proof fn lemma_translation_moves(v: Vertex, x: i32, y: i32, z: i32)
    requires
        v.position[3] == 1,
        fits_i32(v.position[0] + x),
        fits_i32(v.position[1] + y),
        fits_i32(v.position[2] + z),
    ensures
        transform_fits(translation_matrix(x, y, z), v.position),
        v.transformed(translation_matrix(x, y, z)) == v.translated(x as int, y as int, z as int),
{
    let m = translation_matrix(x, y, z);
    assert(m[0][0] == 1 && m[0][1] == 0 && m[0][2] == 0 && m[0][3] == 0);
    assert(m[1][0] == 0 && m[1][1] == 1 && m[1][2] == 0 && m[1][3] == 0);
    assert(m[2][0] == 0 && m[2][1] == 0 && m[2][2] == 1 && m[2][3] == 0);
    assert(m[3][0] == x && m[3][1] == y && m[3][2] == z && m[3][3] == 1);
    assert(v.transformed(m).position =~= v.translated(x as int, y as int, z as int).position);
}

} // verus!
