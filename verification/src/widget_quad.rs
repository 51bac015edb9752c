use vstd::prelude::*;
use crate::scalar::{Scalar, Vec2, Vec3};

verus! {

/// One corner of a mesh.
#[derive(Clone, Copy, Debug, PartialEq, Eq, Structural)]
pub struct Vertex {
    pub position: Vec3,
    pub normal: Vec3,
    pub tex_coord: Vec2,
}

/// The mesh that every widget instance is drawn with.
#[derive(Debug)]
pub struct WQuad {
    pub vertices: Vec<Vertex>,
    pub indices: Vec<u32>,
    /// Where the quad's indices begin in `indices`.
    pub first_index: u32,
    /// How many of them there are.
    pub index_count: u32,
}

/// The corner of the unit square at `(x, y)`: it faces along +z, and its
/// texture coordinate is `(u, v)`.
pub open spec fn corner(x: Scalar, y: Scalar, u: Scalar, v: Scalar) -> Vertex {
    Vertex {
        position: Vec3 { x, y, z: Scalar::zero() },
        normal: Vec3 { x: Scalar::zero(), y: Scalar::zero(), z: Scalar::one() },
        tex_coord: Vec2 { x: u, y: v },
    }
}

/// The four corners of the unit square, counter-clockwise from the origin,
/// with the texture flipped top to bottom.
pub open spec fn quad_vertices() -> Seq<Vertex> {
    let o = Scalar::zero();
    let l = Scalar::one();
    seq![corner(o, o, o, l), corner(o, l, o, o), corner(l, l, l, o), corner(l, o, l, l)]
}

/// Two triangles that share the diagonal from corner 0 to corner 2.
pub open spec fn quad_indices() -> Seq<u32> {
    seq![0u32, 1u32, 2u32, 0u32, 2u32, 3u32]
}

fn make_corner(x: Scalar, y: Scalar, u: Scalar, v: Scalar) -> (c: Vertex)
    ensures
        c == corner(x, y, u, v),
{
    Vertex {
        position: Vec3 { x, y, z: Scalar::zero() },
        normal: Vec3 { x: Scalar::zero(), y: Scalar::zero(), z: Scalar::one() },
        tex_coord: Vec2 { x: u, y: v },
    }
}

impl WQuad {
    /// The mesh is the unit quad: four corners, two triangles.
    pub open spec fn is_unit(&self) -> bool {
        &&& self.vertices@ == quad_vertices()
        &&& self.indices@ == quad_indices()
        &&& self.first_index == 0
        &&& self.index_count == 6
    }
}

/// The shared quad: a flat unit square that starts at (0, 0), so that a
/// widget is anchored at its top-left corner.
pub fn create_wquad() -> (q: WQuad)
    ensures
        q.is_unit(),
{
    let o = Scalar::zero();
    let l = Scalar::one();
    let mut vertices: Vec<Vertex> = Vec::new();
    vertices.push(make_corner(o, o, o, l));
    vertices.push(make_corner(o, l, o, o));
    vertices.push(make_corner(l, l, l, o));
    vertices.push(make_corner(l, o, l, l));
    let mut indices: Vec<u32> = Vec::new();
    indices.push(0);
    indices.push(1);
    indices.push(2);
    indices.push(0);
    indices.push(2);
    indices.push(3);
    assert(vertices@ =~= quad_vertices());
    assert(indices@ =~= quad_indices());
    WQuad { vertices, indices, first_index: 0, index_count: 6 }
}

} // verus!
