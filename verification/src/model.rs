//! 3D models: a vertex table, and triangular faces that index into it.

pub mod obj;
pub mod text;

use crate::collections::{face_seq, faces_new, faces_slice, vertex_seq, verts_new, verts_slice};
use crate::math::Fixed;
use crate::types::vector::{Vec2, Vec3, Vec4};
use vstd::prelude::*;

verus! {

/// Represents a 3D model.
pub struct Model {
    pub verts: heapless::Vec<Vertex, 256>,
    pub faces: heapless::Vec<Face, 512>,
}

/// Represents a vertex. Contains model-space position, texture coordinates,
/// and normals.
#[derive(Debug, Copy, Clone, PartialEq, Eq, Structural)]
pub struct Vertex {
    pub pos: Vec4<Fixed>,
    pub tex_coords: Vec2<Fixed>,
    pub normal: Vec4<Fixed>,
}

/// Represents a face. Contains indices of 3 composing vertices.
#[derive(Debug, Copy, Clone)]
pub struct Face {
    pub verts: [usize; 3],
}

/// The smallest positive number: what a determinant or a distance must
/// exceed to count.
pub open spec fn epsilon() -> Fixed {
    Fixed { raw: 1 }
}

/// Where the ray from `origin` along `direction` meets the triangle
/// `a`, `b`, `c`, after Möller and Trumbore: nowhere if the ray is parallel
/// to the triangle, if it passes outside, or if the triangle lies behind
/// the origin.
pub open spec fn ray_hit(
    a: Vec3<Fixed>,
    b: Vec3<Fixed>,
    c: Vec3<Fixed>,
    origin: Vec3<Fixed>,
    direction: Vec3<Fixed>,
) -> Option<Vec3<Fixed>> {
    let e1 = b.minus(a);
    let e2 = c.minus(a);
    let ray_cross_e2 = Vec3::<Fixed>::cross_spec(direction, e2);
    let det = Vec3::<Fixed>::dot_spec(e1, ray_cross_e2);
    let s = origin.minus(a);
    let u = Vec3::<Fixed>::dot_spec(s, ray_cross_e2).over(det);
    let s_cross_e1 = Vec3::<Fixed>::cross_spec(s, e1);
    let v = Vec3::<Fixed>::dot_spec(direction, s_cross_e1).over(det);
    let t = Vec3::<Fixed>::dot_spec(e2, s_cross_e1).over(det);
    if -epsilon().raw < det.raw < epsilon().raw {
        None
    } else if u.raw < 0 || u.raw > 65536 {
        None
    } else if v.raw < 0 || u.plus(v).raw > 65536 {
        None
    } else if t.raw > epsilon().raw {
        Some(origin.plus(direction.times(t)))
    } else {
        None
    }
}

impl Face {
    /// Whether the three indices of the face lie inside a vertex table of
    /// `n` vertices.
    pub open spec fn within(self, n: int) -> bool {
        self.verts@[0] < n && self.verts@[1] < n && self.verts@[2] < n
    }

    /// The position of corner `i` of the face.
    pub open spec fn corner(self, verts: Seq<Vertex>, i: int) -> Vec3<Fixed> {
        verts[self.verts@[i] as int].pos.xyz()
    }

    /// Where the ray meets this face of a model with the vertices `verts`.
    pub open spec fn hit(
        self,
        verts: Seq<Vertex>,
        origin: Vec3<Fixed>,
        direction: Vec3<Fixed>,
    ) -> Option<Vec3<Fixed>> {
        ray_hit(
            self.corner(verts, 0),
            self.corner(verts, 1),
            self.corner(verts, 2),
            origin,
            direction,
        )
    }

    /// Whether the ray runs against the normal of the face's first vertex.
    pub open spec fn faces_ray(self, verts: Seq<Vertex>, direction: Vec3<Fixed>) -> bool {
        Vec3::<Fixed>::dot_spec(direction, verts[self.verts@[0] as int].normal.xyz()).raw < 0
    }

    /// Creates a new face initialized to all zeroes.
    pub fn new() -> (face: Face)
        ensures
            face.verts@ == seq![0usize, 0usize, 0usize],
    {
        let face = Face { verts: [0, 0, 0] };
        face
    }

    /// Detects if a ray intersects with a triangular face, and where.
    pub fn ray_intersects_face(
        &self,
        model: &Model,
        origin: Vec3<Fixed>,
        direction: Vec3<Fixed>,
    ) -> (out: Option<Vec3<Fixed>>)
        requires
            self.within(vertex_seq(model.verts).len() as int),
        ensures
            out == self.hit(vertex_seq(model.verts), origin, direction),
    {
        let verts = verts_slice(&model.verts);
        let tri_a = verts[self.verts[0]].pos.to_vec3();
        let tri_b = verts[self.verts[1]].pos.to_vec3();
        let tri_c = verts[self.verts[2]].pos.to_vec3();
        intersect(tri_a, tri_b, tri_c, origin, direction)
    }

    /// Returns true if a given ray intersects the front side (towards the
    /// normal) of this face. Returns false if the ray is orthogonal to the
    /// normal, or is intersecting the back side. Does not check if the ray
    /// collides. For this, `ray_intersects_face` should be used.
    pub fn ray_front_face(&self, model: &Model, direction: Vec3<Fixed>) -> (front: bool)
        requires
            self.within(vertex_seq(model.verts).len() as int),
        ensures
            front == self.faces_ray(vertex_seq(model.verts), direction),
    {
        let verts = verts_slice(&model.verts);
        Vec3::<Fixed>::dot(direction, verts[self.verts[0]].normal.to_vec3()).raw < 0
    }
}

/// Where the ray from `origin` along `direction` meets the triangle
/// `a`, `b`, `c`.
pub fn intersect(
    a: Vec3<Fixed>,
    b: Vec3<Fixed>,
    c: Vec3<Fixed>,
    origin: Vec3<Fixed>,
    direction: Vec3<Fixed>,
) -> (out: Option<Vec3<Fixed>>)
    ensures
        out == ray_hit(a, b, c, origin, direction),
{
    let e1 = b.sub(a);
    let e2 = c.sub(a);
    let ray_cross_e2 = Vec3::<Fixed>::cross(direction, e2);
    let det = Vec3::<Fixed>::dot(e1, ray_cross_e2);
    if det.raw > -1 && det.raw < 1 {
        return None;  // This ray is parallel to this triangle.
    }
    let s = origin.sub(a);
    let u = Vec3::<Fixed>::dot(s, ray_cross_e2).div(det);
    if u.raw < 0 || u.raw > 65536 {
        return None;
    }
    let s_cross_e1 = Vec3::<Fixed>::cross(s, e1);
    let v = Vec3::<Fixed>::dot(direction, s_cross_e1).div(det);
    if v.raw < 0 || u.add(v).raw > 65536 {
        return None;
    }
    // At this stage we can compute t to find out where the intersection
    // point is on the line.
    let t = Vec3::<Fixed>::dot(e2, s_cross_e1).div(det);
    if t.raw > 1 {
        Some(origin.add(direction.mul(t)))
    } else {
        // There is a line intersection but not a ray intersection.
        None
    }
}

impl Model {
    /// The vertices of the model.
    pub open spec fn vertices(&self) -> Seq<Vertex> {
        vertex_seq(self.verts)
    }

    /// The faces of the model.
    pub open spec fn triangles(&self) -> Seq<Face> {
        face_seq(self.faces)
    }

    /// Every face of the model names three vertices of its table.
    pub open spec fn wf(&self) -> bool {
        forall|i: int|
            0 <= i < self.triangles().len() ==> (#[trigger] self.triangles()[i]).within(
                self.vertices().len() as int,
            )
    }

    /// An empty model.
    pub fn new() -> (model: Model)
        ensures
            model.vertices() == Seq::<Vertex>::empty(),
            model.triangles() == Seq::<Face>::empty(),
            model.wf(),
    {
        Model { verts: verts_new(), faces: faces_new() }
    }

    /// How many vertices the model has.
    pub fn vertex_count(&self) -> (n: usize)
        ensures
            n == self.vertices().len(),
    {
        verts_slice(&self.verts).len()
    }

    /// How many faces the model has.
    pub fn face_count(&self) -> (n: usize)
        ensures
            n == self.triangles().len(),
    {
        faces_slice(&self.faces).len()
    }

    /// Vertex `i` of the model.
    pub fn vertex(&self, i: usize) -> (v: Vertex)
        requires
            i < self.vertices().len(),
        ensures
            v == self.vertices()[i as int],
    {
        verts_slice(&self.verts)[i]
    }

    /// Face `i` of the model.
    pub fn face(&self, i: usize) -> (f: Face)
        requires
            i < self.triangles().len(),
        ensures
            f == self.triangles()[i as int],
    {
        faces_slice(&self.faces)[i]
    }

    /// Checks that every face names three vertices of the table.
    pub fn check(&self) -> (ok: bool)
        ensures
            ok == self.wf(),
    {
        let verts = verts_slice(&self.verts);
        let faces = faces_slice(&self.faces);
        let n: usize = verts.len();
        let mut i: usize = 0;
        while i < faces.len()
            invariant
                i <= faces.len(),
                faces@ == self.triangles(),
                n == self.vertices().len(),
                forall|j: int| 0 <= j < i ==> (#[trigger] self.triangles()[j]).within(n as int),
            decreases faces.len() - i,
        {
            let face = &faces[i];
            if face.verts[0] >= n || face.verts[1] >= n || face.verts[2] >= n {
                return false;
            }
            i = i + 1;
        }
        true
    }
}

} // verus!
