//! The camera: it places a model before the eye, casts one ray through
//! every pixel of the raster, and shades what the ray meets.
//!
//! Conventions: matrices act on column vectors; the view space is
//! right-handed, with `z` pointing toward the camera; after the perspective
//! division the rays run along `+z` from `z = -1`.

use crate::collections::{
    faces_new, faces_push, faces_slice, verts_new, verts_push, verts_slice, GRID_CAPACITY,
};
use crate::graphics::texture::Texture;
use crate::graphics::viewport::{lemma_prefix, FrameBuffer};
use crate::math::{powi, Fixed};
use crate::model::{ray_hit, Face, Model, Vertex};
use crate::types::matrix::Mat4;
use crate::math::{saturated, trunc_div};
use crate::types::vector::{length_of, Vec3, Vec4};
use vstd::prelude::*;

verus! {

/// Why a camera cannot be set up.
#[derive(Debug, Copy, Clone, PartialEq, Eq, Structural)]
pub enum CameraError {
    /// The near and the far plane coincide.
    ZeroDepth,
    /// The raster has no columns or no rows, so that it has no aspect ratio.
    ZeroAspect,
}

/// A virtual camera for rendering a raster of `W` by `H` pixels.
pub struct Camera<const W: usize, const H: usize> {
    pub pos: Vec3<Fixed>,
    pub dir: Vec3<Fixed>,
    pub up: Vec3<Fixed>,
    pub proj: Mat4<Fixed>,
    pub view: Mat4<Fixed>,
    pub near: Fixed,
    pub far: Fixed,
    pub fov_y: Fixed,
    pub texture: Texture<16, 16>,
}

/// Where the light stands: `(1.5, 0, -1.5)`.
pub open spec fn light_pos() -> Vec3<Fixed> {
    Vec3 { x: Fixed::ratio(3, 2), y: Fixed::zero_spec(), z: Fixed::ratio(-3, 2) }
}

/// The colour `(v, v, v)`.
pub open spec fn grey(v: Fixed) -> Vec3<Fixed> {
    Vec3 { x: v, y: v, z: v }
}

/// The coordinate of column `i` of `n`, from -1 up to 1: `(i / n - 0.5) * 2`,
/// rounded once.
pub open spec fn ndc(i: int, n: int) -> Fixed {
    Fixed::ratio(2 * i - n, n)
}

/// The ray through pixel `(x, y)` of a `w` by `h` raster starts here, and
/// runs along `+z`.
pub open spec fn ray_origin(x: int, y: int, w: int, h: int) -> Vec3<Fixed> {
    Vec3 { x: ndc(x, w), y: ndc(y, h), z: Fixed::one_spec().negated() }
}

pub open spec fn ray_direction() -> Vec3<Fixed> {
    Vec3 { x: Fixed::zero_spec(), y: Fixed::zero_spec(), z: Fixed::one_spec() }
}

/// A vertex as the camera sees it: its position goes through the model
/// transform, the view and the projection, and is then divided by its
/// fourth component; a position whose fourth component is zero is left
/// undivided. Texture coordinates and normal stay.
pub open spec fn placed(
    model_transform: Mat4<Fixed>,
    view: Mat4<Fixed>,
    proj: Mat4<Fixed>,
    v: Vertex,
) -> Vertex {
    let p = proj.applied(view.applied(model_transform.applied(v.pos)));
    let q = if p.w.raw != 0 { p.divided() } else { p.xyz() };
    Vertex { pos: Vec4 { x: q.x, y: q.y, z: q.z, w: Fixed::one_spec() }, ..v }
}

/// Half the length of the cross product of `q - p` and `r - p`: the area of
/// the triangle `p`, `q`, `r`.
pub open spec fn area(p: Vec3<Fixed>, q: Vec3<Fixed>, r: Vec3<Fixed>) -> Fixed {
    Fixed::ratio(1, 2).times(Vec3::<Fixed>::cross_spec(q.minus(p), r.minus(p)).length())
}

/// The areas of the three triangles that the point `p` makes with the
/// edges of the triangle `a`, `b`, `c`: opposite `a`, opposite `b` and
/// opposite `c`.
pub open spec fn areas(a: Vec3<Fixed>, b: Vec3<Fixed>, c: Vec3<Fixed>, p: Vec3<Fixed>) -> Vec3<
    Fixed,
> {
    Vec3 { x: area(p, b, c), y: area(p, a, c), z: area(p, a, b) }
}

/// The sum of three areas.
pub open spec fn total_of(parts: Vec3<Fixed>) -> Fixed {
    parts.x.plus(parts.y).plus(parts.z)
}

/// The barycentric weights of the point `p` in the triangle `a`, `b`, `c`:
/// each of the three areas over their sum. The weight of `a` is `x`, that
/// of `b` is `y`, that of `c` is `z`.
pub open spec fn weights(a: Vec3<Fixed>, b: Vec3<Fixed>, c: Vec3<Fixed>, p: Vec3<Fixed>) -> Vec3<
    Fixed,
> {
    let parts = areas(a, b, c, p);
    let total = total_of(parts);
    Vec3 { x: parts.x.over(total), y: parts.y.over(total), z: parts.z.over(total) }
}

/// The vertex at the point `p` of the triangle `a`, `b`, `c`: texture
/// coordinates and normal are weighted by the barycentric weights of `p`.
pub open spec fn interpolated(a: Vertex, b: Vertex, c: Vertex, p: Vec3<Fixed>) -> Vertex {
    let w = weights(a.pos.xyz(), b.pos.xyz(), c.pos.xyz(), p);
    Vertex {
        pos: Vec4 { x: p.x, y: p.y, z: p.z, w: Fixed::one_spec() },
        tex_coords: a.tex_coords.times(w.x).plus(b.tex_coords.times(w.y)).plus(
            c.tex_coords.times(w.z),
        ),
        normal: a.normal.times(w.x).plus(b.normal.times(w.y)).plus(c.normal.times(w.z)),
    }
}

/// What the ray meets among the first `n` faces: the interpolated vertex of
/// the last of them that it meets.
pub open spec fn last_hit(
    faces: Seq<Face>,
    verts: Seq<Vertex>,
    origin: Vec3<Fixed>,
    direction: Vec3<Fixed>,
    n: nat,
) -> Option<Vertex>
    decreases n,
{
    if n == 0 {
        None
    } else {
        let face = faces[n - 1];
        match face.hit(verts, origin, direction) {
            Some(p) => Some(
                interpolated(
                    verts[face.verts@[0] as int],
                    verts[face.verts@[1] as int],
                    verts[face.verts@[2] as int],
                    p,
                ),
            ),
            None => last_hit(faces, verts, origin, direction, (n - 1) as nat),
        }
    }
}

/// The colour of a surface point after Blinn and Phong: a tenth of white as
/// ambient light, the texel under the point lit by the cosine between light
/// and normal, and a highlight from the half vector. A point whose texture
/// coordinates fall outside the texture is black.
pub open spec fn shaded(vertex: Vertex, texture: Texture<16, 16>) -> Vec3<u8> {
    let p = vertex.pos.xyz();
    let normal = vertex.normal.xyz();
    let light_dir = p.minus(light_pos()).normalised();
    let ambient = grey(Fixed::one_spec()).times(Fixed::ratio(1, 10));
    match texture.sampled(vertex.tex_coords.x, vertex.tex_coords.y) {
        None => Vec3 { x: 0, y: 0, z: 0 },
        Some(texel) => {
            let lambertian = Vec3::<Fixed>::dot_spec(light_dir, normal).at_least(
                Fixed::zero_spec(),
            );
            let diffuse = texel.unit_colour().times_each(grey(Fixed::one_spec())).times(
                lambertian,
            ).times(Fixed::ratio(65, 100));
            let half_dir = light_dir.plus(p.normalised().negated()).normalised();
            let view_angle = Vec3::<Fixed>::dot_spec(half_dir, normal).at_least(
                Fixed::zero_spec(),
            );
            let specular = grey(Fixed::ratio(1, 10)).times(view_angle.power(32)).times(
                Fixed::ratio(1, 4),
            );
            ambient.plus(specular).plus(diffuse).colour()
        },
    }
}

/// The colour of pixel `(x, y)` of a `w` by `h` raster: the shaded point
/// that its ray meets, or black where it meets none.
pub open spec fn fragment(
    faces: Seq<Face>,
    verts: Seq<Vertex>,
    texture: Texture<16, 16>,
    x: int,
    y: int,
    w: int,
    h: int,
) -> Vec3<u8> {
    match last_hit(faces, verts, ray_origin(x, y, w, h), ray_direction(), faces.len()) {
        Some(vertex) => shaded(vertex, texture),
        None => Vec3 { x: 0, y: 0, z: 0 },
    }
}

/// The pixel of the test pattern at `(x, y)`: red rises along the columns
/// and green along the rows.
pub open spec fn gradient(x: int, y: int, w: int, h: int) -> Vec3<u8> {
    Vec3 { x: ((x * 255) / w) as u8, y: ((y * 255) / h) as u8, z: 0 }
}

/// The matrix whose upper three rows are `r0`, `r1`, `r2`, each extended by
/// zero, over the row `(0, 0, 0, 1)`.
pub open spec fn basis_rows(r0: Vec3<Fixed>, r1: Vec3<Fixed>, r2: Vec3<Fixed>) -> Mat4<Fixed> {
    Mat4 {
        v_00: r0.x,
        v_01: r0.y,
        v_02: r0.z,
        v_10: r1.x,
        v_11: r1.y,
        v_12: r1.z,
        v_20: r2.x,
        v_21: r2.y,
        v_22: r2.z,
        ..Mat4::<Fixed>::identity()
    }
}

/// The view matrix of an eye at `eye` that looks at `target`: it moves the
/// eye to the origin and turns the world so that `z` points from the target
/// to the eye, `x` to the right and `y` up.
pub open spec fn view_matrix(eye: Vec3<Fixed>, target: Vec3<Fixed>, up: Vec3<Fixed>) -> Mat4<
    Fixed,
> {
    let forward = eye.minus(target).normalised();
    let right = Vec3::<Fixed>::cross_spec(up, forward).normalised();
    let new_up = Vec3::<Fixed>::cross_spec(forward, right);
    basis_rows(right, new_up, forward).product(Mat4::<Fixed>::translation(eye.negated()))
}

/// The perspective projection with the focal length `focal` (the cotangent
/// of half the vertical field of view): it maps the depths from `near` to
/// `far` before the eye, along `-z`, onto -1 to 1.
pub open spec fn projection_matrix(near: Fixed, far: Fixed, focal: Fixed, aspect: Fixed) -> Mat4<
    Fixed,
> {
    let depth = near.minus(far);
    Mat4 {
        v_00: focal.over(aspect),
        v_11: focal,
        v_22: far.plus(near).over(depth),
        v_23: Fixed::ratio(2, 1).times(far).times(near).over(depth),
        v_32: Fixed::one_spec().negated(),
        v_33: Fixed::zero_spec(),
        ..Mat4::<Fixed>::identity()
    }
}

/// What `projection` answers.
pub open spec fn projection_spec(near: Fixed, far: Fixed, focal: Fixed, aspect: Fixed) -> Result<
    Mat4<Fixed>,
    CameraError,
> {
    if near.minus(far).raw == 0 {
        Err(CameraError::ZeroDepth)
    } else if aspect.raw == 0 {
        Err(CameraError::ZeroAspect)
    } else {
        Ok(projection_matrix(near, far, focal, aspect))
    }
}

/// An area is never negative.
pub proof fn lemma_area_not_negative(p: Vec3<Fixed>, q: Vec3<Fixed>, r: Vec3<Fixed>)
    ensures
        area(p, q, r).raw >= 0,
{
    let squares = Vec3::<Fixed>::cross_spec(q.minus(p), r.minus(p)).squares();
    assert(squares >= 0) by (nonlinear_arith)
        requires
            squares == Vec3::<Fixed>::cross_spec(q.minus(p), r.minus(p)).squares(),
    ;
    crate::math::lemma_root_exists(squares);
    let len = length_of(squares).raw as int;
    assert(len >= 0);
    assert(32768 * len >= 0);
}

/// One area over the sum of three: where no area is negative, the quotient
/// lies from 0 to 1. With `t` the exact sum, where it is positive and no
/// more than the range holds, the quotient is the rounded-down share.
proof fn lemma_share(part: Fixed, total: Fixed, rest: int)
    requires
        0 <= part.raw,
        0 <= rest,
        total.raw == saturated(part.raw + rest),
    ensures
        0 <= part.over(total).raw <= 65536,
        0 < part.raw + rest <= i32::MAX ==> {
            let q = part.over(total).raw as int;
            let t = part.raw + rest;
            q * t <= part.raw * 65536 < (q + 1) * t
        },
{
    let t = total.raw as int;
    if t > 0 {
        let n = part.raw * 65536;
        vstd::arithmetic::div_mod::lemma_fundamental_div_mod(n, t);
        vstd::arithmetic::div_mod::lemma_mod_pos_bound(n, t);
        let q = n / t;
        assert(t * q == q * t) by (nonlinear_arith);
        assert(0 <= q <= 65536) by (nonlinear_arith)
            requires
                0 <= part.raw <= t,
                n == part.raw * 65536,
                q * t <= n < q * t + t,
                0 < t,
        ;
        assert((q + 1) * t == q * t + t) by (nonlinear_arith);
    }
}

/// Barycentric weights: each of the three lies from 0 to 1. Where the
/// three areas have a positive sum that the range holds, each weight is its
/// area's share rounded down, and the three add up to 1 less at most two
/// of the smallest steps.
pub proof fn lemma_weights(a: Vec3<Fixed>, b: Vec3<Fixed>, c: Vec3<Fixed>, p: Vec3<Fixed>)
    ensures
        0 <= weights(a, b, c, p).x.raw <= 65536,
        0 <= weights(a, b, c, p).y.raw <= 65536,
        0 <= weights(a, b, c, p).z.raw <= 65536,
        ({
            let parts = areas(a, b, c, p);
            let w = weights(a, b, c, p);
            0 < parts.x.raw + parts.y.raw + parts.z.raw <= i32::MAX ==> 65534 <= w.x.raw + w.y.raw
                + w.z.raw <= 65536
        }),
{
    let parts = areas(a, b, c, p);
    let w = weights(a, b, c, p);
    let total = total_of(parts);
    lemma_area_not_negative(p, b, c);
    lemma_area_not_negative(p, a, c);
    lemma_area_not_negative(p, a, b);
    let x = parts.x.raw as int;
    let y = parts.y.raw as int;
    let z = parts.z.raw as int;
    assert(total.raw == saturated(x + y + z));
    lemma_share(parts.x, total, y + z);
    lemma_share(parts.y, total, x + z);
    lemma_share(parts.z, total, x + y);
    if 0 < x + y + z <= i32::MAX {
        let t = x + y + z;
        let qx = w.x.raw as int;
        let qy = w.y.raw as int;
        let qz = w.z.raw as int;
        assert(65534 <= qx + qy + qz <= 65536) by (nonlinear_arith)
            requires
                0 < t,
                t == x + y + z,
                qx * t <= x * 65536 < (qx + 1) * t,
                qy * t <= y * 65536 < (qy + 1) * t,
                qz * t <= z * 65536 < (qz + 1) * t,
        ;
    }
}

/// The vector with the raw components `x`, `y`, `z`.
pub open spec fn raw_vec(x: i32, y: i32, z: i32) -> Vec3<Fixed> {
    Vec3 { x: Fixed { raw: x }, y: Fixed { raw: y }, z: Fixed { raw: z } }
}

/// The length of the vector `(0, 0, z)` is `z`, for a `z` from 0 on.
proof fn lemma_axis_length(z: i32)
    requires
        0 <= z,
    ensures
        raw_vec(0, 0, z).length() == (Fixed { raw: z }),
{
    assert(z * z < (z + 1) * (z + 1)) by (nonlinear_arith)
        requires
            0 <= z,
    ;
    crate::math::lemma_root_found(z as int, z * z);
}

/// The cross product of two vectors whose raw components are known.
proof fn lemma_cross_at(
    v1: Vec3<Fixed>,
    v2: Vec3<Fixed>,
    x1: int,
    y1: int,
    z1: int,
    x2: int,
    y2: int,
    z2: int,
)
    requires
        v1.x.raw == x1 && v1.y.raw == y1 && v1.z.raw == z1,
        v2.x.raw == x2 && v2.y.raw == y2 && v2.z.raw == z2,
    ensures
        Vec3::<Fixed>::cross_spec(v1, v2) == (Vec3 {
            x: Fixed::of_raw(trunc_div(y1 * z2 - z1 * y2, 65536)),
            y: Fixed::of_raw(trunc_div(z1 * x2 - x1 * z2, 65536)),
            z: Fixed::of_raw(trunc_div(x1 * y2 - y1 * x2, 65536)),
        }),
{
}

/// The dot product of two vectors whose raw components are known.
proof fn lemma_dot_at(
    v1: Vec3<Fixed>,
    v2: Vec3<Fixed>,
    x1: int,
    y1: int,
    z1: int,
    x2: int,
    y2: int,
    z2: int,
)
    requires
        v1.x.raw == x1 && v1.y.raw == y1 && v1.z.raw == z1,
        v2.x.raw == x2 && v2.y.raw == y2 && v2.z.raw == z2,
    ensures
        Vec3::<Fixed>::dot_spec(v1, v2) == Fixed::of_raw(
            trunc_div(x1 * x2 + y1 * y2 + z1 * z2, 65536),
        ),
{
}

/// The canonical triangle, the hit: in the triangle `(0, 0, 0)`,
/// `(1, 0, 0)`, `(0, 1, 0)` the ray from `(0.25, 0.25, -1)` along `+z`
/// meets the point `(0.25, 0.25, 0)`.
pub proof fn lemma_canonical_hit()
    ensures
        ray_hit(
            raw_vec(0, 0, 0),
            raw_vec(65536, 0, 0),
            raw_vec(0, 65536, 0),
            raw_vec(16384, 16384, -65536i32),
            raw_vec(0, 0, 65536),
        ) == Some(raw_vec(16384, 16384, 0)),
{
    let a = raw_vec(0, 0, 0);
    let b = raw_vec(65536, 0, 0);
    let c = raw_vec(0, 65536, 0);
    let origin = raw_vec(16384, 16384, -65536i32);
    let direction = raw_vec(0, 0, 65536);
    let e1 = b.minus(a);
    let e2 = c.minus(a);
    let s = origin.minus(a);
    assert(e1 == b && e2 == c && s == origin);
    let ray_cross_e2 = Vec3::<Fixed>::cross_spec(direction, e2);
    assert(0int * 0int - 65536int * 65536int == -4294967296
        && 65536int * 0int - 0int * 0int == 0
        && 0int * 65536int - 0int * 0int == 0) by (nonlinear_arith);
    lemma_cross_at(direction, e2, 0, 0, 65536, 0, 65536, 0);
    assert(ray_cross_e2 == raw_vec(-65536i32, 0, 0));
    let det = Vec3::<Fixed>::dot_spec(e1, ray_cross_e2);
    assert(65536int * (-65536int) + 0int * 0int + 0int * 0int == -4294967296)
        by (nonlinear_arith);
    lemma_dot_at(e1, ray_cross_e2, 65536, 0, 0, -65536, 0, 0);
    assert(det.raw == -65536);
    assert(16384int * (-65536int) + 16384int * 0int + (-65536int) * 0int == -1073741824)
        by (nonlinear_arith);
    lemma_dot_at(s, ray_cross_e2, 16384, 16384, -65536, -65536, 0, 0);
    let u = Vec3::<Fixed>::dot_spec(s, ray_cross_e2).over(det);
    assert(u.raw == 16384);
    let s_cross_e1 = Vec3::<Fixed>::cross_spec(s, e1);
    assert(16384int * 0int - (-65536int) * 0int == 0
        && (-65536int) * 65536int - 16384int * 0int == -4294967296
        && 16384int * 0int - 16384int * 65536int == -1073741824) by (nonlinear_arith);
    lemma_cross_at(s, e1, 16384, 16384, -65536, 65536, 0, 0);
    assert(s_cross_e1 == raw_vec(0, -65536i32, -16384i32));
    assert(0int * 0int + 0int * (-65536int) + 65536int * (-16384int) == -1073741824)
        by (nonlinear_arith);
    lemma_dot_at(direction, s_cross_e1, 0, 0, 65536, 0, -65536, -16384);
    let v = Vec3::<Fixed>::dot_spec(direction, s_cross_e1).over(det);
    assert(v.raw == 16384);
    assert(0int * 0int + 65536int * (-65536int) + 0int * (-16384int) == -4294967296)
        by (nonlinear_arith);
    lemma_dot_at(e2, s_cross_e1, 0, 65536, 0, 0, -65536, -16384);
    let t = Vec3::<Fixed>::dot_spec(e2, s_cross_e1).over(det);
    assert(t.raw == 65536);
    assert(direction.times(t) == raw_vec(0, 0, 65536));
}

/// The canonical triangle, the weights: in the triangle `(0, 0, 0)`,
/// `(1, 0, 0)`, `(0, 1, 0)` the point `(0.25, 0.25, 0)` has the barycentric
/// weights 0.5, 0.25 and 0.25.
pub proof fn lemma_canonical_weights()
    ensures
        weights(
            raw_vec(0, 0, 0),
            raw_vec(65536, 0, 0),
            raw_vec(0, 65536, 0),
            raw_vec(16384, 16384, 0),
        ) == raw_vec(32768, 16384, 16384),
{
    let a = raw_vec(0, 0, 0);
    let b = raw_vec(65536, 0, 0);
    let c = raw_vec(0, 65536, 0);
    let p = raw_vec(16384, 16384, 0);
    assert(b.minus(p) == raw_vec(49152, -16384i32, 0));
    assert(c.minus(p) == raw_vec(-16384i32, 49152, 0));
    assert(a.minus(p) == raw_vec(-16384i32, -16384i32, 0));
    assert((-16384int) * 0int - 0int * 49152int == 0
        && 0int * (-16384int) - 49152int * 0int == 0
        && 49152int * 49152int - (-16384int) * (-16384int) == 2147483648) by (nonlinear_arith);
    lemma_cross_at(b.minus(p), c.minus(p), 49152, -16384, 0, -16384, 49152, 0);
    assert((-16384int) * 0int - 0int * 49152int == 0
        && 0int * (-16384int) - (-16384int) * 0int == 0
        && (-16384int) * 49152int - (-16384int) * (-16384int) == -1073741824) by (nonlinear_arith);
    lemma_cross_at(a.minus(p), c.minus(p), -16384, -16384, 0, -16384, 49152, 0);
    assert((-16384int) * 0int - 0int * (-16384int) == 0
        && 0int * 49152int - (-16384int) * 0int == 0
        && (-16384int) * (-16384int) - (-16384int) * 49152int == 1073741824) by (nonlinear_arith);
    lemma_cross_at(a.minus(p), b.minus(p), -16384, -16384, 0, 49152, -16384, 0);
    assert(Vec3::<Fixed>::cross_spec(b.minus(p), c.minus(p)) == raw_vec(0, 0, 32768));
    assert(Vec3::<Fixed>::cross_spec(a.minus(p), c.minus(p)) == raw_vec(0, 0, -16384i32));
    assert(Vec3::<Fixed>::cross_spec(a.minus(p), b.minus(p)) == raw_vec(0, 0, 16384));
    lemma_axis_length(32768);
    lemma_axis_length(16384);
    assert(0int * 0 + 0int * 0 + (-16384int) * (-16384int) == 268435456) by (nonlinear_arith);
    assert(0int * 0 + 0int * 0 + 16384int * 16384int == 268435456) by (nonlinear_arith);
    assert(raw_vec(0, 0, -16384i32).squares() == 268435456);
    assert(raw_vec(0, 0, 16384).squares() == 268435456);
    assert(Fixed::ratio(1, 2).raw == 32768);
    assert(32768int * 32768int == 1073741824 && 32768int * 16384int == 536870912)
        by (nonlinear_arith);
    assert(areas(a, b, c, p) == raw_vec(16384, 8192, 8192));
    assert(total_of(areas(a, b, c, p)).raw == 32768);
}

/// Rendering is a function of the model, the transform and the camera: two
/// frames that `render` gave for the same three hold the same pixels, as
/// many as the raster has or a frame holds.
pub proof fn lemma_render_deterministic<const W: usize, const H: usize>(
    cam: Camera<W, H>,
    object: Model,
    model_transform: Mat4<Fixed>,
    first: FrameBuffer<W, H>,
    second: FrameBuffer<W, H>,
)
    requires
        first.pixels() == cam.rendering(&object, model_transform).take(
            FrameBuffer::<W, H>::room(),
        ),
        second.pixels() == cam.rendering(&object, model_transform).take(
            FrameBuffer::<W, H>::room(),
        ),
    ensures
        first.pixels() == second.pixels(),
        first.pixels().len() == FrameBuffer::<W, H>::room(),
{
    assert(0 <= W * H) by (nonlinear_arith)
        requires
            0 <= W,
            0 <= H,
    ;
}

fn grey_of(v: Fixed) -> (out: Vec3<Fixed>)
    ensures
        out == grey(v),
{
    Vec3 { x: v, y: v, z: v }
}

/// The barycentric weights of the point `p` in the triangle `a`, `b`, `c`.
pub fn barycentric(a: Vec3<Fixed>, b: Vec3<Fixed>, c: Vec3<Fixed>, p: Vec3<Fixed>) -> (out: Vec3<
    Fixed,
>)
    ensures
        out == weights(a, b, c, p),
{
    let half = Fixed::from_ratio(1, 2);
    let pbc_area = half.mul(Vec3::<Fixed>::cross(b.sub(p), c.sub(p)).len());
    let pac_area = half.mul(Vec3::<Fixed>::cross(a.sub(p), c.sub(p)).len());
    let pab_area = half.mul(Vec3::<Fixed>::cross(a.sub(p), b.sub(p)).len());
    let tot_area = pbc_area.add(pac_area).add(pab_area);
    Vec3 { x: pbc_area.div(tot_area), y: pac_area.div(tot_area), z: pab_area.div(tot_area) }
}

/// The vertex at the point `p` of the triangle `a`, `b`, `c`.
pub fn interpolate(a: &Vertex, b: &Vertex, c: &Vertex, p: Vec3<Fixed>) -> (out: Vertex)
    ensures
        out == interpolated(*a, *b, *c, p),
{
    let w = barycentric(a.pos.to_vec3(), b.pos.to_vec3(), c.pos.to_vec3(), p);
    Vertex {
        pos: Vec4::<Fixed>::of(p, Fixed::one()),
        tex_coords: a.tex_coords.mul(w.x).add(b.tex_coords.mul(w.y)).add(c.tex_coords.mul(w.z)),
        normal: a.normal.mul(w.x).add(b.normal.mul(w.y)).add(c.normal.mul(w.z)),
    }
}

/// Shades a surface point after Blinn and Phong.
pub fn shade(vertex: &Vertex, texture: &Texture<16, 16>) -> (out: Vec3<u8>)
    ensures
        out == shaded(*vertex, *texture),
{
    let zero = Fixed::zero();
    let one = Fixed::one();
    let p = vertex.pos.to_vec3();
    let normal = vertex.normal.to_vec3();
    let light_pos = Vec3 { x: Fixed::from_ratio(3, 2), y: zero, z: Fixed::from_ratio(-3, 2) };
    let light_col = grey_of(one);
    let mut light_dir = p.sub(light_pos);
    let _ = light_dir.nor();
    // Ambient
    let ambient = grey_of(one).mul(Fixed::from_ratio(1, 10));
    match texture.sample(vertex.tex_coords) {
        None => Vec3 { x: 0, y: 0, z: 0 },
        Some(texel) => {
            // Diffuse
            let lambertian = Vec3::<Fixed>::dot(light_dir, normal).max(zero);
            let diffuse = texel.to_float_colour().mul_each(light_col).mul(lambertian).mul(
                Fixed::from_ratio(65, 100),
            );
            // Specular
            let mut to_point = p;
            let _ = to_point.nor();
            let mut half_dir = light_dir.add(to_point.neg());
            let _ = half_dir.nor();
            let view_angle = Vec3::<Fixed>::dot(half_dir, normal).max(zero);
            let specular = grey_of(Fixed::from_ratio(1, 10)).mul(powi(view_angle, 32)).mul(
                Fixed::from_ratio(1, 4),
            );
            ambient.add(specular).add(diffuse).to_8bit_colour()
        },
    }
}

impl Model {
    /// The model as a camera sees it: every vertex placed, the faces as
    /// they are.
    pub fn placed_by(
        &self,
        model_transform: Mat4<Fixed>,
        view: Mat4<Fixed>,
        proj: Mat4<Fixed>,
    ) -> (out: Model)
        ensures
            out.triangles() == self.triangles(),
            out.vertices().len() == self.vertices().len(),
            forall|i: int|
                0 <= i < self.vertices().len() ==> #[trigger] out.vertices()[i] == placed(
                    model_transform,
                    view,
                    proj,
                    self.vertices()[i],
                ),
            self.wf() ==> out.wf(),
    {
        let verts = verts_slice(&self.verts);
        let faces = faces_slice(&self.faces);
        let mut out = Model { verts: verts_new(), faces: faces_new() };
        let mut i: usize = 0;
        while i < verts.len()
            invariant
                i <= verts.len(),
                verts@ == self.vertices(),
                verts@.len() <= 256,
                out.vertices().len() == i,
                out.triangles().len() == 0,
                forall|j: int|
                    0 <= j < i ==> #[trigger] out.vertices()[j] == placed(
                        model_transform,
                        view,
                        proj,
                        self.vertices()[j],
                    ),
            decreases verts.len() - i,
        {
            let v = verts[i];
            let p = proj.mul_vec(view.mul_vec(model_transform.mul_vec(v.pos)));
            let q = if p.w.raw != 0 {
                p.perspective_division()
            } else {
                p.to_vec3()
            };
            let _ = verts_push(
                &mut out.verts,
                Vertex {
                    pos: Vec4::<Fixed>::of(q, Fixed::one()),
                    tex_coords: v.tex_coords,
                    normal: v.normal,
                },
            );
            i = i + 1;
        }
        let mut k: usize = 0;
        while k < faces.len()
            invariant
                k <= faces.len(),
                faces@ == self.triangles(),
                faces@.len() <= 512,
                out.triangles() == faces@.take(k as int),
                out.vertices().len() == self.vertices().len(),
                forall|j: int|
                    0 <= j < self.vertices().len() ==> #[trigger] out.vertices()[j] == placed(
                        model_transform,
                        view,
                        proj,
                        self.vertices()[j],
                    ),
            decreases faces.len() - k,
        {
            let _ = faces_push(&mut out.faces, faces[k]);
            k = k + 1;
        }
        out
    }
}

/// `n` as a 32-bit number, or the largest one where it does not fit.
pub open spec fn clamped(n: int) -> int {
    if n > i32::MAX {
        i32::MAX as int
    } else {
        n
    }
}

/// The coordinate of column `i` of `n`.
fn ndc_of(i: usize, n: usize) -> (out: Fixed)
    requires
        i < n,
    ensures
        out == ndc(i as int, n as int),
{
    let wide: i128 = (2 * (i as i128) - (n as i128)) * 65536;
    let q: i128 = wide / (n as i128);
    if q < i32::MIN as i128 {
        Fixed { raw: i32::MIN }
    } else if q > i32::MAX as i128 {
        Fixed { raw: i32::MAX }
    } else {
        Fixed { raw: q as i32 }
    }
}

fn clamp_size(n: usize) -> (out: i32)
    ensures
        out == clamped(n as int),
{
    if n > 0x7fff_ffff {
        0x7fff_ffff
    } else {
        n as i32
    }
}

impl<const W: usize, const H: usize> Camera<W, H> {
    /// The width of the raster over its height.
    pub open spec fn aspect() -> Fixed {
        Fixed::ratio(clamped(W as int), clamped(H as int))
    }

    /// What `perspective` answers.
    pub open spec fn perspective_spec(
        focal: Fixed,
        pos: Vec3<Fixed>,
        dir: Vec3<Fixed>,
        near: Fixed,
        far: Fixed,
    ) -> Result<Mat4<Fixed>, CameraError> {
        if W == 0 || H == 0 {
            Err(CameraError::ZeroAspect)
        } else {
            projection_spec(near, far, focal, Self::aspect())
        }
    }

    /// The test pattern: pixel `(x, y)` stands at `y * W + x`.
    pub open spec fn test_pattern() -> Seq<Vec3<u8>> {
        Seq::new(
            (W * H) as nat,
            |i: int| gradient(i % (W as int), i / (W as int), W as int, H as int),
        )
    }

    /// Renders the test pattern into a frame buffer: red rises along the
    /// columns and green along the rows. Of a raster with more pixels than
    /// a frame holds, the frame gets the first that it holds.
    pub fn render_test(&self) -> (fb: FrameBuffer<W, H>)
        ensures
            fb.pixels() == Self::test_pattern().take(FrameBuffer::<W, H>::room()),
            W * H <= GRID_CAPACITY ==> fb.pixels() == Self::test_pattern() && fb.complete(),
    {
        let mut fb: FrameBuffer<W, H> = FrameBuffer::new();
        assert(0 <= W * H) by (nonlinear_arith)
            requires
                0 <= W,
                0 <= H,
        ;
        let ghost full = Self::test_pattern();
        if W == 0 {
            assert(W * H == 0) by (nonlinear_arith)
                requires
                    W == 0,
            ;
            proof {
                lemma_prefix(fb.pixels(), full, 0);
            }
            return fb;
        }
        let mut y: usize = 0;
        assert(0 * W == 0);
        while y < H
            invariant
                W > 0,
                y <= H,
                fb.pixels().len() == y * W,
                fb.pixels().len() <= GRID_CAPACITY,
                full == Self::test_pattern(),
                fb.pixels().len() <= W * H,
                forall|i: int| 0 <= i < fb.pixels().len() ==> #[trigger] fb.pixels()[i] == full[i],
            decreases H - y,
        {
            let mut x: usize = 0;
            while x < W
                invariant
                    W > 0,
                    y < H,
                    x <= W,
                    fb.pixels().len() == y * W + x,
                    fb.pixels().len() <= GRID_CAPACITY,
                    full == Self::test_pattern(),
                    fb.pixels().len() <= W * H,
                    forall|i: int|
                        0 <= i < fb.pixels().len() ==> #[trigger] fb.pixels()[i] == full[i],
                decreases W - x,
            {
                assert(y * W + x + 1 <= W * H) by (nonlinear_arith)
                    requires
                        0 <= x < W,
                        0 <= y < H,
                ;
                proof {
                    vstd::arithmetic::div_mod::lemma_fundamental_div_mod_converse(
                        y * W + x,
                        W as int,
                        y as int,
                        x as int,
                    );
                }
                let red: u128 = ((x as u128) * 255) / (W as u128);
                let green: u128 = ((y as u128) * 255) / (H as u128);
                assert(red < 255 && green < 255) by (nonlinear_arith)
                    requires
                        red == (x * 255) / (W as int),
                        green == (y * 255) / (H as int),
                        0 <= x < W,
                        0 <= y < H,
                ;
                if !fb.push(Vec3 { x: red as u8, y: green as u8, z: 0 }) {
                    proof {
                        lemma_prefix(fb.pixels(), full, GRID_CAPACITY as int);
                    }
                    return fb;
                }
                x = x + 1;
            }
            assert((y + 1) * W == y * W + W && (y + 1) * W <= W * H) by (nonlinear_arith)
                requires
                    0 <= y < H,
                    0 < W,
            ;
            y = y + 1;
        }
        assert(H * W == W * H) by (nonlinear_arith);
        proof {
            lemma_prefix(fb.pixels(), full, W * H);
        }
        fb
    }

    /// Creates a new perspective camera with the 16 by 16 checkerboard as
    /// its texture. `fov_h` is measured in degrees, and `focal` is the
    /// cotangent of half of it. A raster without rows or columns, and a
    /// depth range without extent, are refused.
    pub fn perspective(
        fov_h: Fixed,
        focal: Fixed,
        pos: Vec3<Fixed>,
        dir: Vec3<Fixed>,
        up: Vec3<Fixed>,
        near: Fixed,
        far: Fixed,
    ) -> (result: Result<Camera<W, H>, CameraError>)
        ensures
            result is Ok <==> Self::perspective_spec(focal, pos, dir, near, far) is Ok,
            result is Err ==> Err::<Mat4<Fixed>, CameraError>(result->Err_0)
                == Self::perspective_spec(focal, pos, dir, near, far),
            result is Ok ==> {
                let cam = result->Ok_0;
                &&& cam.texture.wf()
                &&& cam.pos == pos && cam.dir == dir && cam.up == up
                &&& cam.near == near && cam.far == far && cam.fov_y == fov_h
                &&& cam.view == view_matrix(pos, pos.plus(dir), up)
                &&& Ok::<Mat4<Fixed>, CameraError>(cam.proj) == Self::perspective_spec(
                    focal,
                    pos,
                    dir,
                    near,
                    far,
                )
                &&& forall|x: int, y: int|
                    0 <= x < 16 && 0 <= y < 16 ==> #[trigger] cam.texture.texel(x, y)
                        == crate::graphics::texture::checker(x, y)
            },
    {
        if W == 0 || H == 0 {
            return Err(CameraError::ZeroAspect);
        }
        let aspect = Fixed::from_ratio(clamp_size(W), clamp_size(H));
        match Self::projection(near, far, focal, aspect) {
            Err(e) => Err(e),
            Ok(proj) => {
                let view = Self::view(pos, pos.add(dir), up);
                Ok(
                    Camera {
                        pos,
                        dir,
                        up,
                        fov_y: fov_h,
                        near,
                        far,
                        proj,
                        view,
                        texture: Texture::<16, 16>::gen_checkerboard(),
                    },
                )
            },
        }
    }

    /// Creates a projection matrix. `focal` is the cotangent of half the
    /// vertical field of view.
    pub fn projection(near: Fixed, far: Fixed, focal: Fixed, aspect: Fixed) -> (result: Result<
        Mat4<Fixed>,
        CameraError,
    >)
        ensures
            result == projection_spec(near, far, focal, aspect),
    {
        let depth = near.sub(far);
        if depth.raw == 0 {
            return Err(CameraError::ZeroDepth);
        }
        if aspect.raw == 0 {
            return Err(CameraError::ZeroAspect);
        }
        let mut out = Mat4::<Fixed>::idt();
        out.v_00 = focal.div(aspect);
        out.v_11 = focal;
        out.v_22 = far.add(near).div(depth);
        out.v_23 = Fixed::from_ratio(2, 1).mul(far).mul(near).div(depth);
        out.v_32 = Fixed::one().neg();
        out.v_33 = Fixed::zero();
        Ok(out)
    }

    /// Creates a view matrix.
    pub fn view(eye: Vec3<Fixed>, target: Vec3<Fixed>, up: Vec3<Fixed>) -> (out: Mat4<Fixed>)
        ensures
            out == view_matrix(eye, target, up),
    {
        let mut forward = eye.sub(target);
        let _ = forward.nor();
        let mut right = Vec3::<Fixed>::cross(up, forward);
        let _ = right.nor();
        let new_up = Vec3::<Fixed>::cross(forward, right);
        let mut basis = Mat4::<Fixed>::idt();
        basis.v_00 = right.x;
        basis.v_01 = right.y;
        basis.v_02 = right.z;
        basis.v_10 = new_up.x;
        basis.v_11 = new_up.y;
        basis.v_12 = new_up.z;
        basis.v_20 = forward.x;
        basis.v_21 = forward.y;
        basis.v_22 = forward.z;
        basis.mul(Mat4::<Fixed>::translate(eye.neg()))
    }

    /// The frame that `render` gives: pixel `(x, y)` stands at `y * W + x`.
    pub open spec fn rendering(&self, object: &Model, model_transform: Mat4<Fixed>) -> Seq<
        Vec3<u8>,
    > {
        Seq::new(
            (W * H) as nat,
            |i: int|
                fragment(
                    object.triangles(),
                    object.vertices().map_values(
                        |v: Vertex| placed(model_transform, self.view, self.proj, v),
                    ),
                    self.texture,
                    i % (W as int),
                    i / (W as int),
                    W as int,
                    H as int,
                ),
        )
    }

    /// What the ray through pixel `(x, y)` meets in a placed model.
    pub fn cast(local: &Model, x: usize, y: usize) -> (out: Option<Vertex>)
        requires
            local.wf(),
            x < W,
            y < H,
        ensures
            out == last_hit(
                local.triangles(),
                local.vertices(),
                ray_origin(x as int, y as int, W as int, H as int),
                ray_direction(),
                local.triangles().len(),
            ),
    {
        let verts = verts_slice(&local.verts);
        let faces = faces_slice(&local.faces);
        let origin = Vec3 {
            x: ndc_of(x, W),
            y: ndc_of(y, H),
            z: Fixed::one().neg(),
        };
        let direction = Vec3 { x: Fixed::zero(), y: Fixed::zero(), z: Fixed::one() };
        let mut vertex: Option<Vertex> = None;
        let mut n: usize = 0;
        while n < faces.len()
            invariant
                n <= faces.len(),
                local.wf(),
                faces@ == local.triangles(),
                verts@ == local.vertices(),
                vertex == last_hit(faces@, verts@, origin, direction, n as nat),
            decreases faces.len() - n,
        {
            let face = &faces[n];
            let hit = face.ray_intersects_face(local, origin, direction);
            match hit {
                Some(p) => {
                    vertex = Some(
                        interpolate(
                            &verts[face.verts[0]],
                            &verts[face.verts[1]],
                            &verts[face.verts[2]],
                            p,
                        ),
                    );
                },
                None => {},
            }
            n = n + 1;
        }
        vertex
    }

    /// The colour of pixel `(x, y)` of a placed model: the shaded point that
    /// its ray meets, or black.
    pub fn colour_at(&self, local: &Model, x: usize, y: usize) -> (out: Vec3<u8>)
        requires
            local.wf(),
            x < W,
            y < H,
        ensures
            out == fragment(
                local.triangles(),
                local.vertices(),
                self.texture,
                x as int,
                y as int,
                W as int,
                H as int,
            ),
    {
        match Self::cast(local, x, y) {
            Some(vertex) => shade(&vertex, &self.texture),
            None => Vec3 { x: 0, y: 0, z: 0 },
        }
    }

    /// Renders the model into a frame buffer, pixel by pixel in raster
    /// order. Of a raster with more pixels than a frame holds, the frame
    /// gets the first that it holds.
    pub fn render(&self, object: &Model, model_transform: Mat4<Fixed>) -> (fb: FrameBuffer<W, H>)
        requires
            object.wf(),
        ensures
            fb.pixels() == self.rendering(object, model_transform).take(
                FrameBuffer::<W, H>::room(),
            ),
            W * H <= GRID_CAPACITY ==> fb.pixels() == self.rendering(object, model_transform)
                && fb.complete(),
    {
        let mut fb: FrameBuffer<W, H> = FrameBuffer::new();
        assert(0 <= W * H) by (nonlinear_arith)
            requires
                0 <= W,
                0 <= H,
        ;
        let ghost full = self.rendering(object, model_transform);
        if W == 0 {
            assert(W * H == 0) by (nonlinear_arith)
                requires
                    W == 0,
            ;
            proof {
                lemma_prefix(fb.pixels(), full, 0);
            }
            return fb;
        }
        let local = object.placed_by(model_transform, self.view, self.proj);
        assert(local.vertices() =~= object.vertices().map_values(
            |v: Vertex| placed(model_transform, self.view, self.proj, v),
        ));

        let mut y: usize = 0;
        assert(0 * W == 0);
        while y < H
            invariant
                W > 0,
                y <= H,
                local.wf(),
                fb.pixels().len() == y * W,
                fb.pixels().len() <= GRID_CAPACITY,
                full == self.rendering(object, model_transform),
                fb.pixels().len() <= W * H,
                forall|i: int|
                    0 <= i < W * H ==> #[trigger] full[i] == fragment(
                        local.triangles(),
                        local.vertices(),
                        self.texture,
                        i % (W as int),
                        i / (W as int),
                        W as int,
                        H as int,
                    ),
                forall|i: int| 0 <= i < fb.pixels().len() ==> #[trigger] fb.pixels()[i] == full[i],
            decreases H - y,
        {
            let mut x: usize = 0;
            while x < W
                invariant
                    W > 0,
                    y < H,
                    x <= W,
                    local.wf(),
                    fb.pixels().len() == y * W + x,
                    fb.pixels().len() <= GRID_CAPACITY,
                    full == self.rendering(object, model_transform),
                    fb.pixels().len() <= W * H,
                    forall|i: int|
                        0 <= i < W * H ==> #[trigger] full[i] == fragment(
                            local.triangles(),
                            local.vertices(),
                            self.texture,
                            i % (W as int),
                            i / (W as int),
                            W as int,
                            H as int,
                        ),
                    forall|i: int|
                        0 <= i < fb.pixels().len() ==> #[trigger] fb.pixels()[i] == full[i],
                decreases W - x,
            {
                assert(y * W + x + 1 <= W * H) by (nonlinear_arith)
                    requires
                        0 <= x < W,
                        0 <= y < H,
                ;
                proof {
                    vstd::arithmetic::div_mod::lemma_fundamental_div_mod_converse(
                        y * W + x,
                        W as int,
                        y as int,
                        x as int,
                    );
                }
                let fragment_colour: Vec3<u8> = self.colour_at(&local, x, y);
                if !fb.push(fragment_colour) {
                    proof {
                        lemma_prefix(fb.pixels(), full, GRID_CAPACITY as int);
                    }
                    return fb;
                }
                x = x + 1;
            }
            assert((y + 1) * W == y * W + W && (y + 1) * W <= W * H) by (nonlinear_arith)
                requires
                    0 <= y < H,
                    0 < W,
            ;
            y = y + 1;
        }
        assert(H * W == W * H) by (nonlinear_arith);
        proof {
            lemma_prefix(fb.pixels(), full, W * H);
        }
        fb
    }
}

} // verus!
