//! 4x4 matrices over fixed-point numbers.

use crate::math::{narrow, trunc_div, wide_product, Fixed};
use crate::types::quat::Quaternion;
use crate::types::vector::{Vec3, Vec4};
use vstd::prelude::*;

verus! {

/// Represents a 4x4 matrix. `v_rc` is the entry in row `r` and column `c`.
#[derive(Debug, Copy, Clone, PartialEq, Eq, Structural)]
pub struct Mat4<T> {
    pub v_00: T,
    pub v_01: T,
    pub v_02: T,
    pub v_03: T,
    pub v_10: T,
    pub v_11: T,
    pub v_12: T,
    pub v_13: T,
    pub v_20: T,
    pub v_21: T,
    pub v_22: T,
    pub v_23: T,
    pub v_30: T,
    pub v_31: T,
    pub v_32: T,
    pub v_33: T,
}

/// The sum of four products, exact, rounded once.
pub open spec fn dot4_spec(
    a0: Fixed,
    a1: Fixed,
    a2: Fixed,
    a3: Fixed,
    b0: Fixed,
    b1: Fixed,
    b2: Fixed,
    b3: Fixed,
) -> Fixed {
    Fixed::of_raw(
        trunc_div(a0.raw * b0.raw + a1.raw * b1.raw + a2.raw * b2.raw + a3.raw * b3.raw, 65536),
    )
}

/// A product with 1 is the number itself, and a product with 0 is 0.
proof fn lemma_unit_products(a: int)
    ensures
        crate::math::trunc_div(65536 * a, 65536) == a,
        crate::math::trunc_div(a * 65536, 65536) == a,
        0 * a == 0,
        a * 0 == 0,
{
}

/// The identity matrix leaves every vector as it is.
pub proof fn lemma_identity_applied(v: Vec4<Fixed>)
    ensures
        Mat4::<Fixed>::identity().applied(v) == v,
{
    lemma_unit_products(v.x.raw as int);
    lemma_unit_products(v.y.raw as int);
    lemma_unit_products(v.z.raw as int);
    lemma_unit_products(v.w.raw as int);
}

fn dot4(
    a0: Fixed,
    a1: Fixed,
    a2: Fixed,
    a3: Fixed,
    b0: Fixed,
    b1: Fixed,
    b2: Fixed,
    b3: Fixed,
) -> (out: Fixed)
    ensures
        out == dot4_spec(a0, a1, a2, a3, b0, b1, b2, b3),
{
    narrow(
        wide_product(a0, b0) + wide_product(a1, b1) + wide_product(a2, b2) + wide_product(a3, b3),
    )
}

impl Mat4<Fixed> {
    /// The identity matrix.
    pub open spec fn identity() -> Mat4<Fixed> {
        Mat4 {
            v_00: Fixed { raw: 65536 },
            v_01: Fixed { raw: 0 },
            v_02: Fixed { raw: 0 },
            v_03: Fixed { raw: 0 },
            v_10: Fixed { raw: 0 },
            v_11: Fixed { raw: 65536 },
            v_12: Fixed { raw: 0 },
            v_13: Fixed { raw: 0 },
            v_20: Fixed { raw: 0 },
            v_21: Fixed { raw: 0 },
            v_22: Fixed { raw: 65536 },
            v_23: Fixed { raw: 0 },
            v_30: Fixed { raw: 0 },
            v_31: Fixed { raw: 0 },
            v_32: Fixed { raw: 0 },
            v_33: Fixed { raw: 65536 },
        }
    }

    /// The entry-wise sum.
    pub open spec fn plus(self, rhs: Mat4<Fixed>) -> Mat4<Fixed> {
        Mat4 {
            v_00: self.v_00.plus(rhs.v_00),
            v_01: self.v_01.plus(rhs.v_01),
            v_02: self.v_02.plus(rhs.v_02),
            v_03: self.v_03.plus(rhs.v_03),
            v_10: self.v_10.plus(rhs.v_10),
            v_11: self.v_11.plus(rhs.v_11),
            v_12: self.v_12.plus(rhs.v_12),
            v_13: self.v_13.plus(rhs.v_13),
            v_20: self.v_20.plus(rhs.v_20),
            v_21: self.v_21.plus(rhs.v_21),
            v_22: self.v_22.plus(rhs.v_22),
            v_23: self.v_23.plus(rhs.v_23),
            v_30: self.v_30.plus(rhs.v_30),
            v_31: self.v_31.plus(rhs.v_31),
            v_32: self.v_32.plus(rhs.v_32),
            v_33: self.v_33.plus(rhs.v_33),
        }
    }

    /// Every entry times `rhs`.
    pub open spec fn scaled(self, rhs: Fixed) -> Mat4<Fixed> {
        Mat4 {
            v_00: self.v_00.times(rhs),
            v_01: self.v_01.times(rhs),
            v_02: self.v_02.times(rhs),
            v_03: self.v_03.times(rhs),
            v_10: self.v_10.times(rhs),
            v_11: self.v_11.times(rhs),
            v_12: self.v_12.times(rhs),
            v_13: self.v_13.times(rhs),
            v_20: self.v_20.times(rhs),
            v_21: self.v_21.times(rhs),
            v_22: self.v_22.times(rhs),
            v_23: self.v_23.times(rhs),
            v_30: self.v_30.times(rhs),
            v_31: self.v_31.times(rhs),
            v_32: self.v_32.times(rhs),
            v_33: self.v_33.times(rhs),
        }
    }

    /// The matrix product `self * rhs`: each entry is a row of `self` times
    /// a column of `rhs`.
    pub open spec fn product(self, rhs: Mat4<Fixed>) -> Mat4<Fixed> {
        Mat4 {
            v_00: dot4_spec(
                self.v_00, self.v_01, self.v_02, self.v_03,
                rhs.v_00, rhs.v_10, rhs.v_20, rhs.v_30,
            ),
            v_01: dot4_spec(
                self.v_00, self.v_01, self.v_02, self.v_03,
                rhs.v_01, rhs.v_11, rhs.v_21, rhs.v_31,
            ),
            v_02: dot4_spec(
                self.v_00, self.v_01, self.v_02, self.v_03,
                rhs.v_02, rhs.v_12, rhs.v_22, rhs.v_32,
            ),
            v_03: dot4_spec(
                self.v_00, self.v_01, self.v_02, self.v_03,
                rhs.v_03, rhs.v_13, rhs.v_23, rhs.v_33,
            ),
            v_10: dot4_spec(
                self.v_10, self.v_11, self.v_12, self.v_13,
                rhs.v_00, rhs.v_10, rhs.v_20, rhs.v_30,
            ),
            v_11: dot4_spec(
                self.v_10, self.v_11, self.v_12, self.v_13,
                rhs.v_01, rhs.v_11, rhs.v_21, rhs.v_31,
            ),
            v_12: dot4_spec(
                self.v_10, self.v_11, self.v_12, self.v_13,
                rhs.v_02, rhs.v_12, rhs.v_22, rhs.v_32,
            ),
            v_13: dot4_spec(
                self.v_10, self.v_11, self.v_12, self.v_13,
                rhs.v_03, rhs.v_13, rhs.v_23, rhs.v_33,
            ),
            v_20: dot4_spec(
                self.v_20, self.v_21, self.v_22, self.v_23,
                rhs.v_00, rhs.v_10, rhs.v_20, rhs.v_30,
            ),
            v_21: dot4_spec(
                self.v_20, self.v_21, self.v_22, self.v_23,
                rhs.v_01, rhs.v_11, rhs.v_21, rhs.v_31,
            ),
            v_22: dot4_spec(
                self.v_20, self.v_21, self.v_22, self.v_23,
                rhs.v_02, rhs.v_12, rhs.v_22, rhs.v_32,
            ),
            v_23: dot4_spec(
                self.v_20, self.v_21, self.v_22, self.v_23,
                rhs.v_03, rhs.v_13, rhs.v_23, rhs.v_33,
            ),
            v_30: dot4_spec(
                self.v_30, self.v_31, self.v_32, self.v_33,
                rhs.v_00, rhs.v_10, rhs.v_20, rhs.v_30,
            ),
            v_31: dot4_spec(
                self.v_30, self.v_31, self.v_32, self.v_33,
                rhs.v_01, rhs.v_11, rhs.v_21, rhs.v_31,
            ),
            v_32: dot4_spec(
                self.v_30, self.v_31, self.v_32, self.v_33,
                rhs.v_02, rhs.v_12, rhs.v_22, rhs.v_32,
            ),
            v_33: dot4_spec(
                self.v_30, self.v_31, self.v_32, self.v_33,
                rhs.v_03, rhs.v_13, rhs.v_23, rhs.v_33,
            ),
        }
    }

    /// The matrix applied to a vector: each component is a row of `self`
    /// times `rhs`.
    pub open spec fn applied(self, rhs: Vec4<Fixed>) -> Vec4<Fixed> {
        Vec4 {
            x: dot4_spec(
                self.v_00, self.v_01, self.v_02, self.v_03,
                rhs.x, rhs.y, rhs.z, rhs.w,
            ),
            y: dot4_spec(
                self.v_10, self.v_11, self.v_12, self.v_13,
                rhs.x, rhs.y, rhs.z, rhs.w,
            ),
            z: dot4_spec(
                self.v_20, self.v_21, self.v_22, self.v_23,
                rhs.x, rhs.y, rhs.z, rhs.w,
            ),
            w: dot4_spec(
                self.v_30, self.v_31, self.v_32, self.v_33,
                rhs.x, rhs.y, rhs.z, rhs.w,
            ),
        }
    }

    /// The matrix that moves a point by `vec`.
    pub open spec fn translation(vec: Vec3<Fixed>) -> Mat4<Fixed> {
        Mat4 { v_03: vec.x, v_13: vec.y, v_23: vec.z, ..Self::identity() }
    }

    /// The matrix that scales the three axes by `scl`.
    pub open spec fn scaling(scl: Fixed) -> Mat4<Fixed> {
        Mat4 { v_00: scl, v_11: scl, v_22: scl, ..Self::identity() }
    }

    /// Twice the difference of two products of quaternion components.
    pub open spec fn twice_diff(a: Fixed, b: Fixed, c: Fixed, d: Fixed) -> Fixed {
        Fixed::of_raw(trunc_div(2 * (a.raw * b.raw - c.raw * d.raw), 65536))
    }

    /// Twice the sum of two products of quaternion components.
    pub open spec fn twice_sum(a: Fixed, b: Fixed, c: Fixed, d: Fixed) -> Fixed {
        Fixed::of_raw(trunc_div(2 * (a.raw * b.raw + c.raw * d.raw), 65536))
    }

    /// One less twice the sum of two squares of quaternion components.
    pub open spec fn one_less_twice(a: Fixed, b: Fixed) -> Fixed {
        Fixed::one_spec().minus(Self::twice_sum(a, a, b, b))
    }

    /// The rotation matrix of the normalised quaternion `q`.
    pub open spec fn rotation_of(q: Quaternion) -> Mat4<Fixed> {
        Mat4 {
            v_00: Self::one_less_twice(q.j, q.k),
            v_01: Self::twice_diff(q.i, q.j, q.k, q.a),
            v_02: Self::twice_sum(q.i, q.k, q.j, q.a),
            v_10: Self::twice_sum(q.i, q.j, q.k, q.a),
            v_11: Self::one_less_twice(q.i, q.k),
            v_12: Self::twice_diff(q.j, q.k, q.i, q.a),
            v_20: Self::twice_diff(q.i, q.k, q.j, q.a),
            v_21: Self::twice_sum(q.j, q.k, q.i, q.a),
            v_22: Self::one_less_twice(q.i, q.j),
            ..Self::identity()
        }
    }

    /// The rotation matrix of the quaternion `quat`, which is normalised
    /// first.
    pub open spec fn rotation(quat: Quaternion) -> Mat4<Fixed> {
        Self::rotation_of(quat.normalised())
    }

    /// Translation after rotation after scaling.
    pub open spec fn transformation(trn: Vec3<Fixed>, rot: Quaternion, scl: Fixed) -> Mat4<Fixed> {
        Self::translation(trn).product(Self::rotation(rot)).product(Self::scaling(scl))
    }

    pub fn add(self, rhs: Mat4<Fixed>) -> (out: Mat4<Fixed>)
        ensures
            out == self.plus(rhs),
    {
        Mat4 {
            v_00: self.v_00.add(rhs.v_00),
            v_01: self.v_01.add(rhs.v_01),
            v_02: self.v_02.add(rhs.v_02),
            v_03: self.v_03.add(rhs.v_03),
            v_10: self.v_10.add(rhs.v_10),
            v_11: self.v_11.add(rhs.v_11),
            v_12: self.v_12.add(rhs.v_12),
            v_13: self.v_13.add(rhs.v_13),
            v_20: self.v_20.add(rhs.v_20),
            v_21: self.v_21.add(rhs.v_21),
            v_22: self.v_22.add(rhs.v_22),
            v_23: self.v_23.add(rhs.v_23),
            v_30: self.v_30.add(rhs.v_30),
            v_31: self.v_31.add(rhs.v_31),
            v_32: self.v_32.add(rhs.v_32),
            v_33: self.v_33.add(rhs.v_33),
        }
    }

    pub fn add_assign(&mut self, rhs: Mat4<Fixed>)
        ensures
            *final(self) == old(self).plus(rhs),
    {
        *self = self.add(rhs);
    }

    /// The matrix product `self * rhs`.
    pub fn mul(self, rhs: Mat4<Fixed>) -> (out: Mat4<Fixed>)
        ensures
            out == self.product(rhs),
    {
        Mat4 {
            v_00: dot4(
                self.v_00, self.v_01, self.v_02, self.v_03,
                rhs.v_00, rhs.v_10, rhs.v_20, rhs.v_30,
            ),
            v_01: dot4(
                self.v_00, self.v_01, self.v_02, self.v_03,
                rhs.v_01, rhs.v_11, rhs.v_21, rhs.v_31,
            ),
            v_02: dot4(
                self.v_00, self.v_01, self.v_02, self.v_03,
                rhs.v_02, rhs.v_12, rhs.v_22, rhs.v_32,
            ),
            v_03: dot4(
                self.v_00, self.v_01, self.v_02, self.v_03,
                rhs.v_03, rhs.v_13, rhs.v_23, rhs.v_33,
            ),
            v_10: dot4(
                self.v_10, self.v_11, self.v_12, self.v_13,
                rhs.v_00, rhs.v_10, rhs.v_20, rhs.v_30,
            ),
            v_11: dot4(
                self.v_10, self.v_11, self.v_12, self.v_13,
                rhs.v_01, rhs.v_11, rhs.v_21, rhs.v_31,
            ),
            v_12: dot4(
                self.v_10, self.v_11, self.v_12, self.v_13,
                rhs.v_02, rhs.v_12, rhs.v_22, rhs.v_32,
            ),
            v_13: dot4(
                self.v_10, self.v_11, self.v_12, self.v_13,
                rhs.v_03, rhs.v_13, rhs.v_23, rhs.v_33,
            ),
            v_20: dot4(
                self.v_20, self.v_21, self.v_22, self.v_23,
                rhs.v_00, rhs.v_10, rhs.v_20, rhs.v_30,
            ),
            v_21: dot4(
                self.v_20, self.v_21, self.v_22, self.v_23,
                rhs.v_01, rhs.v_11, rhs.v_21, rhs.v_31,
            ),
            v_22: dot4(
                self.v_20, self.v_21, self.v_22, self.v_23,
                rhs.v_02, rhs.v_12, rhs.v_22, rhs.v_32,
            ),
            v_23: dot4(
                self.v_20, self.v_21, self.v_22, self.v_23,
                rhs.v_03, rhs.v_13, rhs.v_23, rhs.v_33,
            ),
            v_30: dot4(
                self.v_30, self.v_31, self.v_32, self.v_33,
                rhs.v_00, rhs.v_10, rhs.v_20, rhs.v_30,
            ),
            v_31: dot4(
                self.v_30, self.v_31, self.v_32, self.v_33,
                rhs.v_01, rhs.v_11, rhs.v_21, rhs.v_31,
            ),
            v_32: dot4(
                self.v_30, self.v_31, self.v_32, self.v_33,
                rhs.v_02, rhs.v_12, rhs.v_22, rhs.v_32,
            ),
            v_33: dot4(
                self.v_30, self.v_31, self.v_32, self.v_33,
                rhs.v_03, rhs.v_13, rhs.v_23, rhs.v_33,
            ),
        }
    }

    /// Applies the matrix to a vector.
    pub fn mul_vec(self, rhs: Vec4<Fixed>) -> (out: Vec4<Fixed>)
        ensures
            out == self.applied(rhs),
    {
        Vec4 {
            x: dot4(
                self.v_00, self.v_01, self.v_02, self.v_03,
                rhs.x, rhs.y, rhs.z, rhs.w,
            ),
            y: dot4(
                self.v_10, self.v_11, self.v_12, self.v_13,
                rhs.x, rhs.y, rhs.z, rhs.w,
            ),
            z: dot4(
                self.v_20, self.v_21, self.v_22, self.v_23,
                rhs.x, rhs.y, rhs.z, rhs.w,
            ),
            w: dot4(
                self.v_30, self.v_31, self.v_32, self.v_33,
                rhs.x, rhs.y, rhs.z, rhs.w,
            ),
        }
    }

    /// Multiplies every entry by `rhs`.
    pub fn mul_scalar(self, rhs: Fixed) -> (out: Mat4<Fixed>)
        ensures
            out == self.scaled(rhs),
    {
        Mat4 {
            v_00: self.v_00.mul(rhs),
            v_01: self.v_01.mul(rhs),
            v_02: self.v_02.mul(rhs),
            v_03: self.v_03.mul(rhs),
            v_10: self.v_10.mul(rhs),
            v_11: self.v_11.mul(rhs),
            v_12: self.v_12.mul(rhs),
            v_13: self.v_13.mul(rhs),
            v_20: self.v_20.mul(rhs),
            v_21: self.v_21.mul(rhs),
            v_22: self.v_22.mul(rhs),
            v_23: self.v_23.mul(rhs),
            v_30: self.v_30.mul(rhs),
            v_31: self.v_31.mul(rhs),
            v_32: self.v_32.mul(rhs),
            v_33: self.v_33.mul(rhs),
        }
    }

    /// Replaces the matrix by its product with `rhs`.
    pub fn mul_assign(&mut self, rhs: Mat4<Fixed>)
        ensures
            *final(self) == old(self).product(rhs),
    {
        *self = self.mul(rhs);
    }

    /// Returns a new 4x4 identity matrix.
    pub fn idt() -> (out: Mat4<Fixed>)
        ensures
            out == Mat4::<Fixed>::identity(),
    {
        let one = Fixed::one();
        let zero = Fixed::zero();
        Mat4 {
            v_00: one,
            v_01: zero,
            v_02: zero,
            v_03: zero,
            v_10: zero,
            v_11: one,
            v_12: zero,
            v_13: zero,
            v_20: zero,
            v_21: zero,
            v_22: one,
            v_23: zero,
            v_30: zero,
            v_31: zero,
            v_32: zero,
            v_33: one,
        }
    }

    /// Creates a transformation matrix.
    pub fn transform(trn: Vec3<Fixed>, rot: Quaternion, scl: Fixed) -> (out: Mat4<Fixed>)
        ensures
            out == Mat4::<Fixed>::transformation(trn, rot, scl),
    {
        Self::translate(trn).mul(Self::rotate(rot)).mul(Self::scale(scl))
    }

    /// Creates a translation matrix.
    pub fn translate(vec: Vec3<Fixed>) -> (out: Mat4<Fixed>)
        ensures
            out == Mat4::<Fixed>::translation(vec),
    {
        let mut out = Self::idt();
        out.v_03 = vec.x;
        out.v_13 = vec.y;
        out.v_23 = vec.z;
        out
    }

    fn twice(a: Fixed, b: Fixed, c: Fixed, d: Fixed, sum: bool) -> (out: Fixed)
        ensures
            sum ==> out == Self::twice_sum(a, b, c, d),
            !sum ==> out == Self::twice_diff(a, b, c, d),
    {
        let p: i128 = wide_product(a, b);
        let q: i128 = wide_product(c, d);
        if sum {
            narrow(2 * (p + q))
        } else {
            narrow(2 * (p - q))
        }
    }

    /// Creates a rotation matrix.
    pub fn rotate(quat: Quaternion) -> (out: Mat4<Fixed>)
        ensures
            out == Mat4::<Fixed>::rotation(quat),
    {
        let mut q = quat;
        let _ = q.nor();
        let one = Fixed::one();
        let mut out = Self::idt();
        out.v_00 = one.sub(Self::twice(q.j, q.j, q.k, q.k, true));
        out.v_01 = Self::twice(q.i, q.j, q.k, q.a, false);
        out.v_02 = Self::twice(q.i, q.k, q.j, q.a, true);
        out.v_10 = Self::twice(q.i, q.j, q.k, q.a, true);
        out.v_11 = one.sub(Self::twice(q.i, q.i, q.k, q.k, true));
        out.v_12 = Self::twice(q.j, q.k, q.i, q.a, false);
        out.v_20 = Self::twice(q.i, q.k, q.j, q.a, false);
        out.v_21 = Self::twice(q.j, q.k, q.i, q.a, true);
        out.v_22 = one.sub(Self::twice(q.i, q.i, q.j, q.j, true));
        out
    }

    /// Creates a uniform scaling matrix.
    pub fn scale(scl: Fixed) -> (out: Mat4<Fixed>)
        ensures
            out == Mat4::<Fixed>::scaling(scl),
    {
        let mut out = Self::idt();
        out.v_00 = scl;
        out.v_11 = scl;
        out.v_22 = scl;
        out
    }
}

} // verus!
