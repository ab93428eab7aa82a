//! Quaternions over fixed-point numbers.

use crate::math::Fixed;
use crate::types::vector::{length_of, Vec3, Vec4};
use vstd::prelude::*;

verus! {

/// Represents a quaternion.
#[derive(Debug, Copy, Clone, PartialEq, Eq, Structural)]
pub struct Quaternion {
    /// real part
    pub a: Fixed,
    /// imag x
    pub i: Fixed,
    /// imag y
    pub j: Fixed,
    /// imag z
    pub k: Fixed,
}

impl Quaternion {
    /// The four components as a vector: `i`, `j`, `k`, `a`.
    pub open spec fn components(self) -> Vec4<Fixed> {
        Vec4 { x: self.i, y: self.j, z: self.k, w: self.a }
    }

    pub open spec fn length(self) -> Fixed {
        length_of(self.components().squares())
    }

    /// Each component over the length. A quaternion of length zero has no
    /// direction: its components go over zero as `Fixed::over` has it.
    pub open spec fn normalised(self) -> Quaternion {
        Quaternion {
            a: self.a.over(self.length()),
            i: self.i.over(self.length()),
            j: self.j.over(self.length()),
            k: self.k.over(self.length()),
        }
    }

    /// The quaternion of the rotation about `axis` by the angle whose half
    /// has the sine `half_sin` and the cosine `half_cos`.
    pub fn of(axis: Vec3<Fixed>, half_sin: Fixed, half_cos: Fixed) -> (out: Quaternion)
        ensures
            out == (Quaternion {
                a: half_cos,
                i: half_sin.times(axis.x),
                j: half_sin.times(axis.y),
                k: half_sin.times(axis.z),
            }),
    {
        Quaternion {
            i: half_sin.mul(axis.x),
            j: half_sin.mul(axis.y),
            k: half_sin.mul(axis.z),
            a: half_cos,
        }
    }

    /// Normalises the quaternion to length 1.
    pub fn nor(&mut self) -> (out: Quaternion)
        ensures
            *final(self) == old(self).normalised(),
            out == *final(self),
    {
        let len = self.len();
        self.i = self.i.div(len);
        self.j = self.j.div(len);
        self.k = self.k.div(len);
        self.a = self.a.div(len);
        *self
    }

    pub fn len(&self) -> (out: Fixed)
        ensures
            out == self.length(),
    {
        let v = Vec4 { x: self.i, y: self.j, z: self.k, w: self.a };
        v.len()
    }
}

} // verus!
