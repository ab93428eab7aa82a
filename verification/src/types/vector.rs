//! Vectors of two, three and four components, and their arithmetic over
//! fixed-point numbers.

use crate::math::{int_sqrt, is_root, narrow, trunc_div, wide_product, wide_sqrt, Fixed};
use vstd::prelude::*;

verus! {

/// Represents a 2D vector.
#[derive(Debug, Copy, Clone, PartialEq, Eq, Structural)]
pub struct Vec2<T> {
    pub x: T,
    pub y: T,
}

/// Represents a 3D vector. With `u8` components it is a 24-bit colour:
/// red, green, blue.
#[derive(Debug, Copy, Clone, PartialEq, Eq, Structural)]
pub struct Vec3<T> {
    pub x: T,
    pub y: T,
    pub z: T,
}

/// Represents a 4D vector. Frequently used for homogeneous coordinates.
#[derive(Debug, Copy, Clone, PartialEq, Eq, Structural)]
pub struct Vec4<T> {
    pub x: T,
    pub y: T,
    pub z: T,
    pub w: T,
}

/// The length that belongs to a sum of squared raw components: its square
/// root, rounded down, saturated.
pub open spec fn length_of(squares: int) -> Fixed {
    Fixed::of_raw(int_sqrt(squares))
}

fn length_from(squares: u128) -> (out: Fixed)
    requires
        squares <= 0x1_0000_0000_0000_0000,
    ensures
        out == length_of(squares as int),
        out.raw >= 0,
        squares > 0 ==> out.raw > 0,
        is_root(int_sqrt(squares as int), squares as int),
{
    let r: u64 = wide_sqrt(squares);
    assert(r == 0 ==> (r + 1) * (r + 1) == 1) by (nonlinear_arith);
    if r > i32::MAX as u64 {
        Fixed { raw: i32::MAX }
    } else {
        Fixed { raw: r as i32 }
    }
}

fn square(a: Fixed) -> (p: u128)
    ensures
        p == a.raw * a.raw,
        p <= 0x4000_0000_0000_0000,
{
    let p: i128 = wide_product(a, a);
    assert(a.raw * a.raw >= 0) by (nonlinear_arith);
    p as u128
}

impl Vec2<Fixed> {
    pub open spec fn plus(self, rhs: Vec2<Fixed>) -> Vec2<Fixed> {
        Vec2 { x: self.x.plus(rhs.x), y: self.y.plus(rhs.y) }
    }

    pub open spec fn times(self, rhs: Fixed) -> Vec2<Fixed> {
        Vec2 { x: self.x.times(rhs), y: self.y.times(rhs) }
    }

    /// The dot product: the exact sum of the products, rounded once.
    pub open spec fn dot_spec(v1: Vec2<Fixed>, v2: Vec2<Fixed>) -> Fixed {
        Fixed::of_raw(trunc_div(v1.x.raw * v2.x.raw + v1.y.raw * v2.y.raw, 65536))
    }

    pub open spec fn squares(self) -> int {
        self.x.raw * self.x.raw + self.y.raw * self.y.raw
    }

    pub open spec fn is_zero(self) -> bool {
        self.x.raw == 0 && self.y.raw == 0
    }

    pub open spec fn length(self) -> Fixed {
        length_of(self.squares())
    }

    /// The vector scaled to length 1; the zero vector stays as it is.
    pub open spec fn normalised(self) -> Vec2<Fixed> {
        if self.is_zero() {
            self
        } else {
            Vec2 { x: self.x.over(self.length()), y: self.y.over(self.length()) }
        }
    }

    pub fn add(self, rhs: Vec2<Fixed>) -> (out: Vec2<Fixed>)
        ensures
            out == self.plus(rhs),
    {
        Vec2 { x: self.x.add(rhs.x), y: self.y.add(rhs.y) }
    }

    pub fn add_assign(&mut self, rhs: Vec2<Fixed>)
        ensures
            *final(self) == old(self).plus(rhs),
    {
        self.x = self.x.add(rhs.x);
        self.y = self.y.add(rhs.y);
    }

    pub fn mul(self, rhs: Fixed) -> (out: Vec2<Fixed>)
        ensures
            out == self.times(rhs),
    {
        Vec2 { x: self.x.mul(rhs), y: self.y.mul(rhs) }
    }

    pub fn mul_assign(&mut self, rhs: Fixed)
        ensures
            *final(self) == old(self).times(rhs),
    {
        self.x = self.x.mul(rhs);
        self.y = self.y.mul(rhs);
    }

    /// Computes the dot/inner/scalar product of the two vectors provided.
    pub fn dot(v1: Vec2<Fixed>, v2: Vec2<Fixed>) -> (out: Fixed)
        ensures
            out == Vec2::<Fixed>::dot_spec(v1, v2),
    {
        narrow(wide_product(v1.x, v2.x) + wide_product(v1.y, v2.y))
    }

    /// Calculates the length of this vector.
    pub fn len(&self) -> (out: Fixed)
        ensures
            out == self.length(),
            out.raw >= 0,
            !self.is_zero() ==> out.raw > 0,
    {
        proof {
            lemma_square_zero(self.x.raw as int);
            lemma_square_zero(self.y.raw as int);
        }
        length_from(square(self.x) + square(self.y))
    }

    /// Normalises this vector, and returns it for chaining.
    pub fn nor(&mut self) -> (out: Vec2<Fixed>)
        ensures
            *final(self) == old(self).normalised(),
            out == *final(self),
    {
        if self.x.raw == 0 && self.y.raw == 0 {
            return *self;
        }
        let len = self.len();
        self.x = self.x.div(len);
        self.y = self.y.div(len);
        *self
    }
}

impl Vec3<u8> {
    /// Each channel as a number from 0 to 1: `c / 255`.
    pub open spec fn unit_colour(self) -> Vec3<Fixed> {
        Vec3 {
            x: Fixed::ratio(self.x as int, 255),
            y: Fixed::ratio(self.y as int, 255),
            z: Fixed::ratio(self.z as int, 255),
        }
    }

    /// The channel-wise sum.
    pub fn add(self, rhs: Vec3<u8>) -> (out: Vec3<u8>)
        requires
            self.x + rhs.x <= 255,
            self.y + rhs.y <= 255,
            self.z + rhs.z <= 255,
        ensures
            out.x == self.x + rhs.x,
            out.y == self.y + rhs.y,
            out.z == self.z + rhs.z,
    {
        Vec3 { x: self.x + rhs.x, y: self.y + rhs.y, z: self.z + rhs.z }
    }

    /// Converts from 8-bit colour to colour with channels from 0 to 1.
    pub fn to_float_colour(&self) -> (out: Vec3<Fixed>)
        ensures
            out == self.unit_colour(),
    {
        Vec3 {
            x: Fixed::from_channel(self.x),
            y: Fixed::from_channel(self.y),
            z: Fixed::from_channel(self.z),
        }
    }
}

impl Vec3<Fixed> {
    pub open spec fn plus(self, rhs: Vec3<Fixed>) -> Vec3<Fixed> {
        Vec3 { x: self.x.plus(rhs.x), y: self.y.plus(rhs.y), z: self.z.plus(rhs.z) }
    }

    pub open spec fn minus(self, rhs: Vec3<Fixed>) -> Vec3<Fixed> {
        Vec3 { x: self.x.minus(rhs.x), y: self.y.minus(rhs.y), z: self.z.minus(rhs.z) }
    }

    pub open spec fn times(self, rhs: Fixed) -> Vec3<Fixed> {
        Vec3 { x: self.x.times(rhs), y: self.y.times(rhs), z: self.z.times(rhs) }
    }

    /// The component-wise product.
    pub open spec fn times_each(self, rhs: Vec3<Fixed>) -> Vec3<Fixed> {
        Vec3 { x: self.x.times(rhs.x), y: self.y.times(rhs.y), z: self.z.times(rhs.z) }
    }

    pub open spec fn negated(self) -> Vec3<Fixed> {
        Vec3 { x: self.x.negated(), y: self.y.negated(), z: self.z.negated() }
    }

    /// The dot product: the exact sum of the products, rounded once.
    pub open spec fn dot_spec(v1: Vec3<Fixed>, v2: Vec3<Fixed>) -> Fixed {
        Fixed::of_raw(
            trunc_div(v1.x.raw * v2.x.raw + v1.y.raw * v2.y.raw + v1.z.raw * v2.z.raw, 65536),
        )
    }

    /// The cross product, right-handed: each component an exact difference
    /// of two products, rounded once.
    pub open spec fn cross_spec(v1: Vec3<Fixed>, v2: Vec3<Fixed>) -> Vec3<Fixed> {
        Vec3 {
            x: Fixed::of_raw(trunc_div(v1.y.raw * v2.z.raw - v1.z.raw * v2.y.raw, 65536)),
            y: Fixed::of_raw(trunc_div(v1.z.raw * v2.x.raw - v1.x.raw * v2.z.raw, 65536)),
            z: Fixed::of_raw(trunc_div(v1.x.raw * v2.y.raw - v1.y.raw * v2.x.raw, 65536)),
        }
    }

    /// The projection of `v1` onto `v2`.
    pub open spec fn proj_spec(v1: Vec3<Fixed>, v2: Vec3<Fixed>) -> Vec3<Fixed> {
        v2.times(Self::dot_spec(v1, v2).over(Self::dot_spec(v2, v2)))
    }

    /// The colour with each channel scaled to `0..=255`.
    pub open spec fn colour(self) -> Vec3<u8> {
        Vec3 { x: self.x.channel(), y: self.y.channel(), z: self.z.channel() }
    }

    pub open spec fn squares(self) -> int {
        self.x.raw * self.x.raw + self.y.raw * self.y.raw + self.z.raw * self.z.raw
    }

    pub open spec fn is_zero(self) -> bool {
        self.x.raw == 0 && self.y.raw == 0 && self.z.raw == 0
    }

    pub open spec fn length(self) -> Fixed {
        length_of(self.squares())
    }

    /// The vector scaled to length 1; the zero vector stays as it is.
    pub open spec fn normalised(self) -> Vec3<Fixed> {
        if self.is_zero() {
            self
        } else {
            Vec3 {
                x: self.x.over(self.length()),
                y: self.y.over(self.length()),
                z: self.z.over(self.length()),
            }
        }
    }

    pub fn add(self, rhs: Vec3<Fixed>) -> (out: Vec3<Fixed>)
        ensures
            out == self.plus(rhs),
    {
        Vec3 { x: self.x.add(rhs.x), y: self.y.add(rhs.y), z: self.z.add(rhs.z) }
    }

    pub fn add_assign(&mut self, rhs: Vec3<Fixed>)
        ensures
            *final(self) == old(self).plus(rhs),
    {
        self.x = self.x.add(rhs.x);
        self.y = self.y.add(rhs.y);
        self.z = self.z.add(rhs.z);
    }

    pub fn sub(self, rhs: Vec3<Fixed>) -> (out: Vec3<Fixed>)
        ensures
            out == self.minus(rhs),
    {
        Vec3 { x: self.x.sub(rhs.x), y: self.y.sub(rhs.y), z: self.z.sub(rhs.z) }
    }

    pub fn mul(self, rhs: Fixed) -> (out: Vec3<Fixed>)
        ensures
            out == self.times(rhs),
    {
        Vec3 { x: self.x.mul(rhs), y: self.y.mul(rhs), z: self.z.mul(rhs) }
    }

    /// Componentwise.
    pub fn mul_each(self, rhs: Vec3<Fixed>) -> (out: Vec3<Fixed>)
        ensures
            out == self.times_each(rhs),
    {
        Vec3 { x: self.x.mul(rhs.x), y: self.y.mul(rhs.y), z: self.z.mul(rhs.z) }
    }

    pub fn mul_assign(&mut self, rhs: Fixed)
        ensures
            *final(self) == old(self).times(rhs),
    {
        self.x = self.x.mul(rhs);
        self.y = self.y.mul(rhs);
        self.z = self.z.mul(rhs);
    }

    pub fn neg(self) -> (out: Vec3<Fixed>)
        ensures
            out == self.negated(),
    {
        Vec3 { x: self.x.neg(), y: self.y.neg(), z: self.z.neg() }
    }

    /// Computes the dot/inner/scalar product of the two vectors provided.
    pub fn dot(v1: Vec3<Fixed>, v2: Vec3<Fixed>) -> (out: Fixed)
        ensures
            out == Vec3::<Fixed>::dot_spec(v1, v2),
    {
        narrow(wide_product(v1.x, v2.x) + wide_product(v1.y, v2.y) + wide_product(v1.z, v2.z))
    }

    /// Computes the cross/vector product of the two vectors provided.
    pub fn cross(v1: Vec3<Fixed>, v2: Vec3<Fixed>) -> (out: Vec3<Fixed>)
        ensures
            out == Vec3::<Fixed>::cross_spec(v1, v2),
    {
        Vec3 {
            x: narrow(wide_product(v1.y, v2.z) - wide_product(v1.z, v2.y)),
            y: narrow(wide_product(v1.z, v2.x) - wide_product(v1.x, v2.z)),
            z: narrow(wide_product(v1.x, v2.y) - wide_product(v1.y, v2.x)),
        }
    }

    /// Projects a vector onto another vector.
    pub fn proj(v1: Vec3<Fixed>, v2: Vec3<Fixed>) -> (out: Vec3<Fixed>)
        ensures
            out == Vec3::<Fixed>::proj_spec(v1, v2),
    {
        v2.mul(Self::dot(v1, v2).div(Self::dot(v2, v2)))
    }

    /// Converts from colour with channels from 0 to 1 to 8-bit colour.
    pub fn to_8bit_colour(&self) -> (out: Vec3<u8>)
        ensures
            out == self.colour(),
    {
        Vec3 { x: self.x.to_channel(), y: self.y.to_channel(), z: self.z.to_channel() }
    }

    /// Creates a Vec3 out of a Vec2 and a third component.
    pub fn of(vec2: Vec2<Fixed>, z: Fixed) -> (out: Vec3<Fixed>)
        ensures
            out == (Vec3 { x: vec2.x, y: vec2.y, z: z }),
    {
        Vec3 { x: vec2.x, y: vec2.y, z: z }
    }

    /// Creates a Vec2 out of a Vec3, discarding `z`.
    pub fn to_vec2(&self) -> (out: Vec2<Fixed>)
        ensures
            out == (Vec2 { x: self.x, y: self.y }),
    {
        Vec2 { x: self.x, y: self.y }
    }

    /// Calculates the length of this vector.
    pub fn len(&self) -> (out: Fixed)
        ensures
            out == self.length(),
            out.raw >= 0,
            !self.is_zero() ==> out.raw > 0,
    {
        proof {
            lemma_square_zero(self.x.raw as int);
            lemma_square_zero(self.y.raw as int);
            lemma_square_zero(self.z.raw as int);
        }
        length_from(square(self.x) + square(self.y) + square(self.z))
    }

    /// Normalises this vector, and returns it for chaining.
    pub fn nor(&mut self) -> (out: Vec3<Fixed>)
        ensures
            *final(self) == old(self).normalised(),
            out == *final(self),
    {
        if self.x.raw == 0 && self.y.raw == 0 && self.z.raw == 0 {
            return *self;
        }
        let len = self.len();
        self.x = self.x.div(len);
        self.y = self.y.div(len);
        self.z = self.z.div(len);
        *self
    }
}

impl Vec4<Fixed> {
    pub open spec fn plus(self, rhs: Vec4<Fixed>) -> Vec4<Fixed> {
        Vec4 {
            x: self.x.plus(rhs.x),
            y: self.y.plus(rhs.y),
            z: self.z.plus(rhs.z),
            w: self.w.plus(rhs.w),
        }
    }

    pub open spec fn minus(self, rhs: Vec4<Fixed>) -> Vec4<Fixed> {
        Vec4 {
            x: self.x.minus(rhs.x),
            y: self.y.minus(rhs.y),
            z: self.z.minus(rhs.z),
            w: self.w.minus(rhs.w),
        }
    }

    pub open spec fn times(self, rhs: Fixed) -> Vec4<Fixed> {
        Vec4 {
            x: self.x.times(rhs),
            y: self.y.times(rhs),
            z: self.z.times(rhs),
            w: self.w.times(rhs),
        }
    }

    /// The dot product: the exact sum of the products, rounded once.
    pub open spec fn dot_spec(v1: Vec4<Fixed>, v2: Vec4<Fixed>) -> Fixed {
        Fixed::of_raw(
            trunc_div(
                v1.x.raw * v2.x.raw + v1.y.raw * v2.y.raw + v1.z.raw * v2.z.raw + v1.w.raw
                    * v2.w.raw,
                65536,
            ),
        )
    }

    /// The first three components.
    pub open spec fn xyz(self) -> Vec3<Fixed> {
        Vec3 { x: self.x, y: self.y, z: self.z }
    }

    /// The first three components, each over the fourth.
    pub open spec fn divided(self) -> Vec3<Fixed> {
        Vec3 { x: self.x.over(self.w), y: self.y.over(self.w), z: self.z.over(self.w) }
    }

    pub open spec fn squares(self) -> int {
        self.x.raw * self.x.raw + self.y.raw * self.y.raw + self.z.raw * self.z.raw + self.w.raw
            * self.w.raw
    }

    pub open spec fn is_zero(self) -> bool {
        self.x.raw == 0 && self.y.raw == 0 && self.z.raw == 0 && self.w.raw == 0
    }

    pub open spec fn length(self) -> Fixed {
        length_of(self.squares())
    }

    /// The vector scaled to length 1; the zero vector stays as it is.
    pub open spec fn normalised(self) -> Vec4<Fixed> {
        if self.is_zero() {
            self
        } else {
            Vec4 {
                x: self.x.over(self.length()),
                y: self.y.over(self.length()),
                z: self.z.over(self.length()),
                w: self.w.over(self.length()),
            }
        }
    }

    pub fn add(self, rhs: Vec4<Fixed>) -> (out: Vec4<Fixed>)
        ensures
            out == self.plus(rhs),
    {
        Vec4 {
            x: self.x.add(rhs.x),
            y: self.y.add(rhs.y),
            z: self.z.add(rhs.z),
            w: self.w.add(rhs.w),
        }
    }

    pub fn add_assign(&mut self, rhs: Vec4<Fixed>)
        ensures
            *final(self) == old(self).plus(rhs),
    {
        self.x = self.x.add(rhs.x);
        self.y = self.y.add(rhs.y);
        self.z = self.z.add(rhs.z);
        self.w = self.w.add(rhs.w);
    }

    pub fn sub(self, rhs: Vec4<Fixed>) -> (out: Vec4<Fixed>)
        ensures
            out == self.minus(rhs),
    {
        Vec4 {
            x: self.x.sub(rhs.x),
            y: self.y.sub(rhs.y),
            z: self.z.sub(rhs.z),
            w: self.w.sub(rhs.w),
        }
    }

    pub fn mul(self, rhs: Fixed) -> (out: Vec4<Fixed>)
        ensures
            out == self.times(rhs),
    {
        Vec4 {
            x: self.x.mul(rhs),
            y: self.y.mul(rhs),
            z: self.z.mul(rhs),
            w: self.w.mul(rhs),
        }
    }

    pub fn mul_assign(&mut self, rhs: Fixed)
        ensures
            *final(self) == old(self).times(rhs),
    {
        self.x = self.x.mul(rhs);
        self.y = self.y.mul(rhs);
        self.z = self.z.mul(rhs);
        self.w = self.w.mul(rhs);
    }

    /// Computes the dot/inner/scalar product of the two vectors provided.
    pub fn dot(v1: Vec4<Fixed>, v2: Vec4<Fixed>) -> (out: Fixed)
        ensures
            out == Vec4::<Fixed>::dot_spec(v1, v2),
    {
        narrow(
            wide_product(v1.x, v2.x) + wide_product(v1.y, v2.y) + wide_product(v1.z, v2.z)
                + wide_product(v1.w, v2.w),
        )
    }

    /// Computes the cross/vector product of the two vectors provided.
    pub fn cross(v1: Vec3<Fixed>, v2: Vec3<Fixed>) -> (out: Vec3<Fixed>)
        ensures
            out == Vec3::<Fixed>::cross_spec(v1, v2),
    {
        Vec3::<Fixed>::cross(v1, v2)
    }

    /// Creates a `Vec4` out of a `Vec3` and a fourth component.
    pub fn of(vec3: Vec3<Fixed>, w: Fixed) -> (out: Vec4<Fixed>)
        ensures
            out == (Vec4 { x: vec3.x, y: vec3.y, z: vec3.z, w: w }),
    {
        Vec4 { x: vec3.x, y: vec3.y, z: vec3.z, w: w }
    }

    /// Creates a `Vec3` out of a `Vec4`, discarding `w`.
    pub fn to_vec3(&self) -> (out: Vec3<Fixed>)
        ensures
            out == self.xyz(),
    {
        Vec3 { x: self.x, y: self.y, z: self.z }
    }

    /// Divides by the perspective component (`w`) creating a `Vec3`.
    pub fn perspective_division(&self) -> (out: Vec3<Fixed>)
        requires
            self.w.raw != 0,
        ensures
            out == self.divided(),
    {
        Vec3 { x: self.x.div(self.w), y: self.y.div(self.w), z: self.z.div(self.w) }
    }

    /// Calculates the length of this vector.
    pub fn len(&self) -> (out: Fixed)
        ensures
            out == self.length(),
            out.raw >= 0,
            !self.is_zero() ==> out.raw > 0,
    {
        proof {
            lemma_square_zero(self.x.raw as int);
            lemma_square_zero(self.y.raw as int);
            lemma_square_zero(self.z.raw as int);
            lemma_square_zero(self.w.raw as int);
        }
        length_from(square(self.x) + square(self.y) + square(self.z) + square(self.w))
    }

    /// Normalises this vector, and returns it for chaining.
    pub fn nor(&mut self) -> (out: Vec4<Fixed>)
        ensures
            *final(self) == old(self).normalised(),
            out == *final(self),
    {
        if self.x.raw == 0 && self.y.raw == 0 && self.z.raw == 0 && self.w.raw == 0 {
            return *self;
        }
        let len = self.len();
        self.x = self.x.div(len);
        self.y = self.y.div(len);
        self.z = self.z.div(len);
        self.w = self.w.div(len);
        *self
    }
}

/// A component over the length of its vector lies from -1 to 1: where
/// `squares`, the sum of the squared components, is not zero and holds the
/// square of `c`, the quotient of `c` by the length is at most 1 either way.
pub proof fn lemma_component_within_unit(c: Fixed, squares: int)
    requires
        0 < squares,
        c.raw * c.raw <= squares,
    ensures
        -65536 <= c.over(length_of(squares)).raw <= 65536,
{
    crate::math::lemma_root_exists(squares);
    let r = int_sqrt(squares);
    let x: int = c.raw as int;
    let m: int = if x < 0 { -x } else { x };
    assert(m * m == x * x) by (nonlinear_arith)
        requires
            m == x || m == -x,
    ;
    assert(m <= r) by (nonlinear_arith)
        requires
            0 <= m,
            0 <= r,
            m * m <= squares,
            squares < (r + 1) * (r + 1),
    ;
    assert(r >= 1) by (nonlinear_arith)
        requires
            0 <= r,
            0 < squares,
            squares < (r + 1) * (r + 1),
    ;
    let len: int = length_of(squares).raw as int;
    assert((m * 65536) / len <= 65536) by (nonlinear_arith)
        requires
            0 <= m,
            65536 < len || m <= len,
            1 <= len,
            m * 65536 <= len * 65536 + 65536,
    ;
    assert((m * 65536) / len >= 0) by (nonlinear_arith)
        requires
            0 <= m,
            1 <= len,
    ;
}

/// A normalised vector has every component from -1 to 1.
pub proof fn lemma_normalised_within_unit(v: Vec3<Fixed>)
    requires
        !v.is_zero(),
    ensures
        -65536 <= v.normalised().x.raw <= 65536,
        -65536 <= v.normalised().y.raw <= 65536,
        -65536 <= v.normalised().z.raw <= 65536,
{
    lemma_square_zero(v.x.raw as int);
    lemma_square_zero(v.y.raw as int);
    lemma_square_zero(v.z.raw as int);
    lemma_component_within_unit(v.x, v.squares());
    lemma_component_within_unit(v.y, v.squares());
    lemma_component_within_unit(v.z, v.squares());
}

/// A square is zero only for zero, and never negative.
proof fn lemma_square_zero(a: int)
    by (nonlinear_arith)
    ensures
        a * a >= 0,
        a * a == 0 <==> a == 0,
{
}

} // verus!
