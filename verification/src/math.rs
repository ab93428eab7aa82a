//! Fixed-point arithmetic: numbers with 16 fractional bits in a 32-bit word,
//! with operations that saturate at the ends of the range.

use vstd::prelude::*;

verus! {

/// A number with 16 fractional bits: it stands for `raw / 65536`.
#[derive(Debug, Copy, Clone, PartialEq, Eq, Structural)]
pub struct Fixed {
    pub raw: i32,
}

/// The raw value of 1.
pub const ONE_RAW: i32 = 65536;

/// `v`, or the end of the 32-bit range that it lies beyond.
pub open spec fn saturated(v: int) -> int {
    if v < i32::MIN {
        i32::MIN as int
    } else if v > i32::MAX {
        i32::MAX as int
    } else {
        v
    }
}

/// `n / d` rounded toward zero. It is 0 where `d` is 0.
pub open spec fn trunc_div(n: int, d: int) -> int {
    if d == 0 {
        0
    } else if n >= 0 && d > 0 {
        n / d
    } else if n < 0 && d > 0 {
        -((-n) / d)
    } else if n >= 0 && d < 0 {
        -(n / (-d))
    } else {
        (-n) / (-d)
    }
}

/// Whether `r` is the square root of `n`, rounded down.
pub open spec fn is_root(r: int, n: int) -> bool {
    0 <= r && r * r <= n < (r + 1) * (r + 1)
}

/// The square root of `n`, rounded down.
pub open spec fn int_sqrt(n: int) -> int {
    choose|r: int| is_root(r, n)
}

/// A number has at most one rounded-down square root.
pub proof fn lemma_root_unique(r1: int, r2: int, n: int)
    requires
        is_root(r1, n),
        is_root(r2, n),
    ensures
        r1 == r2,
{
    if r1 < r2 {
        assert((r1 + 1) * (r1 + 1) <= r2 * r2) by (nonlinear_arith)
            requires
                0 <= r1 + 1 <= r2,
        ;
    } else if r2 < r1 {
        assert((r2 + 1) * (r2 + 1) <= r1 * r1) by (nonlinear_arith)
            requires
                0 <= r2 + 1 <= r1,
        ;
    }
}

/// Every number from 0 on has a rounded-down square root.
pub proof fn lemma_root_exists(n: int)
    requires
        0 <= n,
    ensures
        is_root(int_sqrt(n), n),
    decreases n,
{
    if n == 0 {
        assert(is_root(0, 0));
    } else {
        lemma_root_exists(n - 1);
        let r = int_sqrt(n - 1);
        assert((r + 2) * (r + 2) == (r + 1) * (r + 1) + 2 * r + 3) by (nonlinear_arith);
        if (r + 1) * (r + 1) <= n {
            assert(is_root(r + 1, n));
        } else {
            assert(is_root(r, n));
        }
    }
}

/// A rounded-down square root that was found is the square root.
pub proof fn lemma_root_found(r: int, n: int)
    requires
        is_root(r, n),
    ensures
        int_sqrt(n) == r,
{
    lemma_root_unique(int_sqrt(n), r, n);
}

/// Divides rounding toward zero.
fn quotient(n: i64, d: i64) -> (q: i64)
    requires
        d != 0,
        -0x4000_0000_0000_0000 <= n <= 0x4000_0000_0000_0000,
        -0x8000_0000 <= d <= 0x8000_0000,
    ensures
        q == trunc_div(n as int, d as int),
{
    if d < 0 {
        (-n) / (-d)
    } else {
        n / d
    }
}

/// The exact product of two raw values.
pub(crate) fn wide_product(a: Fixed, b: Fixed) -> (p: i128)
    ensures
        p == a.raw * b.raw,
        -0x4000_0000_0000_0000 <= p <= 0x4000_0000_0000_0000,
{
    let x: i128 = a.raw as i128;
    let y: i128 = b.raw as i128;
    assert(-0x4000_0000_0000_0000 <= x * y <= 0x4000_0000_0000_0000) by (nonlinear_arith)
        requires
            -0x8000_0000 <= x <= 0x8000_0000,
            -0x8000_0000 <= y <= 0x8000_0000,
    ;
    x * y
}

/// A sum of raw products, scaled back to 16 fractional bits: rounded toward
/// zero and saturated.
pub(crate) fn narrow(wide: i128) -> (out: Fixed)
    requires
        -0x100_0000_0000_0000_0000 <= wide <= 0x100_0000_0000_0000_0000,
    ensures
        out == Fixed::of_raw(trunc_div(wide as int, 65536)),
{
    let q: i128 = wide / 65536;
    if q < i32::MIN as i128 {
        Fixed { raw: i32::MIN }
    } else if q > i32::MAX as i128 {
        Fixed { raw: i32::MAX }
    } else {
        Fixed { raw: q as i32 }
    }
}

/// The square root of `n`, rounded down.
pub(crate) fn wide_sqrt(n: u128) -> (r: u64)
    requires
        n <= 0x1_0000_0000_0000_0000,
    ensures
        r == int_sqrt(n as int),
        is_root(r as int, n as int),
        r <= 0x1_0000_0000,
{
    let mut lo: u128 = 0;
    let mut hi: u128 = 0x1_0000_0001;
    assert(0x1_0000_0001u128 * 0x1_0000_0001u128 > 0x1_0000_0000_0000_0000u128)
        by (nonlinear_arith);
    while hi - lo > 1
        invariant
            0 <= lo < hi <= 0x1_0000_0001,
            lo * lo <= n < hi * hi,
        decreases hi - lo,
    {
        let mid: u128 = lo + (hi - lo) / 2;
        assert(mid * mid < 0x4_0000_0000_0000_0000) by (nonlinear_arith)
            requires
                0 <= mid < 0x1_0000_0001,
        ;
        if mid * mid <= n {
            lo = mid;
        } else {
            hi = mid;
        }
    }
    proof {
        lemma_root_found(lo as int, n as int);
    }
    lo as u64
}

impl Fixed {
    /// The number that `raw` stands for, where it fits; else the nearest end
    /// of the range.
    pub open spec fn of_raw(raw: int) -> Fixed {
        Fixed { raw: saturated(raw) as i32 }
    }

    pub open spec fn zero_spec() -> Fixed {
        Fixed { raw: 0 }
    }

    pub open spec fn one_spec() -> Fixed {
        Fixed { raw: 65536 }
    }

    /// The sum, saturated.
    pub open spec fn plus(self, rhs: Fixed) -> Fixed {
        Fixed::of_raw(self.raw + rhs.raw)
    }

    /// The difference, saturated.
    pub open spec fn minus(self, rhs: Fixed) -> Fixed {
        Fixed::of_raw(self.raw - rhs.raw)
    }

    /// The negation, saturated.
    pub open spec fn negated(self) -> Fixed {
        Fixed::of_raw(-self.raw)
    }

    /// The product, rounded toward zero and saturated.
    pub open spec fn times(self, rhs: Fixed) -> Fixed {
        Fixed::of_raw(trunc_div(self.raw * rhs.raw, 65536))
    }

    /// The quotient, rounded toward zero and saturated. Over zero it is the
    /// end of the range on the side of `self`, and zero for zero.
    pub open spec fn over(self, rhs: Fixed) -> Fixed {
        if rhs.raw == 0 {
            if self.raw > 0 {
                Fixed { raw: i32::MAX }
            } else if self.raw < 0 {
                Fixed { raw: i32::MIN }
            } else {
                Fixed { raw: 0 }
            }
        } else {
            Fixed::of_raw(trunc_div(self.raw * 65536, rhs.raw as int))
        }
    }

    /// The ratio of two integers, rounded toward zero and saturated; over
    /// zero as `over` has it.
    pub open spec fn ratio(num: int, den: int) -> Fixed {
        if den == 0 {
            if num > 0 {
                Fixed { raw: i32::MAX }
            } else if num < 0 {
                Fixed { raw: i32::MIN }
            } else {
                Fixed { raw: 0 }
            }
        } else {
            Fixed::of_raw(trunc_div(num * 65536, den))
        }
    }

    /// The square root, rounded down to the next number that can be held;
    /// zero for a number that is not positive.
    pub open spec fn root(self) -> Fixed {
        if self.raw <= 0 {
            Fixed { raw: 0 }
        } else {
            Fixed { raw: int_sqrt(self.raw * 65536) as i32 }
        }
    }

    /// `self` multiplied `exp` times into 1, each product rounded and
    /// saturated.
    pub open spec fn power(self, exp: nat) -> Fixed
        decreases exp,
    {
        if exp == 0 {
            Fixed::one_spec()
        } else {
            self.power((exp - 1) as nat).times(self)
        }
    }

    /// The greater of the two.
    pub open spec fn at_least(self, floor: Fixed) -> Fixed {
        if self.raw < floor.raw {
            floor
        } else {
            self
        }
    }

    /// The number scaled to `0..=255` and rounded toward zero, as a colour
    /// channel: 0 for a negative number, 255 from 1 on.
    pub open spec fn channel(self) -> u8 {
        if self.raw <= 0 {
            0
        } else if self.raw >= 65536 {
            255
        } else {
            ((self.raw * 255) / 65536) as u8
        }
    }

    /// Zero.
    pub fn zero() -> (out: Fixed)
        ensures
            out == Fixed::zero_spec(),
    {
        Fixed { raw: 0 }
    }

    /// One.
    pub fn one() -> (out: Fixed)
        ensures
            out == Fixed::one_spec(),
    {
        Fixed { raw: ONE_RAW }
    }

    /// The whole number `n`.
    pub fn from_int(n: i16) -> (out: Fixed)
        ensures
            out.raw == n * 65536,
    {
        Fixed { raw: (n as i32) * ONE_RAW }
    }

    /// The number with the raw value `wide`, or the end of the range that
    /// `wide` lies beyond.
    pub fn clamp(wide: i64) -> (out: Fixed)
        ensures
            out == Fixed::of_raw(wide as int),
    {
        if wide < i32::MIN as i64 {
            Fixed { raw: i32::MIN }
        } else if wide > i32::MAX as i64 {
            Fixed { raw: i32::MAX }
        } else {
            Fixed { raw: wide as i32 }
        }
    }

    /// `num / den`.
    pub fn from_ratio(num: i32, den: i32) -> (out: Fixed)
        ensures
            out == Fixed::ratio(num as int, den as int),
    {
        if den == 0 {
            if num > 0 {
                Fixed { raw: i32::MAX }
            } else if num < 0 {
                Fixed { raw: i32::MIN }
            } else {
                Fixed { raw: 0 }
            }
        } else {
            Fixed::clamp(quotient((num as i64) * 65536, den as i64))
        }
    }

    pub fn add(self, rhs: Fixed) -> (out: Fixed)
        ensures
            out == self.plus(rhs),
    {
        Fixed::clamp(self.raw as i64 + rhs.raw as i64)
    }

    pub fn sub(self, rhs: Fixed) -> (out: Fixed)
        ensures
            out == self.minus(rhs),
    {
        Fixed::clamp(self.raw as i64 - rhs.raw as i64)
    }

    pub fn neg(self) -> (out: Fixed)
        ensures
            out == self.negated(),
    {
        Fixed::clamp(-(self.raw as i64))
    }

    pub fn mul(self, rhs: Fixed) -> (out: Fixed)
        ensures
            out == self.times(rhs),
    {
        let a: i64 = self.raw as i64;
        let b: i64 = rhs.raw as i64;
        assert(-0x4000_0000_0000_0000 <= a * b <= 0x4000_0000_0000_0000) by (nonlinear_arith)
            requires
                -0x8000_0000 <= a <= 0x8000_0000,
                -0x8000_0000 <= b <= 0x8000_0000,
        ;
        Fixed::clamp(quotient(a * b, 65536))
    }

    pub fn div(self, rhs: Fixed) -> (out: Fixed)
        ensures
            out == self.over(rhs),
    {
        if rhs.raw == 0 {
            if self.raw > 0 {
                Fixed { raw: i32::MAX }
            } else if self.raw < 0 {
                Fixed { raw: i32::MIN }
            } else {
                Fixed { raw: 0 }
            }
        } else {
            Fixed::clamp(quotient((self.raw as i64) * 65536, rhs.raw as i64))
        }
    }

    /// The greater of `self` and `floor`.
    pub fn max(self, floor: Fixed) -> (out: Fixed)
        ensures
            out == self.at_least(floor),
    {
        if self.raw < floor.raw {
            floor
        } else {
            self
        }
    }

    /// The number as a colour channel.
    pub fn to_channel(self) -> (out: u8)
        ensures
            out == self.channel(),
    {
        if self.raw <= 0 {
            0
        } else if self.raw >= ONE_RAW {
            255
        } else {
            (((self.raw as i64) * 255) / 65536) as u8
        }
    }

    /// The colour channel `c` as a number from 0 to 1: `c / 255`.
    pub fn from_channel(c: u8) -> (out: Fixed)
        ensures
            out == Fixed::ratio(c as int, 255),
            0 <= out.raw <= 65536,
    {
        Fixed::from_ratio(c as i32, 255)
    }
}

/// Calculates the square root of a number, rounded down. If the number is
/// not positive, returns zero.
pub fn sqrt(num: Fixed) -> (out: Fixed)
    ensures
        out == num.root(),
        num.raw > 0 ==> is_root(out.raw as int, num.raw * 65536),
{
    if num.raw <= 0 {
        return Fixed { raw: 0 };
    }
    let r: u64 = wide_sqrt((num.raw as u128) * 65536);
    assert(r < 0x100_0000) by (nonlinear_arith)
        requires
            r * r <= num.raw * 65536,
            num.raw <= 0x7fff_ffff,
            r >= 0,
    ;
    Fixed { raw: r as i32 }
}

/// Raises `base` to the power `exp` by repeated multiplication.
pub fn powi(base: Fixed, exp: u8) -> (out: Fixed)
    ensures
        out == base.power(exp as nat),
{
    let mut acc: Fixed = Fixed::one();
    let mut i: u8 = 0;
    while i < exp
        invariant
            i <= exp,
            acc == base.power(i as nat),
        decreases exp - i,
    {
        acc = acc.mul(base);
        i = i + 1;
    }
    acc
}

} // verus!
