//! The scalar of the library: a signed fixed-point number with 32
//! fractional bits, stored in an `i64`.
//!
//! A `Fixed` with raw representation `r` stands for the real number
//! `r / 2^32`.  All arithmetic is exact integer arithmetic on the raw
//! representation; where a quotient is not representable on the
//! 2^-32 grid it is rounded toward zero, and every operation that can
//! leave the representable range reports that instead of wrapping.

use vstd::prelude::*;
use vstd::arithmetic::mul::{lemma_mul_inequality, lemma_mul_nonnegative};

verus! {

/// Number of raw units per one: 2^32.
pub const SCALE: i64 = 4294967296;

/// Magnitude of an integer.
pub open spec fn iabs(x: int) -> int {
    if x < 0 {
        -x
    } else {
        x
    }
}

/// Quotient of `p` by `d`, rounded toward zero.
pub open spec fn tdiv(p: int, d: int) -> int
    recommends
        d != 0,
{
    if (p < 0) == (d < 0) {
        iabs(p) / iabs(d)
    } else {
        -(iabs(p) / iabs(d))
    }
}

/// Whether a raw value is representable in an `i64`.
pub open spec fn fits_i64(x: int) -> bool {
    i64::MIN <= x <= i64::MAX
}

/// Raw representation of the product of two fixed-point values.
pub open spec fn mul_raw(a: int, b: int) -> int {
    tdiv(a * b, SCALE as int)
}

/// Raw representation of the quotient of two fixed-point values.
pub open spec fn div_raw(a: int, b: int) -> int
    recommends
        b != 0,
{
    tdiv(a * SCALE, b)
}

/// A signed fixed-point number with 32 fractional bits.
#[derive(Clone, Copy, Debug, PartialEq, Eq, Structural)]
pub struct Fixed {
    pub raw: i64,
}

impl View for Fixed {
    type V = int;

    open spec fn view(&self) -> int {
        self.raw as int
    }
}

proof fn lemma_abs_mul(a: int, b: int)
    ensures
        iabs(a * b) == iabs(a) * iabs(b),
        ((a < 0) == (b < 0)) ==> a * b >= 0,
        ((a < 0) != (b < 0)) ==> a * b <= 0,
        (a * b == 0) <==> (a == 0 || b == 0),
{
    assert(iabs(a * b) == iabs(a) * iabs(b) && (((a < 0) == (b < 0)) ==> a * b >= 0) && (((a < 0)
        != (b < 0)) ==> a * b <= 0) && ((a * b == 0) <==> (a == 0 || b == 0)))
        by (nonlinear_arith);
}

/// The magnitude of an `i64`, exactly, as a `u128`.
pub(crate) fn mag_u128(x: i64) -> (m: u128)
    ensures
        m == iabs(x as int),
{
    let w: i128 = x as i128;
    if w < 0 {
        (-w) as u128
    } else {
        w as u128
    }
}

/// Packs a sign and a magnitude back into a `Fixed`, reporting a
/// magnitude outside the representable range.
fn fixed_of_mag(neg: bool, mag: u128) -> (r: Option<Fixed>)
    ensures
        ({
            let v = if neg {
                -(mag as int)
            } else {
                mag as int
            };
            match r {
                Some(f) => fits_i64(v) && f@ == v,
                None => !fits_i64(v),
            }
        }),
{
    if neg {
        if mag <= 9223372036854775808u128 {
            Some(Fixed { raw: (-(mag as i128)) as i64 })
        } else {
            None
        }
    } else {
        if mag <= 9223372036854775807u128 {
            Some(Fixed { raw: mag as i64 })
        } else {
            None
        }
    }
}

impl Fixed {
    /// The fixed-point zero.
    pub fn zero() -> (r: Fixed)
        ensures
            r@ == 0,
    {
        Fixed { raw: 0 }
    }

    /// The fixed-point representation of a small integer, when it is
    /// representable.
    pub fn from_int(i: i64) -> (r: Option<Fixed>)
        ensures
            match r {
                Some(f) => fits_i64(i * SCALE) && f@ == i * SCALE,
                None => !fits_i64(i * SCALE),
            },
    {
        let w: i128 = (i as i128) * 4294967296i128;
        if -9223372036854775808i128 <= w && w <= 9223372036854775807i128 {
            Some(Fixed { raw: w as i64 })
        } else {
            None
        }
    }

    /// The closest fixed-point value toward zero from the ratio
    /// `num / den`, when `den` is not zero and the result is
    /// representable.
    pub fn from_ratio(num: i64, den: i64) -> (r: Option<Fixed>)
        ensures
            match r {
                Some(f) => den != 0 && fits_i64(tdiv(num * SCALE, den as int)) && f@ == tdiv(
                    num * SCALE,
                    den as int,
                ),
                None => den == 0 || !fits_i64(tdiv(num * SCALE, den as int)),
            },
    {
        if den == 0 {
            return None;
        }
        let nm = mag_u128(num);
        let dm = mag_u128(den);
        let p: u128 = nm * 4294967296u128;
        let q: u128 = p / dm;
        let neg = (num < 0) != (den < 0);
        proof {
            lemma_abs_mul(num as int, SCALE as int);
        }
        fixed_of_mag(neg, q)
    }

    /// Sum, reporting a result outside the representable range.
    pub fn checked_add(self, other: Fixed) -> (r: Option<Fixed>)
        ensures
            match r {
                Some(c) => fits_i64(self@ + other@) && c@ == self@ + other@,
                None => !fits_i64(self@ + other@),
            },
    {
        let s: i128 = self.raw as i128 + other.raw as i128;
        if -9223372036854775808i128 <= s && s <= 9223372036854775807i128 {
            Some(Fixed { raw: s as i64 })
        } else {
            None
        }
    }

    /// Difference, reporting a result outside the representable range.
    pub fn checked_sub(self, other: Fixed) -> (r: Option<Fixed>)
        ensures
            match r {
                Some(c) => fits_i64(self@ - other@) && c@ == self@ - other@,
                None => !fits_i64(self@ - other@),
            },
    {
        let s: i128 = self.raw as i128 - other.raw as i128;
        if -9223372036854775808i128 <= s && s <= 9223372036854775807i128 {
            Some(Fixed { raw: s as i64 })
        } else {
            None
        }
    }

    /// Negation, reporting a result outside the representable range.
    pub fn checked_neg(self) -> (r: Option<Fixed>)
        ensures
            match r {
                Some(c) => fits_i64(-self@) && c@ == -self@,
                None => !fits_i64(-self@),
            },
    {
        if self.raw == -9223372036854775808i64 {
            None
        } else {
            Some(Fixed { raw: -self.raw })
        }
    }

    /// Product, rounded toward zero, reporting a result outside the
    /// representable range.
    pub fn checked_mul(self, other: Fixed) -> (r: Option<Fixed>)
        ensures
            match r {
                Some(c) => fits_i64(mul_raw(self@, other@)) && c@ == mul_raw(self@, other@),
                None => !fits_i64(mul_raw(self@, other@)),
            },
    {
        let am = mag_u128(self.raw);
        let bm = mag_u128(other.raw);
        proof {
            lemma_abs_mul(self@, other@);
            lemma_mul_inequality(am as int, 0x8000000000000000, bm as int);
            lemma_mul_inequality(bm as int, 0x8000000000000000, 0x8000000000000000);
            lemma_mul_nonnegative(am as int, bm as int);
        }
        let p: u128 = am * bm;
        let q: u128 = p / 4294967296u128;
        let neg = (self.raw < 0) != (other.raw < 0);
        fixed_of_mag(neg, q)
    }

    /// Quotient, rounded toward zero, reporting a zero divisor or a
    /// result outside the representable range.
    pub fn checked_div(self, other: Fixed) -> (r: Option<Fixed>)
        ensures
            match r {
                Some(c) => other@ != 0 && fits_i64(div_raw(self@, other@)) && c@ == div_raw(
                    self@,
                    other@,
                ),
                None => other@ == 0 || !fits_i64(div_raw(self@, other@)),
            },
    {
        if other.raw == 0 {
            return None;
        }
        let am = mag_u128(self.raw);
        let bm = mag_u128(other.raw);
        let p: u128 = am * 4294967296u128;
        let q: u128 = p / bm;
        let neg = (self.raw < 0) != (other.raw < 0);
        proof {
            lemma_abs_mul(self@, SCALE as int);
        }
        fixed_of_mag(neg, q)
    }

    /// Quotient by a small positive integer, rounded toward zero.
    /// Never leaves the representable range, because the magnitude
    /// can only shrink.
    pub fn div_by(self, d: i64) -> (r: Fixed)
        requires
            d > 0,
        ensures
            r@ == tdiv(self@, d as int),
    {
        let m = mag_u128(self.raw);
        let q: u128 = m / (d as u128);
        if self.raw < 0 {
            Fixed { raw: (-(q as i128)) as i64 }
        } else {
            Fixed { raw: q as i64 }
        }
    }

    /// Half of this value, rounded toward zero.
    pub fn half(self) -> (r: Fixed)
        ensures
            r@ == tdiv(self@, 2),
    {
        self.div_by(2)
    }
}

} // verus!
