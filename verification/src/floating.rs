//! Binary floating-point numbers by their bit patterns (IEEE 754, 64 and 32 bits): the value
//! that a pattern stands for, and the comparisons that settings need.

use vstd::prelude::*;
use vstd::arithmetic::power2::{lemma2_to64, lemma_pow2_pos, lemma_pow2_unfold, pow2};

verus! {

/// A number of 64 bits.
#[derive(Clone, Copy, Debug, PartialEq, Eq, Structural)]
pub struct Double {
    pub bits: u64,
}

/// A number of 32 bits.
#[derive(Clone, Copy, Debug, PartialEq, Eq, Structural)]
pub struct Single {
    pub bits: u32,
}

/// The absolute value of a pattern without its sign bit, in units of the smallest positive
/// number of the format. The low `fraction` bits hold the significand without its leading one
/// and the bits above them the exponent; exponent zero marks the numbers below the leading
/// one. The pattern of infinity gets a value above that of every finite number.
pub open spec fn scaled(magnitude: nat, fraction: nat) -> nat {
    let unit = pow2(fraction);
    let exponent = magnitude / unit;
    let significand = magnitude % unit;
    if exponent == 0 {
        significand
    } else {
        (unit + significand) * pow2((exponent - 1) as nat)
    }
}

/// The next pattern stands for a larger number.
proof fn lemma_scaled_step(a: nat, fraction: nat)
    ensures
        scaled(a, fraction) < scaled(a + 1, fraction),
{
    lemma_pow2_pos(fraction);
    let unit = pow2(fraction);
    let e = a / unit;
    let m = a % unit;
    assert(a == e * unit + m) by {
        vstd::arithmetic::div_mod::lemma_fundamental_div_mod(a as int, unit as int);
        vstd::arithmetic::mul::lemma_mul_is_commutative(e as int, unit as int);
    }
    assert(0 <= m < unit) by {
        vstd::arithmetic::div_mod::lemma_mod_bound(a as int, unit as int);
    }
    if m + 1 < unit {
        vstd::arithmetic::div_mod::lemma_fundamental_div_mod_converse(
            (a + 1) as int,
            unit as int,
            e as int,
            (m + 1) as int,
        );
        if e > 0 {
            let p = pow2((e - 1) as nat);
            lemma_pow2_pos((e - 1) as nat);
            assert((unit + m) * p < (unit + (m + 1)) * p) by (nonlinear_arith)
                requires
                    p > 0,
            ;
        }
    } else {
        assert((e + 1) * unit == e * unit + unit) by (nonlinear_arith);
        vstd::arithmetic::div_mod::lemma_fundamental_div_mod_converse(
            (a + 1) as int,
            unit as int,
            (e + 1) as int,
            0,
        );
        if e > 0 {
            let p = pow2((e - 1) as nat);
            lemma_pow2_pos((e - 1) as nat);
            lemma_pow2_unfold(e);
            assert((unit + m) * p < unit * (2 * p)) by (nonlinear_arith)
                requires
                    p > 0,
                    m < unit,
            ;
        } else {
            lemma2_to64();
            assert(unit * 1 == unit);
        }
    }
}

/// Larger patterns stand for larger numbers.
pub proof fn lemma_scaled_increases(a: nat, b: nat, fraction: nat)
    requires
        a < b,
    ensures
        scaled(a, fraction) < scaled(b, fraction),
    decreases b - a,
{
    lemma_scaled_step(a, fraction);
    if a + 1 < b {
        lemma_scaled_increases(a + 1, b, fraction);
    }
}

/// The pattern zero stands for zero, and no other magnitude does.
proof fn lemma_scaled_zero(a: nat, fraction: nat)
    ensures
        scaled(0, fraction) == 0,
        (scaled(a, fraction) == 0) == (a == 0),
{
    lemma_pow2_pos(fraction);
    vstd::arithmetic::div_mod::lemma_fundamental_div_mod_converse(
        0,
        pow2(fraction) as int,
        0,
        0,
    );
    if a > 0 {
        lemma_scaled_increases(0, a, fraction);
    }
}

/// A magnitude with its sign.
pub open spec fn with_sign(negative: bool, magnitude: nat) -> int {
    if negative {
        -(magnitude as int)
    } else {
        magnitude as int
    }
}

/// Values compare as the patterns do, read as a sign and a magnitude.
pub proof fn lemma_order(n1: bool, m1: nat, n2: bool, m2: nat, fraction: nat)
    ensures
        (with_sign(n1, scaled(m1, fraction)) <= with_sign(n2, scaled(m2, fraction))) == (with_sign(
            n1,
            m1,
        ) <= with_sign(n2, m2)),
{
    lemma_scaled_zero(m1, fraction);
    lemma_scaled_zero(m2, fraction);
    if m1 < m2 {
        lemma_scaled_increases(m1, m2, fraction);
    }
    if m2 < m1 {
        lemma_scaled_increases(m2, m1, fraction);
    }
}

impl Double {
    pub open spec fn magnitude(self) -> nat {
        (self.bits % 0x8000_0000_0000_0000) as nat
    }

    pub open spec fn is_negative(self) -> bool {
        self.bits >= 0x8000_0000_0000_0000
    }

    pub open spec fn is_nan(self) -> bool {
        self.magnitude() > 0x7ff0_0000_0000_0000
    }

    /// The absolute value, times two to the power 1074.
    pub open spec fn size(self) -> nat {
        scaled(self.magnitude(), 52)
    }

    /// The value, times two to the power 1074.
    pub open spec fn value(self) -> int {
        with_sign(self.is_negative(), self.size())
    }

    /// `self <= other`, which no comparison with a NaN is.
    pub open spec fn le(self, other: Double) -> bool {
        !self.is_nan() && !other.is_nan() && self.value() <= other.value()
    }

    pub open spec fn spec_abs(self) -> Double {
        Double { bits: (self.bits % 0x8000_0000_0000_0000) as u64 }
    }

    /// The same number with a positive sign.
    pub fn abs(self) -> (r: Double)
        ensures
            r == self.spec_abs(),
            r.value() == self.size(),
            r.is_nan() == self.is_nan(),
    {
        Double { bits: self.bits % 0x8000_0000_0000_0000 }
    }

    /// `self <= other`, which no comparison with a NaN is.
    pub fn at_most(self, other: Double) -> (r: bool)
        ensures
            r == self.le(other),
    {
        let m1: u64 = self.bits % 0x8000_0000_0000_0000;
        let m2: u64 = other.bits % 0x8000_0000_0000_0000;
        let n1 = self.bits >= 0x8000_0000_0000_0000;
        let n2 = other.bits >= 0x8000_0000_0000_0000;
        proof {
            lemma_order(n1, m1 as nat, n2, m2 as nat, 52);
        }
        if m1 > 0x7ff0_0000_0000_0000 || m2 > 0x7ff0_0000_0000_0000 {
            return false;
        }
        let k1: i128 = if n1 {
            -(m1 as i128)
        } else {
            m1 as i128
        };
        let k2: i128 = if n2 {
            -(m2 as i128)
        } else {
            m2 as i128
        };
        k1 <= k2
    }

    /// The larger of a number and a floor; the floor where the number is a NaN.
    pub open spec fn spec_max(self, floor: Double) -> Double {
        if self.is_nan() || self.le(floor) {
            floor
        } else {
            self
        }
    }

    /// The larger of a number and a floor; the floor where the number is a NaN.
    pub fn max(self, floor: Double) -> (r: Double)
        requires
            !floor.is_nan(),
        ensures
            r == self.spec_max(floor),
    {
        if self.at_most(self) && !self.at_most(floor) {
            self
        } else {
            floor
        }
    }
}

impl Single {
    pub open spec fn magnitude(self) -> nat {
        (self.bits % 0x8000_0000) as nat
    }

    pub open spec fn is_negative(self) -> bool {
        self.bits >= 0x8000_0000
    }

    pub open spec fn is_nan(self) -> bool {
        self.magnitude() > 0x7f80_0000
    }

    /// The value, times two to the power 149.
    pub open spec fn value(self) -> int {
        with_sign(self.is_negative(), scaled(self.magnitude(), 23))
    }

    /// `self <= other`, which no comparison with a NaN is.
    pub open spec fn le(self, other: Single) -> bool {
        !self.is_nan() && !other.is_nan() && self.value() <= other.value()
    }

    /// `self <= other`, which no comparison with a NaN is.
    pub fn at_most(self, other: Single) -> (r: bool)
        ensures
            r == self.le(other),
    {
        let m1: u32 = self.bits % 0x8000_0000;
        let m2: u32 = other.bits % 0x8000_0000;
        let n1 = self.bits >= 0x8000_0000;
        let n2 = other.bits >= 0x8000_0000;
        proof {
            lemma_order(n1, m1 as nat, n2, m2 as nat, 23);
        }
        if m1 > 0x7f80_0000 || m2 > 0x7f80_0000 {
            return false;
        }
        let k1: i64 = if n1 {
            -(m1 as i64)
        } else {
            m1 as i64
        };
        let k2: i64 = if n2 {
            -(m2 as i64)
        } else {
            m2 as i64
        };
        k1 <= k2
    }

    /// The larger of a number and a floor; the floor where the number is a NaN.
    pub open spec fn spec_max(self, floor: Single) -> Single {
        if self.is_nan() || self.le(floor) {
            floor
        } else {
            self
        }
    }

    /// The larger of a number and a floor; the floor where the number is a NaN.
    pub fn max(self, floor: Single) -> (r: Single)
        requires
            !floor.is_nan(),
        ensures
            r == self.spec_max(floor),
    {
        if self.at_most(self) && !self.at_most(floor) {
            self
        } else {
            floor
        }
    }

    /// The nearest number between two bounds; a NaN stays what it is.
    pub open spec fn spec_clamp(self, low: Single, high: Single) -> Single {
        if self.is_nan() {
            self
        } else if self.value() < low.value() {
            low
        } else if self.value() > high.value() {
            high
        } else {
            self
        }
    }

    /// The nearest number between two bounds; a NaN stays what it is.
    pub fn clamp(self, low: Single, high: Single) -> (r: Single)
        requires
            low.le(high),
        ensures
            r == self.spec_clamp(low, high),
    {
        if !self.at_most(self) {
            self
        } else if !low.at_most(self) {
            low
        } else if !self.at_most(high) {
            high
        } else {
            self
        }
    }
}

} // verus!
