//! Exact decimal money amounts, represented as an integer mantissa scaled by a
//! power of ten: the amount denoted is `mantissa / 10^scale`.
//!
//! The representation mirrors a 96-bit decimal: the mantissa magnitude stays
//! within 96 bits and the scale within 28 fractional digits, so every amount
//! has an exact integer value once brought to the common scale of 28.

use vstd::prelude::*;
use vstd::arithmetic::power::{pow, lemma_pow_adds, lemma_pow_increases, lemma_pow_positive};
use vstd::arithmetic::mul::{
    lemma_mul_is_associative, lemma_mul_is_distributive_add_other_way, lemma_mul_equality_converse,
    lemma_mul_inequality,
};

verus! {

/// Largest mantissa magnitude: 2^96 - 1.
pub const MAX_MANTISSA: i128 = 79228162514264337593543950335;

/// Largest number of fractional digits.
pub const MAX_SCALE: u32 = 28;

/// 10 raised to the largest scale, `10^28`.
pub const POW10_MAX_SCALE: i128 = 10000000000000000000000000000;

/// `pow(10, 28)` written out as a literal.
pub proof fn lemma_pow10_max_scale()
    ensures
        pow(10, MAX_SCALE as nat) == POW10_MAX_SCALE as int,
{
    reveal_with_fuel(pow, 29);
}

/// An exact decimal amount: `mantissa / 10^scale`.
#[derive(Debug, Clone, Copy, PartialEq, Eq)]
pub struct Money {
    pub mantissa: i128,
    pub scale: u32,
}

impl Money {
    /// Validity: the scale is at most 28 and the mantissa magnitude fits in 96 bits.
    pub open spec fn wf(self) -> bool {
        &&& self.scale <= MAX_SCALE
        &&& -(MAX_MANTISSA as int) <= self.mantissa as int <= MAX_MANTISSA as int
    }

    /// The amount in units of 10^-28: an exact integer for every valid amount.
    pub open spec fn val(self) -> int
        recommends
            self.scale <= MAX_SCALE,
    {
        self.mantissa * pow(10, (MAX_SCALE - self.scale) as nat)
    }

    /// The zero amount at scale zero.
    pub open spec fn spec_zero() -> Money {
        Money { mantissa: 0, scale: 0 }
    }

    /// Zero, as a runtime value.
    pub fn zero() -> (r: Money)
        ensures
            r == Money::spec_zero(),
            r.wf(),
            r.val() == 0,
    {
        Money { mantissa: 0, scale: 0 }
    }

    /// An amount of `mantissa / 10^scale`, for scales up to 28.
    pub fn new(mantissa: i64, scale: u32) -> (r: Money)
        requires
            scale <= MAX_SCALE,
        ensures
            r == (Money { mantissa: mantissa as i128, scale }),
            r.wf(),
    {
        Money { mantissa: mantissa as i128, scale }
    }

    /// An amount from a full-width mantissa; `None` when the pair is out of range.
    pub fn from_parts(mantissa: i128, scale: u32) -> (r: Option<Money>)
        ensures
            r is Some <==> (Money { mantissa, scale }).wf(),
            r is Some ==> r->Some_0 == (Money { mantissa, scale }),
    {
        if scale <= MAX_SCALE && -MAX_MANTISSA <= mantissa && mantissa <= MAX_MANTISSA {
            Some(Money { mantissa, scale })
        } else {
            None
        }
    }

    /// The mantissa.
    pub fn mantissa(&self) -> (r: i128)
        ensures
            r == self.mantissa,
    {
        self.mantissa
    }

    /// The scale.
    pub fn scale(&self) -> (r: u32)
        ensures
            r == self.scale,
    {
        self.scale
    }

    /// The scale of the sum of two amounts: the larger of the two scales.
    pub open spec fn sum_scale(a: Money, b: Money) -> u32 {
        if a.scale >= b.scale {
            a.scale
        } else {
            b.scale
        }
    }

    /// The mantissa of the sum of two amounts, once the smaller-scale one is
    /// brought to the common scale.
    pub open spec fn sum_mantissa(a: Money, b: Money) -> int {
        if a.scale <= b.scale {
            a.mantissa * pow(10, (b.scale - a.scale) as nat) + b.mantissa
        } else {
            a.mantissa + b.mantissa * pow(10, (a.scale - b.scale) as nat)
        }
    }

    /// The exact sum of two amounts, at the larger of the two scales.
    pub fn add(&self, other: &Money) -> (r: Money)
        requires
            self.wf(),
            other.wf(),
            -(MAX_MANTISSA as int) <= Money::sum_mantissa(*self, *other) <= MAX_MANTISSA as int,
        ensures
            r.wf(),
            r.scale == Money::sum_scale(*self, *other),
            r.mantissa as int == Money::sum_mantissa(*self, *other),
            r.val() == self.val() + other.val(),
    {
        let (lo, hi) = if self.scale <= other.scale {
            (self, other)
        } else {
            (other, self)
        };
        let delta = hi.scale - lo.scale;
        let p = pow10(delta);
        let rescaled = lo.mantissa * p;
        let m = rescaled + hi.mantissa;
        proof {
            let pd = pow(10, delta as nat);
            let plo = pow(10, (MAX_SCALE - lo.scale) as nat);
            let phi = pow(10, (MAX_SCALE - hi.scale) as nat);
            lemma_mul_is_distributive_add_other_way(phi, lo.mantissa * pd, hi.mantissa as int);
            lemma_rescale_val(lo.mantissa as int, lo.scale, hi.scale);
        }
        Money { mantissa: m, scale: hi.scale }
    }

    /// The exact product of an amount with an integer factor, at the same scale.
    pub fn mul_i32(&self, factor: i32) -> (r: Money)
        requires
            self.wf(),
            -(MAX_MANTISSA as int) <= self.mantissa * factor <= MAX_MANTISSA as int,
        ensures
            r.wf(),
            r.scale == self.scale,
            r.mantissa as int == self.mantissa * factor,
            r.val() == self.val() * factor,
    {
        proof {
            let p = pow(10, (MAX_SCALE - self.scale) as nat);
            assert((self.mantissa * factor) * p == (self.mantissa * p) * factor)
                by (nonlinear_arith);
        }
        Money { mantissa: self.mantissa * (factor as i128), scale: self.scale }
    }

    /// Whether two amounts denote the same number, whatever their scales:
    /// `1.0` equals `1.00`.
    pub fn eq_value(&self, other: &Money) -> (r: bool)
        requires
            self.wf(),
            other.wf(),
        ensures
            r == (self.val() == other.val()),
    {
        let (lo, hi) = if self.scale <= other.scale {
            (self, other)
        } else {
            (other, self)
        };
        proof {
            lemma_val_eq_iff(*lo, *hi);
        }
        let delta = hi.scale - lo.scale;
        let p = pow10(delta);
        let a: i128 = if lo.mantissa < 0 {
            -lo.mantissa
        } else {
            lo.mantissa
        };
        proof {
            lemma_div_mul_bounds(a as int, MAX_MANTISSA as int, p as int);
        }
        if (a as u128) > (MAX_MANTISSA as u128) / (p as u128) {
            proof {
                lemma_abs_product_exceeds(lo.mantissa as int, a as int, p as int);
            }
            false
        } else {
            proof {
                assert(lo.mantissa == -a ==> lo.mantissa * p == -(a * p)) by (nonlinear_arith);
            }
            lo.mantissa * p == hi.mantissa
        }
    }
}

/// 10 raised to a scale that stays within 28 digits.
fn pow10(e: u32) -> (r: i128)
    requires
        e <= MAX_SCALE,
    ensures
        r as int == pow(10, e as nat),
        1 <= r <= POW10_MAX_SCALE,
{
    proof {
        lemma_pow10_max_scale();
        vstd::arithmetic::power::lemma_pow0(10);
        lemma_pow_increases(10, 0, MAX_SCALE as nat);
    }
    let mut r: i128 = 1;
    let mut k: u32 = 0;
    while k < e
        invariant
            k <= e <= MAX_SCALE,
            r as int == pow(10, k as nat),
            1 <= r <= POW10_MAX_SCALE,
        decreases e - k,
    {
        proof {
            lemma_pow10_max_scale();
            lemma_pow_increases(10, (k + 1) as nat, MAX_SCALE as nat);
            lemma_pow_positive(10, (k + 1) as nat);
            assert(pow(10, (k + 1) as nat) == 10 * pow(10, k as nat)) by {
                reveal_with_fuel(pow, 2);
            }
        }
        r = r * 10;
        k = k + 1;
    }
    r
}

/// Rescaling a mantissa to a larger scale keeps the denoted number: multiplying
/// by `10^(s_to - s_from)` and then by `10^(28 - s_to)` is multiplying by
/// `10^(28 - s_from)`.
proof fn lemma_rescale_val(m: int, s_from: u32, s_to: u32)
    requires
        s_from <= s_to <= MAX_SCALE,
    ensures
        (m * pow(10, (s_to - s_from) as nat)) * pow(10, (MAX_SCALE - s_to) as nat) == m * pow(
            10,
            (MAX_SCALE - s_from) as nat,
        ),
{
    lemma_pow_adds(10, (s_to - s_from) as nat, (MAX_SCALE - s_to) as nat);
    lemma_mul_is_associative(
        m,
        pow(10, (s_to - s_from) as nat),
        pow(10, (MAX_SCALE - s_to) as nat),
    );
}

/// Two valid amounts denote the same number exactly when the smaller-scale
/// mantissa, brought to the common scale, equals the other mantissa.
proof fn lemma_val_eq_iff(lo: Money, hi: Money)
    requires
        lo.wf(),
        hi.wf(),
        lo.scale <= hi.scale,
    ensures
        (lo.val() == hi.val()) <==> (lo.mantissa * pow(10, (hi.scale - lo.scale) as nat)
            == hi.mantissa as int),
{
    let pd = pow(10, (hi.scale - lo.scale) as nat);
    let phi = pow(10, (MAX_SCALE - hi.scale) as nat);
    lemma_rescale_val(lo.mantissa as int, lo.scale, hi.scale);
    lemma_pow_positive(10, (MAX_SCALE - hi.scale) as nat);
    if lo.val() == hi.val() {
        lemma_mul_equality_converse(phi, lo.mantissa * pd, hi.mantissa as int);
        assert(phi * (lo.mantissa * pd) == (lo.mantissa * pd) * phi) by (nonlinear_arith);
        assert(phi * hi.mantissa == hi.mantissa * phi) by (nonlinear_arith);
    }
}

/// Comparing a nonnegative value against `m / p` decides whether its product
/// with `p` stays within `m`.
proof fn lemma_div_mul_bounds(a: int, m: int, p: int)
    requires
        a >= 0,
        m >= 0,
        p >= 1,
    ensures
        a > m / p ==> a * p > m,
        a <= m / p ==> 0 <= a * p <= m,
{
    vstd::arithmetic::div_mod::lemma_fundamental_div_mod(m, p);
    vstd::arithmetic::div_mod::lemma_mod_bound(m, p);
    lemma_mul_is_distributive_add_other_way(p, m / p, 1);
    assert(p * (m / p) == (m / p) * p) by (nonlinear_arith);
    if a > m / p {
        lemma_mul_inequality(m / p + 1, a, p);
    } else {
        lemma_mul_inequality(a, m / p, p);
        vstd::arithmetic::mul::lemma_mul_nonnegative(a, p);
    }
}

/// When the magnitude `a` of a mantissa times a positive factor exceeds the
/// largest mantissa, the product itself lies outside the valid range.
proof fn lemma_abs_product_exceeds(m: int, a: int, p: int)
    requires
        a == if m < 0 {
            -m
        } else {
            m
        },
        p >= 1,
        a * p > MAX_MANTISSA as int,
    ensures
        m * p > MAX_MANTISSA as int || m * p < -(MAX_MANTISSA as int),
{
    if m < 0 {
        assert(m * p == -(a * p)) by (nonlinear_arith)
            requires
                a == -m,
        ;
    }
}

} // verus!
