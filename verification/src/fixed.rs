//! A fixed-point scalar: 32 binary digits after the point, saturating at the
//! ends of its range. With it the engine computes the same numbers on every
//! machine.

use vstd::prelude::*;
use vstd::arithmetic::div_mod::{lemma_div_is_ordered, lemma_div_pos_is_pos};
use crate::scalar::Scalar;

verus! {

/// A number held as a multiple of `2^-32`.
#[derive(Clone, Copy, Debug, PartialEq, Eq)]
pub struct Fixed {
    /// The number times `2^32`.
    pub raw: i64,
}

/// The raw value of the number one.
pub open spec fn scale() -> int {
    0x1_0000_0000
}

/// The raw value closest to `value`.
pub open spec fn saturate(value: int) -> i64 {
    if value < i64::MIN {
        i64::MIN
    } else if value > i64::MAX {
        i64::MAX
    } else {
        value as i64
    }
}

/// The quotient of two integers, rounded toward zero. A division by zero
/// gives the end of the range on the side of the dividend.
pub open spec fn quotient(dividend: int, divisor: int) -> int {
    if divisor == 0 {
        if dividend > 0 {
            i64::MAX as int
        } else if dividend < 0 {
            i64::MIN as int
        } else {
            0
        }
    } else if dividend >= 0 && divisor > 0 {
        dividend / divisor
    } else if dividend < 0 && divisor < 0 {
        (-dividend) / (-divisor)
    } else if dividend < 0 {
        -((-dividend) / divisor)
    } else {
        -(dividend / (-divisor))
    }
}

/// Whether `root` is the largest integer whose square is at most `value`.
pub open spec fn is_integer_sqrt(value: int, root: int) -> bool {
    0 <= root && root * root <= value < (root + 1) * (root + 1)
}

/// The largest integer whose square is at most `value`.
pub open spec fn integer_sqrt(value: int) -> int {
    choose|root: int| is_integer_sqrt(value, root)
}

/// The number of terms after the first in the series of the exponential.
pub open spec fn series_terms() -> int {
    12
}

/// The number of times the argument of the exponential is halved before the
/// series, and the result squared after it.
pub open spec fn halvings() -> nat {
    6
}

impl Fixed {
    /// The number one.
    pub open spec fn unit() -> Fixed {
        Fixed { raw: 0x1_0000_0000 }
    }

    /// A power with a natural exponent, by repeated squaring: the square of
    /// the power to half the exponent, times the base where the exponent is
    /// odd.
    pub open spec fn spec_power(self, exponent: nat) -> Fixed
        decreases exponent,
    {
        if exponent == 0 {
            Fixed::unit()
        } else {
            let half = self.spec_power(exponent / 2);
            let square = half.spec_mul(half);
            if exponent % 2 == 1 {
                square.spec_mul(self)
            } else {
                square
            }
        }
    }

    /// The series `1 + x/k * (1 + x/(k+1) * (...))`, cut off after the term
    /// with `series_terms()`: for `k = 1` the start of the series of `exp(x)`.
    pub open spec fn spec_series(self, k: int) -> Fixed
        decreases series_terms() + 1 - k,
    {
        if k > series_terms() || k < 1 {
            Fixed::unit()
        } else {
            Fixed::unit().spec_add(
                self.spec_div(Fixed { raw: saturate(k * scale()) }).spec_mul(self.spec_series(k + 1)),
            )
        }
    }

    /// The number squared `times` times.
    pub open spec fn spec_squared(self, times: nat) -> Fixed
        decreases times,
    {
        if times == 0 {
            self
        } else {
            let inner = self.spec_squared((times - 1) as nat);
            inner.spec_mul(inner)
        }
    }

    /// The exponential of a number that is not negative: the series at a
    /// 64th of the number, squared six times.
    pub open spec fn spec_exp_of_positive(self) -> Fixed {
        self.spec_div(Fixed { raw: 0x40_0000_0000 }).spec_series(1).spec_squared(halvings())
    }
}

/// The raw value closest to `value`.
fn saturated(value: i128) -> (r: i64)
    ensures
        r == saturate(value as int),
{
    if value < -0x8000_0000_0000_0000 {
        -0x8000_0000_0000_0000
    } else if value > 0x7fff_ffff_ffff_ffff {
        0x7fff_ffff_ffff_ffff
    } else {
        value as i64
    }
}

/// The quotient of two integers, rounded toward zero.
fn divided(dividend: i128, divisor: i128) -> (r: i128)
    requires
        -0x4000_0000_0000_0000_0000_0000_0000_0000 <= dividend
            <= 0x4000_0000_0000_0000_0000_0000_0000_0000,
        -0x4000_0000_0000_0000_0000_0000_0000_0000 <= divisor
            <= 0x4000_0000_0000_0000_0000_0000_0000_0000,
    ensures
        r == quotient(dividend as int, divisor as int),
{
    if divisor == 0 {
        if dividend > 0 {
            0x7fff_ffff_ffff_ffff
        } else if dividend < 0 {
            -0x8000_0000_0000_0000
        } else {
            0
        }
    } else if dividend >= 0 && divisor > 0 {
        dividend / divisor
    } else if dividend < 0 && divisor < 0 {
        (-dividend) / (-divisor)
    } else if dividend < 0 {
        -((-dividend) / divisor)
    } else {
        -(dividend / (-divisor))
    }
}

proof fn lemma_square_monotone(smaller: int, larger: int)
    requires
        0 <= smaller <= larger,
    ensures
        smaller * smaller <= larger * larger,
{
    assert(smaller * smaller <= larger * larger) by (nonlinear_arith)
        requires
            0 <= smaller <= larger,
    ;
}

/// There is one integer root only: a root found is the integer square root.
pub proof fn lemma_integer_sqrt_unique(value: int, root: int)
    requires
        is_integer_sqrt(value, root),
    ensures
        integer_sqrt(value) == root,
{
    let chosen = integer_sqrt(value);
    if chosen < root {
        lemma_square_monotone(chosen + 1, root);
    } else if chosen > root {
        lemma_square_monotone(root + 1, chosen);
    }
}

/// The largest integer whose square is at most `value`.
fn integer_sqrt_of(value: i128) -> (r: i128)
    requires
        0 <= value < 0x1_0000_0000_0000_0000_0000_0000,
    ensures
        r == integer_sqrt(value as int),
        0 <= r < 0x1_0000_0000_0000,
{
    let mut low: i128 = 0;
    let mut high: i128 = 0x1_0000_0000_0000;
    assert(0x1_0000_0000_0000int * 0x1_0000_0000_0000int == 0x1_0000_0000_0000_0000_0000_0000int)
        by (nonlinear_arith);
    while high - low > 1
        invariant
            0 <= low < high <= 0x1_0000_0000_0000,
            low * low <= value < high * high,
        decreases high - low,
    {
        let middle = low + (high - low) / 2;
        proof {
            lemma_square_monotone(middle as int, 0x1_0000_0000_0000);
        }
        if middle * middle <= value {
            low = middle;
        } else {
            high = middle;
        }
    }
    proof {
        lemma_integer_sqrt_unique(value as int, low as int);
    }
    low
}

impl Fixed {
    /// A power with a natural exponent, by repeated squaring.
    pub fn power(self, exponent: u32) -> (r: Fixed)
        ensures
            r == self.spec_power(exponent as nat),
        decreases exponent,
    {
        if exponent == 0 {
            Fixed { raw: 0x1_0000_0000 }
        } else {
            let half = self.power(exponent / 2);
            let square = half.mul(half);
            if exponent % 2 == 1 {
                square.mul(self)
            } else {
                square
            }
        }
    }

    /// The exponential of a number that is not negative.
    pub fn exp_of_positive(self) -> (r: Fixed)
        ensures
            r == self.spec_exp_of_positive(),
    {
        let reduced = self.div(Fixed { raw: 0x40_0000_0000 });
        let mut sum = Fixed { raw: 0x1_0000_0000 };
        let mut k: i64 = 12;
        while k >= 1
            invariant
                0 <= k <= 12,
                sum == reduced.spec_series(k + 1),
            decreases k,
        {
            let term = reduced.div(Fixed { raw: saturated(k as i128 * 0x1_0000_0000) });
            sum = Fixed { raw: 0x1_0000_0000 }.add(term.mul(sum));
            k -= 1;
        }
        let mut squared = sum;
        let mut times: u32 = 0;
        while times < 6
            invariant
                times <= 6,
                squared == sum.spec_squared(times as nat),
            decreases 6 - times,
        {
            squared = squared.mul(squared);
            times += 1;
        }
        squared
    }
}

impl Scalar for Fixed {
    open spec fn spec_from_ratio(num: i64, den: i64) -> Self {
        Fixed { raw: saturate(quotient(num * scale(), den as int)) }
    }

    open spec fn spec_add(self, rhs: Self) -> Self {
        Fixed { raw: saturate(self.raw + rhs.raw) }
    }

    open spec fn spec_sub(self, rhs: Self) -> Self {
        Fixed { raw: saturate(self.raw - rhs.raw) }
    }

    open spec fn spec_mul(self, rhs: Self) -> Self {
        Fixed { raw: saturate(quotient(self.raw * rhs.raw, scale())) }
    }

    open spec fn spec_div(self, rhs: Self) -> Self {
        Fixed { raw: saturate(quotient(self.raw * scale(), rhs.raw as int)) }
    }

    open spec fn spec_neg(self) -> Self {
        Fixed { raw: saturate(-self.raw) }
    }

    open spec fn spec_abs(self) -> Self {
        if self.raw < 0 {
            Fixed { raw: saturate(-self.raw) }
        } else {
            self
        }
    }

    /// The square root, rounded down to a multiple of `2^-32`; zero for a
    /// negative number.
    open spec fn spec_sqrt(self) -> Self {
        if self.raw <= 0 {
            Fixed { raw: 0 }
        } else {
            Fixed { raw: saturate(integer_sqrt(self.raw * scale())) }
        }
    }

    /// The power by repeated squaring; for a negative exponent the inverse
    /// of the power with the exponent's magnitude.
    open spec fn spec_powi(self, exponent: i32) -> Self {
        if exponent >= 0 {
            self.spec_power(exponent as nat)
        } else {
            Fixed::unit().spec_div(self.spec_power((-exponent) as nat))
        }
    }

    /// The exponential by its series; for a negative number the inverse of
    /// the exponential of its magnitude.
    open spec fn spec_exp(self) -> Self {
        if self.raw < 0 {
            Fixed::unit().spec_div(self.spec_neg().spec_exp_of_positive())
        } else {
            self.spec_exp_of_positive()
        }
    }

    open spec fn spec_less(self, rhs: Self) -> bool {
        self.raw < rhs.raw
    }

    open spec fn spec_less_eq(self, rhs: Self) -> bool {
        self.raw <= rhs.raw
    }

    open spec fn spec_equals(self, rhs: Self) -> bool {
        self.raw == rhs.raw
    }

    fn from_ratio(num: i64, den: i64) -> (r: Self) {
        Fixed { raw: saturated(divided(num as i128 * 0x1_0000_0000, den as i128)) }
    }

    fn add(self, rhs: Self) -> (r: Self) {
        Fixed { raw: saturated(self.raw as i128 + rhs.raw as i128) }
    }

    fn sub(self, rhs: Self) -> (r: Self) {
        Fixed { raw: saturated(self.raw as i128 - rhs.raw as i128) }
    }

    fn mul(self, rhs: Self) -> (r: Self) {
        proof {
            let a = self.raw as int;
            let b = rhs.raw as int;
            assert(-0x4000_0000_0000_0000_0000_0000_0000_0000 <= a * b
                <= 0x4000_0000_0000_0000_0000_0000_0000_0000) by (nonlinear_arith)
                requires
                    -0x8000_0000_0000_0000 <= a <= 0x7fff_ffff_ffff_ffff,
                    -0x8000_0000_0000_0000 <= b <= 0x7fff_ffff_ffff_ffff,
            ;
        }
        Fixed { raw: saturated(divided(self.raw as i128 * rhs.raw as i128, 0x1_0000_0000)) }
    }

    fn div(self, rhs: Self) -> (r: Self) {
        Fixed { raw: saturated(divided(self.raw as i128 * 0x1_0000_0000, rhs.raw as i128)) }
    }

    fn neg(self) -> (r: Self) {
        Fixed { raw: saturated(-(self.raw as i128)) }
    }

    fn abs(self) -> (r: Self) {
        if self.raw < 0 {
            Fixed { raw: saturated(-(self.raw as i128)) }
        } else {
            self
        }
    }

    fn sqrt(self) -> (r: Self) {
        if self.raw <= 0 {
            Fixed { raw: 0 }
        } else {
            Fixed { raw: saturated(integer_sqrt_of(self.raw as i128 * 0x1_0000_0000)) }
        }
    }

    fn powi(self, exponent: i32) -> (r: Self) {
        if exponent >= 0 {
            self.power(exponent as u32)
        } else {
            let magnitude: u32 = (-(exponent as i64)) as u32;
            Fixed { raw: 0x1_0000_0000 }.div(self.power(magnitude))
        }
    }

    fn exp(self) -> (r: Self) {
        if self.raw < 0 {
            Fixed { raw: 0x1_0000_0000 }.div(self.neg().exp_of_positive())
        } else {
            self.exp_of_positive()
        }
    }

    fn less(self, rhs: Self) -> (r: bool) {
        self.raw < rhs.raw
    }

    fn less_eq(self, rhs: Self) -> (r: bool) {
        self.raw <= rhs.raw
    }

    fn equals(self, rhs: Self) -> (r: bool) {
        self.raw == rhs.raw
    }
}

/// A quotient has the sign of its dividend, or is zero, where the divisor is
/// not negative.
pub proof fn lemma_quotient_sign(dividend: int, divisor: int)
    requires
        0 <= divisor,
    ensures
        0 <= dividend ==> 0 <= quotient(dividend, divisor),
        dividend <= 0 ==> quotient(dividend, divisor) <= 0,
{
    if divisor > 0 {
        if dividend >= 0 {
            lemma_div_pos_is_pos(dividend, divisor);
        } else {
            lemma_div_pos_is_pos(-dividend, divisor);
        }
    }
}

/// Dividing by a positive divisor keeps the order of the dividends.
pub proof fn lemma_quotient_order(smaller: int, larger: int, divisor: int)
    requires
        smaller <= larger,
        0 < divisor,
    ensures
        quotient(smaller, divisor) <= quotient(larger, divisor),
{
    lemma_quotient_sign(smaller, divisor);
    lemma_quotient_sign(larger, divisor);
    if smaller >= 0 {
        lemma_div_is_ordered(smaller, larger, divisor);
    } else if larger < 0 {
        lemma_div_is_ordered(-larger, -smaller, divisor);
    }
}

/// A product has the sign that the signs of its factors give it, or is zero.
pub proof fn lemma_mul_sign(a: Fixed, b: Fixed)
    ensures
        (0 <= a.raw && 0 <= b.raw) || (a.raw <= 0 && b.raw <= 0) ==> 0 <= a.spec_mul(b).raw,
        (0 <= a.raw && b.raw <= 0) || (a.raw <= 0 && 0 <= b.raw) ==> a.spec_mul(b).raw <= 0,
{
    let x = a.raw as int;
    let y = b.raw as int;
    assert((0 <= x && 0 <= y) || (x <= 0 && y <= 0) ==> 0 <= x * y) by (nonlinear_arith);
    assert((0 <= x && y <= 0) || (x <= 0 && 0 <= y) ==> x * y <= 0) by (nonlinear_arith);
    lemma_quotient_sign(x * y, scale());
}

/// Multiplying by a factor that is not negative keeps the order of the other
/// factors; multiplying by one that is not positive turns it round.
pub proof fn lemma_mul_order(smaller: Fixed, larger: Fixed, factor: Fixed)
    requires
        smaller.raw <= larger.raw,
    ensures
        0 <= factor.raw ==> smaller.spec_mul(factor).raw <= larger.spec_mul(factor).raw,
        0 <= factor.raw ==> factor.spec_mul(smaller).raw <= factor.spec_mul(larger).raw,
        factor.raw <= 0 ==> larger.spec_mul(factor).raw <= smaller.spec_mul(factor).raw,
        factor.raw <= 0 ==> factor.spec_mul(larger).raw <= factor.spec_mul(smaller).raw,
{
    let a = smaller.raw as int;
    let b = larger.raw as int;
    let x = factor.raw as int;
    assert(a * x == x * a && b * x == x * b) by (nonlinear_arith);
    if x >= 0 {
        assert(a * x <= b * x) by (nonlinear_arith)
            requires
                a <= b,
                0 <= x,
        ;
        lemma_quotient_order(a * x, b * x, scale());
    }
    if x <= 0 {
        assert(b * x <= a * x) by (nonlinear_arith)
            requires
                a <= b,
                x <= 0,
        ;
        lemma_quotient_order(b * x, a * x, scale());
    }
}

/// A quotient by a divisor that is not negative has the sign of its
/// dividend, or is zero.
pub proof fn lemma_div_sign(dividend: Fixed, divisor: Fixed)
    requires
        0 <= divisor.raw,
    ensures
        0 <= dividend.raw ==> 0 <= dividend.spec_div(divisor).raw,
        dividend.raw <= 0 ==> dividend.spec_div(divisor).raw <= 0,
{
    let x = dividend.raw as int;
    assert(0 <= x ==> 0 <= x * scale()) by (nonlinear_arith)
        requires
            scale() == 0x1_0000_0000,
    ;
    assert(x <= 0 ==> x * scale() <= 0) by (nonlinear_arith)
        requires
            scale() == 0x1_0000_0000,
    ;
    lemma_quotient_sign(x * scale(), divisor.raw as int);
}

/// Multiplying by one and dividing by one change nothing.
pub proof fn lemma_unit_is_neutral(value: Fixed)
    ensures
        value.spec_mul(Fixed::unit()) == value,
        Fixed::unit().spec_mul(value) == value,
        value.spec_div(Fixed::unit()) == value,
{
    let x = value.raw as int;
    assert(x * scale() == scale() * x) by (nonlinear_arith);
    if x >= 0 {
        vstd::arithmetic::div_mod::lemma_div_multiples_vanish(x, scale());
    } else {
        vstd::arithmetic::div_mod::lemma_div_multiples_vanish(-x, scale());
        assert(-(x * scale()) == scale() * (-x)) by (nonlinear_arith);
    }
}

/// The powers of a number between zero and one lie between zero and one.
pub proof fn lemma_power_in_unit_interval(base: Fixed, exponent: nat)
    requires
        0 <= base.raw <= scale(),
    ensures
        0 <= base.spec_power(exponent).raw <= scale(),
    decreases exponent,
{
    if exponent > 0 {
        lemma_power_in_unit_interval(base, exponent / 2);
        let half = base.spec_power(exponent / 2);
        lemma_product_in_unit_interval(half, half);
        lemma_product_in_unit_interval(half.spec_mul(half), base);
    }
}

/// The product of two numbers between zero and one lies between zero and
/// one.
pub proof fn lemma_product_in_unit_interval(a: Fixed, b: Fixed)
    requires
        0 <= a.raw <= scale(),
        0 <= b.raw <= scale(),
    ensures
        0 <= a.spec_mul(b).raw <= scale(),
{
    let x = a.raw as int;
    let y = b.raw as int;
    assert(0 <= x * y <= scale() * scale()) by (nonlinear_arith)
        requires
            0 <= x <= scale(),
            0 <= y <= scale(),
    ;
    lemma_quotient_sign(x * y, scale());
    lemma_quotient_order(x * y, scale() * scale(), scale());
    vstd::arithmetic::div_mod::lemma_div_multiples_vanish(scale(), scale());
}

/// Every number that is not negative has an integer square root.
pub proof fn lemma_integer_sqrt_exists(value: int)
    requires
        0 <= value,
    ensures
        is_integer_sqrt(value, integer_sqrt(value)),
    decreases value,
{
    if value == 0 {
        assert(is_integer_sqrt(0, 0));
    } else {
        lemma_integer_sqrt_exists(value - 1);
        let root = integer_sqrt(value - 1);
        assert((root + 2) * (root + 2) > (root + 1) * (root + 1)) by (nonlinear_arith)
            requires
                0 <= root,
        ;
        if (root + 1) * (root + 1) <= value {
            assert(is_integer_sqrt(value, root + 1));
        } else {
            assert(is_integer_sqrt(value, root));
        }
    }
}

/// A square root is not negative.
pub proof fn lemma_sqrt_is_not_negative(value: Fixed)
    ensures
        0 <= value.spec_sqrt().raw,
{
    if value.raw > 0 {
        assert(0 <= value.raw * scale()) by (nonlinear_arith)
            requires
                0 < value.raw,
                scale() == 0x1_0000_0000,
        ;
        lemma_integer_sqrt_exists(value.raw * scale());
    }
}

} // verus!
