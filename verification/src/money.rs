//! Fixed-point decimal amounts (prices, quantities, costs).
//!
//! A `Dec` is `mantissa / 10^scale` with a 96-bit mantissa and a scale of at
//! most 28 — the representation of `rust_decimal::Decimal`. Arithmetic,
//! comparison, formatting and parsing are done by `rust_decimal`; the wrappers
//! below state what its source shows of each operation.
use vstd::prelude::*;

verus! {

/// 2^96: every mantissa lies strictly between its negation and itself.
pub const MANTISSA_BOUND: i128 = 79228162514264337593543950336;

/// Largest scale (number of fractional digits).
pub const MAX_SCALE: u32 = 28;

pub open spec fn pow10(n: nat) -> int
    decreases n,
{
    if n == 0 {
        1
    } else {
        10 * pow10((n - 1) as nat)
    }
}

pub open spec fn abs(x: int) -> int {
    if x < 0 {
        -x
    } else {
        x
    }
}

/// A decimal number `mantissa / 10^scale`.
#[derive(Clone, Copy, Debug)]
pub struct Dec {
    pub mantissa: i128,
    pub scale: u32,
}

/// Name for the result `rust_decimal` gives for a sum that needs rounding.
pub uninterp spec fn decimal_sum_rounded(am: int, ascale: int, bm: int, bscale: int) -> (int, int);

/// Name for the result `rust_decimal` gives for a product that needs rounding.
pub uninterp spec fn decimal_product_rounded(am: int, ascale: int, bm: int, bscale: int) -> (int, int);

/// Name for the quotient `rust_decimal` computes (rounded to at most 28 places).
pub uninterp spec fn decimal_quotient(am: int, ascale: int, bm: int, bscale: int) -> (int, int);

/// Name for the text `Display` gives a decimal.
pub uninterp spec fn decimal_text(m: int, scale: int) -> Seq<char>;

/// Name for the text `{:.N}` formatting gives a decimal.
pub uninterp spec fn decimal_text_fixed(m: int, scale: int, places: int) -> Seq<char>;

/// Name for what `str::parse::<Decimal>` reads from a string.
pub uninterp spec fn decimal_parse(s: Seq<char>) -> Option<(int, int)>;

impl Dec {
    /// The mantissa is below 2^96 in magnitude and the scale at most 28.
    pub open spec fn wf(self) -> bool {
        -MANTISSA_BOUND < self.mantissa < MANTISSA_BOUND && self.scale <= MAX_SCALE
    }

    /// The mantissa.
    pub open spec fn m(self) -> int {
        self.mantissa as int
    }

    /// The scale.
    pub open spec fn s(self) -> int {
        self.scale as int
    }

    /// The value scaled to the finest grain: `mantissa * 10^(28 - scale)`.
    pub open spec fn units(self) -> int {
        self.mantissa * pow10((MAX_SCALE - self.scale) as nat)
    }

    pub open spec fn pair(p: (int, int)) -> Dec {
        Dec { mantissa: p.0 as i128, scale: p.1 as u32 }
    }

    pub open spec fn spec_new(m: int, s: int) -> Dec {
        Dec { mantissa: m as i128, scale: s as u32 }
    }

    /// `num / 10^scale` (as `Decimal::new`).
    pub fn new(num: i64, scale: u32) -> (res: Dec)
        requires
            scale <= MAX_SCALE,
        ensures
            res == Dec::spec_new(num as int, scale as int),
            res.wf(),
    {
        Dec { mantissa: num as i128, scale }
    }

    /// A decimal from its parts, when they are in range.
    pub fn from_parts(mantissa: i128, scale: u32) -> (res: Option<Dec>)
        ensures
            res is Some <==> (-MANTISSA_BOUND < mantissa < MANTISSA_BOUND && scale <= MAX_SCALE),
            res matches Some(d) ==> d == Dec::spec_new(mantissa as int, scale as int) && d.wf(),
    {
        if -MANTISSA_BOUND < mantissa && mantissa < MANTISSA_BOUND && scale <= MAX_SCALE {
            Some(Dec { mantissa, scale })
        } else {
            None
        }
    }

    pub fn mantissa(&self) -> (res: i128)
        ensures
            res == self.m(),
    {
        self.mantissa
    }

    pub fn scale(&self) -> (res: u32)
        ensures
            res == self.s(),
    {
        self.scale
    }

    pub open spec fn zero_spec() -> Dec {
        Dec::spec_new(0, 0)
    }

    pub open spec fn one_spec() -> Dec {
        Dec::spec_new(1, 0)
    }

    pub open spec fn int_spec(n: int) -> Dec {
        Dec::spec_new(n, 0)
    }

    /// Zero.
    pub fn zero() -> (res: Dec)
        ensures
            res == Dec::zero_spec(),
            res.wf(),
    {
        Dec { mantissa: 0, scale: 0 }
    }

    /// One.
    pub fn one() -> (res: Dec)
        ensures
            res == Dec::one_spec(),
            res.wf(),
    {
        Dec { mantissa: 1, scale: 0 }
    }

    /// The integer `n` (as `Decimal::from(u64)`).
    pub fn from_u64(n: u64) -> (res: Dec)
        ensures
            res == Dec::int_spec(n as int),
            res.wf(),
    {
        Dec { mantissa: n as i128, scale: 0 }
    }

    /// `a` is greater than `b` in value.
    pub open spec fn gt(a: Dec, b: Dec) -> bool {
        a.units() > b.units()
    }

    /// `a` and `b` have the same value.
    pub open spec fn same_value(a: Dec, b: Dec) -> bool {
        a.units() == b.units()
    }

    /// The larger of the two scales.
    pub open spec fn max_scale(a: Dec, b: Dec) -> int {
        if a.scale >= b.scale { a.s() } else { b.s() }
    }

    /// Both mantissas aligned to the larger scale and added.
    pub open spec fn aligned_sum(a: Dec, b: Dec) -> int {
        let sc = Dec::max_scale(a, b);
        a.m() * pow10((sc - a.s()) as nat) + b.m() * pow10((sc - b.s()) as nat)
    }

    /// The sum needs no rounding.
    pub open spec fn add_exact(a: Dec, b: Dec) -> bool {
        a.m() == 0 || b.m() == 0 || abs(Dec::aligned_sum(a, b)) < MANTISSA_BOUND
    }

    /// The sum, as `Decimal + Decimal` gives it.
    pub open spec fn add(a: Dec, b: Dec) -> Dec {
        if a.m() == 0 {
            b
        } else if b.m() == 0 {
            a
        } else if abs(Dec::aligned_sum(a, b)) < MANTISSA_BOUND {
            Dec::spec_new(Dec::aligned_sum(a, b), Dec::max_scale(a, b))
        } else {
            Dec::pair(decimal_sum_rounded(a.m(), a.s(), b.m(), b.s()))
        }
    }

    /// The product needs no rounding.
    pub open spec fn mul_exact(a: Dec, b: Dec) -> bool {
        a.m() == 0 || b.m() == 0 || (a.s() + b.s() <= MAX_SCALE && abs(a.m() * b.m())
            < MANTISSA_BOUND)
    }

    /// The product, as `Decimal * Decimal` gives it.
    pub open spec fn mul(a: Dec, b: Dec) -> Dec {
        if a.m() == 0 || b.m() == 0 {
            Dec::zero_spec()
        } else if a.s() + b.s() <= MAX_SCALE && abs(a.m() * b.m()) < MANTISSA_BOUND {
            Dec::spec_new(a.m() * b.m(), a.s() + b.s())
        } else {
            Dec::pair(decimal_product_rounded(a.m(), a.s(), b.m(), b.s()))
        }
    }

    /// The division is the exact fast path of the division code.
    pub open spec fn div_exact(a: Dec, b: Dec) -> bool {
        a.m() == 0 || (abs(b.m()) < 0x1_0000_0000 && a.s() >= b.s() && b.m() != 0 && a.m()
            % b.m() == 0)
    }

    /// The quotient, as `Decimal / Decimal` gives it.
    pub open spec fn div(a: Dec, b: Dec) -> Dec {
        if a.m() == 0 {
            Dec::zero_spec()
        } else if abs(b.m()) < 0x1_0000_0000 && a.s() >= b.s() && b.m() != 0 && a.m() % b.m()
            == 0 {
            Dec::spec_new(a.m() / b.m(), a.s() - b.s())
        } else {
            Dec::pair(decimal_quotient(a.m(), a.s(), b.m(), b.s()))
        }
    }

    /// `Display` text.
    pub open spec fn text(a: Dec) -> Seq<char> {
        decimal_text(a.m(), a.s())
    }

    /// Text with exactly `places` fractional digits (`{:.places}`).
    pub open spec fn text_fixed(a: Dec, places: int) -> Seq<char> {
        decimal_text_fixed(a.m(), a.s(), places)
    }

    /// What parsing `s` yields.
    pub open spec fn parsed(s: Seq<char>) -> Option<Dec> {
        match decimal_parse(s) {
            Some(p) => Some(Dec::pair(p)),
            None => None,
        }
    }

    /// The sum does not overflow: its value is at most 2^96 - 1.
    pub open spec fn add_ok(a: Dec, b: Dec) -> bool {
        abs(a.units() + b.units()) <= (MANTISSA_BOUND - 1) * pow10(MAX_SCALE as nat)
    }

    /// The product does not overflow: its value is at most 2^96 - 1.
    pub open spec fn mul_ok(a: Dec, b: Dec) -> bool {
        abs(a.m() * b.m()) <= (MANTISSA_BOUND - 1) * pow10((a.s() + b.s()) as nat)
    }

    /// The divisor is non-zero and the quotient is at most 2^96 - 1.
    pub open spec fn div_ok(a: Dec, b: Dec) -> bool {
        b.m() != 0 && abs(a.m()) * pow10(b.s() as nat) <= (MANTISSA_BOUND - 1) * abs(b.m())
            * pow10(a.s() as nat)
    }

    /// The integer part, when the value is non-negative and below 2^64
    /// (as `ToPrimitive::to_u64`).
    pub open spec fn to_u64_spec(a: Dec) -> Option<u64> {
        if a.mantissa < 0 {
            None
        } else if (a.mantissa as int) / pow10(a.scale as nat) < 0x1_0000_0000_0000_0000 {
            Some(((a.mantissa as int) / pow10(a.scale as nat)) as u64)
        } else {
            None
        }
    }

    /// The integer part when it is a `u64` (`to_u64`), computed by truncating
    /// digit by digit.
    pub fn to_u64(&self) -> (res: Option<u64>)
        ensures
            res == Dec::to_u64_spec(*self),
    {
        if self.mantissa < 0 {
            return None;
        }
        let mut q: i128 = self.mantissa;
        let mut k: u32 = 0;
        while k < self.scale
            invariant
                0 <= k <= self.scale,
                0 <= q,
                self.mantissa >= 0,
                q == (self.mantissa as int) / pow10(k as nat),
            decreases self.scale - k,
        {
            proof {
                lemma_div_step(self.mantissa as int, k as nat);
            }
            q = q / 10;
            k = k + 1;
        }
        if q < 0x1_0000_0000_0000_0000i128 {
            Some(q as u64)
        } else {
            None
        }
    }
}

pub proof fn lemma_pow10_pos(n: nat)
    ensures
        pow10(n) >= 1,
    decreases n,
{
    if n > 0 {
        lemma_pow10_pos((n - 1) as nat);
    }
}

/// Dividing a well-formed decimal by a positive integer below 2^32 never
/// overflows.
pub proof fn lemma_div_by_int_ok(a: Dec, n: int)
    requires
        a.wf(),
        1 <= n < 0x1_0000_0000,
    ensures
        Dec::div_ok(a, Dec::int_spec(n)),
        Dec::int_spec(n).wf(),
{
    let b = Dec::int_spec(n);
    assert(b.m() == n);
    assert(b.s() == 0);
    assert(pow10(0) == 1);
    lemma_pow10_pos(a.s() as nat);
    let p = pow10(a.s() as nat);
    let x = abs(a.m());
    assert(x < MANTISSA_BOUND);
    let big: int = MANTISSA_BOUND - 1;
    assert(n * p >= 1) by (nonlinear_arith)
        requires
            n >= 1,
            p >= 1,
    ;
    assert(big * (n * p) >= big) by (nonlinear_arith)
        requires
            n * p >= 1,
            big >= 0,
    ;
    assert(big * n * p == big * (n * p)) by (nonlinear_arith);
    assert(x * 1 <= big * n * p);
}

/// Multiplying a well-formed decimal by a non-negative integer does not
/// overflow when the mantissa times the integer stays below 2^96 - 1.
pub proof fn lemma_mul_by_int_ok(a: Dec, n: int)
    requires
        a.wf(),
        0 <= n < 0x1_0000_0000,
        abs(a.m()) * n < MANTISSA_BOUND - 1,
    ensures
        Dec::mul_ok(a, Dec::int_spec(n)),
        Dec::int_spec(n).wf(),
{
    let b = Dec::int_spec(n);
    assert(b.m() == n);
    assert(b.s() == 0);
    lemma_pow10_pos(a.s() as nat);
    let p = pow10((a.s() + b.s()) as nat);
    let x = a.m();
    assert(abs(x * n) == abs(x) * n) by (nonlinear_arith)
        requires
            n >= 0,
    ;
    assert(abs(x) * n <= (MANTISSA_BOUND - 1) * p) by (nonlinear_arith)
        requires
            abs(x) * n < MANTISSA_BOUND - 1,
            p >= 1,
    ;
}

/// A product that does not overflow keeps not overflowing when the integer
/// factor shrinks.
pub proof fn lemma_mul_ok_smaller(a: Dec, n: int, k: int)
    requires
        a.wf(),
        0 <= k <= n < 0x1_0000_0000,
        Dec::mul_ok(a, Dec::int_spec(n)),
    ensures
        Dec::mul_ok(a, Dec::int_spec(k)),
{
    let x = a.m();
    assert(Dec::int_spec(n).m() == n && Dec::int_spec(n).s() == 0);
    assert(Dec::int_spec(k).m() == k && Dec::int_spec(k).s() == 0);
    assert(abs(x * k) <= abs(x * n)) by (nonlinear_arith)
        requires
            0 <= k <= n,
    ;
}

proof fn lemma_div_step(m: int, k: nat)
    requires
        m >= 0,
    ensures
        m / pow10(k + 1) == (m / pow10(k)) / 10,
{
    lemma_pow10_pos(k);
    assert(pow10(k + 1) == 10 * pow10(k));
    vstd::arithmetic::div_mod::lemma_div_denominator(m, pow10(k), 10);
    assert(pow10(k) * 10 == 10 * pow10(k)) by (nonlinear_arith);
}

/// A zero mantissa has no value.
proof fn lemma_units_zero(a: Dec)
    requires
        a.m() == 0,
    ensures
        a.units() == 0,
{
    let p = pow10((MAX_SCALE - a.s()) as nat);
    assert(a.m() * p == 0) by (nonlinear_arith)
        requires
            a.m() == 0,
    ;
}

/// A sum that needs no rounding has the value of the two values added.
pub proof fn lemma_units_add(a: Dec, b: Dec)
    requires
        a.wf(),
        b.wf(),
        Dec::add_exact(a, b),
    ensures
        Dec::add(a, b).units() == a.units() + b.units(),
        Dec::add(a, b).wf(),
{
    if a.m() == 0 {
        lemma_units_zero(a);
    } else if b.m() == 0 {
        lemma_units_zero(b);
    } else {
        let sc = Dec::max_scale(a, b);
        let r = Dec::add(a, b);
        let sum = Dec::aligned_sum(a, b);
        assert(r.mantissa as int == sum);
        assert(r.scale as int == sc);
        let pa = pow10((sc - a.s()) as nat);
        let pb = pow10((sc - b.s()) as nat);
        let pc = pow10((MAX_SCALE - sc) as nat);
        assert(r.units() == sum * pc);
        crate::estimate::lemma_pow10_add((sc - a.s()) as nat, (MAX_SCALE - sc) as nat);
        crate::estimate::lemma_pow10_add((sc - b.s()) as nat, (MAX_SCALE - sc) as nat);
        assert(((sc - a.s()) as nat + (MAX_SCALE - sc) as nat) == (MAX_SCALE - a.s()) as nat);
        assert(((sc - b.s()) as nat + (MAX_SCALE - sc) as nat) == (MAX_SCALE - b.s()) as nat);
        assert(a.units() == a.m() * (pa * pc));
        assert(b.units() == b.m() * (pb * pc));
        assert(sum == a.m() * pa + b.m() * pb);
        assert((a.m() * pa + b.m() * pb) * pc == a.m() * (pa * pc) + b.m() * (pb * pc))
            by (nonlinear_arith);
    }
}

/// A product that needs no rounding has the product of the two values (on
/// the finest grain, scaled once more by 10^28).
pub proof fn lemma_units_mul(a: Dec, b: Dec)
    requires
        a.wf(),
        b.wf(),
        Dec::mul_exact(a, b),
    ensures
        Dec::mul(a, b).units() * pow10(MAX_SCALE as nat) == a.units() * b.units(),
        Dec::mul(a, b).wf(),
{
    let pa = pow10((MAX_SCALE - a.s()) as nat);
    let pb = pow10((MAX_SCALE - b.s()) as nat);
    let p28 = pow10(MAX_SCALE as nat);
    if a.m() == 0 || b.m() == 0 {
        lemma_units_zero(Dec::zero_spec());
        if a.m() == 0 {
            lemma_units_zero(a);
        } else {
            lemma_units_zero(b);
        }
        assert(a.units() * b.units() == 0) by (nonlinear_arith)
            requires
                a.units() == 0 || b.units() == 0,
        ;
        assert(0 * p28 == 0);
    } else {
        let r = Dec::mul(a, b);
        let m = a.m() * b.m();
        assert(r.mantissa as int == m);
        assert(r.scale as int == a.s() + b.s());
        let pr = pow10((MAX_SCALE - a.s() - b.s()) as nat);
        assert(r.units() == m * pr);
        crate::estimate::lemma_pow10_add((MAX_SCALE - a.s()) as nat, (MAX_SCALE - b.s()) as nat);
        crate::estimate::lemma_pow10_add((MAX_SCALE - a.s() - b.s()) as nat, MAX_SCALE as nat);
        assert(((MAX_SCALE - a.s()) as nat + (MAX_SCALE - b.s()) as nat) == ((MAX_SCALE - a.s() - b.s())
            as nat + MAX_SCALE as nat));
        assert(pa * pb == pr * p28);
        assert(a.units() == a.m() * pa);
        assert(b.units() == b.m() * pb);
        assert((a.m() * pa) * (b.m() * pb) == (a.m() * b.m()) * (pa * pb)) by (nonlinear_arith);
        assert((m * pr) * p28 == m * (pr * p28)) by (nonlinear_arith);
    }
}

/// A product by a whole number that needs no rounding has that multiple of
/// the value.
pub proof fn lemma_units_mul_int(a: Dec, k: int)
    requires
        a.wf(),
        0 <= k < MANTISSA_BOUND,
        Dec::mul_exact(a, Dec::int_spec(k)),
    ensures
        Dec::mul(a, Dec::int_spec(k)).units() == k * a.units(),
        Dec::mul(a, Dec::int_spec(k)).wf(),
{
    let p = pow10((MAX_SCALE - a.s()) as nat);
    let kd = Dec::int_spec(k);
    assert(kd.m() == k && kd.s() == 0);
    if a.m() != 0 && k != 0 {
        let r = Dec::mul(a, kd);
        assert(abs(a.m() * k) < MANTISSA_BOUND);
        assert(r.mantissa as int == a.m() * k);
        assert(r.scale as int == a.s());
        assert(r.units() == (a.m() * k) * p);
        assert(a.m() * k * p == k * (a.m() * p)) by (nonlinear_arith);
    } else if k == 0 {
        lemma_units_zero(Dec::zero_spec());
        assert(k * a.units() == 0) by (nonlinear_arith)
            requires
                k == 0,
        ;
    } else {
        lemma_units_zero(a);
        lemma_units_zero(Dec::zero_spec());
    }
}

/// A quotient by a whole number taken on the exact path is that fraction of
/// the value.
pub proof fn lemma_units_div_int(a: Dec, k: int)
    requires
        a.wf(),
        0 < k < 0x1_0000_0000,
        Dec::div_exact(a, Dec::int_spec(k)),
    ensures
        Dec::div(a, Dec::int_spec(k)).units() * k == a.units(),
        Dec::div(a, Dec::int_spec(k)).wf(),
{
    let p = pow10((MAX_SCALE - a.s()) as nat);
    let kd = Dec::int_spec(k);
    assert(kd.m() == k && kd.s() == 0);
    if a.m() != 0 {
        let q = a.m() / k;
        assert(a.m() == q * k) by (nonlinear_arith)
            requires
                a.m() % k == 0,
                q == a.m() / k,
                k > 0,
        ;
        assert(-MANTISSA_BOUND < q < MANTISSA_BOUND) by (nonlinear_arith)
            requires
                a.m() == q * k,
                k >= 1,
                -MANTISSA_BOUND < a.m() < MANTISSA_BOUND,
        ;
        let r = Dec::div(a, kd);
        assert(r.mantissa as int == q);
        assert(r.scale as int == a.s());
        assert(r.units() == q * p);
        assert(q * p * k == (q * k) * p) by (nonlinear_arith);
    } else {
        lemma_units_zero(a);
        lemma_units_zero(Dec::zero_spec());
    }
}

/// Calls `Decimal + Decimal`. Claimed (from the addition code): a zero operand
/// gives the other operand unchanged; when the sum aligned to the larger
/// scale fits in 96 bits it is that sum at that scale; otherwise the result is
/// `decimal_sum_rounded`. It panics only on a sum beyond 2^96 - 1, which
/// `add_ok` excludes.
#[verifier::external_body]
pub(crate) fn dec_add(a: Dec, b: Dec) -> (res: Dec)
    requires
        a.wf(),
        b.wf(),
        Dec::add_ok(a, b),
    ensures
        res.wf(),
        res == Dec::add(a, b),
        !Dec::add_exact(a, b) ==> (res.m(), res.s()) == decimal_sum_rounded(a.m(), a.s(), b.m(), b.s()),
{
    let x = rust_decimal::Decimal::from_i128_with_scale(a.mantissa, a.scale);
    let y = rust_decimal::Decimal::from_i128_with_scale(b.mantissa, b.scale);
    let r = x + y;
    Dec { mantissa: r.mantissa(), scale: r.scale() }
}

/// Calls `Decimal * Decimal`. Claimed (from the multiplication code): a zero
/// operand gives zero at scale 0; when the scales add up to at most 28 and the
/// product of the mantissas fits in 96 bits, that product at the summed scale;
/// otherwise `decimal_product_rounded`. It panics only when the value exceeds
/// 2^96 - 1, which `mul_ok` excludes.
#[verifier::external_body]
pub(crate) fn dec_mul(a: Dec, b: Dec) -> (res: Dec)
    requires
        a.wf(),
        b.wf(),
        Dec::mul_ok(a, b),
    ensures
        res.wf(),
        res == Dec::mul(a, b),
        !Dec::mul_exact(a, b) ==> (res.m(), res.s()) == decimal_product_rounded(a.m(), a.s(), b.m(), b.s()),
{
    let x = rust_decimal::Decimal::from_i128_with_scale(a.mantissa, a.scale);
    let y = rust_decimal::Decimal::from_i128_with_scale(b.mantissa, b.scale);
    let r = x * y;
    Dec { mantissa: r.mantissa(), scale: r.scale() }
}

/// Calls `Decimal / Decimal`. Claimed (from the division code): a zero
/// dividend gives zero at scale 0; a divisor below 2^32 in magnitude that
/// divides the dividend's mantissa, with the dividend's scale at least the
/// divisor's, gives the exact quotient at the difference of the scales;
/// otherwise `decimal_quotient`. It panics on a zero divisor or a quotient
/// beyond 2^96 - 1, which `div_ok` excludes.
#[verifier::external_body]
pub(crate) fn dec_div(a: Dec, b: Dec) -> (res: Dec)
    requires
        a.wf(),
        b.wf(),
        Dec::div_ok(a, b),
    ensures
        res.wf(),
        res == Dec::div(a, b),
        !Dec::div_exact(a, b) ==> (res.m(), res.s()) == decimal_quotient(a.m(), a.s(), b.m(), b.s()),
{
    let x = rust_decimal::Decimal::from_i128_with_scale(a.mantissa, a.scale);
    let y = rust_decimal::Decimal::from_i128_with_scale(b.mantissa, b.scale);
    let r = x / y;
    Dec { mantissa: r.mantissa(), scale: r.scale() }
}

/// Calls `Decimal > Decimal`. Claimed: the comparison is by value, which is
/// what `units` measures.
#[verifier::external_body]
pub(crate) fn dec_gt(a: Dec, b: Dec) -> (res: bool)
    requires
        a.wf(),
        b.wf(),
    ensures
        res == Dec::gt(a, b),
{
    let x = rust_decimal::Decimal::from_i128_with_scale(a.mantissa, a.scale);
    let y = rust_decimal::Decimal::from_i128_with_scale(b.mantissa, b.scale);
    x > y
}

/// Calls `Decimal == Decimal`. Claimed: equality is by value (`1.0 == 1`).
#[verifier::external_body]
pub(crate) fn dec_eq(a: Dec, b: Dec) -> (res: bool)
    requires
        a.wf(),
        b.wf(),
    ensures
        res == Dec::same_value(a, b),
{
    let x = rust_decimal::Decimal::from_i128_with_scale(a.mantissa, a.scale);
    let y = rust_decimal::Decimal::from_i128_with_scale(b.mantissa, b.scale);
    x == y
}

/// Calls `Decimal::to_string` (its `Display`). Claimed: the text is
/// `decimal_text` of the mantissa and scale.
#[verifier::external_body]
pub(crate) fn dec_text(a: Dec) -> (res: String)
    requires
        a.wf(),
    ensures
        res@ == decimal_text(a.m(), a.s()),
{
    rust_decimal::Decimal::from_i128_with_scale(a.mantissa, a.scale).to_string()
}

/// Formats with `{:.2}` through `Display`. Claimed: the text is
/// `decimal_text_fixed` of the mantissa, scale and 2.
#[verifier::external_body]
pub(crate) fn dec_text_2dp(a: Dec) -> (res: String)
    requires
        a.wf(),
    ensures
        res@ == decimal_text_fixed(a.m(), a.s(), 2),
{
    format!("{:.2}", rust_decimal::Decimal::from_i128_with_scale(a.mantissa, a.scale))
}

/// Calls `str::parse::<Decimal>`. Claimed: success and the value read are
/// `decimal_parse` of the text.
#[verifier::external_body]
pub(crate) fn dec_parse(s: &str) -> (res: Option<Dec>)
    ensures
        match res {
            Some(d) => decimal_parse(s@) == Some((d.m(), d.s())) && d.wf(),
            None => decimal_parse(s@) is None,
        },
{
    match s.parse::<rust_decimal::Decimal>() {
        Ok(r) => Some(Dec { mantissa: r.mantissa(), scale: r.scale() }),
        Err(_) => None,
    }
}

/// Calls `Decimal::checked_mul`. Claimed (its source returns `Some` exactly
/// when `*` would not panic, with the same result): a product within
/// `mul_ok` is `Some`, and any `Some` holds `Dec::mul`.
#[verifier::external_body]
pub(crate) fn dec_checked_mul(a: Dec, b: Dec) -> (res: Option<Dec>)
    requires
        a.wf(),
        b.wf(),
    ensures
        Dec::mul_ok(a, b) ==> res is Some,
        res matches Some(r) ==> r == Dec::mul(a, b) && r.wf(),
{
    let x = rust_decimal::Decimal::from_i128_with_scale(a.mantissa, a.scale);
    let y = rust_decimal::Decimal::from_i128_with_scale(b.mantissa, b.scale);
    x.checked_mul(y).map(|r| Dec { mantissa: r.mantissa(), scale: r.scale() })
}

/// Calls `Decimal::checked_add`. Claimed: a sum within `add_ok` is `Some`,
/// and any `Some` holds `Dec::add`.
#[verifier::external_body]
pub(crate) fn dec_checked_add(a: Dec, b: Dec) -> (res: Option<Dec>)
    requires
        a.wf(),
        b.wf(),
    ensures
        Dec::add_ok(a, b) ==> res is Some,
        res matches Some(r) ==> r == Dec::add(a, b) && r.wf(),
{
    let x = rust_decimal::Decimal::from_i128_with_scale(a.mantissa, a.scale);
    let y = rust_decimal::Decimal::from_i128_with_scale(b.mantissa, b.scale);
    x.checked_add(y).map(|r| Dec { mantissa: r.mantissa(), scale: r.scale() })
}

/// Calls `Decimal::checked_div`. Claimed: a division within `div_ok` (non-zero
/// divisor, quotient in range) is `Some`, and any `Some` holds `Dec::div`.
#[verifier::external_body]
pub(crate) fn dec_checked_div(a: Dec, b: Dec) -> (res: Option<Dec>)
    requires
        a.wf(),
        b.wf(),
    ensures
        Dec::div_ok(a, b) ==> res is Some,
        res matches Some(r) ==> r == Dec::div(a, b) && r.wf(),
{
    let x = rust_decimal::Decimal::from_i128_with_scale(a.mantissa, a.scale);
    let y = rust_decimal::Decimal::from_i128_with_scale(b.mantissa, b.scale);
    x.checked_div(y).map(|r| Dec { mantissa: r.mantissa(), scale: r.scale() })
}

} // verus!
