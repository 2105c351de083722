//! Doubles (IEEE 754 binary64 numbers), carried as their bits.
//!
//! The audio engine reports positions, durations and the volume as doubles. What the player
//! decides on them needs their order and their whole part only, and both can be had from
//! the bits with whole numbers.
use vstd::arithmetic::power2::*;
use vstd::bits::*;
use vstd::prelude::*;

verus! {

/// The sign bit: negative numbers are the bits from here on.
pub const SIGN: u64 = 0x8000_0000_0000_0000;

/// The bits of infinity; what lies between it and the sign bit is no number.
pub const INFINITY: u64 = 0x7ff0_0000_0000_0000;

/// The number of values of the fraction field.
pub const FRACTIONS: u64 = 0x10_0000_0000_0000;

/// A double.
#[derive(Clone, Copy, PartialEq, Eq, Structural)]
pub struct Double {
    pub bits: u64,
}

/// The bits of a double without its sign.
pub open spec fn magnitude(d: Double) -> int {
    d.bits as int % SIGN as int
}

/// Whether a double is negative, or the negative zero.
pub open spec fn has_sign(d: Double) -> bool {
    d.bits >= SIGN
}

/// Whether a double is no number.
pub open spec fn is_nan(d: Double) -> bool {
    magnitude(d) > INFINITY
}

/// Where a double that is a number stands in the order of all of them.
pub open spec fn rank(d: Double) -> int {
    if has_sign(d) {
        -magnitude(d)
    } else {
        magnitude(d)
    }
}

/// Whether `a` is less than `b`. What is no number is neither less nor greater than another.
pub open spec fn less(a: Double, b: Double) -> bool {
    !is_nan(a) && !is_nan(b) && rank(a) < rank(b)
}

/// `d` kept between two bounds.
pub open spec fn clamped(d: Double, low: Double, high: Double) -> Double {
    if less(d, low) {
        low
    } else if less(high, d) {
        high
    } else {
        d
    }
}

/// `d` with the other sign.
pub open spec fn negated(d: Double) -> Double {
    if has_sign(d) {
        Double { bits: (d.bits - SIGN) as u64 }
    } else {
        Double { bits: (d.bits + SIGN) as u64 }
    }
}

/// The whole number that is to be scaled by a power of two to give the magnitude of a double.
pub open spec fn significand(d: Double) -> int {
    if magnitude(d) < FRACTIONS {
        magnitude(d)
    } else {
        magnitude(d) % FRACTIONS as int + FRACTIONS
    }
}

/// The power of two that scales the significand.
pub open spec fn exponent(d: Double) -> int {
    if magnitude(d) < FRACTIONS {
        -1074
    } else {
        magnitude(d) / FRACTIONS as int - 1075
    }
}

/// The magnitude of a double without its fraction.
pub open spec fn whole(d: Double) -> int {
    if exponent(d) >= 0 {
        significand(d) * pow2(exponent(d) as nat)
    } else {
        significand(d) / pow2((-exponent(d)) as nat) as int
    }
}

/// The magnitude of a double rounded to a whole number; a half goes up.
pub open spec fn rounded(d: Double) -> int {
    if exponent(d) >= 0 {
        significand(d) * pow2(exponent(d) as nat)
    } else {
        (significand(d) + pow2((-exponent(d) - 1) as nat)) / pow2((-exponent(d)) as nat) as int
    }
}

/// The whole part of a double as an unsigned number: zero for what is negative or no
/// number, and the greatest number for what is greater than that.
pub open spec fn whole_part(d: Double) -> u64 {
    if has_sign(d) || is_nan(d) {
        0
    } else if whole(d) > u64::MAX {
        u64::MAX
    } else {
        whole(d) as u64
    }
}

/// A double rounded to the nearest integer, a half away from zero: zero for what is no
/// number, and the nearest integer in range for what is out of range.
pub open spec fn nearest_integer(d: Double) -> i32 {
    if is_nan(d) {
        0
    } else if has_sign(d) {
        if -rounded(d) < i32::MIN {
            i32::MIN
        } else {
            (-rounded(d)) as i32
        }
    } else if rounded(d) > i32::MAX {
        i32::MAX
    } else {
        rounded(d) as i32
    }
}

/// A double rounded to the nearest unsigned number, a half up: zero for what is negative or no
/// number, and the greatest number for what is greater than that.
pub open spec fn nearest_count(d: Double) -> u64 {
    if has_sign(d) || is_nan(d) {
        0
    } else if rounded(d) > u64::MAX {
        u64::MAX
    } else {
        rounded(d) as u64
    }
}

impl Double {
    /// Whether this is less than `other`.
    pub fn less_than(&self, other: Double) -> (r: bool)
        ensures
            r == less(*self, other),
    {
        let a: u64 = self.bits % SIGN;
        let b: u64 = other.bits % SIGN;
        if a > INFINITY || b > INFINITY {
            return false;
        }
        if self.bits >= SIGN {
            if other.bits >= SIGN {
                b < a
            } else {
                a > 0 || b > 0
            }
        } else if other.bits >= SIGN {
            false
        } else {
            a < b
        }
    }

    /// This, kept between two bounds.
    pub fn clamp(&self, low: Double, high: Double) -> (r: Double)
        ensures
            r == clamped(*self, low, high),
    {
        if self.less_than(low) {
            low
        } else if high.less_than(*self) {
            high
        } else {
            *self
        }
    }

    /// This with the other sign.
    pub fn negate(&self) -> (r: Double)
        ensures
            r == negated(*self),
    {
        if self.bits >= SIGN {
            Double { bits: self.bits - SIGN }
        } else {
            Double { bits: self.bits + SIGN }
        }
    }

    /// The whole part of this.
    pub fn whole_part(&self) -> (r: u64)
        ensures
            r == whole_part(*self),
    {
        let rest: u64 = self.bits % SIGN;
        if self.bits >= SIGN || rest > INFINITY {
            return 0;
        }
        proof {
            lemma2_to64_rest();
        }
        if rest < FRACTIONS {
            proof {
                lemma_small_quotient(rest as int, 1074);
            }
            return 0;
        }
        let m: u64 = rest % FRACTIONS + FRACTIONS;
        let e: u64 = rest / FRACTIONS;
        if e >= 1075 {
            scale_up(m, e - 1075)
        } else {
            let k: u64 = 1075 - e;
            if k >= 53 {
                proof {
                    lemma_small_quotient(m as int, k as nat);
                }
                0
            } else {
                proof {
                    lemma_u64_shr_is_div(m, k);
                    assert(m as int / pow2(k as nat) as int <= m) by {
                        lemma_pow2_pos(k as nat);
                        vstd::arithmetic::div_mod::lemma_div_is_ordered_by_denominator(m as int, 1, pow2(k as nat) as int);
                    }
                }
                m >> k
            }
        }
    }

    /// This rounded to the nearest integer.
    pub fn nearest_integer(&self) -> (r: i32)
        ensures
            r == nearest_integer(*self),
    {
        let rest: u64 = self.bits % SIGN;
        if rest > INFINITY {
            return 0;
        }
        let n: u64 = self.rounded_magnitude();
        if self.bits >= SIGN {
            if n > 0x8000_0000 {
                i32::MIN
            } else {
                (-(n as i64)) as i32
            }
        } else if n > 0x7fff_ffff {
            i32::MAX
        } else {
            n as i32
        }
    }

    /// This rounded to the nearest unsigned number.
    pub fn nearest_count(&self) -> (r: u64)
        ensures
            r == nearest_count(*self),
    {
        if self.bits >= SIGN || self.bits > INFINITY {
            return 0;
        }
        self.rounded_magnitude()
    }

    /// The magnitude of this rounded to a whole number, as far as that is in range.
    fn rounded_magnitude(&self) -> (r: u64)
        ensures
            r == (if rounded(*self) > u64::MAX { u64::MAX as int } else { rounded(*self) }),
    {
        let rest: u64 = self.bits % SIGN;
        if rest < FRACTIONS {
            proof {
                lemma_pow2_strictly_increases(52, 1073);
                lemma_pow2_unfold(1074);
                lemma2_to64_rest();
                lemma_small_quotient(rest + pow2(1073), 1074);
            }
            return 0;
        }
        let m: u64 = rest % FRACTIONS + FRACTIONS;
        let e: u64 = rest / FRACTIONS;
        if e >= 1075 {
            return scale_up(m, e - 1075);
        }
        let k: u64 = 1075 - e;
        proof {
            lemma2_to64();
            lemma2_to64_rest();
            lemma_pow2_unfold(k as nat);
        }
        if k > 54 {
            proof {
                lemma_pow2_strictly_increases(53, (k - 1) as nat);
                lemma_small_quotient(m + pow2((k - 1) as nat), k as nat);
            }
            return 0;
        }
        proof {
            if k < 54 {
                lemma_pow2_strictly_increases((k - 1) as nat, 53);
            }
            lemma_u64_shl_is_mul(1, (k - 1) as u64);
        }
        let half: u64 = 1u64 << (k - 1);
        let sum: u64 = m + half;
        proof {
            lemma_u64_shr_is_div(sum, k);
            lemma_pow2_pos(k as nat);
            vstd::arithmetic::div_mod::lemma_div_is_ordered_by_denominator(sum as int, 1, pow2(k as nat) as int);
        }
        sum >> k
    }
}

/// A number less than a power of two holds that power no time.
proof fn lemma_small_quotient(m: int, k: nat)
    requires
        0 <= m,
        m < pow2(53) && k >= 53 || m < pow2(k),
    ensures
        m / pow2(k) as int == 0,
{
    if k > 53 {
        lemma_pow2_strictly_increases(53, k);
    }
    vstd::arithmetic::div_mod::lemma_basic_div(m, pow2(k) as int);
}

/// A significand scaled by a power of two, as far as that is in range.
fn scale_up(m: u64, by: u64) -> (r: u64)
    requires
        FRACTIONS <= m < 2 * FRACTIONS,
    ensures
        r == (if m * pow2(by as nat) > u64::MAX { u64::MAX as int } else { m * pow2(by as nat) }),
{
    proof {
        lemma2_to64();
        lemma2_to64_rest();
    }
    if by >= 12 {
        proof {
            if by > 12 {
                lemma_pow2_strictly_increases(12, by as nat);
            }
            assert(m * pow2(by as nat) >= FRACTIONS * 4096) by (nonlinear_arith)
                requires
                    m >= FRACTIONS,
                    pow2(by as nat) >= 4096,
            ;
        }
        return u64::MAX;
    }
    proof {
        if by < 11 {
            lemma_pow2_strictly_increases(by as nat, 11);
        }
        assert(m * pow2(by as nat) < 2 * FRACTIONS * 2048) by (nonlinear_arith)
            requires
                m < 2 * FRACTIONS,
                pow2(by as nat) <= 2048,
                m > 0,
        ;
        lemma_u64_shl_is_mul(m, by);
    }
    m << by
}

/// A double that is a number, kept between two bounds of which the lower is not the greater,
/// lies between them.
pub proof fn clamped_is_in_bounds(d: Double, low: Double, high: Double)
    requires
        !is_nan(d),
        !is_nan(low),
        !is_nan(high),
        !less(high, low),
    ensures
        !is_nan(clamped(d, low, high)),
        !less(clamped(d, low, high), low),
        !less(high, clamped(d, low, high)),
{
}

/// Changing the sign twice changes nothing.
pub proof fn negated_twice(d: Double)
    ensures
        negated(negated(d)) == d,
{
}

/// Whether a double is a whole number and no other.
pub open spec fn is_whole_number(d: Double, n: int) -> bool {
    let size = if n < 0 {
        -n
    } else {
        n
    };
    &&& magnitude(d) < INFINITY
    &&& n != 0 ==> has_sign(d) == (n < 0)
    &&& if exponent(d) >= 0 {
        significand(d) * pow2(exponent(d) as nat) == size
    } else {
        significand(d) == size * pow2((-exponent(d)) as nat)
    }
}

/// A whole number in range is its own whole part, and what it is rounded to.
pub proof fn whole_number_is_not_rounded(d: Double, n: int)
    requires
        is_whole_number(d, n),
        0 <= n <= i32::MAX,
    ensures
        whole_part(d) == n,
        nearest_integer(d) == n,
        nearest_count(d) == n,
{
    if exponent(d) < 0 {
        let k = (-exponent(d)) as nat;
        let one = pow2(k) as int;
        lemma_pow2_pos(k);
        lemma_pow2_unfold(k);
        let half = pow2((k - 1) as nat) as int;
        assert(one == 2 * half);
        lemma_pow2_pos((k - 1) as nat);
        vstd::arithmetic::div_mod::lemma_div_multiples_vanish(n, one);
        vstd::arithmetic::mul::lemma_mul_is_commutative(n, one);
        assert((n * one) / one == n);
        vstd::arithmetic::div_mod::lemma_fundamental_div_mod_converse(n * one + half, one, n, half);
    }
}

/// The exponent of the greatest power of two that is not above a number from one on.
pub open spec fn top_bit(n: nat) -> nat
    decreases n,
{
    if n < 2 {
        0
    } else {
        1 + top_bit(n / 2)
    }
}

/// `n` divided by a power of two and rounded to the nearest whole number, a half to the even
/// one.
pub open spec fn rounded_quotient(n: nat, k: nat) -> nat {
    let q = n / pow2(k);
    let r = n % pow2(k);
    if 2 * r > pow2(k) || 2 * r == pow2(k) && q % 2 == 1 {
        q + 1
    } else {
        q
    }
}

/// The bits of the double nearest to a whole number of at most 64 binary digits; of two that
/// are as near, the one with an even significand.
pub open spec fn nearest_double(n: int) -> u64 {
    if n < 0 {
        (SIGN + nearest_magnitude((-n) as nat)) as u64
    } else {
        nearest_magnitude(n as nat) as u64
    }
}

/// The bits of the double nearest to a whole number, without a sign. A significand that is
/// rounded up to the next power of two carries into the exponent.
pub open spec fn nearest_magnitude(n: nat) -> nat {
    let k = top_bit(n);
    if n == 0 {
        0
    } else if k <= 52 {
        (k + 1022) as nat * FRACTIONS as nat + n * pow2((52 - k) as nat)
    } else {
        (k + 1022) as nat * FRACTIONS as nat + rounded_quotient(n, (k - 52) as nat)
    }
}

/// The greatest number up to which each whole number is a double.
pub const EXACT_LIMIT: u64 = 0x20_0000_0000_0000;

proof fn lemma_top_bit(n: nat)
    requires
        n > 0,
    ensures
        pow2(top_bit(n)) <= n < pow2(top_bit(n) + 1),
    decreases n,
{
    lemma2_to64();
    if n >= 2 {
        lemma_top_bit(n / 2);
        lemma_pow2_unfold(top_bit(n));
        lemma_pow2_unfold(top_bit(n) + 1);
    }
}

proof fn lemma_pow2_of_zero(n: int)
    ensures
        pow2(0) == 1,
        n * pow2(0) == n,
{
    lemma_pow2(0);
    vstd::arithmetic::power::lemma_pow0(2);
    vstd::arithmetic::mul::lemma_mul_basics(n);
}

/// The significand of a number of at most 53 binary digits, brought to 53.
proof fn lemma_significand_of(n: nat)
    requires
        0 < n,
        top_bit(n) <= 52,
    ensures
        FRACTIONS <= n * pow2((52 - top_bit(n)) as nat) < 2 * FRACTIONS,
{
    let k = top_bit(n);
    let by = pow2((52 - k) as nat);
    lemma_top_bit(n);
    lemma2_to64();
    lemma2_to64_rest();
    lemma_pow2_adds(k, (52 - k) as nat);
    lemma_pow2_adds(k + 1, (52 - k) as nat);
    lemma_pow2_pos((52 - k) as nat);
    assert(pow2(k) * by <= n * by) by (nonlinear_arith)
        requires
            pow2(k) <= n,
            by > 0,
    ;
    assert(n * by < pow2(k + 1) * by) by (nonlinear_arith)
        requires
            n < pow2(k + 1),
            by > 0,
    ;
}

proof fn lemma_parts(d: Double, e: int, m: int)
    requires
        FRACTIONS <= m < 2 * FRACTIONS,
        1 <= e <= 2046,
        magnitude(d) == (e - 1) * FRACTIONS + m,
    ensures
        significand(d) == m,
        exponent(d) == e - 1075,
        magnitude(d) < INFINITY,
{
    assert(magnitude(d) == e * FRACTIONS + (m - FRACTIONS));
    vstd::arithmetic::div_mod::lemma_fundamental_div_mod_converse(
        magnitude(d),
        FRACTIONS as int,
        e,
        m - FRACTIONS,
    );
}

/// A whole number of at most 53 binary digits is a double, and so its own nearest one.
pub proof fn small_whole_number_is_exact(n: int)
    requires
        -EXACT_LIMIT <= n <= EXACT_LIMIT,
    ensures
        is_whole_number(Double { bits: nearest_double(n) }, n),
{
    let d = Double { bits: nearest_double(n) };
    let size = (if n < 0 {
        -n
    } else {
        n
    }) as nat;
    lemma2_to64();
    lemma2_to64_rest();
    if size > 0 {
        let k = top_bit(size);
        lemma_top_bit(size);
        if k > 53 {
            lemma_pow2_strictly_increases(53, k);
        }
        if k <= 52 {
            let m = (size * pow2((52 - k) as nat)) as int;
            lemma_significand_of(size);
            assert(nearest_magnitude(size) == (k + 1022) * FRACTIONS + m);
            assert(magnitude(d) == (k + 1022) * FRACTIONS + m);
            lemma_parts(d, k as int + 1023, m);
            if k == 52 {
                lemma_pow2_of_zero(size as int);
            }
        } else {
            assert(pow2(53) == EXACT_LIMIT);
            assert(size == EXACT_LIMIT);
            assert(pow2(1) == 2);
            assert(rounded_quotient(size, 1) == FRACTIONS);
            assert(magnitude(d) == 1075 * FRACTIONS + FRACTIONS);
            lemma_parts(d, 1076, FRACTIONS as int);
        }
    } else {
        assert(0 * pow2(1074) == 0);
    }
}

/// Of the doubles of whole numbers up to a hundred none is greater than that of a hundred.
pub proof fn whole_percentage_is_in_bounds(n: int)
    requires
        0 <= n <= 100,
    ensures
        nearest_double(n) <= 0x4059_0000_0000_0000,
{
    if n > 0 {
        let k = top_bit(n as nat);
        lemma2_to64();
        lemma2_to64_rest();
        lemma_top_bit(n as nat);
        if k > 6 {
            lemma_pow2_strictly_increases(6, k);
            lemma_pow2_unfold(k);
            if k > 7 {
                lemma_pow2_strictly_increases(7, k);
            }
        }
        lemma_significand_of(n as nat);
        assert(k == 6 ==> n * pow2(46) <= 100 * pow2(46)) by (nonlinear_arith)
            requires
                n <= 100,
        ;
    }
}

/// The whole number that the double nearest to a whole number is.
pub open spec fn nearest_whole(n: int) -> int {
    let size = (if n < 0 {
        -n
    } else {
        n
    }) as nat;
    let k = top_bit(size);
    if k <= 52 {
        n
    } else {
        let near = (rounded_quotient(size, (k - 52) as nat) * pow2((k - 52) as nat)) as int;
        if n < 0 {
            -near
        } else {
            near
        }
    }
}

proof fn lemma_top_bit_is(n: nat, j: nat)
    requires
        pow2(j) <= n < pow2(j + 1),
    ensures
        top_bit(n) == j,
{
    lemma_pow2_pos(j);
    lemma_top_bit(n);
    let k = top_bit(n);
    if k + 1 < j {
        lemma_pow2_strictly_increases(k + 1, j);
    }
    if j + 1 < k {
        lemma_pow2_strictly_increases(j + 1, k);
    }
}

/// The significand of a number of more than 53 binary digits: at most one more than what has
/// 53.
proof fn lemma_rounded_significand(n: nat)
    requires
        top_bit(n) >= 53,
    ensures
        FRACTIONS <= rounded_quotient(n, (top_bit(n) - 52) as nat) <= 2 * FRACTIONS,
{
    let k = top_bit(n);
    let p = pow2((k - 52) as nat);
    lemma2_to64();
    lemma2_to64_rest();
    lemma_top_bit(n);
    lemma_pow2_pos((k - 52) as nat);
    lemma_pow2_adds(52, (k - 52) as nat);
    lemma_pow2_adds(53, (k - 52) as nat);
    let q = n / p;
    assert(FRACTIONS <= q < 2 * FRACTIONS) by (nonlinear_arith)
        requires
            p > 0,
            q == n / p,
            FRACTIONS * p <= n < 2 * FRACTIONS * p,
    ;
}

/// A whole number of at most 53 binary digits is the nearest to itself.
pub proof fn small_whole_number_is_nearest(n: int)
    requires
        -EXACT_LIMIT <= n <= EXACT_LIMIT,
    ensures
        nearest_whole(n) == n,
{
    let size = (if n < 0 {
        -n
    } else {
        n
    }) as nat;
    lemma2_to64();
    lemma2_to64_rest();
    if size == EXACT_LIMIT {
        lemma_top_bit_is(size, 53);
        assert(pow2(1) == 2);
        assert(rounded_quotient(size, 1) == FRACTIONS);
        assert(rounded_quotient(size, 1) * pow2(1) == size);
    } else if size > 0 {
        lemma_top_bit(size);
        if top_bit(size) > 53 {
            lemma_pow2_strictly_increases(53, top_bit(size));
        }
    }
}

/// Five more than the 56th power of two is nearest to that power, and no less is nearer to
/// anything beyond it.
pub proof fn counting_by_fives_stops(n: int)
    requires
        -0x100_0000_0000_0005 <= n <= 0x100_0000_0000_0005,
    ensures
        -0x100_0000_0000_0000 <= nearest_whole(n) <= 0x100_0000_0000_0000,
{
    let size = (if n < 0 {
        -n
    } else {
        n
    }) as nat;
    let k = top_bit(size);
    lemma2_to64();
    lemma2_to64_rest();
    if size > 0 {
        lemma_top_bit(size);
    }
    if k <= 52 {
        if k < 52 {
            lemma_pow2_strictly_increases(k + 1, 53);
        }
    } else {
        if k > 57 {
            lemma_pow2_strictly_increases(57, k);
        }
        lemma_rounded_significand(size);
        if k == 56 {
            assert(pow2(4) == 16);
            assert(rounded_quotient(size, 4) == FRACTIONS);
            assert(rounded_quotient(size, 4) * pow2(4) == 16 * FRACTIONS);
        } else {
            assert(k == 53 || k == 54 || k == 55);
            assert(pow2(1) == 2 && pow2(2) == 4 && pow2(3) == 8);
            let q = rounded_quotient(size, (k - 52) as nat);
            let p = pow2((k - 52) as nat);
            assert(p <= 8);
            assert(q * p <= 16 * FRACTIONS) by (nonlinear_arith)
                requires
                    q <= 2 * FRACTIONS,
                    p <= 8,
            ;
        }
    }
}

/// The double nearest to a whole number is the whole number nearest to it that is a double.
pub proof fn nearest_double_is_nearest_whole(n: int)
    requires
        -0x8000_0000_0000_0000 < n < 0x8000_0000_0000_0000,
    ensures
        is_whole_number(Double { bits: nearest_double(n) }, nearest_whole(n)),
{
    let size = (if n < 0 {
        -n
    } else {
        n
    }) as nat;
    let k = top_bit(size);
    lemma2_to64();
    lemma2_to64_rest();
    if size > 0 {
        lemma_top_bit(size);
    }
    if k <= 52 {
        if k < 52 {
            lemma_pow2_strictly_increases(k + 1, 53);
        }
        small_whole_number_is_exact(n);
    } else {
        let d = Double { bits: nearest_double(n) };
        let by = (k - 52) as nat;
        let q = rounded_quotient(size, by) as int;
        if k > 62 {
            lemma_pow2_strictly_increases(62, k);
            if k > 63 {
                lemma_pow2_strictly_increases(63, k);
            }
        }
        lemma_rounded_significand(size);
        lemma_pow2_pos(by);
        assert(q * pow2(by) > 0) by (nonlinear_arith)
            requires
                q > 0,
                pow2(by) > 0,
        ;
        assert(magnitude(d) == (k + 1022) * FRACTIONS + q);
        if q < 2 * FRACTIONS {
            lemma_parts(d, k as int + 1023, q);
        } else {
            lemma_parts(d, k as int + 1024, FRACTIONS as int);
            lemma_pow2_unfold(by + 1);
            assert(FRACTIONS * pow2(by + 1) == q * pow2(by)) by (nonlinear_arith)
                requires
                    q == 2 * FRACTIONS,
                    pow2(by + 1) == 2 * pow2(by),
            ;
        }
    }
}

/// A number of more than 53 binary digits, cut to those: the rounded significand, the power of
/// two that scales it, and the greatest power of two in the number.
fn cut(a: u64) -> (r: (u64, u64, u64))
    requires
        2 * FRACTIONS <= a < SIGN,
    ensures
        53 <= r.2 <= 62,
        r.2 == top_bit(a as nat),
        r.1 == pow2((r.2 - 52) as nat),
        r.0 == rounded_quotient(a as nat, (r.2 - 52) as nat),
        FRACTIONS <= r.0 <= 2 * FRACTIONS,
        r.1 <= 1024,
{
    let mut p: u64 = 2;
    let mut k: u64 = 53;
    proof {
        lemma2_to64();
        lemma2_to64_rest();
    }
    while a / p >= 2 * FRACTIONS
        invariant
            a < SIGN,
            53 <= k <= 62,
            p == pow2((k - 52) as nat),
            1 < p <= 1024,
            FRACTIONS * p <= a,
        decreases 62 - k,
    {
        proof {
            lemma2_to64();
            lemma2_to64_rest();
            assert(2 * FRACTIONS * p <= a) by (nonlinear_arith)
                requires
                    a / p >= 2 * FRACTIONS,
                    p > 1,
            ;
            lemma_pow2_unfold((k + 1 - 52) as nat);
            if k == 62 {
                assert(p == 1024);
            } else if k < 61 {
                lemma_pow2_strictly_increases((k + 1 - 52) as nat, 10);
            }
        }
        p = 2 * p;
        k = k + 1;
    }
    proof {
        lemma2_to64();
        lemma2_to64_rest();
        lemma_pow2_adds(52, (k - 52) as nat);
        lemma_pow2_adds(53, (k - 52) as nat);
        assert(a < 2 * FRACTIONS * p) by (nonlinear_arith)
            requires
                a / p < 2 * FRACTIONS,
                p > 1,
        ;
        lemma_top_bit_is(a as nat, k as nat);
        lemma_rounded_significand(a as nat);
    }
    let q: u64 = a / p;
    let rest: u64 = a % p;
    if 2 * rest > p || (2 * rest == p && q % 2 == 1) {
        (q + 1, p, k)
    } else {
        (q, p, k)
    }
}

/// The whole number that the double nearest to a whole number is.
pub fn round_whole(n: i64) -> (r: i64)
    requires
        -0x4000_0000_0000_0000 <= n <= 0x4000_0000_0000_0000,
    ensures
        r == nearest_whole(n as int),
{
    let a: u64 = if n < 0 {
        (-n) as u64
    } else {
        n as u64
    };
    if a < 2 * FRACTIONS {
        proof {
            lemma2_to64();
            lemma2_to64_rest();
            if a > 0 {
                lemma_top_bit(a as nat);
                if top_bit(a as nat) > 53 {
                    lemma_pow2_strictly_increases(53, top_bit(a as nat));
                }
            }
        }
        return n;
    }
    let (q, p, k): (u64, u64, u64) = cut(a);
    proof {
        lemma2_to64();
        lemma2_to64_rest();
        if k == 62 {
            lemma_one_bit(a as nat);
        } else if k < 61 {
            lemma_pow2_strictly_increases((k - 52) as nat, 9);
        }
        assert(q * p <= 0x4000_0000_0000_0000) by (nonlinear_arith)
            requires
                q <= 2 * FRACTIONS && p <= 512 || q == FRACTIONS && p == 1024,
        ;
    }
    let near: u64 = q * p;
    if n < 0 {
        -(near as i64)
    } else {
        near as i64
    }
}

proof fn lemma_one_bit(a: nat)
    requires
        a <= 0x4000_0000_0000_0000,
        top_bit(a) == 62,
    ensures
        rounded_quotient(a, 10) == FRACTIONS,
{
    lemma2_to64();
    lemma2_to64_rest();
    lemma_top_bit(a);
    assert(a == 0x4000_0000_0000_0000);
}

impl Double {
    /// The double nearest to a whole number.
    pub fn of_whole(n: i64) -> (r: Double)
        requires
            n > i64::MIN,
        ensures
            r.bits == nearest_double(n as int),
    {
        let a: u64 = if n < 0 {
            (-n) as u64
        } else {
            n as u64
        };
        if a == 0 {
            return Double { bits: 0 };
        }
        let (m, k): (u64, u64) = if a < 2 * FRACTIONS {
            scale_to_significand(a)
        } else {
            let (q, _p, k): (u64, u64, u64) = cut(a);
            (q, k)
        };
        let bits: u64 = (k + 1022) * FRACTIONS + m;
        if n < 0 {
            Double { bits: SIGN + bits }
        } else {
            Double { bits }
        }
    }
}

/// A number of at most 53 binary digits, brought to those, and the greatest power of two in it.
fn scale_to_significand(a: u64) -> (r: (u64, u64))
    requires
        0 < a < 2 * FRACTIONS,
    ensures
        r.1 <= 52,
        r.1 == top_bit(a as nat),
        r.0 == a * pow2((52 - r.1) as nat),
        FRACTIONS <= r.0 < 2 * FRACTIONS,
{
    let mut m: u64 = a;
    let mut k: u64 = 52;
    proof {
        lemma_pow2_of_zero(a as int);
    }
    while m < FRACTIONS
        invariant
            0 < a < 2 * FRACTIONS,
            k <= 52,
            m == a * pow2((52 - k) as nat),
            0 < m < 2 * FRACTIONS,
        decreases k,
    {
        proof {
            lemma2_to64();
            lemma2_to64_rest();
            let by = pow2((52 - k) as nat);
            assert(by <= m) by (nonlinear_arith)
                requires
                    m == a * by,
                    a > 0,
                    by >= 0,
            ;
            lemma_pow2_unfold((52 - k + 1) as nat);
            assert(2 * m == a * (2 * by)) by (nonlinear_arith)
                requires
                    m == a * by,
            ;
        }
        m = 2 * m;
        k = k - 1;
    }
    proof {
        lemma2_to64();
        lemma2_to64_rest();
        let by = pow2((52 - k) as nat);
        lemma_pow2_pos((52 - k) as nat);
        lemma_pow2_adds(k as nat, (52 - k) as nat);
        lemma_pow2_adds((k + 1) as nat, (52 - k) as nat);
        assert(pow2(k as nat) <= a) by (nonlinear_arith)
            requires
                pow2(k as nat) * by <= a * by,
                by > 0,
        ;
        assert(a < pow2((k + 1) as nat)) by (nonlinear_arith)
            requires
                a * by < pow2((k + 1) as nat) * by,
                by > 0,
        ;
        lemma_top_bit_is(a as nat, k as nat);
    }
    (m, k)
}

/// The whole part of a double below a power of two leaves less than one of it, and what it is
/// rounded to is no more than a half away.
pub proof fn whole_part_leaves_less_than_one(d: Double)
    requires
        exponent(d) < 0,
    ensures
        ({
            let one = pow2((-exponent(d)) as nat) as int;
            &&& whole(d) * one <= significand(d) < (whole(d) + 1) * one
            &&& 2 * rounded(d) * one - one <= 2 * significand(d) < 2 * rounded(d) * one + one
        }),
{
    let k = (-exponent(d)) as nat;
    let one = pow2(k) as int;
    lemma_pow2_pos(k);
    lemma_pow2_unfold(k);
    let half = pow2((k - 1) as nat) as int;
    let m = significand(d);
    vstd::arithmetic::div_mod::lemma_fundamental_div_mod(m, one);
    vstd::arithmetic::div_mod::lemma_fundamental_div_mod(m + half, one);
    let q = m / one;
    let r = (m + half) / one;
    assert(q * one <= m < (q + 1) * one) by (nonlinear_arith)
        requires
            one > 0,
            m == one * q + m % one,
            0 <= m % one < one,
    ;
    assert(2 * r * one - one <= 2 * m < 2 * r * one + one) by (nonlinear_arith)
        requires
            one == 2 * half,
            half > 0,
            m + half == one * r + (m + half) % one,
            0 <= (m + half) % one < one,
    ;
}

/// A negative number, and what is no number, counts as zero; a negative number is rounded as its
/// opposite is.
pub proof fn negative_numbers_count_as_zero(d: Double)
    ensures
        has_sign(d) || is_nan(d) ==> whole_part(d) == 0 && nearest_count(d) == 0,
        is_nan(d) ==> nearest_integer(d) == 0,
        !is_nan(d) && !has_sign(d) && rounded(d) <= i32::MAX && rounded(d) >= 0 ==> nearest_integer(negated(d))
            == -nearest_integer(d),
{
}

/// The order of doubles: what is no number is neither less nor greater, negative numbers are less
/// than others, and a change of sign turns the order round.
pub proof fn order_of_doubles(a: Double, b: Double, c: Double)
    ensures
        is_nan(a) || is_nan(b) ==> !less(a, b),
        !less(a, a),
        less(a, b) ==> !less(b, a),
        less(a, b) && less(b, c) ==> less(a, c),
        less(a, b) <==> less(negated(b), negated(a)),
        !is_nan(a) && !is_nan(b) && has_sign(a) && !has_sign(b) && magnitude(a) + magnitude(b) > 0 ==> less(a, b),
        !has_sign(a) && !has_sign(b) && !is_nan(a) && !is_nan(b) && exponent(a) == exponent(b) && significand(a)
            < significand(b) ==> less(a, b),
{
}

}
