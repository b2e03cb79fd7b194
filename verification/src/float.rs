use vstd::prelude::*;
use vstd::arithmetic::power2::*;
use vstd::arithmetic::div_mod::*;
use vstd::arithmetic::mul::*;

verus! {

// Floating-point cells are carried as IEEE-754 bit patterns (`u32`/`u64`),
// and their ordered comparison and the conversions into them are implemented
// and specified purely over integers.  The value of a finite pattern, scaled
// by 2^1074 (for binary64) or 2^149 (for binary32), is an integer, and an
// infinity scales beyond every finite value, so a single signed integer
// measure `f64_dval` / `f32_dval` decides every ordered comparison of
// non-NaN patterns.

// ---------------------------------------------------------------------------
// Bit lengths and powers of two
// ---------------------------------------------------------------------------

/// Number of binary digits of `x` (0 for 0).
pub open spec fn bitlen(x: nat) -> nat
    decreases x,
{
    if x == 0 {
        0
    } else {
        1 + bitlen(x / 2)
    }
}

pub proof fn lemma_bitlen_bounds(x: nat)
    requires
        x >= 1,
    ensures
        bitlen(x) >= 1,
        pow2((bitlen(x) - 1) as nat) <= x < pow2(bitlen(x)),
    decreases x,
{
    if x / 2 == 0 {
        lemma_fundamental_div_mod(x as int, 2);
        assert(x == 1);
        assert(bitlen(1) == 1) by {
            reveal_with_fuel(bitlen, 3);
        };
        lemma2_to64();
    } else {
        lemma_bitlen_bounds(x / 2);
        let k = bitlen(x / 2);
        assert(bitlen(x) == k + 1);
        lemma_pow2_unfold(k);
        lemma_pow2_unfold((k + 1) as nat);
        lemma_fundamental_div_mod(x as int, 2);
        assert(x >= 2 * (x / 2));
        assert(x <= 2 * (x / 2) + 1);
    }
}

/// Position of the highest set bit of `x`.
pub fn bit_index(x: u64) -> (n: u64)
    requires
        x >= 1,
    ensures
        n + 1 == bitlen(x as nat),
        n <= 63,
{
    let mut n: u64 = 0;
    let mut t: u64 = x;
    proof {
        lemma2_to64();
    }
    while t >= 2
        invariant
            t >= 1,
            x >= 1,
            bitlen(x as nat) == bitlen(t as nat) + n,
            pow2(n as nat) * t <= x,
            n <= 63,
        decreases t,
    {
        proof {
            lemma_pow2_unfold((n + 1) as nat);
            lemma_fundamental_div_mod(t as int, 2);
            let p = pow2(n as nat) as int;
            let h = t as int / 2;
            assert((2 * p) * h <= p * t) by (nonlinear_arith)
                requires
                    2 * h <= t,
                    p >= 0,
            ;
            if n + 1 > 63 {
                lemma2_to64();
                lemma2_to64_rest();
                if n + 1 > 64 {
                    lemma_pow2_strictly_increases(64, (n + 1) as nat);
                }
                assert(pow2((n + 1) as nat) >= 0x1_0000_0000_0000_0000);
                assert(pow2((n + 1) as nat) * h >= pow2((n + 1) as nat)) by {
                    lemma_mul_inequality(1, h, pow2((n + 1) as nat) as int);
                };
                assert(false);
            }
        }
        t = t / 2;
        n = n + 1;
    }
    proof {
        assert(bitlen(1) == 1) by {
            reveal_with_fuel(bitlen, 3);
        };
    }
    n
}

/// `pow2` for machine words.
pub fn pow2_u64(k: u64) -> (r: u64)
    requires
        k <= 63,
    ensures
        r as nat == pow2(k as nat),
{
    let mut r: u64 = 1;
    let mut i: u64 = 0;
    proof {
        lemma2_to64();
    }
    while i < k
        invariant
            i <= k,
            k <= 63,
            r as nat == pow2(i as nat),
        decreases k - i,
    {
        proof {
            lemma_pow2_unfold((i + 1) as nat);
            if i + 1 < 64 {
                lemma_pow2_strictly_increases((i + 1) as nat, 64);
            }
            lemma2_to64_rest();
        }
        r = r * 2;
        i = i + 1;
    }
    r
}

// ---------------------------------------------------------------------------
// binary64 patterns
// ---------------------------------------------------------------------------

/// Sign bit of a binary64 pattern.
pub open spec fn f64_sign(b: u64) -> int {
    b as int / 0x8000_0000_0000_0000
}

/// Biased exponent field of a binary64 pattern.
pub open spec fn f64_exp(b: u64) -> int {
    (b as int / 0x10_0000_0000_0000) % 0x800
}

/// Fraction field of a binary64 pattern.
pub open spec fn f64_frac(b: u64) -> int {
    b as int % 0x10_0000_0000_0000
}

/// The pattern encodes a NaN.
pub open spec fn f64_is_nan(b: u64) -> bool {
    f64_exp(b) == 0x7FF && f64_frac(b) != 0
}

/// Magnitude of the encoded value, scaled by 2^1074.  Subnormals (biased
/// exponent 0) have no hidden bit; infinities land beyond every finite
/// magnitude, so the measure orders them correctly too.
pub open spec fn f64_mag(b: u64) -> int {
    if f64_exp(b) == 0 {
        f64_frac(b)
    } else {
        (f64_frac(b) + 0x10_0000_0000_0000) * pow2((f64_exp(b) - 1) as nat)
    }
}

/// Signed value of the pattern, scaled by 2^1074; both zeros yield 0.
pub open spec fn f64_dval(b: u64) -> int {
    if f64_sign(b) == 1 {
        -f64_mag(b)
    } else {
        f64_mag(b)
    }
}

/// IEEE-754 ordered `<=`: false whenever either side is NaN.
pub open spec fn f64_le(a: u64, b: u64) -> bool {
    !f64_is_nan(a) && !f64_is_nan(b) && f64_dval(a) <= f64_dval(b)
}

pub proof fn lemma_f64_decompose(b: u64)
    ensures
        b as int == f64_sign(b) * 0x8000_0000_0000_0000 + f64_exp(b) * 0x10_0000_0000_0000
            + f64_frac(b),
        0 <= f64_sign(b) <= 1,
        0 <= f64_exp(b) < 0x800,
        0 <= f64_frac(b) < 0x10_0000_0000_0000,
{
    let p52 = 0x10_0000_0000_0000int;
    let q = b as int / p52;
    lemma_fundamental_div_mod(b as int, p52);
    lemma_multiply_divide_lt(b as int, 0x1000, p52);
    lemma_div_pos_is_pos(b as int, p52);
    lemma_fundamental_div_mod(q, 0x800);
    lemma_div_denominator(b as int, p52, 0x800);
    lemma_multiply_divide_lt(b as int, 2, 0x8000_0000_0000_0000);
    lemma_div_pos_is_pos(b as int, 0x8000_0000_0000_0000);
}

pub proof fn lemma_f64_mag_nonneg(b: u64)
    ensures
        f64_mag(b) >= 0,
{
    lemma_f64_decompose(b);
    if f64_exp(b) != 0 {
        lemma_pow2_pos((f64_exp(b) - 1) as nat);
        lemma_mul_nonnegative(
            f64_frac(b) + 0x10_0000_0000_0000,
            pow2((f64_exp(b) - 1) as nat) as int,
        );
    }
}

pub proof fn lemma_f64_mag_zero_iff(b: u64)
    ensures
        (f64_mag(b) == 0) == (f64_exp(b) == 0 && f64_frac(b) == 0),
{
    lemma_f64_decompose(b);
    if f64_exp(b) != 0 {
        lemma_pow2_pos((f64_exp(b) - 1) as nat);
        lemma_mul_strictly_positive(
            f64_frac(b) + 0x10_0000_0000_0000,
            pow2((f64_exp(b) - 1) as nat) as int,
        );
    }
}

/// The magnitude is strictly monotone in the (exponent, fraction) pair.
pub proof fn lemma_f64_mag_lt(x: u64, y: u64)
    requires
        f64_exp(x) < f64_exp(y) || (f64_exp(x) == f64_exp(y) && f64_frac(x) < f64_frac(y)),
    ensures
        f64_mag(x) < f64_mag(y),
{
    let p52 = 0x10_0000_0000_0000int;
    let ex = f64_exp(x);
    let fx = f64_frac(x);
    let ey = f64_exp(y);
    let fy = f64_frac(y);
    lemma_f64_decompose(x);
    lemma_f64_decompose(y);
    if ex == ey {
        if ex != 0 {
            lemma_pow2_pos((ex - 1) as nat);
            lemma_mul_strict_inequality(fx + p52, fy + p52, pow2((ex - 1) as nat) as int);
        }
    } else {
        let py = pow2((ey - 1) as nat) as int;
        lemma_pow2_pos((ey - 1) as nat);
        lemma_mul_inequality(p52, fy + p52, py);
        if ex == 0 {
            // mag(x) = fx < p52 <= p52 * py <= mag(y)
            lemma_mul_inequality(1, py, p52);
        } else {
            let px = pow2((ex - 1) as nat) as int;
            lemma_pow2_pos((ex - 1) as nat);
            lemma_mul_inequality(fx + p52, 2 * p52 - 1, px);
            // py >= pow2(ex) == 2 * px
            if ey - 1 > ex {
                lemma_pow2_strictly_increases(ex as nat, (ey - 1) as nat);
            }
            lemma_pow2_unfold(ex as nat);
            lemma_mul_inequality(2 * px, py, p52);
            lemma_mul_strict_inequality(2 * p52 - 1, 2 * p52, px);
            assert((2 * px) * p52 == (2 * p52) * px) by {
                lemma_mul_is_associative(2, px, p52);
                lemma_mul_is_associative(2, p52, px);
            };
        }
    }
}

/// For non-negative patterns, the unsigned pattern order is the magnitude
/// order.
pub proof fn lemma_f64_cmp_nonneg(x: u64, y: u64)
    requires
        x < 0x8000_0000_0000_0000,
        y < 0x8000_0000_0000_0000,
    ensures
        (x <= y) == (f64_mag(x) <= f64_mag(y)),
{
    lemma_f64_decompose(x);
    lemma_f64_decompose(y);
    lemma_basic_div_specific_divisor(0x8000_0000_0000_0000);
    assert(f64_sign(x) == 0);
    assert(f64_sign(y) == 0);
    if x < y {
        lemma_f64_mag_lt(x, y);
    } else if y < x {
        lemma_f64_mag_lt(y, x);
    }
}

/// Clearing the sign bit keeps exponent and fraction.
pub proof fn lemma_f64_strip_sign(x: u64)
    requires
        x >= 0x8000_0000_0000_0000,
    ensures
        f64_sign(x) == 1,
        f64_exp((x - 0x8000_0000_0000_0000) as u64) == f64_exp(x),
        f64_frac((x - 0x8000_0000_0000_0000) as u64) == f64_frac(x),
{
    lemma_f64_decompose(x);
    lemma_f64_decompose((x - 0x8000_0000_0000_0000) as u64);
}

/// Both zero patterns denote the value zero.
pub proof fn lemma_f64_zero()
    ensures
        f64_dval(0u64) == 0,
        f64_dval(0x8000_0000_0000_0000u64) == 0,
        !f64_is_nan(0u64),
        !f64_is_nan(0x8000_0000_0000_0000u64),
{
    lemma_f64_decompose(0u64);
    lemma_f64_decompose(0x8000_0000_0000_0000u64);
}

/// Executable IEEE-754 ordered `<=` on binary64 patterns.
pub fn f64_le_bits(a: u64, b: u64) -> (r: bool)
    ensures
        r == f64_le(a, b),
{
    proof {
        lemma_f64_decompose(a);
        lemma_f64_decompose(b);
    }
    let ea = (a / 0x10_0000_0000_0000) % 0x800;
    let fa = a % 0x10_0000_0000_0000;
    let eb = (b / 0x10_0000_0000_0000) % 0x800;
    let fb = b % 0x10_0000_0000_0000;
    if (ea == 0x7FF && fa != 0) || (eb == 0x7FF && fb != 0) {
        return false;
    }
    // fold the negative zero onto the positive one
    let an = if a == 0x8000_0000_0000_0000 { 0 } else { a };
    let bn = if b == 0x8000_0000_0000_0000 { 0 } else { b };
    proof {
        lemma_f64_zero();
        assert(f64_dval(an) == f64_dval(a));
        assert(f64_dval(bn) == f64_dval(b));
        assert(!f64_is_nan(an) && !f64_is_nan(bn));
        lemma_f64_decompose(an);
        lemma_f64_decompose(bn);
    }
    if an < 0x8000_0000_0000_0000 && bn < 0x8000_0000_0000_0000 {
        proof {
            lemma_f64_cmp_nonneg(an, bn);
            lemma_f64_mag_nonneg(an);
            lemma_f64_mag_nonneg(bn);
        }
        an <= bn
    } else if an >= 0x8000_0000_0000_0000 && bn >= 0x8000_0000_0000_0000 {
        let am = an - 0x8000_0000_0000_0000;
        let bm = bn - 0x8000_0000_0000_0000;
        proof {
            lemma_f64_strip_sign(an);
            lemma_f64_strip_sign(bn);
            lemma_f64_cmp_nonneg(bm, am);
            assert(f64_mag(am) == f64_mag(an));
            assert(f64_mag(bm) == f64_mag(bn));
        }
        bm <= am
    } else if an >= 0x8000_0000_0000_0000 {
        // negative <= non-negative, always
        proof {
            lemma_f64_strip_sign(an);
            lemma_f64_mag_nonneg(an);
            lemma_f64_mag_nonneg(bn);
        }
        true
    } else {
        // non-negative vs strictly negative: bn is not a zero, so its
        // magnitude is positive
        proof {
            lemma_f64_strip_sign(bn);
            lemma_f64_mag_zero_iff(bn);
            lemma_f64_mag_nonneg(an);
            assert(f64_mag(bn) > 0);
        }
        false
    }
}

// ---------------------------------------------------------------------------
// binary32 patterns
// ---------------------------------------------------------------------------

/// Sign bit of a binary32 pattern.
pub open spec fn f32_sign(b: u32) -> int {
    b as int / 0x8000_0000
}

/// Biased exponent field of a binary32 pattern.
pub open spec fn f32_exp(b: u32) -> int {
    (b as int / 0x80_0000) % 0x100
}

/// Fraction field of a binary32 pattern.
pub open spec fn f32_frac(b: u32) -> int {
    b as int % 0x80_0000
}

/// The pattern encodes a NaN.
pub open spec fn f32_is_nan(b: u32) -> bool {
    f32_exp(b) == 0xFF && f32_frac(b) != 0
}

/// Magnitude of the encoded value, scaled by 2^149.
pub open spec fn f32_mag(b: u32) -> int {
    if f32_exp(b) == 0 {
        f32_frac(b)
    } else {
        (f32_frac(b) + 0x80_0000) * pow2((f32_exp(b) - 1) as nat)
    }
}

/// Signed value of the pattern, scaled by 2^149; both zeros yield 0.
pub open spec fn f32_dval(b: u32) -> int {
    if f32_sign(b) == 1 {
        -f32_mag(b)
    } else {
        f32_mag(b)
    }
}

/// IEEE-754 ordered `<=`: false whenever either side is NaN.
pub open spec fn f32_le(a: u32, b: u32) -> bool {
    !f32_is_nan(a) && !f32_is_nan(b) && f32_dval(a) <= f32_dval(b)
}

pub proof fn lemma_f32_decompose(b: u32)
    ensures
        b as int == f32_sign(b) * 0x8000_0000 + f32_exp(b) * 0x80_0000 + f32_frac(b),
        0 <= f32_sign(b) <= 1,
        0 <= f32_exp(b) < 0x100,
        0 <= f32_frac(b) < 0x80_0000,
{
    let p23 = 0x80_0000int;
    let q = b as int / p23;
    lemma_fundamental_div_mod(b as int, p23);
    lemma_multiply_divide_lt(b as int, 0x200, p23);
    lemma_div_pos_is_pos(b as int, p23);
    lemma_fundamental_div_mod(q, 0x100);
    lemma_div_denominator(b as int, p23, 0x100);
    lemma_multiply_divide_lt(b as int, 2, 0x8000_0000);
    lemma_div_pos_is_pos(b as int, 0x8000_0000);
}

pub proof fn lemma_f32_mag_nonneg(b: u32)
    ensures
        f32_mag(b) >= 0,
{
    lemma_f32_decompose(b);
    if f32_exp(b) != 0 {
        lemma_pow2_pos((f32_exp(b) - 1) as nat);
        lemma_mul_nonnegative(f32_frac(b) + 0x80_0000, pow2((f32_exp(b) - 1) as nat) as int);
    }
}

pub proof fn lemma_f32_mag_zero_iff(b: u32)
    ensures
        (f32_mag(b) == 0) == (f32_exp(b) == 0 && f32_frac(b) == 0),
{
    lemma_f32_decompose(b);
    if f32_exp(b) != 0 {
        lemma_pow2_pos((f32_exp(b) - 1) as nat);
        lemma_mul_strictly_positive(f32_frac(b) + 0x80_0000, pow2((f32_exp(b) - 1) as nat) as int);
    }
}

/// The magnitude is strictly monotone in the (exponent, fraction) pair.
pub proof fn lemma_f32_mag_lt(x: u32, y: u32)
    requires
        f32_exp(x) < f32_exp(y) || (f32_exp(x) == f32_exp(y) && f32_frac(x) < f32_frac(y)),
    ensures
        f32_mag(x) < f32_mag(y),
{
    let p23 = 0x80_0000int;
    let ex = f32_exp(x);
    let fx = f32_frac(x);
    let ey = f32_exp(y);
    let fy = f32_frac(y);
    lemma_f32_decompose(x);
    lemma_f32_decompose(y);
    if ex == ey {
        if ex != 0 {
            lemma_pow2_pos((ex - 1) as nat);
            lemma_mul_strict_inequality(fx + p23, fy + p23, pow2((ex - 1) as nat) as int);
        }
    } else {
        let py = pow2((ey - 1) as nat) as int;
        lemma_pow2_pos((ey - 1) as nat);
        lemma_mul_inequality(p23, fy + p23, py);
        if ex == 0 {
            lemma_mul_inequality(1, py, p23);
        } else {
            let px = pow2((ex - 1) as nat) as int;
            lemma_pow2_pos((ex - 1) as nat);
            lemma_mul_inequality(fx + p23, 2 * p23 - 1, px);
            if ey - 1 > ex {
                lemma_pow2_strictly_increases(ex as nat, (ey - 1) as nat);
            }
            lemma_pow2_unfold(ex as nat);
            lemma_mul_inequality(2 * px, py, p23);
            lemma_mul_strict_inequality(2 * p23 - 1, 2 * p23, px);
            assert((2 * px) * p23 == (2 * p23) * px) by {
                lemma_mul_is_associative(2, px, p23);
                lemma_mul_is_associative(2, p23, px);
            };
        }
    }
}

/// For non-negative patterns, the unsigned pattern order is the magnitude
/// order.
pub proof fn lemma_f32_cmp_nonneg(x: u32, y: u32)
    requires
        x < 0x8000_0000,
        y < 0x8000_0000,
    ensures
        (x <= y) == (f32_mag(x) <= f32_mag(y)),
{
    lemma_f32_decompose(x);
    lemma_f32_decompose(y);
    lemma_basic_div_specific_divisor(0x8000_0000);
    assert(f32_sign(x) == 0);
    assert(f32_sign(y) == 0);
    if x < y {
        lemma_f32_mag_lt(x, y);
    } else if y < x {
        lemma_f32_mag_lt(y, x);
    }
}

/// Clearing the sign bit keeps exponent and fraction.
pub proof fn lemma_f32_strip_sign(x: u32)
    requires
        x >= 0x8000_0000,
    ensures
        f32_sign(x) == 1,
        f32_exp((x - 0x8000_0000) as u32) == f32_exp(x),
        f32_frac((x - 0x8000_0000) as u32) == f32_frac(x),
{
    lemma_f32_decompose(x);
    lemma_f32_decompose((x - 0x8000_0000) as u32);
}

/// Both zero patterns denote the value zero.
pub proof fn lemma_f32_zero()
    ensures
        f32_dval(0u32) == 0,
        f32_dval(0x8000_0000u32) == 0,
        !f32_is_nan(0u32),
        !f32_is_nan(0x8000_0000u32),
{
    lemma_f32_decompose(0u32);
    lemma_f32_decompose(0x8000_0000u32);
}

/// Executable IEEE-754 ordered `<=` on binary32 patterns.
pub fn f32_le_bits(a: u32, b: u32) -> (r: bool)
    ensures
        r == f32_le(a, b),
{
    proof {
        lemma_f32_decompose(a);
        lemma_f32_decompose(b);
    }
    let ea = (a / 0x80_0000) % 0x100;
    let fa = a % 0x80_0000;
    let eb = (b / 0x80_0000) % 0x100;
    let fb = b % 0x80_0000;
    if (ea == 0xFF && fa != 0) || (eb == 0xFF && fb != 0) {
        return false;
    }
    let an = if a == 0x8000_0000 { 0 } else { a };
    let bn = if b == 0x8000_0000 { 0 } else { b };
    proof {
        lemma_f32_zero();
        assert(f32_dval(an) == f32_dval(a));
        assert(f32_dval(bn) == f32_dval(b));
        assert(!f32_is_nan(an) && !f32_is_nan(bn));
        lemma_f32_decompose(an);
        lemma_f32_decompose(bn);
    }
    if an < 0x8000_0000 && bn < 0x8000_0000 {
        proof {
            lemma_f32_cmp_nonneg(an, bn);
            lemma_f32_mag_nonneg(an);
            lemma_f32_mag_nonneg(bn);
        }
        an <= bn
    } else if an >= 0x8000_0000 && bn >= 0x8000_0000 {
        let am = an - 0x8000_0000;
        let bm = bn - 0x8000_0000;
        proof {
            lemma_f32_strip_sign(an);
            lemma_f32_strip_sign(bn);
            lemma_f32_cmp_nonneg(bm, am);
            assert(f32_mag(am) == f32_mag(an));
            assert(f32_mag(bm) == f32_mag(bn));
        }
        bm <= am
    } else if an >= 0x8000_0000 {
        proof {
            lemma_f32_strip_sign(an);
            lemma_f32_mag_nonneg(an);
            lemma_f32_mag_nonneg(bn);
        }
        true
    } else {
        proof {
            lemma_f32_strip_sign(bn);
            lemma_f32_mag_zero_iff(bn);
            lemma_f32_mag_nonneg(an);
            assert(f32_mag(bn) > 0);
        }
        false
    }
}

// ---------------------------------------------------------------------------
// Conversions into floating-point patterns
// ---------------------------------------------------------------------------

/// Bit pattern of the binary64 value obtained from the unsigned integer `x`
/// by rounding to nearest, ties to even; exact whenever `x` has at most 53
/// significant bits.
pub open spec fn u64_to_f64_bits(x: u64) -> u64 {
    if x == 0 {
        0u64
    } else {
        let n = (bitlen(x as nat) - 1) as nat;
        if n <= 52 {
            ((n + 1023) * pow2(52) + (x as int * pow2((52 - n) as nat) - pow2(52))) as u64
        } else {
            let sh = (n - 52) as nat;
            let keep = x as int / pow2(sh) as int;
            let rest = x as int % pow2(sh) as int;
            let keep2 = if 2 * rest > pow2(sh) || (2 * rest == pow2(sh) && keep % 2 == 1) {
                keep + 1
            } else {
                keep
            };
            if keep2 == pow2(53) {
                ((n + 1024) * pow2(52)) as u64
            } else {
                ((n + 1023) * pow2(52) + (keep2 - pow2(52))) as u64
            }
        }
    }
}

/// Bit pattern of the binary64 nearest to the signed integer `x`.
pub open spec fn i64_to_f64_bits(x: i64) -> u64 {
    if x >= 0 {
        u64_to_f64_bits(x as u64)
    } else {
        (0x8000_0000_0000_0000 + u64_to_f64_bits((-(x as int)) as u64) as int) as u64
    }
}

/// Executable conversion matching [`u64_to_f64_bits`].
pub fn u64_to_f64(x: u64) -> (r: u64)
    ensures
        r == u64_to_f64_bits(x),
        r < 0x8000_0000_0000_0000,
{
    if x == 0 {
        return 0;
    }
    let n = bit_index(x);
    proof {
        lemma_bitlen_bounds(x as nat);
        lemma2_to64();
        lemma2_to64_rest();
    }
    if n <= 52 {
        let p = pow2_u64(52 - n);
        proof {
            lemma_pow2_pos((52 - n) as nat);
            lemma_pow2_adds(n as nat, (52 - n) as nat);
            lemma_pow2_adds((n + 1) as nat, (52 - n) as nat);
            lemma_mul_inequality(pow2(n as nat) as int, x as int, p as int);
            lemma_mul_strict_inequality(x as int, pow2((n + 1) as nat) as int, p as int);
        }
        let mant = x * p;
        (n + 1023) * 0x10_0000_0000_0000 + (mant - 0x10_0000_0000_0000)
    } else {
        let sh = n - 52;
        let p = pow2_u64(sh);
        proof {
            lemma_pow2_pos(sh as nat);
            lemma_pow2_adds(52, sh as nat);
            lemma_pow2_adds(53, sh as nat);
            lemma_div_is_ordered(pow2(52) as int * p as int, x as int, p as int);
            lemma_div_by_multiple(pow2(52) as int, p as int);
            lemma_multiply_divide_lt(x as int, p as int, pow2(53) as int);
            if sh < 11 {
                lemma_pow2_strictly_increases(sh as nat, 11);
            }
        }
        let keep = x / p;
        let rest = x % p;
        let rest2 = 2 * rest;
        let keep2 = if rest2 > p || (rest2 == p && keep % 2 == 1) {
            keep + 1
        } else {
            keep
        };
        if keep2 == 0x20_0000_0000_0000 {
            (n + 1024) * 0x10_0000_0000_0000
        } else {
            (n + 1023) * 0x10_0000_0000_0000 + (keep2 - 0x10_0000_0000_0000)
        }
    }
}

/// Executable conversion matching [`i64_to_f64_bits`].
pub fn i64_to_f64(x: i64) -> (r: u64)
    ensures
        r == i64_to_f64_bits(x),
{
    if x >= 0 {
        u64_to_f64(x as u64)
    } else {
        let mag: u64 = if x == i64::MIN {
            0x8000_0000_0000_0000
        } else {
            (-x) as u64
        };
        proof {
            assert(mag as int == -(x as int));
        }
        let m = u64_to_f64(mag);
        0x8000_0000_0000_0000 + m
    }
}

/// Conversion of an unsigned integer below 2^53 into binary64 is exact:
/// the resulting pattern is finite and denotes the integer itself (on the
/// 2^1074 scale of [`f64_dval`]).
pub proof fn lemma_u64_to_f64_exact(x: u64)
    requires
        x < 0x20_0000_0000_0000,
    ensures
        !f64_is_nan(u64_to_f64_bits(x)),
        f64_dval(u64_to_f64_bits(x)) == x * pow2(1074),
{
    lemma2_to64();
    lemma2_to64_rest();
    if x == 0 {
        lemma_f64_zero();
        assert(f64_dval(0u64) == 0);
    } else {
        lemma_bitlen_bounds(x as nat);
        let n = (bitlen(x as nat) - 1) as nat;
        if n > 52 {
            if n > 53 {
                lemma_pow2_strictly_increases(53, n);
            }
            assert(pow2(n) >= pow2(53));
            assert(false);
        }
        let p = pow2((52 - n) as nat) as int;
        lemma_pow2_pos((52 - n) as nat);
        lemma_pow2_adds(n, (52 - n) as nat);
        lemma_pow2_adds((n + 1) as nat, (52 - n) as nat);
        lemma_mul_inequality(pow2(n) as int, x as int, p);
        lemma_mul_strict_inequality(x as int, pow2((n + 1) as nat) as int, p);
        let mant = x as int * p;
        assert(pow2(52) <= mant < pow2(53));
        let b = u64_to_f64_bits(x);
        let e = n + 1023;
        assert(b as int == e * 0x10_0000_0000_0000 + (mant - 0x10_0000_0000_0000));
        lemma_f64_decompose(b);
        assert(f64_sign(b) == 0 && f64_exp(b) == e && f64_frac(b) == mant - 0x10_0000_0000_0000);
        assert(f64_mag(b) == mant * pow2((e - 1) as nat));
        assert(mant * pow2((e - 1) as nat) == x as int * (p * pow2((e - 1) as nat))) by {
            lemma_mul_is_associative(x as int, p, pow2((e - 1) as nat) as int);
        };
        lemma_pow2_adds((52 - n) as nat, (n + 1022) as nat);
        assert(p * pow2((e - 1) as nat) == pow2(1074) as int);
    }
}

/// Conversion of a signed integer of magnitude below 2^53 into binary64
/// is exact.
pub proof fn lemma_i64_to_f64_exact(x: i64)
    requires
        -0x20_0000_0000_0000 < x < 0x20_0000_0000_0000,
    ensures
        !f64_is_nan(i64_to_f64_bits(x)),
        f64_dval(i64_to_f64_bits(x)) == x * pow2(1074),
{
    if x >= 0 {
        lemma_u64_to_f64_exact(x as u64);
    } else {
        let m = (-(x as int)) as u64;
        lemma_u64_to_f64_exact(m);
        let mb = u64_to_f64_bits(m);
        let b = i64_to_f64_bits(x);
        lemma2_to64();
        lemma2_to64_rest();
        // the magnitude pattern is finite and below the sign bit
        lemma_f64_decompose(mb);
        if f64_exp(mb) >= 0x7FF {
            // its magnitude m * 2^1074 would reach the infinities, beyond
            // every value with 53 significant bits
            assert(f64_mag(mb) >= 0x10_0000_0000_0000 * pow2(0x7FE)) by {
                lemma_pow2_pos(0x7FE);
                lemma_mul_inequality(
                    0x10_0000_0000_0000,
                    f64_frac(mb) + 0x10_0000_0000_0000,
                    pow2(0x7FE) as int,
                );
            };
            assert(m * pow2(1074) < pow2(53) * pow2(1074)) by {
                lemma_pow2_pos(1074);
                lemma_mul_strict_inequality(m as int, pow2(53) as int, pow2(1074) as int);
            };
            lemma_pow2_adds(53, 1074);
            lemma_pow2_adds(52, 0x7FE);
            lemma_pow2_strictly_increases(1127, (52 + 0x7FE) as nat);
            assert(false);
        }
        assert(m * pow2(1074) > 0) by {
            lemma_pow2_pos(1074);
            lemma_mul_strictly_positive(m as int, pow2(1074) as int);
        };
        if f64_sign(mb) == 1 {
            lemma_f64_mag_nonneg(mb);
            assert(f64_dval(mb) <= 0);
            assert(false);
        }
        assert(mb < 0x8000_0000_0000_0000);
        assert(b == (mb + 0x8000_0000_0000_0000) as u64);
        lemma_f64_strip_sign(b);
        assert(f64_mag(b) == f64_mag(mb));
        assert(f64_dval(b) == -(m * pow2(1074)));
        assert(-(m as int) * pow2(1074) == -(m as int * pow2(1074))) by {
            lemma_mul_unary_negation(m as int, pow2(1074) as int);
        };
    }
}

/// Bit pattern of the binary32 value of a small integer `v`; exact, since
/// the magnitude fits the 24-bit significand.
pub open spec fn int_to_f32_bits(v: int) -> u32
    recommends
        -0x1_0000 <= v <= 0x1_0000,
{
    if v == 0 {
        0u32
    } else {
        let m = if v < 0 {
            -v
        } else {
            v
        };
        let n = (bitlen(m as nat) - 1) as nat;
        let mag = (n + 127) * pow2(23) + (m * pow2((23 - n) as nat) - pow2(23));
        if v < 0 {
            (0x8000_0000 + mag) as u32
        } else {
            mag as u32
        }
    }
}

/// Executable conversion matching [`int_to_f32_bits`].
pub fn int_to_f32(v: i64) -> (r: u32)
    requires
        -0x1_0000 <= v <= 0x1_0000,
    ensures
        r == int_to_f32_bits(v as int),
{
    if v == 0 {
        return 0;
    }
    let neg = v < 0;
    let m: u64 = if neg {
        (-v) as u64
    } else {
        v as u64
    };
    let n = bit_index(m);
    proof {
        lemma_bitlen_bounds(m as nat);
        lemma2_to64();
        if n > 16 {
            lemma_pow2_strictly_increases(16, n as nat);
            assert(false);
        }
    }
    let p = pow2_u64(23 - n);
    proof {
        lemma_pow2_pos((23 - n) as nat);
        lemma_pow2_adds(n as nat, (23 - n) as nat);
        lemma_pow2_adds((n + 1) as nat, (23 - n) as nat);
        lemma_mul_inequality(pow2(n as nat) as int, m as int, p as int);
        lemma_mul_strict_inequality(m as int, pow2((n + 1) as nat) as int, p as int);
    }
    let mant = m * p;
    let mag = (n + 127) * 0x80_0000 + (mant - 0x80_0000);
    let r64: u64 = if neg {
        0x8000_0000 + mag
    } else {
        mag
    };
    r64 as u32
}

/// Conversion of an integer of magnitude at most 2^16 into binary32 is
/// exact: the resulting pattern is finite and denotes the integer itself
/// (on the 2^149 scale of [`f32_dval`]).
pub proof fn lemma_int_to_f32_exact(v: int)
    requires
        -0x1_0000 <= v <= 0x1_0000,
    ensures
        !f32_is_nan(int_to_f32_bits(v)),
        f32_dval(int_to_f32_bits(v)) == v * pow2(149),
{
    lemma2_to64();
    if v == 0 {
        lemma_f32_zero();
    } else {
        let m = if v < 0 {
            -v
        } else {
            v
        };
        lemma_bitlen_bounds(m as nat);
        let n = (bitlen(m as nat) - 1) as nat;
        if n > 16 {
            lemma_pow2_strictly_increases(16, n);
            assert(false);
        }
        let p = pow2((23 - n) as nat) as int;
        lemma_pow2_pos((23 - n) as nat);
        lemma_pow2_adds(n, (23 - n) as nat);
        lemma_pow2_adds((n + 1) as nat, (23 - n) as nat);
        lemma_mul_inequality(pow2(n) as int, m, p);
        lemma_mul_strict_inequality(m, pow2((n + 1) as nat) as int, p);
        let mant = m * p;
        assert(pow2(23) <= mant < pow2(24));
        let e = n + 127;
        let mag_bits = (e * 0x80_0000 + (mant - 0x80_0000)) as u32;
        assert(mag_bits as int == e * 0x80_0000 + (mant - 0x80_0000));
        lemma_f32_decompose(mag_bits);
        assert(f32_sign(mag_bits) == 0 && f32_exp(mag_bits) == e && f32_frac(mag_bits) == mant
            - 0x80_0000);
        assert(f32_mag(mag_bits) == mant * pow2((e - 1) as nat));
        assert(mant * pow2((e - 1) as nat) == m * (p * pow2((e - 1) as nat))) by {
            lemma_mul_is_associative(m, p, pow2((e - 1) as nat) as int);
        };
        lemma_pow2_adds((23 - n) as nat, (n + 126) as nat);
        assert(p * pow2((e - 1) as nat) == pow2(149) as int);
        let b = int_to_f32_bits(v);
        if v < 0 {
            assert(b as int == 0x8000_0000 + mag_bits as int);
            lemma_f32_strip_sign(b);
            assert(f32_mag(b) == f32_mag(mag_bits));
            assert(f32_dval(b) == -(m * pow2(149)));
            assert((-m) * pow2(149) == -(m * pow2(149))) by {
                lemma_mul_unary_negation(m, pow2(149) as int);
            };
        } else {
            assert(b == mag_bits);
        }
    }
}

/// Bit pattern of the binary64 value equal to the binary32 pattern `b`:
/// widening is exact; NaN widens to NaN, infinities to infinities.
pub open spec fn f32_to_f64_bits(b: u32) -> u64 {
    let s = f32_sign(b);
    let e = f32_exp(b);
    let f = f32_frac(b);
    let sb = s * 0x8000_0000_0000_0000;
    if e == 0 && f == 0 {
        sb as u64
    } else if e == 0 {
        let n = (bitlen(f as nat) - 1) as nat;
        (sb + (874 + n) * pow2(52) + (f * pow2((52 - n) as nat) - pow2(52))) as u64
    } else if e == 0xFF {
        (sb + 0x7FF * pow2(52) + f * pow2(29)) as u64
    } else {
        (sb + (e + 896) * pow2(52) + f * pow2(29)) as u64
    }
}

/// Executable conversion matching [`f32_to_f64_bits`].
pub fn f32_to_f64(b: u32) -> (r: u64)
    ensures
        r == f32_to_f64_bits(b),
{
    proof {
        lemma_f32_decompose(b);
        lemma2_to64();
        lemma2_to64_rest();
    }
    let s64: u64 = if b >= 0x8000_0000 {
        0x8000_0000_0000_0000
    } else {
        0
    };
    let e = (b / 0x80_0000) % 0x100;
    let f = b % 0x80_0000;
    if e == 0 && f == 0 {
        s64
    } else if e == 0 {
        let n = bit_index(f as u64);
        proof {
            lemma_bitlen_bounds(f as nat);
            if n > 22 {
                lemma_pow2_strictly_increases(22, n as nat);
                assert(false);
            }
        }
        let p = pow2_u64(52 - n);
        proof {
            lemma_pow2_pos((52 - n) as nat);
            lemma_pow2_adds(n as nat, (52 - n) as nat);
            lemma_pow2_adds((n + 1) as nat, (52 - n) as nat);
            lemma_mul_inequality(pow2(n as nat) as int, f as int, p as int);
            lemma_mul_strict_inequality(f as int, pow2((n + 1) as nat) as int, p as int);
        }
        let mant = (f as u64) * p;
        s64 + (874 + n) * 0x10_0000_0000_0000 + (mant - 0x10_0000_0000_0000)
    } else {
        let e64: u64 = if e == 0xFF {
            0x7FF
        } else {
            (e as u64) + 896
        };
        s64 + e64 * 0x10_0000_0000_0000 + (f as u64) * 0x2000_0000
    }
}

} // verus!
