//! Rescaling by a DPI ratio as double-precision arithmetic does it: the
//! ratio `a / b` of two whole numbers is the `f64` nearest to it, a whole
//! number is multiplied by that ratio with `f64` rounding, and the product
//! is rounded to a whole number, halves away from zero.
//!
//! An `f64` ratio here is a pair `(m, k)` standing for `m / 2^k`, with
//! `2^52 <= m < 2^53`.
use vstd::prelude::*;
use vstd::arithmetic::power2::{pow2, lemma_pow2_unfold, lemma_pow2_pos, lemma_pow2_adds, lemma2_to64, lemma2_to64_rest, lemma_pow2_strictly_increases};
use crate::config_overlay::{bit_length, round_to_53_bits, lemma_bit_length_bound};

verus! {

/// `a * 2^k / b` has 53 binary digits before the point.
pub open spec fn fits_53(a: int, b: int, k: nat) -> bool {
    &&& pow2(52) * b <= a * pow2(k)
    &&& a * pow2(k) < pow2(53) * b
}

/// The binary exponent of the `f64` nearest `a / b`.
pub open spec fn ratio_exponent(a: nat, b: nat) -> nat {
    choose|k: nat| fits_53(a as int, b as int, k)
}

/// `n / d` rounded to the nearest whole number, ties to the even one.
pub open spec fn div_round_even(n: nat, d: nat) -> nat {
    let q = n / d;
    let r = n % d;
    if 2 * r > d || (2 * r == d && q % 2 == 1) {
        q + 1
    } else {
        q
    }
}

/// The `f64` nearest `a / b` (for `a, b > 0`), as `(m, k)`.
pub open spec fn f64_ratio(a: nat, b: nat) -> (nat, nat) {
    let k = ratio_exponent(a, b);
    let m = div_round_even(a * pow2(k), b);
    if m == pow2(53) {
        (pow2(52), (k - 1) as nat)
    } else {
        (m, k)
    }
}

/// The `f64` value of one millionth is `4722366482869645 / 2^72`.
pub open spec fn one_millionth_mantissa() -> nat {
    4722366482869645
}

/// The ratio `m / 2^k` differs from 1 by less than the `f64` value of one
/// millionth (the subtraction is exact that close to 1).
pub open spec fn ratio_is_one(m: nat, k: nat) -> bool {
    let d: int = m as int - pow2(k) as int;
    let ad: int = if d >= 0 { d } else { -d };
    ad * pow2(72) < one_millionth_mantissa() * pow2(k)
}

/// `v` times the ratio `m / 2^k` (with `k >= 1`), the product rounded to an
/// `f64` and then to a whole number, halves away from zero.
pub open spec fn f64_scale_int(v: int, m: nat, k: nat) -> int {
    let mag: nat = (if v >= 0 { v } else { -v }) as nat;
    let p = round_to_53_bits(mag * m);
    let r = (p + pow2((k - 1) as nat)) / (pow2(k) as int);
    if v < 0 {
        -r
    } else {
        r
    }
}

proof fn lemma_pow2_ge_double(k1: nat, k2: nat)
    requires
        k1 < k2,
    ensures
        pow2(k2) >= 2 * pow2(k1),
{
    let d = (k2 - k1) as nat;
    lemma_pow2_adds(k1, d);
    lemma_pow2_unfold(d);
    lemma_pow2_pos((d - 1) as nat);
    lemma_pow2_pos(k1);
    assert(pow2(k1) * pow2(d) >= pow2(k1) * 2) by (nonlinear_arith)
        requires
            pow2(d) >= 2,
            pow2(k1) > 0,
    ;
}

/// Only one exponent puts `a / b` between `2^52` and `2^53`.
proof fn lemma_fits_53_unique(a: nat, b: nat, k1: nat, k2: nat)
    requires
        fits_53(a as int, b as int, k1),
        fits_53(a as int, b as int, k2),
    ensures
        k1 == k2,
{
    if k1 != k2 {
        let (lo, hi) = if k1 < k2 { (k1, k2) } else { (k2, k1) };
        lemma_pow2_ge_double(lo, hi);
        lemma_pow2_unfold(53);
        assert(a * pow2(hi) >= 2 * (a * pow2(lo))) by (nonlinear_arith)
            requires
                pow2(hi) >= 2 * pow2(lo),
                a >= 0,
        ;
        assert(2 * (pow2(52) * b) == pow2(53) * b) by (nonlinear_arith)
            requires
                pow2(53) == 2 * pow2(52),
        ;
    }
}

proof fn lemma_ratio_exponent(a: nat, b: nat, k: nat)
    requires
        fits_53(a as int, b as int, k),
    ensures
        ratio_exponent(a, b) == k,
{
    let j = ratio_exponent(a, b);
    assert(fits_53(a as int, b as int, j));
    lemma_fits_53_unique(a, b, j, k);
}

/// `2^k`, for `k < 127`.
pub(crate) fn pow2_u128(k: u32) -> (r: u128)
    requires
        k < 127,
    ensures
        r == pow2(k as nat),
{
    let mut r: u128 = 1;
    let mut i: u32 = 0;
    proof {
        lemma2_to64();
    }
    while i < k
        invariant
            i <= k < 127,
            r == pow2(i as nat),
        decreases k - i,
    {
        proof {
            lemma_pow2_unfold((i + 1) as nat);
            lemma_pow2_strictly_increases((i + 1) as nat, 127);
            assert(pow2(127) <= u128::MAX) by {
                lemma_pow2_unfold(128);
                assert(pow2(128) == 0x1_0000_0000_0000_0000_0000_0000_0000_0000) by {
                    lemma_pow2_adds(64, 64);
                    lemma2_to64_rest();
                }
            }
        }
        r = r * 2;
        i = i + 1;
    }
    r
}

/// `p` rounded to 53 significant binary digits, ties to even.
fn round53(p: u128) -> (r: u128)
    requires
        p < 0x10_0000_0000_0000_0000_0000_0000,
    ensures
        r == round_to_53_bits(p as nat),
        r <= p + 0x8000_0000_0000,
{
    let ghost pn = p as nat;
    proof {
        lemma2_to64();
        lemma2_to64_rest();
        lemma_pow2_adds(64, 36);
        assert(pow2(100) == 0x10_0000_0000_0000_0000_0000_0000) by (nonlinear_arith)
            requires
                pow2(100) == pow2(64) * pow2(36),
                pow2(64) == 0x1_0000_0000_0000_0000,
                pow2(36) == 0x10_0000_0000,
        ;
        lemma_bit_length_bound(pn, 100);
    }
    let mut n: u32 = 0;
    let mut t: u128 = p;
    while t > 0
        invariant
            n + bit_length(t as nat) == bit_length(pn),
            bit_length(pn) <= 100,
        decreases t,
    {
        t = t / 2;
        n = n + 1;
    }
    if n <= 53 {
        return p;
    }
    let shift: u32 = n - 53;
    let ulp = pow2_u128(shift);
    proof {
        lemma_pow2_pos(shift as nat);
        if shift < 47 {
            lemma_pow2_strictly_increases(shift as nat, 47);
        }
        assert((p / ulp) * ulp <= p) by (nonlinear_arith)
            requires
                ulp > 0,
        ;
    }
    let q = p / ulp;
    let rem = p % ulp;
    let up = 2 * rem > ulp || (2 * rem == ulp && q % 2 == 1);
    assert((q + 1) * ulp == q * ulp + ulp) by (nonlinear_arith);
    assert(n == bit_length(pn));
    if up {
        (q + 1) * ulp
    } else {
        q * ulp
    }
}

/// The `f64` nearest `a / b`.
pub(crate) fn f64_ratio_exec(a: u32, b: u32) -> (r: (u128, u32))
    requires
        a > 0,
        b > 0,
    ensures
        (r.0 as nat, r.1 as nat) == f64_ratio(a as nat, b as nat),
        pow2(52) <= r.0 < pow2(53),
        20 <= r.1 <= 84,
{
    proof {
        lemma2_to64();
        lemma2_to64_rest();
        lemma_pow2_unfold(53);
    }
    let top = pow2_u128(52) * (b as u128);
    let mut k: u32 = 0;
    let mut n: u128 = a as u128;
    assert(n < pow2(53) * b) by (nonlinear_arith)
        requires
            n < 0x1_0000_0000,
            pow2(53) > 0x1_0000_0000,
            b >= 1,
    ;
    while n < top
        invariant
            top == pow2(52) * b,
            n == a * pow2(k as nat),
            n < pow2(53) * b,
            1 <= a < 0x1_0000_0000,
            1 <= b < 0x1_0000_0000,
            k <= 84,
        decreases 84 - k,
    {
        proof {
            lemma2_to64();
            lemma2_to64_rest();
            lemma_pow2_unfold(53);
            lemma_pow2_unfold((k + 1) as nat);
            lemma_pow2_adds(52, 32);
            assert(pow2(k as nat) <= n) by (nonlinear_arith)
                requires
                    n == a * pow2(k as nat),
                    a >= 1,
            ;
            assert(pow2(52) * b < pow2(52) * pow2(32)) by (nonlinear_arith)
                requires
                    b < pow2(32),
                    pow2(52) > 0,
            ;
            if k >= 84 {
                if k > 84 {
                    lemma_pow2_strictly_increases(84, k as nat);
                }
            }
            assert(2 * n < pow2(53) * b) by (nonlinear_arith)
                requires
                    n < pow2(52) * b,
                    pow2(53) == 2 * pow2(52),
            ;
            assert(a * pow2((k + 1) as nat) == 2 * n) by (nonlinear_arith)
                requires
                    n == a * pow2(k as nat),
                    pow2((k + 1) as nat) == 2 * pow2(k as nat),
            ;
        }
        n = n * 2;
        k = k + 1;
    }
    proof {
        lemma_ratio_exponent(a as nat, b as nat, k as nat);
        if k <= 20 {
            if k < 20 {
                lemma_pow2_strictly_increases(k as nat, 20);
            }
            assert(a * pow2(k as nat) < pow2(52) * b) by (nonlinear_arith)
                requires
                    a < 0x1_0000_0000,
                    pow2(k as nat) <= 0x10_0000,
                    pow2(52) == 0x10_0000_0000_0000,
                    b >= 1,
            ;
        }
    }
    let q = n / (b as u128);
    let rem = n % (b as u128);
    let up = 2 * rem > (b as u128) || (2 * rem == (b as u128) && q % 2 == 1);
    proof {
        assert(q * b <= n < (q + 1) * b) by (nonlinear_arith)
            requires
                q == n / (b as u128),
                b > 0,
        ;
        assert(pow2(52) <= q < pow2(53)) by (nonlinear_arith)
            requires
                q * b <= n < (q + 1) * b,
                pow2(52) * b <= n,
                n < pow2(53) * b,
                b > 0,
        ;
    }
    let m0 = if up { q + 1 } else { q };
    if m0 == pow2_u128(53) {
        (pow2_u128(52), k - 1)
    } else {
        (m0, k)
    }
}

/// `v` times the ratio `m / 2^k`, as `f64_scale_int`.
pub(crate) fn f64_scale_int_exec(v: i64, m: u128, k: u32) -> (r: i128)
    requires
        -0x1_0000_0000 <= v <= 0x1_0000_0000,
        m < pow2(53),
        1 <= k <= 84,
    ensures
        r == f64_scale_int(v as int, m as nat, k as nat),
{
    let mag: u128 = if v >= 0 { v as u128 } else { (0 - v) as u128 };
    proof {
        lemma2_to64();
        lemma2_to64_rest();
        assert(mag * m < 0x20_0000_0000_0000_0000_0000) by (nonlinear_arith)
            requires
                mag <= 0x1_0000_0000,
                m < 0x20_0000_0000_0000,
        ;
    }
    let prod = mag * m;
    let p = round53(prod);
    let half = pow2_u128(k - 1);
    let whole = pow2_u128(k);
    proof {
        lemma_pow2_pos(k as nat);
        lemma_pow2_adds(64, 20);
        if k < 84 {
            lemma_pow2_strictly_increases(k as nat, 84);
        }
        lemma_pow2_strictly_increases((k - 1) as nat, 84);
        assert(pow2(84) == 0x10_0000_0000_0000_0000_0000) by (nonlinear_arith)
            requires
                pow2(84) == pow2(64) * pow2(20),
                pow2(64) == 0x1_0000_0000_0000_0000,
                pow2(20) == 0x10_0000,
        ;
    }
    let r = (p + half) / whole;
    proof {
        assert(r as int <= p + half) by (nonlinear_arith)
            requires
                r as int == (p as int + half as int) / (whole as int),
                whole >= 1,
                p + half >= 0,
        ;
    }
    if v < 0 {
        0 - (r as i128)
    } else {
        r as i128
    }
}

/// `u * y < w * y` exactly when `u < w`, for `y > 0`.
proof fn lemma_mul_cancel_lt(u: int, w: int, y: int)
    requires
        y > 0,
    ensures
        (u * y < w * y) <==> (u < w),
{
    if u < w {
        assert(u * y < w * y) by (nonlinear_arith)
            requires
                u < w,
                y > 0,
        ;
    } else {
        assert(u * y >= w * y) by (nonlinear_arith)
            requires
                u >= w,
                y > 0,
        ;
    }
}

/// Whether the ratio `m / 2^k` is within one millionth of 1, as
/// `ratio_is_one`.
pub(crate) fn ratio_is_one_exec(m: u128, k: u32) -> (r: bool)
    requires
        m < pow2(53),
        20 <= k <= 84,
    ensures
        r == ratio_is_one(m as nat, k as nat),
{
    proof {
        lemma2_to64();
        lemma2_to64_rest();
        lemma_pow2_adds(64, 20);
        assert(pow2(84) == 0x10_0000_0000_0000_0000_0000) by (nonlinear_arith)
            requires
                pow2(84) == pow2(64) * pow2(20),
                pow2(64) == 0x1_0000_0000_0000_0000,
                pow2(20) == 0x10_0000,
        ;
        if k < 84 {
            lemma_pow2_strictly_increases(k as nat, 84);
        }
        lemma_pow2_pos(k as nat);
        lemma_pow2_pos(72);
    }
    let pk = pow2_u128(k);
    let ad: u128 = if m >= pk {
        m - pk
    } else {
        pk - m
    };
    let mm: u128 = 4722366482869645;
    let ghost lhs: int = ad as int * pow2(72);
    let ghost rhs: int = mm as int * pow2(k as nat);
    assert(ratio_is_one(m as nat, k as nat) == (lhs < rhs));
    if k >= 72 {
        let s = pow2_u128(k - 72);
        proof {
            lemma_pow2_adds(72, (k - 72) as nat);
            if k - 72 < 12 {
                lemma_pow2_strictly_increases((k - 72) as nat, 12);
            }
            assert(rhs == (mm * s) * pow2(72)) by (nonlinear_arith)
                requires
                    rhs == mm as int * pow2(k as nat),
                    pow2(k as nat) == pow2(72) * pow2((k - 72) as nat),
                    s == pow2((k - 72) as nat),
            ;
            lemma_mul_cancel_lt(ad as int, (mm * s) as int, pow2(72) as int);
        }
        ad < mm * s
    } else if ad >= mm {
        proof {
            lemma_pow2_strictly_increases(k as nat, 72);
            assert(lhs >= rhs) by (nonlinear_arith)
                requires
                    lhs == ad as int * pow2(72),
                    rhs == mm as int * pow2(k as nat),
                    ad >= mm,
                    mm > 0,
                    pow2(72) > pow2(k as nat),
            ;
        }
        false
    } else {
        let s = pow2_u128(72 - k);
        proof {
            lemma_pow2_adds(k as nat, (72 - k) as nat);
            if 72 - k < 52 {
                lemma_pow2_strictly_increases((72 - k) as nat, 52);
            }
            assert(lhs == (ad * s) * pow2(k as nat)) by (nonlinear_arith)
                requires
                    lhs == ad as int * pow2(72),
                    pow2(72) == pow2(k as nat) * pow2((72 - k) as nat),
                    s == pow2((72 - k) as nat),
            ;
            lemma_mul_cancel_lt((ad * s) as int, mm as int, pow2(k as nat) as int);
            assert(ad * s <= 0x20_0000_0000_0000 * 0x10_0000_0000_0000) by (nonlinear_arith)
                requires
                    ad < 0x20_0000_0000_0000,
                    s <= 0x10_0000_0000_0000,
            ;
        }
        ad * s < mm
    }
}

/// The ratio of two equal numbers is exactly one.
pub proof fn lemma_ratio_of_equal(d: nat)
    requires
        d > 0,
    ensures
        f64_ratio(d, d) == (pow2(52), 52nat),
        ratio_is_one(pow2(52), 52),
{
    lemma_pow2_unfold(53);
    lemma_pow2_pos(52);
    lemma_pow2_pos(72);
    assert(0 * pow2(72) < one_millionth_mantissa() * pow2(52)) by (nonlinear_arith)
        requires
            pow2(52) > 0,
    ;
    assert(fits_53(d as int, d as int, 52)) by {
        assert(pow2(52) * d <= d * pow2(52)) by (nonlinear_arith);
        assert(d * pow2(52) < pow2(53) * d) by (nonlinear_arith)
            requires
                pow2(53) == 2 * pow2(52),
                pow2(52) > 0,
                d > 0,
        ;
    }
    lemma_ratio_exponent(d, d, 52);
    let n = d * pow2(52);
    assert(n / d == pow2(52) && n % d == 0) by {
        vstd::arithmetic::div_mod::lemma_fundamental_div_mod_converse(n as int, d as int, pow2(52) as int, 0);
        assert(n == d * pow2(52));
    }
    assert(pow2(52) % 2 == 0) by {
        lemma_pow2_unfold(52);
    }
    assert(pow2(52) != pow2(53));
}

} // verus!
