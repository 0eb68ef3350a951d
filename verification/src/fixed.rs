use vstd::prelude::*;
use vstd::arithmetic::div_mod::{
    lemma_div_is_ordered,
    lemma_div_multiples_vanish,
    lemma_multiply_divide_lt,
};
use vstd::arithmetic::mul::lemma_mul_inequality;
use vstd::arithmetic::power2::{lemma_pow2_strictly_increases, lemma_pow2_unfold, lemma_pow2_pos, lemma2_to64, pow2};

verus! {

/// `r` is the floor of the square root of `x`.
pub open spec fn is_sqrt_floor(x: int, r: int) -> bool {
    0 <= r && r * r <= x < (r + 1) * (r + 1)
}

/// The floor of the square root: the unique `r` with `is_sqrt_floor(x, r)`.
pub closed spec fn sqrt_floor(x: int) -> int {
    choose|r: int| #[trigger] is_sqrt_floor(x, r)
}

pub proof fn lemma_sqrt_floor_exists(x: nat)
    ensures
        exists|r: int| #[trigger] is_sqrt_floor(x as int, r),
    decreases x,
{
    if x == 0 {
        assert(is_sqrt_floor(x as int, 0));
    } else {
        lemma_sqrt_floor_exists((x - 1) as nat);
        let r = choose|r: int| #[trigger] is_sqrt_floor(x - 1, r);
        if (r + 1) * (r + 1) <= x {
            assert((r + 1) * (r + 1) == x);
            assert((r + 2) * (r + 2) > x) by (nonlinear_arith)
                requires
                    (r + 1) * (r + 1) == x,
                    r >= 0,
            ;
            assert(is_sqrt_floor(x as int, r + 1));
        } else {
            assert(is_sqrt_floor(x as int, r));
        }
    }
}

pub proof fn lemma_sqrt_floor_unique(x: int, a: int, b: int)
    requires
        0 <= a,
        0 <= b,
        a * a <= x < (a + 1) * (a + 1),
        b * b <= x < (b + 1) * (b + 1),
    ensures
        a == b,
{
    if a < b {
        assert((a + 1) * (a + 1) <= b * b) by (nonlinear_arith)
            requires
                0 <= a,
                a + 1 <= b,
        ;
    }
    if b < a {
        assert((b + 1) * (b + 1) <= a * a) by (nonlinear_arith)
            requires
                0 <= b,
                b + 1 <= a,
        ;
    }
}

/// The two defining inequalities of `sqrt_floor`, usable once existence has
/// been established.
pub proof fn lemma_sqrt_floor_bounds(x: int)
    requires
        x >= 0,
    ensures
        is_sqrt_floor(x, sqrt_floor(x)),
{
    lemma_sqrt_floor_exists(x as nat);
    let r = choose|r: int| #[trigger] is_sqrt_floor(x, r);
    assert(is_sqrt_floor(x, r));
}

/// Integer square root by bisection.
pub fn isqrt(x: u128) -> (r: u64)
    ensures
        r == sqrt_floor(x as int),
        r * r <= x,
{
    let mut lo: u64 = 0;
    let mut hi: u64 = u64::MAX;
    proof {
        assert((hi as int + 1) * (hi as int + 1) > x) by (nonlinear_arith)
            requires
                hi == u64::MAX,
                x <= u128::MAX,
        ;
    }
    while lo < hi
        invariant
            lo <= hi,
            (lo as int) * (lo as int) <= x,
            (hi as int + 1) * (hi as int + 1) > x,
        decreases hi - lo,
    {
        let mid = hi - (hi - lo) / 2;
        proof {
            assert((mid as int) * (mid as int) <= u128::MAX) by (nonlinear_arith)
                requires
                    mid < 0x1_0000_0000_0000_0000,
            ;
        }
        if (mid as u128) * (mid as u128) <= x {
            lo = mid;
        } else {
            hi = mid - 1;
        }
    }
    proof {
        lemma_sqrt_floor_bounds(x as int);
        lemma_sqrt_floor_unique(x as int, lo as int, sqrt_floor(x as int));
    }
    lo
}


/// Number of doublings of `d` that still fit under `num`.
pub open spec fn norm_exp(num: int, d: int) -> nat
    decreases num - d,
{
    if 1 <= d && 2 * d <= num {
        (1 + norm_exp(num, 2 * d)) as nat
    } else {
        0
    }
}

/// The `k` fraction bits of the binary logarithm of `r / 2^32`, for
/// `r` in `[2^32, 2^33)`, produced by repeated squaring: each squaring
/// doubles the logarithm, and the integer bit that appears is recorded.
pub open spec fn frac_bits(r: int, k: nat) -> int
    decreases k,
{
    if k == 0 {
        0
    } else {
        let sq = (r * r) / 0x1_0000_0000;
        if sq >= 0x2_0000_0000 {
            pow2((k - 1) as nat) + frac_bits(sq / 2, (k - 1) as nat)
        } else {
            frac_bits(sq, (k - 1) as nat)
        }
    }
}

/// The binary logarithm of `num / den` with sixteen fraction bits.
pub open spec fn spec_log2_q16(num: int, den: int) -> int {
    let e = norm_exp(num, den);
    let d = den * pow2(e);
    let r0 = (num * 0x1_0000_0000) / d;
    e * 0x10000 + frac_bits(r0, 16)
}

/// The natural logarithm of `num / den` in Q16 fixed point: the binary
/// logarithm scaled by `ln 2` (45426 is `ln 2` in Q16).
pub open spec fn spec_ln_q16(num: int, den: int) -> int {
    (spec_log2_q16(num, den) * 45426) / 0x10000
}

/// Natural logarithm of the ratio `num / den >= 1` in Q16 fixed point.
///
/// Deterministic integer arithmetic throughout: the same arguments give the
/// same result on every machine, which is what makes scoring reproducible.
pub fn ln_q16(num: u64, den: u64) -> (r: u64)
    requires
        1 <= den <= num,
    ensures
        r == spec_ln_q16(num as int, den as int),
        r < 3_000_000,
{
    let mut d: u64 = den;
    let mut e: u32 = 0;
    proof {
        lemma2_to64();
        assert(pow2(0) == 1);
    }
    while d <= num / 2
        invariant
            1 <= den <= num,
            1 <= d <= num,
            d == den * pow2(e as nat),
            norm_exp(num as int, den as int) == e + norm_exp(num as int, d as int),
            e <= 63,
        decreases num - d,
    {
        proof {
            assert(2 * d <= num);
            assert(den * pow2(e as nat + 1) == 2 * (den * pow2(e as nat))) by {
                lemma_pow2_unfold(e as nat + 1);
                assert(pow2(e as nat + 1) == 2 * pow2(e as nat));
                assert(den * (2 * pow2(e as nat)) == 2 * (den * pow2(e as nat)))
                    by (nonlinear_arith);
            }
            // the exponent stays below 64 because den * 2^(e+1) fits in num
            lemma_pow2_pos(e as nat + 1);
            lemma_mul_inequality(1, den as int, pow2(e as nat + 1) as int);
            if e as nat + 1 >= 64 {
                lemma_pow2_strictly_increases(63, e as nat + 1);
                lemma2_to64();
                assert(false);
            }
        }
        d = d * 2;
        e = e + 1;
    }
    proof {
        assert(2 * d > num);
        assert(norm_exp(num as int, d as int) == 0);
        assert(e == norm_exp(num as int, den as int));
    }
    let r0: u128 = (num as u128) * 0x1_0000_0000u128 / (d as u128);
    proof {
        let n32 = (num as int) * 0x1_0000_0000;
        lemma_mul_inequality(d as int, num as int, 0x1_0000_0000);
        assert((d as int) * 0x1_0000_0000 <= n32);
        lemma_div_is_ordered((d as int) * 0x1_0000_0000, n32, d as int);
        lemma_div_multiples_vanish(0x1_0000_0000, d as int);
        assert((d as int) * 0x1_0000_0000 == 0x1_0000_0000 * (d as int));
        assert(r0 >= 0x1_0000_0000);
        assert((num as int) * 0x1_0000_0000 < (d as int) * 0x2_0000_0000) by (nonlinear_arith)
            requires
                num < 2 * (d as int),
        ;
        lemma_multiply_divide_lt(n32, d as int, 0x2_0000_0000);
        assert(r0 < 0x2_0000_0000);
    }
    let ghost start = r0 as int;
    let mut r: u128 = r0;
    let mut frac: u64 = 0;
    let mut i: u32 = 0;
    proof {
        lemma2_to64();
    }
    while i < 16
        invariant
            0x1_0000_0000 <= r < 0x2_0000_0000,
            i <= 16,
            frac < pow2(i as nat),
            frac_bits(start, 16) == frac * pow2((16 - i) as nat) + frac_bits(
                r as int,
                (16 - i) as nat,
            ),
        decreases 16 - i,
    {
        proof {
            lemma2_to64();
            assert((r as int) * (r as int) < 0x4_0000_0000_0000_0000) by (nonlinear_arith)
                requires
                    r < 0x2_0000_0000,
            ;
            assert((r as int) * (r as int) >= 0x1_0000_0000_0000_0000) by (nonlinear_arith)
                requires
                    r >= 0x1_0000_0000,
            ;
            lemma_div_is_ordered(
                0x1_0000_0000_0000_0000,
                (r as int) * (r as int),
                0x1_0000_0000,
            );
            lemma_multiply_divide_lt((r as int) * (r as int), 0x1_0000_0000, 0x4_0000_0000);
        }
        let sq: u128 = (r * r) / 0x1_0000_0000u128;
        let ghost k = (16 - i) as nat;
        proof {
            assert(frac_bits(r as int, k) == if (sq as int) >= 0x2_0000_0000 {
                pow2((k - 1) as nat) + frac_bits(sq as int / 2, (k - 1) as nat)
            } else {
                frac_bits(sq as int, (k - 1) as nat)
            });
            lemma_pow2_unfold(k);
            assert(pow2(i as nat + 1) == 2 * pow2(i as nat)) by {
                lemma_pow2_unfold(i as nat + 1);
            }
        }
        if sq >= 0x2_0000_0000 {
            proof {
                assert((frac * 2 + 1) * pow2((k - 1) as nat) == frac * (2 * pow2(
                    (k - 1) as nat,
                )) + pow2((k - 1) as nat)) by (nonlinear_arith);
            }
            frac = frac * 2 + 1;
            r = sq / 2;
        } else {
            proof {
                assert((frac * 2) * pow2((k - 1) as nat) == frac * (2 * pow2((k - 1) as nat)))
                    by (nonlinear_arith);
            }
            frac = frac * 2;
            r = sq;
        }
        i = i + 1;
    }
    proof {
        lemma2_to64();
        assert(frac_bits(r as int, 0) == 0);
        assert(pow2(0) == 1);
        assert(frac * pow2(0) == frac);
        assert(frac == frac_bits(start, 16));
        assert(frac < 0x10000);
    }
    let log2_q16: u64 = (e as u64) * 65536 + frac;
    proof {
        assert(log2_q16 == spec_log2_q16(num as int, den as int));
        assert(log2_q16 < 0x40_0000);
    }
    log2_q16 * 45426 / 65536
}

} // verus!
