//! The few IEEE-754 binary32 operations that sizing a render target performs, on
//! positive finite values: conversion of an integer, division, multiplication, and
//! rounding to the nearest integer. Every operation rounds to nearest, ties to even,
//! as binary32 arithmetic does; none of the values involved comes near the overflow
//! or subnormal range.

use vstd::prelude::*;
use vstd::arithmetic::power2::{pow2, lemma2_to64, lemma_pow2_adds, lemma_pow2_pos, lemma_pow2_strictly_increases, lemma_pow2_unfold};
use vstd::arithmetic::div_mod::{
    lemma_basic_div, lemma_div_denominator, lemma_div_is_ordered_by_denominator, lemma_fundamental_div_mod,
};

verus! {

/// A positive binary32 value `m * 2^e`, with the significand `m` normalised to
/// `2^23 <= m < 2^24`.
pub type Binary32 = (nat, int);

/// The significand is normalised.
pub open spec fn is_normal(v: Binary32) -> bool {
    0x80_0000 <= v.0 < 0x100_0000
}

/// `(n / d) * 2^e` rounded to binary32, for `2^23 * d <= n < 2^24 * d`: the quotient is
/// rounded to the nearest integer, a tie going to the even one; a result of `2^24`
/// becomes `2^23` with the next exponent.
pub open spec fn round_scaled(n: nat, d: nat, e: int) -> Binary32 {
    let q = n / d;
    let r = n % d;
    let m = if 2 * r > d || (2 * r == d && q % 2 == 1) {
        q + 1
    } else {
        q
    };
    if m == 0x100_0000 {
        (0x80_0000, e + 1)
    } else {
        (m as nat, e)
    }
}

/// Position of the highest set bit of `x` (0 for `x <= 1`).
pub open spec fn log2_floor(x: nat) -> nat
    decreases x,
{
    if x < 2 {
        0
    } else {
        1 + log2_floor(x / 2)
    }
}

/// The binary32 value nearest to the positive integer `x` (`x as f32`).
pub open spec fn binary32_of(x: nat) -> Binary32 {
    let k = log2_floor(x);
    if k <= 23 {
        (x * pow2((23 - k) as nat), k - 23)
    } else {
        round_scaled(x, pow2((k - 23) as nat), k - 23)
    }
}

/// The binary32 value 1.0.
pub open spec fn binary32_one() -> Binary32 {
    (0x80_0000, -23)
}

/// The binary32 quotient `a / b`.
pub open spec fn binary32_div(a: Binary32, b: Binary32) -> Binary32 {
    if a.0 >= b.0 {
        round_scaled(a.0 * 0x80_0000, b.0, a.1 - b.1 - 23)
    } else {
        round_scaled(a.0 * 0x100_0000, b.0, a.1 - b.1 - 24)
    }
}

/// The binary32 product `a * b`.
pub open spec fn binary32_mul(a: Binary32, b: Binary32) -> Binary32 {
    let p = a.0 * b.0;
    if p < 0x8000_0000_0000 {
        round_scaled(p, 0x80_0000, a.1 + b.1 + 23)
    } else {
        round_scaled(p, 0x100_0000, a.1 + b.1 + 24)
    }
}

/// The value is below 1.0.
pub open spec fn binary32_below_one(v: Binary32) -> bool {
    v.1 < -23
}

/// `v.round() as u32`: the nearest integer, halves rounding up, saturated at `u32::MAX`.
pub open spec fn binary32_round_to_u32(v: Binary32) -> nat {
    let r = if v.1 >= 0 {
        v.0 * pow2(v.1 as nat)
    } else {
        (v.0 + pow2((-v.1 - 1) as nat)) / pow2((-v.1) as nat)
    };
    if r > u32::MAX {
        u32::MAX as nat
    } else {
        r
    }
}

/// A binary32 value held as significand and exponent.
pub(crate) type Binary32Exec = (u64, i64);

pub(crate) open spec fn b32(v: Binary32Exec) -> Binary32 {
    (v.0 as nat, v.1 as int)
}

fn pow2_exec(k: u32) -> (r: u128)
    requires
        k <= 63,
    ensures
        r == pow2(k as nat),
{
    let mut r: u128 = 1;
    let mut i: u32 = 0;
    proof {
        lemma2_to64();
    }
    while i < k
        invariant
            i <= k,
            k <= 63,
            r == pow2(i as nat),
        decreases k - i,
    {
        proof {
            lemma2_to64();
            lemma_pow2_unfold((i + 1) as nat);
            lemma_pow2_strictly_increases(i as nat, 64);
        }
        r = r * 2;
        i = i + 1;
    }
    r
}

fn round_scaled_exec(n: u128, d: u128, e: i64) -> (r: Binary32Exec)
    requires
        d > 0,
        d <= 0x1_0000_0000_0000_0000,
        0x80_0000 * d <= n < 0x100_0000 * d,
        -1000 <= e <= 1000,
    ensures
        b32(r) == round_scaled(n as nat, d as nat, e as int),
        is_normal(b32(r)),
        e <= r.1 <= e + 1,
{
    let q = n / d;
    let rem = n % d;
    proof {
        lemma_fundamental_div_mod(n as int, d as int);
        assert(0x80_0000 <= q < 0x100_0000) by (nonlinear_arith)
            requires
                n == d * q + rem,
                0 <= rem < d,
                0x80_0000 * d <= n < 0x100_0000 * d,
                d > 0,
        ;
    }
    let up = 2 * rem > d || (2 * rem == d && q % 2 == 1);
    let m = if up { q + 1 } else { q };
    if m == 0x100_0000 {
        (0x80_0000, e + 1)
    } else {
        (m as u64, e)
    }
}

pub(crate) proof fn lemma_log2_floor(x: nat)
    requires
        x >= 1,
    ensures
        pow2(log2_floor(x)) <= x < pow2(log2_floor(x) + 1),
    decreases x,
{
    lemma2_to64();
    if x >= 2 {
        lemma_log2_floor(x / 2);
        let k = log2_floor(x / 2);
        lemma_pow2_unfold(k + 1);
        lemma_pow2_unfold(k + 2);
        lemma_fundamental_div_mod(x as int, 2);
    }
}

proof fn lemma_halve(x: nat, k: nat)
    ensures
        (x / pow2(k)) / 2 == x / pow2(k + 1),
{
    lemma_pow2_pos(k);
    lemma_pow2_unfold(k + 1);
    lemma_div_denominator(x as int, pow2(k) as int, 2);
    assert(pow2(k) * 2 == pow2(k + 1));
}

pub(crate) fn binary32_of_exec(x: u32) -> (r: Binary32Exec)
    requires
        x > 0,
    ensures
        b32(r) == binary32_of(x as nat),
        is_normal(b32(r)),
        -23 <= r.1 <= 9,
{
    let mut k: u32 = 0;
    let mut t: u32 = x;
    proof {
        lemma2_to64();
    }
    while t >= 2
        invariant
            1 <= t <= x,
            k <= 32,
            t == x as nat / pow2(k as nat),
            log2_floor(x as nat) == k + log2_floor(t as nat),
            pow2(k as nat) <= x,
        decreases t,
    {
        proof {
            lemma_halve(x as nat, k as nat);
            lemma_pow2_unfold((k + 1) as nat);
            lemma_fundamental_div_mod(x as int, pow2(k as nat) as int);
            lemma_fundamental_div_mod(t as int, 2);
            assert(pow2((k + 1) as nat) <= x) by (nonlinear_arith)
                requires
                    t >= 2,
                    x as int == pow2(k as nat) * t + (x as int) % (pow2(k as nat) as int),
                    (x as int) % (pow2(k as nat) as int) >= 0,
                    pow2((k + 1) as nat) == 2 * pow2(k as nat),
            ;
            lemma2_to64();
            if k + 1 > 32 {
                lemma_pow2_strictly_increases(32, (k + 1) as nat);
            }
        }
        t = t / 2;
        k = k + 1;
    }
    proof {
        lemma_log2_floor(x as nat);
        assert(log2_floor(x as nat) == k);
        if k >= 32 {
            lemma_pow2_strictly_increases(31, k as nat);
            assert(pow2(32) == 0x1_0000_0000);
        }
    }
    if k <= 23 {
        let p = pow2_exec(23 - k);
        proof {
            lemma_pow2_adds(k as nat, (23 - k) as nat);
            lemma_pow2_adds((k + 1) as nat, (23 - k) as nat);
            lemma_pow2_unfold((k + 1) as nat);
            assert(0x80_0000 <= x * p < 0x100_0000) by (nonlinear_arith)
                requires
                    pow2(k as nat) <= x < pow2((k + 1) as nat),
                    pow2(k as nat) * p == 0x80_0000,
                    pow2((k + 1) as nat) * p == 0x100_0000,
                    p > 0,
            ;
        }
        ((x as u128 * p) as u64, k as i64 - 23)
    } else {
        let d = pow2_exec(k - 23);
        proof {
            lemma_pow2_adds(23, (k - 23) as nat);
            lemma_pow2_adds(24, (k - 23) as nat);
            lemma_pow2_unfold((k + 1) as nat);
            lemma_pow2_strictly_increases((k - 23) as nat, 64);
        }
        round_scaled_exec(x as u128, d, k as i64 - 23)
    }
}

pub(crate) fn binary32_div_exec(a: Binary32Exec, b: Binary32Exec) -> (r: Binary32Exec)
    requires
        is_normal(b32(a)),
        is_normal(b32(b)),
        -200 <= a.1 <= 200,
        -200 <= b.1 <= 200,
    ensures
        b32(r) == binary32_div(b32(a), b32(b)),
        is_normal(b32(r)),
        a.1 - b.1 - 24 <= r.1 <= a.1 - b.1 - 22,
{
    if a.0 >= b.0 {
        proof {
            assert(0x80_0000 * (b.0 as int) <= (a.0 as int) * 0x80_0000 < 0x100_0000 * (b.0 as int))
                by (nonlinear_arith)
                requires
                    a.0 >= b.0,
                    b.0 >= 0x80_0000,
                    a.0 < 0x100_0000,
            ;
        }
        round_scaled_exec(a.0 as u128 * 0x80_0000, b.0 as u128, a.1 - b.1 - 23)
    } else {
        proof {
            assert(0x80_0000 * (b.0 as int) <= (a.0 as int) * 0x100_0000 < 0x100_0000 * (b.0 as int))
                by (nonlinear_arith)
                requires
                    a.0 < b.0,
                    a.0 >= 0x80_0000,
                    b.0 < 0x100_0000,
            ;
        }
        round_scaled_exec(a.0 as u128 * 0x100_0000, b.0 as u128, a.1 - b.1 - 24)
    }
}

pub(crate) fn binary32_mul_exec(a: Binary32Exec, b: Binary32Exec) -> (r: Binary32Exec)
    requires
        is_normal(b32(a)),
        is_normal(b32(b)),
        -200 <= a.1 <= 200,
        -200 <= b.1 <= 200,
    ensures
        b32(r) == binary32_mul(b32(a), b32(b)),
        is_normal(b32(r)),
        a.1 + b.1 + 23 <= r.1 <= a.1 + b.1 + 25,
{
    proof {
        assert(a.0 * b.0 < 0x1_0000_0000_0000) by (nonlinear_arith)
            requires
                a.0 < 0x100_0000,
                b.0 < 0x100_0000,
        ;
    }
    let p = a.0 as u128 * b.0 as u128;
    proof {
        assert(0x4000_0000_0000 <= p < 0x1_0000_0000_0000) by (nonlinear_arith)
            requires
                p == a.0 * b.0,
                0x80_0000 <= a.0 < 0x100_0000,
                0x80_0000 <= b.0 < 0x100_0000,
        ;
    }
    if p < 0x8000_0000_0000 {
        round_scaled_exec(p, 0x80_0000, a.1 + b.1 + 23)
    } else {
        round_scaled_exec(p, 0x100_0000, a.1 + b.1 + 24)
    }
}

pub(crate) fn binary32_round_to_u32_exec(v: Binary32Exec) -> (r: u32)
    requires
        is_normal(b32(v)),
        -200 <= v.1 <= 200,
    ensures
        r as nat == binary32_round_to_u32(b32(v)),
{
    proof {
        lemma2_to64();
    }
    if v.1 >= 9 {
        proof {
            if v.1 > 9 {
                lemma_pow2_strictly_increases(9, v.1 as nat);
            }
            let big = pow2(v.1 as nat);
            let m = v.0 as int;
            assert(m * big >= m * 0x200) by (nonlinear_arith)
                requires
                    m >= 0,
                    big >= 0x200,
            ;
            assert(binary32_round_to_u32(b32(v)) == u32::MAX);
        }
        u32::MAX
    } else if v.1 >= 0 {
        let p = pow2_exec(v.1 as u32);
        proof {
            if v.1 < 8 {
                lemma_pow2_strictly_increases(v.1 as nat, 8);
            }
            assert(v.0 * p < 0x1_0000_0000) by (nonlinear_arith)
                requires
                    v.0 < 0x100_0000,
                    p <= 0x100,
            ;
        }
        proof {
            assert(binary32_round_to_u32(b32(v)) == v.0 * p);
        }
        (v.0 as u128 * p) as u32
    } else if v.1 <= -26 {
        proof {
            let s = (-v.1) as nat;
            lemma_pow2_unfold(s);
            lemma_pow2_strictly_increases(24, (s - 1) as nat);
            lemma_basic_div(v.0 + pow2((s - 1) as nat), pow2(s) as int);
            assert(binary32_round_to_u32(b32(v)) == 0);
        }
        0
    } else {
        let s = (-v.1) as u32;
        let half = pow2_exec(s - 1);
        let unit = pow2_exec(s);
        let r = (v.0 as u128 + half) / unit;
        proof {
            lemma_pow2_pos(s as nat);
            if s < 25 {
                lemma_pow2_strictly_increases((s - 1) as nat, 24);
            }
            lemma_div_is_ordered_by_denominator((v.0 + half) as int, 1, unit as int);
            assert(r <= v.0 + half);
            assert(binary32_round_to_u32(b32(v)) == r);
        }
        r as u32
    }
}

proof fn lemma_round_scaled_normal(n: nat, d: nat, e: int)
    requires
        d > 0,
        0x80_0000 * d <= n < 0x100_0000 * d,
    ensures
        is_normal(round_scaled(n, d, e)),
{
    lemma_fundamental_div_mod(n as int, d as int);
    let q = n / d;
    let r = n % d;
    assert(0x80_0000 <= q < 0x100_0000) by (nonlinear_arith)
        requires
            n == d * q + r,
            0 <= r < d,
            0x80_0000 * d <= n < 0x100_0000 * d,
            d > 0,
    ;
}

/// Every positive integer converts to a normal binary32 value.
pub proof fn lemma_binary32_of_normal(x: nat)
    requires
        x > 0,
    ensures
        is_normal(binary32_of(x)),
{
    lemma_log2_floor(x);
    let k = log2_floor(x);
    if k <= 23 {
        let p = pow2((23 - k) as nat);
        lemma_pow2_adds(k, (23 - k) as nat);
        lemma_pow2_adds(k + 1, (23 - k) as nat);
        lemma2_to64();
        lemma_pow2_pos((23 - k) as nat);
        assert(0x80_0000 <= x * p < 0x100_0000) by (nonlinear_arith)
            requires
                pow2(k) <= x < pow2(k + 1),
                pow2(k) * p == 0x80_0000,
                pow2(k + 1) * p == 0x100_0000,
                p > 0,
        ;
    } else {
        lemma_pow2_adds(23, (k - 23) as nat);
        lemma_pow2_adds(24, (k - 23) as nat);
        lemma2_to64();
        lemma_pow2_pos((k - 23) as nat);
        lemma_round_scaled_normal(x, pow2((k - 23) as nat), k - 23);
    }
}

/// A value divided by itself is exactly one.
pub proof fn lemma_div_self(v: Binary32)
    requires
        is_normal(v),
    ensures
        binary32_div(v, v) == binary32_one(),
{
    let m = v.0 as int;
    lemma_fundamental_div_mod(m * 0x80_0000, m);
    vstd::arithmetic::div_mod::lemma_div_multiples_vanish(0x80_0000, m);
    vstd::arithmetic::div_mod::lemma_mod_multiples_vanish(0x80_0000, 0, m);
    assert(m * 0x80_0000 == m * 0x80_0000 + 0);
    assert((m * 0x80_0000) / m == 0x80_0000) by {
        assert(m * 0x80_0000 == 0x80_0000 * m) by (nonlinear_arith);
        vstd::arithmetic::div_mod::lemma_div_multiples_vanish(0x80_0000, m);
    }
    assert((m * 0x80_0000) % m == 0) by {
        assert(m * 0x80_0000 == 0x80_0000 * m) by (nonlinear_arith);
        vstd::arithmetic::div_mod::lemma_mod_multiples_basic(0x80_0000, m);
    }
}

/// Multiplying by one gives the value back exactly.
pub proof fn lemma_mul_one(v: Binary32)
    requires
        is_normal(v),
    ensures
        binary32_mul(v, binary32_one()) == v,
{
    let m = v.0 as int;
    assert(m * 0x80_0000 < 0x8000_0000_0000) by (nonlinear_arith)
        requires
            m < 0x100_0000,
    ;
    vstd::arithmetic::div_mod::lemma_div_multiples_vanish(m, 0x80_0000);
    vstd::arithmetic::div_mod::lemma_mod_multiples_basic(m, 0x80_0000);
    assert(m * 0x80_0000 == 0x80_0000 * m) by (nonlinear_arith);
}

/// A positive integer below `2^24` converts to binary32 exactly, and rounds back to
/// itself.
pub proof fn lemma_small_integer_exact(x: nat)
    requires
        0 < x < 0x100_0000,
    ensures
        binary32_round_to_u32(binary32_of(x)) == x,
{
    lemma2_to64();
    lemma_log2_floor(x);
    let k = log2_floor(x);
    if k > 23 {
        lemma_pow2_strictly_increases(24, k);
    }
    let s = (23 - k) as nat;
    let v = binary32_of(x);
    assert(v == (x * pow2(s), k - 23));
    if s > 0 {
        lemma_pow2_unfold(s);
        lemma_pow2_pos((s - 1) as nat);
        assert(x * pow2(s) == pow2(s) * x) by (nonlinear_arith);
        vstd::arithmetic::div_mod::lemma_div_multiples_vanish_fancy(x as int, pow2((s - 1) as nat) as int, pow2(s) as int);
        assert(v.1 < 0);
        assert((-v.1 - 1) as nat == (s - 1) as nat);
        assert((-v.1) as nat == s);
        assert((v.0 + pow2((s - 1) as nat)) / pow2(s) == x);
    } else {
        assert(s == 0);
        assert(pow2(s) == 1);
        let p = pow2(s);
        assert(x * p == x) by (nonlinear_arith)
            requires
                p == 1,
        ;
        assert(v.0 == x);
        assert(v.1 == 0);
    }
}

} // verus!
