//! Exact integer model of how byte counts are shown: `n as f64 / unit`
//! printed with a fixed number of decimals, as Rust's `{:.N}` prints it.
//!
//! A `u64` turned into an `f64` keeps 53 significant bits, rounded to the
//! nearest value with ties to even; dividing by a power of two is exact; and
//! `{:.N}` prints the exact decimal value rounded to `N` places, ties to
//! even. All of it is computed here on integers.

use vstd::prelude::*;
use crate::text::{chars_of, dec, digit_char, digit_to_char, push_char, push_dec};

verus! {

pub open spec fn two_pow_53() -> nat {
    0x20000000000000
}

/// The spacing of the `f64` values around `n`: the smallest power of two
/// `u` with `n / u < 2^53`.
pub open spec fn f64_unit(n: nat) -> nat
    decreases n,
{
    if n < two_pow_53() {
        1
    } else {
        2 * f64_unit(n / 2)
    }
}

/// `num / den` rounded to the nearest integer, ties to even.
pub open spec fn round_half_even(num: nat, den: nat) -> nat {
    let q = num / den;
    let r = num % den;
    if 2 * r > den || (2 * r == den && q % 2 == 1) {
        q + 1
    } else {
        q
    }
}

/// The value of `n as f64`, for a natural number `n`.
pub open spec fn as_f64(n: nat) -> nat {
    round_half_even(n, f64_unit(n)) * f64_unit(n)
}

/// `{:.1}` of the exact rational `num / den`.
pub open spec fn fixed1(num: nat, den: nat) -> Seq<char> {
    let t = round_half_even(num * 10, den);
    dec(t / 10) + seq!['.', digit_char(t % 10)]
}

/// `{:.0}` of the exact rational `num / den`.
pub open spec fn fixed0(num: nat, den: nat) -> Seq<char> {
    dec(round_half_even(num, den))
}

proof fn lemma_f64_unit_bounds(n: nat)
    ensures
        f64_unit(n) >= 1,
        n >= two_pow_53() ==> f64_unit(n) * 0x10000000000000 <= n,
        n / f64_unit(n) < two_pow_53(),
    decreases n,
{
    if n >= two_pow_53() {
        lemma_f64_unit_bounds(n / 2);
        let u = f64_unit(n / 2);
        assert(n / (2 * u) == (n / 2) / u) by {
            vstd::arithmetic::div_mod::lemma_div_denominator(n as int, 2, u as int);
        }
        if n / 2 >= two_pow_53() {
            assert(u * 0x10000000000000 <= n / 2);
        } else {
            assert(u == 1);
        }
        assert(f64_unit(n) * 0x10000000000000 <= n);
    }
}

fn f64_unit_of(n: u64) -> (u: u64)
    ensures
        u as nat == f64_unit(n as nat),
        u >= 1,
        u <= 4096,
    decreases n,
{
    proof {
        lemma_f64_unit_bounds(n as nat);
    }
    if n < 0x20000000000000 {
        1
    } else {
        let h = f64_unit_of(n / 2);
        proof {
            assert(f64_unit(n as nat) * 0x10000000000000 <= n);
            assert(f64_unit(n as nat) <= 4096);
        }
        2 * h
    }
}

fn round_half_even_u128(num: u128, den: u128) -> (r: u128)
    requires
        den > 0,
        num / den < u128::MAX,
    ensures
        r as nat == round_half_even(num as nat, den as nat),
{
    let q = num / den;
    let r = num % den;
    if (r > den - r) || (r == den - r && q % 2 == 1) {
        q + 1
    } else {
        q
    }
}

/// `n as f64`, as an exact integer.
pub fn u64_as_f64(n: u64) -> (v: u128)
    ensures
        v as nat == as_f64(n as nat),
        v <= n as nat + 4096,
{
    let u = f64_unit_of(n);
    let q = round_half_even_u128(n as u128, u as u128);
    proof {
        lemma_f64_unit_bounds(n as nat);
        let qq = (n as nat) / (u as nat);
        assert(q <= qq + 1);
        assert(qq * u <= n) by (nonlinear_arith)
            requires qq == (n as nat) / (u as nat), u >= 1;
        assert(q * u <= n + u) by (nonlinear_arith)
            requires q <= qq + 1, qq * u <= n, u >= 1;
    }
    q * (u as u128)
}

/// Appends `{:.1}` of `num / den`.
pub fn push_fixed1(s: &mut String, num: u128, den: u64)
    requires
        den >= 1024,
        num <= u64::MAX as nat + 4096,
    ensures
        final(s)@ == old(s)@ + fixed1(num as nat, den as nat),
{
    proof {
        assert((num as int) * 10 / (den as int) < u128::MAX) by (nonlinear_arith)
            requires den >= 1024, num <= u64::MAX as nat + 4096;
    }
    let t = round_half_even_u128(num * 10, den as u128);
    proof {
        assert(t <= (num as int) * 10 / (den as int) + 1);
        assert((num as int) * 10 / (den as int) <= (u64::MAX as int + 4096) * 10 / 1024) by (nonlinear_arith)
            requires den >= 1024, num <= u64::MAX as nat + 4096;
    }
    let whole = (t / 10) as u64;
    push_dec(s, whole);
    push_char(s, '.');
    let c = digit_to_char((t % 10) as u64);
    push_char(s, c);
    assert(final(s)@ =~= old(s)@ + fixed1(num as nat, den as nat));
}

/// Appends `{:.0}` of `num / den`.
pub fn push_fixed0(s: &mut String, num: u128, den: u64)
    requires
        den >= 1024,
        num <= u64::MAX as nat + 4096,
    ensures
        final(s)@ == old(s)@ + fixed0(num as nat, den as nat),
{
    proof {
        assert((num as int) / (den as int) < u64::MAX) by (nonlinear_arith)
            requires den >= 1024, num <= u64::MAX as nat + 4096;
    }
    let t = round_half_even_u128(num, den as u128);
    push_dec(s, t as u64);
}

} // verus!
