//! Token counts, short enough for a row of the sidebar.
//!
//! A count of a thousand or more is shown in thousands or millions with one decimal. The
//! quotient is taken as a binary floating-point number of 53 significant bits, so that a
//! count halfway between two decimals is rounded as its nearest such number lies. All of that
//! is done here in whole numbers.

use vstd::prelude::*;
use crate::text::decimal;
use crate::text::decimal_text;

verus! {

/// The quotient rounded to a whole number, a tie going to the even one.
pub open spec fn half_even(num: nat, den: nat) -> nat {
    let q = num / den;
    let twice = 2 * (num % den);
    if twice > den || (twice == den && q % 2 == 1) {
        q + 1
    } else {
        q
    }
}

/// The power of two, from `unit` on, of which `n` holds less than 2^53.
pub open spec fn spacing(n: nat, unit: nat) -> nat
    decreases n - unit,
{
    if unit == 0 || n < 0x20000000000000 * unit {
        unit
    } else {
        spacing(n, 2 * unit)
    }
}

/// The whole number with 53 significant bits that lies nearest to `n`, a tie going to the
/// even one.
pub open spec fn nearest_whole(n: nat) -> nat {
    half_even(n, spacing(n, 1)) * spacing(n, 1)
}

/// `num` and `pow`, doubled together until the quotient of `num` by `den` has 53 bits.
pub open spec fn scaled(num: nat, pow: nat, den: nat) -> (nat, nat)
    decreases 0x20000000000000 * den - num,
{
    if num == 0 || num >= 0x10000000000000 * den {
        (num, pow)
    } else {
        scaled(2 * num, 2 * pow, den)
    }
}

/// How many tenths the quotient of a count by `unit` has, the count and the quotient each
/// taken as the nearest number of 53 significant bits and the tenths rounded with ties going
/// to the even one.
pub open spec fn tenths(tokens: nat, unit: nat) -> nat {
    let (num, pow) = scaled(nearest_whole(tokens), 1, unit);
    half_even(half_even(num, unit) * 10, pow)
}

/// A count in units with one decimal.
pub open spec fn in_units(tokens: nat, unit: nat, sign: Seq<char>) -> Seq<char> {
    decimal(tenths(tokens, unit) / 10) + "."@ + decimal(tenths(tokens, unit) % 10) + sign
}

/// A token count as it is shown: `938`, `42.1k`, `1.5M`.
pub open spec fn token_count(tokens: nat) -> Seq<char> {
    if tokens >= 1_000_000 {
        in_units(tokens, 1_000_000, "M"@)
    } else if tokens >= 1_000 {
        in_units(tokens, 1_000, "k"@)
    } else {
        decimal(tokens)
    }
}

fn round_half_even(num: u128, den: u128) -> (r: u128)
    requires
        0 < den,
        num < 0x1_0000_0000_0000_0000_0000_0000,
        den < 0x1_0000_0000_0000_0000_0000_0000,
    ensures
        r == half_even(num as nat, den as nat),
        r <= num / den + 1,
{
    let q: u128 = num / den;
    let rest: u128 = num % den;
    let twice: u128 = 2 * rest;
    if twice > den || (twice == den && q % 2 == 1) {
        q + 1
    } else {
        q
    }
}

/// The whole number with 53 significant bits that lies nearest to `n`.
fn nearest_double(n: u64) -> (r: u128)
    ensures
        r == nearest_whole(n as nat),
        r <= 0x1_0000_0000_0000_0000,
        n >= 1_000 ==> r >= 1_000,
        n >= 1_000_000 ==> r >= 1_000_000,
        n < 1_000_000 ==> r == n,
{
    let mut unit: u128 = 1;
    while (n as u128) >= 0x20000000000000 * unit
        invariant
            1 <= unit <= 0x800,
            unit == 1 || unit == 2 || unit == 4 || unit == 8 || unit == 16 || unit == 32 || unit
                == 64 || unit == 128 || unit == 256 || unit == 512 || unit == 1024 || unit == 2048,
            spacing(n as nat, 1) == spacing(n as nat, unit as nat),
            unit > 1 ==> n as u128 >= 0x10000000000000 * unit,
        decreases 0x1000 - unit,
    {
        unit = 2 * unit;
    }
    let m: u128 = round_half_even(n as u128, unit);
    proof {
        let num = n as nat;
        let u = unit as nat;
        assert(spacing(num, 1) == u);
        assert(m <= 0x20000000000000) by {
            assert(num < 0x20000000000000 * u);
            assert(num / u < 0x20000000000000) by (nonlinear_arith)
                requires
                    num < 0x20000000000000 * u,
                    u > 0,
            ;
        }
        assert(m * u <= 0x20000000000000 * 2048) by (nonlinear_arith)
            requires
                m <= 0x20000000000000,
                u <= 2048,
        ;
        if u == 1 {
            assert(num / 1 == num && num % 1 == 0);
            assert(m == num);
            assert(m * u == m) by (nonlinear_arith)
                requires
                    u == 1,
            ;
        } else {
            assert(num / u >= 0x10000000000000) by (nonlinear_arith)
                requires
                    num >= 0x10000000000000 * u,
                    u > 0,
            ;
            assert(m * u >= m) by (nonlinear_arith)
                requires
                    u >= 1,
            ;
        }
    }
    m * unit
}

/// How many tenths the quotient of a count by `unit` has.
fn count_tenths(tokens: u64, unit: u64) -> (r: u64)
    requires
        unit == 1_000 || unit == 1_000_000,
        tokens >= unit,
        unit == 1_000 ==> tokens < 1_000_000,
    ensures
        r == tenths(tokens as nat, unit as nat),
{
    let den: u128 = unit as u128;
    let whole: u128 = nearest_double(tokens);
    let mut num: u128 = whole;
    let mut pow: u128 = 1;
    while num < 0x10000000000000 * den
        invariant
            den == 1_000 || den == 1_000_000,
            den <= whole <= 0x1_0000_0000_0000_0000,
            den == 1_000 ==> whole < 1_000_000,
            1 <= pow <= 0x20000000000000,
            num == whole * pow,
            num < 0x20000000000000 * den,
            scaled(whole as nat, 1, den as nat) == scaled(num as nat, pow as nat, den as nat),
        decreases 0x20000000000000 * den - num,
    {
        proof {
            assert(den * pow <= whole * pow) by (nonlinear_arith)
                requires
                    den <= whole,
            ;
            assert(pow < 0x10000000000000) by (nonlinear_arith)
                requires
                    den * pow < 0x10000000000000 * den,
                    den > 0,
            ;
            assert(whole * (2 * pow) == 2 * (whole * pow)) by (nonlinear_arith);
            assert(num > 0) by (nonlinear_arith)
                requires
                    num == whole * pow,
                    whole >= 1,
                    pow >= 1,
            ;
        }
        num = 2 * num;
        pow = 2 * pow;
    }
    let m: u128 = round_half_even(num, den);
    proof {
        assert(num / den < 0x20000000000000) by (nonlinear_arith)
            requires
                num < 0x20000000000000 * den,
                den > 0,
        ;
    }
    let t: u128 = round_half_even(m * 10, pow);
    proof {
        assert(m * 10 / pow as int <= m * 10) by (nonlinear_arith)
            requires
                pow >= 1,
                m >= 0,
        ;
    }
    t as u64
}

/// A token count as it is shown: `938`, `42.1k`, `1.5M`.
pub fn format_token_count(tokens: u64) -> (r: String)
    ensures
        r@ == token_count(tokens as nat),
{
    if tokens < 1_000 {
        return decimal_text(tokens);
    }
    let (unit, sign): (u64, &'static str) = if tokens >= 1_000_000 {
        (1_000_000, "M")
    } else {
        (1_000, "k")
    };
    let t: u64 = count_tenths(tokens, unit);
    let mut r = decimal_text(t / 10);
    r.append(".");
    r.append(decimal_text(t % 10).as_str());
    r.append(sign);
    r
}

} // verus!
