//! Laws about token counts as they are shown.

use vstd::prelude::*;
use crate::text::decimal;
use crate::token_count::format_token_count;
use crate::token_count::half_even;
use crate::token_count::nearest_whole;
use crate::token_count::scaled;
use crate::token_count::spacing;
use crate::token_count::tenths;

verus! {

/// Rounding goes to a nearest whole number.
pub proof fn rounding_goes_to_the_nearest(num: nat, den: nat)
    requires
        den > 0,
    ensures
        2 * (half_even(num, den) * den) <= 2 * num + den,
        2 * num <= 2 * (half_even(num, den) * den) + den,
{
    let q = num / den;
    let r = num % den;
    vstd::arithmetic::div_mod::lemma_fundamental_div_mod(num as int, den as int);
    vstd::arithmetic::mul::lemma_mul_is_commutative(q as int, den as int);
    assert(num == q * den + r);
    assert(r < den);
    assert((q + 1) * den == q * den + den) by (nonlinear_arith);
}

/// Of two whole numbers as near, the even one is taken.
pub proof fn a_tie_goes_to_the_even_number(num: nat, den: nat)
    requires
        den > 0,
        2 * (num % den) == den,
    ensures
        half_even(num, den) % 2 == 0,
{
}

proof fn scaling_keeps_the_ratio(num: nat, pow: nat, den: nat)
    requires
        num > 0,
        pow > 0,
        den > 0,
    ensures
        scaled(num, pow, den).0 * pow == num * scaled(num, pow, den).1,
        scaled(num, pow, den).0 >= 0x10000000000000 * den,
        scaled(num, pow, den).1 > 0,
    decreases 0x20000000000000 * den - num,
{
    if num < 0x10000000000000 * den {
        scaling_keeps_the_ratio(2 * num, 2 * pow, den);
        let r = scaled(2 * num, 2 * pow, den);
        assert(r.0 * pow == num * r.1) by (nonlinear_arith)
            requires
                r.0 * (2 * pow) == (2 * num) * r.1,
        ;
    }
}

proof fn tenths_are_the_nearest(tokens: nat, unit: nat)
    requires
        unit == 1_000 || unit == 1_000_000,
        unit <= tokens < 0x100_0000_0000,
    ensures
        2 * (tenths(tokens, unit) * unit) <= 20 * tokens + unit,
        20 * tokens <= 2 * (tenths(tokens, unit) * unit) + unit,
{
    assert(spacing(tokens, 1) == 1);
    assert(tokens / 1 == tokens && tokens % 1 == 0);
    assert(nearest_whole(tokens) == tokens);
    scaling_keeps_the_ratio(tokens, 1, unit);
    let (num, pow) = scaled(tokens, 1, unit);
    assert(num == tokens * pow);
    assert(pow >= 4096 * unit) by (nonlinear_arith)
        requires
            num == tokens * pow,
            num >= 0x10000000000000 * unit,
            tokens < 0x100_0000_0000,
            pow > 0,
    ;
    let h = half_even(num, unit);
    rounding_goes_to_the_nearest(num, unit);
    let t = half_even(h * 10, pow);
    rounding_goes_to_the_nearest(h * 10, pow);
    assert(t == tenths(tokens, unit));
    let x = t * unit - 10 * tokens;
    assert(t * pow * unit == (t * unit) * pow) by (nonlinear_arith);
    assert(2 * (t * pow) * unit <= (20 * h + pow) * unit) by (nonlinear_arith)
        requires
            2 * (t * pow) <= 20 * h + pow,
            unit > 0,
    ;
    assert(20 * h * unit <= (2 * (t * pow) + pow) * unit) by (nonlinear_arith)
        requires
            20 * h <= 2 * (t * pow) + pow,
            unit > 0,
    ;
    assert((20 * h + pow) * unit == 10 * (2 * (h * unit)) + pow * unit) by (nonlinear_arith);
    assert(20 * h * unit == 10 * (2 * (h * unit))) by (nonlinear_arith);
    assert((2 * (t * pow) + pow) * unit == 2 * (t * pow) * unit + pow * unit) by (nonlinear_arith);
    assert(2 * (t * pow) * unit == 2 * (t * pow * unit)) by (nonlinear_arith);
    assert(2 * x * pow == 2 * (t * unit) * pow - 20 * tokens * pow) by (nonlinear_arith)
        requires
            x == t * unit - 10 * tokens,
    ;
    assert(2 * (t * unit) * pow == 2 * ((t * unit) * pow)) by (nonlinear_arith);
    assert(20 * tokens * pow == 20 * (tokens * pow)) by (nonlinear_arith);
    assert(2 * x * pow <= pow * unit + 10 * unit);
    assert(-(pow * unit + 10 * unit) <= 2 * x * pow);
    assert(10 * unit < pow);
    assert(2 * x <= unit) by (nonlinear_arith)
        requires
            2 * x * pow <= pow * unit + 10 * unit,
            10 * unit < pow,
            pow > 0,
    ;
    assert(-unit <= 2 * x) by (nonlinear_arith)
        requires
            -(pow * unit + 10 * unit) <= 2 * x * pow,
            10 * unit < pow,
            pow > 0,
    ;
}

/// A count below a thousand is shown as it is; one below a million in thousands, and one from a
/// million on in millions, each with the one decimal that comes nearest to it.
pub proof fn a_token_count_is_shown_to_the_nearest_tenth(tokens: u64, r: String)
    requires
        call_ensures(format_token_count, (tokens,), r),
        tokens < 0x100_0000_0000,
    ensures
        tokens < 1_000 ==> r@ == decimal(tokens as nat),
        1_000 <= tokens < 1_000_000 ==> exists|t: nat|
            is_nearest_tenth(t, tokens as nat, 1_000) && r@ == #[trigger] decimal(t / 10) + "."@
                + decimal(t % 10) + "k"@,
        1_000_000 <= tokens ==> exists|t: nat|
            is_nearest_tenth(t, tokens as nat, 1_000_000) && r@ == #[trigger] decimal(t / 10) + "."@
                + decimal(t % 10) + "M"@,
{
    let n = tokens as nat;
    if 1_000 <= n < 1_000_000 {
        tenths_are_the_nearest(n, 1_000);
        let t = tenths(n, 1_000);
        assert(is_nearest_tenth(t, n, 1_000));
        assert(r@ == decimal(t / 10) + "."@ + decimal(t % 10) + "k"@);
    }
    if 1_000_000 <= n {
        tenths_are_the_nearest(n, 1_000_000);
        let t = tenths(n, 1_000_000);
        assert(is_nearest_tenth(t, n, 1_000_000));
        assert(r@ == decimal(t / 10) + "."@ + decimal(t % 10) + "M"@);
    }
}

/// Whether so many tenths of a unit are no further from a count than half a tenth.
pub open spec fn is_nearest_tenth(t: nat, tokens: nat, unit: nat) -> bool {
    2 * (t * unit) <= 20 * tokens + unit && 20 * tokens <= 2 * (t * unit) + unit
}

} // verus!
