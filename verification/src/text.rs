//! Decimal text: the numerals of the image format, and scalars written as
//! decimal fractions.
use vstd::prelude::*;
use crate::scalar::{Scalar, ONE_RAW};

verus! {

/// `String::push` appends one character to the end of the string and leaves
/// what was there in place.
pub assume_specification[ String::push ](s: &mut String, ch: char)
    ensures
        final(s)@ == old(s)@.push(ch),
;

/// The character of the decimal digit `d`.
pub open spec fn digit_spec(d: int) -> char {
    if d == 0 {
        '0'
    } else if d == 1 {
        '1'
    } else if d == 2 {
        '2'
    } else if d == 3 {
        '3'
    } else if d == 4 {
        '4'
    } else if d == 5 {
        '5'
    } else if d == 6 {
        '6'
    } else if d == 7 {
        '7'
    } else if d == 8 {
        '8'
    } else {
        '9'
    }
}

/// The decimal numeral of `n`, without sign or leading zeros.
pub open spec fn decimal(n: nat) -> Seq<char>
    decreases n,
{
    if n < 10 {
        seq![digit_spec(n as int)]
    } else {
        decimal(n / 10).push(digit_spec((n % 10) as int))
    }
}

/// The character of the decimal digit `d`.
pub fn digit(d: usize) -> (c: char)
    requires
        d < 10,
    ensures
        c == digit_spec(d as int),
{
    if d == 0 {
        '0'
    } else if d == 1 {
        '1'
    } else if d == 2 {
        '2'
    } else if d == 3 {
        '3'
    } else if d == 4 {
        '4'
    } else if d == 5 {
        '5'
    } else if d == 6 {
        '6'
    } else if d == 7 {
        '7'
    } else if d == 8 {
        '8'
    } else {
        '9'
    }
}

/// Appends the decimal numeral of `n` to `out`.
pub fn push_decimal(out: &mut String, n: usize)
    ensures
        final(out)@ == old(out)@ + decimal(n as nat),
    decreases n,
{
    if n >= 10 {
        push_decimal(out, n / 10);
    }
    out.push(digit(n % 10));
}

/// A numeral consists of digits: it holds neither a space nor a line break.
pub proof fn decimal_is_digits(n: nat, i: int)
    requires
        0 <= i < decimal(n).len(),
    ensures
        decimal(n)[i] != ' ',
        decimal(n)[i] != '\n',
    decreases n,
{
    if n >= 10 {
        if i < decimal(n / 10).len() {
            decimal_is_digits(n / 10, i);
        }
    }
}

/// Ten to the power `k`.
pub open spec fn pow10(k: nat) -> nat
    decreases k,
{
    if k == 0 {
        1
    } else {
        10 * pow10((k - 1) as nat)
    }
}

/// The numeral of `n` in exactly `k` digits, with leading zeros; the digits
/// of `n` beyond the `k` lowest are left out.
pub open spec fn fixed_width(n: nat, k: nat) -> Seq<char>
    decreases k,
{
    if k == 0 {
        Seq::empty()
    } else {
        fixed_width(n / 10, (k - 1) as nat).push(digit_spec((n % 10) as int))
    }
}

/// The numerator of the fraction with `k` decimals that is nearest to
/// `f / 2^32`, the upper one of two that are equally near.
pub open spec fn nearest_decimal(f: nat, k: nat) -> nat {
    (2 * f * pow10(k) + ONE_RAW as nat) / (2 * ONE_RAW as nat)
}

/// The number of raw units nearest to the fraction `n / 10^k`, the upper one
/// of two that are equally near.
pub open spec fn nearest_raw(n: nat, k: nat) -> nat {
    (2 * n * ONE_RAW as nat + pow10(k)) / (2 * pow10(k))
}

/// The fraction of `f` raw units, written with `k` decimals, is below one
/// and reads back as `f`.
pub open spec fn round_trips(f: nat, k: nat) -> bool {
    nearest_decimal(f, k) < pow10(k) && nearest_raw(nearest_decimal(f, k), k) == f
}

/// The least number of decimals from `k` on, but no more than ten, with
/// which the fraction of `f` raw units reads back as `f`.
pub open spec fn decimals(f: nat, k: nat) -> nat
    decreases 10 - k,
{
    if k >= 10 || round_trips(f, k) {
        k
    } else {
        decimals(f, k + 1)
    }
}

/// The text of the scalar with the raw value `raw`: a minus sign if it is
/// negative, the numeral of its whole part and, unless it is whole, a point
/// and the fewest decimals that read back as the same scalar.
pub open spec fn scalar_text(raw: int) -> Seq<char> {
    let magnitude = if raw < 0 {
        (-raw) as nat
    } else {
        raw as nat
    };
    let whole = magnitude / (ONE_RAW as nat);
    let f = magnitude % (ONE_RAW as nat);
    let sign = if raw < 0 {
        seq!['-']
    } else {
        Seq::empty()
    };
    if f == 0 {
        sign + decimal(whole)
    } else {
        sign + decimal(whole) + seq!['.'] + fixed_width(
            nearest_decimal(f, decimals(f, 1)),
            decimals(f, 1),
        )
    }
}

/// With ten decimals every fraction reads back: two scalars that differ
/// have different texts.
pub proof fn ten_decimals_read_back(f: nat)
    requires
        f < ONE_RAW,
    ensures
        round_trips(f, 10),
        round_trips(f, decimals(f, 1)),
{
    assert(pow10(10) == 10_000_000_000) by {
        reveal_with_fuel(pow10, 11);
    }
    let n = nearest_decimal(f, 10);
    assert(n == (2 * f * 10_000_000_000 + 0x1_0000_0000) / (2 * 0x1_0000_0000nat));
    let back = nearest_raw(n, 10);
    assert(back == (2 * n * 0x1_0000_0000 + 10_000_000_000) / (2 * 10_000_000_000nat));
    let x = (2 * f * 10_000_000_000 + 0x1_0000_0000) as int;
    vstd::arithmetic::div_mod::lemma_fundamental_div_mod(x, 0x2_0000_0000);
    vstd::arithmetic::div_mod::lemma_mod_bound(x, 0x2_0000_0000);
    let y = (2 * n * 0x1_0000_0000 + 10_000_000_000) as int;
    vstd::arithmetic::div_mod::lemma_fundamental_div_mod(y, 20_000_000_000);
    vstd::arithmetic::div_mod::lemma_mod_bound(y, 20_000_000_000);
    assert(n < 10_000_000_000);
    assert(back == f);
    reads_back_at_the_least(f, 1);
}

/// The number of decimals that a fraction is written with reads back,
/// where ten decimals do.
proof fn reads_back_at_the_least(f: nat, k: nat)
    requires
        round_trips(f, 10),
        k <= 10,
    ensures
        round_trips(f, decimals(f, k)),
    decreases 10 - k,
{
    if k < 10 && !round_trips(f, k) {
        reads_back_at_the_least(f, k + 1);
    }
}

/// Ten to the power `k`, for `k` up to ten.
fn power_of_ten(k: usize) -> (p: u128)
    requires
        k <= 10,
    ensures
        p == pow10(k as nat),
        1 <= p <= 10_000_000_000,
{
    let mut p: u128 = 1;
    let mut i: usize = 0;
    while i < k
        invariant
            i <= k <= 10,
            p == pow10(i as nat),
            1 <= p,
            i <= 0 ==> p <= 1,
            i <= 1 ==> p <= 10,
            i <= 2 ==> p <= 100,
            i <= 3 ==> p <= 1_000,
            i <= 4 ==> p <= 10_000,
            i <= 5 ==> p <= 100_000,
            i <= 6 ==> p <= 1_000_000,
            i <= 7 ==> p <= 10_000_000,
            i <= 8 ==> p <= 100_000_000,
            i <= 9 ==> p <= 1_000_000_000,
            p <= 10_000_000_000,
        decreases k - i,
    {
        p = p * 10;
        i = i + 1;
    }
    p
}

/// Appends the numeral of `n` in exactly `k` digits to `out`.
fn push_fixed_width(out: &mut String, n: u128, k: usize)
    ensures
        final(out)@ == old(out)@ + fixed_width(n as nat, k as nat),
    decreases k,
{
    if k > 0 {
        push_fixed_width(out, n / 10, k - 1);
        out.push(digit((n % 10) as usize));
    }
}

/// The numerator of the fraction with `k` decimals that is nearest to `f`
/// raw units.
fn nearest_numerator(f: u128, k: usize) -> (n: u128)
    requires
        f < ONE_RAW,
        k <= 10,
    ensures
        n == nearest_decimal(f as nat, k as nat),
        n <= pow10(k as nat),
{
    let one: u128 = ONE_RAW as u128;
    let p = power_of_ten(k);
    assert(2 * f * p <= 2 * (one - 1) * p) by (nonlinear_arith)
        requires
            f <= one - 1,
            p >= 0,
    ;
    assert(2 * (one - 1) * p <= 2 * 0x1_0000_0000 * 10_000_000_000) by (nonlinear_arith)
        requires
            one == 0x1_0000_0000,
            0 <= p <= 10_000_000_000,
    ;
    let n = (2 * f * p + one) / (2 * one);
    assert(n <= p) by (nonlinear_arith)
        requires
            n == (2 * f * p + one) / (2 * one),
            2 * f * p <= 2 * (one - 1) * p,
            one == 0x1_0000_0000,
            p >= 1,
    ;
    n
}

/// Whether the fraction `n / 10^k`, for `n` below `10^k`, is nearest to `f`
/// raw units.
fn reads_back(f: u128, n: u128, k: usize) -> (ok: bool)
    requires
        k <= 10,
        n <= pow10(k as nat),
    ensures
        ok == (n < pow10(k as nat) && nearest_raw(n as nat, k as nat) == f),
{
    let one: u128 = ONE_RAW as u128;
    let p = power_of_ten(k);
    assert(2 * n * one <= 2 * 10_000_000_000 * 0x1_0000_0000) by (nonlinear_arith)
        requires
            one == 0x1_0000_0000,
            0 <= n <= 10_000_000_000,
    ;
    n < p && (2 * n * one + p) / (2 * p) == f
}

/// Appends the text of a scalar to `out`.
pub fn push_scalar(out: &mut String, x: Scalar)
    ensures
        final(out)@ == old(out)@ + scalar_text(x.raw as int),
{
    let one: u128 = ONE_RAW as u128;
    let magnitude: u128 = if x.raw < 0 {
        (-(x.raw as i128)) as u128
    } else {
        x.raw as u128
    };
    let whole: u128 = magnitude / one;
    let f: u128 = magnitude % one;
    if x.raw < 0 {
        out.push('-');
    }
    push_decimal(out, whole as usize);
    if f != 0 {
        out.push('.');
        let mut k: usize = 1;
        let mut n: u128 = nearest_numerator(f, k);
        let mut found = reads_back(f, n, k);
        while k < 10 && !found
            invariant
                1 <= k <= 10,
                f < ONE_RAW,
                n == nearest_decimal(f as nat, k as nat),
                found == round_trips(f as nat, k as nat),
                decimals(f as nat, 1) == decimals(f as nat, k as nat),
            decreases 10 - k,
        {
            k = k + 1;
            n = nearest_numerator(f, k);
            found = reads_back(f, n, k);
        }
        push_fixed_width(out, n, k);
    }
    assert(out@ =~= old(out)@ + scalar_text(x.raw as int));
}

} // verus!
