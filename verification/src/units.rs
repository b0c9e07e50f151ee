//! Amounts of data in a form for people.
//!
//! Amounts of a kilobyte and more are shown with one decimal. They go through the nearest
//! double-precision number, as a division in floating point would have them; all of it is done
//! here in whole numbers.

use vstd::arithmetic::power2::{lemma_pow2_unfold, pow2};
use vstd::prelude::*;

use crate::text::{decimal, digit_char, digit_text, hex_digits, push_decimal};

verus! {

/// `n / d`, rounded to the nearest whole number; a tie goes to the even one.
pub open spec fn rounded(n: nat, d: nat) -> nat {
    if 2 * (n % d) < d || (2 * (n % d) == d && (n / d) % 2 == 0) {
        n / d
    } else {
        n / d + 1
    }
}

/// The distance between neighbouring double-precision numbers of the size of `b`, for whole
/// numbers: 1 where all 53 bits suffice, and twice as much for each further bit.
pub open spec fn double_spacing(b: nat) -> nat
    decreases b,
{
    if b < 0x20_0000_0000_0000 {
        1
    } else {
        2 * double_spacing(b / 2)
    }
}

/// The double-precision number nearest to `b`.
pub open spec fn nearest_double(b: nat) -> nat {
    rounded(b, double_spacing(b)) * double_spacing(b)
}

/// `b / unit` with one decimal.
pub open spec fn one_decimal(b: nat, unit: nat) -> Seq<char> {
    let tenths = rounded(10 * nearest_double(b), unit);
    decimal(tenths / 10) + "."@ + seq![digit_char(tenths % 10)]
}

/// An amount of bytes: as it is below a kilobyte, then in kilobytes or megabytes.
pub open spec fn amount(b: u64) -> Seq<char> {
    if b < 1024 {
        decimal(b as nat) + "B"@
    } else if b < 1024 * 1024 {
        one_decimal(b as nat, 1024) + "KB"@
    } else {
        one_decimal(b as nat, 1024 * 1024) + "MB"@
    }
}

/// Rounds `n / d` to the nearest whole number, ties to the even one.
fn round(n: u128, d: u128) -> (q: u128)
    requires
        0 < d < 0x1_0000_0000,
    ensures
        q == rounded(n as nat, d as nat),
        q <= n / d + 1,
{
    let quotient: u128 = n / d;
    let rest: u128 = n % d;
    if 2 * rest < d || (2 * rest == d && quotient % 2 == 0) {
        quotient
    } else {
        proof {
            assert(rest > 0);
            assert(quotient < u128::MAX) by (nonlinear_arith)
                requires
                    quotient == n / d,
                    rest == n % d,
                    rest > 0,
                    d > 0,
                    n <= u128::MAX,
            ;
        }
        quotient + 1
    }
}

/// The distance between neighbouring double-precision numbers of the size of `b`.
fn spacing(b: u64) -> (s: u64)
    ensures
        s == double_spacing(b as nat),
        1 <= s,
        s == 1 || s <= b / 0x10_0000_0000_0000,
    decreases b,
{
    if b < 0x20_0000_0000_0000 {
        1
    } else {
        2 * spacing(b / 2)
    }
}

/// Appends `b / unit` with one decimal.
fn push_one_decimal(s: &mut String, b: u64, unit: u64)
    requires
        0 < unit < 0x1_0000_0000,
    ensures
        final(s)@ == old(s)@ + one_decimal(b as nat, unit as nat),
{
    let ghost before = s@;
    let grain: u128 = spacing(b) as u128;
    let count: u128 = round(b as u128, grain);
    proof {
        assert(b as nat / grain as nat <= b) by (nonlinear_arith)
            requires
                grain >= 1,
        ;
        assert(count * grain <= 0x1_0000_0000_0000_0001 * 0x1000) by (nonlinear_arith)
            requires
                count <= 0x1_0000_0000_0000_0001,
                grain <= 0x1000,
        ;
    }
    let value: u128 = count * grain;
    let tenths: u128 = round(10 * value, unit as u128);
    push_decimal(s, tenths / 10);
    s.append(".");
    s.append(digit_text((tenths % 10) as u8));
    proof {
        assert(s@ =~= before + one_decimal(b as nat, unit as nat));
    }
}

/// An amount of bytes for people: `512B`, `1.5KB`, `2.0MB`.
pub fn fmt_bytes(b: u64) -> (s: String)
    ensures
        s@ == amount(b),
{
    let mut s = String::new();
    if b < 1024 {
        push_decimal(&mut s, b as u128);
        s.append("B");
    } else if b < 1024 * 1024 {
        push_one_decimal(&mut s, b, 1024);
        s.append("KB");
    } else {
        push_one_decimal(&mut s, b, 1024 * 1024);
        s.append("MB");
    }
    proof {
        assert(s@ =~= amount(b));
    }
    s
}

/// Whole numbers of up to 53 bits are double-precision numbers themselves.
proof fn lemma_exact_double(b: nat)
    requires
        b < 0x20_0000_0000_0000,
    ensures
        nearest_double(b) == b,
{
    let d = double_spacing(b);
    assert(b / d == b && b % d == 0 && b * d == b) by (nonlinear_arith)
        requires
            d == 1,
    ;
}

/// The number shown is never further than half a tenth from the amount itself, for amounts that
/// double-precision numbers hold exactly.
pub proof fn lemma_shown_within_half_a_tenth(b: nat, unit: nat)
    requires
        b < 0x20_0000_0000_0000,
        unit > 0,
    ensures
        20 * b <= (2 * rounded(10 * nearest_double(b), unit) + 1) * unit,
        (2 * rounded(10 * nearest_double(b), unit) - 1) * unit <= 20 * b,
{
    lemma_exact_double(b);
    let n = 10 * b;
    let q = n / unit;
    let r = n % unit;
    let t = rounded(n, unit);
    assert(20 * b <= (2 * t + 1) * unit && (2 * t - 1) * unit <= 20 * b) by (nonlinear_arith)
        requires
            n == 10 * b,
            unit > 0,
            q == n / unit,
            r == n % unit,
            t == q && 2 * r <= unit || t == q + 1 && 2 * r >= unit,
    ;
}

/// Whether `q` is the whole number nearest to `n / d`, the even one of two that are as near.
pub open spec fn nearest(n: nat, d: nat, q: nat) -> bool {
    let twice_off = 2 * (n - q * d);
    -(d as int) <= twice_off <= d && ((twice_off == d || twice_off == -(d as int)) ==> q % 2 == 0)
}

/// Rounding gives the nearest whole number.
pub proof fn lemma_rounded_is_nearest(n: nat, d: nat)
    requires
        d > 0,
    ensures
        nearest(n, d, rounded(n, d)),
{
    let (q, r) = (n / d, n % d);
    assert(n == q * d + r && 0 <= r < d && (q + 1) * d == q * d + d) by (nonlinear_arith)
        requires
            d > 0,
            q == n / d,
            r == n % d,
    ;
}

/// Whether `g` is the distance between the double-precision numbers around `b`: those have 53
/// significant bits.
pub open spec fn grain(b: nat, g: nat) -> bool {
    &&& exists|k: nat| g == #[trigger] pow2(k)
    &&& b < 0x20_0000_0000_0000 ==> g == 1
    &&& b >= 0x20_0000_0000_0000 ==> 0x10_0000_0000_0000 * g <= b < 0x20_0000_0000_0000 * g
}

/// The distance between double-precision numbers is a power of two that leaves 53 bits.
pub proof fn lemma_double_spacing(b: nat)
    ensures
        grain(b, double_spacing(b)),
        double_spacing(b) > 0,
    decreases b,
{
    if b < 0x20_0000_0000_0000 {
        vstd::arithmetic::power2::lemma2_to64();
        assert(pow2(0) == 1);
    } else {
        lemma_double_spacing(b / 2);
        let k = choose|k: nat| double_spacing(b / 2) == #[trigger] pow2(k);
        lemma_pow2_unfold(k + 1);
        assert(double_spacing(b) == pow2(k + 1));
        if b / 2 < 0x20_0000_0000_0000 {
            assert(double_spacing(b) == 2);
        }
    }
}

/// Whether an amount `b` counts as `t` tenths of a unit: `c` times the distance between
/// double-precision numbers is the one nearest to `b`, and `t` is nearest to ten times that.
pub open spec fn counts_as(b: nat, unit: nat, g: nat, c: nat, t: nat) -> bool {
    grain(b, g) && nearest(b, g, c) && nearest(10 * (c * g), unit, t)
}

/// Below a kilobyte an amount is shown as it is. Otherwise it is shown in kilobytes below a megabyte
/// and in megabytes from there on, as the nearest number of tenths, with one decimal.
pub proof fn lemma_amount(b: u64, s: String)
    requires
        call_ensures(fmt_bytes, (b,), s),
    ensures
        call_requires(fmt_bytes, (b,)),
        b < 1024 ==> s@ == decimal(b as nat) + seq!['B'],
        1024 <= b < 1_048_576 ==> exists|g: nat, c: nat, t: nat|
            #[trigger] counts_as(b as nat, 1024, g, c, t) && s@ == decimal(t / 10) + seq![
                '.',
                hex_digits()[t as int % 10],
                'K',
                'B',
            ],
        1_048_576 <= b ==> exists|g: nat, c: nat, t: nat|
            #[trigger] counts_as(b as nat, 1_048_576, g, c, t) && s@ == decimal(t / 10) + seq![
                '.',
                hex_digits()[t as int % 10],
                'M',
                'B',
            ],
{
    reveal_strlit("B");
    reveal_strlit("KB");
    reveal_strlit("MB");
    reveal_strlit(".");
    assert("B"@ =~= seq!['B']);
    if b >= 1024 {
        let unit: nat = if b < 1_048_576 {
            1024
        } else {
            1_048_576
        };
        let g = double_spacing(b as nat);
        lemma_double_spacing(b as nat);
        lemma_rounded_is_nearest(b as nat, g);
        let c = rounded(b as nat, g);
        lemma_rounded_is_nearest(10 * (c * g), unit);
        let t = rounded(10 * (c * g), unit);
        assert(counts_as(b as nat, unit, g, c, t));
        assert(digit_char(t % 10) == hex_digits()[t as int % 10]);
        assert(s@ =~= decimal(t / 10) + seq![
            '.',
            hex_digits()[t as int % 10],
            if b < 1_048_576 { 'K' } else { 'M' },
            'B',
        ]);
    }
}

} // verus!
