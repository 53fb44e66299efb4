//! Human-readable byte sizes: `N B` below one kibibyte, else the size in the
//! largest binary unit it reaches, with two decimals.
use vstd::prelude::*;
use crate::text::{decimal, digit, digit_char, push_char, push_decimal};

verus! {

pub const KB: u64 = 1024;

pub const MB: u64 = 1048576;

pub const GB: u64 = 1073741824;

/// `bytes / unit` in hundredths, rounded to the nearest; a tie goes to the
/// even neighbour.
pub open spec fn rounded_hundredths(bytes: nat, unit: nat) -> nat
    recommends
        unit > 0,
{
    let q = (bytes * 100) / unit;
    let rem = (bytes * 100) % unit;
    if 2 * rem > unit || (2 * rem == unit && q % 2 == 1) {
        q + 1
    } else {
        q
    }
}

/// A count of hundredths written with two decimals.
pub open spec fn two_decimals(h: nat) -> Seq<char> {
    decimal(h / 100) + seq!['.', digit_char((h % 100) / 10), digit_char(h % 10)]
}

/// The text for a size of `bytes`.
pub open spec fn size_text(bytes: u64) -> Seq<char> {
    if bytes >= GB {
        two_decimals(rounded_hundredths(bytes as nat, GB as nat)) + seq![' ', 'G', 'B']
    } else if bytes >= MB {
        two_decimals(rounded_hundredths(bytes as nat, MB as nat)) + seq![' ', 'M', 'B']
    } else if bytes >= KB {
        two_decimals(rounded_hundredths(bytes as nat, KB as nat)) + seq![' ', 'K', 'B']
    } else {
        decimal(bytes as nat) + seq![' ', 'B']
    }
}

/// Appends `bytes / unit` with two decimals.
fn push_scaled(s: &mut String, bytes: u64, unit: u64)
    requires
        unit >= KB,
    ensures
        final(s)@ == old(s)@ + two_decimals(rounded_hundredths(bytes as nat, unit as nat)),
{
    let num: u128 = bytes as u128 * 100;
    let q: u128 = num / unit as u128;
    let rem: u128 = num % unit as u128;
    let h: u128 = if 2 * rem > unit as u128 || (2 * rem == unit as u128 && q % 2 == 1) {
        q + 1
    } else {
        q
    };
    assert(h == rounded_hundredths(bytes as nat, unit as nat));
    assert(q <= num / 1024) by (nonlinear_arith)
        requires
            q == num / unit as u128,
            unit >= 1024,
    ;
    assert(h / 100 <= u64::MAX);
    let whole: u64 = (h / 100) as u64;
    let frac: u64 = (h % 100) as u64;
    push_decimal(s, whole);
    push_char(s, '.');
    push_char(s, digit(frac / 10));
    push_char(s, digit(frac % 10));
    assert(final(s)@ =~= old(s)@ + two_decimals(h as nat));
}

/// Renders a byte count: below 1024 as `N B`; else divided by the largest of
/// 1024, 1024² and 1024³ that it reaches, with two decimals and `KB`, `MB` or
/// `GB`.
pub fn format_size(bytes: u64) -> (r: String)
    ensures
        r@ == size_text(bytes),
{
    let mut r = String::new();
    if bytes >= GB {
        push_scaled(&mut r, bytes, GB);
        push_char(&mut r, ' ');
        push_char(&mut r, 'G');
    } else if bytes >= MB {
        push_scaled(&mut r, bytes, MB);
        push_char(&mut r, ' ');
        push_char(&mut r, 'M');
    } else if bytes >= KB {
        push_scaled(&mut r, bytes, KB);
        push_char(&mut r, ' ');
        push_char(&mut r, 'K');
    } else {
        push_decimal(&mut r, bytes);
        push_char(&mut r, ' ');
    }
    push_char(&mut r, 'B');
    proof {
        let t = size_text(bytes);
        assert(r@ =~= t);
    }
    r
}

/// Sizes below one kibibyte are written as the plain count and ` B`.
pub proof fn lemma_small_sizes_in_bytes(bytes: u64)
    requires
        bytes < KB,
    ensures
        size_text(bytes) == decimal(bytes as nat) + seq![' ', 'B'],
{
}

/// One kibibyte and one mebibyte are written as `1.00 KB` and `1.00 MB`.
pub proof fn lemma_unit_boundaries()
    ensures
        size_text(KB) == seq!['1', '.', '0', '0', ' ', 'K', 'B'],
        size_text(MB) == seq!['1', '.', '0', '0', ' ', 'M', 'B'],
{
    reveal_with_fuel(decimal, 1);
    assert(rounded_hundredths(KB as nat, KB as nat) == 100);
    assert(rounded_hundredths(MB as nat, MB as nat) == 100);
    assert(decimal(1) == seq![digit_char(1)]);
    assert(size_text(KB) =~= seq!['1', '.', '0', '0', ' ', 'K', 'B']);
    assert(size_text(MB) =~= seq!['1', '.', '0', '0', ' ', 'M', 'B']);
}

} // verus!
