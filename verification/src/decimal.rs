//! Decimal rendering of unsigned numbers, and the one string-building
//! primitive the crate trusts: pushing a single character onto a `String`.

use vstd::prelude::*;

verus! {

/// The character for one digit value; values ten and above never arise.
pub open spec fn digit_char(d: nat) -> char {
    if d == 0 {
        '0'
    } else if d == 1 {
        '1'
    } else if d == 2 {
        '2'
    } else if d == 3 {
        '3'
    } else if d == 4 {
        '4'
    } else if d == 5 {
        '5'
    } else if d == 6 {
        '6'
    } else if d == 7 {
        '7'
    } else if d == 8 {
        '8'
    } else {
        '9'
    }
}

/// The decimal digits of `n`, most significant first, without leading
/// zeros (a lone zero for `n == 0`).
pub open spec fn dec_digits(n: nat) -> Seq<char>
    decreases n,
{
    if n < 10 {
        seq![digit_char(n)]
    } else {
        dec_digits(n / 10).push(digit_char(n % 10))
    }
}

/// Relies on `String::push`: appends exactly the one character.
#[verifier::external_body]
pub(crate) fn push_char(s: &mut String, c: char)
    ensures
        final(s)@ == old(s)@.push(c),
{
    s.push(c);
}

/// The digit character for a value below ten.
fn digit_to_char(d: u8) -> (r: char)
    requires
        d <= 9,
    ensures
        r == digit_char(d as nat),
{
    match d {
        0 => '0',
        1 => '1',
        2 => '2',
        3 => '3',
        4 => '4',
        5 => '5',
        6 => '6',
        7 => '7',
        8 => '8',
        _ => '9',
    }
}

/// Append the decimal form of `m` to `s`.
pub fn push_u64_decimal(s: &mut String, m: u64)
    ensures
        final(s)@ == old(s)@ + dec_digits(m as nat),
    decreases m,
{
    if m < 10 {
        push_char(s, digit_to_char(m as u8));
        proof {
            assert(s@ =~= old(s)@ + dec_digits(m as nat));
        }
    } else {
        push_u64_decimal(s, m / 10);
        push_char(s, digit_to_char((m % 10) as u8));
        proof {
            assert(s@ =~= old(s)@ + dec_digits(m as nat));
        }
    }
}

} // verus!
