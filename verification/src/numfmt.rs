//! Decimal formatting of the integers that appear in rendered contexts.

use vstd::prelude::*;
use crate::chars::string_from_chars;

verus! {

/// The character for a single decimal digit.
pub open spec fn digit_char(d: nat) -> char {
    if d == 0 {
        '0'
    } else if d == 1 {
        '1'
    } else if d == 2 {
        '2'
    } else if d == 3 {
        '3'
    } else if d == 4 {
        '4'
    } else if d == 5 {
        '5'
    } else if d == 6 {
        '6'
    } else if d == 7 {
        '7'
    } else if d == 8 {
        '8'
    } else {
        '9'
    }
}

/// The usual decimal representation of a natural number, without leading
/// zeros (a single `'0'` for zero).
pub open spec fn spec_dec(n: nat) -> Seq<char>
    decreases n,
{
    if n < 10 {
        seq![digit_char(n)]
    } else {
        spec_dec(n / 10) + seq![digit_char(n % 10)]
    }
}

/// The decimal representation of a year, with a leading minus sign when it
/// is negative.
pub open spec fn spec_year_chars(y: int) -> Seq<char> {
    if y < 0 {
        seq!['-'] + spec_dec((-y) as nat)
    } else {
        spec_dec(y as nat)
    }
}

fn digit_to_char(d: u64) -> (c: char)
    requires
        d < 10,
    ensures
        c == digit_char(d as nat),
{
    if d == 0 {
        '0'
    } else if d == 1 {
        '1'
    } else if d == 2 {
        '2'
    } else if d == 3 {
        '3'
    } else if d == 4 {
        '4'
    } else if d == 5 {
        '5'
    } else if d == 6 {
        '6'
    } else if d == 7 {
        '7'
    } else if d == 8 {
        '8'
    } else {
        '9'
    }
}

/// Append the decimal digits of `x` to `out`.
pub fn push_dec(x: u64, out: &mut Vec<char>)
    ensures
        final(out)@ == old(out)@ + spec_dec(x as nat),
    decreases x,
{
    if x < 10 {
        out.push(digit_to_char(x));
    } else {
        push_dec(x / 10, out);
        out.push(digit_to_char(x % 10));
    }
}

/// The decimal representation of `x`.
pub fn u64_to_string(x: u64) -> (r: String)
    ensures
        r@ == spec_dec(x as nat),
{
    let mut v: Vec<char> = Vec::new();
    push_dec(x, &mut v);
    string_from_chars(&v)
}

/// The decimal representation of `x`.
pub fn u32_to_string(x: u32) -> (r: String)
    ensures
        r@ == spec_dec(x as nat),
{
    u64_to_string(x as u64)
}

/// The decimal representation of a year, possibly negative.
pub fn year_to_string(y: i16) -> (r: String)
    ensures
        r@ == spec_year_chars(y as int),
{
    let mut v: Vec<char> = Vec::new();
    if y < 0 {
        v.push('-');
        let mag: u64 = (-(y as i64)) as u64;
        push_dec(mag, &mut v);
    } else {
        push_dec(y as u64, &mut v);
    }
    string_from_chars(&v)
}

} // verus!
