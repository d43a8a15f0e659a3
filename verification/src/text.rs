//! Verified construction of the textual forms the generators emit: decimal
//! numbers, fixed- and variable-width lowercase hexadecimal numbers.
//!
//! Each exec builder appends to a `String` and is proved to produce exactly
//! the character sequence given by the corresponding spec function.

use vstd::prelude::*;

verus! {

/// The character for one decimal digit.
pub open spec fn dec_digit(d: int) -> char {
    if d == 0 {
        '0'
    } else if d == 1 {
        '1'
    } else if d == 2 {
        '2'
    } else if d == 3 {
        '3'
    } else if d == 4 {
        '4'
    } else if d == 5 {
        '5'
    } else if d == 6 {
        '6'
    } else if d == 7 {
        '7'
    } else if d == 8 {
        '8'
    } else {
        '9'
    }
}

/// The character for one lowercase hexadecimal digit.
pub open spec fn hex_digit(d: int) -> char {
    if d < 10 {
        dec_digit(d)
    } else if d == 10 {
        'a'
    } else if d == 11 {
        'b'
    } else if d == 12 {
        'c'
    } else if d == 13 {
        'd'
    } else if d == 14 {
        'e'
    } else {
        'f'
    }
}

/// The decimal text of a natural number, without leading zeros
/// (a lone zero is written as one digit).
pub open spec fn dec_text(n: nat) -> Seq<char>
    decreases n,
{
    if n < 10 {
        seq![dec_digit(n as int)]
    } else {
        dec_text(n / 10).push(dec_digit((n % 10) as int))
    }
}

/// The lowercase hexadecimal text of a natural number, without leading
/// zeros (a lone zero is written as one digit).
pub open spec fn hex_text(n: nat) -> Seq<char>
    decreases n,
{
    if n < 16 {
        seq![hex_digit(n as int)]
    } else {
        hex_text(n / 16).push(hex_digit((n % 16) as int))
    }
}

/// The two-digit lowercase hexadecimal text of a byte, with a leading zero.
pub open spec fn hex_text2(n: nat) -> Seq<char> {
    seq![hex_digit((n / 16) as int), hex_digit((n % 16) as int)]
}

/// Relies on `String::push`: appends the given character to the end of
/// the string.
#[verifier::external_body]
pub fn push_char(s: &mut String, c: char)
    ensures
        final(s)@ == old(s)@.push(c),
{
    s.push(c);
}

/// The character for one decimal digit, as executable code.
fn dec_digit_char(d: u64) -> (c: char)
    requires
        d < 10,
    ensures
        c == dec_digit(d as int),
{
    match d {
        0 => '0',
        1 => '1',
        2 => '2',
        3 => '3',
        4 => '4',
        5 => '5',
        6 => '6',
        7 => '7',
        8 => '8',
        _ => '9',
    }
}

/// The character for one lowercase hexadecimal digit, as executable code.
fn hex_digit_char(d: u64) -> (c: char)
    requires
        d < 16,
    ensures
        c == hex_digit(d as int),
{
    if d < 10 {
        dec_digit_char(d)
    } else {
        match d {
            10 => 'a',
            11 => 'b',
            12 => 'c',
            13 => 'd',
            14 => 'e',
            _ => 'f',
        }
    }
}

/// Append the decimal text of `n`.
pub fn push_dec_u64(s: &mut String, n: u64)
    ensures
        final(s)@ == old(s)@ + dec_text(n as nat),
    decreases n,
{
    if n < 10 {
        push_char(s, dec_digit_char(n));
        assert(final(s)@ =~= old(s)@ + dec_text(n as nat));
    } else {
        push_dec_u64(s, n / 10);
        push_char(s, dec_digit_char(n % 10));
        assert(final(s)@ =~= old(s)@ + dec_text(n as nat));
    }
}

/// Append the lowercase hexadecimal text of `n`, without leading zeros.
pub fn push_hex_u64(s: &mut String, n: u64)
    ensures
        final(s)@ == old(s)@ + hex_text(n as nat),
    decreases n,
{
    if n < 16 {
        push_char(s, hex_digit_char(n));
        assert(final(s)@ =~= old(s)@ + hex_text(n as nat));
    } else {
        push_hex_u64(s, n / 16);
        push_char(s, hex_digit_char(n % 16));
        assert(final(s)@ =~= old(s)@ + hex_text(n as nat));
    }
}

/// Append the two-digit lowercase hexadecimal text of a byte.
pub fn push_hex2_u64(s: &mut String, n: u64)
    requires
        n < 256,
    ensures
        final(s)@ == old(s)@ + hex_text2(n as nat),
{
    push_char(s, hex_digit_char(n / 16));
    push_char(s, hex_digit_char(n % 16));
    assert(final(s)@ =~= old(s)@ + hex_text2(n as nat));
}

/// The decimal text of a number, as a fresh string.
pub fn dec_u64_string(n: u64) -> (r: String)
    ensures
        r@ == dec_text(n as nat),
{
    let mut s = String::new();
    push_dec_u64(&mut s, n);
    assert(s@ =~= dec_text(n as nat));
    s
}

} // verus!
