//! Verified helpers for building output text: appending single characters,
//! decimal numbers and hexadecimal numbers to a `String`.

use vstd::prelude::*;

verus! {

/// Relies on std's `String::push`: appends the given character to the end of
/// the string.
pub assume_specification[ String::push ](s: &mut String, c: char)
    ensures
        final(s)@ == old(s)@ + seq![c],
;

/// The ASCII digit for a value below ten.
pub open spec fn spec_digit_char(d: int) -> char {
    ((48 + d) as u8) as char
}

/// The lower-case hexadecimal digit for a value below sixteen.
pub open spec fn spec_hex_char(d: int) -> char {
    if d < 10 {
        ((48 + d) as u8) as char
    } else {
        ((87 + d) as u8) as char
    }
}

/// The upper-case hexadecimal digit for a value below sixteen.
pub open spec fn spec_hex_upper_char(d: int) -> char {
    if d < 10 {
        ((48 + d) as u8) as char
    } else {
        ((55 + d) as u8) as char
    }
}

/// The decimal digit string of a non-negative number, most significant digit
/// first, with no leading zeros (a single `0` for zero).
pub open spec fn spec_dec(n: int) -> Seq<char>
    decreases n,
{
    if n < 10 {
        seq![spec_digit_char(n)]
    } else {
        spec_dec(n / 10).push(spec_digit_char(n % 10))
    }
}

/// The upper-case hexadecimal digit string of a non-negative number, no
/// leading zeros (a single `0` for zero).
pub open spec fn spec_hex_upper(n: int) -> Seq<char>
    decreases n,
{
    if n < 16 {
        seq![spec_hex_upper_char(n)]
    } else {
        spec_hex_upper(n / 16).push(spec_hex_upper_char(n % 16))
    }
}

/// The upper-case hexadecimal digit string of a non-negative number, padded
/// with zeros to at least two digits.
pub open spec fn spec_hex_upper_pad2(n: int) -> Seq<char> {
    if n < 16 {
        seq!['0', spec_hex_upper_char(n)]
    } else {
        spec_hex_upper(n)
    }
}

/// Appends the decimal digits of `n` to `s`.
pub fn push_u64_dec(s: &mut String, n: u64)
    ensures
        final(s)@ == old(s)@ + spec_dec(n as int),
    decreases n,
{
    if n >= 10 {
        push_u64_dec(s, n / 10);
    }
    let d: u8 = (n % 10) as u8;
    s.push((48 + d) as char);
    proof {
        assert(final(s)@ =~= old(s)@ + spec_dec(n as int));
    }
}

/// Appends the upper-case hexadecimal digits of `n` to `s`, unpadded.
fn push_hex_upper(s: &mut String, n: u32)
    ensures
        final(s)@ == old(s)@ + spec_hex_upper(n as int),
    decreases n,
{
    if n >= 16 {
        push_hex_upper(s, n / 16);
    }
    let d: u8 = (n % 16) as u8;
    if d < 10 {
        s.push((48 + d) as char);
    } else {
        s.push((55 + d) as char);
    }
    proof {
        assert(final(s)@ =~= old(s)@ + spec_hex_upper(n as int));
    }
}

/// Appends the upper-case hexadecimal digits of `n` to `s`, zero-padded to at
/// least two digits.
pub fn push_hex_upper_pad2(s: &mut String, n: u32)
    ensures
        final(s)@ == old(s)@ + spec_hex_upper_pad2(n as int),
{
    if n < 16 {
        s.push('0');
        let d: u8 = n as u8;
        if d < 10 {
            s.push((48 + d) as char);
        } else {
            s.push((55 + d) as char);
        }
        assert(final(s)@ =~= old(s)@ + spec_hex_upper_pad2(n as int));
    } else {
        push_hex_upper(s, n);
    }
}

/// The two lower-case hexadecimal digits of a byte.
pub open spec fn spec_hex_byte(b: int) -> Seq<char> {
    seq![spec_hex_char(b / 16), spec_hex_char(b % 16)]
}

/// Appends the two lower-case hexadecimal digits of a byte to `s`.
pub fn push_hex_byte(s: &mut String, b: u8)
    ensures
        final(s)@ == old(s)@ + spec_hex_byte(b as int),
{
    let hi: u8 = b / 16;
    let lo: u8 = b % 16;
    if hi < 10 {
        s.push((48 + hi) as char);
    } else {
        s.push((87 + hi) as char);
    }
    if lo < 10 {
        s.push((48 + lo) as char);
    } else {
        s.push((87 + lo) as char);
    }
    assert(final(s)@ =~= old(s)@ + spec_hex_byte(b as int));
}

} // verus!
