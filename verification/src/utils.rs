//! String escaping and encoding used by the payload generators.

use vstd::prelude::*;
use vstd::string::*;
use crate::textfmt::{push_hex_upper_pad2, spec_hex_upper_pad2};

verus! {

/// How one character is escaped in a WiFi payload: the characters special to
/// that format get a backslash, all others stand unchanged.
pub open spec fn spec_escape_char(c: char) -> Seq<char> {
    if c == '\\' || c == ';' || c == ',' || c == ':' || c == '"' {
        seq!['\\', c]
    } else {
        seq![c]
    }
}

/// The WiFi-escaped form of a string: every character escaped in place.
pub open spec fn spec_escape(s: Seq<char>) -> Seq<char>
    decreases s.len(),
{
    if s.len() == 0 {
        Seq::empty()
    } else {
        spec_escape(s.drop_last()) + spec_escape_char(s.last())
    }
}

/// Escapes the characters special to the WiFi payload format.
pub fn escape_special_chars(input: &str) -> (r: String)
    ensures
        r@ == spec_escape(input@),
{
    let n = input.unicode_len();
    let mut out = String::new();
    let mut i: usize = 0;
    while i < n
        invariant
            n == input@.len(),
            i <= n,
            out@ == spec_escape(input@.take(i as int)),
        decreases n - i,
    {
        let c = input.get_char(i);
        if c == '\\' || c == ';' || c == ',' || c == ':' || c == '"' {
            out.push('\\');
            out.push(c);
        } else {
            out.push(c);
        }
        proof {
            assert(input@.take(i + 1).drop_last() =~= input@.take(i as int));
            assert(out@ =~= spec_escape(input@.take(i + 1)));
        }
        i = i + 1;
    }
    proof {
        assert(input@.take(n as int) =~= input@);
    }
    out
}

/// Whether a character passes through URL encoding unchanged: ASCII letters,
/// digits, and `-`, `_`, `.`, `~`.
pub open spec fn spec_url_plain(c: char) -> bool {
    (48 <= c as u32 && c as u32 <= 57) || (65 <= c as u32 && c as u32 <= 90) || (97 <= c as u32
        && c as u32 <= 122) || c == '-' || c == '_' || c == '.' || c == '~'
}

/// How one character is URL-encoded: unreserved characters stand unchanged,
/// everything else (a space included) becomes `%` followed by the upper-case
/// hex of the code point (at least two digits).
pub open spec fn spec_url_char(c: char) -> Seq<char> {
    if spec_url_plain(c) {
        seq![c]
    } else {
        seq!['%'] + spec_hex_upper_pad2(c as u32 as int)
    }
}

/// The URL-encoded form of a string: every character encoded in place.
pub open spec fn spec_urlencode(s: Seq<char>) -> Seq<char>
    decreases s.len(),
{
    if s.len() == 0 {
        Seq::empty()
    } else {
        spec_urlencode(s.drop_last()) + spec_url_char(s.last())
    }
}

/// Whether `c` is kept as itself by `urlencoding_simple`.
fn is_url_plain(c: char) -> (r: bool)
    ensures
        r == spec_url_plain(c),
{
    let v = c as u32;
    (48 <= v && v <= 57) || (65 <= v && v <= 90) || (97 <= v && v <= 122) || c == '-' || c == '_'
        || c == '.' || c == '~'
}

/// URL-encodes a query parameter value: unreserved characters stand
/// unchanged, everything else (a space becomes `%20`) becomes `%XX` with the
/// upper-case hex code of the character.
pub fn urlencoding_simple(input: &str) -> (r: String)
    ensures
        r@ == spec_urlencode(input@),
{
    let n = input.unicode_len();
    let mut out = String::new();
    let mut i: usize = 0;
    while i < n
        invariant
            n == input@.len(),
            i <= n,
            out@ == spec_urlencode(input@.take(i as int)),
        decreases n - i,
    {
        let c = input.get_char(i);
        if is_url_plain(c) {
            out.push(c);
        } else {
            out.push('%');
            push_hex_upper_pad2(&mut out, c as u32);
        }
        proof {
            assert(input@.take(i + 1).drop_last() =~= input@.take(i as int));
            assert(out@ =~= spec_urlencode(input@.take(i + 1)));
        }
        i = i + 1;
    }
    proof {
        assert(input@.take(n as int) =~= input@);
    }
    out
}

/// How one character is encoded in a mailto query value: as in URL encoding,
/// except that a space becomes `+`.
pub open spec fn spec_form_url_char(c: char) -> Seq<char> {
    if c == ' ' {
        seq!['+']
    } else {
        spec_url_char(c)
    }
}

/// The form-style encoding of a string: URL encoding with `+` for spaces.
pub open spec fn spec_form_urlencode(s: Seq<char>) -> Seq<char>
    decreases s.len(),
{
    if s.len() == 0 {
        Seq::empty()
    } else {
        spec_form_urlencode(s.drop_last()) + spec_form_url_char(s.last())
    }
}

/// Encodes a mailto query value: like `urlencoding_simple`, but a space
/// becomes `+`.
pub fn urlencoding_form(input: &str) -> (r: String)
    ensures
        r@ == spec_form_urlencode(input@),
{
    let n = input.unicode_len();
    let mut out = String::new();
    let mut i: usize = 0;
    while i < n
        invariant
            n == input@.len(),
            i <= n,
            out@ == spec_form_urlencode(input@.take(i as int)),
        decreases n - i,
    {
        let c = input.get_char(i);
        if c == ' ' {
            out.push('+');
        } else if is_url_plain(c) {
            out.push(c);
        } else {
            out.push('%');
            push_hex_upper_pad2(&mut out, c as u32);
        }
        proof {
            assert(input@.take(i + 1).drop_last() =~= input@.take(i as int));
            assert(out@ =~= spec_form_urlencode(input@.take(i + 1)));
        }
        i = i + 1;
    }
    proof {
        assert(input@.take(n as int) =~= input@);
    }
    out
}

} // verus!
