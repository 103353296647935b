//! Helpers on text: comparing, copying, and writing numbers out.
use vstd::prelude::*;

verus! {

/// Appends one character. Trusted: `String::push` leaves the text as it was, with `c` behind
/// it.
pub assume_specification[ String::push ](s: &mut String, c: char)
    ensures
        final(s)@ == old(s)@.push(c),
;

/// What an optional text holds.
pub open spec fn opt_view(o: Option<String>) -> Option<Seq<char>> {
    match o {
        Some(s) => Some(s@),
        None => None,
    }
}

/// Whether two texts hold the same characters.
pub fn same_text(a: &str, b: &str) -> (r: bool)
    ensures
        r == (a@ == b@),
{
    a.to_owned() == b.to_owned()
}

/// A copy of an optional text.
pub fn copy_opt(o: &Option<String>) -> (r: Option<String>)
    ensures
        r == *o,
{
    match o {
        Some(s) => Some(s.clone()),
        None => None,
    }
}

/// The character for a decimal digit.
pub open spec fn digit_char(d: nat) -> char {
    (48 + d) as char
}

/// A number in decimal notation, without leading zeros.
pub open spec fn decimal_view(n: nat) -> Seq<char>
    decreases n,
{
    if n < 10 {
        seq![digit_char(n)]
    } else {
        decimal_view(n / 10).push(digit_char(n % 10))
    }
}

/// An integer in decimal notation: a minus sign before the digits of a negative one.
pub open spec fn signed_decimal_view(i: int) -> Seq<char> {
    if i < 0 {
        seq!['-'] + decimal_view((-i) as nat)
    } else {
        decimal_view(i as nat)
    }
}

/// Writes a number in decimal.
pub fn decimal(n: u64) -> (r: String)
    ensures
        r@ == decimal_view(n as nat),
    decreases n,
{
    let mut s = if n < 10 {
        String::new()
    } else {
        decimal(n / 10)
    };
    let d: u8 = (n % 10) as u8;
    s.push((48 + d) as char);
    proof {
        assert(s@ =~= decimal_view(n as nat));
    }
    s
}

/// Writes an integer in decimal.
pub fn signed_decimal(i: i64) -> (r: String)
    ensures
        r@ == signed_decimal_view(i as int),
{
    if i < 0 {
        let magnitude: u64 = (-(i + 1)) as u64 + 1;
        let mut s = String::new();
        s.push('-');
        s.append(decimal(magnitude).as_str());
        proof {
            assert(s@ =~= signed_decimal_view(i as int));
        }
        s
    } else {
        decimal(i as u64)
    }
}

/// A character with an upper-case ASCII letter made lower-case.
pub open spec fn ascii_lower(c: char) -> char {
    if 'A' <= c <= 'Z' {
        (c as u32 + 32) as char
    } else {
        c
    }
}

/// A text with its upper-case ASCII letters made lower-case.
pub open spec fn ascii_lower_text(s: Seq<char>) -> Seq<char> {
    s.map_values(|c: char| ascii_lower(c))
}

/// Makes the upper-case ASCII letters of a text lower-case.
pub fn to_ascii_lower(s: &str) -> (r: String)
    ensures
        r@ == ascii_lower_text(s@),
{
    let mut out = String::new();
    for c in it: s.chars()
        invariant
            it.seq() == s@,
            out@ =~= ascii_lower_text(s@.take(it.index() as int)),
    {
        let lower: char = if 'A' <= c && c <= 'Z' {
            (c as u8 + 32) as char
        } else {
            c
        };
        out.push(lower);
    }
    proof {
        assert(s@.take(s@.len() as int) =~= s@);
    }
    out
}

} // verus!
