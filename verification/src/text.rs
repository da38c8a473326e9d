//! Text helpers: ASCII case folding, text comparison and decimal notation.

use vstd::prelude::*;
use vstd::string::*;

verus! {

/// The upper-case form of an ASCII letter; any other character is left alone.
pub open spec fn upper_char(c: char) -> char {
    if 'a' <= c <= 'z' {
        (c as int - 32) as char
    } else {
        c
    }
}

/// The lower-case form of an ASCII letter; any other character is left alone.
pub open spec fn lower_char(c: char) -> char {
    if 'A' <= c <= 'Z' {
        (c as int + 32) as char
    } else {
        c
    }
}

/// A text with its ASCII letters in upper case.
pub open spec fn upper(text: Seq<char>) -> Seq<char> {
    text.map_values(|c: char| upper_char(c))
}

/// A text with its ASCII letters in lower case.
pub open spec fn lower(text: Seq<char>) -> Seq<char> {
    text.map_values(|c: char| lower_char(c))
}

/// `str::to_ascii_uppercase`: maps the letters 'a' to 'z' to 'A' to 'Z' and
/// keeps every other character, non-ASCII letters among them.
pub assume_specification[ str::to_ascii_uppercase ](s: &str) -> (r: String)
    ensures
        r@ == upper(s@),
;

/// `str::to_ascii_lowercase`: maps the letters 'A' to 'Z' to 'a' to 'z' and
/// keeps every other character, non-ASCII letters among them.
pub assume_specification[ str::to_ascii_lowercase ](s: &str) -> (r: String)
    ensures
        r@ == lower(s@),
;

/// Whether two texts hold the same characters.
pub fn same_text(a: &str, b: &str) -> (r: bool)
    ensures
        r == (a@ == b@),
{
    a.to_owned() == b.to_owned()
}

/// The decimal digit that stands for `d`.
pub open spec fn digit(d: nat) -> char
    recommends
        d < 10,
{
    (48 + d) as char
}

/// A number in decimal notation, without leading zeros.
pub open spec fn decimal(n: nat) -> Seq<char>
    decreases n,
{
    if n < 10 {
        seq![digit(n)]
    } else {
        decimal(n / 10).push(digit(n % 10))
    }
}

fn digit_text(d: u8) -> (r: &'static str)
    requires
        d < 10,
    ensures
        r@ == seq![digit(d as nat)],
{
    proof {
        reveal_strlit("0");
        reveal_strlit("1");
        reveal_strlit("2");
        reveal_strlit("3");
        reveal_strlit("4");
        reveal_strlit("5");
        reveal_strlit("6");
        reveal_strlit("7");
        reveal_strlit("8");
        reveal_strlit("9");
    }
    if d == 0 {
        "0"
    } else if d == 1 {
        "1"
    } else if d == 2 {
        "2"
    } else if d == 3 {
        "3"
    } else if d == 4 {
        "4"
    } else if d == 5 {
        "5"
    } else if d == 6 {
        "6"
    } else if d == 7 {
        "7"
    } else if d == 8 {
        "8"
    } else {
        "9"
    }
}

/// Writes a number in decimal notation.
pub fn decimal_text(n: u128) -> (r: String)
    ensures
        r@ == decimal(n as nat),
    decreases n,
{
    if n < 10 {
        digit_text(n as u8).to_owned()
    } else {
        let mut text = decimal_text(n / 10);
        let last: u8 = (n % 10) as u8;
        text.append(digit_text(last));
        proof {
            assert(text@ =~= decimal(n as nat));
        }
        text
    }
}

} // verus!
