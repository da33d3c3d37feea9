//! Small helpers over strings, stated over their views as sequences of characters.

use vstd::prelude::*;
use vstd::string::StringExecFns;

verus! {

/// Whether two string slices hold the same characters in the same order.
pub(crate) fn str_eq(a: &str, b: &str) -> (r: bool)
    ensures
        r == (a@ == b@),
{
    let left = a.to_owned();
    let right = b.to_owned();
    left == right
}

/// Whether `name` is the name `other`.
pub fn same_name(name: &String, other: &str) -> (r: bool)
    ensures
        r == (name@ == other@),
{
    str_eq(name.as_str(), other)
}

/// Two parts of a symbol, joined by an underscore.
pub open spec fn joined(a: Seq<char>, b: Seq<char>) -> Seq<char> {
    a + "_"@ + b
}

/// Joins two parts of a symbol by an underscore.
pub fn join(a: &str, b: &str) -> (r: String)
    ensures
        r@ == joined(a@, b@),
{
    let mut out = a.to_owned();
    out.append("_");
    out.append(b);
    out
}


/// One hexadecimal digit, in lower case.
pub open spec fn hex_digit(d: int) -> Seq<char> {
    if d == 0 {
        "0"@
    } else if d == 1 {
        "1"@
    } else if d == 2 {
        "2"@
    } else if d == 3 {
        "3"@
    } else if d == 4 {
        "4"@
    } else if d == 5 {
        "5"@
    } else if d == 6 {
        "6"@
    } else if d == 7 {
        "7"@
    } else if d == 8 {
        "8"@
    } else if d == 9 {
        "9"@
    } else if d == 10 {
        "a"@
    } else if d == 11 {
        "b"@
    } else if d == 12 {
        "c"@
    } else if d == 13 {
        "d"@
    } else if d == 14 {
        "e"@
    } else {
        "f"@
    }
}

/// A number below 65536 as four hexadecimal digits, the highest first.
pub open spec fn hex4(n: int) -> Seq<char> {
    hex_digit(n / 4096 % 16) + hex_digit(n / 256 % 16) + hex_digit(n / 16 % 16) + hex_digit(
        n % 16,
    )
}

fn digit(d: u16) -> (r: &'static str)
    requires
        d < 16,
    ensures
        r@ == hex_digit(d as int),
{
    if d == 0 {
        "0"
    } else if d == 1 {
        "1"
    } else if d == 2 {
        "2"
    } else if d == 3 {
        "3"
    } else if d == 4 {
        "4"
    } else if d == 5 {
        "5"
    } else if d == 6 {
        "6"
    } else if d == 7 {
        "7"
    } else if d == 8 {
        "8"
    } else if d == 9 {
        "9"
    } else if d == 10 {
        "a"
    } else if d == 11 {
        "b"
    } else if d == 12 {
        "c"
    } else if d == 13 {
        "d"
    } else if d == 14 {
        "e"
    } else {
        "f"
    }
}

/// Writes a number as four hexadecimal digits in lower case, with leading zeros.
pub fn to_hex4(n: u16) -> (r: String)
    ensures
        r@ == hex4(n as int),
{
    let mut out = digit(n / 4096 % 16).to_owned();
    out.append(digit(n / 256 % 16));
    out.append(digit(n / 16 % 16));
    out.append(digit(n % 16));
    out
}

} // verus!
