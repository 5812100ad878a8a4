//! Decimal rendering of small numbers into strings, for header values
//! such as window-bits parameters and port numbers.

use vstd::prelude::*;
use vstd::string::StringExecFns;

verus! {

/// The one-character string for a decimal digit.
pub open spec fn spec_digit_char(d: u8) -> Seq<char>
    recommends
        d < 10,
{
    if d == 0 { "0"@ }
    else if d == 1 { "1"@ }
    else if d == 2 { "2"@ }
    else if d == 3 { "3"@ }
    else if d == 4 { "4"@ }
    else if d == 5 { "5"@ }
    else if d == 6 { "6"@ }
    else if d == 7 { "7"@ }
    else if d == 8 { "8"@ }
    else { "9"@ }
}

/// The usual decimal rendering of a number: no leading zeros, most
/// significant digit first.
pub open spec fn spec_dec_chars(n: nat) -> Seq<char>
    decreases n,
{
    if n < 10 {
        spec_digit_char(n as u8)
    } else {
        spec_dec_chars(n / 10) + spec_digit_char((n % 10) as u8)
    }
}

fn push_digit(s: &mut String, d: u8)
    requires
        d < 10,
    ensures
        final(s)@ == old(s)@ + spec_digit_char(d),
{
    match d {
        0 => s.append("0"),
        1 => s.append("1"),
        2 => s.append("2"),
        3 => s.append("3"),
        4 => s.append("4"),
        5 => s.append("5"),
        6 => s.append("6"),
        7 => s.append("7"),
        8 => s.append("8"),
        _ => {
            s.append("9");
        },
    }
}

/// Append the decimal rendering of `n` to `s`.
pub fn push_decimal(s: &mut String, n: u16)
    ensures
        final(s)@ == old(s)@ + spec_dec_chars(n as nat),
    decreases n,
{
    if n >= 10 {
        push_decimal(s, n / 10);
    }
    push_digit(s, (n % 10) as u8);
}

} // verus!
