//! Log-line timekeeping: turning a wall-clock reading into the `HH:MM:SS`
//! stamp that prefixes each log line. The clock itself is the binary's to
//! read; the formatting of whatever it read is verified here.

use vstd::prelude::*;

verus! {

/// The decimal digit character for one digit value.
pub open spec fn digit_char(d: int) -> char {
    if d == 0 {
        '0'
    } else if d == 1 {
        '1'
    } else if d == 2 {
        '2'
    } else if d == 3 {
        '3'
    } else if d == 4 {
        '4'
    } else if d == 5 {
        '5'
    } else if d == 6 {
        '6'
    } else if d == 7 {
        '7'
    } else if d == 8 {
        '8'
    } else {
        '9'
    }
}

/// A value under 100 as exactly two decimal digits, zero-padded.
pub open spec fn two_digits(n: int) -> Seq<char> {
    seq![digit_char(n / 10), digit_char(n % 10)]
}

/// The `HH:MM:SS` stamp for a number of seconds since the epoch: the time of
/// day it falls on, each part zero-padded to two digits.
pub open spec fn timestamp_chars(secs: u64) -> Seq<char> {
    two_digits(((secs as int) / 3600) % 24) + seq![':'] + two_digits(((secs as int) / 60) % 60)
        + seq![':'] + two_digits((secs as int) % 60)
}

/// The digit character for one digit value.
fn digit_of(d: u64) -> (c: char)
    requires
        d < 10,
    ensures
        c == digit_char(d as int),
{
    if d == 0 {
        '0'
    } else if d == 1 {
        '1'
    } else if d == 2 {
        '2'
    } else if d == 3 {
        '3'
    } else if d == 4 {
        '4'
    } else if d == 5 {
        '5'
    } else if d == 6 {
        '6'
    } else if d == 7 {
        '7'
    } else if d == 8 {
        '8'
    } else {
        '9'
    }
}

/// Append a value under 100 as two zero-padded digits.
fn push_two_digits(out: &mut String, n: u64)
    requires
        n < 100,
    ensures
        final(out)@ == old(out)@ + two_digits(n as int),
{
    out.push(digit_of(n / 10));
    out.push(digit_of(n % 10));
    assert(out@ =~= old(out)@ + two_digits(n as int));
}

/// The `HH:MM:SS` stamp for a wall-clock reading in seconds since the epoch.
pub fn timestamp(secs: u64) -> (r: String)
    ensures
        r@ == timestamp_chars(secs),
{
    let hours = (secs / 3600) % 24;
    let mins = (secs / 60) % 60;
    let s = secs % 60;
    let mut out = String::new();
    push_two_digits(&mut out, hours);
    out.push(':');
    push_two_digits(&mut out, mins);
    out.push(':');
    push_two_digits(&mut out, s);
    assert(out@ =~= timestamp_chars(secs));
    out
}

} // verus!
