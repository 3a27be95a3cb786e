//! Elapsed times and the way they are written in the diagnostic tables.

use vstd::prelude::*;
use std::time::Duration;
use crate::text::push_chars;

verus! {

/// The length of a `Duration` in whole nanoseconds.
pub uninterp spec fn duration_nanos(d: Duration) -> u128;

/// Nanoseconds in one millisecond.
pub const NANOS_PER_MILLI: u128 = 1_000_000;

/// The length of a `Duration` in whole milliseconds.
pub open spec fn duration_millis(d: Duration) -> nat {
    (duration_nanos(d) / NANOS_PER_MILLI) as nat
}

/// Calls `Duration::as_nanos`, which returns the total number of nanoseconds
/// contained in the duration.
#[verifier::external_body]
pub(crate) fn nanos_of(d: &Duration) -> (nanos: u128)
    ensures
        nanos == duration_nanos(*d),
{
    d.as_nanos()
}

/// The character for a single decimal digit.
pub open spec fn digit(d: nat) -> char
    recommends
        d < 10,
{
    seq!['0', '1', '2', '3', '4', '5', '6', '7', '8', '9'][d as int]
}

/// A number written in decimal, without sign or leading zeros.
pub open spec fn decimal(n: nat) -> Seq<char>
    decreases n,
{
    if n < 10 {
        seq![digit(n)]
    } else {
        decimal(n / 10).push(digit(n % 10))
    }
}

/// How a number of whole milliseconds is shown: the number followed by `ms`,
/// or `<1ms` for anything shorter than one millisecond.
pub open spec fn millis_text(millis: nat) -> Seq<char> {
    if millis == 0 {
        seq!['<', '1', 'm', 's']
    } else {
        decimal(millis) + seq!['m', 's']
    }
}

fn digit_char(d: u128) -> (c: char)
    requires
        d < 10,
    ensures
        c == digit(d as nat),
{
    if d == 0 {
        '0'
    } else if d == 1 {
        '1'
    } else if d == 2 {
        '2'
    } else if d == 3 {
        '3'
    } else if d == 4 {
        '4'
    } else if d == 5 {
        '5'
    } else if d == 6 {
        '6'
    } else if d == 7 {
        '7'
    } else if d == 8 {
        '8'
    } else {
        '9'
    }
}

/// Writes `n` in decimal.
pub fn decimal_digits(n: u128) -> (digits: Vec<char>)
    ensures
        digits@ == decimal(n as nat),
{
    let mut digits: Vec<char> = Vec::new();
    let mut rest: u128 = n;
    while rest >= 10
        invariant
            decimal(n as nat) == decimal(rest as nat) + digits@,
        decreases rest,
    {
        let d = digit_char(rest % 10);
        digits.insert(0, d);
        proof {
            let before = rest as nat;
            assert(decimal(before) == decimal(before / 10).push(digit(before % 10)));
            assert(decimal(before / 10).push(d) + digits@.drop_first() =~= decimal(before / 10)
                + digits@);
        }
        rest = rest / 10;
    }
    let d = digit_char(rest);
    digits.insert(0, d);
    proof {
        assert(seq![d] + digits@.drop_first() =~= digits@);
    }
    digits
}

/// The text for a number of whole milliseconds.
pub fn format_millis(millis: u128) -> (text: String)
    ensures
        text@ == millis_text(millis as nat),
{
    let mut text = String::new();
    if millis == 0 {
        text.push('<');
        text.push('1');
        text.push('m');
        text.push('s');
        assert(text@ =~= millis_text(0));
    } else {
        let digits = decimal_digits(millis);
        push_chars(&mut text, &digits);
        text.push('m');
        text.push('s');
        assert(text@ =~= millis_text(millis as nat));
    }
    text
}

/// The text for an elapsed time, in whole milliseconds.
pub fn format_duration(duration: &Duration) -> (text: String)
    ensures
        text@ == millis_text(duration_millis(*duration)),
{
    format_millis(nanos_of(duration) / NANOS_PER_MILLI)
}

} // verus!
