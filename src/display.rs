//! Text shown to listeners.

use vstd::prelude::*;
use crate::text::{decimal, push_char, push_decimal};

verus! {

/// At least two digits: a leading zero below ten.
pub open spec fn two_digits(n: nat) -> Seq<char> {
    if n < 10 {
        seq!['0'] + decimal(n)
    } else {
        decimal(n)
    }
}

fn push_two_digits(s: &mut String, n: u64)
    ensures
        final(s)@ == old(s)@ + two_digits(n as nat),
{
    if n < 10 {
        push_char(s, '0');
        push_decimal(s, n);
        assert(final(s)@ =~= old(s)@ + two_digits(n as nat));
    } else {
        push_decimal(s, n);
    }
}

/// `HH:MM:SS` for a length in whole seconds; the hours take more digits past 99.
pub open spec fn clock_text(seconds: nat) -> Seq<char> {
    two_digits(seconds / 3600) + seq![':'] + two_digits((seconds / 60) % 60) + seq![':']
        + two_digits(seconds % 60)
}

/// Formats a length in whole seconds as `HH:MM:SS`.
pub fn duration_formatter(seconds: u64) -> (r: String)
    ensures
        r@ == clock_text(seconds as nat),
{
    let mut s = String::new();
    push_two_digits(&mut s, seconds / 3600);
    push_char(&mut s, ':');
    push_two_digits(&mut s, (seconds / 60) % 60);
    push_char(&mut s, ':');
    push_two_digits(&mut s, seconds % 60);
    assert(s@ =~= clock_text(seconds as nat));
    s
}

} // verus!
