//! Short human-readable durations, such as ` 5s`, ` 3m07s` or `2d4h05m00s`.

use vstd::prelude::*;
use std::time::Duration;
use crate::decimal::{decimal_chars, push_decimal_text};

verus! {

/// A number padded with a space to two characters.
pub open spec fn space_padded(n: nat) -> Seq<char> {
    if n < 10 {
        seq![' '] + decimal_chars(n)
    } else {
        decimal_chars(n)
    }
}

/// A number padded with a zero to two characters.
pub open spec fn zero_padded(n: nat) -> Seq<char> {
    if n < 10 {
        seq!['0'] + decimal_chars(n)
    } else {
        decimal_chars(n)
    }
}

/// The text of a duration of `sec` whole seconds.
pub open spec fn time_text(sec: nat) -> Seq<char> {
    if sec < 60 {
        space_padded(sec) + seq!['s']
    } else {
        let min = sec / 60;
        let s = sec % 60;
        if min < 60 {
            space_padded(min) + seq!['m'] + zero_padded(s) + seq!['s']
        } else {
            let hr = min / 60;
            let m = min % 60;
            if hr < 24 {
                decimal_chars(hr) + seq!['h'] + zero_padded(m) + seq!['m'] + zero_padded(s) + seq![
                    's',
                ]
            } else {
                decimal_chars(hr / 24) + seq!['d'] + decimal_chars(hr % 24) + seq!['h']
                    + zero_padded(m) + seq!['m'] + zero_padded(s) + seq!['s']
            }
        }
    }
}

fn push_text(out: &mut String, t: &str)
    ensures
        final(out)@ == old(out)@ + t@,
{
    out.append(t);
}

fn push_space_padded(out: &mut String, n: u64)
    ensures
        final(out)@ == old(out)@ + space_padded(n as nat),
{
    if n < 10 {
        proof {
            reveal_strlit(" ");
        }
        push_text(out, " ");
    }
    push_decimal_text(n, out);
    assert(final(out)@ =~= old(out)@ + space_padded(n as nat));
}

fn push_zero_padded(out: &mut String, n: u64)
    ensures
        final(out)@ == old(out)@ + zero_padded(n as nat),
{
    if n < 10 {
        proof {
            reveal_strlit("0");
        }
        push_text(out, "0");
    }
    push_decimal_text(n, out);
    assert(final(out)@ =~= old(out)@ + zero_padded(n as nat));
}

/// The text of a duration given in whole seconds.
pub fn format_seconds(sec: u64) -> (r: String)
    ensures
        r@ == time_text(sec as nat),
{
    proof {
        reveal_strlit("s");
        reveal_strlit("m");
        reveal_strlit("h");
        reveal_strlit("d");
    }
    let mut out = String::new();
    if sec < 60 {
        push_space_padded(&mut out, sec);
        push_text(&mut out, "s");
    } else {
        let min = sec / 60;
        let s = sec % 60;
        if min < 60 {
            push_space_padded(&mut out, min);
            push_text(&mut out, "m");
            push_zero_padded(&mut out, s);
            push_text(&mut out, "s");
        } else {
            let hr = min / 60;
            let m = min % 60;
            if hr < 24 {
                push_decimal_text(hr, &mut out);
                push_text(&mut out, "h");
            } else {
                push_decimal_text(hr / 24, &mut out);
                push_text(&mut out, "d");
                push_decimal_text(hr % 24, &mut out);
                push_text(&mut out, "h");
            }
            push_zero_padded(&mut out, m);
            push_text(&mut out, "m");
            push_zero_padded(&mut out, s);
            push_text(&mut out, "s");
        }
    }
    assert(out@ =~= time_text(sec as nat));
    out
}

/// Relies on `Duration::as_secs`: the whole seconds of a duration.
#[verifier::external_body]
fn whole_seconds(d: &Duration) -> (r: u64) {
    d.as_secs()
}

/// Relies on `Duration::subsec_nanos`: the nanoseconds past the whole
/// seconds, always below one billion.
#[verifier::external_body]
fn nanos_past_second(d: &Duration) -> (r: u32)
    ensures
        r < 1_000_000_000,
{
    d.subsec_nanos()
}

/// Whole seconds rounded from a number of seconds and nanoseconds, halves up.
pub open spec fn rounded_seconds(secs: u64, nanos: u32) -> u64 {
    if nanos >= 500_000_000 && secs < u64::MAX {
        (secs + 1) as u64
    } else {
        secs
    }
}

/// The text of a duration, rounded to whole seconds.
pub fn format_time(duration: &Duration) -> (r: String)
    ensures
        exists|secs: u64, nanos: u32| r@ == time_text(rounded_seconds(secs, nanos) as nat),
{
    let secs = whole_seconds(duration);
    let nanos = nanos_past_second(duration);
    let rounded = if nanos >= 500_000_000 && secs < u64::MAX {
        secs + 1
    } else {
        secs
    };
    let r = format_seconds(rounded);
    assert(r@ == time_text(rounded_seconds(secs, nanos) as nat));
    r
}

} // verus!
