//! Decimal rendering of integers, as bytes and as text.

use vstd::prelude::*;

verus! {

/// The ASCII digits of `n`, most significant first, without leading zeros.
pub open spec fn decimal(n: nat) -> Seq<u8>
    decreases n,
{
    if n < 10 {
        seq![(48 + n) as u8]
    } else {
        decimal(n / 10) + seq![(48 + n % 10) as u8]
    }
}

/// The ASCII rendering of a signed integer: a minus sign before the digits of
/// a negative one.
pub open spec fn signed_decimal(n: int) -> Seq<u8> {
    if n < 0 {
        seq![45u8] + decimal((-n) as nat)
    } else {
        decimal(n as nat)
    }
}

/// The digits of `n` as characters.
pub open spec fn decimal_chars(n: nat) -> Seq<char> {
    decimal(n).map_values(|b: u8| b as char)
}

/// Appends the decimal digits of `n` to `out`.
pub fn push_decimal(n: u64, out: &mut Vec<u8>)
    ensures
        final(out)@ == old(out)@ + decimal(n as nat),
    decreases n,
{
    if n >= 10 {
        push_decimal(n / 10, out);
    }
    let d = (n % 10) as u8;
    out.push(48 + d);
    assert(final(out)@ =~= old(out)@ + decimal(n as nat));
}

/// The decimal rendering of an unsigned integer.
pub fn decimal_bytes(n: u64) -> (r: Vec<u8>)
    ensures
        r@ == decimal(n as nat),
{
    let mut out: Vec<u8> = Vec::new();
    push_decimal(n, &mut out);
    assert(out@ =~= decimal(n as nat));
    out
}

/// The decimal rendering of a signed integer.
pub fn signed_decimal_bytes(n: i64) -> (r: Vec<u8>)
    ensures
        r@ == signed_decimal(n as int),
{
    let mut out: Vec<u8> = Vec::new();
    if n < 0 {
        out.push(45u8);
        let m: u64 = ((-(n + 1)) as u64) + 1;
        push_decimal(m, &mut out);
        assert(out@ =~= signed_decimal(n as int));
    } else {
        push_decimal(n as u64, &mut out);
        assert(out@ =~= signed_decimal(n as int));
    }
    out
}

/// The one-character text of a decimal digit.
fn digit_text(d: u64) -> (r: &'static str)
    requires
        d < 10,
    ensures
        r@ == seq![(48 + d) as u8 as char],
{
    proof {
        reveal_strlit("0");
        reveal_strlit("1");
        reveal_strlit("2");
        reveal_strlit("3");
        reveal_strlit("4");
        reveal_strlit("5");
        reveal_strlit("6");
        reveal_strlit("7");
        reveal_strlit("8");
        reveal_strlit("9");
    }
    let r = match d {
        0 => "0",
        1 => "1",
        2 => "2",
        3 => "3",
        4 => "4",
        5 => "5",
        6 => "6",
        7 => "7",
        8 => "8",
        _ => "9",
    };
    assert(r@ =~= seq![(48 + d) as u8 as char]);
    r
}

/// Appends the decimal digits of `n` to a text.
pub fn push_decimal_text(n: u64, out: &mut String)
    ensures
        final(out)@ == old(out)@ + decimal_chars(n as nat),
    decreases n,
{
    if n >= 10 {
        push_decimal_text(n / 10, out);
    }
    out.append(digit_text(n % 10));
    assert(decimal(n as nat).map_values(|b: u8| b as char) =~= if n >= 10 {
        decimal((n / 10) as nat).map_values(|b: u8| b as char) + seq![(48 + n % 10) as u8 as char]
    } else {
        seq![(48 + n % 10) as u8 as char]
    });
    assert(final(out)@ =~= old(out)@ + decimal_chars(n as nat));
}

} // verus!
