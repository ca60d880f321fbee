//! Field escaping for line-oriented output: a tab becomes `\t`, a newline
//! becomes `\n`, every other byte is copied.

use vstd::prelude::*;
use vstd::utf8::encode_utf8;

verus! {

pub const TAB: u8 = 9;

pub const NEWLINE: u8 = 10;

pub const BACKSLASH: u8 = 92;

pub const LETTER_T: u8 = 116;

pub const LETTER_N: u8 = 110;

/// The bytes written for one byte of a field.
pub open spec fn escape_byte(b: u8) -> Seq<u8> {
    if b == TAB {
        seq![BACKSLASH, LETTER_T]
    } else if b == NEWLINE {
        seq![BACKSLASH, LETTER_N]
    } else {
        seq![b]
    }
}

/// The escaped form of a whole field.
pub open spec fn escape_bytes(s: Seq<u8>) -> Seq<u8>
    decreases s.len(),
{
    if s.len() == 0 {
        Seq::empty()
    } else {
        escape_byte(s[0]) + escape_bytes(s.subrange(1, s.len() as int))
    }
}

/// Reads an escaped field back: `\t` and `\n` become a tab and a newline,
/// every other byte is copied.
pub open spec fn unescape_bytes(e: Seq<u8>) -> Seq<u8>
    decreases e.len(),
{
    if e.len() == 0 {
        Seq::empty()
    } else if e.len() >= 2 && e[0] == BACKSLASH && e[1] == LETTER_T {
        seq![TAB] + unescape_bytes(e.subrange(2, e.len() as int))
    } else if e.len() >= 2 && e[0] == BACKSLASH && e[1] == LETTER_N {
        seq![NEWLINE] + unescape_bytes(e.subrange(2, e.len() as int))
    } else {
        seq![e[0]] + unescape_bytes(e.subrange(1, e.len() as int))
    }
}

/// A field in which no backslash is directly followed by `t` or `n`, so that
/// its escaped form cannot be mistaken for an escape sequence.
pub open spec fn has_no_escape_lookalike(s: Seq<u8>) -> bool {
    forall|i: int|
        0 <= i < s.len() - 1 && #[trigger] s[i] == BACKSLASH ==> s[i + 1] != LETTER_T && s[i + 1]
            != LETTER_N
}

/// Escaping and then decoding gives back the field, byte for byte, for every
/// field in which no backslash is directly followed by `t` or `n`.
pub proof fn lemma_escape_round_trip(s: Seq<u8>)
    requires
        has_no_escape_lookalike(s),
    ensures
        unescape_bytes(escape_bytes(s)) == s,
    decreases s.len(),
{
    if s.len() > 0 {
        let r = s.subrange(1, s.len() as int);
        assert(has_no_escape_lookalike(r)) by {
            assert forall|i: int|
                0 <= i < r.len() - 1 && #[trigger] r[i] == BACKSLASH implies r[i + 1] != LETTER_T
                && r[i + 1] != LETTER_N by {
                assert(s[i + 1] == r[i]);
            }
        }
        lemma_escape_round_trip(r);
        let e = escape_bytes(s);
        let er = escape_bytes(r);
        assert(e == escape_byte(s[0]) + er);
        if s[0] == TAB || s[0] == NEWLINE {
            assert(e.subrange(2, e.len() as int) =~= er);
        } else {
            assert(e.subrange(1, e.len() as int) =~= er);
            if s[0] == BACKSLASH && r.len() > 0 {
                assert(s[1] == r[0]);
                assert(er == escape_byte(r[0]) + escape_bytes(r.subrange(1, r.len() as int)));
                assert(e[1] == er[0]);
            }
        }
        assert(unescape_bytes(e) =~= s);
    }
}

/// Writes the escaped form of `field` into `bytes`, replacing what it held.
pub fn encode_field(field: &str, bytes: &mut Vec<u8>)
    ensures
        final(bytes)@ == escape_bytes(encode_utf8(field@)),
{
    bytes.clear();
    let src = field.as_bytes();
    let n = src.len();
    let mut i: usize = 0;
    assert(src@.subrange(0, n as int) =~= src@);
    assert(bytes@ + escape_bytes(src@) =~= escape_bytes(src@));
    while i < n
        invariant
            n == src@.len(),
            src@ == encode_utf8(field@),
            i <= n,
            bytes@ + escape_bytes(src@.subrange(i as int, n as int)) == escape_bytes(src@),
        decreases n - i,
    {
        let ghost rest = src@.subrange(i as int, n as int);
        assert(rest.subrange(1, rest.len() as int) =~= src@.subrange(i + 1, n as int));
        let b = src[i];
        if b == TAB {
            bytes.push(BACKSLASH);
            bytes.push(LETTER_T);
        } else if b == NEWLINE {
            bytes.push(BACKSLASH);
            bytes.push(LETTER_N);
        } else {
            bytes.push(b);
        }
        i = i + 1;
        assert(bytes@ + escape_bytes(src@.subrange(i as int, n as int)) =~= escape_bytes(src@));
    }
    assert(src@.subrange(n as int, n as int) =~= Seq::<u8>::empty());
    assert(bytes@ =~= escape_bytes(src@));
}

/// Decodes an escaped field.
pub fn decode_field(escaped: &[u8]) -> (r: Vec<u8>)
    ensures
        r@ == unescape_bytes(escaped@),
{
    let mut out: Vec<u8> = Vec::new();
    let n = escaped.len();
    let mut i: usize = 0;
    assert(escaped@.subrange(0, n as int) =~= escaped@);
    assert(out@ + unescape_bytes(escaped@) =~= unescape_bytes(escaped@));
    while i < n
        invariant
            n == escaped@.len(),
            i <= n,
            out@ + unescape_bytes(escaped@.subrange(i as int, n as int)) == unescape_bytes(
                escaped@,
            ),
        decreases n - i,
    {
        let ghost rest = escaped@.subrange(i as int, n as int);
        let b = escaped[i];
        if b == BACKSLASH && i + 1 < n && escaped[i + 1] == LETTER_T {
            assert(rest.subrange(2, rest.len() as int) =~= escaped@.subrange(i + 2, n as int));
            out.push(TAB);
            i = i + 2;
        } else if b == BACKSLASH && i + 1 < n && escaped[i + 1] == LETTER_N {
            assert(rest.subrange(2, rest.len() as int) =~= escaped@.subrange(i + 2, n as int));
            out.push(NEWLINE);
            i = i + 2;
        } else {
            assert(rest.subrange(1, rest.len() as int) =~= escaped@.subrange(i + 1, n as int));
            out.push(b);
            i = i + 1;
        }
        assert(out@ + unescape_bytes(escaped@.subrange(i as int, n as int)) =~= unescape_bytes(
            escaped@,
        ));
    }
    assert(escaped@.subrange(n as int, n as int) =~= Seq::<u8>::empty());
    assert(out@ =~= unescape_bytes(escaped@));
    out
}

} // verus!
