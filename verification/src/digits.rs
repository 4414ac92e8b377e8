//! Decimal rendering of unsigned numbers, used for the priority token, the
//! protocol version, the `syncAccuracy` parameter and the RFC 5425 byte-count
//! prefix.

use vstd::prelude::*;

verus! {

/// The ASCII digit character for `d`, which is expected to be below ten.
pub open spec fn dec_digit(d: nat) -> char
    recommends
        d < 10,
{
    ((0x30 + d) as u8) as char
}

/// The decimal rendering of `n`: most significant digit first, no padding,
/// never empty (zero renders as a single `0`).
pub open spec fn dec_chars(n: nat) -> Seq<char>
    decreases n,
{
    if n < 10 {
        seq![dec_digit(n)]
    } else {
        dec_chars(n / 10) + seq![dec_digit(n % 10)]
    }
}

/// True when `c` is an ASCII decimal digit.
pub open spec fn is_dec_digit(c: char) -> bool {
    0x30 <= c as u32 <= 0x39
}

/// The numeric value denoted by a sequence of ASCII decimal digits,
/// most significant digit first.
pub open spec fn dec_val(s: Seq<char>) -> nat
    decreases s.len(),
{
    if s.len() == 0 {
        0
    } else {
        dec_val(s.drop_last()) * 10 + ((s.last() as u32 - 0x30) as nat)
    }
}

/// A decimal rendering is non-empty, consists of digit characters only, and
/// denotes exactly the number it was made from.
pub proof fn lemma_dec_chars_val(n: nat)
    ensures
        dec_chars(n).len() >= 1,
        forall|i: int| 0 <= i < dec_chars(n).len() ==> is_dec_digit(#[trigger] dec_chars(n)[i]),
        dec_val(dec_chars(n)) == n,
    decreases n,
{
    if n < 10 {
        let s = seq![dec_digit(n)];
        assert(s.drop_last() =~= Seq::<char>::empty());
        assert(dec_digit(n) as u32 == 0x30 + n);
        assert(dec_val(s.drop_last()) == 0);
        assert(s.last() == dec_digit(n));
        assert(dec_val(s) == dec_val(s.drop_last()) * 10 + ((s.last() as u32 - 0x30) as nat));
        assert(dec_val(s) == n);
    } else {
        lemma_dec_chars_val(n / 10);
        let s = dec_chars(n);
        assert(s.drop_last() =~= dec_chars(n / 10));
        assert(s.last() == dec_digit(n % 10));
        assert(dec_val(s) == (n / 10) * 10 + n % 10);
        assert((n / 10) * 10 + n % 10 == n) by (nonlinear_arith);
    }
}

/// The exec counterpart of [`dec_chars`]: appends the decimal rendering of
/// `n` to `out`.
pub fn push_dec(out: &mut String, n: usize)
    ensures
        final(out)@ == old(out)@ + dec_chars(n as nat),
    decreases n,
{
    if n < 10 {
        let d: u8 = 0x30 + (n as u8);
        out.push(d as char);
    } else {
        push_dec(out, n / 10);
        let d: u8 = 0x30 + ((n % 10) as u8);
        out.push(d as char);
        proof {
            assert(old(out)@ + dec_chars((n / 10) as nat) + seq![dec_digit((n % 10) as nat)]
                =~= old(out)@ + dec_chars(n as nat));
        }
    }
}

/// A character in the decimal-digit range is an ASCII character.
pub proof fn lemma_digit_char_ascii(c: char)
    requires
        0x30 <= c as u32 <= 0x39,
    ensures
        '\0' <= c <= '\u{7f}',
{
}
} // verus!
