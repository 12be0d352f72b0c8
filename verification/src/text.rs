//! ASCII spellings of numbers, used to serialize a decoded target address
//! into the textual form that an outbound TCP connector accepts.

use vstd::prelude::*;
use vstd::utf8::is_leading_byte_width_1;
use vstd::utf8::partial_valid_utf8;
use vstd::utf8::partial_valid_utf8_extend_ascii_block;
use vstd::utf8::valid_utf8;

verus! {

/// The ASCII byte spelling a decimal digit value below ten.
pub open spec fn dec_digit(d: int) -> u8 {
    (48 + d) as u8
}

/// The shortest decimal spelling of a non-negative number, as ASCII bytes.
pub open spec fn dec_digits(n: int) -> Seq<u8>
    decreases n,
{
    if n < 10 {
        seq![dec_digit(n)]
    } else {
        dec_digits(n / 10) + seq![dec_digit(n % 10)]
    }
}

/// The ASCII byte spelling a lowercase hexadecimal digit value below sixteen.
pub open spec fn hex_digit(d: int) -> u8 {
    if d < 10 {
        (48 + d) as u8
    } else {
        (87 + d) as u8
    }
}

/// The shortest lowercase hexadecimal spelling of a non-negative number, as
/// ASCII bytes.
pub open spec fn hex_digits(n: int) -> Seq<u8>
    decreases n,
{
    if n < 16 {
        seq![hex_digit(n)]
    } else {
        hex_digits(n / 16) + seq![hex_digit(n % 16)]
    }
}

/// Appends the decimal spelling of `n` to `out`.
pub fn push_dec_u16(out: &mut Vec<u8>, n: u16)
    ensures
        final(out)@ == old(out)@ + dec_digits(n as int),
    decreases n,
{
    if n >= 10 {
        push_dec_u16(out, n / 10);
    }
    out.push((n % 10) as u8 + 48);
    proof {
        assert(out@ =~= old(out)@ + dec_digits(n as int));
    }
}

/// Appends the lowercase hexadecimal spelling of `n` to `out`.
pub fn push_hex_u16(out: &mut Vec<u8>, n: u16)
    ensures
        final(out)@ == old(out)@ + hex_digits(n as int),
    decreases n,
{
    if n >= 16 {
        push_hex_u16(out, n / 16);
    }
    let d: u8 = (n % 16) as u8;
    if d < 10 {
        out.push(d + 48);
    } else {
        out.push(d + 87);
    }
    proof {
        assert(out@ =~= old(out)@ + hex_digits(n as int));
    }
}

/// Every byte of a decimal spelling is ASCII.
pub proof fn lemma_dec_digits_ascii(n: int)
    requires
        0 <= n,
    ensures
        forall|i: int| 0 <= i < dec_digits(n).len() ==> dec_digits(n)[i] < 128,
    decreases n,
{
    if n >= 10 {
        lemma_dec_digits_ascii(n / 10);
        let s = dec_digits(n);
        let head = dec_digits(n / 10);
        assert forall|i: int| 0 <= i < s.len() implies s[i] < 128 by {
            if i < head.len() {
                assert(s[i] == head[i]);
            } else {
                assert(s[i] == dec_digit(n % 10));
            }
        }
    }
}

/// Every byte of a hexadecimal spelling is ASCII.
pub proof fn lemma_hex_digits_ascii(n: int)
    requires
        0 <= n,
    ensures
        forall|i: int| 0 <= i < hex_digits(n).len() ==> hex_digits(n)[i] < 128,
    decreases n,
{
    if n >= 16 {
        lemma_hex_digits_ascii(n / 16);
        let s = hex_digits(n);
        let head = hex_digits(n / 16);
        assert forall|i: int| 0 <= i < s.len() implies s[i] < 128 by {
            if i < head.len() {
                assert(s[i] == head[i]);
            } else {
                assert(s[i] == hex_digit(n % 16));
            }
        }
    }
}

/// A decimal spelling is valid UTF-8.
pub proof fn lemma_dec_digits_valid_utf8(n: int)
    requires
        0 <= n,
    ensures
        valid_utf8(dec_digits(n)),
{
    lemma_dec_digits_ascii(n);
    lemma_ascii_valid_utf8(dec_digits(n));
}

/// A hexadecimal spelling is valid UTF-8.
pub proof fn lemma_hex_digits_valid_utf8(n: int)
    requires
        0 <= n,
    ensures
        valid_utf8(hex_digits(n)),
{
    lemma_hex_digits_ascii(n);
    lemma_ascii_valid_utf8(hex_digits(n));
}

/// A single ASCII byte is valid UTF-8 on its own.
pub proof fn lemma_ascii1_valid_utf8(b: u8)
    requires
        b < 128,
    ensures
        valid_utf8(seq![b]),
{
    lemma_ascii_valid_utf8(seq![b]);
}

/// A sequence of ASCII bytes is valid UTF-8.
pub proof fn lemma_ascii_valid_utf8(s: Seq<u8>)
    requires
        forall|i: int| 0 <= i < s.len() ==> s[i] < 128,
    ensures
        valid_utf8(s),
{
    assert(s.subrange(0, 0) =~= Seq::<u8>::empty());
    assert(valid_utf8(s.subrange(0, 0)));
    assert(forall|i: int| 0 <= i < s.len() ==> #[trigger] is_leading_byte_width_1(s[i]));
    partial_valid_utf8_extend_ascii_block(s, 0, s.len() as int);
    assert(partial_valid_utf8(s, s.len() as int));
    assert(s.subrange(0, s.len() as int) =~= s);
}

} // verus!
