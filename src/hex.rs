use vstd::prelude::*;

use crate::text::push_char;

verus! {

/// The lowercase hexadecimal digit of a value below sixteen.
pub open spec fn hex_digit(d: nat) -> char {
    if d < 10 {
        (48 + d) as char
    } else {
        (87 + d) as char
    }
}

/// `n` in lowercase hexadecimal, padded with leading zeros to at least `w`
/// digits; digits beyond `w` are kept, so nothing is ever cut off. Zero with
/// no width is the empty text.
pub open spec fn hex_pad(n: nat, w: nat) -> Seq<char>
    decreases n, w,
{
    if n == 0 && w == 0 {
        Seq::empty()
    } else {
        hex_pad(n / 16, if w > 0 { (w - 1) as nat } else { 0 }).push(hex_digit(n % 16))
    }
}

/// Sixteen to the power `w`.
pub open spec fn pow16(w: nat) -> nat
    decreases w,
{
    if w == 0 {
        1
    } else {
        16 * pow16((w - 1) as nat)
    }
}

/// A value below `16^w` takes exactly `w` digits.
pub proof fn lemma_hex_pad_len(n: nat, w: nat)
    requires
        n < pow16(w),
    ensures
        hex_pad(n, w).len() == w,
    decreases n, w,
{
    if n == 0 && w == 0 {
    } else {
        assert(w > 0) by {
            if w == 0 {
                assert(pow16(0) == 1);
            }
        }
        assert(n / 16 < pow16((w - 1) as nat)) by {
            assert(pow16(w) == 16 * pow16((w - 1) as nat));
        }
        lemma_hex_pad_len(n / 16, (w - 1) as nat);
    }
}

/// The digit for a value below sixteen.
pub fn hex_digit_char(d: u8) -> (c: char)
    requires
        d < 16,
    ensures
        c == hex_digit(d as nat),
{
    if d < 10 {
        (48 + d) as char
    } else {
        (87 + d) as char
    }
}

/// Appends `n` in lowercase hexadecimal, zero-padded to at least `w` digits.
pub fn push_hex(out: &mut String, n: u64, w: u64)
    ensures
        final(out)@ == old(out)@ + hex_pad(n as nat, w as nat),
    decreases n, w,
{
    if n == 0 && w == 0 {
        assert(old(out)@ + hex_pad(0, 0) == old(out)@);
        return;
    }
    let rest_w: u64 = if w > 0 { w - 1 } else { 0 };
    push_hex(out, n / 16, rest_w);
    push_char(out, hex_digit_char((n % 16) as u8));
    assert(old(out)@ + hex_pad(n as nat, w as nat) == old(out)@ + hex_pad(
        (n / 16) as nat,
        rest_w as nat,
    ) + seq![hex_digit((n % 16) as nat)]);
}

} // verus!
