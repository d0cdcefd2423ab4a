use vstd::prelude::*;

use crate::text::push_char;

verus! {

/// A byte read as a code point in 0..=255 is a control character when it
/// lies in the C0 range, is DEL, or lies in the C1 range.
pub open spec fn is_control_byte(b: u8) -> bool {
    b <= 0x1f || (0x7f <= b && b <= 0x9f)
}

/// What a byte shows in the printable column.
pub open spec fn printable_of(b: u8) -> char {
    if is_control_byte(b) {
        '.'
    } else {
        b as char
    }
}

/// The printable column for a sequence of bytes, one character per byte.
pub open spec fn printable_seq(bytes: Seq<u8>) -> Seq<char> {
    bytes.map_values(|b: u8| printable_of(b))
}

/// The character that a byte shows in the printable column.
pub fn printable_char(b: u8) -> (c: char)
    ensures
        c == printable_of(b),
{
    if b <= 0x1f || (0x7f <= b && b <= 0x9f) {
        '.'
    } else {
        b as char
    }
}

/// Renders bytes as text, each byte as the character of the same code
/// point, with `.` for control characters.
pub fn to_printable_chars(arr: &[u8]) -> (content: String)
    ensures
        content@ == printable_seq(arr@),
{
    let mut content = String::new();
    let mut i: usize = 0;
    while i < arr.len()
        invariant
            i <= arr@.len(),
            content@ == printable_seq(arr@.take(i as int)),
        decreases arr@.len() - i,
    {
        push_char(&mut content, printable_char(arr[i]));
        i = i + 1;
        assert(arr@.take(i as int) == arr@.take(i - 1 as int).push(arr@[i - 1 as int]));
    }
    assert(arr@.take(i as int) == arr@);
    content
}

} // verus!
