//! The characters a dump is made of: hexadecimal digits and the ASCII column.

use vstd::prelude::*;

verus! {

/// The upper-case hexadecimal digit for a value below sixteen.
pub open spec fn hex_digit(nibble: int) -> char {
    seq!['0', '1', '2', '3', '4', '5', '6', '7', '8', '9', 'A', 'B', 'C', 'D', 'E', 'F'][nibble]
}

/// Whether a byte is a printable ASCII character other than the space.
pub open spec fn is_graphic(byte: u8) -> bool {
    0x21 <= byte <= 0x7E
}

/// The character that stands for a byte in the ASCII column: the byte itself
/// where it is graphic, a dot for everything else.
pub open spec fn ascii_glyph(byte: u8) -> char {
    if is_graphic(byte) {
        byte as char
    } else {
        '.'
    }
}

/// The ASCII column for a run of bytes: one glyph per byte, in order.
pub open spec fn ascii_text(bytes: Seq<u8>) -> Seq<char> {
    bytes.map_values(|byte: u8| ascii_glyph(byte))
}

/// Computes the upper-case hexadecimal digit of `nibble`.
pub fn to_hex_digit(nibble: u8) -> (digit: char)
    requires
        nibble < 16,
    ensures
        digit == hex_digit(nibble as int),
{
    if nibble < 10 {
        (0x30u8 + nibble) as char
    } else {
        (0x41u8 + (nibble - 10)) as char
    }
}

/// Computes the glyph that stands for `byte` in the ASCII column.
pub fn to_ascii_glyph(byte: u8) -> (glyph: char)
    ensures
        glyph == ascii_glyph(byte),
{
    if 0x21 <= byte && byte <= 0x7E {
        byte as char
    } else {
        '.'
    }
}

/// Appends the ASCII column for `buf` to `out`: each graphic byte as itself,
/// every other byte as a dot.
pub fn write_ascii(out: &mut String, buf: &[u8])
    ensures
        final(out)@ == old(out)@ + ascii_text(buf@),
{
    let mut i: usize = 0;
    while i < buf.len()
        invariant
            i <= buf.len(),
            out@ == old(out)@ + ascii_text(buf@.take(i as int)),
        decreases buf.len() - i,
    {
        out.push(to_ascii_glyph(buf[i]));
        i += 1;
    }
}

/// The placeholder rule of the ASCII column. A byte from `0x21` to `0x7E` is
/// shown as the character with that code. Every other byte, which covers the
/// control bytes, the space, `0x7F` and everything from `0x80` up, is shown as
/// a dot. No glyph is ever a blank or a line break.
pub proof fn lemma_placeholder_rule(byte: u8)
    ensures
        0x21 <= byte <= 0x7E ==> ascii_glyph(byte) == byte as char,
        byte <= 0x20 || byte >= 0x7F ==> ascii_glyph(byte) == '.',
        byte == 0x00 || byte == 0x09 || byte == 0x0A || byte == 0x20 || byte == 0x7F || byte
            >= 0x80 ==> ascii_glyph(byte) == '.',
        ascii_glyph(byte) != ' ',
        ascii_glyph(byte) != '\n',
{
}

} // verus!
