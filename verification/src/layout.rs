//! The shape of a dump, as a sequence of pieces, and the text those pieces
//! stand for.
//!
//! A dump is laid out in two steps. [`layout`] decides which pieces appear in
//! which order: where lines break, where words are separated, how much a short
//! line is padded. [`render`] turns each piece into its characters. The text of
//! a dump, [`dump_text`], is the rendering of its layout.

use vstd::prelude::*;
use crate::glyph::{ascii_glyph, ascii_text, hex_digit};

verus! {

/// One element of a dump.
pub enum Piece {
    /// The line break in front of every line of words.
    Break,
    /// The separator in front of every word, and behind the prefix.
    Bar,
    /// One byte as a blank and two hexadecimal digits.
    Hex(u8),
    /// One blank of the padding behind a short line.
    Blank,
    /// The delimiter in front of a line's ASCII column.
    Column,
    /// One byte in the ASCII column.
    Glyph(u8),
}

/// Whether `align` can be used as a word size: a line holds `32 / align`
/// words, and it has to hold at least one.
pub open spec fn valid_align(align: nat) -> bool {
    1 <= align <= 32
}

/// The number of words on a full line.
pub open spec fn words_per_line(align: nat) -> nat {
    32nat / align
}

/// The number of bytes on a full line.
pub open spec fn line_len(align: nat) -> nat {
    align * words_per_line(align)
}

/// The number of blanks that stand in for `fill` missing bytes: three for
/// each byte, and two more for each whole word among them.
pub open spec fn pad_width(fill: nat, align: nat) -> nat {
    3 * fill + 2 * (fill / align)
}

/// The characters of one piece.
pub open spec fn piece_text(piece: Piece) -> Seq<char> {
    match piece {
        Piece::Break => seq!['\n'],
        Piece::Bar => seq![' ', '|'],
        Piece::Hex(byte) => seq![' ', hex_digit(byte as int / 16), hex_digit(byte as int % 16)],
        Piece::Blank => seq![' '],
        Piece::Column => seq![' ', '|', ' '],
        Piece::Glyph(byte) => seq![ascii_glyph(byte)],
    }
}

/// The characters of a sequence of pieces, one piece after the other.
pub open spec fn render(pieces: Seq<Piece>) -> Seq<char>
    decreases pieces.len(),
{
    if pieces.len() == 0 {
        Seq::empty()
    } else {
        render(pieces.drop_last()) + piece_text(pieces.last())
    }
}

/// A run of bytes in hexadecimal, without separators.
pub open spec fn hex_pieces(bytes: Seq<u8>) -> Seq<Piece> {
    bytes.map_values(|byte: u8| Piece::Hex(byte))
}

/// A run of bytes in the ASCII column.
pub open spec fn glyph_pieces(bytes: Seq<u8>) -> Seq<Piece> {
    bytes.map_values(|byte: u8| Piece::Glyph(byte))
}

/// A run of `count` blanks.
pub open spec fn blank_pieces(count: nat) -> Seq<Piece> {
    Seq::new(count, |i: int| Piece::Blank)
}

/// The bytes of a line in hexadecimal, cut into words of `align` bytes, each
/// word behind a separator. The last word may be shorter.
pub open spec fn word_pieces(line: Seq<u8>, align: nat) -> Seq<Piece>
    decreases line.len(),
{
    if line.len() == 0 || align == 0 {
        Seq::empty()
    } else if line.len() <= align {
        seq![Piece::Bar] + hex_pieces(line)
    } else {
        seq![Piece::Bar] + hex_pieces(line.take(align as int)) + word_pieces(
            line.skip(align as int),
            align,
        )
    }
}

/// One line of the dump: the line break, the words, the padding that brings a
/// short line to full width, the delimiter, and the ASCII column of the whole
/// line.
pub open spec fn line_pieces(line: Seq<u8>, align: nat) -> Seq<Piece> {
    seq![Piece::Break] + word_pieces(line, align) + blank_pieces(
        pad_width((line_len(align) - line.len()) as nat, align),
    ) + seq![Piece::Column] + glyph_pieces(line)
}

/// The aligned part of the buffer, cut into lines of `line_len(align)` bytes.
/// The last line may be shorter.
pub open spec fn body_pieces(rest: Seq<u8>, align: nat) -> Seq<Piece>
    decreases rest.len(),
{
    if rest.len() == 0 || line_len(align) == 0 {
        Seq::empty()
    } else if rest.len() <= line_len(align) {
        line_pieces(rest, align)
    } else {
        line_pieces(rest.take(line_len(align) as int), align) + body_pieces(
            rest.skip(line_len(align) as int),
            align,
        )
    }
}

/// The unaligned bytes in front of the first word: a flat run in hexadecimal,
/// one separator, and their ASCII column directly behind it. Nothing at all
/// where there are no such bytes.
pub open spec fn prefix_pieces(pre: Seq<u8>) -> Seq<Piece> {
    if pre.len() == 0 {
        Seq::empty()
    } else {
        hex_pieces(pre) + seq![Piece::Bar] + glyph_pieces(pre)
    }
}

/// The number of leading bytes that form the unaligned prefix: the alignment
/// offset, but never more than the buffer holds.
pub open spec fn prefix_len(len: nat, alignment_offset: nat) -> nat {
    if alignment_offset < len {
        alignment_offset
    } else {
        len
    }
}

/// The pieces of a whole dump: the prefix, then the lines of words.
pub open spec fn layout(bytes: Seq<u8>, align: nat, alignment_offset: nat) -> Seq<Piece> {
    let split = prefix_len(bytes.len(), alignment_offset) as int;
    prefix_pieces(bytes.take(split)) + body_pieces(bytes.skip(split), align)
}

/// The text of a whole dump.
pub open spec fn dump_text(bytes: Seq<u8>, align: nat, alignment_offset: nat) -> Seq<char> {
    render(layout(bytes, align, alignment_offset))
}

/// The bytes that a sequence of pieces shows in hexadecimal, in the order in
/// which they appear.
pub open spec fn hex_bytes(pieces: Seq<Piece>) -> Seq<u8>
    decreases pieces.len(),
{
    if pieces.len() == 0 {
        Seq::empty()
    } else {
        match pieces.last() {
            Piece::Hex(byte) => hex_bytes(pieces.drop_last()).push(byte),
            _ => hex_bytes(pieces.drop_last()),
        }
    }
}

/// The bytes that a sequence of pieces shows in the ASCII column, in the order
/// in which they appear.
pub open spec fn glyph_bytes(pieces: Seq<Piece>) -> Seq<u8>
    decreases pieces.len(),
{
    if pieces.len() == 0 {
        Seq::empty()
    } else {
        match pieces.last() {
            Piece::Glyph(byte) => glyph_bytes(pieces.drop_last()).push(byte),
            _ => glyph_bytes(pieces.drop_last()),
        }
    }
}

/// A full line is never empty and never longer than 32 bytes.
pub proof fn lemma_line_len_bounds(align: nat)
    requires
        valid_align(align),
    ensures
        1 <= words_per_line(align) <= 32,
        align <= line_len(align) <= 32,
{
    assert(1 <= 32nat / align <= 32 && align <= align * (32nat / align) <= 32)
        by (nonlinear_arith)
        requires
            1 <= align <= 32,
    ;
}

/// Rendering one more piece appends that piece's characters.
pub proof fn lemma_render_push(pieces: Seq<Piece>, piece: Piece)
    ensures
        render(pieces.push(piece)) == render(pieces) + piece_text(piece),
{
    assert(pieces.push(piece).drop_last() =~= pieces);
}

/// A single piece renders as its own characters.
pub proof fn lemma_render_one(piece: Piece)
    ensures
        render(seq![piece]) == piece_text(piece),
{
    lemma_render_push(Seq::empty(), piece);
}

/// Rendering distributes over concatenation.
pub proof fn lemma_render_concat(front: Seq<Piece>, back: Seq<Piece>)
    ensures
        render(front + back) == render(front) + render(back),
    decreases back.len(),
{
    if back.len() > 0 {
        assert((front + back).drop_last() =~= front + back.drop_last());
        lemma_render_concat(front, back.drop_last());
    }
}

/// The rendering of a run of glyphs is the ASCII column of its bytes.
pub proof fn lemma_render_glyphs(bytes: Seq<u8>)
    ensures
        render(glyph_pieces(bytes)) == ascii_text(bytes),
    decreases bytes.len(),
{
    if bytes.len() > 0 {
        lemma_render_glyphs(bytes.drop_last());
        assert(glyph_pieces(bytes).drop_last() =~= glyph_pieces(bytes.drop_last()));
    }
}

} // verus!
