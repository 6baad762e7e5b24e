//! What holds of every dump, proved from the layout.

use vstd::prelude::*;
use crate::buf::{hook_text, Mode};
use crate::layout::{
    blank_pieces, body_pieces, dump_text, glyph_bytes, glyph_pieces, hex_bytes, hex_pieces,
    layout, lemma_line_len_bounds, lemma_render_concat, lemma_render_one, line_len,
    line_pieces, pad_width, prefix_len, prefix_pieces, render, valid_align, word_pieces,
    words_per_line, Piece,
};

verus! {

/// The bytes shown by two runs of pieces, one after the other, are the bytes
/// shown by the first followed by those shown by the second.
proof fn lemma_bytes_concat(front: Seq<Piece>, back: Seq<Piece>)
    ensures
        hex_bytes(front + back) == hex_bytes(front) + hex_bytes(back),
        glyph_bytes(front + back) == glyph_bytes(front) + glyph_bytes(back),
    decreases back.len(),
{
    if back.len() > 0 {
        assert((front + back).drop_last() =~= front + back.drop_last());
        lemma_bytes_concat(front, back.drop_last());
    }
}

/// A single separator, line break, blank or delimiter shows no byte.
proof fn lemma_bytes_of_mark(piece: Piece)
    requires
        !(piece is Hex),
        !(piece is Glyph),
    ensures
        hex_bytes(seq![piece]) == Seq::<u8>::empty(),
        glyph_bytes(seq![piece]) == Seq::<u8>::empty(),
{
    let none = Seq::<Piece>::empty();
    assert(seq![piece].drop_last() =~= none);
    assert(hex_bytes(none) =~= Seq::<u8>::empty());
    assert(glyph_bytes(none) =~= Seq::<u8>::empty());
}

/// A run in hexadecimal shows exactly its bytes, and none in the ASCII column.
proof fn lemma_bytes_of_hex(bytes: Seq<u8>)
    ensures
        hex_bytes(hex_pieces(bytes)) == bytes,
        glyph_bytes(hex_pieces(bytes)) == Seq::<u8>::empty(),
    decreases bytes.len(),
{
    if bytes.len() > 0 {
        lemma_bytes_of_hex(bytes.drop_last());
        assert(hex_pieces(bytes).drop_last() =~= hex_pieces(bytes.drop_last()));
    }
}

/// A run in the ASCII column shows exactly its bytes, and none in hexadecimal.
proof fn lemma_bytes_of_glyphs(bytes: Seq<u8>)
    ensures
        glyph_bytes(glyph_pieces(bytes)) == bytes,
        hex_bytes(glyph_pieces(bytes)) == Seq::<u8>::empty(),
    decreases bytes.len(),
{
    if bytes.len() > 0 {
        lemma_bytes_of_glyphs(bytes.drop_last());
        assert(glyph_pieces(bytes).drop_last() =~= glyph_pieces(bytes.drop_last()));
    }
}

/// Padding shows no byte.
proof fn lemma_bytes_of_blanks(count: nat)
    ensures
        hex_bytes(blank_pieces(count)) == Seq::<u8>::empty(),
        glyph_bytes(blank_pieces(count)) == Seq::<u8>::empty(),
    decreases count,
{
    if count > 0 {
        lemma_bytes_of_blanks((count - 1) as nat);
        assert(blank_pieces(count).drop_last() =~= blank_pieces((count - 1) as nat));
    }
}

/// The words of a line show exactly the line's bytes in hexadecimal.
proof fn lemma_bytes_of_words(line: Seq<u8>, align: nat)
    requires
        align >= 1,
    ensures
        hex_bytes(word_pieces(line, align)) == line,
        glyph_bytes(word_pieces(line, align)) == Seq::<u8>::empty(),
    decreases line.len(),
{
    let bar = seq![Piece::Bar];
    lemma_bytes_of_mark(Piece::Bar);
    if line.len() == 0 {
        // No word at all.
    } else if line.len() <= align {
        lemma_bytes_of_hex(line);
        lemma_bytes_concat(bar, hex_pieces(line));
    } else {
        let head = line.take(align as int);
        let tail = line.skip(align as int);
        lemma_bytes_of_hex(head);
        lemma_bytes_of_words(tail, align);
        lemma_bytes_concat(bar, hex_pieces(head));
        lemma_bytes_concat(bar + hex_pieces(head), word_pieces(tail, align));
    }
}

/// A line shows exactly its bytes, once in hexadecimal and once in the ASCII
/// column.
proof fn lemma_bytes_of_line(line: Seq<u8>, align: nat)
    requires
        align >= 1,
    ensures
        hex_bytes(line_pieces(line, align)) == line,
        glyph_bytes(line_pieces(line, align)) == line,
{
    let a = seq![Piece::Break];
    let b = word_pieces(line, align);
    let c = blank_pieces(pad_width((line_len(align) - line.len()) as nat, align));
    let d = seq![Piece::Column];
    let e = glyph_pieces(line);
    lemma_bytes_of_mark(Piece::Break);
    lemma_bytes_of_words(line, align);
    lemma_bytes_of_blanks(pad_width((line_len(align) - line.len()) as nat, align));
    lemma_bytes_of_mark(Piece::Column);
    lemma_bytes_of_glyphs(line);
    lemma_bytes_concat(a, b);
    lemma_bytes_concat(a + b, c);
    lemma_bytes_concat(a + b + c, d);
    lemma_bytes_concat(a + b + c + d, e);
}

/// The lines of words show exactly the bytes they were cut from.
proof fn lemma_bytes_of_body(rest: Seq<u8>, align: nat)
    requires
        valid_align(align),
    ensures
        hex_bytes(body_pieces(rest, align)) == rest,
        glyph_bytes(body_pieces(rest, align)) == rest,
    decreases rest.len(),
{
    lemma_line_len_bounds(align);
    let full = line_len(align) as int;
    if rest.len() == 0 {
        // No line at all.
    } else if rest.len() <= full {
        lemma_bytes_of_line(rest, align);
    } else {
        let head = rest.take(full);
        let tail = rest.skip(full);
        lemma_bytes_of_line(head, align);
        lemma_bytes_of_body(tail, align);
        lemma_bytes_concat(line_pieces(head, align), body_pieces(tail, align));
    }
}

/// The prefix shows exactly its bytes, once in hexadecimal and once in the
/// ASCII column.
proof fn lemma_bytes_of_prefix(pre: Seq<u8>)
    ensures
        hex_bytes(prefix_pieces(pre)) == pre,
        glyph_bytes(prefix_pieces(pre)) == pre,
{
    if pre.len() > 0 {
        let bar = seq![Piece::Bar];
        lemma_bytes_of_hex(pre);
        lemma_bytes_of_mark(Piece::Bar);
        lemma_bytes_of_glyphs(pre);
        lemma_bytes_concat(hex_pieces(pre), bar);
        lemma_bytes_concat(hex_pieces(pre) + bar, glyph_pieces(pre));
    }
}

/// Conservation of bytes. For every buffer and every valid alignment, the
/// bytes that the dump shows in hexadecimal are the bytes of the buffer, each
/// one once and in the buffer's order, and so are the bytes that it shows in
/// the ASCII column. In particular the dump holds as many hexadecimal tokens,
/// and as many characters in its ASCII columns, as the buffer holds bytes.
pub proof fn lemma_bytes_conserved(bytes: Seq<u8>, align: nat, alignment_offset: nat)
    requires
        valid_align(align),
    ensures
        hex_bytes(layout(bytes, align, alignment_offset)) == bytes,
        glyph_bytes(layout(bytes, align, alignment_offset)) == bytes,
        hex_bytes(layout(bytes, align, alignment_offset)).len() == bytes.len(),
        glyph_bytes(layout(bytes, align, alignment_offset)).len() == bytes.len(),
{
    let split = prefix_len(bytes.len(), alignment_offset) as int;
    let pre = bytes.take(split);
    let rest = bytes.skip(split);
    lemma_bytes_of_prefix(pre);
    lemma_bytes_of_body(rest, align);
    lemma_bytes_concat(prefix_pieces(pre), body_pieces(rest, align));
}

/// The dump of an empty buffer is the empty text, whatever the alignment and
/// the alignment offset.
pub proof fn lemma_empty_input(align: nat, alignment_offset: nat)
    ensures
        dump_text(Seq::<u8>::empty(), align, alignment_offset) == Seq::<char>::empty(),
{
}

/// Clamping of the prefix. An alignment offset beyond the end of the buffer
/// gives the same dump as one that is exactly the buffer's length.
pub proof fn lemma_offset_clamped(bytes: Seq<u8>, align: nat, alignment_offset: nat)
    requires
        alignment_offset > bytes.len(),
    ensures
        layout(bytes, align, alignment_offset) == layout(bytes, align, bytes.len()),
        dump_text(bytes, align, alignment_offset) == dump_text(bytes, align, bytes.len()),
{
}

/// A dump is a function of its inputs alone: two buffers with the same bytes,
/// dumped with the same alignment and the same alignment offset, give the same
/// text, character for character.
pub proof fn lemma_dump_deterministic(
    first: Seq<u8>,
    second: Seq<u8>,
    align: nat,
    alignment_offset: nat,
)
    requires
        first.len() == second.len(),
        forall|i: int| 0 <= i < first.len() ==> first[i] == second[i],
    ensures
        dump_text(first, align, alignment_offset) == dump_text(second, align, alignment_offset),
{
    assert(first =~= second);
}

/// The fallback of the diagnostic hook. Where only the name is asked for, the
/// hook writes exactly the name, whatever the value's bytes, the alignment and
/// the alignment offset are.
pub proof fn lemma_name_only(
    bytes: Seq<u8>,
    name: Seq<char>,
    align: nat,
    alignment_offset: nat,
)
    ensures
        hook_text(Mode::NameOnly, bytes, name, align, alignment_offset) == name,
{
}

/// The number of characters that the words of a line take: three for each
/// byte, and two for each word that was begun.
proof fn lemma_words_width(line: Seq<u8>, align: nat)
    requires
        align >= 1,
    ensures
        render(word_pieces(line, align)).len() == 3 * line.len() + 2 * ((line.len() + align - 1)
            / align as int),
    decreases line.len(),
{
    let bar = seq![Piece::Bar];
    lemma_render_one(Piece::Bar);
    let n = line.len() as int;
    let a = align as int;
    if line.len() == 0 {
        assert((n + a - 1) / a == 0) by (nonlinear_arith)
            requires
                n == 0,
                a >= 1,
        ;
    } else if line.len() <= align {
        lemma_hex_width(line);
        lemma_render_concat(bar, hex_pieces(line));
        assert((n + a - 1) / a == 1) by (nonlinear_arith)
            requires
                1 <= n <= a,
        ;
    } else {
        let head = line.take(a);
        let tail = line.skip(a);
        lemma_hex_width(head);
        lemma_words_width(tail, align);
        lemma_render_concat(bar, hex_pieces(head));
        lemma_render_concat(bar + hex_pieces(head), word_pieces(tail, align));
        assert((n + a - 1) / a == (n - a + a - 1) / a + 1) by (nonlinear_arith)
            requires
                n > a,
                a >= 1,
        ;
    }
}

/// A run in hexadecimal takes three characters for each byte.
proof fn lemma_hex_width(bytes: Seq<u8>)
    ensures
        render(hex_pieces(bytes)).len() == 3 * bytes.len(),
    decreases bytes.len(),
{
    if bytes.len() > 0 {
        lemma_hex_width(bytes.drop_last());
        assert(hex_pieces(bytes).drop_last() =~= hex_pieces(bytes.drop_last()));
    }
}

/// A run of blanks takes one character for each blank.
proof fn lemma_blank_width(count: nat)
    ensures
        render(blank_pieces(count)).len() == count,
    decreases count,
{
    if count > 0 {
        lemma_blank_width((count - 1) as nat);
        assert(blank_pieces(count).drop_last() =~= blank_pieces((count - 1) as nat));
    }
}

/// The words that a short line lacks are exactly the whole words among its
/// missing bytes.
proof fn lemma_missing_words(len: int, align: int, words: int)
    requires
        align >= 1,
        words >= 0,
        0 <= len <= align * words,
    ensures
        (len + align - 1) / align + (align * words - len) / align == words,
{
    let begun = (len + align - 1) / align;
    let spare = (len + align - 1) % align;
    assert(len + align - 1 == align * begun + spare && 0 <= spare < align) by (nonlinear_arith)
        requires
            align >= 1,
            begun == (len + align - 1) / align,
            spare == (len + align - 1) % align,
    ;
    let fill = align * words - len;
    let gap = align - 1 - spare;
    assert(fill == align * (words - begun) + gap) by (nonlinear_arith)
        requires
            fill == align * words - len,
            len + align - 1 == align * begun + spare,
            gap == align - 1 - spare,
    ;
    assert(fill / align == words - begun) by (nonlinear_arith)
        requires
            align >= 1,
            fill == align * (words - begun) + gap,
            0 <= gap < align,
    ;
}

/// Alignment of the ASCII column. On every line of words, full or short, the
/// words and the padding behind them take the same number of characters:
/// three for each byte of a full line and two for each of its words. So the
/// delimiter, and the ASCII column behind it, start at the same place on every
/// line.
pub proof fn lemma_column_aligned(line: Seq<u8>, align: nat)
    requires
        valid_align(align),
        line.len() <= line_len(align),
    ensures
        render(
            word_pieces(line, align) + blank_pieces(
                pad_width((line_len(align) - line.len()) as nat, align),
            ),
        ).len() == 3 * line_len(align) + 2 * words_per_line(align),
{
    lemma_line_len_bounds(align);
    let fill = (line_len(align) - line.len()) as nat;
    lemma_words_width(line, align);
    lemma_blank_width(pad_width(fill, align));
    lemma_render_concat(word_pieces(line, align), blank_pieces(pad_width(fill, align)));
    lemma_missing_words(line.len() as int, align as int, words_per_line(align) as int);
}

} // verus!
