//! The formatter: the executable code that writes a dump, proved against the
//! layout it is meant to produce.

use vstd::prelude::*;
use vstd::slice::slice_subrange;
use crate::glyph::{to_hex_digit, write_ascii};
use crate::layout::{
    blank_pieces, body_pieces, dump_text, glyph_pieces, hex_pieces, layout, lemma_line_len_bounds,
    lemma_render_concat, lemma_render_glyphs, lemma_render_one, lemma_render_push, line_len,
    line_pieces, pad_width, piece_text, prefix_pieces, render, valid_align, word_pieces, Piece,
};

verus! {

/// Appends one byte as a blank and two upper-case hexadecimal digits.
fn write_hex(out: &mut String, byte: u8)
    ensures
        final(out)@ == old(out)@ + piece_text(Piece::Hex(byte)),
{
    out.push(' ');
    out.push(to_hex_digit(byte / 16));
    out.push(to_hex_digit(byte % 16));
}

/// Appends a run of bytes in hexadecimal, without separators.
fn write_hex_run(out: &mut String, bytes: &[u8])
    ensures
        final(out)@ == old(out)@ + render(hex_pieces(bytes@)),
{
    let mut i: usize = 0;
    while i < bytes.len()
        invariant
            i <= bytes.len(),
            out@ == old(out)@ + render(hex_pieces(bytes@.take(i as int))),
        decreases bytes.len() - i,
    {
        write_hex(out, bytes[i]);
        proof {
            let done = hex_pieces(bytes@.take(i as int));
            let piece = Piece::Hex(bytes@[i as int]);
            assert(hex_pieces(bytes@.take(i + 1)) =~= done.push(piece));
            lemma_render_push(done, piece);
        }
        i += 1;
    }
    assert(bytes@.take(i as int) =~= bytes@);
}

/// Appends the words of one line: a separator in front of every `align` bytes,
/// then those bytes in hexadecimal.
fn write_words(out: &mut String, line: &[u8], align: usize)
    requires
        align >= 1,
    ensures
        final(out)@ == old(out)@ + render(word_pieces(line@, align as nat)),
{
    let ghost mut done: Seq<Piece> = Seq::empty();
    let mut start: usize = 0;
    assert(line@.skip(0) =~= line@);
    while start < line.len()
        invariant
            align >= 1,
            start <= line.len(),
            out@ == old(out)@ + render(done),
            word_pieces(line@, align as nat) == done + word_pieces(
                line@.skip(start as int),
                align as nat,
            ),
        decreases line.len() - start,
    {
        let end = if line.len() - start > align {
            start + align
        } else {
            line.len()
        };
        let word = slice_subrange(line, start, end);
        out.push(' ');
        out.push('|');
        write_hex_run(out, word);
        proof {
            let tail = line@.skip(start as int);
            let bar = seq![Piece::Bar];
            let step = bar + hex_pieces(word@);
            lemma_render_one(Piece::Bar);
            lemma_render_concat(bar, hex_pieces(word@));
            lemma_render_concat(done, step);
            if tail.len() > align {
                assert(line@.skip(end as int) =~= tail.skip(align as int));
            }
            done = done + step;
        }
        start = end;
    }
}

/// Appends `count` blanks.
fn write_blanks(out: &mut String, count: usize)
    ensures
        final(out)@ == old(out)@ + render(blank_pieces(count as nat)),
{
    let mut i: usize = 0;
    while i < count
        invariant
            i <= count,
            out@ == old(out)@ + render(blank_pieces(i as nat)),
        decreases count - i,
    {
        out.push(' ');
        proof {
            let done = blank_pieces(i as nat);
            assert(blank_pieces((i + 1) as nat) =~= done.push(Piece::Blank));
            lemma_render_push(done, Piece::Blank);
        }
        i += 1;
    }
}

/// Appends the unaligned prefix: its bytes in hexadecimal, one separator, and
/// its ASCII column. Appends nothing for an empty prefix.
fn write_prefix(out: &mut String, pre: &[u8])
    ensures
        final(out)@ == old(out)@ + render(prefix_pieces(pre@)),
{
    write_hex_run(out, pre);
    if !pre.is_empty() {
        out.push(' ');
        out.push('|');
    }
    write_ascii(out, pre);
    proof {
        if pre@.len() > 0 {
            let hex = hex_pieces(pre@);
            lemma_render_push(hex, Piece::Bar);
            assert(hex.push(Piece::Bar) =~= hex + seq![Piece::Bar]);
            lemma_render_glyphs(pre@);
            lemma_render_concat(hex + seq![Piece::Bar], glyph_pieces(pre@));
        }
    }
}

/// Appends one line of words: the line break, the words, the padding that a
/// short line needs, the delimiter, and the ASCII column of the whole line.
fn write_line(out: &mut String, line: &[u8], align: usize)
    requires
        valid_align(align as nat),
        line@.len() <= line_len(align as nat),
    ensures
        final(out)@ == old(out)@ + render(line_pieces(line@, align as nat)),
{
    proof {
        lemma_line_len_bounds(align as nat);
    }
    out.push('\n');
    write_words(out, line, align);
    let fill = align * (32 / align) - line.len();
    let pad = 3 * fill + 2 * (fill / align);
    write_blanks(out, pad);
    out.push(' ');
    out.push('|');
    out.push(' ');
    write_ascii(out, line);
    proof {
        let a = seq![Piece::Break];
        let b = word_pieces(line@, align as nat);
        let c = blank_pieces(pad as nat);
        let d = seq![Piece::Column];
        let e = glyph_pieces(line@);
        lemma_render_one(Piece::Break);
        lemma_render_one(Piece::Column);
        lemma_render_glyphs(line@);
        lemma_render_concat(a, b);
        lemma_render_concat(a + b, c);
        lemma_render_concat(a + b + c, d);
        lemma_render_concat(a + b + c + d, e);
    }
}

/// Appends the dump of `bytes` to `out`.
///
/// The first `alignment_offset` bytes, or all of them where the buffer is
/// shorter, form the unaligned prefix. The rest is cut into lines of
/// `32 / align` words of `align` bytes each.
pub fn write_dump(out: &mut String, bytes: &[u8], align: usize, alignment_offset: usize)
    requires
        valid_align(align as nat),
    ensures
        final(out)@ == old(out)@ + dump_text(bytes@, align as nat, alignment_offset as nat),
{
    proof {
        lemma_line_len_bounds(align as nat);
    }
    let chunks_per_line = 32 / align;
    let full = align * chunks_per_line;
    let split = if alignment_offset < bytes.len() {
        alignment_offset
    } else {
        bytes.len()
    };
    let (pre, rest) = bytes.split_at(split);
    write_prefix(out, pre);
    let ghost mut done: Seq<Piece> = prefix_pieces(pre@);
    let mut start: usize = 0;
    assert(rest@.skip(0) =~= rest@);
    while start < rest.len()
        invariant
            valid_align(align as nat),
            full == line_len(align as nat),
            1 <= full <= 32,
            start <= rest.len(),
            out@ == old(out)@ + render(done),
            layout(bytes@, align as nat, alignment_offset as nat) == done + body_pieces(
                rest@.skip(start as int),
                align as nat,
            ),
        decreases rest.len() - start,
    {
        let end = if rest.len() - start > full {
            start + full
        } else {
            rest.len()
        };
        let line = slice_subrange(rest, start, end);
        write_line(out, line, align);
        proof {
            let tail = rest@.skip(start as int);
            let step = line_pieces(line@, align as nat);
            lemma_render_concat(done, step);
            if tail.len() > full {
                assert(line@ =~= tail.take(full as int));
                assert(rest@.skip(end as int) =~= tail.skip(full as int));
            }
            done = done + step;
        }
        start = end;
    }
}

/// Renders `bytes` as a hexadecimal and ASCII dump.
pub fn format(bytes: &[u8], align: usize, alignment_offset: usize) -> (text: String)
    requires
        valid_align(align as nat),
    ensures
        text@ == dump_text(bytes@, align as nat, alignment_offset as nat),
{
    let mut text = String::new();
    write_dump(&mut text, bytes, align, alignment_offset);
    text
}

/// Renders `bytes` as a dump where `align` is a valid word size, and returns
/// `None` where it is not: for callers that cannot vouch for the alignment.
pub fn try_format(bytes: &[u8], align: usize, alignment_offset: usize) -> (text: Option<String>)
    ensures
        text is Some <==> valid_align(align as nat),
        text matches Some(t) ==> t@ == dump_text(bytes@, align as nat, alignment_offset as nat),
{
    if 1 <= align && align <= 32 {
        Some(format(bytes, align, alignment_offset))
    } else {
        None
    }
}

} // verus!
