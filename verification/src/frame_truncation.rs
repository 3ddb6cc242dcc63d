//! Truncation laws of the ORBF v1 decoder.
//!
//! Each parser reads its input from the front and decides on what it has read:
//! once it has an answer other than "truncated", bytes appended to its input
//! only lengthen the remainder it hands back. So a parser that accepts a
//! complete encoding with nothing left over reports every shorter prefix of it
//! as truncated.

use crate::frame::{Dimensions, Error, FrameV, PALETTE_LEN};
use crate::frame_spec::{
    Parsed, parse_bool, parse_cell, parse_cells, parse_colors, parse_cursor, parse_frame,
    parse_palette, parse_preamble, parse_preamble_rest, parse_rgb, parse_row, parse_rows,
    parse_string, parse_style, parse_style_color, parse_viewport, spec_decode_frame,
    spec_encode_frame,
};
use crate::wire::{read_bytes, read_u16, read_u32, read_u64, read_u8};
use vstd::prelude::*;

verus! {

/// `q` is what a parser gives on its input with `x` appended, where it gave
/// `p` on the input alone: the same answer with `x` after the remainder,
/// unless `p` was "truncated".
pub open spec fn grows<T>(p: Parsed<T>, q: Parsed<T>, x: Seq<u8>) -> bool {
    ||| p == Err::<(T, Seq<u8>), Error>(Error::Truncated)
    ||| p matches Ok((v, r)) && q == Ok::<(T, Seq<u8>), Error>((v, r + x))
    ||| p matches Err(e) && q == Err::<(T, Seq<u8>), Error>(e)
}

// ---------------------------------------------------------------- reads

proof fn lemma_read_bytes_grows(t: Seq<u8>, n: int, x: Seq<u8>)
    ensures
        read_bytes(t, n) matches Some((b, r)) ==> read_bytes(t + x, n) == Some((b, r + x)),
{
    if read_bytes(t, n) is Some {
        assert((t + x).take(n) =~= t.take(n));
        assert((t + x).skip(n) =~= t.skip(n) + x);
    }
}

proof fn lemma_reads_grow(t: Seq<u8>, x: Seq<u8>)
    ensures
        read_u8(t) matches Some((v, r)) ==> read_u8(t + x) == Some((v, r + x)),
        read_u16(t) matches Some((v, r)) ==> read_u16(t + x) == Some((v, r + x)),
        read_u32(t) matches Some((v, r)) ==> read_u32(t + x) == Some((v, r + x)),
        read_u64(t) matches Some((v, r)) ==> read_u64(t + x) == Some((v, r + x)),
{
    if t.len() >= 1 {
        assert((t + x)[0] == t[0]);
        assert((t + x).skip(1) =~= t.skip(1) + x);
    }
    if t.len() >= 2 {
        assert((t + x).take(2) =~= t.take(2));
        assert((t + x).skip(2) =~= t.skip(2) + x);
    }
    if t.len() >= 4 {
        assert((t + x).take(4) =~= t.take(4));
        assert((t + x).skip(4) =~= t.skip(4) + x);
    }
    if t.len() >= 8 {
        assert((t + x).take(8) =~= t.take(8));
        assert((t + x).skip(8) =~= t.skip(8) + x);
    }
}

// ---------------------------------------------------------------- scalars and strings

proof fn lemma_bool_grows(t: Seq<u8>, field: &'static str, x: Seq<u8>)
    ensures
        grows(parse_bool(t, field), parse_bool(t + x, field), x),
{
    lemma_reads_grow(t, x);
}

proof fn lemma_string_grows(t: Seq<u8>, field: &'static str, x: Seq<u8>)
    ensures
        grows(parse_string(t, field), parse_string(t + x, field), x),
{
    lemma_reads_grow(t, x);
    if let Some((n, r)) = read_u32(t) {
        lemma_read_bytes_grows(r, n as int, x);
    }
}

proof fn lemma_rgb_grows(t: Seq<u8>, x: Seq<u8>)
    ensures
        grows(parse_rgb(t), parse_rgb(t + x), x),
{
    lemma_read_bytes_grows(t, 3, x);
}

proof fn lemma_style_color_grows(t: Seq<u8>, field: &'static str, x: Seq<u8>)
    ensures
        grows(parse_style_color(t, field), parse_style_color(t + x, field), x),
{
    lemma_reads_grow(t, x);
    if let Some((_, r)) = read_u8(t) {
        lemma_read_bytes_grows(r, 3, x);
    }
}

proof fn lemma_style_grows(t: Seq<u8>, x: Seq<u8>)
    ensures
        grows(parse_style(t), parse_style(t + x), x),
{
    lemma_style_color_grows(t, "foreground color", x);
    if let Ok((_, r1)) = parse_style_color(t, "foreground color") {
        lemma_style_color_grows(r1, "background color", x);
        if let Ok((_, r2)) = parse_style_color(r1, "background color") {
            lemma_style_color_grows(r2, "underline color", x);
            if let Ok((_, r3)) = parse_style_color(r2, "underline color") {
                lemma_reads_grow(r3, x);
                if let Some((_, r4)) = read_u16(r3) {
                    lemma_reads_grow(r4, x);
                }
            }
        }
    }
}

// ---------------------------------------------------------------- cells and rows

proof fn lemma_cell_grows(t: Seq<u8>, x: Seq<u8>)
    ensures
        grows(parse_cell(t), parse_cell(t + x), x),
{
    lemma_reads_grow(t, x);
    if let Some((_, r1)) = read_u8(t) {
        lemma_style_grows(r1, x);
        if let Ok((_, r2)) = parse_style(r1) {
            lemma_string_grows(r2, "cell text", x);
            if let Ok((_, r3)) = parse_string(r2, "cell text") {
                lemma_string_grows(r3, "cell hyperlink", x);
            }
        }
    }
}

proof fn lemma_cells_grow(t: Seq<u8>, n: nat, x: Seq<u8>)
    ensures
        grows(parse_cells(t, n), parse_cells(t + x, n), x),
    decreases n,
{
    if n > 0 {
        lemma_cells_grow(t, (n - 1) as nat, x);
        if let Ok((_, r)) = parse_cells(t, (n - 1) as nat) {
            lemma_cell_grows(r, x);
        }
    }
}

proof fn lemma_row_grows(t: Seq<u8>, cols: u16, x: Seq<u8>)
    ensures
        grows(parse_row(t, cols), parse_row(t + x, cols), x),
{
    lemma_reads_grow(t, x);
    if let Some((_, r1)) = read_u8(t) {
        lemma_cells_grow(r1, cols as nat, x);
    }
}

proof fn lemma_rows_grow(t: Seq<u8>, n: nat, cols: u16, x: Seq<u8>)
    ensures
        grows(parse_rows(t, n, cols), parse_rows(t + x, n, cols), x),
    decreases n,
{
    if n > 0 {
        lemma_rows_grow(t, (n - 1) as nat, cols, x);
        if let Ok((_, r)) = parse_rows(t, (n - 1) as nat, cols) {
            lemma_row_grows(r, cols, x);
        }
    }
}

// ---------------------------------------------------------------- colors and cursor

proof fn lemma_palette_grows(t: Seq<u8>, n: nat, x: Seq<u8>)
    ensures
        grows(parse_palette(t, n), parse_palette(t + x, n), x),
    decreases n,
{
    if n > 0 {
        lemma_palette_grows(t, (n - 1) as nat, x);
        if let Ok((_, r)) = parse_palette(t, (n - 1) as nat) {
            lemma_rgb_grows(r, x);
        }
    }
}

proof fn lemma_colors_grow(t: Seq<u8>, x: Seq<u8>)
    ensures
        grows(parse_colors(t), parse_colors(t + x), x),
{
    reveal(parse_colors);
    lemma_rgb_grows(t, x);
    if let Ok((_, r1)) = parse_rgb(t) {
        lemma_rgb_grows(r1, x);
        if let Ok((_, r2)) = parse_rgb(r1) {
            lemma_bool_grows(r2, "cursor color presence", x);
            if let Ok((present, r3)) = parse_bool(r2, "cursor color presence") {
                lemma_rgb_grows(r3, x);
                lemma_palette_grows(r3, PALETTE_LEN as nat, x);
                if let Ok((_, r4)) = parse_rgb(r3) {
                    lemma_palette_grows(r4, PALETTE_LEN as nat, x);
                }
            }
        }
    }
}

proof fn lemma_viewport_grows(t: Seq<u8>, dims: Dimensions, x: Seq<u8>)
    ensures
        grows(parse_viewport(t, dims), parse_viewport(t + x, dims), x),
{
    lemma_bool_grows(t, "cursor viewport presence", x);
    if let Ok((_, r1)) = parse_bool(t, "cursor viewport presence") {
        lemma_reads_grow(r1, x);
        if let Some((_, r2)) = read_u16(r1) {
            lemma_reads_grow(r2, x);
            if let Some((_, r3)) = read_u16(r2) {
                lemma_bool_grows(r3, "cursor wide-tail state", x);
            }
        }
    }
}

proof fn lemma_cursor_grows(t: Seq<u8>, dims: Dimensions, x: Seq<u8>)
    ensures
        grows(parse_cursor(t, dims), parse_cursor(t + x, dims), x),
{
    reveal(parse_cursor);
    lemma_bool_grows(t, "cursor visibility", x);
    if let Ok((_, r1)) = parse_bool(t, "cursor visibility") {
        lemma_bool_grows(r1, "cursor blinking", x);
        if let Ok((_, r2)) = parse_bool(r1, "cursor blinking") {
            lemma_bool_grows(r2, "cursor password input", x);
            if let Ok((_, r3)) = parse_bool(r2, "cursor password input") {
                lemma_reads_grow(r3, x);
                if let Some((_, r4)) = read_u8(r3) {
                    lemma_viewport_grows(r4, dims, x);
                }
            }
        }
    }
}

// ---------------------------------------------------------------- whole frames

proof fn lemma_preamble_rest_grows(
    t: Seq<u8>,
    revision: u64,
    dimensions: Dimensions,
    x: Seq<u8>,
)
    ensures
        grows(
            parse_preamble_rest(t, revision, dimensions),
            parse_preamble_rest(t + x, revision, dimensions),
            x,
        ),
{
    reveal(parse_preamble_rest);
    lemma_reads_grow(t, x);
    if let Some((_, r1)) = read_u8(t) {
        lemma_string_grows(r1, "title", x);
        if let Ok((_, r2)) = parse_string(r1, "title") {
            lemma_string_grows(r2, "working directory", x);
            if let Ok((_, r3)) = parse_string(r2, "working directory") {
                lemma_bool_grows(r3, "hyperlink capability", x);
                if let Ok((_, r4)) = parse_bool(r3, "hyperlink capability") {
                    lemma_bool_grows(r4, "Kitty graphics capability", x);
                }
            }
        }
    }
}

proof fn lemma_preamble_grows(t: Seq<u8>, x: Seq<u8>)
    ensures
        grows(parse_preamble(t), parse_preamble(t + x), x),
{
    reveal(parse_preamble);
    lemma_read_bytes_grows(t, 4, x);
    if let Some((_, r0)) = read_bytes(t, 4) {
        lemma_reads_grow(r0, x);
        if let Some((_, r1)) = read_u16(r0) {
            lemma_reads_grow(r1, x);
            if let Some((revision, r2)) = read_u64(r1) {
                lemma_reads_grow(r2, x);
                if let Some((cols, r3)) = read_u16(r2) {
                    lemma_reads_grow(r3, x);
                    if let Some((rows, r4)) = read_u16(r3) {
                        lemma_preamble_rest_grows(
                            r4,
                            revision,
                            Dimensions { cols, rows },
                            x,
                        );
                    }
                }
            }
        }
    }
}

proof fn lemma_frame_grows(t: Seq<u8>, x: Seq<u8>)
    ensures
        grows(parse_frame(t), parse_frame(t + x), x),
{
    lemma_preamble_grows(t, x);
    if let Ok((p, r1)) = parse_preamble(t) {
        lemma_colors_grow(r1, x);
        if let Ok((_, r2)) = parse_colors(r1) {
            lemma_cursor_grows(r2, p.dimensions, x);
            if let Ok((_, r3)) = parse_cursor(r2, p.dimensions) {
                lemma_rows_grow(r3, p.dimensions.rows as nat, p.dimensions.cols, x);
            }
        }
    }
}

/// Decoding reports every payload that is a strict prefix of a complete frame
/// as truncated.
pub proof fn law_prefix_of_frame_is_truncated(b: Seq<u8>, n: int)
    requires
        spec_decode_frame(b) is Ok,
        0 <= n < b.len(),
    ensures
        spec_decode_frame(b.take(n)) == Err::<FrameV, Error>(Error::Truncated),
{
    let t = b.take(n);
    let x = b.skip(n);
    assert(t + x =~= b);
    lemma_frame_grows(t, x);
}

/// Decoding reports every strict prefix of an encoded frame as truncated.
pub proof fn law_truncated_encoding_is_rejected(f: FrameV, n: int)
    requires
        f.colors.palette.len() == PALETTE_LEN,
        spec_encode_frame(f) is Ok,
        0 <= n < spec_encode_frame(f)->Ok_0.len(),
    ensures
        spec_decode_frame(spec_encode_frame(f)->Ok_0.take(n)) == Err::<FrameV, Error>(
            Error::Truncated,
        ),
{
    crate::frame_round_trip::lemma_encoded_frame(f);
    law_prefix_of_frame_is_truncated(spec_encode_frame(f)->Ok_0, n);
}

} // verus!
