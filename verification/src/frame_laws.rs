//! Round-trip laws of the ORBF v1 codec.
//!
//! Every frame that encoding accepts decodes back to itself, and every payload
//! that decoding accepts is exactly the encoding of the frame it decodes to.

use crate::frame::{
    CELL_FIXED_BYTES, CellStyle, CellV, ColorsV, Cursor, Dimensions, Error, MAX_CELLS,
    MAX_FRAME_BYTES, PALETTE_LEN, ROW_FIXED_BYTES, Rgb, RowV, StyleColor, magic_bytes, VERSION,
};
use crate::frame_spec::{
    bit16, bit8, capabilities_ok, dimensions_error, parse_bool, parse_cell, parse_cells,
    parse_colors, parse_cursor, parse_palette, parse_preamble, parse_preamble_rest, parse_rgb,
    parse_row, parse_rows, parse_string, parse_style, parse_style_color, parse_viewport, row_error,
    row_flags, ser_bool, ser_cell, ser_cells, ser_colors, ser_cursor, ser_optional_rgb,
    ser_optional_viewport, ser_palette, ser_preamble, ser_rgb, ser_row, ser_rows, ser_string,
    ser_style, ser_style_color, size_add, size_cell, size_cells, size_rows, spec_cell_width_tag,
    spec_cursor_shape_tag, spec_decode_cursor_shape, spec_decode_screen, spec_decode_underline,
    spec_screen_tag, spec_underline_tag, style_flags, topology_ok, Preamble,
};
use crate::frame_codec::row_strings_fit;
use crate::wire::{
    le16, le32, le64, lemma_assoc, lemma_read_bytes, lemma_read_inverse, lemma_read_u16,
    lemma_read_u32, lemma_read_u64, lemma_read_u8, lemma_utf8_round_trip, read_bytes, read_u16,
    read_u32, read_u64, read_u8, utf8,
};
use vstd::prelude::*;

verus! {

// ---------------------------------------------------------------- scalars

pub proof fn lemma_bool(b: bool, r: Seq<u8>, field: &'static str)
    ensures
        parse_bool(ser_bool(b) + r, field) == Ok::<_, Error>((b, r)),
        ser_bool(b).len() == 1,
{
    lemma_read_u8(crate::frame_spec::bit8(b), r);
}

pub proof fn lemma_bool_inverse(s: Seq<u8>, field: &'static str)
    ensures
        parse_bool(s, field) matches Ok((b, r)) ==> s == ser_bool(b) + r,
{
    lemma_read_inverse(s);
}

pub proof fn lemma_string(s: Seq<char>, r: Seq<u8>, field: &'static str)
    requires
        utf8(s).len() <= u32::MAX,
    ensures
        parse_string(ser_string(s) + r, field) == Ok::<_, Error>((s, r)),
        ser_string(s).len() == 4 + utf8(s).len(),
{
    let u = utf8(s);
    lemma_read_u32(u.len() as u32, u + r);
    lemma_assoc(le32(u.len() as u32), u, r);
    lemma_read_bytes(u, r);
    lemma_utf8_round_trip(s, u);
}

pub proof fn lemma_string_inverse(s: Seq<u8>, field: &'static str)
    ensures
        parse_string(s, field) matches Ok((cs, r)) ==> s == ser_string(cs) + r && utf8(cs).len()
            <= u32::MAX,
{
    lemma_read_inverse(s);
    if let Ok((cs, r)) = parse_string(s, field) {
        let (n, r1) = read_u32(s).unwrap();
        let b = r1.take(n as int);
        lemma_utf8_round_trip(cs, b);
        assert(r1 =~= b + r);
        lemma_assoc(le32(n), b, r);
    }
}

pub proof fn lemma_rgb(c: Rgb, r: Seq<u8>)
    ensures
        parse_rgb(ser_rgb(c) + r) == Ok::<_, Error>((c, r)),
        ser_rgb(c).len() == 3,
{
    lemma_read_bytes(ser_rgb(c), r);
}

pub proof fn lemma_rgb_inverse(s: Seq<u8>)
    ensures
        parse_rgb(s) matches Ok((c, r)) ==> s == ser_rgb(c) + r,
{
    if s.len() >= 3 {
        assert(s =~= s.take(3) + s.skip(3));
        assert(s.take(3) =~= ser_rgb(Rgb { r: s[0], g: s[1], b: s[2] }));
    }
}

// ---------------------------------------------------------------- styles

pub proof fn lemma_style_color(c: StyleColor, r: Seq<u8>, field: &'static str)
    ensures
        parse_style_color(ser_style_color(c) + r, field) == Ok::<_, Error>((c, r)),
        ser_style_color(c).len() == 4,
{
    let b = ser_style_color(c);
    assert(b =~= seq![b[0]] + b.skip(1));
    lemma_assoc(seq![b[0]], b.skip(1), r);
    lemma_read_u8(b[0], b.skip(1) + r);
    lemma_read_bytes(b.skip(1), r);
}

pub proof fn lemma_style_color_inverse(s: Seq<u8>, field: &'static str)
    ensures
        parse_style_color(s, field) matches Ok((c, r)) ==> s == ser_style_color(c) + r,
{
    if let Ok((c, r)) = parse_style_color(s, field) {
        assert(s.take(4) =~= ser_style_color(c));
        assert(s =~= s.take(4) + s.skip(4));
        assert(s.skip(4) =~= r);
    }
}

pub proof fn lemma_style_flag_bits(
    a: bool,
    b: bool,
    c: bool,
    d: bool,
    e: bool,
    f: bool,
    g: bool,
    h: bool,
    i: bool,
    j: bool,
)
    ensures
        ({
            let x = bit16(a) | (bit16(b) << 1u16) | (bit16(c) << 2u16) | (bit16(d) << 3u16) | (
            bit16(e) << 4u16) | (bit16(f) << 5u16) | (bit16(g) << 6u16) | (bit16(h) << 7u16) | (
            bit16(i) << 8u16) | (bit16(j) << 9u16);
            &&& x & !1023u16 == 0
            &&& (x & 1u16 != 0) == a
            &&& (x & 2u16 != 0) == b
            &&& (x & 4u16 != 0) == c
            &&& (x & 8u16 != 0) == d
            &&& (x & 16u16 != 0) == e
            &&& (x & 32u16 != 0) == f
            &&& (x & 64u16 != 0) == g
            &&& (x & 128u16 != 0) == h
            &&& (x & 256u16 != 0) == i
            &&& (x & 512u16 != 0) == j
        }),
{
    assert({
        let x = (if a { 1u16 } else { 0u16 }) | ((if b { 1u16 } else { 0u16 }) << 1u16) | ((if c { 1u16 } else { 0u16 })
            << 2u16) | ((if d { 1u16 } else { 0u16 }) << 3u16) | ((if e { 1u16 } else { 0u16 })
            << 4u16) | ((if f { 1u16 } else { 0u16 }) << 5u16) | ((if g { 1u16 } else { 0u16 })
            << 6u16) | ((if h { 1u16 } else { 0u16 }) << 7u16) | ((if i { 1u16 } else { 0u16 })
            << 8u16) | ((if j { 1u16 } else { 0u16 }) << 9u16);
        &&& x & !1023u16 == 0
        &&& (x & 1u16 != 0) == a
        &&& (x & 2u16 != 0) == b
        &&& (x & 4u16 != 0) == c
        &&& (x & 8u16 != 0) == d
        &&& (x & 16u16 != 0) == e
        &&& (x & 32u16 != 0) == f
        &&& (x & 64u16 != 0) == g
        &&& (x & 128u16 != 0) == h
        &&& (x & 256u16 != 0) == i
        &&& (x & 512u16 != 0) == j
    }) by (bit_vector);
}

pub proof fn lemma_style_flags_canonical(x: u16)
    requires
        x & !1023u16 == 0,
    ensures
        x == bit16(x & 1u16 != 0) | (bit16(x & 2u16 != 0) << 1u16) | (bit16(x & 4u16 != 0) << 2u16)
            | (bit16(x & 8u16 != 0) << 3u16) | (bit16(x & 16u16 != 0) << 4u16) | (bit16(
            x & 32u16 != 0,
        ) << 5u16) | (bit16(x & 64u16 != 0) << 6u16) | (bit16(x & 128u16 != 0) << 7u16) | (bit16(
            x & 256u16 != 0,
        ) << 8u16) | (bit16(x & 512u16 != 0) << 9u16),
{
    assert(x & !1023u16 == 0 ==> x == (if x & 1u16 != 0 { 1u16 } else { 0u16 }) | ((if x & 2u16 != 0 { 1u16 } else { 0u16 })
        << 1u16) | ((if x & 4u16 != 0 { 1u16 } else { 0u16 }) << 2u16) | ((if x & 8u16 != 0 { 1u16 } else { 0u16 })
        << 3u16) | ((if x & 16u16 != 0 { 1u16 } else { 0u16 }) << 4u16) | ((if x & 32u16 != 0 { 1u16 } else { 0u16 })
        << 5u16) | ((if x & 64u16 != 0 { 1u16 } else { 0u16 }) << 6u16) | ((if x & 128u16 != 0 { 1u16 } else { 0u16 })
        << 7u16) | ((if x & 256u16 != 0 { 1u16 } else { 0u16 }) << 8u16) | ((if x & 512u16 != 0 { 1u16 } else { 0u16 })
        << 9u16)) by (bit_vector);
}

pub proof fn lemma_underline_tag(st: CellStyle)
    ensures
        spec_decode_underline(spec_underline_tag(st.underline)) == Ok::<_, Error>(st.underline),
{
}

pub proof fn lemma_style(st: CellStyle, r: Seq<u8>)
    ensures
        parse_style(ser_style(st) + r) == Ok::<_, Error>((st, r)),
        ser_style(st).len() == 15,
{
    let c1 = ser_style_color(st.foreground);
    let c2 = ser_style_color(st.background);
    let c3 = ser_style_color(st.underline_color);
    let fl = le16(style_flags(st));
    let u = seq![spec_underline_tag(st.underline)];
    lemma_assoc(c1, c2 + (c3 + (fl + u)), r);
    lemma_assoc(c2, c3 + (fl + u), r);
    lemma_assoc(c3, fl + u, r);
    lemma_assoc(fl, u, r);
    lemma_style_color(st.foreground, c2 + (c3 + (fl + u)) + r, "foreground color");
    lemma_style_color(st.background, c3 + (fl + u) + r, "background color");
    lemma_style_color(st.underline_color, (fl + u) + r, "underline color");
    lemma_read_u16(style_flags(st), u + r);
    lemma_read_u8(spec_underline_tag(st.underline), r);
    lemma_style_flag_bits(
        st.bold,
        st.italic,
        st.faint,
        st.blink,
        st.inverse,
        st.invisible,
        st.strikethrough,
        st.overline,
        st.selected,
        st.protected,
    );
    lemma_underline_tag(st);
}

pub proof fn lemma_style_inverse(s: Seq<u8>)
    ensures
        parse_style(s) matches Ok((st, r)) ==> s == ser_style(st) + r,
{
    if let Ok((st, r)) = parse_style(s) {
        lemma_style_color_inverse(s, "foreground color");
        let (_, r1) = parse_style_color(s, "foreground color").unwrap();
        lemma_style_color_inverse(r1, "background color");
        let (_, r2) = parse_style_color(r1, "background color").unwrap();
        lemma_style_color_inverse(r2, "underline color");
        let (_, r3) = parse_style_color(r2, "underline color").unwrap();
        lemma_read_inverse(r3);
        let (flags, r4) = read_u16(r3).unwrap();
        lemma_read_inverse(r4);
        lemma_style_flags_canonical(flags);
        assert(style_flags(st) == flags);
        let (tag, r5) = read_u8(r4).unwrap();
        assert(spec_underline_tag(st.underline) == tag);
        lemma_assoc(le16(flags), seq![tag], r5);
        lemma_assoc(ser_style_color(st.underline_color), le16(flags) + seq![tag], r5);
        lemma_assoc(ser_style_color(st.background), ser_style_color(st.underline_color) + (le16(flags) + seq![tag]), r5);
        lemma_assoc(
            ser_style_color(st.foreground),
            ser_style_color(st.background) + (ser_style_color(st.underline_color) + (le16(flags) + seq![tag])),
            r5,
        );
    }
}


// ---------------------------------------------------------------- cells

pub open spec fn cell_strings_fit(c: CellV) -> bool {
    utf8(c.text).len() <= u32::MAX && utf8(c.hyperlink).len() <= u32::MAX
}

pub open spec fn all_cells_fit(cs: Seq<CellV>) -> bool {
    forall|i: int| 0 <= i < cs.len() ==> cell_strings_fit(#[trigger] cs[i])
}

pub proof fn lemma_cell(c: CellV, r: Seq<u8>)
    requires
        cell_strings_fit(c),
    ensures
        parse_cell(ser_cell(c) + r) == Ok::<_, Error>((c, r)),
        ser_cell(c).len() == CELL_FIXED_BYTES + (4 + utf8(c.text).len()) + (4 + utf8(c.hyperlink).len()),
{
    let t = seq![spec_cell_width_tag(c.width)];
    let st = ser_style(c.style);
    let a = ser_string(c.text);
    let b = ser_string(c.hyperlink);
    lemma_assoc(t, st + (a + b), r);
    lemma_assoc(st, a + b, r);
    lemma_assoc(a, b, r);
    lemma_read_u8(spec_cell_width_tag(c.width), st + (a + b) + r);
    lemma_style(c.style, (a + b) + r);
    lemma_string(c.text, b + r, "cell text");
    lemma_string(c.hyperlink, r, "cell hyperlink");
}

pub proof fn lemma_cell_inverse(s: Seq<u8>)
    ensures
        parse_cell(s) matches Ok((c, r)) ==> s == ser_cell(c) + r && cell_strings_fit(c),
{
    if let Ok((c, r)) = parse_cell(s) {
        lemma_read_inverse(s);
        let (tag, r1) = read_u8(s).unwrap();
        assert(spec_cell_width_tag(c.width) == tag);
        lemma_style_inverse(r1);
        let (_, r2) = parse_style(r1).unwrap();
        lemma_string_inverse(r2, "cell text");
        let (_, r3) = parse_string(r2, "cell text").unwrap();
        lemma_string_inverse(r3, "cell hyperlink");
        let st = ser_style(c.style);
        let a = ser_string(c.text);
        let b = ser_string(c.hyperlink);
        lemma_assoc(a, b, r);
        lemma_assoc(st, a + b, r);
        lemma_assoc(seq![tag], st + (a + b), r);
    }
}

#[verifier::spinoff_prover]
pub proof fn lemma_cells(cs: Seq<CellV>, r: Seq<u8>)
    requires
        all_cells_fit(cs),
    ensures
        parse_cells(ser_cells(cs) + r, cs.len()) == Ok::<_, Error>((cs, r)),
    decreases cs.len(),
{
    if cs.len() == 0 {
        assert(ser_cells(cs) + r =~= r);
        assert(cs =~= Seq::<CellV>::empty());
    } else {
        let init = cs.drop_last();
        let c = cs.last();
        assert(all_cells_fit(init)) by {
            assert forall|i: int| 0 <= i < init.len() implies cell_strings_fit(#[trigger] init[i]) by {
                assert(init[i] == cs[i]);
            }
        }
        assert(cell_strings_fit(c)) by {
            assert(c == cs[cs.len() - 1]);
        }
        lemma_assoc(ser_cells(init), ser_cell(c), r);
        lemma_cells(init, ser_cell(c) + r);
        lemma_cell(c, r);
        assert(init.push(c) =~= cs);
    }
}

pub proof fn lemma_cells_inverse(s: Seq<u8>, n: nat)
    ensures
        parse_cells(s, n) matches Ok((cs, r)) ==> s == ser_cells(cs) + r && cs.len() == n
            && all_cells_fit(cs),
    decreases n,
{
    if n == 0 {
        if let Ok((cs, r)) = parse_cells(s, n) {
            assert(s =~= ser_cells(cs) + r);
        }
    } else {
        lemma_cells_inverse(s, (n - 1) as nat);
        if let Ok((cs, r)) = parse_cells(s, n) {
            let (init, r1) = parse_cells(s, (n - 1) as nat).unwrap();
            lemma_cell_inverse(r1);
            let (c, r2) = parse_cell(r1).unwrap();
            assert(cs == init.push(c));
            assert(cs.drop_last() =~= init);
            lemma_assoc(ser_cells(init), ser_cell(c), r);
            assert forall|i: int| 0 <= i < cs.len() implies cell_strings_fit(#[trigger] cs[i]) by {
                if i < init.len() {
                    assert(cs[i] == init[i]);
                }
            }
        }
    }
}

// ---------------------------------------------------------------- rows

pub proof fn lemma_row_flag_bits(a: bool, b: bool, c: bool)
    ensures
        ({
            let x = bit8(a) | (bit8(b) << 1u8) | (bit8(c) << 2u8);
            &&& x & !7u8 == 0
            &&& (x & 1u8 != 0) == a
            &&& (x & 2u8 != 0) == b
            &&& (x & 4u8 != 0) == c
        }),
{
    assert({
        let x = (if a { 1u8 } else { 0u8 }) | ((if b { 1u8 } else { 0u8 }) << 1u8) | ((if c { 1u8 } else { 0u8 }) << 2u8);
        &&& x & !7u8 == 0
        &&& (x & 1u8 != 0) == a
        &&& (x & 2u8 != 0) == b
        &&& (x & 4u8 != 0) == c
    }) by (bit_vector);
}

pub proof fn lemma_row_flags_canonical(x: u8)
    requires
        x & !7u8 == 0,
    ensures
        x == bit8(x & 1u8 != 0) | (bit8(x & 2u8 != 0) << 1u8) | (bit8(x & 4u8 != 0) << 2u8),
{
    assert(x & !7u8 == 0 ==> x == (if x & 1u8 != 0 { 1u8 } else { 0u8 }) | ((if x & 2u8 != 0 { 1u8 } else { 0u8 })
        << 1u8) | ((if x & 4u8 != 0 { 1u8 } else { 0u8 }) << 2u8)) by (bit_vector);
}

pub proof fn lemma_row_strings_fit(row: RowV)
    ensures
        row_strings_fit(row) <==> all_cells_fit(row.cells),
{
    if row_strings_fit(row) {
        assert forall|i: int| 0 <= i < row.cells.len() implies cell_strings_fit(#[trigger] row.cells[i]) by {
            assert(utf8(row.cells[i].text).len() <= u32::MAX);
        }
    }
    if all_cells_fit(row.cells) {
        assert forall|i: int| 0 <= i < row.cells.len() implies utf8(#[trigger] row.cells[i].text).len() <= u32::MAX
            && utf8(row.cells[i].hyperlink).len() <= u32::MAX by {
            assert(cell_strings_fit(row.cells[i]));
        }
    }
}

pub proof fn lemma_row(row: RowV, cols: u16, r: Seq<u8>)
    requires
        row_error(row, cols) is None,
        row_strings_fit(row),
    ensures
        parse_row(ser_row(row) + r, cols) == Ok::<_, Error>((row, r)),
{
    lemma_row_strings_fit(row);
    lemma_row_flag_bits(row.wrapped, row.wrap_continuation, row.kitty_virtual_placeholder);
    lemma_assoc(seq![row_flags(row)], ser_cells(row.cells), r);
    lemma_read_u8(row_flags(row), ser_cells(row.cells) + r);
    lemma_cells(row.cells, r);
}

pub proof fn lemma_row_inverse(s: Seq<u8>, cols: u16)
    ensures
        parse_row(s, cols) matches Ok((row, r)) ==> s == ser_row(row) + r && row.cells.len() == cols
            && topology_ok(row.cells, row.wrapped) && row_strings_fit(row),
{
    if let Ok((row, r)) = parse_row(s, cols) {
        lemma_read_inverse(s);
        let (flags, r1) = read_u8(s).unwrap();
        lemma_row_flags_canonical(flags);
        assert(row_flags(row) == flags);
        lemma_cells_inverse(r1, cols as nat);
        lemma_row_strings_fit(row);
        lemma_assoc(seq![flags], ser_cells(row.cells), r);
    }
}

pub open spec fn rows_valid(rows: Seq<RowV>, cols: u16) -> bool {
    forall|i: int| 0 <= i < rows.len() ==> row_error(#[trigger] rows[i], cols) is None && row_strings_fit(rows[i])
}

pub proof fn lemma_rows(rows: Seq<RowV>, cols: u16, r: Seq<u8>)
    requires
        rows_valid(rows, cols),
    ensures
        parse_rows(ser_rows(rows) + r, rows.len(), cols) == Ok::<_, Error>((rows, r)),
    decreases rows.len(),
{
    if rows.len() == 0 {
        assert(ser_rows(rows) + r =~= r);
        assert(rows =~= Seq::<RowV>::empty());
    } else {
        let init = rows.drop_last();
        let last = rows.last();
        assert(rows_valid(init, cols)) by {
            assert forall|i: int| 0 <= i < init.len() implies row_error(#[trigger] init[i], cols) is None
                && row_strings_fit(init[i]) by {
                assert(init[i] == rows[i]);
            }
        }
        assert(last == rows[rows.len() - 1]);
        lemma_assoc(ser_rows(init), ser_row(last), r);
        lemma_rows(init, cols, ser_row(last) + r);
        lemma_row(last, cols, r);
        assert(init.push(last) =~= rows);
    }
}

pub proof fn lemma_rows_inverse(s: Seq<u8>, n: nat, cols: u16)
    requires
        !(cols == 0 || cols > MAX_CELLS),
    ensures
        parse_rows(s, n, cols) matches Ok((rows, r)) ==> s == ser_rows(rows) + r && rows.len() == n
            && rows_valid(rows, cols),
    decreases n,
{
    if n == 0 {
        if let Ok((rows, r)) = parse_rows(s, n, cols) {
            assert(s =~= ser_rows(rows) + r);
        }
    } else {
        lemma_rows_inverse(s, (n - 1) as nat, cols);
        if let Ok((rows, r)) = parse_rows(s, n, cols) {
            let (init, r1) = parse_rows(s, (n - 1) as nat, cols).unwrap();
            lemma_row_inverse(r1, cols);
            let (row, r2) = parse_row(r1, cols).unwrap();
            assert(rows == init.push(row));
            assert(rows.drop_last() =~= init);
            lemma_assoc(ser_rows(init), ser_row(row), r);
            assert forall|i: int| 0 <= i < rows.len() implies row_error(#[trigger] rows[i], cols) is None
                && row_strings_fit(rows[i]) by {
                if i < init.len() {
                    assert(rows[i] == init[i]);
                }
            }
        }
    }
}

// ---------------------------------------------------------------- palette, colors, cursor

pub proof fn lemma_palette(p: Seq<Rgb>, r: Seq<u8>)
    ensures
        parse_palette(ser_palette(p) + r, p.len()) == Ok::<_, Error>((p, r)),
        ser_palette(p).len() == 3 * p.len(),
    decreases p.len(),
{
    if p.len() == 0 {
        assert(ser_palette(p) + r =~= r);
        assert(p =~= Seq::<Rgb>::empty());
    } else {
        let init = p.drop_last();
        lemma_assoc(ser_palette(init), ser_rgb(p.last()), r);
        lemma_palette(init, ser_rgb(p.last()) + r);
        lemma_rgb(p.last(), r);
        assert(init.push(p.last()) =~= p);
    }
}

pub proof fn lemma_palette_inverse(s: Seq<u8>, n: nat)
    ensures
        parse_palette(s, n) matches Ok((p, r)) ==> s == ser_palette(p) + r && p.len() == n,
    decreases n,
{
    if n == 0 {
        if let Ok((p, r)) = parse_palette(s, n) {
            assert(s =~= ser_palette(p) + r);
        }
    } else {
        lemma_palette_inverse(s, (n - 1) as nat);
        if let Ok((p, r)) = parse_palette(s, n) {
            let (init, r1) = parse_palette(s, (n - 1) as nat).unwrap();
            lemma_rgb_inverse(r1);
            let (c, r2) = parse_rgb(r1).unwrap();
            assert(p.drop_last() =~= init);
            lemma_assoc(ser_palette(init), ser_rgb(c), r);
        }
    }
}

pub proof fn lemma_colors(c: ColorsV, r: Seq<u8>)
    requires
        c.palette.len() == PALETTE_LEN,
    ensures
        parse_colors(ser_colors(c) + r) == Ok::<_, Error>((c, r)),
        ser_colors(c).len() == 775 + (if c.cursor is Some { 3int } else { 0int }),
{
    reveal(parse_colors);
    let a = ser_rgb(c.background);
    let b = ser_rgb(c.foreground);
    let o = ser_optional_rgb(c.cursor);
    let p = ser_palette(c.palette);
    lemma_assoc(a, b + (o + p), r);
    lemma_assoc(b, o + p, r);
    lemma_assoc(o, p, r);
    lemma_rgb(c.background, b + (o + p) + r);
    lemma_rgb(c.foreground, (o + p) + r);
    lemma_palette(c.palette, r);
    match c.cursor {
        Some(cc) => {
            lemma_assoc(seq![1u8], ser_rgb(cc), p + r);
            lemma_read_u8(1, ser_rgb(cc) + (p + r));
            lemma_rgb(cc, p + r);
        },
        None => {
            lemma_read_u8(0, p + r);
        },
    }
}

pub proof fn lemma_colors_inverse(s: Seq<u8>)
    ensures
        parse_colors(s) matches Ok((c, r)) ==> s == ser_colors(c) + r && c.palette.len() == PALETTE_LEN,
{
    reveal(parse_colors);
    if let Ok((c, r)) = parse_colors(s) {
        lemma_rgb_inverse(s);
        let (_, r1) = parse_rgb(s).unwrap();
        lemma_rgb_inverse(r1);
        let (_, r2) = parse_rgb(r1).unwrap();
        lemma_bool_inverse(r2, "cursor color presence");
        let (present, r3) = parse_bool(r2, "cursor color presence").unwrap();
        let r4 = if present {
            lemma_rgb_inverse(r3);
            parse_rgb(r3).unwrap().1
        } else {
            r3
        };
        lemma_palette_inverse(r4, PALETTE_LEN as nat);
        let o = ser_optional_rgb(c.cursor);
        let p = ser_palette(c.palette);
        if present {
            lemma_assoc(seq![1u8], ser_rgb(c.cursor.unwrap()), p + r);
        }
        assert(r2 == o + (p + r));
        lemma_assoc(o, p, r);
        lemma_assoc(ser_rgb(c.foreground), o + p, r);
        lemma_assoc(ser_rgb(c.background), ser_rgb(c.foreground) + (o + p), r);
    }
}

pub open spec fn viewport_in_range(c: Cursor, d: Dimensions) -> bool {
    c.viewport matches Some(v) ==> v.x < d.cols && v.y < d.rows
}

pub proof fn lemma_viewport(c: Cursor, d: Dimensions, r: Seq<u8>)
    requires
        viewport_in_range(c, d),
    ensures
        parse_viewport(ser_optional_viewport(c.viewport) + r, d) == Ok::<_, Error>((c.viewport, r)),
        ser_optional_viewport(c.viewport).len() == 1 + (if c.viewport is Some { 5int } else { 0int }),
{
    match c.viewport {
        Some(vp) => {
            let x = le16(vp.x);
            let y = le16(vp.y);
            let t = ser_bool(vp.at_wide_tail);
            lemma_assoc(seq![1u8], x + (y + t), r);
            lemma_assoc(x, y + t, r);
            lemma_assoc(y, t, r);
            lemma_read_u8(1, x + (y + t) + r);
            lemma_read_u16(vp.x, (y + t) + r);
            lemma_read_u16(vp.y, t + r);
            lemma_bool(vp.at_wide_tail, r, "cursor wide-tail state");
        },
        None => {
            lemma_read_u8(0, r);
        },
    }
}

pub proof fn lemma_cursor(c: Cursor, d: Dimensions, r: Seq<u8>)
    requires
        viewport_in_range(c, d),
    ensures
        parse_cursor(ser_cursor(c) + r, d) == Ok::<_, Error>((c, r)),
        ser_cursor(c).len() == 5 + (if c.viewport is Some { 5int } else { 0int }),
{
    reveal(parse_cursor);
    let a = ser_bool(c.visible);
    let b = ser_bool(c.blinking);
    let pw = ser_bool(c.password_input);
    let sh = seq![spec_cursor_shape_tag(c.shape)];
    let v = ser_optional_viewport(c.viewport);
    lemma_assoc(a, b + (pw + (sh + v)), r);
    lemma_assoc(b, pw + (sh + v), r);
    lemma_assoc(pw, sh + v, r);
    lemma_assoc(sh, v, r);
    lemma_bool(c.visible, b + (pw + (sh + v)) + r, "cursor visibility");
    lemma_bool(c.blinking, pw + (sh + v) + r, "cursor blinking");
    lemma_bool(c.password_input, (sh + v) + r, "cursor password input");
    lemma_read_u8(spec_cursor_shape_tag(c.shape), v + r);
    assert(spec_decode_cursor_shape(spec_cursor_shape_tag(c.shape)) == Ok::<_, Error>(c.shape));
    lemma_viewport(c, d, r);
}

pub proof fn lemma_cursor_inverse(s: Seq<u8>, d: Dimensions)
    ensures
        parse_cursor(s, d) matches Ok((c, r)) ==> s == ser_cursor(c) + r && viewport_in_range(c, d),
{
    reveal(parse_cursor);
    if let Ok((c, r)) = parse_cursor(s, d) {
        lemma_bool_inverse(s, "cursor visibility");
        let (_, r1) = parse_bool(s, "cursor visibility").unwrap();
        lemma_bool_inverse(r1, "cursor blinking");
        let (_, r2) = parse_bool(r1, "cursor blinking").unwrap();
        lemma_bool_inverse(r2, "cursor password input");
        let (_, r3) = parse_bool(r2, "cursor password input").unwrap();
        lemma_read_inverse(r3);
        let (tag, r4) = read_u8(r3).unwrap();
        assert(spec_cursor_shape_tag(c.shape) == tag);
        lemma_bool_inverse(r4, "cursor viewport presence");
        let (present, r5) = parse_bool(r4, "cursor viewport presence").unwrap();
        let v = ser_optional_viewport(c.viewport);
        if present {
            lemma_read_inverse(r5);
            let (x, r6) = read_u16(r5).unwrap();
            lemma_read_inverse(r6);
            let (y, r7) = read_u16(r6).unwrap();
            lemma_bool_inverse(r7, "cursor wide-tail state");
            let (t, r8) = parse_bool(r7, "cursor wide-tail state").unwrap();
            lemma_assoc(le16(y), ser_bool(t), r);
            lemma_assoc(le16(x), le16(y) + ser_bool(t), r);
            lemma_assoc(seq![1u8], le16(x) + (le16(y) + ser_bool(t)), r);
        }
        assert(r4 == v + r);
        let a = ser_bool(c.visible);
        let b = ser_bool(c.blinking);
        let pw = ser_bool(c.password_input);
        let sh = seq![tag];
        lemma_assoc(sh, v, r);
        lemma_assoc(pw, sh + v, r);
        lemma_assoc(b, pw + (sh + v), r);
        lemma_assoc(a, b + (pw + (sh + v)), r);
    }
}


// ---------------------------------------------------------------- preamble

pub open spec fn ser_preamble_rest(p: Preamble) -> Seq<u8> {
    seq![spec_screen_tag(p.screen)] + (ser_string(p.title) + (ser_string(p.working_directory) + (
    ser_bool(p.capabilities.hyperlinks) + ser_bool(p.capabilities.kitty_graphics))))
}

pub open spec fn preamble_valid(p: Preamble) -> bool {
    &&& dimensions_error(p.dimensions) is None
    &&& capabilities_ok(p.capabilities)
    &&& utf8(p.title).len() <= u32::MAX
    &&& utf8(p.working_directory).len() <= u32::MAX
}

pub proof fn lemma_preamble_rest(p: Preamble, r: Seq<u8>)
    requires
        preamble_valid(p),
    ensures
        parse_preamble_rest(ser_preamble_rest(p) + r, p.revision, p.dimensions) == Ok::<_, Error>((p, r)),
{
    reveal(parse_preamble_rest);
    let sc = seq![spec_screen_tag(p.screen)];
    let t = ser_string(p.title);
    let w = ser_string(p.working_directory);
    let h = ser_bool(p.capabilities.hyperlinks);
    let k = ser_bool(p.capabilities.kitty_graphics);
    lemma_assoc(sc, t + (w + (h + k)), r);
    lemma_assoc(t, w + (h + k), r);
    lemma_assoc(w, h + k, r);
    lemma_assoc(h, k, r);
    lemma_read_u8(spec_screen_tag(p.screen), t + (w + (h + k)) + r);
    assert(spec_decode_screen(spec_screen_tag(p.screen)) == Ok::<_, Error>(p.screen));
    lemma_string(p.title, w + (h + k) + r, "title");
    lemma_string(p.working_directory, (h + k) + r, "working directory");
    lemma_bool(p.capabilities.hyperlinks, k + r, "hyperlink capability");
    lemma_bool(p.capabilities.kitty_graphics, r, "Kitty graphics capability");
}

pub proof fn lemma_preamble(p: Preamble, r: Seq<u8>)
    requires
        preamble_valid(p),
    ensures
        parse_preamble(ser_preamble(p) + r) == Ok::<_, Error>((p, r)),
        ser_preamble(p).len() == 21 + (4 + utf8(p.title).len()) + (4 + utf8(p.working_directory).len()),
{
    reveal(parse_preamble);
    let m = magic_bytes();
    let v = le16(VERSION);
    let rv = le64(p.revision);
    let c = le16(p.dimensions.cols);
    let rw = le16(p.dimensions.rows);
    let rest = ser_preamble_rest(p);
    assert(ser_preamble(p) == m + (v + (rv + (c + (rw + rest)))));
    lemma_assoc(m, v + (rv + (c + (rw + rest))), r);
    lemma_assoc(v, rv + (c + (rw + rest)), r);
    lemma_assoc(rv, c + (rw + rest), r);
    lemma_assoc(c, rw + rest, r);
    lemma_assoc(rw, rest, r);
    lemma_read_bytes(m, v + (rv + (c + (rw + rest))) + r);
    lemma_read_u16(VERSION, (rv + (c + (rw + rest))) + r);
    lemma_read_u64(p.revision, (c + (rw + rest)) + r);
    lemma_read_u16(p.dimensions.cols, (rw + rest) + r);
    lemma_read_u16(p.dimensions.rows, rest + r);
    lemma_preamble_rest(p, r);
    lemma_string(p.title, r, "title");
    lemma_string(p.working_directory, r, "working directory");
}

#[verifier::spinoff_prover]
#[verifier::rlimit(40)]
pub proof fn lemma_preamble_inverse(s: Seq<u8>)
    ensures
        parse_preamble(s) matches Ok((p, r)) ==> s == ser_preamble(p) + r && preamble_valid(p),
{
    reveal(parse_preamble);
    reveal(parse_preamble_rest);
    if let Ok((p, r)) = parse_preamble(s) {
        let (m, r0) = read_bytes(s, 4).unwrap();
        lemma_read_inverse(r0);
        let (ver, r1) = read_u16(r0).unwrap();
        lemma_read_inverse(r1);
        let (_, r2) = read_u64(r1).unwrap();
        lemma_read_inverse(r2);
        let (_, r3) = read_u16(r2).unwrap();
        lemma_read_inverse(r3);
        let (_, r4) = read_u16(r3).unwrap();
        lemma_read_inverse(r4);
        let (tag, r5) = read_u8(r4).unwrap();
        lemma_string_inverse(r5, "title");
        let (_, r6) = parse_string(r5, "title").unwrap();
        lemma_string_inverse(r6, "working directory");
        let (_, r7) = parse_string(r6, "working directory").unwrap();
        lemma_bool_inverse(r7, "hyperlink capability");
        let (_, r8) = parse_bool(r7, "hyperlink capability").unwrap();
        lemma_bool_inverse(r8, "Kitty graphics capability");
        assert(spec_screen_tag(p.screen) == tag);
        let sc = seq![tag];
        let t = ser_string(p.title);
        let w = ser_string(p.working_directory);
        let h = ser_bool(p.capabilities.hyperlinks);
        let k = ser_bool(p.capabilities.kitty_graphics);
        lemma_assoc(h, k, r);
        lemma_assoc(w, h + k, r);
        lemma_assoc(t, w + (h + k), r);
        lemma_assoc(sc, t + (w + (h + k)), r);
        assert(r4 == ser_preamble_rest(p) + r);
        let rest = ser_preamble_rest(p);
        let v = le16(VERSION);
        let rv = le64(p.revision);
        let c = le16(p.dimensions.cols);
        let rw = le16(p.dimensions.rows);
        assert(s =~= m + r0);
        lemma_assoc(rw, rest, r);
        lemma_assoc(c, rw + rest, r);
        lemma_assoc(rv, c + (rw + rest), r);
        lemma_assoc(v, rv + (c + (rw + rest)), r);
        lemma_assoc(m, v + (rv + (c + (rw + rest))), r);
        assert(ser_preamble(p) == m + (v + (rv + (c + (rw + rest)))));
    }
}

// ---------------------------------------------------------------- sizes

pub proof fn lemma_ser_cells_front(cs: Seq<CellV>)
    requires
        cs.len() > 0,
    ensures
        ser_cells(cs) == ser_cell(cs[0]) + ser_cells(cs.drop_first()),
    decreases cs.len(),
{
    if cs.len() == 1 {
        assert(cs.drop_last() =~= Seq::<CellV>::empty());
        assert(cs.drop_first() =~= Seq::<CellV>::empty());
        assert(ser_cells(cs) =~= ser_cell(cs[0]) + ser_cells(cs.drop_first()));
    } else {
        let init = cs.drop_last();
        lemma_ser_cells_front(init);
        assert(cs.drop_first().drop_last() =~= init.drop_first());
        assert(cs.drop_first().last() == cs.last());
        lemma_assoc(ser_cell(cs[0]), ser_cells(init.drop_first()), ser_cell(cs.last()));
    }
}

pub proof fn lemma_ser_rows_front(rs: Seq<RowV>)
    requires
        rs.len() > 0,
    ensures
        ser_rows(rs) == ser_row(rs[0]) + ser_rows(rs.drop_first()),
    decreases rs.len(),
{
    if rs.len() == 1 {
        assert(rs.drop_last() =~= Seq::<RowV>::empty());
        assert(rs.drop_first() =~= Seq::<RowV>::empty());
        assert(ser_rows(rs) =~= ser_row(rs[0]) + ser_rows(rs.drop_first()));
    } else {
        let init = rs.drop_last();
        lemma_ser_rows_front(init);
        assert(rs.drop_first().drop_last() =~= init.drop_first());
        assert(rs.drop_first().last() == rs.last());
        lemma_assoc(ser_row(rs[0]), ser_rows(init.drop_first()), ser_row(rs.last()));
    }
}

/// Cell accounting is exact: it succeeds precisely within the frame bound and
/// then adds the encoded length of the remaining cells.
pub proof fn lemma_size_cells_exact(cells: Seq<CellV>, j: int, acc: nat)
    requires
        all_cells_fit(cells),
        0 <= j <= cells.len(),
        acc <= MAX_FRAME_BYTES,
    ensures
        size_cells(cells, j, acc) matches Ok(n) ==> n == acc + ser_cells(cells.skip(j)).len()
            && n <= MAX_FRAME_BYTES,
        acc + ser_cells(cells.skip(j)).len() <= MAX_FRAME_BYTES ==> size_cells(cells, j, acc)
            == Ok::<nat, Error>(acc + ser_cells(cells.skip(j)).len()),
    decreases cells.len() - j,
{
    if j == cells.len() {
        assert(cells.skip(j) =~= Seq::<CellV>::empty());
    } else {
        let c = cells[j];
        assert(cell_strings_fit(c));
        lemma_ser_cells_front(cells.skip(j));
        assert(cells.skip(j).drop_first() =~= cells.skip(j + 1));
        lemma_cell(c, Seq::empty());
        let v = ser_cell(c).len();
        if let Ok(a) = size_cell(acc, c.text, c.hyperlink) {
            assert(a == acc + v);
            lemma_size_cells_exact(cells, j + 1, a);
        }
        if acc + ser_cells(cells.skip(j)).len() <= MAX_FRAME_BYTES {
            assert(size_cell(acc, c.text, c.hyperlink) == Ok::<nat, Error>(acc + v));
            lemma_size_cells_exact(cells, j + 1, acc + v);
        }
    }
}

pub proof fn lemma_size_rows_exact(rows: Seq<RowV>, cols: u16, i: int, acc: nat)
    requires
        rows_valid(rows, cols),
        0 <= i <= rows.len(),
        acc <= MAX_FRAME_BYTES,
    ensures
        size_rows(rows, cols, i, acc) matches Ok(n) ==> n == acc + ser_rows(rows.skip(i)).len()
            && n <= MAX_FRAME_BYTES,
        acc + ser_rows(rows.skip(i)).len() <= MAX_FRAME_BYTES ==> size_rows(rows, cols, i, acc)
            == Ok::<nat, Error>(acc + ser_rows(rows.skip(i)).len()),
    decreases rows.len() - i,
{
    if i == rows.len() {
        assert(rows.skip(i) =~= Seq::<RowV>::empty());
    } else {
        let row = rows[i];
        assert(row_error(row, cols) is None && row_strings_fit(row));
        lemma_row_strings_fit(row);
        lemma_ser_rows_front(rows.skip(i));
        assert(rows.skip(i).drop_first() =~= rows.skip(i + 1));
        assert(row.cells.skip(0) =~= row.cells);
        let cl = ser_cells(row.cells).len();
        if let Ok(a) = size_add(acc as int, ROW_FIXED_BYTES as int) {
            lemma_size_cells_exact(row.cells, 0, a);
            if let Ok(a2) = size_cells(row.cells, 0, a) {
                lemma_size_rows_exact(rows, cols, i + 1, a2);
            }
        }
        if acc + ser_rows(rows.skip(i)).len() <= MAX_FRAME_BYTES {
            assert(size_add(acc as int, ROW_FIXED_BYTES as int) == Ok::<nat, Error>(acc + 1));
            lemma_size_cells_exact(row.cells, 0, acc + 1);
            lemma_size_rows_exact(rows, cols, i + 1, acc + 1 + cl);
        }
    }
}

} // verus!
