//! The ORBF v1 encoder and decoder, verified against `frame_spec`.

use crate::frame::{
    CELL_FIXED_BYTES, Capabilities, Cell, CellStyle, CellV, CellWidth, Colors, ColorsV, Cursor,
    CursorShape, CursorViewport, Dimensions, Error, FRAME_FIXED_BYTES, Frame, FrameV, MAGIC,
    MAX_CELLS, MAX_FRAME_BYTES, PALETTE_LEN, ROW_FIXED_BYTES, ROW_FLAG_MASK, Result, Rgb, Row,
    RowV, STRING_LENGTH_BYTES, STYLE_FLAG_MASK, Screen, StyleColor, Underline, VERSION,
    magic_bytes,
};
use crate::frame_spec::{
    capabilities_ok, cell_width_ok, dimensions_error, lift, parse_bool, parse_cell, parse_cells,
    parse_colors, parse_cursor, parse_palette, parse_preamble, parse_preamble_rest, parse_rgb,
    parse_row, parse_rows, parse_string, parse_style, parse_style_color, parse_viewport, row_error,
    row_flags, ser_bool, ser_cell, ser_cells, ser_colors, ser_cursor, ser_optional_viewport,
    ser_palette, ser_rgb, ser_row, ser_rows, ser_string, ser_style, ser_style_color, size_add,
    size_cell, size_cells, size_header, size_rows, spec_cell_width_tag, spec_cursor_shape_tag,
    spec_decode_cell_width, spec_decode_cursor_shape, spec_decode_screen, spec_decode_underline,
    spec_screen_tag, spec_underline_tag, string_size, style_flags, topology_ok, validate_frame_spec,
    Preamble,
};
use crate::wire::{
    Cursor as ByteCursor, le16, le64, put_slice, put_u16, put_u32, put_u64, put_u8, read_bytes,
    read_u16, read_u32, read_u64, read_u8, string_bytes, string_from_utf8, str_bytes, utf8,
};
use vstd::prelude::*;

verus! {

// ---------------------------------------------------------------- tags

pub fn screen_tag(screen: Screen) -> (t: u8)
    ensures
        t == spec_screen_tag(screen),
{
    match screen {
        Screen::Primary => 0,
        Screen::Alternate => 1,
    }
}

pub fn decode_screen(tag: u8) -> (r: Result<Screen>)
    ensures
        r == spec_decode_screen(tag),
{
    match tag {
        0 => Ok(Screen::Primary),
        1 => Ok(Screen::Alternate),
        value => Err(Error::InvalidTag { field: "screen", value }),
    }
}

pub fn cursor_shape_tag(shape: CursorShape) -> (t: u8)
    ensures
        t == spec_cursor_shape_tag(shape),
{
    match shape {
        CursorShape::Bar => 0,
        CursorShape::Block => 1,
        CursorShape::Underline => 2,
        CursorShape::BlockHollow => 3,
    }
}

pub fn decode_cursor_shape(tag: u8) -> (r: Result<CursorShape>)
    ensures
        r == spec_decode_cursor_shape(tag),
{
    match tag {
        0 => Ok(CursorShape::Bar),
        1 => Ok(CursorShape::Block),
        2 => Ok(CursorShape::Underline),
        3 => Ok(CursorShape::BlockHollow),
        value => Err(Error::InvalidTag { field: "cursor shape", value }),
    }
}

pub fn cell_width_tag(width: CellWidth) -> (t: u8)
    ensures
        t == spec_cell_width_tag(width),
{
    match width {
        CellWidth::Narrow => 0,
        CellWidth::Wide => 1,
        CellWidth::SpacerTail => 2,
        CellWidth::SpacerHead => 3,
    }
}

pub fn decode_cell_width(tag: u8) -> (r: Result<CellWidth>)
    ensures
        r == spec_decode_cell_width(tag),
{
    match tag {
        0 => Ok(CellWidth::Narrow),
        1 => Ok(CellWidth::Wide),
        2 => Ok(CellWidth::SpacerTail),
        3 => Ok(CellWidth::SpacerHead),
        value => Err(Error::InvalidTag { field: "cell width", value }),
    }
}

pub fn underline_tag(underline: Underline) -> (t: u8)
    ensures
        t == spec_underline_tag(underline),
{
    match underline {
        Underline::Unset => 0,
        Underline::Single => 1,
        Underline::Double => 2,
        Underline::Curly => 3,
        Underline::Dotted => 4,
        Underline::Dashed => 5,
    }
}

pub fn decode_underline(tag: u8) -> (r: Result<Underline>)
    ensures
        r == spec_decode_underline(tag),
{
    match tag {
        0 => Ok(Underline::Unset),
        1 => Ok(Underline::Single),
        2 => Ok(Underline::Double),
        3 => Ok(Underline::Curly),
        4 => Ok(Underline::Dotted),
        5 => Ok(Underline::Dashed),
        value => Err(Error::InvalidTag { field: "underline", value }),
    }
}

// ---------------------------------------------------------------- encoder

/// An output buffer that appends canonical ORBF v1 encodings.
pub struct Encoder(pub Vec<u8>);

impl Encoder {
    pub fn bytes(&mut self, bytes: &[u8])
        ensures
            final(self).0@ == old(self).0@ + bytes@,
    {
        put_slice(&mut self.0, bytes);
    }

    pub fn boolean(&mut self, value: bool)
        ensures
            final(self).0@ == old(self).0@ + ser_bool(value),
    {
        self.u8(if value { 1 } else { 0 });
    }

    pub fn u8(&mut self, value: u8)
        ensures
            final(self).0@ == old(self).0@ + seq![value],
    {
        put_u8(&mut self.0, value);
    }

    pub fn u16(&mut self, value: u16)
        ensures
            final(self).0@ == old(self).0@ + le16(value),
    {
        put_u16(&mut self.0, value);
    }

    pub fn u64(&mut self, value: u64)
        ensures
            final(self).0@ == old(self).0@ + le64(value),
    {
        put_u64(&mut self.0, value);
    }

    pub fn string(&mut self, value: &String)
        requires
            utf8(value@).len() <= u32::MAX,
        ensures
            final(self).0@ == old(self).0@ + ser_string(value@),
    {
        let bytes = string_bytes(value);
        put_u32(&mut self.0, bytes.len() as u32);
        put_slice(&mut self.0, bytes);
        assert(self.0@ =~= old(self).0@ + ser_string(value@));
    }

    pub fn rgb(&mut self, color: Rgb)
        ensures
            final(self).0@ == old(self).0@ + ser_rgb(color),
    {
        put_u8(&mut self.0, color.r);
        put_u8(&mut self.0, color.g);
        put_u8(&mut self.0, color.b);
        assert(self.0@ =~= old(self).0@ + ser_rgb(color));
    }

    pub fn style_color(&mut self, color: StyleColor)
        ensures
            final(self).0@ == old(self).0@ + ser_style_color(color),
    {
        let (tag, a, b, c): (u8, u8, u8, u8) = match color {
            StyleColor::Unset => (0, 0, 0, 0),
            StyleColor::Palette(index) => (1, index, 0, 0),
            StyleColor::Rgb(color) => (2, color.r, color.g, color.b),
        };
        put_u8(&mut self.0, tag);
        put_u8(&mut self.0, a);
        put_u8(&mut self.0, b);
        put_u8(&mut self.0, c);
        assert(self.0@ =~= old(self).0@ + ser_style_color(color));
    }

    pub fn style(&mut self, style: CellStyle)
        ensures
            final(self).0@ == old(self).0@ + ser_style(style),
    {
        let ghost start = self.0@;
        self.style_color(style.foreground);
        self.style_color(style.background);
        self.style_color(style.underline_color);
        let flags: u16 = (if style.bold { 1u16 } else { 0 }) | ((if style.italic { 1u16 } else { 0 })
            << 1u16) | ((if style.faint { 1u16 } else { 0 }) << 2u16) | ((if style.blink { 1u16 } else { 0 })
            << 3u16) | ((if style.inverse { 1u16 } else { 0 }) << 4u16) | ((if style.invisible { 1u16 } else { 0 })
            << 5u16) | ((if style.strikethrough { 1u16 } else { 0 }) << 6u16) | ((if style.overline { 1u16 } else { 0 })
            << 7u16) | ((if style.selected { 1u16 } else { 0 }) << 8u16) | ((if style.protected { 1u16 } else { 0 })
            << 9u16);
        assert(flags == style_flags(style));
        self.u16(flags);
        self.u8(underline_tag(style.underline));
        assert(self.0@ =~= start + ser_style(style));
    }
}

// ---------------------------------------------------------------- decoder

/// A reader over one ORBF v1 payload.
pub struct Decoder<'a> {
    pub input: ByteCursor<'a>,
}

impl<'a> Decoder<'a> {
    pub open spec fn rest(&self) -> Seq<u8> {
        self.input.rest()
    }

    pub open spec fn wf(&self) -> bool {
        self.input.wf()
    }

    pub fn take(&mut self, length: usize) -> (r: Result<&'a [u8]>)
        requires
            old(self).wf(),
        ensures
            final(self).wf(),
            final(self).input.bytes@ == old(self).input.bytes@,
            match r {
                Ok(v) => lift(read_bytes(old(self).rest(), length as int)) == Ok::<_, Error>((v@, final(self).rest())),
                Err(e) => lift(read_bytes(old(self).rest(), length as int)) == Err::<(Seq<u8>, Seq<u8>), _>(e),
            },
    {
        match self.input.take(length) {
            Some(v) => Ok(v),
            None => Err(Error::Truncated),
        }
    }

    pub fn u8(&mut self) -> (r: Result<u8>)
        requires
            old(self).wf(),
        ensures
            final(self).wf(),
            final(self).input.bytes@ == old(self).input.bytes@,
            match r {
                Ok(v) => read_u8(old(self).rest()) == Some((v, final(self).rest())),
                Err(e) => read_u8(old(self).rest()) is None && e == Error::Truncated,
            },
    {
        match self.input.u8() {
            Some(v) => Ok(v),
            None => Err(Error::Truncated),
        }
    }

    pub fn u16(&mut self) -> (r: Result<u16>)
        requires
            old(self).wf(),
        ensures
            final(self).wf(),
            final(self).input.bytes@ == old(self).input.bytes@,
            match r {
                Ok(v) => read_u16(old(self).rest()) == Some((v, final(self).rest())),
                Err(e) => read_u16(old(self).rest()) is None && e == Error::Truncated,
            },
    {
        match self.input.u16() {
            Some(v) => Ok(v),
            None => Err(Error::Truncated),
        }
    }

    pub fn u32(&mut self) -> (r: Result<u32>)
        requires
            old(self).wf(),
        ensures
            final(self).wf(),
            final(self).input.bytes@ == old(self).input.bytes@,
            match r {
                Ok(v) => read_u32(old(self).rest()) == Some((v, final(self).rest())),
                Err(e) => read_u32(old(self).rest()) is None && e == Error::Truncated,
            },
    {
        match self.input.u32() {
            Some(v) => Ok(v),
            None => Err(Error::Truncated),
        }
    }

    pub fn u64(&mut self) -> (r: Result<u64>)
        requires
            old(self).wf(),
        ensures
            final(self).wf(),
            final(self).input.bytes@ == old(self).input.bytes@,
            match r {
                Ok(v) => read_u64(old(self).rest()) == Some((v, final(self).rest())),
                Err(e) => read_u64(old(self).rest()) is None && e == Error::Truncated,
            },
    {
        match self.input.u64() {
            Some(v) => Ok(v),
            None => Err(Error::Truncated),
        }
    }

    pub fn boolean(&mut self, field: &'static str) -> (r: Result<bool>)
        requires
            old(self).wf(),
        ensures
            final(self).wf(),
            final(self).input.bytes@ == old(self).input.bytes@,
            match r {
                Ok(v) => parse_bool(old(self).rest(), field) == Ok::<_, Error>((v, final(self).rest())),
                Err(e) => parse_bool(old(self).rest(), field) == Err::<(bool, Seq<u8>), _>(e),
            },
    {
        match self.u8()? {
            0 => Ok(false),
            1 => Ok(true),
            value => Err(Error::InvalidTag { field, value }),
        }
    }

    pub fn string(&mut self, field: &'static str) -> (r: Result<String>)
        requires
            old(self).wf(),
        ensures
            final(self).wf(),
            final(self).input.bytes@ == old(self).input.bytes@,
            match r {
                Ok(v) => parse_string(old(self).rest(), field) == Ok::<_, Error>((v@, final(self).rest())),
                Err(e) => parse_string(old(self).rest(), field) == Err::<(Seq<char>, Seq<u8>), _>(e),
            },
    {
        let length = self.u32()?;
        let bytes = self.take(length as usize)?;
        match string_from_utf8(bytes) {
            Some(value) => Ok(value),
            None => Err(Error::InvalidUtf8 { field }),
        }
    }

    pub fn rgb(&mut self) -> (r: Result<Rgb>)
        requires
            old(self).wf(),
        ensures
            final(self).wf(),
            final(self).input.bytes@ == old(self).input.bytes@,
            match r {
                Ok(v) => parse_rgb(old(self).rest()) == Ok::<_, Error>((v, final(self).rest())),
                Err(e) => parse_rgb(old(self).rest()) == Err::<(Rgb, Seq<u8>), _>(e),
            },
    {
        let bytes = self.take(3)?;
        Ok(Rgb { r: bytes[0], g: bytes[1], b: bytes[2] })
    }

    pub fn style_color(&mut self, field: &'static str) -> (r: Result<StyleColor>)
        requires
            old(self).wf(),
        ensures
            final(self).wf(),
            final(self).input.bytes@ == old(self).input.bytes@,
            match r {
                Ok(v) => parse_style_color(old(self).rest(), field) == Ok::<_, Error>((v, final(self).rest())),
                Err(e) => parse_style_color(old(self).rest(), field) == Err::<(StyleColor, Seq<u8>), _>(e),
            },
    {
        let tag = self.u8()?;
        let value = self.take(3)?;
        if tag == 0 && value[0] == 0 && value[1] == 0 && value[2] == 0 {
            Ok(StyleColor::Unset)
        } else if tag == 1 && value[1] == 0 && value[2] == 0 {
            Ok(StyleColor::Palette(value[0]))
        } else if tag == 2 {
            Ok(StyleColor::Rgb(Rgb { r: value[0], g: value[1], b: value[2] }))
        } else {
            Err(Error::InvalidTag { field, value: tag })
        }
    }

    pub fn style(&mut self) -> (r: Result<CellStyle>)
        requires
            old(self).wf(),
        ensures
            final(self).wf(),
            final(self).input.bytes@ == old(self).input.bytes@,
            match r {
                Ok(v) => parse_style(old(self).rest()) == Ok::<_, Error>((v, final(self).rest())),
                Err(e) => parse_style(old(self).rest()) == Err::<(CellStyle, Seq<u8>), _>(e),
            },
    {
        let foreground = self.style_color("foreground color")?;
        let background = self.style_color("background color")?;
        let underline_color = self.style_color("underline color")?;
        let flags = self.u16()?;
        if flags & !STYLE_FLAG_MASK != 0 {
            return Err(Error::InvalidFlags { field: "cell style", value: flags });
        }
        let underline = decode_underline(self.u8()?)?;
        Ok(
            CellStyle {
                foreground,
                background,
                underline_color,
                bold: flags & 1 != 0,
                italic: flags & 2 != 0,
                faint: flags & 4 != 0,
                blink: flags & 8 != 0,
                inverse: flags & 16 != 0,
                invisible: flags & 32 != 0,
                strikethrough: flags & 64 != 0,
                overline: flags & 128 != 0,
                selected: flags & 256 != 0,
                protected: flags & 512 != 0,
                underline,
            },
        )
    }
}


// ---------------------------------------------------------------- prefix-closed failures

/// Once reading the first `i` cells fails, reading more fails the same way.
pub proof fn lemma_parse_cells_error_persists(s: Seq<u8>, i: nat, n: nat)
    requires
        i <= n,
        parse_cells(s, i) is Err,
    ensures
        parse_cells(s, n) == parse_cells(s, i),
    decreases n,
{
    if n > i {
        lemma_parse_cells_error_persists(s, i, (n - 1) as nat);
    }
}

/// Once reading the first `i` rows fails, reading more fails the same way.
pub proof fn lemma_parse_rows_error_persists(s: Seq<u8>, i: nat, n: nat, cols: u16)
    requires
        i <= n,
        parse_rows(s, i, cols) is Err,
    ensures
        parse_rows(s, n, cols) == parse_rows(s, i, cols),
    decreases n,
{
    if n > i {
        lemma_parse_rows_error_persists(s, i, (n - 1) as nat, cols);
    }
}

/// Once reading the first `i` palette entries fails, reading more fails the same way.
pub proof fn lemma_parse_palette_error_persists(s: Seq<u8>, i: nat, n: nat)
    requires
        i <= n,
        parse_palette(s, i) is Err,
    ensures
        parse_palette(s, n) == parse_palette(s, i),
    decreases n,
{
    if n > i {
        lemma_parse_palette_error_persists(s, i, (n - 1) as nat);
    }
}

// ---------------------------------------------------------------- rows

pub open spec fn cells_view(cells: Seq<Cell>) -> Seq<CellV> {
    cells.map_values(|c: Cell| c@)
}

pub open spec fn rows_view(rows: Seq<Row>) -> Seq<RowV> {
    rows.map_values(|r: Row| r@)
}

/// All strings of a row fit the ORBF v1 length prefix.
pub open spec fn row_strings_fit(row: RowV) -> bool {
    forall|i: int|
        0 <= i < row.cells.len() ==> utf8(#[trigger] row.cells[i].text).len() <= u32::MAX && utf8(
            row.cells[i].hyperlink,
        ).len() <= u32::MAX
}

pub fn decode_cell(decoder: &mut Decoder) -> (r: Result<Cell>)
    requires
        old(decoder).wf(),
    ensures
        final(decoder).wf(),
        final(decoder).input.bytes@ == old(decoder).input.bytes@,
        match r {
            Ok(c) => parse_cell(old(decoder).rest()) == Ok::<_, Error>((c@, final(decoder).rest())),
            Err(e) => parse_cell(old(decoder).rest()) == Err::<(CellV, Seq<u8>), _>(e),
        },
{
    let width = decode_cell_width(decoder.u8()?)?;
    let style = decoder.style()?;
    let text = decoder.string("cell text")?;
    let hyperlink = decoder.string("cell hyperlink")?;
    Ok(Cell { width, style, text, hyperlink })
}

pub fn validate_cell_width_topology(row: &Row) -> (r: Result<()>)
    ensures
        r is Ok <==> topology_ok(row@.cells, row.wrapped),
        r matches Err(e) ==> e == (Error::InvalidShape { field: "cell width topology" }),
{
    let ghost cells = row@.cells;
    let n = row.cells.len();
    let mut index: usize = 0;
    while index < n
        invariant
            n == row.cells@.len(),
            cells == row@.cells,
            index <= n,
            forall|j: int| 0 <= j < index ==> #[trigger] cell_width_ok(cells, row.wrapped, j),
        decreases n - index,
    {
        let valid = match row.cells[index].width {
            CellWidth::Narrow => true,
            CellWidth::Wide => index + 1 < n && row.cells[index + 1].width == CellWidth::SpacerTail,
            CellWidth::SpacerTail => index > 0 && row.cells[index - 1].width == CellWidth::Wide,
            CellWidth::SpacerHead => index > 0 && index + 1 == n && row.wrapped,
        };
        assert(valid == cell_width_ok(cells, row.wrapped, index as int));
        if !valid {
            return Err(Error::InvalidShape { field: "cell width topology" });
        }
        index += 1;
    }
    Ok(())
}

pub fn decode_row(decoder: &mut Decoder, cols: u16) -> (r: Result<Row>)
    requires
        old(decoder).wf(),
    ensures
        final(decoder).wf(),
        final(decoder).input.bytes@ == old(decoder).input.bytes@,
        match r {
            Ok(row) => parse_row(old(decoder).rest(), cols) == Ok::<_, Error>((row@, final(decoder).rest())),
            Err(e) => parse_row(old(decoder).rest(), cols) == Err::<(RowV, Seq<u8>), _>(e),
        },
{
    let flags = decoder.u8()?;
    if flags & !ROW_FLAG_MASK != 0 {
        return Err(Error::InvalidFlags { field: "row", value: flags as u16 });
    }
    let ghost start = decoder.rest();
    let mut cells: Vec<Cell> = Vec::with_capacity(cols as usize);
    let mut i: u16 = 0;
    assert(cells_view(cells@) =~= Seq::<CellV>::empty());
    while i < cols
        invariant
            decoder.wf(),
            decoder.input.bytes@ == old(decoder).input.bytes@,
            i <= cols,
            read_u8(old(decoder).rest()) == Some((flags, start)),
            flags & !ROW_FLAG_MASK == 0,
            parse_cells(start, i as nat) == Ok::<_, Error>((cells_view(cells@), decoder.rest())),
        decreases cols - i,
    {
        let ghost before = cells@;
        match decode_cell(decoder) {
            Ok(cell) => {
                cells.push(cell);
                assert(cells_view(cells@) =~= cells_view(before).push(cell@));
            },
            Err(e) => {
                proof {
                    lemma_parse_cells_error_persists(start, (i + 1) as nat, cols as nat);
                    assert(parse_cells(start, cols as nat) == Err::<(Seq<CellV>, Seq<u8>), _>(e));
                }
                return Err(e);
            },
        }
        i += 1;
    }
    let row = Row {
        wrapped: flags & 1 != 0,
        wrap_continuation: flags & 2 != 0,
        kitty_virtual_placeholder: flags & 4 != 0,
        cells,
    };
    assert(row@.cells == cells_view(row.cells@));
    assert(parse_cells(start, cols as nat) == Ok::<_, Error>((row@.cells, decoder.rest())));
    match validate_cell_width_topology(&row) {
        Ok(()) => Ok(row),
        Err(e) => {
            assert(parse_row(old(decoder).rest(), cols) == Err::<(RowV, Seq<u8>), _>(e));
            Err(e)
        },
    }
}

pub fn encode_row(encoder: &mut Encoder, row: &Row)
    requires
        row_strings_fit(row@),
    ensures
        final(encoder).0@ == old(encoder).0@ + ser_row(row@),
{
    let ghost start = encoder.0@;
    let flags: u8 = (if row.wrapped { 1u8 } else { 0 }) | ((if row.wrap_continuation { 1u8 } else { 0 })
        << 1u8) | ((if row.kitty_virtual_placeholder { 1u8 } else { 0 }) << 2u8);
    assert(flags == row_flags(row@));
    encoder.u8(flags);
    let ghost cv = row@.cells;
    let n = row.cells.len();
    let mut i: usize = 0;
    assert(cv.take(0) =~= Seq::<CellV>::empty());
    while i < n
        invariant
            n == row.cells@.len(),
            cv == row@.cells,
            row_strings_fit(row@),
            i <= n,
            encoder.0@ == start + seq![flags] + ser_cells(cv.take(i as int)),
        decreases n - i,
    {
        let cell = &row.cells[i];
        assert(cv[i as int] == cell@);
        assert(utf8(cv[i as int].text).len() <= u32::MAX);
        assert(utf8(cv[i as int].hyperlink).len() <= u32::MAX);
        let ghost before = encoder.0@;
        encoder.u8(cell_width_tag(cell.width));
        encoder.style(cell.style);
        encoder.string(&cell.text);
        encoder.string(&cell.hyperlink);
        proof {
            assert(cv.take(i + 1).drop_last() =~= cv.take(i as int));
            assert(encoder.0@ =~= before + ser_cell(cv[i as int]));
        }
        i += 1;
    }
    assert(cv.take(n as int) =~= cv);
    assert(encoder.0@ =~= start + ser_row(row@));
}


// ---------------------------------------------------------------- frame sections

pub fn decode_colors(decoder: &mut Decoder) -> (r: Result<Colors>)
    requires
        old(decoder).wf(),
    ensures
        final(decoder).wf(),
        final(decoder).input.bytes@ == old(decoder).input.bytes@,
        match r {
            Ok(c) => parse_colors(old(decoder).rest()) == Ok::<_, Error>((c@, final(decoder).rest())),
            Err(e) => parse_colors(old(decoder).rest()) == Err::<(ColorsV, Seq<u8>), _>(e),
        },
{
    reveal(parse_colors);
    let background = decoder.rgb()?;
    let foreground = decoder.rgb()?;
    let cursor = if decoder.boolean("cursor color presence")? {
        Some(decoder.rgb()?)
    } else {
        None
    };
    let ghost start = decoder.rest();
    let ghost entry = old(decoder).rest();
    assert(forall|n: nat| #![trigger parse_palette(start, n)] n == PALETTE_LEN ==> parse_colors(entry) == match parse_palette(start, n) {
        Err(e) => Err(e),
        Ok((p, r)) => Ok((ColorsV { background, foreground, cursor, palette: p }, r)),
    });
    let mut palette = [Rgb { r: 0, g: 0, b: 0 }; 256];
    let mut i: usize = 0;
    assert(palette@.take(0) =~= Seq::<Rgb>::empty());
    while i < PALETTE_LEN
        invariant
            decoder.wf(),
            decoder.input.bytes@ == old(decoder).input.bytes@,
            i <= PALETTE_LEN,
            palette@.len() == PALETTE_LEN,
            entry == old(decoder).rest(),
            forall|n: nat| #![trigger parse_palette(start, n)] n == PALETTE_LEN ==> parse_colors(entry) == match parse_palette(start, n) {
                Err(e) => Err(e),
                Ok((p, r)) => Ok((ColorsV { background, foreground, cursor, palette: p }, r)),
            },
            parse_palette(start, i as nat) == Ok::<_, Error>((palette@.take(i as int), decoder.rest())),
        decreases PALETTE_LEN - i,
    {
        let ghost before = palette@;
        match decoder.rgb() {
            Ok(color) => {
                palette[i] = color;
                assert(palette@.take(i + 1) =~= before.take(i as int).push(color));
            },
            Err(e) => {
                proof {
                    lemma_parse_palette_error_persists(start, (i + 1) as nat, PALETTE_LEN as nat);
                }
                assert(parse_palette(start, PALETTE_LEN as nat) == Err::<(Seq<Rgb>, Seq<u8>), _>(e));
                return Err(e);
            },
        }
        i += 1;
    }
    assert(palette@.take(PALETTE_LEN as int) =~= palette@);
    Ok(Colors { background, foreground, cursor, palette })
}

pub fn decode_cursor(decoder: &mut Decoder, dimensions: Dimensions) -> (r: Result<Cursor>)
    requires
        old(decoder).wf(),
    ensures
        final(decoder).wf(),
        final(decoder).input.bytes@ == old(decoder).input.bytes@,
        match r {
            Ok(c) => parse_cursor(old(decoder).rest(), dimensions) == Ok::<_, Error>((c, final(decoder).rest())),
            Err(e) => parse_cursor(old(decoder).rest(), dimensions) == Err::<(Cursor, Seq<u8>), _>(e),
        },
{
    reveal(parse_cursor);
    let visible = decoder.boolean("cursor visibility")?;
    let blinking = decoder.boolean("cursor blinking")?;
    let password_input = decoder.boolean("cursor password input")?;
    let shape = decode_cursor_shape(decoder.u8()?)?;
    let ghost before_viewport = decoder.rest();
    let viewport = if decoder.boolean("cursor viewport presence")? {
        let x = decoder.u16()?;
        let y = decoder.u16()?;
        let at_wide_tail = decoder.boolean("cursor wide-tail state")?;
        if x >= dimensions.cols || y >= dimensions.rows {
            assert(parse_viewport(before_viewport, dimensions) is Err);
            return Err(Error::InvalidShape { field: "cursor viewport" });
        }
        Some(CursorViewport { x, y, at_wide_tail })
    } else {
        None
    };
    assert(parse_viewport(before_viewport, dimensions) == Ok::<_, Error>((viewport, decoder.rest())));
    Ok(Cursor { visible, blinking, password_input, shape, viewport })
}

pub fn validate_dimensions(dimensions: Dimensions) -> (r: Result<usize>)
    ensures
        match r {
            Ok(n) => dimensions_error(dimensions) is None && n == dimensions.cols * dimensions.rows,
            Err(e) => dimensions_error(dimensions) == Some(e),
        },
{
    let c = dimensions.cols as usize;
    let rr = dimensions.rows as usize;
    assert(c * rr <= 65535 * 65535) by (nonlinear_arith)
        requires
            c <= 65535,
            rr <= 65535,
    ;
    let count = c * rr;
    if count == 0 || count > MAX_CELLS {
        return Err(Error::InvalidDimensions { cols: dimensions.cols, rows: dimensions.rows });
    }
    Ok(count)
}

pub fn validate_capabilities(capabilities: Capabilities) -> (r: Result<()>)
    ensures
        r is Ok <==> capabilities_ok(capabilities),
        r matches Err(e) ==> e == (Error::InvalidShape { field: "capabilities" }),
{
    if !capabilities.hyperlinks || capabilities.kitty_graphics {
        Err(Error::InvalidShape { field: "capabilities" })
    } else {
        Ok(())
    }
}

/// The fields read before the colors.
pub struct PreambleFields {
    pub revision: u64,
    pub dimensions: Dimensions,
    pub screen: Screen,
    pub title: String,
    pub working_directory: String,
    pub capabilities: Capabilities,
}

pub open spec fn preamble_view(p: PreambleFields) -> Preamble {
    Preamble {
        revision: p.revision,
        dimensions: p.dimensions,
        screen: p.screen,
        title: p.title@,
        working_directory: p.working_directory@,
        capabilities: p.capabilities,
    }
}

pub fn decode_preamble(decoder: &mut Decoder) -> (r: Result<PreambleFields>)
    requires
        old(decoder).wf(),
    ensures
        final(decoder).wf(),
        final(decoder).input.bytes@ == old(decoder).input.bytes@,
        match r {
            Ok(p) => parse_preamble(old(decoder).rest()) == Ok::<_, Error>((preamble_view(p), final(decoder).rest())),
            Err(e) => parse_preamble(old(decoder).rest()) == Err::<(Preamble, Seq<u8>), _>(e),
        },
{
    reveal(parse_preamble);
    reveal(parse_preamble_rest);
    let magic = decoder.take(4)?;
    if !(magic[0] == MAGIC[0] && magic[1] == MAGIC[1] && magic[2] == MAGIC[2] && magic[3] == MAGIC[3]) {
        assert(magic@ != magic_bytes()) by {
            if magic@ == magic_bytes() {
                assert(magic@[0] == 79 && magic@[1] == 82 && magic@[2] == 66 && magic@[3] == 70);
            }
        }
        return Err(Error::InvalidMagic);
    }
    assert(magic@ =~= magic_bytes());
    let version = decoder.u16()?;
    if version != VERSION {
        return Err(Error::UnsupportedVersion { version });
    }
    let revision = decoder.u64()?;
    let cols = decoder.u16()?;
    let rows = decoder.u16()?;
    let dimensions = Dimensions { cols, rows };
    validate_dimensions(dimensions)?;
    let ghost rest_start = decoder.rest();
    let screen = decode_screen(decoder.u8()?)?;
    let title = decoder.string("title")?;
    let working_directory = decoder.string("working directory")?;
    let hyperlinks = decoder.boolean("hyperlink capability")?;
    let kitty_graphics = decoder.boolean("Kitty graphics capability")?;
    let capabilities = Capabilities { hyperlinks, kitty_graphics };
    validate_capabilities(capabilities)?;
    let p = PreambleFields { revision, dimensions, screen, title, working_directory, capabilities };
    assert(parse_preamble_rest(rest_start, revision, dimensions) == Ok::<_, Error>((preamble_view(p), decoder.rest())));
    Ok(p)
}


// ---------------------------------------------------------------- whole frames

pub open spec fn frame_result(r: Result<Frame>) -> core::result::Result<FrameV, Error> {
    match r {
        Ok(f) => Ok(f@),
        Err(e) => Err(e),
    }
}

pub fn decode_rows(decoder: &mut Decoder, dimensions: Dimensions) -> (r: Result<Vec<Row>>)
    requires
        old(decoder).wf(),
    ensures
        final(decoder).wf(),
        final(decoder).input.bytes@ == old(decoder).input.bytes@,
        match r {
            Ok(rows) => parse_rows(old(decoder).rest(), dimensions.rows as nat, dimensions.cols)
                == Ok::<_, Error>((rows_view(rows@), final(decoder).rest())),
            Err(e) => parse_rows(old(decoder).rest(), dimensions.rows as nat, dimensions.cols)
                == Err::<(Seq<RowV>, Seq<u8>), _>(e),
        },
{
    let ghost start = decoder.rest();
    let mut rows: Vec<Row> = Vec::with_capacity(dimensions.rows as usize);
    let mut i: u16 = 0;
    assert(rows_view(rows@) =~= Seq::<RowV>::empty());
    while i < dimensions.rows
        invariant
            decoder.wf(),
            decoder.input.bytes@ == old(decoder).input.bytes@,
            i <= dimensions.rows,
            start == old(decoder).rest(),
            parse_rows(start, i as nat, dimensions.cols) == Ok::<_, Error>((rows_view(rows@), decoder.rest())),
        decreases dimensions.rows - i,
    {
        let ghost before = rows@;
        match decode_row(decoder, dimensions.cols) {
            Ok(row) => {
                rows.push(row);
                assert(rows_view(rows@) =~= rows_view(before).push(row@));
            },
            Err(e) => {
                proof {
                    lemma_parse_rows_error_persists(start, (i + 1) as nat, dimensions.rows as nat, dimensions.cols);
                }
                return Err(e);
            },
        }
        i += 1;
    }
    Ok(rows)
}

/// Decode and strictly validate one complete ORBF v1 payload.
pub fn decode_frame(bytes: &[u8]) -> (r: Result<Frame>)
    ensures
        frame_result(r) == crate::frame_spec::spec_decode_frame(bytes@),
{
    if bytes.len() > MAX_FRAME_BYTES {
        return Err(Error::FrameTooLarge { size: bytes.len() });
    }
    let mut decoder = Decoder { input: ByteCursor::new(bytes) };
    let p = decode_preamble(&mut decoder)?;
    let colors = decode_colors(&mut decoder)?;
    let cursor = decode_cursor(&mut decoder, p.dimensions)?;
    let rows = decode_rows(&mut decoder, p.dimensions)?;
    if decoder.input.position != bytes.len() {
        return Err(Error::TrailingBytes { count: bytes.len() - decoder.input.position });
    }
    assert(decoder.rest().len() == 0);
    let frame = Frame {
        revision: p.revision,
        dimensions: p.dimensions,
        screen: p.screen,
        title: p.title,
        working_directory: p.working_directory,
        capabilities: p.capabilities,
        colors,
        cursor,
        rows,
    };
    assert(frame@.rows == rows_view(frame.rows@));
    Ok(frame)
}


// ---------------------------------------------------------------- size accounting and validation

pub fn encoded_string_size(field: &'static str, value: &str) -> (r: Result<usize>)
    ensures
        match r {
            Ok(n) => string_size(field, value@) == Ok::<nat, Error>(n as nat),
            Err(e) => string_size(field, value@) == Err::<nat, Error>(e),
        },
{
    let length = str_bytes(value).len();
    if length > u32::MAX as usize {
        return Err(Error::StringTooLong { field, length });
    }
    match STRING_LENGTH_BYTES.checked_add(length) {
        Some(n) => Ok(n),
        None => Err(Error::FrameTooLarge { size: usize::MAX }),
    }
}

pub fn validate_row_columns(cols: u16) -> (r: Result<()>)
    ensures
        r is Ok <==> !(cols == 0 || cols > MAX_CELLS),
        r matches Err(e) ==> e == (Error::InvalidDimensions { cols, rows: 1 }),
{
    if cols == 0 || cols as usize > MAX_CELLS {
        Err(Error::InvalidDimensions { cols, rows: 1 })
    } else {
        Ok(())
    }
}

pub fn validate_row(row: &Row, cols: u16) -> (r: Result<()>)
    ensures
        match r {
            Ok(()) => row_error(row@, cols) is None,
            Err(e) => row_error(row@, cols) == Some(e),
        },
{
    validate_row_columns(cols)?;
    if row.cells.len() != cols as usize {
        return Err(Error::InvalidShape { field: "cell" });
    }
    validate_cell_width_topology(row)
}

/// Account for rows in order: each row's shape, its header byte, then its cells.
pub fn account_rows(size: &mut FrameSize, rows: &[Row], cols: u16) -> (r: Result<()>)
    ensures
        match r {
            Ok(()) => size_rows(rows_view(rows@), cols, 0, old(size)@) == Ok::<nat, Error>(final(size)@),
            Err(e) => size_rows(rows_view(rows@), cols, 0, old(size)@) == Err::<nat, Error>(e),
        },
{
    let ghost h = size@;
    let ghost rows_v = rows_view(rows@);
    let n = rows.len();
    let mut i: usize = 0;
    while i < n
        invariant
            n == rows@.len(),
            rows_v == rows_view(rows@),
            h == old(size)@,
            i <= n,
            size_rows(rows_v, cols, 0, h) == size_rows(rows_v, cols, i as int, size@),
        decreases n - i,
    {
        let row = &rows[i];
        assert(rows_v[i as int] == row@);
        let ghost row_start = size@;
        validate_row(row, cols)?;
        size.add_row()?;
        let ghost after_row = size@;
        let ghost cells = row@.cells;
        assert(size_rows(rows_v, cols, i as int, row_start) == match size_cells(cells, 0, after_row) {
            Err(e) => Err(e),
            Ok(a2) => size_rows(rows_v, cols, i + 1, a2),
        });
        let m = row.cells.len();
        let mut j: usize = 0;
        while j < m
            invariant
                m == row.cells@.len(),
                cells == row@.cells,
                j <= m,
                h == old(size)@,
                rows_v == rows_view(rows@),
                size_rows(rows_v, cols, 0, h) == match size_cells(cells, j as int, size@) {
                    Err(e) => Err(e),
                    Ok(a2) => size_rows(rows_v, cols, i + 1, a2),
                },
            decreases m - j,
        {
            let cell = &row.cells[j];
            assert(cells[j as int] == cell@);
            size.add_cell(cell.text.as_str(), cell.hyperlink.as_str())?;
            j += 1;
        }
        i += 1;
    }
    Ok(())
}

/// The exact encoded size of an owned frame, or the first validation error.
pub fn validate_frame(frame: &Frame) -> (r: Result<usize>)
    ensures
        match r {
            Ok(n) => validate_frame_spec(frame@) == Ok::<nat, Error>(n as nat),
            Err(e) => validate_frame_spec(frame@) == Err::<nat, Error>(e),
        },
{
    validate_dimensions(frame.dimensions)?;
    validate_capabilities(frame.capabilities)?;
    if frame.rows.len() != frame.dimensions.rows as usize {
        return Err(Error::InvalidShape { field: "row" });
    }
    match frame.cursor.viewport {
        Some(cursor) => {
            if cursor.x >= frame.dimensions.cols || cursor.y >= frame.dimensions.rows {
                return Err(Error::InvalidShape { field: "cursor viewport" });
            }
        },
        None => {},
    }
    let mut size = FrameSize::new(
        frame.title.as_str(),
        frame.working_directory.as_str(),
        frame.colors.cursor.is_some(),
        frame.cursor.viewport.is_some(),
    )?;
    let ghost h = size@;
    assert(validate_frame_spec(frame@) == size_rows(frame@.rows, frame.dimensions.cols, 0, h));
    account_rows(&mut size, frame.rows.as_slice(), frame.dimensions.cols)?;
    Ok(size.bytes())
}

/// Incremental ORBF v1 byte accounting for bounded frame construction.
///
/// Producers use this before retaining variable-sized strings in an owned
/// [`Frame`]. The final value is also checked by [`encode_frame`].
/// `frame_round_trip::law_frame_size_calls_give_encoded_length` proves that
/// `new` on a frame's header, then `add_row` per row and `add_cell` per cell,
/// ends at exactly the length of the frame's encoding.
#[derive(Clone, Copy, Debug, PartialEq, Eq, Structural)]
pub struct FrameSize {
    bytes: usize,
}

impl View for FrameSize {
    type V = nat;

    closed spec fn view(&self) -> nat {
        self.bytes as nat
    }
}

impl FrameSize {
    #[verifier::type_invariant]
    closed spec fn within_limit(self) -> bool {
        self.bytes <= MAX_FRAME_BYTES
    }

    /// Start accounting for a frame header and its variable metadata.
    pub fn new(
        title: &str,
        working_directory: &str,
        has_cursor_color: bool,
        has_cursor_viewport: bool,
    ) -> (r: Result<FrameSize>)
        ensures
            match r {
                Ok(s) => size_header(title@, working_directory@, has_cursor_color, has_cursor_viewport)
                    == Ok::<nat, Error>(s@),
                Err(e) => size_header(title@, working_directory@, has_cursor_color, has_cursor_viewport)
                    == Err::<nat, Error>(e),
            },
    {
        let title = encoded_string_size("title", title)?;
        let working_directory = encoded_string_size("working directory", working_directory)?;
        let color: usize = if has_cursor_color { 3 } else { 0 };
        let viewport: usize = if has_cursor_viewport { 5 } else { 0 };
        let bytes = match FRAME_FIXED_BYTES.checked_add(title) {
            None => return Err(Error::FrameTooLarge { size: usize::MAX }),
            Some(a) => match a.checked_add(working_directory) {
                None => return Err(Error::FrameTooLarge { size: usize::MAX }),
                Some(b) => match b.checked_add(color) {
                    None => return Err(Error::FrameTooLarge { size: usize::MAX }),
                    Some(c) => match c.checked_add(viewport) {
                        None => return Err(Error::FrameTooLarge { size: usize::MAX }),
                        Some(d) => d,
                    },
                },
            },
        };
        Self::from_bytes(bytes)
    }

    /// Reserve one encoded row header.
    pub fn add_row(&mut self) -> (r: Result<()>)
        ensures
            match r {
                Ok(()) => size_add(old(self)@ as int, ROW_FIXED_BYTES as int) == Ok::<nat, Error>(final(self)@),
                Err(e) => size_add(old(self)@ as int, ROW_FIXED_BYTES as int) == Err::<nat, Error>(e)
                    && final(self)@ == old(self)@,
            },
    {
        self.add(ROW_FIXED_BYTES)
    }

    /// Reserve one encoded cell before retaining its strings.
    pub fn add_cell(&mut self, text: &str, hyperlink: &str) -> (r: Result<()>)
        ensures
            match r {
                Ok(()) => size_cell(old(self)@, text@, hyperlink@) == Ok::<nat, Error>(final(self)@),
                Err(e) => size_cell(old(self)@, text@, hyperlink@) == Err::<nat, Error>(e)
                    && final(self)@ == old(self)@,
            },
    {
        let text = encoded_string_size("cell text", text)?;
        let hyperlink = encoded_string_size("cell hyperlink", hyperlink)?;
        let size = match CELL_FIXED_BYTES.checked_add(text) {
            None => return Err(Error::FrameTooLarge { size: usize::MAX }),
            Some(a) => match a.checked_add(hyperlink) {
                None => return Err(Error::FrameTooLarge { size: usize::MAX }),
                Some(b) => b,
            },
        };
        self.add(size)
    }

    /// Return the exact encoded size accounted so far.
    pub fn bytes(self) -> (n: usize)
        ensures
            n == self@,
            n <= MAX_FRAME_BYTES,
    {
        proof {
            use_type_invariant(&self);
        }
        self.bytes
    }

    fn from_bytes(bytes: usize) -> (r: Result<FrameSize>)
        ensures
            match r {
                Ok(s) => size_add(0, bytes as int) == Ok::<nat, Error>(s@),
                Err(e) => size_add(0, bytes as int) == Err::<nat, Error>(e),
            },
    {
        if bytes > MAX_FRAME_BYTES {
            Err(Error::FrameTooLarge { size: bytes })
        } else {
            Ok(FrameSize { bytes })
        }
    }

    fn add(&mut self, value: usize) -> (r: Result<()>)
        ensures
            match r {
                Ok(()) => size_add(old(self)@ as int, value as int) == Ok::<nat, Error>(final(self)@),
                Err(e) => size_add(old(self)@ as int, value as int) == Err::<nat, Error>(e)
                    && final(self)@ == old(self)@,
            },
    {
        let bytes = match self.bytes.checked_add(value) {
            Some(b) => b,
            None => return Err(Error::FrameTooLarge { size: usize::MAX }),
        };
        let next = Self::from_bytes(bytes)?;
        *self = next;
        Ok(())
    }
}


// ---------------------------------------------------------------- encoding

pub proof fn lemma_size_cells_ok(cells: Seq<CellV>, i: int, acc: nat)
    requires
        0 <= i,
        size_cells(cells, i, acc) is Ok,
    ensures
        forall|j: int|
            i <= j < cells.len() ==> utf8(#[trigger] cells[j].text).len() <= u32::MAX && utf8(
                cells[j].hyperlink,
            ).len() <= u32::MAX,
    decreases cells.len() - i,
{
    if i < cells.len() {
        let a = size_cell(acc, cells[i].text, cells[i].hyperlink)->Ok_0;
        lemma_size_cells_ok(cells, i + 1, a);
    }
}

pub proof fn lemma_size_rows_ok(rows: Seq<RowV>, cols: u16, i: int, acc: nat)
    requires
        0 <= i,
        size_rows(rows, cols, i, acc) is Ok,
    ensures
        forall|j: int| i <= j < rows.len() ==> row_strings_fit(#[trigger] rows[j]),
        forall|j: int| i <= j < rows.len() ==> row_error(#[trigger] rows[j], cols) is None,
    decreases rows.len() - i,
{
    if i < rows.len() {
        let a = size_add(acc as int, ROW_FIXED_BYTES as int)->Ok_0;
        lemma_size_cells_ok(rows[i].cells, 0, a);
        let a2 = size_cells(rows[i].cells, 0, a)->Ok_0;
        lemma_size_rows_ok(rows, cols, i + 1, a2);
    }
}

/// A frame that passes validation has only strings that fit their length prefix.
pub proof fn lemma_valid_frame_strings_fit(f: FrameV)
    requires
        validate_frame_spec(f) is Ok,
    ensures
        utf8(f.title).len() <= u32::MAX,
        utf8(f.working_directory).len() <= u32::MAX,
        forall|j: int| 0 <= j < f.rows.len() ==> row_strings_fit(#[trigger] f.rows[j]),
        forall|j: int| 0 <= j < f.rows.len() ==> row_error(#[trigger] f.rows[j], f.dimensions.cols) is None,
{
    let h = size_header(
        f.title,
        f.working_directory,
        f.colors.cursor is Some,
        f.cursor.viewport is Some,
    )->Ok_0;
    lemma_size_rows_ok(f.rows, f.dimensions.cols, 0, h);
}

pub fn encode_preamble(encoder: &mut Encoder, frame: &Frame)
    requires
        utf8(frame.title@).len() <= u32::MAX,
        utf8(frame.working_directory@).len() <= u32::MAX,
    ensures
        final(encoder).0@ == old(encoder).0@ + crate::frame_spec::ser_preamble(
            crate::frame_spec::preamble_of(frame@),
        ),
{
    let ghost start = encoder.0@;
    encoder.bytes(MAGIC.as_slice());
    assert(MAGIC@ =~= magic_bytes());
    encoder.u16(VERSION);
    encoder.u64(frame.revision);
    encoder.u16(frame.dimensions.cols);
    encoder.u16(frame.dimensions.rows);
    encoder.u8(screen_tag(frame.screen));
    encoder.string(&frame.title);
    encoder.string(&frame.working_directory);
    encoder.boolean(frame.capabilities.hyperlinks);
    encoder.boolean(frame.capabilities.kitty_graphics);
    assert(encoder.0@ =~= start + crate::frame_spec::ser_preamble(crate::frame_spec::preamble_of(frame@)));
}

pub fn encode_colors(encoder: &mut Encoder, colors: &Colors)
    ensures
        final(encoder).0@ == old(encoder).0@ + ser_colors(colors@),
{
    let ghost start = encoder.0@;
    encoder.rgb(colors.background);
    encoder.rgb(colors.foreground);
    match colors.cursor {
        Some(cursor) => {
            encoder.boolean(true);
            encoder.rgb(cursor);
        },
        None => {
            encoder.boolean(false);
        },
    }
    let ghost before_palette = encoder.0@;
    let ghost p = colors.palette@;
    let mut i: usize = 0;
    assert(p.take(0) =~= Seq::<Rgb>::empty());
    while i < PALETTE_LEN
        invariant
            p == colors.palette@,
            p.len() == PALETTE_LEN,
            i <= PALETTE_LEN,
            encoder.0@ == before_palette + ser_palette(p.take(i as int)),
        decreases PALETTE_LEN - i,
    {
        encoder.rgb(colors.palette[i]);
        assert(p.take(i + 1).drop_last() =~= p.take(i as int));
        i += 1;
    }
    assert(p.take(PALETTE_LEN as int) =~= p);
    assert(encoder.0@ =~= start + ser_colors(colors@));
}

pub fn encode_viewport(encoder: &mut Encoder, viewport: Option<CursorViewport>)
    ensures
        final(encoder).0@ == old(encoder).0@ + ser_optional_viewport(viewport),
{
    let ghost start = encoder.0@;
    match viewport {
        Some(v) => {
            encoder.boolean(true);
            encoder.u16(v.x);
            encoder.u16(v.y);
            encoder.boolean(v.at_wide_tail);
        },
        None => {
            encoder.boolean(false);
        },
    }
    assert(encoder.0@ =~= start + ser_optional_viewport(viewport));
}

pub fn encode_cursor(encoder: &mut Encoder, cursor: Cursor)
    ensures
        final(encoder).0@ == old(encoder).0@ + ser_cursor(cursor),
{
    let ghost start = encoder.0@;
    encoder.boolean(cursor.visible);
    encoder.boolean(cursor.blinking);
    encoder.boolean(cursor.password_input);
    encoder.u8(cursor_shape_tag(cursor.shape));
    encode_viewport(encoder, cursor.viewport);
    assert(encoder.0@ =~= start + ser_cursor(cursor));
}

pub fn encode_rows(encoder: &mut Encoder, rows: &Vec<Row>)
    requires
        forall|j: int| 0 <= j < rows@.len() ==> row_strings_fit(#[trigger] rows_view(rows@)[j]),
    ensures
        final(encoder).0@ == old(encoder).0@ + ser_rows(rows_view(rows@)),
{
    let ghost start = encoder.0@;
    let ghost rv = rows_view(rows@);
    let n = rows.len();
    let mut i: usize = 0;
    assert(rv.take(0) =~= Seq::<RowV>::empty());
    while i < n
        invariant
            n == rows@.len(),
            rv == rows_view(rows@),
            forall|j: int| 0 <= j < rows@.len() ==> row_strings_fit(#[trigger] rows_view(rows@)[j]),
            i <= n,
            encoder.0@ == start + ser_rows(rv.take(i as int)),
        decreases n - i,
    {
        assert(rv[i as int] == rows@[i as int]@);
        assert(row_strings_fit(rv[i as int]));
        encode_row(encoder, &rows[i]);
        assert(rv.take(i + 1).drop_last() =~= rv.take(i as int));
        i += 1;
    }
    assert(rv.take(n as int) =~= rv);
}

/// Encode one owned frame as canonical ORBF v1 bytes.
pub fn encode_frame(frame: &Frame) -> (r: Result<Vec<u8>>)
    ensures
        match r {
            Ok(b) => crate::frame_spec::spec_encode_frame(frame@) == Ok::<Seq<u8>, Error>(b@),
            Err(e) => crate::frame_spec::spec_encode_frame(frame@) == Err::<Seq<u8>, Error>(e),
        },
{
    let encoded_size = validate_frame(frame)?;
    proof {
        lemma_valid_frame_strings_fit(frame@);
    }
    let mut encoder = Encoder(Vec::with_capacity(encoded_size));
    encode_preamble(&mut encoder, frame);
    encode_colors(&mut encoder, &frame.colors);
    encode_cursor(&mut encoder, frame.cursor);
    encode_rows(&mut encoder, &frame.rows);
    assert(encoder.0@ =~= crate::frame_spec::ser_frame(frame@));
    Ok(encoder.0)
}


// ---------------------------------------------------------------- public operations

impl Frame {
    /// Encode this frame as canonical ORBF v1 bytes.
    pub fn encode(&self) -> (r: Result<Vec<u8>>)
        ensures
            match r {
                Ok(b) => crate::frame_spec::spec_encode_frame(self@) == Ok::<Seq<u8>, Error>(b@),
                Err(e) => crate::frame_spec::spec_encode_frame(self@) == Err::<Seq<u8>, Error>(e),
            },
    {
        encode_frame(self)
    }
}

/// Encode one row on its own, validated against `cols` columns.
pub fn encode_canonical_row(row: &Row, cols: u16) -> (r: Result<Vec<u8>>)
    ensures
        match r {
            Ok(b) => crate::frame_spec::spec_encode_canonical_row(row@, cols) == Ok::<Seq<u8>, Error>(b@),
            Err(e) => crate::frame_spec::spec_encode_canonical_row(row@, cols) == Err::<Seq<u8>, Error>(e),
        },
{
    validate_row(row, cols)?;
    let mut size = FrameSize::from_bytes(ROW_FIXED_BYTES)?;
    let ghost cells = row@.cells;
    let ghost start = size@;
    let m = row.cells.len();
    let mut j: usize = 0;
    while j < m
        invariant
            m == row.cells@.len(),
            cells == row@.cells,
            j <= m,
            size_cells(cells, 0, start) == size_cells(cells, j as int, size@),
            start == ROW_FIXED_BYTES,
            row_error(row@, cols) is None,
        decreases m - j,
    {
        let cell = &row.cells[j];
        assert(cells[j as int] == cell@);
        size.add_cell(cell.text.as_str(), cell.hyperlink.as_str())?;
        j += 1;
    }
    proof {
        lemma_size_cells_ok(cells, 0, start);
    }
    let mut encoder = Encoder(Vec::with_capacity(size.bytes()));
    encode_row(&mut encoder, row);
    assert(encoder.0@ =~= crate::frame_spec::ser_row(row@));
    Ok(encoder.0)
}

/// Decode exactly one row of `cols` cells.
pub fn decode_canonical_row(bytes: &[u8], cols: u16) -> (r: Result<Row>)
    ensures
        match r {
            Ok(row) => crate::frame_spec::spec_decode_canonical_row(bytes@, cols) == Ok::<RowV, Error>(row@),
            Err(e) => crate::frame_spec::spec_decode_canonical_row(bytes@, cols) == Err::<RowV, Error>(e),
        },
{
    validate_row_columns(cols)?;
    if bytes.len() > MAX_FRAME_BYTES {
        return Err(Error::FrameTooLarge { size: bytes.len() });
    }
    let mut decoder = Decoder { input: ByteCursor::new(bytes) };
    let row = decode_row(&mut decoder, cols)?;
    if decoder.input.position != bytes.len() {
        return Err(Error::TrailingBytes { count: bytes.len() - decoder.input.position });
    }
    Ok(row)
}

/// Encode a run of rows back to back, validated against `cols` columns and
/// bounded by one frame's byte limit.
pub fn encode_canonical_rows(rows: &[Row], cols: u16) -> (r: Result<Vec<u8>>)
    ensures
        match r {
            Ok(b) => crate::frame_spec::spec_encode_canonical_rows(rows_view(rows@), cols) == Ok::<Seq<u8>, Error>(b@),
            Err(e) => crate::frame_spec::spec_encode_canonical_rows(rows_view(rows@), cols) == Err::<Seq<u8>, Error>(e),
        },
{
    let mut size = FrameSize::from_bytes(0)?;
    account_rows(&mut size, rows, cols)?;
    proof {
        lemma_size_rows_ok(rows_view(rows@), cols, 0, 0);
    }
    let mut encoder = Encoder(Vec::with_capacity(size.bytes()));
    let ghost start = encoder.0@;
    let ghost rv = rows_view(rows@);
    let n = rows.len();
    let mut i: usize = 0;
    assert(rv.take(0) =~= Seq::<RowV>::empty());
    while i < n
        invariant
            n == rows@.len(),
            rv == rows_view(rows@),
            forall|j: int| 0 <= j < rows@.len() ==> row_strings_fit(#[trigger] rv[j]),
            i <= n,
            encoder.0@ == start + ser_rows(rv.take(i as int)),
        decreases n - i,
    {
        assert(rv[i as int] == rows@[i as int]@);
        assert(row_strings_fit(rv[i as int]));
        encode_row(&mut encoder, &rows[i]);
        assert(rv.take(i + 1).drop_last() =~= rv.take(i as int));
        i += 1;
    }
    assert(rv.take(n as int) =~= rv);
    assert(encoder.0@ =~= ser_rows(rv));
    Ok(encoder.0)
}

/// Decode exactly `count` rows of `cols` cells each.
pub fn decode_canonical_rows(bytes: &[u8], cols: u16, count: u16) -> (r: Result<Vec<Row>>)
    ensures
        match r {
            Ok(rows) => crate::frame_spec::spec_decode_canonical_rows(bytes@, cols, count)
                == Ok::<Seq<RowV>, Error>(rows_view(rows@)),
            Err(e) => crate::frame_spec::spec_decode_canonical_rows(bytes@, cols, count) == Err::<Seq<RowV>, Error>(e),
        },
{
    validate_row_columns(cols)?;
    if bytes.len() > MAX_FRAME_BYTES {
        return Err(Error::FrameTooLarge { size: bytes.len() });
    }
    let mut decoder = Decoder { input: ByteCursor::new(bytes) };
    let rows = decode_rows(&mut decoder, Dimensions { cols, rows: count })?;
    if decoder.input.position != bytes.len() {
        return Err(Error::TrailingBytes { count: bytes.len() - decoder.input.position });
    }
    Ok(rows)
}


// ---------------------------------------------------------------- reducer

/// Retains frames with supported ORBF v1 capabilities, valid cell-width
/// topology, and strictly increasing revisions.
#[derive(Debug)]
pub struct FrameReducer {
    current: Option<Frame>,
}

impl View for FrameReducer {
    type V = Option<FrameV>;

    closed spec fn view(&self) -> Option<FrameV> {
        match self.current {
            Some(f) => Some(f@),
            None => None,
        }
    }
}

impl Default for FrameReducer {
    fn default() -> (r: FrameReducer)
        ensures
            r@ is None,
    {
        FrameReducer { current: None }
    }
}

impl FrameReducer {
    /// A reducer that holds no frame yet.
    pub fn new() -> (r: FrameReducer)
        ensures
            r@ is None,
    {
        FrameReducer { current: None }
    }

    /// Return the accepted current frame, if any.
    pub fn current(&self) -> (r: Option<&Frame>)
        ensures
            match r {
                Some(f) => self@ == Some(f@),
                None => self@ is None,
            },
    {
        match &self.current {
            Some(f) => Some(f),
            None => None,
        }
    }

    /// Validate ORBF v1 capabilities and cell widths, then accept only a newer frame.
    pub fn push(&mut self, frame: Frame) -> (r: Result<&Frame>)
        ensures
            r is Ok <==> crate::frame_spec::push_error(old(self)@, frame@) is None,
            match r {
                Ok(f) => f@ == frame@ && final(self)@ == Some(frame@),
                Err(e) => crate::frame_spec::push_error(old(self)@, frame@) == Some(e)
                    && final(self)@ == old(self)@,
            },
    {
        validate_capabilities(frame.capabilities)?;
        let n = frame.rows.len();
        let mut i: usize = 0;
        while i < n
            invariant
                n == frame.rows@.len(),
                i <= n,
                forall|j: int| 0 <= j < i ==> topology_ok(#[trigger] frame@.rows[j].cells, frame@.rows[j].wrapped),
                capabilities_ok(frame.capabilities),
                self@ == old(self)@,
            decreases n - i,
        {
            assert(frame@.rows[i as int] == frame.rows@[i as int]@);
            match validate_cell_width_topology(&frame.rows[i]) {
                Ok(()) => {},
                Err(e) => {
                    assert(!topology_ok(frame@.rows[i as int].cells, frame@.rows[i as int].wrapped));
                    return Err(e);
                },
            }
            i += 1;
        }
        match &self.current {
            Some(current) => {
                if frame.revision <= current.revision {
                    return Err(Error::RevisionNotNewer { current: current.revision, incoming: frame.revision });
                }
            },
            None => {},
        }
        self.current = Some(frame);
        match &self.current {
            Some(f) => Ok(f),
            None => Err(Error::Truncated),
        }
    }

    /// Decode and accept one complete ORBF v1 frame.
    pub fn decode_and_push(&mut self, bytes: &[u8]) -> (r: Result<&Frame>)
        ensures
            match crate::frame_spec::spec_decode_frame(bytes@) {
                Err(e) => r == Err::<&Frame, Error>(e) && final(self)@ == old(self)@,
                Ok(f) => match r {
                    Ok(g) => g@ == f && final(self)@ == Some(f)
                        && crate::frame_spec::push_error(old(self)@, f) is None,
                    Err(e) => crate::frame_spec::push_error(old(self)@, f) == Some(e)
                        && final(self)@ == old(self)@,
                },
            },
    {
        let frame = decode_frame(bytes)?;
        self.push(frame)
    }

    /// Consume the reducer and return its current frame.
    pub fn into_current(self) -> (r: Option<Frame>)
        ensures
            match r {
                Some(f) => self@ == Some(f@),
                None => self@ is None,
            },
    {
        self.current
    }
}

} // verus!
