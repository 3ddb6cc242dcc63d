//! The ORBF v1 byte layout, as a serializer and a parser over sequences.
//!
//! `ser_*` functions give the canonical bytes of a value; `parse_*` functions
//! read a value from the front of the remaining input and report the exact
//! error the decoder reports.

use crate::frame::{
    CELL_FIXED_BYTES, Capabilities, CellStyle, CellV, CellWidth, ColorsV, Cursor, CursorShape,
    CursorViewport, Dimensions, Error, FRAME_FIXED_BYTES, FrameV, MAX_CELLS, MAX_FRAME_BYTES,
    PALETTE_LEN, ROW_FIXED_BYTES, ROW_FLAG_MASK, Rgb, RowV, STRING_LENGTH_BYTES, STYLE_FLAG_MASK,
    Screen, StyleColor, Underline, VERSION, magic_bytes,
};
use crate::wire::{
    chars_of, is_utf8, le16, le32, le64, read_bytes, read_u16, read_u32, read_u64, read_u8, utf8,
};
use vstd::prelude::*;

verus! {

pub type Parsed<T> = core::result::Result<(T, Seq<u8>), Error>;

pub open spec fn lift<T>(r: Option<(T, Seq<u8>)>) -> Parsed<T> {
    match r {
        Some(p) => Ok(p),
        None => Err(Error::Truncated),
    }
}

// ---------------------------------------------------------------- tags

pub open spec fn spec_screen_tag(s: Screen) -> u8 {
    match s {
        Screen::Primary => 0,
        Screen::Alternate => 1,
    }
}

pub open spec fn spec_decode_screen(tag: u8) -> core::result::Result<Screen, Error> {
    if tag == 0 {
        Ok(Screen::Primary)
    } else if tag == 1 {
        Ok(Screen::Alternate)
    } else {
        Err(Error::InvalidTag { field: "screen", value: tag })
    }
}

pub open spec fn spec_cursor_shape_tag(s: CursorShape) -> u8 {
    match s {
        CursorShape::Bar => 0,
        CursorShape::Block => 1,
        CursorShape::Underline => 2,
        CursorShape::BlockHollow => 3,
    }
}

pub open spec fn spec_decode_cursor_shape(tag: u8) -> core::result::Result<CursorShape, Error> {
    if tag == 0 {
        Ok(CursorShape::Bar)
    } else if tag == 1 {
        Ok(CursorShape::Block)
    } else if tag == 2 {
        Ok(CursorShape::Underline)
    } else if tag == 3 {
        Ok(CursorShape::BlockHollow)
    } else {
        Err(Error::InvalidTag { field: "cursor shape", value: tag })
    }
}

pub open spec fn spec_cell_width_tag(w: CellWidth) -> u8 {
    match w {
        CellWidth::Narrow => 0,
        CellWidth::Wide => 1,
        CellWidth::SpacerTail => 2,
        CellWidth::SpacerHead => 3,
    }
}

pub open spec fn spec_decode_cell_width(tag: u8) -> core::result::Result<CellWidth, Error> {
    if tag == 0 {
        Ok(CellWidth::Narrow)
    } else if tag == 1 {
        Ok(CellWidth::Wide)
    } else if tag == 2 {
        Ok(CellWidth::SpacerTail)
    } else if tag == 3 {
        Ok(CellWidth::SpacerHead)
    } else {
        Err(Error::InvalidTag { field: "cell width", value: tag })
    }
}

pub open spec fn spec_underline_tag(u: Underline) -> u8 {
    match u {
        Underline::Unset => 0,
        Underline::Single => 1,
        Underline::Double => 2,
        Underline::Curly => 3,
        Underline::Dotted => 4,
        Underline::Dashed => 5,
    }
}

pub open spec fn spec_decode_underline(tag: u8) -> core::result::Result<Underline, Error> {
    if tag == 0 {
        Ok(Underline::Unset)
    } else if tag == 1 {
        Ok(Underline::Single)
    } else if tag == 2 {
        Ok(Underline::Double)
    } else if tag == 3 {
        Ok(Underline::Curly)
    } else if tag == 4 {
        Ok(Underline::Dotted)
    } else if tag == 5 {
        Ok(Underline::Dashed)
    } else {
        Err(Error::InvalidTag { field: "underline", value: tag })
    }
}

// ---------------------------------------------------------------- scalars

pub open spec fn bit8(b: bool) -> u8 {
    if b {
        1
    } else {
        0
    }
}

pub open spec fn bit16(b: bool) -> u16 {
    if b {
        1
    } else {
        0
    }
}

pub open spec fn ser_bool(b: bool) -> Seq<u8> {
    seq![bit8(b)]
}

pub open spec fn parse_bool(s: Seq<u8>, field: &'static str) -> Parsed<bool> {
    match read_u8(s) {
        None => Err(Error::Truncated),
        Some((v, r)) => if v == 0 {
            Ok((false, r))
        } else if v == 1 {
            Ok((true, r))
        } else {
            Err(Error::InvalidTag { field, value: v })
        },
    }
}

pub open spec fn ser_string(s: Seq<char>) -> Seq<u8> {
    le32(utf8(s).len() as u32) + utf8(s)
}

pub open spec fn parse_string(s: Seq<u8>, field: &'static str) -> Parsed<Seq<char>> {
    match read_u32(s) {
        None => Err(Error::Truncated),
        Some((n, r)) => match read_bytes(r, n as int) {
            None => Err(Error::Truncated),
            Some((b, r2)) => if is_utf8(b) {
                Ok((chars_of(b), r2))
            } else {
                Err(Error::InvalidUtf8 { field })
            },
        },
    }
}

pub open spec fn ser_rgb(c: Rgb) -> Seq<u8> {
    seq![c.r, c.g, c.b]
}

pub open spec fn parse_rgb(s: Seq<u8>) -> Parsed<Rgb> {
    match read_bytes(s, 3) {
        None => Err(Error::Truncated),
        Some((b, r)) => Ok((Rgb { r: b[0], g: b[1], b: b[2] }, r)),
    }
}

// ---------------------------------------------------------------- styles

pub open spec fn ser_style_color(c: StyleColor) -> Seq<u8> {
    match c {
        StyleColor::Unset => seq![0u8, 0u8, 0u8, 0u8],
        StyleColor::Palette(i) => seq![1u8, i, 0u8, 0u8],
        StyleColor::Rgb(c) => seq![2u8, c.r, c.g, c.b],
    }
}

pub open spec fn parse_style_color(s: Seq<u8>, field: &'static str) -> Parsed<StyleColor> {
    match read_u8(s) {
        None => Err(Error::Truncated),
        Some((tag, r)) => match read_bytes(r, 3) {
            None => Err(Error::Truncated),
            Some((v, r2)) => if tag == 0 && v[0] == 0 && v[1] == 0 && v[2] == 0 {
                Ok((StyleColor::Unset, r2))
            } else if tag == 1 && v[1] == 0 && v[2] == 0 {
                Ok((StyleColor::Palette(v[0]), r2))
            } else if tag == 2 {
                Ok((StyleColor::Rgb(Rgb { r: v[0], g: v[1], b: v[2] }), r2))
            } else {
                Err(Error::InvalidTag { field, value: tag })
            },
        },
    }
}

pub open spec fn style_flags(st: CellStyle) -> u16 {
    bit16(st.bold) | (bit16(st.italic) << 1u16) | (bit16(st.faint) << 2u16) | (bit16(st.blink)
        << 3u16) | (bit16(st.inverse) << 4u16) | (bit16(st.invisible) << 5u16) | (bit16(
        st.strikethrough,
    ) << 6u16) | (bit16(st.overline) << 7u16) | (bit16(st.selected) << 8u16) | (bit16(
        st.protected,
    ) << 9u16)
}

pub open spec fn style_from_flags(
    foreground: StyleColor,
    background: StyleColor,
    underline_color: StyleColor,
    flags: u16,
    underline: Underline,
) -> CellStyle {
    CellStyle {
        foreground,
        background,
        underline_color,
        bold: flags & 1u16 != 0,
        italic: flags & 2u16 != 0,
        faint: flags & 4u16 != 0,
        blink: flags & 8u16 != 0,
        inverse: flags & 16u16 != 0,
        invisible: flags & 32u16 != 0,
        strikethrough: flags & 64u16 != 0,
        overline: flags & 128u16 != 0,
        selected: flags & 256u16 != 0,
        protected: flags & 512u16 != 0,
        underline,
    }
}

pub open spec fn ser_style(st: CellStyle) -> Seq<u8> {
    ser_style_color(st.foreground) + (ser_style_color(st.background) + (ser_style_color(
        st.underline_color,
    ) + (le16(style_flags(st)) + seq![spec_underline_tag(st.underline)])))
}

pub open spec fn parse_style(s: Seq<u8>) -> Parsed<CellStyle> {
    match parse_style_color(s, "foreground color") {
        Err(e) => Err(e),
        Ok((fg, r1)) => match parse_style_color(r1, "background color") {
            Err(e) => Err(e),
            Ok((bg, r2)) => match parse_style_color(r2, "underline color") {
                Err(e) => Err(e),
                Ok((ul, r3)) => match read_u16(r3) {
                    None => Err(Error::Truncated),
                    Some((flags, r4)) => if flags & !STYLE_FLAG_MASK != 0 {
                        Err(Error::InvalidFlags { field: "cell style", value: flags })
                    } else {
                        match read_u8(r4) {
                            None => Err(Error::Truncated),
                            Some((tag, r5)) => match spec_decode_underline(tag) {
                                Err(e) => Err(e),
                                Ok(u) => Ok((style_from_flags(fg, bg, ul, flags, u), r5)),
                            },
                        }
                    },
                },
            },
        },
    }
}

// ---------------------------------------------------------------- cells and rows

pub open spec fn ser_cell(c: CellV) -> Seq<u8> {
    seq![spec_cell_width_tag(c.width)] + (ser_style(c.style) + (ser_string(c.text) + ser_string(
        c.hyperlink,
    )))
}

pub open spec fn parse_cell(s: Seq<u8>) -> Parsed<CellV> {
    match read_u8(s) {
        None => Err(Error::Truncated),
        Some((tag, r1)) => match spec_decode_cell_width(tag) {
            Err(e) => Err(e),
            Ok(width) => match parse_style(r1) {
                Err(e) => Err(e),
                Ok((style, r2)) => match parse_string(r2, "cell text") {
                    Err(e) => Err(e),
                    Ok((text, r3)) => match parse_string(r3, "cell hyperlink") {
                        Err(e) => Err(e),
                        Ok((hyperlink, r4)) => Ok((CellV { width, style, text, hyperlink }, r4)),
                    },
                },
            },
        },
    }
}

pub open spec fn ser_cells(cs: Seq<CellV>) -> Seq<u8>
    decreases cs.len(),
{
    if cs.len() == 0 {
        Seq::empty()
    } else {
        ser_cells(cs.drop_last()) + ser_cell(cs.last())
    }
}

pub open spec fn parse_cells(s: Seq<u8>, n: nat) -> Parsed<Seq<CellV>>
    decreases n,
{
    if n == 0 {
        Ok((Seq::empty(), s))
    } else {
        match parse_cells(s, (n - 1) as nat) {
            Err(e) => Err(e),
            Ok((cs, r)) => match parse_cell(r) {
                Err(e) => Err(e),
                Ok((c, r2)) => Ok((cs.push(c), r2)),
            },
        }
    }
}

/// The width role of cell `i` agrees with its neighbours.
pub open spec fn cell_width_ok(cells: Seq<CellV>, wrapped: bool, i: int) -> bool {
    match cells[i].width {
        CellWidth::Narrow => true,
        CellWidth::Wide => i + 1 < cells.len() && cells[i + 1].width == CellWidth::SpacerTail,
        CellWidth::SpacerTail => i > 0 && cells[i - 1].width == CellWidth::Wide,
        CellWidth::SpacerHead => i > 0 && i + 1 == cells.len() && wrapped,
    }
}

/// Every wide cell is followed by its spacer tail, and a spacer head only ends a wrapped row.
pub open spec fn topology_ok(cells: Seq<CellV>, wrapped: bool) -> bool {
    forall|i: int| 0 <= i < cells.len() ==> #[trigger] cell_width_ok(cells, wrapped, i)
}

pub open spec fn row_flags(r: RowV) -> u8 {
    bit8(r.wrapped) | (bit8(r.wrap_continuation) << 1u8) | (bit8(r.kitty_virtual_placeholder)
        << 2u8)
}

pub open spec fn ser_row(r: RowV) -> Seq<u8> {
    seq![row_flags(r)] + ser_cells(r.cells)
}

pub open spec fn parse_row(s: Seq<u8>, cols: u16) -> Parsed<RowV> {
    match read_u8(s) {
        None => Err(Error::Truncated),
        Some((flags, r1)) => if flags & !ROW_FLAG_MASK != 0 {
            Err(Error::InvalidFlags { field: "row", value: flags as u16 })
        } else {
            match parse_cells(r1, cols as nat) {
                Err(e) => Err(e),
                Ok((cells, r2)) => {
                    let row = RowV {
                        wrapped: flags & 1u8 != 0,
                        wrap_continuation: flags & 2u8 != 0,
                        kitty_virtual_placeholder: flags & 4u8 != 0,
                        cells,
                    };
                    if topology_ok(cells, row.wrapped) {
                        Ok((row, r2))
                    } else {
                        Err(Error::InvalidShape { field: "cell width topology" })
                    }
                },
            }
        },
    }
}

pub open spec fn ser_rows(rs: Seq<RowV>) -> Seq<u8>
    decreases rs.len(),
{
    if rs.len() == 0 {
        Seq::empty()
    } else {
        ser_rows(rs.drop_last()) + ser_row(rs.last())
    }
}

pub open spec fn parse_rows(s: Seq<u8>, n: nat, cols: u16) -> Parsed<Seq<RowV>>
    decreases n,
{
    if n == 0 {
        Ok((Seq::empty(), s))
    } else {
        match parse_rows(s, (n - 1) as nat, cols) {
            Err(e) => Err(e),
            Ok((rs, r)) => match parse_row(r, cols) {
                Err(e) => Err(e),
                Ok((row, r2)) => Ok((rs.push(row), r2)),
            },
        }
    }
}

// ---------------------------------------------------------------- colors and cursor

pub open spec fn ser_palette(p: Seq<Rgb>) -> Seq<u8>
    decreases p.len(),
{
    if p.len() == 0 {
        Seq::empty()
    } else {
        ser_palette(p.drop_last()) + ser_rgb(p.last())
    }
}

pub open spec fn parse_palette(s: Seq<u8>, n: nat) -> Parsed<Seq<Rgb>>
    decreases n,
{
    if n == 0 {
        Ok((Seq::empty(), s))
    } else {
        match parse_palette(s, (n - 1) as nat) {
            Err(e) => Err(e),
            Ok((p, r)) => match parse_rgb(r) {
                Err(e) => Err(e),
                Ok((c, r2)) => Ok((p.push(c), r2)),
            },
        }
    }
}

pub open spec fn ser_optional_rgb(c: Option<Rgb>) -> Seq<u8> {
    match c {
        None => seq![0u8],
        Some(c) => seq![1u8] + ser_rgb(c),
    }
}

pub open spec fn ser_colors(c: ColorsV) -> Seq<u8> {
    ser_rgb(c.background) + (ser_rgb(c.foreground) + (ser_optional_rgb(c.cursor) + ser_palette(
        c.palette,
    )))
}

#[verifier::opaque]
pub open spec fn parse_colors(s: Seq<u8>) -> Parsed<ColorsV> {
    match parse_rgb(s) {
        Err(e) => Err(e),
        Ok((background, r1)) => match parse_rgb(r1) {
            Err(e) => Err(e),
            Ok((foreground, r2)) => match parse_bool(r2, "cursor color presence") {
                Err(e) => Err(e),
                Ok((present, r3)) => {
                    let cursor: Parsed<Option<Rgb>> = if present {
                        match parse_rgb(r3) {
                            Err(e) => Err(e),
                            Ok((c, r4)) => Ok((Some(c), r4)),
                        }
                    } else {
                        Ok((None, r3))
                    };
                    match cursor {
                        Err(e) => Err(e),
                        Ok((cursor, r4)) => match parse_palette(r4, PALETTE_LEN as nat) {
                            Err(e) => Err(e),
                            Ok((palette, r5)) => Ok(
                                (ColorsV { background, foreground, cursor, palette }, r5),
                            ),
                        },
                    }
                },
            },
        },
    }
}

pub open spec fn ser_optional_viewport(v: Option<CursorViewport>) -> Seq<u8> {
    match v {
        None => seq![0u8],
        Some(v) => seq![1u8] + (le16(v.x) + (le16(v.y) + ser_bool(v.at_wide_tail))),
    }
}

pub open spec fn ser_cursor(c: Cursor) -> Seq<u8> {
    ser_bool(c.visible) + (ser_bool(c.blinking) + (ser_bool(c.password_input) + (seq![
        spec_cursor_shape_tag(c.shape),
    ] + ser_optional_viewport(c.viewport))))
}

pub open spec fn parse_viewport(s: Seq<u8>, dims: Dimensions) -> Parsed<Option<CursorViewport>> {
    match parse_bool(s, "cursor viewport presence") {
        Err(e) => Err(e),
        Ok((present, r1)) => if !present {
            Ok((None, r1))
        } else {
            match read_u16(r1) {
                None => Err(Error::Truncated),
                Some((x, r2)) => match read_u16(r2) {
                    None => Err(Error::Truncated),
                    Some((y, r3)) => match parse_bool(r3, "cursor wide-tail state") {
                        Err(e) => Err(e),
                        Ok((at_wide_tail, r4)) => if x >= dims.cols || y >= dims.rows {
                            Err(Error::InvalidShape { field: "cursor viewport" })
                        } else {
                            Ok((Some(CursorViewport { x, y, at_wide_tail }), r4))
                        },
                    },
                },
            }
        },
    }
}

#[verifier::opaque]
pub open spec fn parse_cursor(s: Seq<u8>, dims: Dimensions) -> Parsed<Cursor> {
    match parse_bool(s, "cursor visibility") {
        Err(e) => Err(e),
        Ok((visible, r1)) => match parse_bool(r1, "cursor blinking") {
            Err(e) => Err(e),
            Ok((blinking, r2)) => match parse_bool(r2, "cursor password input") {
                Err(e) => Err(e),
                Ok((password_input, r3)) => match read_u8(r3) {
                    None => Err(Error::Truncated),
                    Some((tag, r4)) => match spec_decode_cursor_shape(tag) {
                        Err(e) => Err(e),
                        Ok(shape) => match parse_viewport(r4, dims) {
                            Err(e) => Err(e),
                            Ok((viewport, r5)) => Ok(
                                (Cursor { visible, blinking, password_input, shape, viewport }, r5),
                            ),
                        },
                    },
                },
            },
        },
    }
}

// ---------------------------------------------------------------- whole frames

/// The dimensions error, if any: the cell count must be positive and at most [`MAX_CELLS`].
pub open spec fn dimensions_error(d: Dimensions) -> Option<Error> {
    let count = d.cols * d.rows;
    if count == 0 || count > MAX_CELLS {
        Some(Error::InvalidDimensions { cols: d.cols, rows: d.rows })
    } else {
        None
    }
}

pub open spec fn capabilities_ok(c: Capabilities) -> bool {
    c.hyperlinks && !c.kitty_graphics
}

/// The header fields before the colors: revision, dimensions, screen, title,
/// working directory and capabilities.
pub struct Preamble {
    pub revision: u64,
    pub dimensions: Dimensions,
    pub screen: Screen,
    pub title: Seq<char>,
    pub working_directory: Seq<char>,
    pub capabilities: Capabilities,
}

pub open spec fn preamble_of(f: FrameV) -> Preamble {
    Preamble {
        revision: f.revision,
        dimensions: f.dimensions,
        screen: f.screen,
        title: f.title,
        working_directory: f.working_directory,
        capabilities: f.capabilities,
    }
}

pub open spec fn ser_preamble(p: Preamble) -> Seq<u8> {
    magic_bytes() + (le16(VERSION) + (le64(p.revision) + (le16(p.dimensions.cols) + (le16(
        p.dimensions.rows,
    ) + (seq![spec_screen_tag(p.screen)] + (ser_string(p.title) + (ser_string(
        p.working_directory,
    ) + (ser_bool(p.capabilities.hyperlinks) + ser_bool(p.capabilities.kitty_graphics)))))))))
}

#[verifier::opaque]
pub open spec fn parse_preamble(s: Seq<u8>) -> Parsed<Preamble> {
    match read_bytes(s, 4) {
        None => Err(Error::Truncated),
        Some((m, r0)) => if m != magic_bytes() {
            Err(Error::InvalidMagic)
        } else {
            match read_u16(r0) {
                None => Err(Error::Truncated),
                Some((version, r1)) => if version != VERSION {
                    Err(Error::UnsupportedVersion { version })
                } else {
                    match read_u64(r1) {
                        None => Err(Error::Truncated),
                        Some((revision, r2)) => match read_u16(r2) {
                            None => Err(Error::Truncated),
                            Some((cols, r3)) => match read_u16(r3) {
                                None => Err(Error::Truncated),
                                Some((rows, r4)) => {
                                    let dimensions = Dimensions { cols, rows };
                                    match dimensions_error(dimensions) {
                                        Some(e) => Err(e),
                                        None => parse_preamble_rest(r4, revision, dimensions),
                                    }
                                },
                            },
                        },
                    }
                },
            }
        },
    }
}

#[verifier::opaque]
pub open spec fn parse_preamble_rest(s: Seq<u8>, revision: u64, dimensions: Dimensions) -> Parsed<
    Preamble,
> {
    match read_u8(s) {
        None => Err(Error::Truncated),
        Some((tag, r1)) => match spec_decode_screen(tag) {
            Err(e) => Err(e),
            Ok(screen) => match parse_string(r1, "title") {
                Err(e) => Err(e),
                Ok((title, r2)) => match parse_string(r2, "working directory") {
                    Err(e) => Err(e),
                    Ok((working_directory, r3)) => match parse_bool(r3, "hyperlink capability") {
                        Err(e) => Err(e),
                        Ok((hyperlinks, r4)) => match parse_bool(r4, "Kitty graphics capability") {
                            Err(e) => Err(e),
                            Ok((kitty_graphics, r5)) => {
                                let capabilities = Capabilities { hyperlinks, kitty_graphics };
                                if !capabilities_ok(capabilities) {
                                    Err(Error::InvalidShape { field: "capabilities" })
                                } else {
                                    Ok(
                                        (
                                            Preamble {
                                                revision,
                                                dimensions,
                                                screen,
                                                title,
                                                working_directory,
                                                capabilities,
                                            },
                                            r5,
                                        ),
                                    )
                                }
                            },
                        },
                    },
                },
            },
        },
    }
}

/// The canonical ORBF v1 bytes of a frame.
pub open spec fn ser_frame(f: FrameV) -> Seq<u8> {
    ser_preamble(preamble_of(f)) + (ser_colors(f.colors) + (ser_cursor(f.cursor) + ser_rows(
        f.rows,
    )))
}

pub open spec fn parse_frame(s: Seq<u8>) -> Parsed<FrameV> {
    match parse_preamble(s) {
        Err(e) => Err(e),
        Ok((p, r1)) => match parse_colors(r1) {
            Err(e) => Err(e),
            Ok((colors, r2)) => match parse_cursor(r2, p.dimensions) {
                Err(e) => Err(e),
                Ok((cursor, r3)) => match parse_rows(r3, p.dimensions.rows as nat, p.dimensions.cols) {
                    Err(e) => Err(e),
                    Ok((rows, r4)) => Ok(
                        (
                            FrameV {
                                revision: p.revision,
                                dimensions: p.dimensions,
                                screen: p.screen,
                                title: p.title,
                                working_directory: p.working_directory,
                                capabilities: p.capabilities,
                                colors,
                                cursor,
                                rows,
                            },
                            r4,
                        ),
                    ),
                },
            },
        },
    }
}

/// What decoding a complete payload gives: a frame, or the first error in reading order.
pub open spec fn spec_decode_frame(b: Seq<u8>) -> core::result::Result<FrameV, Error> {
    if b.len() > MAX_FRAME_BYTES {
        Err(Error::FrameTooLarge { size: b.len() as usize })
    } else {
        match parse_frame(b) {
            Err(e) => Err(e),
            Ok((f, r)) => if r.len() == 0 {
                Ok(f)
            } else {
                Err(Error::TrailingBytes { count: r.len() as usize })
            },
        }
    }
}

// ---------------------------------------------------------------- size accounting

/// The encoded size of one length-prefixed string, or the error the encoder reports.
pub open spec fn string_size(field: &'static str, s: Seq<char>) -> core::result::Result<nat, Error> {
    let n = utf8(s).len();
    if n > u32::MAX {
        Err(Error::StringTooLong { field, length: n as usize })
    } else if n + STRING_LENGTH_BYTES > usize::MAX {
        Err(Error::FrameTooLarge { size: usize::MAX })
    } else {
        Ok((n + STRING_LENGTH_BYTES) as nat)
    }
}

/// Adding `v` bytes to an accounted total of `acc` bytes.
pub open spec fn size_add(acc: int, v: int) -> core::result::Result<nat, Error> {
    if acc + v > usize::MAX {
        Err(Error::FrameTooLarge { size: usize::MAX })
    } else if acc + v > MAX_FRAME_BYTES {
        Err(Error::FrameTooLarge { size: (acc + v) as usize })
    } else {
        Ok((acc + v) as nat)
    }
}

/// The size of a frame header and its metadata, as `FrameSize::new` accounts it.
pub open spec fn size_header(
    title: Seq<char>,
    working_directory: Seq<char>,
    has_cursor_color: bool,
    has_cursor_viewport: bool,
) -> core::result::Result<nat, Error> {
    match string_size("title", title) {
        Err(e) => Err(e),
        Ok(t) => match string_size("working directory", working_directory) {
            Err(e) => Err(e),
            Ok(w) => size_add(
                0,
                FRAME_FIXED_BYTES + t + w + (if has_cursor_color {
                    3int
                } else {
                    0int
                }) + (if has_cursor_viewport {
                    5int
                } else {
                    0int
                }),
            ),
        },
    }
}

/// Adding one cell to an accounted total, as `FrameSize::add_cell` accounts it.
pub open spec fn size_cell(acc: nat, text: Seq<char>, hyperlink: Seq<char>) -> core::result::Result<
    nat,
    Error,
> {
    match string_size("cell text", text) {
        Err(e) => Err(e),
        Ok(t) => match string_size("cell hyperlink", hyperlink) {
            Err(e) => Err(e),
            Ok(h) => size_add(acc as int, CELL_FIXED_BYTES + t + h),
        },
    }
}

pub open spec fn size_cells(cells: Seq<CellV>, i: int, acc: nat) -> core::result::Result<nat, Error>
    decreases cells.len() - i,
{
    if i < 0 || i >= cells.len() {
        Ok(acc)
    } else {
        match size_cell(acc, cells[i].text, cells[i].hyperlink) {
            Err(e) => Err(e),
            Ok(a) => size_cells(cells, i + 1, a),
        }
    }
}

/// The shape error of one owned row against the frame's column count, if any.
pub open spec fn row_error(row: RowV, cols: u16) -> Option<Error> {
    if cols == 0 || cols > MAX_CELLS {
        Some(Error::InvalidDimensions { cols, rows: 1 })
    } else if row.cells.len() != cols {
        Some(Error::InvalidShape { field: "cell" })
    } else if !topology_ok(row.cells, row.wrapped) {
        Some(Error::InvalidShape { field: "cell width topology" })
    } else {
        None
    }
}

pub open spec fn size_rows(rows: Seq<RowV>, cols: u16, i: int, acc: nat) -> core::result::Result<
    nat,
    Error,
>
    decreases rows.len() - i,
{
    if i < 0 || i >= rows.len() {
        Ok(acc)
    } else {
        match row_error(rows[i], cols) {
            Some(e) => Err(e),
            None => match size_add(acc as int, ROW_FIXED_BYTES as int) {
                Err(e) => Err(e),
                Ok(a) => match size_cells(rows[i].cells, 0, a) {
                    Err(e) => Err(e),
                    Ok(a2) => size_rows(rows, cols, i + 1, a2),
                },
            },
        }
    }
}

/// Validation of an owned frame before encoding: its exact encoded size, or
/// the first error in the order the encoder checks.
pub open spec fn validate_frame_spec(f: FrameV) -> core::result::Result<nat, Error> {
    match dimensions_error(f.dimensions) {
        Some(e) => Err(e),
        None => if !capabilities_ok(f.capabilities) {
            Err(Error::InvalidShape { field: "capabilities" })
        } else if f.rows.len() != f.dimensions.rows {
            Err(Error::InvalidShape { field: "row" })
        } else if f.cursor.viewport matches Some(v) && (v.x >= f.dimensions.cols || v.y
            >= f.dimensions.rows) {
            Err(Error::InvalidShape { field: "cursor viewport" })
        } else {
            match size_header(
                f.title,
                f.working_directory,
                f.colors.cursor is Some,
                f.cursor.viewport is Some,
            ) {
                Err(e) => Err(e),
                Ok(h) => size_rows(f.rows, f.dimensions.cols, 0, h),
            }
        }
    }
}

/// What encoding an owned frame gives: its canonical bytes, or the validation error.
pub open spec fn spec_encode_frame(f: FrameV) -> core::result::Result<Seq<u8>, Error> {
    match validate_frame_spec(f) {
        Err(e) => Err(e),
        Ok(_) => Ok(ser_frame(f)),
    }
}


// ---------------------------------------------------------------- canonical rows

/// What encoding one row on its own gives.
pub open spec fn spec_encode_canonical_row(row: RowV, cols: u16) -> core::result::Result<Seq<u8>, Error> {
    match row_error(row, cols) {
        Some(e) => Err(e),
        None => match size_cells(row.cells, 0, ROW_FIXED_BYTES as nat) {
            Err(e) => Err(e),
            Ok(_) => Ok(ser_row(row)),
        },
    }
}

/// What decoding one row on its own gives.
pub open spec fn spec_decode_canonical_row(b: Seq<u8>, cols: u16) -> core::result::Result<RowV, Error> {
    if cols == 0 || cols > MAX_CELLS {
        Err(Error::InvalidDimensions { cols, rows: 1 })
    } else if b.len() > MAX_FRAME_BYTES {
        Err(Error::FrameTooLarge { size: b.len() as usize })
    } else {
        match parse_row(b, cols) {
            Err(e) => Err(e),
            Ok((row, r)) => if r.len() == 0 {
                Ok(row)
            } else {
                Err(Error::TrailingBytes { count: r.len() as usize })
            },
        }
    }
}

/// What encoding a run of rows gives: the rows back to back, within one frame's byte bound.
pub open spec fn spec_encode_canonical_rows(rows: Seq<RowV>, cols: u16) -> core::result::Result<
    Seq<u8>,
    Error,
> {
    match size_rows(rows, cols, 0, 0) {
        Err(e) => Err(e),
        Ok(_) => Ok(ser_rows(rows)),
    }
}

/// What decoding exactly `count` rows gives.
pub open spec fn spec_decode_canonical_rows(b: Seq<u8>, cols: u16, count: u16) -> core::result::Result<
    Seq<RowV>,
    Error,
> {
    if cols == 0 || cols > MAX_CELLS {
        Err(Error::InvalidDimensions { cols, rows: 1 })
    } else if b.len() > MAX_FRAME_BYTES {
        Err(Error::FrameTooLarge { size: b.len() as usize })
    } else {
        match parse_rows(b, count as nat, cols) {
            Err(e) => Err(e),
            Ok((rows, r)) => if r.len() == 0 {
                Ok(rows)
            } else {
                Err(Error::TrailingBytes { count: r.len() as usize })
            },
        }
    }
}

/// What the reducer accepts before ordering: truthful capabilities and valid cell widths.
pub open spec fn reducer_shape_error(f: FrameV) -> Option<Error> {
    if !capabilities_ok(f.capabilities) {
        Some(Error::InvalidShape { field: "capabilities" })
    } else if exists|i: int| 0 <= i < f.rows.len() && !topology_ok(#[trigger] f.rows[i].cells, f.rows[i].wrapped) {
        Some(Error::InvalidShape { field: "cell width topology" })
    } else {
        None
    }
}


/// Why the reducer refuses `incoming` while holding `current`, if it does.
pub open spec fn push_error(current: Option<FrameV>, incoming: FrameV) -> Option<Error> {
    match reducer_shape_error(incoming) {
        Some(e) => Some(e),
        None => match current {
            Some(c) => if incoming.revision <= c.revision {
                Some(Error::RevisionNotNewer { current: c.revision, incoming: incoming.revision })
            } else {
                None
            },
            None => None,
        },
    }
}

} // verus!
