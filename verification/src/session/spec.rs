//! The ORBS v7 byte layout, as a serializer and a parser over sequences.

use super::{
    ClientMessageV, ClipboardLocation, Error, FailureCode, FailureV, FocusEvent, KeyAction,
    KeyEventV, MAX_COPY_BYTES, MAX_FAILURE_BYTES, MAX_KEY_TEXT_BYTES, MAX_METADATA_BYTES,
    MAX_PASTE_BYTES, MAX_PAYLOAD_BYTES, MAX_SCROLL_ROWS, MetadataV, MouseAction, MouseButton,
    MouseEventV, PhysicalKey, PreviewOutcomeV, ScrollOutcomeV, SelectionActionV, SelectionPosition, ServerMessageV,
    SurfaceSize, VERSION, VerticalDirection, VerticalPreviewV, WheelOutcomeV,
    modifiers_valid,
};
use crate::frame::{MAX_CELLS, MAX_FRAME_BYTES, MIN_FRAME_BYTES};
use crate::frame_spec::{
    spec_decode_canonical_rows, spec_decode_frame, spec_encode_canonical_rows, spec_encode_frame,
};
use crate::wire::{
    chars_of, is_utf8, le16, le32, le64, lei16, lei32, read_bytes, read_i16, read_i32,
    read_u16, read_u32, read_u64, read_u8, utf8,
};
use vstd::prelude::*;

verus! {

pub type Parsed<T> = core::result::Result<(T, Seq<u8>), Error>;

pub open spec fn magic_bytes() -> Seq<u8> {
    seq![79u8, 82u8, 66u8, 83u8]
}

pub open spec fn bound_error(size: nat, maximum: usize) -> Option<Error> {
    if size > maximum {
        Some(Error::PayloadTooLarge { size: size as usize, maximum })
    } else {
        None
    }
}

// ---------------------------------------------------------------- tags

pub open spec fn key_action_tag(a: KeyAction) -> u8 {
    match a {
        KeyAction::Press => 0,
        KeyAction::Release => 1,
        KeyAction::Repeat => 2,
    }
}

pub open spec fn mouse_action_tag(a: MouseAction) -> u8 {
    match a {
        MouseAction::Press => 0,
        MouseAction::Release => 1,
        MouseAction::Motion => 2,
    }
}

pub open spec fn mouse_button_tag(b: MouseButton) -> u8 {
    match b {
        MouseButton::Unknown => 0,
        MouseButton::Left => 1,
        MouseButton::Middle => 2,
        MouseButton::Right => 3,
        MouseButton::Four => 4,
        MouseButton::Five => 5,
        MouseButton::Six => 6,
        MouseButton::Seven => 7,
        MouseButton::Eight => 8,
        MouseButton::Nine => 9,
        MouseButton::Ten => 10,
        MouseButton::Eleven => 11,
    }
}

pub open spec fn mouse_button_of(tag: u8) -> MouseButton
    recommends
        tag <= 11,
{
    if tag == 0 {
        MouseButton::Unknown
    } else if tag == 1 {
        MouseButton::Left
    } else if tag == 2 {
        MouseButton::Middle
    } else if tag == 3 {
        MouseButton::Right
    } else if tag == 4 {
        MouseButton::Four
    } else if tag == 5 {
        MouseButton::Five
    } else if tag == 6 {
        MouseButton::Six
    } else if tag == 7 {
        MouseButton::Seven
    } else if tag == 8 {
        MouseButton::Eight
    } else if tag == 9 {
        MouseButton::Nine
    } else if tag == 10 {
        MouseButton::Ten
    } else {
        MouseButton::Eleven
    }
}

pub open spec fn direction_tag(d: VerticalDirection) -> u8 {
    match d {
        VerticalDirection::Up => 0,
        VerticalDirection::Down => 1,
    }
}

pub open spec fn failure_code_tag(c: FailureCode) -> u8 {
    match c {
        FailureCode::InvalidInput => 0,
        FailureCode::Protocol => 1,
        FailureCode::Terminal => 2,
    }
}

pub open spec fn location_tag(l: ClipboardLocation) -> u8 {
    match l {
        ClipboardLocation::Standard => 0,
        ClipboardLocation::Selection => 1,
        ClipboardLocation::Primary => 2,
    }
}

/// The clipboard location with tag `l`, which is at most 2.
pub open spec fn location_of(l: u8) -> ClipboardLocation {
    if l == 0 {
        ClipboardLocation::Standard
    } else if l == 1 {
        ClipboardLocation::Selection
    } else {
        ClipboardLocation::Primary
    }
}

pub open spec fn focus_tag(f: FocusEvent) -> u8 {
    match f {
        FocusEvent::Gained => 0,
        FocusEvent::Lost => 1,
    }
}

pub open spec fn bit(b: bool) -> u8 {
    if b {
        1
    } else {
        0
    }
}

// ---------------------------------------------------------------- validation

/// Characters that key text may not carry: C0 controls, DEL, and the
/// private-use range that platform toolkits use for function keys.
pub open spec fn forbidden_key_char(c: char) -> bool {
    (c as u32) <= 0x1f || (c as u32) == 0x7f || (0xf700 <= (c as u32) && (c as u32) <= 0xf8ff)
}

pub open spec fn key_error(e: KeyEventV) -> Option<Error> {
    if !modifiers_valid(e.modifiers) || !modifiers_valid(e.consumed_modifiers) {
        Some(Error::InvalidValue { field: "modifiers" })
    } else if e.modifiers & e.consumed_modifiers != e.consumed_modifiers {
        Some(Error::ConsumedModifiersNotActive)
    } else {
        match e.text {
            None => None,
            Some(t) => if utf8(t).len() > MAX_KEY_TEXT_BYTES {
                bound_error(utf8(t).len(), MAX_KEY_TEXT_BYTES)
            } else if exists|i: int| 0 <= i < t.len() && forbidden_key_char(#[trigger] t[i]) {
                Some(Error::InvalidValue { field: "key text" })
            } else {
                None
            },
        }
    }
}

/// Whether `bits` encodes a single-precision number in `0.0..=65535.0`: a
/// non-negative finite value up to 65535, or negative zero.
pub open spec fn coordinate_ok(bits: u32) -> bool {
    bits <= 0x477fff00 || bits == 0x8000_0000
}

pub open spec fn wheel_button(b: MouseButton) -> bool {
    b == MouseButton::Four || b == MouseButton::Five || b == MouseButton::Six || b
        == MouseButton::Seven
}

pub open spec fn mouse_error(e: MouseEventV) -> Option<Error> {
    if !modifiers_valid(e.modifiers) {
        Some(Error::InvalidValue { field: "modifiers" })
    } else if e.button is None && e.action != MouseAction::Motion {
        Some(Error::InvalidValue { field: "mouse button" })
    } else if e.button matches Some(b) && wheel_button(b) && e.action != MouseAction::Press {
        Some(Error::InvalidValue { field: "mouse action" })
    } else if coordinate_ok(e.x_bits) && coordinate_ok(e.y_bits) {
        None
    } else {
        Some(Error::InvalidCoordinates)
    }
}

/// Why a selection position and its modifiers cannot be sent.
pub open spec fn position_error(p: SelectionPosition, modifiers: u16) -> Option<Error> {
    if !modifiers_valid(modifiers) {
        Some(Error::InvalidValue { field: "modifiers" })
    } else if coordinate_ok(p.x_bits) && coordinate_ok(p.y_bits) {
        None
    } else {
        Some(Error::InvalidCoordinates)
    }
}

/// Why a selection action cannot be sent.
pub open spec fn selection_error(a: SelectionActionV) -> Option<Error> {
    match a {
        SelectionActionV::Begin { position, modifiers, .. } => position_error(position, modifiers),
        SelectionActionV::Update { position, modifiers } => position_error(position, modifiers),
        SelectionActionV::Finish { position, modifiers } => position_error(position, modifiers),
        SelectionActionV::Cancel => None,
        SelectionActionV::Copy => None,
    }
}

pub open spec fn surface_size_ok(s: SurfaceSize) -> bool {
    &&& s.cols != 0 && s.rows != 0
    &&& s.screen_width != 0 && s.screen_height != 0
    &&& s.screen_width <= 65535 && s.screen_height <= 65535
    &&& s.cell_width != 0 && s.cell_height != 0
    &&& s.cols * s.rows <= MAX_CELLS
    &&& s.padding_left + s.padding_right < s.screen_width
    &&& s.padding_top + s.padding_bottom < s.screen_height
    &&& s.cols * s.cell_width + (s.padding_left + s.padding_right) <= s.screen_width
    &&& s.rows * s.cell_height + (s.padding_top + s.padding_bottom) <= s.screen_height
}

pub open spec fn scroll_rows_ok(rows: i16) -> bool {
    rows != 0 && -MAX_SCROLL_ROWS <= rows <= MAX_SCROLL_ROWS
}

pub open spec fn scroll_rows_error(rows: i16) -> Option<Error> {
    if scroll_rows_ok(rows) {
        None
    } else {
        Some(Error::InvalidValue { field: "vertical scroll rows" })
    }
}

pub open spec fn abs(x: int) -> int {
    if x < 0 {
        -x
    } else {
        x
    }
}

pub open spec fn applied_rows_error(requested: i16, applied: i16) -> Option<Error> {
    if !scroll_rows_ok(requested) {
        Some(Error::InvalidValue { field: "vertical scroll rows" })
    } else if applied == 0 || ((requested < 0) == (applied < 0) && abs(applied as int) <= abs(
        requested as int,
    )) {
        None
    } else {
        Some(Error::InvalidValue { field: "applied scroll rows" })
    }
}

pub open spec fn clipboard_text_error(t: Seq<char>) -> Option<Error> {
    if utf8(t).len() > MAX_COPY_BYTES {
        bound_error(utf8(t).len(), MAX_COPY_BYTES)
    } else if t.len() == 0 || t.contains('\0') {
        Some(Error::InvalidValue { field: "clipboard text" })
    } else {
        None
    }
}

// ---------------------------------------------------------------- payload limits

pub open spec fn client_limits(kind: u8) -> core::result::Result<(usize, usize), Error> {
    if kind == 1 || kind == 9 {
        Ok((0, 0))
    } else if kind == 2 {
        Ok((16, (16 + MAX_KEY_TEXT_BYTES) as usize))
    } else if kind == 3 {
        Ok((12, 12))
    } else if kind == 4 {
        Ok((1, 1))
    } else if kind == 5 {
        Ok((0, MAX_PASTE_BYTES))
    } else if kind == 6 {
        Ok((36, 36))
    } else if kind == 7 {
        Ok((1, 27))
    } else if kind == 8 {
        Ok((9, 9))
    } else if kind == 10 {
        Ok((10, 10))
    } else {
        Err(Error::InvalidTag { field: "client message", value: kind })
    }
}

pub open spec fn server_limits(kind: u8) -> core::result::Result<(usize, usize), Error> {
    if kind == 129 || kind == 130 || kind == 133 || kind == 143 || kind == 138 {
        Ok((0, 0))
    } else if kind == 144 {
        Ok((16, MAX_METADATA_BYTES))
    } else if kind == 135 {
        Ok((4, 4))
    } else if kind == 132 || kind == 139 || kind == 140 || kind == 141 {
        Ok((MIN_FRAME_BYTES, MAX_FRAME_BYTES))
    } else if kind == 134 {
        Ok((5, (5 + MAX_FAILURE_BYTES) as usize))
    } else if kind == 136 {
        Ok((1, (1 + MAX_COPY_BYTES) as usize))
    } else if kind == 137 {
        Ok((2, (1 + MAX_COPY_BYTES) as usize))
    } else if kind == 142 {
        Ok((10, (MAX_FRAME_BYTES + 15) as usize))
    } else if kind == 145 {
        Ok((2, 2))
    } else if kind == 147 {
        Ok((8, 8))
    } else if kind == 146 {
        Ok(((MIN_FRAME_BYTES + 13) as usize, MAX_PAYLOAD_BYTES))
    } else {
        Err(Error::InvalidTag { field: "server message", value: kind })
    }
}

pub open spec fn limits(client: bool, kind: u8) -> core::result::Result<(usize, usize), Error> {
    if client {
        client_limits(kind)
    } else {
        server_limits(kind)
    }
}

// ---------------------------------------------------------------- framing

pub open spec fn ser_message(kind: u8, payload: Seq<u8>) -> Seq<u8> {
    magic_bytes() + (le16(VERSION) + (seq![kind, 0u8] + (le32(payload.len() as u32) + payload)))
}

/// The complete length announced by a header, `None` while it is incomplete.
pub open spec fn spec_message_len(b: Seq<u8>, client: bool) -> core::result::Result<
    Option<usize>,
    Error,
> {
    if b.len() < 12 {
        Ok(None)
    } else if b.take(4) != magic_bytes() {
        Err(Error::InvalidMagic)
    } else {
        let version = read_u16(b.skip(4))->Some_0.0;
        let payload = read_u32(b.skip(8))->Some_0.0;
        if version != VERSION {
            Err(Error::UnsupportedVersion { version })
        } else if b[7] != 0 {
            Err(Error::InvalidFlags { value: b[7] })
        } else {
            match limits(client, b[6]) {
                Err(e) => Err(e),
                Ok((minimum, maximum)) => if payload > maximum {
                    Err(Error::PayloadTooLarge { size: payload as usize, maximum })
                } else if payload < minimum {
                    Err(Error::InvalidValue { field: "message payload length" })
                } else {
                    Ok(Some((12 + payload) as usize))
                },
            }
        }
    }
}

/// The kind and payload of exactly one complete message.
pub open spec fn spec_exact_message(b: Seq<u8>, client: bool) -> core::result::Result<
    (u8, Seq<u8>),
    Error,
> {
    match spec_message_len(b, client) {
        Err(e) => Err(e),
        Ok(None) => Err(Error::Truncated),
        Ok(Some(total)) => if b.len() < total {
            Err(Error::Truncated)
        } else if b.len() > total {
            Err(Error::TrailingBytes { count: (b.len() - total) as usize })
        } else {
            Ok((b[6], b.skip(12)))
        },
    }
}

/// Framing a payload of `kind`, or the size error.
pub open spec fn spec_frame_message(client: bool, kind: u8, payload: Seq<u8>) -> core::result::Result<
    Seq<u8>,
    Error,
> {
    match limits(client, kind) {
        Err(e) => Err(e),
        Ok((_, maximum)) => match bound_error(payload.len(), maximum) {
            Some(e) => Err(e),
            None => Ok(ser_message(kind, payload)),
        },
    }
}

// ---------------------------------------------------------------- client payloads

pub open spec fn ser_bounded(b: Seq<u8>) -> Seq<u8> {
    le32(b.len() as u32) + b
}

pub open spec fn ser_optional_text(t: Option<Seq<char>>) -> Seq<u8> {
    match t {
        None => le32(u32::MAX),
        Some(t) => ser_bounded(utf8(t)),
    }
}

pub open spec fn codepoint_bits(c: Option<char>) -> u32 {
    match c {
        None => u32::MAX,
        Some(c) => c as u32,
    }
}

pub open spec fn ser_key(e: KeyEventV) -> Seq<u8> {
    seq![key_action_tag(e.action)] + (le16(e.key) + (le16(e.modifiers) + (le16(
        e.consumed_modifiers,
    ) + (seq![bit(e.composing)] + (ser_optional_text(e.text) + le32(
        codepoint_bits(e.unshifted_codepoint),
    ))))))
}

pub open spec fn button_byte(b: Option<MouseButton>) -> u8 {
    match b {
        None => 0,
        Some(b) => (mouse_button_tag(b) + 1) as u8,
    }
}

pub open spec fn ser_mouse(e: MouseEventV) -> Seq<u8> {
    seq![mouse_action_tag(e.action), button_byte(e.button)] + (le16(e.modifiers) + (le32(e.x_bits)
        + le32(e.y_bits)))
}

pub open spec fn ser_surface(s: SurfaceSize) -> Seq<u8> {
    le16(s.cols) + (le16(s.rows) + (le32(s.screen_width) + (le32(s.screen_height) + (le32(
        s.cell_width,
    ) + (le32(s.cell_height) + (le32(s.padding_top) + (le32(s.padding_bottom) + (le32(
        s.padding_left,
    ) + le32(s.padding_right)))))))))
}

pub open spec fn ser_position(p: SelectionPosition, modifiers: u16) -> Seq<u8> {
    le16(modifiers) + (le32(p.x_bits) + le32(p.y_bits))
}

pub open spec fn ser_selection(a: SelectionActionV) -> Seq<u8> {
    match a {
        SelectionActionV::Begin { frame_revision, position, time_ns, modifiers } => seq![0u8] + (
        le64(frame_revision) + (le64(time_ns) + ser_position(position, modifiers))),
        SelectionActionV::Update { position, modifiers } => seq![1u8] + ser_position(
            position,
            modifiers,
        ),
        SelectionActionV::Finish { position, modifiers } => seq![2u8] + ser_position(
            position,
            modifiers,
        ),
        SelectionActionV::Copy => seq![3u8],
        SelectionActionV::Cancel => seq![4u8],
    }
}

/// The kind and payload of a client message, or the error encoding reports.
pub open spec fn client_payload(m: ClientMessageV) -> core::result::Result<(u8, Seq<u8>), Error> {
    match m {
        ClientMessageV::Hello => Ok((1u8, Seq::empty())),
        ClientMessageV::ObserveMetadata => Ok((9u8, Seq::empty())),
        ClientMessageV::Key(e) => match key_error(e) {
            Some(err) => Err(err),
            None => Ok((2u8, ser_key(e))),
        },
        ClientMessageV::Mouse(e) => match mouse_error(e) {
            Some(err) => Err(err),
            None => Ok((3u8, ser_mouse(e))),
        },
        ClientMessageV::Focus(f) => Ok((4u8, seq![focus_tag(f)])),
        ClientMessageV::Paste(b) => match bound_error(b.len(), MAX_PASTE_BYTES) {
            Some(err) => Err(err),
            None => Ok((5u8, b)),
        },
        ClientMessageV::Resize(s) => if surface_size_ok(s) {
            Ok((6u8, ser_surface(s)))
        } else {
            Err(Error::InvalidSurfaceSize)
        },
        ClientMessageV::Selection(a) => match selection_error(a) {
            Some(err) => Err(err),
            None => Ok((7u8, ser_selection(a))),
        },
        ClientMessageV::PreviewVertical { frame_revision, direction } => Ok(
            (8u8, le64(frame_revision) + seq![direction_tag(direction)]),
        ),
        ClientMessageV::ScrollVertical { frame_revision, rows } => match scroll_rows_error(rows) {
            Some(err) => Err(err),
            None => Ok((10u8, le64(frame_revision) + lei16(rows))),
        },
    }
}

/// What encoding a client message gives.
pub open spec fn spec_encode_client_message(m: ClientMessageV) -> core::result::Result<Seq<u8>, Error> {
    match client_payload(m) {
        Err(e) => Err(e),
        Ok((kind, payload)) => spec_frame_message(true, kind, payload),
    }
}

// ---------------------------------------------------------------- client parsing

pub open spec fn parse_bounded_text(s: Seq<u8>, field: &'static str, length: u32, maximum: usize) -> Parsed<
    Seq<char>,
> {
    match bound_error(length as nat, maximum) {
        Some(e) => Err(e),
        None => match read_bytes(s, length as int) {
            None => Err(Error::Truncated),
            Some((b, r)) => if is_utf8(b) {
                Ok((chars_of(b), r))
            } else {
                Err(Error::InvalidUtf8 { field })
            },
        },
    }
}

pub open spec fn parse_optional_text(s: Seq<u8>, field: &'static str, maximum: usize) -> Parsed<
    Option<Seq<char>>,
> {
    match read_u32(s) {
        None => Err(Error::Truncated),
        Some((length, r)) => if length == u32::MAX {
            Ok((None, r))
        } else {
            match parse_bounded_text(r, field, length, maximum) {
                Err(e) => Err(e),
                Ok((t, r2)) => Ok((Some(t), r2)),
            }
        },
    }
}

pub open spec fn parse_text(s: Seq<u8>, field: &'static str, maximum: usize) -> Parsed<Seq<char>> {
    match read_u32(s) {
        None => Err(Error::Truncated),
        Some((length, r)) => parse_bounded_text(r, field, length, maximum),
    }
}

pub open spec fn codepoint_ok(v: u32) -> bool {
    v <= 0xd7ff || (0xe000 <= v && v <= 0x10ffff)
}

/// The key fields before its text.
pub struct KeyHead {
    pub action: KeyAction,
    pub key: u16,
    pub modifiers: u16,
    pub consumed_modifiers: u16,
    pub composing: bool,
}

pub open spec fn ser_key_head(h: KeyHead) -> Seq<u8> {
    seq![key_action_tag(h.action)] + (le16(h.key) + (le16(h.modifiers) + (le16(h.consumed_modifiers)
        + seq![bit(h.composing)])))
}

pub open spec fn parse_key_head(s: Seq<u8>) -> Parsed<KeyHead> {
    match read_u8(s) {
        None => Err(Error::Truncated),
        Some((a, r1)) => if a > 2 {
            Err(Error::InvalidTag { field: "key action", value: a })
        } else {
            match read_u16(r1) {
                None => Err(Error::Truncated),
                Some((key, r2)) => if key > PhysicalKey::MAX_RAW {
                    Err(Error::InvalidValue { field: "physical key" })
                } else {
                    match read_u16(r2) {
                        None => Err(Error::Truncated),
                        Some((modifiers, r3)) => if !modifiers_valid(modifiers) {
                            Err(Error::InvalidValue { field: "modifiers" })
                        } else {
                            match read_u16(r3) {
                                None => Err(Error::Truncated),
                                Some((consumed, r4)) => if !modifiers_valid(consumed) {
                                    Err(Error::InvalidValue { field: "modifiers" })
                                } else {
                                    match read_u8(r4) {
                                        None => Err(Error::Truncated),
                                        Some((c, r5)) => if c > 1 {
                                            Err(Error::InvalidTag { field: "composing", value: c })
                                        } else {
                                            Ok(
                                                (
                                                    KeyHead {
                                                        action: if a == 0 {
                                                            KeyAction::Press
                                                        } else if a == 1 {
                                                            KeyAction::Release
                                                        } else {
                                                            KeyAction::Repeat
                                                        },
                                                        key,
                                                        modifiers,
                                                        consumed_modifiers: consumed,
                                                        composing: c == 1,
                                                    },
                                                    r5,
                                                ),
                                            )
                                        },
                                    }
                                },
                            }
                        },
                    }
                },
            }
        },
    }
}

pub open spec fn parse_key(s: Seq<u8>) -> Parsed<KeyEventV> {
    match parse_key_head(s) {
        Err(e) => Err(e),
        Ok((h, r1)) => match parse_optional_text(r1, "key text", MAX_KEY_TEXT_BYTES) {
            Err(e) => Err(e),
            Ok((text, r2)) => match read_u32(r2) {
                None => Err(Error::Truncated),
                Some((cp, r3)) => if cp != u32::MAX && !codepoint_ok(cp) {
                    Err(Error::InvalidValue { field: "unshifted codepoint" })
                } else {
                    let e = KeyEventV {
                        action: h.action,
                        key: h.key,
                        modifiers: h.modifiers,
                        consumed_modifiers: h.consumed_modifiers,
                        composing: h.composing,
                        text,
                        unshifted_codepoint: if cp == u32::MAX {
                            None
                        } else {
                            Some(cp as char)
                        },
                    };
                    match key_error(e) {
                        Some(err) => Err(err),
                        None => Ok((e, r3)),
                    }
                },
            },
        },
    }
}

pub open spec fn parse_mouse(s: Seq<u8>) -> Parsed<MouseEventV> {
    match read_u8(s) {
        None => Err(Error::Truncated),
        Some((a, r1)) => if a > 2 {
            Err(Error::InvalidTag { field: "mouse action", value: a })
        } else {
            match read_u8(r1) {
                None => Err(Error::Truncated),
                Some((bt, r2)) => if bt != 0 && bt - 1 > 11 {
                    Err(Error::InvalidTag { field: "mouse button", value: (bt - 1) as u8 })
                } else {
                    match read_u16(r2) {
                        None => Err(Error::Truncated),
                        Some((modifiers, r3)) => if !modifiers_valid(modifiers) {
                            Err(Error::InvalidValue { field: "modifiers" })
                        } else {
                            match read_u32(r3) {
                                None => Err(Error::Truncated),
                                Some((x, r4)) => match read_u32(r4) {
                                    None => Err(Error::Truncated),
                                    Some((y, r5)) => {
                                        let e = MouseEventV {
                                            action: if a == 0 {
                                                MouseAction::Press
                                            } else if a == 1 {
                                                MouseAction::Release
                                            } else {
                                                MouseAction::Motion
                                            },
                                            button: if bt == 0 {
                                                None
                                            } else {
                                                Some(mouse_button_of((bt - 1) as u8))
                                            },
                                            modifiers,
                                            x_bits: x,
                                            y_bits: y,
                                        };
                                        match mouse_error(e) {
                                            Some(err) => Err(err),
                                            None => Ok((e, r5)),
                                        }
                                    },
                                },
                            }
                        },
                    }
                },
            }
        },
    }
}

pub open spec fn parse_surface(s: Seq<u8>) -> Parsed<SurfaceSize> {
    if s.len() < 36 {
        Err(Error::Truncated)
    } else {
        let size = SurfaceSize {
            cols: read_u16(s)->Some_0.0,
            rows: read_u16(s.skip(2))->Some_0.0,
            screen_width: read_u32(s.skip(4))->Some_0.0,
            screen_height: read_u32(s.skip(8))->Some_0.0,
            cell_width: read_u32(s.skip(12))->Some_0.0,
            cell_height: read_u32(s.skip(16))->Some_0.0,
            padding_top: read_u32(s.skip(20))->Some_0.0,
            padding_bottom: read_u32(s.skip(24))->Some_0.0,
            padding_left: read_u32(s.skip(28))->Some_0.0,
            padding_right: read_u32(s.skip(32))->Some_0.0,
        };
        if surface_size_ok(size) {
            Ok((size, s.skip(36)))
        } else {
            Err(Error::InvalidSurfaceSize)
        }
    }
}

/// Modifiers, then a position.
pub open spec fn parse_position(s: Seq<u8>) -> Parsed<(SelectionPosition, u16)> {
    match read_u16(s) {
        None => Err(Error::Truncated),
        Some((modifiers, r1)) => if !modifiers_valid(modifiers) {
            Err(Error::InvalidValue { field: "modifiers" })
        } else {
            match read_u32(r1) {
                None => Err(Error::Truncated),
                Some((x, r2)) => match read_u32(r2) {
                    None => Err(Error::Truncated),
                    Some((y, r3)) => if coordinate_ok(x) && coordinate_ok(y) {
                        Ok(((SelectionPosition { x_bits: x, y_bits: y }, modifiers), r3))
                    } else {
                        Err(Error::InvalidCoordinates)
                    },
                },
            }
        },
    }
}

pub open spec fn parse_selection(s: Seq<u8>) -> Parsed<SelectionActionV> {
    match read_u8(s) {
        None => Err(Error::Truncated),
        Some((t, r1)) => if t == 0 {
            match read_u64(r1) {
                None => Err(Error::Truncated),
                Some((frame_revision, r2)) => match read_u64(r2) {
                    None => Err(Error::Truncated),
                    Some((time_ns, r3)) => match parse_position(r3) {
                        Err(e) => Err(e),
                        Ok(((position, modifiers), r4)) => Ok(
                            (
                                SelectionActionV::Begin {
                                    frame_revision,
                                    position,
                                    time_ns,
                                    modifiers,
                                },
                                r4,
                            ),
                        ),
                    },
                },
            }
        } else if t == 1 {
            match parse_position(r1) {
                Err(e) => Err(e),
                Ok(((position, modifiers), r2)) => Ok(
                    (SelectionActionV::Update { position, modifiers }, r2),
                ),
            }
        } else if t == 2 {
            match parse_position(r1) {
                Err(e) => Err(e),
                Ok(((position, modifiers), r2)) => Ok(
                    (SelectionActionV::Finish { position, modifiers }, r2),
                ),
            }
        } else if t == 3 {
            Ok((SelectionActionV::Copy, r1))
        } else if t == 4 {
            Ok((SelectionActionV::Cancel, r1))
        } else {
            Err(Error::InvalidTag { field: "selection action", value: t })
        },
    }
}

pub open spec fn parse_direction(s: Seq<u8>) -> Parsed<VerticalDirection> {
    match read_u8(s) {
        None => Err(Error::Truncated),
        Some((v, r)) => if v == 0 {
            Ok((VerticalDirection::Up, r))
        } else if v == 1 {
            Ok((VerticalDirection::Down, r))
        } else {
            Err(Error::InvalidTag { field: "vertical direction", value: v })
        },
    }
}

pub open spec fn parse_client_payload(kind: u8, s: Seq<u8>) -> Parsed<ClientMessageV> {
    if kind == 1 {
        Ok((ClientMessageV::Hello, s))
    } else if kind == 9 {
        Ok((ClientMessageV::ObserveMetadata, s))
    } else if kind == 2 {
        match parse_key(s) {
            Err(e) => Err(e),
            Ok((e, r)) => Ok((ClientMessageV::Key(e), r)),
        }
    } else if kind == 3 {
        match parse_mouse(s) {
            Err(e) => Err(e),
            Ok((e, r)) => Ok((ClientMessageV::Mouse(e), r)),
        }
    } else if kind == 4 {
        match read_u8(s) {
            None => Err(Error::Truncated),
            Some((v, r)) => if v == 0 {
                Ok((ClientMessageV::Focus(FocusEvent::Gained), r))
            } else if v == 1 {
                Ok((ClientMessageV::Focus(FocusEvent::Lost), r))
            } else {
                Err(Error::InvalidTag { field: "focus", value: v })
            },
        }
    } else if kind == 5 {
        match bound_error(s.len(), MAX_PASTE_BYTES) {
            Some(e) => Err(e),
            None => Ok((ClientMessageV::Paste(s), Seq::empty())),
        }
    } else if kind == 6 {
        match parse_surface(s) {
            Err(e) => Err(e),
            Ok((size, r)) => Ok((ClientMessageV::Resize(size), r)),
        }
    } else if kind == 7 {
        match parse_selection(s) {
            Err(e) => Err(e),
            Ok((a, r)) => Ok((ClientMessageV::Selection(a), r)),
        }
    } else if kind == 8 {
        match read_u64(s) {
            None => Err(Error::Truncated),
            Some((frame_revision, r1)) => match parse_direction(r1) {
                Err(e) => Err(e),
                Ok((direction, r2)) => Ok((ClientMessageV::PreviewVertical { frame_revision, direction }, r2)),
            },
        }
    } else if kind == 10 {
        match read_u64(s) {
            None => Err(Error::Truncated),
            Some((frame_revision, r1)) => match read_i16(r1) {
                None => Err(Error::Truncated),
                Some((rows, r2)) => match scroll_rows_error(rows) {
                    Some(e) => Err(e),
                    None => Ok((ClientMessageV::ScrollVertical { frame_revision, rows }, r2)),
                },
            },
        }
    } else {
        Err(Error::InvalidTag { field: "client message", value: kind })
    }
}

pub open spec fn finished<T>(p: Parsed<T>) -> core::result::Result<T, Error> {
    match p {
        Err(e) => Err(e),
        Ok((v, r)) => if r.len() == 0 {
            Ok(v)
        } else {
            Err(Error::TrailingBytes { count: r.len() as usize })
        },
    }
}

/// What decoding a client message gives.
pub open spec fn spec_decode_client_message(b: Seq<u8>) -> core::result::Result<ClientMessageV, Error> {
    match spec_exact_message(b, true) {
        Err(e) => Err(e),
        Ok((kind, payload)) => finished(parse_client_payload(kind, payload)),
    }
}

// ---------------------------------------------------------------- server payloads

pub open spec fn frame_error<T>(r: core::result::Result<T, crate::frame::Error>) -> core::result::Result<
    T,
    Error,
> {
    match r {
        Ok(v) => Ok(v),
        Err(e) => Err(Error::Frame(e)),
    }
}

/// The bytes of a preview window, or the error encoding reports.
pub open spec fn preview_window(next: PreviewOutcomeV) -> core::result::Result<Seq<u8>, Error> {
    match next {
        PreviewOutcomeV::TerminalRouted => Err(Error::InvalidValue { field: "next vertical preview" }),
        PreviewOutcomeV::Viewport { cols, edge_reached, rows } => if rows.len() == 0 && !edge_reached {
            Err(Error::InvalidValue { field: "preview edge rows" })
        } else if cols == 0 {
            Err(Error::InvalidValue { field: "preview columns" })
        } else if rows.len() > u16::MAX {
            Err(Error::InvalidValue { field: "preview row count" })
        } else {
            match frame_error(spec_encode_canonical_rows(rows, cols)) {
                Err(e) => Err(e),
                Ok(b) => Ok(le16(cols) + (seq![bit(edge_reached)] + (le16(rows.len() as u16) + b))),
            }
        },
    }
}

pub open spec fn wheel_kind(applied: i8) -> Option<u8> {
    if applied == -1 {
        Some(139u8)
    } else if applied == 0 {
        Some(140u8)
    } else if applied == 1 {
        Some(141u8)
    } else {
        None
    }
}

/// The kind and payload of a server message, or the error encoding reports.
pub open spec fn server_payload(m: ServerMessageV) -> core::result::Result<(u8, Seq<u8>), Error> {
    match m {
        ServerMessageV::Attached => Ok((129u8, Seq::empty())),
        ServerMessageV::ObservingMetadata => Ok((143u8, Seq::empty())),
        ServerMessageV::Metadata(md) => match bound_error(utf8(md.title).len(), MAX_METADATA_BYTES) {
            Some(e) => Err(e),
            None => match bound_error(utf8(md.working_directory).len(), MAX_METADATA_BYTES) {
                Some(e) => Err(e),
                None => {
                    let p = le64(md.revision) + (ser_bounded(utf8(md.title)) + ser_bounded(
                        utf8(md.working_directory),
                    ));
                    match bound_error(p.len(), MAX_METADATA_BYTES) {
                        Some(e) => Err(e),
                        None => Ok((144u8, p)),
                    }
                },
            },
        },
        ServerMessageV::Busy => Ok((130u8, Seq::empty())),
        ServerMessageV::Frame(f) => match frame_error(spec_encode_frame(f)) {
            Err(e) => Err(e),
            Ok(b) => Ok((132u8, b)),
        },
        ServerMessageV::Accepted => Ok((133u8, Seq::empty())),
        ServerMessageV::Failure(f) => match bound_error(utf8(f.detail).len(), MAX_FAILURE_BYTES) {
            Some(e) => Err(e),
            None => Ok((134u8, seq![failure_code_tag(f.code)] + ser_bounded(utf8(f.detail)))),
        },
        ServerMessageV::Exited { code } => Ok((135u8, lei32(code))),
        ServerMessageV::SelectionFinished { frame_revision } => Ok((147u8, le64(frame_revision))),
        ServerMessageV::CopiedText { location, text } => match bound_error(
            utf8(text).len(),
            MAX_COPY_BYTES,
        ) {
            Some(e) => Err(e),
            None => Ok((136u8, seq![location_tag(location)] + utf8(text))),
        },
        ServerMessageV::ClipboardWrite { location, text } => match clipboard_text_error(text) {
            Some(e) => Err(e),
            None => Ok((137u8, seq![location_tag(location)] + utf8(text))),
        },
        ServerMessageV::VerticalPreview(p) => {
            let head = le64(p.frame_revision) + seq![direction_tag(p.direction)];
            match p.outcome {
                PreviewOutcomeV::TerminalRouted => Ok((142u8, head + seq![0u8])),
                PreviewOutcomeV::Viewport { .. } => match preview_window(p.outcome) {
                    Err(e) => Err(e),
                    Ok(w) => Ok((142u8, head + (seq![1u8] + w))),
                },
            }
        },
        ServerMessageV::WheelOutcome(w) => match w {
            WheelOutcomeV::TerminalRouted => Ok((138u8, Seq::empty())),
            WheelOutcomeV::Viewport { applied_rows, frame } => match frame_error(
                spec_encode_frame(frame),
            ) {
                Err(e) => Err(e),
                Ok(b) => match wheel_kind(applied_rows) {
                    None => Err(Error::InvalidValue { field: "applied wheel rows" }),
                    Some(kind) => Ok((kind, b)),
                },
            },
        },
        ServerMessageV::ScrollOutcome(s) => match s {
            ScrollOutcomeV::TerminalOwned { requested_rows } => match scroll_rows_error(
                requested_rows,
            ) {
                Some(e) => Err(e),
                None => Ok((145u8, lei16(requested_rows))),
            },
            ScrollOutcomeV::Viewport { requested_rows, applied_rows, frame, next } => match applied_rows_error(
                requested_rows,
                applied_rows,
            ) {
                Some(e) => Err(e),
                None => match frame_error(spec_encode_frame(frame)) {
                    Err(e) => Err(e),
                    Ok(b) => match preview_window(next) {
                        Err(e) => Err(e),
                        Ok(w) => Ok(
                            (
                                146u8,
                                lei16(requested_rows) + (lei16(applied_rows) + (le32(b.len() as u32)
                                    + (b + w))),
                            ),
                        ),
                    },
                },
            },
        },
    }
}

/// What encoding a server message gives.
pub open spec fn spec_encode_server_message(m: ServerMessageV) -> core::result::Result<Seq<u8>, Error> {
    match server_payload(m) {
        Err(e) => Err(e),
        Ok((kind, payload)) => spec_frame_message(false, kind, payload),
    }
}

// ---------------------------------------------------------------- server parsing

/// A preview window always consumes the rest of its payload.
pub open spec fn parse_preview_window(s: Seq<u8>) -> core::result::Result<PreviewOutcomeV, Error> {
    match read_u16(s) {
        None => Err(Error::Truncated),
        Some((cols, r1)) => match read_u8(r1) {
            None => Err(Error::Truncated),
            Some((e, r2)) => if e > 1 {
                Err(Error::InvalidTag { field: "preview edge", value: e })
            } else {
                match read_u16(r2) {
                    None => Err(Error::Truncated),
                    Some((count, r3)) => if cols == 0 {
                        Err(Error::InvalidValue { field: "preview columns" })
                    } else if count == 0 && e == 0 {
                        Err(Error::InvalidValue { field: "preview edge rows" })
                    } else if count * cols > MAX_CELLS {
                        Err(Error::InvalidValue { field: "preview cell count" })
                    } else {
                        match frame_error(spec_decode_canonical_rows(r3, cols, count)) {
                            Err(err) => Err(err),
                            Ok(rows) => Ok(PreviewOutcomeV::Viewport { cols, edge_reached: e == 1, rows }),
                        }
                    },
                }
            },
        },
    }
}

pub open spec fn parse_scroll_viewport(s: Seq<u8>) -> core::result::Result<ServerMessageV, Error> {
    match read_i16(s) {
        None => Err(Error::Truncated),
        Some((requested_rows, r1)) => match read_i16(r1) {
            None => Err(Error::Truncated),
            Some((applied_rows, r2)) => match applied_rows_error(requested_rows, applied_rows) {
                Some(e) => Err(e),
                None => match read_u32(r2) {
                    None => Err(Error::Truncated),
                    Some((n, r3)) => match bound_error(n as nat, MAX_FRAME_BYTES) {
                        Some(e) => Err(e),
                        None => match read_bytes(r3, n as int) {
                            None => Err(Error::Truncated),
                            Some((fb, r4)) => match frame_error(spec_decode_frame(fb)) {
                                Err(e) => Err(e),
                                Ok(frame) => match parse_preview_window(r4) {
                                    Err(e) => Err(e),
                                    Ok(next) => Ok(
                                        ServerMessageV::ScrollOutcome(
                                            ScrollOutcomeV::Viewport {
                                                requested_rows,
                                                applied_rows,
                                                frame,
                                                next,
                                            },
                                        ),
                                    ),
                                },
                            },
                        },
                    },
                },
            },
        },
    }
}

pub open spec fn parse_server_payload(kind: u8, s: Seq<u8>) -> Parsed<ServerMessageV> {
    if kind == 129 {
        Ok((ServerMessageV::Attached, s))
    } else if kind == 143 {
        Ok((ServerMessageV::ObservingMetadata, s))
    } else if kind == 144 {
        match read_u64(s) {
            None => Err(Error::Truncated),
            Some((revision, r1)) => match parse_text(r1, "metadata title", MAX_METADATA_BYTES) {
                Err(e) => Err(e),
                Ok((title, r2)) => match parse_text(
                    r2,
                    "metadata working directory",
                    MAX_METADATA_BYTES,
                ) {
                    Err(e) => Err(e),
                    Ok((working_directory, r3)) => Ok(
                        (ServerMessageV::Metadata(MetadataV { revision, title, working_directory }), r3),
                    ),
                },
            },
        }
    } else if kind == 130 {
        Ok((ServerMessageV::Busy, s))
    } else if kind == 133 {
        Ok((ServerMessageV::Accepted, s))
    } else if kind == 134 {
        match read_u8(s) {
            None => Err(Error::Truncated),
            Some((c, r1)) => if c > 2 {
                Err(Error::InvalidTag { field: "failure code", value: c })
            } else {
                match parse_text(r1, "failure detail", MAX_FAILURE_BYTES) {
                    Err(e) => Err(e),
                    Ok((detail, r2)) => Ok(
                        (
                            ServerMessageV::Failure(
                                FailureV {
                                    code: if c == 0 {
                                        FailureCode::InvalidInput
                                    } else if c == 1 {
                                        FailureCode::Protocol
                                    } else {
                                        FailureCode::Terminal
                                    },
                                    detail,
                                },
                            ),
                            r2,
                        ),
                    ),
                }
            },
        }
    } else if kind == 135 {
        match read_i32(s) {
            None => Err(Error::Truncated),
            Some((code, r)) => Ok((ServerMessageV::Exited { code }, r)),
        }
    } else if kind == 147 {
        match read_u64(s) {
            None => Err(Error::Truncated),
            Some((frame_revision, r)) => Ok((ServerMessageV::SelectionFinished { frame_revision }, r)),
        }
    } else if kind == 136 {
        match read_u8(s) {
            None => Err(Error::Truncated),
            Some((l, r1)) => if l > 2 {
                Err(Error::InvalidTag { field: "clipboard location", value: l })
            } else if !is_utf8(r1) {
                Err(Error::InvalidUtf8 { field: "copied text" })
            } else {
                Ok(
                    (
                        ServerMessageV::CopiedText { location: location_of(l), text: chars_of(r1) },
                        Seq::empty(),
                    ),
                )
            },
        }
    } else if kind == 137 {
        match read_u8(s) {
            None => Err(Error::Truncated),
            Some((l, r1)) => if l > 2 {
                Err(Error::InvalidTag { field: "clipboard location", value: l })
            } else if !is_utf8(r1) {
                Err(Error::InvalidUtf8 { field: "clipboard text" })
            } else {
                match clipboard_text_error(chars_of(r1)) {
                    Some(e) => Err(e),
                    None => Ok(
                        (
                            ServerMessageV::ClipboardWrite {
                                location: if l == 0 {
                                    ClipboardLocation::Standard
                                } else if l == 1 {
                                    ClipboardLocation::Selection
                                } else {
                                    ClipboardLocation::Primary
                                },
                                text: chars_of(r1),
                            },
                            Seq::empty(),
                        ),
                    ),
                }
            },
        }
    } else if kind == 138 {
        Ok((ServerMessageV::WheelOutcome(WheelOutcomeV::TerminalRouted), s))
    } else if kind == 145 {
        match read_i16(s) {
            None => Err(Error::Truncated),
            Some((requested_rows, r)) => match scroll_rows_error(requested_rows) {
                Some(e) => Err(e),
                None => Ok((ServerMessageV::ScrollOutcome(ScrollOutcomeV::TerminalOwned { requested_rows }), r)),
            },
        }
    } else if kind == 142 {
        match read_u64(s) {
            None => Err(Error::Truncated),
            Some((frame_revision, r1)) => match parse_direction(r1) {
                Err(e) => Err(e),
                Ok((direction, r2)) => match read_u8(r2) {
                    None => Err(Error::Truncated),
                    Some((o, r3)) => if o == 0 {
                        Ok(
                            (
                                ServerMessageV::VerticalPreview(
                                    VerticalPreviewV {
                                        frame_revision,
                                        direction,
                                        outcome: PreviewOutcomeV::TerminalRouted,
                                    },
                                ),
                                r3,
                            ),
                        )
                    } else if o == 1 {
                        match parse_preview_window(r3) {
                            Err(e) => Err(e),
                            Ok(outcome) => Ok(
                                (
                                    ServerMessageV::VerticalPreview(
                                        VerticalPreviewV { frame_revision, direction, outcome },
                                    ),
                                    Seq::empty(),
                                ),
                            ),
                        }
                    } else {
                        Err(Error::InvalidTag { field: "preview outcome", value: o })
                    },
                },
            },
        }
    } else {
        Err(Error::InvalidTag { field: "server message", value: kind })
    }
}

/// What decoding the payload of a server message of `kind` gives.
pub open spec fn decode_server_payload(kind: u8, payload: Seq<u8>) -> core::result::Result<
    ServerMessageV,
    Error,
> {
    if kind == 132 {
        match frame_error(spec_decode_frame(payload)) {
            Err(e) => Err(e),
            Ok(f) => Ok(ServerMessageV::Frame(f)),
        }
    } else if kind == 139 || kind == 140 || kind == 141 {
        match frame_error(spec_decode_frame(payload)) {
            Err(e) => Err(e),
            Ok(f) => Ok(
                ServerMessageV::WheelOutcome(
                    WheelOutcomeV::Viewport {
                        applied_rows: if kind == 139 {
                            -1i8
                        } else if kind == 140 {
                            0i8
                        } else {
                            1i8
                        },
                        frame: f,
                    },
                ),
            ),
        }
    } else if kind == 146 {
        parse_scroll_viewport(payload)
    } else {
        finished(parse_server_payload(kind, payload))
    }
}

/// What decoding a server message gives.
pub open spec fn spec_decode_server_message(b: Seq<u8>) -> core::result::Result<ServerMessageV, Error> {
    match spec_exact_message(b, false) {
        Err(e) => Err(e),
        Ok((kind, payload)) => decode_server_payload(kind, payload),
    }
}

} // verus!
