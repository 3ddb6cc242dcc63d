//! The ORBS v7 encoder and decoder, verified against `spec`.

use super::spec::{
    applied_rows_error, bit, bound_error, client_limits, client_payload, clipboard_text_error,
    codepoint_ok, direction_tag, failure_code_tag, forbidden_key_char, frame_error, key_action_tag,
    key_error, limits, location_tag, magic_bytes, mouse_action_tag, mouse_button_of,
    mouse_button_tag, mouse_error, parse_bounded_text, parse_direction, parse_position, position_error,
    parse_key, parse_key_head, parse_mouse, parse_optional_text, parse_preview_window,
    parse_scroll_viewport, parse_selection, parse_surface, parse_text, preview_window,
    scroll_rows_error, selection_error, ser_bounded, ser_position, ser_key, ser_message, ser_mouse,
    ser_optional_text, ser_selection, ser_surface, server_limits, server_payload,
    spec_decode_client_message, spec_decode_server_message, spec_encode_client_message,
    spec_encode_server_message, spec_exact_message, spec_frame_message, spec_message_len,
    surface_size_ok, wheel_button, KeyHead,
};
use super::{
    ClientMessage, ClientMessageV, ClipboardLocation, Error, Failure, FailureCode, FocusEvent,
    HEADER_BYTES, KeyAction, KeyEvent, KeyEventV, MAGIC, MAX_COPY_BYTES, MAX_FAILURE_BYTES,
    MAX_KEY_TEXT_BYTES, MAX_METADATA_BYTES, MAX_PASTE_BYTES, MAX_PAYLOAD_BYTES, MAX_SCROLL_ROWS,
    Metadata, Modifiers, MouseAction, MouseButton, MouseEvent, MouseEventV, PhysicalKey,
    PreviewOutcome, PreviewOutcomeV, Result, ScrollOutcome, ScrollOutcomeV, SelectionAction,
    SelectionActionV, SelectionPosition, ServerMessage, ServerMessageV, SurfaceSize, VERSION,
    VerticalDirection,
    VerticalPreview,
    WheelOutcome, modifiers_valid,
};
use crate::frame::{Frame, MAX_CELLS, MAX_FRAME_BYTES, MIN_FRAME_BYTES, Row};
use crate::frame_codec::{
    decode_canonical_rows, decode_frame, encode_canonical_rows, encode_frame, rows_view,
};
use crate::wire::{
    Cursor, le16, le32, le64, lei16, put_i16, put_i32, put_slice, put_u16, put_u32, put_u64, put_u8,
    read_bytes, read_i16, read_i32, read_u16, read_u32, read_u64, read_u8, str_bytes, string_bytes,
    string_from_utf8, utf8, lemma_utf8_empty,
};
use vstd::prelude::*;
use vstd::slice::{slice_subrange, slice_to_vec};
use vstd::std_specs::iter::IteratorSpec;

verus! {

broadcast use vstd::string::group_string_axioms;

// ---------------------------------------------------------------- outside calls

/// Calls `char::from_u32`, which gives a character exactly for the Unicode
/// scalar values (everything up to 0x10FFFF but the surrogates 0xD800 to
/// 0xDFFF), and that character has the given code.
#[verifier::external_body]
fn std_char_from_u32(value: u32) -> (r: Option<char>)
    ensures
        r is Some <==> codepoint_ok(value),
        r matches Some(c) ==> c as u32 == value,
{
    char::from_u32(value)
}

// ---------------------------------------------------------------- validation

fn validate_bound(size: usize, maximum: usize) -> (r: Result<()>)
    ensures
        match bound_error(size as nat, maximum) {
            Some(e) => r == Err::<(), Error>(e),
            None => r is Ok,
        },
{
    if size > maximum {
        Err(Error::PayloadTooLarge { size, maximum })
    } else {
        Ok(())
    }
}

fn checked_modifiers(value: u16) -> (r: Result<Modifiers>)
    ensures
        match r {
            Ok(m) => modifiers_valid(value) && m.spec_bits() == value,
            Err(e) => !modifiers_valid(value) && e == Error::InvalidValue { field: "modifiers" },
        },
{
    match Modifiers::from_bits(value) {
        Some(m) => Ok(m),
        None => Err(Error::InvalidValue { field: "modifiers" }),
    }
}

/// Whether `text` holds a character that key text may not carry.
fn has_forbidden_key_char(text: &str) -> (r: bool)
    ensures
        r == (exists|i: int| 0 <= i < text@.len() && forbidden_key_char(#[trigger] text@[i])),
{
    let mut chars = text.chars();
    let ghost mut idx: int = 0;
    loop
        invariant
            0 <= idx <= text@.len(),
            chars.remaining() == text@.skip(idx),
            forall|i: int| 0 <= i < idx ==> !forbidden_key_char(#[trigger] text@[i]),
        decreases text@.len() - idx,
    {
        let ghost before = chars.remaining();
        match chars.next() {
            Some(c) => {
                assert(before.len() > 0 && c == before[0]);
                assert(c == text@[idx]);
                let u = c as u32;
                if u <= 0x1f || u == 0x7f || (0xf700 <= u && u <= 0xf8ff) {
                    return true;
                }
                proof {
                    assert(before.drop_first() =~= text@.skip(idx + 1));
                    idx = idx + 1;
                }
            },
            None => {
                assert(idx == text@.len());
                return false;
            },
        }
    }
}

/// Whether `text` holds a NUL character.
pub(crate) fn has_nul(text: &str) -> (r: bool)
    ensures
        r == text@.contains('\0'),
{
    let mut chars = text.chars();
    let ghost mut idx: int = 0;
    loop
        invariant
            0 <= idx <= text@.len(),
            chars.remaining() == text@.skip(idx),
            forall|i: int| 0 <= i < idx ==> text@[i] != '\0',
        decreases text@.len() - idx,
    {
        let ghost before = chars.remaining();
        match chars.next() {
            Some(c) => {
                assert(before.len() > 0 && c == before[0]);
                assert(c == text@[idx]);
                if c == '\0' {
                    return true;
                }
                proof {
                    assert(before.drop_first() =~= text@.skip(idx + 1));
                    idx = idx + 1;
                }
            },
            None => {
                assert(idx == text@.len());
                return false;
            },
        }
    }
}

fn validate_key(event: &KeyEvent) -> (r: Result<()>)
    ensures
        match key_error(event@) {
            Some(e) => r == Err::<(), Error>(e),
            None => r is Ok,
        },
{
    checked_modifiers(event.modifiers.bits())?;
    checked_modifiers(event.consumed_modifiers.bits())?;
    if !event.modifiers.contains(event.consumed_modifiers) {
        return Err(Error::ConsumedModifiersNotActive);
    }
    match &event.text {
        Some(text) => {
            validate_bound(string_bytes(text).len(), MAX_KEY_TEXT_BYTES)?;
            if has_forbidden_key_char(text.as_str()) {
                return Err(Error::InvalidValue { field: "key text" });
            }
        },
        None => {},
    }
    Ok(())
}

fn is_wheel_button(button: MouseButton) -> (r: bool)
    ensures
        r == wheel_button(button),
{
    match button {
        MouseButton::Four | MouseButton::Five | MouseButton::Six | MouseButton::Seven => true,
        _ => false,
    }
}

fn validate_mouse(event: &MouseEvent) -> (r: Result<()>)
    ensures
        match mouse_error(event@) {
            Some(e) => r == Err::<(), Error>(e),
            None => r is Ok,
        },
{
    checked_modifiers(event.modifiers.bits())?;
    let motion = match event.action {
        MouseAction::Motion => true,
        _ => false,
    };
    let press = match event.action {
        MouseAction::Press => true,
        _ => false,
    };
    match event.button {
        None => {
            if !motion {
                return Err(Error::InvalidValue { field: "mouse button" });
            }
        },
        Some(button) => {
            if is_wheel_button(button) && !press {
                return Err(Error::InvalidValue { field: "mouse action" });
            }
        },
    }
    let x = event.x_bits;
    let y = event.y_bits;
    if (x <= 0x477fff00 || x == 0x8000_0000) && (y <= 0x477fff00 || y == 0x8000_0000) {
        Ok(())
    } else {
        Err(Error::InvalidCoordinates)
    }
}

fn validate_surface_size(size: &SurfaceSize) -> (r: Result<()>)
    ensures
        r is Ok <==> surface_size_ok(*size),
        r matches Err(e) ==> e == Error::InvalidSurfaceSize,
{
    let cols = size.cols as u64;
    let rows = size.rows as u64;
    let cw = size.cell_width as u64;
    let ch = size.cell_height as u64;
    assert(cols * rows <= 0xffff * 0xffff) by (nonlinear_arith)
        requires
            cols <= 0xffff,
            rows <= 0xffff,
    ;
    assert(cols * cw <= 0xffff * 0xffff_ffff) by (nonlinear_arith)
        requires
            cols <= 0xffff,
            cw <= 0xffff_ffff,
    ;
    assert(rows * ch <= 0xffff * 0xffff_ffff) by (nonlinear_arith)
        requires
            rows <= 0xffff,
            ch <= 0xffff_ffff,
    ;
    let cells = cols * rows;
    let horizontal_padding = size.padding_left as u64 + size.padding_right as u64;
    let vertical_padding = size.padding_top as u64 + size.padding_bottom as u64;
    let used_width = cols * cw + horizontal_padding;
    let used_height = rows * ch + vertical_padding;
    if size.cols == 0 || size.rows == 0 || size.screen_width == 0 || size.screen_height == 0
        || size.screen_width > 65535 || size.screen_height > 65535 || size.cell_width == 0
        || size.cell_height == 0 || cells > MAX_CELLS as u64 || horizontal_padding
        >= size.screen_width as u64 || vertical_padding >= size.screen_height as u64 || used_width
        > size.screen_width as u64 || used_height > size.screen_height as u64 {
        return Err(Error::InvalidSurfaceSize);
    }
    Ok(())
}

fn validate_scroll_rows(rows: i16) -> (r: Result<()>)
    ensures
        match scroll_rows_error(rows) {
            Some(e) => r == Err::<(), Error>(e),
            None => r is Ok,
        },
{
    if rows == 0 || !(-MAX_SCROLL_ROWS <= rows && rows <= MAX_SCROLL_ROWS) {
        Err(Error::InvalidValue { field: "vertical scroll rows" })
    } else {
        Ok(())
    }
}

fn validate_applied_scroll_rows(requested: i16, applied: i16) -> (r: Result<()>)
    ensures
        match applied_rows_error(requested, applied) {
            Some(e) => r == Err::<(), Error>(e),
            None => r is Ok,
        },
{
    validate_scroll_rows(requested)?;
    let requested_abs: i32 = if requested < 0 { -(requested as i32) } else { requested as i32 };
    let applied_abs: i32 = if applied < 0 { -(applied as i32) } else { applied as i32 };
    if applied == 0 || ((requested < 0) == (applied < 0) && applied_abs <= requested_abs) {
        Ok(())
    } else {
        Err(Error::InvalidValue { field: "applied scroll rows" })
    }
}

fn validate_clipboard_text(text: &str) -> (r: Result<()>)
    ensures
        match clipboard_text_error(text@) {
            Some(e) => r == Err::<(), Error>(e),
            None => r is Ok,
        },
{
    let bytes = str_bytes(text);
    validate_bound(bytes.len(), MAX_COPY_BYTES)?;
    proof {
        lemma_utf8_empty(text@);
    }
    if bytes.len() == 0 || has_nul(text) {
        assert(bytes.len() == 0 ==> text@.len() == 0);
        Err(Error::InvalidValue { field: "clipboard text" })
    } else {
        Ok(())
    }
}

// ---------------------------------------------------------------- tags

fn key_action_byte(action: KeyAction) -> (t: u8)
    ensures
        t == key_action_tag(action),
{
    match action {
        KeyAction::Press => 0,
        KeyAction::Release => 1,
        KeyAction::Repeat => 2,
    }
}

fn decode_key_action(value: u8) -> (r: Result<KeyAction>)
    ensures
        match r {
            Ok(a) => value <= 2 && key_action_tag(a) == value,
            Err(e) => value > 2 && e == Error::InvalidTag { field: "key action", value },
        },
{
    match value {
        0 => Ok(KeyAction::Press),
        1 => Ok(KeyAction::Release),
        2 => Ok(KeyAction::Repeat),
        value => Err(Error::InvalidTag { field: "key action", value }),
    }
}

/// The wire tag of a mouse action.
pub fn mouse_action_byte(action: MouseAction) -> (t: u8)
    ensures
        t == mouse_action_tag(action),
{
    match action {
        MouseAction::Press => 0,
        MouseAction::Release => 1,
        MouseAction::Motion => 2,
    }
}

fn decode_mouse_action(value: u8) -> (r: Result<MouseAction>)
    ensures
        match r {
            Ok(a) => value <= 2 && mouse_action_tag(a) == value,
            Err(e) => value > 2 && e == Error::InvalidTag { field: "mouse action", value },
        },
{
    match value {
        0 => Ok(MouseAction::Press),
        1 => Ok(MouseAction::Release),
        2 => Ok(MouseAction::Motion),
        value => Err(Error::InvalidTag { field: "mouse action", value }),
    }
}

fn mouse_button_byte(button: MouseButton) -> (t: u8)
    ensures
        t == mouse_button_tag(button),
        t <= 11,
{
    match button {
        MouseButton::Unknown => 0,
        MouseButton::Left => 1,
        MouseButton::Middle => 2,
        MouseButton::Right => 3,
        MouseButton::Four => 4,
        MouseButton::Five => 5,
        MouseButton::Six => 6,
        MouseButton::Seven => 7,
        MouseButton::Eight => 8,
        MouseButton::Nine => 9,
        MouseButton::Ten => 10,
        MouseButton::Eleven => 11,
    }
}

fn decode_mouse_button(value: u8) -> (r: Result<MouseButton>)
    ensures
        match r {
            Ok(b) => value <= 11 && b == mouse_button_of(value) && mouse_button_tag(b) == value,
            Err(e) => value > 11 && e == Error::InvalidTag { field: "mouse button", value },
        },
{
    match value {
        0 => Ok(MouseButton::Unknown),
        1 => Ok(MouseButton::Left),
        2 => Ok(MouseButton::Middle),
        3 => Ok(MouseButton::Right),
        4 => Ok(MouseButton::Four),
        5 => Ok(MouseButton::Five),
        6 => Ok(MouseButton::Six),
        7 => Ok(MouseButton::Seven),
        8 => Ok(MouseButton::Eight),
        9 => Ok(MouseButton::Nine),
        10 => Ok(MouseButton::Ten),
        11 => Ok(MouseButton::Eleven),
        value => Err(Error::InvalidTag { field: "mouse button", value }),
    }
}

fn direction_byte(direction: VerticalDirection) -> (t: u8)
    ensures
        t == direction_tag(direction),
{
    match direction {
        VerticalDirection::Up => 0,
        VerticalDirection::Down => 1,
    }
}

fn failure_code_byte(code: FailureCode) -> (t: u8)
    ensures
        t == failure_code_tag(code),
{
    match code {
        FailureCode::InvalidInput => 0,
        FailureCode::Protocol => 1,
        FailureCode::Terminal => 2,
    }
}

fn location_byte(location: ClipboardLocation) -> (t: u8)
    ensures
        t == location_tag(location),
{
    match location {
        ClipboardLocation::Standard => 0,
        ClipboardLocation::Selection => 1,
        ClipboardLocation::Primary => 2,
    }
}

// ---------------------------------------------------------------- framing

fn client_payload_limits(kind: u8) -> (r: Result<(usize, usize)>)
    ensures
        r == client_limits(kind),
{
    match kind {
        1 | 9 => Ok((0, 0)),
        2 => Ok((16, 16 + MAX_KEY_TEXT_BYTES)),
        3 => Ok((12, 12)),
        4 => Ok((1, 1)),
        5 => Ok((0, MAX_PASTE_BYTES)),
        6 => Ok((36, 36)),
        7 => Ok((1, 27)),
        8 => Ok((9, 9)),
        10 => Ok((10, 10)),
        value => Err(Error::InvalidTag { field: "client message", value }),
    }
}

fn server_payload_limits(kind: u8) -> (r: Result<(usize, usize)>)
    ensures
        r == server_limits(kind),
{
    match kind {
        129 | 130 | 133 | 143 | 138 => Ok((0, 0)),
        144 => Ok((16, MAX_METADATA_BYTES)),
        135 => Ok((4, 4)),
        132 | 139 | 140 | 141 => Ok((MIN_FRAME_BYTES, MAX_FRAME_BYTES)),
        134 => Ok((5, 5 + MAX_FAILURE_BYTES)),
        136 => Ok((1, 1 + MAX_COPY_BYTES)),
        137 => Ok((2, 1 + MAX_COPY_BYTES)),
        142 => Ok((10, MAX_FRAME_BYTES + 15)),
        145 => Ok((2, 2)),
        147 => Ok((8, 8)),
        146 => Ok((MIN_FRAME_BYTES + 13, MAX_PAYLOAD_BYTES)),
        value => Err(Error::InvalidTag { field: "server message", value }),
    }
}

fn payload_limits(client: bool, kind: u8) -> (r: Result<(usize, usize)>)
    ensures
        r == limits(client, kind),
        r matches Ok((_, maximum)) ==> maximum <= MAX_PAYLOAD_BYTES,
{
    if client {
        client_payload_limits(kind)
    } else {
        server_payload_limits(kind)
    }
}

fn message_len(bytes: &[u8], client: bool) -> (r: Result<Option<usize>>)
    ensures
        r == spec_message_len(bytes@, client),
{
    if bytes.len() < HEADER_BYTES {
        return Ok(None);
    }
    let ghost b = bytes@;
    assert(b.take(4) =~= seq![b[0], b[1], b[2], b[3]]);
    if !(bytes[0] == MAGIC[0] && bytes[1] == MAGIC[1] && bytes[2] == MAGIC[2] && bytes[3] == MAGIC[3]) {
        assert(b.take(4) != magic_bytes()) by {
            if b.take(4) == magic_bytes() {
                assert(b.take(4)[0] == 79 && b.take(4)[1] == 82);
                assert(b.take(4)[2] == 66 && b.take(4)[3] == 83);
            }
        }
        return Err(Error::InvalidMagic);
    }
    assert(b.take(4) =~= magic_bytes());
    let mut header = Cursor::new(slice_subrange(bytes, 4, HEADER_BYTES));
    assert(header.rest() =~= b.skip(4).take(8));
    let version = match header.u16() {
        Some(v) => v,
        None => return Err(Error::Truncated),
    };
    let _kind = header.u8();
    let _flags = header.u8();
    let payload = match header.u32() {
        Some(v) => v,
        None => return Err(Error::Truncated),
    };
    proof {
        assert(b.skip(4).take(2) =~= b.skip(4).take(8).take(2));
        assert(b.skip(8).take(4) =~= b.skip(4).take(8).skip(4).take(4));
    }
    if version != VERSION {
        return Err(Error::UnsupportedVersion { version });
    }
    if bytes[7] != 0 {
        return Err(Error::InvalidFlags { value: bytes[7] });
    }
    let (minimum, maximum) = payload_limits(client, bytes[6])?;
    let payload = payload as usize;
    validate_bound(payload, maximum)?;
    if payload < minimum {
        return Err(Error::InvalidValue { field: "message payload length" });
    }
    Ok(Some(HEADER_BYTES + payload))
}

/// Returns the complete client-message length once a valid header is available.
pub fn client_message_len(bytes: &[u8]) -> (r: Result<Option<usize>>)
    ensures
        r == spec_message_len(bytes@, true),
{
    message_len(bytes, true)
}

/// Returns the complete server-message length once a valid header is available.
pub fn server_message_len(bytes: &[u8]) -> (r: Result<Option<usize>>)
    ensures
        r == spec_message_len(bytes@, false),
{
    message_len(bytes, false)
}

fn frame_message(client: bool, kind: u8, payload: Vec<u8>) -> (r: Result<Vec<u8>>)
    ensures
        match spec_frame_message(client, kind, payload@) {
            Ok(b) => r matches Ok(v) && v@ == b,
            Err(e) => r == Err::<Vec<u8>, Error>(e),
        },
{
    let (_, maximum) = payload_limits(client, kind)?;
    validate_bound(payload.len(), maximum)?;
    let mut framed: Vec<u8> = Vec::with_capacity(HEADER_BYTES + payload.len());
    put_slice(&mut framed, MAGIC.as_slice());
    put_u16(&mut framed, VERSION);
    put_u8(&mut framed, kind);
    put_u8(&mut framed, 0);
    put_u32(&mut framed, payload.len() as u32);
    put_slice(&mut framed, payload.as_slice());
    assert(MAGIC@ =~= magic_bytes());
    assert(framed@ =~= ser_message(kind, payload@));
    Ok(framed)
}

fn exact_message<'a>(bytes: &'a [u8], client: bool) -> (r: Result<(u8, &'a [u8])>)
    ensures
        match r {
            Ok((kind, payload)) => spec_exact_message(bytes@, client) == Ok::<_, Error>((kind, payload@)),
            Err(e) => spec_exact_message(bytes@, client) == Err::<(u8, Seq<u8>), _>(e),
        },
{
    let length = match message_len(bytes, client)? {
        Some(length) => length,
        None => return Err(Error::Truncated),
    };
    if bytes.len() < length {
        return Err(Error::Truncated);
    }
    if bytes.len() > length {
        return Err(Error::TrailingBytes { count: bytes.len() - length });
    }
    let payload = slice_subrange(bytes, HEADER_BYTES, bytes.len());
    assert(payload@ =~= bytes@.skip(12));
    Ok((bytes[6], payload))
}

// ---------------------------------------------------------------- reader

/// A reader over one message payload.
pub struct Reader<'a> {
    pub input: Cursor<'a>,
}

impl<'a> Reader<'a> {
    pub open spec fn rest(&self) -> Seq<u8> {
        self.input.rest()
    }

    pub open spec fn wf(&self) -> bool {
        self.input.wf()
    }

    fn new(bytes: &'a [u8]) -> (r: Self)
        ensures
            r.wf(),
            r.rest() == bytes@,
    {
        Reader { input: Cursor::new(bytes) }
    }

    fn u8(&mut self) -> (r: Result<u8>)
        requires
            old(self).wf(),
        ensures
            final(self).wf(),
            match r {
                Ok(v) => read_u8(old(self).rest()) == Some((v, final(self).rest())),
                Err(e) => read_u8(old(self).rest()) is None && e == Error::Truncated,
            },
    {
        match self.input.u8() {
            Some(v) => Ok(v),
            None => Err(Error::Truncated),
        }
    }

    fn u16(&mut self) -> (r: Result<u16>)
        requires
            old(self).wf(),
        ensures
            final(self).wf(),
            match r {
                Ok(v) => read_u16(old(self).rest()) == Some((v, final(self).rest())),
                Err(e) => read_u16(old(self).rest()) is None && e == Error::Truncated,
            },
    {
        match self.input.u16() {
            Some(v) => Ok(v),
            None => Err(Error::Truncated),
        }
    }

    fn i16(&mut self) -> (r: Result<i16>)
        requires
            old(self).wf(),
        ensures
            final(self).wf(),
            match r {
                Ok(v) => read_i16(old(self).rest()) == Some((v, final(self).rest())),
                Err(e) => read_i16(old(self).rest()) is None && e == Error::Truncated,
            },
    {
        match self.input.i16() {
            Some(v) => Ok(v),
            None => Err(Error::Truncated),
        }
    }

    fn u32(&mut self) -> (r: Result<u32>)
        requires
            old(self).wf(),
        ensures
            final(self).wf(),
            match r {
                Ok(v) => read_u32(old(self).rest()) == Some((v, final(self).rest())),
                Err(e) => read_u32(old(self).rest()) is None && e == Error::Truncated,
            },
    {
        match self.input.u32() {
            Some(v) => Ok(v),
            None => Err(Error::Truncated),
        }
    }

    fn i32(&mut self) -> (r: Result<i32>)
        requires
            old(self).wf(),
        ensures
            final(self).wf(),
            match r {
                Ok(v) => read_i32(old(self).rest()) == Some((v, final(self).rest())),
                Err(e) => read_i32(old(self).rest()) is None && e == Error::Truncated,
            },
    {
        match self.input.i32() {
            Some(v) => Ok(v),
            None => Err(Error::Truncated),
        }
    }

    fn u64(&mut self) -> (r: Result<u64>)
        requires
            old(self).wf(),
        ensures
            final(self).wf(),
            match r {
                Ok(v) => read_u64(old(self).rest()) == Some((v, final(self).rest())),
                Err(e) => read_u64(old(self).rest()) is None && e == Error::Truncated,
            },
    {
        match self.input.u64() {
            Some(v) => Ok(v),
            None => Err(Error::Truncated),
        }
    }

    fn take(&mut self, length: usize) -> (r: Result<&'a [u8]>)
        requires
            old(self).wf(),
        ensures
            final(self).wf(),
            match r {
                Ok(v) => read_bytes(old(self).rest(), length as int) == Some((v@, final(self).rest())),
                Err(e) => read_bytes(old(self).rest(), length as int) is None && e == Error::Truncated,
            },
    {
        match self.input.take(length) {
            Some(v) => Ok(v),
            None => Err(Error::Truncated),
        }
    }

    fn take_remaining(&mut self)
        requires
            old(self).wf(),
        ensures
            final(self).wf(),
            final(self).rest() == Seq::<u8>::empty(),
    {
        self.input.take_remaining();
    }

    fn remaining(&self) -> (s: &'a [u8])
        requires
            self.wf(),
        ensures
            s@ == self.rest(),
    {
        self.input.remaining_slice()
    }

    fn text_with_length(&mut self, field: &'static str, length: u32, maximum: usize) -> (r: Result<String>)
        requires
            old(self).wf(),
        ensures
            final(self).wf(),
            match r {
                Ok(t) => parse_bounded_text(old(self).rest(), field, length, maximum) == Ok::<_, Error>((t@, final(self).rest())),
                Err(e) => parse_bounded_text(old(self).rest(), field, length, maximum) == Err::<(Seq<char>, Seq<u8>), _>(e),
            },
    {
        validate_bound(length as usize, maximum)?;
        let bytes = self.take(length as usize)?;
        match string_from_utf8(bytes) {
            Some(text) => Ok(text),
            None => Err(Error::InvalidUtf8 { field }),
        }
    }

    fn optional_text(&mut self, field: &'static str, maximum: usize) -> (r: Result<Option<String>>)
        requires
            old(self).wf(),
        ensures
            final(self).wf(),
            match r {
                Ok(t) => parse_optional_text(old(self).rest(), field, maximum) == Ok::<_, Error>(
                    (match t { Some(t) => Some(t@), None => None }, final(self).rest())),
                Err(e) => parse_optional_text(old(self).rest(), field, maximum) == Err::<(Option<Seq<char>>, Seq<u8>), _>(e),
            },
    {
        let length = self.u32()?;
        if length == u32::MAX {
            return Ok(None);
        }
        let text = self.text_with_length(field, length, maximum)?;
        Ok(Some(text))
    }

    fn bounded_text(&mut self, field: &'static str, maximum: usize) -> (r: Result<String>)
        requires
            old(self).wf(),
        ensures
            final(self).wf(),
            match r {
                Ok(t) => parse_text(old(self).rest(), field, maximum) == Ok::<_, Error>((t@, final(self).rest())),
                Err(e) => parse_text(old(self).rest(), field, maximum) == Err::<(Seq<char>, Seq<u8>), _>(e),
            },
    {
        let length = self.u32()?;
        self.text_with_length(field, length, maximum)
    }

    fn finish(&self) -> (r: Result<()>)
        requires
            self.wf(),
        ensures
            match r {
                Ok(()) => self.rest().len() == 0,
                Err(e) => self.rest().len() > 0 && e == Error::TrailingBytes { count: self.rest().len() as usize },
            },
    {
        let remaining = self.input.remaining();
        if remaining == 0 {
            Ok(())
        } else {
            Err(Error::TrailingBytes { count: remaining })
        }
    }
}

fn decode_bool(value: u8, field: &'static str) -> (r: Result<bool>)
    ensures
        match r {
            Ok(b) => value <= 1 && b == (value == 1),
            Err(e) => value > 1 && e == Error::InvalidTag { field, value },
        },
{
    match value {
        0 => Ok(false),
        1 => Ok(true),
        value => Err(Error::InvalidTag { field, value }),
    }
}

fn decode_direction(reader: &mut Reader) -> (r: Result<VerticalDirection>)
    requires
        old(reader).wf(),
    ensures
        final(reader).wf(),
        match r {
            Ok(d) => parse_direction(old(reader).rest()) == Ok::<_, Error>((d, final(reader).rest())),
            Err(e) => parse_direction(old(reader).rest()) == Err::<(VerticalDirection, Seq<u8>), _>(e),
        },
{
    match reader.u8()? {
        0 => Ok(VerticalDirection::Up),
        1 => Ok(VerticalDirection::Down),
        value => Err(Error::InvalidTag { field: "vertical direction", value }),
    }
}

// ---------------------------------------------------------------- client messages

fn put_key(out: &mut Vec<u8>, event: &KeyEvent)
    requires
        key_error(event@) is None,
    ensures
        final(out)@ == old(out)@ + ser_key(event@),
{
    let ghost start = out@;
    put_u8(out, key_action_byte(event.action));
    put_u16(out, event.key.raw());
    put_u16(out, event.modifiers.bits());
    put_u16(out, event.consumed_modifiers.bits());
    put_u8(out, if event.composing { 1 } else { 0 });
    let ghost before_text = out@;
    match &event.text {
        Some(text) => {
            let bytes = string_bytes(text);
            put_u32(out, bytes.len() as u32);
            put_slice(out, bytes);
        },
        None => {
            put_u32(out, u32::MAX);
        },
    }
    assert(out@ == before_text + ser_optional_text(event@.text));
    let codepoint: u32 = match event.unshifted_codepoint {
        Some(c) => c as u32,
        None => u32::MAX,
    };
    put_u32(out, codepoint);
    assert(out@ =~= start + ser_key(event@));
}

fn put_mouse(out: &mut Vec<u8>, event: &MouseEvent)
    ensures
        final(out)@ == old(out)@ + ser_mouse(event@),
{
    let ghost start = out@;
    put_u8(out, mouse_action_byte(event.action));
    put_u8(
        out,
        match event.button {
            None => 0,
            Some(button) => mouse_button_byte(button) + 1,
        },
    );
    put_u16(out, event.modifiers.bits());
    put_u32(out, event.x_bits);
    put_u32(out, event.y_bits);
    assert(out@ =~= start + ser_mouse(event@));
}

#[verifier::spinoff_prover]
#[verifier::rlimit(40)]
fn put_surface(out: &mut Vec<u8>, size: &SurfaceSize)
    ensures
        final(out)@ == old(out)@ + ser_surface(*size),
{
    let ghost start = out@;
    put_u16(out, size.cols);
    put_u16(out, size.rows);
    put_u32(out, size.screen_width);
    put_u32(out, size.screen_height);
    put_u32(out, size.cell_width);
    put_u32(out, size.cell_height);
    put_u32(out, size.padding_top);
    put_u32(out, size.padding_bottom);
    put_u32(out, size.padding_left);
    put_u32(out, size.padding_right);
    assert(out@ =~= start + ser_surface(*size));
}

fn validate_position(position: SelectionPosition, modifiers: &Modifiers) -> (r: Result<()>)
    ensures
        match position_error(position, modifiers.spec_bits()) {
            Some(e) => r == Err::<(), Error>(e),
            None => r is Ok,
        },
{
    checked_modifiers(modifiers.bits())?;
    let x = position.x_bits;
    let y = position.y_bits;
    if (x <= 0x477fff00 || x == 0x8000_0000) && (y <= 0x477fff00 || y == 0x8000_0000) {
        Ok(())
    } else {
        Err(Error::InvalidCoordinates)
    }
}

fn validate_selection(action: &SelectionAction) -> (r: Result<()>)
    ensures
        match selection_error(action@) {
            Some(e) => r == Err::<(), Error>(e),
            None => r is Ok,
        },
{
    match action {
        SelectionAction::Begin { position, modifiers, .. } => validate_position(*position, modifiers),
        SelectionAction::Update { position, modifiers } => validate_position(*position, modifiers),
        SelectionAction::Finish { position, modifiers } => validate_position(*position, modifiers),
        SelectionAction::Cancel => Ok(()),
        SelectionAction::Copy => Ok(()),
    }
}

fn put_position(out: &mut Vec<u8>, position: SelectionPosition, modifiers: &Modifiers)
    ensures
        final(out)@ == old(out)@ + ser_position(position, modifiers.spec_bits()),
{
    put_u16(out, modifiers.bits());
    put_u32(out, position.x_bits);
    put_u32(out, position.y_bits);
    assert(out@ =~= old(out)@ + ser_position(position, modifiers.spec_bits()));
}

fn put_selection(out: &mut Vec<u8>, action: &SelectionAction)
    ensures
        final(out)@ == old(out)@ + ser_selection(action@),
{
    let ghost start = out@;
    match action {
        SelectionAction::Begin { frame_revision, position, time_ns, modifiers } => {
            put_u8(out, 0);
            put_u64(out, *frame_revision);
            put_u64(out, *time_ns);
            put_position(out, *position, modifiers);
        },
        SelectionAction::Update { position, modifiers } => {
            put_u8(out, 1);
            put_position(out, *position, modifiers);
        },
        SelectionAction::Finish { position, modifiers } => {
            put_u8(out, 2);
            put_position(out, *position, modifiers);
        },
        SelectionAction::Copy => {
            put_u8(out, 3);
        },
        SelectionAction::Cancel => {
            put_u8(out, 4);
        },
    }
    assert(out@ =~= start + ser_selection(action@));
}

/// Encodes one client message with an ORBS v7 header.
pub fn encode_client_message(message: &ClientMessage) -> (r: Result<Vec<u8>>)
    ensures
        match r {
            Ok(b) => spec_encode_client_message(message@) == Ok::<Seq<u8>, Error>(b@),
            Err(e) => spec_encode_client_message(message@) == Err::<Seq<u8>, Error>(e),
        },
{
    let mut payload: Vec<u8> = Vec::new();
    let kind: u8 = match message {
        ClientMessage::Hello => 1,
        ClientMessage::ObserveMetadata => 9,
        ClientMessage::Key(event) => {
            validate_key(event)?;
            put_key(&mut payload, event);
            2
        },
        ClientMessage::Mouse(event) => {
            validate_mouse(event)?;
            put_mouse(&mut payload, event);
            3
        },
        ClientMessage::Focus(event) => {
            put_u8(
                &mut payload,
                match event {
                    FocusEvent::Gained => 0,
                    FocusEvent::Lost => 1,
                },
            );
            4
        },
        ClientMessage::Paste(bytes) => {
            validate_bound(bytes.len(), MAX_PASTE_BYTES)?;
            put_slice(&mut payload, bytes.as_slice());
            5
        },
        ClientMessage::Resize(size) => {
            validate_surface_size(size)?;
            put_surface(&mut payload, size);
            6
        },
        ClientMessage::Selection(action) => {
            validate_selection(action)?;
            put_selection(&mut payload, action);
            7
        },
        ClientMessage::PreviewVertical { frame_revision, direction } => {
            put_u64(&mut payload, *frame_revision);
            put_u8(&mut payload, direction_byte(*direction));
            8
        },
        ClientMessage::ScrollVertical { frame_revision, rows } => {
            validate_scroll_rows(*rows)?;
            put_u64(&mut payload, *frame_revision);
            put_i16(&mut payload, *rows);
            10
        },
    };
    assert(client_payload(message@) == Ok::<(u8, Seq<u8>), Error>((kind, payload@)));
    frame_message(true, kind, payload)
}

fn decode_key(reader: &mut Reader) -> (r: Result<KeyEvent>)
    requires
        old(reader).wf(),
    ensures
        final(reader).wf(),
        match r {
            Ok(e) => parse_key(old(reader).rest()) == Ok::<_, Error>((e@, final(reader).rest())),
            Err(e) => parse_key(old(reader).rest()) == Err::<(KeyEventV, Seq<u8>), _>(e),
        },
{
    let ghost start = reader.rest();
    let action = decode_key_action(reader.u8()?)?;
    let raw_key = reader.u16()?;
    let key = match PhysicalKey::from_raw(raw_key) {
        Some(key) => key,
        None => return Err(Error::InvalidValue { field: "physical key" }),
    };
    let modifiers = checked_modifiers(reader.u16()?)?;
    let consumed_modifiers = checked_modifiers(reader.u16()?)?;
    let composing = decode_bool(reader.u8()?, "composing")?;
    let ghost head = KeyHead {
        action,
        key: raw_key,
        modifiers: modifiers.spec_bits(),
        consumed_modifiers: consumed_modifiers.spec_bits(),
        composing,
    };
    assert(parse_key_head(start) == Ok::<_, Error>((head, reader.rest())));
    let text = reader.optional_text("key text", MAX_KEY_TEXT_BYTES)?;
    let raw_codepoint = reader.u32()?;
    let unshifted_codepoint = if raw_codepoint == u32::MAX {
        None
    } else {
        match std_char_from_u32(raw_codepoint) {
            Some(c) => {
                proof {
                    vstd::utf8::char_u32_cast(c, raw_codepoint);
                }
                Some(c)
            },
            None => return Err(Error::InvalidValue { field: "unshifted codepoint" }),
        }
    };
    let event = KeyEvent {
        action,
        key,
        modifiers,
        consumed_modifiers,
        composing,
        text,
        unshifted_codepoint,
    };
    validate_key(&event)?;
    Ok(event)
}

fn decode_mouse(reader: &mut Reader) -> (r: Result<MouseEvent>)
    requires
        old(reader).wf(),
    ensures
        final(reader).wf(),
        match r {
            Ok(e) => parse_mouse(old(reader).rest()) == Ok::<_, Error>((e@, final(reader).rest())),
            Err(e) => parse_mouse(old(reader).rest()) == Err::<(MouseEventV, Seq<u8>), _>(e),
        },
{
    let action = decode_mouse_action(reader.u8()?)?;
    let button_tag = reader.u8()?;
    let button = if button_tag == 0 {
        None
    } else {
        Some(decode_mouse_button(button_tag - 1)?)
    };
    let modifiers = checked_modifiers(reader.u16()?)?;
    let x_bits = reader.u32()?;
    let y_bits = reader.u32()?;
    let event = MouseEvent { action, button, modifiers, x_bits, y_bits };
    validate_mouse(&event)?;
    Ok(event)
}

fn decode_surface(reader: &mut Reader) -> (r: Result<SurfaceSize>)
    requires
        old(reader).wf(),
    ensures
        final(reader).wf(),
        match r {
            Ok(s) => parse_surface(old(reader).rest()) == Ok::<_, Error>((s, final(reader).rest())),
            Err(e) => parse_surface(old(reader).rest()) == Err::<(SurfaceSize, Seq<u8>), _>(e),
        },
{
    let ghost s = reader.rest();
    if reader.input.remaining() < 36 {
        return Err(Error::Truncated);
    }
    let cols = reader.u16()?;
    let rows = reader.u16()?;
    let screen_width = reader.u32()?;
    let screen_height = reader.u32()?;
    let cell_width = reader.u32()?;
    let cell_height = reader.u32()?;
    let padding_top = reader.u32()?;
    let padding_bottom = reader.u32()?;
    let padding_left = reader.u32()?;
    let padding_right = reader.u32()?;
    proof {
        assert(s.skip(2).skip(2) =~= s.skip(4));
        assert(s.skip(4).skip(4) =~= s.skip(8));
        assert(s.skip(8).skip(4) =~= s.skip(12));
        assert(s.skip(12).skip(4) =~= s.skip(16));
        assert(s.skip(16).skip(4) =~= s.skip(20));
        assert(s.skip(20).skip(4) =~= s.skip(24));
        assert(s.skip(24).skip(4) =~= s.skip(28));
        assert(s.skip(28).skip(4) =~= s.skip(32));
        assert(s.skip(32).skip(4) =~= s.skip(36));
    }
    let size = SurfaceSize {
        cols,
        rows,
        screen_width,
        screen_height,
        cell_width,
        cell_height,
        padding_top,
        padding_bottom,
        padding_left,
        padding_right,
    };
    validate_surface_size(&size)?;
    Ok(size)
}

fn decode_position(reader: &mut Reader) -> (r: Result<(SelectionPosition, Modifiers)>)
    requires
        old(reader).wf(),
    ensures
        final(reader).wf(),
        match r {
            Ok((p, m)) => parse_position(old(reader).rest()) == Ok::<_, Error>(
                ((p, m.spec_bits()), final(reader).rest()),
            ),
            Err(e) => parse_position(old(reader).rest()) == Err::<((SelectionPosition, u16), Seq<u8>), _>(e),
        },
{
    let ghost s = reader.rest();
    let modifiers = checked_modifiers(reader.u16()?)?;
    let x_bits = reader.u32()?;
    let y_bits = reader.u32()?;
    if (x_bits <= 0x477fff00 || x_bits == 0x8000_0000) && (y_bits <= 0x477fff00 || y_bits
        == 0x8000_0000) {
        Ok((SelectionPosition { x_bits, y_bits }, modifiers))
    } else {
        Err(Error::InvalidCoordinates)
    }
}

fn decode_selection(reader: &mut Reader) -> (r: Result<SelectionAction>)
    requires
        old(reader).wf(),
    ensures
        final(reader).wf(),
        match r {
            Ok(a) => parse_selection(old(reader).rest()) == Ok::<_, Error>((a@, final(reader).rest())),
            Err(e) => parse_selection(old(reader).rest()) == Err::<(SelectionActionV, Seq<u8>), _>(e),
        },
{
    match reader.u8()? {
        0 => {
            let frame_revision = reader.u64()?;
            let time_ns = reader.u64()?;
            let (position, modifiers) = decode_position(reader)?;
            Ok(SelectionAction::Begin { frame_revision, position, time_ns, modifiers })
        },
        1 => {
            let (position, modifiers) = decode_position(reader)?;
            Ok(SelectionAction::Update { position, modifiers })
        },
        2 => {
            let (position, modifiers) = decode_position(reader)?;
            Ok(SelectionAction::Finish { position, modifiers })
        },
        3 => Ok(SelectionAction::Copy),
        4 => Ok(SelectionAction::Cancel),
        value => Err(Error::InvalidTag { field: "selection action", value }),
    }
}

/// Decodes exactly one client message.
pub fn decode_client_message(bytes: &[u8]) -> (r: Result<ClientMessage>)
    ensures
        match r {
            Ok(m) => spec_decode_client_message(bytes@) == Ok::<ClientMessageV, Error>(m@),
            Err(e) => spec_decode_client_message(bytes@) == Err::<ClientMessageV, Error>(e),
        },
{
    let (kind, payload) = exact_message(bytes, true)?;
    let mut reader = Reader::new(payload);
    let message = match kind {
        1 => ClientMessage::Hello,
        9 => ClientMessage::ObserveMetadata,
        2 => ClientMessage::Key(decode_key(&mut reader)?),
        3 => ClientMessage::Mouse(decode_mouse(&mut reader)?),
        4 => ClientMessage::Focus(
            match reader.u8()? {
                0 => FocusEvent::Gained,
                1 => FocusEvent::Lost,
                value => {
                    return Err(Error::InvalidTag { field: "focus", value });
                },
            },
        ),
        5 => {
            validate_bound(payload.len(), MAX_PASTE_BYTES)?;
            reader.take_remaining();
            ClientMessage::Paste(slice_to_vec(payload))
        },
        6 => ClientMessage::Resize(decode_surface(&mut reader)?),
        7 => ClientMessage::Selection(decode_selection(&mut reader)?),
        8 => {
            let frame_revision = reader.u64()?;
            let direction = decode_direction(&mut reader)?;
            ClientMessage::PreviewVertical { frame_revision, direction }
        },
        10 => {
            let frame_revision = reader.u64()?;
            let rows = reader.i16()?;
            validate_scroll_rows(rows)?;
            ClientMessage::ScrollVertical { frame_revision, rows }
        },
        value => {
            return Err(Error::InvalidTag { field: "client message", value });
        },
    };
    reader.finish()?;
    Ok(message)
}

// ---------------------------------------------------------------- server messages

fn frame_result<T>(r: crate::frame::Result<T>) -> (out: Result<T>)
    ensures
        out == frame_error(r),
{
    match r {
        Ok(v) => Ok(v),
        Err(e) => Err(Error::Frame(e)),
    }
}

fn put_bounded_bytes(out: &mut Vec<u8>, value: &[u8], maximum: usize) -> (r: Result<()>)
    requires
        maximum <= u32::MAX,
    ensures
        match bound_error(value@.len(), maximum) {
            Some(e) => r == Err::<(), Error>(e),
            None => r is Ok && final(out)@ == old(out)@ + ser_bounded(value@),
        },
{
    validate_bound(value.len(), maximum)?;
    put_u32(out, value.len() as u32);
    put_slice(out, value);
    assert(out@ =~= old(out)@ + ser_bounded(value@));
    Ok(())
}

fn encode_preview_window(target: &mut Vec<u8>, next: &PreviewOutcome) -> (r: Result<()>)
    ensures
        match preview_window(next@) {
            Ok(w) => r is Ok && final(target)@ == old(target)@ + w,
            Err(e) => r == Err::<(), Error>(e),
        },
{
    let (cols, edge_reached, rows) = match next {
        PreviewOutcome::Viewport { cols, edge_reached, rows } => (*cols, *edge_reached, rows),
        PreviewOutcome::TerminalRouted => {
            return Err(Error::InvalidValue { field: "next vertical preview" });
        },
    };
    assert(rows_view(rows@) == rows@.map_values(|r: Row| r@));
    if rows.len() == 0 && !edge_reached {
        return Err(Error::InvalidValue { field: "preview edge rows" });
    }
    if cols == 0 {
        return Err(Error::InvalidValue { field: "preview columns" });
    }
    if rows.len() > u16::MAX as usize {
        return Err(Error::InvalidValue { field: "preview row count" });
    }
    let encoded = frame_result(encode_canonical_rows(rows.as_slice(), cols))?;
    let ghost start = target@;
    put_u16(target, cols);
    put_u8(target, if edge_reached { 1 } else { 0 });
    put_u16(target, rows.len() as u16);
    put_slice(target, encoded.as_slice());
    assert(target@ =~= start + (le16(cols) + (seq![bit(edge_reached)] + (le16(rows@.len() as u16) + encoded@))));
    Ok(())
}

/// The payload of a metadata observation.
fn metadata_payload(metadata: &Metadata) -> (r: Result<Vec<u8>>)
    ensures
        match server_payload(ServerMessageV::Metadata(metadata@)) {
            Ok((_, p)) => r matches Ok(v) && v@ == p,
            Err(e) => r == Err::<Vec<u8>, Error>(e),
        },
{
    let mut payload: Vec<u8> = Vec::new();
    put_u64(&mut payload, metadata.revision);
    put_bounded_bytes(&mut payload, string_bytes(&metadata.title), MAX_METADATA_BYTES)?;
    put_bounded_bytes(&mut payload, string_bytes(&metadata.working_directory), MAX_METADATA_BYTES)?;
    validate_bound(payload.len(), MAX_METADATA_BYTES)?;
    assert(payload@ =~= le64(metadata.revision) + (ser_bounded(utf8(metadata.title@)) + ser_bounded(
        utf8(metadata.working_directory@),
    )));
    Ok(payload)
}

/// The payload of a vertical preview result.
fn vertical_preview_payload(preview: &VerticalPreview) -> (r: Result<Vec<u8>>)
    ensures
        match server_payload(ServerMessageV::VerticalPreview(preview@)) {
            Ok((_, p)) => r matches Ok(v) && v@ == p,
            Err(e) => r == Err::<Vec<u8>, Error>(e),
        },
{
    let mut payload: Vec<u8> = Vec::new();
    put_u64(&mut payload, preview.frame_revision);
    put_u8(&mut payload, direction_byte(preview.direction));
    let ghost head = payload@;
    match &preview.outcome {
        PreviewOutcome::TerminalRouted => {
            put_u8(&mut payload, 0);
        },
        PreviewOutcome::Viewport { .. } => {
            put_u8(&mut payload, 1);
            encode_preview_window(&mut payload, &preview.outcome)?;
            assert(payload@ =~= head + (seq![1u8] + preview_window(preview.outcome@)->Ok_0));
        },
    }
    Ok(payload)
}

/// The payload of a committed viewport scroll.
fn scroll_viewport_payload(
    requested_rows: i16,
    applied_rows: i16,
    frame: &Frame,
    next: &PreviewOutcome,
) -> (r: Result<Vec<u8>>)
    ensures
        match server_payload(
            ServerMessageV::ScrollOutcome(
                ScrollOutcomeV::Viewport { requested_rows, applied_rows, frame: frame@, next: next@ },
            ),
        ) {
            Ok((_, p)) => r matches Ok(v) && v@ == p,
            Err(e) => r == Err::<Vec<u8>, Error>(e),
        },
{
    let mut payload: Vec<u8> = Vec::new();
    validate_applied_scroll_rows(requested_rows, applied_rows)?;
    put_i16(&mut payload, requested_rows);
    put_i16(&mut payload, applied_rows);
    let encoded = frame_result(encode_frame(frame))?;
    proof {
        crate::frame_round_trip::law_validated_size_is_encoded_length(*frame);
    }
    put_u32(&mut payload, encoded.len() as u32);
    put_slice(&mut payload, encoded.as_slice());
    encode_preview_window(&mut payload, next)?;
    assert(payload@ =~= lei16(requested_rows) + (lei16(applied_rows) + (le32(
        encoded@.len() as u32,
    ) + (encoded@ + preview_window(next@)->Ok_0))));
    Ok(payload)
}

/// The kind and payload of a server message.
fn server_kind_and_payload(message: &ServerMessage) -> (r: Result<(u8, Vec<u8>)>)
    ensures
        match server_payload(message@) {
            Ok((k, p)) => r matches Ok((kind, v)) && kind == k && v@ == p,
            Err(e) => r == Err::<(u8, Vec<u8>), Error>(e),
        },
{
    let mut payload: Vec<u8> = Vec::new();
    let kind: u8 = match message {
        ServerMessage::Attached => 129,
        ServerMessage::ObservingMetadata => 143,
        ServerMessage::Metadata(metadata) => {
            payload = metadata_payload(metadata)?;
            144
        },
        ServerMessage::Busy => 130,
        ServerMessage::Frame(frame) => {
            payload = frame_result(encode_frame(frame))?;
            132
        },
        ServerMessage::Accepted => 133,
        ServerMessage::Failure(failure) => {
            put_u8(&mut payload, failure_code_byte(failure.code));
            put_bounded_bytes(&mut payload, string_bytes(&failure.detail), MAX_FAILURE_BYTES)?;
            134
        },
        ServerMessage::Exited { code } => {
            put_i32(&mut payload, *code);
            135
        },
        ServerMessage::SelectionFinished { frame_revision } => {
            put_u64(&mut payload, *frame_revision);
            147
        },
        ServerMessage::CopiedText { location, text } => {
            let bytes = string_bytes(text);
            validate_bound(bytes.len(), MAX_COPY_BYTES)?;
            put_u8(&mut payload, location_byte(*location));
            put_slice(&mut payload, bytes);
            136
        },
        ServerMessage::ClipboardWrite { location, text } => {
            validate_clipboard_text(text.as_str())?;
            put_u8(&mut payload, location_byte(*location));
            put_slice(&mut payload, string_bytes(text));
            137
        },
        ServerMessage::VerticalPreview(preview) => {
            payload = vertical_preview_payload(preview)?;
            142
        },
        ServerMessage::WheelOutcome(WheelOutcome::TerminalRouted) => 138,
        ServerMessage::WheelOutcome(WheelOutcome::Viewport { applied_rows, frame }) => {
            payload = frame_result(encode_frame(frame))?;
            if *applied_rows == -1 {
                139
            } else if *applied_rows == 0 {
                140
            } else if *applied_rows == 1 {
                141
            } else {
                return Err(Error::InvalidValue { field: "applied wheel rows" });
            }
        },
        ServerMessage::ScrollOutcome(ScrollOutcome::TerminalOwned { requested_rows }) => {
            validate_scroll_rows(*requested_rows)?;
            put_i16(&mut payload, *requested_rows);
            145
        },
        ServerMessage::ScrollOutcome(
            ScrollOutcome::Viewport { requested_rows, applied_rows, frame, next },
        ) => {
            payload = scroll_viewport_payload(*requested_rows, *applied_rows, frame, next)?;
            146
        },
    };
    Ok((kind, payload))
}

/// Encodes one server message with an ORBS v7 header.
pub fn encode_server_message(message: &ServerMessage) -> (r: Result<Vec<u8>>)
    ensures
        match r {
            Ok(b) => spec_encode_server_message(message@) == Ok::<Seq<u8>, Error>(b@),
            Err(e) => spec_encode_server_message(message@) == Err::<Seq<u8>, Error>(e),
        },
{
    let (kind, payload) = server_kind_and_payload(message)?;
    frame_message(false, kind, payload)
}

fn decode_preview_window(reader: &mut Reader) -> (r: Result<PreviewOutcome>)
    requires
        old(reader).wf(),
    ensures
        final(reader).wf(),
        match r {
            Ok(p) => parse_preview_window(old(reader).rest()) == Ok::<_, Error>(p@)
                && final(reader).rest() == Seq::<u8>::empty(),
            Err(e) => parse_preview_window(old(reader).rest()) == Err::<PreviewOutcomeV, _>(e),
        },
{
    let cols = reader.u16()?;
    let edge_reached = decode_bool(reader.u8()?, "preview edge")?;
    let row_count = reader.u16()?;
    if cols == 0 {
        return Err(Error::InvalidValue { field: "preview columns" });
    }
    if row_count == 0 && !edge_reached {
        return Err(Error::InvalidValue { field: "preview edge rows" });
    }
    assert((row_count as u64) * (cols as u64) <= 0xffff * 0xffff) by (nonlinear_arith)
        requires
            row_count <= 0xffff,
            cols <= 0xffff,
    ;
    if (row_count as u64) * (cols as u64) > MAX_CELLS as u64 {
        return Err(Error::InvalidValue { field: "preview cell count" });
    }
    let rows = frame_result(decode_canonical_rows(reader.remaining(), cols, row_count))?;
    reader.take_remaining();
    let outcome = PreviewOutcome::Viewport { cols, edge_reached, rows };
    assert(rows_view(rows@) == rows@.map_values(|r: Row| r@));
    Ok(outcome)
}

fn decode_scroll_viewport(payload: &[u8]) -> (r: Result<ServerMessage>)
    ensures
        match r {
            Ok(m) => parse_scroll_viewport(payload@) == Ok::<_, Error>(m@),
            Err(e) => parse_scroll_viewport(payload@) == Err::<ServerMessageV, _>(e),
        },
{
    let mut reader = Reader::new(payload);
    let requested_rows = reader.i16()?;
    let applied_rows = reader.i16()?;
    validate_applied_scroll_rows(requested_rows, applied_rows)?;
    let frame_length = reader.u32()?;
    validate_bound(frame_length as usize, MAX_FRAME_BYTES)?;
    let frame_bytes = reader.take(frame_length as usize)?;
    let frame = Box::new(frame_result(decode_frame(frame_bytes))?);
    let next = decode_preview_window(&mut reader)?;
    reader.finish()?;
    Ok(ServerMessage::ScrollOutcome(ScrollOutcome::Viewport { requested_rows, applied_rows, frame, next }))
}

/// Decodes exactly one server message.
pub fn decode_server_message(bytes: &[u8]) -> (r: Result<ServerMessage>)
    ensures
        match r {
            Ok(m) => spec_decode_server_message(bytes@) == Ok::<ServerMessageV, Error>(m@),
            Err(e) => spec_decode_server_message(bytes@) == Err::<ServerMessageV, Error>(e),
        },
{
    let (kind, payload) = exact_message(bytes, false)?;
    if kind == 132 || kind == 139 || kind == 140 || kind == 141 {
        let frame = Box::new(frame_result(decode_frame(payload))?);
        return Ok(
            if kind == 132 {
                ServerMessage::Frame(frame)
            } else {
                ServerMessage::WheelOutcome(
                    WheelOutcome::Viewport {
                        applied_rows: if kind == 139 {
                            -1
                        } else if kind == 140 {
                            0
                        } else {
                            1
                        },
                        frame,
                    },
                )
            },
        );
    }
    if kind == 146 {
        return decode_scroll_viewport(payload);
    }
    let mut reader = Reader::new(payload);
    let message = match kind {
        129 => ServerMessage::Attached,
        143 => ServerMessage::ObservingMetadata,
        144 => {
            let revision = reader.u64()?;
            let title = reader.bounded_text("metadata title", MAX_METADATA_BYTES)?;
            let working_directory = reader.bounded_text(
                "metadata working directory",
                MAX_METADATA_BYTES,
            )?;
            ServerMessage::Metadata(Metadata { revision, title, working_directory })
        },
        130 => ServerMessage::Busy,
        133 => ServerMessage::Accepted,
        134 => {
            let code = match reader.u8()? {
                0 => FailureCode::InvalidInput,
                1 => FailureCode::Protocol,
                2 => FailureCode::Terminal,
                value => {
                    return Err(Error::InvalidTag { field: "failure code", value });
                },
            };
            let detail = reader.bounded_text("failure detail", MAX_FAILURE_BYTES)?;
            ServerMessage::Failure(Failure { code, detail })
        },
        135 => ServerMessage::Exited { code: reader.i32()? },
        147 => ServerMessage::SelectionFinished { frame_revision: reader.u64()? },
        136 => {
            let location = match reader.u8()? {
                0 => ClipboardLocation::Standard,
                1 => ClipboardLocation::Selection,
                2 => ClipboardLocation::Primary,
                value => {
                    return Err(Error::InvalidTag { field: "clipboard location", value });
                },
            };
            let text = match string_from_utf8(reader.remaining()) {
                Some(text) => text,
                None => {
                    return Err(Error::InvalidUtf8 { field: "copied text" });
                },
            };
            reader.take_remaining();
            ServerMessage::CopiedText { location, text }
        },
        137 => {
            let location = match reader.u8()? {
                0 => ClipboardLocation::Standard,
                1 => ClipboardLocation::Selection,
                2 => ClipboardLocation::Primary,
                value => {
                    return Err(Error::InvalidTag { field: "clipboard location", value });
                },
            };
            let text = match string_from_utf8(reader.remaining()) {
                Some(text) => text,
                None => {
                    return Err(Error::InvalidUtf8 { field: "clipboard text" });
                },
            };
            validate_clipboard_text(text.as_str())?;
            reader.take_remaining();
            ServerMessage::ClipboardWrite { location, text }
        },
        138 => ServerMessage::WheelOutcome(WheelOutcome::TerminalRouted),
        145 => {
            let requested_rows = reader.i16()?;
            validate_scroll_rows(requested_rows)?;
            ServerMessage::ScrollOutcome(ScrollOutcome::TerminalOwned { requested_rows })
        },
        142 => {
            let frame_revision = reader.u64()?;
            let direction = decode_direction(&mut reader)?;
            let outcome = match reader.u8()? {
                0 => PreviewOutcome::TerminalRouted,
                1 => decode_preview_window(&mut reader)?,
                value => {
                    return Err(Error::InvalidTag { field: "preview outcome", value });
                },
            };
            ServerMessage::VerticalPreview(VerticalPreview { frame_revision, direction, outcome })
        },
        value => {
            return Err(Error::InvalidTag { field: "server message", value });
        },
    };
    reader.finish()?;
    Ok(message)
}

} // verus!
