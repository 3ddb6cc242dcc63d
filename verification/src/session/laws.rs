//! Round-trip laws of the ORBS v7 codec: every message that encoding accepts
//! decodes back to itself, its header announces its exact length, and
//! decoding accepts only canonical bytes.

use super::spec::{
    bit, button_byte, client_limits, client_payload, codepoint_bits, direction_tag,
    failure_code_tag, finished, focus_tag, key_action_tag, key_error, limits, location_tag,
    magic_bytes, mouse_action_tag, mouse_error, parse_client_payload, parse_position,
    parse_key, parse_key_head, parse_mouse, parse_optional_text, parse_preview_window,
    parse_scroll_viewport, parse_selection, parse_server_payload, parse_surface, parse_text,
    position_error, preview_window, selection_error, ser_bounded, ser_position, ser_key, ser_key_head, ser_message, ser_mouse,
    ser_optional_text, ser_selection, ser_surface, server_limits, server_payload,
    spec_decode_client_message, spec_decode_server_message, spec_encode_client_message,
    spec_encode_server_message, spec_exact_message, spec_frame_message, spec_message_len,
    surface_size_ok, KeyHead, decode_server_payload,
};
use super::{
    ClientMessageV, Error, KeyEventV, MAX_FAILURE_BYTES, MAX_KEY_TEXT_BYTES, MAX_METADATA_BYTES,
    MetadataV, MouseEventV, PhysicalKey, PreviewOutcomeV, ScrollOutcomeV, SelectionActionV,
    SelectionPosition, ServerMessageV, SurfaceSize, VERSION, WheelOutcomeV,
};
use crate::frame::{FrameV, MAX_CELLS, MIN_FRAME_BYTES, PALETTE_LEN};
use crate::frame_spec::{spec_encode_canonical_rows, spec_encode_frame};
use crate::wire::{
    lemma_utf8_empty, chars_of, le16, le32, le64, lei16, lemma_assoc, lemma_read_bytes,
    lemma_read_i16, lemma_read_i32, lemma_read_inverse, lemma_read_u16, lemma_read_u32,
    lemma_read_u64, lemma_read_u8, lemma_split, lemma_utf8_round_trip, read_i16, read_u16, read_u32,
    read_u64, utf8,
};
use vstd::prelude::*;

verus! {

// ---------------------------------------------------------------- framing

proof fn lemma_message(client: bool, kind: u8, payload: Seq<u8>)
    requires
        spec_frame_message(client, kind, payload) is Ok,
        limits(client, kind)->Ok_0.0 <= payload.len(),
    ensures
        spec_message_len(ser_message(kind, payload), client) == Ok::<Option<usize>, Error>(
            Some(ser_message(kind, payload).len() as usize),
        ),
        spec_exact_message(ser_message(kind, payload), client) == Ok::<_, Error>((kind, payload)),
{
    let b = ser_message(kind, payload);
    let v = le16(VERSION);
    let tf = seq![kind, 0u8];
    let n = le32(payload.len() as u32);
    lemma_read_u16(VERSION, tf + (n + payload));
    lemma_read_u32(payload.len() as u32, payload);
    lemma_split(magic_bytes(), v + (tf + (n + payload)));
    assert(b.skip(4) == v + (tf + (n + payload)));
    assert(b.skip(4).skip(2) =~= tf + (n + payload));
    assert(b.skip(8) =~= n + payload);
    assert(b[6] == kind && b[7] == 0);
    assert(b.skip(12) =~= payload);
}

proof fn lemma_message_inverse(b: Seq<u8>, client: bool)
    ensures
        spec_exact_message(b, client) matches Ok((kind, payload)) ==> b == ser_message(kind, payload)
            && spec_frame_message(client, kind, payload) == Ok::<Seq<u8>, Error>(b)
            && limits(client, kind)->Ok_0.0 <= payload.len(),
{
    if let Ok((kind, payload)) = spec_exact_message(b, client) {
        lemma_read_inverse(b.skip(4));
        lemma_read_inverse(b.skip(8));
        let n = read_u32(b.skip(8))->Some_0.0;
        assert(b.skip(8) =~= le32(n) + b.skip(12));
        assert(b =~= b.take(4) + (b.skip(4).take(2) + (seq![b[6], b[7]] + b.skip(8))));
        assert(b.skip(4).take(2) == le16(VERSION));
        assert(payload.len() == n);
    }
}

// ---------------------------------------------------------------- fields

proof fn lemma_bounded_text(t: Seq<char>, r: Seq<u8>, field: &'static str, maximum: usize)
    requires
        utf8(t).len() <= maximum,
        maximum < u32::MAX,
    ensures
        parse_text(ser_bounded(utf8(t)) + r, field, maximum) == Ok::<_, Error>((t, r)),
        ser_bounded(utf8(t)).len() == 4 + utf8(t).len(),
{
    let u = utf8(t);
    lemma_read_u32(u.len() as u32, u + r);
    lemma_assoc(le32(u.len() as u32), u, r);
    lemma_read_bytes(u, r);
    lemma_utf8_round_trip(t, u);
}

proof fn lemma_bounded_text_inverse(s: Seq<u8>, field: &'static str, maximum: usize)
    requires
        maximum < u32::MAX,
    ensures
        parse_text(s, field, maximum) matches Ok((t, r)) ==> s == ser_bounded(utf8(t)) + r
            && utf8(t).len() <= maximum,
{
    lemma_read_inverse(s);
    if let Ok((t, r)) = parse_text(s, field, maximum) {
        let (n, r1) = read_u32(s).unwrap();
        let b = r1.take(n as int);
        lemma_utf8_round_trip(t, b);
        assert(r1 =~= b + r);
        lemma_assoc(le32(n), b, r);
    }
}

proof fn lemma_optional_text(t: Option<Seq<char>>, r: Seq<u8>)
    requires
        t matches Some(t) ==> utf8(t).len() <= MAX_KEY_TEXT_BYTES,
    ensures
        parse_optional_text(ser_optional_text(t) + r, "key text", MAX_KEY_TEXT_BYTES) == Ok::<
            _,
            Error,
        >((t, r)),
{
    match t {
        None => {
            lemma_read_u32(u32::MAX, r);
        },
        Some(t) => {
            lemma_bounded_text(t, r, "key text", MAX_KEY_TEXT_BYTES);
        },
    }
}

proof fn lemma_optional_text_inverse(s: Seq<u8>)
    ensures
        parse_optional_text(s, "key text", MAX_KEY_TEXT_BYTES) matches Ok((t, r)) ==> s
            == ser_optional_text(t) + r && (t matches Some(t) ==> utf8(t).len()
            <= MAX_KEY_TEXT_BYTES),
{
    lemma_read_inverse(s);
    lemma_bounded_text_inverse(s, "key text", MAX_KEY_TEXT_BYTES);
}

// ---------------------------------------------------------------- client payloads

/// The message kinds whose values the types themselves keep valid.
pub open spec fn client_message_valid(m: ClientMessageV) -> bool {
    m matches ClientMessageV::Key(e) ==> e.key <= PhysicalKey::MAX_RAW
}

pub open spec fn head_of(e: KeyEventV) -> KeyHead {
    KeyHead {
        action: e.action,
        key: e.key,
        modifiers: e.modifiers,
        consumed_modifiers: e.consumed_modifiers,
        composing: e.composing,
    }
}

proof fn lemma_key_layout(e: KeyEventV, r: Seq<u8>)
    ensures
        ser_key(e) + r == ser_key_head(head_of(e)) + (ser_optional_text(e.text) + (le32(
            codepoint_bits(e.unshifted_codepoint),
        ) + r)),
{
    assert(ser_key(e) + r =~= ser_key_head(head_of(e)) + (ser_optional_text(e.text) + (le32(
        codepoint_bits(e.unshifted_codepoint),
    ) + r)));
}

proof fn lemma_key_head(h: KeyHead, r: Seq<u8>)
    requires
        h.key <= PhysicalKey::MAX_RAW,
        super::modifiers_valid(h.modifiers),
        super::modifiers_valid(h.consumed_modifiers),
    ensures
        parse_key_head(ser_key_head(h) + r) == Ok::<_, Error>((h, r)),
{
    let a = seq![key_action_tag(h.action)];
    let k = le16(h.key);
    let m = le16(h.modifiers);
    let c = le16(h.consumed_modifiers);
    let z = seq![bit(h.composing)];
    assert(ser_key_head(h) + r =~= a + (k + (m + (c + (z + r)))));
    lemma_read_u8(key_action_tag(h.action), k + (m + (c + (z + r))));
    lemma_read_u16(h.key, m + (c + (z + r)));
    lemma_read_u16(h.modifiers, c + (z + r));
    lemma_read_u16(h.consumed_modifiers, z + r);
    lemma_read_u8(bit(h.composing), r);
}

#[verifier::spinoff_prover]
#[verifier::rlimit(40)]
proof fn lemma_key_head_inverse(s: Seq<u8>)
    ensures
        parse_key_head(s) matches Ok((h, r)) ==> s == ser_key_head(h) + r && h.key
            <= PhysicalKey::MAX_RAW,
{
    if let Ok((h, r)) = parse_key_head(s) {
        lemma_read_inverse(s);
        let r1 = s.skip(1);
        lemma_read_inverse(r1);
        let r2 = r1.skip(2);
        lemma_read_inverse(r2);
        let r3 = r2.skip(2);
        lemma_read_inverse(r3);
        let r4 = r3.skip(2);
        lemma_read_inverse(r4);
        assert(s =~= ser_key_head(h) + r);
    }
}

proof fn lemma_key(e: KeyEventV, r: Seq<u8>)
    requires
        key_error(e) is None,
        e.key <= PhysicalKey::MAX_RAW,
    ensures
        parse_key(ser_key(e) + r) == Ok::<_, Error>((e, r)),
{
    lemma_key_layout(e, r);
    let cp = codepoint_bits(e.unshifted_codepoint);
    lemma_key_head(head_of(e), ser_optional_text(e.text) + (le32(cp) + r));
    lemma_optional_text(e.text, le32(cp) + r);
    lemma_read_u32(cp, r);
    if let Some(c) = e.unshifted_codepoint {
        vstd::utf8::char_is_scalar(c);
        vstd::utf8::char_u32_cast(c, c as u32);
    }
}

proof fn lemma_key_inverse(s: Seq<u8>)
    ensures
        parse_key(s) matches Ok((e, r)) ==> s == ser_key(e) + r && e.key <= PhysicalKey::MAX_RAW,
{
    lemma_key_head_inverse(s);
    if let Ok((e, r)) = parse_key(s) {
        let (h, r1) = parse_key_head(s).unwrap();
        lemma_optional_text_inverse(r1);
        let (_, r2) = parse_optional_text(r1, "key text", MAX_KEY_TEXT_BYTES).unwrap();
        lemma_read_inverse(r2);
        let cp = read_u32(r2)->Some_0.0;
        if cp != u32::MAX {
            let c = cp as char;
            assert(c as u32 == cp);
        }
        assert(codepoint_bits(e.unshifted_codepoint) == cp);
        assert(h == head_of(e));
        lemma_key_layout(e, r);
    }
}

proof fn lemma_mouse(e: MouseEventV, r: Seq<u8>)
    requires
        mouse_error(e) is None,
    ensures
        parse_mouse(ser_mouse(e) + r) == Ok::<_, Error>((e, r)),
{
    let h = seq![mouse_action_tag(e.action), button_byte(e.button)];
    let m = le16(e.modifiers);
    let x = le32(e.x_bits);
    let y = le32(e.y_bits);
    assert(ser_mouse(e) + r =~= seq![mouse_action_tag(e.action)] + (seq![button_byte(e.button)] + (m
        + (x + (y + r)))));
    lemma_read_u8(mouse_action_tag(e.action), seq![button_byte(e.button)] + (m + (x + (y + r))));
    lemma_read_u8(button_byte(e.button), m + (x + (y + r)));
    lemma_read_u16(e.modifiers, x + (y + r));
    lemma_read_u32(e.x_bits, y + r);
    lemma_read_u32(e.y_bits, r);
}

#[verifier::spinoff_prover]
#[verifier::rlimit(40)]
proof fn lemma_mouse_inverse(s: Seq<u8>)
    ensures
        parse_mouse(s) matches Ok((e, r)) ==> s == ser_mouse(e) + r,
{
    if let Ok((e, r)) = parse_mouse(s) {
        lemma_read_inverse(s);
        let r1 = s.skip(1);
        lemma_read_inverse(r1);
        let r2 = r1.skip(1);
        lemma_read_inverse(r2);
        let r3 = r2.skip(2);
        lemma_read_inverse(r3);
        let r4 = r3.skip(4);
        lemma_read_inverse(r4);
        assert(s =~= ser_mouse(e) + r);
    }
}

proof fn lemma_surface_lengths(size: SurfaceSize)
    ensures
        le16(size.cols).len() == 2,
        le16(size.rows).len() == 2,
        le32(size.screen_width).len() == 4,
        le32(size.screen_height).len() == 4,
        le32(size.cell_width).len() == 4,
        le32(size.cell_height).len() == 4,
        le32(size.padding_top).len() == 4,
        le32(size.padding_bottom).len() == 4,
        le32(size.padding_left).len() == 4,
        le32(size.padding_right).len() == 4,
{
    crate::wire::lemma_le_lengths(size.cols, size.screen_width, 0);
    crate::wire::lemma_le_lengths(size.rows, size.screen_height, 0);
    crate::wire::lemma_le_lengths(0, size.cell_width, 0);
    crate::wire::lemma_le_lengths(0, size.cell_height, 0);
    crate::wire::lemma_le_lengths(0, size.padding_top, 0);
    crate::wire::lemma_le_lengths(0, size.padding_bottom, 0);
    crate::wire::lemma_le_lengths(0, size.padding_left, 0);
    crate::wire::lemma_le_lengths(0, size.padding_right, 0);
}

proof fn lemma_surface(size: SurfaceSize, r: Seq<u8>)
    requires
        surface_size_ok(size),
    ensures
        parse_surface(ser_surface(size) + r) == Ok::<_, Error>((size, r)),
{
    lemma_surface_lengths(size);
    let s = ser_surface(size) + r;
    let t10 = le32(size.padding_right) + r;
    let t9 = le32(size.padding_left) + t10;
    let t8 = le32(size.padding_bottom) + t9;
    let t7 = le32(size.padding_top) + t8;
    let t6 = le32(size.cell_height) + t7;
    let t5 = le32(size.cell_width) + t6;
    let t4 = le32(size.screen_height) + t5;
    let t3 = le32(size.screen_width) + t4;
    let t2 = le16(size.rows) + t3;
    assert(s =~= le16(size.cols) + t2);
    assert(s.skip(2) =~= t2);
    assert(s.skip(4) =~= t3);
    assert(s.skip(8) =~= t4);
    assert(s.skip(12) =~= t5);
    assert(s.skip(16) =~= t6);
    assert(s.skip(20) =~= t7);
    assert(s.skip(24) =~= t8);
    assert(s.skip(28) =~= t9);
    assert(s.skip(32) =~= t10);
    assert(s.skip(36) =~= r);
    lemma_read_u16(size.cols, t2);
    lemma_read_u16(size.rows, t3);
    lemma_read_u32(size.screen_width, t4);
    lemma_read_u32(size.screen_height, t5);
    lemma_read_u32(size.cell_width, t6);
    lemma_read_u32(size.cell_height, t7);
    lemma_read_u32(size.padding_top, t8);
    lemma_read_u32(size.padding_bottom, t9);
    lemma_read_u32(size.padding_left, t10);
    lemma_read_u32(size.padding_right, r);
}

#[verifier::spinoff_prover]
#[verifier::rlimit(60)]
proof fn lemma_surface_inverse(s: Seq<u8>)
    ensures
        parse_surface(s) matches Ok((size, r)) ==> s == ser_surface(size) + r,
{
    if let Ok((size, r)) = parse_surface(s) {
        lemma_surface_lengths(size);
        lemma_read_inverse(s);
        lemma_read_inverse(s.skip(2));
        lemma_read_inverse(s.skip(4));
        lemma_read_inverse(s.skip(8));
        lemma_read_inverse(s.skip(12));
        lemma_read_inverse(s.skip(16));
        lemma_read_inverse(s.skip(20));
        lemma_read_inverse(s.skip(24));
        lemma_read_inverse(s.skip(28));
        lemma_read_inverse(s.skip(32));
        assert(s.skip(2).skip(2) =~= s.skip(4));
        assert(s.skip(4).skip(4) =~= s.skip(8));
        assert(s.skip(8).skip(4) =~= s.skip(12));
        assert(s.skip(12).skip(4) =~= s.skip(16));
        assert(s.skip(16).skip(4) =~= s.skip(20));
        assert(s.skip(20).skip(4) =~= s.skip(24));
        assert(s.skip(24).skip(4) =~= s.skip(28));
        assert(s.skip(28).skip(4) =~= s.skip(32));
        assert(s.skip(32).skip(4) =~= s.skip(36));
        let t10 = le32(size.padding_right) + r;
        let t9 = le32(size.padding_left) + t10;
        let t8 = le32(size.padding_bottom) + t9;
        let t7 = le32(size.padding_top) + t8;
        let t6 = le32(size.cell_height) + t7;
        let t5 = le32(size.cell_width) + t6;
        let t4 = le32(size.screen_height) + t5;
        let t3 = le32(size.screen_width) + t4;
        let t2 = le16(size.rows) + t3;
        assert(s.skip(32) == t10);
        assert(s.skip(28) == t9);
        assert(s.skip(24) == t8);
        assert(s.skip(20) == t7);
        assert(s.skip(16) == t6);
        assert(s.skip(12) == t5);
        assert(s.skip(8) == t4);
        assert(s.skip(4) == t3);
        assert(s.skip(2) == t2);
        assert(s =~= ser_surface(size) + r);
    }
}

proof fn lemma_position(p: SelectionPosition, modifiers: u16, r: Seq<u8>)
    requires
        position_error(p, modifiers) is None,
    ensures
        parse_position(ser_position(p, modifiers) + r) == Ok::<_, Error>(((p, modifiers), r)),
        ser_position(p, modifiers).len() == 10,
{
    let x = le32(p.x_bits);
    let y = le32(p.y_bits);
    assert(ser_position(p, modifiers) + r =~= le16(modifiers) + (x + (y + r)));
    lemma_read_u16(modifiers, x + (y + r));
    lemma_read_u32(p.x_bits, y + r);
    lemma_read_u32(p.y_bits, r);
    crate::wire::lemma_le_lengths(modifiers, p.x_bits, 0);
    crate::wire::lemma_le_lengths(0, p.y_bits, 0);
}

proof fn lemma_position_inverse(s: Seq<u8>)
    ensures
        parse_position(s) matches Ok(((p, m), r)) ==> s == ser_position(p, m) + r
            && position_error(p, m) is None,
{
    if let Ok(((p, m), r)) = parse_position(s) {
        lemma_read_inverse(s);
        lemma_read_inverse(s.skip(2));
        lemma_read_inverse(s.skip(2).skip(4));
        assert(s =~= ser_position(p, m) + r);
    }
}

proof fn lemma_selection(a: SelectionActionV, r: Seq<u8>)
    requires
        selection_error(a) is None,
    ensures
        parse_selection(ser_selection(a) + r) == Ok::<_, Error>((a, r)),
        1 <= ser_selection(a).len() <= 27,
{
    match a {
        SelectionActionV::Begin { frame_revision, position, time_ns, modifiers } => {
            let p = ser_position(position, modifiers);
            assert(ser_selection(a) + r =~= seq![0u8] + (le64(frame_revision) + (le64(time_ns) + (p
                + r))));
            lemma_read_u8(0u8, le64(frame_revision) + (le64(time_ns) + (p + r)));
            lemma_read_u64(frame_revision, le64(time_ns) + (p + r));
            lemma_read_u64(time_ns, p + r);
            lemma_position(position, modifiers, r);
            crate::wire::lemma_le_lengths(0, 0, frame_revision);
            crate::wire::lemma_le_lengths(0, 0, time_ns);
        },
        SelectionActionV::Update { position, modifiers } => {
            let p = ser_position(position, modifiers);
            assert(ser_selection(a) + r =~= seq![1u8] + (p + r));
            lemma_read_u8(1u8, p + r);
            lemma_position(position, modifiers, r);
        },
        SelectionActionV::Finish { position, modifiers } => {
            let p = ser_position(position, modifiers);
            assert(ser_selection(a) + r =~= seq![2u8] + (p + r));
            lemma_read_u8(2u8, p + r);
            lemma_position(position, modifiers, r);
        },
        SelectionActionV::Copy => {
            lemma_read_u8(3u8, r);
        },
        SelectionActionV::Cancel => {
            lemma_read_u8(4u8, r);
        },
    }
}

proof fn lemma_selection_inverse(s: Seq<u8>)
    ensures
        parse_selection(s) matches Ok((a, r)) ==> s == ser_selection(a) + r && selection_error(a) is None,
{
    if let Ok((a, r)) = parse_selection(s) {
        lemma_read_inverse(s);
        let r1 = s.skip(1);
        lemma_read_inverse(r1);
        lemma_read_inverse(r1.skip(8));
        lemma_position_inverse(r1);
        lemma_position_inverse(r1.skip(8).skip(8));
        match a {
            SelectionActionV::Begin { frame_revision, position, time_ns, modifiers } => {
                assert(s =~= seq![0u8] + (le64(frame_revision) + (le64(time_ns) + (ser_position(
                    position,
                    modifiers,
                ) + r))));
            },
            _ => {
                assert(s =~= ser_selection(a) + r);
            },
        }
    }
}

proof fn lemma_client_payload(m: ClientMessageV)
    requires
        client_message_valid(m),
        client_payload(m) is Ok,
    ensures
        parse_client_payload(client_payload(m)->Ok_0.0, client_payload(m)->Ok_0.1) == Ok::<
            _,
            Error,
        >((m, Seq::<u8>::empty())),
        client_limits(client_payload(m)->Ok_0.0) is Ok,
        client_limits(client_payload(m)->Ok_0.0)->Ok_0.0 <= client_payload(m)->Ok_0.1.len(),
{
    let e = Seq::<u8>::empty();
    let p = client_payload(m)->Ok_0.1;
    assert(p + e =~= p);
    match m {
        ClientMessageV::Key(k) => {
            lemma_key(k, e);
            crate::wire::lemma_le_lengths(k.key, codepoint_bits(k.unshifted_codepoint), 0);
            crate::wire::lemma_le_lengths(0, u32::MAX, 0);
            if let Some(t) = k.text {
                crate::wire::lemma_le_lengths(0, utf8(t).len() as u32, 0);
            }
            assert(ser_optional_text(k.text).len() >= 4);
        },
        ClientMessageV::Mouse(ev) => {
            lemma_mouse(ev, e);
            crate::wire::lemma_le_lengths(ev.modifiers, ev.x_bits, 0);
        },
        ClientMessageV::Focus(f) => {
            lemma_read_u8(focus_tag(f), e);
        },
        ClientMessageV::Resize(s) => {
            lemma_surface(s, e);
        },
        ClientMessageV::Selection(a) => {
            lemma_selection(a, e);
        },
        ClientMessageV::PreviewVertical { frame_revision, direction } => {
            lemma_read_u64(frame_revision, seq![direction_tag(direction)]);
            lemma_read_u8(direction_tag(direction), e);
        },
        ClientMessageV::ScrollVertical { frame_revision, rows } => {
            lemma_read_u64(frame_revision, lei16(rows));
            lemma_read_i16(rows, e);
        },
        _ => {},
    }
}

/// Every client message that encoding accepts decodes back to itself, and
/// its header announces its exact length.
pub proof fn law_client_message_round_trip(m: ClientMessageV)
    requires
        client_message_valid(m),
    ensures
        spec_encode_client_message(m) matches Ok(b) ==> spec_decode_client_message(b) == Ok::<
            ClientMessageV,
            Error,
        >(m) && spec_message_len(b, true) == Ok::<Option<usize>, Error>(Some(b.len() as usize)),
{
    if let Ok((kind, payload)) = client_payload(m) {
        if spec_frame_message(true, kind, payload) is Ok {
            lemma_client_payload(m);
            lemma_message(true, kind, payload);
        }
    }
}

/// Decoding accepts only canonical client messages.
pub proof fn law_client_message_canonical(b: Seq<u8>)
    ensures
        spec_decode_client_message(b) matches Ok(m) ==> spec_encode_client_message(m) == Ok::<
            Seq<u8>,
            Error,
        >(b) && client_message_valid(m),
{
    lemma_message_inverse(b, true);
    if let Ok(m) = spec_decode_client_message(b) {
        let (kind, payload) = spec_exact_message(b, true).unwrap();
        let e = Seq::<u8>::empty();
        lemma_key_inverse(payload);
        lemma_mouse_inverse(payload);
        lemma_surface_inverse(payload);
        lemma_selection_inverse(payload);
        lemma_read_inverse(payload);
        lemma_read_inverse(payload.skip(8));
        assert(payload + e =~= payload);
        if kind == 8 {
            assert(payload =~= payload.take(8) + seq![payload[8]]);
        }
        if kind == 10 {
            assert(payload =~= payload.take(8) + payload.skip(8));
        }
        if kind == 1 || kind == 9 {
            assert(payload =~= e);
        }
    }
}

// ---------------------------------------------------------------- server payloads

/// A preview window that decoding takes back: its cell count within
/// [`MAX_CELLS`], and a usable column count when it carries no rows.
pub open spec fn preview_decodable(p: PreviewOutcomeV) -> bool {
    p matches PreviewOutcomeV::Viewport { cols, rows, .. } ==> rows.len() * cols <= MAX_CELLS && (
    rows.len() > 0 || cols <= MAX_CELLS)
}

/// The frames a server message carries have full palettes, as the frame type
/// guarantees, and its preview windows are decodable.
pub open spec fn server_message_valid(m: ServerMessageV) -> bool {
    match m {
        ServerMessageV::Frame(f) => f.colors.palette.len() == PALETTE_LEN,
        ServerMessageV::WheelOutcome(WheelOutcomeV::Viewport { frame, .. }) => frame.colors.palette.len()
            == PALETTE_LEN,
        ServerMessageV::ScrollOutcome(ScrollOutcomeV::Viewport { frame, next, .. }) => frame.colors.palette.len()
            == PALETTE_LEN && preview_decodable(next),
        ServerMessageV::VerticalPreview(p) => preview_decodable(p.outcome),
        _ => true,
    }
}

proof fn lemma_preview_window(next: PreviewOutcomeV)
    requires
        preview_window(next) is Ok,
        preview_decodable(next),
    ensures
        parse_preview_window(preview_window(next)->Ok_0) == Ok::<_, Error>(next),
        preview_window(next)->Ok_0.len() >= 5,
{
    if let PreviewOutcomeV::Viewport { cols, edge_reached, rows } = next {
        let b = spec_encode_canonical_rows(rows, cols)->Ok_0;
        crate::frame_round_trip::law_rows_encode_then_decode(rows, cols);
        let n = rows.len() as u16;
        lemma_read_u16(cols, seq![bit(edge_reached)] + (le16(n) + b));
        lemma_read_u8(bit(edge_reached), le16(n) + b);
        lemma_read_u16(n, b);
        assert(n * cols == rows.len() * cols);
    }
}

proof fn lemma_preview_window_inverse(s: Seq<u8>)
    ensures
        parse_preview_window(s) matches Ok(p) ==> preview_window(p) == Ok::<Seq<u8>, Error>(s)
            && preview_decodable(p),
{
    if let Ok(p) = parse_preview_window(s) {
        lemma_read_inverse(s);
        let r1 = s.skip(2);
        lemma_read_inverse(r1);
        let r2 = r1.skip(1);
        lemma_read_inverse(r2);
        let r3 = r2.skip(2);
        let cols = read_u16(s)->Some_0.0;
        let count = read_u16(r2)->Some_0.0;
        crate::frame_round_trip::law_rows_decode_then_encode(r3, cols, count);
        crate::frame_laws::lemma_rows_inverse(r3, count as nat, cols);
        let rows = p->Viewport_rows;
        assert(rows.len() == count);
        assert(s =~= le16(cols) + (seq![s[2]] + (le16(count) + r3)));
    }
}

proof fn lemma_metadata(md: MetadataV)
    requires
        server_payload(ServerMessageV::Metadata(md)) is Ok,
    ensures
        finished(parse_server_payload(144, server_payload(ServerMessageV::Metadata(md))->Ok_0.1))
            == Ok::<_, Error>(ServerMessageV::Metadata(md)),
        server_payload(ServerMessageV::Metadata(md))->Ok_0.1.len() >= 16,
{
    let t = ser_bounded(utf8(md.title));
    let w = ser_bounded(utf8(md.working_directory));
    let e = Seq::<u8>::empty();
    lemma_read_u64(md.revision, t + w);
    lemma_bounded_text(md.title, w, "metadata title", MAX_METADATA_BYTES);
    lemma_bounded_text(md.working_directory, e, "metadata working directory", MAX_METADATA_BYTES);
    assert(w + e =~= w);
}

proof fn lemma_scroll_viewport(req: i16, app: i16, frame: FrameV, next: PreviewOutcomeV)
    requires
        server_payload(
            ServerMessageV::ScrollOutcome(
                ScrollOutcomeV::Viewport { requested_rows: req, applied_rows: app, frame, next },
            ),
        ) is Ok,
        frame.colors.palette.len() == PALETTE_LEN,
        preview_decodable(next),
    ensures
        ({
            let m = ServerMessageV::ScrollOutcome(
                ScrollOutcomeV::Viewport { requested_rows: req, applied_rows: app, frame, next },
            );
            &&& parse_scroll_viewport(server_payload(m)->Ok_0.1) == Ok::<_, Error>(m)
            &&& server_payload(m)->Ok_0.1.len() >= MIN_FRAME_BYTES + 13
        }),
{
    let b = spec_encode_frame(frame)->Ok_0;
    let w = preview_window(next)->Ok_0;
    crate::frame_round_trip::lemma_encoded_frame(frame);
    lemma_preview_window(next);
    lemma_read_i16(req, lei16(app) + (le32(b.len() as u32) + (b + w)));
    lemma_read_i16(app, le32(b.len() as u32) + (b + w));
    lemma_read_u32(b.len() as u32, b + w);
    lemma_read_bytes(b, w);
}

proof fn lemma_server_payload(m: ServerMessageV)
    requires
        server_message_valid(m),
        server_payload(m) is Ok,
    ensures
        decode_server_payload(server_payload(m)->Ok_0.0, server_payload(m)->Ok_0.1) == Ok::<
            _,
            Error,
        >(m),
        server_limits(server_payload(m)->Ok_0.0) is Ok,
        server_limits(server_payload(m)->Ok_0.0)->Ok_0.0 <= server_payload(m)->Ok_0.1.len(),
{
    let e = Seq::<u8>::empty();
    let p = server_payload(m)->Ok_0.1;
    assert(p + e =~= p);
    match m {
        ServerMessageV::Metadata(md) => lemma_metadata(md),
        ServerMessageV::Frame(f) => crate::frame_round_trip::lemma_encoded_frame(f),
        ServerMessageV::Failure(f) => {
            let d = ser_bounded(utf8(f.detail));
            lemma_read_u8(failure_code_tag(f.code), d);
            lemma_bounded_text(f.detail, e, "failure detail", MAX_FAILURE_BYTES);
            assert(d + e =~= d);
        },
        ServerMessageV::Exited { code } => {
            lemma_read_i32(code, e);
        },
        ServerMessageV::SelectionFinished { frame_revision } => {
            lemma_read_u64(frame_revision, e);
        },
        ServerMessageV::CopiedText { location, text } => {
            lemma_read_u8(location_tag(location), utf8(text));
            lemma_utf8_round_trip(text, utf8(text));
        },
        ServerMessageV::ClipboardWrite { location, text } => {
            lemma_read_u8(location_tag(location), utf8(text));
            lemma_utf8_round_trip(text, utf8(text));
            lemma_utf8_empty(text);
        },
        ServerMessageV::VerticalPreview(vp) => {
            let head = le64(vp.frame_revision) + seq![direction_tag(vp.direction)];
            match vp.outcome {
                PreviewOutcomeV::TerminalRouted => {
                    assert(p =~= le64(vp.frame_revision) + (seq![direction_tag(vp.direction)] + seq![0u8]));
                    lemma_read_u64(vp.frame_revision, seq![direction_tag(vp.direction)] + seq![0u8]);
                    lemma_read_u8(direction_tag(vp.direction), seq![0u8]);
                    lemma_read_u8(0u8, e);
                },
                PreviewOutcomeV::Viewport { .. } => {
                    let w = preview_window(vp.outcome)->Ok_0;
                    lemma_preview_window(vp.outcome);
                    assert(p =~= le64(vp.frame_revision) + (seq![direction_tag(vp.direction)] + (seq![1u8] + w)));
                    lemma_read_u64(vp.frame_revision, seq![direction_tag(vp.direction)] + (seq![1u8] + w));
                    lemma_read_u8(direction_tag(vp.direction), seq![1u8] + w);
                    lemma_read_u8(1u8, w);
                },
            }
        },
        ServerMessageV::WheelOutcome(WheelOutcomeV::Viewport { frame, .. }) => {
            crate::frame_round_trip::lemma_encoded_frame(frame);
        },
        ServerMessageV::ScrollOutcome(ScrollOutcomeV::TerminalOwned { requested_rows }) => {
            lemma_read_i16(requested_rows, e);
        },
        ServerMessageV::ScrollOutcome(
            ScrollOutcomeV::Viewport { requested_rows, applied_rows, frame, next },
        ) => {
            lemma_scroll_viewport(requested_rows, applied_rows, frame, next);
        },
        _ => {},
    }
}

/// Every server message that encoding accepts decodes back to itself, and
/// its header announces its exact length. The exceptions are preview windows
/// that decoding refuses although encoding accepts them: one whose rows hold
/// more than [`MAX_CELLS`] cells in all, and an empty one whose column count
/// exceeds [`MAX_CELLS`].
pub proof fn law_server_message_round_trip(m: ServerMessageV)
    requires
        server_message_valid(m),
    ensures
        spec_encode_server_message(m) matches Ok(b) ==> spec_decode_server_message(b) == Ok::<
            ServerMessageV,
            Error,
        >(m) && spec_message_len(b, false) == Ok::<Option<usize>, Error>(Some(b.len() as usize)),
{
    if let Ok((kind, payload)) = server_payload(m) {
        if spec_frame_message(false, kind, payload) is Ok {
            lemma_server_payload(m);
            lemma_message(false, kind, payload);
        }
    }
}

#[verifier::spinoff_prover]
#[verifier::rlimit(60)]
proof fn lemma_scroll_viewport_inverse(payload: Seq<u8>)
    ensures
        parse_scroll_viewport(payload) matches Ok(m) ==> server_payload(m) == Ok::<_, Error>(
            (146u8, payload),
        ),
{
    if let Ok(m) = parse_scroll_viewport(payload) {
        lemma_read_inverse(payload);
        let r1 = payload.skip(2);
        lemma_read_inverse(r1);
        let r2 = r1.skip(2);
        lemma_read_inverse(r2);
        let r3 = r2.skip(4);
        let req = read_i16(payload)->Some_0.0;
        let app = read_i16(r1)->Some_0.0;
        let n = read_u32(r2)->Some_0.0;
        let fb = r3.take(n as int);
        let r4 = r3.skip(n as int);
        crate::frame_round_trip::law_decode_then_encode(fb);
        lemma_preview_window_inverse(r4);
        assert(r3 =~= fb + r4);
        assert(fb.len() == n);
        assert(payload == lei16(req) + r1);
        assert(r1 == lei16(app) + r2);
        assert(r2 == le32(n) + r3);
    }
}

#[verifier::spinoff_prover]
#[verifier::rlimit(80)]
proof fn lemma_vertical_preview_inverse(payload: Seq<u8>)
    ensures
        finished(parse_server_payload(142, payload)) matches Ok(m) ==> server_payload(m) == Ok::<
            _,
            Error,
        >((142u8, payload)),
{
    if let Ok(m) = finished(parse_server_payload(142, payload)) {
        let r8 = payload.skip(8);
        let rev = read_u64(payload)->Some_0.0;
        lemma_read_inverse(payload);
        lemma_split(le64(rev), r8);
        let r9 = r8.skip(1);
        let r10 = r9.skip(1);
        lemma_preview_window_inverse(r10);
        let vp = m->VerticalPreview_0;
        assert(payload[8] == direction_tag(vp.direction));
        if payload[9] == 0 {
            assert(r10.len() == 0);
            assert(payload =~= le64(rev) + seq![payload[8]] + seq![0u8]);
        } else {
            assert(payload =~= le64(rev) + seq![payload[8]] + (seq![1u8] + r10));
        }
    }
}

proof fn lemma_server_payload_inverse(kind: u8, payload: Seq<u8>)
    requires
        server_limits(kind) is Ok,
        payload.len() <= server_limits(kind)->Ok_0.1,
        kind != 132 && kind != 139 && kind != 140 && kind != 141 && kind != 146,
    ensures
        finished(parse_server_payload(kind, payload)) matches Ok(m) ==> server_payload(m) == Ok::<
            _,
            Error,
        >((kind, payload)),
{
    if let Ok(m) = finished(parse_server_payload(kind, payload)) {
        let e = Seq::<u8>::empty();
        assert(payload + e =~= payload);
        lemma_read_inverse(payload);
        let r1 = payload.skip(1);
        let r8 = payload.skip(8);
        if kind == 144 {
            lemma_read_inverse(r8);
            lemma_bounded_text_inverse(r8, "metadata title", MAX_METADATA_BYTES);
            let (_, r2) = parse_text(r8, "metadata title", MAX_METADATA_BYTES).unwrap();
            lemma_bounded_text_inverse(r2, "metadata working directory", MAX_METADATA_BYTES);
        } else if kind == 134 {
            lemma_bounded_text_inverse(r1, "failure detail", MAX_FAILURE_BYTES);
            assert(payload =~= seq![payload[0]] + r1);
        } else if kind == 136 || kind == 137 {
            lemma_utf8_round_trip(chars_of(r1), r1);
            assert(payload =~= seq![payload[0]] + r1);
        } else if kind == 142 {
            lemma_vertical_preview_inverse(payload);
        } else if kind == 129 || kind == 130 || kind == 133 || kind == 143 || kind == 138 {
            assert(payload =~= e);
        }
    }
}

/// Decoding accepts only canonical server messages.
pub proof fn law_server_message_canonical(b: Seq<u8>)
    ensures
        spec_decode_server_message(b) matches Ok(m) ==> spec_encode_server_message(m) == Ok::<
            Seq<u8>,
            Error,
        >(b),
{
    lemma_message_inverse(b, false);
    if let Ok(m) = spec_decode_server_message(b) {
        let (kind, payload) = spec_exact_message(b, false).unwrap();
        if kind == 132 || kind == 139 || kind == 140 || kind == 141 {
            crate::frame_round_trip::law_decode_then_encode(payload);
        } else if kind == 146 {
            lemma_scroll_viewport_inverse(payload);
        } else {
            lemma_server_payload_inverse(kind, payload);
        }
    }
}

} // verus!
