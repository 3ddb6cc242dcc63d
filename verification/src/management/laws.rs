//! Round-trip laws of the management codec: every message and record that
//! encoding accepts decodes back to itself, its header announces its exact
//! length, and decoding accepts only canonical bytes.

use super::spec::{
    bytes_error, client_payload, endpoint_error, failure_code_tag, live_error, message_magic,
    parse_endpoint, parse_failure, parse_field, parse_live, parse_numbers, parse_object,
    parse_reason, parse_text, parse_tombstone, reason_tag, record_magic, record_payload,
    ser_endpoint, ser_field, ser_framed, ser_live, ser_numbers, ser_object, ser_outcome, ser_text,
    ser_tombstone, server_payload, spec_decode_client_message, spec_decode_framed,
    spec_decode_record, spec_decode_server_message, spec_encode_client_message, spec_encode_framed,
    spec_encode_record, spec_encode_server_message, spec_framed_len, text_error, tombstone_error,
    LiveNumbers,
};
use super::{
    ClientMessageV, EndpointV, Error, FailureV, LiveV, MAX_DETAIL_BYTES, MAX_ID_BYTES,
    MAX_MESSAGE_BYTES, MAX_PATH_BYTES, MAX_RECORD_BYTES, ObjectIdentity, ProcessOutcome, RecordV,
    ServerMessageV, TombstoneV, VERSION,
};
use crate::wire::{
    le16, le32, le64, lei32, lemma_assoc, lemma_read_bytes, lemma_read_i32, lemma_read_inverse,
    lemma_read_u16, lemma_read_u32, lemma_read_u64, lemma_read_u8, lemma_split,
    lemma_utf8_round_trip, read_u16, read_u32, utf8,
};
use vstd::prelude::*;

verus! {

// ---------------------------------------------------------------- fields

proof fn lemma_field(b: Seq<u8>, r: Seq<u8>, field: &'static str, maximum: usize, empty: bool)
    requires
        bytes_error(field, b.len(), maximum, empty) is None,
        b.len() <= u16::MAX,
    ensures
        parse_field(ser_field(b) + r, field, maximum, empty) == Ok::<_, Error>((b, r)),
        ser_field(b).len() == 2 + b.len(),
{
    lemma_read_u16(b.len() as u16, b + r);
    lemma_assoc(le16(b.len() as u16), b, r);
    lemma_read_bytes(b, r);
}

proof fn lemma_field_inverse(s: Seq<u8>, field: &'static str, maximum: usize, empty: bool)
    ensures
        parse_field(s, field, maximum, empty) matches Ok((v, r)) ==> s == ser_field(v) + r
            && bytes_error(field, v.len(), maximum, empty) is None && v.len() <= u16::MAX,
{
    lemma_read_inverse(s);
    if let Ok((v, r)) = parse_field(s, field, maximum, empty) {
        let (n, r1) = read_u16(s).unwrap();
        assert(r1 =~= v + r);
        lemma_assoc(le16(n), v, r);
    }
}

proof fn lemma_text(t: Seq<char>, r: Seq<u8>, field: &'static str, maximum: usize, empty: bool)
    requires
        text_error(field, t, maximum, empty) is None,
        maximum <= u16::MAX,
    ensures
        parse_text(ser_text(t) + r, field, maximum, empty) == Ok::<_, Error>((t, r)),
{
    lemma_field(utf8(t), r, field, maximum, empty);
    lemma_utf8_round_trip(t, utf8(t));
}

proof fn lemma_text_inverse(s: Seq<u8>, field: &'static str, maximum: usize, empty: bool)
    ensures
        parse_text(s, field, maximum, empty) matches Ok((t, r)) ==> s == ser_text(t) + r
            && text_error(field, t, maximum, empty) is None,
{
    lemma_field_inverse(s, field, maximum, empty);
    if let Ok((t, r)) = parse_text(s, field, maximum, empty) {
        let (v, _) = parse_field(s, field, maximum, empty).unwrap();
        lemma_utf8_round_trip(t, v);
    }
}

proof fn lemma_object(o: ObjectIdentity, r: Seq<u8>)
    requires
        o.inode != 0,
    ensures
        parse_object(ser_object(o) + r) == Ok::<_, Error>((o, r)),
{
    lemma_assoc(le64(o.device), le64(o.inode), r);
    lemma_read_u64(o.device, le64(o.inode) + r);
    lemma_read_u64(o.inode, r);
}

proof fn lemma_object_inverse(s: Seq<u8>)
    ensures
        parse_object(s) matches Ok((o, r)) ==> s == ser_object(o) + r && o.inode != 0,
{
    lemma_read_inverse(s);
    if let Ok((o, r)) = parse_object(s) {
        let r1 = s.skip(8);
        lemma_read_inverse(r1);
        lemma_assoc(le64(o.device), le64(o.inode), r);
    }
}

proof fn lemma_endpoint(e: EndpointV, field: &'static str, r: Seq<u8>)
    requires
        endpoint_error(field, e) is None,
    ensures
        parse_endpoint(ser_endpoint(e) + r) == Ok::<_, Error>((e, r)),
{
    lemma_assoc(ser_field(e.path), ser_object(e.object), r);
    lemma_field(e.path, ser_object(e.object) + r, "endpoint path", MAX_PATH_BYTES, false);
    lemma_object(e.object, r);
}

proof fn lemma_endpoint_inverse(s: Seq<u8>)
    ensures
        parse_endpoint(s) matches Ok((e, r)) ==> s == ser_endpoint(e) + r && endpoint_error(
            "endpoint",
            e,
        ) is None,
{
    lemma_field_inverse(s, "endpoint path", MAX_PATH_BYTES, false);
    if let Ok((e, r)) = parse_endpoint(s) {
        let (_, r1) = parse_field(s, "endpoint path", MAX_PATH_BYTES, false).unwrap();
        lemma_object_inverse(r1);
        lemma_assoc(ser_field(e.path), ser_object(e.object), r);
    }
}

proof fn lemma_numbers(n: LiveNumbers, r: Seq<u8>)
    ensures
        parse_numbers(ser_numbers(n) + r) == Ok::<_, Error>((n, r)),
{
    let a = le16(n.record_generation);
    let b = le16(n.management_generation);
    let c = le32(n.process_id);
    let d = le64(n.process_start);
    let e = le32(n.uid);
    lemma_assoc(d, e, r);
    lemma_assoc(c, d + e, r);
    lemma_assoc(b, c + (d + e), r);
    lemma_assoc(a, b + (c + (d + e)), r);
    lemma_read_u16(n.record_generation, b + (c + (d + e)) + r);
    lemma_read_u16(n.management_generation, c + (d + e) + r);
    lemma_read_u32(n.process_id, (d + e) + r);
    lemma_read_u64(n.process_start, e + r);
    lemma_read_u32(n.uid, r);
}

proof fn lemma_numbers_inverse(s: Seq<u8>)
    ensures
        parse_numbers(s) matches Ok((n, r)) ==> s == ser_numbers(n) + r,
{
    if let Ok((n, r)) = parse_numbers(s) {
        lemma_read_inverse(s);
        let r1 = s.skip(2);
        lemma_read_inverse(r1);
        let r2 = r1.skip(2);
        lemma_read_inverse(r2);
        let r3 = r2.skip(4);
        lemma_read_inverse(r3);
        let r4 = r3.skip(8);
        lemma_read_inverse(r4);
        let a = le16(n.record_generation);
        let b = le16(n.management_generation);
        let c = le32(n.process_id);
        let d = le64(n.process_start);
        let e = le32(n.uid);
        lemma_assoc(d, e, r);
        lemma_assoc(c, d + e, r);
        lemma_assoc(b, c + (d + e), r);
        lemma_assoc(a, b + (c + (d + e)), r);
    }
}

pub open spec fn numbers_of(l: LiveV) -> LiveNumbers {
    LiveNumbers {
        record_generation: l.record_generation,
        management_generation: l.management_generation,
        process_id: l.process_id,
        process_start: l.process_start,
        uid: l.uid,
    }
}

proof fn lemma_live_layout(l: LiveV, r: Seq<u8>)
    ensures
        ser_live(l) + r == ser_text(l.session_id) + (ser_text(l.run_id) + (ser_text(
            l.component_generation,
        ) + (ser_numbers(numbers_of(l)) + (ser_endpoint(l.presentation) + (ser_endpoint(
            l.management,
        ) + r))))),
{
    let n = numbers_of(l);
    assert(ser_live(l) + r =~= ser_text(l.session_id) + (ser_text(l.run_id) + (ser_text(
        l.component_generation,
    ) + (ser_numbers(n) + (ser_endpoint(l.presentation) + (ser_endpoint(l.management) + r))))));
}

proof fn lemma_live(l: LiveV, r: Seq<u8>)
    requires
        live_error(l) is None,
    ensures
        parse_live(ser_live(l) + r) == Ok::<_, Error>((l, r)),
{
    reveal(parse_live);
    lemma_live_layout(l, r);
    let n = numbers_of(l);
    let p = ser_endpoint(l.presentation);
    let m = ser_endpoint(l.management);
    let nb = ser_numbers(n);
    lemma_text(
        l.session_id,
        ser_text(l.run_id) + (ser_text(l.component_generation) + (nb + (p + (m + r)))),
        "session ID",
        MAX_ID_BYTES,
        false,
    );
    lemma_text(
        l.run_id,
        ser_text(l.component_generation) + (nb + (p + (m + r))),
        "run ID",
        MAX_ID_BYTES,
        false,
    );
    lemma_text(l.component_generation, nb + (p + (m + r)), "component generation", MAX_ID_BYTES, false);
    lemma_numbers(n, p + (m + r));
    lemma_endpoint(l.presentation, "presentation endpoint", m + r);
    lemma_endpoint(l.management, "management endpoint", r);
}

proof fn lemma_live_inverse(s: Seq<u8>)
    ensures
        parse_live(s) matches Ok((l, r)) ==> s == ser_live(l) + r && live_error(l) is None,
{
    reveal(parse_live);
    lemma_text_inverse(s, "session ID", MAX_ID_BYTES, false);
    if let Ok((l, r)) = parse_live(s) {
        let (_, r1) = parse_text(s, "session ID", MAX_ID_BYTES, false).unwrap();
        lemma_text_inverse(r1, "run ID", MAX_ID_BYTES, false);
        let (_, r2) = parse_text(r1, "run ID", MAX_ID_BYTES, false).unwrap();
        lemma_text_inverse(r2, "component generation", MAX_ID_BYTES, false);
        let (_, r3) = parse_text(r2, "component generation", MAX_ID_BYTES, false).unwrap();
        lemma_numbers_inverse(r3);
        let (n, r4) = parse_numbers(r3).unwrap();
        assert(n == numbers_of(l));
        lemma_endpoint_inverse(r4);
        let (_, r5) = parse_endpoint(r4).unwrap();
        lemma_endpoint_inverse(r5);
        lemma_live_layout(l, r);
    }
}

proof fn lemma_tombstone(t: TombstoneV, r: Seq<u8>)
    requires
        tombstone_error(t) is None,
    ensures
        parse_tombstone(ser_tombstone(t) + r) == Ok::<_, Error>((t, r)),
{
    let rt = seq![reason_tag(t.reason)];
    let o = ser_outcome(t.outcome);
    lemma_assoc(ser_live(t.identity), rt + o, r);
    lemma_assoc(rt, o, r);
    lemma_live(t.identity, rt + (o + r));
    lemma_read_u8(reason_tag(t.reason), o + r);
    match t.outcome {
        ProcessOutcome::ExitCode(c) => {
            lemma_assoc(seq![1u8], lei32(c), r);
            lemma_read_u8(1u8, lei32(c) + r);
            lemma_read_i32(c, r);
        },
        ProcessOutcome::Signal(c) => {
            lemma_assoc(seq![2u8], lei32(c), r);
            lemma_read_u8(2u8, lei32(c) + r);
            lemma_read_i32(c, r);
        },
    }
}

proof fn lemma_tombstone_inverse(s: Seq<u8>)
    ensures
        parse_tombstone(s) matches Ok((t, r)) ==> s == ser_tombstone(t) + r && tombstone_error(t)
            is None,
{
    lemma_live_inverse(s);
    if let Ok((t, r)) = parse_tombstone(s) {
        let (_, r1) = parse_live(s).unwrap();
        lemma_read_inverse(r1);
        let (_, r2) = parse_reason(r1).unwrap();
        lemma_read_inverse(r2);
        let r3 = r2.skip(1);
        lemma_read_inverse(r3);
        let rt = seq![reason_tag(t.reason)];
        let o = ser_outcome(t.outcome);
        match t.outcome {
            ProcessOutcome::ExitCode(c) => {
                lemma_assoc(seq![1u8], lei32(c), r);
            },
            ProcessOutcome::Signal(c) => {
                lemma_assoc(seq![2u8], lei32(c), r);
            },
        }
        lemma_assoc(rt, o, r);
        lemma_assoc(ser_live(t.identity), rt + o, r);
    }
}

proof fn lemma_failure(f: FailureV, r: Seq<u8>)
    requires
        text_error("failure detail", f.detail, MAX_DETAIL_BYTES, true) is None,
    ensures
        parse_failure(seq![failure_code_tag(f.code)] + ser_text(f.detail) + r) == Ok::<_, Error>(
            (f, r),
        ),
{
    let c = seq![failure_code_tag(f.code)];
    lemma_assoc(c, ser_text(f.detail), r);
    lemma_read_u8(failure_code_tag(f.code), ser_text(f.detail) + r);
    lemma_text(f.detail, r, "failure detail", MAX_DETAIL_BYTES, true);
}

proof fn lemma_failure_inverse(s: Seq<u8>)
    ensures
        parse_failure(s) matches Ok((f, r)) ==> s == seq![failure_code_tag(f.code)] + ser_text(
            f.detail,
        ) + r && text_error("failure detail", f.detail, MAX_DETAIL_BYTES, true) is None,
{
    lemma_read_inverse(s);
    if let Ok((f, r)) = parse_failure(s) {
        let r1 = s.skip(1);
        lemma_text_inverse(r1, "failure detail", MAX_DETAIL_BYTES, true);
        lemma_assoc(seq![failure_code_tag(f.code)], ser_text(f.detail), r);
    }
}

// ---------------------------------------------------------------- framing

proof fn lemma_framed(magic: Seq<u8>, tag: u8, maximum: usize, payload: Seq<u8>)
    requires
        magic.len() == 4,
        spec_encode_framed(magic, tag, maximum, payload) is Ok,
    ensures
        spec_framed_len(ser_framed(magic, tag, payload), magic, maximum) == Ok::<Option<usize>, Error>(
            Some(ser_framed(magic, tag, payload).len() as usize),
        ),
        spec_decode_framed(ser_framed(magic, tag, payload), magic, maximum) == Ok::<_, Error>(
            (tag, payload),
        ),
{
    let b = ser_framed(magic, tag, payload);
    let v = le16(VERSION);
    let tf = seq![tag, 0u8];
    let n = le32(payload.len() as u32);
    lemma_read_u16(VERSION, tf + (n + payload));
    lemma_read_u32(payload.len() as u32, payload);
    lemma_split(magic, v + (tf + (n + payload)));
    assert(b.skip(4) == v + (tf + (n + payload)));
    assert(b.skip(4).skip(2) =~= tf + (n + payload));
    assert(b.skip(8) =~= n + payload);
    assert(b[6] == tag && b[7] == 0);
    assert(b.skip(12) =~= payload);
}

proof fn lemma_framed_inverse(b: Seq<u8>, magic: Seq<u8>, maximum: usize)
    requires
        magic.len() == 4,
    ensures
        spec_decode_framed(b, magic, maximum) matches Ok((tag, payload)) ==> b == ser_framed(
            magic,
            tag,
            payload,
        ) && spec_encode_framed(magic, tag, maximum, payload) == Ok::<Seq<u8>, Error>(b),
{
    if let Ok((tag, payload)) = spec_decode_framed(b, magic, maximum) {
        lemma_read_inverse(b.skip(4));
        lemma_read_inverse(b.skip(8));
        let n = read_u32(b.skip(8))->Some_0.0;
        assert(b.skip(8) =~= le32(n) + b.skip(12));
        assert(b =~= b.take(4) + (b.skip(4).take(2) + (seq![b[6], b[7]] + b.skip(8))));
        lemma_read_inverse(b.skip(4));
        assert(b.skip(4).take(2) == le16(VERSION));
        assert(payload.len() == n);
    }
}

// ---------------------------------------------------------------- laws

/// Every client message that encoding accepts decodes back to itself, and its
/// header announces its exact length. The one exception is an acquire request
/// naming a record with inode zero: encoding passes the record through
/// unchecked, while decoding refuses it.
pub proof fn law_client_message_round_trip(m: ClientMessageV)
    requires
        m matches ClientMessageV::Acquire { record, .. } ==> record.inode != 0,
    ensures
        spec_encode_client_message(m) matches Ok(b) ==> spec_decode_client_message(b) == Ok::<
            ClientMessageV,
            Error,
        >(m) && spec_framed_len(b, message_magic(), MAX_MESSAGE_BYTES) == Ok::<Option<usize>, Error>(
            Some(b.len() as usize),
        ),
{
    if let Ok((tag, payload)) = client_payload(m) {
        if spec_encode_framed(message_magic(), tag, MAX_MESSAGE_BYTES, payload) is Ok {
            lemma_framed(message_magic(), tag, MAX_MESSAGE_BYTES, payload);
            if let ClientMessageV::Acquire { expected, record } = m {
                lemma_assoc(ser_live(expected), ser_object(record), Seq::empty());
                lemma_live(expected, ser_object(record));
                lemma_object(record, Seq::empty());
                assert(payload + Seq::<u8>::empty() =~= payload);
                assert(ser_object(record) + Seq::<u8>::empty() =~= ser_object(record));
            }
        }
    }
}

/// Decoding accepts only canonical client messages.
pub proof fn law_client_message_canonical(b: Seq<u8>)
    ensures
        spec_decode_client_message(b) matches Ok(m) ==> spec_encode_client_message(m) == Ok::<
            Seq<u8>,
            Error,
        >(b),
{
    lemma_framed_inverse(b, message_magic(), MAX_MESSAGE_BYTES);
    if let Ok(m) = spec_decode_client_message(b) {
        let (tag, payload) = spec_decode_framed(b, message_magic(), MAX_MESSAGE_BYTES).unwrap();
        if tag == 1 {
            lemma_live_inverse(payload);
            let (_, r1) = parse_live(payload).unwrap();
            lemma_object_inverse(r1);
            let (expected, record) = (m->Acquire_expected, m->Acquire_record);
            assert(r1 =~= ser_object(record));
            assert(payload =~= ser_live(expected) + ser_object(record));
        } else {
            assert(payload.len() == 0);
            assert(payload =~= Seq::<u8>::empty());
        }
    }
}

/// Every server message that encoding accepts decodes back to itself, and its
/// header announces its exact length.
pub proof fn law_server_message_round_trip(m: ServerMessageV)
    ensures
        spec_encode_server_message(m) matches Ok(b) ==> spec_decode_server_message(b) == Ok::<
            ServerMessageV,
            Error,
        >(m) && spec_framed_len(b, message_magic(), MAX_MESSAGE_BYTES) == Ok::<Option<usize>, Error>(
            Some(b.len() as usize),
        ),
{
    if let Ok((tag, payload)) = server_payload(m) {
        if spec_encode_framed(message_magic(), tag, MAX_MESSAGE_BYTES, payload) is Ok {
            lemma_framed(message_magic(), tag, MAX_MESSAGE_BYTES, payload);
            let e = Seq::<u8>::empty();
            assert(payload + e =~= payload);
            match m {
                ServerMessageV::Lease(l) => lemma_live(l, e),
                ServerMessageV::Status(l) => lemma_live(l, e),
                ServerMessageV::Busy => {},
                ServerMessageV::Stopped(t) => lemma_tombstone(t, e),
                ServerMessageV::Failure(f) => lemma_failure(f, e),
            }
        }
    }
}

/// Decoding accepts only canonical server messages.
pub proof fn law_server_message_canonical(b: Seq<u8>)
    ensures
        spec_decode_server_message(b) matches Ok(m) ==> spec_encode_server_message(m) == Ok::<
            Seq<u8>,
            Error,
        >(b),
{
    lemma_framed_inverse(b, message_magic(), MAX_MESSAGE_BYTES);
    if let Ok(m) = spec_decode_server_message(b) {
        let (tag, payload) = spec_decode_framed(b, message_magic(), MAX_MESSAGE_BYTES).unwrap();
        lemma_live_inverse(payload);
        lemma_tombstone_inverse(payload);
        lemma_failure_inverse(payload);
        assert(payload + Seq::<u8>::empty() =~= payload);
        if tag == 66 {
            assert(payload =~= Seq::<u8>::empty());
        }
    }
}

/// Every record that encoding accepts fits [`MAX_RECORD_BYTES`] and decodes
/// back to itself.
pub proof fn law_record_round_trip(rec: RecordV)
    ensures
        spec_encode_record(rec) matches Ok(b) ==> b.len() <= MAX_RECORD_BYTES
            && spec_decode_record(b) == Ok::<RecordV, Error>(rec),
{
    if let Ok((tag, payload)) = record_payload(rec) {
        if spec_encode_framed(record_magic(), tag, MAX_RECORD_BYTES, payload) is Ok {
            lemma_framed(record_magic(), tag, MAX_RECORD_BYTES, payload);
            let e = Seq::<u8>::empty();
            assert(payload + e =~= payload);
            lemma_split(record_magic(), le16(VERSION) + (seq![tag, 0u8] + (le32(payload.len() as u32) + payload)));
            match rec {
                RecordV::Live(l) => lemma_live(l, e),
                RecordV::Tombstone(t) => lemma_tombstone(t, e),
            }
        }
    }
}

/// Decoding accepts only canonical records.
pub proof fn law_record_canonical(b: Seq<u8>)
    ensures
        spec_decode_record(b) matches Ok(rec) ==> spec_encode_record(rec) == Ok::<Seq<u8>, Error>(b),
{
    lemma_framed_inverse(b, record_magic(), MAX_RECORD_BYTES);
    if let Ok(rec) = spec_decode_record(b) {
        let (tag, payload) = spec_decode_framed(b, record_magic(), MAX_RECORD_BYTES).unwrap();
        lemma_live_inverse(payload);
        lemma_tombstone_inverse(payload);
        assert(payload + Seq::<u8>::empty() =~= payload);
    }
}

} // verus!
