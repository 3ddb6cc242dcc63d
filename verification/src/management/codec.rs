//! The management encoder and decoder, verified against `spec`.

use super::spec::{
    bytes_error, client_payload, endpoint_error, failure_code_tag, live_error, message_magic,
    parse_endpoint, parse_failure, parse_field, parse_live, parse_numbers, parse_object, parse_text,
    parse_tombstone, record_magic, record_payload, ser_endpoint, ser_field, ser_framed, ser_live,
    ser_object, ser_text, ser_tombstone, server_payload, spec_decode_client_message,
    spec_decode_framed, spec_decode_record, spec_decode_server_message, spec_encode_client_message,
    spec_encode_framed, spec_encode_record, spec_encode_server_message, spec_framed_len, text_error,
    tombstone_error, LiveNumbers,
};
use super::{
    ClientMessage, ClientMessageV, EndpointIdentity, EndpointV, Error, Failure, FailureCode,
    FailureV, HEADER_BYTES, LiveIdentity, LiveV, MAX_DETAIL_BYTES, MAX_ID_BYTES,
    MAX_MESSAGE_BYTES, MAX_PATH_BYTES, MAX_RECORD_BYTES, MESSAGE_MAGIC, ObjectIdentity,
    ProcessOutcome, RECORD_GENERATION, RECORD_MAGIC, Record, RecordV, Result, ServerMessage,
    ServerMessageV, TerminationReason, Tombstone, TombstoneV, VERSION,
};
use crate::wire::{
    Cursor, put_i32, put_slice, put_u16, put_u32, put_u64, put_u8, read_i32, read_u16, read_u32,
    read_u64, read_u8, string_bytes, string_from_utf8, utf8,
};
use vstd::prelude::*;
use vstd::slice::{slice_subrange, slice_to_vec};

verus! {

// ---------------------------------------------------------------- validation

/// Whether two byte strings are equal.
pub(crate) fn bytes_equal(a: &[u8], b: &[u8]) -> (r: bool)
    ensures
        r == (a@ == b@),
{
    if a.len() != b.len() {
        return false;
    }
    let mut i: usize = 0;
    while i < a.len()
        invariant
            a@.len() == b@.len(),
            i <= a@.len(),
            forall|j: int| 0 <= j < i ==> a@[j] == b@[j],
        decreases a@.len() - i,
    {
        if a[i] != b[i] {
            return false;
        }
        i += 1;
    }
    assert(a@ =~= b@);
    true
}

fn validate_bytes(field: &'static str, len: usize, maximum: usize, empty: bool) -> (r: Result<()>)
    ensures
        match bytes_error(field, len as nat, maximum, empty) {
            Some(e) => r == Err::<(), Error>(e),
            None => r is Ok,
        },
{
    if !empty && len == 0 {
        return Err(Error::InvalidValue { field });
    }
    if len > maximum {
        return Err(Error::ValueTooLarge { field, size: len, maximum });
    }
    Ok(())
}

fn validate_text(field: &'static str, value: &String, maximum: usize, empty: bool) -> (r: Result<()>)
    ensures
        match text_error(field, value@, maximum, empty) {
            Some(e) => r == Err::<(), Error>(e),
            None => r is Ok,
        },
{
    validate_bytes(field, string_bytes(value).len(), maximum, empty)
}

fn validate_endpoint(field: &'static str, endpoint: &EndpointIdentity) -> (r: Result<()>)
    ensures
        match endpoint_error(field, endpoint@) {
            Some(e) => r == Err::<(), Error>(e),
            None => r is Ok,
        },
{
    validate_bytes("endpoint path", endpoint.path.len(), MAX_PATH_BYTES, false)?;
    if endpoint.object.inode == 0 {
        return Err(Error::InvalidValue { field });
    }
    Ok(())
}

/// Check a live identity: bounded non-empty identifiers, the supported
/// generations, a real process, and two distinct valid endpoints.
pub fn validate_live(identity: &LiveIdentity) -> (r: Result<()>)
    ensures
        match live_error(identity@) {
            Some(e) => r == Err::<(), Error>(e),
            None => r is Ok,
        },
{
    validate_text("session ID", &identity.session_id, MAX_ID_BYTES, false)?;
    validate_text("run ID", &identity.run_id, MAX_ID_BYTES, false)?;
    validate_text("component generation", &identity.component_generation, MAX_ID_BYTES, false)?;
    if identity.record_generation != RECORD_GENERATION {
        return Err(Error::UnsupportedVersion { version: identity.record_generation });
    }
    if identity.management_generation != VERSION {
        return Err(Error::UnsupportedVersion { version: identity.management_generation });
    }
    if identity.process_id == 0 {
        return Err(Error::InvalidValue { field: "process ID" });
    }
    if identity.process_start == 0 {
        return Err(Error::InvalidValue { field: "process start identity" });
    }
    validate_endpoint("presentation endpoint", &identity.presentation)?;
    validate_endpoint("management endpoint", &identity.management)?;
    if bytes_equal(identity.presentation.path.as_slice(), identity.management.path.as_slice())
        || identity.presentation.object == identity.management.object {
        return Err(Error::InvalidValue { field: "distinct endpoints" });
    }
    Ok(())
}

// ---------------------------------------------------------------- encoding

fn put_field(out: &mut Vec<u8>, value: &[u8])
    requires
        value@.len() <= u16::MAX,
    ensures
        final(out)@ == old(out)@ + ser_field(value@),
{
    put_u16(out, value.len() as u16);
    put_slice(out, value);
    assert(out@ =~= old(out)@ + ser_field(value@));
}

fn put_text(out: &mut Vec<u8>, value: &String)
    requires
        utf8(value@).len() <= u16::MAX,
    ensures
        final(out)@ == old(out)@ + ser_text(value@),
{
    put_field(out, string_bytes(value));
}

fn put_object(out: &mut Vec<u8>, object: ObjectIdentity)
    ensures
        final(out)@ == old(out)@ + ser_object(object),
{
    put_u64(out, object.device);
    put_u64(out, object.inode);
    assert(out@ =~= old(out)@ + ser_object(object));
}

fn put_endpoint(out: &mut Vec<u8>, endpoint: &EndpointIdentity)
    requires
        endpoint.path@.len() <= MAX_PATH_BYTES,
    ensures
        final(out)@ == old(out)@ + ser_endpoint(endpoint@),
{
    put_field(out, endpoint.path.as_slice());
    put_object(out, endpoint.object);
    assert(out@ =~= old(out)@ + ser_endpoint(endpoint@));
}

fn encode_live(out: &mut Vec<u8>, identity: &LiveIdentity) -> (r: Result<()>)
    ensures
        match live_error(identity@) {
            Some(e) => r == Err::<(), Error>(e),
            None => r is Ok && final(out)@ == old(out)@ + ser_live(identity@),
        },
{
    validate_live(identity)?;
    let ghost start = out@;
    put_text(out, &identity.session_id);
    put_text(out, &identity.run_id);
    put_text(out, &identity.component_generation);
    put_u16(out, identity.record_generation);
    put_u16(out, identity.management_generation);
    put_u32(out, identity.process_id);
    put_u64(out, identity.process_start);
    put_u32(out, identity.uid);
    put_endpoint(out, &identity.presentation);
    put_endpoint(out, &identity.management);
    assert(out@ =~= start + ser_live(identity@));
    Ok(())
}

fn encode_tombstone(out: &mut Vec<u8>, tombstone: &Tombstone) -> (r: Result<()>)
    ensures
        match tombstone_error(tombstone@) {
            Some(e) => r == Err::<(), Error>(e),
            None => r is Ok && final(out)@ == old(out)@ + ser_tombstone(tombstone@),
        },
{
    let ghost start = out@;
    encode_live(out, &tombstone.identity)?;
    put_u8(
        out,
        match tombstone.reason {
            TerminationReason::NaturalExit => 1,
            TerminationReason::ExplicitStop => 2,
        },
    );
    match tombstone.outcome {
        ProcessOutcome::ExitCode(code) => {
            if !(0 <= code && code <= 255) {
                return Err(Error::InvalidValue { field: "exit code" });
            }
            put_u8(out, 1);
            put_i32(out, code);
        },
        ProcessOutcome::Signal(signal) => {
            if signal <= 0 {
                return Err(Error::InvalidValue { field: "termination signal" });
            }
            put_u8(out, 2);
            put_i32(out, signal);
        },
    }
    assert(out@ =~= start + ser_tombstone(tombstone@));
    Ok(())
}

/// Frame a payload with the header, refusing one beyond `maximum`.
fn encode(magic: &[u8; 4], tag: u8, maximum: usize, payload: Vec<u8>) -> (r: Result<Vec<u8>>)
    ensures
        match spec_encode_framed(magic@, tag, maximum, payload@) {
            Ok(b) => r matches Ok(v) && v@ == b,
            Err(e) => r == Err::<Vec<u8>, Error>(e),
        },
{
    if payload.len() > usize::MAX - HEADER_BYTES {
        return Err(Error::PayloadTooLarge { size: usize::MAX, maximum });
    }
    let total = HEADER_BYTES + payload.len();
    if total > maximum {
        return Err(Error::PayloadTooLarge { size: total, maximum });
    }
    if payload.len() > u32::MAX as usize {
        return Err(Error::PayloadTooLarge { size: total, maximum });
    }
    let mut framed: Vec<u8> = Vec::with_capacity(total);
    put_slice(&mut framed, magic.as_slice());
    put_u16(&mut framed, VERSION);
    put_u8(&mut framed, tag);
    put_u8(&mut framed, 0);
    put_u32(&mut framed, payload.len() as u32);
    put_slice(&mut framed, payload.as_slice());
    assert(framed@ =~= ser_framed(magic@, tag, payload@));
    Ok(framed)
}

/// The framed length of a client message, once its header is complete.
pub fn client_message_len(bytes: &[u8]) -> (r: Result<Option<usize>>)
    ensures
        r == spec_framed_len(bytes@, message_magic(), MAX_MESSAGE_BYTES),
{
    framed_len(bytes, MESSAGE_MAGIC, MAX_MESSAGE_BYTES)
}

/// The framed length of a server message, once its header is complete.
pub fn server_message_len(bytes: &[u8]) -> (r: Result<Option<usize>>)
    ensures
        r == spec_framed_len(bytes@, message_magic(), MAX_MESSAGE_BYTES),
{
    framed_len(bytes, MESSAGE_MAGIC, MAX_MESSAGE_BYTES)
}

pub fn encode_client_message(message: &ClientMessage) -> (r: Result<Vec<u8>>)
    ensures
        match r {
            Ok(b) => spec_encode_client_message(message@) == Ok::<Seq<u8>, Error>(b@),
            Err(e) => spec_encode_client_message(message@) == Err::<Seq<u8>, Error>(e),
        },
{
    assert(MESSAGE_MAGIC@ =~= message_magic());
    let mut out: Vec<u8> = Vec::new();
    let tag: u8 = match message {
        ClientMessage::Acquire { expected, record } => {
            encode_live(&mut out, expected)?;
            put_object(&mut out, *record);
            1
        },
        ClientMessage::Status => 2,
        ClientMessage::Stop => 3,
    };
    assert(client_payload(message@) == Ok::<(u8, Seq<u8>), Error>((tag, out@)));
    encode(MESSAGE_MAGIC, tag, MAX_MESSAGE_BYTES, out)
}

pub fn encode_server_message(message: &ServerMessage) -> (r: Result<Vec<u8>>)
    ensures
        match r {
            Ok(b) => spec_encode_server_message(message@) == Ok::<Seq<u8>, Error>(b@),
            Err(e) => spec_encode_server_message(message@) == Err::<Seq<u8>, Error>(e),
        },
{
    assert(MESSAGE_MAGIC@ =~= message_magic());
    let mut out: Vec<u8> = Vec::new();
    let tag: u8 = match message {
        ServerMessage::Lease(identity) => {
            encode_live(&mut out, identity)?;
            64
        },
        ServerMessage::Status(identity) => {
            encode_live(&mut out, identity)?;
            65
        },
        ServerMessage::Busy => 66,
        ServerMessage::Stopped(tombstone) => {
            encode_tombstone(&mut out, tombstone)?;
            67
        },
        ServerMessage::Failure(failure) => {
            put_u8(
                &mut out,
                match failure.code {
                    FailureCode::InvalidIdentity => 1,
                    FailureCode::InvalidRequest => 2,
                },
            );
            validate_text("failure detail", &failure.detail, MAX_DETAIL_BYTES, true)?;
            put_text(&mut out, &failure.detail);
            assert(out@ =~= seq![failure_code_tag(failure.code)] + ser_text(failure.detail@));
            68
        },
    };
    assert(server_payload(message@) == Ok::<(u8, Seq<u8>), Error>((tag, out@)));
    encode(MESSAGE_MAGIC, tag, MAX_MESSAGE_BYTES, out)
}

pub fn encode_record(record: &Record) -> (r: Result<Vec<u8>>)
    ensures
        match r {
            Ok(b) => spec_encode_record(record@) == Ok::<Seq<u8>, Error>(b@),
            Err(e) => spec_encode_record(record@) == Err::<Seq<u8>, Error>(e),
        },
{
    assert(RECORD_MAGIC@ =~= record_magic());
    let mut out: Vec<u8> = Vec::new();
    let tag: u8 = match record {
        Record::Live(identity) => {
            encode_live(&mut out, identity)?;
            1
        },
        Record::Tombstone(tombstone) => {
            encode_tombstone(&mut out, tombstone)?;
            2
        },
    };
    assert(record_payload(record@) == Ok::<(u8, Seq<u8>), Error>((tag, out@)));
    encode(RECORD_MAGIC, tag, MAX_RECORD_BYTES, out)
}

// ---------------------------------------------------------------- decoding

/// A reader over one management payload.
pub struct Decoder<'a> {
    pub input: Cursor<'a>,
}

impl<'a> Decoder<'a> {
    pub open spec fn rest(&self) -> Seq<u8> {
        self.input.rest()
    }

    pub open spec fn wf(&self) -> bool {
        self.input.wf()
    }

    fn u8(&mut self) -> (r: Result<u8>)
        requires
            old(self).wf(),
        ensures
            final(self).wf(),
            match r {
                Ok(v) => read_u8(old(self).rest()) == Some((v, final(self).rest())),
                Err(e) => read_u8(old(self).rest()) is None && e == Error::Truncated,
            },
    {
        match self.input.u8() {
            Some(v) => Ok(v),
            None => Err(Error::Truncated),
        }
    }

    fn u16(&mut self) -> (r: Result<u16>)
        requires
            old(self).wf(),
        ensures
            final(self).wf(),
            match r {
                Ok(v) => read_u16(old(self).rest()) == Some((v, final(self).rest())),
                Err(e) => read_u16(old(self).rest()) is None && e == Error::Truncated,
            },
    {
        match self.input.u16() {
            Some(v) => Ok(v),
            None => Err(Error::Truncated),
        }
    }

    fn u32(&mut self) -> (r: Result<u32>)
        requires
            old(self).wf(),
        ensures
            final(self).wf(),
            match r {
                Ok(v) => read_u32(old(self).rest()) == Some((v, final(self).rest())),
                Err(e) => read_u32(old(self).rest()) is None && e == Error::Truncated,
            },
    {
        match self.input.u32() {
            Some(v) => Ok(v),
            None => Err(Error::Truncated),
        }
    }

    fn u64(&mut self) -> (r: Result<u64>)
        requires
            old(self).wf(),
        ensures
            final(self).wf(),
            match r {
                Ok(v) => read_u64(old(self).rest()) == Some((v, final(self).rest())),
                Err(e) => read_u64(old(self).rest()) is None && e == Error::Truncated,
            },
    {
        match self.input.u64() {
            Some(v) => Ok(v),
            None => Err(Error::Truncated),
        }
    }

    fn i32(&mut self) -> (r: Result<i32>)
        requires
            old(self).wf(),
        ensures
            final(self).wf(),
            match r {
                Ok(v) => read_i32(old(self).rest()) == Some((v, final(self).rest())),
                Err(e) => read_i32(old(self).rest()) is None && e == Error::Truncated,
            },
    {
        match self.input.i32() {
            Some(v) => Ok(v),
            None => Err(Error::Truncated),
        }
    }

    fn bytes(&mut self, field: &'static str, maximum: usize, empty: bool) -> (r: Result<Vec<u8>>)
        requires
            old(self).wf(),
        ensures
            final(self).wf(),
            match r {
                Ok(v) => parse_field(old(self).rest(), field, maximum, empty) == Ok::<_, Error>((v@, final(self).rest())),
                Err(e) => parse_field(old(self).rest(), field, maximum, empty) == Err::<(Seq<u8>, Seq<u8>), _>(e),
            },
    {
        let length = self.u16()? as usize;
        if length > maximum {
            return Err(Error::ValueTooLarge { field, size: length, maximum });
        }
        let value = match self.input.take(length) {
            Some(v) => v,
            None => return Err(Error::Truncated),
        };
        validate_bytes(field, value.len(), maximum, empty)?;
        Ok(slice_to_vec(value))
    }

    fn text(&mut self, field: &'static str, maximum: usize, empty: bool) -> (r: Result<String>)
        requires
            old(self).wf(),
        ensures
            final(self).wf(),
            match r {
                Ok(v) => parse_text(old(self).rest(), field, maximum, empty) == Ok::<_, Error>((v@, final(self).rest())),
                Err(e) => parse_text(old(self).rest(), field, maximum, empty) == Err::<(Seq<char>, Seq<u8>), _>(e),
            },
    {
        let bytes = self.bytes(field, maximum, empty)?;
        match string_from_utf8(bytes.as_slice()) {
            Some(text) => Ok(text),
            None => Err(Error::InvalidUtf8 { field }),
        }
    }

    fn finish(&self) -> (r: Result<()>)
        requires
            self.wf(),
        ensures
            match r {
                Ok(()) => self.rest().len() == 0,
                Err(e) => self.rest().len() > 0 && e == Error::TrailingBytes { count: self.rest().len() as usize },
            },
    {
        let remaining = self.input.remaining();
        if remaining == 0 {
            Ok(())
        } else {
            Err(Error::TrailingBytes { count: remaining })
        }
    }
}

fn framed_len(bytes: &[u8], magic: &[u8; 4], maximum: usize) -> (r: Result<Option<usize>>)
    ensures
        r == spec_framed_len(bytes@, magic@, maximum),
{
    if bytes.len() < HEADER_BYTES {
        return Ok(None);
    }
    let ghost b = bytes@;
    assert(b.take(4) =~= seq![b[0], b[1], b[2], b[3]]);
    if !(bytes[0] == magic[0] && bytes[1] == magic[1] && bytes[2] == magic[2] && bytes[3] == magic[3]) {
        assert(b.take(4) != magic@) by {
            if b.take(4) == magic@ {
                assert(b.take(4)[0] == magic@[0] && b.take(4)[1] == magic@[1]);
                assert(b.take(4)[2] == magic@[2] && b.take(4)[3] == magic@[3]);
            }
        }
        return Err(Error::InvalidMagic);
    }
    assert(b.take(4) =~= magic@);
    let mut header = Cursor::new(slice_subrange(bytes, 4, HEADER_BYTES));
    assert(header.rest() =~= b.skip(4).take(8));
    let version = match header.u16() {
        Some(v) => v,
        None => return Err(Error::Truncated),
    };
    let tag = header.u8();
    let flags = header.u8();
    let payload = match header.u32() {
        Some(v) => v,
        None => return Err(Error::Truncated),
    };
    proof {
        assert(b.skip(4).take(2) =~= b.skip(4).take(8).take(2));
        assert(b.skip(8).take(4) =~= b.skip(4).take(8).skip(4).take(4));
        assert(b.skip(4).take(8).skip(2)[1] == b[7]);
    }
    if version != VERSION {
        return Err(Error::UnsupportedVersion { version });
    }
    if bytes[7] != 0 {
        return Err(Error::InvalidFlags { value: bytes[7] });
    }
    let payload = payload as usize;
    if payload > usize::MAX - HEADER_BYTES {
        return Err(Error::PayloadTooLarge { size: usize::MAX, maximum });
    }
    let total = HEADER_BYTES + payload;
    if total > maximum {
        return Err(Error::PayloadTooLarge { size: total, maximum });
    }
    Ok(Some(total))
}

fn decode_frame<'a>(bytes: &'a [u8], magic: &[u8; 4], maximum: usize) -> (r: Result<(u8, Decoder<'a>)>)
    ensures
        match r {
            Ok((tag, d)) => d.wf() && spec_decode_framed(bytes@, magic@, maximum) == Ok::<_, Error>((tag, d.rest())),
            Err(e) => spec_decode_framed(bytes@, magic@, maximum) == Err::<(u8, Seq<u8>), _>(e),
        },
{
    let total = match framed_len(bytes, magic, maximum)? {
        Some(total) => total,
        None => return Err(Error::Truncated),
    };
    if bytes.len() < total {
        return Err(Error::Truncated);
    }
    if bytes.len() > total {
        return Err(Error::TrailingBytes { count: bytes.len() - total });
    }
    let payload = slice_subrange(bytes, HEADER_BYTES, bytes.len());
    let d = Decoder { input: Cursor::new(payload) };
    assert(d.rest() =~= bytes@.skip(12));
    Ok((bytes[6], d))
}

fn decode_object(input: &mut Decoder) -> (r: Result<ObjectIdentity>)
    requires
        old(input).wf(),
    ensures
        final(input).wf(),
        match r {
            Ok(o) => parse_object(old(input).rest()) == Ok::<_, Error>((o, final(input).rest())),
            Err(e) => parse_object(old(input).rest()) == Err::<(ObjectIdentity, Seq<u8>), _>(e),
        },
{
    let device = input.u64()?;
    let inode = input.u64()?;
    if inode == 0 {
        return Err(Error::InvalidValue { field: "object identity" });
    }
    Ok(ObjectIdentity { device, inode })
}

fn decode_endpoint(input: &mut Decoder) -> (r: Result<EndpointIdentity>)
    requires
        old(input).wf(),
    ensures
        final(input).wf(),
        match r {
            Ok(e) => parse_endpoint(old(input).rest()) == Ok::<_, Error>((e@, final(input).rest())),
            Err(e) => parse_endpoint(old(input).rest()) == Err::<(EndpointV, Seq<u8>), _>(e),
        },
{
    let path = input.bytes("endpoint path", MAX_PATH_BYTES, false)?;
    let object = decode_object(input)?;
    let endpoint = EndpointIdentity { path, object };
    validate_endpoint("endpoint", &endpoint)?;
    Ok(endpoint)
}

fn decode_live(input: &mut Decoder) -> (r: Result<LiveIdentity>)
    requires
        old(input).wf(),
    ensures
        final(input).wf(),
        match r {
            Ok(l) => parse_live(old(input).rest()) == Ok::<_, Error>((l@, final(input).rest())),
            Err(e) => parse_live(old(input).rest()) == Err::<(LiveV, Seq<u8>), _>(e),
        },
{
    reveal(parse_live);
    let session_id = input.text("session ID", MAX_ID_BYTES, false)?;
    let run_id = input.text("run ID", MAX_ID_BYTES, false)?;
    let component_generation = input.text("component generation", MAX_ID_BYTES, false)?;
    let ghost numbers_start = input.rest();
    let record_generation = input.u16()?;
    let management_generation = input.u16()?;
    let process_id = input.u32()?;
    let process_start = input.u64()?;
    let uid = input.u32()?;
    let ghost n = LiveNumbers { record_generation, management_generation, process_id, process_start, uid };
    assert(parse_numbers(numbers_start) == Ok::<_, Error>((n, input.rest())));
    let presentation = decode_endpoint(input)?;
    let management = decode_endpoint(input)?;
    let identity = LiveIdentity {
        session_id,
        run_id,
        component_generation,
        record_generation,
        management_generation,
        process_id,
        process_start,
        uid,
        presentation,
        management,
    };
    validate_live(&identity)?;
    Ok(identity)
}

fn decode_tombstone(input: &mut Decoder) -> (r: Result<Tombstone>)
    requires
        old(input).wf(),
    ensures
        final(input).wf(),
        match r {
            Ok(t) => parse_tombstone(old(input).rest()) == Ok::<_, Error>((t@, final(input).rest())),
            Err(e) => parse_tombstone(old(input).rest()) == Err::<(TombstoneV, Seq<u8>), _>(e),
        },
{
    let identity = decode_live(input)?;
    let reason = match input.u8()? {
        1 => TerminationReason::NaturalExit,
        2 => TerminationReason::ExplicitStop,
        value => {
            return Err(Error::InvalidTag { field: "termination reason", value });
        },
    };
    let outcome = match input.u8()? {
        1 => {
            let code = input.i32()?;
            if !(0 <= code && code <= 255) {
                return Err(Error::InvalidValue { field: "exit code" });
            }
            ProcessOutcome::ExitCode(code)
        },
        2 => {
            let signal = input.i32()?;
            if signal <= 0 {
                return Err(Error::InvalidValue { field: "termination signal" });
            }
            ProcessOutcome::Signal(signal)
        },
        value => {
            return Err(Error::InvalidTag { field: "process outcome", value });
        },
    };
    Ok(Tombstone { identity, reason, outcome })
}

fn decode_failure(input: &mut Decoder) -> (r: Result<Failure>)
    requires
        old(input).wf(),
    ensures
        final(input).wf(),
        match r {
            Ok(f) => parse_failure(old(input).rest()) == Ok::<_, Error>((f@, final(input).rest())),
            Err(e) => parse_failure(old(input).rest()) == Err::<(FailureV, Seq<u8>), _>(e),
        },
{
    let code = match input.u8()? {
        1 => FailureCode::InvalidIdentity,
        2 => FailureCode::InvalidRequest,
        value => {
            return Err(Error::InvalidTag { field: "failure code", value });
        },
    };
    let detail = input.text("failure detail", MAX_DETAIL_BYTES, true)?;
    Ok(Failure { code, detail })
}

pub fn decode_client_message(bytes: &[u8]) -> (r: Result<ClientMessage>)
    ensures
        match r {
            Ok(m) => spec_decode_client_message(bytes@) == Ok::<ClientMessageV, Error>(m@),
            Err(e) => spec_decode_client_message(bytes@) == Err::<ClientMessageV, Error>(e),
        },
{
    assert(MESSAGE_MAGIC@ =~= message_magic());
    let (tag, mut input) = decode_frame(bytes, MESSAGE_MAGIC, MAX_MESSAGE_BYTES)?;
    let message = match tag {
        1 => {
            let expected = decode_live(&mut input)?;
            let record = decode_object(&mut input)?;
            ClientMessage::Acquire { expected, record }
        },
        2 => ClientMessage::Status,
        3 => ClientMessage::Stop,
        value => {
            return Err(Error::InvalidTag { field: "client message", value });
        },
    };
    input.finish()?;
    Ok(message)
}

pub fn decode_server_message(bytes: &[u8]) -> (r: Result<ServerMessage>)
    ensures
        match r {
            Ok(m) => spec_decode_server_message(bytes@) == Ok::<ServerMessageV, Error>(m@),
            Err(e) => spec_decode_server_message(bytes@) == Err::<ServerMessageV, Error>(e),
        },
{
    assert(MESSAGE_MAGIC@ =~= message_magic());
    let (tag, mut input) = decode_frame(bytes, MESSAGE_MAGIC, MAX_MESSAGE_BYTES)?;
    let message = match tag {
        64 => ServerMessage::Lease(decode_live(&mut input)?),
        65 => ServerMessage::Status(decode_live(&mut input)?),
        66 => ServerMessage::Busy,
        67 => ServerMessage::Stopped(decode_tombstone(&mut input)?),
        68 => ServerMessage::Failure(decode_failure(&mut input)?),
        value => {
            return Err(Error::InvalidTag { field: "server message", value });
        },
    };
    input.finish()?;
    Ok(message)
}

pub fn decode_record(bytes: &[u8]) -> (r: Result<Record>)
    ensures
        match r {
            Ok(m) => spec_decode_record(bytes@) == Ok::<RecordV, Error>(m@),
            Err(e) => spec_decode_record(bytes@) == Err::<RecordV, Error>(e),
        },
{
    assert(RECORD_MAGIC@ =~= record_magic());
    let (tag, mut input) = decode_frame(bytes, RECORD_MAGIC, MAX_RECORD_BYTES)?;
    let record = match tag {
        1 => Record::Live(decode_live(&mut input)?),
        2 => Record::Tombstone(decode_tombstone(&mut input)?),
        value => {
            return Err(Error::InvalidTag { field: "record", value });
        },
    };
    input.finish()?;
    Ok(record)
}

} // verus!
