//! The management byte layout, as a serializer and a parser over sequences.

use super::{
    ClientMessageV, EndpointV, Error, FailureCode, FailureV, LiveV, MAX_DETAIL_BYTES,
    MAX_ID_BYTES, MAX_MESSAGE_BYTES, MAX_PATH_BYTES, MAX_RECORD_BYTES, ObjectIdentity,
    ProcessOutcome, RECORD_GENERATION, RecordV, ServerMessageV, TerminationReason, TombstoneV,
    VERSION,
};
use crate::wire::{
    chars_of, is_utf8, le16, le32, le64, lei32, read_bytes, read_i32, read_u16, read_u32,
    read_u64, read_u8, utf8,
};
use vstd::prelude::*;

verus! {

pub type Parsed<T> = core::result::Result<(T, Seq<u8>), Error>;

pub open spec fn message_magic() -> Seq<u8> {
    seq![79u8, 82u8, 66u8, 77u8]
}

pub open spec fn record_magic() -> Seq<u8> {
    seq![79u8, 82u8, 66u8, 82u8]
}

// ---------------------------------------------------------------- validation

/// The error a length-prefixed field of `len` bytes is refused with, if any.
pub open spec fn bytes_error(field: &'static str, len: nat, maximum: usize, empty: bool) -> Option<
    Error,
> {
    if !empty && len == 0 {
        Some(Error::InvalidValue { field })
    } else if len > maximum {
        Some(Error::ValueTooLarge { field, size: len as usize, maximum })
    } else {
        None
    }
}

pub open spec fn text_error(field: &'static str, s: Seq<char>, maximum: usize, empty: bool) -> Option<
    Error,
> {
    bytes_error(field, utf8(s).len(), maximum, empty)
}

pub open spec fn endpoint_error(field: &'static str, e: EndpointV) -> Option<Error> {
    match bytes_error("endpoint path", e.path.len(), MAX_PATH_BYTES, false) {
        Some(err) => Some(err),
        None => if e.object.inode == 0 {
            Some(Error::InvalidValue { field })
        } else {
            None
        },
    }
}

/// Why a live identity is invalid, if it is: the first failed check in order.
pub open spec fn live_error(l: LiveV) -> Option<Error> {
    if text_error("session ID", l.session_id, MAX_ID_BYTES, false) is Some {
        text_error("session ID", l.session_id, MAX_ID_BYTES, false)
    } else if text_error("run ID", l.run_id, MAX_ID_BYTES, false) is Some {
        text_error("run ID", l.run_id, MAX_ID_BYTES, false)
    } else if text_error("component generation", l.component_generation, MAX_ID_BYTES, false) is Some {
        text_error("component generation", l.component_generation, MAX_ID_BYTES, false)
    } else if l.record_generation != RECORD_GENERATION {
        Some(Error::UnsupportedVersion { version: l.record_generation })
    } else if l.management_generation != VERSION {
        Some(Error::UnsupportedVersion { version: l.management_generation })
    } else if l.process_id == 0 {
        Some(Error::InvalidValue { field: "process ID" })
    } else if l.process_start == 0 {
        Some(Error::InvalidValue { field: "process start identity" })
    } else if endpoint_error("presentation endpoint", l.presentation) is Some {
        endpoint_error("presentation endpoint", l.presentation)
    } else if endpoint_error("management endpoint", l.management) is Some {
        endpoint_error("management endpoint", l.management)
    } else if l.presentation.path == l.management.path || l.presentation.object
        == l.management.object {
        Some(Error::InvalidValue { field: "distinct endpoints" })
    } else {
        None
    }
}

pub open spec fn outcome_error(o: ProcessOutcome) -> Option<Error> {
    match o {
        ProcessOutcome::ExitCode(code) => if 0 <= code <= 255 {
            None
        } else {
            Some(Error::InvalidValue { field: "exit code" })
        },
        ProcessOutcome::Signal(signal) => if signal > 0 {
            None
        } else {
            Some(Error::InvalidValue { field: "termination signal" })
        },
    }
}

pub open spec fn tombstone_error(t: TombstoneV) -> Option<Error> {
    match live_error(t.identity) {
        Some(e) => Some(e),
        None => outcome_error(t.outcome),
    }
}

// ---------------------------------------------------------------- serialization

pub open spec fn ser_field(b: Seq<u8>) -> Seq<u8> {
    le16(b.len() as u16) + b
}

pub open spec fn ser_text(s: Seq<char>) -> Seq<u8> {
    ser_field(utf8(s))
}

pub open spec fn ser_object(o: ObjectIdentity) -> Seq<u8> {
    le64(o.device) + le64(o.inode)
}

pub open spec fn ser_endpoint(e: EndpointV) -> Seq<u8> {
    ser_field(e.path) + ser_object(e.object)
}

pub open spec fn ser_live(l: LiveV) -> Seq<u8> {
    ser_text(l.session_id) + (ser_text(l.run_id) + (ser_text(l.component_generation) + (le16(
        l.record_generation,
    ) + (le16(l.management_generation) + (le32(l.process_id) + (le64(l.process_start) + (le32(
        l.uid,
    ) + (ser_endpoint(l.presentation) + ser_endpoint(l.management)))))))))
}

pub open spec fn reason_tag(r: TerminationReason) -> u8 {
    match r {
        TerminationReason::NaturalExit => 1,
        TerminationReason::ExplicitStop => 2,
    }
}

pub open spec fn ser_outcome(o: ProcessOutcome) -> Seq<u8> {
    match o {
        ProcessOutcome::ExitCode(code) => seq![1u8] + lei32(code),
        ProcessOutcome::Signal(signal) => seq![2u8] + lei32(signal),
    }
}

pub open spec fn ser_tombstone(t: TombstoneV) -> Seq<u8> {
    ser_live(t.identity) + (seq![reason_tag(t.reason)] + ser_outcome(t.outcome))
}

pub open spec fn failure_code_tag(c: FailureCode) -> u8 {
    match c {
        FailureCode::InvalidIdentity => 1,
        FailureCode::InvalidRequest => 2,
    }
}

/// A complete frame around `payload`.
pub open spec fn ser_framed(magic: Seq<u8>, tag: u8, payload: Seq<u8>) -> Seq<u8> {
    magic + (le16(VERSION) + (seq![tag, 0u8] + (le32(payload.len() as u32) + payload)))
}

/// Framing a payload, or the size error.
pub open spec fn spec_encode_framed(magic: Seq<u8>, tag: u8, maximum: usize, payload: Seq<u8>) -> core::result::Result<
    Seq<u8>,
    Error,
> {
    let total = 12 + payload.len();
    if total > usize::MAX {
        Err(Error::PayloadTooLarge { size: usize::MAX, maximum })
    } else if total > maximum {
        Err(Error::PayloadTooLarge { size: total as usize, maximum })
    } else if payload.len() > u32::MAX {
        Err(Error::PayloadTooLarge { size: total as usize, maximum })
    } else {
        Ok(ser_framed(magic, tag, payload))
    }
}

/// The tag and payload of a client message, or the error encoding reports.
pub open spec fn client_payload(m: ClientMessageV) -> core::result::Result<(u8, Seq<u8>), Error> {
    match m {
        ClientMessageV::Acquire { expected, record } => match live_error(expected) {
            Some(e) => Err(e),
            None => Ok((1u8, ser_live(expected) + ser_object(record))),
        },
        ClientMessageV::Status => Ok((2u8, Seq::empty())),
        ClientMessageV::Stop => Ok((3u8, Seq::empty())),
    }
}

pub open spec fn server_payload(m: ServerMessageV) -> core::result::Result<(u8, Seq<u8>), Error> {
    match m {
        ServerMessageV::Lease(l) => match live_error(l) {
            Some(e) => Err(e),
            None => Ok((64u8, ser_live(l))),
        },
        ServerMessageV::Status(l) => match live_error(l) {
            Some(e) => Err(e),
            None => Ok((65u8, ser_live(l))),
        },
        ServerMessageV::Busy => Ok((66u8, Seq::empty())),
        ServerMessageV::Stopped(t) => match tombstone_error(t) {
            Some(e) => Err(e),
            None => Ok((67u8, ser_tombstone(t))),
        },
        ServerMessageV::Failure(f) => match text_error(
            "failure detail",
            f.detail,
            MAX_DETAIL_BYTES,
            true,
        ) {
            Some(e) => Err(e),
            None => Ok((68u8, seq![failure_code_tag(f.code)] + ser_text(f.detail))),
        },
    }
}

pub open spec fn record_payload(r: RecordV) -> core::result::Result<(u8, Seq<u8>), Error> {
    match r {
        RecordV::Live(l) => match live_error(l) {
            Some(e) => Err(e),
            None => Ok((1u8, ser_live(l))),
        },
        RecordV::Tombstone(t) => match tombstone_error(t) {
            Some(e) => Err(e),
            None => Ok((2u8, ser_tombstone(t))),
        },
    }
}

pub open spec fn encode_with(
    magic: Seq<u8>,
    maximum: usize,
    p: core::result::Result<(u8, Seq<u8>), Error>,
) -> core::result::Result<Seq<u8>, Error> {
    match p {
        Err(e) => Err(e),
        Ok((tag, payload)) => spec_encode_framed(magic, tag, maximum, payload),
    }
}

/// What encoding a client message gives.
pub open spec fn spec_encode_client_message(m: ClientMessageV) -> core::result::Result<Seq<u8>, Error> {
    encode_with(message_magic(), MAX_MESSAGE_BYTES, client_payload(m))
}

/// What encoding a server message gives.
pub open spec fn spec_encode_server_message(m: ServerMessageV) -> core::result::Result<Seq<u8>, Error> {
    encode_with(message_magic(), MAX_MESSAGE_BYTES, server_payload(m))
}

/// What encoding a lifecycle record gives.
pub open spec fn spec_encode_record(r: RecordV) -> core::result::Result<Seq<u8>, Error> {
    encode_with(record_magic(), MAX_RECORD_BYTES, record_payload(r))
}

// ---------------------------------------------------------------- framing

/// The framed length announced by a header, `None` while the header is incomplete.
pub open spec fn spec_framed_len(b: Seq<u8>, magic: Seq<u8>, maximum: usize) -> core::result::Result<
    Option<usize>,
    Error,
> {
    if b.len() < 12 {
        Ok(None)
    } else if b.take(4) != magic {
        Err(Error::InvalidMagic)
    } else {
        let version = read_u16(b.skip(4))->Some_0.0;
        let payload = read_u32(b.skip(8))->Some_0.0;
        if version != VERSION {
            Err(Error::UnsupportedVersion { version })
        } else if b[7] != 0 {
            Err(Error::InvalidFlags { value: b[7] })
        } else if 12 + payload > usize::MAX {
            Err(Error::PayloadTooLarge { size: usize::MAX, maximum })
        } else if 12 + payload > maximum {
            Err(Error::PayloadTooLarge { size: (12 + payload) as usize, maximum })
        } else {
            Ok(Some((12 + payload) as usize))
        }
    }
}

/// The tag and payload of one complete frame.
pub open spec fn spec_decode_framed(b: Seq<u8>, magic: Seq<u8>, maximum: usize) -> core::result::Result<
    (u8, Seq<u8>),
    Error,
> {
    match spec_framed_len(b, magic, maximum) {
        Err(e) => Err(e),
        Ok(None) => Err(Error::Truncated),
        Ok(Some(total)) => if b.len() < total {
            Err(Error::Truncated)
        } else if b.len() > total {
            Err(Error::TrailingBytes { count: (b.len() - total) as usize })
        } else {
            Ok((b[6], b.skip(12)))
        },
    }
}

// ---------------------------------------------------------------- parsing

pub open spec fn parse_field(s: Seq<u8>, field: &'static str, maximum: usize, empty: bool) -> Parsed<
    Seq<u8>,
> {
    match read_u16(s) {
        None => Err(Error::Truncated),
        Some((len, r)) => if len > maximum {
            Err(Error::ValueTooLarge { field, size: len as usize, maximum })
        } else {
            match read_bytes(r, len as int) {
                None => Err(Error::Truncated),
                Some((v, r2)) => match bytes_error(field, v.len(), maximum, empty) {
                    Some(e) => Err(e),
                    None => Ok((v, r2)),
                },
            }
        },
    }
}

pub open spec fn parse_text(s: Seq<u8>, field: &'static str, maximum: usize, empty: bool) -> Parsed<
    Seq<char>,
> {
    match parse_field(s, field, maximum, empty) {
        Err(e) => Err(e),
        Ok((v, r)) => if is_utf8(v) {
            Ok((chars_of(v), r))
        } else {
            Err(Error::InvalidUtf8 { field })
        },
    }
}

pub open spec fn parse_object(s: Seq<u8>) -> Parsed<ObjectIdentity> {
    match read_u64(s) {
        None => Err(Error::Truncated),
        Some((device, r1)) => match read_u64(r1) {
            None => Err(Error::Truncated),
            Some((inode, r2)) => if inode == 0 {
                Err(Error::InvalidValue { field: "object identity" })
            } else {
                Ok((ObjectIdentity { device, inode }, r2))
            },
        },
    }
}

pub open spec fn parse_endpoint(s: Seq<u8>) -> Parsed<EndpointV> {
    match parse_field(s, "endpoint path", MAX_PATH_BYTES, false) {
        Err(e) => Err(e),
        Ok((path, r1)) => match parse_object(r1) {
            Err(e) => Err(e),
            Ok((object, r2)) => {
                let e = EndpointV { path, object };
                match endpoint_error("endpoint", e) {
                    Some(err) => Err(err),
                    None => Ok((e, r2)),
                }
            },
        },
    }
}

/// The numeric fields of a live identity, between its texts and its endpoints.
pub struct LiveNumbers {
    pub record_generation: u16,
    pub management_generation: u16,
    pub process_id: u32,
    pub process_start: u64,
    pub uid: u32,
}

pub open spec fn ser_numbers(n: LiveNumbers) -> Seq<u8> {
    le16(n.record_generation) + (le16(n.management_generation) + (le32(n.process_id) + (le64(
        n.process_start,
    ) + le32(n.uid))))
}

pub open spec fn parse_numbers(s: Seq<u8>) -> Parsed<LiveNumbers> {
    match read_u16(s) {
        None => Err(Error::Truncated),
        Some((record_generation, r1)) => match read_u16(r1) {
            None => Err(Error::Truncated),
            Some((management_generation, r2)) => match read_u32(r2) {
                None => Err(Error::Truncated),
                Some((process_id, r3)) => match read_u64(r3) {
                    None => Err(Error::Truncated),
                    Some((process_start, r4)) => match read_u32(r4) {
                        None => Err(Error::Truncated),
                        Some((uid, r5)) => Ok(
                            (
                                LiveNumbers {
                                    record_generation,
                                    management_generation,
                                    process_id,
                                    process_start,
                                    uid,
                                },
                                r5,
                            ),
                        ),
                    },
                },
            },
        },
    }
}

#[verifier::opaque]
pub open spec fn parse_live(s: Seq<u8>) -> Parsed<LiveV> {
    match parse_text(s, "session ID", MAX_ID_BYTES, false) {
        Err(e) => Err(e),
        Ok((session_id, r1)) => match parse_text(r1, "run ID", MAX_ID_BYTES, false) {
            Err(e) => Err(e),
            Ok((run_id, r2)) => match parse_text(r2, "component generation", MAX_ID_BYTES, false) {
                Err(e) => Err(e),
                Ok((component_generation, r3)) => match parse_numbers(r3) {
                    Err(e) => Err(e),
                    Ok((n, r4)) => match parse_endpoint(r4) {
                        Err(e) => Err(e),
                        Ok((presentation, r5)) => match parse_endpoint(r5) {
                            Err(e) => Err(e),
                            Ok((management, r6)) => {
                                let l = LiveV {
                                    session_id,
                                    run_id,
                                    component_generation,
                                    record_generation: n.record_generation,
                                    management_generation: n.management_generation,
                                    process_id: n.process_id,
                                    process_start: n.process_start,
                                    uid: n.uid,
                                    presentation,
                                    management,
                                };
                                match live_error(l) {
                                    Some(e) => Err(e),
                                    None => Ok((l, r6)),
                                }
                            },
                        },
                    },
                },
            },
        },
    }
}

pub open spec fn parse_reason(s: Seq<u8>) -> Parsed<TerminationReason> {
    match read_u8(s) {
        None => Err(Error::Truncated),
        Some((v, r)) => if v == 1 {
            Ok((TerminationReason::NaturalExit, r))
        } else if v == 2 {
            Ok((TerminationReason::ExplicitStop, r))
        } else {
            Err(Error::InvalidTag { field: "termination reason", value: v })
        },
    }
}

pub open spec fn parse_outcome(s: Seq<u8>) -> Parsed<ProcessOutcome> {
    match read_u8(s) {
        None => Err(Error::Truncated),
        Some((v, r)) => if v == 1 {
            match read_i32(r) {
                None => Err(Error::Truncated),
                Some((code, r2)) => if 0 <= code <= 255 {
                    Ok((ProcessOutcome::ExitCode(code), r2))
                } else {
                    Err(Error::InvalidValue { field: "exit code" })
                },
            }
        } else if v == 2 {
            match read_i32(r) {
                None => Err(Error::Truncated),
                Some((signal, r2)) => if signal > 0 {
                    Ok((ProcessOutcome::Signal(signal), r2))
                } else {
                    Err(Error::InvalidValue { field: "termination signal" })
                },
            }
        } else {
            Err(Error::InvalidTag { field: "process outcome", value: v })
        },
    }
}

pub open spec fn parse_tombstone(s: Seq<u8>) -> Parsed<TombstoneV> {
    match parse_live(s) {
        Err(e) => Err(e),
        Ok((identity, r1)) => match parse_reason(r1) {
            Err(e) => Err(e),
            Ok((reason, r2)) => match parse_outcome(r2) {
                Err(e) => Err(e),
                Ok((outcome, r3)) => Ok((TombstoneV { identity, reason, outcome }, r3)),
            },
        },
    }
}

pub open spec fn parse_failure(s: Seq<u8>) -> Parsed<FailureV> {
    match read_u8(s) {
        None => Err(Error::Truncated),
        Some((v, r)) => if v != 1 && v != 2 {
            Err(Error::InvalidTag { field: "failure code", value: v })
        } else {
            match parse_text(r, "failure detail", MAX_DETAIL_BYTES, true) {
                Err(e) => Err(e),
                Ok((detail, r2)) => Ok(
                    (
                        FailureV {
                            code: if v == 1 {
                                FailureCode::InvalidIdentity
                            } else {
                                FailureCode::InvalidRequest
                            },
                            detail,
                        },
                        r2,
                    ),
                ),
            }
        },
    }
}

pub open spec fn parse_client_payload(tag: u8, s: Seq<u8>) -> Parsed<ClientMessageV> {
    if tag == 1 {
        match parse_live(s) {
            Err(e) => Err(e),
            Ok((expected, r1)) => match parse_object(r1) {
                Err(e) => Err(e),
                Ok((record, r2)) => Ok((ClientMessageV::Acquire { expected, record }, r2)),
            },
        }
    } else if tag == 2 {
        Ok((ClientMessageV::Status, s))
    } else if tag == 3 {
        Ok((ClientMessageV::Stop, s))
    } else {
        Err(Error::InvalidTag { field: "client message", value: tag })
    }
}

pub open spec fn parse_server_payload(tag: u8, s: Seq<u8>) -> Parsed<ServerMessageV> {
    if tag == 64 {
        match parse_live(s) {
            Err(e) => Err(e),
            Ok((l, r)) => Ok((ServerMessageV::Lease(l), r)),
        }
    } else if tag == 65 {
        match parse_live(s) {
            Err(e) => Err(e),
            Ok((l, r)) => Ok((ServerMessageV::Status(l), r)),
        }
    } else if tag == 66 {
        Ok((ServerMessageV::Busy, s))
    } else if tag == 67 {
        match parse_tombstone(s) {
            Err(e) => Err(e),
            Ok((t, r)) => Ok((ServerMessageV::Stopped(t), r)),
        }
    } else if tag == 68 {
        match parse_failure(s) {
            Err(e) => Err(e),
            Ok((f, r)) => Ok((ServerMessageV::Failure(f), r)),
        }
    } else {
        Err(Error::InvalidTag { field: "server message", value: tag })
    }
}

pub open spec fn parse_record_payload(tag: u8, s: Seq<u8>) -> Parsed<RecordV> {
    if tag == 1 {
        match parse_live(s) {
            Err(e) => Err(e),
            Ok((l, r)) => Ok((RecordV::Live(l), r)),
        }
    } else if tag == 2 {
        match parse_tombstone(s) {
            Err(e) => Err(e),
            Ok((t, r)) => Ok((RecordV::Tombstone(t), r)),
        }
    } else {
        Err(Error::InvalidTag { field: "record", value: tag })
    }
}

/// A parsed payload that must also be complete.
pub open spec fn finished<T>(p: Parsed<T>) -> core::result::Result<T, Error> {
    match p {
        Err(e) => Err(e),
        Ok((v, r)) => if r.len() == 0 {
            Ok(v)
        } else {
            Err(Error::TrailingBytes { count: r.len() as usize })
        },
    }
}

/// What decoding a client message gives.
pub open spec fn spec_decode_client_message(b: Seq<u8>) -> core::result::Result<ClientMessageV, Error> {
    match spec_decode_framed(b, message_magic(), MAX_MESSAGE_BYTES) {
        Err(e) => Err(e),
        Ok((tag, payload)) => finished(parse_client_payload(tag, payload)),
    }
}

/// What decoding a server message gives.
pub open spec fn spec_decode_server_message(b: Seq<u8>) -> core::result::Result<ServerMessageV, Error> {
    match spec_decode_framed(b, message_magic(), MAX_MESSAGE_BYTES) {
        Err(e) => Err(e),
        Ok((tag, payload)) => finished(parse_server_payload(tag, payload)),
    }
}

/// What decoding a lifecycle record gives.
pub open spec fn spec_decode_record(b: Seq<u8>) -> core::result::Result<RecordV, Error> {
    match spec_decode_framed(b, record_magic(), MAX_RECORD_BYTES) {
        Err(e) => Err(e),
        Ok((tag, payload)) => finished(parse_record_payload(tag, payload)),
    }
}

} // verus!
