//! Private bounded lifecycle management values for one Orbit run.
//!
//! Management messages (`ORBM`) and lifecycle records (`ORBR`) share one
//! framing: a twelve-byte header with magic, version, tag, zero flags and a
//! payload length, followed by the payload.

pub mod codec;
pub mod laws;
pub mod owner;
pub mod spec;

pub use codec::{
    client_message_len, decode_client_message, decode_record, decode_server_message,
    encode_client_message, encode_record, encode_server_message, server_message_len,
};

use vstd::prelude::*;

verus! {

pub const MESSAGE_MAGIC: &'static [u8; 4] = &[79, 82, 66, 77];

pub const RECORD_MAGIC: &'static [u8; 4] = &[79, 82, 66, 82];

pub const VERSION: u16 = 1;

pub const RECORD_GENERATION: u16 = 1;

pub const HEADER_BYTES: usize = 12;

pub const MAX_MESSAGE_BYTES: usize = 4096;

pub const MAX_RECORD_BYTES: usize = 4096;

pub const MAX_ID_BYTES: usize = 128;

pub const MAX_DETAIL_BYTES: usize = 1024;

pub const MAX_PATH_BYTES: usize = 1024;

#[derive(Clone, Copy, Debug, PartialEq, Eq, Structural)]
pub struct ObjectIdentity {
    pub device: u64,
    pub inode: u64,
}

#[derive(Clone, Debug, PartialEq, Eq)]
pub struct EndpointIdentity {
    pub path: Vec<u8>,
    pub object: ObjectIdentity,
}

#[derive(Clone, Debug, PartialEq, Eq)]
pub struct LiveIdentity {
    pub session_id: String,
    pub run_id: String,
    pub component_generation: String,
    pub record_generation: u16,
    pub management_generation: u16,
    pub process_id: u32,
    pub process_start: u64,
    pub uid: u32,
    pub presentation: EndpointIdentity,
    pub management: EndpointIdentity,
}

#[derive(Clone, Copy, Debug, PartialEq, Eq, Structural)]
pub enum TerminationReason {
    NaturalExit,
    ExplicitStop,
}

#[derive(Clone, Copy, Debug, PartialEq, Eq, Structural)]
pub enum ProcessOutcome {
    ExitCode(i32),
    Signal(i32),
}

#[derive(Clone, Debug, PartialEq, Eq)]
pub struct Tombstone {
    pub identity: LiveIdentity,
    pub reason: TerminationReason,
    pub outcome: ProcessOutcome,
}

#[derive(Clone, Copy, Debug, PartialEq, Eq, Structural)]
pub enum FailureCode {
    InvalidIdentity,
    InvalidRequest,
}

#[derive(Clone, Debug, PartialEq, Eq)]
pub struct Failure {
    pub code: FailureCode,
    pub detail: String,
}

#[derive(Clone, Debug, PartialEq, Eq)]
pub enum ClientMessage {
    Acquire { expected: LiveIdentity, record: ObjectIdentity },
    Status,
    Stop,
}

#[derive(Clone, Debug, PartialEq, Eq)]
pub enum ServerMessage {
    Lease(LiveIdentity),
    Status(LiveIdentity),
    Busy,
    Stopped(Tombstone),
    Failure(Failure),
}

#[derive(Clone, Debug, PartialEq, Eq)]
pub enum Record {
    Live(LiveIdentity),
    Tombstone(Tombstone),
}

#[derive(Clone, Debug, PartialEq, Eq)]
pub enum Error {
    InvalidMagic,
    UnsupportedVersion { version: u16 },
    InvalidFlags { value: u8 },
    PayloadTooLarge { size: usize, maximum: usize },
    ValueTooLarge { field: &'static str, size: usize, maximum: usize },
    Truncated,
    TrailingBytes { count: usize },
    InvalidTag { field: &'static str, value: u8 },
    InvalidValue { field: &'static str },
    InvalidUtf8 { field: &'static str },
}

pub type Result<T> = core::result::Result<T, Error>;

// ---------------------------------------------------------------- models

/// Mathematical model of an [`EndpointIdentity`].
pub struct EndpointV {
    pub path: Seq<u8>,
    pub object: ObjectIdentity,
}

/// Mathematical model of a [`LiveIdentity`].
pub struct LiveV {
    pub session_id: Seq<char>,
    pub run_id: Seq<char>,
    pub component_generation: Seq<char>,
    pub record_generation: u16,
    pub management_generation: u16,
    pub process_id: u32,
    pub process_start: u64,
    pub uid: u32,
    pub presentation: EndpointV,
    pub management: EndpointV,
}

/// Mathematical model of a [`Tombstone`].
pub struct TombstoneV {
    pub identity: LiveV,
    pub reason: TerminationReason,
    pub outcome: ProcessOutcome,
}

/// Mathematical model of a [`Failure`].
pub struct FailureV {
    pub code: FailureCode,
    pub detail: Seq<char>,
}

/// Mathematical model of a [`ClientMessage`].
pub enum ClientMessageV {
    Acquire { expected: LiveV, record: ObjectIdentity },
    Status,
    Stop,
}

/// Mathematical model of a [`ServerMessage`].
pub enum ServerMessageV {
    Lease(LiveV),
    Status(LiveV),
    Busy,
    Stopped(TombstoneV),
    Failure(FailureV),
}

/// Mathematical model of a [`Record`].
pub enum RecordV {
    Live(LiveV),
    Tombstone(TombstoneV),
}

impl View for EndpointIdentity {
    type V = EndpointV;

    open spec fn view(&self) -> EndpointV {
        EndpointV { path: self.path@, object: self.object }
    }
}

impl View for LiveIdentity {
    type V = LiveV;

    open spec fn view(&self) -> LiveV {
        LiveV {
            session_id: self.session_id@,
            run_id: self.run_id@,
            component_generation: self.component_generation@,
            record_generation: self.record_generation,
            management_generation: self.management_generation,
            process_id: self.process_id,
            process_start: self.process_start,
            uid: self.uid,
            presentation: self.presentation@,
            management: self.management@,
        }
    }
}

impl View for Tombstone {
    type V = TombstoneV;

    open spec fn view(&self) -> TombstoneV {
        TombstoneV { identity: self.identity@, reason: self.reason, outcome: self.outcome }
    }
}

impl View for Failure {
    type V = FailureV;

    open spec fn view(&self) -> FailureV {
        FailureV { code: self.code, detail: self.detail@ }
    }
}

impl View for ClientMessage {
    type V = ClientMessageV;

    open spec fn view(&self) -> ClientMessageV {
        match self {
            ClientMessage::Acquire { expected, record } => ClientMessageV::Acquire {
                expected: expected@,
                record: *record,
            },
            ClientMessage::Status => ClientMessageV::Status,
            ClientMessage::Stop => ClientMessageV::Stop,
        }
    }
}

impl View for ServerMessage {
    type V = ServerMessageV;

    open spec fn view(&self) -> ServerMessageV {
        match self {
            ServerMessage::Lease(l) => ServerMessageV::Lease(l@),
            ServerMessage::Status(l) => ServerMessageV::Status(l@),
            ServerMessage::Busy => ServerMessageV::Busy,
            ServerMessage::Stopped(t) => ServerMessageV::Stopped(t@),
            ServerMessage::Failure(f) => ServerMessageV::Failure(f@),
        }
    }
}

impl View for Record {
    type V = RecordV;

    open spec fn view(&self) -> RecordV {
        match self {
            Record::Live(l) => RecordV::Live(l@),
            Record::Tombstone(t) => RecordV::Tombstone(t@),
        }
    }
}

} // verus!
