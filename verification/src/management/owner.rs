//! The decisions of the management endpoint's owner: how it treats the bytes
//! one client has sent, and how it answers a complete request.

use super::codec::{bytes_equal, client_message_len, decode_client_message};
use super::spec::{spec_decode_client_message, spec_framed_len, message_magic};
use super::{
    ClientMessage, EndpointIdentity, Error, Failure, FailureCode, FailureV,
    LiveIdentity, MAX_MESSAGE_BYTES, ServerMessage, ServerMessageV,
};
use crate::error_text::management_error_text;
use vstd::prelude::*;

verus! {

/// What the owner does with the bytes one client has sent so far.
pub enum RequestStep {
    /// The request is still incomplete: keep reading.
    Incomplete,
    /// Refuse the request for this framing or decoding error, then close.
    Invalid(Error),
    /// Refuse: the bytes are not exactly one request.
    Pipelined,
    /// One complete request.
    Complete(ClientMessage),
}

/// How many more bytes may be read for one request, or `None` when the
/// request already exceeds its bound.
pub fn read_budget(input_len: usize) -> (r: Option<usize>)
    ensures
        match r {
            Some(n) => input_len < MAX_MESSAGE_BYTES && n == MAX_MESSAGE_BYTES - input_len,
            None => input_len >= MAX_MESSAGE_BYTES,
        },
{
    if input_len >= MAX_MESSAGE_BYTES {
        None
    } else {
        Some(MAX_MESSAGE_BYTES - input_len)
    }
}

/// Classify the bytes one client has sent: incomplete, refused, or exactly
/// one decoded request.
pub fn request_step(input: &[u8]) -> (r: RequestStep)
    ensures
        match spec_framed_len(input@, message_magic(), MAX_MESSAGE_BYTES) {
            Err(e) => r == RequestStep::Invalid(e),
            Ok(None) => r is Incomplete,
            Ok(Some(length)) => if input@.len() != length {
                r is Pipelined
            } else {
                match spec_decode_client_message(input@) {
                    Ok(m) => r matches RequestStep::Complete(message) && message@ == m,
                    Err(e) => r == RequestStep::Invalid(e),
                }
            },
        },
{
    let length = match client_message_len(input) {
        Ok(Some(length)) => length,
        Ok(None) => return RequestStep::Incomplete,
        Err(error) => return RequestStep::Invalid(error),
    };
    if input.len() != length {
        return RequestStep::Pipelined;
    }
    match decode_client_message(input) {
        Ok(message) => RequestStep::Complete(message),
        Err(error) => RequestStep::Invalid(error),
    }
}

/// What the owner sends back, whether it then closes the connection, and
/// whether the client now holds the lease.
pub struct Reply {
    pub message: ServerMessage,
    pub close: bool,
    pub lease: bool,
}

/// Mathematical model of a [`Reply`].
pub struct ReplyV {
    pub message: ServerMessageV,
    pub close: bool,
    pub lease: bool,
}

impl View for Reply {
    type V = ReplyV;

    open spec fn view(&self) -> ReplyV {
        ReplyV { message: self.message@, close: self.close, lease: self.lease }
    }
}

/// A refused request: an `InvalidRequest` failure, then the connection closes.
pub open spec fn refusal(detail: Seq<char>) -> ReplyV {
    ReplyV {
        message: ServerMessageV::Failure(FailureV { code: FailureCode::InvalidRequest, detail }),
        close: true,
        lease: false,
    }
}

fn refuse(detail: String) -> (r: Reply)
    ensures
        r@ == refusal(detail@),
{
    Reply {
        message: ServerMessage::Failure(Failure { code: FailureCode::InvalidRequest, detail }),
        close: true,
        lease: false,
    }
}

/// The reply to a client whose request outgrew [`MAX_MESSAGE_BYTES`].
pub fn over_budget() -> (r: Reply)
    ensures
        r@ == refusal("management request exceeded its bound"@),
{
    refuse("management request exceeded its bound".to_owned())
}

/// The reply to bytes that are not exactly one valid request, if any.
pub fn refuse_step(step: &RequestStep) -> (r: Option<Reply>)
    ensures
        match step {
            RequestStep::Invalid(e) => r matches Some(reply) && reply@ == refusal(
                management_error_text(*e),
            ),
            RequestStep::Pipelined => r matches Some(reply) && reply@ == refusal(
                "management requests cannot be pipelined"@,
            ),
            _ => r is None,
        },
{
    match step {
        RequestStep::Invalid(error) => Some(refuse(error.message())),
        RequestStep::Pipelined => Some(refuse("management requests cannot be pipelined".to_owned())),
        _ => None,
    }
}

/// How the owner answers a complete request: `None` stops the session.
/// Acquire is only for a client that does not hold the lease yet and is
/// granted when `acquire_valid` says the peer and identities match; Status
/// and Stop are only for the lease holder; anything else is refused.
pub fn respond(message: &ClientMessage, leased: bool, acquire_valid: bool, identity: LiveIdentity) -> (r:
    Option<Reply>)
    ensures
        (message@ is Acquire && !leased) ==> (r matches Some(reply) && reply@ == (if acquire_valid {
            ReplyV { message: ServerMessageV::Lease(identity@), close: false, lease: true }
        } else {
            ReplyV {
                message: ServerMessageV::Failure(
                    FailureV {
                        code: FailureCode::InvalidIdentity,
                        detail: "live Orbit identity did not match"@,
                    },
                ),
                close: true,
                lease: false,
            }
        })),
        (message@ is Status && leased) ==> (r matches Some(reply) && reply@ == (ReplyV {
            message: ServerMessageV::Status(identity@),
            close: false,
            lease: false,
        })),
        (message@ is Stop && leased) ==> r is None,
        (message@ is Acquire && leased) || (!(message@ is Acquire) && !leased) ==> (r matches Some(
            reply,
        ) && reply@ == refusal("acquire the management lease before this request"@)),
{
    let lease_request = match message {
        ClientMessage::Acquire { .. } => true,
        _ => false,
    };
    if lease_request != leased {
        if !leased {
            if acquire_valid {
                return Some(
                    Reply { message: ServerMessage::Lease(identity), close: false, lease: true },
                );
            }
            return Some(
                Reply {
                    message: ServerMessage::Failure(
                        Failure {
                            code: FailureCode::InvalidIdentity,
                            detail: "live Orbit identity did not match".to_owned(),
                        },
                    ),
                    close: true,
                    lease: false,
                },
            );
        }
        match message {
            ClientMessage::Status => {
                return Some(
                    Reply { message: ServerMessage::Status(identity), close: false, lease: false },
                );
            },
            _ => {
                return None;
            },
        }
    }
    Some(refuse("acquire the management lease before this request".to_owned()))
}

fn endpoint_equal(a: &EndpointIdentity, b: &EndpointIdentity) -> (r: bool)
    ensures
        r == (a@ == b@),
{
    bytes_equal(a.path.as_slice(), b.path.as_slice()) && a.object == b.object
}

/// Whether two live identities are the same.
pub fn identity_equal(a: &LiveIdentity, b: &LiveIdentity) -> (r: bool)
    ensures
        r == (a@ == b@),
{
    a.session_id == b.session_id && a.run_id == b.run_id && a.component_generation
        == b.component_generation && a.record_generation == b.record_generation
        && a.management_generation == b.management_generation && a.process_id == b.process_id
        && a.process_start == b.process_start && a.uid == b.uid && endpoint_equal(
        &a.presentation,
        &b.presentation,
    ) && endpoint_equal(&a.management, &b.management)
}

/// The part of an acquire check that needs no outside state: the peer runs
/// as the owner's user and expects exactly the owner's identity.
pub fn acquire_matches(identity: &LiveIdentity, peer_uid: u32, expected: &LiveIdentity) -> (r: bool)
    ensures
        r == (peer_uid == identity.uid && expected@ == identity@),
{
    peer_uid == identity.uid && identity_equal(expected, identity)
}

} // verus!
