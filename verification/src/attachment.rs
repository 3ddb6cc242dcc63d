//! One attached client's protocol state: the bytes it has sent, the role it
//! negotiated, and the output queued for it.
//!
//! A new client first names its role: `Hello` for the single interactive
//! attachment or `ObserveMetadata` for the single read-only metadata
//! observation. A metadata observer may send nothing after that, and no
//! client may name its role twice. Reading from and writing to the socket
//! are the caller's part.

use crate::frame::Frame;
use crate::output_queue::{MessageClass, OutputQueue, pushes_encoded, pushes_message};
use crate::session::codec::{client_message_len, decode_client_message};
use crate::session::spec::{spec_decode_client_message, spec_message_len};
use crate::session::{
    self, ClientMessage, ClientMessageV, Failure, FailureCode, FailureV, MAX_FAILURE_BYTES,
    Metadata, MetadataV, ServerMessage, ServerMessageV,
};
use crate::wire::{lemma_utf8_take, lemma_utf8_take_monotone, string_bytes, utf8, utf8_width};
use vstd::prelude::*;
use vstd::std_specs::iter::IteratorSpec;
use vstd::string::StrSliceExecFns;

verus! {

/// The part a client plays.
#[derive(Clone, Copy, Debug, PartialEq, Eq, Structural)]
pub enum Role {
    /// The client has not named its role yet.
    Pending,
    /// The single interactive attachment.
    Interactive,
    /// The single read-only metadata observation.
    Metadata,
}

/// The role a client asked for.
#[derive(Clone, Copy, Debug, PartialEq, Eq, Structural)]
pub enum Negotiation {
    Interactive,
    Metadata,
}

/// Why a client's input is refused.
#[derive(Clone, Debug, PartialEq, Eq)]
pub enum Refusal {
    /// The input does not frame or decode.
    Invalid(session::Error),
    /// A metadata observer sent a message.
    ObserverInput,
    /// The first message names no role.
    FirstMessage,
    /// A role was named a second time.
    RoleRepeated,
}

/// What the input received so far amounts to.
pub enum Incoming {
    /// The client names its role.
    Negotiate(Negotiation),
    /// One message of an attached client.
    Message(ClientMessage),
    /// More bytes are needed.
    Pending,
    /// The client speaks another revision: drop it without an answer.
    Disconnect,
    /// Refuse the client with a protocol failure, then close it.
    Refuse(Refusal),
}

/// Mathematical model of [`Incoming`].
pub enum IncomingV {
    Negotiate(Negotiation),
    Message(ClientMessageV),
    Pending,
    Disconnect,
    Refuse(Refusal),
}

impl View for Incoming {
    type V = IncomingV;

    open spec fn view(&self) -> IncomingV {
        match self {
            Incoming::Negotiate(n) => IncomingV::Negotiate(*n),
            Incoming::Message(m) => IncomingV::Message(m@),
            Incoming::Pending => IncomingV::Pending,
            Incoming::Disconnect => IncomingV::Disconnect,
            Incoming::Refuse(r) => IncomingV::Refuse(*r),
        }
    }
}

/// What one decoded message means for a client in `role`.
pub open spec fn settle(message: ClientMessageV, role: Role) -> IncomingV {
    if role == Role::Pending {
        match message {
            ClientMessageV::Hello => IncomingV::Negotiate(Negotiation::Interactive),
            ClientMessageV::ObserveMetadata => IncomingV::Negotiate(Negotiation::Metadata),
            _ => IncomingV::Refuse(Refusal::FirstMessage),
        }
    } else {
        match message {
            ClientMessageV::Hello | ClientMessageV::ObserveMetadata => IncomingV::Refuse(
                Refusal::RoleRepeated,
            ),
            _ => IncomingV::Message(message),
        }
    }
}

/// What the received `input` amounts to for a client in `role`, and the
/// input left after it.
pub open spec fn incoming(input: Seq<u8>, role: Role) -> (IncomingV, Seq<u8>) {
    match spec_message_len(input, true) {
        Ok(Some(length)) => if role == Role::Metadata {
            (IncomingV::Refuse(Refusal::ObserverInput), input)
        } else if input.len() < length {
            (IncomingV::Pending, input)
        } else {
            match spec_decode_client_message(input.take(length as int)) {
                Err(e) => (IncomingV::Refuse(Refusal::Invalid(e)), input),
                Ok(m) => (settle(m, role), input.skip(length as int)),
            }
        },
        Ok(None) => (IncomingV::Pending, input),
        Err(session::Error::UnsupportedVersion { .. }) => (IncomingV::Disconnect, input),
        Err(e) => (IncomingV::Refuse(Refusal::Invalid(e)), input),
    }
}

/// A client names its role once: a client still negotiating gets no message
/// delivered, an attached client never negotiates again, and a metadata
/// observer neither negotiates nor gets a message delivered, whatever bytes
/// it sends.
pub proof fn law_roles_are_settled_once(input: Seq<u8>, role: Role)
    ensures
        role == Role::Pending ==> !(incoming(input, role).0 is Message),
        role != Role::Pending ==> !(incoming(input, role).0 is Negotiate),
        role == Role::Metadata ==> !(incoming(input, role).0 is Message),
{
}

/// What is not taken from the input stays in front of it: a step consumes a
/// prefix of the received bytes.
pub proof fn law_input_is_consumed_in_order(input: Seq<u8>, role: Role)
    ensures
        incoming(input, role).1 == input.skip(input.len() - incoming(input, role).1.len()),
{
    let rest = incoming(input, role).1;
    if rest != input {
        assert(rest =~= input.skip(input.len() - rest.len()));
    } else {
        assert(input.skip(0) =~= input);
    }
}

/// `s` without its last characters, until its UTF-8 encoding fits in `max` bytes.
pub open spec fn truncated(s: Seq<char>, max: nat) -> Seq<char>
    decreases s.len(),
{
    if s.len() == 0 || utf8(s).len() <= max {
        s
    } else {
        truncated(s.drop_last(), max)
    }
}

/// A truncated failure detail fits its bound and is a prefix of the detail;
/// a detail that already fits is kept whole.
pub proof fn law_truncated_detail_fits(s: Seq<char>, max: nat)
    ensures
        utf8(truncated(s, max)).len() <= max,
        truncated(s, max).len() <= s.len(),
        truncated(s, max) == s.take(truncated(s, max).len() as int),
        utf8(s).len() <= max ==> truncated(s, max) == s,
    decreases s.len(),
{
    if s.len() == 0 {
        crate::wire::lemma_utf8_empty(s);
        assert(s.take(0) =~= s);
    } else if utf8(s).len() <= max {
        assert(s.take(s.len() as int) =~= s);
    } else {
        law_truncated_detail_fits(s.drop_last(), max);
        let t = truncated(s.drop_last(), max);
        assert(s.drop_last().take(t.len() as int) =~= s.take(t.len() as int));
    }
}

/// The prefix of `k` characters is what truncation keeps when it fits and one
/// more character would not.
proof fn lemma_truncated(s: Seq<char>, max: nat, k: int)
    requires
        0 <= k <= s.len(),
        utf8(s.take(k)).len() <= max,
        k < s.len() ==> utf8(s.take(k + 1)).len() > max,
    ensures
        truncated(s, max) == s.take(k),
    decreases s.len(),
{
    assert(s.take(s.len() as int) =~= s);
    if s.len() == 0 || utf8(s).len() <= max {
        if k < s.len() {
            lemma_utf8_take_monotone(s, k + 1, s.len() as int);
        }
    } else {
        let t = s.drop_last();
        assert(t.take(k) =~= s.take(k));
        if k + 1 <= t.len() {
            assert(t.take(k + 1) =~= s.take(k + 1));
        }
        lemma_truncated(t, max, k);
    }
}

/// How many UTF-8 bytes encode `c`.
fn char_width(c: char) -> (w: usize)
    ensures
        w == utf8_width(c),
{
    let v = c as u32;
    if v <= 0x7f {
        1
    } else if v <= 0x7ff {
        2
    } else if v <= 0xffff {
        3
    } else {
        4
    }
}

/// A failure detail cut to [`MAX_FAILURE_BYTES`] at a character boundary.
pub fn truncate_detail(detail: String) -> (r: String)
    ensures
        r@ == truncated(detail@, MAX_FAILURE_BYTES as nat),
{
    let ghost s = detail@;
    if string_bytes(&detail).len() <= MAX_FAILURE_BYTES {
        proof {
            assert(s.take(s.len() as int) =~= s);
            lemma_truncated(s, MAX_FAILURE_BYTES as nat, s.len() as int);
        }
        return detail;
    }
    let mut chars = detail.as_str().chars();
    let ghost mut idx: int = 0;
    let mut used: usize = 0;
    let mut kept: usize = 0;
    proof {
        assert(s.take(0) =~= Seq::<char>::empty());
        crate::wire::lemma_utf8_empty(s.take(0));
    }
    loop
        invariant_except_break
            chars.remaining() == s.skip(idx),
        invariant
            0 <= idx <= s.len(),
            kept == idx,
            idx <= used,
            used == utf8(s.take(idx)).len(),
            used <= MAX_FAILURE_BYTES,
            s == detail@,
        ensures
            0 <= idx <= s.len(),
            kept == idx,
            used == utf8(s.take(idx)).len(),
            used <= MAX_FAILURE_BYTES,
            idx < s.len() ==> utf8(s.take(idx + 1)).len() > MAX_FAILURE_BYTES,
        decreases s.len() - idx,
    {
        let ghost before = chars.remaining();
        match chars.next() {
            Some(c) => {
                assert(before.len() > 0 && c == before[0]);
                assert(c == s[idx]);
                proof {
                    lemma_utf8_take(s, idx);
                }
                let w = char_width(c);
                if w > MAX_FAILURE_BYTES - used {
                    break;
                }
                used = used + w;
                kept = kept + 1;
                proof {
                    assert(before.drop_first() =~= s.skip(idx + 1));
                    idx = idx + 1;
                }
            },
            None => {
                assert(idx == s.len());
                break;
            },
        }
    }
    proof {
        lemma_truncated(s, MAX_FAILURE_BYTES as nat, idx);
    }
    let prefix = detail.as_str().substring_char(0, kept);
    assert(prefix@ =~= s.take(idx));
    prefix.to_owned()
}

/// Whether a new connection must be answered `Busy`: another client is still
/// negotiating, or both roles are taken.
pub fn busy_for_new_client(has_pending: bool, has_active: bool, has_observer: bool) -> (r: bool)
    ensures
        r == (has_pending || has_active && has_observer),
{
    has_pending || has_active && has_observer
}

/// One client's received input, role, and queued output.
pub struct ClientState {
    input: Vec<u8>,
    output: OutputQueue,
    close_after_flush: bool,
    role: Role,
    initial_frame_pending: bool,
    initial_metadata_pending: bool,
    last_metadata: Option<Metadata>,
}

impl ClientState {
    /// The queued output is well formed.
    pub closed spec fn wf(self) -> bool {
        self.output.wf()
    }

    /// The received bytes not consumed yet.
    pub closed spec fn input(self) -> Seq<u8> {
        self.input@
    }

    /// The queued output.
    pub closed spec fn queue(self) -> OutputQueue {
        self.output
    }

    /// Whether the client closes once its output is written.
    pub closed spec fn closing(self) -> bool {
        self.close_after_flush
    }

    pub closed spec fn role(self) -> Role {
        self.role
    }

    /// Whether the next frame is the first one of the attachment.
    pub closed spec fn initial_frame_pending(self) -> bool {
        self.initial_frame_pending
    }

    /// Whether the next metadata is the first one of the observation.
    pub closed spec fn initial_metadata_pending(self) -> bool {
        self.initial_metadata_pending
    }

    /// The metadata last queued for an observer.
    pub closed spec fn last_metadata(self) -> Option<MetadataV> {
        match self.last_metadata {
            Some(m) => Some(m@),
            None => None,
        }
    }

    /// Role, closing and first-message state are as in `other`.
    pub open spec fn keeps_state(self, other: Self) -> bool {
        &&& self.closing() == other.closing()
        &&& self.role() == other.role()
        &&& self.initial_frame_pending() == other.initial_frame_pending()
        &&& self.initial_metadata_pending() == other.initial_metadata_pending()
        &&& self.last_metadata() == other.last_metadata()
    }

    /// A client that still has to name its role, or one attached directly.
    pub fn new(negotiating: bool) -> (c: Self)
        ensures
            c.wf(),
            c.input() == Seq::<u8>::empty(),
            c.queue().messages().len() == 0,
            c.queue().unsent() == 0,
            c.queue().sent() == 0,
            !c.closing(),
            c.role() == (if negotiating {
                Role::Pending
            } else {
                Role::Interactive
            }),
            !c.initial_frame_pending(),
            !c.initial_metadata_pending(),
            c.last_metadata() is None,
    {
        ClientState {
            input: Vec::new(),
            output: OutputQueue::new(),
            close_after_flush: false,
            role: if negotiating {
                Role::Pending
            } else {
                Role::Interactive
            },
            initial_frame_pending: false,
            initial_metadata_pending: false,
            last_metadata: None,
        }
    }

    /// The queued output.
    pub fn output(&self) -> (r: &OutputQueue)
        ensures
            *r == self.queue(),
    {
        &self.output
    }

    /// Whether the client takes presentation output.
    pub fn accepts_output(&self) -> (r: bool)
        ensures
            r == (self.role() == Role::Interactive && !self.closing()),
    {
        self.role == Role::Interactive && !self.close_after_flush
    }

    /// Whether the client takes metadata.
    pub fn accepts_metadata(&self) -> (r: bool)
        ensures
            r == (self.role() == Role::Metadata && !self.closing()),
    {
        self.role == Role::Metadata && !self.close_after_flush
    }

    /// Whether the client has not named its role yet.
    pub fn is_negotiating(&self) -> (r: bool)
        ensures
            r == (self.role() == Role::Pending),
    {
        self.role == Role::Pending
    }

    pub fn has_input(&self) -> (r: bool)
        ensures
            r == (self.input().len() > 0),
    {
        self.input.len() > 0
    }

    pub fn is_closing(&self) -> (r: bool)
        ensures
            r == self.closing(),
    {
        self.close_after_flush
    }

    /// Whether a closing client has written all its output.
    pub fn finished(&self) -> (r: bool)
        requires
            self.wf(),
        ensures
            r == (self.closing() && self.queue().messages().len() == 0),
    {
        self.close_after_flush && self.output.is_empty()
    }

    /// Append bytes read from the client.
    pub fn receive(&mut self, bytes: &[u8])
        requires
            old(self).wf(),
            old(self).input().len() + bytes@.len() <= usize::MAX,
        ensures
            final(self).wf(),
            final(self).input() == old(self).input() + bytes@,
            final(self).queue() == old(self).queue(),
            final(self).keeps_state(*old(self)),
    {
        self.input.extend_from_slice(bytes);
    }

    /// Take the next complete message from the received input and say what
    /// it means for this client.
    pub fn next_incoming(&mut self) -> (r: Incoming)
        requires
            old(self).wf(),
        ensures
            final(self).wf(),
            (r@, final(self).input()) == incoming(old(self).input(), old(self).role()),
            final(self).queue() == old(self).queue(),
            final(self).keeps_state(*old(self)),
    {
        let length = match client_message_len(self.input.as_slice()) {
            Ok(Some(length)) => {
                if self.role == Role::Metadata {
                    return Incoming::Refuse(Refusal::ObserverInput);
                }
                if self.input.len() < length {
                    return Incoming::Pending;
                }
                length
            },
            Ok(None) => return Incoming::Pending,
            Err(session::Error::UnsupportedVersion { .. }) => return Incoming::Disconnect,
            Err(error) => return Incoming::Refuse(Refusal::Invalid(error)),
        };
        let message = match decode_client_message(
            vstd::slice::slice_subrange(self.input.as_slice(), 0, length),
        ) {
            Ok(message) => message,
            Err(error) => return Incoming::Refuse(Refusal::Invalid(error)),
        };
        let ghost received = self.input@;
        let rest = self.input.split_off(length);
        self.input = rest;
        assert(self.input@ =~= received.skip(length as int));
        if self.role == Role::Pending {
            return match message {
                ClientMessage::Hello => Incoming::Negotiate(Negotiation::Interactive),
                ClientMessage::ObserveMetadata => Incoming::Negotiate(Negotiation::Metadata),
                _ => Incoming::Refuse(Refusal::FirstMessage),
            };
        }
        match message {
            ClientMessage::Hello | ClientMessage::ObserveMetadata => Incoming::Refuse(
                Refusal::RoleRepeated,
            ),
            _ => Incoming::Message(message),
        }
    }

    /// Encode a server message and queue it.
    pub fn push_message(&mut self, message: &ServerMessage) -> (r: session::Result<bool>)
        requires
            old(self).wf(),
        ensures
            final(self).wf(),
            pushes_message(old(self).queue(), final(self).queue(), message@, r),
            final(self).input() == old(self).input(),
            final(self).keeps_state(*old(self)),
    {
        self.output.push_message(message)
    }

    /// Queue a failure whose detail is cut to [`MAX_FAILURE_BYTES`].
    pub fn fail(&mut self, code: FailureCode, detail: String) -> (r: session::Result<bool>)
        requires
            old(self).wf(),
        ensures
            final(self).wf(),
            pushes_message(
                old(self).queue(),
                final(self).queue(),
                ServerMessageV::Failure(
                    FailureV { code, detail: truncated(detail@, MAX_FAILURE_BYTES as nat) },
                ),
                r,
            ),
            final(self).input() == old(self).input(),
            final(self).keeps_state(*old(self)),
    {
        let detail = truncate_detail(detail);
        self.push_message(&ServerMessage::Failure(Failure { code, detail }))
    }

    /// Drop the unread input and close once the output is written.
    pub fn close_when_flushed(&mut self)
        requires
            old(self).wf(),
        ensures
            final(self).wf(),
            final(self).input() == Seq::<u8>::empty(),
            final(self).closing(),
            final(self).queue() == old(self).queue(),
            final(self).role() == old(self).role(),
            final(self).initial_frame_pending() == old(self).initial_frame_pending(),
            final(self).initial_metadata_pending() == old(self).initial_metadata_pending(),
            final(self).last_metadata() == old(self).last_metadata(),
    {
        self.input = Vec::new();
        self.close_after_flush = true;
    }

    /// Refuse the client with a protocol failure and close it: `Pending`
    /// while the failure waits to be written, `Disconnect` when it could not
    /// be queued.
    pub fn reject_protocol(&mut self, detail: String) -> (r: session::Result<Incoming>)
        requires
            old(self).wf(),
        ensures
            final(self).wf(),
            ({
                let failure = ServerMessageV::Failure(
                    FailureV {
                        code: FailureCode::Protocol,
                        detail: truncated(detail@, MAX_FAILURE_BYTES as nat),
                    },
                );
                match session::spec::spec_encode_server_message(failure) {
                    Err(e) => r == Err::<Incoming, session::Error>(e) && final(self).queue().messages()
                        == old(self).queue().messages() && final(self).queue().unsent()
                        == old(self).queue().unsent() && final(self).queue().sent()
                        == old(self).queue().sent() && final(self).input() == old(self).input()
                        && final(self).keeps_state(*old(self)),
                    Ok(_) => {
                        &&& r is Ok
                        &&& exists|pushed: bool|
                            pushes_message(
                                old(self).queue(),
                                final(self).queue(),
                                failure,
                                Ok::<bool, session::Error>(pushed),
                            ) && r->Ok_0@ == (if pushed {
                                IncomingV::Pending
                            } else {
                                IncomingV::Disconnect
                            })
                        &&& final(self).closing()
                        &&& final(self).input() == Seq::<u8>::empty()
                        &&& final(self).role() == old(self).role()
                    },
                }
            }),
    {
        let ghost before = self.queue();
        let ghost failure = ServerMessageV::Failure(
            FailureV {
                code: FailureCode::Protocol,
                detail: truncated(detail@, MAX_FAILURE_BYTES as nat),
            },
        );
        let queued = match self.fail(FailureCode::Protocol, detail) {
            Ok(queued) => queued,
            Err(error) => return Err(error),
        };
        self.close_when_flushed();
        assert(pushes_message(before, self.queue(), failure, Ok::<bool, session::Error>(queued)));
        Ok(
            if queued {
                Incoming::Pending
            } else {
                Incoming::Disconnect
            },
        )
    }

    /// Confirm the interactive attachment; its next frame is the first.
    pub fn begin_interactive(&mut self) -> (r: session::Result<bool>)
        requires
            old(self).wf(),
            old(self).role() == Role::Pending,
        ensures
            final(self).wf(),
            pushes_message(old(self).queue(), final(self).queue(), ServerMessageV::Attached, r),
            final(self).input() == old(self).input(),
            final(self).closing() == old(self).closing(),
            final(self).initial_metadata_pending() == old(self).initial_metadata_pending(),
            final(self).last_metadata() == old(self).last_metadata(),
            r == Ok::<bool, session::Error>(true) ==> final(self).role() == Role::Interactive
                && final(self).initial_frame_pending(),
            r != Ok::<bool, session::Error>(true) ==> final(self).role() == Role::Pending
                && final(self).initial_frame_pending() == old(self).initial_frame_pending(),
    {
        if !self.push_message(&ServerMessage::Attached)? {
            return Ok(false);
        }
        self.role = Role::Interactive;
        self.initial_frame_pending = true;
        Ok(true)
    }

    /// Confirm the metadata observation; its next metadata is the first.
    pub fn begin_metadata(&mut self) -> (r: session::Result<bool>)
        requires
            old(self).wf(),
            old(self).role() == Role::Pending,
        ensures
            final(self).wf(),
            pushes_message(
                old(self).queue(),
                final(self).queue(),
                ServerMessageV::ObservingMetadata,
                r,
            ),
            final(self).input() == old(self).input(),
            final(self).closing() == old(self).closing(),
            final(self).initial_frame_pending() == old(self).initial_frame_pending(),
            final(self).last_metadata() == old(self).last_metadata(),
            r == Ok::<bool, session::Error>(true) ==> final(self).role() == Role::Metadata
                && final(self).initial_metadata_pending(),
            r != Ok::<bool, session::Error>(true) ==> final(self).role() == Role::Pending
                && final(self).initial_metadata_pending() == old(self).initial_metadata_pending(),
    {
        if !self.push_message(&ServerMessage::ObservingMetadata)? {
            return Ok(false);
        }
        self.role = Role::Metadata;
        self.initial_metadata_pending = true;
        Ok(true)
    }

    /// Settle the role a negotiating client asked for: when that role is
    /// `occupied` the client is told `Busy` and closes; otherwise it begins
    /// as asked. The result says whether it began.
    pub fn take_role(&mut self, role: Negotiation, occupied: bool) -> (r: session::Result<bool>)
        requires
            old(self).wf(),
            old(self).role() == Role::Pending,
        ensures
            final(self).wf(),
            occupied && r is Err ==> pushes_message(
                old(self).queue(),
                final(self).queue(),
                ServerMessageV::Busy,
                r,
            ),
            occupied && r is Ok ==> r == Ok::<bool, session::Error>(false) && final(self).closing()
                && final(self).input() == Seq::<u8>::empty() && final(self).role() == Role::Pending
                && exists|pushed: bool|
                pushes_message(
                    old(self).queue(),
                    final(self).queue(),
                    ServerMessageV::Busy,
                    Ok::<bool, session::Error>(pushed),
                ),
            !occupied ==> pushes_message(
                old(self).queue(),
                final(self).queue(),
                match role {
                    Negotiation::Interactive => ServerMessageV::Attached,
                    Negotiation::Metadata => ServerMessageV::ObservingMetadata,
                },
                r,
            ) && final(self).input() == old(self).input() && final(self).closing() == old(self).closing(),
            !occupied && r == Ok::<bool, session::Error>(true) ==> final(self).role() == (match role {
                Negotiation::Interactive => Role::Interactive,
                Negotiation::Metadata => Role::Metadata,
            }),
            !occupied && r == Ok::<bool, session::Error>(true) && role == Negotiation::Interactive
                ==> final(self).initial_frame_pending(),
            !occupied && r == Ok::<bool, session::Error>(true) && role == Negotiation::Metadata
                ==> final(self).initial_metadata_pending(),
            !occupied && r != Ok::<bool, session::Error>(true) ==> final(self).role()
                == Role::Pending,
    {
        if occupied {
            let ghost before = self.queue();
            let pushed = match self.push_message(&ServerMessage::Busy) {
                Ok(pushed) => pushed,
                Err(error) => return Err(error),
            };
            self.close_when_flushed();
            assert(pushes_message(before, self.queue(), ServerMessageV::Busy, Ok::<bool, session::Error>(pushed)));
            return Ok(false);
        }
        match role {
            Negotiation::Interactive => self.begin_interactive(),
            Negotiation::Metadata => self.begin_metadata(),
        }
    }

    /// Queue a frame: the first one of the attachment in order, later ones in
    /// place of stale previews and frames.
    pub fn push_frame(&mut self, frame: Frame) -> (r: session::Result<bool>)
        requires
            old(self).wf(),
        ensures
            final(self).wf(),
            pushes_encoded(
                old(self).queue(),
                final(self).queue(),
                ServerMessageV::Frame(frame@),
                if old(self).initial_frame_pending() {
                    MessageClass::Ordered
                } else {
                    MessageClass::Frame
                },
                r,
            ),
            final(self).initial_frame_pending() == (old(self).initial_frame_pending() && r
                != Ok::<bool, session::Error>(true)),
            final(self).input() == old(self).input(),
            final(self).closing() == old(self).closing(),
            final(self).role() == old(self).role(),
            final(self).initial_metadata_pending() == old(self).initial_metadata_pending(),
            final(self).last_metadata() == old(self).last_metadata(),
    {
        let queued = if self.initial_frame_pending {
            self.output.push_initial_frame(frame)
        } else {
            self.output.push_frame(frame)
        }?;
        if queued {
            self.initial_frame_pending = false;
        }
        Ok(queued)
    }

    /// Queue metadata for an observer unless its title and working directory
    /// repeat the last queued ones; the first is queued in order, later ones
    /// in place of stale metadata.
    pub fn push_metadata(&mut self, metadata: Metadata) -> (r: session::Result<bool>)
        requires
            old(self).wf(),
        ensures
            final(self).wf(),
            final(self).input() == old(self).input(),
            final(self).closing() == old(self).closing(),
            final(self).role() == old(self).role(),
            final(self).initial_frame_pending() == old(self).initial_frame_pending(),
            ({
                let repeated = old(self).last_metadata() matches Some(previous) && previous.title
                    == metadata@.title && previous.working_directory
                    == metadata@.working_directory;
                &&& repeated ==> r == Ok::<bool, session::Error>(true) && final(self).queue()
                    == old(self).queue() && final(self).keeps_state(*old(self))
                &&& !repeated ==> pushes_encoded(
                    old(self).queue(),
                    final(self).queue(),
                    ServerMessageV::Metadata(metadata@),
                    if old(self).initial_metadata_pending() {
                        MessageClass::Ordered
                    } else {
                        MessageClass::Metadata
                    },
                    r,
                )
                &&& !repeated && r == Ok::<bool, session::Error>(true)
                    ==> !final(self).initial_metadata_pending()
                    && final(self).last_metadata() == Some(metadata@)
                &&& !repeated && r != Ok::<bool, session::Error>(true)
                    ==> final(self).initial_metadata_pending() == old(self).initial_metadata_pending()
                    && final(self).last_metadata() == old(self).last_metadata()
            }),
    {
        let repeated = match &self.last_metadata {
            Some(previous) => previous.title == metadata.title && previous.working_directory
                == metadata.working_directory,
            None => false,
        };
        if repeated {
            return Ok(true);
        }
        let queued = if self.initial_metadata_pending {
            self.output.push_initial_metadata(&metadata)
        } else {
            let copy = Metadata {
                revision: metadata.revision,
                title: metadata.title.clone(),
                working_directory: metadata.working_directory.clone(),
            };
            self.output.push_message(&ServerMessage::Metadata(copy))
        }?;
        if queued {
            self.initial_metadata_pending = false;
            self.last_metadata = Some(metadata);
        }
        Ok(queued)
    }

    /// At the end of the session, queue `Exited` for an attached client that
    /// is not already closing; the result says whether to write out the
    /// queued output, which a client still negotiating never gets.
    pub fn finish_session(&mut self, code: i32) -> (r: session::Result<bool>)
        requires
            old(self).wf(),
        ensures
            final(self).wf(),
            final(self).input() == old(self).input(),
            final(self).keeps_state(*old(self)),
            old(self).role() == Role::Pending ==> r == Ok::<bool, session::Error>(false)
                && final(self).queue() == old(self).queue(),
            old(self).role() != Role::Pending && old(self).closing() ==> r == Ok::<
                bool,
                session::Error,
            >(true) && final(self).queue() == old(self).queue(),
            old(self).role() != Role::Pending && !old(self).closing() ==> (match r {
                Ok(flush) => flush && exists|pushed: bool|
                    pushes_message(
                        old(self).queue(),
                        final(self).queue(),
                        ServerMessageV::Exited { code },
                        Ok::<bool, session::Error>(pushed),
                    ),
                Err(e) => pushes_message(
                    old(self).queue(),
                    final(self).queue(),
                    ServerMessageV::Exited { code },
                    Err::<bool, session::Error>(e),
                ),
            }),
    {
        if self.role == Role::Pending {
            return Ok(false);
        }
        if !self.close_after_flush {
            let _ = self.push_message(&ServerMessage::Exited { code })?;
        }
        Ok(true)
    }
}

} // verus!
