//! Bounded per-client output of encoded session messages.
//!
//! Ordered messages are kept in order; a newer preview, frame, scroll outcome
//! or metadata message replaces the stale replaceable messages queued behind
//! the last ordered one, so a slow client receives the latest state instead
//! of every intermediate one. A message whose first bytes were already sent
//! is never replaced.

use crate::frame::{Frame, MAX_FRAME_BYTES};
use crate::session::{
    self, HEADER_BYTES, MAX_COPY_BYTES, MAX_PAYLOAD_BYTES, Metadata, ScrollOutcome, ServerMessage,
    WheelOutcome,
};
use vstd::prelude::*;

verus! {

/// Largest number of unsent bytes held for one client.
pub const MAX_OUTPUT_BYTES: usize = 2 * (MAX_FRAME_BYTES + HEADER_BYTES) + 4096;

/// How a queued message relates to the ones behind it.
#[derive(Clone, Copy, Debug, PartialEq, Eq, Structural)]
pub enum MessageClass {
    Ordered,
    Preview,
    Frame,
    ScrollOutcome,
    Metadata,
}

/// One encoded message and its class.
pub struct Message {
    pub bytes: Vec<u8>,
    pub class: MessageClass,
}

/// Whether a newer message of `class` replaces a queued message of class `back`.
pub open spec fn replaceable(class: MessageClass, back: MessageClass) -> bool {
    match class {
        MessageClass::Ordered => false,
        MessageClass::Preview => back == MessageClass::Preview,
        MessageClass::Frame | MessageClass::ScrollOutcome => back == MessageClass::Preview || back
            == MessageClass::Frame,
        MessageClass::Metadata => back == MessageClass::Metadata,
    }
}

/// The total length of the queued messages.
pub open spec fn total(ms: Seq<Message>) -> nat
    decreases ms.len(),
{
    if ms.len() == 0 {
        0
    } else {
        total(ms.drop_last()) + ms.last().bytes@.len()
    }
}

/// How many messages at the back a message of `class` replaces, and their
/// total length. Only one preview is replaced at a time, and the front message
/// is kept once its first bytes were sent.
pub open spec fn suffix(ms: Seq<Message>, offset: nat, class: MessageClass) -> (nat, nat)
    decreases ms.len(),
{
    if ms.len() == 0 {
        (0, 0)
    } else if !replaceable(class, ms.last().class) || (ms.len() == 1 && offset != 0) {
        (0, 0)
    } else if class == MessageClass::Preview {
        (1, ms.last().bytes@.len())
    } else {
        let (c, b) = suffix(ms.drop_last(), offset, class);
        (c + 1, b + ms.last().bytes@.len())
    }
}

pub proof fn lemma_total_take(ms: Seq<Message>, n: int)
    requires
        0 <= n <= ms.len(),
    ensures
        total(ms.take(n)) <= total(ms),
    decreases ms.len(),
{
    if n < ms.len() {
        assert(ms.drop_last().take(n) =~= ms.take(n));
        lemma_total_take(ms.drop_last(), n);
    } else {
        assert(ms.take(n) =~= ms);
    }
}

pub proof fn lemma_total_front(ms: Seq<Message>)
    requires
        ms.len() > 0,
    ensures
        total(ms) == ms[0].bytes@.len() + total(ms.drop_first()),
    decreases ms.len(),
{
    if ms.len() == 1 {
        assert(ms.drop_first() =~= Seq::<Message>::empty());
        assert(ms.drop_last() =~= Seq::<Message>::empty());
    } else {
        lemma_total_front(ms.drop_last());
        assert(ms.drop_last().drop_first() =~= ms.drop_first().drop_last());
    }
}

/// The replaced messages are exactly the last `c` ones, they are all
/// replaceable by `class`, their length is `b`, and they never include a
/// partially sent front message.
pub proof fn lemma_suffix(ms: Seq<Message>, offset: nat, class: MessageClass)
    requires
        ms.len() > 0 ==> offset <= ms[0].bytes@.len(),
        ms.len() == 0 ==> offset == 0,
    ensures
        ({
            let (c, b) = suffix(ms, offset, class);
            &&& c <= ms.len()
            &&& b == total(ms) - total(ms.take(ms.len() - c))
            &&& b <= total(ms) - offset
            &&& forall|i: int| ms.len() - c <= i < ms.len() ==> replaceable(class, #[trigger] ms[i].class)
            &&& (offset != 0 ==> c < ms.len() || ms.len() == 0)
            &&& (class == MessageClass::Preview ==> c <= 1)
            &&& (class == MessageClass::Ordered ==> c == 0)
        }),
    decreases ms.len(),
{
    if ms.len() == 0 {
        assert(ms.take(0) =~= ms);
    } else {
        let init = ms.drop_last();
        let last = ms.last();
        assert(init =~= ms.take(ms.len() - 1));
        lemma_total_front(ms);
        if init.len() > 0 {
            assert(init[0] == ms[0]);
            lemma_total_front(init);
        }
        if !replaceable(class, last.class) || (ms.len() == 1 && offset != 0) {
            assert(ms.take(ms.len() as int) =~= ms);
        } else if class == MessageClass::Preview {
            assert(total(ms) == total(init) + last.bytes@.len());
        } else {
            lemma_suffix(init, offset, class);
            let (c1, b1) = suffix(init, offset, class);
            assert(init.take(init.len() - c1) =~= ms.take(ms.len() - (c1 + 1)));
            assert(total(ms) == total(init) + last.bytes@.len());
            assert forall|i: int| ms.len() - (c1 + 1) <= i < ms.len() implies replaceable(
                class,
                #[trigger] ms[i].class,
            ) by {
                if i < ms.len() - 1 {
                    assert(ms[i] == init[i]);
                }
            }
        }
    }
}

/// A message of `class` replaces the longest run at the back of the queue
/// that it may replace: the message just before the run is one it may not
/// replace, or the partly sent front message, unless the run is the single
/// preview that a preview replaces.
pub proof fn law_replaced_run_is_longest(ms: Seq<Message>, offset: nat, class: MessageClass)
    requires
        ms.len() > 0 ==> offset <= ms[0].bytes@.len(),
        ms.len() == 0 ==> offset == 0,
    ensures
        ({
            let (c, b) = suffix(ms, offset, class);
            let k = ms.len() - c - 1;
            &&& forall|i: int| ms.len() - c <= i < ms.len() ==> replaceable(class, #[trigger] ms[i].class)
            &&& b == total(ms) - total(ms.take(ms.len() - c))
            &&& c < ms.len() && !(class == MessageClass::Preview && c == 1) ==> !replaceable(
                class,
                ms[k].class,
            ) || (k == 0 && offset != 0)
        }),
    decreases ms.len(),
{
    lemma_suffix(ms, offset, class);
    if ms.len() > 0 {
        let init = ms.drop_last();
        if replaceable(class, ms.last().class) && !(ms.len() == 1 && offset != 0) && class
            != MessageClass::Preview {
            if init.len() > 0 {
                assert(init[0] == ms[0]);
            }
            law_replaced_run_is_longest(init, offset, class);
            let (c1, _) = suffix(init, offset, class);
            if c1 < init.len() {
                assert(ms[init.len() - c1 - 1] == init[init.len() - c1 - 1]);
            }
        }
    }
}

/// Encoded messages waiting to be written to one client.
pub struct OutputQueue {
    messages: std::collections::VecDeque<Message>,
    offset: usize,
    bytes: usize,
}

impl OutputQueue {
    /// The unsent byte count is the queued bytes minus those already written,
    /// within [`MAX_OUTPUT_BYTES`], and only the front message is partly written.
    pub closed spec fn wf(self) -> bool {
        &&& self.messages@.len() == 0 ==> self.offset == 0
        &&& self.messages@.len() > 0 ==> self.offset <= self.messages@[0].bytes@.len()
        &&& self.bytes + self.offset == total(self.messages@)
        &&& self.bytes <= MAX_OUTPUT_BYTES
    }

    /// The queued messages, oldest first.
    pub closed spec fn messages(self) -> Seq<Message> {
        self.messages@
    }

    /// How many bytes of the front message were already written.
    pub closed spec fn sent(self) -> nat {
        self.offset as nat
    }

    /// How many queued bytes are not written yet.
    pub closed spec fn unsent(self) -> nat {
        self.bytes as nat
    }

    /// The number of unsent bytes.
    pub fn unsent_bytes(&self) -> (r: usize)
        requires
            self.wf(),
        ensures
            r == self.unsent(),
            self.unsent() + self.sent() == total(self.messages()),
            r <= MAX_OUTPUT_BYTES,
    {
        self.bytes
    }

    pub fn new() -> (q: OutputQueue)
        ensures
            q.wf(),
            q.messages().len() == 0,
            q.sent() == 0,
            q.unsent() == 0,
    {
        OutputQueue { messages: std::collections::VecDeque::new(), offset: 0, bytes: 0 }
    }

    /// Room for a frame result, which takes a frame and two headers.
    pub fn can_push_result_frame(&self) -> (r: bool)
        requires
            self.wf(),
        ensures
            r == (self.unsent() + MAX_FRAME_BYTES + 2 * HEADER_BYTES <= MAX_OUTPUT_BYTES),
    {
        self.bytes + (MAX_FRAME_BYTES + 2 * HEADER_BYTES) <= MAX_OUTPUT_BYTES
    }

    /// Room for a selection result: a frame, copied text and three headers.
    pub fn can_push_selection_result(&self) -> (r: bool)
        requires
            self.wf(),
        ensures
            r == (self.unsent() + MAX_FRAME_BYTES + MAX_COPY_BYTES + 9 + 3 * HEADER_BYTES
                <= MAX_OUTPUT_BYTES),
    {
        self.bytes + (MAX_FRAME_BYTES + MAX_COPY_BYTES + 9 + 3 * HEADER_BYTES) <= MAX_OUTPUT_BYTES
    }

    /// Room for a frame message once the stale replaceable ones are dropped.
    pub fn can_push_frame_message(&self) -> (r: bool)
        requires
            self.wf(),
        ensures
            r == (self.unsent() - suffix(self.messages(), self.sent(), MessageClass::Frame).1
                + MAX_FRAME_BYTES + HEADER_BYTES <= MAX_OUTPUT_BYTES),
    {
        let (_, removed) = self.replaceable_suffix(MessageClass::Frame);
        (self.bytes - removed) + (MAX_FRAME_BYTES + HEADER_BYTES) <= MAX_OUTPUT_BYTES
    }

    /// Room for a scroll outcome once the stale replaceable ones are dropped.
    pub fn can_push_scroll_outcome(&self) -> (r: bool)
        requires
            self.wf(),
        ensures
            r == (self.unsent() - suffix(self.messages(), self.sent(), MessageClass::ScrollOutcome).1
                + MAX_PAYLOAD_BYTES + HEADER_BYTES <= MAX_OUTPUT_BYTES),
    {
        let (_, removed) = self.replaceable_suffix(MessageClass::ScrollOutcome);
        (self.bytes - removed) + (MAX_PAYLOAD_BYTES + HEADER_BYTES) <= MAX_OUTPUT_BYTES
    }

    /// Room for one more encoded server message, without replacing any.
    pub fn can_push_message(&self, message: &ServerMessage) -> (r: session::Result<bool>)
        requires
            self.wf(),
        ensures
            match session::spec::spec_encode_server_message(message@) {
                Err(e) => r == Err::<bool, session::Error>(e),
                Ok(b) => r == Ok::<bool, session::Error>(self.unsent() + b.len() <= MAX_OUTPUT_BYTES),
            },
    {
        let bytes = session::encode_server_message(message)?;
        Ok(bytes.len() <= MAX_OUTPUT_BYTES - self.bytes)
    }

    /// How many messages at the back a message of `class` replaces, and
    /// their total length.
    pub fn replaceable_suffix(&self, class: MessageClass) -> (r: (usize, usize))
        requires
            self.wf(),
        ensures
            r.0 == suffix(self.messages(), self.sent(), class).0,
            r.1 == suffix(self.messages(), self.sent(), class).1,
            r.1 <= self.unsent(),
            r.0 <= self.messages().len(),
    {
        proof {
            lemma_suffix(self.messages@, self.offset as nat, class);
        }
        let ghost ms = self.messages@;
        let n = self.messages.len();
        let mut remove: usize = 0;
        let mut removed_bytes: usize = 0;
        assert(ms.take(n as int) =~= ms);
        while remove < n
            invariant_except_break
                n == ms.len(),
                ms == self.messages@,
                remove <= n,
                remove == 0 || class != MessageClass::Preview,
                suffix(ms, self.offset as nat, class).0 == suffix(ms.take(n - remove), self.offset as nat, class).0 + remove,
                suffix(ms, self.offset as nat, class).1 == suffix(ms.take(n - remove), self.offset as nat, class).1 + removed_bytes,
                suffix(ms, self.offset as nat, class).1 <= self.bytes,
            ensures
                remove == suffix(ms, self.offset as nat, class).0,
                removed_bytes == suffix(ms, self.offset as nat, class).1,
            decreases n - remove,
        {
            let index = n - 1 - remove;
            let back = &self.messages[index];
            let ghost prefix = ms.take(n - remove);
            assert(prefix.last() == ms[index as int]);
            assert(prefix.drop_last() =~= ms.take(n - remove - 1));
            let keeps = match class {
                MessageClass::Ordered => false,
                MessageClass::Preview => match back.class {
                    MessageClass::Preview => true,
                    _ => false,
                },
                MessageClass::Frame | MessageClass::ScrollOutcome => match back.class {
                    MessageClass::Preview | MessageClass::Frame => true,
                    _ => false,
                },
                MessageClass::Metadata => match back.class {
                    MessageClass::Metadata => true,
                    _ => false,
                },
            };
            if !keeps || (index == 0 && self.offset != 0) {
                assert(suffix(prefix, self.offset as nat, class) == (0nat, 0nat));
                break;
            }
            if let MessageClass::Preview = class {
                assert(remove == 0 && prefix =~= ms);
                remove += 1;
                removed_bytes += back.bytes.len();
                break;
            }
            remove += 1;
            removed_bytes += back.bytes.len();
        }
        if remove == n {
            assert(ms.take(0) =~= Seq::<Message>::empty());
        }
        (remove, removed_bytes)
    }

    /// Queue a message at the back if it fits.
    pub fn push(&mut self, bytes: Vec<u8>, class: MessageClass) -> (r: bool)
        requires
            old(self).wf(),
        ensures
            final(self).wf(),
            r == (old(self).unsent() + bytes@.len() <= MAX_OUTPUT_BYTES),
            r ==> final(self).messages() == old(self).messages().push(Message { bytes, class })
                && final(self).sent() == old(self).sent()
                && final(self).unsent() == old(self).unsent() + bytes@.len(),
            !r ==> final(self).messages() == old(self).messages() && final(self).sent()
                == old(self).sent() && final(self).unsent() == old(self).unsent(),
    {
        if bytes.len() > MAX_OUTPUT_BYTES - self.bytes {
            return false;
        }
        let ghost before = self.messages@;
        self.bytes = self.bytes + bytes.len();
        self.messages.push_back(Message { bytes, class });
        proof {
            assert(self.messages@.drop_last() =~= before);
            if before.len() > 0 {
                assert(self.messages@[0] == before[0]);
            }
        }
        true
    }

    /// Queue a message of `class`, first dropping the stale messages it
    /// replaces; nothing changes when the result would not fit.
    pub fn push_replaceable(&mut self, message: Vec<u8>, class: MessageClass) -> (r: bool)
        requires
            old(self).wf(),
        ensures
            final(self).wf(),
            ({
                let (c, b) = suffix(old(self).messages(), old(self).sent(), class);
                let kept = old(self).messages().take(old(self).messages().len() - c);
                &&& r == (old(self).unsent() - b + message@.len() <= MAX_OUTPUT_BYTES)
                &&& r ==> final(self).messages() == kept.push(Message { bytes: message, class })
                    && final(self).sent() == old(self).sent()
                    && final(self).unsent() == old(self).unsent() - b + message@.len()
                &&& !r ==> final(self).messages() == old(self).messages()
                    && final(self).sent() == old(self).sent()
                    && final(self).unsent() == old(self).unsent()
            }),
    {
        proof {
            lemma_suffix(self.messages@, self.offset as nat, class);
        }
        let (remove, removed_bytes) = self.replaceable_suffix(class);
        if message.len() > MAX_OUTPUT_BYTES - (self.bytes - removed_bytes) {
            return false;
        }
        let ghost ms = self.messages@;
        let ghost offset = self.offset;
        let mut i: usize = 0;
        while i < remove
            invariant
                ms.len() >= remove,
                i <= remove,
                self.messages@ == ms.take(ms.len() - i),
                self.offset == offset,
                self.bytes + offset == total(self.messages@),
                self.bytes + offset >= total(ms.take(ms.len() - remove)),
                (offset != 0 ==> ms.len() - remove >= 1),
                ms.len() > 0 ==> offset <= ms[0].bytes@.len(),
            decreases remove - i,
        {
            let ghost cur = self.messages@;
            match self.messages.pop_back() {
                Some(previous) => {
                    proof {
                        assert(cur.drop_last() =~= ms.take(ms.len() - i - 1));
                        lemma_total_take(cur.drop_last(), ms.len() - remove);
                        assert(cur.drop_last().take(ms.len() - remove) =~= ms.take(ms.len() - remove));
                        if offset != 0 {
                            let k = ms.take(ms.len() - remove);
                            lemma_total_front(k);
                            assert(k[0] == ms[0]);
                        }
                    }
                    self.bytes = self.bytes - previous.bytes.len();
                },
                None => {},
            }
            i += 1;
        }
        proof {
            lemma_suffix(ms, offset as nat, class);
            if ms.len() - remove > 0 {
                assert(self.messages@[0] == ms[0]);
            }
        }
        self.push(message, class)
    }

    /// Encode a server message and queue it; previews, wheel viewport
    /// frames, viewport scroll outcomes and metadata replace stale ones.
    pub fn push_message(&mut self, message: &ServerMessage) -> (r: session::Result<bool>)
        requires
            old(self).wf(),
        ensures
            final(self).wf(),
            pushes_message(*old(self), *final(self), message@, r),
    {
        let class = match message {
            ServerMessage::VerticalPreview(_) => MessageClass::Preview,
            ServerMessage::WheelOutcome(WheelOutcome::Viewport { .. }) => MessageClass::Frame,
            ServerMessage::ScrollOutcome(ScrollOutcome::Viewport { .. }) => MessageClass::ScrollOutcome,
            ServerMessage::Metadata(_) => MessageClass::Metadata,
            _ => MessageClass::Ordered,
        };
        let bytes = session::encode_server_message(message)?;
        let ghost messages = self.messages();
        let ghost sent = self.sent();
        let pushed = self.push_replaceable(bytes, class);
        proof {
            let kept = messages.take(messages.len() - suffix(messages, sent, class).0);
            if pushed {
                assert(self.messages().take(kept.len() as int) =~= kept);
            }
        }
        Ok(pushed)
    }

    /// Encode the first frame of an attachment and queue it in order.
    pub fn push_initial_frame(&mut self, frame: Frame) -> (r: session::Result<bool>)
        requires
            old(self).wf(),
        ensures
            final(self).wf(),
            pushes_encoded(
                *old(self),
                *final(self),
                session::ServerMessageV::Frame(frame@),
                MessageClass::Ordered,
                r,
            ),
    {
        let bytes = session::encode_server_message(&ServerMessage::Frame(Box::new(frame)))?;
        Ok(self.push_in_order(bytes))
    }

    /// Encode a newer frame and queue it in place of stale previews and frames.
    pub fn push_frame(&mut self, frame: Frame) -> (r: session::Result<bool>)
        requires
            old(self).wf(),
        ensures
            final(self).wf(),
            pushes_encoded(
                *old(self),
                *final(self),
                session::ServerMessageV::Frame(frame@),
                MessageClass::Frame,
                r,
            ),
    {
        let message = session::encode_server_message(&ServerMessage::Frame(Box::new(frame)))?;
        let ghost messages = self.messages();
        let ghost sent = self.sent();
        let pushed = self.push_replaceable(message, MessageClass::Frame);
        proof {
            let kept = messages.take(messages.len() - suffix(messages, sent, MessageClass::Frame).0);
            if pushed {
                assert(self.messages().take(kept.len() as int) =~= kept);
            }
        }
        Ok(pushed)
    }

    /// Encode the first metadata observation and queue it in order.
    pub fn push_initial_metadata(&mut self, metadata: &Metadata) -> (r: session::Result<bool>)
        requires
            old(self).wf(),
        ensures
            final(self).wf(),
            pushes_encoded(
                *old(self),
                *final(self),
                session::ServerMessageV::Metadata(metadata@),
                MessageClass::Ordered,
                r,
            ),
    {
        let copy = Metadata {
            revision: metadata.revision,
            title: metadata.title.clone(),
            working_directory: metadata.working_directory.clone(),
        };
        let message = ServerMessage::Metadata(copy);
        let bytes = session::encode_server_message(&message)?;
        Ok(self.push_in_order(bytes))
    }

    /// Queue an ordered message; it replaces nothing.
    fn push_in_order(&mut self, bytes: Vec<u8>) -> (r: bool)
        requires
            old(self).wf(),
        ensures
            final(self).wf(),
            ({
                let (c, removed) = suffix(old(self).messages(), old(self).sent(), MessageClass::Ordered);
                let kept = old(self).messages().take(old(self).messages().len() - c);
                &&& r == (old(self).unsent() - removed + bytes@.len() <= MAX_OUTPUT_BYTES)
                &&& r ==> final(self).unsent() == old(self).unsent() - removed + bytes@.len()
                    && final(self).messages().len() == kept.len() + 1
                    && final(self).messages().take(kept.len() as int) == kept
                    && final(self).messages().last().bytes@ == bytes@
                    && final(self).messages().last().class == MessageClass::Ordered
                    && final(self).sent() == old(self).sent()
                &&& !r ==> final(self).messages() == old(self).messages()
                    && final(self).unsent() == old(self).unsent() && final(self).sent() == old(self).sent()
            }),
    {
        proof {
            lemma_suffix(self.messages@, self.offset as nat, MessageClass::Ordered);
        }
        let ghost messages = self.messages();
        let pushed = self.push(bytes, MessageClass::Ordered);
        proof {
            assert(messages.take(messages.len() as int) =~= messages);
            if pushed {
                assert(self.messages().take(messages.len() as int) =~= messages);
            }
        }
        pushed
    }

    /// The number of queued messages.
    pub fn len(&self) -> (r: usize)
        requires
            self.wf(),
        ensures
            r == self.messages().len(),
    {
        self.messages.len()
    }

    /// The queued message at `index`, oldest first.
    pub fn message(&self, index: usize) -> (r: &Message)
        requires
            self.wf(),
            index < self.messages().len(),
        ensures
            *r == self.messages()[index as int],
    {
        &self.messages[index]
    }

    pub fn is_empty(&self) -> (r: bool)
        requires
            self.wf(),
        ensures
            r == (self.messages().len() == 0),
    {
        self.messages.len() == 0
    }

    /// The unsent bytes of the front message, if any.
    pub fn front_unsent(&self) -> (r: Option<&[u8]>)
        requires
            self.wf(),
        ensures
            match r {
                Some(s) => self.messages().len() > 0 && s@ == self.messages()[0].bytes@.skip(
                    self.sent() as int,
                ),
                None => self.messages().len() == 0,
            },
    {
        if self.messages.len() == 0 {
            return None;
        }
        let front = &self.messages[0];
        let s = vstd::slice::slice_subrange(front.bytes.as_slice(), self.offset, front.bytes.len());
        assert(s@ =~= self.messages@[0].bytes@.skip(self.offset as int));
        Some(s)
    }

    /// Record that `written` more bytes of the front message were written;
    /// a completely written message leaves the queue.
    pub fn advance(&mut self, written: usize)
        requires
            old(self).wf(),
            old(self).messages().len() > 0,
            old(self).sent() + written <= old(self).messages()[0].bytes@.len(),
        ensures
            final(self).wf(),
            final(self).unsent() == old(self).unsent() - written,
            old(self).sent() + written == old(self).messages()[0].bytes@.len() ==> final(self).messages()
                == old(self).messages().drop_first() && final(self).sent() == 0,
            old(self).sent() + written < old(self).messages()[0].bytes@.len() ==> final(self).messages()
                == old(self).messages() && final(self).sent() == old(self).sent() + written,
    {
        proof {
            lemma_total_front(self.messages@);
        }
        let front_len = self.messages[0].bytes.len();
        let offset = self.offset + written;
        self.bytes = self.bytes - written;
        if offset == front_len {
            let ghost before = self.messages@;
            let _ = self.messages.pop_front();
            proof {
                assert(self.messages@ =~= before.drop_first());
            }
            self.offset = 0;
        } else {
            self.offset = offset;
        }
    }
}

impl Default for OutputQueue {
    fn default() -> (q: OutputQueue)
        ensures
            q.wf(),
            q.messages().len() == 0,
            q.sent() == 0,
            q.unsent() == 0,
    {
        OutputQueue::new()
    }
}

/// How queueing `message` with `class` changes the queue: an encoding error
/// leaves it unchanged; otherwise the encoded message replaces the stale
/// suffix of `class` when the result fits, and nothing changes when it does not.
pub open spec fn pushes_encoded(
    before: OutputQueue,
    after: OutputQueue,
    message: session::ServerMessageV,
    class: MessageClass,
    r: session::Result<bool>,
) -> bool {
    match session::spec::spec_encode_server_message(message) {
        Err(e) => r == Err::<bool, session::Error>(e) && after.messages() == before.messages()
            && after.unsent() == before.unsent() && after.sent() == before.sent(),
        Ok(b) => r matches Ok(pushed) && ({
            let (c, removed) = suffix(before.messages(), before.sent(), class);
            let kept = before.messages().take(before.messages().len() - c);
            &&& pushed == (before.unsent() - removed + b.len() <= MAX_OUTPUT_BYTES)
            &&& pushed ==> after.unsent() == before.unsent() - removed + b.len()
                && after.messages().len() == kept.len() + 1
                && after.messages().take(kept.len() as int) == kept
                && after.messages().last().bytes@ == b
                && after.messages().last().class == class
                && after.sent() == before.sent()
            &&& !pushed ==> after.messages() == before.messages()
                && after.unsent() == before.unsent() && after.sent() == before.sent()
        }),
    }
}

/// How queueing `message` with its own class changes the queue.
pub open spec fn pushes_message(
    before: OutputQueue,
    after: OutputQueue,
    message: session::ServerMessageV,
    r: session::Result<bool>,
) -> bool {
    pushes_encoded(before, after, message, class_of(message), r)
}

/// A newer vertical preview takes the place of a stale preview at the back of
/// the queue whose bytes have not started to go out: the queue keeps its
/// length, the messages before it stay, and the new preview is last.
pub proof fn law_newer_preview_replaces_stale_preview(
    before: OutputQueue,
    after: OutputQueue,
    message: session::ServerMessageV,
)
    requires
        message is VerticalPreview,
        pushes_message(before, after, message, Ok(true)),
        before.messages().len() > 0,
        before.messages().last().class == MessageClass::Preview,
        before.messages().len() > 1 || before.sent() == 0,
    ensures
        after.messages().len() == before.messages().len(),
        after.messages().take(before.messages().len() - 1) == before.messages().take(
            before.messages().len() - 1,
        ),
        after.messages().last().class == MessageClass::Preview,
        after.messages().last().bytes@ == session::spec::spec_encode_server_message(message)->Ok_0,
{
}

/// Messages other than previews, viewport wheel and scroll outcomes, and
/// metadata are never replaced and never replace anything: queueing one
/// keeps every queued message and adds it at the back.
pub proof fn law_ordered_messages_are_appended(
    before: OutputQueue,
    after: OutputQueue,
    message: session::ServerMessageV,
)
    requires
        !(message is VerticalPreview),
        !(message is Metadata),
        !(message matches session::ServerMessageV::WheelOutcome(
            session::WheelOutcomeV::Viewport { .. },
        )),
        !(message matches session::ServerMessageV::ScrollOutcome(
            session::ScrollOutcomeV::Viewport { .. },
        )),
        pushes_message(before, after, message, Ok(true)),
    ensures
        after.messages().len() == before.messages().len() + 1,
        after.messages().take(before.messages().len() as int) == before.messages(),
        after.messages().last().class == MessageClass::Ordered,
{
    assert(before.messages().take(before.messages().len() as int) =~= before.messages());
}

/// Newer metadata takes the place of the stale metadata at the back of the
/// queue, and a viewport wheel or scroll outcome takes the place of a stale
/// preview or frame there, when that message has not started to go out: the
/// queue does not grow, and the new message is last with its own class.
pub proof fn law_newer_state_replaces_stale_state(
    before: OutputQueue,
    after: OutputQueue,
    message: session::ServerMessageV,
)
    requires
        before.wf(),
        pushes_message(before, after, message, Ok(true)),
        before.messages().len() > 1 || (before.messages().len() == 1 && before.sent() == 0),
        (message is Metadata && before.messages().last().class == MessageClass::Metadata)
            || ((message matches session::ServerMessageV::WheelOutcome(
            session::WheelOutcomeV::Viewport { .. },
        ) || message matches session::ServerMessageV::ScrollOutcome(
            session::ScrollOutcomeV::Viewport { .. },
        )) && (before.messages().last().class == MessageClass::Preview
            || before.messages().last().class == MessageClass::Frame)),
    ensures
        after.messages().len() <= before.messages().len(),
        message is Metadata ==> after.messages().last().class == MessageClass::Metadata,
        message is WheelOutcome ==> after.messages().last().class == MessageClass::Frame,
        message is ScrollOutcome ==> after.messages().last().class == MessageClass::ScrollOutcome,
{
    let class = class_of(message);
    lemma_suffix(before.messages(), before.sent(), class);
}

/// The class a server message is queued with.
pub open spec fn class_of(m: session::ServerMessageV) -> MessageClass {
    match m {
        session::ServerMessageV::VerticalPreview(_) => MessageClass::Preview,
        session::ServerMessageV::WheelOutcome(session::WheelOutcomeV::Viewport { .. }) => MessageClass::Frame,
        session::ServerMessageV::ScrollOutcome(session::ScrollOutcomeV::Viewport { .. }) => MessageClass::ScrollOutcome,
        session::ServerMessageV::Metadata(_) => MessageClass::Metadata,
        _ => MessageClass::Ordered,
    }
}

} // verus!
