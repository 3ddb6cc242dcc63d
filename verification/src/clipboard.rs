//! Clipboard writes the terminal emits while it processes PTY output: they
//! are captured in bounded form and then published, in order, to the
//! attached client.

use crate::attachment::ClientState;
use crate::output_queue::{OutputQueue, pushes_message};
use crate::session::codec::has_nul;
use crate::session::{self, ClipboardLocation, MAX_COPY_BYTES, ServerMessage, ServerMessageV};
use crate::wire::{chars_of, is_utf8, string_bytes, string_from_utf8, utf8};
use std::collections::VecDeque;
use vstd::prelude::*;

verus! {

/// Most clipboard writes held between two publications.
pub const MAX_PENDING_CLIPBOARD_WRITES: usize = 64;

/// Why a clipboard write is not captured.
#[derive(Clone, Copy, Debug, PartialEq, Eq, Structural)]
pub enum CaptureError {
    /// No client takes clipboard writes now.
    Denied,
    /// The pending writes overflowed; later writes are refused until cleared.
    Busy,
    /// Not one plain-text entry for a known location.
    Unsupported,
    /// The text is empty, too long, not UTF-8, or holds NUL.
    InvalidData,
}

/// The total UTF-8 length of the texts.
pub open spec fn total_text(writes: Seq<(ClipboardLocation, Seq<char>)>) -> nat
    decreases writes.len(),
{
    if writes.len() == 0 {
        0
    } else {
        total_text(writes.drop_last()) + utf8(writes.last().1).len()
    }
}

/// The bytes `text/plain`.
pub open spec fn plain_text_mime() -> Seq<u8> {
    seq![116u8, 101, 120, 116, 47, 112, 108, 97, 105, 110]
}

/// Clipboard writes waiting to be published.
pub struct PendingClipboardWrites {
    enabled: bool,
    writes: VecDeque<(ClipboardLocation, String)>,
    overflowed: bool,
}

impl PendingClipboardWrites {
    /// At most [`MAX_PENDING_CLIPBOARD_WRITES`] writes of at most
    /// [`MAX_COPY_BYTES`] text in all.
    pub closed spec fn wf(self) -> bool {
        &&& self.writes@.len() <= MAX_PENDING_CLIPBOARD_WRITES
        &&& total_text(self.writes()) <= MAX_COPY_BYTES
    }

    pub closed spec fn enabled(self) -> bool {
        self.enabled
    }

    pub closed spec fn overflowed(self) -> bool {
        self.overflowed
    }

    /// The waiting writes, oldest first.
    pub closed spec fn writes(self) -> Seq<(ClipboardLocation, Seq<char>)> {
        self.writes@.map_values(|w: (ClipboardLocation, String)| (w.0, w.1@))
    }

    /// No writes, neither enabled nor overflowed.
    pub fn new() -> (p: Self)
        ensures
            p.wf(),
            !p.enabled(),
            !p.overflowed(),
            p.writes().len() == 0,
    {
        let p = PendingClipboardWrites { enabled: false, writes: VecDeque::new(), overflowed: false };
        assert(p.writes() =~= Seq::<(ClipboardLocation, Seq<char>)>::empty());
        p
    }

    /// Take writes while a client is attached, or refuse them.
    pub fn set_enabled(&mut self, enabled: bool)
        requires
            old(self).wf(),
        ensures
            final(self).wf(),
            final(self).enabled() == enabled,
            final(self).overflowed() == old(self).overflowed(),
            final(self).writes() == old(self).writes(),
    {
        self.enabled = enabled;
    }

    /// Forget the writes and the overflow; writes are no longer taken.
    pub fn clear(&mut self)
        ensures
            final(self).wf(),
            !final(self).enabled(),
            !final(self).overflowed(),
            final(self).writes().len() == 0,
    {
        *self = PendingClipboardWrites::new();
    }

    /// The number of waiting writes.
    pub fn len(&self) -> (n: usize)
        ensures
            n == self.writes().len(),
    {
        self.writes.len()
    }

    /// The waiting write at `index`, oldest first.
    pub fn entry(&self, index: usize) -> (r: (ClipboardLocation, &str))
        requires
            index < self.writes().len(),
        ensures
            r.0 == self.writes()[index as int].0,
            r.1@ == self.writes()[index as int].1,
    {
        let w = &self.writes[index];
        (w.0, w.1.as_str())
    }

    pub fn is_overflowed(&self) -> (r: bool)
        ensures
            r == self.overflowed(),
    {
        self.overflowed
    }

    fn total_bytes(&self) -> (n: usize)
        requires
            self.wf(),
        ensures
            n == total_text(self.writes()),
    {
        let ghost ws = self.writes();
        let mut n: usize = 0;
        let mut i: usize = 0;
        while i < self.writes.len()
            invariant
                ws == self.writes(),
                i <= ws.len(),
                ws.len() == self.writes@.len(),
                n == total_text(ws.take(i as int)),
                total_text(ws) <= MAX_COPY_BYTES,
            decreases ws.len() - i,
        {
            proof {
                assert(ws.take(i + 1).drop_last() =~= ws.take(i as int));
                assert(ws[i as int] == (self.writes@[i as int].0, self.writes@[i as int].1@));
                lemma_total_text_prefix(ws, i + 1);
            }
            let text = &self.writes[i].1;
            n = n + string_bytes(text).len();
            i += 1;
        }
        assert(ws.take(ws.len() as int) =~= ws);
        n
    }

    /// Capture one clipboard write: its location (`None` when unknown), the
    /// number of entries it carries, and the MIME type and data of its entry
    /// (`None` when absent). Writes are taken only while enabled and until
    /// the bounds overflow.
    pub fn capture(
        &mut self,
        location: Option<ClipboardLocation>,
        entries: usize,
        mime: Option<&[u8]>,
        data: Option<&[u8]>,
    ) -> (r: Result<(), CaptureError>)
        requires
            old(self).wf(),
        ensures
            final(self).wf(),
            final(self).enabled() == old(self).enabled(),
            !old(self).enabled() ==> r == Err::<(), CaptureError>(CaptureError::Denied) && final(self).writes() == old(self).writes() && final(self).overflowed() == old(self).overflowed(),
            old(self).enabled() && old(self).overflowed() ==> r == Err::<(), CaptureError>(
                CaptureError::Busy,
            ) && final(self).writes() == old(self).writes() && final(self).overflowed(),
            old(self).enabled() && !old(self).overflowed() ==> ({
                let unsupported = location is None || entries != 1 || !(mime matches Some(m)
                    && m@ == plain_text_mime());
                let invalid = !(data matches Some(d) && 0 < d@.len() <= MAX_COPY_BYTES && is_utf8(
                    d@,
                ) && !chars_of(d@).contains('\0'));
                &&& unsupported ==> r == Err::<(), CaptureError>(CaptureError::Unsupported)
                    && final(self).writes() == old(self).writes() && !final(self).overflowed()
                &&& !unsupported && invalid ==> r == Err::<(), CaptureError>(
                    CaptureError::InvalidData,
                ) && final(self).writes() == old(self).writes() && !final(self).overflowed()
                &&& !unsupported && !invalid ==> {
                    let text = chars_of(data->Some_0@);
                    let full = old(self).writes().len() >= MAX_PENDING_CLIPBOARD_WRITES
                        || total_text(old(self).writes()) + data->Some_0@.len() > MAX_COPY_BYTES;
                    &&& full ==> r == Err::<(), CaptureError>(CaptureError::Busy) && final(self).writes() == old(self).writes() && final(self).overflowed()
                    &&& !full ==> r == Ok::<(), CaptureError>(()) && final(self).writes() == old(self).writes().push((location->Some_0, text)) && !final(self).overflowed()
                }
            }),
    {
        if !self.enabled {
            return Err(CaptureError::Denied);
        }
        if self.overflowed {
            return Err(CaptureError::Busy);
        }
        let location = match location {
            Some(location) => location,
            None => return Err(CaptureError::Unsupported),
        };
        if entries != 1 {
            return Err(CaptureError::Unsupported);
        }
        let mime = match mime {
            Some(mime) => mime,
            None => return Err(CaptureError::Unsupported),
        };
        let plain: [u8; 10] = [116, 101, 120, 116, 47, 112, 108, 97, 105, 110];
        if !crate::management::codec::bytes_equal(mime, &plain) {
            assert(plain@ =~= plain_text_mime());
            return Err(CaptureError::Unsupported);
        }
        assert(plain@ =~= plain_text_mime());
        let data = match data {
            Some(data) => data,
            None => return Err(CaptureError::InvalidData),
        };
        if data.len() == 0 || data.len() > MAX_COPY_BYTES {
            return Err(CaptureError::InvalidData);
        }
        let text = match string_from_utf8(data) {
            Some(text) => text,
            None => return Err(CaptureError::InvalidData),
        };
        if has_nul(text.as_str()) {
            return Err(CaptureError::InvalidData);
        }
        let bytes = self.total_bytes();
        proof {
            crate::wire::lemma_utf8_round_trip(text@, data@);
        }
        if self.writes.len() >= MAX_PENDING_CLIPBOARD_WRITES || data.len() > MAX_COPY_BYTES - bytes {
            self.overflowed = true;
            return Err(CaptureError::Busy);
        }
        let ghost before = self.writes();
        let ghost tv = text@;
        self.writes.push_back((location, text));
        proof {
            assert(self.writes() =~= before.push((location, tv)));
            assert(self.writes().drop_last() =~= before);
        }
        Ok(())
    }

    /// Publish the writes, oldest first, to an attached client that takes
    /// output: `Ok(false)` when the writes overflowed or one could not be
    /// queued, and then all of them are dropped. A client that takes no
    /// output gets none, and the writes are dropped.
    pub fn publish(&mut self, client: &mut ClientState) -> (r: session::Result<bool>)
        requires
            old(self).wf(),
            old(client).wf(),
        ensures
            final(self).wf(),
            final(client).wf(),
            final(client).input() == old(client).input(),
            final(client).keeps_state(*old(client)),
            !takes_output(*old(client)) ==> r == Ok::<bool, session::Error>(true) && final(self).writes().len() == 0 && !final(self).overflowed() && final(client).queue()
                == old(client).queue(),
            takes_output(*old(client)) && old(self).overflowed() ==> r == Ok::<bool, session::Error>(
                false,
            ) && final(self).writes().len() == 0 && !final(self).overflowed() && final(client).queue() == old(client).queue(),
            takes_output(*old(client)) && !old(self).overflowed() ==> publishes(
                old(client).queue(),
                final(client).queue(),
                old(self).writes(),
                r,
            ),
            takes_output(*old(client)) && !old(self).overflowed() && r is Ok ==> final(self).writes().len() == 0 && !final(self).overflowed(),
    {
        if !client.accepts_output() {
            self.clear();
            return Ok(true);
        }
        if self.overflowed {
            self.clear();
            return Ok(false);
        }
        let ghost all = self.writes();
        let ghost start = client.queue();
        let ghost mut done: int = 0;
        assert(all.skip(0) =~= all);
        loop
            invariant
                self.wf(),
                client.wf(),
                !self.overflowed(),
                takes_output(*old(client)),
                !old(self).overflowed(),
                all == old(self).writes(),
                start == old(client).queue(),
                client.input() == old(client).input(),
                client.keeps_state(*old(client)),
                0 <= done <= all.len(),
                self.writes() == all.skip(done),
                forall|f: OutputQueue, r: session::Result<bool>|
                    #![trigger publishes(start, f, all, r)]
                    publishes(client.queue(), f, all.skip(done), r) ==> publishes(start, f, all, r),
            decreases all.len() - done,
        {
            let ghost before = self.writes();
            let ghost queue = client.queue();
            let ghost total = total_text(before);
            match self.writes.pop_front() {
                Some((location, text)) => {
                    let ghost rest = self.writes();
                    let ghost tv = text@;
                    proof {
                        assert(before.len() > 0);
                        assert(before[0] == (location, tv));
                        assert(rest =~= before.drop_first());
                        assert(all.skip(done).drop_first() =~= all.skip(done + 1));
                        lemma_total_text_first(before);
                    }
                    let message = ServerMessage::ClipboardWrite { location, text };
                    let ghost m = message@;
                    assert(m == ServerMessageV::ClipboardWrite { location, text: tv });
                    let pushed = match client.push_message(&message) {
                        Ok(pushed) => pushed,
                        Err(error) => {
                            proof {
                                lemma_publishes_stop(queue, client.queue(), before, Err(error));
                            }
                            return Err(error);
                        },
                    };
                    if !pushed {
                        proof {
                            lemma_publishes_stop(queue, client.queue(), before, Ok(false));
                        }
                        self.clear();
                        return Ok(false);
                    }
                    proof {
                        let next = client.queue();
                        assert forall|f: OutputQueue, r: session::Result<bool>|
                            #![trigger publishes(start, f, all, r)]
                            publishes(next, f, all.skip(done + 1), r) implies publishes(
                                start,
                                f,
                                all,
                                r,
                            ) by {
                            lemma_publishes_step(queue, next, f, before, r);
                        }
                        done = done + 1;
                    }
                },
                None => {
                    proof {
                        assert(before.len() == 0);
                        assert(publishes(queue, queue, before, Ok::<bool, session::Error>(true)));
                    }
                    return Ok(true);
                },
            }
        }
    }
}

/// Whether an attached client takes output.
pub open spec fn takes_output(client: ClientState) -> bool {
    client.role() == crate::attachment::Role::Interactive && !client.closing()
}

/// Two queues hold the same messages with the same progress.
pub open spec fn same_contents(a: OutputQueue, b: OutputQueue) -> bool {
    a.messages() == b.messages() && a.unsent() == b.unsent() && a.sent() == b.sent()
}

/// Queueing the writes `ws` one by one as `ClipboardWrite` messages takes
/// the queue from `before` to `after` with result `r`: `Ok(true)` once all
/// are queued; the first that does not fit ends with `Ok(false)` and the
/// first that cannot be encoded with its error, the queue then left as that
/// attempt left it.
pub open spec fn publishes(
    before: OutputQueue,
    after: OutputQueue,
    ws: Seq<(ClipboardLocation, Seq<char>)>,
    r: session::Result<bool>,
) -> bool
    decreases ws.len(),
{
    if ws.len() == 0 {
        r == Ok::<bool, session::Error>(true) && same_contents(after, before)
    } else {
        exists|mid: OutputQueue, p: session::Result<bool>|
            #[trigger] pushes_message(
                before,
                mid,
                ServerMessageV::ClipboardWrite { location: ws[0].0, text: ws[0].1 },
                p,
            ) && if p == Ok::<bool, session::Error>(true) {
                publishes(mid, after, ws.drop_first(), r)
            } else {
                r == p && same_contents(after, mid)
            }
    }
}

proof fn lemma_publishes_stop(
    before: OutputQueue,
    after: OutputQueue,
    ws: Seq<(ClipboardLocation, Seq<char>)>,
    r: session::Result<bool>,
)
    requires
        ws.len() > 0,
        r != Ok::<bool, session::Error>(true),
        pushes_message(
            before,
            after,
            ServerMessageV::ClipboardWrite { location: ws[0].0, text: ws[0].1 },
            r,
        ),
    ensures
        publishes(before, after, ws, r),
{
}

proof fn lemma_publishes_step(
    before: OutputQueue,
    mid: OutputQueue,
    after: OutputQueue,
    ws: Seq<(ClipboardLocation, Seq<char>)>,
    r: session::Result<bool>,
)
    requires
        ws.len() > 0,
        pushes_message(
            before,
            mid,
            ServerMessageV::ClipboardWrite { location: ws[0].0, text: ws[0].1 },
            Ok::<bool, session::Error>(true),
        ),
        publishes(mid, after, ws.drop_first(), r),
    ensures
        publishes(before, after, ws, r),
{
}

/// The prefix sums grow one text at a time.
proof fn lemma_total_text_prefix(ws: Seq<(ClipboardLocation, Seq<char>)>, n: int)
    requires
        0 < n <= ws.len(),
    ensures
        total_text(ws.take(n)) == total_text(ws.take(n - 1)) + utf8(ws[n - 1].1).len(),
        total_text(ws.take(n)) <= total_text(ws),
    decreases ws.len() - n,
{
    assert(ws.take(n).drop_last() =~= ws.take(n - 1));
    if n < ws.len() {
        lemma_total_text_prefix(ws, n + 1);
    } else {
        assert(ws.take(n) =~= ws);
    }
}

/// The total is the first text plus the rest.
proof fn lemma_total_text_first(ws: Seq<(ClipboardLocation, Seq<char>)>)
    requires
        ws.len() > 0,
    ensures
        total_text(ws) == utf8(ws[0].1).len() + total_text(ws.drop_first()),
    decreases ws.len(),
{
    if ws.len() == 1 {
        assert(ws.drop_first() =~= Seq::<(ClipboardLocation, Seq<char>)>::empty());
        assert(ws.drop_last() =~= Seq::<(ClipboardLocation, Seq<char>)>::empty());
    } else {
        lemma_total_text_first(ws.drop_last());
        assert(ws.drop_last().drop_first() =~= ws.drop_first().drop_last());
        assert(ws.drop_last()[0] == ws[0]);
        assert(ws.drop_first().last() == ws.last());
    }
}

} // verus!
