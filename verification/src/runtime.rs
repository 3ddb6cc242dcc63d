//! Rules of the session runtime that need no terminal: presentation
//! revisions, the bounded queue of bytes for the PTY, wheel directions and
//! the single deferred vertical request, and what ending a session does.

use crate::management::TerminationReason;
use crate::session::{ClientMessage, MAX_PASTE_BYTES, MouseButton, VerticalDirection};
use std::collections::VecDeque;
use vstd::prelude::*;

verus! {

/// Largest number of bytes waiting to be written to the PTY.
pub const MAX_PTY_WRITE_BYTES: usize = MAX_PASTE_BYTES + 16;

/// The presentation revision after `revision`, which never wraps.
pub fn next_revision(revision: u64) -> (r: Result<u64, &'static str>)
    ensures
        revision < u64::MAX ==> r == Ok::<u64, &'static str>((revision + 1) as u64),
        revision == u64::MAX ==> r == Err::<u64, &'static str>("presentation revision exhausted"),
{
    if revision == u64::MAX {
        Err("presentation revision exhausted")
    } else {
        Ok(revision + 1)
    }
}

/// Whether `bytes` fit behind the queued PTY bytes.
pub fn can_queue_pty_write(writes: &VecDeque<u8>, bytes: &[u8]) -> (r: bool)
    ensures
        r == (writes@.len() + bytes@.len() <= MAX_PTY_WRITE_BYTES),
{
    bytes.len() <= MAX_PTY_WRITE_BYTES && writes.len() <= MAX_PTY_WRITE_BYTES - bytes.len()
}

/// Queue `bytes` for the PTY, whole or not at all.
pub fn queue_pty_write(writes: &mut VecDeque<u8>, bytes: &[u8]) -> (r: bool)
    ensures
        r == (old(writes)@.len() + bytes@.len() <= MAX_PTY_WRITE_BYTES),
        r ==> final(writes)@ == old(writes)@ + bytes@,
        !r ==> final(writes)@ == old(writes)@,
{
    if !can_queue_pty_write(writes, bytes) {
        return false;
    }
    let ghost start = writes@;
    let mut i: usize = 0;
    while i < bytes.len()
        invariant
            i <= bytes@.len(),
            writes@ == start + bytes@.take(i as int),
        decreases bytes@.len() - i,
    {
        writes.push_back(bytes[i]);
        assert(bytes@.take(i + 1) =~= bytes@.take(i as int).push(bytes@[i as int]));
        i += 1;
    }
    assert(bytes@.take(bytes@.len() as int) =~= bytes@);
    true
}

/// The wheel buttons scroll vertically: four up, five down.
pub fn vertical_wheel_direction(button: Option<MouseButton>) -> (r: Option<VerticalDirection>)
    ensures
        r == match button {
            Some(MouseButton::Four) => Some(VerticalDirection::Up),
            Some(MouseButton::Five) => Some(VerticalDirection::Down),
            _ => None::<VerticalDirection>,
        },
{
    match button {
        Some(MouseButton::Four) => Some(VerticalDirection::Up),
        Some(MouseButton::Five) => Some(VerticalDirection::Down),
        _ => None,
    }
}

/// At most one vertical request waits for the presentation to settle.
pub struct DeferredVertical {
    request: Option<ClientMessage>,
}

impl DeferredVertical {
    pub closed spec fn pending(self) -> Option<crate::session::ClientMessageV> {
        match self.request {
            Some(m) => Some(m@),
            None => None,
        }
    }

    pub fn new() -> (d: Self)
        ensures
            d.pending() is None,
    {
        DeferredVertical { request: None }
    }

    /// Keep `request` unless one already waits.
    pub fn defer(&mut self, request: ClientMessage) -> (r: bool)
        ensures
            r == old(self).pending() is None,
            r ==> final(self).pending() == Some(request@),
            !r ==> final(self).pending() == old(self).pending(),
    {
        if self.request.is_some() {
            return false;
        }
        self.request = Some(request);
        true
    }

    /// The waiting request, which no longer waits.
    pub fn take(&mut self) -> (r: Option<ClientMessage>)
        ensures
            final(self).pending() is None,
            match r {
                Some(m) => old(self).pending() == Some(m@),
                None => old(self).pending() is None,
            },
    {
        self.request.take()
    }

    pub fn clear(&mut self)
        ensures
            final(self).pending() is None,
    {
        self.request = None;
    }
}

/// Why a session ends.
#[derive(Clone, Copy, Debug, PartialEq, Eq, Structural)]
pub enum SessionEnd {
    /// A termination signal asked the server to stop.
    Shutdown,
    /// The child process exited by itself.
    ChildExited,
    /// The management owner asked for a stop while the child still ran.
    ManagementStop,
}

/// What ending a session does once the child's status is known.
#[derive(Clone, Copy, Debug, PartialEq, Eq, Structural)]
pub struct EndActions {
    /// The exit code sent to the attached client, if it is told.
    pub client_code: Option<i32>,
    /// The exit code sent to the metadata observer, if it is told.
    pub observer_code: Option<i32>,
    /// The reason the management owner records in its tombstone, if any.
    pub tombstone: Option<TerminationReason>,
    /// Whether the management owner answers its stop request.
    pub reply_stopped: bool,
    /// The server's own exit status.
    pub exit_code: i32,
}

/// The child's exit code as clients see it: a child killed by a signal
/// reports 1.
pub open spec fn reported_code(status_code: Option<i32>) -> i32 {
    match status_code {
        Some(c) => c,
        None => 1,
    }
}

/// What [`end_session`] does.
pub open spec fn spec_end_session(
    cause: SessionEnd,
    status_code: Option<i32>,
    has_client: bool,
    has_observer: bool,
    has_owner: bool,
) -> EndActions {
    let code = reported_code(status_code);
    let observer_code = if has_observer {
        Some(code)
    } else {
        None
    };
    match cause {
        SessionEnd::Shutdown => EndActions {
            client_code: None,
            observer_code,
            tombstone: if has_owner {
                Some(TerminationReason::ExplicitStop)
            } else {
                None
            },
            reply_stopped: false,
            exit_code: 0,
        },
        SessionEnd::ChildExited => EndActions {
            client_code: if has_client {
                Some(code)
            } else {
                None
            },
            observer_code,
            tombstone: if has_owner {
                Some(TerminationReason::NaturalExit)
            } else {
                None
            },
            reply_stopped: false,
            exit_code: code,
        },
        SessionEnd::ManagementStop => EndActions {
            client_code: None,
            observer_code,
            tombstone: Some(TerminationReason::ExplicitStop),
            reply_stopped: true,
            exit_code: 0,
        },
    }
}

/// End a session. A shutdown stops the child, tells the observer and exits
/// with 0; a child that exits by itself is reported to the client and the
/// observer, and its code is the server's exit status; a management stop
/// tells the observer, answers the owner and exits with 0. The owner's
/// tombstone records an explicit stop or a natural exit accordingly.
pub fn end_session(
    cause: SessionEnd,
    status_code: Option<i32>,
    has_client: bool,
    has_observer: bool,
    has_owner: bool,
) -> (a: EndActions)
    requires
        cause == SessionEnd::ManagementStop ==> has_owner,
    ensures
        a == spec_end_session(cause, status_code, has_client, has_observer, has_owner),
{
    let code = match status_code {
        Some(c) => c,
        None => 1,
    };
    let observer_code = if has_observer {
        Some(code)
    } else {
        None
    };
    match cause {
        SessionEnd::Shutdown => EndActions {
            client_code: None,
            observer_code,
            tombstone: if has_owner {
                Some(TerminationReason::ExplicitStop)
            } else {
                None
            },
            reply_stopped: false,
            exit_code: 0,
        },
        SessionEnd::ChildExited => EndActions {
            client_code: if has_client {
                Some(code)
            } else {
                None
            },
            observer_code,
            tombstone: if has_owner {
                Some(TerminationReason::NaturalExit)
            } else {
                None
            },
            reply_stopped: false,
            exit_code: code,
        },
        SessionEnd::ManagementStop => EndActions {
            client_code: None,
            observer_code,
            tombstone: Some(TerminationReason::ExplicitStop),
            reply_stopped: true,
            exit_code: 0,
        },
    }
}

/// What ending a session reports, over every cause and every status: a child
/// that exits by itself makes its code (1 when a signal ended it) the
/// server's exit status whoever is connected, and it alone is reported to an
/// attached client; a shutdown or a management stop exits with 0. The
/// observer, when there is one, always learns the child's code; the owner's
/// tombstone records a natural exit only for a child exit; only a management
/// stop is answered.
pub proof fn law_session_end_reports_the_child(
    cause: SessionEnd,
    status_code: Option<i32>,
    has_client: bool,
    has_observer: bool,
    has_owner: bool,
)
    requires
        cause == SessionEnd::ManagementStop ==> has_owner,
    ensures
        ({
            let a = spec_end_session(cause, status_code, has_client, has_observer, has_owner);
            let code: i32 = match status_code {
                Some(c) => c,
                None => 1i32,
            };
            &&& cause == SessionEnd::ChildExited ==> a.exit_code == code
            &&& cause != SessionEnd::ChildExited ==> a.exit_code == 0
            &&& a.client_code == (if cause == SessionEnd::ChildExited && has_client {
                Some(code)
            } else {
                None
            })
            &&& a.observer_code == (if has_observer {
                Some(code)
            } else {
                None
            })
            &&& a.tombstone == (if !has_owner {
                None
            } else if cause == SessionEnd::ChildExited {
                Some(TerminationReason::NaturalExit)
            } else {
                Some(TerminationReason::ExplicitStop)
            })
            &&& a.reply_stopped == (cause == SessionEnd::ManagementStop)
        }),
{
}

/// A runtime directory is private when it is a directory owned by `uid`
/// whose permission bits are exactly `0o700`.
pub fn is_private_directory(is_dir: bool, owner: u32, mode: u32, uid: u32) -> (r: bool)
    ensures
        r == (is_dir && owner == uid && mode % 4096 == 448),
{
    let bits = mode & 0o7777;
    assert(mode & 0o7777 == mode % 4096) by (bit_vector);
    is_dir && owner == uid && bits == 0o700
}

} // verus!
