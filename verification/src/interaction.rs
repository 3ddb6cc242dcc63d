//! The decisions Orbit makes about one client request before it touches the
//! terminal: which handler a message goes to, where a pointer selection is
//! routed, when an upward selection autoscroll may run, and when typing
//! returns the viewport to the live screen.
//!
//! The terminal work itself (encoding input, hit testing, scrolling,
//! extracting frames) belongs to the runtime that owns the terminal; it asks
//! these functions what to do and performs the answer.

use crate::session::{ClientMessage, ClientMessageV, FailureCode, SelectionAction, SelectionActionV, VerticalDirection};
use crate::runtime::{MAX_PTY_WRITE_BYTES, can_queue_pty_write, vertical_wheel_direction};
use std::collections::VecDeque;
use vstd::prelude::*;

verus! {

/// Who receives the pointer while a selection gesture is active.
#[derive(Clone, Copy, Debug, PartialEq, Eq, Structural)]
pub enum PointerRoute {
    /// Orbit's own host selection.
    Host,
    /// The terminal application, through mouse reporting.
    Terminal,
}

/// What to do with a client message.
#[derive(Clone, Copy, Debug, PartialEq, Eq)]
pub enum InputStep {
    /// Refuse the message with this failure.
    Fail { code: FailureCode, detail: &'static str },
    /// Answer a vertical preview request.
    PreviewVertical,
    /// Scroll the viewport by the requested rows.
    ScrollVertical,
    /// Route a selection action (see [`selection_step`]).
    Selection,
    /// Resize the PTY and the terminal, then publish.
    Resize,
    /// Scroll one row for a vertical wheel notch.
    Wheel(VerticalDirection),
    /// Encode the input for the PTY; `key` input may return the viewport to
    /// the live screen (see [`returns_to_live`]).
    Encode { key: bool },
}

/// What [`input_step`] decides for a message.
pub open spec fn spec_input_step(pty_open: bool, m: ClientMessageV) -> InputStep {
    if !pty_open {
        InputStep::Fail { code: FailureCode::Terminal, detail: "PTY is closed" }
    } else {
        match m {
            ClientMessageV::PreviewVertical { .. } => InputStep::PreviewVertical,
            ClientMessageV::ScrollVertical { .. } => InputStep::ScrollVertical,
            ClientMessageV::Selection(_) => InputStep::Selection,
            ClientMessageV::Resize(_) => InputStep::Resize,
            ClientMessageV::Mouse(e) => match e.button {
                Some(crate::session::MouseButton::Four) => InputStep::Wheel(VerticalDirection::Up),
                Some(crate::session::MouseButton::Five) => InputStep::Wheel(VerticalDirection::Down),
                _ => InputStep::Encode { key: false },
            },
            ClientMessageV::Key(_) => InputStep::Encode { key: true },
            _ => InputStep::Encode { key: false },
        }
    }
}

/// Dispatch a client message: nothing reaches a closed PTY; vertical
/// requests, selections and resizes have their own handlers; a vertical wheel
/// notch scrolls; everything else is encoded for the PTY.
pub fn input_step(pty_open: bool, message: &ClientMessage) -> (s: InputStep)
    ensures
        s == spec_input_step(pty_open, message@),
{
    if !pty_open {
        return InputStep::Fail { code: FailureCode::Terminal, detail: "PTY is closed" };
    }
    match message {
        ClientMessage::PreviewVertical { .. } => InputStep::PreviewVertical,
        ClientMessage::ScrollVertical { .. } => InputStep::ScrollVertical,
        ClientMessage::Selection(_) => InputStep::Selection,
        ClientMessage::Resize(_) => InputStep::Resize,
        ClientMessage::Mouse(event) => match vertical_wheel_direction(event.button) {
            Some(direction) => InputStep::Wheel(direction),
            None => InputStep::Encode { key: false },
        },
        ClientMessage::Key(_) => InputStep::Encode { key: true },
        _ => InputStep::Encode { key: false },
    }
}

/// Whether encoded input returns the viewport to the live screen: key input
/// that produced bytes, on the primary screen, while the viewport (its first
/// row `offset`, `len` rows long) ends above the `total` rows of history.
pub fn returns_to_live(key: bool, encoded_len: usize, primary: bool, offset: u64, len: u64, total: u64) -> (r: bool)
    ensures
        r == (key && encoded_len > 0 && primary && offset + len < total),
{
    key && encoded_len > 0 && primary && offset.saturating_add(len) < total
}

/// What to do with input encoded for the PTY.
#[derive(Clone, Copy, Debug, PartialEq, Eq)]
pub enum PtyWriteStep {
    /// Queue the bytes behind those already waiting.
    Queue,
    /// Refuse with this failure, then close the client once its output is
    /// flushed.
    FailAndClose { code: FailureCode, detail: &'static str },
}

/// Encoded input is queued when it fits behind the bytes waiting for the
/// PTY; otherwise the client is refused with a terminal failure and closed.
pub fn pty_write_step(writes: &VecDeque<u8>, encoded: &[u8]) -> (s: PtyWriteStep)
    ensures
        writes@.len() + encoded@.len() <= MAX_PTY_WRITE_BYTES ==> s == PtyWriteStep::Queue,
        writes@.len() + encoded@.len() > MAX_PTY_WRITE_BYTES ==> s == (PtyWriteStep::FailAndClose {
            code: FailureCode::Terminal,
            detail: "PTY input queue is full",
        }),
{
    if can_queue_pty_write(writes, encoded) {
        PtyWriteStep::Queue
    } else {
        PtyWriteStep::FailAndClose { code: FailureCode::Terminal, detail: "PTY input queue is full" }
    }
}

/// What to do with a selection action.
#[derive(Clone, Copy, Debug, PartialEq, Eq)]
pub enum SelectionStep {
    /// Refuse the action with this failure.
    Fail { code: FailureCode, detail: &'static str },
    /// Send the frozen selection text to the standard clipboard.
    SendCopied,
    /// Drop the pointer sequence and publish a fresh frame.
    Cancel,
    /// Forward the pointer action to the terminal as a left-button event.
    Terminal,
    /// Apply the action to the host selection; `finishing` freezes it.
    Host { finishing: bool },
}

/// What [`selection_step`] decides for an action.
pub open spec fn spec_selection_step(
    a: SelectionActionV,
    revision: u64,
    route: Option<PointerRoute>,
    copied: bool,
    mouse_tracking: bool,
) -> SelectionStep {
    match a {
        SelectionActionV::Copy => if copied {
            SelectionStep::SendCopied
        } else {
            SelectionStep::Fail {
                code: FailureCode::InvalidInput,
                detail: "no finished selection to copy",
            }
        },
        SelectionActionV::Cancel => SelectionStep::Cancel,
        SelectionActionV::Begin { frame_revision, modifiers, .. } => if frame_revision > revision {
            SelectionStep::Fail {
                code: FailureCode::InvalidInput,
                detail: "selection frame revision is ahead of authority",
            }
        } else if route is Some {
            SelectionStep::Fail {
                code: FailureCode::InvalidInput,
                detail: "selection press has an active gesture",
            }
        } else if mouse_tracking && modifiers & crate::session::Modifiers::SHIFT == 0 {
            SelectionStep::Terminal
        } else {
            SelectionStep::Host { finishing: false }
        },
        SelectionActionV::Update { .. } => match route {
            None => SelectionStep::Fail {
                code: FailureCode::InvalidInput,
                detail: "selection update has no active selection",
            },
            Some(PointerRoute::Terminal) => SelectionStep::Terminal,
            Some(PointerRoute::Host) => SelectionStep::Host { finishing: false },
        },
        SelectionActionV::Finish { .. } => match route {
            None => SelectionStep::Fail {
                code: FailureCode::InvalidInput,
                detail: "selection finish has no active selection",
            },
            Some(PointerRoute::Terminal) => SelectionStep::Terminal,
            Some(PointerRoute::Host) => SelectionStep::Host { finishing: true },
        },
    }
}

/// Route a selection action. `revision` is the authoritative presentation
/// revision, `route` the route of the active gesture, `copied` whether a
/// finished selection holds text, and `mouse_tracking` whether the terminal
/// application reports the mouse. A press goes to the terminal when it
/// tracks the mouse and Shift is up; later actions follow the press.
pub fn selection_step(
    action: &SelectionAction,
    revision: u64,
    route: Option<PointerRoute>,
    copied: bool,
    mouse_tracking: bool,
) -> (s: SelectionStep)
    ensures
        s == spec_selection_step(action@, revision, route, copied, mouse_tracking),
{
    match action {
        SelectionAction::Copy => {
            if copied {
                SelectionStep::SendCopied
            } else {
                SelectionStep::Fail {
                    code: FailureCode::InvalidInput,
                    detail: "no finished selection to copy",
                }
            }
        },
        SelectionAction::Cancel => SelectionStep::Cancel,
        SelectionAction::Begin { frame_revision, modifiers, .. } => {
            if *frame_revision > revision {
                SelectionStep::Fail {
                    code: FailureCode::InvalidInput,
                    detail: "selection frame revision is ahead of authority",
                }
            } else if route.is_some() {
                SelectionStep::Fail {
                    code: FailureCode::InvalidInput,
                    detail: "selection press has an active gesture",
                }
            } else if mouse_tracking && modifiers.bits() & crate::session::Modifiers::SHIFT == 0 {
                SelectionStep::Terminal
            } else {
                SelectionStep::Host { finishing: false }
            }
        },
        SelectionAction::Update { .. } => match route {
            None => SelectionStep::Fail {
                code: FailureCode::InvalidInput,
                detail: "selection update has no active selection",
            },
            Some(PointerRoute::Terminal) => SelectionStep::Terminal,
            Some(PointerRoute::Host) => SelectionStep::Host { finishing: false },
        },
        SelectionAction::Finish { .. } => match route {
            None => SelectionStep::Fail {
                code: FailureCode::InvalidInput,
                detail: "selection finish has no active selection",
            },
            Some(PointerRoute::Terminal) => SelectionStep::Terminal,
            Some(PointerRoute::Host) => SelectionStep::Host { finishing: true },
        },
    }
}

/// What to do with a request to scroll an active selection up by one row.
#[derive(Clone, Copy, Debug, PartialEq, Eq)]
pub enum AutoscrollStep {
    /// Refuse the request with an invalid-input failure and this detail.
    Fail { detail: &'static str },
    /// Clear the selection, then refuse with an invalid-input failure and
    /// this detail.
    ClearAndFail { detail: &'static str },
    /// Keep the request until the presentation settles.
    Defer,
    /// Scroll one row and extend the selection.
    Scroll,
}

/// What [`autoscroll_step`] decides.
pub open spec fn spec_autoscroll_step(
    route: Option<PointerRoute>,
    primary: bool,
    in_top_row: bool,
    has_gesture: bool,
    anchor_valid: bool,
    synchronized: bool,
) -> AutoscrollStep {
    if route != Some(PointerRoute::Host) || !primary {
        AutoscrollStep::Fail {
            detail: "selection autoscroll requires an active primary-screen host gesture",
        }
    } else if !in_top_row {
        AutoscrollStep::Fail { detail: "selection autoscroll position must be in the top row" }
    } else if !has_gesture {
        AutoscrollStep::Fail { detail: "selection gesture is missing" }
    } else if !anchor_valid {
        AutoscrollStep::ClearAndFail { detail: "selection anchor is no longer valid" }
    } else if synchronized {
        AutoscrollStep::Defer
    } else {
        AutoscrollStep::Scroll
    }
}

/// Decide an upward selection autoscroll: it needs an active host gesture on
/// the primary screen, a position in the top row of the viewport, a gesture
/// whose anchor is still valid, and waits while output is synchronized.
pub fn autoscroll_step(
    route: Option<PointerRoute>,
    primary: bool,
    in_top_row: bool,
    has_gesture: bool,
    anchor_valid: bool,
    synchronized: bool,
) -> (s: AutoscrollStep)
    ensures
        s == spec_autoscroll_step(route, primary, in_top_row, has_gesture, anchor_valid, synchronized),
{
    let host = match route {
        Some(PointerRoute::Host) => true,
        _ => false,
    };
    if !host || !primary {
        AutoscrollStep::Fail {
            detail: "selection autoscroll requires an active primary-screen host gesture",
        }
    } else if !in_top_row {
        AutoscrollStep::Fail { detail: "selection autoscroll position must be in the top row" }
    } else if !has_gesture {
        AutoscrollStep::Fail { detail: "selection gesture is missing" }
    } else if !anchor_valid {
        AutoscrollStep::ClearAndFail { detail: "selection anchor is no longer valid" }
    } else if synchronized {
        AutoscrollStep::Defer
    } else {
        AutoscrollStep::Scroll
    }
}

/// A press can only start a gesture when none is active, and every later
/// action of a gesture keeps the route its press chose.
pub proof fn law_gestures_keep_their_route(
    a: SelectionActionV,
    revision: u64,
    route: PointerRoute,
    copied: bool,
    mouse_tracking: bool,
)
    ensures
        a is Begin ==> spec_selection_step(a, revision, Some(route), copied, mouse_tracking) is Fail,
        a is Update || a is Finish ==> (spec_selection_step(a, revision, Some(route), copied, mouse_tracking)
            is Terminal <==> route == PointerRoute::Terminal),
{
}

/// Dispatch over every message: a closed PTY refuses everything; with the
/// PTY open, each of preview, scroll, selection and resize goes to its own
/// handler and nothing else does, a wheel notch up or down scrolls, and only
/// input for the terminal (keys, other mouse events, focus, paste) is
/// encoded, with `key` set exactly for keys.
pub proof fn law_messages_reach_their_handlers(pty_open: bool, m: ClientMessageV)
    ensures
        !pty_open ==> spec_input_step(pty_open, m) == (InputStep::Fail {
            code: FailureCode::Terminal,
            detail: "PTY is closed",
        }),
        pty_open ==> ((spec_input_step(pty_open, m) == InputStep::Resize) <==> (m is Resize)),
        pty_open ==> ((spec_input_step(pty_open, m) == InputStep::Selection) <==> (m is Selection)),
        pty_open ==> ((spec_input_step(pty_open, m) == InputStep::PreviewVertical)
            <==> (m is PreviewVertical)),
        pty_open ==> ((spec_input_step(pty_open, m) == InputStep::ScrollVertical)
            <==> (m is ScrollVertical)),
        pty_open ==> ((spec_input_step(pty_open, m) == InputStep::Wheel(VerticalDirection::Up))
            <==> (m matches ClientMessageV::Mouse(e) && e.button == Some(
            crate::session::MouseButton::Four,
        ))),
        pty_open ==> ((spec_input_step(pty_open, m) == InputStep::Wheel(VerticalDirection::Down))
            <==> (m matches ClientMessageV::Mouse(e) && e.button == Some(
            crate::session::MouseButton::Five,
        ))),
        pty_open && ((m is Key) || (m is Focus) || (m is Paste)) ==> spec_input_step(pty_open, m)
            == (InputStep::Encode { key: (m is Key) }),
        spec_input_step(pty_open, m) matches InputStep::Encode { key } ==> (key <==> (m is Key))
            && !((m is Resize)) && !((m is Selection)) && !((m is PreviewVertical))
            && !((m is ScrollVertical)),
{
}

/// Routing over every action: an update or finish of a host gesture stays
/// with the host and freezes the selection exactly when it finishes; those
/// of a terminal gesture go to the terminal; a fresh press on current
/// content goes to the terminal exactly when it tracks the mouse and Shift
/// is up, and otherwise starts a host gesture that does not finish; copy
/// answers exactly when text was frozen, and cancel always cancels.
pub proof fn law_selection_routes(
    a: SelectionActionV,
    revision: u64,
    route: Option<PointerRoute>,
    copied: bool,
    mouse_tracking: bool,
)
    ensures
        ({
            let s = spec_selection_step(a, revision, route, copied, mouse_tracking);
            &&& ((a is Update) || (a is Finish)) && route == Some(PointerRoute::Host) ==> s == (
            SelectionStep::Host { finishing: (a is Finish) })
            &&& ((a is Update) || (a is Finish)) && route == Some(PointerRoute::Terminal) ==> s
                == SelectionStep::Terminal
            &&& ((a is Update) || (a is Finish)) && (route is None) ==> (s is Fail)
            &&& s matches SelectionStep::Host { finishing } ==> (finishing <==> (a is Finish))
            &&& a matches SelectionActionV::Begin { frame_revision, modifiers, .. } ==> (
                (frame_revision > revision || (route is Some)) <==> (s is Fail))
            &&& a matches SelectionActionV::Begin { frame_revision, modifiers, .. } ==> (
                (frame_revision <= revision && (route is None) && mouse_tracking && modifiers & 1u16
                == 0) ==> s == SelectionStep::Terminal)
            &&& a matches SelectionActionV::Begin { frame_revision, modifiers, .. } ==> (
                (frame_revision <= revision && (route is None) && !(mouse_tracking && modifiers
                & 1u16 == 0)) ==> s == (SelectionStep::Host { finishing: false }))
            &&& (a is Copy) ==> (s == SelectionStep::SendCopied <==> copied) && (!copied ==> (s is Fail))
            &&& (a is Cancel) ==> s == SelectionStep::Cancel
            &&& s == SelectionStep::Cancel ==> (a is Cancel)
            &&& s == SelectionStep::SendCopied ==> (a is Copy)
        }),
{
}

/// An autoscroll step scrolls exactly when every condition holds: an active
/// host gesture on the primary screen, a position in the top row, a gesture
/// with a valid anchor, and no synchronized output; it waits exactly when
/// only synchronized output stands in the way, and it clears the selection
/// only for an anchor that is no longer valid.
pub proof fn law_autoscroll_conditions(
    route: Option<PointerRoute>,
    primary: bool,
    in_top_row: bool,
    has_gesture: bool,
    anchor_valid: bool,
    synchronized: bool,
)
    ensures
        ({
            let s = spec_autoscroll_step(route, primary, in_top_row, has_gesture, anchor_valid, synchronized);
            let ready = route == Some(PointerRoute::Host) && primary && in_top_row && has_gesture
                && anchor_valid;
            &&& (s == AutoscrollStep::Scroll) <==> (ready && !synchronized)
            &&& (s == AutoscrollStep::Defer) <==> (ready && synchronized)
            &&& ((s is ClearAndFail)) <==> (route == Some(PointerRoute::Host) && primary && in_top_row
                && has_gesture && !anchor_valid)
        }),
{
}

} // verus!
