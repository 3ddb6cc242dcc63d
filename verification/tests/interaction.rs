use orbit_protocol::runtime::MAX_PTY_WRITE_BYTES;
use std::collections::VecDeque;
use orbit_protocol::interaction::{
    AutoscrollStep, InputStep, PointerRoute, PtyWriteStep, SelectionStep, autoscroll_step,
    input_step, pty_write_step, returns_to_live, selection_step,
};
use orbit_protocol::session::{
    ClientMessage, FailureCode, FocusEvent, KeyAction, KeyEvent, Modifiers, MouseAction,
    MouseButton, MouseEvent, PhysicalKey, SelectionAction, SelectionPosition, VerticalDirection,
};

fn mods(bits: u16) -> Modifiers {
    Modifiers::from_bits(bits).unwrap()
}

fn origin() -> SelectionPosition {
    SelectionPosition {
        x_bits: 0.0f32.to_bits(),
        y_bits: 0.0f32.to_bits(),
    }
}

fn press(frame_revision: u64, modifiers: Modifiers) -> SelectionAction {
    SelectionAction::Begin {
        frame_revision,
        position: origin(),
        time_ns: 0,
        modifiers,
    }
}

fn wheel(button: MouseButton) -> ClientMessage {
    ClientMessage::Mouse(MouseEvent {
        action: MouseAction::Press,
        button: Some(button),
        modifiers: Modifiers::empty(),
        x_bits: 1.0f32.to_bits(),
        y_bits: 1.0f32.to_bits(),
    })
}

#[test]
fn a_closed_pty_refuses_every_message() {
    assert_eq!(
        input_step(false, &ClientMessage::Focus(FocusEvent::Gained)),
        InputStep::Fail {
            code: FailureCode::Terminal,
            detail: "PTY is closed",
        }
    );
    assert_eq!(
        input_step(false, &ClientMessage::Selection(SelectionAction::Copy)),
        InputStep::Fail {
            code: FailureCode::Terminal,
            detail: "PTY is closed",
        }
    );
}

#[test]
fn messages_go_to_their_handlers() {
    assert_eq!(
        input_step(
            true,
            &ClientMessage::PreviewVertical {
                frame_revision: 1,
                direction: VerticalDirection::Up,
            }
        ),
        InputStep::PreviewVertical
    );
    assert_eq!(
        input_step(
            true,
            &ClientMessage::ScrollVertical {
                frame_revision: 1,
                rows: -3,
            }
        ),
        InputStep::ScrollVertical
    );
    assert_eq!(
        input_step(true, &ClientMessage::Selection(SelectionAction::Cancel)),
        InputStep::Selection
    );
    assert_eq!(
        input_step(true, &wheel(MouseButton::Four)),
        InputStep::Wheel(VerticalDirection::Up)
    );
    assert_eq!(
        input_step(true, &wheel(MouseButton::Five)),
        InputStep::Wheel(VerticalDirection::Down)
    );
    assert_eq!(
        input_step(true, &wheel(MouseButton::Six)),
        InputStep::Encode { key: false }
    );
    assert_eq!(
        input_step(true, &ClientMessage::Paste(b"text".to_vec())),
        InputStep::Encode { key: false }
    );
    let key = ClientMessage::Key(KeyEvent {
        action: KeyAction::Press,
        key: PhysicalKey::from_raw(PhysicalKey::ARROW_UP).unwrap(),
        modifiers: Modifiers::empty(),
        consumed_modifiers: Modifiers::empty(),
        composing: false,
        text: None,
        unshifted_codepoint: None,
    });
    assert_eq!(input_step(true, &key), InputStep::Encode { key: true });
}

#[test]
fn typing_returns_a_scrolled_back_viewport_to_live() {
    assert!(returns_to_live(true, 1, true, 10, 24, 100));
    assert!(!returns_to_live(true, 1, true, 76, 24, 100));
    assert!(!returns_to_live(false, 1, true, 10, 24, 100));
    assert!(!returns_to_live(true, 0, true, 10, 24, 100));
    assert!(!returns_to_live(true, 1, false, 10, 24, 100));
    assert!(!returns_to_live(true, 1, true, u64::MAX, 24, u64::MAX));
}

#[test]
fn copy_needs_a_finished_selection() {
    assert_eq!(
        selection_step(&SelectionAction::Copy, 5, None, true, false),
        SelectionStep::SendCopied
    );
    assert_eq!(
        selection_step(&SelectionAction::Copy, 5, None, false, false),
        SelectionStep::Fail {
            code: FailureCode::InvalidInput,
            detail: "no finished selection to copy",
        }
    );
    assert_eq!(
        selection_step(&SelectionAction::Cancel, 5, Some(PointerRoute::Host), false, true),
        SelectionStep::Cancel
    );
}

#[test]
fn a_press_is_routed_by_mouse_tracking_and_shift() {
    assert_eq!(
        selection_step(&press(6, Modifiers::empty()), 5, None, false, false),
        SelectionStep::Fail {
            code: FailureCode::InvalidInput,
            detail: "selection frame revision is ahead of authority",
        }
    );
    assert_eq!(
        selection_step(&press(5, Modifiers::empty()), 5, Some(PointerRoute::Host), false, false),
        SelectionStep::Fail {
            code: FailureCode::InvalidInput,
            detail: "selection press has an active gesture",
        }
    );
    assert_eq!(
        selection_step(&press(5, Modifiers::empty()), 5, None, false, true),
        SelectionStep::Terminal
    );
    assert_eq!(
        selection_step(&press(5, mods(Modifiers::SHIFT)), 5, None, false, true),
        SelectionStep::Host { finishing: false }
    );
    assert_eq!(
        selection_step(&press(4, mods(Modifiers::CTRL)), 5, None, false, false),
        SelectionStep::Host { finishing: false }
    );
}

#[test]
fn later_actions_follow_the_press() {
    let update = SelectionAction::Update {
        position: origin(),
        modifiers: Modifiers::empty(),
    };
    let finish = SelectionAction::Finish {
        position: origin(),
        modifiers: Modifiers::empty(),
    };
    assert_eq!(
        selection_step(&update, 5, None, false, false),
        SelectionStep::Fail {
            code: FailureCode::InvalidInput,
            detail: "selection update has no active selection",
        }
    );
    assert_eq!(
        selection_step(&finish, 5, None, false, false),
        SelectionStep::Fail {
            code: FailureCode::InvalidInput,
            detail: "selection finish has no active selection",
        }
    );
    assert_eq!(
        selection_step(&update, 5, Some(PointerRoute::Terminal), false, false),
        SelectionStep::Terminal
    );
    assert_eq!(
        selection_step(&finish, 5, Some(PointerRoute::Host), false, true),
        SelectionStep::Host { finishing: true }
    );
}

#[test]
fn autoscroll_needs_a_top_row_host_gesture() {
    assert_eq!(
        autoscroll_step(Some(PointerRoute::Terminal), true, true, true, true, false),
        AutoscrollStep::Fail {
            detail: "selection autoscroll requires an active primary-screen host gesture",
        }
    );
    assert_eq!(
        autoscroll_step(Some(PointerRoute::Host), false, true, true, true, false),
        AutoscrollStep::Fail {
            detail: "selection autoscroll requires an active primary-screen host gesture",
        }
    );
    assert_eq!(
        autoscroll_step(Some(PointerRoute::Host), true, false, true, true, false),
        AutoscrollStep::Fail {
            detail: "selection autoscroll position must be in the top row",
        }
    );
    assert_eq!(
        autoscroll_step(Some(PointerRoute::Host), true, true, false, true, false),
        AutoscrollStep::Fail {
            detail: "selection gesture is missing",
        }
    );
    assert_eq!(
        autoscroll_step(Some(PointerRoute::Host), true, true, true, false, false),
        AutoscrollStep::ClearAndFail {
            detail: "selection anchor is no longer valid",
        }
    );
    assert_eq!(
        autoscroll_step(Some(PointerRoute::Host), true, true, true, true, true),
        AutoscrollStep::Defer
    );
    assert_eq!(
        autoscroll_step(Some(PointerRoute::Host), true, true, true, true, false),
        AutoscrollStep::Scroll
    );
}

#[test]
fn a_full_pty_queue_refuses_and_closes_the_client() {
    let mut writes: VecDeque<u8> = VecDeque::new();
    writes.extend(std::iter::repeat(b'x').take(MAX_PTY_WRITE_BYTES - 2));
    assert_eq!(pty_write_step(&writes, b"ab"), PtyWriteStep::Queue);
    assert_eq!(
        pty_write_step(&writes, b"abc"),
        PtyWriteStep::FailAndClose {
            code: FailureCode::Terminal,
            detail: "PTY input queue is full",
        }
    );
}
