use orbit_protocol::management::TerminationReason;
use orbit_protocol::runtime::{
    DeferredVertical, EndActions, SessionEnd, end_session, MAX_PTY_WRITE_BYTES, can_queue_pty_write, next_revision, queue_pty_write,
    vertical_wheel_direction,
};
use orbit_protocol::session::{ClientMessage, MouseButton, VerticalDirection};
use std::collections::VecDeque;

#[test]
fn revisions_advance_and_never_wrap() {
    assert_eq!(next_revision(0), Ok(1));
    assert_eq!(next_revision(41), Ok(42));
    assert_eq!(next_revision(u64::MAX), Err("presentation revision exhausted"));
}

#[test]
fn pty_writes_are_queued_whole_or_not_at_all() {
    let mut writes = VecDeque::new();
    assert!(queue_pty_write(&mut writes, b"abc"));
    assert_eq!(writes, VecDeque::from(b"abc".to_vec()));
    let fill = vec![b'x'; MAX_PTY_WRITE_BYTES - 3];
    assert!(can_queue_pty_write(&writes, &fill));
    assert!(queue_pty_write(&mut writes, &fill));
    assert_eq!(writes.len(), MAX_PTY_WRITE_BYTES);
    assert!(!can_queue_pty_write(&writes, b"y"));
    assert!(!queue_pty_write(&mut writes, b"y"));
    assert_eq!(writes.len(), MAX_PTY_WRITE_BYTES);
    assert!(queue_pty_write(&mut writes, b""));
}

#[test]
fn only_wheel_buttons_four_and_five_scroll() {
    assert_eq!(vertical_wheel_direction(Some(MouseButton::Four)), Some(VerticalDirection::Up));
    assert_eq!(vertical_wheel_direction(Some(MouseButton::Five)), Some(VerticalDirection::Down));
    assert_eq!(vertical_wheel_direction(Some(MouseButton::Left)), None);
    assert_eq!(vertical_wheel_direction(None), None);
}

#[test]
fn one_vertical_request_waits_at_a_time() {
    let mut deferred = DeferredVertical::new();
    assert!(deferred.take().is_none());
    assert!(deferred.defer(ClientMessage::Hello));
    assert!(!deferred.defer(ClientMessage::ObserveMetadata));
    assert_eq!(deferred.take(), Some(ClientMessage::Hello));
    assert!(deferred.take().is_none());
    assert!(deferred.defer(ClientMessage::ObserveMetadata));
    deferred.clear();
    assert!(deferred.take().is_none());
}

#[test]
fn a_shutdown_tells_the_observer_and_exits_cleanly() {
    assert_eq!(
        end_session(SessionEnd::Shutdown, None, true, true, true),
        EndActions {
            client_code: None,
            observer_code: Some(1),
            tombstone: Some(TerminationReason::ExplicitStop),
            reply_stopped: false,
            exit_code: 0,
        }
    );
    assert_eq!(
        end_session(SessionEnd::Shutdown, Some(143), false, false, false),
        EndActions {
            client_code: None,
            observer_code: None,
            tombstone: None,
            reply_stopped: false,
            exit_code: 0,
        }
    );
}

#[test]
fn a_child_exit_is_reported_and_becomes_the_exit_status() {
    assert_eq!(
        end_session(SessionEnd::ChildExited, Some(17), true, true, true),
        EndActions {
            client_code: Some(17),
            observer_code: Some(17),
            tombstone: Some(TerminationReason::NaturalExit),
            reply_stopped: false,
            exit_code: 17,
        }
    );
    assert_eq!(
        end_session(SessionEnd::ChildExited, None, true, false, false),
        EndActions {
            client_code: Some(1),
            observer_code: None,
            tombstone: None,
            reply_stopped: false,
            exit_code: 1,
        }
    );
}

#[test]
fn a_management_stop_answers_the_owner() {
    assert_eq!(
        end_session(SessionEnd::ManagementStop, Some(0), true, true, true),
        EndActions {
            client_code: None,
            observer_code: Some(0),
            tombstone: Some(TerminationReason::ExplicitStop),
            reply_stopped: true,
            exit_code: 0,
        }
    );
}
