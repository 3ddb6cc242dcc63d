use orbit_protocol::attachment::{
    ClientState, Incoming, Negotiation, Refusal, busy_for_new_client, truncate_detail,
};
use orbit_protocol::output_queue::MessageClass;
use orbit_protocol::{
    Capabilities, Cell, CellStyle, CellWidth, Colors, Cursor, CursorShape, Dimensions, Frame,
    PALETTE_LEN, Rgb, Row, Screen, StyleColor, Underline,
};
use orbit_protocol::session::{
    self, ClientMessage, Failure, FailureCode, FocusEvent, HEADER_BYTES, MAX_FAILURE_BYTES,
    Metadata, Modifiers, MouseAction, MouseButton, MouseEvent, ServerMessage,
};

fn encoded(message: &ClientMessage) -> Vec<u8> {
    session::encode_client_message(message).unwrap()
}

fn queued(state: &ClientState) -> Vec<ServerMessage> {
    let output = state.output();
    (0..output.len())
        .map(|index| session::decode_server_message(&output.message(index).bytes).unwrap())
        .collect()
}

#[test]
fn metadata_observer_is_read_only_and_keeps_only_the_latest_change() {
    let mut observer = ClientState::new(true);
    observer.receive(&encoded(&ClientMessage::ObserveMetadata));
    assert!(matches!(
        observer.next_incoming(),
        Incoming::Negotiate(Negotiation::Metadata)
    ));
    assert_eq!(observer.begin_metadata(), Ok(true));

    for (revision, title) in [(1, "initial"), (2, "middle"), (3, "latest")] {
        assert_eq!(
            observer.push_metadata(Metadata {
                revision,
                title: title.into(),
                working_directory: "file:///tmp/eon".into(),
            }),
            Ok(true)
        );
    }
    let messages = queued(&observer);
    assert_eq!(messages.len(), 3);
    assert_eq!(messages[0], ServerMessage::ObservingMetadata);
    assert!(matches!(
        &messages[1],
        ServerMessage::Metadata(Metadata { revision: 1, .. })
    ));
    assert!(matches!(
        &messages[2],
        ServerMessage::Metadata(Metadata { revision: 3, .. })
    ));

    observer.receive(&encoded(&ClientMessage::Focus(FocusEvent::Gained)));
    match observer.next_incoming() {
        Incoming::Refuse(refusal) => {
            assert_eq!(refusal, Refusal::ObserverInput);
            let detail = "metadata observers cannot send messages".to_string();
            assert!(matches!(observer.reject_protocol(detail), Ok(Incoming::Pending)));
        }
        _ => panic!("observer input was not refused"),
    }
    assert!(observer.is_closing());
    assert!(!observer.has_input());
}

#[test]
fn fatal_decode_releases_client_input_storage() {
    let mut client = ClientState::new(false);
    let mut message = encoded(&ClientMessage::Mouse(MouseEvent {
        action: MouseAction::Press,
        button: Some(MouseButton::Left),
        modifiers: Modifiers::empty(),
        x_bits: 1.0f32.to_bits(),
        y_bits: 1.0f32.to_bits(),
    }));
    message[HEADER_BYTES + 4..HEADER_BYTES + 8].copy_from_slice(&f32::MAX.to_bits().to_le_bytes());
    client.receive(&message);
    let detail = match client.next_incoming() {
        Incoming::Refuse(Refusal::Invalid(error)) => {
            assert_eq!(error, session::Error::InvalidCoordinates);
            error.message()
        }
        _ => panic!("invalid coordinates were not refused"),
    };
    assert!(matches!(client.reject_protocol(detail), Ok(Incoming::Pending)));
    assert!(client.is_closing());
    assert!(!client.has_input());
    assert_eq!(
        queued(&client),
        vec![ServerMessage::Failure(Failure {
            code: FailureCode::Protocol,
            detail: "invalid mouse coordinates".into(),
        })]
    );
}

#[test]
fn terminal_closing_client_finishes_with_queued_failure_only() {
    let mut client = ClientState::new(false);
    let failure = ServerMessage::Failure(Failure {
        code: FailureCode::Protocol,
        detail: "terminal".into(),
    });
    assert_eq!(client.push_message(&failure), Ok(true));
    client.close_when_flushed();
    assert_eq!(client.finish_session(17), Ok(true));
    assert_eq!(queued(&client), vec![failure]);
}

#[test]
fn an_attached_client_is_told_the_exit_code() {
    let mut client = ClientState::new(false);
    assert_eq!(client.finish_session(3), Ok(true));
    assert_eq!(queued(&client), vec![ServerMessage::Exited { code: 3 }]);
    let mut negotiating = ClientState::new(true);
    assert_eq!(negotiating.finish_session(3), Ok(false));
    assert!(negotiating.output().is_empty());
}

#[test]
fn the_first_message_must_name_a_role_once() {
    let mut client = ClientState::new(true);
    assert!(client.is_negotiating());
    client.receive(&encoded(&ClientMessage::Focus(FocusEvent::Lost)));
    match client.next_incoming() {
        Incoming::Refuse(refusal) => assert_eq!(refusal, Refusal::FirstMessage),
        _ => panic!("a first message without a role was accepted"),
    }

    let mut client = ClientState::new(true);
    let hello = encoded(&ClientMessage::Hello);
    client.receive(&hello[..5]);
    assert!(matches!(client.next_incoming(), Incoming::Pending));
    client.receive(&hello[5..]);
    assert!(matches!(
        client.next_incoming(),
        Incoming::Negotiate(Negotiation::Interactive)
    ));
    assert!(!client.has_input());
    assert_eq!(client.begin_interactive(), Ok(true));
    assert!(client.accepts_output());
    assert!(!client.accepts_metadata());
    client.receive(&encoded(&ClientMessage::Hello));
    match client.next_incoming() {
        Incoming::Refuse(refusal) => assert_eq!(refusal, Refusal::RoleRepeated),
        _ => panic!("a second role was accepted"),
    }
    client.receive(&encoded(&ClientMessage::Focus(FocusEvent::Gained)));
    match client.next_incoming() {
        Incoming::Message(ClientMessage::Focus(FocusEvent::Gained)) => {}
        _ => panic!("focus was not delivered"),
    }
}

#[test]
fn another_revision_is_dropped_without_an_answer() {
    let mut client = ClientState::new(true);
    let mut hello = encoded(&ClientMessage::Hello);
    hello[4] = 6;
    client.receive(&hello);
    assert!(matches!(client.next_incoming(), Incoming::Disconnect));
    let mut garbage = ClientState::new(true);
    garbage.receive(b"NOPE0000000000");
    match garbage.next_incoming() {
        Incoming::Refuse(Refusal::Invalid(session::Error::InvalidMagic)) => {}
        _ => panic!("bad magic was not refused"),
    }
}

#[test]
fn first_frame_is_ordered_and_later_frames_replace_stale_ones() {
    let mut client = ClientState::new(true);
    client.receive(&encoded(&ClientMessage::Hello));
    assert!(matches!(client.next_incoming(), Incoming::Negotiate(_)));
    assert_eq!(client.begin_interactive(), Ok(true));
    let frame = minimal_frame(1);
    assert_eq!(client.push_frame(frame.clone()), Ok(true));
    assert_eq!(client.push_frame(frame.clone()), Ok(true));
    assert_eq!(client.push_frame(frame), Ok(true));
    let output = client.output();
    assert_eq!(output.len(), 3);
    assert_eq!(output.message(1).class, MessageClass::Ordered);
    assert_eq!(output.message(2).class, MessageClass::Frame);
}

fn plain_style() -> CellStyle {
    CellStyle {
        foreground: StyleColor::Unset,
        background: StyleColor::Unset,
        underline_color: StyleColor::Unset,
        bold: false,
        italic: false,
        faint: false,
        blink: false,
        inverse: false,
        invisible: false,
        strikethrough: false,
        overline: false,
        selected: false,
        protected: false,
        underline: Underline::Unset,
    }
}

fn minimal_frame(revision: u64) -> Frame {
    Frame {
        revision,
        dimensions: Dimensions { cols: 1, rows: 1 },
        screen: Screen::Primary,
        title: String::new(),
        working_directory: String::new(),
        capabilities: Capabilities {
            hyperlinks: true,
            kitty_graphics: false,
        },
        colors: Colors {
            background: Rgb::black(),
            foreground: Rgb::black(),
            cursor: None,
            palette: [Rgb::black(); PALETTE_LEN],
        },
        cursor: Cursor {
            visible: false,
            blinking: false,
            password_input: false,
            shape: CursorShape::Bar,
            viewport: None,
        },
        rows: vec![Row {
            wrapped: false,
            wrap_continuation: false,
            kitty_virtual_placeholder: false,
            cells: vec![Cell {
                width: CellWidth::Narrow,
                style: plain_style(),
                text: String::new(),
                hyperlink: String::new(),
            }],
        }],
    }
}

#[test]
fn repeated_metadata_is_not_queued_again() {
    let mut observer = ClientState::new(true);
    observer.receive(&encoded(&ClientMessage::ObserveMetadata));
    assert!(matches!(observer.next_incoming(), Incoming::Negotiate(_)));
    assert_eq!(observer.begin_metadata(), Ok(true));
    let metadata = Metadata {
        revision: 1,
        title: "same".into(),
        working_directory: "file:///tmp".into(),
    };
    assert_eq!(observer.push_metadata(metadata.clone()), Ok(true));
    assert_eq!(observer.push_metadata(Metadata { revision: 2, ..metadata }), Ok(true));
    assert_eq!(observer.output().len(), 2);
}

#[test]
fn failure_details_are_cut_at_a_character_boundary() {
    let short = "short".to_string();
    assert_eq!(truncate_detail(short.clone()), short);
    let exact = "a".repeat(MAX_FAILURE_BYTES);
    assert_eq!(truncate_detail(exact.clone()), exact);
    let long = format!("{}é", "a".repeat(MAX_FAILURE_BYTES - 1));
    assert_eq!(truncate_detail(long), "a".repeat(MAX_FAILURE_BYTES - 1));
    let wide = "€".repeat(400);
    let cut = truncate_detail(wide);
    assert_eq!(cut.len(), 1023);
    assert_eq!(cut, "€".repeat(341));
}

#[test]
fn new_clients_are_busy_while_one_negotiates_or_both_roles_are_taken() {
    assert!(!busy_for_new_client(false, false, false));
    assert!(!busy_for_new_client(false, true, false));
    assert!(!busy_for_new_client(false, false, true));
    assert!(busy_for_new_client(false, true, true));
    assert!(busy_for_new_client(true, false, false));
}

#[test]
fn a_taken_role_is_answered_busy() {
    let mut second = ClientState::new(true);
    second.receive(&encoded(&ClientMessage::Hello));
    let role = match second.next_incoming() {
        Incoming::Negotiate(role) => role,
        _ => panic!("hello did not negotiate"),
    };
    assert_eq!(second.take_role(role, true), Ok(false));
    assert!(second.is_closing());
    assert!(second.is_negotiating());
    assert_eq!(queued(&second), vec![ServerMessage::Busy]);

    let mut observer = ClientState::new(true);
    assert_eq!(observer.take_role(Negotiation::Metadata, false), Ok(true));
    assert!(observer.accepts_metadata());
    assert_eq!(queued(&observer), vec![ServerMessage::ObservingMetadata]);
}
