use orbit_protocol::session::{
    ClientMessage, ClipboardLocation, Error, Failure, FailureCode, FocusEvent, HEADER_BYTES,
    KeyAction, KeyEvent, MAGIC, MAX_COPY_BYTES, MAX_FAILURE_BYTES, MAX_KEY_TEXT_BYTES,
    MAX_METADATA_BYTES, MAX_PASTE_BYTES, MAX_PAYLOAD_BYTES, MAX_SCROLL_ROWS, Metadata, Modifiers,
    MouseAction, MouseButton, MouseEvent, PhysicalKey, PreviewOutcome, ScrollOutcome,
    SelectionAction, ServerMessage, SurfaceSize, VERSION, VerticalDirection, VerticalPreview,
    SelectionPosition, WheelOutcome, client_message_len, decode_client_message, decode_server_message,
    encode_client_message, encode_server_message, server_message_len,
};
use orbit_protocol::{
    Capabilities, Cell, CellStyle, CellWidth, Colors, Cursor, CursorShape, Dimensions, Frame,
    MAX_FRAME_BYTES, MIN_FRAME_BYTES, PALETTE_LEN, Rgb, Row, Screen, StyleColor, Underline,
    encode_canonical_row,
};

const CLIENT_HELLO: u8 = 1;
const CLIENT_PASTE: u8 = 5;
const SERVER_BUSY: u8 = 130;
const SERVER_FRAME: u8 = 132;
const SERVER_FAILURE: u8 = 134;
const SERVER_COPIED_TEXT: u8 = 136;
const SERVER_CLIPBOARD_WRITE: u8 = 137;
const SERVER_SCROLL_VIEWPORT: u8 = 146;

fn mods(bits: u16) -> Modifiers {
    Modifiers::from_bits(bits).unwrap()
}

fn position(x: f32, y: f32) -> SelectionPosition {
    SelectionPosition {
        x_bits: x.to_bits(),
        y_bits: y.to_bits(),
    }
}

fn key(raw: u16) -> PhysicalKey {
    PhysicalKey::from_raw(raw).unwrap()
}

fn mouse_action_tag(action: MouseAction) -> u8 {
    match action {
        MouseAction::Press => 0,
        MouseAction::Release => 1,
        MouseAction::Motion => 2,
    }
}

fn frame() -> Frame {
    Frame {
        revision: 7,
        dimensions: Dimensions { cols: 1, rows: 1 },
        screen: Screen::Primary,
        title: "session".into(),
        working_directory: "/tmp".into(),
        capabilities: Capabilities {
            hyperlinks: true,
            kitty_graphics: false,
        },
        colors: Colors {
            background: Rgb::black(),
            foreground: Rgb {
                r: 240,
                g: 240,
                b: 240,
            },
            cursor: None,
            palette: [Rgb::black(); PALETTE_LEN],
        },
        cursor: Cursor {
            visible: true,
            blinking: false,
            password_input: false,
            shape: CursorShape::Block,
            viewport: None,
        },
        rows: vec![Row {
            wrapped: false,
            wrap_continuation: false,
            kitty_virtual_placeholder: false,
            cells: vec![Cell {
                width: CellWidth::Narrow,
                style: CellStyle {
                    foreground: StyleColor::Unset,
                    background: StyleColor::Unset,
                    underline_color: StyleColor::Unset,
                    bold: false,
                    italic: false,
                    faint: false,
                    blink: false,
                    inverse: false,
                    invisible: false,
                    strikethrough: false,
                    overline: false,
                    selected: false,
                    protected: false,
                    underline: Underline::Unset,
                },
                text: "界".into(),
                hyperlink: "https://example.test".into(),
            }],
        }],
    }
}

fn header(kind: u8, payload: usize) -> [u8; HEADER_BYTES] {
    let mut header = [0; HEADER_BYTES];
    header[..4].copy_from_slice(MAGIC);
    header[4..6].copy_from_slice(&VERSION.to_le_bytes());
    header[6] = kind;
    header[8..12].copy_from_slice(&(payload as u32).to_le_bytes());
    header
}

#[test]
fn tests_every_client_message_round_trips() {
    let messages = [
        ClientMessage::Hello,
        ClientMessage::ObserveMetadata,
        ClientMessage::Key(KeyEvent {
            action: KeyAction::Repeat,
            key: key(PhysicalKey::A),
            modifiers: mods(Modifiers::CTRL)
                .union(mods(Modifiers::SHIFT))
                .union(mods(Modifiers::SHIFT | Modifiers::SHIFT_SIDE)),
            consumed_modifiers: mods(Modifiers::SHIFT),
            composing: true,
            text: Some("e\u{301}".into()),
            unshifted_codepoint: Some('e'),
        }),
        ClientMessage::Mouse(MouseEvent {
            action: MouseAction::Motion,
            button: Some(MouseButton::Eleven),
            modifiers: mods(Modifiers::ALT),
            x_bits: 12.5f32.to_bits(),
            y_bits: 4.25f32.to_bits(),
        }),
        ClientMessage::Focus(FocusEvent::Gained),
        ClientMessage::Paste(b"first\nsecond\0\xff".to_vec()),
        ClientMessage::Resize(SurfaceSize {
            cols: 100,
            rows: 40,
            screen_width: 920,
            screen_height: 740,
            cell_width: 9,
            cell_height: 18,
            padding_top: 10,
            padding_bottom: 10,
            padding_left: 10,
            padding_right: 10,
        }),
        ClientMessage::Selection(SelectionAction::Begin {
            frame_revision: 42,
            position: position(31.5, 72.25),
            time_ns: 1_000_000_000,
            modifiers: mods(Modifiers::SHIFT),
        }),
        ClientMessage::Selection(SelectionAction::Update {
            position: position(49.5, 108.25),
            modifiers: mods(Modifiers::CTRL),
        }),
        ClientMessage::Selection(SelectionAction::Finish {
            position: position(67.5, 144.25),
            modifiers: mods(Modifiers::ALT),
        }),
        ClientMessage::Selection(SelectionAction::Cancel),
        ClientMessage::Selection(SelectionAction::Copy),
    ];

    for message in messages {
        let encoded = encode_client_message(&message).unwrap();
        assert_eq!(client_message_len(&encoded).unwrap(), Some(encoded.len()));
        assert_eq!(decode_client_message(&encoded).unwrap(), message);
    }
}

#[test]
fn tests_every_server_message_round_trips() {
    let messages = [
        ServerMessage::Attached,
        ServerMessage::ObservingMetadata,
        ServerMessage::Metadata(Metadata {
            revision: 8,
            title: "Codex ◐".into(),
            working_directory: "file:///tmp/eon session".into(),
        }),
        ServerMessage::Busy,
        ServerMessage::Frame(Box::new(frame())),
        ServerMessage::Accepted,
        ServerMessage::SelectionFinished { frame_revision: 9 },
        ServerMessage::Failure(Failure {
            code: FailureCode::InvalidInput,
            detail: "bad key".into(),
        }),
        ServerMessage::CopiedText {
            location: ClipboardLocation::Selection,
            text: "first\n界e\u{301}".into(),
        },
        ServerMessage::CopiedText {
            location: ClipboardLocation::Standard,
            text: String::new(),
        },
        ServerMessage::ClipboardWrite {
            location: ClipboardLocation::Primary,
            text: "copied by zellij".into(),
        },
        ServerMessage::Exited { code: 17 },
    ];

    for message in messages {
        let encoded = encode_server_message(&message).unwrap();
        assert_eq!(server_message_len(&encoded).unwrap(), Some(encoded.len()));
        assert_eq!(decode_server_message(&encoded).unwrap(), message);
    }
}

#[test]
fn tests_every_mouse_button_round_trips() {
    for button in [
        MouseButton::Unknown,
        MouseButton::Left,
        MouseButton::Middle,
        MouseButton::Right,
        MouseButton::Four,
        MouseButton::Five,
        MouseButton::Six,
        MouseButton::Seven,
        MouseButton::Eight,
        MouseButton::Nine,
        MouseButton::Ten,
        MouseButton::Eleven,
    ] {
        let message = ClientMessage::Mouse(MouseEvent {
            action: MouseAction::Press,
            button: Some(button),
            modifiers: Modifiers::empty(),
            x_bits: 1.0f32.to_bits(),
            y_bits: 2.0f32.to_bits(),
        });
        assert_eq!(
            decode_client_message(&encode_client_message(&message).unwrap()).unwrap(),
            message
        );
    }

    assert!(Modifiers::from_bits(Modifiers::SHIFT_SIDE).is_none());
}

#[test]
fn tests_mouse_action_button_combinations_are_canonical() {
    let mouse = |action, button| {
        ClientMessage::Mouse(MouseEvent {
            action,
            button,
            modifiers: Modifiers::empty(),
            x_bits: 1.0f32.to_bits(),
            y_bits: 2.0f32.to_bits(),
        })
    };

    for action in [MouseAction::Press, MouseAction::Release] {
        assert_eq!(
            encode_client_message(&mouse(action, None)),
            Err(Error::InvalidValue {
                field: "mouse button"
            })
        );
    }

    let mut invalid = encode_client_message(&mouse(MouseAction::Motion, None)).unwrap();
    invalid[HEADER_BYTES] = mouse_action_tag(MouseAction::Press);
    assert_eq!(
        decode_client_message(&invalid),
        Err(Error::InvalidValue {
            field: "mouse button"
        })
    );

    for action in [MouseAction::Release, MouseAction::Motion] {
        assert_eq!(
            encode_client_message(&mouse(action, Some(MouseButton::Four))),
            Err(Error::InvalidValue {
                field: "mouse action"
            })
        );

        let mut invalid =
            encode_client_message(&mouse(MouseAction::Press, Some(MouseButton::Four))).unwrap();
        invalid[HEADER_BYTES] = mouse_action_tag(action);
        assert_eq!(
            decode_client_message(&invalid),
            Err(Error::InvalidValue {
                field: "mouse action"
            })
        );
    }
}

#[test]
fn tests_framing_is_incremental_strict_and_bounded() {
    let encoded = encode_client_message(&ClientMessage::Hello).unwrap();
    for end in 0..HEADER_BYTES {
        assert_eq!(client_message_len(&encoded[..end]).unwrap(), None);
    }
    for end in 0..encoded.len() {
        assert_eq!(
            decode_client_message(&encoded[..end]),
            Err(Error::Truncated)
        );
    }

    let mut corrupt = encoded.clone();
    corrupt[4..6].copy_from_slice(&10_u16.to_le_bytes());
    assert_eq!(
        client_message_len(&corrupt),
        Err(Error::UnsupportedVersion { version: 10 })
    );
    corrupt = encoded.clone();
    corrupt[0] ^= 1;
    assert_eq!(client_message_len(&corrupt), Err(Error::InvalidMagic));
    corrupt = encoded.clone();
    corrupt[4..6].copy_from_slice(&(VERSION + 1).to_le_bytes());
    assert_eq!(
        client_message_len(&corrupt),
        Err(Error::UnsupportedVersion {
            version: VERSION + 1,
        })
    );
    corrupt = encoded.clone();
    corrupt[7] = 1;
    assert_eq!(
        client_message_len(&corrupt),
        Err(Error::InvalidFlags { value: 1 })
    );
    let mut trailing = encoded;
    trailing.push(0);
    assert_eq!(
        decode_client_message(&trailing),
        Err(Error::TrailingBytes { count: 1 })
    );
}

#[test]
fn tests_declared_payloads_are_validated_from_the_header() {
    assert_eq!(
        client_message_len(&header(u8::MAX, 0)),
        Err(Error::InvalidTag {
            field: "client message",
            value: u8::MAX,
        })
    );
    assert_eq!(
        client_message_len(&header(CLIENT_PASTE, MAX_PASTE_BYTES + 1)),
        Err(Error::PayloadTooLarge {
            size: MAX_PASTE_BYTES + 1,
            maximum: MAX_PASTE_BYTES,
        })
    );
    assert_eq!(
        client_message_len(&header(CLIENT_HELLO, 1)),
        Err(Error::PayloadTooLarge {
            size: 1,
            maximum: 0,
        })
    );
    assert_eq!(
        client_message_len(&header(SERVER_BUSY, 0)),
        Err(Error::InvalidTag {
            field: "client message",
            value: SERVER_BUSY,
        })
    );
    assert_eq!(
        server_message_len(&header(CLIENT_HELLO, 0)),
        Err(Error::InvalidTag {
            field: "server message",
            value: CLIENT_HELLO,
        })
    );
    assert_eq!(
        server_message_len(&header(SERVER_FAILURE, MAX_FAILURE_BYTES + 6)),
        Err(Error::PayloadTooLarge {
            size: MAX_FAILURE_BYTES + 6,
            maximum: MAX_FAILURE_BYTES + 5,
        })
    );
    let mut minimum_frame = frame();
    minimum_frame.title.clear();
    minimum_frame.working_directory.clear();
    minimum_frame.rows[0].cells[0].text.clear();
    minimum_frame.rows[0].cells[0].hyperlink.clear();
    let message = ServerMessage::Frame(Box::new(minimum_frame));
    let encoded = encode_server_message(&message).unwrap();
    assert_eq!(encoded.len(), HEADER_BYTES + MIN_FRAME_BYTES);
    assert_eq!(decode_server_message(&encoded), Ok(message));

    assert_eq!(
        server_message_len(&header(SERVER_FRAME, MIN_FRAME_BYTES - 1)),
        Err(Error::InvalidValue {
            field: "message payload length",
        })
    );
    assert_eq!(
        server_message_len(&header(SERVER_FRAME, MAX_FRAME_BYTES + 1)),
        Err(Error::PayloadTooLarge {
            size: MAX_FRAME_BYTES + 1,
            maximum: MAX_FRAME_BYTES,
        })
    );
    assert_eq!(
        server_message_len(&header(SERVER_SCROLL_VIEWPORT, MAX_PAYLOAD_BYTES + 1)),
        Err(Error::PayloadTooLarge {
            size: MAX_PAYLOAD_BYTES + 1,
            maximum: MAX_PAYLOAD_BYTES,
        })
    );
}

#[test]
fn tests_semantic_values_reject_invalid_states() {
    assert!(PhysicalKey::from_raw(PhysicalKey::MAX_RAW).is_some());
    assert!(PhysicalKey::from_raw(PhysicalKey::MAX_RAW + 1).is_none());
    assert!(Modifiers::from_bits(Modifiers::MASK).is_some());
    assert!(Modifiers::from_bits(Modifiers::MASK + 1).is_none());
    assert!(Modifiers::from_bits(Modifiers::SHIFT_SIDE).is_none());

    let oversized = ClientMessage::Paste(vec![0; MAX_PASTE_BYTES + 1]);
    assert_eq!(
        encode_client_message(&oversized),
        Err(Error::PayloadTooLarge {
            size: MAX_PASTE_BYTES + 1,
            maximum: MAX_PASTE_BYTES,
        })
    );

    let oversized = ServerMessage::CopiedText {
        location: ClipboardLocation::Standard,
        text: "x".repeat(MAX_COPY_BYTES + 1),
    };
    assert_eq!(
        encode_server_message(&oversized),
        Err(Error::PayloadTooLarge {
            size: MAX_COPY_BYTES + 1,
            maximum: MAX_COPY_BYTES,
        })
    );

    let oversized = ServerMessage::Metadata(Metadata {
        revision: 1,
        title: "x".repeat(MAX_METADATA_BYTES),
        working_directory: String::new(),
    });
    assert!(matches!(
        encode_server_message(&oversized),
        Err(Error::PayloadTooLarge {
            maximum: MAX_METADATA_BYTES,
            ..
        })
    ));

    for invalid in [
        ServerMessage::ClipboardWrite {
            location: ClipboardLocation::Standard,
            text: String::new(),
        },
        ServerMessage::ClipboardWrite {
            location: ClipboardLocation::Selection,
            text: "contains\0nul".into(),
        },
    ] {
        assert_eq!(
            encode_server_message(&invalid),
            Err(Error::InvalidValue {
                field: "clipboard text",
            })
        );
    }

    let oversized = ServerMessage::ClipboardWrite {
        location: ClipboardLocation::Primary,
        text: "x".repeat(MAX_COPY_BYTES + 1),
    };
    assert_eq!(
        encode_server_message(&oversized),
        Err(Error::PayloadTooLarge {
            size: MAX_COPY_BYTES + 1,
            maximum: MAX_COPY_BYTES,
        })
    );

    let invalid = ClientMessage::Key(KeyEvent {
        action: KeyAction::Press,
        key: key(PhysicalKey::A),
        modifiers: Modifiers::empty(),
        consumed_modifiers: mods(Modifiers::CTRL),
        composing: false,
        text: Some("a".into()),
        unshifted_codepoint: Some('a'),
    });
    assert_eq!(
        encode_client_message(&invalid),
        Err(Error::ConsumedModifiersNotActive)
    );

    for text in ["\u{1b}", "\u{7f}", "\u{f700}"] {
        let invalid = ClientMessage::Key(KeyEvent {
            action: KeyAction::Press,
            key: key(PhysicalKey::UNIDENTIFIED),
            modifiers: Modifiers::empty(),
            consumed_modifiers: Modifiers::empty(),
            composing: false,
            text: Some(text.into()),
            unshifted_codepoint: None,
        });
        assert_eq!(
            encode_client_message(&invalid),
            Err(Error::InvalidValue { field: "key text" })
        );
    }

    let invalid = ClientMessage::Mouse(MouseEvent {
        action: MouseAction::Motion,
        button: None,
        modifiers: Modifiers::empty(),
        x_bits: f32::NAN.to_bits(),
        y_bits: 0.0f32.to_bits(),
    });
    assert_eq!(
        encode_client_message(&invalid),
        Err(Error::InvalidCoordinates)
    );

    let mut mouse = MouseEvent {
        action: MouseAction::Motion,
        button: None,
        modifiers: Modifiers::empty(),
        x_bits: f32::from(u16::MAX).to_bits(),
        y_bits: f32::from(u16::MAX).to_bits(),
    };
    assert!(encode_client_message(&ClientMessage::Mouse(mouse)).is_ok());
    mouse.x_bits = (f32::from(u16::MAX) + 1.0).to_bits();
    assert_eq!(
        encode_client_message(&ClientMessage::Mouse(mouse)),
        Err(Error::InvalidCoordinates)
    );

    let mut size = SurfaceSize {
        cols: 1,
        rows: 1,
        screen_width: u32::from(u16::MAX),
        screen_height: 1,
        cell_width: 1,
        cell_height: 1,
        padding_top: 0,
        padding_bottom: 0,
        padding_left: 0,
        padding_right: 0,
    };
    assert!(encode_client_message(&ClientMessage::Resize(size)).is_ok());
    size.screen_width += 1;
    assert_eq!(
        encode_client_message(&ClientMessage::Resize(size)),
        Err(Error::InvalidSurfaceSize)
    );

    let invalid = ClientMessage::Resize(SurfaceSize {
        cols: 100,
        rows: 40,
        screen_width: 899,
        screen_height: 720,
        cell_width: 9,
        cell_height: 18,
        padding_top: 0,
        padding_bottom: 0,
        padding_left: 0,
        padding_right: 0,
    });
    assert_eq!(
        encode_client_message(&invalid),
        Err(Error::InvalidSurfaceSize)
    );
}

#[test]
fn tests_malformed_typed_payloads_are_rejected() {
    let key_message = ClientMessage::Key(KeyEvent {
        action: KeyAction::Press,
        key: key(PhysicalKey::A),
        modifiers: mods(Modifiers::SHIFT),
        consumed_modifiers: Modifiers::empty(),
        composing: false,
        text: Some("a".into()),
        unshifted_codepoint: Some('a'),
    });
    let encoded = encode_client_message(&key_message).unwrap();

    let mut corrupt = encoded.clone();
    corrupt[6] = u8::MAX;
    assert!(matches!(
        decode_client_message(&corrupt),
        Err(Error::InvalidTag {
            field: "client message",
            ..
        })
    ));

    let mut corrupt = encoded.clone();
    corrupt[15..17].copy_from_slice(&(Modifiers::MASK + 1).to_le_bytes());
    assert_eq!(
        decode_client_message(&corrupt),
        Err(Error::InvalidValue { field: "modifiers" })
    );

    let mut corrupt = encoded.clone();
    corrupt[24] = b'\x1b';
    assert_eq!(
        decode_client_message(&corrupt),
        Err(Error::InvalidValue { field: "key text" })
    );

    let mut corrupt = encoded.clone();
    corrupt[24] = 0xff;
    assert_eq!(
        decode_client_message(&corrupt),
        Err(Error::InvalidUtf8 { field: "key text" })
    );

    let mut corrupt = encoded;
    corrupt[25..29].copy_from_slice(&0xd800_u32.to_le_bytes());
    assert_eq!(
        decode_client_message(&corrupt),
        Err(Error::InvalidValue {
            field: "unshifted codepoint"
        })
    );

    let mut corrupt = encode_client_message(&ClientMessage::Resize(SurfaceSize {
        cols: 1,
        rows: 1,
        screen_width: 8,
        screen_height: 16,
        cell_width: 8,
        cell_height: 16,
        padding_top: 0,
        padding_bottom: 0,
        padding_left: 0,
        padding_right: 0,
    }))
    .unwrap();
    corrupt[12..14].fill(0);
    assert_eq!(
        decode_client_message(&corrupt),
        Err(Error::InvalidSurfaceSize)
    );

    let server = encode_server_message(&ServerMessage::Busy).unwrap();
    assert!(matches!(
        decode_client_message(&server),
        Err(Error::InvalidTag {
            field: "client message",
            ..
        })
    ));

    let mut selection = encode_client_message(&ClientMessage::Selection(SelectionAction::Begin {
        frame_revision: 1,
        position: position(0.0, 0.0),
        time_ns: 0,
        modifiers: Modifiers::empty(),
    }))
    .unwrap();
    selection[HEADER_BYTES] = u8::MAX;
    assert_eq!(
        decode_client_message(&selection),
        Err(Error::InvalidTag {
            field: "selection action",
            value: u8::MAX,
        })
    );

    let invalid_selection = ClientMessage::Selection(SelectionAction::Update {
        position: position(f32::NAN, 0.0),
        modifiers: Modifiers::empty(),
    });
    assert_eq!(
        encode_client_message(&invalid_selection),
        Err(Error::InvalidCoordinates)
    );

    let mut invalid_selection =
        encode_client_message(&ClientMessage::Selection(SelectionAction::Begin {
            frame_revision: 1,
            position: position(0.0, 0.0),
            time_ns: 0,
            modifiers: Modifiers::empty(),
        }))
        .unwrap();
    invalid_selection[HEADER_BYTES + 19..HEADER_BYTES + 23]
        .copy_from_slice(&f32::NAN.to_bits().to_le_bytes());
    assert_eq!(
        decode_client_message(&invalid_selection),
        Err(Error::InvalidCoordinates)
    );

    let mut invalid_modifiers =
        encode_client_message(&ClientMessage::Selection(SelectionAction::Begin {
            frame_revision: 1,
            position: position(0.0, 0.0),
            time_ns: 0,
            modifiers: Modifiers::empty(),
        }))
        .unwrap();
    invalid_modifiers[HEADER_BYTES + 17..HEADER_BYTES + 19]
        .copy_from_slice(&u16::MAX.to_le_bytes());
    assert_eq!(
        decode_client_message(&invalid_modifiers),
        Err(Error::InvalidValue { field: "modifiers" })
    );

    let mut copied = encode_server_message(&ServerMessage::CopiedText {
        location: ClipboardLocation::Selection,
        text: "text".into(),
    })
    .unwrap();
    let mut invalid_copied_location = copied.clone();
    invalid_copied_location[HEADER_BYTES] = u8::MAX;
    assert_eq!(
        decode_server_message(&invalid_copied_location),
        Err(Error::InvalidTag {
            field: "clipboard location",
            value: u8::MAX,
        })
    );
    copied[HEADER_BYTES + 1] = 0xff;
    assert_eq!(
        decode_server_message(&copied),
        Err(Error::InvalidUtf8 {
            field: "copied text"
        })
    );

    let mut metadata = encode_server_message(&ServerMessage::Metadata(Metadata {
        revision: 1,
        title: "text".into(),
        working_directory: "file:///tmp".into(),
    }))
    .unwrap();
    metadata[HEADER_BYTES + 12] = 0xff;
    assert_eq!(
        decode_server_message(&metadata),
        Err(Error::InvalidUtf8 {
            field: "metadata title",
        })
    );

    let clipboard = ServerMessage::ClipboardWrite {
        location: ClipboardLocation::Standard,
        text: "text".into(),
    };
    let mut invalid = encode_server_message(&clipboard).unwrap();
    invalid[HEADER_BYTES] = u8::MAX;
    assert_eq!(
        decode_server_message(&invalid),
        Err(Error::InvalidTag {
            field: "clipboard location",
            value: u8::MAX,
        })
    );

    let mut invalid = encode_server_message(&clipboard).unwrap();
    invalid[HEADER_BYTES + 1] = 0xff;
    assert_eq!(
        decode_server_message(&invalid),
        Err(Error::InvalidUtf8 {
            field: "clipboard text",
        })
    );

    assert_eq!(
        server_message_len(&header(SERVER_COPIED_TEXT, MAX_COPY_BYTES + 2)),
        Err(Error::PayloadTooLarge {
            size: MAX_COPY_BYTES + 2,
            maximum: MAX_COPY_BYTES + 1,
        })
    );
    assert_eq!(
        server_message_len(&header(SERVER_CLIPBOARD_WRITE, MAX_COPY_BYTES + 2)),
        Err(Error::PayloadTooLarge {
            size: MAX_COPY_BYTES + 2,
            maximum: MAX_COPY_BYTES + 1,
        })
    );
}

#[test]
fn vertical_preview_and_wheel_outcomes_are_canonical() {
    let request = ClientMessage::PreviewVertical {
        frame_revision: 7,
        direction: VerticalDirection::Up,
    };
    assert_eq!(
        decode_client_message(&encode_client_message(&request).unwrap()).unwrap(),
        request
    );
    let mut invalid_direction = encode_client_message(&request).unwrap();
    invalid_direction[HEADER_BYTES + 8] = u8::MAX;
    assert_eq!(
        decode_client_message(&invalid_direction),
        Err(Error::InvalidTag {
            field: "vertical direction",
            value: u8::MAX,
        })
    );

    let row = frame().rows.remove(0);
    let mut older = row.clone();
    older.cells[0].text = "older".into();
    for message in [
        ServerMessage::VerticalPreview(VerticalPreview {
            frame_revision: 7,
            direction: VerticalDirection::Up,
            outcome: PreviewOutcome::TerminalRouted,
        }),
        ServerMessage::VerticalPreview(VerticalPreview {
            frame_revision: 7,
            direction: VerticalDirection::Down,
            outcome: PreviewOutcome::Viewport {
                cols: 1,
                edge_reached: false,
                rows: vec![row.clone(), older.clone()],
            },
        }),
        ServerMessage::VerticalPreview(VerticalPreview {
            frame_revision: 7,
            direction: VerticalDirection::Down,
            outcome: PreviewOutcome::Viewport {
                cols: 1,
                edge_reached: true,
                rows: Vec::new(),
            },
        }),
        ServerMessage::VerticalPreview(VerticalPreview {
            frame_revision: 7,
            direction: VerticalDirection::Up,
            outcome: PreviewOutcome::Viewport {
                cols: 1,
                edge_reached: true,
                rows: vec![older.clone()],
            },
        }),
        ServerMessage::WheelOutcome(WheelOutcome::TerminalRouted),
        ServerMessage::WheelOutcome(WheelOutcome::Viewport {
            applied_rows: -1,
            frame: Box::new(frame()),
        }),
        ServerMessage::WheelOutcome(WheelOutcome::Viewport {
            applied_rows: 0,
            frame: Box::new(frame()),
        }),
        ServerMessage::WheelOutcome(WheelOutcome::Viewport {
            applied_rows: 1,
            frame: Box::new(frame()),
        }),
    ] {
        let encoded = encode_server_message(&message).unwrap();
        assert_eq!(server_message_len(&encoded).unwrap(), Some(encoded.len()));
        assert_eq!(decode_server_message(&encoded).unwrap(), message);
    }

    for invalid in [
        ServerMessage::VerticalPreview(VerticalPreview {
            frame_revision: 7,
            direction: VerticalDirection::Up,
            outcome: PreviewOutcome::Viewport {
                cols: 1,
                edge_reached: false,
                rows: Vec::new(),
            },
        }),
        ServerMessage::VerticalPreview(VerticalPreview {
            frame_revision: 7,
            direction: VerticalDirection::Up,
            outcome: PreviewOutcome::Viewport {
                cols: 0,
                edge_reached: true,
                rows: Vec::new(),
            },
        }),
        ServerMessage::VerticalPreview(VerticalPreview {
            frame_revision: 7,
            direction: VerticalDirection::Up,
            outcome: PreviewOutcome::Viewport {
                cols: 2,
                edge_reached: false,
                rows: vec![row],
            },
        }),
        ServerMessage::WheelOutcome(WheelOutcome::Viewport {
            applied_rows: 2,
            frame: Box::new(frame()),
        }),
    ] {
        assert!(encode_server_message(&invalid).is_err());
    }

    let mut oversized = frame().rows.remove(0);
    oversized.cells[0].text = "x".repeat(MAX_FRAME_BYTES);
    assert!(matches!(
        encode_server_message(&ServerMessage::VerticalPreview(VerticalPreview {
            frame_revision: 7,
            direction: VerticalDirection::Up,
            outcome: PreviewOutcome::Viewport {
                cols: 1,
                edge_reached: false,
                rows: vec![oversized],
            },
        })),
        Err(Error::Frame(orbit_protocol::Error::FrameTooLarge { .. }))
    ));
    let mut maximum_row = frame().rows.remove(0);
    let remaining = MAX_FRAME_BYTES - encode_canonical_row(&maximum_row, 1).unwrap().len();
    maximum_row.cells[0].text.push_str(&"x".repeat(remaining));
    let maximum = encode_server_message(&ServerMessage::VerticalPreview(VerticalPreview {
        frame_revision: 7,
        direction: VerticalDirection::Up,
        outcome: PreviewOutcome::Viewport {
            cols: 1,
            edge_reached: false,
            rows: vec![maximum_row],
        },
    }))
    .unwrap();
    assert_eq!(maximum.len(), HEADER_BYTES + MAX_FRAME_BYTES + 15);

    let preview = ServerMessage::VerticalPreview(VerticalPreview {
        frame_revision: 7,
        direction: VerticalDirection::Down,
        outcome: PreviewOutcome::Viewport {
            cols: 1,
            edge_reached: false,
            rows: vec![frame().rows.remove(0)],
        },
    });
    let encoded = encode_server_message(&preview).unwrap();
    let mut inconsistent = encoded.clone();
    inconsistent[HEADER_BYTES + 10..HEADER_BYTES + 12].copy_from_slice(&2_u16.to_le_bytes());
    assert!(matches!(
        decode_server_message(&inconsistent),
        Err(Error::Frame(orbit_protocol::Error::Truncated))
    ));
    let mut invalid_edge = encoded.clone();
    invalid_edge[HEADER_BYTES + 12] = 2;
    assert_eq!(
        decode_server_message(&invalid_edge),
        Err(Error::InvalidTag {
            field: "preview edge",
            value: 2,
        })
    );
    let mut invalid_count = encoded.clone();
    invalid_count[HEADER_BYTES + 13..HEADER_BYTES + 15].copy_from_slice(&2_u16.to_le_bytes());
    assert!(matches!(
        decode_server_message(&invalid_count),
        Err(Error::Frame(orbit_protocol::Error::Truncated))
    ));
    let mut invalid_cells = encoded.clone();
    invalid_cells[HEADER_BYTES + 10..HEADER_BYTES + 12].copy_from_slice(&u16::MAX.to_le_bytes());
    invalid_cells[HEADER_BYTES + 13..HEADER_BYTES + 15].copy_from_slice(&2_u16.to_le_bytes());
    assert_eq!(
        decode_server_message(&invalid_cells),
        Err(Error::InvalidValue {
            field: "preview cell count",
        })
    );
    let mut trailing = encoded.clone();
    trailing.push(0);
    assert_eq!(
        decode_server_message(&trailing),
        Err(Error::TrailingBytes { count: 1 })
    );
    assert_eq!(
        decode_server_message(&encoded[..encoded.len() - 1]),
        Err(Error::Truncated)
    );
}

#[test]
fn vertical_scroll_batches_are_bounded_and_canonical() {
    for rows in [-MAX_SCROLL_ROWS, -1, 1, MAX_SCROLL_ROWS] {
        let request = ClientMessage::ScrollVertical {
            frame_revision: 7,
            rows,
        };
        assert_eq!(
            decode_client_message(&encode_client_message(&request).unwrap()).unwrap(),
            request
        );
    }
    for rows in [0, -MAX_SCROLL_ROWS - 1, MAX_SCROLL_ROWS + 1] {
        assert!(
            encode_client_message(&ClientMessage::ScrollVertical {
                frame_revision: 7,
                rows,
            })
            .is_err()
        );
    }

    let terminal_owned = ServerMessage::ScrollOutcome(ScrollOutcome::TerminalOwned {
        requested_rows: -MAX_SCROLL_ROWS,
    });
    let viewport = ServerMessage::ScrollOutcome(ScrollOutcome::Viewport {
        requested_rows: -MAX_SCROLL_ROWS,
        applied_rows: -3,
        frame: Box::new(frame()),
        next: PreviewOutcome::Viewport {
            cols: 1,
            edge_reached: false,
            rows: vec![frame().rows.remove(0)],
        },
    });
    for message in [terminal_owned, viewport.clone()] {
        let encoded = encode_server_message(&message).unwrap();
        assert_eq!(server_message_len(&encoded).unwrap(), Some(encoded.len()));
        assert_eq!(decode_server_message(&encoded).unwrap(), message);
    }
    let mut invalid = encode_server_message(&viewport).unwrap();
    invalid[HEADER_BYTES + 2..HEADER_BYTES + 4].copy_from_slice(&1_i16.to_le_bytes());
    assert_eq!(
        decode_server_message(&invalid),
        Err(Error::InvalidValue {
            field: "applied scroll rows",
        })
    );

    for (requested_rows, applied_rows) in [(0, 0), (2, 3), (2, -1), (-2, 1)] {
        assert!(
            encode_server_message(&ServerMessage::ScrollOutcome(ScrollOutcome::Viewport {
                requested_rows,
                applied_rows,
                frame: Box::new(frame()),
                next: PreviewOutcome::Viewport {
                    cols: 1,
                    edge_reached: true,
                    rows: Vec::new(),
                },
            }))
            .is_err()
        );
    }
    assert!(
        encode_server_message(&ServerMessage::ScrollOutcome(
            ScrollOutcome::TerminalOwned { requested_rows: 0 }
        ))
        .is_err()
    );
    assert!(
        encode_server_message(&ServerMessage::ScrollOutcome(ScrollOutcome::Viewport {
            requested_rows: 1,
            applied_rows: 1,
            frame: Box::new(frame()),
            next: PreviewOutcome::TerminalRouted,
        }))
        .is_err()
    );

    let request = ClientMessage::ScrollVertical {
        frame_revision: 7,
        rows: 1,
    };
    let mut invalid_request = encode_client_message(&request).unwrap();
    invalid_request[HEADER_BYTES + 8..HEADER_BYTES + 10]
        .copy_from_slice(&(MAX_SCROLL_ROWS + 1).to_le_bytes());
    assert_eq!(
        decode_client_message(&invalid_request),
        Err(Error::InvalidValue {
            field: "vertical scroll rows",
        })
    );
}

// ---------------------------------------------------------------- further cases

#[test]
fn key_text_bounds_and_codepoints() {
    let long = ClientMessage::Key(KeyEvent {
        action: KeyAction::Press,
        key: key(PhysicalKey::A),
        modifiers: Modifiers::empty(),
        consumed_modifiers: Modifiers::empty(),
        composing: false,
        text: Some("a".repeat(MAX_KEY_TEXT_BYTES + 1)),
        unshifted_codepoint: None,
    });
    assert_eq!(
        encode_client_message(&long),
        Err(Error::PayloadTooLarge {
            size: MAX_KEY_TEXT_BYTES + 1,
            maximum: MAX_KEY_TEXT_BYTES,
        })
    );
    let exact = ClientMessage::Key(KeyEvent {
        action: KeyAction::Release,
        key: key(PhysicalKey::MAX_RAW),
        modifiers: mods(Modifiers::SUPER | Modifiers::SUPER_SIDE),
        consumed_modifiers: mods(Modifiers::SUPER),
        composing: false,
        text: Some("é".repeat(MAX_KEY_TEXT_BYTES / 2)),
        unshifted_codepoint: Some('\u{10ffff}'),
    });
    let encoded = encode_client_message(&exact).unwrap();
    assert_eq!(encoded.len(), HEADER_BYTES + 16 + MAX_KEY_TEXT_BYTES);
    assert_eq!(decode_client_message(&encoded).unwrap(), exact);
    let mut bad_key = encoded.clone();
    bad_key[HEADER_BYTES + 1..HEADER_BYTES + 3].copy_from_slice(&176_u16.to_le_bytes());
    assert_eq!(
        decode_client_message(&bad_key),
        Err(Error::InvalidValue { field: "physical key" })
    );
}

#[test]
fn encoded_client_messages_have_their_exact_layout() {
    let focus = encode_client_message(&ClientMessage::Focus(FocusEvent::Lost)).unwrap();
    assert_eq!(focus, vec![b'O', b'R', b'B', b'S', 7, 0, 4, 0, 1, 0, 0, 0, 1]);
    let scroll = encode_client_message(&ClientMessage::ScrollVertical {
        frame_revision: 2,
        rows: -1,
    })
    .unwrap();
    assert_eq!(
        &scroll[HEADER_BYTES..],
        &[2, 0, 0, 0, 0, 0, 0, 0, 0xff, 0xff]
    );
    let negative_zero = ClientMessage::Mouse(MouseEvent {
        action: MouseAction::Motion,
        button: None,
        modifiers: Modifiers::empty(),
        x_bits: (-0.0f32).to_bits(),
        y_bits: 0.0f32.to_bits(),
    });
    assert!(encode_client_message(&negative_zero).is_ok());
}

#[test]
fn keys_and_modifiers_are_their_raw_values() {
    let a = key(PhysicalKey::A);
    assert_eq!(a.raw(), 20);
    assert_eq!(PhysicalKey::from_raw(a.raw()), Some(a));
    let shift = mods(Modifiers::SHIFT);
    let ctrl = mods(Modifiers::CTRL);
    assert_eq!(shift.union(ctrl), ctrl.union(shift));
    assert!(shift.union(ctrl).contains(shift));
    assert!(shift.union(ctrl).contains(ctrl));
    assert_eq!(Modifiers::from_bits(0), Some(Modifiers::empty()));
    assert_eq!(Modifiers::empty(), Modifiers::default());
    assert_eq!(shift.union(Modifiers::empty()), shift);
    assert!(Modifiers::from_bits(shift.union(ctrl).bits()).is_some());
}
