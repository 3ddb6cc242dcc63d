use orbit_protocol::attachment::{ClientState, Incoming};
use orbit_protocol::clipboard::{CaptureError, MAX_PENDING_CLIPBOARD_WRITES, PendingClipboardWrites};
use orbit_protocol::output_queue::{MAX_OUTPUT_BYTES, MessageClass};
use orbit_protocol::session::{
    self, ClientMessage, ClipboardLocation, MAX_COPY_BYTES, ServerMessage,
};

const PLAIN: &[u8] = b"text/plain";

fn capture(
    pending: &mut PendingClipboardWrites,
    location: ClipboardLocation,
    data: &[u8],
) -> Result<(), CaptureError> {
    pending.capture(Some(location), 1, Some(PLAIN), Some(data))
}

fn texts(pending: &PendingClipboardWrites) -> Vec<(ClipboardLocation, String)> {
    (0..pending.len())
        .map(|index| {
            let (location, text) = pending.entry(index);
            (location, text.to_string())
        })
        .collect()
}

#[test]
fn clipboard_capture_is_attached_typed_and_bounded() {
    let mut pending = PendingClipboardWrites::new();
    assert_eq!(
        capture(&mut pending, ClipboardLocation::Standard, b"detached"),
        Err(CaptureError::Denied)
    );
    assert_eq!(pending.len(), 0);

    pending.set_enabled(true);
    assert_eq!(
        capture(&mut pending, ClipboardLocation::Standard, b""),
        Err(CaptureError::InvalidData)
    );
    assert_eq!(
        capture(&mut pending, ClipboardLocation::Standard, b"a\0b"),
        Err(CaptureError::InvalidData)
    );
    assert_eq!(
        capture(&mut pending, ClipboardLocation::Standard, b"\xff"),
        Err(CaptureError::InvalidData)
    );
    assert_eq!(capture(&mut pending, ClipboardLocation::Standard, b"one"), Ok(()));
    assert_eq!(capture(&mut pending, ClipboardLocation::Selection, b"two"), Ok(()));
    assert_eq!(capture(&mut pending, ClipboardLocation::Primary, b"three"), Ok(()));
    assert_eq!(
        texts(&pending),
        vec![
            (ClipboardLocation::Standard, "one".to_string()),
            (ClipboardLocation::Selection, "two".to_string()),
            (ClipboardLocation::Primary, "three".to_string()),
        ]
    );

    let oversized = vec![b'x'; MAX_COPY_BYTES + 1];
    assert_eq!(
        capture(&mut pending, ClipboardLocation::Standard, &oversized),
        Err(CaptureError::InvalidData)
    );
    assert_eq!(pending.len(), 3);
    assert_eq!(
        pending.capture(None, 1, Some(PLAIN), Some(b"x")),
        Err(CaptureError::Unsupported)
    );
    assert_eq!(
        pending.capture(Some(ClipboardLocation::Standard), 2, Some(PLAIN), Some(b"x")),
        Err(CaptureError::Unsupported)
    );
    assert_eq!(
        pending.capture(Some(ClipboardLocation::Standard), 1, Some(b"text/html"), Some(b"x")),
        Err(CaptureError::Unsupported)
    );

    for _ in pending.len()..MAX_PENDING_CLIPBOARD_WRITES {
        assert_eq!(capture(&mut pending, ClipboardLocation::Standard, b"x"), Ok(()));
    }
    assert!(!pending.is_overflowed());
    assert_eq!(
        capture(&mut pending, ClipboardLocation::Standard, b"x"),
        Err(CaptureError::Busy)
    );
    assert!(pending.is_overflowed());
    assert_eq!(
        capture(&mut pending, ClipboardLocation::Standard, b"x"),
        Err(CaptureError::Busy)
    );

    pending.clear();
    pending.set_enabled(true);
    let nearly_full = vec![b'x'; MAX_COPY_BYTES - 1];
    assert_eq!(capture(&mut pending, ClipboardLocation::Standard, &nearly_full), Ok(()));
    assert_eq!(
        capture(&mut pending, ClipboardLocation::Standard, b"xx"),
        Err(CaptureError::Busy)
    );
    assert_eq!(pending.len(), 1);
    assert!(pending.is_overflowed());

    pending.clear();
    assert_eq!(
        capture(&mut pending, ClipboardLocation::Primary, b"not-replayed"),
        Err(CaptureError::Denied)
    );
    assert_eq!(pending.len(), 0);
}

fn attached() -> ClientState {
    let mut client = ClientState::new(true);
    client.receive(&session::encode_client_message(&ClientMessage::Hello).unwrap());
    assert!(matches!(client.next_incoming(), Incoming::Negotiate(_)));
    assert_eq!(client.begin_interactive(), Ok(true));
    client
}

#[test]
fn clipboard_writes_are_published_in_order() {
    let mut client = attached();
    let mut pending = PendingClipboardWrites::new();
    pending.set_enabled(true);
    assert_eq!(capture(&mut pending, ClipboardLocation::Standard, b"one"), Ok(()));
    assert_eq!(capture(&mut pending, ClipboardLocation::Primary, b"two"), Ok(()));
    assert_eq!(pending.publish(&mut client), Ok(true));
    assert_eq!(pending.len(), 0);
    let output = client.output();
    assert_eq!(output.len(), 3);
    for (index, (location, text)) in [(1, (ClipboardLocation::Standard, "one")), (2, (ClipboardLocation::Primary, "two"))] {
        assert_eq!(output.message(index).class, MessageClass::Ordered);
        assert_eq!(
            session::decode_server_message(&output.message(index).bytes).unwrap(),
            ServerMessage::ClipboardWrite { location, text: text.into() }
        );
    }
}

fn copied(text: String) -> ServerMessage {
    ServerMessage::CopiedText { location: ClipboardLocation::Standard, text }
}

#[test]
fn clipboard_output_pressure_disconnects_without_retaining_effects() {
    let mut client = attached();
    let overhead = session::encode_server_message(&copied("x".into()))
        .unwrap()
        .len()
        - 1;
    loop {
        let room = MAX_OUTPUT_BYTES - client.output().unsent_bytes();
        if room < overhead + 10 {
            break;
        }
        let n = (room - overhead - 5).min(MAX_COPY_BYTES);
        let filler = copied("x".repeat(n));
        assert_eq!(client.push_message(&filler), Ok(true));
    }
    let mut pending = PendingClipboardWrites::new();
    pending.set_enabled(true);
    assert_eq!(capture(&mut pending, ClipboardLocation::Standard, b"copy that does not fit"), Ok(()));
    assert_eq!(pending.publish(&mut client), Ok(false));
    assert_eq!(pending.len(), 0);
}

#[test]
fn a_client_that_takes_no_output_gets_no_clipboard_writes() {
    let mut observer = ClientState::new(true);
    let mut pending = PendingClipboardWrites::new();
    pending.set_enabled(true);
    assert_eq!(capture(&mut pending, ClipboardLocation::Standard, b"one"), Ok(()));
    assert_eq!(pending.publish(&mut observer), Ok(true));
    assert_eq!(pending.len(), 0);
    assert!(observer.output().is_empty());
}
