use orbit_protocol::{Error as FrameError, management, session};

#[test]
fn frame_error_texts() {
    assert_eq!(
        FrameError::FrameTooLarge { size: 5_000_000 }.message(),
        "presentation frame is 5000000 bytes; maximum is 4194304"
    );
    assert_eq!(FrameError::InvalidMagic.message(), "invalid presentation frame magic");
    assert_eq!(
        FrameError::InvalidDimensions { cols: 0, rows: 24 }.message(),
        "invalid presentation dimensions 0x24"
    );
    assert_eq!(
        FrameError::InvalidFlags { field: "cell style", value: 0x400 }.message(),
        "invalid presentation cell style flags 0x400"
    );
    assert_eq!(
        FrameError::InvalidFlags { field: "row", value: 0 }.message(),
        "invalid presentation row flags 0x0"
    );
    assert_eq!(
        FrameError::RevisionNotNewer { current: 9, incoming: 7 }.message(),
        "presentation revision 7 is not newer than 9"
    );
    assert_eq!(
        FrameError::StringTooLong { field: "title", length: 70000 }.message(),
        "presentation title is too long: 70000 bytes"
    );
}

#[test]
fn session_error_texts() {
    assert_eq!(
        session::Error::InvalidFlags { value: 255 }.message(),
        "invalid local-session flags 0xff"
    );
    assert_eq!(
        session::Error::UnsupportedVersion { version: 6 }.message(),
        "unsupported local-session version 6"
    );
    assert_eq!(session::Error::InvalidCoordinates.message(), "invalid mouse coordinates");
    assert_eq!(
        session::Error::PayloadTooLarge { size: 10, maximum: 9 }.message(),
        "message payload is 10 bytes; maximum is 9"
    );
    assert_eq!(
        session::Error::Frame(FrameError::Truncated).message(),
        "invalid presentation frame: truncated presentation frame"
    );
}

#[test]
fn management_error_texts() {
    assert_eq!(
        management::Error::ValueTooLarge { field: "Session ID", size: 129, maximum: 128 }.message(),
        "Session ID is 129 bytes; maximum is 128"
    );
    assert_eq!(
        management::Error::InvalidFlags { value: 16 }.message(),
        "invalid management flags 0x10"
    );
    assert_eq!(
        management::Error::TrailingBytes { count: 3 }.message(),
        "management value has 3 trailing bytes"
    );
}
