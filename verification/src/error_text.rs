//! The human-readable text of each codec error.

use crate::frame::{self, MAX_FRAME_BYTES};
use crate::management;
use crate::session;
use crate::text::{TextBuilder, decimal, hex};
use vstd::prelude::*;

verus! {

/// The text of a frame error.
pub open spec fn frame_error_text(e: frame::Error) -> Seq<char> {
    match e {
        frame::Error::FrameTooLarge { size } => "presentation frame is "@ + decimal(size as nat)
            + " bytes; maximum is "@ + decimal(MAX_FRAME_BYTES as nat),
        frame::Error::InvalidMagic => "invalid presentation frame magic"@,
        frame::Error::UnsupportedVersion { version } => "unsupported presentation frame version "@
            + decimal(version as nat),
        frame::Error::Truncated => "truncated presentation frame"@,
        frame::Error::TrailingBytes { count } => "presentation frame has "@ + decimal(count as nat)
            + " trailing bytes"@,
        frame::Error::InvalidDimensions { cols, rows } => "invalid presentation dimensions "@
            + decimal(cols as nat) + "x"@ + decimal(rows as nat),
        frame::Error::InvalidUtf8 { field } => "presentation "@ + field@ + " is not UTF-8"@,
        frame::Error::InvalidTag { field, value } => "invalid presentation "@ + field@ + " tag "@
            + decimal(value as nat),
        frame::Error::InvalidFlags { field, value } => "invalid presentation "@ + field@
            + " flags 0x"@ + hex(value as nat),
        frame::Error::InvalidShape { field } => "presentation frame has invalid "@ + field@
            + " shape"@,
        frame::Error::StringTooLong { field, length } => "presentation "@ + field@
            + " is too long: "@ + decimal(length as nat) + " bytes"@,
        frame::Error::RevisionNotNewer { current, incoming } => "presentation revision "@ + decimal(
            incoming as nat,
        ) + " is not newer than "@ + decimal(current as nat),
    }
}

/// The text of a local-session error.
pub open spec fn session_error_text(e: session::Error) -> Seq<char> {
    match e {
        session::Error::InvalidMagic => "invalid local-session message magic"@,
        session::Error::UnsupportedVersion { version } => "unsupported local-session version "@
            + decimal(version as nat),
        session::Error::InvalidFlags { value } => "invalid local-session flags 0x"@ + hex(
            value as nat,
        ),
        session::Error::PayloadTooLarge { size, maximum } => "message payload is "@ + decimal(
            size as nat,
        ) + " bytes; maximum is "@ + decimal(maximum as nat),
        session::Error::Truncated => "truncated local-session message"@,
        session::Error::TrailingBytes { count } => "local-session message has "@ + decimal(
            count as nat,
        ) + " trailing bytes"@,
        session::Error::InvalidTag { field, value } => "invalid local-session "@ + field@ + " tag "@
            + decimal(value as nat),
        session::Error::InvalidValue { field } => "invalid local-session "@ + field@,
        session::Error::InvalidUtf8 { field } => "local-session "@ + field@ + " is not UTF-8"@,
        session::Error::ConsumedModifiersNotActive => "consumed key modifiers are not active"@,
        session::Error::InvalidCoordinates => "invalid mouse coordinates"@,
        session::Error::InvalidSurfaceSize => "invalid surface size"@,
        session::Error::Frame(error) => "invalid presentation frame: "@ + frame_error_text(error),
    }
}

/// The text of a management error.
pub open spec fn management_error_text(e: management::Error) -> Seq<char> {
    match e {
        management::Error::InvalidMagic => "invalid management magic"@,
        management::Error::UnsupportedVersion { version } => "unsupported management version "@
            + decimal(version as nat),
        management::Error::InvalidFlags { value } => "invalid management flags 0x"@ + hex(
            value as nat,
        ),
        management::Error::PayloadTooLarge { size, maximum } => "management payload is "@ + decimal(
            size as nat,
        ) + " bytes; maximum is "@ + decimal(maximum as nat),
        management::Error::ValueTooLarge { field, size, maximum } => field@ + " is "@ + decimal(
            size as nat,
        ) + " bytes; maximum is "@ + decimal(maximum as nat),
        management::Error::Truncated => "truncated management value"@,
        management::Error::TrailingBytes { count } => "management value has "@ + decimal(
            count as nat,
        ) + " trailing bytes"@,
        management::Error::InvalidTag { field, value } => "invalid management "@ + field@ + " tag "@
            + decimal(value as nat),
        management::Error::InvalidValue { field } => "invalid management "@ + field@,
        management::Error::InvalidUtf8 { field } => "management "@ + field@ + " is not UTF-8"@,
    }
}

fn push_frame_error(t: &mut TextBuilder, e: &frame::Error)
    requires
        old(t).wf(),
    ensures
        final(t).wf(),
        final(t).text() == old(t).text() + frame_error_text(*e),
{
    let ghost start = t.text();
    match e {
        frame::Error::FrameTooLarge { size } => {
            t.push_str("presentation frame is ");
            t.push_decimal(*size as u64);
            t.push_str(" bytes; maximum is ");
            t.push_decimal(MAX_FRAME_BYTES as u64);
        },
        frame::Error::InvalidMagic => t.push_str("invalid presentation frame magic"),
        frame::Error::UnsupportedVersion { version } => {
            t.push_str("unsupported presentation frame version ");
            t.push_decimal(*version as u64);
        },
        frame::Error::Truncated => t.push_str("truncated presentation frame"),
        frame::Error::TrailingBytes { count } => {
            t.push_str("presentation frame has ");
            t.push_decimal(*count as u64);
            t.push_str(" trailing bytes");
        },
        frame::Error::InvalidDimensions { cols, rows } => {
            t.push_str("invalid presentation dimensions ");
            t.push_decimal(*cols as u64);
            t.push_str("x");
            t.push_decimal(*rows as u64);
        },
        frame::Error::InvalidUtf8 { field } => {
            t.push_str("presentation ");
            t.push_str(field);
            t.push_str(" is not UTF-8");
        },
        frame::Error::InvalidTag { field, value } => {
            t.push_str("invalid presentation ");
            t.push_str(field);
            t.push_str(" tag ");
            t.push_decimal(*value as u64);
        },
        frame::Error::InvalidFlags { field, value } => {
            t.push_str("invalid presentation ");
            t.push_str(field);
            t.push_str(" flags 0x");
            t.push_hex(*value as u64);
        },
        frame::Error::InvalidShape { field } => {
            t.push_str("presentation frame has invalid ");
            t.push_str(field);
            t.push_str(" shape");
        },
        frame::Error::StringTooLong { field, length } => {
            t.push_str("presentation ");
            t.push_str(field);
            t.push_str(" is too long: ");
            t.push_decimal(*length as u64);
            t.push_str(" bytes");
        },
        frame::Error::RevisionNotNewer { current, incoming } => {
            t.push_str("presentation revision ");
            t.push_decimal(*incoming);
            t.push_str(" is not newer than ");
            t.push_decimal(*current);
        },
    }
    assert(t.text() =~= start + frame_error_text(*e));
}

impl frame::Error {
    /// The error's text.
    pub fn message(&self) -> (s: String)
        ensures
            s@ == frame_error_text(*self),
    {
        let mut t = TextBuilder::new();
        push_frame_error(&mut t, self);
        assert(Seq::<char>::empty() + frame_error_text(*self) =~= frame_error_text(*self));
        t.finish()
    }
}

impl session::Error {
    /// The error's text.
    pub fn message(&self) -> (s: String)
        ensures
            s@ == session_error_text(*self),
    {
        let mut t = TextBuilder::new();
        match self {
            session::Error::InvalidMagic => t.push_str("invalid local-session message magic"),
            session::Error::UnsupportedVersion { version } => {
                t.push_str("unsupported local-session version ");
                t.push_decimal(*version as u64);
            },
            session::Error::InvalidFlags { value } => {
                t.push_str("invalid local-session flags 0x");
                t.push_hex(*value as u64);
            },
            session::Error::PayloadTooLarge { size, maximum } => {
                t.push_str("message payload is ");
                t.push_decimal(*size as u64);
                t.push_str(" bytes; maximum is ");
                t.push_decimal(*maximum as u64);
            },
            session::Error::Truncated => t.push_str("truncated local-session message"),
            session::Error::TrailingBytes { count } => {
                t.push_str("local-session message has ");
                t.push_decimal(*count as u64);
                t.push_str(" trailing bytes");
            },
            session::Error::InvalidTag { field, value } => {
                t.push_str("invalid local-session ");
                t.push_str(field);
                t.push_str(" tag ");
                t.push_decimal(*value as u64);
            },
            session::Error::InvalidValue { field } => {
                t.push_str("invalid local-session ");
                t.push_str(field);
            },
            session::Error::InvalidUtf8 { field } => {
                t.push_str("local-session ");
                t.push_str(field);
                t.push_str(" is not UTF-8");
            },
            session::Error::ConsumedModifiersNotActive => t.push_str(
                "consumed key modifiers are not active",
            ),
            session::Error::InvalidCoordinates => t.push_str("invalid mouse coordinates"),
            session::Error::InvalidSurfaceSize => t.push_str("invalid surface size"),
            session::Error::Frame(error) => {
                t.push_str("invalid presentation frame: ");
                push_frame_error(&mut t, error);
            },
        }
        assert(t.text() =~= session_error_text(*self));
        t.finish()
    }
}

impl management::Error {
    /// The error's text.
    pub fn message(&self) -> (s: String)
        ensures
            s@ == management_error_text(*self),
    {
        let mut t = TextBuilder::new();
        match self {
            management::Error::InvalidMagic => t.push_str("invalid management magic"),
            management::Error::UnsupportedVersion { version } => {
                t.push_str("unsupported management version ");
                t.push_decimal(*version as u64);
            },
            management::Error::InvalidFlags { value } => {
                t.push_str("invalid management flags 0x");
                t.push_hex(*value as u64);
            },
            management::Error::PayloadTooLarge { size, maximum } => {
                t.push_str("management payload is ");
                t.push_decimal(*size as u64);
                t.push_str(" bytes; maximum is ");
                t.push_decimal(*maximum as u64);
            },
            management::Error::ValueTooLarge { field, size, maximum } => {
                t.push_str(field);
                t.push_str(" is ");
                t.push_decimal(*size as u64);
                t.push_str(" bytes; maximum is ");
                t.push_decimal(*maximum as u64);
            },
            management::Error::Truncated => t.push_str("truncated management value"),
            management::Error::TrailingBytes { count } => {
                t.push_str("management value has ");
                t.push_decimal(*count as u64);
                t.push_str(" trailing bytes");
            },
            management::Error::InvalidTag { field, value } => {
                t.push_str("invalid management ");
                t.push_str(field);
                t.push_str(" tag ");
                t.push_decimal(*value as u64);
            },
            management::Error::InvalidValue { field } => {
                t.push_str("invalid management ");
                t.push_str(field);
            },
            management::Error::InvalidUtf8 { field } => {
                t.push_str("management ");
                t.push_str(field);
                t.push_str(" is not UTF-8");
            },
        }
        assert(t.text() =~= management_error_text(*self));
        t.finish()
    }
}

} // verus!
