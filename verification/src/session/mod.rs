//! Versioned, bounded messages for one local Orbit client session (ORBS v7).

pub mod codec;
pub mod laws;
pub mod spec;

pub use codec::{
    client_message_len, decode_client_message, decode_server_message, encode_client_message,
    encode_server_message, server_message_len,
};


use crate::frame::{Frame, FrameV, Row, RowV};
use vstd::prelude::*;

verus! {

/// Local-session framing discriminator.
pub const MAGIC: &'static [u8; 4] = &[79, 82, 66, 83];

/// The only local-session revision understood by this package.
pub const VERSION: u16 = 7;

/// Fixed bytes before a message payload.
pub const HEADER_BYTES: usize = 12;

/// Largest payload accepted by the local-session decoder: two frames and the
/// fixed fields of a viewport scroll outcome.
pub const MAX_PAYLOAD_BYTES: usize = 8388621;

/// Largest paste accepted as one semantic event.
pub const MAX_PASTE_BYTES: usize = 1048576;

/// Largest copied plain text returned as one semantic result.
pub const MAX_COPY_BYTES: usize = 1048576;

/// Largest text associated with one key event.
pub const MAX_KEY_TEXT_BYTES: usize = 4096;

/// Largest client-visible failure detail.
pub const MAX_FAILURE_BYTES: usize = 1024;

/// Largest complete title/CWD metadata payload.
pub const MAX_METADATA_BYTES: usize = 8192;

/// Largest absolute whole-row distance accepted in one viewport commit.
pub const MAX_SCROLL_ROWS: i16 = 1024;

/// A local-session validation or framing failure.
#[derive(Clone, Debug, PartialEq, Eq)]
#[non_exhaustive]
pub enum Error {
    /// The message does not start with [`MAGIC`].
    InvalidMagic,
    /// The framing revision is unsupported.
    UnsupportedVersion { version: u16 },
    /// Reserved header flags are set.
    InvalidFlags { value: u8 },
    /// A payload exceeds its message-specific bound.
    PayloadTooLarge { size: usize, maximum: usize },
    /// The message ends before its declared payload does.
    Truncated,
    /// A complete message is followed by undeclared bytes.
    TrailingBytes { count: usize },
    /// A tag is unknown or invalid for the field being decoded.
    InvalidTag { field: &'static str, value: u8 },
    /// A non-tag scalar value is invalid for its field.
    InvalidValue { field: &'static str },
    /// A UTF-8 field is malformed.
    InvalidUtf8 { field: &'static str },
    /// Consumed modifiers are not a subset of active modifiers.
    ConsumedModifiersNotActive,
    /// Mouse coordinates are outside the terminal mapper's supported range.
    InvalidCoordinates,
    /// Surface dimensions are empty, inconsistent, or too large.
    InvalidSurfaceSize,
    /// An embedded ORBF frame is invalid.
    Frame(crate::frame::Error),
}

/// Local-session codec result.
pub type Result<T> = core::result::Result<T, Error>;

/// A client-to-Orbit semantic message.
#[derive(Clone, Debug, PartialEq, Eq)]
pub enum ClientMessage {
    /// Opens a session using the exact revision in the ORBS header.
    Hello,
    /// Opens one read-only title/CWD metadata observation.
    ObserveMetadata,
    /// One physical key event and its text meaning.
    Key(KeyEvent),
    /// One pointer event in surface pixels.
    Mouse(MouseEvent),
    /// A native focus transition.
    Focus(FocusEvent),
    /// Opaque pasted bytes; embedded newlines and NULs are preserved.
    Paste(Vec<u8>),
    /// A requested terminal and drawing-surface size.
    Resize(SurfaceSize),
    /// One authoritative current-viewport selection or copy action.
    Selection(SelectionAction),
    /// Read one bounded vertical row window adjacent to an exact complete frame.
    PreviewVertical { frame_revision: u64, direction: VerticalDirection },
    /// Commit one bounded whole-row movement; negative is toward older history.
    ScrollVertical { frame_revision: u64, rows: i16 },
}

/// An Orbit-to-client session message.
#[derive(Clone, Debug, PartialEq, Eq)]
pub enum ServerMessage {
    /// The client owns the single attachment at this exact ORBS revision.
    Attached,
    /// The client owns the single read-only metadata observation.
    ObservingMetadata,
    /// One authoritative title/CWD observation at a presentation revision.
    Metadata(Metadata),
    /// Another client already owns the single attachment.
    Busy,
    /// One canonical, complete Orbit presentation frame.
    Frame(Box<Frame>),
    /// Orbit accepted a semantic event.
    Accepted,
    /// Orbit rejected a message without inventing terminal input.
    Failure(Failure),
    /// The authoritative child process exited.
    Exited { code: i32 },
    /// A host selection was frozen in the presentation at this revision.
    SelectionFinished { frame_revision: u64 },
    /// One complete bounded plain-text copy result for a clipboard location.
    CopiedText { location: ClipboardLocation, text: String },
    /// One ordered terminal-emitted plain-text clipboard write.
    ClipboardWrite { location: ClipboardLocation, text: String },
    /// Read-only routing and bounded-row result for a vertical preview.
    VerticalPreview(VerticalPreview),
    /// Typed result of one accepted vertical wheel event.
    WheelOutcome(WheelOutcome),
    /// Typed result of one bounded vertical viewport commit.
    ScrollOutcome(ScrollOutcome),
}

/// One bounded, read-only terminal metadata observation.
#[derive(Clone, Debug, PartialEq, Eq)]
pub struct Metadata {
    pub revision: u64,
    pub title: String,
    pub working_directory: String,
}

/// One row direction in the authoritative scrollback.
#[derive(Clone, Copy, Debug, PartialEq, Eq, Structural)]
pub enum VerticalDirection {
    Up,
    Down,
}

/// One revision-bound, read-only vertical preview result.
#[derive(Clone, Debug, PartialEq, Eq)]
pub struct VerticalPreview {
    pub frame_revision: u64,
    pub direction: VerticalDirection,
    pub outcome: PreviewOutcome,
}

/// How Orbit would route a vertical wheel from the previewed frame.
#[derive(Clone, Debug, PartialEq, Eq)]
pub enum PreviewOutcome {
    TerminalRouted,
    Viewport {
        cols: u16,
        edge_reached: bool,
        /// Canonical rows ordered nearest-first in the requested direction.
        rows: Vec<Row>,
    },
}

/// Authoritative result of one accepted vertical wheel event.
#[derive(Clone, Debug, PartialEq, Eq)]
pub enum WheelOutcome {
    TerminalRouted,
    Viewport { applied_rows: i8, frame: Box<Frame> },
}

/// Authoritative result of one bounded vertical viewport commit.
#[derive(Clone, Debug, PartialEq, Eq)]
pub enum ScrollOutcome {
    TerminalOwned { requested_rows: i16 },
    Viewport { requested_rows: i16, applied_rows: i16, frame: Box<Frame>, next: PreviewOutcome },
}

/// Platform-neutral destination of a terminal-emitted clipboard write.
#[derive(Clone, Copy, Debug, PartialEq, Eq, Structural)]
pub enum ClipboardLocation {
    Standard,
    Selection,
    Primary,
}

/// Physical key action.
#[derive(Clone, Copy, Debug, PartialEq, Eq, Structural)]
pub enum KeyAction {
    Press,
    Release,
    Repeat,
}

/// Stable physical key identity matching Orbit's terminal-aware mapper.
///
/// The associated constants are the raw identities; [`PhysicalKey::from_raw`]
/// turns one into a key.
#[derive(Clone, Copy, Debug, PartialEq, Eq, Structural)]
pub struct PhysicalKey(u16);

impl PhysicalKey {
    /// Highest physical-key identity.
    pub const MAX_RAW: u16 = 175;
    pub const UNIDENTIFIED: u16 = 0;
    pub const BACKQUOTE: u16 = 1;
    pub const BACKSLASH: u16 = 2;
    pub const BRACKET_LEFT: u16 = 3;
    pub const BRACKET_RIGHT: u16 = 4;
    pub const COMMA: u16 = 5;
    pub const DIGIT_0: u16 = 6;
    pub const DIGIT_1: u16 = 7;
    pub const DIGIT_2: u16 = 8;
    pub const DIGIT_3: u16 = 9;
    pub const DIGIT_4: u16 = 10;
    pub const DIGIT_5: u16 = 11;
    pub const DIGIT_6: u16 = 12;
    pub const DIGIT_7: u16 = 13;
    pub const DIGIT_8: u16 = 14;
    pub const DIGIT_9: u16 = 15;
    pub const EQUAL: u16 = 16;
    pub const INTL_BACKSLASH: u16 = 17;
    pub const INTL_RO: u16 = 18;
    pub const INTL_YEN: u16 = 19;
    pub const A: u16 = 20;
    pub const B: u16 = 21;
    pub const C: u16 = 22;
    pub const D: u16 = 23;
    pub const E: u16 = 24;
    pub const F: u16 = 25;
    pub const G: u16 = 26;
    pub const H: u16 = 27;
    pub const I: u16 = 28;
    pub const J: u16 = 29;
    pub const K: u16 = 30;
    pub const L: u16 = 31;
    pub const M: u16 = 32;
    pub const N: u16 = 33;
    pub const O: u16 = 34;
    pub const P: u16 = 35;
    pub const Q: u16 = 36;
    pub const R: u16 = 37;
    pub const S: u16 = 38;
    pub const T: u16 = 39;
    pub const U: u16 = 40;
    pub const V: u16 = 41;
    pub const W: u16 = 42;
    pub const X: u16 = 43;
    pub const Y: u16 = 44;
    pub const Z: u16 = 45;
    pub const MINUS: u16 = 46;
    pub const PERIOD: u16 = 47;
    pub const QUOTE: u16 = 48;
    pub const SEMICOLON: u16 = 49;
    pub const SLASH: u16 = 50;
    pub const ALT_LEFT: u16 = 51;
    pub const ALT_RIGHT: u16 = 52;
    pub const BACKSPACE: u16 = 53;
    pub const CAPS_LOCK: u16 = 54;
    pub const CONTEXT_MENU: u16 = 55;
    pub const CONTROL_LEFT: u16 = 56;
    pub const CONTROL_RIGHT: u16 = 57;
    pub const ENTER: u16 = 58;
    pub const META_LEFT: u16 = 59;
    pub const META_RIGHT: u16 = 60;
    pub const SHIFT_LEFT: u16 = 61;
    pub const SHIFT_RIGHT: u16 = 62;
    pub const SPACE: u16 = 63;
    pub const TAB: u16 = 64;
    pub const CONVERT: u16 = 65;
    pub const KANA_MODE: u16 = 66;
    pub const NON_CONVERT: u16 = 67;
    pub const DELETE: u16 = 68;
    pub const END: u16 = 69;
    pub const HELP: u16 = 70;
    pub const HOME: u16 = 71;
    pub const INSERT: u16 = 72;
    pub const PAGE_DOWN: u16 = 73;
    pub const PAGE_UP: u16 = 74;
    pub const ARROW_DOWN: u16 = 75;
    pub const ARROW_LEFT: u16 = 76;
    pub const ARROW_RIGHT: u16 = 77;
    pub const ARROW_UP: u16 = 78;
    pub const NUM_LOCK: u16 = 79;
    pub const NUMPAD_0: u16 = 80;
    pub const NUMPAD_1: u16 = 81;
    pub const NUMPAD_2: u16 = 82;
    pub const NUMPAD_3: u16 = 83;
    pub const NUMPAD_4: u16 = 84;
    pub const NUMPAD_5: u16 = 85;
    pub const NUMPAD_6: u16 = 86;
    pub const NUMPAD_7: u16 = 87;
    pub const NUMPAD_8: u16 = 88;
    pub const NUMPAD_9: u16 = 89;
    pub const NUMPAD_ADD: u16 = 90;
    pub const NUMPAD_BACKSPACE: u16 = 91;
    pub const NUMPAD_CLEAR: u16 = 92;
    pub const NUMPAD_CLEAR_ENTRY: u16 = 93;
    pub const NUMPAD_COMMA: u16 = 94;
    pub const NUMPAD_DECIMAL: u16 = 95;
    pub const NUMPAD_DIVIDE: u16 = 96;
    pub const NUMPAD_ENTER: u16 = 97;
    pub const NUMPAD_EQUAL: u16 = 98;
    pub const NUMPAD_MEMORY_ADD: u16 = 99;
    pub const NUMPAD_MEMORY_CLEAR: u16 = 100;
    pub const NUMPAD_MEMORY_RECALL: u16 = 101;
    pub const NUMPAD_MEMORY_STORE: u16 = 102;
    pub const NUMPAD_MEMORY_SUBTRACT: u16 = 103;
    pub const NUMPAD_MULTIPLY: u16 = 104;
    pub const NUMPAD_PAREN_LEFT: u16 = 105;
    pub const NUMPAD_PAREN_RIGHT: u16 = 106;
    pub const NUMPAD_SUBTRACT: u16 = 107;
    pub const NUMPAD_SEPARATOR: u16 = 108;
    pub const NUMPAD_UP: u16 = 109;
    pub const NUMPAD_DOWN: u16 = 110;
    pub const NUMPAD_RIGHT: u16 = 111;
    pub const NUMPAD_LEFT: u16 = 112;
    pub const NUMPAD_BEGIN: u16 = 113;
    pub const NUMPAD_HOME: u16 = 114;
    pub const NUMPAD_END: u16 = 115;
    pub const NUMPAD_INSERT: u16 = 116;
    pub const NUMPAD_DELETE: u16 = 117;
    pub const NUMPAD_PAGE_UP: u16 = 118;
    pub const NUMPAD_PAGE_DOWN: u16 = 119;
    pub const ESCAPE: u16 = 120;
    pub const F1: u16 = 121;
    pub const F2: u16 = 122;
    pub const F3: u16 = 123;
    pub const F4: u16 = 124;
    pub const F5: u16 = 125;
    pub const F6: u16 = 126;
    pub const F7: u16 = 127;
    pub const F8: u16 = 128;
    pub const F9: u16 = 129;
    pub const F10: u16 = 130;
    pub const F11: u16 = 131;
    pub const F12: u16 = 132;
    pub const F13: u16 = 133;
    pub const F14: u16 = 134;
    pub const F15: u16 = 135;
    pub const F16: u16 = 136;
    pub const F17: u16 = 137;
    pub const F18: u16 = 138;
    pub const F19: u16 = 139;
    pub const F20: u16 = 140;
    pub const F21: u16 = 141;
    pub const F22: u16 = 142;
    pub const F23: u16 = 143;
    pub const F24: u16 = 144;
    pub const F25: u16 = 145;
    pub const FN: u16 = 146;
    pub const FN_LOCK: u16 = 147;
    pub const PRINT_SCREEN: u16 = 148;
    pub const SCROLL_LOCK: u16 = 149;
    pub const PAUSE: u16 = 150;
    pub const BROWSER_BACK: u16 = 151;
    pub const BROWSER_FAVORITES: u16 = 152;
    pub const BROWSER_FORWARD: u16 = 153;
    pub const BROWSER_HOME: u16 = 154;
    pub const BROWSER_REFRESH: u16 = 155;
    pub const BROWSER_SEARCH: u16 = 156;
    pub const BROWSER_STOP: u16 = 157;
    pub const EJECT: u16 = 158;
    pub const LAUNCH_APP_1: u16 = 159;
    pub const LAUNCH_APP_2: u16 = 160;
    pub const LAUNCH_MAIL: u16 = 161;
    pub const MEDIA_PLAY_PAUSE: u16 = 162;
    pub const MEDIA_SELECT: u16 = 163;
    pub const MEDIA_STOP: u16 = 164;
    pub const MEDIA_TRACK_NEXT: u16 = 165;
    pub const MEDIA_TRACK_PREVIOUS: u16 = 166;
    pub const POWER: u16 = 167;
    pub const SLEEP: u16 = 168;
    pub const AUDIO_VOLUME_DOWN: u16 = 169;
    pub const AUDIO_VOLUME_MUTE: u16 = 170;
    pub const AUDIO_VOLUME_UP: u16 = 171;
    pub const WAKE_UP: u16 = 172;
    pub const COPY: u16 = 173;
    pub const CUT: u16 = 174;
    pub const PASTE: u16 = 175;

    #[verifier::type_invariant]
    closed spec fn in_range(self) -> bool {
        self.0 <= Self::MAX_RAW
    }

    /// The raw identity, as a spec value.
    pub closed spec fn spec_raw(self) -> u16 {
        self.0
    }

    /// Constructs a physical key if it belongs to the identity set.
    pub fn from_raw(value: u16) -> (r: Option<PhysicalKey>)
        ensures
            r is Some <==> value <= Self::MAX_RAW,
            r matches Some(k) ==> k.spec_raw() == value,
    {
        if value <= Self::MAX_RAW {
            Some(PhysicalKey(value))
        } else {
            None
        }
    }

    /// Two keys are the same key exactly when their raw identities agree, so
    /// `from_raw(k.raw())` gives back `k`.
    pub proof fn law_raw_identifies(a: PhysicalKey, b: PhysicalKey)
        ensures
            (a == b) <==> (a.spec_raw() == b.spec_raw()),
    {
    }

    /// Returns the stable identity.
    pub fn raw(self) -> (r: u16)
        ensures
            r == self.spec_raw(),
            r <= Self::MAX_RAW,
    {
        proof {
            use_type_invariant(&self);
        }
        self.0
    }
}

/// Modifier bits, including lock and left/right-side information. A side bit
/// is only ever set together with its modifier.
#[derive(Clone, Copy, Debug, PartialEq, Eq, Structural)]
pub struct Modifiers(u16);

/// Whether `value` is a valid modifier set: no bits outside [`Modifiers::MASK`],
/// and each side bit only together with its modifier.
pub open spec fn modifiers_valid(value: u16) -> bool {
    &&& value & !Modifiers::MASK == 0
    &&& (value & Modifiers::SHIFT_SIDE == 0 || value & Modifiers::SHIFT != 0)
    &&& (value & Modifiers::CTRL_SIDE == 0 || value & Modifiers::CTRL != 0)
    &&& (value & Modifiers::ALT_SIDE == 0 || value & Modifiers::ALT != 0)
    &&& (value & Modifiers::SUPER_SIDE == 0 || value & Modifiers::SUPER != 0)
}

impl Modifiers {
    pub const SHIFT: u16 = 1;
    pub const CTRL: u16 = 2;
    pub const ALT: u16 = 4;
    pub const SUPER: u16 = 8;
    pub const CAPS_LOCK: u16 = 16;
    pub const NUM_LOCK: u16 = 32;
    pub const SHIFT_SIDE: u16 = 64;
    pub const CTRL_SIDE: u16 = 128;
    pub const ALT_SIDE: u16 = 256;
    pub const SUPER_SIDE: u16 = 512;
    pub const MASK: u16 = 1023;

    #[verifier::type_invariant]
    closed spec fn valid(self) -> bool {
        modifiers_valid(self.0)
    }

    /// The modifier bits, as a spec value.
    pub closed spec fn spec_bits(self) -> u16 {
        self.0
    }

    /// Two modifier sets are the same set exactly when their bits agree, so
    /// `from_bits(m.bits())` gives back `m` and `from_bits(0)` gives the
    /// empty set.
    pub proof fn law_bits_identify(a: Modifiers, b: Modifiers)
        ensures
            (a == b) <==> (a.spec_bits() == b.spec_bits()),
    {
    }

    /// Union is commutative, contains both of its operands, has the empty set
    /// as its identity, and keeps a set valid.
    pub proof fn law_union(a: Modifiers, b: Modifiers)
        ensures
            a.spec_bits() | b.spec_bits() == b.spec_bits() | a.spec_bits(),
            (a.spec_bits() | b.spec_bits()) & a.spec_bits() == a.spec_bits(),
            (a.spec_bits() | b.spec_bits()) & b.spec_bits() == b.spec_bits(),
            a.spec_bits() | 0u16 == a.spec_bits(),
            modifiers_valid(a.spec_bits()) && modifiers_valid(b.spec_bits()) ==> modifiers_valid(
                a.spec_bits() | b.spec_bits(),
            ),
    {
        let (x, y) = (a.spec_bits(), b.spec_bits());
        assert(x | y == y | x) by (bit_vector);
        assert((x | y) & x == x) by (bit_vector);
        assert((x | y) & y == y) by (bit_vector);
        assert(x | 0u16 == x) by (bit_vector);
        assert(modifiers_valid(x) && modifiers_valid(y) ==> modifiers_valid(x | y)) by (bit_vector);
    }

    pub fn empty() -> (r: Modifiers)
        ensures
            r.spec_bits() == 0,
    {
        assert(modifiers_valid(0)) by (bit_vector);
        Modifiers(0)
    }

    pub fn from_bits(value: u16) -> (r: Option<Modifiers>)
        ensures
            r is Some <==> modifiers_valid(value),
            r matches Some(m) ==> m.spec_bits() == value,
    {
        let valid_sides = (value & Self::SHIFT_SIDE == 0 || value & Self::SHIFT != 0) && (value
            & Self::CTRL_SIDE == 0 || value & Self::CTRL != 0) && (value & Self::ALT_SIDE == 0
            || value & Self::ALT != 0) && (value & Self::SUPER_SIDE == 0 || value & Self::SUPER
            != 0);
        if value & !Self::MASK == 0 && valid_sides {
            Some(Modifiers(value))
        } else {
            None
        }
    }

    pub fn bits(self) -> (r: u16)
        ensures
            r == self.spec_bits(),
            modifiers_valid(r),
    {
        proof {
            use_type_invariant(&self);
        }
        self.0
    }

    pub fn union(self, other: Modifiers) -> (r: Modifiers)
        ensures
            r.spec_bits() == self.spec_bits() | other.spec_bits(),
    {
        proof {
            use_type_invariant(&self);
            use_type_invariant(&other);
            let (a, b) = (self.0, other.0);
            assert(modifiers_valid(a) && modifiers_valid(b) ==> modifiers_valid(a | b)) by (bit_vector);
        }
        Modifiers(self.0 | other.0)
    }

    pub fn contains(self, other: Modifiers) -> (r: bool)
        ensures
            r == (self.spec_bits() & other.spec_bits() == other.spec_bits()),
    {
        self.0 & other.0 == other.0
    }
}

impl Default for Modifiers {
    fn default() -> (r: Modifiers)
        ensures
            r.spec_bits() == 0,
    {
        Modifiers::empty()
    }
}

/// Complete semantic information for one key event.
#[derive(Clone, Debug, PartialEq, Eq)]
pub struct KeyEvent {
    pub action: KeyAction,
    pub key: PhysicalKey,
    pub modifiers: Modifiers,
    pub consumed_modifiers: Modifiers,
    pub composing: bool,
    pub text: Option<String>,
    pub unshifted_codepoint: Option<char>,
}

/// Mouse action.
#[derive(Clone, Copy, Debug, PartialEq, Eq, Structural)]
pub enum MouseAction {
    Press,
    Release,
    Motion,
}

/// Mouse button identity. Four through Seven are wheel directions and are
/// valid only with [`MouseAction::Press`].
#[derive(Clone, Copy, Debug, PartialEq, Eq, Structural)]
pub enum MouseButton {
    Unknown,
    Left,
    Middle,
    Right,
    Four,
    Five,
    Six,
    Seven,
    Eight,
    Nine,
    Ten,
    Eleven,
}

/// Pointer event in surface pixels within the terminal mapper's `u16` domain.
///
/// The coordinates are carried as the IEEE-754 bits of single-precision
/// numbers, exactly as they travel on the wire.
#[derive(Clone, Copy, Debug, PartialEq, Eq, Structural)]
pub struct MouseEvent {
    pub action: MouseAction,
    /// `None` is valid only for motion with no pressed button.
    pub button: Option<MouseButton>,
    pub modifiers: Modifiers,
    pub x_bits: u32,
    pub y_bits: u32,
}

/// Native focus transition.
#[derive(Clone, Copy, Debug, PartialEq, Eq, Structural)]
pub enum FocusEvent {
    Gained,
    Lost,
}

/// Terminal grid and drawing-surface measurements within the mapper's `u16` pixel domain.
#[derive(Clone, Copy, Debug, PartialEq, Eq, Structural)]
pub struct SurfaceSize {
    pub cols: u16,
    pub rows: u16,
    pub screen_width: u32,
    pub screen_height: u32,
    pub cell_width: u32,
    pub cell_height: u32,
    pub padding_top: u32,
    pub padding_bottom: u32,
    pub padding_left: u32,
    pub padding_right: u32,
}

/// A pointer position in surface pixels, held as the IEEE-754 bits of two
/// `f32` coordinates.
#[derive(Clone, Copy, Debug, PartialEq, Eq, Structural)]
pub struct SelectionPosition {
    pub x_bits: u32,
    pub y_bits: u32,
}

/// Host selection and explicit copy actions.
#[derive(Clone, Copy, Debug, PartialEq, Eq, Structural)]
pub enum SelectionAction {
    /// Start against the exact complete frame the client used for hit testing.
    Begin {
        frame_revision: u64,
        position: SelectionPosition,
        time_ns: u64,
        modifiers: Modifiers,
    },
    /// Move the active selection endpoint.
    Update { position: SelectionPosition, modifiers: Modifiers },
    /// Freeze the selection and its bounded plain text.
    Finish { position: SelectionPosition, modifiers: Modifiers },
    /// Drop the active selection.
    Cancel,
    /// Request the last successfully frozen plain text.
    Copy,
}

/// Stable class of client-visible failure.
#[derive(Clone, Copy, Debug, PartialEq, Eq, Structural)]
pub enum FailureCode {
    InvalidInput,
    Protocol,
    Terminal,
}

/// Bounded client-visible failure detail.
#[derive(Clone, Debug, PartialEq, Eq)]
pub struct Failure {
    pub code: FailureCode,
    pub detail: String,
}

// ---------------------------------------------------------------- models

/// Mathematical model of a [`KeyEvent`].
pub struct KeyEventV {
    pub action: KeyAction,
    pub key: u16,
    pub modifiers: u16,
    pub consumed_modifiers: u16,
    pub composing: bool,
    pub text: Option<Seq<char>>,
    pub unshifted_codepoint: Option<char>,
}

/// Mathematical model of a [`MouseEvent`].
pub struct MouseEventV {
    pub action: MouseAction,
    pub button: Option<MouseButton>,
    pub modifiers: u16,
    pub x_bits: u32,
    pub y_bits: u32,
}

/// Mathematical model of a [`ClientMessage`].
pub enum ClientMessageV {
    Hello,
    ObserveMetadata,
    Key(KeyEventV),
    Mouse(MouseEventV),
    Focus(FocusEvent),
    Paste(Seq<u8>),
    Resize(SurfaceSize),
    Selection(SelectionActionV),
    PreviewVertical { frame_revision: u64, direction: VerticalDirection },
    ScrollVertical { frame_revision: u64, rows: i16 },
}

/// Mathematical model of a [`SelectionAction`].
pub enum SelectionActionV {
    Begin { frame_revision: u64, position: SelectionPosition, time_ns: u64, modifiers: u16 },
    Update { position: SelectionPosition, modifiers: u16 },
    Finish { position: SelectionPosition, modifiers: u16 },
    Cancel,
    Copy,
}

/// Mathematical model of [`Metadata`].
pub struct MetadataV {
    pub revision: u64,
    pub title: Seq<char>,
    pub working_directory: Seq<char>,
}

/// Mathematical model of a [`PreviewOutcome`].
pub enum PreviewOutcomeV {
    TerminalRouted,
    Viewport { cols: u16, edge_reached: bool, rows: Seq<RowV> },
}

/// Mathematical model of a [`VerticalPreview`].
pub struct VerticalPreviewV {
    pub frame_revision: u64,
    pub direction: VerticalDirection,
    pub outcome: PreviewOutcomeV,
}

/// Mathematical model of a [`WheelOutcome`].
pub enum WheelOutcomeV {
    TerminalRouted,
    Viewport { applied_rows: i8, frame: FrameV },
}

/// Mathematical model of a [`ScrollOutcome`].
pub enum ScrollOutcomeV {
    TerminalOwned { requested_rows: i16 },
    Viewport { requested_rows: i16, applied_rows: i16, frame: FrameV, next: PreviewOutcomeV },
}

/// Mathematical model of a [`Failure`].
pub struct FailureV {
    pub code: FailureCode,
    pub detail: Seq<char>,
}

/// Mathematical model of a [`ServerMessage`].
pub enum ServerMessageV {
    Attached,
    ObservingMetadata,
    Metadata(MetadataV),
    Busy,
    Frame(FrameV),
    Accepted,
    Failure(FailureV),
    Exited { code: i32 },
    SelectionFinished { frame_revision: u64 },
    CopiedText { location: ClipboardLocation, text: Seq<char> },
    ClipboardWrite { location: ClipboardLocation, text: Seq<char> },
    VerticalPreview(VerticalPreviewV),
    WheelOutcome(WheelOutcomeV),
    ScrollOutcome(ScrollOutcomeV),
}

impl View for KeyEvent {
    type V = KeyEventV;

    open spec fn view(&self) -> KeyEventV {
        KeyEventV {
            action: self.action,
            key: self.key.spec_raw(),
            modifiers: self.modifiers.spec_bits(),
            consumed_modifiers: self.consumed_modifiers.spec_bits(),
            composing: self.composing,
            text: match self.text {
                Some(t) => Some(t@),
                None => None,
            },
            unshifted_codepoint: self.unshifted_codepoint,
        }
    }
}

impl View for MouseEvent {
    type V = MouseEventV;

    open spec fn view(&self) -> MouseEventV {
        MouseEventV {
            action: self.action,
            button: self.button,
            modifiers: self.modifiers.spec_bits(),
            x_bits: self.x_bits,
            y_bits: self.y_bits,
        }
    }
}

impl View for SelectionAction {
    type V = SelectionActionV;

    open spec fn view(&self) -> SelectionActionV {
        match self {
            SelectionAction::Begin { frame_revision, position, time_ns, modifiers } => SelectionActionV::Begin {
                frame_revision: *frame_revision,
                position: *position,
                time_ns: *time_ns,
                modifiers: modifiers.spec_bits(),
            },
            SelectionAction::Update { position, modifiers } => SelectionActionV::Update {
                position: *position,
                modifiers: modifiers.spec_bits(),
            },
            SelectionAction::Finish { position, modifiers } => SelectionActionV::Finish {
                position: *position,
                modifiers: modifiers.spec_bits(),
            },
            SelectionAction::Cancel => SelectionActionV::Cancel,
            SelectionAction::Copy => SelectionActionV::Copy,
        }
    }
}

impl View for ClientMessage {
    type V = ClientMessageV;

    open spec fn view(&self) -> ClientMessageV {
        match self {
            ClientMessage::Hello => ClientMessageV::Hello,
            ClientMessage::ObserveMetadata => ClientMessageV::ObserveMetadata,
            ClientMessage::Key(e) => ClientMessageV::Key(e@),
            ClientMessage::Mouse(e) => ClientMessageV::Mouse(e@),
            ClientMessage::Focus(e) => ClientMessageV::Focus(*e),
            ClientMessage::Paste(b) => ClientMessageV::Paste(b@),
            ClientMessage::Resize(s) => ClientMessageV::Resize(*s),
            ClientMessage::Selection(a) => ClientMessageV::Selection(a@),
            ClientMessage::PreviewVertical { frame_revision, direction } => ClientMessageV::PreviewVertical {
                frame_revision: *frame_revision,
                direction: *direction,
            },
            ClientMessage::ScrollVertical { frame_revision, rows } => ClientMessageV::ScrollVertical {
                frame_revision: *frame_revision,
                rows: *rows,
            },
        }
    }
}

impl View for Metadata {
    type V = MetadataV;

    open spec fn view(&self) -> MetadataV {
        MetadataV {
            revision: self.revision,
            title: self.title@,
            working_directory: self.working_directory@,
        }
    }
}

impl View for PreviewOutcome {
    type V = PreviewOutcomeV;

    open spec fn view(&self) -> PreviewOutcomeV {
        match self {
            PreviewOutcome::TerminalRouted => PreviewOutcomeV::TerminalRouted,
            PreviewOutcome::Viewport { cols, edge_reached, rows } => PreviewOutcomeV::Viewport {
                cols: *cols,
                edge_reached: *edge_reached,
                rows: rows@.map_values(|r: Row| r@),
            },
        }
    }
}

impl View for VerticalPreview {
    type V = VerticalPreviewV;

    open spec fn view(&self) -> VerticalPreviewV {
        VerticalPreviewV {
            frame_revision: self.frame_revision,
            direction: self.direction,
            outcome: self.outcome@,
        }
    }
}

impl View for WheelOutcome {
    type V = WheelOutcomeV;

    open spec fn view(&self) -> WheelOutcomeV {
        match self {
            WheelOutcome::TerminalRouted => WheelOutcomeV::TerminalRouted,
            WheelOutcome::Viewport { applied_rows, frame } => WheelOutcomeV::Viewport {
                applied_rows: *applied_rows,
                frame: (**frame)@,
            },
        }
    }
}

impl View for ScrollOutcome {
    type V = ScrollOutcomeV;

    open spec fn view(&self) -> ScrollOutcomeV {
        match self {
            ScrollOutcome::TerminalOwned { requested_rows } => ScrollOutcomeV::TerminalOwned {
                requested_rows: *requested_rows,
            },
            ScrollOutcome::Viewport { requested_rows, applied_rows, frame, next } => ScrollOutcomeV::Viewport {
                requested_rows: *requested_rows,
                applied_rows: *applied_rows,
                frame: (**frame)@,
                next: next@,
            },
        }
    }
}

impl View for Failure {
    type V = FailureV;

    open spec fn view(&self) -> FailureV {
        FailureV { code: self.code, detail: self.detail@ }
    }
}

impl View for ServerMessage {
    type V = ServerMessageV;

    open spec fn view(&self) -> ServerMessageV {
        match self {
            ServerMessage::Attached => ServerMessageV::Attached,
            ServerMessage::ObservingMetadata => ServerMessageV::ObservingMetadata,
            ServerMessage::Metadata(m) => ServerMessageV::Metadata(m@),
            ServerMessage::Busy => ServerMessageV::Busy,
            ServerMessage::Frame(f) => ServerMessageV::Frame((**f)@),
            ServerMessage::Accepted => ServerMessageV::Accepted,
            ServerMessage::Failure(f) => ServerMessageV::Failure(f@),
            ServerMessage::Exited { code } => ServerMessageV::Exited { code: *code },
            ServerMessage::SelectionFinished { frame_revision } => ServerMessageV::SelectionFinished {
                frame_revision: *frame_revision,
            },
            ServerMessage::CopiedText { location, text } => ServerMessageV::CopiedText {
                location: *location,
                text: text@,
            },
            ServerMessage::ClipboardWrite { location, text } => ServerMessageV::ClipboardWrite {
                location: *location,
                text: text@,
            },
            ServerMessage::VerticalPreview(p) => ServerMessageV::VerticalPreview(p@),
            ServerMessage::WheelOutcome(w) => ServerMessageV::WheelOutcome(w@),
            ServerMessage::ScrollOutcome(s) => ServerMessageV::ScrollOutcome(s@),
        }
    }
}

} // verus!
