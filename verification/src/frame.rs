//! Canonical owned values of one ORBF v1 presentation frame.

use vstd::prelude::*;

verus! {

/// Maximum decoded cell count accepted by ORBF v1.
pub const MAX_CELLS: usize = 100_000;

/// Maximum encoded ORBF v1 payload size.
pub const MAX_FRAME_BYTES: usize = 4194304;

/// ORBF frame discriminator.
pub const MAGIC: &'static [u8; 4] = &[79, 82, 66, 70];

/// The only protocol revision accepted by this package.
pub const VERSION: u16 = 1;

/// Number of RGB entries in an ORBF v1 palette.
pub const PALETTE_LEN: usize = 256;

pub const ROW_FLAG_MASK: u8 = 7;

pub const STYLE_FLAG_MASK: u16 = 1023;

pub const STRING_LENGTH_BYTES: usize = 4;

pub const FRAME_FIXED_BYTES: usize = 801;

pub const ROW_FIXED_BYTES: usize = 1;

pub const CELL_FIXED_BYTES: usize = 16;

/// Smallest possible encoded frame: one row of one cell with empty strings.
pub const MIN_FRAME_BYTES: usize = 834;

pub open spec fn magic_bytes() -> Seq<u8> {
    seq![79u8, 82u8, 66u8, 70u8]
}

/// A protocol validation or revision-ordering failure.
#[derive(Clone, Debug, PartialEq, Eq)]
#[non_exhaustive]
pub enum Error {
    /// The payload exceeds [`MAX_FRAME_BYTES`].
    FrameTooLarge { size: usize },
    /// The payload is not an ORBF frame.
    InvalidMagic,
    /// The payload declares an unsupported ORBF revision.
    UnsupportedVersion { version: u16 },
    /// The payload ends before a declared value is complete.
    Truncated,
    /// A complete frame is followed by undeclared bytes.
    TrailingBytes { count: usize },
    /// The dimensions are empty, overflow, or exceed [`MAX_CELLS`].
    InvalidDimensions { cols: u16, rows: u16 },
    /// A string field is not UTF-8.
    InvalidUtf8 { field: &'static str },
    /// A tagged field has an unknown or noncanonical value.
    InvalidTag { field: &'static str, value: u8 },
    /// Reserved flag bits are set.
    InvalidFlags { field: &'static str, value: u16 },
    /// An owned frame does not match its declared dimensions.
    InvalidShape { field: &'static str },
    /// A string cannot be represented by the ORBF v1 length prefix.
    StringTooLong { field: &'static str, length: usize },
    /// A complete frame revision is not strictly newer than the current one.
    RevisionNotNewer { current: u64, incoming: u64 },
}

/// ORBF operations return one concrete, dependency-free error type.
pub type Result<T> = core::result::Result<T, Error>;

/// Terminal viewport dimensions in cells.
#[derive(Clone, Copy, Debug, PartialEq, Eq, Structural)]
pub struct Dimensions {
    pub cols: u16,
    pub rows: u16,
}

/// The active authoritative terminal screen.
#[derive(Clone, Copy, Debug, PartialEq, Eq, Structural)]
pub enum Screen {
    Primary,
    Alternate,
}

/// Capabilities carried by this complete frame.
#[derive(Clone, Copy, Debug, PartialEq, Eq, Structural)]
pub struct Capabilities {
    /// Must be true in ORBF v1: frames carry hyperlink metadata.
    pub hyperlinks: bool,
    /// Must be false in ORBF v1: Kitty graphics are unsupported.
    pub kitty_graphics: bool,
}

/// An RGB color with eight-bit channels.
#[derive(Clone, Copy, Debug, Default, PartialEq, Eq, Structural)]
pub struct Rgb {
    pub r: u8,
    pub g: u8,
    pub b: u8,
}

impl Rgb {
    /// The all-zero color.
    pub fn black() -> (c: Rgb)
        ensures
            c == (Rgb { r: 0, g: 0, b: 0 }),
    {
        Rgb { r: 0, g: 0, b: 0 }
    }
}

/// Frame-wide colors and the active 256-color palette.
#[derive(Clone, Debug, PartialEq, Eq)]
pub struct Colors {
    pub background: Rgb,
    pub foreground: Rgb,
    pub cursor: Option<Rgb>,
    pub palette: [Rgb; PALETTE_LEN],
}

/// Cursor rendering shape.
#[derive(Clone, Copy, Debug, PartialEq, Eq, Structural)]
pub enum CursorShape {
    Bar,
    Block,
    Underline,
    BlockHollow,
}

/// Cursor position relative to the current viewport.
#[derive(Clone, Copy, Debug, PartialEq, Eq, Structural)]
pub struct CursorViewport {
    pub x: u16,
    pub y: u16,
    pub at_wide_tail: bool,
}

/// Complete cursor presentation state.
#[derive(Clone, Copy, Debug, PartialEq, Eq, Structural)]
pub struct Cursor {
    pub visible: bool,
    pub blinking: bool,
    pub password_input: bool,
    pub shape: CursorShape,
    pub viewport: Option<CursorViewport>,
}

/// A cell-relative color reference.
#[derive(Clone, Copy, Debug, PartialEq, Eq, Structural)]
pub enum StyleColor {
    /// No explicit color: the terminal default applies.
    Unset,
    Palette(u8),
    Rgb(Rgb),
}

/// Underline presentation style.
#[derive(Clone, Copy, Debug, PartialEq, Eq, Structural)]
pub enum Underline {
    /// No underline.
    Unset,
    Single,
    Double,
    Curly,
    Dotted,
    Dashed,
}

/// Complete presentation style for one cell.
#[derive(Clone, Copy, Debug, PartialEq, Eq, Structural)]
pub struct CellStyle {
    pub foreground: StyleColor,
    pub background: StyleColor,
    pub underline_color: StyleColor,
    pub bold: bool,
    pub italic: bool,
    pub faint: bool,
    pub blink: bool,
    pub inverse: bool,
    pub invisible: bool,
    pub strikethrough: bool,
    pub overline: bool,
    pub selected: bool,
    pub protected: bool,
    pub underline: Underline,
}

/// Width role of a cell in the terminal grid.
#[derive(Clone, Copy, Debug, PartialEq, Eq, Structural)]
pub enum CellWidth {
    Narrow,
    Wide,
    SpacerTail,
    SpacerHead,
}

/// One decoded presentation cell.
#[derive(Clone, Debug, PartialEq, Eq)]
pub struct Cell {
    pub width: CellWidth,
    pub style: CellStyle,
    pub text: String,
    pub hyperlink: String,
}

/// One decoded viewport row.
#[derive(Clone, Debug, PartialEq, Eq)]
pub struct Row {
    pub wrapped: bool,
    pub wrap_continuation: bool,
    pub kitty_virtual_placeholder: bool,
    pub cells: Vec<Cell>,
}

/// One complete ORBF v1 presentation revision.
#[derive(Clone, Debug, PartialEq, Eq)]
pub struct Frame {
    pub revision: u64,
    pub dimensions: Dimensions,
    pub screen: Screen,
    pub title: String,
    pub working_directory: String,
    pub capabilities: Capabilities,
    pub colors: Colors,
    pub cursor: Cursor,
    pub rows: Vec<Row>,
}

/// Mathematical model of a [`Cell`].
pub struct CellV {
    pub width: CellWidth,
    pub style: CellStyle,
    pub text: Seq<char>,
    pub hyperlink: Seq<char>,
}

/// Mathematical model of a [`Row`].
pub struct RowV {
    pub wrapped: bool,
    pub wrap_continuation: bool,
    pub kitty_virtual_placeholder: bool,
    pub cells: Seq<CellV>,
}

/// Mathematical model of [`Colors`].
pub struct ColorsV {
    pub background: Rgb,
    pub foreground: Rgb,
    pub cursor: Option<Rgb>,
    pub palette: Seq<Rgb>,
}

/// Mathematical model of a [`Frame`].
pub struct FrameV {
    pub revision: u64,
    pub dimensions: Dimensions,
    pub screen: Screen,
    pub title: Seq<char>,
    pub working_directory: Seq<char>,
    pub capabilities: Capabilities,
    pub colors: ColorsV,
    pub cursor: Cursor,
    pub rows: Seq<RowV>,
}

impl View for Cell {
    type V = CellV;

    open spec fn view(&self) -> CellV {
        CellV { width: self.width, style: self.style, text: self.text@, hyperlink: self.hyperlink@ }
    }
}

impl View for Row {
    type V = RowV;

    open spec fn view(&self) -> RowV {
        RowV {
            wrapped: self.wrapped,
            wrap_continuation: self.wrap_continuation,
            kitty_virtual_placeholder: self.kitty_virtual_placeholder,
            cells: self.cells@.map_values(|c: Cell| c@),
        }
    }
}

impl View for Colors {
    type V = ColorsV;

    open spec fn view(&self) -> ColorsV {
        ColorsV {
            background: self.background,
            foreground: self.foreground,
            cursor: self.cursor,
            palette: self.palette@,
        }
    }
}

impl View for Frame {
    type V = FrameV;

    open spec fn view(&self) -> FrameV {
        FrameV {
            revision: self.revision,
            dimensions: self.dimensions,
            screen: self.screen,
            title: self.title@,
            working_directory: self.working_directory@,
            capabilities: self.capabilities,
            colors: self.colors@,
            cursor: self.cursor,
            rows: self.rows@.map_values(|r: Row| r@),
        }
    }
}

} // verus!
