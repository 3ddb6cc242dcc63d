//! Canonical owned values and verified codecs for Orbit presentation frames,
//! local client sessions, and lifecycle management, with the decisions Orbit
//! makes about its clients and the checks of its governance documents.
//!
//! The crate holds no terminal, transport, renderer, or platform
//! integration. Orbit maps authoritative terminal state into a [`Frame`], and
//! clients decode those same values at an exact pinned Orbit revision.

pub mod attachment;
pub mod clipboard;
pub mod error_text;
pub mod frame;
pub mod frame_codec;
pub mod frame_laws;
pub mod frame_round_trip;
pub mod frame_spec;
pub mod frame_truncation;
pub mod governance;
pub mod interaction;
pub mod launch;
pub mod management;
pub mod output_queue;
pub mod runtime;
pub mod session;
pub mod text;
pub mod wire;

pub use frame::{
    CELL_FIXED_BYTES, Capabilities, Cell, CellStyle, CellWidth, Colors, Cursor, CursorShape,
    CursorViewport, Dimensions, Error, FRAME_FIXED_BYTES, Frame, MAGIC, MAX_CELLS,
    MAX_FRAME_BYTES, MIN_FRAME_BYTES, PALETTE_LEN, ROW_FIXED_BYTES, Result, Rgb, Row, Screen,
    STRING_LENGTH_BYTES, StyleColor, Underline, VERSION,
};
pub use frame_codec::{
    FrameReducer, FrameSize, cell_width_tag, decode_canonical_row, decode_canonical_rows,
    decode_frame, encode_canonical_row, encode_canonical_rows, encode_frame,
};

