use orbit_protocol::CellWidth::{Narrow, SpacerHead, SpacerTail, Wide};
use orbit_protocol::{
    CELL_FIXED_BYTES, Capabilities, Cell, CellStyle, CellWidth, Colors, Cursor, CursorShape,
    CursorViewport, Dimensions, Error, Frame, FrameReducer, FrameSize, MAGIC, MAX_FRAME_BYTES,
    PALETTE_LEN, Rgb, Row, STRING_LENGTH_BYTES, Screen, StyleColor, Underline, VERSION,
    cell_width_tag, decode_canonical_row, decode_canonical_rows, decode_frame,
    encode_canonical_row, encode_canonical_rows, encode_frame,
};

const SCREEN_OFFSET: usize = 18;
const TITLE_LENGTH_OFFSET: usize = 19;
const HYPERLINK_CAPABILITY_OFFSET: usize = 27;
const KITTY_GRAPHICS_CAPABILITY_OFFSET: usize = 28;
const CURSOR_COLOR_PRESENCE_OFFSET: usize = 35;
const CURSOR_SHAPE_OFFSET: usize = 807;
const CURSOR_VIEWPORT_PRESENCE_OFFSET: usize = 808;
const ROW_FLAGS_OFFSET: usize = 809;
const CELL_WIDTH_OFFSET: usize = 810;
const FOREGROUND_TAG_OFFSET: usize = 811;
const STYLE_FLAGS_OFFSET: usize = 823;
const UNDERLINE_OFFSET: usize = 825;

fn plain_style() -> CellStyle {
    CellStyle {
        foreground: StyleColor::Unset,
        background: StyleColor::Unset,
        underline_color: StyleColor::Unset,
        bold: false,
        italic: false,
        faint: false,
        blink: false,
        inverse: false,
        invisible: false,
        strikethrough: false,
        overline: false,
        selected: false,
        protected: false,
        underline: Underline::Unset,
    }
}

fn minimal_frame(revision: u64) -> Frame {
    Frame {
        revision,
        dimensions: Dimensions { cols: 1, rows: 1 },
        screen: Screen::Primary,
        title: String::new(),
        working_directory: String::new(),
        capabilities: Capabilities {
            hyperlinks: true,
            kitty_graphics: false,
        },
        colors: Colors {
            background: Rgb::black(),
            foreground: Rgb::black(),
            cursor: None,
            palette: [Rgb::black(); PALETTE_LEN],
        },
        cursor: Cursor {
            visible: false,
            blinking: false,
            password_input: false,
            shape: CursorShape::Bar,
            viewport: None,
        },
        rows: vec![Row {
            wrapped: false,
            wrap_continuation: false,
            kitty_virtual_placeholder: false,
            cells: vec![Cell {
                width: CellWidth::Narrow,
                style: plain_style(),
                text: String::new(),
                hyperlink: String::new(),
            }],
        }],
    }
}

fn frame_with_widths(revision: u64, wrapped: bool, widths: &[CellWidth]) -> Frame {
    let mut frame = minimal_frame(revision);
    frame.dimensions.cols = u16::try_from(widths.len()).expect("test row width fits u16");
    frame.rows[0].wrapped = wrapped;
    let cell = frame.rows[0].cells[0].clone();
    frame.rows[0].cells = widths
        .iter()
        .map(|width| Cell {
            width: *width,
            ..cell.clone()
        })
        .collect();
    frame
}

fn rich_frame() -> Frame {
    let mut palette = [Rgb::black(); PALETTE_LEN];
    for (index, color) in palette.iter_mut().enumerate() {
        let index = u8::try_from(index).expect("palette index");
        *color = Rgb {
            r: index,
            g: index.wrapping_mul(3),
            b: u8::MAX.wrapping_sub(index),
        };
    }
    let decorated = CellStyle {
        foreground: StyleColor::Rgb(Rgb {
            r: 12,
            g: 34,
            b: 56,
        }),
        background: StyleColor::Palette(17),
        underline_color: StyleColor::Rgb(Rgb { r: 7, g: 8, b: 9 }),
        bold: true,
        italic: true,
        faint: true,
        blink: true,
        inverse: true,
        invisible: true,
        strikethrough: true,
        overline: true,
        selected: true,
        protected: true,
        underline: Underline::Curly,
    };
    Frame {
        revision: 42,
        dimensions: Dimensions { cols: 2, rows: 2 },
        screen: Screen::Alternate,
        title: "rich 🪐".into(),
        working_directory: "file:///tmp/orbit".into(),
        capabilities: Capabilities {
            hyperlinks: true,
            kitty_graphics: false,
        },
        colors: Colors {
            background: Rgb { r: 1, g: 2, b: 3 },
            foreground: Rgb { r: 4, g: 5, b: 6 },
            cursor: Some(Rgb { r: 7, g: 8, b: 9 }),
            palette,
        },
        cursor: Cursor {
            visible: true,
            blinking: true,
            password_input: true,
            shape: CursorShape::BlockHollow,
            viewport: Some(CursorViewport {
                x: 1,
                y: 1,
                at_wide_tail: true,
            }),
        },
        rows: vec![
            Row {
                wrapped: true,
                wrap_continuation: false,
                kitty_virtual_placeholder: true,
                cells: vec![
                    Cell {
                        width: CellWidth::Narrow,
                        style: decorated,
                        text: "e\u{301}".into(),
                        hyperlink: "https://example.test".into(),
                    },
                    Cell {
                        width: CellWidth::SpacerHead,
                        style: decorated,
                        text: String::new(),
                        hyperlink: String::new(),
                    },
                ],
            },
            Row {
                wrapped: false,
                wrap_continuation: true,
                kitty_virtual_placeholder: false,
                cells: vec![
                    Cell {
                        width: CellWidth::Wide,
                        style: decorated,
                        text: "界".into(),
                        hyperlink: String::new(),
                    },
                    Cell {
                        width: CellWidth::SpacerTail,
                        style: decorated,
                        text: String::new(),
                        hyperlink: String::new(),
                    },
                ],
            },
        ],
    }
}

#[test]
fn rich_frame_round_trips_byte_for_byte() {
    let expected = rich_frame();
    let bytes = encode_frame(&expected).unwrap();
    assert_eq!(&bytes[..4], MAGIC);
    assert_eq!(u16::from_le_bytes(bytes[4..6].try_into().unwrap()), VERSION);
    let decoded = decode_frame(&bytes).unwrap();
    assert_eq!(decoded, expected);
    assert_eq!(encode_frame(&decoded).unwrap(), bytes);
}

#[test]
fn orbf_v1_capabilities_are_truthful_at_every_acceptance_boundary() {
    let canonical = minimal_frame(0);
    let error = Error::InvalidShape {
        field: "capabilities",
    };
    let mut reducer = FrameReducer::default();
    reducer.push(canonical.clone()).unwrap();
    let bytes = canonical.encode().unwrap();
    for (hyperlinks, kitty_graphics) in [(false, false), (false, true), (true, true)] {
        let mut frame = canonical.clone();
        frame.revision = 1;
        frame.capabilities = Capabilities {
            hyperlinks,
            kitty_graphics,
        };
        assert_eq!(frame.encode().unwrap_err(), error);
        assert_eq!(reducer.push(frame).unwrap_err(), error);
        assert_eq!(reducer.current(), Some(&canonical));

        let mut invalid = bytes.clone();
        invalid[HYPERLINK_CAPABILITY_OFFSET] = u8::from(hyperlinks);
        invalid[KITTY_GRAPHICS_CAPABILITY_OFFSET] = u8::from(kitty_graphics);
        assert_eq!(decode_frame(&invalid).unwrap_err(), error);
    }
    assert_eq!(decode_frame(&bytes).unwrap(), canonical);
}

#[test]
fn orbf_v1_cell_width_topology_is_validated_at_every_acceptance_boundary() {
    let canonical = frame_with_widths(0, false, &[Narrow; 4]);
    let error = Error::InvalidShape {
        field: "cell width topology",
    };
    let invalid: &[(bool, &[CellWidth])] = &[
        (false, &[Wide, Wide, Narrow, Narrow]),
        (false, &[Wide, Narrow, Narrow, Narrow]),
        (false, &[Narrow, Narrow, Narrow, Wide]),
        (false, &[SpacerTail, Narrow, Narrow, Narrow]),
        (false, &[Narrow, SpacerTail, Narrow, Narrow]),
        (true, &[Narrow, SpacerHead, Narrow, Narrow]),
        (false, &[Narrow, Narrow, Narrow, SpacerHead]),
        (true, &[SpacerHead]),
    ];
    let cell_bytes = CELL_FIXED_BYTES + 2 * STRING_LENGTH_BYTES;
    let mut reducer = FrameReducer::default();
    reducer.push(canonical.clone()).unwrap();

    for &(wrapped, widths) in invalid {
        let frame = frame_with_widths(1, wrapped, widths);
        let cols = frame.dimensions.cols;
        assert_eq!(frame.encode().unwrap_err(), error);
        assert_eq!(
            encode_canonical_row(&frame.rows[0], cols).unwrap_err(),
            error
        );
        assert_eq!(reducer.push(frame).unwrap_err(), error);
        assert_eq!(reducer.current(), Some(&canonical));

        let mut invalid_bytes = frame_with_widths(0, false, &vec![Narrow; widths.len()])
            .encode()
            .unwrap();
        invalid_bytes[ROW_FLAGS_OFFSET] = u8::from(wrapped);
        for (index, &width) in widths.iter().enumerate() {
            invalid_bytes[CELL_WIDTH_OFFSET + index * cell_bytes] = cell_width_tag(width);
        }
        assert_eq!(decode_frame(&invalid_bytes).unwrap_err(), error);
        assert_eq!(
            decode_canonical_row(&invalid_bytes[ROW_FLAGS_OFFSET..], cols).unwrap_err(),
            error
        );
    }

    for frame in [
        canonical,
        frame_with_widths(1, false, &[Wide, SpacerTail, Narrow, Narrow]),
        frame_with_widths(2, true, &[Narrow, Narrow, Narrow, SpacerHead]),
    ] {
        let bytes = frame.encode().unwrap();
        assert_eq!(decode_frame(&bytes).unwrap(), frame);
        let row = encode_canonical_row(&frame.rows[0], frame.dimensions.cols).unwrap();
        assert_eq!(
            decode_canonical_row(&row, frame.dimensions.cols).unwrap(),
            frame.rows[0]
        );
    }
}

#[test]
fn incremental_size_matches_encoding_and_rejects_oversized_cells() {
    let frame = rich_frame();
    let mut size = FrameSize::new(
        &frame.title,
        &frame.working_directory,
        frame.colors.cursor.is_some(),
        frame.cursor.viewport.is_some(),
    )
    .unwrap();
    for row in &frame.rows {
        size.add_row().unwrap();
        for cell in &row.cells {
            size.add_cell(&cell.text, &cell.hyperlink).unwrap();
        }
    }
    assert_eq!(size.bytes(), frame.encode().unwrap().len());

    let mut size = FrameSize::new("", "", false, false).unwrap();
    let before = size;
    let oversized = "x".repeat(MAX_FRAME_BYTES);
    assert!(matches!(
        size.add_cell(&oversized, ""),
        Err(Error::FrameTooLarge { .. })
    ));
    assert_eq!(size, before);
}

#[test]
fn every_truncated_rich_frame_is_rejected() {
    let bytes = rich_frame().encode().unwrap();
    for length in 0..bytes.len() {
        assert!(decode_frame(&bytes[..length]).is_err(), "accepted {length}");
    }
}

#[test]
fn malformed_tags_flags_dimensions_and_lengths_are_rejected() {
    let canonical = minimal_frame(0).encode().unwrap();
    assert_eq!(canonical.len(), 834);

    let mut cases = Vec::new();
    let mut wrong_magic = canonical.clone();
    wrong_magic[0] = b'X';
    cases.push(wrong_magic);
    let mut wrong_version = canonical.clone();
    wrong_version[4..6].copy_from_slice(&2_u16.to_le_bytes());
    cases.push(wrong_version);
    let mut zero_cols = canonical.clone();
    zero_cols[14..16].copy_from_slice(&0_u16.to_le_bytes());
    cases.push(zero_cols);
    let mut hostile_dimensions = canonical.clone();
    hostile_dimensions[14..16].copy_from_slice(&u16::MAX.to_le_bytes());
    hostile_dimensions[16..18].copy_from_slice(&u16::MAX.to_le_bytes());
    cases.push(hostile_dimensions);
    let mut wrong_screen = canonical.clone();
    wrong_screen[SCREEN_OFFSET] = 2;
    cases.push(wrong_screen);
    let mut wrong_capability = canonical.clone();
    wrong_capability[HYPERLINK_CAPABILITY_OFFSET] = 2;
    cases.push(wrong_capability);
    let mut wrong_cursor_color = canonical.clone();
    wrong_cursor_color[CURSOR_COLOR_PRESENCE_OFFSET] = 2;
    cases.push(wrong_cursor_color);
    let mut wrong_cursor_shape = canonical.clone();
    wrong_cursor_shape[CURSOR_SHAPE_OFFSET] = 4;
    cases.push(wrong_cursor_shape);
    let mut wrong_cursor_presence = canonical.clone();
    wrong_cursor_presence[CURSOR_VIEWPORT_PRESENCE_OFFSET] = 2;
    cases.push(wrong_cursor_presence);
    let mut wrong_row_flags = canonical.clone();
    wrong_row_flags[ROW_FLAGS_OFFSET] = 1 << 7;
    cases.push(wrong_row_flags);
    let mut wrong_width = canonical.clone();
    wrong_width[CELL_WIDTH_OFFSET] = 4;
    cases.push(wrong_width);
    let mut wrong_color = canonical.clone();
    wrong_color[FOREGROUND_TAG_OFFSET] = 3;
    cases.push(wrong_color);
    let mut wrong_style_flags = canonical.clone();
    wrong_style_flags[STYLE_FLAGS_OFFSET..STYLE_FLAGS_OFFSET + 2]
        .copy_from_slice(&0x0400_u16.to_le_bytes());
    cases.push(wrong_style_flags);
    let mut wrong_underline = canonical.clone();
    wrong_underline[UNDERLINE_OFFSET] = 6;
    cases.push(wrong_underline);
    let mut hostile_title = canonical.clone();
    hostile_title[TITLE_LENGTH_OFFSET..TITLE_LENGTH_OFFSET + 4]
        .copy_from_slice(&u32::MAX.to_le_bytes());
    cases.push(hostile_title);
    let mut trailing = canonical.clone();
    trailing.push(0);
    cases.push(trailing);

    for bytes in cases {
        assert!(decode_frame(&bytes).is_err());
    }
    assert_eq!(
        decode_frame(&vec![0; MAX_FRAME_BYTES + 1]),
        Err(Error::FrameTooLarge {
            size: MAX_FRAME_BYTES + 1
        })
    );
}

#[test]
fn noncanonical_color_padding_is_rejected() {
    let mut bytes = minimal_frame(0).encode().unwrap();
    bytes[FOREGROUND_TAG_OFFSET + 1] = 1;
    assert!(matches!(
        decode_frame(&bytes),
        Err(Error::InvalidTag {
            field: "foreground color",
            ..
        })
    ));
}

#[test]
fn owned_shapes_are_validated_before_encoding() {
    let mut frame = minimal_frame(0);
    frame.rows.clear();
    assert_eq!(frame.encode(), Err(Error::InvalidShape { field: "row" }));

    let mut frame = minimal_frame(0);
    frame.rows[0].cells.clear();
    assert_eq!(frame.encode(), Err(Error::InvalidShape { field: "cell" }));

    let mut frame = minimal_frame(0);
    frame.cursor.viewport = Some(CursorViewport {
        x: 1,
        y: 0,
        at_wide_tail: false,
    });
    assert_eq!(
        frame.encode(),
        Err(Error::InvalidShape {
            field: "cursor viewport"
        })
    );
}

#[test]
fn reducer_accepts_only_strictly_newer_complete_frames() {
    let mut reducer = FrameReducer::default();
    reducer.push(minimal_frame(7)).unwrap();
    assert_eq!(reducer.current().unwrap().revision, 7);
    assert_eq!(
        reducer.push(minimal_frame(7)),
        Err(Error::RevisionNotNewer {
            current: 7,
            incoming: 7
        })
    );
    assert_eq!(
        reducer.push(minimal_frame(6)),
        Err(Error::RevisionNotNewer {
            current: 7,
            incoming: 6
        })
    );
    reducer
        .decode_and_push(&minimal_frame(8).encode().unwrap())
        .unwrap();
    assert_eq!(reducer.into_current().unwrap().revision, 8);
}

// ---------------------------------------------------------------- further cases

#[test]
fn minimal_frame_encodes_to_the_smallest_frame() {
    let bytes = minimal_frame(3).encode().unwrap();
    assert_eq!(bytes.len(), orbit_protocol::MIN_FRAME_BYTES);
    let size = FrameSize::new("", "", false, false).unwrap();
    assert_eq!(size.bytes(), orbit_protocol::FRAME_FIXED_BYTES + 8);
}

#[test]
fn decoding_then_encoding_gives_back_the_bytes() {
    for frame in [minimal_frame(0), rich_frame()] {
        let bytes = frame.encode().unwrap();
        let decoded = decode_frame(&bytes).unwrap();
        assert_eq!(decoded.encode().unwrap(), bytes);
    }
}

#[test]
fn each_decode_error_has_an_input() {
    let canonical = minimal_frame(0).encode().unwrap();
    assert_eq!(decode_frame(&canonical[..3]), Err(Error::Truncated));
    let mut wrong_magic = canonical.clone();
    wrong_magic[0] = b'X';
    assert_eq!(decode_frame(&wrong_magic), Err(Error::InvalidMagic));
    let mut wrong_version = canonical.clone();
    wrong_version[4..6].copy_from_slice(&2_u16.to_le_bytes());
    assert_eq!(decode_frame(&wrong_version), Err(Error::UnsupportedVersion { version: 2 }));
    let mut zero_cols = canonical.clone();
    zero_cols[14..16].copy_from_slice(&0_u16.to_le_bytes());
    assert_eq!(decode_frame(&zero_cols), Err(Error::InvalidDimensions { cols: 0, rows: 1 }));
    let mut trailing = canonical.clone();
    trailing.extend_from_slice(&[0, 0]);
    assert_eq!(decode_frame(&trailing), Err(Error::TrailingBytes { count: 2 }));
    let mut wrong_screen = canonical.clone();
    wrong_screen[SCREEN_OFFSET] = 2;
    assert_eq!(decode_frame(&wrong_screen), Err(Error::InvalidTag { field: "screen", value: 2 }));
    let mut wrong_row_flags = canonical.clone();
    wrong_row_flags[ROW_FLAGS_OFFSET] = 1 << 7;
    assert_eq!(
        decode_frame(&wrong_row_flags),
        Err(Error::InvalidFlags { field: "row", value: 128 })
    );
    let mut bad_utf8 = minimal_frame(0);
    bad_utf8.title = "a".into();
    let mut bytes = bad_utf8.encode().unwrap();
    bytes[TITLE_LENGTH_OFFSET + 4] = 0xff;
    assert_eq!(decode_frame(&bytes), Err(Error::InvalidUtf8 { field: "title" }));
}

#[test]
fn canonical_rows_round_trip_as_a_run() {
    let frame = rich_frame();
    let bytes = encode_canonical_rows(&frame.rows, 2).unwrap();
    assert_eq!(decode_canonical_rows(&bytes, 2, 2).unwrap(), frame.rows);
    assert_eq!(encode_canonical_rows(&[], 0).unwrap(), Vec::<u8>::new());
    assert_eq!(
        decode_canonical_rows(&[], 0, 0),
        Err(Error::InvalidDimensions { cols: 0, rows: 1 })
    );
    assert_eq!(
        decode_canonical_rows(&bytes, 2, 1),
        Err(Error::TrailingBytes { count: bytes.len() - encode_canonical_row(&frame.rows[0], 2).unwrap().len() })
    );
}

#[test]
fn reducer_refusal_keeps_the_current_frame() {
    let mut reducer = FrameReducer::new();
    assert_eq!(reducer.current(), None);
    let mut bad = minimal_frame(9);
    bad.capabilities.kitty_graphics = true;
    assert!(reducer.push(bad).is_err());
    assert_eq!(reducer.current(), None);
    reducer.push(minimal_frame(1)).unwrap();
    assert_eq!(reducer.decode_and_push(&[1, 2, 3]), Err(Error::Truncated));
    assert_eq!(reducer.current().unwrap().revision, 1);
}
