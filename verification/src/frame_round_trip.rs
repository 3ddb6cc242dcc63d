//! Whole-frame laws of the ORBF v1 codec: encoding and decoding are mutual
//! inverses, and the validated size is the encoded length.

use crate::frame::{
    Error, Frame, FrameV, MAX_CELLS, MAX_FRAME_BYTES, MIN_FRAME_BYTES, PALETTE_LEN, ROW_FIXED_BYTES,
    RowV,
};
use crate::frame_codec::row_strings_fit;
use crate::frame_laws::{
    cell_strings_fit, lemma_cell, lemma_colors, lemma_colors_inverse, lemma_cursor, lemma_cursor_inverse, lemma_preamble,
    lemma_preamble_inverse, lemma_row, lemma_row_inverse, lemma_rows, lemma_rows_inverse,
    lemma_size_cells_exact, lemma_size_rows_exact, preamble_valid, rows_valid, viewport_in_range,
};
use crate::frame_spec::{
    dimensions_error, parse_colors, parse_cursor, parse_frame, parse_preamble, preamble_of,
    row_error, ser_cells, ser_colors, ser_cursor, ser_frame, ser_preamble, ser_row, ser_rows,
    size_header, spec_decode_canonical_row, spec_decode_canonical_rows, spec_decode_frame,
    spec_encode_canonical_row, spec_encode_canonical_rows, spec_encode_frame, validate_frame_spec,
    push_error, reducer_shape_error, size_add, size_cells, size_rows, topology_ok,
};
use crate::frame_codec::{lemma_size_cells_ok, lemma_size_rows_ok, lemma_valid_frame_strings_fit};
use crate::frame_laws::lemma_row_strings_fit;
use crate::wire::{lemma_assoc, utf8};
use vstd::prelude::*;

verus! {

/// Encoded length of everything before the rows.
pub open spec fn header_len(f: FrameV) -> int {
    801 + (4 + utf8(f.title).len()) + (4 + utf8(f.working_directory).len()) + (if f.colors.cursor is Some {
        3int
    } else {
        0int
    }) + (if f.cursor.viewport is Some {
        5int
    } else {
        0int
    })
}

/// The conditions under which a frame's canonical bytes parse back to it.
pub open spec fn frame_valid(f: FrameV) -> bool {
    &&& preamble_valid(preamble_of(f))
    &&& f.colors.palette.len() == PALETTE_LEN
    &&& viewport_in_range(f.cursor, f.dimensions)
    &&& f.rows.len() == f.dimensions.rows
    &&& rows_valid(f.rows, f.dimensions.cols)
}

proof fn lemma_cols_in_range(f: FrameV)
    requires
        dimensions_error(f.dimensions) is None,
    ensures
        !(f.dimensions.cols == 0 || f.dimensions.cols > MAX_CELLS),
        f.dimensions.rows >= 1,
{
    let c = f.dimensions.cols as int;
    let r = f.dimensions.rows as int;
    assert(c * r != 0 && c * r <= 100000);
    assert(c != 0) by (nonlinear_arith)
        requires
            c * r != 0,
    ;
    assert(r >= 1) by (nonlinear_arith)
        requires
            c * r != 0,
            r >= 0,
    ;
    assert(c <= c * r) by (nonlinear_arith)
        requires
            r >= 1,
            c >= 0,
    ;
}

proof fn lemma_ser_frame(f: FrameV)
    requires
        frame_valid(f),
    ensures
        parse_frame(ser_frame(f)) == Ok::<_, Error>((f, Seq::<u8>::empty())),
        ser_frame(f).len() == header_len(f) + ser_rows(f.rows).len(),
{
    let p = preamble_of(f);
    let rows = ser_rows(f.rows);
    let cur = ser_cursor(f.cursor);
    let col = ser_colors(f.colors);
    lemma_preamble(p, col + (cur + rows));
    lemma_colors(f.colors, cur + rows);
    lemma_cursor(f.cursor, f.dimensions, rows);
    lemma_rows(f.rows, f.dimensions.cols, Seq::empty());
    assert(rows + Seq::<u8>::empty() =~= rows);
    reveal(parse_preamble);
}

proof fn lemma_parse_frame_inverse(s: Seq<u8>)
    ensures
        parse_frame(s) matches Ok((f, r)) ==> s == ser_frame(f) + r && frame_valid(f),
{
    lemma_preamble_inverse(s);
    if let Ok((f, r)) = parse_frame(s) {
        let (p, r1) = parse_preamble(s).unwrap();
        lemma_colors_inverse(r1);
        let (_, r2) = parse_colors(r1).unwrap();
        lemma_cursor_inverse(r2, p.dimensions);
        let (_, r3) = parse_cursor(r2, p.dimensions).unwrap();
        lemma_cols_in_range(f);
        lemma_rows_inverse(r3, p.dimensions.rows as nat, p.dimensions.cols);
        assert(preamble_of(f) == p);
        let col = ser_colors(f.colors);
        let cur = ser_cursor(f.cursor);
        let rows = ser_rows(f.rows);
        lemma_assoc(cur, rows, r);
        lemma_assoc(col, cur + rows, r);
        lemma_assoc(ser_preamble(p), col + (cur + rows), r);
    }
}

/// The header accounting of a valid frame is its encoded header length.
proof fn lemma_header_size(f: FrameV)
    requires
        frame_valid(f),
    ensures
        ser_frame(f).len() == header_len(f) + ser_rows(f.rows).len(),
        size_header(f.title, f.working_directory, f.colors.cursor is Some, f.cursor.viewport is Some)
            matches Ok(h) ==> h == header_len(f),
        header_len(f) <= MAX_FRAME_BYTES ==> size_header(
            f.title,
            f.working_directory,
            f.colors.cursor is Some,
            f.cursor.viewport is Some,
        ) == Ok::<nat, Error>(header_len(f) as nat),
{
    lemma_ser_frame(f);
}

proof fn lemma_validated_frame(f: FrameV)
    requires
        validate_frame_spec(f) is Ok,
        f.colors.palette.len() == PALETTE_LEN,
    ensures
        frame_valid(f),
        validate_frame_spec(f) == Ok::<nat, Error>(ser_frame(f).len()),
        ser_frame(f).len() <= MAX_FRAME_BYTES,
{
    lemma_valid_frame_strings_fit(f);
    assert(rows_valid(f.rows, f.dimensions.cols));
    lemma_header_size(f);
    let h = size_header(
        f.title,
        f.working_directory,
        f.colors.cursor is Some,
        f.cursor.viewport is Some,
    )->Ok_0;
    lemma_size_rows_exact(f.rows, f.dimensions.cols, 0, h);
    assert(f.rows.skip(0) =~= f.rows);
}

/// The size that validation reports for a frame is exactly the length of its
/// encoding, and it never exceeds [`MAX_FRAME_BYTES`].
pub proof fn law_validated_size_is_encoded_length(frame: Frame)
    ensures
        validate_frame_spec(frame@) matches Ok(n) ==> spec_encode_frame(frame@) matches Ok(b) && b.len()
            == n && n <= MAX_FRAME_BYTES,
{
    assert(frame@.colors.palette.len() == PALETTE_LEN);
    if validate_frame_spec(frame@) is Ok {
        lemma_validated_frame(frame@);
    }
}

/// Every frame that encoding accepts decodes back to itself.
pub proof fn law_encode_then_decode(frame: Frame)
    ensures
        spec_encode_frame(frame@) matches Ok(b) ==> spec_decode_frame(b) == Ok::<FrameV, Error>(
            frame@,
        ),
{
    assert(frame@.colors.palette.len() == PALETTE_LEN);
    if validate_frame_spec(frame@) is Ok {
        lemma_validated_frame(frame@);
        lemma_ser_frame(frame@);
    }
}

/// Decoding accepts only canonical payloads: every payload that decodes to a
/// frame is exactly what encoding that frame gives.
pub proof fn law_decode_then_encode(bytes: Seq<u8>)
    ensures
        spec_decode_frame(bytes) matches Ok(f) ==> spec_encode_frame(f) == Ok::<Seq<u8>, Error>(
            bytes,
        ),
{
    lemma_parse_frame_inverse(bytes);
    if let Ok(f) = spec_decode_frame(bytes) {
        let r = parse_frame(bytes)->Ok_0.1;
        assert(bytes =~= ser_frame(f));
        lemma_header_size(f);
        lemma_cols_in_range(f);
        let h = header_len(f) as nat;
        lemma_size_rows_exact(f.rows, f.dimensions.cols, 0, h);
        assert(f.rows.skip(0) =~= f.rows);
        assert(validate_frame_spec(f) is Ok);
    }
}

/// Every frame that encoding accepts lies within the ORBF v1 size bounds and
/// decodes back to itself.
pub proof fn lemma_encoded_frame(f: FrameV)
    requires
        f.colors.palette.len() == PALETTE_LEN,
    ensures
        spec_encode_frame(f) matches Ok(b) ==> spec_decode_frame(b) == Ok::<FrameV, Error>(f)
            && MIN_FRAME_BYTES <= b.len() <= MAX_FRAME_BYTES,
{
    if validate_frame_spec(f) is Ok {
        lemma_validated_frame(f);
        lemma_ser_frame(f);
        lemma_cols_in_range(f);
        let rows = f.rows;
        let last = rows.last();
        assert(row_error(rows[rows.len() - 1], f.dimensions.cols) is None);
        assert(row_strings_fit(last));
        let cells = last.cells;
        let c = cells.last();
        assert(cells.len() >= 1);
        assert(cell_strings_fit(c)) by {
            assert(c == cells[cells.len() - 1]);
        }
        lemma_cell(c, Seq::empty());
        assert(ser_cells(cells).len() >= 24);
        assert(ser_row(last).len() >= 25);
        assert(ser_rows(rows).len() >= 25);
    }
}

// ---------------------------------------------------------------- canonical rows

/// A row that encoding accepts decodes back to itself.
pub proof fn law_row_encode_then_decode(row: RowV, cols: u16)
    ensures
        spec_encode_canonical_row(row, cols) matches Ok(b) ==> spec_decode_canonical_row(b, cols)
            == Ok::<RowV, Error>(row),
{
    if spec_encode_canonical_row(row, cols) is Ok {
        lemma_size_cells_ok(row.cells, 0, 1);
        assert(row_strings_fit(row));
        lemma_row_strings_fit(row);
        lemma_size_cells_exact(row.cells, 0, 1);
        assert(row.cells.skip(0) =~= row.cells);
        lemma_row(row, cols, Seq::empty());
        assert(ser_row(row) + Seq::<u8>::empty() =~= ser_row(row));
    }
}

/// A row payload that decodes is exactly the encoding of the row it decodes to.
pub proof fn law_row_decode_then_encode(bytes: Seq<u8>, cols: u16)
    ensures
        spec_decode_canonical_row(bytes, cols) matches Ok(row) ==> spec_encode_canonical_row(
            row,
            cols,
        ) == Ok::<Seq<u8>, Error>(bytes),
{
    lemma_row_inverse(bytes, cols);
    if let Ok(row) = spec_decode_canonical_row(bytes, cols) {
        assert(bytes =~= ser_row(row));
        lemma_row_strings_fit(row);
        lemma_size_cells_exact(row.cells, 0, 1);
        assert(row.cells.skip(0) =~= row.cells);
    }
}

/// A run of rows that encoding accepts decodes back to itself, given its
/// count. An empty run with an unusable column count is the one exception:
/// encoding has no row to check the columns against, while decoding refuses
/// them.
pub proof fn law_rows_encode_then_decode(rows: Seq<RowV>, cols: u16)
    requires
        rows.len() > 0 || !(cols == 0 || cols > MAX_CELLS),
        rows.len() <= u16::MAX,
    ensures
        spec_encode_canonical_rows(rows, cols) matches Ok(b) ==> spec_decode_canonical_rows(
            b,
            cols,
            rows.len() as u16,
        ) == Ok::<Seq<RowV>, Error>(rows),
{
    if spec_encode_canonical_rows(rows, cols) is Ok {
        lemma_size_rows_ok(rows, cols, 0, 0);
        assert(rows_valid(rows, cols));
        lemma_size_rows_exact(rows, cols, 0, 0);
        assert(rows.skip(0) =~= rows);
        if rows.len() > 0 {
            assert(row_error(rows[0], cols) is None);
        }
        lemma_rows(rows, cols, Seq::empty());
        assert(ser_rows(rows) + Seq::<u8>::empty() =~= ser_rows(rows));
    }
}

/// A run of rows that decodes is exactly the encoding of the rows it decodes to.
pub proof fn law_rows_decode_then_encode(bytes: Seq<u8>, cols: u16, count: u16)
    ensures
        spec_decode_canonical_rows(bytes, cols, count) matches Ok(rows) ==> spec_encode_canonical_rows(
            rows,
            cols,
        ) == Ok::<Seq<u8>, Error>(bytes),
{
    if let Ok(rows) = spec_decode_canonical_rows(bytes, cols, count) {
        lemma_rows_inverse(bytes, count as nat, cols);
        assert(bytes =~= ser_rows(rows));
        lemma_size_rows_exact(rows, cols, 0, 0);
        assert(rows.skip(0) =~= rows);
    }
}

// ---------------------------------------------------------------- incremental size

/// What a run of `FrameSize::add_row` and `FrameSize::add_cell` calls gives
/// from an accounted total of `acc` bytes: for each row from index `i` on, one
/// `add_row` and then one `add_cell` per cell, in order, stopping at the first
/// error.
pub open spec fn size_calls(rows: Seq<RowV>, i: int, acc: nat) -> core::result::Result<nat, Error>
    decreases rows.len() - i,
{
    if i < 0 || i >= rows.len() {
        Ok(acc)
    } else {
        match size_add(acc as int, ROW_FIXED_BYTES as int) {
            Err(e) => Err(e),
            Ok(a) => match size_cells(rows[i].cells, 0, a) {
                Err(e) => Err(e),
                Ok(a2) => size_calls(rows, i + 1, a2),
            },
        }
    }
}

proof fn lemma_size_calls(rows: Seq<RowV>, cols: u16, i: int, acc: nat)
    requires
        0 <= i,
        size_rows(rows, cols, i, acc) is Ok,
    ensures
        size_calls(rows, i, acc) == size_rows(rows, cols, i, acc),
    decreases rows.len() - i,
{
    if i < rows.len() {
        let a = size_add(acc as int, ROW_FIXED_BYTES as int)->Ok_0;
        let a2 = size_cells(rows[i].cells, 0, a)->Ok_0;
        lemma_size_calls(rows, cols, i + 1, a2);
    }
}

/// Accounting a frame incrementally gives its encoded length: for every frame
/// that encoding accepts, `FrameSize::new` on its header succeeds, and then
/// one `add_row` per row, each followed by one `add_cell` per cell of that
/// row, all succeed and end at exactly the length of the encoding, which is
/// within [`MAX_FRAME_BYTES`].
pub proof fn law_frame_size_calls_give_encoded_length(f: FrameV)
    requires
        f.colors.palette.len() == PALETTE_LEN,
    ensures
        spec_encode_frame(f) matches Ok(b) ==> size_header(
            f.title,
            f.working_directory,
            f.colors.cursor is Some,
            f.cursor.viewport is Some,
        ) matches Ok(h) && size_calls(f.rows, 0, h) == Ok::<nat, Error>(b.len())
            && b.len() <= MAX_FRAME_BYTES,
{
    if validate_frame_spec(f) is Ok {
        lemma_validated_frame(f);
        let h = size_header(
            f.title,
            f.working_directory,
            f.colors.cursor is Some,
            f.cursor.viewport is Some,
        )->Ok_0;
        lemma_size_calls(f.rows, f.dimensions.cols, 0, h);
    }
}

// ---------------------------------------------------------------- reducer

/// The reducer's frame after it is offered `offered` in order, starting from
/// `current`: each frame that `push` accepts replaces the current one, and a
/// refused frame leaves it unchanged. (`decode_and_push` offers the frame
/// its payload decodes to, and offers nothing when decoding fails.)
pub open spec fn reduce(current: Option<FrameV>, offered: Seq<FrameV>) -> Option<FrameV>
    decreases offered.len(),
{
    if offered.len() == 0 {
        current
    } else {
        let before = reduce(current, offered.drop_last());
        if push_error(before, offered.last()) is None {
            Some(offered.last())
        } else {
            before
        }
    }
}

/// The frames the reducer accepts, in order, when offered `offered`.
pub open spec fn accepted(current: Option<FrameV>, offered: Seq<FrameV>) -> Seq<FrameV>
    decreases offered.len(),
{
    if offered.len() == 0 {
        Seq::empty()
    } else {
        let before = reduce(current, offered.drop_last());
        let earlier = accepted(current, offered.drop_last());
        if push_error(before, offered.last()) is None {
            earlier.push(offered.last())
        } else {
            earlier
        }
    }
}

/// The reducer's history: after any run of offers, the current frame is the
/// one accepted last, or the starting frame when none was accepted; the
/// accepted frames have strictly increasing revisions, all newer than the
/// starting frame.
pub proof fn law_reducer_keeps_latest_accepted(current: Option<FrameV>, offered: Seq<FrameV>)
    ensures
        ({
            let acc = accepted(current, offered);
            &&& acc.len() == 0 ==> reduce(current, offered) == current
            &&& acc.len() > 0 ==> reduce(current, offered) == Some(acc.last())
            &&& forall|i: int, j: int|
                0 <= i < j < acc.len() ==> #[trigger] acc[i].revision < #[trigger] acc[j].revision
            &&& current matches Some(c) ==> forall|i: int|
                0 <= i < acc.len() ==> c.revision < #[trigger] acc[i].revision
        }),
    decreases offered.len(),
{
    if offered.len() > 0 {
        let init = offered.drop_last();
        law_reducer_keeps_latest_accepted(current, init);
        let before = reduce(current, init);
        let earlier = accepted(current, init);
        let f = offered.last();
        if push_error(before, f) is None {
            let acc = earlier.push(f);
            if earlier.len() > 0 {
                assert(before == Some(earlier.last()));
                assert(earlier.last().revision < f.revision);
            } else {
                assert(before == current);
            }
            assert forall|i: int, j: int| 0 <= i < j < acc.len() implies #[trigger] acc[i].revision
                < #[trigger] acc[j].revision by {
                if j < earlier.len() {
                    assert(acc[i] == earlier[i] && acc[j] == earlier[j]);
                } else {
                    assert(acc[i] == earlier[i]);
                    if i < earlier.len() - 1 {
                        assert(earlier[i].revision < earlier[earlier.len() - 1].revision);
                    }
                }
            }
            if let Some(c) = current {
                assert forall|i: int| 0 <= i < acc.len() implies c.revision < #[trigger] acc[i].revision by {
                    if i < earlier.len() {
                        assert(acc[i] == earlier[i]);
                    }
                }
            }
        }
    }
}

/// A reducer only ever moves to a strictly newer revision: whenever a push is
/// accepted over a current frame, the incoming revision is greater.
pub proof fn law_reducer_revisions_increase(current: Option<FrameV>, incoming: FrameV)
    ensures
        push_error(current, incoming) is None && current is Some ==> incoming.revision
            > current->Some_0.revision,
{
}

/// Every decoded frame already has the shape the reducer demands, so the
/// reducer refuses a decoded frame only for its revision.
pub proof fn law_decoded_frames_pass_reducer_shape(bytes: Seq<u8>)
    ensures
        spec_decode_frame(bytes) matches Ok(f) ==> reducer_shape_error(f) is None,
{
    lemma_parse_frame_inverse(bytes);
    if let Ok(f) = spec_decode_frame(bytes) {
        assert forall|i: int| 0 <= i < f.rows.len() implies topology_ok(
            #[trigger] f.rows[i].cells,
            f.rows[i].wrapped,
        ) by {
            assert(row_error(f.rows[i], f.dimensions.cols) is None);
        }
    }
}

} // verus!
