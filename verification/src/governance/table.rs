//! Markdown tables: the rows of the pipe table that follows a heading line.

use super::chars::{chars_eq_str, copy_range, lines, trim, trim_start, trimmed, trimmed_start};
use crate::launch::find;
use crate::text::{TextBuilder, decimal};
use vstd::prelude::*;

verus! {

/// The characters of each cell.
pub open spec fn cells_view(row: Vec<Vec<char>>) -> Seq<Seq<char>> {
    row@.map_values(|c: Vec<char>| c@)
}

/// The characters of each cell of each row.
pub open spec fn table_view(rows: Seq<Vec<Vec<char>>>) -> Seq<Seq<Seq<char>>> {
    rows.map_values(|r: Vec<Vec<char>>| cells_view(r))
}

/// The characters of each line.
pub open spec fn lines_view(lines: Seq<Vec<char>>) -> Seq<Seq<char>> {
    lines.map_values(|l: Vec<char>| l@)
}

/// The characters of each string.
pub open spec fn strings_view(strings: Seq<String>) -> Seq<Seq<char>> {
    strings.map_values(|s: String| s@)
}

/// The characters of each string slice.
pub open spec fn strs_view(strings: Seq<&str>) -> Seq<Seq<char>> {
    strings.map_values(|s: &str| s@)
}

/// The cells of a row's inner text scanned from `i`, after the finished
/// cells `acc` and the current cell `cell`: `|` ends a cell and `\|` stands
/// for a literal bar; each cell is trimmed.
pub open spec fn cells_from(content: Seq<char>, i: int, cell: Seq<char>, acc: Seq<Seq<char>>) -> Seq<
    Seq<char>,
>
    decreases content.len() - i,
{
    if i >= content.len() {
        acc.push(trim(cell))
    } else if content[i] == '\\' && i + 1 < content.len() && content[i + 1] == '|' {
        cells_from(content, i + 2, cell.push('|'), acc)
    } else if content[i] == '|' {
        cells_from(content, i + 1, Seq::empty(), acc.push(trim(cell)))
    } else {
        cells_from(content, i + 1, cell.push(content[i]), acc)
    }
}

/// The cells of a table line, which after trimming starts and ends with `|`.
pub open spec fn split_row(line: Seq<char>) -> Option<Seq<Seq<char>>> {
    let t = trim(line);
    if t.len() >= 2 && t[0] == '|' && t[t.len() - 1] == '|' {
        Some(cells_from(t.subrange(1, t.len() - 1), 0, Seq::empty(), Seq::empty()))
    } else {
        None
    }
}

/// A cell without one leading and one trailing colon.
pub open spec fn strip_colons(cell: Seq<char>) -> Seq<char> {
    let a = if cell.len() > 0 && cell[0] == ':' {
        cell.drop_first()
    } else {
        cell
    };
    if a.len() > 0 && a.last() == ':' {
        a.drop_last()
    } else {
        a
    }
}

pub open spec fn all_dashes(s: Seq<char>) -> bool {
    forall|i: int| 0 <= i < s.len() ==> s[i] == '-'
}

/// A separator cell: at least three dashes, optionally between colons.
pub open spec fn valid_separator(cell: Seq<char>) -> bool {
    let b = strip_colons(cell);
    b.len() >= 3 && all_dashes(b)
}

/// Whether a line belongs to a table.
pub open spec fn starts_row(line: Seq<char>) -> bool {
    let t = trim_start(line);
    t.len() > 0 && t[0] == '|'
}

/// The first table line at or after `p`.
pub open spec fn skip_to_row(lines: Seq<Seq<char>>, p: int) -> int
    decreases lines.len() - p,
{
    if 0 <= p < lines.len() && !starts_row(lines[p]) {
        skip_to_row(lines, p + 1)
    } else {
        p
    }
}

/// The rows of the run of table lines from `p`, after `acc`; a line whose
/// cells cannot be split is left out.
pub open spec fn collect_rows(lines: Seq<Seq<char>>, p: int, acc: Seq<Seq<Seq<char>>>) -> Seq<
    Seq<Seq<char>>,
>
    decreases lines.len() - p,
{
    if 0 <= p < lines.len() && starts_row(lines[p]) {
        collect_rows(
            lines,
            p + 1,
            match split_row(lines[p]) {
                Some(r) => acc.push(r),
                None => acc,
            },
        )
    } else {
        acc
    }
}

/// The body rows from index `k` with `width` cells, after `rows`, and the
/// complaints about the others, after `errors`.
pub open spec fn body_rows(
    table: Seq<Seq<Seq<char>>>,
    k: int,
    width: nat,
    heading: Seq<char>,
    relative: Seq<char>,
    rows: Seq<Seq<Seq<char>>>,
    errors: Seq<Seq<char>>,
) -> (Seq<Seq<Seq<char>>>, Seq<Seq<char>>)
    decreases table.len() - k,
{
    if k >= table.len() || k < 2 {
        (rows, errors)
    } else if table[k].len() == width {
        body_rows(table, k + 1, width, heading, relative, rows.push(table[k]), errors)
    } else {
        body_rows(
            table,
            k + 1,
            width,
            heading,
            relative,
            rows,
            errors.push(
                relative + ": "@ + heading + " row "@ + decimal((k - 1) as nat)
                    + " has the wrong column count"@,
            ),
        )
    }
}

/// The body rows of the table under `heading`, and the complaints found.
pub open spec fn markdown_table(
    lines: Seq<Seq<char>>,
    heading: Seq<char>,
    headers: Seq<Seq<char>>,
    relative: Seq<char>,
) -> (Seq<Seq<Seq<char>>>, Seq<Seq<char>>) {
    let p = find(lines, heading, 0);
    if p >= lines.len() {
        (Seq::empty(), seq![relative + ": missing "@ + heading + " table"@])
    } else {
        let table = collect_rows(lines, skip_to_row(lines, p + 1), Seq::empty());
        if table.len() < 2 || table[0] != headers {
            (Seq::empty(), seq![relative + ": "@ + heading + " has unexpected columns"@])
        } else if table[1].len() != headers.len() || !(forall|j: int|
            0 <= j < table[1].len() ==> valid_separator(#[trigger] table[1][j])) {
            (Seq::empty(), seq![relative + ": "@ + heading + " has an invalid separator row"@])
        } else {
            body_rows(table, 2, headers.len(), heading, relative, Seq::empty(), Seq::empty())
        }
    }
}

/// The cells of a table line.
pub fn split_markdown_row(line: &[char]) -> (r: Option<Vec<Vec<char>>>)
    ensures
        match r {
            Some(cells) => split_row(line@) == Some(cells_view(cells)),
            None => split_row(line@) is None,
        },
{
    let t = trimmed(line);
    if t.len() < 2 || t[0] != '|' || t[t.len() - 1] != '|' {
        return None;
    }
    let content = copy_range(t.as_slice(), 1, t.len() - 1);
    let ghost c = content@;
    let mut cells: Vec<Vec<char>> = Vec::new();
    let mut cell: Vec<char> = Vec::new();
    let mut i: usize = 0;
    assert(cells_view(cells) =~= Seq::<Seq<char>>::empty());
    while i < content.len()
        invariant
            c == content@,
            i <= c.len(),
            cells_from(c, 0, Seq::empty(), Seq::empty()) == cells_from(
                c,
                i as int,
                cell@,
                cells_view(cells),
            ),
        decreases c.len() - i,
    {
        let ch = content[i];
        if ch == '\\' && i + 1 < content.len() && content[i + 1] == '|' {
            cell.push('|');
            i += 2;
        } else if ch == '|' {
            let done = trimmed(cell.as_slice());
            let ghost before = cells_view(cells);
            cells.push(done);
            assert(cells_view(cells) =~= before.push(done@));
            cell = Vec::new();
            i += 1;
        } else {
            cell.push(ch);
            i += 1;
        }
    }
    let done = trimmed(cell.as_slice());
    let ghost before = cells_view(cells);
    cells.push(done);
    assert(cells_view(cells) =~= before.push(done@));
    Some(cells)
}

/// Whether a cell separates the header row from the body.
pub fn separator_cell(cell: &[char]) -> (r: bool)
    ensures
        r == valid_separator(cell@),
{
    let mut from: usize = 0;
    let mut to: usize = cell.len();
    if to > 0 && cell[0] == ':' {
        from = 1;
    }
    if to > from && cell[to - 1] == ':' {
        to = to - 1;
    }
    let ghost b = strip_colons(cell@);
    assert(b =~= cell@.subrange(from as int, to as int));
    if to - from < 3 {
        return false;
    }
    let mut i = from;
    while i < to
        invariant
            from <= i <= to <= cell@.len(),
            b == cell@.subrange(from as int, to as int),
            b == strip_colons(cell@),
            forall|j: int| from <= j < i ==> cell@[j] == '-',
        decreases to - i,
    {
        if cell[i] != '-' {
            assert(b[i - from] != '-');
            assert(!(forall|j: int| 0 <= j < b.len() ==> b[j] == '-'));
            return false;
        }
        i += 1;
    }
    assert forall|j: int| 0 <= j < b.len() implies b[j] == '-' by {
        assert(b[j] == cell@[j + from]);
    }
    true
}

/// Whether a line belongs to a table.
pub fn table_line(line: &[char]) -> (r: bool)
    ensures
        r == starts_row(line@),
{
    let t = trimmed_start(line);
    t.len() > 0 && t[0] == '|'
}

/// Whether a row's cells are exactly `headers`.
fn row_is(row: &Vec<Vec<char>>, headers: &[&str]) -> (r: bool)
    ensures
        r == (cells_view(*row) == strs_view(headers@)),
{
    if row.len() != headers.len() {
        assert(cells_view(*row).len() != strs_view(headers@).len());
        return false;
    }
    let mut i: usize = 0;
    while i < row.len()
        invariant
            row@.len() == headers@.len(),
            i <= row@.len(),
            forall|j: int| 0 <= j < i ==> cells_view(*row)[j] == strs_view(headers@)[j],
        decreases row@.len() - i,
    {
        if !chars_eq_str(row[i].as_slice(), headers[i]) {
            assert(cells_view(*row)[i as int] != strs_view(headers@)[i as int]);
            return false;
        }
        i += 1;
    }
    assert(cells_view(*row) =~= strs_view(headers@));
    true
}

/// Whether every cell of a row is a separator.
fn all_separators(row: &Vec<Vec<char>>) -> (r: bool)
    ensures
        r == (forall|j: int| 0 <= j < row@.len() ==> valid_separator(#[trigger] cells_view(*row)[j])),
{
    let mut i: usize = 0;
    while i < row.len()
        invariant
            i <= row@.len(),
            forall|j: int| 0 <= j < i ==> valid_separator(#[trigger] cells_view(*row)[j]),
        decreases row@.len() - i,
    {
        if !separator_cell(row[i].as_slice()) {
            assert(!valid_separator(cells_view(*row)[i as int]));
            return false;
        }
        i += 1;
    }
    true
}

/// Append one complaint.
pub fn complain(errors: &mut Vec<String>, text: TextBuilder)
    requires
        text.wf(),
    ensures
        strings_view(final(errors)@) == strings_view(old(errors)@).push(text.text()),
{
    let ghost before = strings_view(errors@);
    let s = text.finish();
    errors.push(s);
    assert(strings_view(errors@) =~= before.push(s@));
}

/// The body rows of the table under `heading`, whose header row must be
/// `headers`; complaints about the table go to `errors`.
pub fn markdown_table_rows(
    lines: &Vec<Vec<char>>,
    heading: &str,
    headers: &[&str],
    relative: &str,
    errors: &mut Vec<String>,
) -> (rows: Vec<Vec<Vec<char>>>)
    ensures
        ({
            let (r, e) = markdown_table(
                lines_view(lines@),
                heading@,
                strs_view(headers@),
                relative@,
            );
            &&& table_view(rows@) == r
            &&& strings_view(final(errors)@) == strings_view(old(errors)@) + e
        }),
        forall|j: int| 0 <= j < rows@.len() ==> (#[trigger] rows@[j])@.len() == headers@.len(),
{
    let ghost lv = lines_view(lines@);
    let mut p: usize = 0;
    while p < lines.len() && !chars_eq_str(lines[p].as_slice(), heading)
        invariant
            lv == lines_view(lines@),
            p <= lv.len(),
            find(lv, heading@, 0) == find(lv, heading@, p as int),
        decreases lv.len() - p,
    {
        assert(lv[p as int] == lines@[p as int]@);
        p += 1;
    }
    if p >= lines.len() {
        let mut t = TextBuilder::from_str(relative);
        t.push_str(": missing ");
        t.push_str(heading);
        t.push_str(" table");
        let ghost before = strings_view(errors@);
        complain(errors, t);
        assert(seq![relative@ + ": missing "@ + heading@ + " table"@] =~= Seq::empty().push(
            relative@ + ": missing "@ + heading@ + " table"@,
        ));
        assert(strings_view(errors@) =~= before + seq![relative@ + ": missing "@ + heading@ + " table"@]);
        return Vec::new();
    }
    assert(lv[p as int] == lines@[p as int]@);
    assert(find(lv, heading@, 0) == p);
    p += 1;
    while p < lines.len() && !table_line(lines[p].as_slice())
        invariant
            lv == lines_view(lines@),
            1 <= p <= lv.len(),
            skip_to_row(lv, find(lv, heading@, 0) + 1) == skip_to_row(lv, p as int),
        decreases lv.len() - p,
    {
        p += 1;
    }
    let ghost first = p as int;
    let mut table: Vec<Vec<Vec<char>>> = Vec::new();
    assert(table_view(table@) =~= Seq::<Seq<Seq<char>>>::empty());
    while p < lines.len() && table_line(lines[p].as_slice())
        invariant
            lv == lines_view(lines@),
            first <= p <= lv.len(),
            collect_rows(lv, first, Seq::empty()) == collect_rows(lv, p as int, table_view(table@)),
        decreases lv.len() - p,
    {
        let ghost before = table_view(table@);
        match split_markdown_row(lines[p].as_slice()) {
            Some(row) => {
                table.push(row);
                assert(table_view(table@) =~= before.push(cells_view(row)));
            },
            None => {},
        }
        p += 1;
    }
    let ghost tv = table_view(table@);
    assert(first == skip_to_row(lv, find(lv, heading@, 0) + 1));
    if table.len() < 2 || !row_is(&table[0], headers) {
        let mut t = TextBuilder::from_str(relative);
        t.push_str(": ");
        t.push_str(heading);
        t.push_str(" has unexpected columns");
        let ghost before = strings_view(errors@);
        complain(errors, t);
        assert(strings_view(errors@) =~= before + seq![
            relative@ + ": "@ + heading@ + " has unexpected columns"@,
        ]);
        return Vec::new();
    }
    assert(tv[0] == cells_view(table@[0]));
    if table[1].len() != headers.len() || !all_separators(&table[1]) {
        assert(tv[1] == cells_view(table@[1]));
        let mut t = TextBuilder::from_str(relative);
        t.push_str(": ");
        t.push_str(heading);
        t.push_str(" has an invalid separator row");
        let ghost before = strings_view(errors@);
        complain(errors, t);
        assert(strings_view(errors@) =~= before + seq![
            relative@ + ": "@ + heading@ + " has an invalid separator row"@,
        ]);
        return Vec::new();
    }
    assert(tv[1] == cells_view(table@[1]));
    let mut rows: Vec<Vec<Vec<char>>> = Vec::new();
    let mut k: usize = 2;
    let ghost start_errors = strings_view(errors@);
    let ghost width = headers@.len();
    let ghost mut found: Seq<Seq<char>> = Seq::empty();
    assert(table_view(rows@) =~= Seq::<Seq<Seq<char>>>::empty());
    assert(start_errors =~= start_errors + found);
    while k < table.len()
        invariant
            tv == table_view(table@),
            2 <= k <= tv.len(),
            width == headers@.len(),
            body_rows(tv, 2, width, heading@, relative@, Seq::empty(), Seq::empty()) == body_rows(
                tv,
                k as int,
                width,
                heading@,
                relative@,
                table_view(rows@),
                found,
            ),
            strings_view(errors@) == start_errors + found,
            forall|j: int| 0 <= j < rows@.len() ==> (#[trigger] rows@[j])@.len() == headers@.len(),
        decreases tv.len() - k,
    {
        assert(tv[k as int] == cells_view(table@[k as int]));
        if table[k].len() == headers.len() {
            let ghost before = table_view(rows@);
            let row = copy_row(&table[k]);
            assert(row@.len() == cells_view(row).len());
            rows.push(row);
            assert(table_view(rows@) =~= before.push(tv[k as int]));
        } else {
            let mut t = TextBuilder::from_str(relative);
            t.push_str(": ");
            t.push_str(heading);
            t.push_str(" row ");
            t.push_decimal((k - 1) as u64);
            t.push_str(" has the wrong column count");
            complain(errors, t);
            proof {
                let msg = relative@ + ": "@ + heading@ + " row "@ + decimal((k - 1) as nat)
                    + " has the wrong column count"@;
                assert((start_errors + found).push(msg) =~= start_errors + found.push(msg));
                found = found.push(msg);
            }
        }
        k += 1;
    }
    rows
}

/// A copy of a row.
fn copy_row(row: &Vec<Vec<char>>) -> (r: Vec<Vec<char>>)
    ensures
        cells_view(r) == cells_view(*row),
{
    let mut r: Vec<Vec<char>> = Vec::new();
    let mut i: usize = 0;
    while i < row.len()
        invariant
            i <= row@.len(),
            cells_view(r) == cells_view(*row).take(i as int),
        decreases row@.len() - i,
    {
        let cell = copy_range(row[i].as_slice(), 0, row[i].len());
        assert(cell@ =~= row@[i as int]@);
        let ghost before = cells_view(r);
        r.push(cell);
        assert(cells_view(r) =~= before.push(cell@));
        assert(cells_view(*row).take(i + 1) =~= cells_view(*row).take(i as int).push(cell@));
        i += 1;
    }
    assert(cells_view(*row).take(row@.len() as int) =~= cells_view(*row));
    r
}

} // verus!
