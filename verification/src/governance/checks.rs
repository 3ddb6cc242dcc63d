//! The repository checks: the contract table, the crate decision table, the
//! issues, and the contract references between them.

use super::chars::{chars_eq_str, chars_of_str, lines, split_lines, trim, trimmed};
use super::order::{lemma_sorted_of, set_view, sorted_of};
use super::scan::{
    contains_chars, contract_id, contract_id_of, contract_references, first_word,
    first_word_of, has_exact_version, has_full_commit, is_lowercase_hex, lowercase_hex,
    names_exact_version, names_full_commit, names_known_bead, names_known_bead_exec, orb_c,
    references,
};
use super::table::{
    cells_view, complain, lines_view, markdown_table, markdown_table_rows, strings_view,
    strs_view, table_view,
};
use crate::text::{TextBuilder, decimal};
use vstd::prelude::*;

verus! {

/// One issue of the issue log, with the fields the checks read.
pub struct Issue {
    pub id: String,
    pub status: String,
    pub description: String,
    pub design: String,
    pub acceptance_criteria: String,
    pub notes: String,
    pub close_reason: String,
}

/// Mathematical model of an [`Issue`].
pub struct IssueV {
    pub id: Seq<char>,
    pub status: Seq<char>,
    pub description: Seq<char>,
    pub design: Seq<char>,
    pub acceptance_criteria: Seq<char>,
    pub notes: Seq<char>,
    pub close_reason: Seq<char>,
}

impl View for Issue {
    type V = IssueV;

    open spec fn view(&self) -> IssueV {
        IssueV {
            id: self.id@,
            status: self.status@,
            description: self.description@,
            design: self.design@,
            acceptance_criteria: self.acceptance_criteria@,
            notes: self.notes@,
            close_reason: self.close_reason@,
        }
    }
}

/// One nonblank line of the issue log, parsed or not.
pub enum IssueLine {
    Parsed(Issue),
    /// The line with this 1-based number is not an issue; `detail` says why.
    Invalid { line: usize, detail: String },
}

/// Mathematical model of an [`IssueLine`].
pub enum IssueLineV {
    Parsed(IssueV),
    Invalid { line: nat, detail: Seq<char> },
}

impl View for IssueLine {
    type V = IssueLineV;

    open spec fn view(&self) -> IssueLineV {
        match self {
            IssueLine::Parsed(issue) => IssueLineV::Parsed(issue@),
            IssueLine::Invalid { line, detail } => IssueLineV::Invalid {
                line: *line as nat,
                detail: detail@,
            },
        }
    }
}

/// The text of an issue that may reference contracts.
pub open spec fn issue_text(issue: IssueV) -> Seq<char> {
    issue.description + seq!['\n'] + issue.design + seq!['\n'] + issue.acceptance_criteria + seq![
        '\n',
    ] + issue.notes + seq!['\n'] + issue.close_reason
}

/// The columns of the contract table.
pub open spec fn contract_headers() -> Seq<Seq<char>> {
    seq![
        "ID"@,
        "Contract"@,
        "Owner"@,
        "Status"@,
        "Accepted proof revision"@,
        "Check or evidence"@,
        "Gap"@,
    ]
}

/// The columns of the crate decision table.
pub open spec fn crate_headers() -> Seq<Seq<char>> {
    seq![
        "Boundary"@,
        "Selected shape"@,
        "Status"@,
        "Credible alternatives"@,
        "Why"@,
        "Evidence"@,
    ]
}

pub open spec fn contract_status(s: Seq<char>) -> bool {
    s == "Planned"@ || s == "Partially proved"@ || s == "Proved"@ || s == "Retired"@
}

pub open spec fn decision_status(s: Seq<char>) -> bool {
    s == "Selected"@ || s == "Planned"@ || s == "Candidate"@ || s == "Deferred"@
}

/// A backquoted full commit.
pub open spec fn proof_commit(cell: Seq<char>) -> bool {
    cell.len() >= 2 && cell[0] == '`' && cell[cell.len() - 1] == '`' && lowercase_hex(
        cell.subrange(1, cell.len() - 1),
        40,
    )
}

/// A cell that names nothing.
pub open spec fn no_evidence(cell: Seq<char>) -> bool {
    cell.len() == 0 || cell == "—"@ || cell == "-"@
}

pub open spec fn no_alternative(cell: Seq<char>) -> bool {
    no_evidence(cell) || cell == "None"@
}

/// The known contract IDs and complaints after one more contract row.
pub open spec fn contract_row(row: Seq<Seq<char>>, known: Seq<Seq<char>>, errors: Seq<Seq<char>>) -> (
    Seq<Seq<char>>,
    Seq<Seq<char>>,
) {
    match contract_id(row[0]) {
        None => (known, errors.push("docs/CONTRACTS.md: malformed contract ID "@ + row[0])),
        Some(id) => {
            let duplicate = known.contains(id);
            let e1 = if duplicate {
                errors.push("docs/CONTRACTS.md: duplicate contract ID "@ + id)
            } else {
                errors
            };
            let k1 = if duplicate {
                known
            } else {
                known.push(id)
            };
            let e2 = if !contract_status(row[3]) {
                e1.push("docs/CONTRACTS.md: "@ + id + " has invalid contract status "@ + row[3])
            } else {
                e1
            };
            let proved = row[3] == "Proved"@;
            let e3 = if proved && !proof_commit(row[4]) {
                e2.push(
                    "docs/CONTRACTS.md: Proved "@ + id
                        + " requires a full 40-character proof commit"@,
                )
            } else {
                e2
            };
            let e4 = if proved && no_evidence(row[5]) {
                e3.push("docs/CONTRACTS.md: Proved "@ + id + " requires a named check or evidence"@)
            } else {
                e3
            };
            (k1, e4)
        },
    }
}

/// A contract row with a well-formed, new ID is judged by its status alone
/// when that status is not `Proved`: `Planned`, `Partially proved` and
/// `Retired` draw no complaint and record the ID, and any other status draws
/// exactly the invalid-status complaint.
pub proof fn law_contract_statuses(row: Seq<Seq<char>>, known: Seq<Seq<char>>, errors: Seq<Seq<char>>)
    requires
        contract_id(row[0]) is Some,
        !known.contains(contract_id(row[0])->Some_0),
        row[3] != "Proved"@,
    ensures
        ({
            let id = contract_id(row[0])->Some_0;
            let (k, e) = contract_row(row, known, errors);
            &&& k == known.push(id)
            &&& (row[3] == "Planned"@ || row[3] == "Partially proved"@ || row[3] == "Retired"@)
                ==> e == errors
            &&& !(row[3] == "Planned"@ || row[3] == "Partially proved"@ || row[3] == "Retired"@)
                ==> e == errors.push(
                "docs/CONTRACTS.md: "@ + id + " has invalid contract status "@ + row[3],
            )
        }),
{
}

/// A crate decision whose status word is `Planned`, `Candidate` or
/// `Deferred` draws no complaint, and one whose first word is none of the
/// four decision statuses draws exactly the invalid-status complaint.
pub proof fn law_decision_statuses(row: Seq<Seq<char>>, beads: Set<Seq<char>>, errors: Seq<Seq<char>>)
    ensures
        ({
            let w = first_word(row[2]);
            &&& (w == "Planned"@ || w == "Candidate"@ || w == "Deferred"@) ==> crate_row(
                row,
                beads,
                errors,
            ) == errors
            &&& !(w == "Selected"@ || w == "Planned"@ || w == "Candidate"@ || w == "Deferred"@)
                ==> crate_row(row, beads, errors) == errors.push(
                "docs/CRATES.md: "@ + row[0] + " has invalid decision status "@ + row[2],
            )
        }),
{
    reveal_strlit("Selected");
    reveal_strlit("Planned");
    reveal_strlit("Candidate");
    reveal_strlit("Deferred");
    assert("Planned"@[0] != "Selected"@[0]);
    assert("Candidate"@[0] != "Selected"@[0]);
    assert("Deferred"@[0] != "Selected"@[0]);
}

/// The known contract IDs and complaints after the rows from `k`.
pub open spec fn contract_rows(
    rows: Seq<Seq<Seq<char>>>,
    k: int,
    known: Seq<Seq<char>>,
    errors: Seq<Seq<char>>,
) -> (Seq<Seq<char>>, Seq<Seq<char>>)
    decreases rows.len() - k,
{
    if k >= rows.len() || k < 0 {
        (known, errors)
    } else {
        let (known1, errors1) = contract_row(rows[k], known, errors);
        contract_rows(rows, k + 1, known1, errors1)
    }
}

/// The contract IDs of the contract document, and its complaints after `errors`.
pub open spec fn contracts_check(text: Seq<char>, errors: Seq<Seq<char>>) -> (
    Seq<Seq<char>>,
    Seq<Seq<char>>,
) {
    let (rows, e) = markdown_table(
        lines(text),
        "## Current contracts"@,
        contract_headers(),
        "docs/CONTRACTS.md"@,
    );
    contract_rows(rows, 0, Seq::empty(), errors + e)
}

/// Complaints about the references from `i` on whose contracts are not known.
pub open spec fn reference_errors(
    prefix: Seq<char>,
    refs: Seq<Seq<char>>,
    known: Seq<Seq<char>>,
    i: int,
    errors: Seq<Seq<char>>,
) -> Seq<Seq<char>>
    decreases refs.len() - i,
{
    if i >= refs.len() || i < 0 {
        errors
    } else if known.contains(orb_c() + refs[i]) {
        reference_errors(prefix, refs, known, i + 1, errors)
    } else {
        reference_errors(
            prefix,
            refs,
            known,
            i + 1,
            errors.push(prefix + ": unknown contract reference "@ + "ORB-C"@ + refs[i]),
        )
    }
}

/// Complaints about the unknown contracts referenced in `text`, in order.
pub open spec fn unknown_references(
    prefix: Seq<char>,
    text: Seq<char>,
    known: Seq<Seq<char>>,
    errors: Seq<Seq<char>>,
) -> Seq<Seq<char>> {
    reference_errors(prefix, sorted_of(references(text)), known, 0, errors)
}

/// Complaints about unknown contract references of the issues from line
/// `k` on that are not deferred.
pub open spec fn issue_errors(
    lines: Seq<IssueLineV>,
    k: int,
    known: Seq<Seq<char>>,
    errors: Seq<Seq<char>>,
) -> Seq<Seq<char>>
    decreases lines.len() - k,
{
    if k >= lines.len() || k < 0 {
        errors
    } else {
        match lines[k] {
            IssueLineV::Parsed(issue) => if issue.status == "deferred"@ {
                issue_errors(lines, k + 1, known, errors)
            } else {
                issue_errors(
                    lines,
                    k + 1,
                    known,
                    unknown_references(issue.id, issue_text(issue), known, errors),
                )
            },
            IssueLineV::Invalid { .. } => issue_errors(lines, k + 1, known, errors),
        }
    }
}

/// Line `k` is an issue with ID `id`.
pub open spec fn issue_id_at(lines: Seq<IssueLineV>, k: int, id: Seq<char>) -> bool {
    0 <= k < lines.len() && match lines[k] {
        IssueLineV::Parsed(issue) => issue.id == id,
        IssueLineV::Invalid { .. } => false,
    }
}

/// The IDs of the issues.
pub open spec fn issue_ids(lines: Seq<IssueLineV>) -> Set<Seq<char>> {
    Set::new(|id: Seq<char>| exists|k: int| issue_id_at(lines, k, id))
}

/// Complaints after one more crate decision row.
pub open spec fn crate_row(row: Seq<Seq<char>>, beads: Set<Seq<char>>, errors: Seq<Seq<char>>) -> Seq<
    Seq<char>,
> {
    let boundary = row[0];
    let category = first_word(row[2]);
    if !decision_status(category) {
        errors.push("docs/CRATES.md: "@ + boundary + " has invalid decision status "@ + row[2])
    } else if category != "Selected"@ {
        errors
    } else {
        let e1 = if !names_exact_version(row[1]) && !names_full_commit(row[1]) {
            errors.push(
                "docs/CRATES.md: selected "@ + boundary
                    + " decision lacks an exact version or commit"@,
            )
        } else {
            errors
        };
        let e2 = if no_alternative(row[3]) {
            e1.push("docs/CRATES.md: selected "@ + boundary + " decision lacks credible alternatives"@)
        } else {
            e1
        };
        if !names_known_bead(row[5], beads) {
            e2.push(
                "docs/CRATES.md: selected "@ + boundary
                    + " decision lacks an existing evidence Bead"@,
            )
        } else {
            e2
        }
    }
}

pub open spec fn crate_rows(
    rows: Seq<Seq<Seq<char>>>,
    k: int,
    beads: Set<Seq<char>>,
    errors: Seq<Seq<char>>,
) -> Seq<Seq<char>>
    decreases rows.len() - k,
{
    if k >= rows.len() || k < 0 {
        errors
    } else {
        crate_rows(rows, k + 1, beads, crate_row(rows[k], beads, errors))
    }
}

/// Complaints about the crate document after `errors`.
pub open spec fn crates_check(text: Seq<char>, beads: Set<Seq<char>>, errors: Seq<Seq<char>>) -> Seq<
    Seq<char>,
> {
    let (rows, e) = markdown_table(
        lines(text),
        "## Current decisions"@,
        crate_headers(),
        "docs/CRATES.md"@,
    );
    crate_rows(rows, 0, beads, errors + e)
}

/// Complaints about the lines from `k` that are not issues.
pub open spec fn load_errors(lines: Seq<IssueLineV>, k: int, errors: Seq<Seq<char>>) -> Seq<Seq<char>>
    decreases lines.len() - k,
{
    if k >= lines.len() || k < 0 {
        errors
    } else {
        match lines[k] {
            IssueLineV::Parsed(_) => load_errors(lines, k + 1, errors),
            IssueLineV::Invalid { line, detail } => load_errors(
                lines,
                k + 1,
                errors.push(
                    ".beads/issues.jsonl:"@ + decimal(line) + ": invalid issue JSON: "@ + detail,
                ),
            ),
        }
    }
}

/// The text of a document, or nothing when it could not be read.
pub open spec fn text_of(source: Result<Seq<char>, Seq<char>>) -> Seq<char> {
    match source {
        Ok(text) => text,
        Err(_) => Seq::empty(),
    }
}

/// The complaint about a document that could not be read.
pub open spec fn read_errors(relative: Seq<char>, source: Result<Seq<char>, Seq<char>>, errors: Seq<
    Seq<char>,
>) -> Seq<Seq<char>> {
    match source {
        Ok(_) => errors,
        Err(detail) => errors.push(relative + ": "@ + detail),
    }
}

/// Every complaint about the repository's governance documents, in order.
pub open spec fn repository_errors(
    contracts: Result<Seq<char>, Seq<char>>,
    beads: Result<Seq<IssueLineV>, Seq<char>>,
    crates: Result<Seq<char>, Seq<char>>,
) -> Seq<Seq<char>> {
    let e1 = read_errors("docs/CONTRACTS.md"@, contracts, Seq::empty());
    let (known, e2) = contracts_check(text_of(contracts), e1);
    let lines = match beads {
        Ok(lines) => lines,
        Err(_) => Seq::empty(),
    };
    let e3 = match beads {
        Ok(_) => e2,
        Err(detail) => e2.push(".beads/issues.jsonl: "@ + detail),
    };
    let e4 = load_errors(lines, 0, e3);
    let e5 = issue_errors(lines, 0, known, e4);
    let e6 = read_errors("docs/CRATES.md"@, crates, e5);
    let e7 = crates_check(text_of(crates), issue_ids(lines), e6);
    let e8 = unknown_references("docs/CONTRACTS.md"@, text_of(contracts), known, e7);
    unknown_references("docs/CRATES.md"@, text_of(crates), known, e8)
}

/// The nonblank lines of the issue log, numbered from one.
pub open spec fn numbered_lines_from(ls: Seq<Seq<char>>, k: int, acc: Seq<(nat, Seq<char>)>) -> Seq<
    (nat, Seq<char>),
>
    decreases ls.len() - k,
{
    if k >= ls.len() || k < 0 {
        acc
    } else if trim(ls[k]).len() == 0 {
        numbered_lines_from(ls, k + 1, acc)
    } else {
        numbered_lines_from(ls, k + 1, acc.push(((k + 1) as nat, ls[k])))
    }
}

/// The nonblank lines of `text` with their 1-based numbers: the lines of the
/// issue log that each hold one issue.
pub fn issue_lines(text: &str) -> (r: Vec<(usize, String)>)
    ensures
        r@.map_values(|p: (usize, String)| (p.0 as nat, p.1@)) == numbered_lines_from(
            lines(text@),
            0,
            Seq::empty(),
        ),
{
    let chars = chars_of_str(text);
    let ls = split_lines(chars.as_slice());
    let ghost lv = lines_view(ls@);
    let mut r: Vec<(usize, String)> = Vec::new();
    let mut k: usize = 0;
    assert(r@.map_values(|p: (usize, String)| (p.0 as nat, p.1@)) =~= Seq::<(nat, Seq<char>)>::empty());
    while k < ls.len()
        invariant
            lv == lines_view(ls@),
            lv == lines(text@),
            k <= lv.len(),
            numbered_lines_from(lv, 0, Seq::empty()) == numbered_lines_from(
                lv,
                k as int,
                r@.map_values(|p: (usize, String)| (p.0 as nat, p.1@)),
            ),
        decreases lv.len() - k,
    {
        assert(lv[k as int] == ls@[k as int]@);
        let t = trimmed(ls[k].as_slice());
        if t.len() > 0 {
            let mut b = TextBuilder::new();
            b.push_chars(ls[k].as_slice());
            assert(Seq::<char>::empty() + ls@[k as int]@ =~= ls@[k as int]@);
            let line = b.finish();
            let ghost before = r@.map_values(|p: (usize, String)| (p.0 as nat, p.1@));
            r.push((k + 1, line));
            assert(r@.map_values(|p: (usize, String)| (p.0 as nat, p.1@)) =~= before.push(
                ((k + 1) as nat, lv[k as int]),
            ));
        }
        k += 1;
    }
    r
}

/// Append the complaints about the unknown contracts referenced in `text`.
fn check_references(
    prefix: &[char],
    text: &[char],
    known: &Vec<Vec<char>>,
    errors: &mut Vec<String>,
)
    ensures
        strings_view(final(errors)@) == unknown_references(
            prefix@,
            text@,
            set_view(known@),
            strings_view(old(errors)@),
        ),
{
    let refs = contract_references(text);
    proof {
        lemma_sorted_of(set_view(refs@));
    }
    let ghost rv = set_view(refs@);
    let ghost kv = set_view(known@);
    let mut i: usize = 0;
    while i < refs.len()
        invariant
            rv == set_view(refs@),
            rv == sorted_of(references(text@)),
            kv == set_view(known@),
            i <= rv.len(),
            reference_errors(prefix@, rv, kv, 0, strings_view(old(errors)@)) == reference_errors(
                prefix@,
                rv,
                kv,
                i as int,
                strings_view(errors@),
            ),
        decreases rv.len() - i,
    {
        assert(rv[i as int] == refs@[i as int]@);
        let mut id: Vec<char> = vec!['O', 'R', 'B', '-', 'C'];
        let mut j: usize = 0;
        let ghost d = refs@[i as int]@;
        while j < refs[i].len()
            invariant
                i < refs@.len(),
                j <= d.len(),
                d == refs@[i as int]@,
                id@ == orb_c() + d.take(j as int),
            decreases d.len() - j,
        {
            id.push(refs[i][j]);
            assert(d.take(j + 1) =~= d.take(j as int).push(d[j as int]));
            assert(orb_c() + d.take(j + 1) =~= (orb_c() + d.take(j as int)).push(d[j as int]));
            j += 1;
        }
        assert(d.take(d.len() as int) =~= d);
        if !contains_chars(known, id.as_slice()) {
            let mut t = TextBuilder::new();
            t.push_chars(prefix);
            assert(Seq::<char>::empty() + prefix@ =~= prefix@);
            t.push_str(": unknown contract reference ");
            t.push_str("ORB-C");
            t.push_chars(refs[i].as_slice());
            complain(errors, t);
        }
        i += 1;
    }
}

/// Append the complaints about a contract row and record its ID.
fn check_contract_row(row: &Vec<Vec<char>>, known: &mut Vec<Vec<char>>, errors: &mut Vec<String>)
    requires
        row@.len() == 7,
    ensures
        (set_view(final(known)@), strings_view(final(errors)@)) == contract_row(
            cells_view(*row),
            set_view(old(known)@),
            strings_view(old(errors)@),
        ),
{
    let ghost r = cells_view(*row);
    assert(r[0] == row@[0]@ && r[3] == row@[3]@ && r[4] == row@[4]@ && r[5] == row@[5]@);
    let id = match contract_id_of(row[0].as_slice()) {
        Some(id) => id,
        None => {
            let mut t = TextBuilder::from_str("docs/CONTRACTS.md: malformed contract ID ");
            t.push_chars(row[0].as_slice());
            complain(errors, t);
            return;
        },
    };
    if contains_chars(known, id.as_slice()) {
        let mut t = TextBuilder::from_str("docs/CONTRACTS.md: duplicate contract ID ");
        t.push_chars(id.as_slice());
        complain(errors, t);
    } else {
        let ghost before = set_view(known@);
        let copy = super::chars::copy_range(id.as_slice(), 0, id.len());
        assert(copy@ =~= id@);
        known.push(copy);
        assert(set_view(known@) =~= before.push(id@));
    }
    let status = row[3].as_slice();
    let valid = chars_eq_str(status, "Planned") || chars_eq_str(status, "Partially proved")
        || chars_eq_str(status, "Proved") || chars_eq_str(status, "Retired");
    if !valid {
        let mut t = TextBuilder::from_str("docs/CONTRACTS.md: ");
        t.push_chars(id.as_slice());
        t.push_str(" has invalid contract status ");
        t.push_chars(status);
        complain(errors, t);
    }
    if chars_eq_str(status, "Proved") {
        let proof = row[4].as_slice();
        let commit = proof.len() >= 2 && proof[0] == '`' && proof[proof.len() - 1] == '`'
            && is_lowercase_hex(
            vstd::slice::slice_subrange(proof, 1, proof.len() - 1),
            40,
        );
        if !commit {
            let mut t = TextBuilder::from_str("docs/CONTRACTS.md: Proved ");
            t.push_chars(id.as_slice());
            t.push_str(" requires a full 40-character proof commit");
            complain(errors, t);
        }
        let evidence = row[5].as_slice();
        if evidence.len() == 0 || chars_eq_str(evidence, "—") || chars_eq_str(evidence, "-") {
            let mut t = TextBuilder::from_str("docs/CONTRACTS.md: Proved ");
            t.push_chars(id.as_slice());
            t.push_str(" requires a named check or evidence");
            complain(errors, t);
        }
    }
}

/// The contract IDs of the contract document; complaints go to `errors`.
pub fn check_contracts(text: &[char], errors: &mut Vec<String>) -> (known: Vec<Vec<char>>)
    ensures
        (set_view(known@), strings_view(final(errors)@)) == contracts_check(
            text@,
            strings_view(old(errors)@),
        ),
{
    let ls = split_lines(text);
    let headers = vec![
        "ID",
        "Contract",
        "Owner",
        "Status",
        "Accepted proof revision",
        "Check or evidence",
        "Gap",
    ];
    assert(strs_view(headers@) =~= contract_headers());
    let ghost e0 = strings_view(errors@);
    let rows = markdown_table_rows(&ls, "## Current contracts", headers.as_slice(), "docs/CONTRACTS.md", errors);
    let ghost tv = table_view(rows@);
    let mut known: Vec<Vec<char>> = Vec::new();
    let mut k: usize = 0;
    assert(set_view(known@) =~= Seq::<Seq<char>>::empty());
    while k < rows.len()
        invariant
            tv == table_view(rows@),
            k <= tv.len(),
            forall|j: int| 0 <= j < rows@.len() ==> (#[trigger] rows@[j])@.len() == 7,
            contracts_check(text@, e0) == contract_rows(
                tv,
                k as int,
                set_view(known@),
                strings_view(errors@),
            ),
        decreases tv.len() - k,
    {
        assert(tv[k as int] == cells_view(rows@[k as int]));
        check_contract_row(&rows[k], &mut known, errors);
        k += 1;
    }
    known
}

/// Append the complaints about a crate decision row.
fn check_crate_row(row: &Vec<Vec<char>>, beads: &Vec<Vec<char>>, errors: &mut Vec<String>)
    requires
        row@.len() == 6,
    ensures
        strings_view(final(errors)@) == crate_row(
            cells_view(*row),
            set_view(beads@).to_set(),
            strings_view(old(errors)@),
        ),
{
    let ghost r = cells_view(*row);
    assert(r[0] == row@[0]@ && r[1] == row@[1]@ && r[2] == row@[2]@ && r[3] == row@[3]@ && r[5]
        == row@[5]@);
    let boundary = row[0].as_slice();
    let category = first_word_of(row[2].as_slice());
    let c = category.as_slice();
    let valid = chars_eq_str(c, "Selected") || chars_eq_str(c, "Planned") || chars_eq_str(
        c,
        "Candidate",
    ) || chars_eq_str(c, "Deferred");
    if !valid {
        let mut t = TextBuilder::from_str("docs/CRATES.md: ");
        t.push_chars(boundary);
        t.push_str(" has invalid decision status ");
        t.push_chars(row[2].as_slice());
        complain(errors, t);
        return;
    }
    if !chars_eq_str(c, "Selected") {
        return;
    }
    if !has_exact_version(row[1].as_slice()) && !has_full_commit(row[1].as_slice()) {
        let mut t = TextBuilder::from_str("docs/CRATES.md: selected ");
        t.push_chars(boundary);
        t.push_str(" decision lacks an exact version or commit");
        complain(errors, t);
    }
    let alternatives = row[3].as_slice();
    if alternatives.len() == 0 || chars_eq_str(alternatives, "—") || chars_eq_str(alternatives, "-")
        || chars_eq_str(alternatives, "None") {
        let mut t = TextBuilder::from_str("docs/CRATES.md: selected ");
        t.push_chars(boundary);
        t.push_str(" decision lacks credible alternatives");
        complain(errors, t);
    }
    if !names_known_bead_exec(row[5].as_slice(), beads) {
        let mut t = TextBuilder::from_str("docs/CRATES.md: selected ");
        t.push_chars(boundary);
        t.push_str(" decision lacks an existing evidence Bead");
        complain(errors, t);
    }
}

/// Append the complaints about the crate document.
pub fn check_crates(text: &[char], beads: &Vec<Vec<char>>, errors: &mut Vec<String>)
    ensures
        strings_view(final(errors)@) == crates_check(
            text@,
            set_view(beads@).to_set(),
            strings_view(old(errors)@),
        ),
{
    let ls = split_lines(text);
    let headers = vec![
        "Boundary",
        "Selected shape",
        "Status",
        "Credible alternatives",
        "Why",
        "Evidence",
    ];
    assert(strs_view(headers@) =~= crate_headers());
    let ghost e0 = strings_view(errors@);
    let rows = markdown_table_rows(&ls, "## Current decisions", headers.as_slice(), "docs/CRATES.md", errors);
    let ghost tv = table_view(rows@);
    let mut k: usize = 0;
    while k < rows.len()
        invariant
            tv == table_view(rows@),
            k <= tv.len(),
            forall|j: int| 0 <= j < rows@.len() ==> (#[trigger] rows@[j])@.len() == 6,
            crates_check(text@, set_view(beads@).to_set(), e0) == crate_rows(
                tv,
                k as int,
                set_view(beads@).to_set(),
                strings_view(errors@),
            ),
        decreases tv.len() - k,
    {
        assert(tv[k as int] == cells_view(rows@[k as int]));
        check_crate_row(&rows[k], beads, errors);
        k += 1;
    }
}

/// `v` followed by the characters of `s`.
fn append_str(v: &mut Vec<char>, s: &str)
    ensures
        final(v)@ == old(v)@ + s@,
{
    let chars = chars_of_str(s);
    let mut i: usize = 0;
    let ghost start = v@;
    while i < chars.len()
        invariant
            i <= chars@.len(),
            v@ == start + chars@.take(i as int),
        decreases chars@.len() - i,
    {
        v.push(chars[i]);
        assert(chars@.take(i + 1) =~= chars@.take(i as int).push(chars@[i as int]));
        i += 1;
    }
    assert(chars@.take(chars@.len() as int) =~= chars@);
}

/// The text of an issue that may reference contracts.
pub fn issue_text_of(issue: &Issue) -> (r: Vec<char>)
    ensures
        r@ == issue_text(issue@),
{
    let mut r = chars_of_str(issue.description.as_str());
    r.push('\n');
    append_str(&mut r, issue.design.as_str());
    r.push('\n');
    append_str(&mut r, issue.acceptance_criteria.as_str());
    r.push('\n');
    append_str(&mut r, issue.notes.as_str());
    r.push('\n');
    append_str(&mut r, issue.close_reason.as_str());
    assert(r@ =~= issue_text(issue@));
    r
}

/// The characters of each line's model.
pub open spec fn issue_lines_view(lines: Seq<IssueLine>) -> Seq<IssueLineV> {
    lines.map_values(|l: IssueLine| l@)
}

/// The text of a document that could be read, and its view.
pub open spec fn source_view(source: Result<String, String>) -> Result<Seq<char>, Seq<char>> {
    match source {
        Ok(text) => Ok(text@),
        Err(detail) => Err(detail@),
    }
}

pub open spec fn beads_view(beads: Result<Vec<IssueLine>, String>) -> Result<
    Seq<IssueLineV>,
    Seq<char>,
> {
    match beads {
        Ok(lines) => Ok(issue_lines_view(lines@)),
        Err(detail) => Err(detail@),
    }
}

/// The characters of a readable document; the complaint about one that was not.
fn source_text(relative: &str, source: &Result<String, String>, errors: &mut Vec<String>) -> (r: Vec<
    char,
>)
    ensures
        r@ == text_of(source_view(*source)),
        strings_view(final(errors)@) == read_errors(
            relative@,
            source_view(*source),
            strings_view(old(errors)@),
        ),
{
    match source {
        Ok(text) => chars_of_str(text.as_str()),
        Err(detail) => {
            let mut t = TextBuilder::from_str(relative);
            t.push_str(": ");
            t.push_str(detail.as_str());
            complain(errors, t);
            Vec::new()
        },
    }
}

/// Every complaint about the governance documents: the contract table, the
/// issue log (each nonblank line parsed or not), and the crate decision
/// table, each given as its text or as why it could not be read.
pub fn check_repository(
    contracts: Result<String, String>,
    beads: Result<Vec<IssueLine>, String>,
    crates: Result<String, String>,
) -> (errors: Vec<String>)
    ensures
        strings_view(errors@) == repository_errors(
            source_view(contracts),
            beads_view(beads),
            source_view(crates),
        ),
{
    let mut errors: Vec<String> = Vec::new();
    assert(strings_view(errors@) =~= Seq::<Seq<char>>::empty());
    let contracts_text = source_text("docs/CONTRACTS.md", &contracts, &mut errors);
    let known = check_contracts(contracts_text.as_slice(), &mut errors);
    let ghost kv = set_view(known@);
    let empty: Vec<IssueLine> = Vec::new();
    let lines: &Vec<IssueLine> = match &beads {
        Ok(lines) => lines,
        Err(detail) => {
            let mut t = TextBuilder::from_str(".beads/issues.jsonl: ");
            t.push_str(detail.as_str());
            complain(&mut errors, t);
            &empty
        },
    };
    let ghost lv = issue_lines_view(lines@);
    assert(lv == match beads_view(beads) {
        Ok(l) => l,
        Err(_) => Seq::<IssueLineV>::empty(),
    });
    let ghost e3 = strings_view(errors@);
    let mut k: usize = 0;
    while k < lines.len()
        invariant
            lv == issue_lines_view(lines@),
            k <= lv.len(),
            load_errors(lv, 0, e3) == load_errors(lv, k as int, strings_view(errors@)),
        decreases lv.len() - k,
    {
        assert(lv[k as int] == lines@[k as int]@);
        match &lines[k] {
            IssueLine::Invalid { line, detail } => {
                let mut t = TextBuilder::from_str(".beads/issues.jsonl:");
                t.push_decimal(*line as u64);
                t.push_str(": invalid issue JSON: ");
                t.push_str(detail.as_str());
                complain(&mut errors, t);
            },
            IssueLine::Parsed(_) => {},
        }
        k += 1;
    }
    let ghost e4 = strings_view(errors@);
    let mut ids: Vec<Vec<char>> = Vec::new();
    let mut k: usize = 0;
    assert(set_view(ids@).to_set() =~= Set::<Seq<char>>::empty());
    while k < lines.len()
        invariant
            lv == issue_lines_view(lines@),
            kv == set_view(known@),
            k <= lv.len(),
            issue_errors(lv, 0, kv, e4) == issue_errors(lv, k as int, kv, strings_view(errors@)),
            set_view(ids@).to_set() == Set::new(
                |id: Seq<char>| exists|j: int| 0 <= j < k && issue_id_at(lv, j, id),
            ),
        decreases lv.len() - k,
    {
        assert(lv[k as int] == lines@[k as int]@);
        let ghost before = set_view(ids@);
        match &lines[k] {
            IssueLine::Parsed(issue) => {
                let id = chars_of_str(issue.id.as_str());
                let status = chars_of_str(issue.status.as_str());
                if !chars_eq_str(status.as_slice(), "deferred") {
                    let text = issue_text_of(issue);
                    check_references(id.as_slice(), text.as_slice(), &known, &mut errors);
                }
                let ghost idv = id@;
                ids.push(id);
                assert(set_view(ids@) =~= before.push(idv));
                assert(set_view(ids@).to_set() =~= Set::new(
                    |x: Seq<char>| exists|j: int| 0 <= j < k + 1 && issue_id_at(lv, j, x),
                )) by {
                    assert(issue_id_at(lv, k as int, idv));
                    assert forall|x: Seq<char>| set_view(ids@).to_set().contains(x) implies (exists|
                        j: int,
                    | 0 <= j < k + 1 && issue_id_at(lv, j, x)) by {
                        let a = choose|a: int| 0 <= a < set_view(ids@).len() && set_view(ids@)[a] == x;
                        if a == before.len() {
                            assert(issue_id_at(lv, k as int, x));
                        } else {
                            assert(before.to_set().contains(x));
                        }
                    }
                    assert forall|x: Seq<char>| (exists|j: int| 0 <= j < k + 1 && issue_id_at(lv, j, x)) implies set_view(ids@).to_set().contains(x) by {
                        let j = choose|j: int| 0 <= j < k + 1 && issue_id_at(lv, j, x);
                        if j == k {
                            assert(set_view(ids@)[before.len() as int] == x);
                        } else {
                            assert(before.to_set().contains(x));
                            let a = choose|a: int| 0 <= a < before.len() && before[a] == x;
                            assert(set_view(ids@)[a] == x);
                        }
                    }
                }
            },
            IssueLine::Invalid { .. } => {
                assert(set_view(ids@).to_set() =~= Set::new(
                    |x: Seq<char>| exists|j: int| 0 <= j < k + 1 && issue_id_at(lv, j, x),
                )) by {
                    assert forall|x: Seq<char>| (exists|j: int| 0 <= j < k + 1 && issue_id_at(lv, j, x)) implies set_view(ids@).to_set().contains(x) by {
                        let j = choose|j: int| 0 <= j < k + 1 && issue_id_at(lv, j, x);
                        assert(j != k);
                    }
                }
            },
        }
        k += 1;
    }
    assert(set_view(ids@).to_set() =~= issue_ids(lv));
    let crates_text = source_text("docs/CRATES.md", &crates, &mut errors);
    check_crates(crates_text.as_slice(), &ids, &mut errors);
    let contracts_name = chars_of_str("docs/CONTRACTS.md");
    check_references(contracts_name.as_slice(), contracts_text.as_slice(), &known, &mut errors);
    let crates_name = chars_of_str("docs/CRATES.md");
    check_references(crates_name.as_slice(), crates_text.as_slice(), &known, &mut errors);
    errors
}

} // verus!
