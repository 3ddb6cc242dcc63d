//! The identifiers the governance checks look for: contract IDs and
//! references, Bead IDs, exact versions and full commits.

use super::chars::{copy_range, is_whitespace, trim_start, trimmed_start, whitespace};
use super::order::{insert_sorted, set_view, sorted};
use vstd::prelude::*;

verus! {

pub open spec fn is_digit(c: char) -> bool {
    48 <= (c as u32) <= 57
}

pub open spec fn is_lower(c: char) -> bool {
    97 <= (c as u32) <= 122
}

pub open spec fn is_upper(c: char) -> bool {
    65 <= (c as u32) <= 90
}

/// A character that may continue an identifier: an ASCII letter or digit, or `_`.
pub open spec fn word_char(c: char) -> bool {
    is_digit(c) || is_lower(c) || is_upper(c) || c == '_'
}

pub open spec fn is_lower_hex(c: char) -> bool {
    is_digit(c) || 97 <= (c as u32) <= 102
}

pub open spec fn is_hex(c: char) -> bool {
    is_lower_hex(c) || 65 <= (c as u32) <= 70
}

pub open spec fn all_digits(s: Seq<char>) -> bool {
    forall|i: int| 0 <= i < s.len() ==> is_digit(#[trigger] s[i])
}

pub open spec fn digit_class() -> spec_fn(char) -> bool {
    |c: char| is_digit(c)
}

pub open spec fn bead_class() -> spec_fn(char) -> bool {
    |c: char| is_lower(c) || is_digit(c) || c == '-' || c == '.'
}

pub open spec fn version_class() -> spec_fn(char) -> bool {
    |c: char| is_digit(c) || c == '.'
}

pub open spec fn hex_class() -> spec_fn(char) -> bool {
    |c: char| is_hex(c)
}

/// Characters other than whitespace.
pub open spec fn word_class() -> spec_fn(char) -> bool {
    |c: char| !is_whitespace(c)
}

/// The prefix of contract IDs.
pub open spec fn orb_c() -> Seq<char> {
    seq!['O', 'R', 'B', '-', 'C']
}

/// The contract ID in a cell: `` `ORB-C<number>` `` with a number that has
/// no leading zero.
pub open spec fn contract_id(cell: Seq<char>) -> Option<Seq<char>> {
    if cell.len() >= 2 && cell[0] == '`' && cell[cell.len() - 1] == '`' {
        let id = cell.subrange(1, cell.len() - 1);
        if id.len() > 5 && id.take(5) == orb_c() && id[5] != '0' && all_digits(id.skip(5)) {
            Some(id)
        } else {
            None
        }
    } else {
        None
    }
}

/// `n` lowercase hexadecimal digits.
pub open spec fn lowercase_hex(v: Seq<char>, n: nat) -> bool {
    v.len() == n && forall|i: int| 0 <= i < v.len() ==> is_lower_hex(#[trigger] v[i])
}

/// The end of the run of characters of `class` from `i`.
pub open spec fn run_end(s: Seq<char>, i: int, class: spec_fn(char) -> bool) -> int
    decreases s.len() - i,
{
    if 0 <= i < s.len() && class(s[i]) {
        run_end(s, i + 1, class)
    } else {
        i
    }
}

/// Splitting `s` at the characters outside `class` starts a piece at `i`.
pub open spec fn piece_start(s: Seq<char>, i: int, class: spec_fn(char) -> bool) -> bool {
    0 <= i <= s.len() && (i == 0 || !class(s[i - 1]))
}

/// The piece of `s` that starts at `i`.
pub open spec fn piece_at(s: Seq<char>, i: int, class: spec_fn(char) -> bool) -> Seq<char> {
    s.subrange(i, run_end(s, i, class))
}

/// The contract number referenced at `start`: `ORB-C` not preceded by an
/// identifier character, then digits not followed by one.
pub open spec fn reference_at(s: Seq<char>, start: int) -> Option<Seq<char>> {
    if 0 <= start && start + 5 <= s.len() && s.subrange(start, start + 5) == orb_c() && (start == 0
        || !word_char(s[start - 1])) {
        let end = run_end(s, start + 5, digit_class());
        if end > start + 5 && (end == s.len() || !word_char(s[end])) {
            Some(s.subrange(start + 5, end))
        } else {
            None
        }
    } else {
        None
    }
}

/// The contract numbers referenced in `s`.
pub open spec fn references(s: Seq<char>) -> Set<Seq<char>> {
    Set::new(|d: Seq<char>| exists|start: int| reference_at(s, start) == Some(d))
}

pub open spec fn is_sep(c: char) -> bool {
    c == '-' || c == '.'
}

/// The rest of a Bead ID from `i`, with a part of `part` characters before
/// it: parts of lowercase letters and digits, none empty, joined by `-` or `.`.
pub open spec fn bead_tail_from(t: Seq<char>, i: int, part: nat) -> bool
    decreases t.len() - i,
{
    if i >= t.len() || i < 0 {
        part > 0
    } else if is_sep(t[i]) {
        part > 0 && bead_tail_from(t, i + 1, 0)
    } else {
        (is_lower(t[i]) || is_digit(t[i])) && bead_tail_from(t, i + 1, part + 1)
    }
}

/// A Bead ID: `orb-` or `ven-`, then nonempty parts.
pub open spec fn valid_bead_id(c: Seq<char>) -> bool {
    c.len() >= 4 && (c.take(4) == seq!['o', 'r', 'b', '-'] || c.take(4) == seq![
        'v',
        'e',
        'n',
        '-',
    ]) && bead_tail_from(c.skip(4), 0, 0)
}

pub open spec fn bead_char(c: char) -> bool {
    is_lower(c) || is_digit(c) || is_sep(c)
}

/// Some Bead ID in `s` is one of `known`.
pub open spec fn names_known_bead(s: Seq<char>, known: Set<Seq<char>>) -> bool {
    exists|i: int|
        piece_start(s, i, bead_class()) && valid_bead_id(
            #[trigger] piece_at(s, i, bead_class()),
        ) && known.contains(piece_at(s, i, bead_class()))
}

/// A version from `i`, after a part of `part` digits and `parts` finished
/// parts: two or three nonempty digit parts joined by dots.
pub open spec fn version_from(v: Seq<char>, i: int, part: nat, parts: nat) -> bool
    decreases v.len() - i,
{
    if i >= v.len() || i < 0 {
        part > 0 && (parts == 1 || parts == 2)
    } else if v[i] == '.' {
        part > 0 && version_from(v, i + 1, 0, parts + 1)
    } else {
        is_digit(v[i]) && version_from(v, i + 1, part + 1, parts)
    }
}

pub open spec fn version_char(c: char) -> bool {
    is_digit(c) || c == '.'
}

/// `s` names an exact version such as `1.2` or `1.2.3`.
pub open spec fn names_exact_version(s: Seq<char>) -> bool {
    exists|i: int|
        piece_start(s, i, version_class()) && version_from(
            #[trigger] piece_at(s, i, version_class()),
            0,
            0,
            0,
        )
}

/// `s` names a full forty-digit lowercase commit.
pub open spec fn names_full_commit(s: Seq<char>) -> bool {
    exists|i: int|
        piece_start(s, i, hex_class()) && lowercase_hex(
            #[trigger] piece_at(s, i, hex_class()),
            40,
        )
}

/// The first whitespace-separated word of `s`, or nothing.
pub open spec fn first_word(s: Seq<char>) -> Seq<char> {
    let t = trim_start(s);
    t.take(run_end(t, 0, word_class()))
}

pub fn digit(c: char) -> (r: bool)
    ensures
        r == is_digit(c),
{
    let v = c as u32;
    48 <= v && v <= 57
}

fn word(c: char) -> (r: bool)
    ensures
        r == word_char(c),
{
    let v = c as u32;
    (48 <= v && v <= 57) || (97 <= v && v <= 122) || (65 <= v && v <= 90) || c == '_'
}

fn lower_hex(c: char) -> (r: bool)
    ensures
        r == is_lower_hex(c),
{
    let v = c as u32;
    (48 <= v && v <= 57) || (97 <= v && v <= 102)
}

fn hex(c: char) -> (r: bool)
    ensures
        r == is_hex(c),
{
    let v = c as u32;
    (48 <= v && v <= 57) || (97 <= v && v <= 102) || (65 <= v && v <= 70)
}

fn orb_c_at(s: &[char], start: usize) -> (r: bool)
    ensures
        r == (start + 5 <= s@.len() && s@.subrange(start as int, start + 5) == orb_c()),
{
    if start > s.len() || s.len() - start < 5 {
        return false;
    }
    let r = s[start] == 'O' && s[start + 1] == 'R' && s[start + 2] == 'B' && s[start + 3] == '-'
        && s[start + 4] == 'C';
    if r {
        assert(s@.subrange(start as int, start + 5) =~= orb_c());
    } else {
        assert(s@.subrange(start as int, start + 5) != orb_c()) by {
            if s@.subrange(start as int, start + 5) == orb_c() {
                assert(s@.subrange(start as int, start + 5)[0] == s@[start as int]);
                assert(s@.subrange(start as int, start + 5)[1] == s@[start + 1]);
                assert(s@.subrange(start as int, start + 5)[2] == s@[start + 2]);
                assert(s@.subrange(start as int, start + 5)[3] == s@[start + 3]);
                assert(s@.subrange(start as int, start + 5)[4] == s@[start + 4]);
            }
        }
    }
    r
}

/// The contract ID in a cell.
pub fn contract_id_of(cell: &[char]) -> (r: Option<Vec<char>>)
    ensures
        match r {
            Some(id) => contract_id(cell@) == Some(id@),
            None => contract_id(cell@) is None,
        },
{
    if cell.len() < 2 || cell[0] != '`' || cell[cell.len() - 1] != '`' {
        return None;
    }
    let id = copy_range(cell, 1, cell.len() - 1);
    if id.len() <= 5 {
        return None;
    }
    if !orb_c_at(id.as_slice(), 0) || id[5] == '0' {
        assert(id@.subrange(0, 5) =~= id@.take(5));
        return None;
    }
    assert(id@.subrange(0, 5) =~= id@.take(5));
    let mut i: usize = 5;
    while i < id.len()
        invariant
            5 <= i <= id@.len(),
            id@ == cell@.subrange(1, cell@.len() - 1),
            cell@.len() >= 2 && cell@[0] == '`' && cell@[cell@.len() - 1] == '`',
            id@.len() > 5 && id@.take(5) == orb_c() && id@[5] != '0',
            forall|j: int| 5 <= j < i ==> is_digit(#[trigger] id@[j]),
        decreases id@.len() - i,
    {
        if !digit(id[i]) {
            assert(!is_digit(id@.skip(5)[i - 5]));
            assert(!all_digits(id@.skip(5)));
            return None;
        }
        i += 1;
    }
    assert forall|j: int| 0 <= j < id@.skip(5).len() implies is_digit(#[trigger] id@.skip(5)[j]) by {
        assert(id@.skip(5)[j] == id@[j + 5]);
    }
    Some(id)
}

/// Whether `v` is `n` lowercase hexadecimal digits.
pub fn is_lowercase_hex(v: &[char], n: usize) -> (r: bool)
    ensures
        r == lowercase_hex(v@, n as nat),
{
    if v.len() != n {
        return false;
    }
    let mut i: usize = 0;
    while i < v.len()
        invariant
            i <= v@.len(),
            forall|j: int| 0 <= j < i ==> is_lower_hex(#[trigger] v@[j]),
        decreases v@.len() - i,
    {
        if !lower_hex(v[i]) {
            return false;
        }
        i += 1;
    }
    true
}

fn digits_end(s: &[char], from: usize) -> (r: usize)
    requires
        from <= s@.len(),
    ensures
        r == run_end(s@, from as int, digit_class()),
        from <= r <= s@.len(),
{
    let mut i = from;
    while i < s.len() && digit(s[i])
        invariant
            from <= i <= s@.len(),
            run_end(s@, from as int, digit_class()) == run_end(
                s@,
                i as int,
                digit_class(),
            ),
        decreases s@.len() - i,
    {
        i += 1;
    }
    i
}

fn reference_at_exec(s: &[char], start: usize) -> (r: Option<Vec<char>>)
    requires
        start <= s@.len(),
    ensures
        match r {
            Some(d) => reference_at(s@, start as int) == Some(d@),
            None => reference_at(s@, start as int) is None,
        },
{
    if !orb_c_at(s, start) || (start > 0 && word(s[start - 1])) {
        return None;
    }
    let end = digits_end(s, start + 5);
    if end == start + 5 || (end < s.len() && word(s[end])) {
        return None;
    }
    Some(copy_range(s, start + 5, end))
}

/// The contract numbers referenced in `s`, in increasing order.
pub fn contract_references(s: &[char]) -> (r: Vec<Vec<char>>)
    ensures
        sorted(set_view(r@)),
        set_view(r@).to_set() == references(s@),
{
    let mut r: Vec<Vec<char>> = Vec::new();
    let mut i: usize = 0;
    assert(set_view(r@).to_set() =~= Set::<Seq<char>>::empty());
    while i < s.len()
        invariant
            i <= s@.len(),
            sorted(set_view(r@)),
            set_view(r@).to_set() == Set::new(
                |d: Seq<char>| exists|start: int| 0 <= start < i && reference_at(s@, start) == Some(d),
            ),
        decreases s@.len() - i,
    {
        let ghost before = set_view(r@).to_set();
        match reference_at_exec(s, i) {
            Some(d) => {
                let ghost dv = d@;
                insert_sorted(&mut r, d);
                assert(set_view(r@).to_set() =~= Set::new(
                    |x: Seq<char>| exists|start: int| 0 <= start < i + 1 && reference_at(s@, start) == Some(x),
                )) by {
                    assert forall|x: Seq<char>| set_view(r@).to_set().contains(x) implies (exists|start: int|
                        0 <= start < i + 1 && reference_at(s@, start) == Some(x)) by {
                        if x == dv {
                            assert(reference_at(s@, i as int) == Some(x));
                        }
                    }
                }
            },
            None => {
                assert(set_view(r@).to_set() =~= Set::new(
                    |x: Seq<char>| exists|start: int| 0 <= start < i + 1 && reference_at(s@, start) == Some(x),
                ));
            },
        }
        i += 1;
    }
    assert(set_view(r@).to_set() =~= references(s@)) by {
        assert forall|x: Seq<char>| references(s@).contains(x) implies set_view(r@).to_set().contains(x) by {
            let start = choose|start: int| reference_at(s@, start) == Some(x);
            assert(0 <= start < s@.len());
        }
    }
    r
}

/// Whether `c` is a Bead ID.
pub fn is_bead_id(c: &[char]) -> (r: bool)
    ensures
        r == valid_bead_id(c@),
{
    if c.len() < 4 {
        return false;
    }
    let orb = c[0] == 'o' && c[1] == 'r' && c[2] == 'b' && c[3] == '-';
    let ven = c[0] == 'v' && c[1] == 'e' && c[2] == 'n' && c[3] == '-';
    assert(c@.take(4) =~= seq![c@[0], c@[1], c@[2], c@[3]]);
    if !orb && !ven {
        assert(c@.take(4) != seq!['o', 'r', 'b', '-']) by {
            if c@.take(4) == seq!['o', 'r', 'b', '-'] {
                assert(c@.take(4)[3] == '-');
            }
        }
        assert(c@.take(4) != seq!['v', 'e', 'n', '-']) by {
            if c@.take(4) == seq!['v', 'e', 'n', '-'] {
                assert(c@.take(4)[3] == '-');
            }
        }
        return false;
    }
    if orb {
        assert(c@.take(4) =~= seq!['o', 'r', 'b', '-']);
    } else {
        assert(c@.take(4) =~= seq!['v', 'e', 'n', '-']);
    }
    let ghost t = c@.skip(4);
    let mut i: usize = 4;
    let mut part: usize = 0;
    while i < c.len()
        invariant
            4 <= i <= c@.len(),
            t == c@.skip(4),
            part <= i,
            bead_tail_from(t, 0, 0) == bead_tail_from(t, i - 4, part as nat),
        decreases c@.len() - i,
    {
        let ch = c[i];
        assert(t[i - 4] == ch);
        if ch == '-' || ch == '.' {
            if part == 0 {
                return false;
            }
            part = 0;
        } else {
            let v = ch as u32;
            if !((97 <= v && v <= 122) || (48 <= v && v <= 57)) {
                return false;
            }
            part += 1;
        }
        i += 1;
    }
    part > 0
}

/// Whether some Bead ID in `s` is one of `known`.
pub fn names_known_bead_exec(s: &[char], known: &Vec<Vec<char>>) -> (r: bool)
    ensures
        r == names_known_bead(s@, set_view(known@).to_set()),
{
    let ghost class = bead_class();
    let ghost k = set_view(known@).to_set();
    let mut p: usize = 0;
    loop
        invariant
            p <= s@.len(),
            piece_start(s@, p as int, class),
            class == bead_class(),
            k == set_view(known@).to_set(),
            forall|i: int|
                0 <= i < p && #[trigger] piece_start(s@, i, class) ==> !(valid_bead_id(
                    piece_at(s@, i, class),
                ) && k.contains(piece_at(s@, i, class))),
        decreases s@.len() - p,
    {
        let mut e = p;
        while e < s.len() && (digit(s[e]) || (97 <= s[e] as u32 && s[e] as u32 <= 122) || s[e]
            == '-' || s[e] == '.')
            invariant
                p <= e <= s@.len(),
                class == bead_class(),
                run_end(s@, p as int, class) == run_end(s@, e as int, class),
                forall|j: int| p <= j < e ==> bead_char(#[trigger] s@[j]),
            decreases s@.len() - e,
        {
            e += 1;
        }
        let piece = copy_range(s, p, e);
        assert(piece@ == piece_at(s@, p as int, class));
        if is_bead_id(piece.as_slice()) && contains_chars(known, piece.as_slice()) {
            assert(piece_start(s@, p as int, class) && valid_bead_id(piece_at(s@, p as int, class))
                && k.contains(piece_at(s@, p as int, class)));
            return true;
        }
        if e >= s.len() {
            assert forall|i: int| 0 <= i <= s@.len() && #[trigger] piece_start(s@, i, class) implies !(
            valid_bead_id(piece_at(s@, i, class)) && k.contains(piece_at(s@, i, class))) by {
                if p < i {
                    assert(bead_char(s@[i - 1]));
                }
            }
            return false;
        }
        assert forall|i: int| 0 <= i < e + 1 && #[trigger] piece_start(s@, i, class) implies !(
        valid_bead_id(piece_at(s@, i, class)) && k.contains(piece_at(s@, i, class))) by {
            if p < i && i <= e {
                assert(bead_char(s@[i - 1]));
            }
        }
        p = e + 1;
    }
}

/// Whether `v` holds `x`.
pub fn contains_chars(v: &Vec<Vec<char>>, x: &[char]) -> (r: bool)
    ensures
        r == set_view(v@).to_set().contains(x@),
{
    let mut i: usize = 0;
    while i < v.len()
        invariant
            i <= v@.len(),
            forall|j: int| 0 <= j < i ==> set_view(v@)[j] != x@,
        decreases v@.len() - i,
    {
        if super::chars::chars_eq(v[i].as_slice(), x) {
            assert(set_view(v@)[i as int] == x@);
            return true;
        }
        i += 1;
    }
    assert(!set_view(v@).to_set().contains(x@)) by {
        if set_view(v@).to_set().contains(x@) {
            let j = choose|j: int| 0 <= j < set_view(v@).len() && set_view(v@)[j] == x@;
        }
    }
    false
}

fn version_piece(v: &[char]) -> (r: bool)
    ensures
        r == version_from(v@, 0, 0, 0),
{
    let mut i: usize = 0;
    let mut part: usize = 0;
    let mut parts: usize = 0;
    while i < v.len()
        invariant
            i <= v@.len(),
            part <= i,
            parts <= i,
            version_from(v@, 0, 0, 0) == version_from(v@, i as int, part as nat, parts as nat),
        decreases v@.len() - i,
    {
        if v[i] == '.' {
            if part == 0 {
                return false;
            }
            part = 0;
            parts += 1;
        } else {
            if !digit(v[i]) {
                return false;
            }
            part += 1;
        }
        i += 1;
    }
    part > 0 && (parts == 1 || parts == 2)
}

/// Whether `s` names an exact version.
pub fn has_exact_version(s: &[char]) -> (r: bool)
    ensures
        r == names_exact_version(s@),
{
    let ghost class = version_class();
    let mut p: usize = 0;
    loop
        invariant
            p <= s@.len(),
            piece_start(s@, p as int, class),
            class == version_class(),
            forall|i: int|
                0 <= i < p && #[trigger] piece_start(s@, i, class) ==> !version_from(
                    piece_at(s@, i, class),
                    0,
                    0,
                    0,
                ),
        decreases s@.len() - p,
    {
        let mut e = p;
        while e < s.len() && (digit(s[e]) || s[e] == '.')
            invariant
                p <= e <= s@.len(),
                class == version_class(),
                run_end(s@, p as int, class) == run_end(s@, e as int, class),
                forall|j: int| p <= j < e ==> version_char(#[trigger] s@[j]),
            decreases s@.len() - e,
        {
            e += 1;
        }
        let piece = copy_range(s, p, e);
        assert(piece@ == piece_at(s@, p as int, class));
        if version_piece(piece.as_slice()) {
            return true;
        }
        if e >= s.len() {
            assert forall|i: int| 0 <= i <= s@.len() && #[trigger] piece_start(s@, i, class) implies !version_from(
                piece_at(s@, i, class),
                0,
                0,
                0,
            ) by {
                if p < i {
                    assert(version_char(s@[i - 1]));
                }
            }
            return false;
        }
        assert forall|i: int| 0 <= i < e + 1 && #[trigger] piece_start(s@, i, class) implies !version_from(
            piece_at(s@, i, class),
            0,
            0,
            0,
        ) by {
            if p < i && i <= e {
                assert(version_char(s@[i - 1]));
            }
        }
        p = e + 1;
    }
}

/// Whether `s` names a full commit.
pub fn has_full_commit(s: &[char]) -> (r: bool)
    ensures
        r == names_full_commit(s@),
{
    let ghost class = hex_class();
    let mut p: usize = 0;
    loop
        invariant
            p <= s@.len(),
            piece_start(s@, p as int, class),
            class == hex_class(),
            forall|i: int|
                0 <= i < p && #[trigger] piece_start(s@, i, class) ==> !lowercase_hex(
                    piece_at(s@, i, class),
                    40,
                ),
        decreases s@.len() - p,
    {
        let mut e = p;
        while e < s.len() && hex(s[e])
            invariant
                p <= e <= s@.len(),
                class == hex_class(),
                run_end(s@, p as int, class) == run_end(s@, e as int, class),
                forall|j: int| p <= j < e ==> is_hex(#[trigger] s@[j]),
            decreases s@.len() - e,
        {
            e += 1;
        }
        let piece = copy_range(s, p, e);
        assert(piece@ == piece_at(s@, p as int, class));
        if is_lowercase_hex(piece.as_slice(), 40) {
            return true;
        }
        if e >= s.len() {
            assert forall|i: int| 0 <= i <= s@.len() && #[trigger] piece_start(s@, i, class) implies !lowercase_hex(
                piece_at(s@, i, class),
                40,
            ) by {
                if p < i {
                    assert(is_hex(s@[i - 1]));
                }
            }
            return false;
        }
        assert forall|i: int| 0 <= i < e + 1 && #[trigger] piece_start(s@, i, class) implies !lowercase_hex(
            piece_at(s@, i, class),
            40,
        ) by {
            if p < i && i <= e {
                assert(is_hex(s@[i - 1]));
            }
        }
        p = e + 1;
    }
}

/// The first whitespace-separated word of `s`.
pub fn first_word_of(s: &[char]) -> (r: Vec<char>)
    ensures
        r@ == first_word(s@),
{
    let t = trimmed_start(s);
    let ghost class = word_class();
    let mut e: usize = 0;
    while e < t.len() && !whitespace(t[e])
        invariant
            e <= t@.len(),
            class == word_class(),
            run_end(t@, 0, class) == run_end(t@, e as int, class),
        decreases t@.len() - e,
    {
        e += 1;
    }
    let r = copy_range(t.as_slice(), 0, e);
    assert(r@ =~= t@.take(e as int));
    r
}

} // verus!
