//! Launch options of `serve` that stand before the command separator: the
//! management identities and the sixteen-color ANSI palette.

use crate::frame::Rgb;
use crate::management::MAX_ID_BYTES;
use crate::wire::{str_bytes, string_bytes, utf8};
use vstd::prelude::*;

verus! {

// ---------------------------------------------------------------- argument lists

/// The characters of each argument.
pub open spec fn views(args: Seq<String>) -> Seq<Seq<char>> {
    args.map_values(|s: String| s@)
}

/// The index of the first `x` in `a` at or after `from`, or the length of `a`.
pub open spec fn find(a: Seq<Seq<char>>, x: Seq<char>, from: int) -> int
    decreases a.len() - from,
{
    if from >= a.len() {
        a.len() as int
    } else if a[from] == x {
        from
    } else {
        find(a, x, from + 1)
    }
}

pub proof fn lemma_find(a: Seq<Seq<char>>, x: Seq<char>, from: int)
    requires
        0 <= from <= a.len(),
    ensures
        from <= find(a, x, from) <= a.len(),
        find(a, x, from) < a.len() ==> a[find(a, x, from)] == x,
        forall|i: int| from <= i < find(a, x, from) ==> a[i] != x,
    decreases a.len() - from,
{
    if from < a.len() && a[from] != x {
        lemma_find(a, x, from + 1);
    }
}

/// Where the options end: at the first `--`, or after the last argument.
pub open spec fn options_end(a: Seq<Seq<char>>) -> int {
    find(a, "--"@, 0)
}

/// Finds `target` among `arguments[from..end]`.
fn find_argument(arguments: &Vec<String>, target: &String, from: usize, end: usize) -> (r: usize)
    requires
        from <= end <= arguments@.len(),
    ensures
        r == find(views(arguments@).take(end as int), target@, from as int),
{
    let ghost a = views(arguments@).take(end as int);
    let mut i = from;
    while i < end
        invariant
            from <= i <= end,
            end <= arguments@.len(),
            a == views(arguments@).take(end as int),
            find(a, target@, from as int) == find(a, target@, i as int),
        decreases end - i,
    {
        assert(a[i as int] == arguments@[i as int]@);
        if arguments[i] == *target {
            return i;
        }
        i += 1;
    }
    i
}

// ---------------------------------------------------------------- management identities

/// The identities that `--management-v1` carries.
pub struct Launch {
    pub session_id: String,
    pub run_id: String,
    pub component_generation: String,
}

pub open spec fn identity_ok(s: Seq<char>) -> bool {
    1 <= utf8(s).len() <= MAX_ID_BYTES
}

/// What `--management-v1 SESSION_ID RUN_ID COMPONENT_GENERATION` before the
/// separator gives: nothing, the three identities, or the refusal.
pub open spec fn launch_result(a: Seq<Seq<char>>) -> Result<Option<(Seq<char>, Seq<char>, Seq<char>)>, &'static str> {
    let end = options_end(a);
    let head = a.take(end);
    let index = find(head, "--management-v1"@, 0);
    if index >= end {
        Ok(None)
    } else if find(head, "--management-v1"@, index + 1) < end {
        Err("duplicate --management-v1 argument")
    } else if index + 4 > end {
        Err("--management-v1 requires Session, run, and component identities")
    } else if !identity_ok(a[index + 1]) {
        Err("Session ID must contain 1 through 128 UTF-8 bytes")
    } else if !identity_ok(a[index + 2]) {
        Err("run ID must contain 1 through 128 UTF-8 bytes")
    } else if !identity_ok(a[index + 3]) {
        Err("component generation must contain 1 through 128 UTF-8 bytes")
    } else {
        Ok(Some((a[index + 1], a[index + 2], a[index + 3])))
    }
}

/// The first `--management-v1` before the separator.
pub open spec fn launch_index(a: Seq<Seq<char>>) -> int {
    find(a.take(options_end(a)), "--management-v1"@, 0)
}

/// Take the management option and its three identities out of `arguments`.
pub fn take_launch(arguments: &mut Vec<String>) -> (r: Result<Option<Launch>, &'static str>)
    ensures
        match r {
            Ok(Some(l)) => launch_result(views(old(arguments)@)) == Ok::<_, &'static str>(
                Some((l.session_id@, l.run_id@, l.component_generation@)),
            ) && views(final(arguments)@) == views(old(arguments)@).take(
                launch_index(views(old(arguments)@)),
            ) + views(old(arguments)@).skip(launch_index(views(old(arguments)@)) + 4),
            Ok(None) => launch_result(views(old(arguments)@)) == Ok::<
                Option<(Seq<char>, Seq<char>, Seq<char>)>,
                &'static str,
            >(None) && final(arguments)@ == old(arguments)@,
            Err(e) => launch_result(views(old(arguments)@)) == Err::<
                Option<(Seq<char>, Seq<char>, Seq<char>)>,
                &'static str,
            >(e) && final(arguments)@ == old(arguments)@,
        },
{
    let ghost a = views(arguments@);
    let separator = "--".to_owned();
    let flag = "--management-v1".to_owned();
    let launch_end = find_argument(arguments, &separator, 0, arguments.len());
    assert(views(arguments@).take(arguments@.len() as int) =~= a);
    proof {
        lemma_find(a, "--"@, 0);
    }
    let index = find_argument(arguments, &flag, 0, launch_end);
    proof {
        lemma_find(a.take(launch_end as int), "--management-v1"@, 0);
    }
    if index == launch_end {
        return Ok(None);
    }
    if find_argument(arguments, &flag, index + 1, launch_end) < launch_end {
        return Err("duplicate --management-v1 argument");
    }
    if launch_end < 4 || index > launch_end - 4 {
        return Err("--management-v1 requires Session, run, and component identities");
    }
    assert(a[index + 1] == arguments@[index + 1]@);
    assert(a[index + 2] == arguments@[index + 2]@);
    assert(a[index + 3] == arguments@[index + 3]@);
    let session_len = string_bytes(&arguments[index + 1]).len();
    if session_len == 0 || session_len > MAX_ID_BYTES {
        return Err("Session ID must contain 1 through 128 UTF-8 bytes");
    }
    let run_len = string_bytes(&arguments[index + 2]).len();
    if run_len == 0 || run_len > MAX_ID_BYTES {
        return Err("run ID must contain 1 through 128 UTF-8 bytes");
    }
    let component_len = string_bytes(&arguments[index + 3]).len();
    if component_len == 0 || component_len > MAX_ID_BYTES {
        return Err("component generation must contain 1 through 128 UTF-8 bytes");
    }
    let launch = Launch {
        session_id: arguments[index + 1].clone(),
        run_id: arguments[index + 2].clone(),
        component_generation: arguments[index + 3].clone(),
    };
    let ghost before = arguments@;
    arguments.remove(index);
    arguments.remove(index);
    arguments.remove(index);
    arguments.remove(index);
    assert(views(arguments@) =~= a.take(index as int) + a.skip(index + 4));
    Ok(Some(launch))
}

// ---------------------------------------------------------------- ANSI palette

pub open spec fn hex_digit(b: u8) -> bool {
    (48 <= b <= 57) || (65 <= b <= 70) || (97 <= b <= 102)
}

pub open spec fn hex_value(b: u8) -> int {
    if b <= 57 {
        b - 48
    } else if b <= 70 {
        b - 55
    } else {
        b - 87
    }
}

/// A palette entry is exactly six hexadecimal digits.
pub open spec fn entry_ok(e: Seq<u8>) -> bool {
    e.len() == 6 && forall|i: int| 0 <= i < 6 ==> hex_digit(#[trigger] e[i])
}

pub open spec fn entry_color(e: Seq<u8>) -> Rgb {
    Rgb {
        r: (16 * hex_value(e[0]) + hex_value(e[1])) as u8,
        g: (16 * hex_value(e[2]) + hex_value(e[3])) as u8,
        b: (16 * hex_value(e[4]) + hex_value(e[5])) as u8,
    }
}

/// The index of the first comma in `b` at or after `from`, or the length of `b`.
pub open spec fn comma_from(b: Seq<u8>, from: int) -> int
    decreases b.len() - from,
{
    if from >= b.len() {
        b.len() as int
    } else if b[from] == 44 {
        from
    } else {
        comma_from(b, from + 1)
    }
}

pub proof fn lemma_comma_from(b: Seq<u8>, from: int)
    requires
        0 <= from <= b.len(),
    ensures
        from <= comma_from(b, from) <= b.len(),
        comma_from(b, from) < b.len() ==> b[comma_from(b, from)] == 44,
        forall|i: int| from <= i < comma_from(b, from) ==> b[i] != 44,
    decreases b.len() - from,
{
    if from < b.len() && b[from] != 44 {
        lemma_comma_from(b, from + 1);
    }
}

/// The comma-separated entries of `b`, as splitting at every comma gives them.
pub open spec fn split_commas(b: Seq<u8>) -> Seq<Seq<u8>>
    decreases b.len(),
{
    let i = comma_from(b, 0);
    if i >= b.len() {
        seq![b]
    } else {
        proof {
            lemma_comma_from(b, 0);
        }
        seq![b.take(i)] + split_commas(b.skip(i + 1))
    }
}

/// The sixteen colors of `value`, or the refusal.
pub open spec fn palette_result(value: Seq<char>) -> Result<Seq<Rgb>, &'static str> {
    let es = split_commas(utf8(value));
    if exists|k: int| 0 <= k < 16 && k < es.len() && !entry_ok(#[trigger] es[k]) {
        Err("ANSI palette colors must be six hexadecimal digits")
    } else if es.len() != 16 {
        Err("ANSI palette must contain exactly 16 colors")
    } else {
        Ok(Seq::new(16, |k: int| entry_color(es[k])))
    }
}

/// The entries from `start` on.
proof fn lemma_split_from(b: Seq<u8>, start: int, from: int)
    requires
        0 <= start <= from <= b.len(),
        forall|i: int| start <= i < from ==> b[i] != 44,
    ensures
        comma_from(b.skip(start), from - start) == comma_from(b, from) - start,
    decreases b.len() - from,
{
    if from < b.len() && b[from] != 44 {
        lemma_split_from(b, start, from + 1);
    }
}

proof fn lemma_split_step(b: Seq<u8>, start: int)
    requires
        0 <= start <= b.len(),
    ensures
        ({
            let e = comma_from(b, start);
            let rest = split_commas(b.skip(start));
            &&& rest.len() >= 1
            &&& rest[0] == b.subrange(start, e)
            &&& e >= b.len() ==> rest.len() == 1
            &&& e < b.len() ==> rest.drop_first() == split_commas(b.skip(e + 1))
        }),
{
    lemma_split_from(b, start, start);
    lemma_comma_from(b, start);
    let e = comma_from(b, start);
    let s = b.skip(start);
    assert(s.take(e - start) =~= b.subrange(start, e));
    if e < b.len() {
        assert(s.skip(e - start + 1) =~= b.skip(e + 1));
    } else {
        assert(s =~= b.subrange(start, e));
    }
}

fn hex_digit_value(b: u8) -> (r: Option<u8>)
    ensures
        r is Some <==> hex_digit(b),
        r matches Some(v) ==> v == hex_value(b) && v < 16,
{
    if 48 <= b && b <= 57 {
        Some(b - 48)
    } else if 65 <= b && b <= 70 {
        Some(b - 55)
    } else if 97 <= b && b <= 102 {
        Some(b - 87)
    } else {
        None
    }
}

/// The color of one entry, if it is six hexadecimal digits.
fn parse_entry(bytes: &[u8], start: usize, end: usize) -> (r: Option<Rgb>)
    requires
        start <= end <= bytes@.len(),
    ensures
        r is Some <==> entry_ok(bytes@.subrange(start as int, end as int)),
        r matches Some(c) ==> c == entry_color(bytes@.subrange(start as int, end as int)),
{
    let ghost e = bytes@.subrange(start as int, end as int);
    if end - start != 6 {
        return None;
    }
    let mut digits: [u8; 6] = [0; 6];
    let mut i: usize = 0;
    while i < 6
        invariant
            end - start == 6,
            start <= end <= bytes@.len(),
            e == bytes@.subrange(start as int, end as int),
            i <= 6,
            forall|j: int| 0 <= j < i ==> hex_digit(#[trigger] e[j]) && digits@[j] == hex_value(e[j]),
            forall|j: int| 0 <= j < i ==> digits@[j] < 16,
        decreases 6 - i,
    {
        match hex_digit_value(bytes[start + i]) {
            Some(v) => {
                digits[i] = v;
            },
            None => {
                assert(!hex_digit(e[i as int]));
                return None;
            },
        }
        i += 1;
    }
    Some(Rgb {
        r: digits[0] * 16 + digits[1],
        g: digits[2] * 16 + digits[3],
        b: digits[4] * 16 + digits[5],
    })
}

/// The sixteen colors of a comma-separated `RRGGBB` list.
pub fn parse_ansi_palette(value: &str) -> (r: Result<[Rgb; 16], &'static str>)
    ensures
        match r {
            Ok(colors) => palette_result(value@) == Ok::<Seq<Rgb>, &'static str>(colors@),
            Err(e) => palette_result(value@) == Err::<Seq<Rgb>, &'static str>(e),
        },
{
    let bytes = str_bytes(value);
    let ghost b = bytes@;
    let ghost es = split_commas(b);
    let mut colors: [Rgb; 16] = [Rgb::black(); 16];
    let mut start: usize = 0;
    let mut more = true;
    let mut k: usize = 0;
    proof {
        assert(b.skip(0) =~= b);
    }
    while k < 16
        invariant
            b == bytes@,
            b == utf8(value@),
            es == split_commas(b),
            k <= 16,
            start <= b.len(),
            more ==> es.len() >= k + 1 && split_commas(b.skip(start as int)) == es.skip(k as int),
            !more ==> es.len() == k,
            forall|j: int| 0 <= j < k ==> entry_ok(#[trigger] es[j]) && colors@[j] == entry_color(es[j]),
        decreases 16 - k,
    {
        if !more {
            assert(!(exists|j: int| 0 <= j < 16 && j < es.len() && !entry_ok(#[trigger] es[j])));
            return Err("ANSI palette must contain exactly 16 colors");
        }
        let mut end = start;
        while end < bytes.len() && bytes[end] != 44
            invariant
                start <= end <= bytes@.len(),
                forall|i: int| start <= i < end ==> bytes@[i] != 44,
                comma_from(bytes@, start as int) == comma_from(bytes@, end as int),
            decreases bytes@.len() - end,
        {
            end += 1;
        }
        proof {
            lemma_split_step(b, start as int);
            assert(es[k as int] == split_commas(b.skip(start as int))[0]);
        }
        match parse_entry(bytes, start, end) {
            Some(color) => {
                colors[k] = color;
            },
            None => {
                assert(!entry_ok(es[k as int]));
                return Err("ANSI palette colors must be six hexadecimal digits");
            },
        }
        if end == bytes.len() {
            more = false;
        } else {
            proof {
                assert(es.skip(k + 1) =~= es.skip(k as int).drop_first());
            }
            start = end + 1;
        }
        k += 1;
    }
    if more {
        assert(!(exists|j: int| 0 <= j < 16 && j < es.len() && !entry_ok(#[trigger] es[j])));
        return Err("ANSI palette must contain exactly 16 colors");
    }
    assert(colors@ =~= Seq::new(16, |j: int| entry_color(es[j])));
    Ok(colors)
}

/// What `--ansi-palette-v1 RGB,...` before the separator gives: nothing, the
/// colors, or the refusal.
pub open spec fn palette_option_result(a: Seq<Seq<char>>) -> Result<Option<Seq<Rgb>>, &'static str> {
    let end = options_end(a);
    let head = a.take(end);
    let index = find(head, "--ansi-palette-v1"@, 0);
    if index >= end {
        Ok(None)
    } else if find(head, "--ansi-palette-v1"@, index + 1) < end {
        Err("duplicate --ansi-palette-v1 argument")
    } else if end > 3 {
        Err("unexpected argument before the command separator")
    } else if index + 1 >= end {
        Err("missing --ansi-palette-v1 value")
    } else {
        match palette_result(a[index + 1]) {
            Err(e) => Err(e),
            Ok(colors) => Ok(Some(colors)),
        }
    }
}

/// The first `--ansi-palette-v1` before the separator.
pub open spec fn palette_index(a: Seq<Seq<char>>) -> int {
    find(a.take(options_end(a)), "--ansi-palette-v1"@, 0)
}

/// The options are taken from before the `--` separator only: whenever an
/// option is taken, the separator and the child command after it stay as
/// they were, behind the remaining options.
pub proof fn law_child_command_is_kept(a: Seq<Seq<char>>)
    ensures
        launch_result(a) is Ok && launch_result(a)->Ok_0 is Some ==> ({
            let i = launch_index(a);
            let end = options_end(a);
            &&& 0 <= i && i + 4 <= end
            &&& (a.take(i) + a.skip(i + 4)).skip(end - 4) == a.skip(end)
        }),
        palette_option_result(a) is Ok && palette_option_result(a)->Ok_0 is Some ==> ({
            let i = palette_index(a);
            let end = options_end(a);
            &&& 0 <= i && i + 2 <= end
            &&& (a.take(i) + a.skip(i + 2)).skip(end - 2) == a.skip(end)
        }),
{
    let end = options_end(a);
    lemma_find(a, "--"@, 0);
    let head = a.take(end);
    lemma_find(head, "--management-v1"@, 0);
    lemma_find(head, "--ansi-palette-v1"@, 0);
    if launch_result(a) is Ok && launch_result(a)->Ok_0 is Some {
        let i = launch_index(a);
        assert((a.take(i) + a.skip(i + 4)).skip(end - 4) =~= a.skip(end));
    }
    if palette_option_result(a) is Ok && palette_option_result(a)->Ok_0 is Some {
        let i = palette_index(a);
        assert((a.take(i) + a.skip(i + 2)).skip(end - 2) =~= a.skip(end));
    }
}

/// Take the palette option and its value out of `arguments`.
pub fn take_ansi_palette(arguments: &mut Vec<String>) -> (r: Result<Option<[Rgb; 16]>, &'static str>)
    ensures
        match r {
            Ok(Some(colors)) => palette_option_result(views(old(arguments)@)) == Ok::<_, &'static str>(
                Some(colors@),
            ) && views(final(arguments)@) == views(old(arguments)@).take(
                palette_index(views(old(arguments)@)),
            ) + views(old(arguments)@).skip(palette_index(views(old(arguments)@)) + 2),
            Ok(None) => palette_option_result(views(old(arguments)@)) == Ok::<
                Option<Seq<Rgb>>,
                &'static str,
            >(None) && final(arguments)@ == old(arguments)@,
            Err(e) => palette_option_result(views(old(arguments)@)) == Err::<
                Option<Seq<Rgb>>,
                &'static str,
            >(e) && final(arguments)@ == old(arguments)@,
        },
{
    let ghost a = views(arguments@);
    let separator = "--".to_owned();
    let flag = "--ansi-palette-v1".to_owned();
    let launch_end = find_argument(arguments, &separator, 0, arguments.len());
    assert(views(arguments@).take(arguments@.len() as int) =~= a);
    proof {
        lemma_find(a, "--"@, 0);
    }
    let index = find_argument(arguments, &flag, 0, launch_end);
    proof {
        lemma_find(a.take(launch_end as int), "--ansi-palette-v1"@, 0);
    }
    if index == launch_end {
        return Ok(None);
    }
    if find_argument(arguments, &flag, index + 1, launch_end) < launch_end {
        return Err("duplicate --ansi-palette-v1 argument");
    }
    if launch_end > 3 {
        return Err("unexpected argument before the command separator");
    }
    if index + 1 >= launch_end {
        return Err("missing --ansi-palette-v1 value");
    }
    assert(a[index + 1] == arguments@[index + 1]@);
    let colors = parse_ansi_palette(arguments[index + 1].as_str())?;
    arguments.remove(index);
    arguments.remove(index);
    assert(views(arguments@) =~= a.take(index as int) + a.skip(index + 2));
    Ok(Some(colors))
}

} // verus!
