//! Reading cargo's output and remembering build sizes: the built binary's
//! path, compiled-crate counting and the progress bar's denominator.
use vstd::prelude::*;

use crate::progress::{digit_value, digits_value, download_pct, is_ascii_digit, is_digit, trailing_digits};
use crate::text::{is_ws, lemma_trim_start_ws_prefix};
use crate::text::{
    chars_of, find, find_chars, lemma_find_from_first, lemma_find_from_sound, lines, matches_at,
    push_all, slice_of, split_lines, starts_with, starts_with_chars, string_of, trim, trim_chars,
    trim_end, trim_start, trim_start_chars, views,
};

verus! {

/// The text that introduces the binary's path in a cargo JSON message.
pub open spec fn exe_key() -> Seq<char> {
    "\"executable\":\""@
}

/// `s` with every `\\` pair (an escaped backslash in JSON) turned into one
/// backslash, scanning left to right as `str::replace` does.
pub open spec fn unescape(s: Seq<char>) -> Seq<char>
    decreases s.len(),
{
    if s.len() >= 2 && s[0] == '\\' && s[1] == '\\' {
        seq!['\\'] + unescape(s.skip(2))
    } else if s.len() == 0 {
        s
    } else {
        seq![s[0]] + unescape(s.drop_first())
    }
}

/// The binary path a cargo JSON line carries: the text between the first
/// `"executable":"` and the next `"`, unescaped; none for other lines.
pub open spec fn executable_in(line: Seq<char>) -> Option<Seq<char>> {
    match find(line, exe_key()) {
        None => None,
        Some(i) => {
            let rest = line.skip((i + exe_key().len()) as int);
            match find(rest, seq!['"']) {
                None => None,
                Some(e) => Some(unescape(rest.take(e as int))),
            }
        },
    }
}

/// The binary path of the last line of `ls` that carries one.
pub open spec fn last_executable(ls: Seq<Seq<char>>) -> Option<Seq<char>>
    decreases ls.len(),
{
    if ls.len() == 0 {
        None
    } else {
        match executable_in(ls.last()) {
            Some(p) => Some(p),
            None => last_executable(ls.drop_last()),
        }
    }
}

/// The error reported when cargo names no binary.
pub open spec fn no_executable_message() -> Seq<char> {
    "cargo build produced no executable"@
}

/// A cargo status line announcing a crate being compiled.
pub open spec fn is_compiling_line(line: Seq<char>) -> bool {
    starts_with(trim_start(line), "Compiling "@)
}

/// The number `s` spells as `u32::from_str` reads it: an optional `+`, then
/// one or more ASCII digits, with a value that fits in a `u32`.
pub open spec fn parse_u32(s: Seq<char>) -> Option<u32> {
    let d = unsigned_part(s);
    if d.len() > 0 && (forall|k: int| 0 <= k < d.len() ==> is_digit(d[k])) && digits_value(d)
        <= u32::MAX {
        Some(digits_value(d) as u32)
    } else {
        None
    }
}

/// `s` without one leading `+`.
pub open spec fn unsigned_part(s: Seq<char>) -> Seq<char> {
    if s.len() > 0 && s[0] == '+' {
        s.drop_first()
    } else {
        s
    }
}

/// The ASCII digit for `d`.
pub open spec fn digit_char(d: nat) -> char {
    (d + 48) as char
}

/// The decimal spelling of `n`, as `u32::to_string` writes it.
pub open spec fn decimal(n: nat) -> Seq<char>
    decreases n,
{
    if n < 10 {
        seq![digit_char(n)]
    } else {
        decimal(n / 10).push(digit_char(n % 10))
    }
}

/// The crate count stored in a units file's contents, when it is a positive
/// number (surrounding whitespace allowed).
pub open spec fn cached_units_of(contents: Option<Seq<char>>) -> Option<u32> {
    match contents {
        None => None,
        Some(s) => match parse_u32(trim(s)) {
            Some(n) => if n > 0 {
                Some(n)
            } else {
                None
            },
            None => None,
        },
    }
}

/// The progress denominator before any build of a profile has been seen.
pub const DEFAULT_UNITS: u32 = 280;

/// The largest build seen, counting `n` and the stored count.
pub open spec fn best_units(n: u32, cached: Option<u32>) -> u32 {
    let prev = match cached {
        Some(c) => c,
        None => 0,
    };
    if n >= prev {
        n
    } else {
        prev
    }
}

/// Pulls the built binary's path out of a `cargo build --message-format=json`
/// line. `None` for library artifacts (`"executable":null`) and lines that are
/// not artifacts.
pub fn parse_executable(line: &str) -> (r: Option<String>)
    ensures
        match r {
            Some(p) => executable_in(line@) == Some(p@),
            None => executable_in(line@) is None,
        },
{
    let s = chars_of(line);
    match exe_of_chars(&s) {
        Some(v) => Some(string_of(&v)),
        None => None,
    }
}

/// `parse_executable` over characters.
fn exe_of_chars(s: &Vec<char>) -> (r: Option<Vec<char>>)
    ensures
        match r {
            Some(p) => executable_in(s@) == Some(p@),
            None => executable_in(s@) is None,
        },
{
    let key = chars_of("\"executable\":\"");
    let i = match find_chars(s, &key) {
        None => {
            return None;
        },
        Some(i) => i,
    };
    proof {
        lemma_find_from_sound(s@, key@, 0);
        assert(matches_at(s@, key@, i as int));
        assert(i + key@.len() <= s@.len());
    }
    assert(s@.len() == s.len());
    let start = i + key.len();
    let rest = slice_of(s, start, s.len());
    assert(rest@ =~= s@.skip(start as int));
    let quote: Vec<char> = vec!['"'];
    assert(quote@ =~= seq!['"']);
    let e = match find_chars(&rest, &quote) {
        None => {
            return None;
        },
        Some(e) => e,
    };
    proof {
        lemma_find_from_sound(rest@, quote@, 0);
    }
    let raw = slice_of(&rest, 0, e);
    assert(raw@ =~= rest@.take(e as int));
    Some(unescape_chars(&raw))
}

/// `s` with each escaped backslash pair turned into one backslash.
fn unescape_chars(s: &Vec<char>) -> (r: Vec<char>)
    ensures
        r@ == unescape(s@),
{
    let mut out: Vec<char> = Vec::new();
    let mut i: usize = 0;
    assert(s@.skip(0) =~= s@);
    while i < s.len()
        invariant
            i <= s.len(),
            out@ + unescape(s@.skip(i as int)) == unescape(s@),
        decreases s.len() - i,
    {
        let ghost t = s@.skip(i as int);
        if i + 1 < s.len() && s[i] == '\\' && s[i + 1] == '\\' {
            assert(t.skip(2) =~= s@.skip(i + 2));
            assert(out@.push('\\') + unescape(s@.skip(i + 2)) =~= out@ + (seq!['\\'] + unescape(
                t.skip(2),
            )));
            out.push('\\');
            i = i + 2;
        } else {
            assert(t.drop_first() =~= s@.skip(i + 1));
            assert(out@.push(s@[i as int]) + unescape(s@.skip(i + 1)) =~= out@ + (seq![t[0]]
                + unescape(t.drop_first())));
            out.push(s[i]);
            i = i + 1;
        }
    }
    assert(s@.skip(i as int) =~= Seq::<char>::empty());
    assert(out@ + unescape(Seq::<char>::empty()) =~= out@);
    out
}

/// The binary path named by cargo's JSON output: the last line that names
/// one; an error when no line does.
pub fn find_executable(stdout: &str) -> (r: Result<String, String>)
    ensures
        match last_executable(lines(stdout@)) {
            Some(p) => r is Ok && r->Ok_0@ == p,
            None => r is Err && r->Err_0@ == no_executable_message(),
        },
{
    let text = chars_of(stdout);
    let ls = split_lines(&text);
    let ghost all = views(ls@);
    assert(all == lines(stdout@));
    let mut j = ls.len();
    assert(all.take(j as int) =~= all);
    while j > 0
        invariant
            j <= ls.len(),
            all == lines(stdout@),
            all == views(ls@),
            last_executable(all) == last_executable(all.take(j as int)),
        decreases j,
    {
        let ghost pre = all.take(j as int);
        assert(pre.last() == ls@[j - 1]@);
        assert(pre.drop_last() =~= all.take(j - 1));
        match exe_of_chars(&ls[j - 1]) {
            Some(p) => {
                assert(last_executable(pre) == Some(p@));
                return Ok(string_of(&p));
            },
            None => {},
        }
        j = j - 1;
    }
    let msg = chars_of("cargo build produced no executable");
    Err(string_of(&msg))
}

/// Whether a line of cargo's status output announces a crate being compiled.
pub fn announces_compiling(line: &str) -> (r: bool)
    ensures
        r == is_compiling_line(line@),
{
    let s = chars_of(line);
    let t = trim_start_chars(&s);
    let word = chars_of("Compiling ");
    starts_with_chars(&t, &word)
}

/// After one line of cargo's status output: the new compiled-crate count when
/// the line announces a crate being compiled, `None` otherwise.
pub fn count_compiled(compiled: u32, line: &str) -> (r: Option<u32>)
    requires
        compiled < u32::MAX,
    ensures
        is_compiling_line(line@) ==> r == Some((compiled + 1) as u32),
        !is_compiling_line(line@) ==> r is None,
{
    if announces_compiling(line) {
        Some(compiled + 1)
    } else {
        None
    }
}

/// The reason given when the build fails: the exit status and where the log is.
pub fn build_failed_message(status: &str, log: &str) -> (r: String)
    ensures
        r@ == "build failed (exit "@ + status@ + "); see "@ + log@,
{
    let mut v = chars_of("build failed (exit ");
    let st = chars_of(status);
    push_all(&mut v, &st);
    let mid = chars_of("); see ");
    push_all(&mut v, &mid);
    let l = chars_of(log);
    push_all(&mut v, &l);
    string_of(&v)
}

/// `u32::from_str` over characters.
fn parse_u32_chars(s: &Vec<char>) -> (r: Option<u32>)
    ensures
        r == parse_u32(s@),
{
    let d = if s.len() > 0 && s[0] == '+' {
        slice_of(s, 1, s.len())
    } else {
        slice_of(s, 0, s.len())
    };
    assert(d@ =~= unsigned_part(s@));
    if d.len() == 0 {
        return None;
    }
    let mut v: u64 = 0;
    for i in 0..d.len()
        invariant
            d@ == unsigned_part(s@),
            d@.len() > 0,
            forall|k: int| 0 <= k < i ==> is_digit(d@[k]),
            v as nat == digits_value(d@.take(i as int)),
            v <= u32::MAX,
    {
        if !is_ascii_digit(d[i]) {
            assert(!is_digit(d@[i as int]));
            return None;
        }
        assert(d@.take(i + 1).drop_last() =~= d@.take(i as int));
        let digit = (d[i] as u32 - 48) as u64;
        let next = v * 10 + digit;
        if next > u32::MAX as u64 {
            proof {
                if forall|k: int| 0 <= k < d@.len() ==> is_digit(d@[k]) {
                    lemma_digits_value_grows(d@, (i + 1) as nat);
                }
            }
            return None;
        }
        v = next;
    }
    assert(d@.take(d.len() as int) =~= d@);
    Some(v as u32)
}

/// A longer run of digits never spells a smaller number.
proof fn lemma_digits_value_grows(d: Seq<char>, k: nat)
    requires
        k <= d.len(),
        forall|m: int| 0 <= m < d.len() ==> is_digit(d[m]),
    ensures
        digits_value(d.take(k as int)) <= digits_value(d),
    decreases d.len() - k,
{
    if k < d.len() {
        lemma_digits_value_grows(d, k + 1);
        assert(d.take(k as int + 1).drop_last() =~= d.take(k as int));
    } else {
        assert(d.take(k as int) =~= d);
    }
}

/// Crates compiled in the largest build seen so far, read from the units
/// file's contents (`None` when the file could not be read): a positive
/// number, or `None`.
pub fn cached_units(contents: Option<&str>) -> (r: Option<u32>)
    ensures
        r == cached_units_of(
            match contents {
                Some(s) => Some(s@),
                None => None,
            },
        ),
{
    match contents {
        None => None,
        Some(s) => {
            let t = trim_chars(&chars_of(s));
            match parse_u32_chars(&t) {
                Some(n) => if n > 0 {
                    Some(n)
                } else {
                    None
                },
                None => None,
            }
        },
    }
}

/// Denominator for the build progress bar: the cached count, or a default
/// before the first build.
pub fn total_units(cached: Option<u32>) -> (r: u32)
    ensures
        r == match cached {
            Some(n) => n,
            None => DEFAULT_UNITS,
        },
{
    match cached {
        Some(n) => n,
        None => DEFAULT_UNITS,
    }
}

/// The decimal spelling of `n`.
fn decimal_chars(n: u32) -> (r: Vec<char>)
    ensures
        r@ == decimal(n as nat),
    decreases n,
{
    if n < 10 {
        let c = char_of_digit(n);
        let mut v: Vec<char> = Vec::new();
        v.push(c);
        assert(v@ =~= seq![digit_char(n as nat)]);
        v
    } else {
        let mut v = decimal_chars(n / 10);
        v.push(char_of_digit(n % 10));
        v
    }
}

/// The ASCII digit for `d`.
fn char_of_digit(d: u32) -> (c: char)
    requires
        d < 10,
    ensures
        c == digit_char(d as nat),
{
    if d == 0 { '0' } else if d == 1 { '1' } else if d == 2 { '2' } else if d == 3 { '3' }
    else if d == 4 { '4' } else if d == 5 { '5' } else if d == 6 { '6' } else if d == 7 { '7' }
    else if d == 8 { '8' } else { '9' }
}

/// What to write to the units file after a build that compiled `n` crates,
/// given the stored count: the larger of the two, spelled in decimal; nothing
/// when both are zero.
pub fn save_build_units(n: u32, cached: Option<u32>) -> (r: Option<String>)
    ensures
        best_units(n, cached) > 0 ==> r is Some && r->0@ == decimal(best_units(n, cached) as nat),
        best_units(n, cached) == 0 ==> r is None,
{
    let prev = match cached {
        Some(c) => c,
        None => 0,
    };
    let best = if n >= prev {
        n
    } else {
        prev
    };
    if best > 0 {
        let v = decimal_chars(best);
        Some(string_of(&v))
    } else {
        None
    }
}

// ---------------------------------------------------------------------------
// Laws
// ---------------------------------------------------------------------------

/// The decimal spelling of `n` is all digits, spells `n`, and has no sign.
pub proof fn lemma_decimal_digits(n: nat)
    ensures
        decimal(n).len() > 0,
        forall|k: int| 0 <= k < decimal(n).len() ==> is_digit(#[trigger] decimal(n)[k]),
        digits_value(decimal(n)) == n,
    decreases n,
{
    if n >= 10 {
        lemma_decimal_digits(n / 10);
        let d = decimal(n);
        assert(d.drop_last() =~= decimal(n / 10));
        assert((n / 10) * 10 + n % 10 == n);
        assert(digit_value(digit_char(n % 10)) == n % 10);
        assert(digits_value(d) == digits_value(d.drop_last()) * 10 + digit_value(d.last()));
        assert(d.last() == digit_char(n % 10));
        assert forall|k: int| 0 <= k < d.len() implies is_digit(#[trigger] d[k]) by {
            if k < d.len() - 1 {
                assert(d[k] == decimal(n / 10)[k]);
            }
        }
    } else {
        let d = decimal(n);
        assert(d.drop_last() =~= Seq::<char>::empty());
        assert(digit_value(digit_char(n)) == n);
        assert(digits_value(d) == digits_value(d.drop_last()) * 10 + digit_value(d.last()));
    }
}

/// What is written to the units file reads back as the same count: the
/// stored count after a build is the largest of the build and the earlier
/// count, and it is never lower than either.
pub proof fn lemma_units_round_trip(n: u32, cached: Option<u32>)
    requires
        best_units(n, cached) > 0,
    ensures
        cached_units_of(Some(decimal(best_units(n, cached) as nat))) == Some(best_units(n, cached)),
        best_units(n, cached) >= n,
        cached is Some ==> best_units(n, cached) >= cached->0,
{
    let b = best_units(n, cached);
    let d = decimal(b as nat);
    lemma_decimal_digits(b as nat);
    assert(!crate::text::is_ws(d[0]));
    assert(trim_start(d) == d);
    assert(!crate::text::is_ws(d.last()));
    assert(trim_end(d) == d);
    assert(d[0] != '+');
}

/// Counting compiled crates: the denominator is never zero.
pub proof fn lemma_total_units_positive(contents: Option<Seq<char>>)
    ensures
        match cached_units_of(contents) {
            Some(n) => n > 0,
            None => DEFAULT_UNITS > 0,
        },
{
}

/// JSON escaping of a path, undone: each backslash doubled.
pub open spec fn escape(p: Seq<char>) -> Seq<char>
    decreases p.len(),
{
    if p.len() == 0 {
        p
    } else if p[0] == '\\' {
        seq!['\\', '\\'] + escape(p.drop_first())
    } else {
        seq![p[0]] + escape(p.drop_first())
    }
}

/// Unescaping an escaped path gives the path back.
pub proof fn lemma_unescape_escape(p: Seq<char>)
    ensures
        unescape(escape(p)) == p,
        p.len() <= escape(p).len(),
        !p.contains('"') ==> !escape(p).contains('"'),
    decreases p.len(),
{
    if p.len() > 0 {
        lemma_unescape_escape(p.drop_first());
        let e = escape(p);
        let r = escape(p.drop_first());
        if p[0] == '\\' {
            assert(e.skip(2) =~= r);
            assert(seq!['\\'] + p.drop_first() =~= p);
            if !p.contains('"') {
                assert(!p.drop_first().contains('"')) by {
                    if p.drop_first().contains('"') {
                        let k = choose|k: int| 0 <= k < p.drop_first().len() && p.drop_first()[k] == '"';
                        assert(p[k + 1] == '"');
                    }
                }
                assert forall|k: int| 0 <= k < e.len() implies e[k] != '"' by {
                    if k >= 2 {
                        assert(e[k] == r[k - 2]);
                    }
                }
            }
        } else {
            assert(e.drop_first() =~= r);
            assert(seq![p[0]] + p.drop_first() =~= p);
            if !p.contains('"') {
                assert(p[0] != '"');
                assert(!p.drop_first().contains('"')) by {
                    if p.drop_first().contains('"') {
                        let k = choose|k: int| 0 <= k < p.drop_first().len() && p.drop_first()[k] == '"';
                        assert(p[k + 1] == '"');
                    }
                }
                assert forall|k: int| 0 <= k < e.len() implies e[k] != '"' by {
                    if k >= 1 {
                        assert(e[k] == r[k - 1]);
                    }
                }
            }
        }
    }
}

/// A cargo line that names a binary path (JSON-escaped, with no `"` in it)
/// right after `"executable":"` gives that path back unescaped.
pub proof fn lemma_executable_round_trip(path: Seq<char>, tail: Seq<char>)
    requires
        !path.contains('"'),
    ensures
        executable_in(exe_key() + escape(path) + seq!['"'] + tail) == Some(path),
{
    reveal_strlit("\"executable\":\"");
    let key = exe_key();
    let e = escape(path);
    let line = key + e + seq!['"'] + tail;
    lemma_unescape_escape(path);
    assert(line.subrange(0, key.len() as int) =~= key);
    lemma_find_from_first(line, key, 0, 0);
    let rest = line.skip(key.len() as int);
    assert(rest =~= e + seq!['"'] + tail);
    assert(rest.subrange(e.len() as int, e.len() as int + 1) =~= seq!['"']);
    assert forall|j: int| 0 <= j < e.len() implies !matches_at(rest, seq!['"'], j) by {
        assert(rest.subrange(j, j + 1)[0] == e[j]);
        assert(e[j] != '"');
    }
    lemma_find_from_first(rest, seq!['"'], 0, e.len());
    assert(rest.take(e.len() as int) =~= e);
}

/// The count the units file holds after builds compiling `ns[0]`, `ns[1]`,
/// ... crates, in order, starting from `cached`: each build writes what
/// `save_build_units` gives (when it gives anything) and the next one reads it
/// back as `cached_units` does.
pub open spec fn units_after(cached: Option<u32>, ns: Seq<u32>) -> Option<u32>
    decreases ns.len(),
{
    if ns.len() == 0 {
        cached
    } else {
        let prev = units_after(cached, ns.drop_last());
        let b = best_units(ns.last(), prev);
        if b > 0 {
            cached_units_of(Some(decimal(b as nat)))
        } else {
            prev
        }
    }
}

/// The largest of `ns`, 0 for none.
pub open spec fn max_of(ns: Seq<u32>) -> u32
    decreases ns.len(),
{
    if ns.len() == 0 {
        0
    } else if ns.last() >= max_of(ns.drop_last()) {
        ns.last()
    } else {
        max_of(ns.drop_last())
    }
}

/// Starting with no units file, after any run of builds the stored count is
/// the largest build seen so far, and none while every build compiled
/// nothing.
pub proof fn lemma_units_track_largest(ns: Seq<u32>)
    ensures
        units_after(None, ns) == (if max_of(ns) > 0 {
            Some(max_of(ns))
        } else {
            None::<u32>
        }),
    decreases ns.len(),
{
    if ns.len() > 0 {
        let init = ns.drop_last();
        lemma_units_track_largest(init);
        let prev = units_after(None, init);
        let b = best_units(ns.last(), prev);
        if b > 0 {
            lemma_units_round_trip(ns.last(), prev);
        }
    }
}

/// A line counts as a compiled crate exactly when, after its leading
/// whitespace, it begins with `Compiling `: any other first word (such as
/// `Downloaded ` or `Checking `) does not count.
pub proof fn lemma_compiling_line_exactly(p: Seq<char>, r: Seq<char>)
    requires
        forall|k: int| 0 <= k < p.len() ==> is_ws(#[trigger] p[k]),
        r.len() == 0 || !is_ws(r[0]),
    ensures
        is_compiling_line(p + r) == (r.len() >= 10 && r.take(10) == "Compiling "@),
{
    reveal_strlit("Compiling ");
    lemma_trim_start_ws_prefix(p, r);
}

/// The digits just before a `%` at the end of a non-digit text spell the
/// number that text ends in.
proof fn lemma_trailing_digits_after(pre: Seq<char>, d: Seq<char>)
    requires
        forall|k: int| 0 <= k < d.len() ==> is_digit(#[trigger] d[k]),
        pre.len() == 0 || !is_digit(pre.last()),
    ensures
        trailing_digits(pre + d) == d,
    decreases d.len(),
{
    if d.len() == 0 {
        assert(pre + d =~= pre);
    } else {
        assert((pre + d).drop_last() =~= pre + d.drop_last());
        assert((pre + d).last() == d.last());
        lemma_trailing_digits_after(pre, d.drop_last());
        assert(d.drop_last().push(d.last()) =~= d);
    }
}

/// A `Receiving objects` segment reports the number written before its `%`,
/// for every number from 0 to 100, whatever its count of digits.
pub proof fn lemma_pct_reads_number(n: nat, tail: Seq<char>)
    requires
        n <= 100,
    ensures
        download_pct("Receiving objects: "@ + decimal(n) + seq!['%'] + tail) == Some(n as u32),
{
    reveal_strlit("Receiving objects: ");
    reveal_strlit("Receiving objects");
    let pre = "Receiving objects: "@;
    let d = decimal(n);
    let seg = pre + d + seq!['%'] + tail;
    lemma_decimal_digits(n);
    // The phase is named at the start.
    assert(seg.subrange(0, 17) =~= "Receiving objects"@);
    crate::text::lemma_find_from_first(seg, "Receiving objects"@, 0, 0);
    // The first `%` follows the digits.
    let p = pre.len() + d.len();
    assert(seg.subrange(p as int, p as int + 1) =~= seq!['%']);
    assert forall|j: int| 0 <= j < p implies !crate::text::matches_at(seg, seq!['%'], j) by {
        assert(seg.subrange(j, j + 1)[0] == seg[j]);
        if j < pre.len() {
            assert(seg[j] == pre[j]);
        } else {
            assert(seg[j] == d[j - pre.len()]);
            assert(is_digit(d[j - pre.len()]));
        }
    }
    crate::text::lemma_find_from_first(seg, seq!['%'], 0, p);
    // The digits before it are the number's.
    assert(seg.take(p as int) =~= pre + d);
    assert(!is_digit(pre.last()));
    lemma_trailing_digits_after(pre, d);
}

} // verus!
