//! Character-level text helpers: whitespace, trimming, searching and line
//! splitting, each stated over `Seq<char>` the way `str` behaves.
use vstd::prelude::*;

verus! {

/// `String::push` appends one character to the end of the string.
pub assume_specification[ String::push ](s: &mut String, ch: char)
    ensures
        final(s)@ == old(s)@.push(ch),
;

// ---------------------------------------------------------------------------
// Specifications
// ---------------------------------------------------------------------------

/// Unicode `White_Space`, the property `char::is_whitespace` tests.
pub open spec fn is_ws(c: char) -> bool {
    let u = c as u32;
    ||| 9 <= u <= 13
    ||| u == 32
    ||| u == 0x85
    ||| u == 0xA0
    ||| u == 0x1680
    ||| 0x2000 <= u <= 0x200A
    ||| u == 0x2028
    ||| u == 0x2029
    ||| u == 0x202F
    ||| u == 0x205F
    ||| u == 0x3000
}

/// `s` with its leading whitespace removed.
pub open spec fn trim_start(s: Seq<char>) -> Seq<char>
    decreases s.len(),
{
    if s.len() > 0 && is_ws(s[0]) {
        trim_start(s.drop_first())
    } else {
        s
    }
}

/// `s` with its trailing whitespace removed.
pub open spec fn trim_end(s: Seq<char>) -> Seq<char>
    decreases s.len(),
{
    if s.len() > 0 && is_ws(s.last()) {
        trim_end(s.drop_last())
    } else {
        s
    }
}

/// `s` with whitespace removed at both ends, as `str::trim`.
pub open spec fn trim(s: Seq<char>) -> Seq<char> {
    trim_end(trim_start(s))
}

/// `p` occurs in `s` at position `i`.
pub open spec fn matches_at(s: Seq<char>, p: Seq<char>, i: int) -> bool {
    0 <= i && i + p.len() <= s.len() && s.subrange(i, i + p.len()) == p
}

/// The first position at or after `i` where `p` occurs in `s`.
pub open spec fn find_from(s: Seq<char>, p: Seq<char>, i: nat) -> Option<nat>
    decreases s.len() - i,
{
    if i + p.len() > s.len() {
        None
    } else if s.subrange(i as int, (i + p.len()) as int) == p {
        Some(i)
    } else if i >= s.len() {
        None
    } else {
        find_from(s, p, i + 1)
    }
}

/// The first position where `p` occurs in `s`, as `str::find`.
pub open spec fn find(s: Seq<char>, p: Seq<char>) -> Option<nat> {
    find_from(s, p, 0)
}

/// `p` occurs somewhere in `s`, as `str::contains`.
pub open spec fn contains(s: Seq<char>, p: Seq<char>) -> bool {
    find(s, p) is Some
}

/// `s` begins with `p`, as `str::starts_with`.
pub open spec fn starts_with(s: Seq<char>, p: Seq<char>) -> bool {
    p.len() <= s.len() && s.take(p.len() as int) == p
}

/// `s` with every leading repetition of `p` removed, as `str::trim_start_matches`.
pub open spec fn strip_all_prefix(s: Seq<char>, p: Seq<char>) -> Seq<char>
    decreases s.len(),
{
    if p.len() > 0 && starts_with(s, p) {
        strip_all_prefix(s.skip(p.len() as int), p)
    } else {
        s
    }
}

/// The character sequences held by a sequence of vectors.
pub open spec fn views(v: Seq<Vec<char>>) -> Seq<Seq<char>> {
    v.map_values(|x: Vec<char>| x@)
}

/// Position of the first `'\n'` in `s`, or its length when there is none.
pub open spec fn line_end(s: Seq<char>) -> nat
    decreases s.len(),
{
    if s.len() == 0 || s[0] == '\n' {
        0
    } else {
        1 + line_end(s.drop_first())
    }
}

/// `t` without one final `'\r'`.
pub open spec fn strip_cr(t: Seq<char>) -> Seq<char> {
    if t.len() > 0 && t.last() == '\r' {
        t.drop_last()
    } else {
        t
    }
}

/// The lines of `s`, as `str::lines` yields them: split at `'\n'`, a line
/// that ended in `"\r\n"` loses its `'\r'`, and a final line ending adds no
/// empty line.
pub open spec fn lines(s: Seq<char>) -> Seq<Seq<char>>
    decreases s.len(),
{
    if s.len() == 0 {
        seq![]
    } else if line_end(s) < s.len() {
        seq![strip_cr(s.take(line_end(s) as int))] + lines(s.skip(line_end(s) as int + 1))
    } else {
        seq![s]
    }
}

// ---------------------------------------------------------------------------
// Lemmas
// ---------------------------------------------------------------------------

/// The first line ends at the first `'\n'`.
pub proof fn lemma_line_end(t: Seq<char>, m: nat)
    requires
        m <= t.len(),
        forall|k: int| 0 <= k < m ==> t[k] != '\n',
        m == t.len() || t[m as int] == '\n',
    ensures
        line_end(t) == m,
    decreases m,
{
    if m > 0 {
        lemma_line_end(t.drop_first(), (m - 1) as nat);
    }
}

/// `find_from` never reports a position before where it starts, and a
/// reported position is a match.
pub proof fn lemma_find_from_sound(s: Seq<char>, p: Seq<char>, i: nat)
    ensures
        find_from(s, p, i) is Some ==> i <= find_from(s, p, i)->0 && matches_at(
            s,
            p,
            find_from(s, p, i)->0 as int,
        ),
    decreases s.len() - i,
{
    if i + p.len() > s.len() {
    } else if s.subrange(i as int, (i + p.len()) as int) == p {
    } else if i >= s.len() {
    } else {
        lemma_find_from_sound(s, p, i + 1);
    }
}

/// A match at `k` with none between `i` and `k` is what `find_from` reports.
pub proof fn lemma_find_from_first(s: Seq<char>, p: Seq<char>, i: nat, k: nat)
    requires
        i <= k,
        matches_at(s, p, k as int),
        forall|j: int| i <= j < k ==> !matches_at(s, p, j),
    ensures
        find_from(s, p, i) == Some(k),
    decreases k - i,
{
    if i < k {
        assert(!matches_at(s, p, i as int));
        lemma_find_from_first(s, p, i + 1, k);
    }
}

/// No match from `i` on means `find_from` reports none.
pub proof fn lemma_find_from_none(s: Seq<char>, p: Seq<char>, i: nat)
    requires
        forall|j: int| i <= j ==> !matches_at(s, p, j),
    ensures
        find_from(s, p, i) is None,
    decreases s.len() - i,
{
    if i + p.len() > s.len() {
    } else {
        assert(!matches_at(s, p, i as int));
        if i < s.len() {
            lemma_find_from_none(s, p, i + 1);
        }
    }
}

/// Leading whitespace before a text that does not start with whitespace is
/// exactly what `trim_start` removes.
pub proof fn lemma_trim_start_ws_prefix(p: Seq<char>, r: Seq<char>)
    requires
        forall|k: int| 0 <= k < p.len() ==> is_ws(#[trigger] p[k]),
        r.len() == 0 || !is_ws(r[0]),
    ensures
        trim_start(p + r) == r,
    decreases p.len(),
{
    if p.len() == 0 {
        assert(p + r =~= r);
    } else {
        assert((p + r).drop_first() =~= p.drop_first() + r);
        assert((p + r)[0] == p[0]);
        lemma_trim_start_ws_prefix(p.drop_first(), r);
    }
}

/// A complete line added after complete lines adds that line, as `str::lines`
/// yields it.
pub proof fn lemma_lines_append(s: Seq<char>, l: Seq<char>)
    requires
        s.len() == 0 || s.last() == '\n',
        forall|k: int| 0 <= k < l.len() ==> #[trigger] l[k] != '\n',
        l.len() == 0 || l.last() != '\r',
    ensures
        lines(s + l + seq!['\n']) == lines(s).push(l),
    decreases s.len(),
{
    let t = s + l + seq!['\n'];
    if s.len() == 0 {
        assert(t =~= l + seq!['\n']);
        assert forall|k: int| 0 <= k < l.len() implies t[k] != '\n' by {
            assert(t[k] == l[k]);
        }
        lemma_line_end(t, l.len());
        assert(t.take(l.len() as int) =~= l);
        assert(t.skip(l.len() as int + 1) =~= Seq::<char>::empty());
        assert(lines(Seq::<char>::empty()) == Seq::<Seq<char>>::empty());
        assert(lines(t) == seq![strip_cr(t.take(line_end(t) as int))] + lines(
            t.skip(line_end(t) as int + 1),
        ));
        assert(lines(t) =~= lines(s).push(l));
    } else {
        let k = line_end(s);
        lemma_line_end_bounded(s);
        assert(k < s.len()) by {
            if k >= s.len() {
                lemma_line_end_none(s);
                assert(s[s.len() - 1] != '\n');
            }
        }
        assert forall|j: int| 0 <= j < k implies t[j] != '\n' by {
            lemma_line_end_none_before(s, j);
            assert(t[j] == s[j]);
        }
        lemma_line_end_at(s);
        assert(t[k as int] == s[k as int]);
        lemma_line_end(t, k);
        assert(t.take(k as int) =~= s.take(k as int));
        let rest = s.skip(k as int + 1);
        assert(t.skip(k as int + 1) =~= rest + l + seq!['\n']);
        if rest.len() > 0 {
            assert(rest.last() == s.last());
        }
        lemma_lines_append(rest, l);
        assert(lines(t) == seq![strip_cr(t.take(k as int))] + lines(t.skip(k as int + 1)));
        assert(lines(s) == seq![strip_cr(s.take(k as int))] + lines(rest));
        assert(lines(t) =~= lines(s).push(l));
    }
}

/// The first line ends within the text.
proof fn lemma_line_end_bounded(s: Seq<char>)
    ensures
        line_end(s) <= s.len(),
    decreases s.len(),
{
    if s.len() > 0 && s[0] != '\n' {
        lemma_line_end_bounded(s.drop_first());
    }
}

/// No `'\n'` stands before the end of the first line.
proof fn lemma_line_end_none_before(s: Seq<char>, j: int)
    requires
        0 <= j < line_end(s),
    ensures
        s[j] != '\n',
    decreases s.len(),
{
    lemma_line_end_bounded(s);
    if j > 0 {
        lemma_line_end_none_before(s.drop_first(), j - 1);
    }
}

/// Where the first line ends within the text, a `'\n'` stands.
proof fn lemma_line_end_at(s: Seq<char>)
    requires
        line_end(s) < s.len(),
    ensures
        s[line_end(s) as int] == '\n',
    decreases s.len(),
{
    if s[0] != '\n' {
        lemma_line_end_at(s.drop_first());
    }
}

/// A text whose first line reaches its end has no `'\n'` at all.
proof fn lemma_line_end_none(s: Seq<char>)
    requires
        line_end(s) >= s.len(),
    ensures
        forall|j: int| 0 <= j < s.len() ==> s[j] != '\n',
{
    lemma_line_end_bounded(s);
    assert forall|j: int| 0 <= j < s.len() implies s[j] != '\n' by {
        lemma_line_end_none_before(s, j);
    }
}

// ---------------------------------------------------------------------------
// Executable helpers
// ---------------------------------------------------------------------------

/// The characters of `s`, in order.
pub fn chars_of(s: &str) -> (v: Vec<char>)
    ensures
        v@ == s@,
{
    let mut v: Vec<char> = Vec::new();
    for c in it: s.chars()
        invariant
            v@ == it.seq().take(it.index() as int),
    {
        v.push(c);
    }
    v
}

/// A `String` holding exactly the characters of `v`.
pub fn string_of(v: &Vec<char>) -> (s: String)
    ensures
        s@ == v@,
{
    let mut s = String::new();
    for i in 0..v.len()
        invariant
            s@ == v@.take(i as int),
    {
        s.push(v[i]);
        assert(v@.take(i + 1) =~= v@.take(i as int).push(v@[i as int]));
    }
    assert(v@.take(v.len() as int) =~= v@);
    s
}

/// Appends the characters of `w` to `v`.
pub fn push_all(v: &mut Vec<char>, w: &Vec<char>)
    ensures
        final(v)@ == old(v)@ + w@,
{
    let ghost start = v@;
    for i in 0..w.len()
        invariant
            v@ == start + w@.take(i as int),
    {
        v.push(w[i]);
        assert(start + w@.take(i + 1) =~= (start + w@.take(i as int)).push(w@[i as int]));
    }
    assert(w@.take(w.len() as int) =~= w@);
}

/// The characters of `s` from `lo` up to `hi`.
pub fn slice_of(s: &Vec<char>, lo: usize, hi: usize) -> (r: Vec<char>)
    requires
        lo <= hi <= s.len(),
    ensures
        r@ == s@.subrange(lo as int, hi as int),
{
    let mut r: Vec<char> = Vec::new();
    let mut i = lo;
    while i < hi
        invariant
            lo <= i <= hi <= s.len(),
            r@ == s@.subrange(lo as int, i as int),
        decreases hi - i,
    {
        r.push(s[i]);
        assert(s@.subrange(lo as int, i + 1) =~= s@.subrange(lo as int, i as int).push(s@[i as int]));
        i = i + 1;
    }
    r
}

/// Whether `a` and `b` hold the same characters.
pub fn same_chars(a: &Vec<char>, b: &Vec<char>) -> (r: bool)
    ensures
        r == (a@ == b@),
{
    if a.len() != b.len() {
        return false;
    }
    let mut i: usize = 0;
    while i < a.len()
        invariant
            a.len() == b.len(),
            i <= a.len(),
            forall|k: int| 0 <= k < i ==> a@[k] == b@[k],
        decreases a.len() - i,
    {
        if a[i] != b[i] {
            return false;
        }
        i = i + 1;
    }
    assert(a@ =~= b@);
    true
}

/// `char::is_whitespace`, over the Unicode `White_Space` list.
pub fn is_whitespace(c: char) -> (b: bool)
    ensures
        b == is_ws(c),
{
    let u = c as u32;
    (9 <= u && u <= 13) || u == 32 || u == 0x85 || u == 0xA0 || u == 0x1680 || (0x2000 <= u
        && u <= 0x200A) || u == 0x2028 || u == 0x2029 || u == 0x202F || u == 0x205F || u == 0x3000
}

/// `s` without leading whitespace.
pub fn trim_start_chars(s: &Vec<char>) -> (r: Vec<char>)
    ensures
        r@ == trim_start(s@),
{
    let mut i: usize = 0;
    assert(s@.skip(0) =~= s@);
    while i < s.len() && is_whitespace(s[i])
        invariant
            i <= s.len(),
            trim_start(s@) == trim_start(s@.skip(i as int)),
        decreases s.len() - i,
    {
        assert(s@.skip(i as int).drop_first() =~= s@.skip(i + 1));
        i = i + 1;
    }
    slice_of(s, i, s.len())
}

/// `s` without trailing whitespace.
pub fn trim_end_chars(s: &Vec<char>) -> (r: Vec<char>)
    ensures
        r@ == trim_end(s@),
{
    let mut j: usize = s.len();
    assert(s@.take(j as int) =~= s@);
    while j > 0 && is_whitespace(s[j - 1])
        invariant
            j <= s.len(),
            trim_end(s@) == trim_end(s@.take(j as int)),
        decreases j,
    {
        assert(s@.take(j as int).drop_last() =~= s@.take(j - 1));
        j = j - 1;
    }
    slice_of(s, 0, j)
}

/// `s` without whitespace at either end, as `str::trim`.
pub fn trim_chars(s: &Vec<char>) -> (r: Vec<char>)
    ensures
        r@ == trim(s@),
{
    let t = trim_start_chars(s);
    trim_end_chars(&t)
}

/// Whether `p` occurs in `s` at position `i`.
pub fn matches_at_exec(s: &Vec<char>, p: &Vec<char>, i: usize) -> (r: bool)
    ensures
        r == matches_at(s@, p@, i as int),
{
    if i > s.len() || p.len() > s.len() - i {
        return false;
    }
    let mut k: usize = 0;
    while k < p.len()
        invariant
            i + p.len() <= s.len(),
            k <= p.len(),
            forall|m: int| 0 <= m < k ==> s@[i + m] == p@[m],
        decreases p.len() - k,
    {
        if s[i + k] != p[k] {
            assert(s@.subrange(i as int, i + p.len())[k as int] != p@[k as int]);
            return false;
        }
        k = k + 1;
    }
    assert(s@.subrange(i as int, i + p.len()) =~= p@);
    true
}

/// The first position where `p` occurs in `s`, as `str::find`.
pub fn find_chars(s: &Vec<char>, p: &Vec<char>) -> (r: Option<usize>)
    ensures
        r is Some ==> find(s@, p@) == Some(r->0 as nat),
        r is None ==> find(s@, p@) is None,
{
    let mut i: usize = 0;
    while i < s.len()
        invariant
            i <= s.len(),
            forall|j: int| 0 <= j < i ==> !matches_at(s@, p@, j),
        decreases s.len() - i,
    {
        if matches_at_exec(s, p, i) {
            proof {
                lemma_find_from_first(s@, p@, 0, i as nat);
            }
            return Some(i);
        }
        i = i + 1;
    }
    if matches_at_exec(s, p, i) {
        proof {
            lemma_find_from_first(s@, p@, 0, i as nat);
        }
        return Some(i);
    }
    proof {
        assert forall|j: int| 0 <= j implies !matches_at(s@, p@, j) by {
            if j > i {
                assert(j + p@.len() > s@.len());
            }
        }
        lemma_find_from_none(s@, p@, 0);
    }
    None
}

/// Whether `s` begins with `p`.
pub fn starts_with_chars(s: &Vec<char>, p: &Vec<char>) -> (r: bool)
    ensures
        r == starts_with(s@, p@),
{
    let r = matches_at_exec(s, p, 0);
    proof {
        if r {
            assert(s@.take(p@.len() as int) =~= s@.subrange(0, p@.len() as int));
        } else if p@.len() <= s@.len() {
            assert(s@.take(p@.len() as int) =~= s@.subrange(0, p@.len() as int));
        }
    }
    r
}

/// `s` with every leading repetition of `p` removed.
pub fn strip_all_prefix_chars(s: &Vec<char>, p: &Vec<char>) -> (r: Vec<char>)
    ensures
        r@ == strip_all_prefix(s@, p@),
{
    if p.len() == 0 {
        return slice_of(s, 0, s.len());
    }
    let mut i: usize = 0;
    assert(s@.skip(0) =~= s@);
    while i <= s.len() && p.len() <= s.len() - i && matches_at_exec(s, p, i)
        invariant
            p@.len() > 0,
            i <= s.len(),
            strip_all_prefix(s@, p@) == strip_all_prefix(s@.skip(i as int), p@),
        decreases s.len() - i,
    {
        assert(s@.skip(i as int).take(p@.len() as int) =~= s@.subrange(i as int, i + p@.len()));
        assert(s@.skip(i as int).skip(p@.len() as int) =~= s@.skip(i + p@.len()));
        i = i + p.len();
    }
    proof {
        if p@.len() <= s@.len() - i {
            assert(s@.skip(i as int).take(p@.len() as int) =~= s@.subrange(i as int, i + p@.len()));
        }
    }
    slice_of(s, i, s.len())
}

/// The lines of `s`, as `str::lines`.
pub fn split_lines(s: &Vec<char>) -> (r: Vec<Vec<char>>)
    ensures
        views(r@) == lines(s@),
{
    let mut done: Vec<Vec<char>> = Vec::new();
    let mut cur: Vec<char> = Vec::new();
    let mut start: usize = 0;
    let mut i: usize = 0;
    assert(s@.skip(0) =~= s@);
    while i < s.len()
        invariant
            start <= i <= s.len(),
            cur@ == s@.subrange(start as int, i as int),
            forall|k: int| start <= k < i ==> s@[k] != '\n',
            lines(s@) == views(done@) + lines(s@.skip(start as int)),
        decreases s.len() - i,
    {
        let c = s[i];
        if c == '\n' {
            let ghost t = s@.skip(start as int);
            proof {
                lemma_line_end(t, (i - start) as nat);
                assert(t.take((i - start) as int) =~= cur@);
                assert(t.skip((i - start) + 1) =~= s@.skip(i + 1));
            }
            let line = if cur.len() > 0 && cur[cur.len() - 1] == '\r' {
                slice_of(&cur, 0, cur.len() - 1)
            } else {
                cur
            };
            assert(line@ == strip_cr(t.take((i - start) as int)));
            let ghost before = views(done@);
            done.push(line);
            assert(views(done@) =~= before.push(line@));
            assert(lines(s@) == views(done@) + lines(s@.skip(i + 1))) by {
                assert(lines(t) == seq![line@] + lines(s@.skip(i + 1)));
                assert(before + (seq![line@] + lines(s@.skip(i + 1))) =~= before.push(line@)
                    + lines(s@.skip(i + 1)));
            }
            cur = Vec::new();
            i = i + 1;
            start = i;
            assert(cur@ =~= s@.subrange(start as int, i as int));
        } else {
            cur.push(c);
            assert(cur@ =~= s@.subrange(start as int, i + 1));
            i = i + 1;
        }
    }
    let ghost t = s@.skip(start as int);
    if cur.len() > 0 {
        proof {
            lemma_line_end(t, (i - start) as nat);
            assert(t =~= cur@);
        }
        let ghost before = views(done@);
        done.push(cur);
        assert(views(done@) =~= before.push(t));
        assert(lines(s@) == views(done@));
    } else {
        assert(t.len() == 0);
        assert(views(done@) + lines(t) =~= views(done@));
    }
    done
}

} // verus!
