//! Branch names: reading them out of `git branch -r` and choosing the one to
//! preselect.
use vstd::prelude::*;

use crate::text::{
    is_ws, lemma_find_from_none, lemma_lines_append, lemma_trim_start_ws_prefix, matches_at,
    starts_with, trim_end, trim_start, chars_of, contains, lines, same_chars, split_lines, string_of, strip_all_prefix,
    strip_all_prefix_chars, trim, trim_chars, find_chars,
};

verus! {

/// The character sequences held by a sequence of strings.
pub open spec fn string_views(v: Seq<String>) -> Seq<Seq<char>> {
    v.map_values(|x: String| x@)
}

/// An optional string slice, by its characters.
pub open spec fn opt_view(o: Option<&str>) -> Option<Seq<char>> {
    match o {
        Some(s) => Some(s@),
        None => None,
    }
}

/// The name a listing line stands for: leading `*` markers dropped, trimmed,
/// and any leading `origin/` removed.
pub open spec fn branch_name(line: Seq<char>) -> Seq<char> {
    strip_all_prefix(trim(strip_all_prefix(line, seq!['*'])), "origin/"@)
}

/// A listing line that is not the `origin/HEAD -> origin/...` pointer.
pub open spec fn keeps_line(line: Seq<char>) -> bool {
    !contains(line, "->"@)
}

/// A name worth offering: not empty and not `HEAD`.
pub open spec fn is_branch_name(n: Seq<char>) -> bool {
    n.len() > 0 && n != "HEAD"@
}

/// The branch names a sequence of listing lines stands for, in order.
pub open spec fn branches_in(ls: Seq<Seq<char>>) -> Seq<Seq<char>>
    decreases ls.len(),
{
    if ls.len() == 0 {
        seq![]
    } else {
        let rest = branches_in(ls.drop_last());
        let l = ls.last();
        if keeps_line(l) && is_branch_name(branch_name(l)) {
            rest.push(branch_name(l))
        } else {
            rest
        }
    }
}

/// The branch to preselect: the saved one if it is still listed, else
/// `master`, else `main`, else the first listed, else the empty name.
pub open spec fn default_branch(saved: Option<Seq<char>>, bs: Seq<Seq<char>>) -> Seq<char> {
    if saved is Some && bs.contains(saved->0) {
        saved->0
    } else if bs.contains("master"@) {
        "master"@
    } else if bs.contains("main"@) {
        "main"@
    } else if bs.len() > 0 {
        bs[0]
    } else {
        seq![]
    }
}

/// The branch names listed in the output of `git branch -r`: one per line,
/// skipping the `->` pointer line, with `*`, surrounding whitespace and the
/// `origin/` prefix removed, and leaving out empty names and `HEAD`.
pub fn parse_branches(stdout: &str) -> (r: Vec<String>)
    ensures
        string_views(r@) == branches_in(lines(stdout@)),
{
    let text = chars_of(stdout);
    let ls = split_lines(&text);
    let arrow = chars_of("->");
    let star: Vec<char> = vec!['*'];
    let origin = chars_of("origin/");
    let head = chars_of("HEAD");
    let mut r: Vec<String> = Vec::new();
    let ghost all = crate::text::views(ls@);
    for i in 0..ls.len()
        invariant
            all == crate::text::views(ls@),
            all == lines(stdout@),
            arrow@ == "->"@,
            star@ == seq!['*'],
            origin@ == "origin/"@,
            head@ == "HEAD"@,
            string_views(r@) == branches_in(all.take(i as int)),
    {
        let line = &ls[i];
        assert(all.take(i + 1).drop_last() =~= all.take(i as int));
        assert(all.take(i + 1).last() == line@);
        let ghost before = r@;
        if find_chars(line, &arrow).is_none() {
            let unstarred = strip_all_prefix_chars(line, &star);
            let trimmed = trim_chars(&unstarred);
            let name = strip_all_prefix_chars(&trimmed, &origin);
            if name.len() > 0 && !same_chars(&name, &head) {
                r.push(string_of(&name));
                assert(string_views(r@) =~= string_views(before).push(name@));
            }
        }
    }
    assert(all.take(ls.len() as int) =~= all);
    r
}

/// Whether `bs` lists a branch spelled exactly as `name`.
fn is_listed(bs: &[String], name: &Vec<char>) -> (r: bool)
    ensures
        r == string_views(bs@).contains(name@),
{
    let mut i: usize = 0;
    while i < bs.len()
        invariant
            i <= bs.len(),
            forall|k: int| 0 <= k < i ==> bs@[k]@ != name@,
        decreases bs.len() - i,
    {
        let b = chars_of(bs[i].as_str());
        if same_chars(&b, name) {
            assert(string_views(bs@)[i as int] == name@);
            return true;
        }
        i = i + 1;
    }
    proof {
        if string_views(bs@).contains(name@) {
            let k = choose|k: int| 0 <= k < string_views(bs@).len() && string_views(bs@)[k] == name@;
            assert(bs@[k]@ == name@);
        }
    }
    false
}

/// Saved branch if it still exists, else the first of `master`/`main` that
/// exists, else the first branch, else the empty name.
pub fn pick_default_branch(saved: Option<&str>, branches: &[String]) -> (r: String)
    ensures
        r@ == default_branch(opt_view(saved), string_views(branches@)),
{
    if let Some(s) = saved {
        let want = chars_of(s);
        if is_listed(branches, &want) {
            return string_of(&want);
        }
    }
    let master = chars_of("master");
    if is_listed(branches, &master) {
        return string_of(&master);
    }
    let main = chars_of("main");
    if is_listed(branches, &main) {
        return string_of(&main);
    }
    if branches.len() > 0 {
        let first = chars_of(branches[0].as_str());
        return string_of(&first);
    }
    String::new()
}

// ---------------------------------------------------------------------------
// Laws
// ---------------------------------------------------------------------------

/// Every name read out of a listing is offerable: not empty and not `HEAD`.
pub proof fn lemma_branches_are_names(ls: Seq<Seq<char>>)
    ensures
        forall|k: int| 0 <= k < branches_in(ls).len() ==> is_branch_name(#[trigger] branches_in(ls)[k]),
    decreases ls.len(),
{
    if ls.len() > 0 {
        let rest = branches_in(ls.drop_last());
        lemma_branches_are_names(ls.drop_last());
        assert forall|k: int| 0 <= k < branches_in(ls).len() implies is_branch_name(
            #[trigger] branches_in(ls)[k],
        ) by {
            if k < rest.len() {
                assert(branches_in(ls)[k] == rest[k]);
            }
        }
    }
}

/// The preselected branch is always one of the listed branches; when nothing
/// is listed it is the empty name.
pub proof fn lemma_default_branch_is_listed(saved: Option<Seq<char>>, bs: Seq<Seq<char>>)
    ensures
        bs.len() > 0 ==> bs.contains(default_branch(saved, bs)),
        bs.len() == 0 ==> default_branch(saved, bs) == Seq::<char>::empty(),
{
    if bs.len() > 0 {
        assert(bs[0] == bs[0]);
    }
}

/// A saved branch that is still listed is the one preselected.
pub proof fn lemma_saved_branch_kept(saved: Seq<char>, bs: Seq<Seq<char>>)
    requires
        bs.contains(saved),
    ensures
        default_branch(Some(saved), bs) == saved,
{
}

/// When the saved branch is not listed (or there is none) and `master` is
/// listed, `master` is preselected, wherever it stands in the list.
pub proof fn lemma_master_before_main(saved: Option<Seq<char>>, bs: Seq<Seq<char>>)
    requires
        !(saved is Some && bs.contains(saved->0)),
        bs.contains("master"@),
    ensures
        default_branch(saved, bs) == "master"@,
{
}

/// `main` is preselected only when the saved branch and `master` are not
/// listed and `main` is.
pub proof fn lemma_main_only_without_master(saved: Option<Seq<char>>, bs: Seq<Seq<char>>)
    requires
        !(saved is Some && bs.contains(saved->0)),
        !bs.contains("master"@),
        bs.contains("main"@),
    ensures
        default_branch(saved, bs) == "main"@,
{
}

/// With neither the saved branch nor `master` nor `main` listed, the first
/// listed branch is preselected.
pub proof fn lemma_first_branch_last_resort(saved: Option<Seq<char>>, bs: Seq<Seq<char>>)
    requires
        !(saved is Some && bs.contains(saved->0)),
        !bs.contains("master"@),
        !bs.contains("main"@),
        bs.len() > 0,
    ensures
        default_branch(saved, bs) == bs[0],
{
}

/// The line `git branch -r` prints for a remote branch `n`.
pub open spec fn remote_line(n: Seq<char>) -> Seq<char> {
    "  origin/"@ + n
}

/// A name as `git branch -r` lists it: not empty, not `HEAD`, without
/// whitespace, without `->`, and not itself starting with `origin/`.
pub open spec fn plain_name(n: Seq<char>) -> bool {
    &&& n.len() > 0
    &&& n != "HEAD"@
    &&& forall|k: int| 0 <= k < n.len() ==> !is_ws(#[trigger] n[k])
    &&& forall|k: int| 0 <= k < n.len() - 1 ==> !(#[trigger] n[k] == '-' && n[k + 1] == '>')
    &&& !starts_with(n, "origin/"@)
}

/// The listing line of a plain name is kept and reads back as that name.
pub proof fn lemma_remote_line_name(n: Seq<char>)
    requires
        plain_name(n),
    ensures
        keeps_line(remote_line(n)),
        branch_name(remote_line(n)) == n,
{
    reveal_strlit("  origin/");
    reveal_strlit("origin/");
    reveal_strlit("->");
    let line = remote_line(n);
    let o = "origin/"@;
    // No `*` to drop.
    assert(line.take(1)[0] == ' ');
    assert(!starts_with(line, seq!['*']));
    assert(strip_all_prefix(line, seq!['*']) == line);
    // Trimming leaves `origin/` followed by the name.
    assert(line =~= seq![' ', ' '] + (o + n));
    lemma_trim_start_ws_prefix(seq![' ', ' '], o + n);
    assert((o + n).last() == n.last());
    assert(!is_ws(n[n.len() - 1]));
    assert(trim_end(o + n) == o + n);
    assert(trim(line) == o + n);
    // One `origin/` is removed, and no more.
    assert((o + n).take(7) =~= o);
    assert((o + n).skip(7) =~= n);
    assert(strip_all_prefix(o + n, o) == strip_all_prefix(n, o));
    assert(strip_all_prefix(n, o) == n);
    // No `->` occurs in the line.
    assert forall|j: int| 0 <= j implies !matches_at(line, "->"@, j) by {
        if matches_at(line, "->"@, j) {
            assert(line.subrange(j, j + 2)[0] == line[j]);
            assert(line.subrange(j, j + 2)[1] == line[j + 1]);
            if j < 9 {
                assert(line[j] != '-');
            } else {
                assert(line[j] == n[j - 9]);
                assert(line[j + 1] == n[j - 8]);
            }
        }
    }
    lemma_find_from_none(line, "->"@, 0);
}

/// Each plain name that `git branch -r` lists on a line of its own, after
/// complete earlier lines, is offered, after the names those lines give.
pub proof fn lemma_listed_name_offered(s: Seq<char>, n: Seq<char>)
    requires
        s.len() == 0 || s.last() == '\n',
        plain_name(n),
    ensures
        branches_in(lines(s + remote_line(n) + seq!['\n'])) == branches_in(lines(s)).push(n),
{
    reveal_strlit("  origin/");
    let line = remote_line(n);
    assert forall|k: int| 0 <= k < line.len() implies #[trigger] line[k] != '\n' by {
        if k >= 9 {
            assert(line[k] == n[k - 9]);
            assert(!is_ws(n[k - 9]));
        }
    }
    assert(line.last() == n.last());
    assert(!is_ws(n[n.len() - 1]));
    lemma_lines_append(s, line);
    lemma_remote_line_name(n);
    let ls = lines(s).push(line);
    assert(ls.drop_last() =~= lines(s));
}

} // verus!
