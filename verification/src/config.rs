//! The remembered launch configuration: last branch and run type, stored as
//! two lines of text.
use vstd::prelude::*;

use crate::text::{
    chars_of, is_ws, line_end, lemma_line_end, lines, push_all, same_chars, split_lines, string_of,
    strip_cr, trim, trim_chars, trim_end, trim_start,
};

verus! {

/// The word stored for a run type.
pub open spec fn run_type_word(release: bool) -> Seq<char> {
    if release {
        "release"@
    } else {
        "debug"@
    }
}

/// What a configuration text says: the trimmed first line as the branch
/// (none when empty or missing), and whether the trimmed second line is
/// exactly `release`.
pub open spec fn config_of(s: Seq<char>) -> (Option<Seq<char>>, bool) {
    let ls = lines(s);
    let branch = if ls.len() > 0 && trim(ls[0]).len() > 0 {
        Some(trim(ls[0]))
    } else {
        None
    };
    (branch, ls.len() > 1 && trim(ls[1]) == "release"@)
}

/// The text stored for a branch and run type: the branch, a newline, the run
/// type word, a newline.
pub open spec fn config_text_of(branch: Seq<char>, release: bool) -> Seq<char> {
    branch + seq!['\n'] + run_type_word(release) + seq!['\n']
}

/// A loaded configuration, by its characters.
pub open spec fn loaded_view(r: (Option<String>, bool)) -> (Option<Seq<char>>, bool) {
    (
        match r.0 {
            Some(b) => Some(b@),
            None => None,
        },
        r.1,
    )
}

/// (branch, release?) read from the configuration file's contents, `None`
/// when there are none; a missing or blank branch line gives no branch and a
/// missing second line gives a debug run.
pub fn load_config(contents: Option<&str>) -> (r: (Option<String>, bool))
    ensures
        match contents {
            Some(s) => loaded_view(r) == config_of(s@),
            None => r.0 is None && !r.1,
        },
{
    match contents {
        None => (None, false),
        Some(s) => {
            let text = chars_of(s);
            let ls = split_lines(&text);
            let ghost all = crate::text::views(ls@);
            assert(all =~= lines(s@));
            let branch = if ls.len() > 0 {
                let b = trim_chars(&ls[0]);
                assert(all[0] == ls@[0]@);
                if b.len() > 0 {
                    Some(string_of(&b))
                } else {
                    None
                }
            } else {
                None
            };
            let release = if ls.len() > 1 {
                let w = trim_chars(&ls[1]);
                assert(all[1] == ls@[1]@);
                let word = chars_of("release");
                same_chars(&w, &word)
            } else {
                false
            };
            (branch, release)
        },
    }
}

/// The text to store for `branch` and the run type.
pub fn config_text(branch: &str, release: bool) -> (r: String)
    ensures
        r@ == config_text_of(branch@, release),
{
    let mut v = chars_of(branch);
    v.push('\n');
    let word = if release {
        chars_of("release")
    } else {
        chars_of("debug")
    };
    push_all(&mut v, &word);
    v.push('\n');
    string_of(&v)
}

// ---------------------------------------------------------------------------
// Laws
// ---------------------------------------------------------------------------

/// Whitespace added at the start of the text does not move the first
/// non-whitespace character: appending whitespace keeps or empties the result.
proof fn lemma_trim_start_push_ws(t: Seq<char>, c: char)
    requires
        is_ws(c),
    ensures
        trim_start(t).len() > 0 ==> trim_start(t.push(c)) == trim_start(t).push(c),
        trim_start(t).len() == 0 ==> trim_start(t.push(c)).len() == 0,
    decreases t.len(),
{
    if t.len() == 0 {
        assert(seq![c].drop_first() =~= Seq::<char>::empty());
        assert(t.push(c) =~= seq![c]);
        assert(trim_start(Seq::<char>::empty()) == Seq::<char>::empty());
        assert(trim_start(seq![c]) == trim_start(seq![c].drop_first()));
    } else if is_ws(t[0]) {
        assert(t.push(c).drop_first() =~= t.drop_first().push(c));
        lemma_trim_start_push_ws(t.drop_first(), c);
    } else {
    }
}

/// Trailing whitespace does not change a trimmed text.
pub proof fn lemma_trim_push_ws(t: Seq<char>, c: char)
    requires
        is_ws(c),
    ensures
        trim(t.push(c)) == trim(t),
{
    lemma_trim_start_push_ws(t, c);
    if trim_start(t).len() > 0 {
        assert(trim_start(t).push(c).drop_last() =~= trim_start(t));
    }
}

/// A dropped final `'\r'` does not change a trimmed text.
pub proof fn lemma_trim_strip_cr(t: Seq<char>)
    ensures
        trim(strip_cr(t)) == trim(t),
{
    if t.len() > 0 && t.last() == '\r' {
        assert(t.drop_last().push('\r') =~= t);
        lemma_trim_push_ws(t.drop_last(), '\r');
    }
}

/// The lines of a stored configuration are the branch (without a final
/// `'\r'`) and the run type word.
pub proof fn lemma_config_lines(branch: Seq<char>, release: bool)
    requires
        !branch.contains('\n'),
    ensures
        lines(config_text_of(branch, release)) == seq![strip_cr(branch), run_type_word(release)],
{
    reveal_strlit("release");
    reveal_strlit("debug");
    let w = run_type_word(release);
    let s = config_text_of(branch, release);
    assert forall|k: int| 0 <= k < branch.len() implies s[k] != '\n' by {
        assert(s[k] == branch[k]);
    }
    lemma_line_end(s, branch.len());
    assert(s.take(branch.len() as int) =~= branch);
    let rest = s.skip(branch.len() as int + 1);
    assert(rest =~= w + seq!['\n']);
    assert forall|k: int| 0 <= k < w.len() implies rest[k] != '\n' by {
        assert(rest[k] == w[k]);
    }
    lemma_line_end(rest, w.len());
    assert(rest.take(w.len() as int) =~= w);
    assert(rest.skip(w.len() as int + 1) =~= Seq::<char>::empty());
    assert(strip_cr(w) == w);
    assert(lines(Seq::<char>::empty()) == Seq::<Seq<char>>::empty());
    assert(lines(rest) == seq![strip_cr(rest.take(w.len() as int))] + lines(
        rest.skip(w.len() as int + 1),
    ));
    assert(lines(rest) =~= seq![w]);
    assert(lines(s) =~= seq![strip_cr(branch)] + seq![w]);
}

/// What is stored is what is loaded: for a branch name without a line break,
/// loading the stored text gives back the trimmed branch (none when it is
/// blank) and the same run type.
pub proof fn lemma_config_round_trip(branch: Seq<char>, release: bool)
    requires
        !branch.contains('\n'),
    ensures
        config_of(config_text_of(branch, release)) == (
            if trim(branch).len() > 0 {
                Some(trim(branch))
            } else {
                None::<Seq<char>>
            },
            release,
        ),
{
    reveal_strlit("release");
    reveal_strlit("debug");
    lemma_config_lines(branch, release);
    lemma_trim_strip_cr(branch);
    let w = run_type_word(release);
    assert(trim_start(w) == w);
    assert(trim_end(w) == w);
    if !release {
        assert(w != "release"@);
    }
}

} // verus!
