//! Download progress read out of `git --progress` output.
use vstd::prelude::*;

use crate::text::{chars_of, find, find_chars, lemma_find_from_sound, matches_at, slice_of, string_of, trim, trim_chars};

verus! {

/// An ASCII decimal digit.
pub open spec fn is_digit(c: char) -> bool {
    48 <= (c as u32) <= 57
}

/// The numeric value of an ASCII digit.
pub open spec fn digit_value(c: char) -> nat {
    ((c as u32) - 48) as nat
}

/// The run of ASCII digits at the end of `t`.
pub open spec fn trailing_digits(t: Seq<char>) -> Seq<char>
    decreases t.len(),
{
    if t.len() > 0 && is_digit(t.last()) {
        trailing_digits(t.drop_last()).push(t.last())
    } else {
        seq![]
    }
}

/// The number a string of decimal digits spells.
pub open spec fn digits_value(d: Seq<char>) -> nat
    decreases d.len(),
{
    if d.len() == 0 {
        0
    } else {
        digits_value(d.drop_last()) * 10 + digit_value(d.last())
    }
}

/// The download percentage a progress segment reports: only segments of the
/// `Receiving objects` phase count; the number is the run of digits just
/// before the first `%`, capped at 100.
pub open spec fn download_pct(seg: Seq<char>) -> Option<u32> {
    if find(seg, "Receiving objects"@) is None {
        None
    } else {
        match find(seg, seq!['%']) {
            None => None,
            Some(p) => {
                let d = trailing_digits(seg.take(p as int));
                if d.len() == 0 {
                    None
                } else if digits_value(d) >= 100 {
                    Some(100u32)
                } else {
                    Some(digits_value(d) as u32)
                }
            },
        }
    }
}

/// Whether `c` is an ASCII digit.
pub fn is_ascii_digit(c: char) -> (b: bool)
    ensures
        b == is_digit(c),
{
    let u = c as u32;
    48 <= u && u <= 57
}

/// The value of `d` capped at 100, for a string of digits.
fn capped_value(d: &Vec<char>) -> (r: u32)
    requires
        forall|k: int| 0 <= k < d@.len() ==> is_digit(d@[k]),
    ensures
        r as nat == if digits_value(d@) >= 100 { 100 } else { digits_value(d@) },
{
    let mut v: u32 = 0;
    for i in 0..d.len()
        invariant
            forall|k: int| 0 <= k < d@.len() ==> is_digit(d@[k]),
            v <= 1009,
            digits_value(d@.take(i as int)) <= 100 ==> v as nat == digits_value(d@.take(i as int)),
            digits_value(d@.take(i as int)) > 100 ==> v > 100,
    {
        let ghost before = d@.take(i as int);
        assert(d@.take(i + 1).drop_last() =~= before);
        assert(is_digit(d@[i as int]));
        let digit = (d[i] as u32) - 48;
        if v <= 100 {
            v = v * 10 + digit;
        } else {
            v = 101;
        }
    }
    assert(d@.take(d.len() as int) =~= d@);
    if v >= 100 {
        100
    } else {
        v
    }
}

/// Download percentage from a git `--progress` segment, e.g.
/// "Receiving objects:  45% (…)", as a whole number from 0 to 100. Only the
/// "Receiving objects" phase (the actual download) counts, so a progress bar
/// fills once instead of resetting through git's server-side phases.
pub fn git_download_pct(seg: &str) -> (r: Option<u32>)
    ensures
        r == download_pct(seg@),
{
    let s = chars_of(seg);
    pct_of_chars(&s)
}

/// `git_download_pct` over the characters of a segment.
fn pct_of_chars(s: &Vec<char>) -> (r: Option<u32>)
    ensures
        r == download_pct(s@),
{
    let phase = chars_of("Receiving objects");
    if find_chars(s, &phase).is_none() {
        return None;
    }
    let percent: Vec<char> = vec!['%'];
    assert(percent@ =~= seq!['%']);
    let p = match find_chars(s, &percent) {
        None => {
            return None;
        },
        Some(p) => p,
    };
    proof {
        lemma_find_from_sound(s@, percent@, 0);
    }
    let mut k = p;
    assert(s@.subrange(p as int, p as int) =~= Seq::<char>::empty());
    while k > 0 && is_ascii_digit(s[k - 1])
        invariant
            k <= p <= s@.len(),
            trailing_digits(s@.take(p as int)) == trailing_digits(s@.take(k as int)) + s@.subrange(
                k as int,
                p as int,
            ),
            forall|m: int| k <= m < p ==> is_digit(s@[m]),
        decreases k,
    {
        assert(s@.take(k as int).drop_last() =~= s@.take(k - 1));
        assert(trailing_digits(s@.take(k - 1)) + s@.subrange(k - 1, p as int) =~= trailing_digits(
            s@.take(k - 1),
        ).push(s@[k - 1]) + s@.subrange(k as int, p as int));
        k = k - 1;
    }
    assert(trailing_digits(s@.take(k as int)) =~= Seq::<char>::empty());
    let d = slice_of(s, k, p);
    assert(trailing_digits(s@.take(p as int)) =~= d@);
    if d.len() == 0 {
        None
    } else {
        Some(capped_value(&d))
    }
}

/// Splits git's progress output into segments at `'\r'` and `'\n'` (git
/// rewrites its progress line in place with `'\r'`), keeping the whole output
/// for an error message.
pub struct GitProgress {
    all: Vec<char>,
    seg: Vec<char>,
}

impl View for GitProgress {
    /// (everything read so far, the segment read since the last line break)
    type V = (Seq<char>, Seq<char>);

    closed spec fn view(&self) -> (Seq<char>, Seq<char>) {
        (self.all@, self.seg@)
    }
}

impl GitProgress {
    /// Nothing read yet.
    pub fn new() -> (r: GitProgress)
        ensures
            r@ == (Seq::<char>::empty(), Seq::<char>::empty()),
    {
        GitProgress { all: Vec::new(), seg: Vec::new() }
    }

    /// Takes one byte of git's error output (as the character of that code);
    /// at a line break, reports the download percentage of the segment it
    /// ends, if that segment carries one.
    pub fn feed(&mut self, byte: u8) -> (r: Option<u32>)
        ensures
            final(self)@.0 == old(self)@.0.push(byte as char),
            (byte == 13 || byte == 10) ==> final(self)@.1 == Seq::<char>::empty() && r == download_pct(
                old(self)@.1,
            ),
            !(byte == 13 || byte == 10) ==> final(self)@.1 == old(self)@.1.push(byte as char) && r is None,
    {
        let c = byte as char;
        self.all.push(c);
        if c == '\r' || c == '\n' {
            let r = pct_of_chars(&self.seg);
            self.seg = Vec::new();
            r
        } else {
            self.seg.push(c);
            None
        }
    }

    /// The whole output, trimmed: git's error message after a failed run.
    pub fn failure_message(&self) -> (r: String)
        ensures
            r@ == trim(self@.0),
    {
        let t = trim_chars(&self.all);
        string_of(&t)
    }
}

// ---------------------------------------------------------------------------
// Laws
// ---------------------------------------------------------------------------

/// A reported percentage never exceeds 100.
pub proof fn lemma_pct_at_most_100(seg: Seq<char>)
    ensures
        download_pct(seg) is Some ==> download_pct(seg)->0 <= 100,
{
}

/// Only the `Receiving objects` phase reports progress.
pub proof fn lemma_pct_only_while_receiving(seg: Seq<char>)
    requires
        download_pct(seg) is Some,
    ensures
        exists|i: int| matches_at(seg, "Receiving objects"@, i),
{
    lemma_find_from_sound(seg, "Receiving objects"@, 0);
}

} // verus!
