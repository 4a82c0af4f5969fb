//! The git and cargo command lines the launcher runs.
use vstd::prelude::*;

use crate::branches::string_views;
use crate::text::{chars_of, push_all, string_of};

verus! {

/// Where the tool repository is cloned from.
pub open spec fn repo_url() -> Seq<char> {
    "https://github.com/Ritze03/ForzaTelemetryV3.git"@
}

/// A vector of owned copies of `items`.
fn owned_all(items: &[&str]) -> (r: Vec<String>)
    ensures
        string_views(r@) == items@.map_values(|s: &str| s@),
{
    let mut r: Vec<String> = Vec::new();
    for i in 0..items.len()
        invariant
            string_views(r@) == items@.take(i as int).map_values(|s: &str| s@),
    {
        let ghost before = r@;
        r.push(items[i].to_owned());
        assert(string_views(r@) =~= string_views(before).push(items@[i as int]@));
        assert(items@.take(i + 1).map_values(|s: &str| s@) =~= items@.take(i as int).map_values(
            |s: &str| s@,
        ).push(items@[i as int]@));
    }
    assert(items@.take(items.len() as int) =~= items@);
    r
}

/// The download step of a repository update, with `--progress` so its
/// progress can be shown: a clone when there is no working copy yet, a fetch
/// when there is one and `fetch` asks for it, nothing otherwise.
pub fn update_progress_args(repo: &str, cloned: bool, fetch: bool) -> (r: Option<Vec<String>>)
    ensures
        !cloned ==> r is Some && string_views(r->0@) == seq![
            "clone"@,
            "--progress"@,
            repo_url(),
            repo@,
        ],
        cloned && fetch ==> r is Some && string_views(r->0@) == seq![
            "-C"@,
            repo@,
            "fetch"@,
            "--prune"@,
            "--progress"@,
        ],
        cloned && !fetch ==> r is None,
{
    if cloned {
        if fetch {
            let a = ["-C", repo, "fetch", "--prune", "--progress"];
            let r = owned_all(&a);
            assert(a@.map_values(|s: &str| s@) =~= seq!["-C"@, repo@, "fetch"@, "--prune"@, "--progress"@]);
            Some(r)
        } else {
            None
        }
    } else {
        let a = ["clone", "--progress", "https://github.com/Ritze03/ForzaTelemetryV3.git", repo];
        let r = owned_all(&a);
        assert(a@.map_values(|s: &str| s@) =~= seq!["clone"@, "--progress"@, repo_url(), repo@]);
        Some(r)
    }
}

/// Lists the remote branches, so newly pushed ones show up without a local
/// checkout first.
pub fn branch_list_args(repo: &str) -> (r: Vec<String>)
    ensures
        string_views(r@) == seq!["-C"@, repo@, "branch"@, "-r"@],
{
    let a = ["-C", repo, "branch", "-r"];
    let r = owned_all(&a);
    assert(a@.map_values(|s: &str| s@) =~= seq!["-C"@, repo@, "branch"@, "-r"@]);
    r
}

/// Fetches the latest state of every branch before a build.
pub fn fetch_args(repo: &str) -> (r: Vec<String>)
    ensures
        string_views(r@) == seq!["-C"@, repo@, "fetch"@, "--prune"@],
{
    let a = ["-C", repo, "fetch", "--prune"];
    let r = owned_all(&a);
    assert(a@.map_values(|s: &str| s@) =~= seq!["-C"@, repo@, "fetch"@, "--prune"@]);
    r
}

/// Creates or resets the local `branch` to match `origin/branch` (handles
/// newly pushed branches and stale local ones).
pub fn checkout_args(repo: &str, branch: &str) -> (r: Vec<String>)
    ensures
        string_views(r@) == seq!["-C"@, repo@, "checkout"@, "-B"@, branch@, "origin/"@ + branch@],
{
    let b = chars_of(branch);
    let mut v = chars_of("origin/");
    push_all(&mut v, &b);
    let start = string_of(&v);
    let a = ["-C", repo, "checkout", "-B", branch];
    let mut r = owned_all(&a);
    let ghost before = r@;
    r.push(start);
    assert(a@.map_values(|s: &str| s@) =~= seq!["-C"@, repo@, "checkout"@, "-B"@, branch@]);
    assert(string_views(r@) =~= string_views(before).push("origin/"@ + branch@));
    r
}

/// `cargo build`, in release mode when asked.
pub fn cargo_build_args(release: bool) -> (r: Vec<String>)
    ensures
        release ==> string_views(r@) == seq!["build"@, "--release"@],
        !release ==> string_views(r@) == seq!["build"@],
{
    if release {
        let a = ["build", "--release"];
        let r = owned_all(&a);
        assert(a@.map_values(|s: &str| s@) =~= seq!["build"@, "--release"@]);
        r
    } else {
        let a = ["build"];
        let r = owned_all(&a);
        assert(a@.map_values(|s: &str| s@) =~= seq!["build"@]);
        r
    }
}

/// `cargo build` again with JSON messages, which names the built binary
/// (instant after the real build).
pub fn cargo_locate_args(release: bool) -> (r: Vec<String>)
    ensures
        release ==> string_views(r@) == seq!["build"@, "--message-format=json"@, "--release"@],
        !release ==> string_views(r@) == seq!["build"@, "--message-format=json"@],
{
    if release {
        let a = ["build", "--message-format=json", "--release"];
        let r = owned_all(&a);
        assert(a@.map_values(|s: &str| s@) =~= seq!["build"@, "--message-format=json"@, "--release"@]);
        r
    } else {
        let a = ["build", "--message-format=json"];
        let r = owned_all(&a);
        assert(a@.map_values(|s: &str| s@) =~= seq!["build"@, "--message-format=json"@]);
        r
    }
}

} // verus!
