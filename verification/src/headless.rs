//! `--last-config`: update, build and start the last configured branch and
//! run type without a window.
use vstd::prelude::*;

use crate::branches::{default_branch, opt_view, pick_default_branch, string_views};
use crate::launcher::opt_string_view;

verus! {

/// Where a headless run stands, which says what to do next.
#[derive(Debug, PartialEq, Eq)]
pub enum Headless {
    /// Update the repository (fetching when `fetch`), then choose among its
    /// branches with `saved` as the remembered one.
    Updating { saved: Option<String>, release: bool, fetch: bool },
    /// Build `branch` (fetching first when `update`).
    Building { branch: String, release: bool, update: bool },
    /// Start the binary at `exe`.
    Launching { exe: String },
    /// Done: `result` is what the run ends with.
    Finished { result: Result<(), String> },
}

/// How the step asked for went.
#[derive(Debug, PartialEq, Eq)]
pub enum HeadlessEvent {
    /// The update finished, with the branch list or an error.
    Updated { listing: Result<Vec<String>, String> },
    /// The build finished, with the binary's path or an error.
    Built { binary: Result<String, String> },
    /// Starting the binary finished.
    Launched { started: Result<(), String> },
}

/// Begins a headless run from the remembered configuration: the repository
/// is refreshed first, since the run builds without asking.
pub fn start_last_config(saved: Option<String>, release: bool) -> (r: Headless)
    ensures
        r == (Headless::Updating { saved, release, fetch: true }),
{
    Headless::Updating { saved, release, fetch: true }
}

/// One step of a headless run. After the update, the remembered branch (or
/// the default one) is built with the remembered run type, without fetching
/// again; after the build the binary is started; any error ends the run with
/// that error. An event that does not answer the current step changes
/// nothing.
pub fn run_last_config(stage: Headless, event: HeadlessEvent) -> (r: Headless)
    ensures
        match (stage, event) {
            (
                Headless::Updating { saved, release, .. },
                HeadlessEvent::Updated { listing },
            ) => match listing {
                Ok(branches) => r is Building && r->branch@ == default_branch(
                    opt_string_view(saved),
                    string_views(branches@),
                ) && r->Building_release == release && !r->update,
                Err(e) => r == (Headless::Finished { result: Err(e) }),
            },
            (Headless::Building { .. }, HeadlessEvent::Built { binary }) => match binary {
                Ok(exe) => r == (Headless::Launching { exe }),
                Err(e) => r == (Headless::Finished { result: Err(e) }),
            },
            (Headless::Launching { .. }, HeadlessEvent::Launched { started }) => r == (
            Headless::Finished { result: started }),
            _ => r == stage,
        },
{
    match (stage, event) {
        (Headless::Updating { saved, release, fetch }, HeadlessEvent::Updated { listing }) => {
            match listing {
                Ok(branches) => {
                    let s: Option<&str> = match &saved {
                        Some(x) => Some(x.as_str()),
                        None => None,
                    };
                    assert(opt_view(s) == opt_string_view(saved));
                    let branch = pick_default_branch(s, branches.as_slice());
                    Headless::Building { branch, release, update: false }
                },
                Err(e) => Headless::Finished { result: Err(e) },
            }
        },
        (Headless::Building { branch, release, update }, HeadlessEvent::Built { binary }) => {
            match binary {
                Ok(exe) => Headless::Launching { exe },
                Err(e) => Headless::Finished { result: Err(e) },
            }
        },
        (Headless::Launching { exe }, HeadlessEvent::Launched { started }) => {
            Headless::Finished { result: started }
        },
        (stage, _) => stage,
    }
}

} // verus!
