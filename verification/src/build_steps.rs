//! The order of a build's steps: fetch (when asked), check the branch out,
//! compile, and only after a successful compile store the crate count and ask
//! cargo for the binary; the first failure ends the build with its error.
use vstd::prelude::*;

verus! {

/// Where a build stands, which says what to do next.
#[derive(Debug, PartialEq, Eq)]
pub enum Build {
    /// Fetch the latest state of every branch.
    Fetching { branch: String, release: bool },
    /// Create or reset the local `branch` to match its remote counterpart.
    CheckingOut { branch: String, release: bool },
    /// Run `cargo build`, counting compiled crates.
    Compiling { release: bool },
    /// Store `compiled` as the profile's crate count (the largest seen), then
    /// ask cargo for the binary's path.
    Locating { release: bool, compiled: u32 },
    /// Done: the binary's path, or why there is none.
    Finished { result: Result<String, String> },
}

/// How the step asked for went.
#[derive(Debug, PartialEq, Eq)]
pub enum BuildEvent {
    /// The fetch finished.
    Fetched { fetched: Result<(), String> },
    /// The checkout finished.
    CheckedOut { checked_out: Result<(), String> },
    /// Cargo finished: the number of crates compiled when it succeeded, the
    /// reason otherwise.
    Compiled { built: Result<u32, String> },
    /// Cargo named the binary, or did not.
    Located { binary: Result<String, String> },
}

/// Begins a build of `branch`: with a fetch first when `update`, else
/// straight with the checkout.
pub fn start_build_run(branch: String, release: bool, update: bool) -> (r: Build)
    ensures
        update ==> r == (Build::Fetching { branch, release }),
        !update ==> r == (Build::CheckingOut { branch, release }),
{
    if update {
        Build::Fetching { branch, release }
    } else {
        Build::CheckingOut { branch, release }
    }
}

/// One step of a build. A successful step leads to the next one, a failed
/// step ends the build with its error, and the located binary (or cargo's
/// failure to name one) ends it. An event that does not answer the current
/// step changes nothing.
pub fn build_step(stage: Build, event: BuildEvent) -> (r: Build)
    ensures
        match (stage, event) {
            (Build::Fetching { branch, release }, BuildEvent::Fetched { fetched }) => match fetched {
                Ok(_) => r == (Build::CheckingOut { branch, release }),
                Err(e) => r == (Build::Finished { result: Err(e) }),
            },
            (Build::CheckingOut { release, .. }, BuildEvent::CheckedOut { checked_out }) => match checked_out {
                Ok(_) => r == (Build::Compiling { release }),
                Err(e) => r == (Build::Finished { result: Err(e) }),
            },
            (Build::Compiling { release }, BuildEvent::Compiled { built }) => match built {
                Ok(n) => r == (Build::Locating { release, compiled: n }),
                Err(e) => r == (Build::Finished { result: Err(e) }),
            },
            (Build::Locating { .. }, BuildEvent::Located { binary }) => r == (Build::Finished {
                result: binary,
            }),
            _ => r == stage,
        },
{
    match (stage, event) {
        (Build::Fetching { branch, release }, BuildEvent::Fetched { fetched }) => match fetched {
            Ok(()) => Build::CheckingOut { branch, release },
            Err(e) => Build::Finished { result: Err(e) },
        },
        (Build::CheckingOut { branch, release }, BuildEvent::CheckedOut { checked_out }) => {
            match checked_out {
                Ok(()) => Build::Compiling { release },
                Err(e) => Build::Finished { result: Err(e) },
            }
        },
        (Build::Compiling { release }, BuildEvent::Compiled { built }) => match built {
            Ok(n) => Build::Locating { release, compiled: n },
            Err(e) => Build::Finished { result: Err(e) },
        },
        (Build::Locating { release, compiled }, BuildEvent::Located { binary }) => {
            Build::Finished { result: binary }
        },
        (stage, _) => stage,
    }
}

} // verus!
