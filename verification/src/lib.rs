//! The decisions of a small launcher for a tool repository: it clones or
//! updates the repository, offers its branches, remembers the last branch
//! and run type, builds the chosen branch with cargo while counting compiled
//! crates, and starts the built binary.
//!
//! - `text`: whitespace, trimming, searching and line splitting on characters.
//! - `branches`: branch names from `git branch -r`, and the one to preselect.
//! - `config`: the remembered branch and run type, as text.
//! - `progress`: download progress from git's `--progress` output.
//! - `cargo`: the built binary's path, compiled-crate counting, stored counts.
//! - `paths`: where the launcher keeps its files.
//! - `commands`: the git and cargo command lines.
//! - `build_steps`: the order of a build's steps.
//! - `launcher`: the window's state and its answer to each event.
//! - `headless`: the `--last-config` run without a window.
use vstd::prelude::*;

pub mod text;
pub mod branches;
pub mod config;
pub mod progress;
pub mod cargo;
pub mod paths;
pub mod commands;
pub mod build_steps;
pub mod launcher;
pub mod headless;

verus! {

} // verus!
