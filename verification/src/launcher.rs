//! The launcher window's decisions: which screen it shows, what it
//! remembers, and what it asks to be done in answer to each event.
use vstd::prelude::*;

use crate::branches::{default_branch, opt_view, pick_default_branch, string_views};
use crate::cargo::{total_units, DEFAULT_UNITS};
use crate::text::{chars_of, same_chars};

verus! {

/// What the window shows.
#[derive(Debug, PartialEq, Eq)]
pub enum Screen {
    /// Cloning or fetching the tool repository; `percent` is the download
    /// progress, 0 while nothing has been measured.
    Updating { percent: u32 },
    /// Choosing a branch and run type.
    Ready { branches: Vec<String> },
    /// Building; `compiled` crates out of an expected `total`.
    Building { compiled: u32, total: u32 },
    /// Something failed; `message` says what.
    Error { message: String },
}

/// Something that happened: a message from a background job or a click.
#[derive(Debug, PartialEq, Eq)]
pub enum Event {
    /// The update job reports a download percentage.
    UpdateProgress { percent: u32 },
    /// The update job finished, with the branch list or an error.
    UpdateDone { listing: Result<Vec<String>, String> },
    /// The build job reports how many crates are compiled.
    BuildProgress { compiled: u32 },
    /// The build job finished, with the binary's path or an error.
    BuildDone { binary: Result<String, String> },
    /// Starting the built binary failed.
    RunFailed { message: String },
    /// A branch was picked in the branch list.
    SelectBranch { branch: String },
    /// A run type was picked.
    SetRelease { release: bool },
    /// "Launch" was clicked; `cached_units` is the stored crate count for the
    /// selected run type, if any.
    LaunchClicked { cached_units: Option<u32> },
    /// "Re-init Repository" was clicked.
    ReinitClicked,
    /// Deleting the working copy finished.
    RepoDeleted { deleted: Result<(), String> },
}

/// What the launcher asks to be done.
#[derive(Debug, PartialEq, Eq)]
pub enum Effect {
    /// Nothing.
    Nothing,
    /// Start the update job (clone if missing, list branches, no fetch).
    StartUpdate,
    /// Remember `branch` and `release` as the configuration, then start a
    /// build job for them; `update` fetches the latest state first.
    StartBuild { branch: String, release: bool, update: bool },
    /// Delete the working copy of the repository.
    DeleteRepo,
    /// Start the built binary at `exe` and quit the launcher.
    Run { exe: String },
}

/// The launcher's state.
#[derive(Debug, PartialEq, Eq)]
pub struct App {
    pub screen: Screen,
    /// The branch the next launch builds.
    pub selected_branch: String,
    /// Whether the next launch builds in release mode.
    pub release: bool,
    /// The branch remembered from the last launch.
    pub saved_branch: Option<String>,
}

/// An optional string, by its characters.
pub open spec fn opt_string_view(o: Option<String>) -> Option<Seq<char>> {
    match o {
        Some(s) => Some(s@),
        None => None,
    }
}

impl App {
    /// The state every step keeps: a build's expected total is never zero,
    /// and while choosing, the selected branch is one of those listed (the
    /// empty name when none are).
    pub open spec fn wf(&self) -> bool {
        &&& (self.screen matches Screen::Building { total, .. } ==> total > 0)
        &&& (self.screen matches Screen::Ready { branches } ==> if branches@.len() > 0 {
            string_views(branches@).contains(self.selected_branch@)
        } else {
            self.selected_branch@ == Seq::<char>::empty()
        })
    }

    /// The remembered settings are those of `other`.
    pub open spec fn same_settings(&self, other: &App) -> bool {
        &&& self.selected_branch == other.selected_branch
        &&& self.release == other.release
        &&& self.saved_branch == other.saved_branch
    }

    /// Starts with the remembered configuration, updating the repository.
    pub fn new(saved_branch: Option<String>, release: bool) -> (r: App)
        ensures
            r.wf(),
            r.screen == (Screen::Updating { percent: 0 }),
            r.selected_branch@ == Seq::<char>::empty(),
            r.release == release,
            r.saved_branch == saved_branch,
    {
        App { screen: Screen::Updating { percent: 0 }, selected_branch: String::new(), release, saved_branch }
    }

    /// Start a build of the selected branch and run type; `update` fetches the
    /// latest state first. The build's expected total is the stored crate
    /// count, or a default before the first build.
    pub fn start_build(&mut self, update: bool, cached_units: Option<u32>) -> (eff: Effect)
        ensures
            final(self).same_settings(old(self)),
            final(self).screen == (Screen::Building {
                compiled: 0,
                total: match cached_units {
                    Some(n) => if n > 0 {
                        n
                    } else {
                        DEFAULT_UNITS
                    },
                    None => DEFAULT_UNITS,
                },
            }),
            eff is StartBuild,
            eff->branch@ == old(self).selected_branch@,
            eff->release == old(self).release,
            eff->update == update,
    {
        let cached = match cached_units {
            Some(n) => if n > 0 {
                Some(n)
            } else {
                None
            },
            None => None,
        };
        let total = total_units(cached);
        self.screen = Screen::Building { compiled: 0, total };
        Effect::StartBuild {
            branch: self.selected_branch.clone(),
            release: self.release,
            update,
        }
    }

    /// Whether `name` is one of `branches`.
    fn lists(branches: &Vec<String>, name: &String) -> (r: bool)
        ensures
            r == string_views(branches@).contains(name@),
    {
        let want = chars_of(name.as_str());
        let mut i: usize = 0;
        while i < branches.len()
            invariant
                i <= branches.len(),
                want@ == name@,
                forall|k: int| 0 <= k < i ==> branches@[k]@ != name@,
            decreases branches.len() - i,
        {
            let b = chars_of(branches[i].as_str());
            if same_chars(&b, &want) {
                assert(string_views(branches@)[i as int] == name@);
                return true;
            }
            i = i + 1;
        }
        proof {
            if string_views(branches@).contains(name@) {
                let k = choose|k: int|
                    0 <= k < string_views(branches@).len() && string_views(branches@)[k] == name@;
                assert(branches@[k]@ == name@);
            }
        }
        false
    }

    /// Takes one event and says what to do about it.
    ///
    /// - While updating: progress sets the shown percentage; a finished
    ///   update shows the branch list with the remembered branch (or the
    ///   default one) selected, or the error.
    /// - While choosing: a branch from the list or a run type can be picked;
    ///   "Launch" starts a build that fetches first; "Re-init Repository"
    ///   deletes the working copy, after which the update starts again, or
    ///   the deletion's error is shown.
    /// - While building: progress sets the compiled count; a finished build
    ///   runs the binary, or shows the error; a failed start shows its error.
    /// - Any other event leaves everything as it is.
    pub fn update(&mut self, event: Event) -> (eff: Effect)
        ensures
            old(self).wf() ==> final(self).wf(),
            match event {
                Event::UpdateProgress { percent } => if old(self).screen is Updating {
                    final(self).screen == (Screen::Updating { percent })
                        && final(self).same_settings(old(self)) && eff is Nothing
                } else {
                    *final(self) == *old(self) && eff is Nothing
                },
                Event::UpdateDone { listing } => if old(self).screen is Updating {
                    match listing {
                        Ok(branches) => final(self).screen == (Screen::Ready { branches })
                            && final(self).selected_branch@ == default_branch(
                            opt_string_view(old(self).saved_branch),
                            string_views(branches@),
                        ) && final(self).release == old(self).release
                            && final(self).saved_branch == old(self).saved_branch
                            && eff is Nothing,
                        Err(message) => final(self).screen == (Screen::Error { message })
                            && final(self).same_settings(old(self)) && eff is Nothing,
                    }
                } else {
                    *final(self) == *old(self) && eff is Nothing
                },
                Event::BuildProgress { compiled } => if old(self).screen is Building {
                    final(self).screen == (Screen::Building {
                        compiled,
                        total: old(self).screen->total,
                    }) && final(self).same_settings(old(self)) && eff is Nothing
                } else {
                    *final(self) == *old(self) && eff is Nothing
                },
                Event::BuildDone { binary } => if old(self).screen is Building {
                    match binary {
                        Ok(exe) => *final(self) == *old(self) && eff == (Effect::Run { exe }),
                        Err(message) => final(self).screen == (Screen::Error { message })
                            && final(self).same_settings(old(self)) && eff is Nothing,
                    }
                } else {
                    *final(self) == *old(self) && eff is Nothing
                },
                Event::RunFailed { message } => if old(self).screen is Building {
                    final(self).screen == (Screen::Error { message })
                        && final(self).same_settings(old(self)) && eff is Nothing
                } else {
                    *final(self) == *old(self) && eff is Nothing
                },
                Event::SelectBranch { branch } => if old(self).screen is Ready
                    && string_views(old(self).screen->branches@).contains(branch@) {
                    final(self).screen == old(self).screen && final(self).selected_branch
                        == branch && final(self).release == old(self).release
                        && final(self).saved_branch == old(self).saved_branch && eff is Nothing
                } else {
                    *final(self) == *old(self) && eff is Nothing
                },
                Event::SetRelease { release } => if old(self).screen is Ready {
                    final(self).screen == old(self).screen && final(self).release == release
                        && final(self).selected_branch == old(self).selected_branch
                        && final(self).saved_branch == old(self).saved_branch && eff is Nothing
                } else {
                    *final(self) == *old(self) && eff is Nothing
                },
                Event::LaunchClicked { cached_units } => if old(self).screen is Ready {
                    final(self).same_settings(old(self)) && final(self).screen == (
                    Screen::Building {
                        compiled: 0,
                        total: match cached_units {
                            Some(n) => if n > 0 {
                                n
                            } else {
                                DEFAULT_UNITS
                            },
                            None => DEFAULT_UNITS,
                        },
                    }) && eff is StartBuild && eff->branch@ == old(self).selected_branch@
                        && eff->release == old(self).release && eff->update
                } else {
                    *final(self) == *old(self) && eff is Nothing
                },
                Event::ReinitClicked => *final(self) == *old(self) && if old(
                    self,
                ).screen is Ready {
                    eff is DeleteRepo
                } else {
                    eff is Nothing
                },
                Event::RepoDeleted { deleted } => if old(self).screen is Ready {
                    final(self).same_settings(old(self)) && match deleted {
                        Ok(_) => final(self).screen == (Screen::Updating { percent: 0 })
                            && eff is StartUpdate,
                        Err(message) => final(self).screen == (Screen::Error { message })
                            && eff is Nothing,
                    }
                } else {
                    *final(self) == *old(self) && eff is Nothing
                },
            },
    {
        match event {
            Event::UpdateProgress { percent } => {
                if let Screen::Updating { .. } = self.screen {
                    self.screen = Screen::Updating { percent };
                }
                Effect::Nothing
            },
            Event::UpdateDone { listing } => {
                if let Screen::Updating { .. } = self.screen {
                    match listing {
                        Ok(branches) => {
                            let saved: Option<&str> = match &self.saved_branch {
                                Some(s) => Some(s.as_str()),
                                None => None,
                            };
                            assert(opt_view(saved) == opt_string_view(self.saved_branch));
                            let picked = pick_default_branch(saved, branches.as_slice());
                            proof {
                                crate::branches::lemma_default_branch_is_listed(
                                    opt_view(saved),
                                    string_views(branches@),
                                );
                            }
                            self.selected_branch = picked;
                            self.screen = Screen::Ready { branches };
                        },
                        Err(message) => {
                            self.screen = Screen::Error { message };
                        },
                    }
                }
                Effect::Nothing
            },
            Event::BuildProgress { compiled } => {
                if let Screen::Building { total, .. } = self.screen {
                    self.screen = Screen::Building { compiled, total };
                }
                Effect::Nothing
            },
            Event::BuildDone { binary } => {
                if let Screen::Building { .. } = self.screen {
                    match binary {
                        Ok(exe) => {
                            return Effect::Run { exe };
                        },
                        Err(message) => {
                            self.screen = Screen::Error { message };
                        },
                    }
                }
                Effect::Nothing
            },
            Event::RunFailed { message } => {
                if let Screen::Building { .. } = self.screen {
                    self.screen = Screen::Error { message };
                }
                Effect::Nothing
            },
            Event::SelectBranch { branch } => {
                if let Screen::Ready { branches } = &self.screen {
                    if Self::lists(branches, &branch) {
                        self.selected_branch = branch;
                    }
                }
                Effect::Nothing
            },
            Event::SetRelease { release } => {
                if let Screen::Ready { .. } = self.screen {
                    self.release = release;
                }
                Effect::Nothing
            },
            Event::LaunchClicked { cached_units } => {
                if let Screen::Ready { .. } = self.screen {
                    self.start_build(true, cached_units)
                } else {
                    Effect::Nothing
                }
            },
            Event::ReinitClicked => {
                if let Screen::Ready { .. } = self.screen {
                    Effect::DeleteRepo
                } else {
                    Effect::Nothing
                }
            },
            Event::RepoDeleted { deleted } => {
                if let Screen::Ready { .. } = self.screen {
                    match deleted {
                        Ok(()) => {
                            self.screen = Screen::Updating { percent: 0 };
                            Effect::StartUpdate
                        },
                        Err(message) => {
                            self.screen = Screen::Error { message };
                            Effect::Nothing
                        },
                    }
                } else {
                    Effect::Nothing
                }
            },
        }
    }
}

} // verus!
