//! Where the launcher keeps its files: everything lives in one directory
//! under the platform's per-user data directory.
use vstd::prelude::*;

use std::path::PathBuf;

use crate::branches::string_views;

verus! {

/// `std::path::PathBuf`, carried through as an opaque value: nothing inside
/// a path is read here.
#[verifier::external_type_specification]
#[verifier::external_body]
pub struct ExPathBuf(PathBuf);

/// The launcher's directory name inside the platform data directory.
pub open spec fn app_dir_name() -> Seq<char> {
    "ForzaTelemetryV3Launcher"@
}

/// A location under the platform data directory (or under `.` on a
/// platform without one), as the path components below it.
pub struct DataPath {
    pub parts: Vec<String>,
}

/// The path `PathBuf::from` makes of a string.
pub uninterp spec fn path_of(s: Seq<char>) -> PathBuf;

/// The path `Path::join` makes of `base` and the component `name`.
pub uninterp spec fn joined(base: PathBuf, name: Seq<char>) -> PathBuf;

/// `base` joined with each of `parts` in turn.
pub open spec fn join_all(base: PathBuf, parts: Seq<Seq<char>>) -> PathBuf
    decreases parts.len(),
{
    if parts.len() == 0 {
        base
    } else {
        joined(join_all(base, parts.drop_last()), parts.last())
    }
}

/// The directory the launcher's files are placed under: the platform data
/// directory when there is one, else `.`.
pub open spec fn base_dir(data_dir: Option<PathBuf>) -> PathBuf {
    match data_dir {
        Some(d) => d,
        None => path_of("."@),
    }
}

impl DataPath {
    /// The components below the data directory, by their characters.
    pub open spec fn components(&self) -> Seq<Seq<char>> {
        string_views(self.parts@)
    }

    /// The path under a given platform data directory (`.` when there is
    /// none): that directory joined with each component in turn.
    pub fn path_under(&self, data_dir: Option<PathBuf>) -> (r: PathBuf)
        ensures
            r == join_all(base_dir(data_dir), self.components()),
    {
        let mut p = match data_dir {
            Some(d) => d,
            None => path_from("."),
        };
        for i in 0..self.parts.len()
            invariant
                p == join_all(base_dir(data_dir), self.components().take(i as int)),
        {
            let ghost before = self.components().take(i as int);
            assert(self.components().take(i + 1).drop_last() =~= before);
            p = path_join(&p, self.parts[i].as_str());
        }
        assert(self.components().take(self.parts.len() as int) =~= self.components());
        p
    }

    /// The path on this machine: the platform data directory (or `.`) joined
    /// with each component in turn. Which data directory that is depends on
    /// the environment.
    pub fn to_path_buf(&self) -> (r: PathBuf)
        ensures
            exists|d: Option<PathBuf>| r == #[trigger] join_all(base_dir(d), self.components()),
    {
        let d = platform_data_dir();
        let r = self.path_under(d);
        assert(r == join_all(base_dir(d), self.components()));
        r
    }
}

/// `dirs::data_dir`: the platform's per-user data directory, if it has one.
/// What it returns depends on the environment and the operating system, so
/// nothing is stated of it.
#[verifier::external_body]
fn platform_data_dir() -> Option<PathBuf> {
    dirs::data_dir()
}

/// `PathBuf::from` on a string slice: the result depends on the string alone
/// and is named `path_of`.
#[verifier::external_body]
fn path_from(s: &str) -> (r: PathBuf)
    ensures
        r == path_of(s@),
{
    PathBuf::from(s)
}

/// `Path::join`: `base` followed by the component `name`; the result depends
/// on the two arguments alone and is named `joined`.
#[verifier::external_body]
fn path_join(base: &PathBuf, name: &str) -> (r: PathBuf)
    ensures
        r == joined(*base, name@),
{
    base.join(name)
}

/// The path `[app dir, name]`.
fn app_file(name: &str) -> (r: DataPath)
    ensures
        r.components() == seq![app_dir_name(), name@],
{
    let mut parts: Vec<String> = Vec::new();
    parts.push("ForzaTelemetryV3Launcher".to_owned());
    parts.push(name.to_owned());
    let r = DataPath { parts };
    assert(r.components() =~= seq![app_dir_name(), name@]);
    r
}

/// The launcher's own directory.
pub fn data_dir() -> (r: DataPath)
    ensures
        r.components() == seq![app_dir_name()],
{
    let mut parts: Vec<String> = Vec::new();
    parts.push("ForzaTelemetryV3Launcher".to_owned());
    let r = DataPath { parts };
    assert(r.components() =~= seq![app_dir_name()]);
    r
}

/// The working copy of the tool repository.
pub fn repo_dir() -> (r: DataPath)
    ensures
        r.components() == seq![app_dir_name(), "repo"@],
{
    app_file("repo")
}

/// The build and run log.
pub fn log_path() -> (r: DataPath)
    ensures
        r.components() == seq![app_dir_name(), "run.log"@],
{
    app_file("run.log")
}

/// The remembered branch and run type.
pub fn config_path() -> (r: DataPath)
    ensures
        r.components() == seq![app_dir_name(), "config.txt"@],
{
    app_file("config.txt")
}

/// The file holding the largest crate count seen for a build profile.
pub fn units_path(release: bool) -> (r: DataPath)
    ensures
        r.components() == seq![
            app_dir_name(),
            if release {
                "units_release.txt"@
            } else {
                "units_debug.txt"@
            },
        ],
{
    if release {
        app_file("units_release.txt")
    } else {
        app_file("units_debug.txt")
    }
}

} // verus!
