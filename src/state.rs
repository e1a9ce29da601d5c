//! Decisions around the local state files: where the home folder is, and whether
//! a document is read from its file or created with its default content.

use crate::client::{join_path, path_join_of};
use vstd::prelude::*;

verus! {

/// Environment variable that overrides the home folder.
pub const RF_HOME_ENV_VAR_NAME: &'static str = "RF_HOME";

/// File of the profile configuration document, under the home folder.
pub const CONFIG_FILENAME: &'static str = "configuration.json";

/// File of the current-profile state document, under the home folder.
pub const CLI_STATE_FILENAME: &'static str = "rf.json";

/// Folder under the platform configuration directory used when no override is set.
pub const HOME_DIRNAME: &'static str = "rf";

/// What the home-folder override variable holds.
#[derive(Debug, Clone, PartialEq, Eq)]
pub enum HomeOverride {
    /// It is set to this path.
    Value(String),
    /// It is not set.
    NotPresent,
    /// It is set to a value that is not Unicode; its lossy text.
    NotUnicode(String),
}

/// What the file system says of a path.
#[derive(Debug, Clone, PartialEq, Eq)]
pub enum PathProbe {
    File,
    Dir,
    /// Something that is neither a regular file nor a directory.
    Other,
    Missing,
    /// The path could not be examined; the cause.
    Failed(String),
}

/// Failures of the local state store.
#[derive(Debug, Clone, PartialEq, Eq)]
pub enum StateError {
    /// The platform has no configuration directory.
    NoConfigDir,
    /// The override variable is not Unicode; its lossy text.
    OverrideNotUnicode(String),
    /// The home path exists and is not a directory.
    HomeNotADirectory(String),
    /// A document path exists and is not a regular file.
    IsADirectory(String),
    /// A path could not be examined: the path and the cause.
    Stat { path: String, cause: String },
    /// The home folder could not be created: the path and the cause.
    CreateHome { path: String, cause: String },
    /// A document could not be read: the path and the cause.
    Read { path: String, cause: String },
    /// A document does not parse: the path and the cause.
    Parse { path: String, cause: String },
    /// A document could not be written: the path and the cause.
    Write { path: String, cause: String },
}

/// The home folder: the override when it is set, else `rf` under the platform
/// configuration directory.
pub fn resolve_home(env: HomeOverride, config_dir: Option<String>) -> (r: Result<String, StateError>)
    ensures
        env matches HomeOverride::Value(p) ==> r == Ok::<String, StateError>(p),
        env matches HomeOverride::NotUnicode(v) ==> r == Err::<String, StateError>(
            StateError::OverrideNotUnicode(v),
        ),
        env == HomeOverride::NotPresent ==> match config_dir {
            Some(d) => r matches Ok(h) && h@ == path_join_of(d@, HOME_DIRNAME@),
            None => r == Err::<String, StateError>(StateError::NoConfigDir),
        },
{
    match env {
        HomeOverride::Value(p) => Ok(p),
        HomeOverride::NotUnicode(v) => Err(StateError::OverrideNotUnicode(v)),
        HomeOverride::NotPresent => match config_dir {
            Some(d) => Ok(join_path(d.as_str(), HOME_DIRNAME)),
            None => Err(StateError::NoConfigDir),
        },
    }
}

/// Accepts a home folder that is a directory or does not exist yet.
pub fn check_home(home: String, probe: PathProbe) -> (r: Result<String, StateError>)
    ensures
        (probe == PathProbe::Dir || probe == PathProbe::Missing) ==> r == Ok::<String, StateError>(
            home,
        ),
        (probe == PathProbe::File || probe == PathProbe::Other) ==> r == Err::<String, StateError>(
            StateError::HomeNotADirectory(home),
        ),
        probe matches PathProbe::Failed(c) ==> r == Err::<String, StateError>(
            StateError::Stat { path: home, cause: c },
        ),
{
    match probe {
        PathProbe::Dir | PathProbe::Missing => Ok(home),
        PathProbe::File | PathProbe::Other => Err(StateError::HomeNotADirectory(home)),
        PathProbe::Failed(cause) => Err(StateError::Stat { path: home, cause }),
    }
}

/// The two document files under the home folder: the state file, then the
/// configuration file.
pub fn state_files(home: &str) -> (r: (String, String))
    ensures
        r.0@ == path_join_of(home@, CLI_STATE_FILENAME@),
        r.1@ == path_join_of(home@, CONFIG_FILENAME@),
{
    (join_path(home, CLI_STATE_FILENAME), join_path(home, CONFIG_FILENAME))
}

/// How a document is loaded.
#[derive(Debug, Clone, Copy, PartialEq, Eq, Structural)]
pub enum LoadAction {
    /// Read and parse the existing file.
    ReadExisting,
    /// Write the default document to the file and use it.
    CreateDefault,
}

/// How to load the document at `path`: an existing regular file is read, a missing
/// one is created with the default document; anything else is an error.
pub fn load_action(path: &str, probe: PathProbe) -> (r: Result<LoadAction, StateError>)
    ensures
        probe == PathProbe::File ==> r == Ok::<LoadAction, StateError>(LoadAction::ReadExisting),
        probe == PathProbe::Missing ==> r == Ok::<LoadAction, StateError>(
            LoadAction::CreateDefault,
        ),
        (probe == PathProbe::Dir || probe == PathProbe::Other) ==> (r matches Err(
            StateError::IsADirectory(p),
        ) && p@ == path@),
        probe matches PathProbe::Failed(c) ==> (r matches Err(StateError::Stat { path: p, cause })
            && p@ == path@ && cause == c),
{
    match probe {
        PathProbe::File => Ok(LoadAction::ReadExisting),
        PathProbe::Missing => Ok(LoadAction::CreateDefault),
        PathProbe::Dir | PathProbe::Other => Err(StateError::IsADirectory(path.to_owned())),
        PathProbe::Failed(cause) => Err(StateError::Stat { path: path.to_owned(), cause }),
    }
}

} // verus!
