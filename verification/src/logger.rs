//! Where the application keeps its log.
use vstd::prelude::*;

verus! {

/// Where the log directory is found.
#[derive(Clone, Copy, PartialEq, Eq, Structural, Debug)]
pub enum LogDirSource {
    /// `$XDG_STATE_HOME/f1-term`.
    XdgStateHome,
    /// `%LOCALAPPDATA%\f1-term`.
    LocalAppData,
    /// `$HOME/.local/state/f1-term`.
    HomeState,
    /// The current directory (or `.`), as it is.
    CurrentDir,
}

/// The first of the state directories that is set, in the order
/// `XDG_STATE_HOME`, `LOCALAPPDATA`, `HOME`; the current directory where
/// none is.
pub fn log_dir_source(has_xdg_state_home: bool, has_local_app_data: bool, has_home: bool) -> (s:
    LogDirSource)
    ensures
        s == if has_xdg_state_home {
            LogDirSource::XdgStateHome
        } else if has_local_app_data {
            LogDirSource::LocalAppData
        } else if has_home {
            LogDirSource::HomeState
        } else {
            LogDirSource::CurrentDir
        },
{
    if has_xdg_state_home {
        LogDirSource::XdgStateHome
    } else if has_local_app_data {
        LogDirSource::LocalAppData
    } else if has_home {
        LogDirSource::HomeState
    } else {
        LogDirSource::CurrentDir
    }
}

} // verus!
