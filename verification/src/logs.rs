//! The backend log: where it is, when it is rotated, and what is written.

use vstd::prelude::*;

use crate::paths::{given, given_path, Below, PathFacts, Platform};

verus! {

/// Bytes from which on the backend log is rotated.
pub const BACKEND_LOG_LIMIT: u64 = 1_048_576;

/// Where the logs are: below the first of the given directories that is set, or
/// below the temporary directory.
pub open spec fn log_base<P>(
    local_app_data: Option<P>,
    xdg_state_home: Option<P>,
    home: Option<P>,
) -> (Option<P>, Seq<char>) {
    if local_app_data is Some {
        (local_app_data, "OpenHarness/logs"@)
    } else if xdg_state_home is Some {
        (xdg_state_home, "OpenHarness/logs"@)
    } else if home is Some {
        (home, ".local/state/OpenHarness/logs"@)
    } else {
        (None, "OpenHarness/logs"@)
    }
}

/// Where the logs are, by the environment: the local application data directory
/// comes first, then the XDG state directory, then the user's home.
pub fn resolve_log_directory<P>(
    local_app_data: Option<PathFacts<P>>,
    xdg_state_home: Option<PathFacts<P>>,
    home: Option<PathFacts<P>>,
) -> (directory: Below<P>)
    ensures
        (directory.base, directory.rest@) == log_base(
            given(local_app_data),
            given(xdg_state_home),
            given(home),
        ),
{
    let local = given_path(local_app_data);
    if local.is_some() {
        return Below { base: local, rest: "OpenHarness/logs" };
    }
    let state = given_path(xdg_state_home);
    if state.is_some() {
        return Below { base: state, rest: "OpenHarness/logs" };
    }
    let user = given_path(home);
    if user.is_some() {
        return Below { base: user, rest: ".local/state/OpenHarness/logs" };
    }
    Below { base: None, rest: "OpenHarness/logs" }
}

/// Where the backend log is: a file of a directory.
pub struct LogLocation<P> {
    pub directory: Below<P>,
    pub file: &'static str,
}

/// Where the backend log is before the platform's application data directory is
/// known: in the directory that the environment gives.
pub fn initialize_backend_log<P>(
    local_app_data: Option<PathFacts<P>>,
    xdg_state_home: Option<PathFacts<P>>,
    home: Option<PathFacts<P>>,
) -> (location: LogLocation<P>)
    ensures
        (location.directory.base, location.directory.rest@) == log_base(
            given(local_app_data),
            given(xdg_state_home),
            given(home),
        ),
        location.file@ == "backend.log"@,
{
    LogLocation {
        directory: resolve_log_directory(local_app_data, xdg_state_home, home),
        file: "backend.log",
    }
}

/// Where the backend log is once the platform was asked for its application data
/// directory: below that one where it is set, where the environment says
/// otherwise. On Linux logs are state, not data: the XDG state directory decides
/// there, then the user's home.
pub fn finalize_backend_log_directory<P>(
    platform: Platform,
    app_local_data: Option<PathFacts<P>>,
    local_app_data: Option<PathFacts<P>>,
    xdg_state_home: Option<PathFacts<P>>,
    home: Option<PathFacts<P>>,
) -> (location: LogLocation<P>)
    ensures
        (location.directory.base, location.directory.rest@) == (if platform == Platform::Linux {
            log_base(None, given(xdg_state_home), given(home))
        } else if given(app_local_data) is Some {
            (given(app_local_data), "OpenHarness/logs"@)
        } else {
            log_base(given(local_app_data), given(xdg_state_home), given(home))
        }),
        location.file@ == "backend.log"@,
{
    if platform == Platform::Linux {
        return initialize_backend_log(None, xdg_state_home, home);
    }
    let base = given_path(app_local_data);
    if base.is_some() {
        return LogLocation {
            directory: Below { base, rest: "OpenHarness/logs" },
            file: "backend.log",
        };
    }
    initialize_backend_log(local_app_data, xdg_state_home, home)
}

/// The extension under which a log of that many bytes is put aside before it
/// grows further. A log within the limit, or of unknown size, stays.
pub fn rotate_backend_log(size: Option<u64>) -> (archive: Option<&'static str>)
    ensures
        match size {
            Some(bytes) if bytes > BACKEND_LOG_LIMIT => archive matches Some(extension) && extension@
                == "log.1"@,
            _ => archive is None,
        },
{
    match size {
        Some(bytes) => if bytes > BACKEND_LOG_LIMIT {
            Some("log.1")
        } else {
            None
        },
        None => None,
    }
}

/// What to do with one line for the log.
pub enum LogStep {
    /// Drop it.
    Drop,
    /// Put a log that is too large aside under the extension of the archive, then
    /// append the text.
    Append { archive: Option<&'static str>, text: String },
}

/// The backend log: its file, once it is known, and whether a write failed.
pub struct BackendLog<P> {
    pub path: Option<P>,
    pub failed: bool,
}

impl<P> BackendLog<P> {
    /// No file is known yet.
    pub fn new() -> (log: BackendLog<P>)
        ensures
            log.path is None,
            !log.failed,
    {
        BackendLog { path: None, failed: false }
    }

    /// Sets the file; it may be set again.
    pub fn install_backend_log(&mut self, path: P)
        ensures
            final(self).path == Some(path),
            final(self).failed == old(self).failed,
    {
        self.path = Some(path);
    }

    /// The file of the log.
    pub fn backend_log_path(&self) -> (path: Option<&P>)
        ensures
            match path {
                Some(path) => self.path == Some(*path),
                None => self.path is None,
            },
    {
        self.path.as_ref()
    }

    /// Whether a write failed.
    pub fn last_log_error(&self) -> (failed: bool)
        ensures
            failed == self.failed,
    {
        self.failed
    }

    /// Remembers that a write failed.
    pub fn record_failure(&mut self)
        ensures
            final(self).failed,
            final(self).path == old(self).path,
    {
        self.failed = true;
    }

    /// What to do with one line, given the size of the log where that is known.
    /// Nothing is written before the file is known, nor after a failed write.
    pub fn write_backend_log(&self, line: &str, size: Option<u64>) -> (step: LogStep)
        ensures
            self.path is None || self.failed ==> step is Drop,
            self.path is Some && !self.failed ==> {
                &&& step matches LogStep::Append { archive, text }
                &&& text@ == line@ + "\n"@
                &&& match size {
                    Some(bytes) if bytes > BACKEND_LOG_LIMIT => archive matches Some(extension)
                        && extension@ == "log.1"@,
                    _ => archive is None,
                }
            },
    {
        if self.path.is_none() || self.failed {
            return LogStep::Drop;
        }
        let mut text = line.to_owned();
        text.append("\n");
        LogStep::Append { archive: rotate_backend_log(size), text }
    }
}

/// The local application data directory decides where the logs are, whatever else
/// is given; then the XDG state directory; then the user's home, below which they
/// lie deeper.
pub proof fn law_order_of_log_directories<P>(
    local: P,
    state: P,
    home: P,
    any_state: Option<P>,
    any_home: Option<P>,
)
    ensures
        log_base(Some(local), any_state, any_home) == (Some(local), "OpenHarness/logs"@),
        log_base(None, Some(state), any_home) == (Some(state), "OpenHarness/logs"@),
        log_base(None, None, Some(home)) == (Some(home), ".local/state/OpenHarness/logs"@),
        log_base::<P>(None, None, None) == (None::<P>, "OpenHarness/logs"@),
        BACKEND_LOG_LIMIT == 1048576,
{
}

/// A log is put aside exactly where it has grown beyond the limit; a line is written
/// with a newline behind it, and only where the file is known and no write failed.
pub proof fn law_written_lines<P>(
    log: &BackendLog<P>,
    line: &str,
    size: Option<u64>,
    step: LogStep,
    archive: Option<&'static str>,
)
    ensures
        call_ensures(rotate_backend_log, (size,), archive) ==> {
            &&& (archive is Some) == (size is Some && size->0 > 1048576)
            &&& archive matches Some(extension) ==> extension@ == "log.1"@
        },
        call_ensures(BackendLog::<P>::write_backend_log, (log, line, size), step) ==> {
            &&& (step is Drop) == (log.path is None || log.failed)
            &&& step matches LogStep::Append { archive: aside, text } ==> {
                &&& text@ == line@ + seq!['\n']
                &&& (aside is Some) == (size is Some && size->0 > 1048576)
                &&& aside matches Some(extension) ==> extension@ == "log.1"@
            }
        },
{
    reveal_strlit("\n");
    assert("\n"@ =~= seq!['\n']);
}

/// A failed write is remembered whatever happens to the file, and a file that is set
/// again replaces the one before it.
pub proof fn law_log_state<P>(path: P)
    ensures
        forall|log: &mut BackendLog<P>| #[trigger]
            call_ensures(BackendLog::<P>::install_backend_log, (log, path), ()) ==> final(log).path
                == Some(path) && final(log).failed == log.failed,
        forall|log: &mut BackendLog<P>| #[trigger]
            call_ensures(BackendLog::<P>::record_failure, (log,), ()) ==> final(log).failed
                && final(log).path == log.path,
{
}

/// On Linux the XDG state directory decides where the log is, then the user's home;
/// elsewhere the platform's own directory does where it is given.
pub proof fn law_places_of_the_log<P>(
    platform: Platform,
    own: Option<PathFacts<P>>,
    local: Option<PathFacts<P>>,
    state: Option<PathFacts<P>>,
    home: Option<PathFacts<P>>,
    location: LogLocation<P>,
)
    requires
        call_ensures(
            finalize_backend_log_directory::<P>,
            (platform, own, local, state, home),
            location,
        ),
    ensures
        location.file@ == "backend.log"@,
        platform != Platform::Linux && own is Some && !own->0.empty ==> location.directory.base
            == Some(own->0.path) && location.directory.rest@ == "OpenHarness/logs"@,
        platform == Platform::Linux && state is Some && !state->0.empty ==> location.directory.base
            == Some(state->0.path) && location.directory.rest@ == "OpenHarness/logs"@,
        platform == Platform::Linux && (state is None || state->0.empty) && home is Some
            && !home->0.empty ==> location.directory.base == Some(home->0.path)
            && location.directory.rest@ == ".local/state/OpenHarness/logs"@,
        platform != Platform::Linux && (own is None || own->0.empty) && local is Some
            && !local->0.empty ==> location.directory.base == Some(local->0.path)
            && location.directory.rest@ == "OpenHarness/logs"@,
        platform != Platform::Linux && (own is None || own->0.empty) && (local is None
            || local->0.empty) && state is Some && !state->0.empty ==> location.directory.base
            == Some(state->0.path) && location.directory.rest@ == "OpenHarness/logs"@,
        (own is None || own->0.empty || platform == Platform::Linux) && (local is None
            || local->0.empty || platform == Platform::Linux) && (state is None || state->0.empty)
            && (home is None || home->0.empty) ==> location.directory.base is None
            && location.directory.rest@ == "OpenHarness/logs"@,
{
}

/// Before the platform was asked, the environment decides in the same order.
pub proof fn law_first_place_of_the_log<P>(
    local: Option<PathFacts<P>>,
    state: Option<PathFacts<P>>,
    home: Option<PathFacts<P>>,
    location: LogLocation<P>,
    directory: Below<P>,
)
    ensures
        call_ensures(resolve_log_directory::<P>, (local, state, home), directory) && call_ensures(
            initialize_backend_log::<P>,
            (local, state, home),
            location,
        ) ==> {
            &&& location.file@ == "backend.log"@
            &&& location.directory.base == directory.base
            &&& location.directory.rest@ == directory.rest@
            &&& local is Some && !local->0.empty ==> directory.base == Some(local->0.path)
            &&& (local is None || local->0.empty) && state is Some && !state->0.empty
                ==> directory.base == Some(state->0.path)
            &&& (local is None || local->0.empty) && (state is None || state->0.empty)
                && home is Some && !home->0.empty ==> directory.base == Some(home->0.path)
                && directory.rest@ == ".local/state/OpenHarness/logs"@
        },
{
}

} // verus!
