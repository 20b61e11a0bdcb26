//! Paths as the host sees them: a value that it carries, and what it asked the
//! platform about that value.

use vstd::prelude::*;

verus! {

/// The platforms that the host runs on.
#[derive(Clone, Copy, Debug, PartialEq, Eq, Structural)]
pub enum Platform {
    Linux,
    MacOs,
    Windows,
}

/// A path and what the platform says of it. The path itself is only carried.
pub struct PathFacts<P> {
    pub path: P,
    /// The path is the empty text.
    pub empty: bool,
    /// The path does not depend on a current directory.
    pub absolute: bool,
    /// A regular file is there.
    pub file: bool,
}

/// The path, unless it is empty.
pub open spec fn given<P>(path: Option<PathFacts<P>>) -> Option<P> {
    match path {
        Some(facts) if !facts.empty => Some(facts.path),
        _ => None,
    }
}

/// The path, unless it is empty.
pub fn given_path<P>(path: Option<PathFacts<P>>) -> (path_given: Option<P>)
    ensures
        path_given == given(path),
{
    match path {
        Some(facts) => if facts.empty {
            None
        } else {
            Some(facts.path)
        },
        None => None,
    }
}

/// A directory below another one.
pub struct Below<P> {
    /// The directory above; the platform's temporary directory where there is
    /// none.
    pub base: Option<P>,
    /// What is joined to it.
    pub rest: &'static str,
}

// ---------------------------------------------------------------------------
// The home of the runtime
// ---------------------------------------------------------------------------

/// Where the runtime keeps its data.
pub enum DshHome<P> {
    /// At this path.
    At(P),
    /// At this path below the user's home.
    BelowHome(P),
    /// In the default directory below the user's home.
    Default(&'static str),
}

/// Where the runtime keeps its data: at the configured path, taken below the
/// user's home where it is relative, or in `.dsh` below the user's home.
pub fn resolve_dsh_home<P>(configured: Option<PathFacts<P>>) -> (home: DshHome<P>)
    ensures
        match given(configured) {
            Some(path) => home == (if configured->0.absolute {
                DshHome::At(path)
            } else {
                DshHome::BelowHome(path)
            }),
            None => home matches DshHome::Default(name) && name@ == ".dsh"@,
        },
{
    match configured {
        Some(facts) => {
            if facts.empty {
                DshHome::Default(".dsh")
            } else if facts.absolute {
                DshHome::At(facts.path)
            } else {
                DshHome::BelowHome(facts.path)
            }
        },
        None => DshHome::Default(".dsh"),
    }
}

// ---------------------------------------------------------------------------
// The login shell
// ---------------------------------------------------------------------------

/// The shell whose environment is read.
pub enum LoginShell<P> {
    /// The configured one.
    Configured(P),
    /// The one that every Unix system has.
    Portable(&'static str),
}

/// The configured shell where it is an absolute path of a file, `/bin/sh`
/// otherwise.
pub fn resolve_login_shell<P>(configured: Option<PathFacts<P>>) -> (shell: LoginShell<P>)
    ensures
        match configured {
            Some(facts) if !facts.empty && facts.absolute && facts.file => shell
                == LoginShell::Configured(facts.path),
            _ => shell matches LoginShell::Portable(path) && path@ == "/bin/sh"@,
        },
{
    match configured {
        Some(facts) => {
            if !facts.empty && facts.absolute && facts.file {
                LoginShell::Configured(facts.path)
            } else {
                LoginShell::Portable("/bin/sh")
            }
        },
        None => LoginShell::Portable("/bin/sh"),
    }
}

/// A path counts as given where it is there and not the empty text.
pub proof fn law_empty_paths_are_not_given<P>(facts: PathFacts<P>)
    ensures
        given::<P>(None) is None,
        facts.empty ==> given(Some(facts)) is None,
        !facts.empty ==> given(Some(facts)) == Some(facts.path),
{
}

/// A login shell is the configured one only where that is the absolute path of a
/// file, and is then used as it is; every other one is the portable shell.
pub proof fn law_login_shells<P>(configured: Option<PathFacts<P>>, shell: LoginShell<P>)
    requires
        call_ensures(resolve_login_shell::<P>, (configured,), shell),
    ensures
        shell matches LoginShell::Configured(path) ==> {
            &&& configured matches Some(facts)
            &&& facts.path == path
            &&& facts.absolute
            &&& facts.file
            &&& !facts.empty
        },
        shell matches LoginShell::Portable(path) ==> path@ == "/bin/sh"@,
        configured matches Some(facts) ==> (facts.absolute && facts.file && !facts.empty ==> shell
            is Configured),
{
}

/// The runtime keeps its data at a configured path that is absolute, below the user's
/// home at one that is not, and in `.dsh` there where none is configured.
pub proof fn law_homes_of_the_runtime<P>(configured: Option<PathFacts<P>>, home: DshHome<P>)
    requires
        call_ensures(resolve_dsh_home::<P>, (configured,), home),
    ensures
        configured is None || configured->0.empty ==> (home matches DshHome::Default(name) && name@
            == ".dsh"@),
        configured is Some && !configured->0.empty && configured->0.absolute ==> home
            == DshHome::At(configured->0.path),
        configured is Some && !configured->0.empty && !configured->0.absolute ==> home
            == DshHome::BelowHome(configured->0.path),
{
}

} // verus!
