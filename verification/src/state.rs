//! What the host knows of the running backend.

use vstd::prelude::*;

use crate::boot::BackendUrl;
use crate::paths::Platform;
use crate::text;
use crate::text::decimal_text;

verus! {

/// The running backend: its process, where it listens, and whether the host is
/// quitting.
pub struct BackendState {
    pub child_pid: Option<u32>,
    pub url: Option<BackendUrl>,
    pub quitting: bool,
}

/// What the main window shows.
pub enum WindowUrl {
    /// The backend at this URL.
    External(String),
    /// A page that is bundled with the host.
    App(&'static str),
}

impl BackendState {
    /// No backend runs yet.
    pub fn new() -> (state: BackendState)
        ensures
            state == (BackendState { child_pid: None, url: None, quitting: false }),
    {
        BackendState { child_pid: None, url: None, quitting: false }
    }

    /// Remembers the process of a backend that was started.
    pub fn set_child(&mut self, pid: u32)
        ensures
            *final(self) == (BackendState { child_pid: Some(pid), ..*old(self) }),
    {
        self.child_pid = Some(pid);
    }

    /// Publishes where the backend listens.
    pub fn set_url(&mut self, url: BackendUrl)
        ensures
            *final(self) == (BackendState { url: Some(url), ..*old(self) }),
    {
        self.url = Some(url);
    }

    /// Forgets a backend that ended.
    pub fn mark_stopped(&mut self)
        ensures
            *final(self) == (BackendState { child_pid: None, url: None, ..*old(self) }),
    {
        self.child_pid = None;
        self.url = None;
    }

    /// Where the backend listens.
    pub fn current_url(&self) -> (url: Option<&BackendUrl>)
        ensures
            match url {
                Some(url) => self.url == Some(*url),
                None => self.url is None,
            },
    {
        self.url.as_ref()
    }

    /// The host quits: gives the process that has to end.
    pub fn begin_quit(&mut self) -> (pid: Option<u32>)
        ensures
            pid == old(self).child_pid,
            *final(self) == (BackendState { child_pid: None, quitting: true, ..*old(self) }),
    {
        self.quitting = true;
        let pid = self.child_pid;
        self.child_pid = None;
        pid
    }

    /// What the main window shows: the backend where it is ready, the bundled
    /// starting page otherwise.
    pub fn window_url(&self) -> (shown: WindowUrl)
        ensures
            match self.url {
                Some(url) => shown matches WindowUrl::External(text) && text@ == url@.text,
                None => shown matches WindowUrl::App(page) && page@ == "index.html"@,
            },
    {
        match &self.url {
            Some(url) => WindowUrl::External(url.as_str().to_owned()),
            None => WindowUrl::App("index.html"),
        }
    }
}

/// A step of ending the backend and all its children.
pub enum TerminationStep {
    /// Ask the whole process group to end.
    Ask,
    /// Wait so many milliseconds.
    Wait(u64),
    /// Kill the whole process group.
    Kill,
    /// Run the command with these arguments.
    Run { command: &'static str, arguments: Vec<String> },
}

/// The steps that end the backend on a platform: process groups get a moment to
/// end by themselves; on Windows the process tree is killed.
pub fn termination_steps(platform: Platform, pid: u32) -> (steps: Vec<TerminationStep>)
    ensures
        if platform == Platform::Windows {
            &&& steps@.len() == 1
            &&& steps@[0] matches TerminationStep::Run { command, arguments }
            &&& command@ == "taskkill"@
            &&& text::views(arguments@) == seq!["/PID"@, text::decimal(pid as nat), "/T"@, "/F"@]
        } else {
            steps@ == seq![TerminationStep::Ask, TerminationStep::Wait(250), TerminationStep::Kill]
        },
{
    let mut steps: Vec<TerminationStep> = Vec::new();
    if platform == Platform::Windows {
        let mut arguments: Vec<String> = Vec::new();
        arguments.push("/PID".to_string());
        arguments.push(decimal_text(pid as u64));
        arguments.push("/T".to_string());
        arguments.push("/F".to_string());
        assert(text::views(arguments@) =~= seq!["/PID"@, text::decimal(pid as nat), "/T"@, "/F"@]);
        steps.push(TerminationStep::Run { command: "taskkill", arguments });
    } else {
        steps.push(TerminationStep::Ask);
        steps.push(TerminationStep::Wait(250));
        steps.push(TerminationStep::Kill);
    }
    steps
}

/// What the host knows of the backend follows what happens to it: a process that was
/// started and a URL that was published stay until the backend ends, and quitting
/// gives up the process once.
pub proof fn law_life_of_the_backend(pid: u32, url: BackendUrl, ended: Option<u32>)
    ensures
        forall|state: &mut BackendState| #[trigger]
            call_ensures(BackendState::set_child, (state, pid), ()) ==> final(state).child_pid
                == Some(pid) && final(state).url == state.url && final(state).quitting
                == state.quitting,
        forall|state: &mut BackendState| #[trigger]
            call_ensures(BackendState::set_url, (state, url), ()) ==> final(state).url == Some(url)
                && final(state).child_pid == state.child_pid && final(state).quitting
                == state.quitting,
        forall|state: &mut BackendState| #[trigger]
            call_ensures(BackendState::mark_stopped, (state,), ()) ==> final(state).child_pid
                is None && final(state).url is None && final(state).quitting == state.quitting,
        forall|state: &mut BackendState| #[trigger]
            call_ensures(BackendState::begin_quit, (state,), ended) ==> ended == state.child_pid
                && final(state).child_pid is None && final(state).quitting && final(state).url
                == state.url,
{
}

/// The window shows the backend where it listens somewhere, and the bundled page
/// otherwise.
pub proof fn law_window_follows_the_backend(state: &BackendState, shown: WindowUrl)
    requires
        call_ensures(BackendState::window_url, (state,), shown),
    ensures
        (shown is External) == (state.url is Some),
        shown matches WindowUrl::External(text) ==> text@ == state.url->0.text@,
        shown matches WindowUrl::App(page) ==> page@ == "index.html"@,
{
}

/// Process groups are asked to end, get a quarter of a second, and are killed; on
/// Windows one command kills the tree of the process.
pub proof fn law_termination(platform: Platform, pid: u32, steps: Vec<TerminationStep>)
    requires
        call_ensures(termination_steps, (platform, pid), steps),
    ensures
        platform != Platform::Windows ==> steps@.len() == 3 && steps@[0] is Ask && steps@[1]
            == TerminationStep::Wait(250) && steps@[2] is Kill,
        platform == Platform::Windows ==> {
            &&& steps@.len() == 1
            &&& steps@[0] matches TerminationStep::Run { command, arguments }
            &&& command@ == "taskkill"@
            &&& arguments@.len() == 4
            &&& arguments@[0]@ == "/PID"@
            &&& arguments@[1]@ == text::decimal(pid as nat)
            &&& arguments@[2]@ == "/T"@
            &&& arguments@[3]@ == "/F"@
        },
{
    if platform == Platform::Windows {
        if let TerminationStep::Run { arguments, .. } = steps@[0] {
            let all = text::views(arguments@);
            assert(all.len() == arguments@.len());
            assert(all[0] == arguments@[0]@ && all[1] == arguments@[1]@ && all[2]
                == arguments@[2]@ && all[3] == arguments@[3]@);
        }
    }
}

} // verus!
