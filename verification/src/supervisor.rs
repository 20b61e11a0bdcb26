//! Supervision of the backend process: when it is restarted, after which delay,
//! and when the user is told.

use vstd::arithmetic::power2::pow2;
use vstd::prelude::*;

use crate::failure::{backend_failure_message, failure_message};
use crate::text::{decimal, decimal_text, opt_str, opt_view, views};

verus! {

/// Consecutive backend failures before an error dialog.
pub const MAX_RESTART_ATTEMPTS: u32 = 3;

/// Seconds of uptime after which an earlier failure streak is over.
pub const STABLE_BACKEND_UPTIME: u64 = 30;

/// The exit code with which the backend asks to be started again.
pub const MANAGED_RESTART_EXIT_CODE: i32 = 75;

/// The longest delay before a restart, in seconds.
pub const MAX_RESTART_DELAY: u64 = 30;

// ---------------------------------------------------------------------------
// Counting failures and waiting
// ---------------------------------------------------------------------------

/// Whether an uptime in seconds ends a failure streak.
pub open spec fn is_stable(uptime: Option<u64>) -> bool {
    uptime matches Some(seconds) && seconds >= STABLE_BACKEND_UPTIME
}

/// The length of the failure streak after one more failure.
pub open spec fn streak_after(current: u32, uptime: Option<u64>) -> u32 {
    let previous = if is_stable(uptime) {
        0
    } else {
        current
    };
    if previous == u32::MAX {
        u32::MAX
    } else {
        (previous + 1) as u32
    }
}

/// The length of the failure streak after one more failure of a backend that ran
/// for `uptime` seconds, or did not start at all.
pub fn next_failure_count(current: u32, uptime: Option<u64>) -> (failures: u32)
    ensures
        failures == streak_after(current, uptime),
{
    let stable = match uptime {
        Some(seconds) => seconds >= STABLE_BACKEND_UPTIME,
        None => false,
    };
    let previous: u32 = if stable {
        0
    } else {
        current
    };
    previous.saturating_add(1)
}

/// The delay in seconds after that many failures: a power of two, capped.
pub open spec fn delay_after(failures: u32) -> nat {
    let exponent: nat = if failures < 6 {
        failures as nat
    } else {
        6
    };
    if pow2(exponent) < MAX_RESTART_DELAY {
        pow2(exponent)
    } else {
        MAX_RESTART_DELAY as nat
    }
}

proof fn lemma_small_powers()
    ensures
        pow2(0) == 1,
        pow2(1) == 2,
        pow2(2) == 4,
        pow2(3) == 8,
        pow2(4) == 16,
        pow2(5) == 32,
        pow2(6) == 64,
{
    vstd::arithmetic::power2::lemma2_to64();
}

/// The delay in seconds before the backend is started again after that many
/// failures in a row: exponential, and capped.
pub fn restart_delay(failures: u32) -> (seconds: u64)
    ensures
        seconds == delay_after(failures),
{
    proof {
        lemma_small_powers();
    }
    match failures {
        0 => 1,
        1 => 2,
        2 => 4,
        3 => 8,
        4 => 16,
        _ => MAX_RESTART_DELAY,
    }
}

/// The delay grows with the number of failures and never exceeds the cap.
pub proof fn law_restart_delay_is_monotone_and_capped(fewer: u32, more: u32)
    requires
        fewer <= more,
    ensures
        1 <= delay_after(fewer) <= delay_after(more) <= MAX_RESTART_DELAY,
{
    lemma_small_powers();
}

/// Below the cap each further failure doubles the delay.
pub proof fn law_restart_delay_is_exponential(failures: u32)
    requires
        failures < u32::MAX,
        delay_after((failures + 1) as u32) < MAX_RESTART_DELAY,
    ensures
        delay_after((failures + 1) as u32) == 2 * delay_after(failures),
{
    lemma_small_powers();
}

/// Whether an exit code is the request of the backend to be started again.
pub fn is_managed_restart_code(code: Option<i32>) -> (managed: bool)
    ensures
        managed == (code == Some(MANAGED_RESTART_EXIT_CODE)),
{
    match code {
        Some(code) => code == MANAGED_RESTART_EXIT_CODE,
        None => false,
    }
}

// ---------------------------------------------------------------------------
// The supervisor
// ---------------------------------------------------------------------------

/// How the backend process ended.
pub enum ExitReport {
    /// It exited, with this code where it has one; `status` describes the exit.
    Exited { code: Option<i32>, status: String },
    /// Waiting for it failed.
    WaitFailed { cause: String },
}

/// What happened to the backend.
pub enum SupervisorEvent {
    /// It is about to be started, for the first time or again; `quitting` is set
    /// where the host is quitting.
    Starting { quitting: bool },
    /// It could not be started.
    SpawnFailed { detail: String },
    /// It ended after `uptime` seconds; `quitting` is set where the host is
    /// quitting.
    Stopped { quitting: bool, report: ExitReport, uptime: u64 },
}

/// What the supervisor does next.
pub enum SupervisorAction {
    /// Stop supervising.
    Quit,
    /// Start the backend.
    Start,
    /// Start the backend again without a delay.
    RestartNow,
    /// Write the log line, show the dialog if there is one, and start the backend
    /// again after the delay.
    RestartAfter { reset_sessions: bool, log: String, dialog: Option<String>, seconds: u64 },
}

/// What the supervisor remembers.
#[derive(Clone, Copy, Debug, PartialEq, Eq, Structural)]
pub struct Supervisor {
    /// The length of the current failure streak.
    pub failures: u32,
    /// Whether the user was told of the current streak.
    pub error_reported: bool,
}

/// The event is a start, a request to restart, or comes while the host is quitting.
pub open spec fn is_planned(event: SupervisorEvent) -> bool {
    match event {
        SupervisorEvent::Starting { .. } => true,
        SupervisorEvent::SpawnFailed { .. } => false,
        SupervisorEvent::Stopped { quitting, report, .. } => quitting || requests_restart(report),
    }
}

/// The backend asked to be started again.
pub open spec fn requests_restart(report: ExitReport) -> bool {
    report matches ExitReport::Exited { code, .. } && code == Some(MANAGED_RESTART_EXIT_CODE)
}

/// How a report describes what happened.
pub open spec fn exit_detail(report: ExitReport) -> Seq<char> {
    match report {
        ExitReport::Exited { status, .. } => "backend exited unexpectedly with "@ + status@,
        ExitReport::WaitFailed { cause } => "failed to wait for backend process: "@ + cause@,
    }
}

impl Supervisor {
    /// The user was told of the streak exactly where it is long enough.
    pub open spec fn well_formed(self) -> bool {
        self.error_reported == (self.failures >= MAX_RESTART_ATTEMPTS)
    }

    /// The uptime that an event reports.
    pub open spec fn uptime_of(event: SupervisorEvent) -> Option<u64> {
        match event {
            SupervisorEvent::Starting { .. } => None,
            SupervisorEvent::SpawnFailed { .. } => None,
            SupervisorEvent::Stopped { uptime, .. } => Some(uptime),
        }
    }

    /// The user has been told already of the streak that an event continues.
    pub open spec fn told_before(self, event: SupervisorEvent) -> bool {
        self.error_reported && !is_stable(Supervisor::uptime_of(event))
    }

    /// The state after an event.
    pub open spec fn after(self, event: SupervisorEvent) -> Supervisor {
        match event {
            SupervisorEvent::Starting { .. } => self,
            SupervisorEvent::Stopped { quitting: true, .. } => self,
            SupervisorEvent::Stopped { report, .. } if requests_restart(report) => Supervisor {
                failures: 0,
                error_reported: false,
            },
            _ => {
                let failures = streak_after(self.failures, Supervisor::uptime_of(event));
                Supervisor {
                    failures,
                    error_reported: self.told_before(event) || failures >= MAX_RESTART_ATTEMPTS,
                }
            },
        }
    }

    /// Whether the user is told of an event.
    pub open spec fn reports(self, event: SupervisorEvent) -> bool {
        &&& !is_planned(event)
        &&& !self.told_before(event)
        &&& self.after(event).failures >= MAX_RESTART_ATTEMPTS
    }

    /// A supervisor of a backend that was not started yet.
    pub fn new() -> (supervisor: Supervisor)
        ensures
            supervisor.failures == 0,
            !supervisor.error_reported,
            supervisor.well_formed(),
    {
        Supervisor { failures: 0, error_reported: false }
    }

    /// Decides what follows from an event. Every start, also one after a delay, is
    /// announced first, so that none happens once the host quits. `recent` is the backend's last output
    /// and `log_path` the place of the log.
    pub fn step(
        &mut self,
        event: SupervisorEvent,
        recent: &Vec<String>,
        log_path: Option<&str>,
    ) -> (action: SupervisorAction)
        ensures
            *final(self) == old(self).after(event),
            old(self).well_formed() ==> final(self).well_formed(),
            match event {
                SupervisorEvent::Starting { quitting } => if quitting {
                    action is Quit
                } else {
                    action is Start
                },
                SupervisorEvent::Stopped { quitting: true, .. } => action is Quit,
                SupervisorEvent::Stopped { report, .. } if requests_restart(report) => action
                    is RestartNow,
                SupervisorEvent::Stopped { report, .. } => action
                    matches SupervisorAction::RestartAfter { reset_sessions, log, dialog, seconds }
                    && reset_sessions && log@ == "[harness] "@ + exit_detail(report) + " ("@
                    + decimal(final(self).failures as nat) + "); restarting"@ && opt_view(dialog)
                    == (if old(self).reports(event) {
                    Some(
                        failure_message(exit_detail(report), views(recent@), opt_str(log_path)),
                    )
                } else {
                    None
                }) && seconds == delay_after(final(self).failures),
                SupervisorEvent::SpawnFailed { detail } => action
                    matches SupervisorAction::RestartAfter { reset_sessions, log, dialog, seconds }
                    && !reset_sessions && log@ == "[harness] backend spawn failed ("@ + decimal(
                    final(self).failures as nat,
                ) + "): "@ + detail@ && opt_view(dialog) == (if old(self).reports(event) {
                    Some(detail@)
                } else {
                    None
                }) && seconds == delay_after(final(self).failures),
            },
    {
        match event {
            SupervisorEvent::Starting { quitting } => {
                if quitting {
                    SupervisorAction::Quit
                } else {
                    SupervisorAction::Start
                }
            },
            SupervisorEvent::Stopped { quitting, report, uptime } => {
                if quitting {
                    return SupervisorAction::Quit;
                }
                let detail = match report {
                    ExitReport::Exited { code, status } => {
                        if is_managed_restart_code(code) {
                            self.failures = 0;
                            self.error_reported = false;
                            return SupervisorAction::RestartNow;
                        }
                        let mut detail = "backend exited unexpectedly with ".to_string();
                        detail.append(status.as_str());
                        detail
                    },
                    ExitReport::WaitFailed { cause } => {
                        let mut detail = "failed to wait for backend process: ".to_string();
                        detail.append(cause.as_str());
                        detail
                    },
                };
                if uptime >= STABLE_BACKEND_UPTIME {
                    self.error_reported = false;
                }
                self.failures = next_failure_count(self.failures, Some(uptime));
                let mut log = "[harness] ".to_string();
                log.append(detail.as_str());
                log.append(" (");
                log.append(decimal_text(self.failures as u64).as_str());
                log.append("); restarting");
                let mut dialog: Option<String> = None;
                if self.failures >= MAX_RESTART_ATTEMPTS && !self.error_reported {
                    self.error_reported = true;
                    dialog = Some(backend_failure_message(detail.as_str(), recent, log_path));
                }
                SupervisorAction::RestartAfter {
                    reset_sessions: true,
                    log,
                    dialog,
                    seconds: restart_delay(self.failures),
                }
            },
            SupervisorEvent::SpawnFailed { detail } => {
                self.failures = next_failure_count(self.failures, None);
                let mut log = "[harness] backend spawn failed (".to_string();
                log.append(decimal_text(self.failures as u64).as_str());
                log.append("): ");
                log.append(detail.as_str());
                let mut dialog: Option<String> = None;
                if self.failures >= MAX_RESTART_ATTEMPTS && !self.error_reported {
                    self.error_reported = true;
                    dialog = Some(detail);
                }
                SupervisorAction::RestartAfter {
                    reset_sessions: false,
                    log,
                    dialog,
                    seconds: restart_delay(self.failures),
                }
            },
        }
    }
}

/// The user is told of a failure streak once: exactly when it reaches the length
/// from which on failures are reported.
pub proof fn law_user_is_told_once_per_streak(supervisor: Supervisor, event: SupervisorEvent)
    requires
        supervisor.well_formed(),
    ensures
        supervisor.reports(event) ==> supervisor.after(event).failures == MAX_RESTART_ATTEMPTS
            && supervisor.failures == MAX_RESTART_ATTEMPTS - 1,
        !is_planned(event) && supervisor.failures == MAX_RESTART_ATTEMPTS - 1 && !is_stable(
            Supervisor::uptime_of(event),
        ) ==> supervisor.reports(event),
{
}

/// Whatever happens to the backend, what the supervisor remembers stays
/// consistent.
pub proof fn law_supervisor_stays_well_formed(supervisor: Supervisor, event: SupervisorEvent)
    requires
        supervisor.well_formed(),
    ensures
        supervisor.after(event).well_formed(),
{
}

/// A requested restart, and a run long enough, forget the failures before them.
pub proof fn law_recovery_ends_the_streak(supervisor: Supervisor, event: SupervisorEvent)
    requires
        event matches SupervisorEvent::Stopped { quitting, .. } && !quitting,
    ensures
        is_planned(event) ==> supervisor.after(event) == (Supervisor {
            failures: 0,
            error_reported: false,
        }),
        !is_planned(event) && is_stable(Supervisor::uptime_of(event)) ==> supervisor.after(event)
            == (Supervisor { failures: 1, error_reported: false }) && !supervisor.reports(event),
{
}

/// The seconds of uptime decide what a crash does to the streak: thirty of them,
/// or more, start a new one of length one of which nobody was told; fewer make the
/// old one longer by one, up to the largest number.
pub proof fn law_uptime_decides_the_streak(
    supervisor: Supervisor,
    code: Option<i32>,
    status: String,
    uptime: u64,
)
    requires
        code != Some(75i32),
    ensures
        ({
            let event = SupervisorEvent::Stopped {
                quitting: false,
                report: ExitReport::Exited { code, status },
                uptime,
            };
            let after = supervisor.after(event);
            &&& uptime >= 30 ==> after.failures == 1 && !after.error_reported
                && !supervisor.reports(event)
            &&& uptime < 30 && supervisor.failures < u32::MAX ==> after.failures
                == supervisor.failures + 1
            &&& uptime < 30 && supervisor.failures == u32::MAX ==> after.failures == u32::MAX
            &&& uptime < 30 ==> after.error_reported == (supervisor.error_reported
                || after.failures >= 3)
            &&& uptime < 30 ==> supervisor.reports(event) == (!supervisor.error_reported
                && after.failures >= 3)
        }),
{
}

/// A backend that cannot be waited for is counted like one that crashed, and one
/// that cannot be started like one that crashed at once.
pub proof fn law_failures_count_alike(
    supervisor: Supervisor,
    status: String,
    cause: String,
    detail: String,
    uptime: u64,
)
    ensures
        ({
            let crashed = SupervisorEvent::Stopped {
                quitting: false,
                report: ExitReport::Exited { code: None, status },
                uptime,
            };
            let lost = SupervisorEvent::Stopped {
                quitting: false,
                report: ExitReport::WaitFailed { cause },
                uptime,
            };
            let unstarted = SupervisorEvent::SpawnFailed { detail };
            &&& supervisor.after(lost) == supervisor.after(crashed)
            &&& supervisor.reports(lost) == supervisor.reports(crashed)
            &&& uptime < 30 ==> supervisor.after(unstarted) == supervisor.after(crashed)
            &&& uptime < 30 ==> supervisor.reports(unstarted) == supervisor.reports(crashed)
        }),
{
}

/// The user is told of the third failure in a row, not of the two before it and
/// not of those after it.
pub proof fn law_third_failure_is_reported(first: String, second: String, third: String, fourth: String)
    ensures
        ({
            let fresh = Supervisor { failures: 0, error_reported: false };
            let once = fresh.after(SupervisorEvent::SpawnFailed { detail: first });
            let twice = once.after(SupervisorEvent::SpawnFailed { detail: second });
            let thrice = twice.after(SupervisorEvent::SpawnFailed { detail: third });
            &&& !fresh.reports(SupervisorEvent::SpawnFailed { detail: first })
            &&& !once.reports(SupervisorEvent::SpawnFailed { detail: second })
            &&& twice.reports(SupervisorEvent::SpawnFailed { detail: third })
            &&& !thrice.reports(SupervisorEvent::SpawnFailed { detail: fourth })
            &&& thrice.failures == 3
        }),
{
}

/// A start, and a backend that ends while the host quits, change nothing and are
/// not reported; an exit with the code for a restart clears the streak, and no
/// other exit does so at once.
pub proof fn law_planned_events_are_no_failures(
    supervisor: Supervisor,
    quitting: bool,
    report: ExitReport,
    status: String,
    code: Option<i32>,
    uptime: u64,
)
    ensures
        supervisor.after(SupervisorEvent::Starting { quitting }) == supervisor,
        !supervisor.reports(SupervisorEvent::Starting { quitting }),
        supervisor.after(SupervisorEvent::Stopped { quitting: true, report, uptime }) == supervisor,
        !supervisor.reports(SupervisorEvent::Stopped { quitting: true, report, uptime }),
        (supervisor.after(
            SupervisorEvent::Stopped {
                quitting: false,
                report: ExitReport::Exited { code, status },
                uptime,
            },
        ).failures == 0) == (code == Some(75i32)),
        code == Some(75i32) ==> !supervisor.after(
            SupervisorEvent::Stopped {
                quitting: false,
                report: ExitReport::Exited { code, status },
                uptime,
            },
        ).error_reported,
        requests_restart(ExitReport::Exited { code, status }) == (code == Some(75i32)),
{
}

/// The delay after a number of failures: it starts at two seconds, doubles with
/// each further failure up to sixteen, and is half a minute from then on.
pub proof fn law_restart_delays(failures: u32)
    ensures
        delay_after(0) == 1,
        failures < 4 ==> delay_after((failures + 1) as u32) == 2 * delay_after(failures),
        failures >= 5 ==> delay_after(failures) == 30,
{
    lemma_small_powers();
}

/// The report of an end says whether the backend exited or was lost, and ends with
/// what the operating system said of it.
pub proof fn law_exit_details_hold_the_cause(code: Option<i32>, status: String, cause: String)
    ensures
        exit_detail(ExitReport::Exited { code, status }) == "backend exited unexpectedly with "@
            + status@,
        exit_detail(ExitReport::WaitFailed { cause }) == "failed to wait for backend process: "@
            + cause@,
{
}

/// One more failure makes the streak longer by one; behind thirty seconds of
/// uptime or more it is the first of a new one.
pub proof fn law_streaks_are_counted(current: u32, seconds: u64)
    ensures
        seconds >= 30 ==> streak_after(current, Some(seconds)) == 1,
        seconds < 30 && current < u32::MAX ==> streak_after(current, Some(seconds)) == current + 1,
        seconds < 30 && current == u32::MAX ==> streak_after(current, Some(seconds)) == u32::MAX,
        current < u32::MAX ==> streak_after(current, None) == current + 1,
        current == u32::MAX ==> streak_after(current, None) == u32::MAX,
{
}

// ---------------------------------------------------------------------------
// What a step does
// ---------------------------------------------------------------------------

/// A start goes ahead unless the host quits; an end while the host quits is the
/// last thing that is supervised. Neither changes what is remembered. The exit code
/// for a restart starts the backend again at once and clears the streak.
pub proof fn law_planned_steps(
    event: SupervisorEvent,
    recent: &Vec<String>,
    log_path: Option<&str>,
    action: SupervisorAction,
)
    ensures
        forall|supervisor: &mut Supervisor| #[trigger]
            call_ensures(Supervisor::step, (supervisor, event, recent, log_path), action) ==> {
                &&& event matches SupervisorEvent::Starting { quitting } ==> *final(supervisor)
                    == *supervisor && (if quitting {
                    action is Quit
                } else {
                    action is Start
                })
                &&& event matches SupervisorEvent::Stopped { quitting, .. } ==> (quitting
                    ==> *final(supervisor) == *supervisor && action is Quit)
                &&& event matches SupervisorEvent::Stopped { quitting, report, .. } ==> (!quitting
                    ==> (report matches ExitReport::Exited { code, .. } ==> (code == Some(75i32)
                    ==> final(supervisor).failures == 0 && !final(supervisor).error_reported
                    && action is RestartNow)))
            },
{
}

/// An end that nobody asked for: thirty seconds of uptime or more make it the first
/// failure of a new streak, of which nobody is told; fewer make the streak longer by
/// one, and the user is told where it is three long or more and they were not told
/// before. The backend is started again after two seconds, twice as long after each
/// further failure, and never later than half a minute.
pub proof fn law_unplanned_ends(
    report: ExitReport,
    uptime: u64,
    recent: &Vec<String>,
    log_path: Option<&str>,
    action: SupervisorAction,
)
    requires
        report matches ExitReport::Exited { code, .. } ==> code != Some(75i32),
    ensures
        forall|supervisor: &mut Supervisor| #[trigger]
            call_ensures(
                Supervisor::step,
                (
                    supervisor,
                    SupervisorEvent::Stopped { quitting: false, report, uptime },
                    recent,
                    log_path,
                ),
                action,
            ) ==> {
                let failures = final(supervisor).failures;
                &&& uptime >= 30 ==> failures == 1 && !final(supervisor).error_reported
                &&& uptime < 30 && supervisor.failures < u32::MAX ==> failures
                    == supervisor.failures + 1
                &&& uptime < 30 && supervisor.failures == u32::MAX ==> failures == u32::MAX
                &&& uptime < 30 ==> final(supervisor).error_reported == (supervisor.error_reported
                    || failures >= 3)
                &&& action matches SupervisorAction::RestartAfter {
                    reset_sessions,
                    log,
                    dialog,
                    seconds,
                }
                &&& reset_sessions
                &&& log@ == "[harness] "@ + exit_detail(report) + " ("@ + decimal(failures as nat)
                    + "); restarting"@
                &&& (dialog is Some) == (uptime < 30 && failures >= 3 && !supervisor.error_reported)
                &&& dialog matches Some(told) ==> told@ == failure_message(
                    exit_detail(report),
                    views(recent@),
                    opt_str(log_path),
                )
                &&& failures == 1 ==> seconds == 2
                &&& failures == 2 ==> seconds == 4
                &&& failures == 3 ==> seconds == 8
                &&& failures == 4 ==> seconds == 16
                &&& failures >= 5 ==> seconds == 30
            },
{
    lemma_small_powers();
}

/// A backend that cannot be started makes the streak longer by one, and the user is
/// told why under the same rule; its sessions are not reset.
pub proof fn law_failed_starts(
    detail: String,
    recent: &Vec<String>,
    log_path: Option<&str>,
    action: SupervisorAction,
)
    ensures
        forall|supervisor: &mut Supervisor| #[trigger]
            call_ensures(
                Supervisor::step,
                (supervisor, SupervisorEvent::SpawnFailed { detail }, recent, log_path),
                action,
            ) ==> {
                let failures = final(supervisor).failures;
                &&& supervisor.failures < u32::MAX ==> failures == supervisor.failures + 1
                &&& supervisor.failures == u32::MAX ==> failures == u32::MAX
                &&& final(supervisor).error_reported == (supervisor.error_reported || failures >= 3)
                &&& action matches SupervisorAction::RestartAfter {
                    reset_sessions,
                    log,
                    dialog,
                    seconds,
                }
                &&& !reset_sessions
                &&& log@ == "[harness] backend spawn failed ("@ + decimal(failures as nat) + "): "@
                    + detail@
                &&& (dialog is Some) == (failures >= 3 && !supervisor.error_reported)
                &&& dialog matches Some(told) ==> told@ == detail@
                &&& failures == 1 ==> seconds == 2
                &&& failures == 2 ==> seconds == 4
                &&& failures == 3 ==> seconds == 8
                &&& failures == 4 ==> seconds == 16
                &&& failures >= 5 ==> seconds == 30
            },
{
    lemma_small_powers();
}

/// Only the exit code seventy-five asks for a restart, and the streak that is counted
/// starts anew behind thirty seconds of uptime or more.
pub proof fn law_restart_codes(
    code: Option<i32>,
    managed: bool,
    current: u32,
    uptime: Option<u64>,
    failures: u32,
)
    ensures
        call_ensures(is_managed_restart_code, (code,), managed) ==> managed == (code == Some(75i32)),
        call_ensures(next_failure_count, (current, uptime), failures) ==> {
            &&& uptime matches Some(seconds) ==> (seconds >= 30 ==> failures == 1)
            &&& (uptime is None || uptime->0 < 30) && current < u32::MAX ==> failures == current + 1
        },
{
}

} // verus!
