use openharness::failure::{
    backend_error_text, backend_failure_message, truncate_for_dialog, ERROR_DIALOG_LINE_LIMIT,
};
use openharness::locale::{preferred_native_locale, NativeLocale};
use openharness::supervisor::{
    is_managed_restart_code, next_failure_count, restart_delay, ExitReport, Supervisor,
    SupervisorAction, SupervisorEvent, MANAGED_RESTART_EXIT_CODE, STABLE_BACKEND_UPTIME,
};

#[test]
fn recognizes_only_the_managed_restart_exit_code() {
    assert!(is_managed_restart_code(Some(MANAGED_RESTART_EXIT_CODE)));
    assert!(!is_managed_restart_code(Some(0)));
    assert!(!is_managed_restart_code(None));
}

#[test]
fn failure_streak_resets_only_after_stable_uptime() {
    assert_eq!(next_failure_count(2, None), 3);
    assert_eq!(next_failure_count(2, Some(29)), 3);
    assert_eq!(next_failure_count(2, Some(STABLE_BACKEND_UPTIME)), 1);
    assert_eq!(next_failure_count(u32::MAX, None), u32::MAX);
}

#[test]
fn restart_delay_is_exponential_and_capped() {
    assert_eq!(restart_delay(1), 2);
    assert_eq!(restart_delay(3), 8);
    assert_eq!(restart_delay(6), 30);
    assert_eq!(restart_delay(u32::MAX), 30);
}

#[test]
fn parses_only_supported_dsh_locales() {
    assert!(matches!(NativeLocale::parse("zh"), Some(NativeLocale::Zh)));
    assert!(matches!(NativeLocale::parse("en"), Some(NativeLocale::En)));
    assert!(NativeLocale::parse("zh-CN").is_none());
    assert!(NativeLocale::parse("fr").is_none());
}

#[test]
fn failure_message_carries_output_tail_and_log_location() {
    let recent = vec![
        "first".to_owned(),
        "second".to_owned(),
        "third".to_owned(),
    ];

    let message = backend_failure_message(
        "dsh web exited before reporting its URL",
        &recent,
        Some("/tmp/backend.log"),
    );

    assert!(message.starts_with("dsh web exited before reporting its URL"));
    assert!(message.contains("second"));
    assert!(message.contains("third"));
    assert!(message.contains("/tmp/backend.log"));
}

#[test]
fn failure_message_truncates_very_long_output_lines() {
    let recent = vec!["x".repeat(ERROR_DIALOG_LINE_LIMIT + 50)];

    let message = backend_failure_message("failed", &recent, None);

    assert!(message.ends_with('…'));
    assert!(message.chars().count() < ERROR_DIALOG_LINE_LIMIT + 64);
}

#[test]
fn failure_message_shows_only_the_last_lines() {
    let recent: Vec<String> = (0..8).map(|index| format!("line {index}")).collect();

    assert_eq!(
        backend_failure_message("failed", &recent, Some("/log")),
        "failed\n\nline 2\nline 3\nline 4\nline 5\nline 6\nline 7\n\nLog: /log"
    );
    assert_eq!(backend_failure_message("failed", &Vec::new(), None), "failed");
    assert_eq!(truncate_for_dialog("short"), "short");
}

#[test]
fn failures_are_announced_in_the_language_of_the_user() {
    assert_eq!(
        backend_error_text(NativeLocale::En, "gone"),
        "The OpenHarness backend failed: gone"
    );
    assert_eq!(
        backend_error_text(NativeLocale::Zh, "gone"),
        "OpenHarness 后端运行失败：gone"
    );
    assert_eq!(preferred_native_locale(Some(1)), NativeLocale::En);
    assert_eq!(preferred_native_locale(Some(0)), NativeLocale::Zh);
    assert_eq!(preferred_native_locale(None), NativeLocale::Zh);
}

fn crash(uptime: u64) -> SupervisorEvent {
    SupervisorEvent::Stopped {
        quitting: false,
        report: ExitReport::Exited {
            code: Some(1),
            status: "exit status: 1".to_string(),
        },
        uptime,
    }
}

#[test]
fn restart_delays_start_at_one_second() {
    assert_eq!(restart_delay(0), 1);
    assert_eq!(restart_delay(4), 16);
    assert_eq!(restart_delay(5), 30);
}

#[test]
fn the_user_is_told_once_per_streak() {
    let mut supervisor = Supervisor::new();
    let recent = vec!["boom".to_string()];
    let mut dialogs = Vec::new();
    for _ in 0..5 {
        let SupervisorAction::RestartAfter { dialog, .. } =
            supervisor.step(crash(1), &recent, Some("/log"))
        else {
            panic!("the backend is restarted");
        };
        dialogs.push(dialog);
    }

    assert_eq!(supervisor.failures, 5);
    assert_eq!(
        dialogs,
        vec![
            None,
            None,
            Some(
                "backend exited unexpectedly with exit status: 1\n\nboom\n\nLog: /log".to_string()
            ),
            None,
            None
        ]
    );
}

#[test]
fn a_stable_run_starts_a_new_streak() {
    let mut supervisor = Supervisor {
        failures: 4,
        error_reported: true,
    };

    let SupervisorAction::RestartAfter {
        reset_sessions,
        log,
        dialog,
        seconds,
    } = supervisor.step(crash(30), &Vec::new(), None)
    else {
        panic!("the backend is restarted");
    };

    assert!(reset_sessions);
    assert_eq!(
        log,
        "[harness] backend exited unexpectedly with exit status: 1 (1); restarting"
    );
    assert_eq!(dialog, None);
    assert_eq!(seconds, 2);
    assert!(!supervisor.error_reported);
}

#[test]
fn failed_starts_and_waits_are_reported() {
    let mut supervisor = Supervisor {
        failures: 2,
        error_reported: false,
    };
    let event = SupervisorEvent::SpawnFailed {
        detail: "no node".to_string(),
    };
    let SupervisorAction::RestartAfter {
        reset_sessions,
        log,
        dialog,
        seconds,
    } = supervisor.step(event, &vec!["unused".to_string()], Some("/log"))
    else {
        panic!("the backend is restarted");
    };
    assert!(!reset_sessions);
    assert_eq!(log, "[harness] backend spawn failed (3): no node");
    assert_eq!(dialog, Some("no node".to_string()));
    assert_eq!(seconds, 8);

    let event = SupervisorEvent::Stopped {
        quitting: false,
        report: ExitReport::WaitFailed {
            cause: "gone".to_string(),
        },
        uptime: 3,
    };
    let SupervisorAction::RestartAfter { log, dialog, .. } =
        supervisor.step(event, &Vec::new(), None)
    else {
        panic!("the backend is restarted");
    };
    assert_eq!(
        log,
        "[harness] failed to wait for backend process: gone (4); restarting"
    );
    assert_eq!(dialog, None);
}

#[test]
fn planned_ends_are_no_failures() {
    let mut supervisor = Supervisor {
        failures: 2,
        error_reported: false,
    };
    let quit = SupervisorEvent::Stopped {
        quitting: true,
        report: ExitReport::Exited {
            code: Some(MANAGED_RESTART_EXIT_CODE),
            status: String::new(),
        },
        uptime: 1,
    };
    assert!(matches!(
        supervisor.step(quit, &Vec::new(), None),
        SupervisorAction::Quit
    ));
    assert_eq!(supervisor.failures, 2);

    let restart = SupervisorEvent::Stopped {
        quitting: false,
        report: ExitReport::Exited {
            code: Some(MANAGED_RESTART_EXIT_CODE),
            status: String::new(),
        },
        uptime: 1,
    };
    assert!(matches!(
        supervisor.step(restart, &Vec::new(), None),
        SupervisorAction::RestartNow
    ));
    assert_eq!(supervisor, Supervisor::new());
}

#[test]
fn nothing_is_started_once_the_host_quits() {
    let mut supervisor = Supervisor::new();
    let mut start = |quitting| {
        supervisor.step(SupervisorEvent::Starting { quitting }, &Vec::new(), None)
    };
    assert!(matches!(start(false), SupervisorAction::Start));
    assert!(matches!(start(true), SupervisorAction::Quit));

    // A quit during the delay after a failed start ends the supervision too.
    let failed = SupervisorEvent::SpawnFailed {
        detail: "no node".to_string(),
    };
    assert!(matches!(
        supervisor.step(failed, &Vec::new(), None),
        SupervisorAction::RestartAfter { seconds: 2, .. }
    ));
    assert!(matches!(
        supervisor.step(
            SupervisorEvent::Starting { quitting: true },
            &Vec::new(),
            None
        ),
        SupervisorAction::Quit
    ));
    assert_eq!(supervisor.failures, 1);
}
