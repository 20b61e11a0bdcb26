use openharness::locale::NativeLocale;
use openharness::preferences::{
    reset_sessions, sync_dsh_preferences, sync_dsh_sessions, ThemePreference,
};
use openharness::sessions::{
    clean_menu_text, select_sessions, session_menu_label, truncate_menu_text, validate_snapshot,
    SessionMenuEntry, SessionMenuSnapshot, HISTORY_SESSION_LIMIT, SESSION_MENU_LABEL_LIMIT,
    TOP_SESSION_LIMIT,
};
use openharness::ui::{
    app_menu_label, app_menu_layout, build_tray_menu, harness_action_script, is_app_update,
    tray_action, update_menu_label, AppMenuEntry, MenuLine, NativeUi, TrayAction, UpdateMenuStatus,
};
use openharness::update::AppUpdateState;

fn menu_session(
    id: &str,
    updated_at: u64,
    pending_interaction: Option<&str>,
    running: bool,
    completed: bool,
) -> SessionMenuEntry {
    SessionMenuEntry {
        id: id.to_string(),
        title: id.to_string(),
        workspace: None,
        updated_at,
        running,
        completed,
        pending_interaction: pending_interaction.map(str::to_string),
    }
}

#[test]
fn status_bar_orders_the_five_task_categories() {
    let sessions = vec![
        menu_session("idle", 500, None, false, false),
        menu_session("completed", 400, None, false, true),
        menu_session("running", 300, None, true, false),
        menu_session("question", 200, Some("question"), false, false),
        menu_session("plan-review", 250, Some("plan-review"), false, false),
        menu_session("approval", 100, Some("approval"), false, false),
    ];

    let (top, _) = select_sessions(&sessions);
    let ids = top
        .iter()
        .map(|session| session.id.as_str())
        .collect::<Vec<_>>();

    assert_eq!(
        ids,
        [
            "approval",
            "plan-review",
            "question",
            "running",
            "completed"
        ]
    );
}

#[test]
fn status_bar_limits_top_and_history_lists() {
    let sessions = (0..30)
        .map(|index| menu_session(&format!("session-{index}"), index, None, false, false))
        .collect::<Vec<_>>();

    let (top, history) = select_sessions(&sessions);

    assert_eq!(top.len(), TOP_SESSION_LIMIT);
    assert_eq!(history.len(), HISTORY_SESSION_LIMIT);
    assert_eq!(top[0].id, "session-29");
    assert_eq!(top[4].id, "session-25");
    assert_eq!(history[0].id, "session-24");
    assert_eq!(history[19].id, "session-5");
}

#[test]
fn idle_session_label_has_no_false_completion_state() {
    let idle = menu_session("Resumable", 1, None, false, false);
    let completed = menu_session("Finished", 2, None, false, true);

    assert_eq!(session_menu_label(NativeLocale::Zh, &idle), "Resumable");
    assert!(session_menu_label(NativeLocale::Zh, &completed).starts_with("[完成待查看] "));
}

#[test]
fn session_menu_label_normalizes_controls_and_caps_length() {
    let mut session = menu_session("session", 1, None, false, false);
    session.title = format!("Long\0\n  title {}", "x".repeat(120));

    let label = session_menu_label(NativeLocale::En, &session);

    assert!(label.starts_with("Long title "));
    assert!(label.ends_with("..."));
    assert!(label.chars().count() <= SESSION_MENU_LABEL_LIMIT);
    assert!(!label.chars().any(char::is_control));
}

#[test]
fn session_snapshot_rejects_duplicate_or_unknown_state() {
    let duplicate = menu_session("same", 1, None, false, false);
    let snapshot = SessionMenuSnapshot {
        revision: 1,
        ready: true,
        sessions: vec![duplicate.clone(), duplicate],
    };
    assert!(validate_snapshot(&snapshot).is_err());

    let snapshot = SessionMenuSnapshot {
        revision: 1,
        ready: true,
        sessions: vec![menu_session("bad", 1, Some("unknown"), false, false)],
    };
    assert!(validate_snapshot(&snapshot).is_err());
}

#[test]
fn localizes_native_update_menu_status() {
    assert_eq!(
        update_menu_label(NativeLocale::Zh, UpdateMenuStatus::Idle),
        "检查更新..."
    );
    assert_eq!(
        update_menu_label(NativeLocale::En, UpdateMenuStatus::Downloading(Some(42))),
        "Downloading Update... 42%"
    );
}

fn snapshot(sessions: Vec<SessionMenuEntry>) -> SessionMenuSnapshot {
    SessionMenuSnapshot {
        revision: 3,
        ready: true,
        sessions,
    }
}

fn lines(lines: &[MenuLine]) -> Vec<String> {
    lines
        .iter()
        .map(|line| match line {
            MenuLine::Item { id, label, enabled } => format!("{id}|{label}|{enabled}"),
            MenuLine::Separator => "-".to_string(),
        })
        .collect()
}

#[test]
fn equally_urgent_sessions_keep_their_order_and_the_rest_is_by_recency() {
    let mut sessions: Vec<SessionMenuEntry> = (0..5)
        .map(|index| menu_session(&format!("a{index}"), 7, Some("approval"), false, false))
        .collect();
    sessions.insert(2, menu_session("old-running", 1, None, true, false));
    sessions.insert(0, menu_session("new-idle", 9, None, false, false));

    let (top, history) = select_sessions(&sessions);

    let ids: Vec<&str> = top.iter().map(|session| session.id.as_str()).collect();
    assert_eq!(ids, ["a0", "a1", "a2", "a3", "a4"]);
    let ids: Vec<&str> = history.iter().map(|session| session.id.as_str()).collect();
    assert_eq!(ids, ["new-idle", "old-running"]);
}

#[test]
fn valid_snapshots_pass_and_complaints_are_exact() {
    assert!(validate_snapshot(&snapshot(vec![
        menu_session("a", 1, Some("approval"), false, false),
        menu_session("b", 1, Some("question"), false, false),
        menu_session("c", 1, Some("plan-review"), false, false),
        menu_session("d", 1, None, false, false),
    ]))
    .is_ok());
    assert_eq!(
        validate_snapshot(&snapshot(vec![
            menu_session("a", 1, None, false, false),
            menu_session("b", 1, Some("unknown"), false, false),
            menu_session("a", 1, None, false, false),
        ])),
        Err("unknown DSH session interaction".to_string())
    );
    assert_eq!(
        validate_snapshot(&snapshot(vec![
            menu_session("a", 1, None, false, false),
            menu_session("a", 1, Some("unknown"), false, false),
        ])),
        Err("duplicate DSH session id".to_string())
    );
}

#[test]
fn labels_name_the_state_the_title_and_the_workspace() {
    let mut session = menu_session("id", 1, Some("question"), true, true);
    session.title = " Fix\tthe  bug ".to_string();
    session.workspace = Some("repo".to_string());
    assert_eq!(
        session_menu_label(NativeLocale::En, &session),
        "[Waiting for You] Fix the bug - repo"
    );

    session.pending_interaction = None;
    session.workspace = Some("Fix the\nbug".to_string());
    assert_eq!(
        session_menu_label(NativeLocale::Zh, &session),
        "[进行中] Fix the bug"
    );

    session.running = false;
    session.title = "\u{7}".to_string();
    session.workspace = Some(" ".to_string());
    assert_eq!(
        session_menu_label(NativeLocale::En, &session),
        "[Ready to Review] Untitled Session"
    );

    session.pending_interaction = Some("approval".to_string());
    assert_eq!(
        session_menu_label(NativeLocale::Zh, &session),
        "[需批准] 未命名会话"
    );
}

#[test]
fn menu_texts_are_cleaned_and_cut() {
    assert_eq!(clean_menu_text("\u{85} a\u{0}b \u{3000}c\r\n"), "a b c");
    let fits = "y".repeat(96);
    assert_eq!(truncate_menu_text(fits.clone()), fits);
    assert_eq!(
        truncate_menu_text("y".repeat(97)),
        format!("{}...", "y".repeat(93))
    );
}

#[test]
fn the_tray_menu_follows_the_snapshot() {
    let menu = build_tray_menu(
        NativeLocale::En,
        &SessionMenuSnapshot::default(),
        UpdateMenuStatus::Idle,
        true,
    );
    assert_eq!(
        lines(&menu.sessions),
        ["sessions-loading|Connecting to Harness...|false"]
    );
    assert_eq!(menu.more_label, "More Sessions");
    assert_eq!(
        lines(&menu.more),
        [
            "history-empty|No More Sessions|false",
            "-",
            "show-all|View All in Harness...|true"
        ]
    );
    assert_eq!(
        lines(&menu.footer),
        [
            "-",
            "show|Open Harness|true",
            "new-session|New Session|false",
            "-",
            "update|Check for Updates...|true",
            "quit|Quit OpenHarness|true"
        ]
    );

    let menu = build_tray_menu(
        NativeLocale::Zh,
        &snapshot(Vec::new()),
        UpdateMenuStatus::Checking,
        false,
    );
    assert_eq!(lines(&menu.sessions), ["sessions-empty|暂无会话|false"]);
    assert_eq!(
        lines(&menu.footer)[2..5],
        [
            "new-session|新建会话|true",
            "-",
            "update|正在检查更新...|false"
        ]
    );

    let sessions = (0..7)
        .map(|index| menu_session(&format!("s{index}"), index, None, index == 3, false))
        .collect();
    let menu = build_tray_menu(
        NativeLocale::En,
        &snapshot(sessions),
        UpdateMenuStatus::Idle,
        true,
    );
    assert_eq!(
        lines(&menu.sessions),
        [
            "session:s3|[Running] s3|true",
            "session:s6|s6|true",
            "session:s5|s5|true",
            "session:s4|s4|true",
            "session:s2|s2|true"
        ]
    );
    assert_eq!(
        lines(&menu.more)[..2],
        ["session:s1|s1|true", "session:s0|s0|true"]
    );
}

#[test]
fn every_enabled_tray_item_does_something() {
    let menu = build_tray_menu(
        NativeLocale::En,
        &snapshot(vec![menu_session("update", 1, None, false, false)]),
        UpdateMenuStatus::Idle,
        true,
    );
    for line in menu.sessions.iter().chain(&menu.more).chain(&menu.footer) {
        if let MenuLine::Item { id, enabled, .. } = line {
            assert_eq!(!matches!(tray_action(id), TrayAction::Nothing), *enabled);
        }
    }
}

#[test]
fn tray_items_act() {
    let TrayAction::OpenSession(id) = tray_action("session:session:7") else {
        panic!("a session is opened");
    };
    assert_eq!(id, "session:7");
    assert!(matches!(tray_action("show"), TrayAction::ShowWindow));
    assert!(matches!(tray_action("show-all"), TrayAction::ShowWindow));
    assert!(matches!(tray_action("new-session"), TrayAction::NewSession));
    assert!(matches!(tray_action("update"), TrayAction::CheckForUpdates));
    assert!(matches!(tray_action("quit"), TrayAction::Quit));
    assert!(matches!(tray_action("sessions-empty"), TrayAction::Nothing));
    assert!(is_app_update("app-update"));
    assert!(!is_app_update("update"));
}

#[test]
fn the_application_menu_is_localized() {
    let labels: Vec<String> = app_menu_layout()
        .into_iter()
        .filter(|entry| *entry != AppMenuEntry::Separator)
        .map(|entry| app_menu_label(NativeLocale::En, UpdateMenuStatus::Restarting, entry))
        .collect();
    assert_eq!(
        labels,
        [
            "About OpenHarness",
            "Restarting...",
            "Services",
            "Hide OpenHarness",
            "Hide Others",
            "Quit OpenHarness"
        ]
    );
    assert_eq!(app_menu_layout().len(), 10);
    assert_eq!(
        app_menu_label(
            NativeLocale::Zh,
            UpdateMenuStatus::Idle,
            AppMenuEntry::HideOthers
        ),
        "隐藏其他"
    );
}

#[test]
fn actions_are_handed_over_as_json() {
    assert_eq!(
        harness_action_script("new-session", None),
        "window.dispatchEvent(new CustomEvent(\"openharness:native-action\", { detail: {\"type\":\"new-session\"} }));"
    );
    let script = harness_action_script("open-session", Some("a\"b\u{1}</script>"));
    let start = script.find("{ detail: ").unwrap() + "{ detail: ".len();
    let detail = script[start..].strip_suffix(" }));").unwrap();
    let value: serde_json::Value = serde_json::from_str(detail).unwrap();
    assert_eq!(value["type"], "open-session");
    assert_eq!(value["sessionId"], "a\"b\u{1}</script>");
}

fn state() -> Option<AppUpdateState> {
    Some(AppUpdateState::new(NativeUi::new(NativeLocale::Zh)))
}

#[test]
fn preferences_bring_one_automatic_check() {
    let mut state = state();

    let applied = sync_dsh_preferences(&mut state, "dark", "en").unwrap();
    assert_eq!(applied.theme, ThemePreference::Dark);
    assert!(applied.check_for_updates);
    assert_eq!(applied.rendering.update_label, "Check for Updates...");
    assert!(applied.rendering.update_enabled);
    assert_eq!(applied.rendering.tray.more_label, "More Sessions");

    let applied = sync_dsh_preferences(&mut state, "system", "zh").unwrap();
    assert_eq!(applied.theme, ThemePreference::System);
    assert!(!applied.check_for_updates);
    assert_eq!(applied.rendering.update_label, "检查更新...");
}

#[test]
fn unsupported_preferences_change_nothing() {
    let mut state = state();
    let complaint = |result: Result<_, String>| -> Option<String> {
        let result: Result<openharness::preferences::PreferencesApplied, String> = result;
        result.err()
    };
    assert_eq!(
        complaint(sync_dsh_preferences(&mut state, "sepia", "fr")),
        Some("unsupported DSH theme preference".to_string())
    );
    assert_eq!(
        complaint(sync_dsh_preferences(&mut state, "light", "fr")),
        Some("unsupported DSH locale preference".to_string())
    );
    assert!(!state.unwrap().automatic_check_started);
    assert_eq!(
        complaint(sync_dsh_preferences(&mut None, "light", "en")),
        Some("native UI state is not ready".to_string())
    );
}

#[test]
fn sessions_come_from_the_main_window_and_are_checked() {
    let mut state = state();
    let sessions = || vec![menu_session("one", 1, None, true, false)];

    let refused = sync_dsh_sessions(&mut state, "other", snapshot(sessions()));
    assert_eq!(
        refused.err(),
        Some("session snapshots are accepted only from the main window".to_string())
    );
    let refused = sync_dsh_sessions(
        &mut state,
        "main",
        SessionMenuSnapshot {
            revision: 0,
            ready: true,
            sessions: sessions(),
        },
    );
    assert_eq!(
        refused.err(),
        Some("invalid DSH session snapshot revision".to_string())
    );
    let mut doubled = sessions();
    doubled.extend(sessions());
    let refused = sync_dsh_sessions(&mut state, "main", snapshot(doubled));
    assert_eq!(refused.err(), Some("duplicate DSH session id".to_string()));
    let refused = sync_dsh_sessions(&mut None, "main", snapshot(sessions()));
    assert_eq!(
        refused.err(),
        Some("native UI state is not ready".to_string())
    );

    let menu = sync_dsh_sessions(&mut state, "main", snapshot(sessions())).unwrap();
    assert_eq!(lines(&menu.sessions), ["session:one|[进行中] one|true"]);

    let mut state = state.unwrap();
    let menu = reset_sessions(&mut state);
    assert_eq!(
        lines(&menu.sessions),
        ["sessions-loading|正在连接 Harness...|false"]
    );
    assert!(!state.ui.snapshot.ready);
}
