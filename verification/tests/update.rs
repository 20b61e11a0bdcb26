use std::cmp::Ordering;

use openharness::locale::NativeLocale;
use openharness::ui::{NativeUi, UpdateMenuStatus};
use openharness::update::{
    after_answer, after_build_number, after_check, after_comparison, after_install, native_locale,
    download_percent, update_prompt, AnswerStep, AppUpdateState, BuildStep, CheckOutcome,
    CheckStart, CheckStep, DownloadProgress, InstallStep, Installed, Notice, NoticeKind, Release,
    UpdateAction, UpdateCheckSource, UpdateEvent, UpdateFlow, UpdatePhase, UPDATE_NOTES_LIMIT,
};
use openharness::version::{
    bundled_build_number, compare_build_numbers, compare_core_versions, installed_build_number,
    is_parsed_update_newer, is_release_candidate, is_remote_update_newer, manifest_build_number,
    parse_build_number, up_to_date_message, validated_build_number, version_label, BundleVersion,
    CoreVersion,
};
use semver::Version;

fn core_version(version: &str) -> CoreVersion {
    let version = Version::parse(version).unwrap();
    CoreVersion {
        major: version.major,
        minor: version.minor,
        patch: version.patch,
    }
}

#[test]
fn update_prompt_includes_versions_and_truncates_long_notes() {
    let notes = "a".repeat(UPDATE_NOTES_LIMIT + 1);
    let prompt = update_prompt(
        NativeLocale::Zh,
        "0.1.0，构建 41",
        "0.1.0，构建 42",
        Some(&notes),
    );

    assert!(prompt.contains("构建 41"));
    assert!(prompt.contains("构建 42"));
    assert!(prompt.contains("\n...\n"));
    assert!(!prompt.contains(&notes));
}

#[test]
fn download_percent_handles_unknown_empty_and_overrun_sizes() {
    assert_eq!(download_percent(50, Some(100)), Some(50));
    assert_eq!(download_percent(120, Some(100)), Some(100));
    assert_eq!(download_percent(50, Some(0)), None);
    assert_eq!(download_percent(50, None), None);
}

#[test]
fn update_versions_compare_version_before_build_number() {
    let current_version = core_version("0.1.0");

    assert!(is_remote_update_newer(&current_version, "41", "0.1.0-beta.2", "42").unwrap());
    assert!(is_remote_update_newer(&current_version, "42", "0.1.0-alpha.9", "43").unwrap());
    assert!(!is_remote_update_newer(&current_version, "42", "0.1.0-beta.3", "42").unwrap());
    assert!(is_remote_update_newer(&current_version, "99", "0.1.1-beta.0", "1").unwrap());
    assert!(!is_remote_update_newer(&current_version, "1", "0.0.9-beta.99", "999").unwrap());
    assert_eq!(
        compare_core_versions(&core_version("0.1.0-alpha.1"), &core_version("0.1.0-beta.99")),
        Ordering::Equal
    );
    assert_eq!(
        compare_build_numbers("1.10", "1.2").unwrap(),
        Ordering::Greater
    );
    assert_eq!(compare_build_numbers("1", "1.0").unwrap(), Ordering::Equal);
}

#[test]
fn requires_a_positive_bundle_build_number() {
    assert_eq!(validated_build_number(Some("7")).unwrap(), "7");
    assert_eq!(validated_build_number(Some(" 7 ")).unwrap(), "7");
    assert!(validated_build_number(None).is_err());
    assert!(validated_build_number(Some("0")).is_err());
    assert!(validated_build_number(Some("01")).is_err());
    assert!(validated_build_number(Some("1.2.3.4")).is_err());
}

#[test]
fn build_numbers_are_read_back() {
    assert_eq!(parse_build_number("18446744073709551615.0.7"), Ok(vec![u64::MAX, 0, 7]));
    for bad in ["", ".", "1.", "1..2", "+1", "1a", "٣", "1.02"] {
        assert_eq!(
            parse_build_number(bad),
            Err(format!("invalid build number {bad}"))
        );
    }
    let too_large = parse_build_number("1.18446744073709551616").unwrap_err();
    assert!(too_large.starts_with("invalid build number 1.18446744073709551616: "));
    assert_eq!(
        parse_build_number("18446744073709551616.x").unwrap_err(),
        "invalid build number 18446744073709551616.x: number too large to fit in target type"
    );
}

#[test]
fn build_number_complaints_are_exact() {
    assert_eq!(
        validated_build_number(Some(" \n")),
        Err("application bundle is missing a build number".to_string())
    );
    assert_eq!(
        validated_build_number(Some("0.0")),
        Err("application build number must be positive".to_string())
    );
    assert_eq!(validated_build_number(Some("0.1")), Ok("0.1".to_string()));
    assert_eq!(
        compare_build_numbers("x", "y"),
        Err("invalid build number x".to_string())
    );
    assert_eq!(
        compare_build_numbers("1", "y"),
        Err("invalid build number y".to_string())
    );
    assert_eq!(compare_build_numbers("1.2", "1.10.1"), Ok(Ordering::Less));
}

#[test]
fn newer_is_a_strict_order() {
    let releases = [("0.1.0", "9"), ("0.1.0", "10"), ("0.1.0", "10.1"), ("0.2.0", "1"), ("1.0.0", "1")];
    for (i, (version, build)) in releases.iter().enumerate() {
        for (j, (other, other_build)) in releases.iter().enumerate() {
            assert_eq!(
                is_remote_update_newer(&core_version(version), build, other, other_build),
                Ok(j > i)
            );
        }
    }
}

#[test]
fn invalid_versions_are_reported_before_invalid_builds() {
    let current = core_version("1.0.0");
    let error = is_remote_update_newer(&current, "x", "1.0", "y").unwrap_err();
    assert!(error.starts_with("invalid update version 1.0: "));
    assert_eq!(
        is_remote_update_newer(&current, "x", "1.0.0", "y"),
        Err("invalid build number y".to_string())
    );
    assert_eq!(
        is_parsed_update_newer(&current, "1", "v9", Err("odd".to_string()), "2"),
        Err("invalid update version v9: odd".to_string())
    );
    assert_eq!(
        is_parsed_update_newer(&current, "1", "v9", Ok(core_version("1.0.0")), "2"),
        Ok(true)
    );
    assert!(is_release_candidate(&core_version("1.0.0"), &current));
    assert!(is_release_candidate(&core_version("1.0.1"), &current));
    assert!(!is_release_candidate(&core_version("0.9.9"), &current));
}

#[test]
fn manifests_name_their_build() {
    let value = |text: &str| -> serde_json::Value { serde_json::from_str(text).unwrap() };
    assert_eq!(
        manifest_build_number(&value(r#"{"build_number":"12"}"#)),
        Ok("12")
    );
    for manifest in [r#"{"build_number":""}"#, r#"{"build_number":12}"#, "{}", "[]"] {
        assert_eq!(
            manifest_build_number(&value(manifest)),
            Err("update manifest is missing build_number".to_string())
        );
    }
}

#[test]
fn versions_are_named_in_both_languages() {
    assert_eq!(version_label(NativeLocale::Zh, "0.1.0", "4"), "0.1.0，构建 4");
    assert_eq!(version_label(NativeLocale::En, "0.1.0", "4"), "0.1.0, build 4");
    assert_eq!(
        up_to_date_message(NativeLocale::En, "0.1.0", "4"),
        "OpenHarness 0.1.0, build 4 is up to date."
    );
    assert_eq!(
        up_to_date_message(NativeLocale::Zh, "0.1.0", "4"),
        "当前已是最新版本（0.1.0，构建 4）。"
    );
}

#[test]
fn prompts_are_exact() {
    assert_eq!(
        update_prompt(NativeLocale::En, "1", "2", Some("  notes\n")),
        "OpenHarness 2 is available (current version: 1).\n\nnotes\n\nDownload and install it now? The app will restart automatically after installation."
    );
    assert_eq!(
        update_prompt(NativeLocale::Zh, "1", "2", Some(" \t")),
        "发现 OpenHarness 2（当前版本 1）。\n\n立即下载并安装吗？安装完成后应用会自动重启。"
    );
    assert_eq!(
        update_prompt(NativeLocale::Zh, "1", "2", None),
        update_prompt(NativeLocale::Zh, "1", "2", Some(""))
    );
}

#[test]
fn percentages_saturate_and_round_down() {
    assert_eq!(download_percent(999, Some(1000)), Some(99));
    assert_eq!(download_percent(u64::MAX, Some(u64::MAX)), Some(1));
    assert_eq!(download_percent(u64::MAX, Some(1)), Some(100));
}

#[test]
fn progress_is_shown_in_steps() {
    let mut progress = DownloadProgress::new();
    assert_eq!(progress.advance(1, None), None);
    assert_eq!(progress.advance(0, Some(100)), Some(1));
    assert_eq!(progress.advance(3, Some(100)), None);
    assert_eq!(progress.advance(1, Some(100)), Some(5));
    assert_eq!(progress.advance(95, Some(100)), Some(100));
    assert_eq!(progress.advance(u64::MAX, Some(100)), None);
    assert_eq!(progress.downloaded, u64::MAX);
}

fn told(notice: Option<Notice>) -> Option<(String, NoticeKind)> {
    notice.map(|notice| (notice.message, notice.kind))
}

#[test]
fn one_operation_at_a_time() {
    let mut state = AppUpdateState::new(NativeUi::new(NativeLocale::En));
    assert_eq!(native_locale(Some(&state)), NativeLocale::En);
    assert_eq!(native_locale(None), NativeLocale::Zh);

    let CheckStart::Refused(notice) = state.request_update_check(UpdateCheckSource::Manual, true)
    else {
        panic!("development builds do not check");
    };
    assert_eq!(
        told(notice),
        Some((
            "Development builds do not check for or install release updates.".to_string(),
            NoticeKind::Info
        ))
    );
    assert!(!state.busy);

    let CheckStart::Started(rendering) =
        state.request_update_check(UpdateCheckSource::Automatic, false)
    else {
        panic!("nothing is under way");
    };
    assert_eq!(rendering.update_label, "Checking for Updates...");
    assert!(!rendering.update_enabled);
    assert!(state.busy);

    let CheckStart::Refused(notice) = state.request_update_check(UpdateCheckSource::Manual, false)
    else {
        panic!("a check is under way");
    };
    assert_eq!(
        told(notice),
        Some((
            "An update check or installation is already in progress.".to_string(),
            NoticeKind::Info
        ))
    );
    let CheckStart::Refused(notice) =
        state.request_update_check(UpdateCheckSource::Automatic, false)
    else {
        panic!("a check is under way");
    };
    assert!(notice.is_none());

    let rendering = state.show_progress(UpdateMenuStatus::Downloading(Some(7)));
    assert_eq!(rendering.update_label, "Downloading Update... 7%");
    let rendering = state.finish_update_operation();
    assert_eq!(rendering.update_label, "Check for Updates...");
    assert!(rendering.update_enabled);
    assert!(!state.busy);
}

fn installed() -> Installed {
    Installed {
        version: core_version("0.1.0"),
        version_text: "0.1.0".to_string(),
        build_number: "41".to_string(),
    }
}

fn found(version: &str, manifest: &str) -> CheckOutcome {
    CheckOutcome::Found(Release {
        version: version.to_string(),
        manifest: serde_json::from_str(manifest).unwrap(),
        notes: Some("fixes".to_string()),
    })
}

fn check(source: UpdateCheckSource, outcome: CheckOutcome) -> CheckStep {
    after_check(source, NativeLocale::En, &installed(), &outcome)
}

#[test]
fn newer_releases_are_offered() {
    let CheckStep::Ask(question) = check(
        UpdateCheckSource::Automatic,
        found("0.1.0-rc.1", r#"{"build_number":"42"}"#),
    ) else {
        panic!("the release is newer");
    };
    assert_eq!(
        question.message,
        update_prompt(
            NativeLocale::En,
            "0.1.0, build 41",
            "0.1.0-rc.1, build 42",
            Some("fixes")
        )
    );
    assert_eq!(question.title, "OpenHarness Update");
    assert_eq!(question.accept, "Update Now");
    assert_eq!(question.decline, "Later");
}

#[test]
fn checks_that_offer_nothing_say_why_to_those_who_asked() {
    let cases = [
        (
            CheckOutcome::NothingFound,
            None,
            "OpenHarness 0.1.0, build 41 is up to date.",
            NoticeKind::Info,
        ),
        (
            CheckOutcome::Failed {
                cause: "offline".to_string(),
            },
            Some("[updater] update check failed: offline"),
            "Failed to check for updates: offline",
            NoticeKind::Error,
        ),
        (
            found("0.2.0", "{}"),
            Some("[updater] update manifest is missing build_number"),
            "The update manifest does not contain a valid build number.",
            NoticeKind::Error,
        ),
        (
            found("0.2.0", r#"{"build_number":"x"}"#),
            Some("[updater] invalid build number x"),
            "The update version information is invalid.",
            NoticeKind::Error,
        ),
        (
            found("0.1.0", r#"{"build_number":"41"}"#),
            None,
            "OpenHarness 0.1.0, build 41 is up to date.",
            NoticeKind::Info,
        ),
    ];
    for (outcome, log, message, kind) in cases {
        let CheckStep::End(end) =
            after_check(UpdateCheckSource::Automatic, NativeLocale::En, &installed(), &outcome)
        else {
            panic!("nothing is offered");
        };
        assert!(end.notice.is_none());
        let CheckStep::End(end) = check(UpdateCheckSource::Manual, outcome) else {
            panic!("nothing is offered");
        };
        assert_eq!(end.log.as_deref(), log);
        assert_eq!(told(end.notice), Some((message.to_string(), kind)));
    }
}

#[test]
fn a_comparison_decides() {
    let step = after_comparison(
        UpdateCheckSource::Manual,
        NativeLocale::Zh,
        &installed(),
        "9.9.9",
        "1",
        None,
        Ok(true),
    );
    let CheckStep::Ask(question) = step else {
        panic!("the release is newer");
    };
    assert!(question.message.starts_with("发现 OpenHarness 9.9.9，构建 1"));
    assert_eq!(question.accept, "立即更新");
    let step = after_comparison(
        UpdateCheckSource::Manual,
        NativeLocale::Zh,
        &installed(),
        "9.9.9",
        "1",
        None,
        Err("odd".to_string()),
    );
    let CheckStep::End(end) = step else {
        panic!("the comparison failed");
    };
    assert_eq!(end.log.as_deref(), Some("[updater] odd"));
}

#[test]
fn invalid_installed_builds_end_the_check() {
    let step = after_build_number(
        UpdateCheckSource::Manual,
        NativeLocale::En,
        Err("bad".to_string()),
    );
    let BuildStep::End(end) = step else {
        panic!("the build number is invalid");
    };
    assert_eq!(end.log.as_deref(), Some("[updater] bad"));
    assert_eq!(
        told(end.notice),
        Some((
            "The application build number is invalid, so updates cannot be checked.".to_string(),
            NoticeKind::Error
        ))
    );
    let step = after_build_number(
        UpdateCheckSource::Automatic,
        NativeLocale::En,
        Ok("7".to_string()),
    );
    assert!(matches!(step, BuildStep::Check(number) if number == "7"));
}

#[test]
fn answers_and_installations_decide_what_follows() {
    assert!(matches!(
        after_answer(Some(true)),
        AnswerStep::Download(UpdateMenuStatus::Downloading(None))
    ));
    assert!(matches!(after_answer(Some(false)), AnswerStep::End));
    assert!(matches!(after_answer(None), AnswerStep::End));
    assert!(matches!(
        after_install(NativeLocale::En, Ok(())),
        InstallStep::Restart(UpdateMenuStatus::Restarting)
    ));
    let InstallStep::End(end) = after_install(NativeLocale::Zh, Err("full".to_string())) else {
        panic!("the installation failed");
    };
    assert_eq!(
        end.log.as_deref(),
        Some("[updater] update installation failed: full")
    );
    assert_eq!(
        told(end.notice),
        Some(("更新安装失败：full".to_string(), NoticeKind::Error))
    );
}

#[test]
fn bundles_report_their_build_number() {
    assert_eq!(
        bundled_build_number(&BundleVersion::Missing),
        Err("application bundle is missing CFBundleVersion".to_string())
    );
    assert_eq!(
        bundled_build_number(&BundleVersion::NotUtf8 {
            complaint: "odd".to_string()
        }),
        Err("application CFBundleVersion is not valid UTF-8: odd".to_string())
    );
    assert_eq!(
        bundled_build_number(&BundleVersion::Present {
            value: "12\n".to_string()
        }),
        Ok("12".to_string())
    );
    assert_eq!(
        installed_build_number(Some("3"), Some("4")),
        Ok("3".to_string())
    );
    assert_eq!(installed_build_number(None, Some("4")), Ok("4".to_string()));
    assert!(installed_build_number(Some(""), Some("4")).is_err());
}

fn started() -> (AppUpdateState, UpdateFlow) {
    let mut state = AppUpdateState::new(NativeUi::new(NativeLocale::En));
    assert!(matches!(
        state.request_update_check(UpdateCheckSource::Manual, false),
        CheckStart::Started(_)
    ));
    let flow = UpdateFlow::new(
        UpdateCheckSource::Manual,
        NativeLocale::En,
        core_version("0.1.0"),
        "0.1.0".to_string(),
    );
    (state, flow)
}

#[test]
fn an_accepted_update_runs_to_the_restart() {
    let (mut state, mut flow) = started();
    let mut step = |event: UpdateEvent| flow.advance(&mut state, event);

    assert!(matches!(
        step(UpdateEvent::BuildNumber(Ok("41".to_string()))),
        UpdateAction::Check
    ));
    assert!(matches!(
        step(UpdateEvent::Checked(found("0.2.0", r#"{"build_number":"1"}"#))),
        UpdateAction::Ask(_)
    ));
    let UpdateAction::Download(rendering) = step(UpdateEvent::Answered(Some(true))) else {
        panic!("the update was accepted");
    };
    assert_eq!(rendering.update_label, "Downloading Update...");
    let received = |chunk_length| UpdateEvent::Received {
        chunk_length,
        total: Some(100),
    };
    let UpdateAction::Show(rendering) = step(received(50)) else {
        panic!("progress is shown");
    };
    assert_eq!(rendering.update_label, "Downloading Update... 50%");
    assert!(matches!(step(received(1)), UpdateAction::Nothing));
    let UpdateAction::Show(rendering) = step(UpdateEvent::Downloaded) else {
        panic!("the installation is shown");
    };
    assert_eq!(rendering.update_label, "Installing Update...");
    let UpdateAction::Restart(rendering) = step(UpdateEvent::Installed(Ok(()))) else {
        panic!("the application restarts");
    };
    assert_eq!(rendering.update_label, "Restarting...");
    assert!(!rendering.update_enabled);
    assert!(state.busy);
    assert_eq!(flow.phase, UpdatePhase::Over);
}

#[test]
fn an_update_that_ends_lets_the_next_one_start() {
    let endings: Vec<Vec<UpdateEvent>> = vec![
        vec![UpdateEvent::BuildNumber(Err("bad".to_string()))],
        vec![
            UpdateEvent::BuildNumber(Ok("41".to_string())),
            UpdateEvent::Checked(CheckOutcome::NothingFound),
        ],
        vec![
            UpdateEvent::BuildNumber(Ok("41".to_string())),
            UpdateEvent::Checked(found("0.2.0", r#"{"build_number":"1"}"#)),
            UpdateEvent::Answered(None),
        ],
        vec![
            UpdateEvent::BuildNumber(Ok("41".to_string())),
            UpdateEvent::Checked(found("0.2.0", r#"{"build_number":"1"}"#)),
            UpdateEvent::Answered(Some(true)),
            UpdateEvent::Installed(Err("full".to_string())),
        ],
    ];
    for events in endings {
        let (mut state, mut flow) = started();
        let mut last = UpdateAction::Nothing;
        for event in events {
            assert!(state.busy);
            last = flow.advance(&mut state, event);
        }
        let UpdateAction::End { rendering, .. } = last else {
            panic!("the operation is over");
        };
        assert_eq!(rendering.update_label, "Check for Updates...");
        assert!(rendering.update_enabled);
        assert!(!state.busy);
        assert_eq!(flow.phase, UpdatePhase::Over);
    }
}

#[test]
fn events_out_of_turn_change_nothing() {
    let (mut state, mut flow) = started();
    assert!(matches!(
        flow.advance(&mut state, UpdateEvent::Answered(Some(true))),
        UpdateAction::Nothing
    ));
    assert!(matches!(
        flow.advance(&mut state, UpdateEvent::Installed(Ok(()))),
        UpdateAction::Nothing
    ));
    assert_eq!(flow.phase, UpdatePhase::Starting);
    assert!(state.busy);
}
