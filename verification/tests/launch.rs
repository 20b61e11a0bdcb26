use std::path::{Path, PathBuf};

use openharness::error::{ErrorKind, HostError};
use openharness::launch::{
    configure_harness_args, find_plugin_package, harness_environment, launch_failure_detail,
    launch_log_line, managed_runtime_path, manifest_declares_bundle, profile_declares_bundle,
    path_or_inherited, profile_parts, shell_search_path, LaunchFailure, LaunchPlaces, LaunchValue, SearchDirectory,
    ShellVariable,
};
use openharness::logs::{
    finalize_backend_log_directory, initialize_backend_log, resolve_log_directory,
    rotate_backend_log, BackendLog, LogStep, BACKEND_LOG_LIMIT,
};
use openharness::paths::{
    resolve_dsh_home, resolve_login_shell, Below, DshHome, LoginShell, PathFacts, Platform,
};
use openharness::runtime_paths::{
    child_path, manifest_entry, package_entry, resolve_runtime_for_platform, runtime_files,
    ChildPath, FileProbe, RuntimePaths, RuntimeProbe,
};
use openharness::shell_env::{
    collect_step, load_shell_env, load_shell_env_or_empty, login_shell_arguments, parse_shell_env,
    poll_step, valid_env_key, CollectStep, PollEvent, PollStep,
};
use openharness::state::{termination_steps, TerminationStep};

#[test]
fn shell_env_parser_imports_only_path_and_deepseek_variables() {
    let output = b"shell banner without newline\0PATH=/opt/homebrew/bin:/usr/bin\0\
DEEPSEEK_API_KEY=secret\0\
DEEPSEEK_BASE_URL=https://example.invalid\0\
DEEPSEEK_EMPTY=\0\
HOME=/Users/example\0\
DYLD_INSERT_LIBRARIES=/tmp/injected.dylib\0\
INVALID-KEY=value\0";

    assert_eq!(
        parse_shell_env(output),
        vec![
            ("PATH".to_string(), "/opt/homebrew/bin:/usr/bin".to_string()),
            ("DEEPSEEK_API_KEY".to_string(), "secret".to_string()),
            (
                "DEEPSEEK_BASE_URL".to_string(),
                "https://example.invalid".to_string()
            ),
        ]
    );
    assert!(parse_shell_env(b"PATH=/unmarked/bin\0").is_empty());
}

#[test]
fn detects_find_plugin_in_an_existing_profile_bundle_list() {
    let package = find_plugin_package();
    let manifest: serde_json::Value = serde_json::from_str(&format!(
        r#"{{
            "dependencies": {{ "{package}": "github:MicroSpotlight/openharness-find-plugin" }},
            "dsh": {{
                "profile": {{
                    "bundles": ["@deepseek-ai/dsh-base", "{package}"]
                }}
            }}
        }}"#
    ))
    .unwrap();

    assert!(manifest_declares_bundle(&manifest, package));
    assert!(!manifest_declares_bundle(
        &manifest,
        "@openharness/native-bridge"
    ));
    let manifest: serde_json::Value =
        serde_json::from_str(&format!(r#"{{ "dependencies": {{ "{package}": "0.1.0" }} }}"#))
            .unwrap();
    assert!(!manifest_declares_bundle(&manifest, package));
}

fn facts(path: &str, file: bool) -> Option<PathFacts<PathBuf>> {
    let path = PathBuf::from(path);
    Some(PathFacts {
        empty: path.as_os_str().is_empty(),
        absolute: path.is_absolute(),
        file,
        path,
    })
}

fn shell(configured: Option<PathFacts<PathBuf>>) -> PathBuf {
    match resolve_login_shell(configured) {
        LoginShell::Configured(path) => path,
        LoginShell::Portable(path) => PathBuf::from(path),
    }
}

#[test]
fn login_shell_uses_configured_absolute_file_or_portable_fallback() {
    assert_eq!(shell(facts("/bin/sh", true)), PathBuf::from("/bin/sh"));
    assert_eq!(shell(facts("/bin/zsh", true)), PathBuf::from("/bin/zsh"));
    assert_eq!(shell(None), PathBuf::from("/bin/sh"));
    assert_eq!(
        shell(facts("relative-shell", true)),
        PathBuf::from("/bin/sh")
    );
    assert_eq!(
        shell(facts("/definitely/missing/shell", false)),
        PathBuf::from("/bin/sh")
    );
}

fn below(directory: Below<PathBuf>) -> PathBuf {
    directory
        .base
        .unwrap_or_else(|| PathBuf::from("/temporary"))
        .join(directory.rest)
}

#[test]
fn log_directory_prefers_the_platform_state_directory() {
    assert_eq!(
        below(resolve_log_directory(
            facts("/Local", false),
            facts("/state", false),
            facts("/home/user", false)
        )),
        PathBuf::from("/Local/OpenHarness/logs")
    );
    assert_eq!(
        below(resolve_log_directory(None, facts("/state", false), None)),
        PathBuf::from("/state/OpenHarness/logs")
    );
    assert_eq!(
        below(resolve_log_directory(None, None, facts("/home/user", false))),
        PathBuf::from("/home/user/.local/state/OpenHarness/logs")
    );
    assert!(below(resolve_log_directory(None, None, None)).ends_with("OpenHarness/logs"));
}

fn child(path: &str, windows: bool) -> PathBuf {
    match child_path(path, windows) {
        ChildPath::Unchanged => PathBuf::from(path),
        ChildPath::Plain(plain) => PathBuf::from(plain),
    }
}

#[test]
fn windows_paths_handed_to_the_child_drop_the_verbatim_prefix() {
    assert_eq!(
        child(
            r"\\?\C:\Users\Administrator\AppData\Local\OpenHarness",
            true
        ),
        PathBuf::from(r"C:\Users\Administrator\AppData\Local\OpenHarness")
    );
    assert_eq!(
        child(r"\\?\UNC\server\share\OpenHarness", true),
        PathBuf::from(r"\\server\share\OpenHarness")
    );
    assert_eq!(
        child(r"C:\Program Files\OpenHarness", true),
        PathBuf::from(r"C:\Program Files\OpenHarness")
    );
    // POSIX paths keep any backslashes they legitimately contain.
    assert_eq!(
        child(r"/opt/\\?\runtime", false),
        PathBuf::from(r"/opt/\\?\runtime")
    );
}

#[test]
fn rejects_entry_outside_package() {
    assert!(package_entry(
        "/package/package.json",
        Ok(r#"{"bin":{"dsh":"../bin.js"}}"#.to_string())
    )
    .unwrap_err()
    .contains("invalid relative CLI entry"));
}

#[test]
fn entries_are_found_and_complaints_are_exact() {
    let entry = |document: &str| package_entry("m", Ok(document.to_string()));
    assert_eq!(entry(r#"{"bin":"lib/bin.js"}"#), Ok("lib/bin.js".to_string()));
    assert_eq!(
        entry(r#"{"bin":{"dsh":"dist/cli.js"}}"#),
        Ok("dist/cli.js".to_string())
    );
    assert_eq!(entry("{}"), Err("m: missing bin.dsh".to_string()));
    assert_eq!(
        entry(r#"{"bin":{"dsh":1}}"#),
        Err("m: missing bin.dsh".to_string())
    );
    for bad in ["", "/a", "a//b", "a/.", "./a", "a/../b", "C:/a"] {
        assert_eq!(
            entry(&format!(r#"{{"bin":"{bad}"}}"#)),
            Err(format!("m: invalid relative CLI entry {bad}"))
        );
    }
    assert_eq!(
        entry(r#"{"bin":"a\\b"}"#),
        Err(r"m: invalid relative CLI entry a\b".to_string())
    );
    assert!(entry("{").unwrap_err().starts_with("m: EOF"));
    assert_eq!(
        package_entry("m", Err("denied".to_string())),
        Err("m: denied".to_string())
    );
    let value: serde_json::Value = serde_json::from_str(r#"{"bin":"x.js"}"#).unwrap();
    assert_eq!(manifest_entry("m", &value), Ok("x.js".to_string()));
}

fn joined(base: &str, parts: &[String]) -> PathBuf {
    parts
        .iter()
        .fold(PathBuf::from(base), |path, part| path.join(part))
}

fn probe(base: &str, nested: bool, windows: bool, present: &[&str], entry: &str) -> RuntimeProbe {
    let files = runtime_files(nested, windows);
    let look = |parts: &[String]| {
        let path = joined(base, parts);
        FileProbe {
            is_file: present.iter().any(|file| Path::new(file) == path),
            display: path.display().to_string(),
        }
    };
    let mut entry_parts = files.package.clone();
    entry_parts.push(entry.to_string());
    RuntimeProbe {
        root: joined(base, &files.root).display().to_string(),
        node: look(&files.node),
        patch: look(&files.patch),
        find_plugin_patch: look(&files.find_plugin_patch),
        launcher: look(&files.launcher),
        entry: Ok((entry.to_string(), look(&entry_parts))),
    }
}

fn populated(root: &str, windows: bool, entry: &str) -> Vec<String> {
    [
        if windows { "node.exe" } else { "node" },
        "dsh/openharness.patch.yml",
        "dsh/openharness-find.patch.yml",
        if windows {
            "dsh/openharness-bin/pnpm.cmd"
        } else {
            "dsh/openharness-bin/pnpm"
        },
    ]
    .iter()
    .map(|file| format!("{root}/{file}"))
    .chain([format!("{root}/dsh/node_modules/@deepseek-ai/dsh/{entry}")])
    .collect()
}

#[test]
fn resolves_both_layouts_and_platforms_using_manifest_entry() {
    for windows in [false, true] {
        for nested in [false, true] {
            let root = if nested { "/app/runtime" } else { "/app" };
            let files = populated(root, windows, "dist/cli.js");
            let present: Vec<&str> = files.iter().map(String::as_str).collect();
            let paths = resolve_runtime_for_platform(
                windows,
                &probe("/app", true, windows, &present, "dist/cli.js"),
                &probe("/app", false, windows, &present, "dist/cli.js"),
            )
            .unwrap();
            assert_eq!(joined("/app", &paths.root), Path::new(root));
            assert_eq!(
                joined("/app", &paths.dsh_entry),
                Path::new(root).join("dsh/node_modules/@deepseek-ai/dsh/dist/cli.js")
            );
            assert_eq!(
                joined("/app", &paths.node),
                Path::new(root).join(if windows { "node.exe" } else { "node" })
            );
            assert_eq!(
                joined("/app", &paths.package_manager_bin),
                Path::new(root).join("dsh/openharness-bin")
            );
        }
    }
}

#[test]
fn reports_exact_missing_windows_entry_and_rejects_directories() {
    let entry = "/app/runtime/dsh/node_modules/@deepseek-ai/dsh/lib/bin.js";
    let files = populated("/app/runtime", true, "lib/bin.js");
    // A directory at the path of the entry is no file either.
    let present: Vec<&str> = files
        .iter()
        .map(String::as_str)
        .filter(|file| *file != entry)
        .collect();
    let error = resolve_runtime_for_platform(
        true,
        &probe("/app", true, true, &present, "lib/bin.js"),
        &probe("/app", false, true, &present, "lib/bin.js"),
    )
    .err()
    .unwrap();
    assert!(error.contains(entry));
    assert!(error.starts_with(&format!(
        "bundled runtime not found; /app/runtime: missing or invalid files: {entry}; /app: missing or invalid files: /app/node.exe, /app/dsh/openharness.patch.yml, "
    )));
}

#[test]
fn an_entry_that_cannot_be_found_is_reported() {
    let files = populated("/app", false, "a.js");
    let present: Vec<&str> = files.iter().map(String::as_str).collect();
    let mut flat = probe("/app", false, false, &present, "a.js");
    flat.entry = Err("manifest: missing bin.dsh".to_string());
    let error = resolve_runtime_for_platform(
        false,
        &probe("/app", true, false, &[], "a.js"),
        &flat,
    )
    .err()
    .unwrap();
    assert!(error.ends_with("; /app: missing or invalid files: manifest: missing bin.dsh"));
}

fn runtime() -> RuntimePaths<PathBuf> {
    RuntimePaths {
        root: PathBuf::from("/app/runtime"),
        node: PathBuf::from("/app/runtime/node"),
        dsh_entry: PathBuf::from("/app/runtime/dsh/bin.js"),
        patch: PathBuf::from("/app/runtime/dsh/openharness.patch.yml"),
        find_plugin_patch: PathBuf::from("/app/runtime/dsh/openharness-find.patch.yml"),
        package_manager_bin: PathBuf::from("/app/runtime/dsh/openharness-bin"),
    }
}

fn directory(path: &str) -> SearchDirectory<PathBuf> {
    let path = PathBuf::from(path);
    SearchDirectory {
        key: path
            .components()
            .map(|part| part.as_os_str().as_encoded_bytes().to_vec())
            .collect(),
        empty: path.as_os_str().is_empty(),
        path,
    }
}

#[test]
fn managed_runtime_path_precedes_user_paths_and_deduplicates() {
    let runtime = runtime();
    let bin = directory(runtime.package_manager_bin.to_str().unwrap());
    let node = directory(runtime.node.parent().unwrap().to_str().unwrap());
    let shell = vec![directory("/usr/bin"), directory("/app/runtime")];
    let inherited = vec![directory("/bin"), directory("/usr/bin")];

    let paths = managed_runtime_path(&bin, &node, &shell, &inherited);

    assert_eq!(*paths[0], runtime.package_manager_bin);
    assert_eq!(*paths[1], runtime.root);
    assert_eq!(
        paths
            .iter()
            .filter(|path| path.as_path() == Path::new("/usr/bin"))
            .count(),
        1
    );
}

#[test]
fn the_search_path_skips_empty_entries_and_other_spellings() {
    let bin = directory("/bundle/bin");
    let node = directory("/bundle");
    let shell = vec![directory("/usr/bin"), directory("/bundle/")];
    let inherited = vec![directory("/bin"), directory(""), directory("/usr/bin/")];

    let paths = managed_runtime_path(&bin, &node, &shell, &inherited);

    let expected = ["/bundle/bin", "/bundle", "/usr/bin", "/bin"];
    assert_eq!(paths.len(), expected.len());
    for (path, expected) in paths.iter().zip(expected) {
        assert_eq!(path.as_path(), Path::new(expected));
    }
}

#[test]
fn a_search_path_that_cannot_be_joined_leaves_the_inherited_one() {
    assert_eq!(path_or_inherited(Some("joined"), Some("old")), Some("joined"));
    assert_eq!(path_or_inherited(Some("joined"), None), Some("joined"));
    assert_eq!(path_or_inherited(None, Some("old")), Some("old"));
    assert_eq!(path_or_inherited::<&str>(None, None), None);
}

fn shown(value: &LaunchValue<'_, PathBuf>) -> String {
    match value {
        LaunchValue::Path(path) => path.display().to_string(),
        LaunchValue::Text(text) => text.clone(),
    }
}

#[test]
fn harness_command_keeps_web_ui_inside_desktop_app() {
    let runtime = runtime();

    let args = configure_harness_args(&runtime, false)
        .iter()
        .map(shown)
        .collect::<Vec<_>>();
    assert_eq!(
        args,
        vec![
            "/app/runtime/dsh/bin.js",
            "--profile",
            "web",
            "--patch",
            "/app/runtime/dsh/openharness.patch.yml",
            "--patch",
            "/app/runtime/dsh/openharness-find.patch.yml",
            "--host",
            "127.0.0.1",
            "--port",
            "0",
            "--no-open",
        ]
    );
    assert_eq!(configure_harness_args(&runtime, true).len(), 10);
}

#[test]
fn the_environment_disables_telemetry_and_respects_inherited_variables() {
    let runtime = runtime();
    let places = LaunchPlaces {
        search_path: PathBuf::from("/a:/b"),
        dsh_home: PathBuf::from("/home/.dsh"),
        profile_directory: PathBuf::from("/home/.dsh/profiles/web"),
    };
    let variable = |key: &str, inherited: bool| ShellVariable {
        key: key.to_string(),
        value: "v".to_string(),
        inherited,
    };
    let variables = vec![
        variable("PATH", false),
        variable("DEEPSEEK_A", true),
        variable("DEEPSEEK_B", false),
    ];
    let environment: Vec<String> = harness_environment(&runtime, &places, &variables)
        .iter()
        .map(|(key, value)| format!("{key}={}", shown(value)))
        .collect();
    assert_eq!(
        environment,
        [
            "PATH=/a:/b",
            "DSH_HOME=/home/.dsh",
            "DSH_TELEMETRY_DISABLED=1",
            "OPENHARNESS_MANAGED_RUNTIME=1",
            "OPENHARNESS_MANAGED_RUNTIME_PROTOCOL=1",
            "OPENHARNESS_PROFILE_NAME=web",
            "OPENHARNESS_PROFILE_DIRECTORY=/home/.dsh/profiles/web",
            "OPENHARNESS_RUNTIME_ROOT=/app/runtime",
            "OPENHARNESS_NODE_PATH=/app/runtime/node",
            "OPENHARNESS_DSH_ENTRY=/app/runtime/dsh/bin.js",
            "OPENHARNESS_PACKAGE_MANAGER_BIN=/app/runtime/dsh/openharness-bin",
            "OPENHARNESS_RESTART_EXIT_CODE=75",
            "DEEPSEEK_B=v"
        ]
    );
}

#[test]
fn profiles_without_a_readable_manifest_declare_nothing() {
    let manifest = br#"{"dsh":{"profile":{"bundles":[null,"a"]}}}"#;
    assert!(profile_declares_bundle(Some(manifest.as_slice()), "a"));
    assert!(!profile_declares_bundle(Some(manifest.as_slice()), "b"));
    assert!(!profile_declares_bundle(Some(b"{".as_slice()), "a"));
    assert!(!profile_declares_bundle(None, "a"));
    let manifest = br#"{"dsh":{"profile":{"bundles":"a"}}}"#;
    assert!(!profile_declares_bundle(Some(manifest.as_slice()), "a"));
}

#[test]
fn the_first_search_path_of_the_shell_counts() {
    let pair = |key: &str, value: &str| (key.to_string(), value.to_string());
    let variables = vec![pair("DEEPSEEK_X", "1"), pair("PATH", "/a"), pair("PATH", "/b")];
    assert_eq!(shell_search_path(&variables), Some("/a"));
    assert_eq!(shell_search_path(&variables[..1].to_vec()), None);
}

#[test]
fn shell_variables_have_well_formed_names() {
    assert!(valid_env_key("_a9"));
    for bad in ["", "9a", "a-b", "é", "a b"] {
        assert!(!valid_env_key(bad));
    }
    assert!(parse_shell_env(b"\0PATH\0DEEPSEEK_\xff=1\0DEEPSEEK-X=1\0path=/x").is_empty());
    assert_eq!(
        parse_shell_env(b"\0DEEPSEEK_=a=b"),
        vec![("DEEPSEEK_".to_string(), "a=b".to_string())]
    );
}

#[test]
fn the_shell_environment_is_reported_without_values() {
    let variables = parse_shell_env(b"\0PATH=/secret\0DEEPSEEK_A=secret\0DEEPSEEK_B=secret");
    let (used, report) = load_shell_env_or_empty(Ok(variables.clone()));
    assert_eq!(used, variables);
    assert_eq!(
        report,
        "[harness] login shell environment loaded (PATH: true, DeepSeek variables: 2)"
    );
    let (used, report) = load_shell_env_or_empty(Ok(Vec::new()));
    assert!(used.is_empty());
    assert_eq!(
        report,
        "[harness] login shell environment loaded (PATH: false, DeepSeek variables: 0)"
    );
    let (used, report) = load_shell_env_or_empty(Err("timeout".to_string()));
    assert!(used.is_empty());
    assert_eq!(
        report,
        "[harness] login shell environment unavailable; using inherited environment: timeout"
    );
}

#[test]
fn the_login_shell_is_given_up_after_its_time() {
    assert!(matches!(
        poll_step(PollEvent::Running { deadline_passed: false }, 5),
        PollStep::Sleep(10)
    ));
    assert!(matches!(poll_step(PollEvent::Exited, 5), PollStep::Collect));
    let PollStep::Abort(error) = poll_step(PollEvent::Running { deadline_passed: true }, 5) else {
        panic!("the time is up");
    };
    assert_eq!(error.kind, ErrorKind::TimedOut);
    assert_eq!(
        error.message,
        "login shell environment timed out after 5 seconds"
    );
    let cause = HostError::new(ErrorKind::Other, "lost".to_string());
    let PollStep::Abort(error) = poll_step(PollEvent::Failed(cause), 5) else {
        panic!("the shell cannot be watched");
    };
    assert_eq!(error.message, "lost");
}

#[test]
fn output_of_the_login_shell_is_collected() {
    let CollectStep::Abort(error) = collect_step(true, "exit status: 0", None) else {
        panic!("no output came");
    };
    assert_eq!(error.kind, ErrorKind::TimedOut);
    assert_eq!(error.message, "timed out reading login shell environment");

    let CollectStep::Fail(error) = collect_step(false, "exit status: 2", Some(Ok(Vec::new())))
    else {
        panic!("the shell failed");
    };
    assert_eq!(error.kind, ErrorKind::Other);
    assert_eq!(
        error.message,
        "login shell environment command exited with exit status: 2"
    );

    let cause = HostError::new(ErrorKind::InvalidData, "too long".to_string());
    assert!(matches!(
        collect_step(false, "", Some(Err(cause))),
        CollectStep::Fail(error) if error.message == "too long"
    ));
    assert!(matches!(
        collect_step(true, "", Some(Ok(b"\0".to_vec()))),
        CollectStep::Output(bytes) if bytes == b"\0"
    ));
}

fn home(configured: Option<PathFacts<PathBuf>>) -> PathBuf {
    let user = Path::new("/home/user");
    match resolve_dsh_home(configured) {
        DshHome::At(path) => path,
        DshHome::BelowHome(path) => user.join(path),
        DshHome::Default(name) => user.join(name),
    }
}

#[test]
fn the_home_of_the_runtime_can_be_configured() {
    assert_eq!(home(facts("/data", false)), Path::new("/data"));
    assert_eq!(home(facts("data", false)), Path::new("/home/user/data"));
    assert_eq!(home(facts("", false)), Path::new("/home/user/.dsh"));
    assert_eq!(home(None), Path::new("/home/user/.dsh"));
}

#[test]
fn the_log_moves_to_the_application_data() {
    let location = initialize_backend_log(facts("", false), facts("/state", false), None);
    assert_eq!(location.file, "backend.log");
    assert_eq!(
        below(location.directory),
        Path::new("/state/OpenHarness/logs")
    );
    for platform in [Platform::MacOs, Platform::Windows] {
        let location = finalize_backend_log_directory(
            platform,
            facts("/data", false),
            facts("/local", false),
            None,
            None,
        );
        assert_eq!(
            below(location.directory),
            Path::new("/data/OpenHarness/logs")
        );
    }
    let location = finalize_backend_log_directory(
        Platform::MacOs,
        facts("", false),
        None,
        None,
        facts("/h", false),
    );
    assert_eq!(
        below(location.directory),
        Path::new("/h/.local/state/OpenHarness/logs")
    );
}

#[test]
fn the_log_stays_in_the_state_directory_on_linux() {
    let location = finalize_backend_log_directory(
        Platform::Linux,
        facts("/data", false),
        None,
        facts("/state", false),
        facts("/h", false),
    );
    assert_eq!(location.file, "backend.log");
    assert_eq!(
        below(location.directory),
        Path::new("/state/OpenHarness/logs")
    );
    let location = finalize_backend_log_directory(
        Platform::Linux,
        facts("/data", false),
        facts("/local", false),
        facts("/state", false),
        facts("/h", false),
    );
    assert_eq!(
        below(location.directory),
        Path::new("/state/OpenHarness/logs")
    );
    let location = finalize_backend_log_directory(
        Platform::Linux,
        facts("/data", false),
        facts("/local", false),
        None,
        facts("/h", false),
    );
    assert_eq!(
        below(location.directory),
        Path::new("/h/.local/state/OpenHarness/logs")
    );
}

#[test]
fn oversized_backend_logs_rotate_before_growing() {
    assert_eq!(rotate_backend_log(Some(BACKEND_LOG_LIMIT + 1)), Some("log.1"));
    assert_eq!(rotate_backend_log(Some(BACKEND_LOG_LIMIT)), None);
    assert_eq!(rotate_backend_log(None), None);
    assert_eq!(
        Path::new("backend.log").with_extension("log.1"),
        Path::new("backend.log.1")
    );
}

#[test]
fn nothing_is_logged_before_the_file_is_known_or_after_a_failure() {
    let mut log: BackendLog<PathBuf> = BackendLog::new();
    assert!(matches!(log.write_backend_log("a", None), LogStep::Drop));

    log.install_backend_log(PathBuf::from("/first"));
    log.install_backend_log(PathBuf::from("/second"));
    assert_eq!(log.backend_log_path(), Some(&PathBuf::from("/second")));
    let LogStep::Append { archive, text } = log.write_backend_log("a", Some(BACKEND_LOG_LIMIT + 1))
    else {
        panic!("the line is written");
    };
    assert_eq!(archive, Some("log.1"));
    assert_eq!(text, "a\n");

    log.record_failure();
    assert!(log.last_log_error());
    assert!(matches!(log.write_backend_log("a", None), LogStep::Drop));
}

#[test]
fn the_login_shell_prints_a_marker_before_its_environment() {
    assert_eq!(
        login_shell_arguments(),
        ("-lic", "printf '\\0'; exec /usr/bin/env -0")
    );
    let loaded = load_shell_env(Some(Ok(b"banner\0DEEPSEEK_A=1\0".to_vec())));
    assert_eq!(
        loaded.unwrap(),
        vec![("DEEPSEEK_A".to_string(), "1".to_string())]
    );
    assert!(load_shell_env(None).unwrap().is_empty());
    let cause = HostError::new(ErrorKind::TimedOut, "late".to_string());
    assert_eq!(load_shell_env(Some(Err(cause))).unwrap_err().message, "late");
}

#[test]
fn failed_starts_say_what_happened() {
    let recent = vec!["boom".to_string()];
    let detail = |failure| launch_failure_detail(failure, &recent, Some("/log"));
    assert_eq!(
        detail(LaunchFailure::NoRuntime {
            complaint: "bundled runtime not found; x".to_string()
        }),
        "bundled runtime not found; x"
    );
    assert_eq!(
        detail(LaunchFailure::NoHome {
            cause: "read-only".to_string()
        }),
        "read-only"
    );
    assert_eq!(
        detail(LaunchFailure::NotSpawned {
            cause: "denied".to_string()
        }),
        "failed to spawn dsh: denied"
    );
    assert_eq!(
        detail(LaunchFailure::NotReady {
            error: HostError::new(ErrorKind::UnexpectedEof, "gone".to_string())
        }),
        "gone\n\nboom\n\nLog: /log"
    );
    assert_eq!(launch_log_line("/bin.js"), "--- dsh web started: /bin.js");
    assert_eq!(profile_parts(), ("profiles", "web"));
}

#[test]
fn the_backend_gets_a_moment_to_end() {
    for platform in [Platform::Linux, Platform::MacOs] {
        let steps = termination_steps(platform, 42);
        assert_eq!(steps.len(), 3);
        assert!(matches!(steps[0], TerminationStep::Ask));
        assert!(matches!(steps[1], TerminationStep::Wait(250)));
        assert!(matches!(steps[2], TerminationStep::Kill));
    }
    let steps = termination_steps(Platform::Windows, 42);
    assert_eq!(steps.len(), 1);
    let TerminationStep::Run { command, arguments } = &steps[0] else {
        panic!("the process tree is killed");
    };
    assert_eq!(*command, "taskkill");
    assert_eq!(arguments, &["/PID", "42", "/T", "/F"]);
}
