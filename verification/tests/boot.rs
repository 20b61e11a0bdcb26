use openharness::boot::{
    accept_url, parse_url, runtime_log_line, startup_candidate, startup_step, BackendUrl,
    StartupEvent, StartupStep, UrlHost,
};
use openharness::error::{ErrorKind, HostError};
use openharness::failure::backend_failure_message;
use openharness::state::{BackendState, WindowUrl};
use openharness::stream::{forward_backend_stream, read_bounded, read_stream_lines};

#[test]
fn preserves_browser_authentication_without_logging_launch_tokens() {
    let line = "dsh web: http://127.0.0.1:3080/?token=test-secret";
    assert_eq!(parse_url(line).unwrap().query(), Some("token=test-secret"));
    assert!(!runtime_log_line(line).contains("test-secret"));
    assert_eq!(runtime_log_line("plugin activated"), "plugin activated");
}

#[test]
fn parses_supported_loopback_urls() {
    assert_eq!(
        parse_url("dsh web: http://127.0.0.1:3080")
            .unwrap()
            .as_str(),
        "http://127.0.0.1:3080/"
    );
    assert_eq!(
        parse_url("dsh web: http://[::1]:3080").unwrap().as_str(),
        "http://[::1]:3080/"
    );
    assert_eq!(
        parse_url("[harness] dsh web: http://localhost:3080")
            .unwrap()
            .as_str(),
        "http://localhost:3080/"
    );
}

#[test]
fn rejects_non_loopback_or_unsafe_urls() {
    assert!(parse_url("dsh web: https://127.0.0.1:3080").is_none());
    assert!(parse_url("dsh web: http://192.168.1.2:3080").is_none());
    assert!(parse_url("dsh web: http://example.com:3080").is_none());
    assert!(parse_url("dsh web: http://user@127.0.0.1:3080").is_none());
    assert!(parse_url("dsh web: http://127.0.0.1").is_none());
    assert!(parse_url("server ready").is_none());
}

#[test]
fn startup_wait_honors_timeout_without_output() {
    let StartupStep::Failed(error) = startup_step(StartupEvent::DeadlinePassed) else {
        panic!("the wait is over");
    };

    assert_eq!(error.kind, ErrorKind::TimedOut);
}

#[test]
fn bounded_reader_rejects_oversized_shell_output() {
    let error = read_bounded(&vec![b"12345".to_vec()], 4).unwrap_err();

    assert_eq!(error.kind, ErrorKind::InvalidData);
}

#[test]
fn stream_reader_survives_non_utf8_output_before_the_url() {
    let mut bytes = Vec::new();
    // A GBK-encoded diagnostic from a Windows console code page, followed by
    // the ASCII boot line the supervisor needs.
    bytes.extend_from_slice(&[0xd6, 0xd0, 0xce, 0xc4, 0x0a]);
    bytes.extend_from_slice(b"dsh web: http://127.0.0.1:3080\n");

    let lines = read_stream_lines(&bytes);

    assert_eq!(lines.len(), 2);
    assert_eq!(
        parse_url(&lines[1]).unwrap().as_str(),
        "http://127.0.0.1:3080/"
    );
}

#[test]
fn stream_reader_keeps_a_final_unterminated_line() {
    let lines = read_stream_lines(b"dsh web: http://127.0.0.1:9");

    assert_eq!(lines, vec!["dsh web: http://127.0.0.1:9".to_owned()]);
}

#[test]
fn backend_state_is_cleared_while_restarting() {
    let mut state = BackendState::new();
    state.set_child(42);
    state.set_url(parse_url("dsh web: http://127.0.0.1:3080").unwrap());
    assert_eq!(state.child_pid, Some(42));
    assert!(state.current_url().is_some());

    state.mark_stopped();

    assert_eq!(state.child_pid, None);
    assert!(state.current_url().is_none());
}

#[test]
fn the_window_shows_the_backend_once_it_is_ready() {
    let mut state = BackendState::new();
    assert!(matches!(state.window_url(), WindowUrl::App("index.html")));

    state.set_url(parse_url("dsh web: http://LOCALHOST:3080/a").unwrap());

    let WindowUrl::External(url) = state.window_url() else {
        panic!("the backend is ready");
    };
    assert_eq!(url, "http://localhost:3080/a");
}

#[test]
fn quitting_hands_out_the_process_once() {
    let mut state = BackendState::new();
    state.set_child(7);

    assert_eq!(state.begin_quit(), Some(7));
    assert!(state.quitting);
    assert_eq!(state.begin_quit(), None);
}

#[test]
fn the_candidate_is_the_first_word_after_the_first_marker() {
    assert_eq!(
        startup_candidate("dsh web:   one two dsh web: three"),
        Some("one".to_string())
    );
    assert_eq!(startup_candidate("dsh web: \t "), None);
    assert_eq!(startup_candidate("dsh web:"), None);
}

fn url(host: Option<UrlHost>) -> BackendUrl {
    BackendUrl {
        text: "http://host:1/".to_string(),
        scheme: "http".to_string(),
        username: String::new(),
        password: None,
        host,
        port: Some(1),
        query: None,
    }
}

#[test]
fn only_hosts_of_this_machine_are_accepted() {
    assert!(accept_url("http://host:1", url(Some(UrlHost::Ipv4(0x7f00_0001)))).is_some());
    assert!(accept_url("http://host:1", url(Some(UrlHost::Ipv4(0x7fff_ffff)))).is_some());
    assert!(accept_url("http://host:1", url(Some(UrlHost::Ipv4(0x8000_0000)))).is_none());
    assert!(accept_url("http://host:1", url(Some(UrlHost::Ipv6(1)))).is_some());
    assert!(accept_url("http://host:1", url(Some(UrlHost::Ipv6(2)))).is_none());
    assert!(accept_url("http://host:1", url(Some(UrlHost::Domain("LocalHost".to_string())))).is_some());
    assert!(accept_url("http://host:1", url(Some(UrlHost::Domain("localhost.".to_string())))).is_none());
    assert!(accept_url("http://host:1", url(None)).is_none());
}

#[test]
fn credentials_and_missing_ports_are_refused() {
    let local = || url(Some(UrlHost::Ipv6(1)));
    assert!(accept_url("http://host", BackendUrl { port: None, ..local() }).is_none());
    assert!(accept_url("http://host", BackendUrl { scheme: "https".to_string(), ..local() }).is_none());
    assert!(accept_url("http://host", BackendUrl { username: "user".to_string(), ..local() }).is_none());
    assert!(accept_url("http://host", BackendUrl { password: Some(String::new()), ..local() }).is_none());
    assert!(parse_url("dsh web: http://:pw@127.0.0.1:3080").is_none());
}

#[test]
fn a_default_port_counts_where_it_is_written() {
    let url = parse_url("dsh web: http://127.0.0.1:80").unwrap();
    assert_eq!(url.as_str(), "http://127.0.0.1/");
    assert_eq!(url.port, Some(80));
    for line in [
        "dsh web: http://[::1]:80",
        "dsh web: http://localhost:80/?token=t",
        "dsh web: http://localhost:0080?token=t",
        "dsh web: http:/127.0.0.1:80#top",
        "dsh web: HTTP://LOCALHOST:80\\",
    ] {
        assert_eq!(parse_url(line).unwrap().port, Some(80), "{line}");
    }
    for line in [
        "dsh web: http://127.0.0.1",
        "dsh web: http://127.0.0.1:",
        "dsh web: http://127.0.0.1/:80",
        "dsh web: http://127.0.0.1?a:80",
        "dsh web: http://[::1]",
        "dsh web: http://:80@127.0.0.1",
        "dsh web: http://192.168.1.2:80",
        "dsh web: https://127.0.0.1:443",
        "dsh web: https://127.0.0.1:80",
    ] {
        assert!(parse_url(line).is_none(), "{line}");
    }
    let read = BackendUrl {
        port: None,
        ..url
    };
    assert!(accept_url("http://127.0.0.1", read.clone()).is_none());
    assert_eq!(accept_url("http://127.0.0.1:80", read).unwrap().port, Some(80));
}

#[test]
fn a_written_port_is_kept() {
    assert_eq!(
        parse_url("dsh web: http://127.0.0.1:3080").unwrap().port,
        Some(3080)
    );
}

#[test]
fn ill_formed_bytes_become_replacement_characters() {
    let mut bytes = vec![0xd6, 0xd0, 0xce, 0xc4, 0x0a];
    bytes.extend_from_slice("dsh web: é\n".as_bytes());
    assert_eq!(
        read_stream_lines(&bytes),
        vec!["\u{fffd}\u{fffd}\u{fffd}\u{fffd}", "dsh web: é"]
    );
}

#[test]
fn failure_messages_hide_the_boot_line() {
    let mut recent = Vec::new();
    forward_backend_stream(
        "",
        "dsh web: http://127.0.0.1:3080/?token=t",
        &mut recent,
    );
    assert_eq!(
        backend_failure_message("failed", &recent, Some("/log")),
        "failed\n\ndsh web: [startup URL omitted]\n\nLog: /log"
    );
}

#[test]
fn the_wait_goes_on_until_a_line_reports_the_url() {
    assert!(matches!(
        startup_step(StartupEvent::Line("warming up".to_string())),
        StartupStep::Wait
    ));
    let StartupStep::Ready(url) =
        startup_step(StartupEvent::Line("dsh web: http://127.0.0.1:3080".to_string()))
    else {
        panic!("the line reports a URL");
    };
    assert_eq!(url.as_str(), "http://127.0.0.1:3080/");
}

#[test]
fn a_wait_that_fails_says_why() {
    let StartupStep::Failed(error) = startup_step(StartupEvent::Disconnected) else {
        panic!("the backend is gone");
    };
    assert_eq!(error.kind, ErrorKind::UnexpectedEof);
    assert_eq!(error.message, "dsh web exited before reporting its URL");

    let cause = HostError::new(ErrorKind::Other, "broken pipe".to_string());
    let StartupStep::Failed(error) = startup_step(StartupEvent::ReadFailed(cause)) else {
        panic!("the output cannot be read");
    };
    assert_eq!(error.message, "broken pipe");
}

#[test]
fn bounded_reader_does_not_depend_on_how_the_stream_is_cut() {
    let whole = read_bounded(&vec![b"1234".to_vec()], 4).unwrap();
    let pieces = read_bounded(&vec![b"1".to_vec(), Vec::new(), b"234".to_vec()], 4).unwrap();

    assert_eq!(whole, b"1234");
    assert_eq!(pieces, whole);
    let error = read_bounded(&vec![b"12".to_vec(), b"345".to_vec()], 4).unwrap_err();
    assert_eq!(error.message, "login shell environment exceeded 4 bytes");
}

#[test]
fn stream_reader_keeps_blank_lines_and_replaces_ill_formed_bytes() {
    assert_eq!(read_stream_lines(b"a\n\nb\n"), vec!["a", "", "b"]);
    assert_eq!(read_stream_lines(b""), Vec::<String>::new());
    assert_eq!(read_stream_lines(&[b'x', 0xff]), vec!["x\u{fffd}"]);
}

#[test]
fn forwarded_lines_are_redacted_and_bounded() {
    let mut recent = Vec::new();
    let forwarded = forward_backend_stream(
        "[harness] ",
        "dsh web: http://127.0.0.1:3080/?token=t \r",
        &mut recent,
    );
    assert_eq!(forwarded.log, "[harness] dsh web: [startup URL omitted]");
    assert_eq!(forwarded.startup, "dsh web: http://127.0.0.1:3080/?token=t");
    assert_eq!(recent, vec!["dsh web: [startup URL omitted]"]);

    forward_backend_stream("", "  ", &mut recent);
    assert_eq!(recent.len(), 1);

    for index in 0..20 {
        forward_backend_stream("", &format!("line {index}"), &mut recent);
    }
    assert_eq!(recent.len(), 12);
    assert_eq!(recent[0], "line 8");
    assert_eq!(recent[11], "line 19");
}
