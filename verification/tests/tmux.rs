//! Hosting sessions in tmux: command lines, answers, and output scanning.

use termd::pty::tmux::{
    awaits_client_end, client_name_for_pid, client_start_step, kills_client, pane_current_path, pane_dead_status, pane_process_id, ping_result,
    sanitize_tmux_socket_component, show_exit_status, startup_failure, startup_output_complete,
    startup_output_note, tmux_failure, tmux_output_requests_history_clear,
    tmux_socket_path_beside, tmux_socket_path_for_state_path, wait_status, ChildLook,
    ClientStartStep, HistoryClearScanner,
    TmuxPtyBackend, TmuxTarget, TmuxTerminalStream, TMUX_BRIDGE_TERM,
};
use termd::pty::{
    CommandSpec, PtyExitStatus, PtyRestoreInfo, PtySize, PtySnapshot, PtySupervisorStatus,
    PtyTerminalFrame,
};

#[test]
fn attach_bridge_command_overrides_unsafe_inherited_tmux_environment() {
    let backend = TmuxPtyBackend::with_socket_path("/tmp/termd-test.sock");
    let command = backend.attach_tmux_command("termd-test-session");

    assert_eq!(
        command.env_map().get("TERM").map(String::as_str),
        Some(TMUX_BRIDGE_TERM),
        "the bridge must not inherit TERM=dumb from the daemon"
    );
    for key in ["TMUX", "TMUX_PANE"] {
        assert!(
            command.removed_env().contains(key),
            "the bridge must not inherit {key}"
        );
    }
}

#[test]
fn relative_state_path_uses_absolute_tmux_socket_path() {
    let socket_path = tmux_socket_path_for_state_path("daemon-state.json", Some("/srv/termd"));

    assert!(
        std::path::Path::new(&socket_path).is_absolute(),
        "the bridge process must not depend on a relative socket path"
    );
    assert_eq!(
        std::path::Path::new(&socket_path)
            .file_name()
            .and_then(|name| name.to_str()),
        Some("daemon-state.tmux.sock")
    );
}

#[test]
fn clear_history_detector_matches_clear_and_clear_scrollback_sequences() {
    assert!(tmux_output_requests_history_clear(b"\x1b[H\x1b[2J", 0));
    assert!(tmux_output_requests_history_clear(b"\x1b[1;1H\x1b[2J", 0));
    assert!(tmux_output_requests_history_clear(b"\x1b[3J", 0));
    assert!(!tmux_output_requests_history_clear(b"\x1b[2J", 0));
    assert!(!tmux_output_requests_history_clear(b"\x1b[2J\x1b[H", 0));
    assert!(!tmux_output_requests_history_clear(b"\x1b[3J", 4));
    assert!(!tmux_output_requests_history_clear(b"\x1b[3J", 40));
}

#[test]
fn clear_history_detector_matches_sequences_split_across_reads_once_new_bytes_arrive() {
    let prefix = b"\x1b[H\x1b[";
    let suffix = b"2Jafter-clear";
    let mut combined = prefix.to_vec();
    combined.extend_from_slice(suffix);

    assert!(
        tmux_output_requests_history_clear(&combined, prefix.len()),
        "a sequence cut by a read must clear the history too"
    );
}

#[test]
fn scanner_reports_each_sequence_once() {
    let mut scanner = HistoryClearScanner::new();
    assert!(!scanner.observe(b"text \x1b[H\x1b["));
    assert!(scanner.observe(b"2Jmore"));
    assert!(!scanner.observe(b"more"));
    assert!(scanner.observe(b"\x1b[3J"));
}

#[test]
fn socket_paths_are_absolute_and_plain() {
    assert_eq!(
        tmux_socket_path_for_state_path("/var/lib/termd/state.json", Some("/srv")),
        "/var/lib/termd/state.tmux.sock"
    );
    assert_eq!(
        tmux_socket_path_for_state_path("daemon-state.json", Some("/srv/termd")),
        "/srv/termd/./daemon-state.tmux.sock"
    );
    assert_eq!(sanitize_tmux_socket_component("a b/c.d"), "a_b_c.d");
}

#[test]
fn session_names_keep_plain_characters_only() {
    let name = TmuxPtyBackend::session_name_for_id("a:b.c-1");
    assert_eq!(name, "termd-a_b_c-1");
}

#[test]
fn argument_lists_name_the_session() {
    let backend = TmuxPtyBackend::with_socket_path("/tmp/t.sock");
    assert_eq!(backend.socket_path(), "/tmp/t.sock");
    assert_eq!(backend.tmux_path(), "tmux");
    assert_eq!(
        TmuxPtyBackend::target_args(TmuxTarget::HasSession, "s"),
        ["has-session", "-t", "s"]
    );
    assert_eq!(
        TmuxPtyBackend::resize_args("s", PtySize::new(40, 120)),
        ["resize-window", "-t", "s", "-x", "120", "-y", "40"]
    );
    let args = backend
        .new_session_args(
            "s",
            &CommandSpec::new("sh").arg("-l").cwd("/work").env("A", "1"),
            PtySize::new(24, 80),
        )
        .unwrap();
    assert!(args.contains(&"new-session".to_owned()));
    assert!(args.contains(&"/work".to_owned()));
    assert!(args.contains(&"-l".to_owned()));
    assert!(backend
        .new_session_args("s", &CommandSpec::new(" "), PtySize::default())
        .is_err());
}

#[test]
fn answers_of_tmux_are_read() {
    assert_eq!(pane_process_id(b"4242\n"), Some(4242));
    assert_eq!(pane_process_id(b"none\n"), None);
    assert_eq!(pane_current_path(b"/home/me\n").as_deref(), Some("/home/me"));
    assert_eq!(pane_current_path(b"\n"), None);
    assert_eq!(pane_dead_status(b"0\t\n"), None);
    assert_eq!(pane_dead_status(b"1\t3\n"), Some(PtyExitStatus::exited(3)));
    assert_eq!(
        pane_dead_status(b"1\tx\n"),
        Some(PtyExitStatus::exited(0))
    );
    assert_eq!(
        client_name_for_pid(b"10\t/dev/pts/1\r\n20\t/dev/pts/2\r\n", 20).as_deref(),
        Some("/dev/pts/2")
    );
    assert_eq!(client_name_for_pid(b"10\t/dev/pts/1\n", 99), None);
}

#[test]
fn failures_quote_what_tmux_said() {
    assert_eq!(
        tmux_failure("list-clients", b"no server running\n").to_string(),
        "PTY backend error: tmux list-clients failed: no server running"
    );
    assert_eq!(
        tmux_failure("kill-session", b"\xff").to_string(),
        "PTY backend error: tmux kill-session failed: \u{fffd}"
    );
}

#[test]
fn startup_output_is_quoted_in_the_failure() {
    assert!(startup_output_complete(0, 0));
    assert!(!startup_output_complete(10, 5));
    assert!(startup_output_complete(16384, 5));
    assert_eq!(startup_output_note(b""), "");
    assert_eq!(startup_output_note(b" \n"), "");
    assert_eq!(
        startup_output_note(b"oh\r\nno\xff\n"),
        "; startup output: oh  no\u{fffd}"
    );
    let error = startup_failure("s", &PtyExitStatus::exited(127), b"not found");
    assert!(error.to_string().contains("127"));
    assert!(error.to_string().contains("not found"));
    assert_eq!(
        show_exit_status(&PtyExitStatus::exited(127)),
        "PtyExitStatus { exit_code: 127, signal: None }"
    );
    assert_eq!(
        show_exit_status(&PtyExitStatus::signaled("Kil\"led")),
        "PtyExitStatus { exit_code: 1, signal: Some(\"Kil\\\"led\") }"
    );
}

#[test]
fn dead_panes_answer_no_ping() {
    assert!(ping_result("s", None, true).is_ok());
    assert!(ping_result("s", None, false).is_err());
    assert!(ping_result("s", Some(PtyExitStatus::exited(0)), true).is_err());
    assert_eq!(
        wait_status(Some(PtyExitStatus::exited(2)), true),
        Some(PtyExitStatus::exited(2))
    );
    assert_eq!(wait_status(None, true), None);
    assert_eq!(wait_status(None, false), Some(PtyExitStatus::exited(0)));
}

#[test]
fn only_tmux_sessions_are_reconnected() {
    let backend = TmuxPtyBackend::with_socket_path("/tmp/t.sock");
    let (found, name) = backend
        .reconnect_target(&PtyRestoreInfo::Tmux {
            socket_path: "/tmp/other.sock".to_owned(),
            session_name: "s".to_owned(),
        })
        .unwrap();
    assert_eq!(found.socket_path(), "/tmp/other.sock");
    assert_eq!(name, "s");
    assert!(backend
        .reconnect_target(&PtyRestoreInfo::UnixSocket {
            socket_path: "/tmp/u.sock".to_owned(),
            supervisor_pid: 1,
            supervisor_status: PtySupervisorStatus::Running,
        })
        .is_err());
    assert!(backend.attach_target(None).is_err());
}

#[test]
fn tmux_frames_are_numbered_from_one() {
    let mut stream = TmuxTerminalStream::new();
    assert_eq!(
        stream.snapshot_frames(PtySnapshot {
            size: PtySize::new(2, 2),
            process_id: None,
            retained_output: b"s".to_vec(),
        }),
        vec![PtyTerminalFrame::Snapshot {
            base_seq: 0,
            size: PtySize::new(2, 2),
            data: b"s".to_vec(),
        }]
    );
    assert_eq!(
        stream.output_frame(b"abc".to_vec(), 2),
        Some(PtyTerminalFrame::Output {
            terminal_seq: 1,
            data: b"ab".to_vec(),
        })
    );
    assert_eq!(stream.output_frame(b"abc".to_vec(), 0), None);
}

#[test]
fn sockets_lie_beside_state_files() {
    let text = |value: &str| Some(value.to_owned());
    assert_eq!(
        tmux_socket_path_beside(text("my state"), text("/var/lib"), Some("/srv")),
        "/var/lib/my_state.tmux.sock"
    );
    assert_eq!(
        tmux_socket_path_beside(text("state"), text(""), Some("/srv")),
        "/srv/./state.tmux.sock"
    );
    assert_eq!(tmux_socket_path_beside(None, None, None), "././termd.tmux.sock");
}

#[test]
fn clients_are_looked_at_a_bounded_number_of_times() {
    assert_eq!(client_start_step(0, false), ClientStartStep::Look);
    assert_eq!(client_start_step(1, false), ClientStartStep::Look);
    assert_eq!(client_start_step(2, false), ClientStartStep::Started);
    assert_eq!(client_start_step(1, true), ClientStartStep::Failed);
    assert!(awaits_client_end(49, ChildLook::Running));
    assert!(!awaits_client_end(50, ChildLook::Running));
    assert!(!awaits_client_end(1, ChildLook::Ended));
    assert!(!awaits_client_end(1, ChildLook::Unknown));
    assert!(kills_client(ChildLook::Running));
    assert!(!kills_client(ChildLook::Ended));
    assert!(!kills_client(ChildLook::Unknown));
}
