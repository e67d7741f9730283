//! Commands, terminal sizes and the errors of a session host.

use termd::pty::{
    unsequenced_output_frame, unsequenced_snapshot_frames, CommandSpec, IoError, IoErrorKind,
    NoopPtyAttachment, PtyAttachment, PtyError, PtyExitStatus, PtySize, PtySnapshot,
    PtyTerminalFrame,
};

#[test]
fn command_spec_builds_program_args_env_and_cwd() {
    let command = CommandSpec::new("ssh")
        .args(&["-tt", "example.com"])
        .arg("tmux")
        .env("TERM", "xterm-256color")
        .env("LANG", "C.UTF-8")
        .cwd("/tmp");

    assert_eq!(command.program(), "ssh");
    assert_eq!(command.args_slice(), ["-tt", "example.com", "tmux"]);
    assert_eq!(command.argv(), ["ssh", "-tt", "example.com", "tmux"]);
    assert_eq!(
        command.env_map().get("TERM").map(String::as_str),
        Some("xterm-256color")
    );
    assert_eq!(
        command.env_map().get("LANG").map(String::as_str),
        Some("C.UTF-8")
    );
    assert!(command.removed_env().is_empty());
    assert_eq!(command.cwd_path(), Some("/tmp"));
    assert!(command.validate().is_ok());
}

#[test]
fn command_spec_can_remove_inherited_env() {
    let command = CommandSpec::new("tmux")
        .env("TERM", "xterm-256color")
        .remove_env("TMUX");

    assert_eq!(
        command.env_map().get("TERM").map(String::as_str),
        Some("xterm-256color")
    );
    assert!(command.removed_env().contains("TMUX"));
}

#[test]
fn command_spec_rejects_empty_program() {
    let command = CommandSpec::new("   ");

    assert!(matches!(
        command.validate(),
        Err(PtyError::InvalidCommand(_))
    ));
}

#[test]
fn pty_size_uses_reasonable_defaults() {
    let size = PtySize::default();

    assert_eq!(size.rows, 24);
    assert_eq!(size.cols, 80);
    assert_eq!(size.pixel_width, 0);
    assert_eq!(size.pixel_height, 0);
}

#[test]
fn pty_size_can_include_pixels_without_ui_coupling() {
    let size = PtySize::with_pixels(40, 120, 960, 640);

    assert_eq!(
        size,
        PtySize {
            rows: 40,
            cols: 120,
            pixel_width: 960,
            pixel_height: 640,
        }
    );
}

#[test]
fn setting_and_removing_a_variable_override_each_other() {
    let removed = CommandSpec::new("sh").env("A", "1").remove_env("A");
    assert!(removed.env_map().get("A").is_none());
    assert!(removed.removed_env().contains("A"));

    let set = removed.env("A", "2");
    assert_eq!(set.env_map().get("A").map(String::as_str), Some("2"));
    assert!(!set.removed_env().contains("A"));
}

#[test]
fn environment_is_kept_in_key_order() {
    let command = CommandSpec::new("sh")
        .env("PATH", "/bin")
        .env("HOME", "/root")
        .env("LANG", "C");
    let env = command.env_map();
    let mut keys: Vec<&str> = Vec::new();
    for index in 0..env.len() {
        keys.push(env.key_at(index));
    }
    assert_eq!(keys, ["HOME", "LANG", "PATH"]);
}

#[test]
fn errors_are_shown_with_their_class() {
    let io = PtyError::from(IoError::new(IoErrorKind::BrokenPipe, "gone"));
    assert_eq!(io.to_string(), "PTY IO error: gone");
    assert_eq!(
        PtyError::InvalidCommand("empty".to_owned()).to_string(),
        "invalid PTY command: empty"
    );
    assert_eq!(
        PtyError::backend("no host").to_string(),
        "PTY backend error: no host"
    );
    assert_eq!(
        PtyError::backend(42).to_string(),
        "PTY backend error: 42"
    );
}

#[test]
fn exit_statuses_tell_codes_from_signals() {
    assert!(PtyExitStatus::exited(0).success());
    assert!(!PtyExitStatus::exited(3).success());
    let killed = PtyExitStatus::signaled("Killed");
    assert!(!killed.success());
    assert_eq!(killed.exit_code, 1);
    assert_eq!(killed.signal.as_deref(), Some("Killed"));
}

#[test]
fn frames_tell_their_number_and_their_bytes() {
    let output = PtyTerminalFrame::Output {
        terminal_seq: 7,
        data: b"x".to_vec(),
    };
    assert_eq!(output.terminal_seq(), Some(7));
    assert_eq!(output.bytes_for_legacy_read(), Some(&b"x"[..]));
    let snapshot = PtyTerminalFrame::Snapshot {
        base_seq: 3,
        size: PtySize::default(),
        data: b"screen".to_vec(),
    };
    assert_eq!(snapshot.terminal_seq(), None);
    assert_eq!(snapshot.bytes_for_legacy_read(), Some(&b"screen"[..]));
    let exit = PtyTerminalFrame::Exit {
        terminal_seq: 8,
        code: Some(1),
    };
    assert_eq!(exit.terminal_seq(), Some(8));
    assert_eq!(exit.bytes_for_legacy_read(), None);
}

#[test]
fn hosts_without_numbers_give_frames_at_zero() {
    assert_eq!(
        unsequenced_snapshot_frames(PtySnapshot {
            size: PtySize::new(2, 3),
            process_id: Some(1),
            retained_output: b"ab".to_vec(),
        }),
        vec![PtyTerminalFrame::Snapshot {
            base_seq: 0,
            size: PtySize::new(2, 3),
            data: b"ab".to_vec(),
        }]
    );
    assert_eq!(unsequenced_output_frame(vec![1, 2, 3], 0), None);
    assert_eq!(
        unsequenced_output_frame(vec![1, 2, 3], 2),
        Some(PtyTerminalFrame::Output {
            terminal_seq: 0,
            data: vec![1, 2],
        })
    );
}

#[test]
fn attachment_without_a_client_detaches() {
    assert!(NoopPtyAttachment.detach().is_ok());
}
