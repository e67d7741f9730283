//! Recognising what a coding agent is doing from the output of its terminal.

use termd::pty::activity::osc::{BoundedOscParser, OscEvent, OSC_PAYLOAD_MAX_BYTES};
use termd::pty::activity::process::{
    agent_for_cmdline, foreground_process_for_cmdline, parse_linux_tpgid,
};
use termd::pty::activity::{
    ForegroundProcess, SessionActivityAgent, SessionActivityDetector, SessionActivityState,
    UnixTimestampMillis, FOREGROUND_PROBE_MIN_INTERVAL_MS,
};

#[test]
fn osc_titles_span_chunks_and_accept_bel_and_st() {
    let mut parser = BoundedOscParser::default();
    assert!(parser.push(b"before\x1b]0;[.").is_empty());
    assert_eq!(
        parser.push(b"] Working\x07after"),
        [OscEvent::Title(b"[.] Working".to_vec())]
    );
    assert_eq!(
        parser.push(b"\x1b]2;Action Required\x1b\\"),
        [OscEvent::Title(b"Action Required".to_vec())]
    );
}

#[test]
fn overlong_osc_title_is_discarded_and_parser_recovers() {
    let mut bytes = b"\x1b]0;".to_vec();
    bytes.extend(std::iter::repeat_n(b'x', OSC_PAYLOAD_MAX_BYTES + 1));
    bytes.extend_from_slice(b"\x07\x1b]0;ready\x07");
    let mut parser = BoundedOscParser::default();
    assert_eq!(parser.push(&bytes), [OscEvent::Title(b"ready".to_vec())]);
}

#[test]
fn state_transitions_latch_completed_and_ignore_repeated_spinner_frames() {
    let mut detector = SessionActivityDetector::default();
    let codex = || ForegroundProcess::Agent(SessionActivityAgent::Codex);
    assert!(detector.observe_output(b"\x1b]0;project\x07", 10, codex));
    assert_eq!(
        detector.activity().unwrap().state,
        SessionActivityState::Idle
    );
    assert!(detector.observe_output(b"\x1b]0;[.] Working\x07", 110, codex));
    assert!(!detector.observe_output(b"\x1b]0;[o] Working\x07", 210, codex));
    assert_eq!(
        detector.activity().unwrap().changed_at_ms,
        UnixTimestampMillis(110)
    );
    assert!(detector.observe_output(b"\x1b]2;Action Required\x1b\\", 310, codex));
    assert!(detector.observe_output(b"\x1b]0;project\x07", 410, codex));
    assert_eq!(
        detector.activity().unwrap().state,
        SessionActivityState::Completed
    );
    assert!(!detector.observe_output(b"\x1b]0;project\x07", 510, codex));
    assert!(detector.observe_output(b"\x1b]0;[/] Working\x07", 610, codex));
    assert_eq!(
        detector.activity().unwrap().state,
        SessionActivityState::Running
    );
}

#[test]
fn only_codex_foreground_can_create_activity_and_exit_completes_active_work() {
    let mut detector = SessionActivityDetector::default();
    assert!(
        !detector.observe_output(b"\x1b]0;[.] Working\x07", 100, || ForegroundProcess::Other)
    );
    assert_eq!(detector.activity(), None);
    assert!(detector.observe_output(b"\x1b]0;[.] Working\x07", 200, || {
        ForegroundProcess::Agent(SessionActivityAgent::Codex)
    }));
    assert!(detector.observe_output(b"shell prompt", 300, || ForegroundProcess::Other));
    assert_eq!(
        detector.activity().unwrap().state,
        SessionActivityState::Completed
    );
}

#[test]
fn idle_activity_clears_when_plain_output_returns_to_shell() {
    let mut detector = SessionActivityDetector::default();
    assert!(detector.observe_output(b"\x1b]0;project\x07", 100, || {
        ForegroundProcess::Agent(SessionActivityAgent::Codex)
    }));
    assert_eq!(
        detector.activity().unwrap().state,
        SessionActivityState::Idle
    );

    assert!(detector.observe_output(
        b"shell prompt",
        100 + FOREGROUND_PROBE_MIN_INTERVAL_MS + 1,
        || ForegroundProcess::Other,
    ));
    assert_eq!(detector.activity(), None);
}

#[test]
fn claude_tab_status_maps_only_structured_status_values() {
    let mut detector = SessionActivityDetector::default();
    let claude = || ForegroundProcess::Agent(SessionActivityAgent::ClaudeCode);
    assert!(detector.observe_output(
        b"\x1b]21337;indicator=#ff9500;future=x\\;y;status=Working;status-color=#ff9500\x07",
        100,
        claude,
    ));
    assert_eq!(
        detector
            .activity()
            .map(|activity| (activity.agent, activity.state)),
        Some((
            SessionActivityAgent::ClaudeCode,
            SessionActivityState::Running
        ))
    );
    assert!(detector.observe_output(
        b"\x1b]21337;status=Waiting;unknown=value\x1b\\",
        201,
        claude,
    ));
    assert_eq!(
        detector.activity().unwrap().state,
        SessionActivityState::Attention
    );
    assert!(detector.observe_output(b"\x1b]21337;status=Idle\x07", 302, claude));
    assert_eq!(
        detector.activity().unwrap().state,
        SessionActivityState::Completed
    );
}

#[test]
fn iterm_progress_maps_structured_states_for_recognized_agent() {
    let mut detector = SessionActivityDetector::default();
    let opencode = || ForegroundProcess::Agent(SessionActivityAgent::OpenCode);
    assert!(detector.observe_output(b"\x1b]0;OpenCode\x07", 100, opencode));
    assert_eq!(
        detector
            .activity()
            .map(|activity| (activity.agent, activity.state)),
        Some((SessionActivityAgent::OpenCode, SessionActivityState::Idle))
    );
    assert!(detector.observe_output(b"\x1b]9;4;3;\x1b\\", 201, opencode));
    assert_eq!(
        detector.activity().unwrap().state,
        SessionActivityState::Running
    );
    assert!(detector.observe_output(b"\x1b]9;4;0;\x07", 302, opencode));
    assert_eq!(
        detector.activity().unwrap().state,
        SessionActivityState::Completed
    );
}

#[test]
fn unstructured_output_does_not_guess_non_codex_activity() {
    let mut detector = SessionActivityDetector::default();
    let zcode = || ForegroundProcess::Agent(SessionActivityAgent::ZCode);
    assert!(detector.observe_output(b"\x1b]2;ZCode\x07", 100, zcode));
    let idle = detector.activity().unwrap();
    assert_eq!(idle.state, SessionActivityState::Idle);
    assert!(!detector.observe_output(b"lots of ordinary output", 201, zcode));
    assert_eq!(detector.activity(), Some(idle));
}

#[test]
fn initial_plain_output_recognizes_non_codex_agent_as_idle() {
    let mut detector = SessionActivityDetector::default();
    assert!(detector.observe_output(b"plain startup output", 100, || {
        ForegroundProcess::Agent(SessionActivityAgent::ZCode)
    }));
    assert_eq!(
        detector
            .activity()
            .map(|activity| (activity.agent, activity.state)),
        Some((SessionActivityAgent::ZCode, SessionActivityState::Idle))
    );
}

#[test]
fn first_osc_event_refreshes_recent_other_foreground_cache() {
    let mut detector = SessionActivityDetector::default();
    assert!(!detector.observe_output(b"shell output", 100, || ForegroundProcess::Other));
    assert!(detector.observe_output(b"\x1b]0;[.] Working\x07", 150, || {
        ForegroundProcess::Agent(SessionActivityAgent::Codex)
    }));
    assert_eq!(
        detector
            .activity()
            .map(|activity| (activity.agent, activity.state)),
        Some((SessionActivityAgent::Codex, SessionActivityState::Running))
    );
}

#[test]
fn completed_agent_switches_to_new_non_codex_agent_on_plain_output() {
    let mut detector = SessionActivityDetector::default();
    let opencode = || ForegroundProcess::Agent(SessionActivityAgent::OpenCode);
    assert!(detector.observe_output(b"\x1b]9;4;1;25\x07", 100, opencode));
    assert!(detector.observe_output(b"\x1b]9;4;0;\x07", 201, opencode));
    assert_eq!(
        detector.activity().unwrap().state,
        SessionActivityState::Completed
    );

    assert!(detector.observe_output(b"plain zcode output", 250, || {
        ForegroundProcess::Agent(SessionActivityAgent::ZCode)
    }));
    assert_eq!(
        detector
            .activity()
            .map(|activity| (activity.agent, activity.state)),
        Some((SessionActivityAgent::ZCode, SessionActivityState::Idle))
    );
}

#[test]
fn completed_agent_plain_output_reprobe_keeps_same_agent_or_other_unchanged() {
    let mut detector = SessionActivityDetector::default();
    let opencode = || ForegroundProcess::Agent(SessionActivityAgent::OpenCode);
    assert!(detector.observe_output(b"\x1b]9;4;1;25\x07", 100, opencode));
    assert!(detector.observe_output(b"\x1b]9;4;0;\x07", 201, opencode));
    let completed = detector.activity().unwrap();

    assert!(!detector.observe_output(b"same agent output", 302, opencode));
    assert_eq!(detector.activity(), Some(completed));
    assert!(!detector.observe_output(b"shell output", 403, || ForegroundProcess::Other));
    assert_eq!(detector.activity(), Some(completed));
}

#[test]
fn completed_plain_other_then_unhinted_progress_refreshes_cached_foreground() {
    for next_agent in [SessionActivityAgent::OpenCode, SessionActivityAgent::ZCode] {
        let mut detector = SessionActivityDetector::default();
        let opencode = || ForegroundProcess::Agent(SessionActivityAgent::OpenCode);
        assert!(detector.observe_output(b"\x1b]9;4;1;25\x07", 100, opencode));
        assert!(detector.observe_output(b"\x1b]9;4;0;\x07", 201, opencode));
        assert!(
            !detector.observe_output(b"shell output", 250, || { ForegroundProcess::Other })
        );

        assert!(detector.observe_output(b"\x1b]9;4;3;\x07", 270, || {
            ForegroundProcess::Agent(next_agent)
        }));
        assert_eq!(
            detector
                .activity()
                .map(|activity| (activity.agent, activity.state)),
            Some((next_agent, SessionActivityState::Running))
        );
    }
}

#[test]
fn completed_one_shot_plain_probe_returns_to_interval_throttle() {
    let mut detector = SessionActivityDetector::default();
    let opencode = || ForegroundProcess::Agent(SessionActivityAgent::OpenCode);
    assert!(detector.observe_output(b"\x1b]9;4;1;25\x07", 100, opencode));
    assert!(detector.observe_output(b"\x1b]9;4;0;\x07", 201, opencode));
    let completed = detector.activity().unwrap();
    let probe_count = std::cell::Cell::new(0);
    let mut counted_probe = || {
        probe_count.set(probe_count.get() + 1);
        ForegroundProcess::Agent(SessionActivityAgent::OpenCode)
    };

    assert!(!detector.observe_output(b"first plain frame", 250, &mut counted_probe));
    assert_eq!(probe_count.get(), 1);
    assert_eq!(detector.activity(), Some(completed));
    assert!(!detector.observe_output(b"second plain frame", 260, &mut counted_probe));
    assert_eq!(probe_count.get(), 1);
    assert_eq!(detector.activity(), Some(completed));
}

#[test]
fn uncertain_completed_probe_allows_one_event_retry_then_throttles() {
    for uncertain in [ForegroundProcess::Unknown, ForegroundProcess::Other] {
        let mut detector = SessionActivityDetector::default();
        let opencode = || ForegroundProcess::Agent(SessionActivityAgent::OpenCode);
        assert!(detector.observe_output(b"\x1b]9;4;1;25\x07", 100, opencode));
        assert!(detector.observe_output(b"\x1b]9;4;0;\x07", 201, opencode));
        let completed = detector.activity().unwrap();
        let probe_count = std::cell::Cell::new(0);
        let mut uncertain_probe = || {
            probe_count.set(probe_count.get() + 1);
            uncertain
        };

        assert!(!detector.observe_output(b"uncertain plain frame", 250, &mut uncertain_probe));
        assert_eq!(probe_count.get(), 1);
        assert!(!detector.observe_output(b"another plain frame", 260, &mut uncertain_probe));
        assert_eq!(probe_count.get(), 1);

        assert!(!detector.observe_output(b"\x1b]9;4;3;\x07", 270, &mut uncertain_probe));
        assert_eq!(probe_count.get(), 2);
        assert!(!detector.observe_output(b"\x1b]9;4;3;\x07", 280, &mut uncertain_probe));
        assert_eq!(probe_count.get(), 2);

        assert!(!detector.observe_output(b"\x1b]9;4;3;\x07", 370, &mut uncertain_probe));
        assert_eq!(probe_count.get(), 3);
        assert_eq!(detector.activity(), Some(completed));
    }
}

#[test]
fn claude_status_refreshes_recent_different_agent_cache() {
    let mut detector = SessionActivityDetector::default();
    assert!(detector.observe_output(b"\x1b]0;[.] Working\x07", 100, || {
        ForegroundProcess::Agent(SessionActivityAgent::Codex)
    }));
    assert!(
        detector.observe_output(b"\x1b]21337;status=Working\x07", 150, || {
            ForegroundProcess::Agent(SessionActivityAgent::ClaudeCode)
        })
    );
    assert_eq!(
        detector
            .activity()
            .map(|activity| (activity.agent, activity.state)),
        Some((
            SessionActivityAgent::ClaudeCode,
            SessionActivityState::Running
        ))
    );
}

#[test]
fn explicit_agent_title_refreshes_recent_different_agent_cache() {
    let mut detector = SessionActivityDetector::default();
    assert!(detector.observe_output(b"\x1b]0;[.] Working\x07", 100, || {
        ForegroundProcess::Agent(SessionActivityAgent::Codex)
    }));
    assert!(detector.observe_output(b"\x1b]0;OpenCode\x07", 150, || {
        ForegroundProcess::Agent(SessionActivityAgent::OpenCode)
    }));
    assert_eq!(
        detector
            .activity()
            .map(|activity| (activity.agent, activity.state)),
        Some((SessionActivityAgent::OpenCode, SessionActivityState::Idle))
    );
}

#[test]
fn repeated_codex_spinner_titles_keep_foreground_probe_throttled() {
    let mut detector = SessionActivityDetector::default();
    let probe_count = std::cell::Cell::new(0);
    let mut codex_probe = || {
        probe_count.set(probe_count.get() + 1);
        ForegroundProcess::Agent(SessionActivityAgent::Codex)
    };

    assert!(detector.observe_output(b"\x1b]0;[.] Working\x07", 100, &mut codex_probe));
    assert!(!detector.observe_output(b"\x1b]0;[o] Working\x07", 120, &mut codex_probe));
    assert!(!detector.observe_output(b"\x1b]0;[/] Working\x07", 140, &mut codex_probe));
    assert!(!detector.observe_output(b"\x1b]0;[-] Working\x07", 160, &mut codex_probe));
    assert_eq!(probe_count.get(), 1);

    assert!(!detector.observe_output(b"\x1b]0;[.] Working\x07", 201, &mut codex_probe));
    assert_eq!(probe_count.get(), 2);
    assert!(!detector.observe_output(b"\x1b]0;[o] Working\x07", 220, &mut codex_probe));
    assert_eq!(probe_count.get(), 2);
    assert!(!detector.observe_output(b"\x1b]0;[/] Working\x07", 301, &mut codex_probe));
    assert_eq!(probe_count.get(), 3);
}

#[test]
fn completed_codex_spinner_uses_one_shot_probe_then_returns_to_throttle() {
    let mut detector = SessionActivityDetector::default();
    let codex = || ForegroundProcess::Agent(SessionActivityAgent::Codex);
    assert!(detector.observe_output(b"\x1b]0;[.] Working\x07", 100, codex));
    assert!(detector.observe_output(b"\x1b]0;project\x07", 201, codex));
    assert_eq!(
        detector.activity().unwrap().state,
        SessionActivityState::Completed
    );
    let probe_count = std::cell::Cell::new(0);
    let mut counted_probe = || {
        probe_count.set(probe_count.get() + 1);
        ForegroundProcess::Agent(SessionActivityAgent::Codex)
    };

    assert!(detector.observe_output(b"\x1b]0;[o] Working\x07", 250, &mut counted_probe));
    assert_eq!(probe_count.get(), 1);
    assert!(!detector.observe_output(b"\x1b]0;[/] Working\x07", 260, &mut counted_probe));
    assert_eq!(probe_count.get(), 1);
}

#[test]
fn completed_state_ignores_same_agent_titles_until_explicit_progress() {
    let mut detector = SessionActivityDetector::default();
    let opencode = || ForegroundProcess::Agent(SessionActivityAgent::OpenCode);
    assert!(detector.observe_output(b"\x1b]9;4;1;25\x07", 100, opencode));
    assert!(detector.observe_output(b"\x1b]9;4;0;\x07", 201, opencode));
    let completed = detector.activity().unwrap();
    assert_eq!(completed.state, SessionActivityState::Completed);

    assert!(!detector.observe_output(b"\x1b]0;OC | next session\x07", 302, opencode));
    assert_eq!(detector.activity(), Some(completed));
    assert!(detector.observe_output(b"\x1b]9;4;3;\x07", 403, opencode));
    assert_eq!(
        detector.activity().unwrap().state,
        SessionActivityState::Running
    );
}

#[test]
fn parses_linux_tpgid_and_matches_supported_agent_process_shapes() {
    assert_eq!(
        parse_linux_tpgid("42 (shell with spaces) S 1 42 42 34816 73 0 0"),
        Some(73)
    );
    for (cmdline, expected) in [
        (
            b"/usr/local/bin/codex\0--no-alt-screen\0".as_slice(),
            SessionActivityAgent::Codex,
        ),
        (
            b"/usr/bin/node\0/usr/lib/node_modules/@openai/codex/bin/codex.js\0".as_slice(),
            SessionActivityAgent::Codex,
        ),
        (
            b"node\0/root/.nvm/versions/node/v24.14.1/bin/codex\0--yolo\0".as_slice(),
            SessionActivityAgent::Codex,
        ),
        (
            b"bun\0run\0/usr/lib/node_modules/@openai/codex/bin/codex.js\0".as_slice(),
            SessionActivityAgent::Codex,
        ),
        (
            b"/home/me/.opencode/bin/opencode\0".as_slice(),
            SessionActivityAgent::OpenCode,
        ),
        (
            b"bun\0run\0/usr/lib/node_modules/opencode-ai/cli.js\0".as_slice(),
            SessionActivityAgent::OpenCode,
        ),
        (
            b"node\0/usr/lib/node_modules/opencode-ai/index.js\0".as_slice(),
            SessionActivityAgent::OpenCode,
        ),
        (
            b"/usr/local/bin/zcode\0".as_slice(),
            SessionActivityAgent::ZCode,
        ),
        (
            b"/usr/local/bin/zcode-cli\0".as_slice(),
            SessionActivityAgent::ZCode,
        ),
        (
            b"node\0/usr/lib/node_modules/zcode-cli/cli.js\0".as_slice(),
            SessionActivityAgent::ZCode,
        ),
        (b"bunx\0zcode-cli\0".as_slice(), SessionActivityAgent::ZCode),
    ] {
        assert_eq!(agent_for_cmdline(cmdline), Some(expected));
    }
    assert_eq!(agent_for_cmdline(b"/bin/bash\0-c\0echo codex\0"), None);
    assert_eq!(
        agent_for_cmdline(b"node\0/usr/lib/node_modules/example/cli.js\0zcode\0"),
        None
    );
    assert_eq!(
        agent_for_cmdline(b"node\0/usr/lib/node_modules/@openai/codex-fork/bin/codex.js\0"),
        None
    );
}

#[test]
fn pieces_of_output_do_not_change_what_is_found() {
    let output = b"a\x1b]0;one\x07b\x1b]9;4;1;50\x1b\\c\x1b]21337;status=Idle\x07";
    let mut whole = BoundedOscParser::default();
    let expected = whole.push(output);
    assert_eq!(expected.len(), 3);
    for cut in 0..output.len() {
        let mut parser = BoundedOscParser::default();
        let mut events = parser.push(&output[..cut]);
        events.extend(parser.push(&output[cut..]));
        assert_eq!(events, expected);
    }
}

#[test]
fn unknown_foreground_is_not_a_shell() {
    assert_eq!(foreground_process_for_cmdline(b""), ForegroundProcess::Unknown);
    assert_eq!(foreground_process_for_cmdline(b"\0\0"), ForegroundProcess::Unknown);
    assert_eq!(foreground_process_for_cmdline(b"bash\0"), ForegroundProcess::Other);
    assert_eq!(
        foreground_process_for_cmdline(b"/usr/bin/codex\0"),
        ForegroundProcess::Agent(SessionActivityAgent::Codex)
    );
}

#[test]
fn malformed_process_status_has_no_foreground_group() {
    assert_eq!(parse_linux_tpgid(""), None);
    assert_eq!(parse_linux_tpgid("42 (sh) S 1 42 42 34816 -1 0"), None);
    assert_eq!(parse_linux_tpgid("42 (sh) S 1 42 42 34816 0 0"), None);
    assert_eq!(parse_linux_tpgid("42 (a) b) S 1 42 42 34816 9 0"), Some(9));
}

#[test]
fn empty_output_reports_nothing() {
    let mut detector = SessionActivityDetector::default();
    assert!(!detector.observe_output(b"", 100, || ForegroundProcess::Other));
    assert_eq!(detector.activity(), None);
}
