//! The daemon's side of a supervised terminal: frames that wait, and the screen that they draw.

use termd::pty::supervisor::client::{
    bootstrap_overflowed, candidate_reply, durable_capability, exit_check, legacy_install_result,
    legacy_install_target, reader_stopped, request_outcome, reset_devices_read_failed,
    reset_devices_reply, reset_devices_request, should_retry_connect, supervisor_address,
    AttachFrameQueue, CandidateReply, ExitCheck, PendingRequests, RequestStep, RequestTries,
    RequestWait,
};
use termd::pty::supervisor::daemon_terminal::{
    enqueue_daemon_legacy_output, DaemonTerminal, LiveFrameOutcome, QueueEnd,
};
use termd::pty::supervisor::protocol::{
    ControllerIdentity, SupervisorAttachSyncPayload, SupervisorFrame, SupervisorRequest,
    SupervisorRequestCompletion, SupervisorRequestFailure, SupervisorResponse,
    SupervisorResponsePayload, SupervisorSnapshotPayload,
};
use termd::pty::supervisor::screen::ScreenEmulator;
use termd::pty::{
    IoError, IoErrorKind, PtyError, PtyRestoreInfo, PtySize, PtySupervisorStatus, PtyTerminalFrame,
};

const TEST_SUPERVISOR_OUTPUT_QUEUE_MAX_MESSAGES: usize = 128;

/// A screen that keeps the last bytes that were written to it.
#[derive(Default)]
struct LastBytes {
    bytes: Vec<u8>,
}

impl ScreenEmulator for LastBytes {
    fn reset(self, _size: PtySize) -> Self {
        LastBytes::default()
    }

    fn feed(mut self, bytes: &[u8]) -> Self {
        self.bytes.extend_from_slice(bytes);
        let excess = self.bytes.len().saturating_sub(4096);
        self.bytes.drain(..excess);
        self
    }

    fn resize(self, _size: PtySize) -> Self {
        self
    }

    fn snapshot(&self) -> Vec<u8> {
        self.bytes.clone()
    }
}

fn blank() -> LastBytes {
    LastBytes::default()
}

fn receive(
    terminal: &mut DaemonTerminal,
    screen: &mut LastBytes,
    frame: PtyTerminalFrame,
) -> LiveFrameOutcome {
    let (after, outcome) = terminal.receive_live_frame(std::mem::take(screen), frame);
    *screen = after;
    outcome
}

fn seed(terminal: &mut DaemonTerminal, screen: &mut LastBytes, sync: SupervisorAttachSyncPayload) {
    *screen = terminal.seed_attach_sync(std::mem::take(screen), sync);
}

fn output(terminal_seq: u64, data: &[u8]) -> PtyTerminalFrame {
    PtyTerminalFrame::Output {
        terminal_seq,
        data: data.to_vec(),
    }
}

fn sync(base_seq: u64, frames: Vec<PtyTerminalFrame>, size: PtySize) -> SupervisorAttachSyncPayload {
    SupervisorAttachSyncPayload {
        controller_id: 7,
        controller_connection_id: 8,
        base_seq,
        snapshot: SupervisorSnapshotPayload {
            size,
            process_id: Some(42),
            exited: false,
            retained_output: Vec::new(),
        },
        frames,
    }
}

/// A terminal that was seeded from an empty session.
fn seeded(size: PtySize, screen: &mut LastBytes) -> DaemonTerminal {
    let mut terminal = DaemonTerminal::new(size);
    seed(&mut terminal, screen, sync(0, Vec::new(), size));
    terminal
}

#[test]
fn bootstrap_sync_publishes_authoritative_tail_before_concurrent_live_frame() {
    let size = PtySize::new(4, 40);
    let mut screen = blank();
    let mut terminal = seeded(size, &mut screen);
    assert_eq!(
        receive(&mut terminal, &mut screen, output(1, b"one")),
        LiveFrameOutcome::Published
    );
    assert_eq!(
        terminal.read_terminal_frame().and_then(|frame| frame.terminal_seq()),
        Some(1)
    );

    terminal.hold_back();
    assert_eq!(
        receive(&mut terminal, &mut screen, output(6, b"six")),
        LiveFrameOutcome::HeldBack
    );
    let tail = (2..=5)
        .map(|terminal_seq: u64| output(terminal_seq, terminal_seq.to_string().as_bytes()))
        .collect();
    seed(&mut terminal, &mut screen, sync(5, tail, size));

    let mut terminal_seqs = Vec::new();
    while let Some(frame) = terminal.read_terminal_frame() {
        terminal_seqs.extend(frame.terminal_seq());
    }
    assert_eq!(terminal_seqs, vec![2, 3, 4, 5, 6]);
    assert_eq!(
        terminal.controller(),
        Some(ControllerIdentity {
            id: 7,
            connection_id: 8,
        })
    );
    assert_eq!(terminal.process_id(), Some(42));
}

#[test]
fn daemon_reader_replaces_detached_output_backlog_with_bounded_snapshot() {
    let size = PtySize::new(4, 40);
    let mut screen = blank();
    let mut terminal = seeded(size, &mut screen);
    for terminal_seq in 1..=TEST_SUPERVISOR_OUTPUT_QUEUE_MAX_MESSAGES as u64 + 1 {
        assert_eq!(
            receive(&mut terminal, &mut screen, output(terminal_seq, &[b'x'; 64 * 1024])),
            LiveFrameOutcome::Published
        );
    }

    assert!(terminal.pending_frame_count() <= TEST_SUPERVISOR_OUTPUT_QUEUE_MAX_MESSAGES);
    let mut bases = Vec::new();
    let mut retained_bytes = 0;
    while let Some(frame) = terminal.read_terminal_frame() {
        retained_bytes += frame.bytes_for_legacy_read().map_or(1, <[u8]>::len);
        if let PtyTerminalFrame::Snapshot { base_seq, .. } = frame {
            bases.push(base_seq);
        }
    }
    assert!(retained_bytes <= 8 * 1024 * 1024);
    assert_eq!(
        bases,
        [129],
        "overflow must replace stale live output with an authoritative snapshot"
    );
}

#[test]
fn supervisor_client_read_rearms_signal_when_pending_output_remains() {
    let mut screen = blank();
    let mut terminal = seeded(PtySize::new(24, 80), &mut screen);
    receive(&mut terminal, &mut screen, output(1, b"first"));
    receive(&mut terminal, &mut screen, output(2, b"second"));
    let before = terminal.output_signal();

    assert_eq!(terminal.read(16), b"first");
    assert_ne!(
        terminal.output_signal(),
        before,
        "remaining supervisor output should rearm daemon watcher"
    );
    let before = terminal.output_signal();
    assert_eq!(terminal.read(3), b"sec");
    assert_ne!(terminal.output_signal(), before);
    assert_eq!(terminal.read(16), b"ond");
    assert_eq!(terminal.read(16), b"");
}

#[test]
fn supervisor_client_terminal_frame_read_rearms_when_frames_remain() {
    let mut screen = blank();
    let mut terminal = seeded(PtySize::new(24, 80), &mut screen);
    receive(&mut terminal, &mut screen, output(1, b"first"));
    receive(&mut terminal, &mut screen, output(2, b"second"));
    let before = terminal.output_signal();

    let frame = terminal.read_terminal_frame();

    assert_eq!(frame.and_then(|frame| frame.terminal_seq()), Some(1));
    assert_ne!(
        terminal.output_signal(),
        before,
        "remaining terminal frames should rearm daemon watcher"
    );
}

#[test]
fn supervisor_client_terminal_snapshot_uses_daemon_mirror_without_ipc_request() {
    let size = PtySize::new(24, 80);
    let mut screen = blank();
    let mut terminal = DaemonTerminal::new(size);
    seed(&mut terminal, &mut screen,
        sync(
            7,
            vec![PtyTerminalFrame::Snapshot {
                base_seq: 7,
                size,
                data: b"snapshot\n".to_vec(),
            }],
            size,
        ),
    );
    receive(&mut terminal, &mut screen, output(8, b"tail\n"));

    let frames = terminal.terminal_snapshot(Some(7), screen.snapshot());

    assert_eq!(frames, vec![output(8, b"tail\n")]);
}

#[test]
fn supervisor_client_seed_attach_sync_drops_old_pending_snapshot_before_legacy_read() {
    let size = PtySize::new(24, 80);
    let mut screen = blank();
    let mut terminal = seeded(size, &mut screen);
    receive(&mut terminal, &mut screen, output(1, b"old-tail"));

    seed(&mut terminal, &mut screen,
        sync(
            2,
            vec![PtyTerminalFrame::Snapshot {
                base_seq: 2,
                size,
                data: b"new-screen".to_vec(),
            }],
            size,
        ),
    );

    assert_eq!(terminal.read(64), b"new-screen");
    assert!(
        terminal.read(64).is_empty(),
        "old pending snapshot/tail must not be replayed after attach_sync reseed"
    );
}

#[test]
fn frames_that_a_snapshot_covers_are_stale() {
    let size = PtySize::new(24, 80);
    let mut screen = blank();
    let mut terminal = DaemonTerminal::new(size);
    seed(&mut terminal, &mut screen,
        sync(
            5,
            vec![PtyTerminalFrame::Snapshot {
                base_seq: 5,
                size,
                data: b"screen".to_vec(),
            }],
            size,
        ),
    );
    assert!(!terminal.accepts(&output(5, b"old")));
    assert_eq!(
        receive(&mut terminal, &mut screen, output(5, b"old")),
        LiveFrameOutcome::Stale
    );
    assert_eq!(
        receive(&mut terminal, &mut screen,
            PtyTerminalFrame::Exit {
                terminal_seq: 6,
                code: Some(0),
            }
        ),
        LiveFrameOutcome::Published
    );
    assert!(terminal.exited());
    assert_eq!(terminal.size(), size);
}

#[test]
fn held_back_frames_are_bounded() {
    let mut screen = blank();
    let mut terminal = DaemonTerminal::new(PtySize::new(24, 80));
    for terminal_seq in 1..=TEST_SUPERVISOR_OUTPUT_QUEUE_MAX_MESSAGES as u64 {
        assert_eq!(
            receive(&mut terminal, &mut screen, output(terminal_seq, b"x")),
            LiveFrameOutcome::HeldBack
        );
    }
    assert_eq!(
        receive(&mut terminal, &mut screen, output(129, b"x")),
        LiveFrameOutcome::Overflow
    );
}

#[test]
fn slow_attach_proxy_consumer_gets_recoverable_overflow_error() {
    let mut queue = AttachFrameQueue::new();
    for _ in 1..=TEST_SUPERVISOR_OUTPUT_QUEUE_MAX_MESSAGES {
        assert!(queue.on_frame(b"x".to_vec()));
    }
    assert!(!queue.on_frame(b"x".to_vec()));

    let error = queue
        .read_frame()
        .expect_err("overflowed attach proxy must require a recoverable reattach");
    assert!(error.to_string().contains("reattach"));
}

#[test]
fn attach_frames_come_in_order_until_the_reader_fails() {
    let mut queue = AttachFrameQueue::new();
    assert!(queue.read_frame().unwrap().is_none());
    let before = queue.output_signal();
    assert!(queue.on_frame(b"one".to_vec()));
    assert!(queue.on_frame(b"two".to_vec()));
    assert_ne!(queue.output_signal(), before);
    assert_eq!(queue.read_frame().unwrap().as_deref(), Some(&b"one"[..]));
    assert_eq!(queue.read_frame().unwrap().as_deref(), Some(&b"two"[..]));
    queue.on_read_failed(&IoError::new(IoErrorKind::Other, "torn"));
    assert!(queue.read_frame().unwrap_err().to_string().contains("torn"));
}

fn payload_reply(request_id: u64) -> SupervisorFrame {
    SupervisorFrame::Response {
        request_id,
        response: SupervisorResponse::ok(SupervisorResponsePayload::Empty),
    }
}

#[test]
fn replies_are_matched_by_their_number() {
    assert!(matches!(
        candidate_reply(2, payload_reply(1)),
        CandidateReply::Done(Err(_))
    ));
    assert!(matches!(
        candidate_reply(
            2,
            SupervisorFrame::TerminalFrame {
                frame: output(1, b"x"),
            }
        ),
        CandidateReply::Skip
    ));
    assert!(matches!(
        candidate_reply(2, payload_reply(2)),
        CandidateReply::Done(Ok(SupervisorResponsePayload::Empty))
    ));

    let mut pending = PendingRequests::new();
    let first = pending.begin(SupervisorRequest::Ping);
    let second = pending.begin(SupervisorRequest::Snapshot);
    assert_ne!(first.request_id, second.request_id);
    assert!(pending.finish(first.request_id));
    assert!(!pending.finish(first.request_id));
    assert_eq!(pending.fail_all(), [second.request_id]);
    assert!(pending.fail_all().is_empty());
}

#[test]
fn transport_failures_are_tried_again_after_a_reconnect() {
    let mut tries = RequestTries::new();
    let lost = request_outcome(RequestWait::TimedOut);
    assert!(matches!(
        lost,
        Err(SupervisorRequestFailure::Transport(_))
    ));
    assert!(matches!(tries.on_outcome(lost), RequestStep::Reconnect));
    assert!(matches!(tries.on_reconnected(Ok(())), RequestStep::Retry));
    assert!(matches!(
        tries.on_reconnected(Err(PtyError::Backend("gone".to_owned()))),
        RequestStep::Failed(_)
    ));
    assert!(matches!(
        tries.on_outcome(request_outcome(RequestWait::Disconnected)),
        RequestStep::Reconnect
    ));
    assert!(matches!(
        tries.on_outcome(request_outcome(RequestWait::Disconnected)),
        RequestStep::Failed(_)
    ));
    assert!(matches!(
        RequestTries::new().on_outcome(request_outcome(RequestWait::Completed(
            SupervisorRequestCompletion::Response(SupervisorResponse::err("no"))
        ))),
        RequestStep::Failed(_)
    ));
    assert!(matches!(
        RequestTries::new().on_outcome(request_outcome(RequestWait::Completed(
            SupervisorRequestCompletion::Response(SupervisorResponse::ok(
                SupervisorResponsePayload::Empty
            ))
        ))),
        RequestStep::Done(SupervisorResponsePayload::Empty)
    ));
    assert!(matches!(
        request_outcome(RequestWait::NotWritten(IoError::new(
            IoErrorKind::BrokenPipe,
            "gone"
        ))),
        Err(SupervisorRequestFailure::Transport(_))
    ));
}

#[test]
fn readers_that_stop_fail_what_waits() {
    assert!(matches!(
        reader_stopped(&IoError::new(IoErrorKind::UnexpectedEof, "end")).into_result(),
        Err(SupervisorRequestFailure::Transport(_))
    ));
    assert!(matches!(
        bootstrap_overflowed().into_result(),
        Err(SupervisorRequestFailure::Transport(_))
    ));
}

#[test]
fn device_resets_are_for_one_controller() {
    let envelope = reset_devices_request(3, 4);
    assert_eq!(
        envelope.request,
        SupervisorRequest::ResetAttachedDevicesForController {
            controller_id: 3,
            controller_connection_id: 4,
        }
    );
    assert!(matches!(
        reset_devices_reply(payload_reply(envelope.request_id)),
        Some(Ok(()))
    ));
    assert!(reset_devices_read_failed(IoError::new(IoErrorKind::UnexpectedEof, "end")).is_ok());
    assert!(reset_devices_read_failed(IoError::new(IoErrorKind::TimedOut, "late")).is_err());
}

#[test]
fn older_supervisors_cannot_install_a_capability() {
    assert!(legacy_install_result(Ok(SupervisorResponsePayload::Empty)).unwrap());
    assert!(legacy_install_result(Ok(SupervisorResponsePayload::CloseStatus {
        confirmed_dead: true,
    }))
    .is_err());
}

#[test]
fn connecting_is_tried_again_while_the_socket_appears() {
    assert!(should_retry_connect(IoErrorKind::NotFound, true));
    assert!(should_retry_connect(IoErrorKind::ConnectionRefused, true));
    assert!(!should_retry_connect(IoErrorKind::NotFound, false));
    assert!(!should_retry_connect(IoErrorKind::PermissionDenied, true));
}

#[test]
fn emulator_follows_what_the_mirror_takes() {
    let size = PtySize::new(4, 40);
    let mut screen = blank();
    let mut terminal = seeded(size, &mut screen);
    receive(&mut terminal, &mut screen, output(1, b"one"));
    assert_eq!(
        receive(&mut terminal, &mut screen, output(1, b"again")),
        LiveFrameOutcome::Stale
    );
    assert_eq!(screen.snapshot(), b"one");
    receive(
        &mut terminal,
        &mut screen,
        PtyTerminalFrame::Snapshot {
            base_seq: 4,
            size,
            data: b"drawn".to_vec(),
        },
    );
    assert_eq!(screen.snapshot(), b"drawn");
    terminal.hold_back();
    receive(&mut terminal, &mut screen, output(6, b"!"));
    assert_eq!(screen.snapshot(), b"drawn");
    seed(&mut terminal, &mut screen, sync(5, vec![output(5, b"?")], size));
    assert_eq!(screen.snapshot(), b"drawn?!");

    let mut restarted = sync(9, Vec::new(), size);
    restarted.snapshot.retained_output = b"anew".to_vec();
    seed(&mut terminal, &mut screen, restarted);
    assert_eq!(screen.snapshot(), b"anew");
}

#[test]
fn ledger_capabilities_have_their_length() {
    assert_eq!(durable_capability(&[4; 32]).unwrap(), [4; 32]);
    assert_eq!(
        durable_capability(&[4; 31]).unwrap_err().to_string(),
        "PTY backend error: invalid durable supervisor cleanup capability"
    );
    let unix = PtyRestoreInfo::UnixSocket {
        socket_path: "/run/s.sock".to_owned(),
        supervisor_pid: 77,
        supervisor_status: PtySupervisorStatus::Running,
    };
    let tmux = PtyRestoreInfo::Tmux {
        socket_path: "/run/tmux.sock".to_owned(),
        session_name: "s".to_owned(),
    };
    assert_eq!(
        legacy_install_target(&unix, &[4; 32]).unwrap(),
        ("/run/s.sock".to_owned(), [4; 32])
    );
    assert!(matches!(
        legacy_install_target(&unix, &[]),
        Err(PtyError::Backend(message))
            if message == "invalid migrated supervisor cleanup capability"
    ));
    assert!(matches!(
        legacy_install_target(&tmux, &[4; 32]),
        Err(PtyError::Backend(message))
            if message == "legacy capability migration requires Unix restore metadata"
    ));
    assert_eq!(supervisor_address(&unix), Some(("/run/s.sock".to_owned(), 77)));
    assert_eq!(supervisor_address(&tmux), None);
}

#[test]
fn end_of_a_process_is_known_before_the_supervisor_is_asked() {
    assert!(matches!(
        exit_check(true, None),
        ExitCheck::Known(Some(status)) if status.success()
    ));
    assert!(matches!(
        exit_check(false, Some(true)),
        ExitCheck::Known(Some(status)) if status.success()
    ));
    assert!(matches!(exit_check(false, Some(false)), ExitCheck::Known(None)));
    assert!(matches!(exit_check(false, None), ExitCheck::AskSupervisor));
}

#[test]
fn supervisor_client_terminal_frame_read_does_not_rearm_for_legacy_pending_output() {
    let size = PtySize::new(4, 40);
    let mut screen = blank();
    let mut terminal = DaemonTerminal::new(size);
    let mut bootstrap = sync(0, Vec::new(), size);
    bootstrap.snapshot.retained_output = b"legacy".to_vec();
    seed(&mut terminal, &mut screen, bootstrap);
    let signal = terminal.output_signal();

    assert!(terminal.read_terminal_frame().is_none());
    assert_eq!(
        terminal.output_signal(),
        signal,
        "legacy raw output must not spin terminal_frame watcher"
    );
    assert_eq!(terminal.read(16), b"legacy");
}

#[test]
fn a_queue_of_any_length_is_trimmed() {
    let mut pending: std::collections::VecDeque<Vec<u8>> = (0..200_u8).map(|n| vec![n]).collect();
    enqueue_daemon_legacy_output(&mut pending, vec![255], QueueEnd::Back);
    assert_eq!(pending.len(), TEST_SUPERVISOR_OUTPUT_QUEUE_MAX_MESSAGES);
    assert_eq!(pending.front().unwrap(), &vec![73]);
    assert_eq!(pending.back().unwrap(), &vec![255]);
}
