//! The state of a session supervisor: controllers, attaches, devices and the terminal journal.

use termd::pty::supervisor::connection::ensure_current_controller;
use termd::pty::supervisor::output_pump::{
    publish_exit, publish_supervisor_output_batch, SupervisorOutputPump,
    SUPERVISOR_OUTPUT_PUMP_MAX_CHUNKS_PER_TICK,
};
use termd::pty::supervisor::output_queue::TerminalFrameLane;
use termd::pty::supervisor::protocol::{
    SupervisorRequestCompletion, SupervisorRequestFailure, SupervisorResponse,
};
use termd::pty::supervisor::screen::ScreenEmulator;
use termd::pty::supervisor::state::SupervisorState;
use termd::pty::supervisor::terminal_journal::{
    SupervisorTerminalCache, SupervisorTerminalMirror, TERMINAL_ATTACH_TAIL_MAX_BYTES,
    TERMINAL_JOURNAL_MAX_EVENTS,
};
use termd::pty::{PtyError, PtyExitStatus, PtySize, PtyTerminalFrame};

const TEST_SUPERVISOR_OUTPUT_QUEUE_MAX_MESSAGES: usize = 128;

fn new_state(size: PtySize) -> SupervisorState {
    SupervisorState::with_cleanup_capability(size, [5; 32])
}

fn screen() -> Vec<u8> {
    b"screen".to_vec()
}

/// A screen that keeps all bytes that it was given.
#[derive(Default)]
struct AllBytes(Vec<u8>);

impl ScreenEmulator for AllBytes {
    fn reset(self, _size: PtySize) -> Self {
        AllBytes::default()
    }

    fn feed(mut self, bytes: &[u8]) -> Self {
        self.0.extend_from_slice(bytes);
        self
    }

    fn resize(self, _size: PtySize) -> Self {
        self
    }

    fn snapshot(&self) -> Vec<u8> {
        self.0.clone()
    }
}

#[test]
fn slow_controller_overflow_disconnects_only_consumer_and_allows_reattach() {
    let mut state = new_state(PtySize::new(4, 40));
    let lane = state.open_lane();
    state.attach_sync(lane, Some(42), None, screen());

    let output = vec![b'x'; 64 * 1024];
    for _ in 0..=TEST_SUPERVISOR_OUTPUT_QUEUE_MAX_MESSAGES {
        let frame = state.record_output(&output);
        state.broadcast_terminal_frame(&frame);
    }

    assert_eq!(
        state.controller_count(),
        0,
        "slow controller must be detached without terminating the session"
    );

    let reattach = state.open_lane();
    let (_identity, sync) = state.attach_sync(reattach, Some(42), None, screen());
    assert!(matches!(
        sync.frames.as_slice(),
        [PtyTerminalFrame::Snapshot { base_seq: 129, .. }]
    ));

    let recovery = state.record_output(b"recovered");
    state.broadcast_terminal_frame(&recovery);
    assert!(matches!(
        state.lane_try_recv(reattach),
        Some(PtyTerminalFrame::Output {
            terminal_seq: 130,
            data,
        }) if data == b"recovered"
    ));
}

#[test]
fn slow_terminal_attach_overflow_disconnects_only_consumer_and_allows_reattach() {
    let mut state = new_state(PtySize::new(4, 40));
    let lane = state.open_lane();
    state.register_terminal_attach(lane);

    let output = vec![b'x'; 64 * 1024];
    for _ in 0..=TEST_SUPERVISOR_OUTPUT_QUEUE_MAX_MESSAGES {
        let frame = state.record_output(&output);
        state.broadcast_terminal_frame(&frame);
    }

    assert_eq!(
        state.terminal_attach_count(),
        0,
        "slow attach must be detached without terminating the session"
    );

    let reattach = state.open_lane();
    state.register_terminal_attach(reattach);
    let recovery = state.record_output(b"recovered");
    state.broadcast_terminal_frame(&recovery);
    assert!(matches!(
        state.lane_try_recv(reattach),
        Some(PtyTerminalFrame::Output {
            terminal_seq: 130,
            data,
        }) if data == b"recovered"
    ));
}

#[test]
fn supervisor_terminal_snapshot_uses_session_seq_and_tail_window() {
    let mut state = new_state(PtySize::new(4, 40));
    let first = state.record_output(b"alpha\n");
    let second = state.record_output(b"beta\n");
    assert_eq!(first.terminal_seq(), Some(1));
    assert_eq!(second.terminal_seq(), Some(2));

    let snapshot = state.terminal_snapshot_or_tail_with_base(None, screen()).1;
    assert_eq!(snapshot.len(), 1);
    assert!(matches!(
        snapshot[0],
        PtyTerminalFrame::Snapshot { base_seq: 2, .. }
    ));

    let tail = state.terminal_snapshot_or_tail_with_base(Some(1), screen()).1;
    assert_eq!(tail, vec![second]);

    assert!(
        state
            .terminal_snapshot_or_tail_with_base(Some(2), screen())
            .1
            .is_empty(),
        "up-to-date clients do not need snapshot or tail"
    );
}

#[test]
fn attach_sync_returns_snapshot_and_live_boundary_for_new_controller() {
    let mut state = new_state(PtySize::new(4, 40));
    state.record_output(b"before\n");
    let lane = state.open_lane();

    let (_controller_id, sync) = state.attach_sync(lane, Some(42), None, screen());

    assert_eq!(sync.base_seq, 1);
    assert!(
        sync.snapshot.retained_output.is_empty(),
        "the first screen is carried by the numbered snapshot frame alone"
    );
    assert!(matches!(
        sync.frames.as_slice(),
        [PtyTerminalFrame::Snapshot { base_seq: 1, .. }]
    ));

    let frame = state.record_output(b"after\n");
    state.broadcast_terminal_frame(&frame);
    assert!(matches!(
        state
            .lane_try_recv(lane)
            .expect("live frame should be sent to the attached controller"),
        PtyTerminalFrame::Output {
            terminal_seq: 2,
            ..
        }
    ));
}

#[test]
fn attach_sync_returns_tail_when_last_seq_is_in_journal() {
    let mut state = new_state(PtySize::new(4, 40));
    state.record_output(b"alpha\n");
    state.record_output(b"beta\n");
    let lane = state.open_lane();

    let (_controller_id, sync) = state.attach_sync(lane, Some(42), Some(1), screen());

    assert_eq!(sync.base_seq, 2);
    assert!(
        sync.snapshot.retained_output.is_empty(),
        "a tail is not mixed with retained output"
    );
    assert_eq!(
        sync.frames,
        vec![PtyTerminalFrame::Output {
            terminal_seq: 2,
            data: b"beta\n".to_vec(),
        }]
    );
}

#[test]
fn supervisor_state_tracks_attached_devices_independently_from_controllers() {
    let mut state = new_state(PtySize::new(4, 40));

    assert!(!state.has_attached_device("dev-a"));

    state.attach_device("dev-a");
    state.attach_device("dev-a");
    state.attach_device("dev-b");

    assert!(state.has_attached_device("dev-a"));
    assert!(state.has_attached_device("dev-b"));

    state.detach_device("dev-a");

    assert!(!state.has_attached_device("dev-a"));
    assert!(state.has_attached_device("dev-b"));
}

#[test]
fn attach_sync_prefers_snapshot_when_tail_is_much_larger_than_snapshot() {
    let mut state = new_state(PtySize::new(4, 40));
    for index in 0..2000 {
        state.record_output(
            format!(
                "line-{index:04} 0123456789abcdefghijklmnopqrstuvwxyz ABCDEFGHIJKLMNOPQRSTUV\n"
            )
            .as_bytes(),
        );
    }
    let lane = state.open_lane();

    let (_controller_id, sync) = state.attach_sync(lane, Some(42), Some(0), vec![b' '; 4 * 40]);

    assert_eq!(sync.base_seq, 2000);
    assert!(matches!(
        sync.frames.as_slice(),
        [PtyTerminalFrame::Snapshot { base_seq, data, .. }]
            if *base_seq == 2000 && data.len() < TERMINAL_ATTACH_TAIL_MAX_BYTES
    ));
}

#[test]
fn attach_sync_keeps_multiple_controllers_and_broadcasts_live_output() {
    let mut state = new_state(PtySize::new(4, 40));
    let old_lane = state.open_lane();
    let (old_id, _old_sync) = state.attach_sync(old_lane, Some(42), None, screen());
    let new_lane = state.open_lane();
    let (new_id, _new_sync) = state.attach_sync(new_lane, Some(42), Some(0), screen());

    assert_ne!(old_id, new_id);
    assert_eq!(state.controller_count(), 2);

    let frame = state.record_output(b"shared-live-output\n");
    state.broadcast_terminal_frame(&frame);

    assert!(
        state.lane_try_recv(old_lane).is_some(),
        "old controller should keep receiving live frames after another attach"
    );
    assert!(
        state.lane_try_recv(new_lane).is_some(),
        "new controller should receive live frames after attach"
    );
}

#[test]
fn attach_sync_only_allows_requests_from_latest_controller_id() {
    let mut state = new_state(PtySize::new(4, 40));
    let old_lane = state.open_lane();
    let (old_id, _old_sync) = state.attach_sync(old_lane, Some(42), None, screen());
    let new_lane = state.open_lane();
    let (new_id, _new_sync) = state.attach_sync(new_lane, Some(42), Some(0), screen());

    let old_error = ensure_current_controller(&state, Some(old_id))
        .expect_err("old controller id should lose authority after takeover");
    assert!(
        old_error.to_string().contains("not the active controller"),
        "old controller should be rejected as stale owner"
    );
    ensure_current_controller(&state, Some(new_id))
        .expect("new controller id should become active owner");
}

#[test]
fn resume_attach_sync_rejects_stale_controller_after_active_owner_disconnects() {
    let mut state = new_state(PtySize::new(4, 40));
    let old_lane = state.open_lane();
    let (old_id, _old_sync) = state.attach_sync(old_lane, Some(42), None, screen());
    let new_lane = state.open_lane();
    let (new_id, _new_sync) = state.attach_sync(new_lane, Some(42), Some(0), screen());

    state.remove_controller(new_id);
    assert!(
        !state.is_active_controller(new_id) && !state.is_active_controller(old_id),
        "active owner disconnect should clear the live owner slot"
    );
    assert!(
        state.may_resume(new_id.id),
        "resume lease must stay on the latest owner after disconnect"
    );

    let error = state
        .resume_attach_sync(old_id.id, Some(42), Some(0), screen())
        .expect_err("stale controller must not recover after newer owner disconnects");
    assert!(
        error.to_string().contains("not the active controller"),
        "stale controller should stay fenced even after active slot is empty"
    );
}

#[test]
fn resume_attach_sync_allows_latest_lease_holder_after_disconnect() {
    let mut state = new_state(PtySize::new(4, 40));
    let lane = state.open_lane();
    let (owner_identity, _owner_sync) = state.attach_sync(lane, Some(42), None, screen());

    state.remove_controller(owner_identity);
    let (resumed_identity, _resumed_sync) = state
        .resume_attach_sync(owner_identity.id, Some(42), Some(0), screen())
        .expect("latest lease holder should be able to resume after disconnect");

    assert_eq!(resumed_identity.id, owner_identity.id);
    assert_ne!(
        resumed_identity.connection_id, owner_identity.connection_id,
        "resume should mint a fresh connection generation for the same lease holder"
    );
    assert!(
        !state.is_active_controller(resumed_identity)
            && !state.is_active_controller(owner_identity),
        "candidate resume must not mutate owner generation before commit"
    );
    assert_eq!(state.controller_count(), 0);
    let retry_lane = state.open_lane();
    state
        .commit_controller_resume(1, resumed_identity, retry_lane)
        .expect("validated candidate should commit");
    assert!(state.is_active_controller(resumed_identity));
    assert_eq!(
        state.committed_controller_resume(1),
        Some(resumed_identity)
    );
}

#[test]
fn resume_attach_sync_fences_previous_connection_generation_of_same_controller() {
    let mut state = new_state(PtySize::new(4, 40));
    let lane = state.open_lane();
    let (owner_identity, _owner_sync) = state.attach_sync(lane, Some(42), None, screen());

    state.remove_controller(owner_identity);
    let (resumed_identity, _resumed_sync) = state
        .resume_attach_sync(owner_identity.id, Some(42), Some(0), screen())
        .expect("lease holder resume should succeed");
    let retry_lane = state.open_lane();
    state
        .commit_controller_resume(1, resumed_identity, retry_lane)
        .expect("validated candidate should commit");

    let old_error = ensure_current_controller(&state, Some(owner_identity))
        .expect_err("old connection generation should be fenced after resume");
    assert!(
        old_error.to_string().contains("not the active controller"),
        "stale generation of same lease holder must be rejected"
    );
    ensure_current_controller(&state, Some(resumed_identity))
        .expect("resumed connection generation should become the only active owner");
}

#[test]
fn supervisor_request_response_error_is_not_retryable_transport_failure() {
    let error = SupervisorRequestCompletion::Response(SupervisorResponse::err(
        "session supervisor connection is not the active controller",
    ))
    .into_result()
    .expect_err("business rejection should not masquerade as transport retry");

    assert!(
        matches!(error, SupervisorRequestFailure::Response(_)),
        "stale controller rejection must stay in response lane so request() can stop reconnecting"
    );
}

#[test]
fn supervisor_request_transport_error_stays_retryable() {
    let error = SupervisorRequestCompletion::TransportError(PtyError::Backend(
        "session supervisor request timed out".to_owned(),
    ))
    .into_result()
    .expect_err("transport breakage should stay retryable");

    assert!(
        matches!(error, SupervisorRequestFailure::Transport(_)),
        "timeout/disconnect failures should remain in transport lane for reconnect retry"
    );
}

#[test]
fn supervisor_output_drain_yields_after_budget_instead_of_reading_unbounded_backlog() {
    let mut state = new_state(PtySize::new(24, 80));
    let lane = state.open_lane();
    state.register_terminal_attach(lane);
    let mut shown = AllBytes::default();
    let mut pump = SupervisorOutputPump::new();
    let mut reads = 0;
    while !pump.exhausted() {
        for batch in pump.on_read(b"xxxx".to_vec()) {
            shown = publish_supervisor_output_batch(&mut state, shown, &batch);
        }
        reads += 1;
    }
    assert_eq!(
        reads, SUPERVISOR_OUTPUT_PUMP_MAX_CHUNKS_PER_TICK,
        "a drain must return when its budget is used up"
    );
    for batch in pump.finish() {
        shown = publish_supervisor_output_batch(&mut state, shown, &batch);
    }
    assert!(matches!(
        state.lane_try_recv(lane),
        Some(PtyTerminalFrame::Output { terminal_seq: 1, data })
            if data.len() == 4 * SUPERVISOR_OUTPUT_PUMP_MAX_CHUNKS_PER_TICK
    ));
    assert!(
        state.lane_try_recv(lane).is_none(),
        "small reads of one drain are published together"
    );
    assert_eq!(shown.snapshot().len(), 4 * SUPERVISOR_OUTPUT_PUMP_MAX_CHUNKS_PER_TICK);
    let unchanged = publish_supervisor_output_batch(&mut state, AllBytes::default(), b"");
    assert!(unchanged.snapshot().is_empty());
}

#[test]
fn supervisor_output_burst_does_not_overflow_healthy_terminal_attach() {
    const BURST_CHUNKS: usize = 900;
    let mut state = new_state(PtySize::new(24, 80));
    let lane = state.open_lane();
    state.register_terminal_attach(lane);
    let mut shown = AllBytes::default();

    let mut remaining = BURST_CHUNKS;
    while remaining > 0 {
        let mut pump = SupervisorOutputPump::new();
        while remaining > 0 && !pump.exhausted() {
            for batch in pump.on_read(b"xxxx".to_vec()) {
                shown = publish_supervisor_output_batch(&mut state, shown, &batch);
            }
            remaining -= 1;
        }
        for batch in pump.finish() {
            shown = publish_supervisor_output_batch(&mut state, shown, &batch);
        }
    }

    assert_eq!(
        state.terminal_attach_count(),
        1,
        "producer-side small reads must not be mistaken for a slow terminal consumer"
    );
    let mut frame_count = 0_usize;
    let mut output_bytes = 0_usize;
    while let Some(frame) = state.lane_try_recv(lane) {
        if let PtyTerminalFrame::Output { data, .. } = frame {
            frame_count = frame_count.saturating_add(1);
            output_bytes = output_bytes.saturating_add(data.len());
        }
    }
    assert_eq!(output_bytes, BURST_CHUNKS * 4);
    assert_eq!(
        frame_count,
        BURST_CHUNKS.div_ceil(SUPERVISOR_OUTPUT_PUMP_MAX_CHUNKS_PER_TICK),
        "each scheduled drain tick should publish one bounded aggregate frame"
    );
}

#[test]
fn attach_sync_falls_back_to_snapshot_when_requested_seq_is_outside_journal() {
    let mut state = new_state(PtySize::new(4, 40));
    for index in 0..=TERMINAL_JOURNAL_MAX_EVENTS {
        state.record_output(format!("line-{index}\n").as_bytes());
    }
    let lane = state.open_lane();

    let (_controller_id, sync) = state.attach_sync(lane, Some(42), Some(0), screen());

    assert_eq!(sync.base_seq, (TERMINAL_JOURNAL_MAX_EVENTS + 1) as u64);
    assert!(matches!(
        sync.frames.as_slice(),
        [PtyTerminalFrame::Snapshot { base_seq, .. }]
            if *base_seq == (TERMINAL_JOURNAL_MAX_EVENTS + 1) as u64
    ));
}

#[test]
fn attach_sync_drops_queued_live_frames_already_covered_by_base_seq() {
    let mut lane = TerminalFrameLane::new();
    lane.try_send(PtyTerminalFrame::Output {
        terminal_seq: 1,
        data: b"old".to_vec(),
    })
    .expect("test queue should accept old frame");
    lane.try_send(PtyTerminalFrame::Output {
        terminal_seq: 3,
        data: b"new".to_vec(),
    })
    .expect("test queue should accept new frame");

    let delayed = lane.drain_after_sync(2);

    assert!(matches!(
        delayed.as_slice(),
        [PtyTerminalFrame::Output {
            terminal_seq: 3,
            data,
        }] if data == b"new"
    ));
    assert!(
        lane.try_recv().is_none(),
        "drain should leave no covered frame in the controller queue"
    );
}

#[test]
fn supervisor_terminal_resize_rebases_tail_to_snapshot() {
    let mut state = new_state(PtySize::new(4, 40));
    let output = state.record_output(b"before resize");
    let resize = state.resize(PtySize::new(10, 100));

    assert_eq!(output.terminal_seq(), Some(1));
    assert_eq!(resize.terminal_seq(), Some(2));
    match state
        .terminal_snapshot_or_tail_with_base(Some(1), b"before resize".to_vec())
        .1
        .as_slice()
    {
        [PtyTerminalFrame::Snapshot {
            base_seq,
            size,
            data,
        }] => {
            assert_eq!(*base_seq, 2);
            assert_eq!(*size, PtySize::new(10, 100));
            assert!(
                data.windows(b"before resize".len())
                    .any(|window| window == b"before resize"),
                "recovery across a resize must return the current screen"
            );
        }
        other => panic!("resize-crossing tail must return snapshot, got {other:?}"),
    }
}

#[test]
fn supervisor_terminal_exit_consumes_session_seq() {
    let mut state = new_state(PtySize::new(4, 40));
    let output = state.record_output(b"before exit");
    let exit = state.record_exit(Some(0));

    assert_eq!(output.terminal_seq(), Some(1));
    assert_eq!(exit.terminal_seq(), Some(2));
    assert_eq!(
        state.terminal_snapshot_or_tail_with_base(Some(1), screen()).1,
        vec![exit]
    );
}

#[test]
fn daemon_terminal_mirror_returns_tail_without_supervisor_roundtrip() {
    let mut mirror = SupervisorTerminalMirror::new(PtySize::new(4, 40));
    mirror.reset_from_snapshot(PtySize::new(4, 40), 1);
    mirror.apply_frame(&PtyTerminalFrame::Output {
        terminal_seq: 2,
        data: b"beta\n".to_vec(),
    });

    let (base_seq, tail) = mirror.terminal_snapshot_or_tail(Some(1), screen());

    assert_eq!(base_seq, 2);
    assert_eq!(
        tail,
        vec![PtyTerminalFrame::Output {
            terminal_seq: 2,
            data: b"beta\n".to_vec(),
        }]
    );
    assert!(
        mirror
            .terminal_snapshot_or_tail(Some(2), screen())
            .1
            .is_empty(),
        "a client that has everything gets neither snapshot nor tail"
    );
}

#[test]
fn daemon_terminal_mirror_falls_back_to_snapshot_after_sequence_gap() {
    let mut mirror = SupervisorTerminalMirror::new(PtySize::new(4, 40));
    mirror.reset_from_snapshot(PtySize::new(4, 40), 1);
    mirror.apply_frame(&PtyTerminalFrame::Output {
        terminal_seq: 4,
        data: b"delta\n".to_vec(),
    });

    let (base_seq, frames) = mirror.terminal_snapshot_or_tail(Some(1), b"alpha\ndelta\n".to_vec());

    assert_eq!(base_seq, 4);
    assert!(matches!(
        frames.as_slice(),
        [PtyTerminalFrame::Snapshot { base_seq: 4, data, .. }]
            if String::from_utf8_lossy(data.as_slice()).contains("delta")
    ));
}

#[test]
fn daemon_terminal_mirror_ignores_live_frames_already_covered_by_snapshot() {
    let mut mirror = SupervisorTerminalMirror::new(PtySize::new(4, 40));
    mirror.reset_from_snapshot(PtySize::new(4, 40), 5);

    assert!(
        !mirror.apply_frame(&PtyTerminalFrame::Output {
            terminal_seq: 4,
            data: b"old\n".to_vec(),
        }),
        "a live frame that the snapshot covers must not be applied again"
    );
    assert!(mirror
        .terminal_snapshot_or_tail(Some(5), screen())
        .1
        .is_empty());
}

#[test]
fn daemon_terminal_mirror_does_not_let_late_attach_snapshot_roll_back_live_tail() {
    let mut mirror = SupervisorTerminalMirror::new(PtySize::new(4, 40));
    mirror.reset_from_snapshot(PtySize::new(4, 40), 5);
    mirror.apply_frame(&PtyTerminalFrame::Output {
        terminal_seq: 6,
        data: b"live-after-snapshot\n".to_vec(),
    });

    let sync = mirror.apply_snapshot_and_tail(PtySize::new(4, 40), 5, &[]);
    assert!(!sync.reset);

    let (base_seq, frames) = mirror.terminal_snapshot_or_tail(Some(5), screen());
    assert_eq!(base_seq, 6);
    assert_eq!(
        frames,
        vec![PtyTerminalFrame::Output {
            terminal_seq: 6,
            data: b"live-after-snapshot\n".to_vec(),
        }]
    );
}

#[test]
fn mirrors_take_snapshot_and_tail_together() {
    let mut mirror = SupervisorTerminalMirror::new(PtySize::new(4, 40));
    let frames = [
        PtyTerminalFrame::Output {
            terminal_seq: 5,
            data: b"covered".to_vec(),
        },
        PtyTerminalFrame::Output {
            terminal_seq: 6,
            data: b"new".to_vec(),
        },
    ];
    let sync = mirror.apply_snapshot_and_tail(PtySize::new(8, 80), 5, &frames);
    assert!(sync.reset);
    assert_eq!(sync.accepted, [false, true]);
    assert_eq!(mirror.current_terminal_seq(), 6);
    assert_eq!(mirror.size(), PtySize::new(8, 80));
}

#[test]
fn journals_keep_the_latest_events_only() {
    let mut cache = SupervisorTerminalCache::new(PtySize::new(4, 40));
    for _ in 0..TERMINAL_JOURNAL_MAX_EVENTS + 5 {
        cache.record_output(b"x");
    }
    assert_eq!(cache.journal_len(), TERMINAL_JOURNAL_MAX_EVENTS);
    assert_eq!(
        cache.current_terminal_seq(),
        TERMINAL_JOURNAL_MAX_EVENTS as u64 + 5
    );
    assert_eq!(
        cache.next_terminal_seq(),
        TERMINAL_JOURNAL_MAX_EVENTS as u64 + 6
    );
}

#[test]
fn exits_are_published_with_their_code() {
    let mut state = new_state(PtySize::new(4, 40));
    let lane = state.open_lane();
    state.register_terminal_attach(lane);
    publish_exit(&mut state, &PtyExitStatus::exited(7));
    assert!(state.exited());
    assert_eq!(
        state.lane_try_recv(lane),
        Some(PtyTerminalFrame::Exit {
            terminal_seq: 1,
            code: Some(7),
        })
    );
}

#[test]
fn closed_lanes_and_removed_attaches_receive_nothing() {
    let mut state = new_state(PtySize::new(4, 40));
    let lane = state.open_lane();
    let attach = state.register_terminal_attach(lane);
    state.remove_terminal_attach(attach);
    let frame = state.record_output(b"late");
    state.broadcast_terminal_frame(&frame);
    assert!(state.lane_try_recv(lane).is_none());
    assert!(!state.lane_overflowed(lane));
    state.close_lane(lane);
    assert_eq!(state.terminal_attach_count(), 0);
}
