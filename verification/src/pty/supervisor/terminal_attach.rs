//! The protocol of one terminal viewer's socket.
//!
//! A viewer bootstraps once, is brought up to date, and then sends input and size changes and
//! receives live frames. A heartbeat finds viewers that are gone.

use crate::collections::{with, without};
use crate::pty::supervisor::connection::{EffectModel, PtyEffect};
use crate::pty::supervisor::output_queue::{not_covered, LaneModel};
use crate::pty::supervisor::protocol::{
    ServerFrameModel, SupervisorTerminalClientFrame, SupervisorTerminalServerFrame,
};
use crate::pty::supervisor::screen::ScreenEmulator;
use crate::pty::supervisor::state::{StateModel, SupervisorState};
use crate::pty::supervisor::terminal_journal::next_or_same;
use crate::pty::{FrameModel, PtyError, PtyErrorModel, PtySize, PtyTerminalFrame};
use crate::text::{concat, concat3, decimal, format_u128, format_u64, str_equal};
use vstd::prelude::*;
use vstd::slice::slice_to_vec;

verus! {

/// How often a viewer is asked for a sign of life.
pub const SUPERVISOR_TERMINAL_HEARTBEAT_INTERVAL_MS: u64 = 10000;

/// How long a viewer may stay silent after it was asked.
pub const SUPERVISOR_TERMINAL_HEARTBEAT_TIMEOUT_MS: u64 = 30000;

/// What one viewer's connection remembers.
pub struct TerminalAttachConnection {
    session_id: String,
    lane_id: u64,
    attach_id: u64,
    process_id: Option<u32>,
    pending_heartbeat: Option<PendingHeartbeat>,
}

/// A heartbeat that has not been answered yet.
#[derive(Debug)]
pub struct PendingHeartbeat {
    nonce: String,
    sent_at_ms: u64,
}

/// The mathematical content of a [`TerminalAttachConnection`].
pub struct TerminalAttachModel {
    pub session_id: Seq<char>,
    pub lane_id: u64,
    pub attach_id: u64,
    pub process_id: Option<u32>,
    pub heartbeat: Option<(Seq<char>, u64)>,
}

impl View for TerminalAttachConnection {
    type V = TerminalAttachModel;

    closed spec fn view(&self) -> TerminalAttachModel {
        TerminalAttachModel {
            session_id: self.session_id@,
            lane_id: self.lane_id,
            attach_id: self.attach_id,
            process_id: self.process_id,
            heartbeat: match self.pending_heartbeat {
                Some(pending) => Some((pending.nonce@, pending.sent_at_ms)),
                None => None,
            },
        }
    }
}

/// A viewer that has bootstrapped: its connection, and what it is sent first.
pub struct BootstrappedAttach {
    pub connection: TerminalAttachConnection,
    pub sync: SupervisorTerminalServerFrame,
    pub base_seq: u64,
}

/// Why a viewer could not bootstrap: what it is told, and how the connection ends.
pub struct RefusedBootstrap {
    pub close: SupervisorTerminalServerFrame,
    pub error: PtyError,
}

/// What to do about a frame or a tick.
#[derive(Debug)]
pub enum TerminalAttachStep {
    /// Nothing.
    Continue,
    /// Do something to the pseudo-terminal; a failure ends the connection.
    Perform(PtyEffect),
    /// Send a frame.
    Send(SupervisorTerminalServerFrame),
    /// Send a last frame, if it can be sent, and end the connection without a failure.
    Close(SupervisorTerminalServerFrame),
    /// End the connection with a failure.
    Fail(PtyError),
}

/// A farewell.
pub open spec fn farewell(reason: Seq<char>, message: Seq<char>) -> ServerFrameModel {
    ServerFrameModel::Close { reason, message: Some(message) }
}

fn close_frame(reason: &str, message: String) -> (frame: SupervisorTerminalServerFrame)
    ensures
        frame@ == farewell(reason@, message@),
{
    SupervisorTerminalServerFrame::Close { reason: reason.to_owned(), message: Some(message) }
}

/// The text that a heartbeat asks to be repeated: the time, and the process.
pub open spec fn heartbeat_nonce(unix_ms: u128, process_id: Option<u32>) -> Seq<char> {
    decimal(unix_ms as nat) + "-"@ + decimal(
        match process_id {
            Some(pid) => pid as nat,
            None => 0,
        },
    )
}

/// The shared state once a viewer has registered.
pub open spec fn registered(state: StateModel, lane_id: u64) -> StateModel {
    StateModel {
        next_terminal_attach_id: next_or_same(state.next_terminal_attach_id),
        terminal_attaches: with(
            state.terminal_attaches,
            state.next_terminal_attach_id,
            lane_id,
        ),
        ..state
    }
}

impl TerminalAttachConnection {
    /// Handles the first frame of a viewer.
    pub fn bootstrap(
        state: &mut SupervisorState,
        expected_session_id: &str,
        first: &SupervisorTerminalClientFrame,
        lane_id: u64,
        process_id: Option<u32>,
        screen: Vec<u8>,
    ) -> (res: Result<BootstrappedAttach, RefusedBootstrap>)
        requires
            old(state).wf(),
        ensures
            final(state).wf(),
            match first {
                SupervisorTerminalClientFrame::BootstrapAttach { session_id, last_terminal_seq } => {
                    if session_id@ == expected_session_id@ {
                        &&& final(state)@ == registered(old(state)@, lane_id)
                        &&& res matches Ok(attach) && {
                            &&& attach.connection@ == (TerminalAttachModel {
                                session_id: expected_session_id@,
                                lane_id,
                                attach_id: old(state)@.next_terminal_attach_id,
                                process_id,
                                heartbeat: None,
                            })
                            &&& attach.base_seq == old(state)@.terminal.current_seq()
                            &&& attach.sync@ == (ServerFrameModel::AttachSync {
                                session_id: expected_session_id@,
                                base_seq: attach.base_seq,
                                snapshot: old(state)@.snapshot_payload(process_id, Seq::empty()),
                                frames: old(state)@.terminal.frames_for(
                                    *last_terminal_seq,
                                    screen@,
                                ),
                            })
                        }
                    } else {
                        &&& final(state)@ == old(state)@
                        &&& res matches Err(refusal) && {
                            &&& refusal.close@ == farewell("protocol_error"@, "session id mismatch"@)
                            &&& refusal.error@ == PtyErrorModel::Backend("session id mismatch"@)
                        }
                    }
                },
                _ => {
                    &&& final(state)@ == old(state)@
                    &&& res matches Err(refusal) && {
                        &&& refusal.close@ == farewell(
                            "protocol_error"@,
                            "missing bootstrap attach"@,
                        )
                        &&& refusal.error@ == PtyErrorModel::Backend(
                            "session supervisor terminal attach is missing bootstrap"@,
                        )
                    }
                },
            },
    {
        let last_terminal_seq: Option<u64> = match first {
            SupervisorTerminalClientFrame::BootstrapAttach { session_id, last_terminal_seq } => {
                if !str_equal(session_id.as_str(), expected_session_id) {
                    return Err(
                        RefusedBootstrap {
                            close: close_frame("protocol_error", "session id mismatch".to_owned()),
                            error: PtyError::backend_message("session id mismatch"),
                        },
                    );
                }
                *last_terminal_seq
            },
            _ => {
                return Err(
                    RefusedBootstrap {
                        close: close_frame("protocol_error", "missing bootstrap attach".to_owned()),
                        error: PtyError::backend_message(
                            "session supervisor terminal attach is missing bootstrap",
                        ),
                    },
                );
            },
        };
        let attach_id: u64 = state.register_terminal_attach(lane_id);
        let empty: Vec<u8> = Vec::new();
        let snapshot = state.snapshot_payload(process_id, empty);
        assert(snapshot@.retained_output =~= Seq::<u8>::empty());
        let (base_seq, frames) = state.terminal_snapshot_or_tail_with_base(last_terminal_seq, screen);
        Ok(
            BootstrappedAttach {
                connection: TerminalAttachConnection {
                    session_id: expected_session_id.to_owned(),
                    lane_id,
                    attach_id,
                    process_id,
                    pending_heartbeat: None,
                },
                sync: SupervisorTerminalServerFrame::AttachSync {
                    session_id: expected_session_id.to_owned(),
                    base_seq,
                    snapshot,
                    frames,
                },
                base_seq,
            },
        )
    }

    /// The live frames that follow the first synchronisation: those that it does not cover.
    pub fn frames_after_sync(&self, state: &mut SupervisorState, base_seq: u64) -> (frames: Vec<
        SupervisorTerminalServerFrame,
    >)
        requires
            old(state).wf(),
        ensures
            final(state).wf(),
            ({
                let lanes = old(state)@.lanes;
                let waiting = if lanes.contains_key(self@.lane_id) {
                    not_covered(lanes[self@.lane_id].frames, base_seq)
                } else {
                    Seq::empty()
                };
                &&& frames@.len() == waiting.len()
                &&& forall|i: int|
                    0 <= i < waiting.len() ==> (#[trigger] frames@[i])@ == (
                    ServerFrameModel::TerminalFrame {
                        session_id: self@.session_id,
                        frame: waiting[i],
                    })
                &&& final(state)@ == (StateModel {
                    lanes: if lanes.contains_key(self@.lane_id) {
                        lanes.insert(
                            self@.lane_id,
                            LaneModel { frames: Seq::empty(), ..lanes[self@.lane_id] },
                        )
                    } else {
                        lanes
                    },
                    ..old(state)@
                })
            }),
    {
        let drained = state.drain_lane_after_sync(self.lane_id, base_seq);
        let ghost waiting = crate::pty::frame_models(drained@);
        let mut frames: Vec<SupervisorTerminalServerFrame> = Vec::new();
        let mut i: usize = 0;
        while i < drained.len()
            invariant
                i <= drained@.len(),
                waiting == crate::pty::frame_models(drained@),
                frames@.len() == i,
                forall|k: int|
                    0 <= k < i ==> (#[trigger] frames@[k])@ == (ServerFrameModel::TerminalFrame {
                        session_id: self@.session_id,
                        frame: waiting[k],
                    }),
            decreases drained@.len() - i,
        {
            frames.push(self.wrap(drained[i].clone()));
            i = i + 1;
        }
        frames
    }

    fn wrap(&self, frame: PtyTerminalFrame) -> (wrapped: SupervisorTerminalServerFrame)
        ensures
            wrapped@ == (ServerFrameModel::TerminalFrame {
                session_id: self@.session_id,
                frame: frame@,
            }),
    {
        SupervisorTerminalServerFrame::TerminalFrame { session_id: self.session_id.clone(), frame }
    }

    /// Handles a frame from the viewer.
    pub fn on_client_frame(&mut self, frame: &SupervisorTerminalClientFrame) -> (step:
        TerminalAttachStep)
        ensures
            match frame {
                SupervisorTerminalClientFrame::BootstrapAttach { .. } => {
                    &&& step matches TerminalAttachStep::Fail(e) && e@ == PtyErrorModel::Backend(
                        "terminal attach bootstrap must only be sent once"@,
                    )
                    &&& final(self)@ == old(self)@
                },
                SupervisorTerminalClientFrame::Input { data } => {
                    &&& step matches TerminalAttachStep::Perform(effect) && effect@
                        == EffectModel::Write(data@)
                    &&& final(self)@ == old(self)@
                },
                SupervisorTerminalClientFrame::Resize { size } => {
                    &&& step matches TerminalAttachStep::Perform(effect) && effect@
                        == EffectModel::Resize(*size)
                    &&& final(self)@ == old(self)@
                },
                SupervisorTerminalClientFrame::HeartbeatPong { nonce } => {
                    &&& step is Continue
                    &&& final(self)@ == (TerminalAttachModel {
                        heartbeat: match old(self)@.heartbeat {
                            Some((asked, sent_at)) => if asked == nonce@ {
                                None
                            } else {
                                Some((asked, sent_at))
                            },
                            None => None,
                        },
                        ..old(self)@
                    })
                },
            },
    {
        match frame {
            SupervisorTerminalClientFrame::BootstrapAttach { .. } => TerminalAttachStep::Fail(
                PtyError::backend_message("terminal attach bootstrap must only be sent once"),
            ),
            SupervisorTerminalClientFrame::Input { data } => TerminalAttachStep::Perform(
                PtyEffect::Write(slice_to_vec(data.as_slice())),
            ),
            SupervisorTerminalClientFrame::Resize { size } => TerminalAttachStep::Perform(
                PtyEffect::Resize(*size),
            ),
            SupervisorTerminalClientFrame::HeartbeatPong { nonce } => {
                let answered = match &self.pending_heartbeat {
                    Some(pending) => str_equal(pending.nonce.as_str(), nonce.as_str()),
                    None => false,
                };
                if answered {
                    self.pending_heartbeat = None;
                }
                TerminalAttachStep::Continue
            },
        }
    }

    /// The size of the pseudo-terminal has been changed for the viewer: the screen follows, and everybody
    /// is told.
    pub fn resized<S: ScreenEmulator>(state: &mut SupervisorState, screen: S, size: PtySize) -> (after: S)
        requires
            old(state).wf(),
            old(state)@.terminal.next_seq < u64::MAX,
        ensures
            final(state).wf(),
            ({
                let frame = FrameModel::Resize {
                    terminal_seq: old(state)@.terminal.next_seq,
                    size,
                };
                final(state)@ == (StateModel {
                    terminal: old(state)@.terminal.record(frame),
                    ..old(state)@
                }).broadcast(frame)
            }),
            call_ensures(S::resize, (screen, size), after),
    {
        let after = screen.resize(size);
        let frame = state.resize(size);
        state.broadcast_terminal_frame(&frame);
        after
    }

    /// The lane that carries the live frames of the viewer.
    pub fn lane_id(&self) -> (lane_id: u64)
        ensures
            lane_id == self@.lane_id,
    {
        self.lane_id
    }

    /// What is next for the viewer: a live frame, or the end of a viewer that reads too slowly.
    pub fn poll_outbound(&self, state: &mut SupervisorState) -> (step: TerminalAttachStep)
        requires
            old(state).wf(),
        ensures
            final(state).wf(),
            ({
                let lanes = old(state)@.lanes;
                let lane = lanes[self@.lane_id];
                if !lanes.contains_key(self@.lane_id) {
                    step is Continue && final(state)@ == old(state)@
                } else if lane.overflowed {
                    &&& step matches TerminalAttachStep::Close(frame) && frame@ == farewell(
                        "slow_consumer"@,
                        "terminal output queue overflow; reattach to resynchronize"@,
                    )
                    &&& final(state)@ == old(state)@
                } else if lane.frames.len() == 0 {
                    step is Continue && final(state)@ == old(state)@
                } else {
                    &&& step matches TerminalAttachStep::Send(frame) && frame@ == (
                    ServerFrameModel::TerminalFrame {
                        session_id: self@.session_id,
                        frame: lane.frames[0],
                    })
                    &&& final(state)@ == (StateModel {
                        lanes: lanes.insert(
                            self@.lane_id,
                            LaneModel { frames: lane.frames.drop_first(), ..lane },
                        ),
                        ..old(state)@
                    })
                }
            }),
    {
        if state.lane_overflowed(self.lane_id) {
            return TerminalAttachStep::Close(
                close_frame(
                    "slow_consumer",
                    "terminal output queue overflow; reattach to resynchronize".to_owned(),
                ),
            );
        }
        match state.lane_try_recv(self.lane_id) {
            Some(frame) => TerminalAttachStep::Send(self.wrap(frame)),
            None => TerminalAttachStep::Continue,
        }
    }

    /// A heartbeat is due. An answer that is too late ends the connection; while one is still awaited
    /// nothing is sent.
    pub fn on_heartbeat_tick(&mut self, now_ms: u64, unix_ms: u128) -> (step: TerminalAttachStep)
        ensures
            match old(self)@.heartbeat {
                Some((nonce, sent_at)) => {
                    &&& final(self)@ == old(self)@
                    &&& if now_ms - sent_at >= SUPERVISOR_TERMINAL_HEARTBEAT_TIMEOUT_MS {
                        step matches TerminalAttachStep::Close(frame) && frame@ == farewell(
                            "heartbeat_timeout"@,
                            "missed heartbeat pong for nonce "@ + nonce,
                        )
                    } else {
                        step is Continue
                    }
                },
                None => {
                    let nonce = heartbeat_nonce(unix_ms, old(self)@.process_id);
                    &&& final(self)@ == (TerminalAttachModel {
                        heartbeat: Some((nonce, now_ms)),
                        ..old(self)@
                    })
                    &&& step matches TerminalAttachStep::Send(frame) && frame@ == (
                    ServerFrameModel::HeartbeatPing {
                        nonce,
                        timeout_ms: SUPERVISOR_TERMINAL_HEARTBEAT_TIMEOUT_MS,
                    })
                },
            },
    {
        if let Some(pending) = &self.pending_heartbeat {
            if now_ms.saturating_sub(pending.sent_at_ms)
                >= SUPERVISOR_TERMINAL_HEARTBEAT_TIMEOUT_MS {
                return TerminalAttachStep::Close(
                    close_frame(
                        "heartbeat_timeout",
                        concat("missed heartbeat pong for nonce ", pending.nonce.as_str()),
                    ),
                );
            }
            return TerminalAttachStep::Continue;
        }
        let pid: u64 = match self.process_id {
            Some(pid) => pid as u64,
            None => 0,
        };
        let time = format_u128(unix_ms);
        let process = format_u64(pid);
        let nonce = concat3(time.as_str(), "-", process.as_str());
        let asked = nonce.clone();
        self.pending_heartbeat = Some(PendingHeartbeat { nonce, sent_at_ms: now_ms });
        TerminalAttachStep::Send(
            SupervisorTerminalServerFrame::HeartbeatPing {
                nonce: asked,
                timeout_ms: SUPERVISOR_TERMINAL_HEARTBEAT_TIMEOUT_MS,
            },
        )
    }

    /// The viewer is gone.
    pub fn finish(&self, state: &mut SupervisorState)
        requires
            old(state).wf(),
        ensures
            final(state).wf(),
            final(state)@ == viewer_gone(old(state)@, self@),
    {
        state.remove_terminal_attach(self.attach_id);
        state.close_lane(self.lane_id);
    }
}

/// The shared state once a viewer is gone.
pub open spec fn viewer_gone(state: StateModel, viewer: TerminalAttachModel) -> StateModel {
    StateModel {
        terminal_attaches: without(state.terminal_attaches, viewer.attach_id),
        lanes: state.lanes.remove(viewer.lane_id),
        ..state
    }
}

/// A viewer comes and goes without touching the session: the journal, the controllers and the
/// attached devices stay as they were.
pub proof fn law_viewer_leaves_the_session_alone(
    state: StateModel,
    viewer: TerminalAttachModel,
    lane_id: u64,
)
    ensures
        registered(state, lane_id).terminal == state.terminal,
        registered(state, lane_id).controllers == state.controllers,
        registered(state, lane_id).active_controller_id == state.active_controller_id,
        registered(state, lane_id).attached_devices == state.attached_devices,
        viewer_gone(state, viewer).terminal == state.terminal,
        viewer_gone(state, viewer).controllers == state.controllers,
        viewer_gone(state, viewer).active_controller_id == state.active_controller_id,
        viewer_gone(state, viewer).attached_devices == state.attached_devices,
        viewer_gone(state, viewer).exited == state.exited,
{
}

} // verus!
