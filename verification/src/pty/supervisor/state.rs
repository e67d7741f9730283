//! The state that all connections of a supervisor share.
//!
//! Several daemons may be connected, but one controller at most is active. The latest to attach is,
//! and a controller that lost its connection may resume under a new connection generation while it
//! holds the lease.

use crate::collections::{
    flagged, lemma_with, lemma_without, lookup, with, without, IdMap, StringSet,
};
use crate::pty::supervisor::output_queue::{LaneModel, TerminalFrameLane};
use crate::pty::supervisor::protocol::{
    AttachSyncModel, ControllerIdentity, SnapshotModel, SupervisorAttachSyncPayload,
    SupervisorSnapshotPayload,
};
use crate::pty::supervisor::terminal_journal::{
    next_or_same, CacheModel, SupervisorTerminalCache,
};
use crate::pty::{FrameModel, PtyError, PtyErrorModel, PtyResult, PtySize, PtyTerminalFrame};
use vstd::prelude::*;

verus! {

/// A registered controller: its connection generation and the lane that carries its live frames.
#[derive(Clone, Copy, Debug, PartialEq, Eq, Structural)]
pub struct ControllerHandle {
    pub connection_id: u64,
    pub lane_id: u64,
}

/// The state that all connections of a supervisor share.
pub struct SupervisorState {
    cleanup_capability: Option<[u8; 32]>,
    cleanup_capability_replaceable: bool,
    next_controller_id: u64,
    next_controller_connection_id: u64,
    active_controller_id: Option<u64>,
    active_controller_connection_id: Option<u64>,
    controller_resume_lease_id: Option<u64>,
    committed_resume_transactions: IdMap<ControllerIdentity>,
    confirmed_close_operation_id: Option<u64>,
    exited: bool,
    controllers: IdMap<ControllerHandle>,
    next_terminal_attach_id: u64,
    terminal_attaches: IdMap<u64>,
    attached_devices: StringSet,
    terminal: SupervisorTerminalCache,
    next_lane_id: u64,
    lanes: IdMap<TerminalFrameLane>,
}

/// The mathematical content of a [`SupervisorState`].
#[verifier::ext_equal]
pub struct StateModel {
    pub cleanup_capability: Option<Seq<u8>>,
    pub cleanup_capability_replaceable: bool,
    pub next_controller_id: u64,
    pub next_controller_connection_id: u64,
    pub active_controller_id: Option<u64>,
    pub active_controller_connection_id: Option<u64>,
    pub controller_resume_lease_id: Option<u64>,
    pub committed_resumes: Seq<(u64, ControllerIdentity)>,
    pub confirmed_close: Option<u64>,
    pub exited: bool,
    pub controllers: Seq<(u64, ControllerHandle)>,
    pub next_terminal_attach_id: u64,
    pub terminal_attaches: Seq<(u64, u64)>,
    pub attached_devices: Set<Seq<char>>,
    pub terminal: CacheModel,
    pub next_lane_id: u64,
    pub lanes: Map<u64, LaneModel>,
}

/// The lanes of a table by their contents.
pub open spec fn lane_models(entries: Seq<(u64, TerminalFrameLane)>) -> Map<u64, LaneModel> {
    Map::new(
        |id: u64| lookup(entries, id) is Some,
        |id: u64| lookup(entries, id)->0@,
    )
}

/// Every lane of a table is consistent.
pub open spec fn lanes_wf(entries: Seq<(u64, TerminalFrameLane)>) -> bool {
    forall|id: u64| (#[trigger] lookup(entries, id)) is Some ==> lookup(entries, id)->0.wf()
}

/// What happens to a frame that is sent to several lanes in order: which of them took it, and the
/// lanes afterwards. A lane that is gone takes nothing; one that is full or closed overflows.
pub open spec fn deliver(lanes: Map<u64, LaneModel>, targets: Seq<u64>, frame: FrameModel) -> (
    Seq<bool>,
    Map<u64, LaneModel>,
)
    decreases targets.len(),
{
    if targets.len() == 0 {
        (Seq::empty(), lanes)
    } else {
        let (taken, rest) = deliver(lanes, targets.drop_last(), frame);
        let target = targets.last();
        if !rest.contains_key(target) {
            (taken.push(false), rest)
        } else if rest[target].accepts(frame) {
            (taken.push(true), rest.insert(target, rest[target].sent(frame)))
        } else {
            (
                taken.push(false),
                rest.insert(target, LaneModel { overflowed: true, ..rest[target] }),
            )
        }
    }
}

/// The lanes of the registered controllers.
pub open spec fn controller_lanes(controllers: Seq<(u64, ControllerHandle)>) -> Seq<u64> {
    Seq::new(controllers.len(), |i: int| controllers[i].1.lane_id)
}

/// The lanes of the registered terminal viewers.
pub open spec fn attach_lanes(attaches: Seq<(u64, u64)>) -> Seq<u64> {
    Seq::new(attaches.len(), |i: int| attaches[i].1)
}

/// The refusal of a connection that is not the active controller.
pub open spec fn not_active() -> PtyErrorModel {
    PtyErrorModel::Backend("session supervisor connection is not the active controller"@)
}

impl StateModel {
    /// The state of a supervisor that has just started.
    pub open spec fn initial(size: PtySize, capability: Option<Seq<u8>>) -> StateModel {
        StateModel {
            cleanup_capability: capability,
            cleanup_capability_replaceable: capability is None,
            next_controller_id: 1,
            next_controller_connection_id: 1,
            active_controller_id: None,
            active_controller_connection_id: None,
            controller_resume_lease_id: None,
            committed_resumes: Seq::empty(),
            confirmed_close: None,
            exited: false,
            controllers: Seq::empty(),
            next_terminal_attach_id: 1,
            terminal_attaches: Seq::empty(),
            attached_devices: Set::empty(),
            terminal: CacheModel { next_seq: 1, journal: Seq::empty(), size },
            next_lane_id: 1,
            lanes: Map::empty(),
        }
    }

    /// This controller, under this connection generation, is the active one and is registered.
    pub open spec fn is_active(self, controller: ControllerIdentity) -> bool {
        &&& self.active_controller_id == Some(controller.id)
        &&& self.active_controller_connection_id == Some(controller.connection_id)
        &&& lookup(self.controllers, controller.id) matches Some(handle) && handle.connection_id
            == controller.connection_id
    }

    /// A controller may take over again: it holds the lease and nobody else is active.
    pub open spec fn may_resume(self, id: u64) -> bool {
        &&& self.controller_resume_lease_id == Some(id)
        &&& (self.active_controller_id matches Some(active) ==> active == id)
    }

    /// A controller becomes the active one under a connection generation and a lane.
    pub open spec fn activated(self, controller: ControllerIdentity, lane_id: u64) -> StateModel {
        StateModel {
            controllers: with(
                self.controllers,
                controller.id,
                ControllerHandle { connection_id: controller.connection_id, lane_id },
            ),
            active_controller_id: Some(controller.id),
            active_controller_connection_id: Some(controller.connection_id),
            ..self
        }
    }

    /// A new controller attaches.
    pub open spec fn attached(self, lane_id: u64) -> StateModel {
        let controller = self.next_identity();
        StateModel {
            next_controller_id: next_or_same(self.next_controller_id),
            next_controller_connection_id: next_or_same(self.next_controller_connection_id),
            controller_resume_lease_id: Some(controller.id),
            ..self.activated(controller, lane_id)
        }
    }

    /// The identity that the next controller to attach gets.
    pub open spec fn next_identity(self) -> ControllerIdentity {
        ControllerIdentity {
            id: self.next_controller_id,
            connection_id: self.next_controller_connection_id,
        }
    }

    /// The state after a connection generation has been handed out.
    pub open spec fn connection_allocated(self) -> StateModel {
        StateModel {
            next_controller_connection_id: next_or_same(self.next_controller_connection_id),
            ..self
        }
    }

    /// A request to resume is granted a candidate identity.
    pub open spec fn may_prepare_resume(self, id: u64) -> bool {
        0 < id && id < self.next_controller_id && self.may_resume(id)
    }

    /// A controller that is no longer there.
    pub open spec fn removed(self, controller: ControllerIdentity) -> StateModel {
        let registered = lookup(self.controllers, controller.id) matches Some(handle)
            && handle.connection_id == controller.connection_id;
        let active = self.active_controller_id == Some(controller.id)
            && self.active_controller_connection_id == Some(controller.connection_id);
        StateModel {
            controllers: if registered {
                without(self.controllers, controller.id)
            } else {
                self.controllers
            },
            active_controller_id: if active {
                None
            } else {
                self.active_controller_id
            },
            active_controller_connection_id: if active {
                None
            } else {
                self.active_controller_connection_id
            },
            ..self
        }
    }

    /// What a snapshot response says of the session host.
    pub open spec fn snapshot_payload(
        self,
        process_id: Option<u32>,
        retained_output: Seq<u8>,
    ) -> SnapshotModel {
        SnapshotModel { size: self.terminal.size, process_id, exited: self.exited, retained_output }
    }

    /// What a controller is told on attaching. The screen travels in the frames alone.
    pub open spec fn sync_payload(
        self,
        controller: ControllerIdentity,
        process_id: Option<u32>,
        last: Option<u64>,
        screen: Seq<u8>,
    ) -> AttachSyncModel {
        AttachSyncModel {
            controller_id: controller.id,
            controller_connection_id: controller.connection_id,
            snapshot: self.snapshot_payload(process_id, Seq::empty()),
            base_seq: self.terminal.current_seq() as u64,
            frames: self.terminal.frames_for(last, screen),
        }
    }

    /// The active controller lost its place because its lane took no more.
    pub open spec fn active_dropped(self, taken: Seq<bool>) -> bool {
        exists|i: int|
            #![trigger self.controllers[i]]
            0 <= i < self.controllers.len() && !taken[i] && self.active_controller_id == Some(
                self.controllers[i].0,
            ) && self.active_controller_connection_id == Some(self.controllers[i].1.connection_id)
    }

    /// A frame goes to every controller and every terminal viewer; whoever cannot take it is dropped.
    pub open spec fn broadcast(self, frame: FrameModel) -> StateModel {
        let (to_controllers, lanes) = deliver(
            self.lanes,
            controller_lanes(self.controllers),
            frame,
        );
        let (to_viewers, lanes) = deliver(lanes, attach_lanes(self.terminal_attaches), frame);
        let dropped = self.active_dropped(to_controllers);
        StateModel {
            controllers: flagged(self.controllers, to_controllers),
            active_controller_id: if dropped {
                None
            } else {
                self.active_controller_id
            },
            active_controller_connection_id: if dropped {
                None
            } else {
                self.active_controller_connection_id
            },
            terminal_attaches: flagged(self.terminal_attaches, to_viewers),
            lanes,
            ..self
        }
    }
}

impl View for SupervisorState {
    type V = StateModel;

    closed spec fn view(&self) -> StateModel {
        StateModel {
            cleanup_capability: match self.cleanup_capability {
                Some(capability) => Some(capability@),
                None => None,
            },
            cleanup_capability_replaceable: self.cleanup_capability_replaceable,
            next_controller_id: self.next_controller_id,
            next_controller_connection_id: self.next_controller_connection_id,
            active_controller_id: self.active_controller_id,
            active_controller_connection_id: self.active_controller_connection_id,
            controller_resume_lease_id: self.controller_resume_lease_id,
            committed_resumes: self.committed_resume_transactions@,
            confirmed_close: self.confirmed_close_operation_id,
            exited: self.exited,
            controllers: self.controllers@,
            next_terminal_attach_id: self.next_terminal_attach_id,
            terminal_attaches: self.terminal_attaches@,
            attached_devices: self.attached_devices@,
            terminal: self.terminal@,
            next_lane_id: self.next_lane_id,
            lanes: lane_models(self.lanes@),
        }
    }
}

fn same_number(a: Option<u64>, b: u64) -> (same: bool)
    ensures
        same == (a == Some(b)),
{
    match a {
        Some(value) => value == b,
        None => false,
    }
}

/// Sends a frame to lanes in order.
fn deliver_frame(
    lanes: &mut IdMap<TerminalFrameLane>,
    targets: &Vec<u64>,
    frame: &PtyTerminalFrame,
) -> (taken: Vec<bool>)
    requires
        lanes_wf(old(lanes)@),
    ensures
        lanes_wf(final(lanes)@),
        taken@.len() == targets@.len(),
        (taken@, lane_models(final(lanes)@)) == deliver(
            lane_models(old(lanes)@),
            targets@,
            frame@,
        ),
{
    let mut taken: Vec<bool> = Vec::new();
    let mut i: usize = 0;
    assert(targets@.take(0) =~= Seq::<u64>::empty());
    while i < targets.len()
        invariant
            i <= targets@.len(),
            taken@.len() == i,
            lanes_wf(lanes@),
            (taken@, lane_models(lanes@)) == deliver(
                lane_models(old(lanes)@),
                targets@.take(i as int),
                frame@,
            ),
        decreases targets@.len() - i,
    {
        let ghost part = targets@.take(i + 1);
        assert(part.drop_last() =~= targets@.take(i as int));
        assert(part.last() == targets@[i as int]);
        let target: u64 = targets[i];
        let ghost before = lanes@;
        match lanes.remove(target) {
            Some(lane) => {
                let mut lane = lane;
                let ghost middle = lanes@;
                let sent = lane.try_send(frame.clone());
                let ghost model = lane@;
                lanes.insert(target, lane);
                taken.push(sent.is_ok());
                proof {
                    assert forall|id: u64|
                        #![trigger lookup(lanes@, id)]
                        lookup(lanes@, id) == (if id == target {
                            Some(lane)
                        } else {
                            lookup(before, id)
                        }) by {
                        lemma_without(before, target, id);
                        lemma_with(middle, target, lane, id);
                    }
                    assert(lane_models(lanes@) =~= lane_models(before).insert(target, model));
                }
            },
            None => {
                proof {
                    lemma_without(before, target, target);
                }
                taken.push(false);
            },
        }
        i = i + 1;
    }
    assert(targets@.take(i as int) =~= targets@);
    taken
}

impl SupervisorState {
    /// The parts of the state are consistent.
    pub closed spec fn wf(&self) -> bool {
        &&& self.attached_devices.wf()
        &&& self.terminal.wf()
        &&& lanes_wf(self.lanes@)
    }

    /// A consistent state has a consistent journal.
    pub proof fn lemma_wf(&self)
        requires
            self.wf(),
        ensures
            self@.terminal.wf(),
    {
        self.terminal.lemma_wf();
    }

    /// The state of a supervisor that starts with or without a cleanup capability.
    pub fn with_optional_cleanup_capability(size: PtySize, cleanup_capability: Option<[u8; 32]>) -> (state:
        Self)
        ensures
            state.wf(),
            state@ == StateModel::initial(
                size,
                match cleanup_capability {
                    Some(capability) => Some(capability@),
                    None => None,
                },
            ),
    {
        let cleanup_capability_replaceable = cleanup_capability.is_none();
        let state = SupervisorState {
            cleanup_capability,
            cleanup_capability_replaceable,
            next_controller_id: 1,
            next_controller_connection_id: 1,
            active_controller_id: None,
            active_controller_connection_id: None,
            controller_resume_lease_id: None,
            committed_resume_transactions: IdMap::new(),
            confirmed_close_operation_id: None,
            exited: false,
            controllers: IdMap::new(),
            next_terminal_attach_id: 1,
            terminal_attaches: IdMap::new(),
            attached_devices: StringSet::new(),
            terminal: SupervisorTerminalCache::new(size),
            next_lane_id: 1,
            lanes: IdMap::new(),
        };
        assert(state@.lanes =~= Map::<u64, LaneModel>::empty());
        state
    }

    /// The state of a supervisor that starts with a cleanup capability.
    pub fn with_cleanup_capability(size: PtySize, cleanup_capability: [u8; 32]) -> (state: Self)
        ensures
            state.wf(),
            state@ == StateModel::initial(size, Some(cleanup_capability@)),
    {
        Self::with_optional_cleanup_capability(size, Some(cleanup_capability))
    }

    // --- lanes

    /// Opens a lane for the live frames of a connection.
    pub fn open_lane(&mut self) -> (lane_id: u64)
        requires
            old(self).wf(),
            old(self)@.next_lane_id < u64::MAX,
        ensures
            final(self).wf(),
            lane_id == old(self)@.next_lane_id,
            final(self)@ == (StateModel {
                next_lane_id: (old(self)@.next_lane_id + 1) as u64,
                lanes: old(self)@.lanes.insert(lane_id, LaneModel::fresh()),
                ..old(self)@
            }),
    {
        let lane_id: u64 = self.next_lane_id;
        self.next_lane_id = lane_id + 1;
        let ghost before = self.lanes@;
        let lane = TerminalFrameLane::new();
        self.lanes.insert(lane_id, lane);
        proof {
            assert forall|id: u64|
                #![trigger lookup(self.lanes@, id)]
                lookup(self.lanes@, id) == (if id == lane_id {
                    Some(lane)
                } else {
                    lookup(before, id)
                }) by {
                lemma_with(before, lane_id, lane, id);
            }
            assert(self@.lanes =~= old(self)@.lanes.insert(lane_id, LaneModel::fresh()));
        }
        lane_id
    }

    /// A connection is gone, and its lane with it.
    pub fn close_lane(&mut self, lane_id: u64)
        requires
            old(self).wf(),
        ensures
            final(self).wf(),
            final(self)@ == (StateModel { lanes: old(self)@.lanes.remove(lane_id), ..old(self)@ }),
    {
        let ghost before = self.lanes@;
        let _ = self.lanes.remove(lane_id);
        proof {
            assert forall|id: u64|
                #![trigger lookup(self.lanes@, id)]
                lookup(self.lanes@, id) == (if id == lane_id {
                    None
                } else {
                    lookup(before, id)
                }) by {
                lemma_without(before, lane_id, id);
            }
            assert(self@.lanes =~= old(self)@.lanes.remove(lane_id));
        }
    }

    /// Takes the oldest live frame of a lane.
    pub fn lane_try_recv(&mut self, lane_id: u64) -> (frame: Option<PtyTerminalFrame>)
        requires
            old(self).wf(),
        ensures
            final(self).wf(),
            frame is Some <==> old(self)@.lanes.contains_key(lane_id)
                && old(self)@.lanes[lane_id].frames.len() > 0,
            frame is None ==> final(self)@ == old(self)@,
            frame matches Some(f) ==> f@ == old(self)@.lanes[lane_id].frames[0] && final(self)@
                == (StateModel {
                lanes: old(self)@.lanes.insert(
                    lane_id,
                    LaneModel {
                        frames: old(self)@.lanes[lane_id].frames.drop_first(),
                        ..old(self)@.lanes[lane_id]
                    },
                ),
                ..old(self)@
            }),
    {
        let ghost before = self.lanes@;
        match self.lanes.remove(lane_id) {
            Some(lane) => {
                let mut lane = lane;
                let ghost middle = self.lanes@;
                let frame = lane.try_recv();
                self.lanes.insert(lane_id, lane);
                proof {
                    assert forall|id: u64|
                        #![trigger lookup(self.lanes@, id)]
                        lookup(self.lanes@, id) == (if id == lane_id {
                            Some(lane)
                        } else {
                            lookup(before, id)
                        }) by {
                        lemma_without(before, lane_id, id);
                        lemma_with(middle, lane_id, lane, id);
                    }
                    assert(self@.lanes =~= lane_models(before).insert(lane_id, lane@));
                    if frame is None {
                        assert(self@.lanes =~= lane_models(before));
                    }
                }
                frame
            },
            None => {
                proof {
                    lemma_without(before, lane_id, lane_id);
                }
                None
            },
        }
    }

    /// The live frames of a lane that a synchronisation up to `base_seq` does not cover.
    pub fn drain_lane_after_sync(&mut self, lane_id: u64, base_seq: u64) -> (frames: Vec<
        PtyTerminalFrame,
    >)
        requires
            old(self).wf(),
        ensures
            final(self).wf(),
            crate::pty::frame_models(frames@) == (if old(self)@.lanes.contains_key(lane_id) {
                crate::pty::supervisor::output_queue::not_covered(
                    old(self)@.lanes[lane_id].frames,
                    base_seq,
                )
            } else {
                Seq::empty()
            }),
            final(self)@ == (StateModel {
                lanes: if old(self)@.lanes.contains_key(lane_id) {
                    old(self)@.lanes.insert(
                        lane_id,
                        LaneModel { frames: Seq::empty(), ..old(self)@.lanes[lane_id] },
                    )
                } else {
                    old(self)@.lanes
                },
                ..old(self)@
            }),
    {
        let ghost before = self.lanes@;
        match self.lanes.remove(lane_id) {
            Some(lane) => {
                let mut lane = lane;
                let ghost middle = self.lanes@;
                let frames = lane.drain_after_sync(base_seq);
                self.lanes.insert(lane_id, lane);
                proof {
                    assert forall|id: u64|
                        #![trigger lookup(self.lanes@, id)]
                        lookup(self.lanes@, id) == (if id == lane_id {
                            Some(lane)
                        } else {
                            lookup(before, id)
                        }) by {
                        lemma_without(before, lane_id, id);
                        lemma_with(middle, lane_id, lane, id);
                    }
                    assert(self@.lanes =~= lane_models(before).insert(lane_id, lane@));
                }
                frames
            },
            None => {
                proof {
                    lemma_without(before, lane_id, lane_id);
                }
                let frames: Vec<PtyTerminalFrame> = Vec::new();
                assert(crate::pty::frame_models(frames@) =~= Seq::<FrameModel>::empty());
                frames
            },
        }
    }

    /// Whether a lane had to refuse a frame.
    pub fn lane_overflowed(&self, lane_id: u64) -> (overflowed: bool)
        requires
            self.wf(),
        ensures
            overflowed == (self@.lanes.contains_key(lane_id) && self@.lanes[lane_id].overflowed),
    {
        match self.lanes.get(lane_id) {
            Some(lane) => lane.overflowed(),
            None => false,
        }
    }

    // --- devices

    /// Marks a device as attached.
    pub fn attach_device(&mut self, device_id: &str)
        requires
            old(self).wf(),
        ensures
            final(self).wf(),
            final(self)@ == (StateModel {
                attached_devices: old(self)@.attached_devices.insert(device_id@),
                ..old(self)@
            }),
    {
        self.attached_devices.insert(device_id.to_owned());
    }

    /// Marks a device as detached; a device that is not attached stays so.
    pub fn detach_device(&mut self, device_id: &str)
        requires
            old(self).wf(),
        ensures
            final(self).wf(),
            final(self)@ == (StateModel {
                attached_devices: old(self)@.attached_devices.remove(device_id@),
                ..old(self)@
            }),
    {
        let _ = self.attached_devices.remove(device_id);
    }

    /// Whether a device is attached.
    pub fn has_attached_device(&self, device_id: &str) -> (attached: bool)
        requires
            self.wf(),
        ensures
            attached == self@.attached_devices.contains(device_id@),
    {
        self.attached_devices.contains(device_id)
    }

    /// Marks every device as detached.
    pub fn reset_attached_devices(&mut self)
        requires
            old(self).wf(),
        ensures
            final(self).wf(),
            final(self)@ == (StateModel { attached_devices: Set::empty(), ..old(self)@ }),
    {
        self.attached_devices.clear();
    }

    // --- terminal

    /// Records output of the pseudo-terminal.
    pub fn record_output(&mut self, bytes: &[u8]) -> (frame: PtyTerminalFrame)
        requires
            old(self).wf(),
            old(self)@.terminal.next_seq < u64::MAX,
        ensures
            final(self).wf(),
            frame@ == (FrameModel::Output {
                terminal_seq: old(self)@.terminal.next_seq,
                data: bytes@,
            }),
            final(self)@ == (StateModel {
                terminal: old(self)@.terminal.record(frame@),
                ..old(self)@
            }),
    {
        self.terminal.record_output(bytes)
    }

    /// Records a change of the terminal size.
    pub fn resize(&mut self, size: PtySize) -> (frame: PtyTerminalFrame)
        requires
            old(self).wf(),
            old(self)@.terminal.next_seq < u64::MAX,
        ensures
            final(self).wf(),
            frame@ == (FrameModel::Resize { terminal_seq: old(self)@.terminal.next_seq, size }),
            final(self)@ == (StateModel {
                terminal: old(self)@.terminal.record(frame@),
                ..old(self)@
            }),
    {
        self.terminal.resize(size)
    }

    /// Records that the process ended.
    pub fn record_exit(&mut self, code: Option<i32>) -> (frame: PtyTerminalFrame)
        requires
            old(self).wf(),
            old(self)@.terminal.next_seq < u64::MAX,
        ensures
            final(self).wf(),
            frame@ == (FrameModel::Exit { terminal_seq: old(self)@.terminal.next_seq, code }),
            final(self)@ == (StateModel {
                exited: true,
                terminal: old(self)@.terminal.record(frame@),
                ..old(self)@
            }),
    {
        self.exited = true;
        self.terminal.record_exit(code)
    }

    /// The latest sequence number and the frames that bring a reader up to it.
    pub fn terminal_snapshot_or_tail_with_base(
        &self,
        last_terminal_seq: Option<u64>,
        screen: Vec<u8>,
    ) -> (res: (u64, Vec<PtyTerminalFrame>))
        requires
            self.wf(),
        ensures
            res.0 == self@.terminal.current_seq(),
            crate::pty::frame_models(res.1@) == self@.terminal.frames_for(
                last_terminal_seq,
                screen@,
            ),
    {
        self.terminal.terminal_snapshot_or_tail(last_terminal_seq, screen)
    }

    /// The current terminal size.
    pub fn size(&self) -> (size: PtySize)
        ensures
            size == self@.terminal.size,
    {
        self.terminal.size()
    }

    /// Whether the process has ended.
    pub fn exited(&self) -> (exited: bool)
        ensures
            exited == self@.exited,
    {
        self.exited
    }

    /// Whether a further event can still be numbered.
    pub fn can_record(&self) -> (can: bool)
        ensures
            can == (self@.terminal.next_seq < u64::MAX),
    {
        self.terminal.next_terminal_seq() < u64::MAX
    }

    /// Whether there is a number left for another lane.
    pub fn can_open_lane(&self) -> (can: bool)
        ensures
            can == (self@.next_lane_id < u64::MAX),
    {
        self.next_lane_id < u64::MAX
    }

    /// What a snapshot response says of the session host.
    pub fn snapshot_payload(&self, process_id: Option<u32>, retained_output: Vec<u8>) -> (payload:
        SupervisorSnapshotPayload)
        ensures
            payload@ == self@.snapshot_payload(process_id, retained_output@),
    {
        SupervisorSnapshotPayload { size: self.size(), process_id, exited: self.exited, retained_output }
    }

    // --- controllers

    fn allocate_controller_connection_id(&mut self) -> (connection_id: u64)
        requires
            old(self).wf(),
        ensures
            final(self).wf(),
            connection_id == old(self)@.next_controller_connection_id,
            final(self)@ == old(self)@.connection_allocated(),
    {
        let connection_id: u64 = self.next_controller_connection_id;
        self.next_controller_connection_id = self.next_controller_connection_id.saturating_add(1);
        connection_id
    }

    fn build_attach_sync_payload(
        &self,
        controller: ControllerIdentity,
        process_id: Option<u32>,
        last_terminal_seq: Option<u64>,
        screen: Vec<u8>,
    ) -> (payload: SupervisorAttachSyncPayload)
        requires
            self.wf(),
        ensures
            payload@ == self@.sync_payload(controller, process_id, last_terminal_seq, screen@),
    {
        let snapshot = self.snapshot_payload(process_id, Vec::new());
        let (base_seq, frames) = self.terminal_snapshot_or_tail_with_base(last_terminal_seq, screen);
        proof {
            self.lemma_wf();
            assert(snapshot@.retained_output =~= Seq::<u8>::empty());
        }
        SupervisorAttachSyncPayload {
            controller_id: controller.id,
            controller_connection_id: controller.connection_id,
            snapshot,
            base_seq,
            frames,
        }
    }

    fn activate(&mut self, controller: ControllerIdentity, lane_id: u64)
        requires
            old(self).wf(),
        ensures
            final(self).wf(),
            final(self)@ == old(self)@.activated(controller, lane_id),
    {
        self.controllers.insert(
            controller.id,
            ControllerHandle { connection_id: controller.connection_id, lane_id },
        );
        self.active_controller_id = Some(controller.id);
        self.active_controller_connection_id = Some(controller.connection_id);
    }

    /// A new controller attaches, becomes the active one and takes the lease.
    pub fn attach_sync(
        &mut self,
        lane_id: u64,
        process_id: Option<u32>,
        last_terminal_seq: Option<u64>,
        screen: Vec<u8>,
    ) -> (res: (ControllerIdentity, SupervisorAttachSyncPayload))
        requires
            old(self).wf(),
        ensures
            final(self).wf(),
            res.0 == old(self)@.next_identity(),
            final(self)@ == old(self)@.attached(lane_id),
            res.1@ == old(self)@.sync_payload(res.0, process_id, last_terminal_seq, screen@),
    {
        let id: u64 = self.next_controller_id;
        let connection_id: u64 = self.allocate_controller_connection_id();
        let controller = ControllerIdentity { id, connection_id };
        self.next_controller_id = self.next_controller_id.saturating_add(1);
        self.activate(controller, lane_id);
        self.controller_resume_lease_id = Some(id);
        let payload = self.build_attach_sync_payload(
            controller,
            process_id,
            last_terminal_seq,
            screen,
        );
        (controller, payload)
    }

    /// A controller asks to resume. It is given a candidate connection generation and a
    /// synchronisation; until it commits, the previous owner stays as it is.
    pub fn resume_attach_sync(
        &mut self,
        controller_id: u64,
        process_id: Option<u32>,
        last_terminal_seq: Option<u64>,
        screen: Vec<u8>,
    ) -> (res: PtyResult<(ControllerIdentity, SupervisorAttachSyncPayload)>)
        requires
            old(self).wf(),
        ensures
            final(self).wf(),
            res is Ok <==> old(self)@.may_prepare_resume(controller_id),
            res matches Ok((candidate, payload)) ==> {
                &&& candidate.id == controller_id
                &&& candidate.connection_id == old(self)@.next_controller_connection_id
                &&& final(self)@ == old(self)@.connection_allocated()
                &&& payload@ == old(self)@.sync_payload(
                    candidate,
                    process_id,
                    last_terminal_seq,
                    screen@,
                )
            },
            res matches Err(e) ==> e@ == not_active() && final(self)@ == old(self)@,
    {
        if controller_id == 0 || controller_id >= self.next_controller_id || !self.may_resume(
            controller_id,
        ) {
            return Err(
                PtyError::backend_message(
                    "session supervisor connection is not the active controller",
                ),
            );
        }
        let connection_id: u64 = self.allocate_controller_connection_id();
        let candidate = ControllerIdentity { id: controller_id, connection_id };
        let payload = self.build_attach_sync_payload(
            candidate,
            process_id,
            last_terminal_seq,
            screen,
        );
        Ok((candidate, payload))
    }

    /// Whether a controller may take over again.
    pub fn may_resume(&self, controller_id: u64) -> (may: bool)
        ensures
            may == self@.may_resume(controller_id),
    {
        if !same_number(self.controller_resume_lease_id, controller_id) {
            return false;
        }
        match self.active_controller_id {
            Some(active) => active == controller_id,
            None => true,
        }
    }

    /// A candidate takes over. Repeating a transaction that was committed before gives the same
    /// answer again and puts that controller back, whatever connection generation the candidate has.
    pub fn commit_controller_resume(
        &mut self,
        transaction_id: u64,
        candidate: ControllerIdentity,
        lane_id: u64,
    ) -> (res: PtyResult<ControllerIdentity>)
        requires
            old(self).wf(),
        ensures
            final(self).wf(),
            match lookup(old(self)@.committed_resumes, transaction_id) {
                Some(committed) => if committed.id == candidate.id {
                    &&& res matches Ok(c) && c == committed
                    &&& final(self)@ == old(self)@.activated(committed, lane_id)
                } else {
                    &&& res matches Err(e) && e@ == PtyErrorModel::Backend(
                        "session supervisor resume transaction mismatch"@,
                    )
                    &&& final(self)@ == old(self)@
                },
                None => if old(self)@.may_resume(candidate.id) {
                    &&& res matches Ok(c) && c == candidate
                    &&& final(self)@ == (StateModel {
                        committed_resumes: with(
                            old(self)@.committed_resumes,
                            transaction_id,
                            candidate,
                        ),
                        ..old(self)@.activated(candidate, lane_id)
                    })
                } else {
                    &&& res matches Err(e) && e@ == not_active()
                    &&& final(self)@ == old(self)@
                },
            },
    {
        match self.committed_controller_resume(transaction_id) {
            Some(committed) => {
                if committed.id != candidate.id {
                    return Err(
                        PtyError::backend_message("session supervisor resume transaction mismatch"),
                    );
                }
                self.activate(committed, lane_id);
                Ok(committed)
            },
            None => {
                if !self.may_resume(candidate.id) {
                    return Err(
                        PtyError::backend_message(
                            "session supervisor connection is not the active controller",
                        ),
                    );
                }
                self.activate(candidate, lane_id);
                self.committed_resume_transactions.insert(transaction_id, candidate);
                Ok(candidate)
            },
        }
    }

    /// The controller that a transaction committed.
    pub fn committed_controller_resume(&self, transaction_id: u64) -> (committed: Option<
        ControllerIdentity,
    >)
        ensures
            committed == lookup(self@.committed_resumes, transaction_id),
    {
        match self.committed_resume_transactions.get(transaction_id) {
            Some(committed) => Some(*committed),
            None => None,
        }
    }

    /// Whether a controller is the active one under this connection generation.
    pub fn is_active_controller(&self, controller: ControllerIdentity) -> (active: bool)
        ensures
            active == self@.is_active(controller),
    {
        if !same_number(self.active_controller_id, controller.id) || !same_number(
            self.active_controller_connection_id,
            controller.connection_id,
        ) {
            return false;
        }
        match self.controllers.get(controller.id) {
            Some(handle) => handle.connection_id == controller.connection_id,
            None => false,
        }
    }

    /// A controller is gone. A later generation of the same controller stays.
    pub fn remove_controller(&mut self, controller: ControllerIdentity)
        requires
            old(self).wf(),
        ensures
            final(self).wf(),
            final(self)@ == old(self)@.removed(controller),
    {
        let registered = match self.controllers.get(controller.id) {
            Some(handle) => handle.connection_id == controller.connection_id,
            None => false,
        };
        if registered {
            let _ = self.controllers.remove(controller.id);
        }
        if same_number(self.active_controller_id, controller.id) && same_number(
            self.active_controller_connection_id,
            controller.connection_id,
        ) {
            self.active_controller_id = None;
            self.active_controller_connection_id = None;
        }
    }

    /// The number of registered controllers.
    pub fn controller_count(&self) -> (count: usize)
        ensures
            count == self@.controllers.len(),
    {
        self.controllers.len()
    }

    /// The number of resumes that were committed.
    pub fn committed_resume_count(&self) -> (count: usize)
        ensures
            count == self@.committed_resumes.len(),
    {
        self.committed_resume_transactions.len()
    }

    // --- terminal viewers

    /// Registers a terminal viewer.
    pub fn register_terminal_attach(&mut self, lane_id: u64) -> (attach_id: u64)
        requires
            old(self).wf(),
        ensures
            final(self).wf(),
            attach_id == old(self)@.next_terminal_attach_id,
            final(self)@ == (StateModel {
                next_terminal_attach_id: next_or_same(old(self)@.next_terminal_attach_id),
                terminal_attaches: with(old(self)@.terminal_attaches, attach_id, lane_id),
                ..old(self)@
            }),
    {
        let attach_id: u64 = self.next_terminal_attach_id;
        self.next_terminal_attach_id = self.next_terminal_attach_id.saturating_add(1);
        self.terminal_attaches.insert(attach_id, lane_id);
        attach_id
    }

    /// A terminal viewer is gone.
    pub fn remove_terminal_attach(&mut self, attach_id: u64)
        requires
            old(self).wf(),
        ensures
            final(self).wf(),
            final(self)@ == (StateModel {
                terminal_attaches: without(old(self)@.terminal_attaches, attach_id),
                ..old(self)@
            }),
    {
        let _ = self.terminal_attaches.remove(attach_id);
    }

    /// The number of registered terminal viewers.
    pub fn terminal_attach_count(&self) -> (count: usize)
        ensures
            count == self@.terminal_attaches.len(),
    {
        self.terminal_attaches.len()
    }

    /// Sends a frame to every controller and every terminal viewer, and drops whoever cannot take it.
    pub fn broadcast_terminal_frame(&mut self, frame: &PtyTerminalFrame)
        requires
            old(self).wf(),
        ensures
            final(self).wf(),
            final(self)@ == old(self)@.broadcast(frame@),
    {
        let mut targets: Vec<u64> = Vec::new();
        let mut i: usize = 0;
        while i < self.controllers.len()
            invariant
                i <= self.controllers@.len(),
                self == old(self),
                targets@ == controller_lanes(self.controllers@).take(i as int),
            decreases self.controllers@.len() - i,
        {
            targets.push(self.controllers.value_at(i).lane_id);
            i = i + 1;
            assert(targets@ =~= controller_lanes(self.controllers@).take(i as int));
        }
        assert(targets@ =~= controller_lanes(self.controllers@));
        let taken = deliver_frame(&mut self.lanes, &targets, frame);
        let mut dropped: bool = false;
        i = 0;
        while i < self.controllers.len()
            invariant
                i <= self.controllers@.len(),
                self.controllers@.len() == taken@.len(),
                dropped == exists|k: int|
                    #![trigger self.controllers@[k]]
                    0 <= k < i && !taken@[k] && self.active_controller_id == Some(
                        self.controllers@[k].0,
                    ) && self.active_controller_connection_id == Some(
                        self.controllers@[k].1.connection_id,
                    ),
            decreases self.controllers@.len() - i,
        {
            let ghost entry = self.controllers@[i as int];
            if !taken[i] && same_number(self.active_controller_id, self.controllers.id_at(i))
                && same_number(
                self.active_controller_connection_id,
                self.controllers.value_at(i).connection_id,
            ) {
                dropped = true;
            }
            i = i + 1;
        }
        assert(dropped == old(self)@.active_dropped(taken@));
        if dropped {
            self.active_controller_id = None;
            self.active_controller_connection_id = None;
        }
        self.controllers.retain_flagged(&taken);
        let mut viewers: Vec<u64> = Vec::new();
        i = 0;
        let ghost attaches = self.terminal_attaches@;
        while i < self.terminal_attaches.len()
            invariant
                i <= attaches.len(),
                attaches == self.terminal_attaches@,
                viewers@ == attach_lanes(attaches).take(i as int),
            decreases attaches.len() - i,
        {
            viewers.push(*self.terminal_attaches.value_at(i));
            i = i + 1;
            assert(viewers@ =~= attach_lanes(attaches).take(i as int));
        }
        assert(viewers@ =~= attach_lanes(attaches));
        let seen = deliver_frame(&mut self.lanes, &viewers, frame);
        self.terminal_attaches.retain_flagged(&seen);
    }

    // --- cleanup

    /// The capability that may close the session without a controller connection.
    pub fn cleanup_capability(&self) -> (capability: Option<[u8; 32]>)
        ensures
            match capability {
                Some(c) => self@.cleanup_capability == Some(c@),
                None => self@.cleanup_capability is None,
            },
    {
        self.cleanup_capability
    }

    /// Installs a capability; from then on it is settled.
    pub fn install_cleanup_capability(&mut self, capability: [u8; 32])
        requires
            old(self).wf(),
        ensures
            final(self).wf(),
            final(self)@ == (StateModel {
                cleanup_capability: Some(capability@),
                cleanup_capability_replaceable: false,
                ..old(self)@
            }),
    {
        self.cleanup_capability = Some(capability);
        self.cleanup_capability_replaceable = false;
    }

    /// The capability has been used: from then on it is settled.
    pub fn settle_cleanup_capability(&mut self)
        requires
            old(self).wf(),
        ensures
            final(self).wf(),
            final(self)@ == (StateModel { cleanup_capability_replaceable: false, ..old(self)@ }),
    {
        self.cleanup_capability_replaceable = false;
    }

    /// The close operation that is known to have ended the process.
    pub fn confirmed_close_operation_id(&self) -> (operation_id: Option<u64>)
        ensures
            operation_id == self@.confirmed_close,
    {
        self.confirmed_close_operation_id
    }

    /// Notes that a close operation has ended the process.
    pub fn confirm_close(&mut self, operation_id: u64)
        requires
            old(self).wf(),
        ensures
            final(self).wf(),
            final(self)@ == (StateModel { confirmed_close: Some(operation_id), ..old(self)@ }),
    {
        self.confirmed_close_operation_id = Some(operation_id);
    }
}

// ---------------------------------------------------------------------------
// Laws

/// At most one controller is active, under one connection generation.
pub proof fn law_at_most_one_active_controller(
    state: StateModel,
    a: ControllerIdentity,
    b: ControllerIdentity,
)
    requires
        state.is_active(a),
        state.is_active(b),
    ensures
        a == b,
{
}

/// The latest controller to attach is the active one, and every other is not.
pub proof fn law_latest_attach_wins(state: StateModel, lane_id: u64, other: ControllerIdentity)
    ensures
        state.attached(lane_id).is_active(state.next_identity()),
        other != state.next_identity() ==> !state.attached(lane_id).is_active(other),
        state.attached(lane_id).may_resume(state.next_identity().id),
        other.id != state.next_identity().id ==> !state.attached(lane_id).may_resume(other.id),
{
    let controller = state.next_identity();
    lemma_with(
        state.controllers,
        controller.id,
        ControllerHandle { connection_id: controller.connection_id, lane_id },
        controller.id,
    );
}

/// While a newer controller holds the lease, an older one can neither prepare to resume nor commit a
/// new transaction, even after the newer one has lost its connection.
pub proof fn law_superseded_controller_cannot_resume(
    state: StateModel,
    lane_id: u64,
    old_id: u64,
)
    requires
        old_id != state.next_controller_id,
    ensures
        ({
            let newer = state.attached(lane_id);
            let gone = newer.removed(state.next_identity());
            &&& !newer.may_prepare_resume(old_id)
            &&& !gone.may_prepare_resume(old_id)
            &&& !newer.may_resume(old_id)
            &&& !gone.may_resume(old_id)
            &&& gone.active_controller_id is None
        }),
{
}

/// The holder of the lease may resume after its connection is gone.
pub proof fn law_lease_holder_may_resume(state: StateModel, lane_id: u64)
    requires
        0 < state.next_controller_id < u64::MAX,
    ensures
        state.attached(lane_id).removed(state.next_identity()).may_prepare_resume(
            state.next_controller_id,
        ),
{
}

/// Preparing to resume takes nothing away: whoever was active still is.
pub proof fn law_preparing_a_resume_keeps_the_owner(state: StateModel, owner: ControllerIdentity)
    ensures
        state.connection_allocated().is_active(owner) == state.is_active(owner),
        state.connection_allocated().controllers == state.controllers,
        state.connection_allocated().attached_devices == state.attached_devices,
{
}

/// Once a controller has resumed under a new connection generation, the previous generation is not
/// active any more, and removing it does not touch the new one.
pub proof fn law_resume_fences_the_previous_generation(
    state: StateModel,
    previous: ControllerIdentity,
    candidate: ControllerIdentity,
    lane_id: u64,
)
    requires
        previous.id == candidate.id,
        previous.connection_id != candidate.connection_id,
    ensures
        state.activated(candidate, lane_id).is_active(candidate),
        !state.activated(candidate, lane_id).is_active(previous),
        state.activated(candidate, lane_id).removed(previous) == state.activated(
            candidate,
            lane_id,
        ),
{
    lemma_with(
        state.controllers,
        candidate.id,
        ControllerHandle { connection_id: candidate.connection_id, lane_id },
        candidate.id,
    );
}

/// A consumer that cannot take a frame costs nobody else anything: every lane that is not a target
/// stays as it was, and a target that accepts the frame gets it.
pub proof fn law_slow_consumer_affects_only_itself(
    lanes: Map<u64, LaneModel>,
    targets: Seq<u64>,
    frame: FrameModel,
    lane_id: u64,
)
    ensures
        deliver(lanes, targets, frame).0.len() == targets.len(),
        deliver(lanes, targets, frame).1.dom() == lanes.dom(),
        !targets.contains(lane_id) ==> deliver(lanes, targets, frame).1[lane_id] == lanes[lane_id],
        targets.no_duplicates() && lanes.contains_key(lane_id) && targets.contains(lane_id)
            && lanes[lane_id].accepts(frame) ==> deliver(lanes, targets, frame).1[lane_id]
            == lanes[lane_id].sent(frame),
    decreases targets.len(),
{
    if targets.len() > 0 {
        let rest = targets.drop_last();
        law_slow_consumer_affects_only_itself(lanes, rest, frame, lane_id);
        let after = deliver(lanes, rest, frame).1;
        assert(deliver(lanes, targets, frame).1.dom() =~= lanes.dom());
        assert(targets.last() == targets[targets.len() - 1]);
        assert(forall|i: int| 0 <= i < rest.len() ==> rest[i] == targets[i]);
        if targets.no_duplicates() {
            assert(rest.no_duplicates());
            if targets.last() == lane_id {
                assert(!rest.contains(lane_id)) by {
                    if rest.contains(lane_id) {
                        let k = choose|k: int| 0 <= k < rest.len() && rest[k] == lane_id;
                        assert(targets[k] == targets[targets.len() - 1]);
                    }
                }
            } else if targets.contains(lane_id) {
                let k = choose|k: int| 0 <= k < targets.len() && targets[k] == lane_id;
                assert(rest[k] == lane_id);
                assert(rest.contains(lane_id));
            }
        }
        if !targets.contains(lane_id) {
            assert(targets[targets.len() - 1] != lane_id);
            if rest.contains(lane_id) {
                let k = choose|k: int| 0 <= k < rest.len() && rest[k] == lane_id;
                assert(targets[k] == lane_id);
            }
        }
    }
}

/// Broadcasting touches neither the journal nor the attached devices nor any cleanup decision.
pub proof fn law_broadcast_keeps_the_session(state: StateModel, frame: FrameModel)
    ensures
        state.broadcast(frame).terminal == state.terminal,
        state.broadcast(frame).attached_devices == state.attached_devices,
        state.broadcast(frame).exited == state.exited,
        state.broadcast(frame).confirmed_close == state.confirmed_close,
        state.broadcast(frame).cleanup_capability == state.cleanup_capability,
        state.broadcast(frame).controller_resume_lease_id == state.controller_resume_lease_id,
{
}

} // verus!
