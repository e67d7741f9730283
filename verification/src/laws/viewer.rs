//! Viewers of a terminal, and the bounded queues through which they and others are written to.

use crate::collections::{lemma_with, lemma_without, lookup};
use crate::pty::supervisor::connection::EffectModel;
use crate::pty::supervisor::output_queue::{
    not_covered, terminal_frame_retained_bytes, BoundedSupervisorOutputQueue,
    QueuedSupervisorOutput, SupervisorOutputQueueBudget, SupervisorWriterQueues, TerminalFrameLane,
};
use crate::pty::supervisor::protocol::{
    ServerFrameModel, SupervisorFrame, SupervisorTerminalClientFrame, SupervisorTerminalServerFrame,
};
use crate::pty::supervisor::screen::ScreenEmulator;
use crate::pty::supervisor::state::{StateModel, SupervisorState};
use crate::pty::supervisor::terminal_attach::{
    BootstrappedAttach, RefusedBootstrap, TerminalAttachConnection, TerminalAttachModel,
    TerminalAttachStep,
};
use crate::pty::{frame_models, FrameModel, PtySize, PtyTerminalFrame};
use crate::text::decimal;
use vstd::prelude::*;

verus! {

/// All lanes but one are the same.
pub open spec fn same_lanes_elsewhere(before: StateModel, after: StateModel, lane_id: u64) -> bool {
    forall|other: u64|
        #![trigger after.lanes.contains_key(other)]
        other != lane_id ==> after.lanes.contains_key(other) == before.lanes.contains_key(other) && (
        before.lanes.contains_key(other) ==> after.lanes[other] == before.lanes[other])
}

/// Whoever asks for the right session is registered as a viewer under a new number and gets the session as
/// it is; nothing else of the session changes. Anybody else is turned away.
pub proof fn law_viewer_is_registered_and_shown_the_session(
    state: &mut SupervisorState,
    session_id: &str,
    first: &SupervisorTerminalClientFrame,
    lane_id: u64,
    process_id: Option<u32>,
    screen: Vec<u8>,
    res: Result<BootstrappedAttach, RefusedBootstrap>,
    other: u64,
)
    requires
        call_ensures(
            TerminalAttachConnection::bootstrap,
            (state, session_id, first, lane_id, process_id, screen),
            res,
        ),
        old(state)@.terminal.next_seq > 0,
    ensures
        res is Ok <==> *first is BootstrapAttach && first->BootstrapAttach_session_id@ == session_id@,
        res is Err ==> final(state)@ == old(state)@ && res->Err_0.close@ is Close,
        res is Ok ==> {
            let viewer = res->Ok_0.connection@;
            let sync = res->Ok_0.sync@;
            let number = old(state)@.next_terminal_attach_id;
            &&& viewer.session_id == session_id@
            &&& viewer.lane_id == lane_id
            &&& viewer.attach_id == number
            &&& viewer.process_id == process_id
            &&& viewer.heartbeat is None
            &&& lookup(final(state)@.terminal_attaches, number) == Some(lane_id)
            &&& other != number ==> lookup(final(state)@.terminal_attaches, other) == lookup(
                old(state)@.terminal_attaches,
                other,
            )
            &&& number < u64::MAX ==> final(state)@.next_terminal_attach_id == number + 1
            &&& final(state)@ == (StateModel {
                terminal_attaches: final(state)@.terminal_attaches,
                next_terminal_attach_id: final(state)@.next_terminal_attach_id,
                ..old(state)@
            })
            &&& res->Ok_0.base_seq == old(state)@.terminal.next_seq - 1
            &&& sync is AttachSync
            &&& sync->AttachSync_session_id == session_id@
            &&& sync->AttachSync_base_seq == res->Ok_0.base_seq
            &&& sync->AttachSync_snapshot.size == old(state)@.terminal.size
            &&& sync->AttachSync_snapshot.process_id == process_id
            &&& sync->AttachSync_snapshot.exited == old(state)@.exited
            &&& sync->AttachSync_snapshot.retained_output.len() == 0
            &&& first->BootstrapAttach_last_terminal_seq is None ==> sync->AttachSync_frames == seq![
                FrameModel::Snapshot {
                    base_seq: res->Ok_0.base_seq,
                    size: old(state)@.terminal.size,
                    data: screen@,
                },
            ]
        },
{
    lemma_with(
        old(state)@.terminal_attaches,
        old(state)@.next_terminal_attach_id,
        lane_id,
        old(state)@.next_terminal_attach_id,
    );
    lemma_with(old(state)@.terminal_attaches, old(state)@.next_terminal_attach_id, lane_id, other);
}

/// What waited while a viewer was synchronised follows, as far as it is newer, each frame under the name of
/// the session.
pub proof fn law_viewer_gets_what_waited(
    viewer: &TerminalAttachConnection,
    state: &mut SupervisorState,
    base_seq: u64,
    frames: Vec<SupervisorTerminalServerFrame>,
)
    requires
        call_ensures(TerminalAttachConnection::frames_after_sync, (viewer, state, base_seq), frames),
    ensures
        ({
            let present = old(state)@.lanes.contains_key(viewer@.lane_id);
            let newer = not_covered(old(state)@.lanes[viewer@.lane_id].frames, base_seq);
            &&& !present ==> frames@.len() == 0 && final(state)@ == old(state)@
            &&& present ==> {
                &&& frames@.len() == newer.len()
                &&& final(state)@.lanes[viewer@.lane_id].frames.len() == 0
                &&& same_lanes_elsewhere(old(state)@, final(state)@, viewer@.lane_id)
                &&& forall|i: int|
                    0 <= i < newer.len() ==> (#[trigger] frames@[i])@ == (
                    ServerFrameModel::TerminalFrame {
                        session_id: viewer@.session_id,
                        frame: newer[i],
                    })
            }
            &&& final(state)@.terminal == old(state)@.terminal
            &&& final(state)@.terminal_attaches == old(state)@.terminal_attaches
        }),
{
}

/// What a viewer types is written and what it sizes is resized, as it was sent. The right answer to a
/// heartbeat is noticed, and a second greeting is an error.
pub proof fn law_viewer_acts_as_it_says(
    viewer: &mut TerminalAttachConnection,
    frame: &SupervisorTerminalClientFrame,
    step: TerminalAttachStep,
)
    requires
        call_ensures(TerminalAttachConnection::on_client_frame, (viewer, frame), step),
    ensures
        *frame is Input ==> step is Perform && step->Perform_0@ == EffectModel::Write(
            frame->Input_data@,
        ) && final(viewer)@ == old(viewer)@,
        *frame is Resize ==> step is Perform && step->Perform_0@ == EffectModel::Resize(
            frame->Resize_size,
        ) && final(viewer)@ == old(viewer)@,
        *frame is BootstrapAttach ==> step is Fail && final(viewer)@ == old(viewer)@,
        *frame is HeartbeatPong ==> {
            let asked = old(viewer)@.heartbeat;
            &&& step is Continue
            &&& asked is Some && (asked->0).0 == frame->HeartbeatPong_nonce@
                ==> final(viewer)@.heartbeat is None
            &&& asked is Some && (asked->0).0 != frame->HeartbeatPong_nonce@ ==> final(viewer)@
                == old(viewer)@
            &&& asked is None ==> final(viewer)@ == old(viewer)@
            &&& final(viewer)@ == (TerminalAttachModel {
                heartbeat: final(viewer)@.heartbeat,
                ..old(viewer)@
            })
        },
{
}

/// A viewer is asked for a sign of life; until it answers it is not asked again, and after 30 seconds it is
/// given up.
pub proof fn law_silent_viewer_is_given_up(
    viewer: &mut TerminalAttachConnection,
    now_ms: u64,
    unix_ms: u128,
    step: TerminalAttachStep,
)
    requires
        call_ensures(TerminalAttachConnection::on_heartbeat_tick, (viewer, now_ms, unix_ms), step),
    ensures
        old(viewer)@.heartbeat is None ==> {
            let asked = final(viewer)@.heartbeat;
            let process = match old(viewer)@.process_id {
                Some(pid) => pid as nat,
                None => 0nat,
            };
            &&& asked is Some
            &&& (asked->0).1 == now_ms
            &&& (asked->0).0 == decimal(unix_ms as nat) + "-"@ + decimal(process)
            &&& step is Send
            &&& step->Send_0@ == (ServerFrameModel::HeartbeatPing {
                nonce: (asked->0).0,
                timeout_ms: 30000,
            })
            &&& final(viewer)@ == (TerminalAttachModel { heartbeat: asked, ..old(viewer)@ })
        },
        old(viewer)@.heartbeat is Some ==> {
            let waited = now_ms - (old(viewer)@.heartbeat->0).1;
            &&& final(viewer)@ == old(viewer)@
            &&& waited < 30000 ==> step is Continue
            &&& waited >= 30000 ==> step is Close && step->Close_0@ is Close
                && step->Close_0@->Close_reason == "heartbeat_timeout"@
        },
{
}

/// Frames leave the lane of a viewer in order, one at a time; a viewer that is too slow is told to come back.
pub proof fn law_viewer_gets_frames_in_order(
    viewer: &TerminalAttachConnection,
    state: &mut SupervisorState,
    step: TerminalAttachStep,
)
    requires
        call_ensures(TerminalAttachConnection::poll_outbound, (viewer, state), step),
    ensures
        ({
            let present = old(state)@.lanes.contains_key(viewer@.lane_id);
            let lane = old(state)@.lanes[viewer@.lane_id];
            let waiting = present && !lane.overflowed && lane.frames.len() > 0;
            &&& present && lane.overflowed ==> step is Close && step->Close_0@ is Close
                && step->Close_0@->Close_reason == "slow_consumer"@ && final(state)@ == old(state)@
            &&& !waiting && !(present && lane.overflowed) ==> step is Continue && final(state)@ == old(
                state,
            )@
            &&& waiting ==> {
                &&& step is Send
                &&& step->Send_0@ == (ServerFrameModel::TerminalFrame {
                    session_id: viewer@.session_id,
                    frame: lane.frames[0],
                })
                &&& final(state)@.lanes[viewer@.lane_id].frames == lane.frames.skip(1)
                &&& same_lanes_elsewhere(old(state)@, final(state)@, viewer@.lane_id)
                &&& final(state)@.terminal == old(state)@.terminal
            }
        }),
{
}

/// A viewer that leaves takes its registration and its lane with it, and nobody else's.
pub proof fn law_viewer_leaves_alone(
    viewer: &TerminalAttachConnection,
    state: &mut SupervisorState,
    other: u64,
)
    requires
        call_ensures(TerminalAttachConnection::finish, (viewer, state), ()),
    ensures
        lookup(final(state)@.terminal_attaches, viewer@.attach_id) is None,
        other != viewer@.attach_id ==> lookup(final(state)@.terminal_attaches, other) == lookup(
            old(state)@.terminal_attaches,
            other,
        ),
        !final(state)@.lanes.contains_key(viewer@.lane_id),
        same_lanes_elsewhere(old(state)@, final(state)@, viewer@.lane_id),
        final(state)@ == (StateModel {
            terminal_attaches: final(state)@.terminal_attaches,
            lanes: final(state)@.lanes,
            ..old(state)@
        }),
{
    lemma_without(old(state)@.terminal_attaches, viewer@.attach_id, viewer@.attach_id);
    lemma_without(old(state)@.terminal_attaches, viewer@.attach_id, other);
}

/// A size that a viewer has set is recorded and told to everybody, as one that the controller has set.
pub proof fn law_viewers_size_is_recorded_and_told<S: ScreenEmulator>(
    state: &mut SupervisorState,
    screen: S,
    size: PtySize,
    after: S,
    recorded: &mut SupervisorState,
    frame: PtyTerminalFrame,
    told: &mut SupervisorState,
)
    requires
        call_ensures(TerminalAttachConnection::resized::<S>, (state, screen, size), after),
        *old(recorded) == *old(state),
        call_ensures(SupervisorState::resize, (recorded, size), frame),
        *old(told) == *final(recorded),
        call_ensures(SupervisorState::broadcast_terminal_frame, (told, &frame), ()),
    ensures
        final(state)@ == final(told)@,
        frame@ == (FrameModel::Resize { terminal_seq: old(state)@.terminal.next_seq, size }),
        call_ensures(S::resize, (screen, size), after),
{
}

// ---------------------------------------------------------------------------
// Queues

/// A frame counts for the bytes that it draws with, or for one.
pub proof fn law_frame_counts_for_its_bytes(frame: &PtyTerminalFrame, bytes: usize)
    requires
        call_ensures(terminal_frame_retained_bytes, (frame,), bytes),
    ensures
        bytes == crate::laws::frames::frame_weight(frame@),
{
}

/// A queue takes a value exactly if somebody reads it and the budget allows it. Values leave as they came.
pub proof fn law_queue_is_first_in_first_out<T>(
    queue: &mut BoundedSupervisorOutputQueue<T>,
    budget: &mut SupervisorOutputQueueBudget,
    value: T,
    size: usize,
    res: Result<(), ()>,
    then: &mut BoundedSupervisorOutputQueue<T>,
    after: &mut SupervisorOutputQueueBudget,
    taken: Option<T>,
)
    requires
        call_ensures(
            BoundedSupervisorOutputQueue::<T>::try_send,
            (queue, budget, value, size),
            res,
        ),
        *old(then) == *final(queue),
        *old(after) == *final(budget),
        call_ensures(BoundedSupervisorOutputQueue::<T>::try_recv, (then, after), taken),
    ensures
        res is Ok <==> old(queue)@.open && old(budget)@.messages < 128 && old(budget)@.bytes + size
            <= 8388608,
        res is Ok ==> final(budget)@.messages == old(budget)@.messages + 1 && final(budget)@.bytes
            == old(budget)@.bytes + size && final(queue)@.items.len() == old(queue)@.items.len() + 1,
        res is Err ==> final(budget)@ == old(budget)@ && final(queue)@.items == old(queue)@.items
            && final(queue)@.overflowed,
        res is Ok && old(queue)@.items.len() == 0 ==> {
            &&& taken == Some(value)
            &&& final(then)@.items.len() == 0
            &&& final(after)@ == old(budget)@
        },
        old(queue)@.items.len() > 0 ==> taken == Some(old(queue)@.items[0].spec_value()),
{
    if res is Ok && old(queue)@.items.len() > 0 {
        assert(final(queue)@.items.drop_last()[0] == final(queue)@.items[0]);
    }
}

/// A queue that is closed takes nothing more, and what waits can still be read.
pub proof fn law_closed_queue_takes_nothing<T>(
    queue: &mut BoundedSupervisorOutputQueue<T>,
    then: &mut BoundedSupervisorOutputQueue<T>,
    budget: &mut SupervisorOutputQueueBudget,
    value: T,
    size: usize,
    res: Result<(), ()>,
)
    requires
        call_ensures(BoundedSupervisorOutputQueue::<T>::close, (queue,), ()),
        *old(then) == *final(queue),
        call_ensures(
            BoundedSupervisorOutputQueue::<T>::try_send,
            (then, budget, value, size),
            res,
        ),
    ensures
        final(queue)@.items == old(queue)@.items,
        res is Err,
{
}

/// What follows a synchronisation empties the lane.
pub proof fn law_sync_empties_the_lane(
    lane: &mut TerminalFrameLane,
    base_seq: u64,
    delayed: Vec<PtyTerminalFrame>,
)
    requires
        call_ensures(TerminalFrameLane::drain_after_sync, (lane, base_seq), delayed),
    ensures
        final(lane)@.frames.len() == 0,
        final(lane)@.open == old(lane)@.open,
        final(lane)@.overflowed == old(lane)@.overflowed,
        frame_models(delayed@) == not_covered(old(lane)@.frames, base_seq),
{
}

/// Answers are written before output, each kind in its order, and both share one budget that a frame keeps
/// until it has been written.
pub proof fn law_answers_are_written_first(
    queues: &mut SupervisorWriterQueues,
    frame: Option<SupervisorFrame>,
    done: &mut SupervisorWriterQueues,
)
    requires
        call_ensures(SupervisorWriterQueues::begin_write, (queues,), frame),
        *old(done) == *final(queues),
        call_ensures(SupervisorWriterQueues::finish_write, (done,), ()),
    ensures
        ({
            let before = old(queues)@;
            &&& before.control.len() > 0 ==> frame == Some(before.control[0].0)
                && final(queues)@.control == before.control.skip(1) && final(queues)@.data == before.data
            &&& before.control.len() == 0 && before.data.len() > 0 ==> frame == Some(before.data[0].0)
                && final(queues)@.data == before.data.skip(1) && final(queues)@.control.len() == 0
            &&& before.control.len() == 0 && before.data.len() == 0 ==> frame is None
            &&& final(queues)@.budget == before.budget
            &&& final(done)@.in_flight is None
            &&& final(done)@.control == final(queues)@.control
            &&& final(done)@.data == final(queues)@.data
            &&& before.control.len() > 0 && before.budget.messages > 0 && before.budget.bytes
                >= before.control[0].1 ==> final(done)@.budget.messages == before.budget.messages - 1
                && final(done)@.budget.bytes == before.budget.bytes - before.control[0].1
            &&& before.control.len() == 0 && before.data.len() > 0 && before.budget.messages > 0
                && before.budget.bytes >= before.data[0].1 ==> final(done)@.budget.messages
                == before.budget.messages - 1 && final(done)@.budget.bytes == before.budget.bytes
                - before.data[0].1
        }),
{
}

/// A frame is queued behind those of its kind exactly if the shared budget allows it.
pub proof fn law_writer_takes_what_fits(
    queues: &mut SupervisorWriterQueues,
    frame: SupervisorFrame,
    size: usize,
    res: Result<(), ()>,
    other: &mut SupervisorWriterQueues,
    data: SupervisorFrame,
    data_size: usize,
    data_res: Result<(), ()>,
)
    requires
        call_ensures(SupervisorWriterQueues::push_control, (queues, frame, size), res),
        call_ensures(SupervisorWriterQueues::push_data, (other, data, data_size), data_res),
    ensures
        res is Ok <==> old(queues)@.budget.messages < 128 && old(queues)@.budget.bytes + size <= 8388608,
        res is Err ==> final(queues)@ == old(queues)@,
        res is Ok ==> {
            &&& final(queues)@.control == old(queues)@.control.push((frame, size as nat))
            &&& final(queues)@.data == old(queues)@.data
            &&& final(queues)@.budget.messages == old(queues)@.budget.messages + 1
            &&& final(queues)@.budget.bytes == old(queues)@.budget.bytes + size
        },
        data_res is Ok <==> old(other)@.budget.messages < 128 && old(other)@.budget.bytes + data_size
            <= 8388608,
        data_res is Err ==> final(other)@ == old(other)@,
        data_res is Ok ==> {
            &&& final(other)@.data == old(other)@.data.push((data, data_size as nat))
            &&& final(other)@.control == old(other)@.control
            &&& final(other)@.budget.messages == old(other)@.budget.messages + 1
            &&& final(other)@.budget.bytes == old(other)@.budget.bytes + data_size
        },
{
}

/// What a queue hands out keeps its place in the budget until it is unpacked.
pub proof fn law_unpacked_value_gives_its_place_back<T>(
    queue: &mut BoundedSupervisorOutputQueue<T>,
    item: Option<QueuedSupervisorOutput<T>>,
    budget: &mut SupervisorOutputQueueBudget,
    value: T,
    empty: bool,
)
    requires
        call_ensures(BoundedSupervisorOutputQueue::<T>::is_empty, (&*old(queue),), empty),
        call_ensures(BoundedSupervisorOutputQueue::<T>::recv_reserved, (queue,), item),
        item is Some ==> call_ensures(QueuedSupervisorOutput::<T>::into_inner, (item->0, budget), value),
    ensures
        empty <==> old(queue)@.items.len() == 0,
        item is Some <==> !empty,
        item is Some ==> {
            &&& value == old(queue)@.items[0].spec_value()
            &&& final(queue)@.items == old(queue)@.items.skip(1)
            &&& old(budget)@.messages > 0 && old(budget)@.bytes >= old(queue)@.items[0].spec_bytes()
                ==> final(budget)@.messages == old(budget)@.messages - 1 && final(budget)@.bytes == old(
                budget,
            )@.bytes - old(queue)@.items[0].spec_bytes()
        },
{
}

} // verus!
