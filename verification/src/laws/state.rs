//! The state that a supervisor's connections share: who is reached by what the session prints, who
//! controls it, and what a newcomer is told.

use crate::collections::{flagged, lemma_with, lemma_without, lookup};
use crate::laws::frames::{frame_weight, is_screen, weight};
use crate::pty::supervisor::output_queue::{
    not_covered, total_retained, LaneModel, SupervisorOutputQueueBudget, SupervisorOutputReservation,
    TerminalFrameLane,
};
use crate::pty::supervisor::protocol::{
    ControllerIdentity, SupervisorAttachSyncPayload, SupervisorSnapshotPayload,
};
use crate::pty::supervisor::state::{
    attach_lanes, controller_lanes, deliver, ControllerHandle, StateModel, SupervisorState,
};
use crate::pty::{frame_models, FrameModel, PtyResult, PtySize, PtyTerminalFrame};
use vstd::prelude::*;

verus! {

/// A lane has room for a frame: somebody reads it, and with the frame it holds at most 128 frames and
/// 8 MiB.
pub open spec fn has_room(lane: LaneModel, frame: FrameModel) -> bool {
    &&& lane.open
    &&& lane.frames.len() < 128
    &&& weight(lane.frames) + frame_weight(frame) <= 8388608
}

proof fn lemma_weight_first(frames: Seq<FrameModel>)
    ensures
        frames.len() > 0 ==> weight(frames) == frame_weight(frames[0]) + weight(frames.drop_first()),
    decreases frames.len(),
{
    if frames.len() == 1 {
        assert(frames.drop_first() =~= Seq::<FrameModel>::empty());
        assert(frames.drop_last() =~= Seq::<FrameModel>::empty());
    } else if frames.len() > 1 {
        lemma_weight_first(frames.drop_last());
        assert(frames.drop_last().drop_first() =~= frames.drop_first().drop_last());
        assert(frames.drop_last()[0] == frames[0]);
    }
}

/// What a lane counts is what its frames weigh.
pub proof fn lemma_total(frames: Seq<FrameModel>)
    ensures
        total_retained(frames) == weight(frames),
    decreases frames.len(),
{
    lemma_weight_first(frames);
    if frames.len() > 0 {
        lemma_total(frames.drop_first());
    }
}

/// A lane takes a frame exactly if it has room for it. Then the frame stands behind those that wait;
/// otherwise the lane counts as overflowed, and what waits stays.
pub proof fn law_lane_takes_what_fits(
    lane: &mut TerminalFrameLane,
    frame: PtyTerminalFrame,
    res: Result<(), ()>,
)
    requires
        call_ensures(TerminalFrameLane::try_send, (lane, frame), res),
    ensures
        res is Ok <==> has_room(old(lane)@, frame@),
        final(lane)@.open == old(lane)@.open,
        res is Ok ==> final(lane)@.frames == old(lane)@.frames.push(frame@)
            && final(lane)@.overflowed == old(lane)@.overflowed,
        res is Err ==> final(lane)@.frames == old(lane)@.frames && final(lane)@.overflowed,
{
    lemma_total(old(lane)@.frames);
}

/// Frames leave a lane in the order in which they came, each once and as it came.
pub proof fn law_lane_is_first_in_first_out(lane: &mut TerminalFrameLane, frame: Option<PtyTerminalFrame>)
    requires
        call_ensures(TerminalFrameLane::try_recv, (lane,), frame),
    ensures
        frame is Some <==> old(lane)@.frames.len() > 0,
        frame is None ==> final(lane)@ == old(lane)@,
        frame matches Some(first) ==> old(lane)@.frames == seq![first@] + final(lane)@.frames
            && final(lane)@.open == old(lane)@.open && final(lane)@.overflowed == old(lane)@.overflowed,
{
    if old(lane)@.frames.len() > 0 {
        assert(old(lane)@.frames =~= seq![frame->0@] + final(lane)@.frames);
    }
}

/// A budget grants at most 128 messages and 8 MiB, and what is given back is free again.
pub proof fn law_budget_is_kept(
    budget: &mut SupervisorOutputQueueBudget,
    retained: usize,
    granted: Option<SupervisorOutputReservation>,
)
    requires
        call_ensures(SupervisorOutputQueueBudget::reserve, (budget, retained), granted),
    ensures
        granted is Some <==> old(budget)@.messages < 128 && old(budget)@.bytes + retained <= 8388608,
        granted is Some ==> final(budget)@.messages == old(budget)@.messages + 1
            && final(budget)@.bytes == old(budget)@.bytes + retained && granted->0.spec_bytes()
            == retained,
        granted is None ==> final(budget)@ == old(budget)@,
{
}

/// What was reserved is given back in full.
pub proof fn law_budget_is_given_back(
    budget: &mut SupervisorOutputQueueBudget,
    reservation: SupervisorOutputReservation,
)
    requires
        old(budget)@.messages > 0,
        old(budget)@.bytes >= reservation.spec_bytes(),
        call_ensures(SupervisorOutputQueueBudget::release, (budget, reservation), ()),
    ensures
        final(budget)@.messages == old(budget)@.messages - 1,
        final(budget)@.bytes == old(budget)@.bytes - reservation.spec_bytes(),
{
}

/// A lane after a frame was sent to it.
pub open spec fn offered(lane: LaneModel, frame: FrameModel) -> LaneModel {
    if has_room(lane, frame) {
        LaneModel { frames: lane.frames.push(frame), open: lane.open, overflowed: lane.overflowed }
    } else {
        LaneModel { frames: lane.frames, open: lane.open, overflowed: true }
    }
}

proof fn lemma_deliver(lanes: Map<u64, LaneModel>, targets: Seq<u64>, frame: FrameModel)
    requires
        targets.no_duplicates(),
    ensures
        deliver(lanes, targets, frame).0.len() == targets.len(),
        deliver(lanes, targets, frame).1.dom() == lanes.dom(),
        forall|i: int|
            0 <= i < targets.len() ==> deliver(lanes, targets, frame).0[i] == (lanes.contains_key(
                #[trigger] targets[i],
            ) && has_room(lanes[targets[i]], frame)),
        forall|i: int|
            0 <= i < targets.len() && lanes.contains_key(#[trigger] targets[i]) ==> deliver(
                lanes,
                targets,
                frame,
            ).1[targets[i]] == offered(lanes[targets[i]], frame),
        forall|lane_id: u64|
            lanes.contains_key(lane_id) && !targets.contains(lane_id) ==> #[trigger] deliver(
                lanes,
                targets,
                frame,
            ).1[lane_id] == lanes[lane_id],
    decreases targets.len(),
{
    if targets.len() > 0 {
        let rest = targets.drop_last();
        let n = rest.len() as int;
        assert(forall|i: int| 0 <= i < n ==> rest[i] == #[trigger] targets[i]);
        assert(rest.no_duplicates());
        lemma_deliver(lanes, rest, frame);
        let target = targets[n];
        assert(!rest.contains(target)) by {
            if rest.contains(target) {
                let k = choose|k: int| 0 <= k < rest.len() && rest[k] == target;
                assert(targets[k] == targets[n]);
            }
        }
        let before = deliver(lanes, rest, frame);
        let after = deliver(lanes, targets, frame);
        if lanes.contains_key(target) {
            lemma_total(lanes[target].frames);
            assert(before.1[target] == lanes[target]);
            assert(after.1[target] =~= offered(lanes[target], frame));
        }
        assert(after.1.dom() =~= lanes.dom());
        assert forall|i: int| 0 <= i < targets.len() implies after.0[i] == (lanes.contains_key(
            #[trigger] targets[i],
        ) && has_room(lanes[targets[i]], frame)) by {
            if i < n {
                assert(rest[i] == targets[i]);
                assert(after.0[i] == before.0[i]);
            }
        }
        assert forall|i: int|
            0 <= i < targets.len() && lanes.contains_key(#[trigger] targets[i]) implies after.1[targets[i]]
            == offered(lanes[targets[i]], frame) by {
            if i < n {
                assert(rest[i] == targets[i]);
                assert(targets[i] != target);
            }
        }
        assert forall|lane_id: u64|
            lanes.contains_key(lane_id) && !targets.contains(lane_id) implies #[trigger] after.1[lane_id]
            == lanes[lane_id] by {
            assert(targets.contains(target));
            if rest.contains(lane_id) {
                let k = choose|k: int| 0 <= k < rest.len() && rest[k] == lane_id;
                assert(targets[k] == lane_id);
            }
        }
    }
}

spec fn is_flagged<A>(items: Seq<A>, flags: Seq<bool>, item: A) -> bool {
    exists|i: int| 0 <= i < items.len() && flags[i] && #[trigger] items[i] == item
}

proof fn lemma_flagged<A>(items: Seq<A>, flags: Seq<bool>)
    requires
        items.len() == flags.len(),
    ensures
        flagged(items, flags).len() <= items.len(),
        forall|i: int|
            0 <= i < items.len() && flags[i] ==> flagged(items, flags).contains(#[trigger] items[i]),
        forall|k: int|
            0 <= k < flagged(items, flags).len() ==> is_flagged(
                items,
                flags,
                #[trigger] flagged(items, flags)[k],
            ),
    decreases items.len(),
{
    let kept = flagged(items, flags);
    if items.len() > 0 {
        let rest = items.drop_first();
        let rest_flags = flags.drop_first();
        let rest_kept = flagged(rest, rest_flags);
        lemma_flagged(rest, rest_flags);
        let shift: int = if flags[0] {
            1
        } else {
            0
        };
        assert(forall|k: int| 0 <= k < rest_kept.len() ==> kept[k + shift] == #[trigger] rest_kept[k]);
        assert forall|i: int| 0 <= i < items.len() && flags[i] implies kept.contains(
            #[trigger] items[i],
        ) by {
            if i == 0 {
                assert(kept[0] == items[0]);
            } else {
                assert(rest[i - 1] == items[i]);
                assert(rest_kept.contains(rest[i - 1]));
                let k = choose|k: int| 0 <= k < rest_kept.len() && rest_kept[k] == rest[i - 1];
                assert(kept[k + shift] == items[i]);
            }
        }
        assert forall|k: int| 0 <= k < kept.len() implies is_flagged(
            items,
            flags,
            #[trigger] kept[k],
        ) by {
            if k < shift {
                assert(items[0] == kept[k]);
            } else {
                assert(kept[k] == rest_kept[k - shift]);
                let i = choose|i: int|
                    0 <= i < rest.len() && rest_flags[i] && #[trigger] rest[i] == rest_kept[k - shift];
                assert(flags[i + 1] == rest_flags[i]);
                assert(items[i + 1] == kept[k]);
            }
        }
    }
}

/// Every controller and every viewer reads from a lane of its own.
pub open spec fn lanes_are_distinct(state: StateModel) -> bool {
    (controller_lanes(state.controllers) + attach_lanes(state.terminal_attaches)).no_duplicates()
}

/// What the session prints reaches every registered controller and every registered viewer whose lane
/// has room, behind what waits there, whoever else is registered. Whoever has no room is dropped and
/// marked, and nobody else is. No other lane is touched, and nothing else of the session changes.
pub proof fn law_output_reaches_everybody(
    state: &mut SupervisorState,
    frame: &PtyTerminalFrame,
    i: int,
    j: int,
    lane_id: u64,
)
    requires
        lanes_are_distinct(old(state)@),
        call_ensures(SupervisorState::broadcast_terminal_frame, (state, frame), ()),
    ensures
        0 <= i < old(state)@.controllers.len() ==> {
            let entry = old(state)@.controllers[i];
            let lane = entry.1.lane_id;
            let reached = old(state)@.lanes.contains_key(lane) && has_room(
                old(state)@.lanes[lane],
                frame@,
            );
            &&& old(state)@.lanes.contains_key(lane) ==> final(state)@.lanes[lane] == offered(
                old(state)@.lanes[lane],
                frame@,
            )
            &&& reached ==> final(state)@.controllers.contains(entry)
        },
        0 <= j < old(state)@.terminal_attaches.len() ==> {
            let entry = old(state)@.terminal_attaches[j];
            let lane = entry.1;
            let reached = old(state)@.lanes.contains_key(lane) && has_room(
                old(state)@.lanes[lane],
                frame@,
            );
            &&& old(state)@.lanes.contains_key(lane) ==> final(state)@.lanes[lane] == offered(
                old(state)@.lanes[lane],
                frame@,
            )
            &&& reached ==> final(state)@.terminal_attaches.contains(entry)
        },
        0 <= i < final(state)@.controllers.len() ==> {
            let entry = final(state)@.controllers[i];
            &&& old(state)@.controllers.contains(entry)
            &&& old(state)@.lanes.contains_key(entry.1.lane_id)
            &&& has_room(old(state)@.lanes[entry.1.lane_id], frame@)
        },
        0 <= j < final(state)@.terminal_attaches.len() ==> {
            let entry = final(state)@.terminal_attaches[j];
            &&& old(state)@.terminal_attaches.contains(entry)
            &&& old(state)@.lanes.contains_key(entry.1)
            &&& has_room(old(state)@.lanes[entry.1], frame@)
        },
        final(state)@.lanes.dom() == old(state)@.lanes.dom(),
        old(state)@.lanes.contains_key(lane_id) && !controller_lanes(
            old(state)@.controllers,
        ).contains(lane_id) && !attach_lanes(old(state)@.terminal_attaches).contains(lane_id)
            ==> final(state)@.lanes[lane_id] == old(state)@.lanes[lane_id],
        final(state)@.terminal == old(state)@.terminal,
        final(state)@.attached_devices == old(state)@.attached_devices,
        final(state)@.controller_resume_lease_id == old(state)@.controller_resume_lease_id,
        final(state)@.exited == old(state)@.exited,
{
    let before = old(state)@;
    let after = final(state)@;
    let controllers = controller_lanes(before.controllers);
    let viewers = attach_lanes(before.terminal_attaches);
    let all = controllers + viewers;
    assert(controllers.no_duplicates()) by {
        assert forall|a: int, b: int|
            0 <= a < controllers.len() && 0 <= b < controllers.len() && a != b implies controllers[a]
            != controllers[b] by {
            assert(all[a] != all[b]);
        }
    }
    assert(viewers.no_duplicates()) by {
        assert forall|a: int, b: int|
            0 <= a < viewers.len() && 0 <= b < viewers.len() && a != b implies viewers[a]
            != viewers[b] by {
            assert(all[controllers.len() + a] != all[controllers.len() + b]);
        }
    }
    let first = deliver(before.lanes, controllers, frame@);
    let second = deliver(first.1, viewers, frame@);
    lemma_deliver(before.lanes, controllers, frame@);
    lemma_deliver(first.1, viewers, frame@);
    lemma_flagged(before.controllers, first.0);
    lemma_flagged(before.terminal_attaches, second.0);
    assert forall|a: int| 0 <= a < controllers.len() implies !viewers.contains(
        #[trigger] controllers[a],
    ) by {
        if viewers.contains(controllers[a]) {
            let b = choose|b: int| 0 <= b < viewers.len() && viewers[b] == controllers[a];
            assert(all[a] != all[controllers.len() + b]);
        }
    }
    assert forall|b: int| 0 <= b < viewers.len() implies !controllers.contains(
        #[trigger] viewers[b],
    ) by {
        if controllers.contains(viewers[b]) {
            let a = choose|a: int| 0 <= a < controllers.len() && controllers[a] == viewers[b];
            assert(!viewers.contains(controllers[a]));
        }
    }
    if 0 <= i < before.controllers.len() {
        assert(controllers[i] == before.controllers[i].1.lane_id);
    }
    if 0 <= j < before.terminal_attaches.len() {
        assert(viewers[j] == before.terminal_attaches[j].1);
        assert(!controllers.contains(viewers[j]));
    }
    if 0 <= i < after.controllers.len() {
        assert(is_flagged(before.controllers, first.0, after.controllers[i]));
        let a = choose|a: int|
            0 <= a < before.controllers.len() && first.0[a] && #[trigger] before.controllers[a]
                == after.controllers[i];
        assert(controllers[a] == before.controllers[a].1.lane_id);
        assert(before.controllers.contains(after.controllers[i]));
    }
    if 0 <= j < after.terminal_attaches.len() {
        assert(is_flagged(before.terminal_attaches, second.0, after.terminal_attaches[j]));
        let b = choose|b: int|
            0 <= b < before.terminal_attaches.len() && second.0[b]
                && #[trigger] before.terminal_attaches[b] == after.terminal_attaches[j];
        assert(viewers[b] == before.terminal_attaches[b].1);
        assert(!controllers.contains(viewers[b]));
        assert(before.terminal_attaches.contains(after.terminal_attaches[j]));
    }
}

/// The active controller stays the active one as long as its lane has room.
pub proof fn law_output_keeps_the_active_controller(
    state: &mut SupervisorState,
    frame: &PtyTerminalFrame,
)
    requires
        lanes_are_distinct(old(state)@),
        call_ensures(SupervisorState::broadcast_terminal_frame, (state, frame), ()),
        forall|i: int|
            #![trigger old(state)@.controllers[i]]
            0 <= i < old(state)@.controllers.len() && old(state)@.active_controller_id == Some(
                old(state)@.controllers[i].0,
            ) ==> old(state)@.lanes.contains_key(old(state)@.controllers[i].1.lane_id) && has_room(
                old(state)@.lanes[old(state)@.controllers[i].1.lane_id],
                frame@,
            ),
    ensures
        final(state)@.active_controller_id == old(state)@.active_controller_id,
        final(state)@.active_controller_connection_id == old(state)@.active_controller_connection_id,
{
    let before = old(state)@;
    let controllers = controller_lanes(before.controllers);
    let all = controllers + attach_lanes(before.terminal_attaches);
    assert(controllers.no_duplicates()) by {
        assert forall|a: int, b: int|
            0 <= a < controllers.len() && 0 <= b < controllers.len() && a != b implies controllers[a]
            != controllers[b] by {
            assert(all[a] != all[b]);
        }
    }
    lemma_deliver(before.lanes, controllers, frame@);
    let taken = deliver(before.lanes, controllers, frame@).0;
    if before.active_dropped(taken) {
        let i = choose|i: int|
            #![trigger before.controllers[i]]
            0 <= i < before.controllers.len() && !taken[i] && before.active_controller_id == Some(
                before.controllers[i].0,
            ) && before.active_controller_connection_id == Some(before.controllers[i].1.connection_id);
        assert(controllers[i] == before.controllers[i].1.lane_id);
    }
}

/// The active controller whose lane has no room is active no longer, so that it has to synchronise anew.
pub proof fn law_full_controller_loses_its_place(
    state: &mut SupervisorState,
    frame: &PtyTerminalFrame,
    i: int,
)
    requires
        lanes_are_distinct(old(state)@),
        call_ensures(SupervisorState::broadcast_terminal_frame, (state, frame), ()),
        0 <= i < old(state)@.controllers.len(),
        old(state)@.active_controller_id == Some(old(state)@.controllers[i].0),
        old(state)@.active_controller_connection_id == Some(
            old(state)@.controllers[i].1.connection_id,
        ),
        !(old(state)@.lanes.contains_key(old(state)@.controllers[i].1.lane_id) && has_room(
            old(state)@.lanes[old(state)@.controllers[i].1.lane_id],
            frame@,
        )),
    ensures
        final(state)@.active_controller_id is None,
        final(state)@.active_controller_connection_id is None,
{
    let before = old(state)@;
    let controllers = controller_lanes(before.controllers);
    let all = controllers + attach_lanes(before.terminal_attaches);
    assert(controllers.no_duplicates()) by {
        assert forall|a: int, b: int|
            0 <= a < controllers.len() && 0 <= b < controllers.len() && a != b implies controllers[a]
            != controllers[b] by {
            assert(all[a] != all[b]);
        }
    }
    lemma_deliver(before.lanes, controllers, frame@);
    assert(controllers[i] == before.controllers[i].1.lane_id);
    let taken = deliver(before.lanes, controllers, frame@).0;
    assert(!taken[i]);
    assert(before.active_dropped(taken));
}

/// A daemon that attaches becomes the active controller under numbers that nobody had, and may resume
/// later. It is told the current size, whether the process has ended, its number, and the whole screen if
/// it has seen nothing before. Devices, viewers and the journal stay as they were.
pub proof fn law_attached_daemon_controls_and_knows(
    state: &mut SupervisorState,
    lane_id: u64,
    process_id: Option<u32>,
    screen: Vec<u8>,
    res: (ControllerIdentity, SupervisorAttachSyncPayload),
)
    requires
        old(state).wf(),
        old(state)@.next_controller_id < u64::MAX,
        old(state)@.next_controller_connection_id < u64::MAX,
        call_ensures(
            SupervisorState::attach_sync,
            (state, lane_id, process_id, None::<u64>, screen),
            res,
        ),
    ensures
        res.0.id == old(state)@.next_controller_id,
        res.0.connection_id == old(state)@.next_controller_connection_id,
        final(state)@.next_controller_id == res.0.id + 1,
        final(state)@.next_controller_connection_id == res.0.connection_id + 1,
        final(state)@.active_controller_id == Some(res.0.id),
        final(state)@.active_controller_connection_id == Some(res.0.connection_id),
        final(state)@.controller_resume_lease_id == Some(res.0.id),
        lookup(final(state)@.controllers, res.0.id) == Some(
            ControllerHandle { connection_id: res.0.connection_id, lane_id },
        ),
        forall|other: u64|
            other != res.0.id ==> #[trigger] lookup(final(state)@.controllers, other) == lookup(
                old(state)@.controllers,
                other,
            ),
        final(state)@.attached_devices == old(state)@.attached_devices,
        final(state)@.terminal_attaches == old(state)@.terminal_attaches,
        final(state)@.terminal == old(state)@.terminal,
        final(state)@.lanes == old(state)@.lanes,
        res.1.controller_id == res.0.id,
        res.1.controller_connection_id == res.0.connection_id,
        res.1.snapshot.size == old(state)@.terminal.size,
        res.1.snapshot.process_id == process_id,
        res.1.snapshot.exited == old(state)@.exited,
        res.1.base_seq == old(state)@.terminal.next_seq - 1,
        res.1.frames@.len() == 1,
        is_screen(
            res.1.frames@[0],
            old(state)@.terminal.next_seq - 1,
            old(state)@.terminal.size,
            screen@,
        ),
{
    old(state).lemma_wf();
    let handle = ControllerHandle { connection_id: res.0.connection_id, lane_id };
    assert forall|other: u64| other != res.0.id implies #[trigger] lookup(
        final(state)@.controllers,
        other,
    ) == lookup(old(state)@.controllers, other) by {
        lemma_with(old(state)@.controllers, res.0.id, handle, other);
    }
    lemma_with(old(state)@.controllers, res.0.id, handle, res.0.id);
    assert(frame_models(res.1.frames@) == res.1@.frames);
    assert(frame_models(res.1.frames@)[0] == res.1.frames@[0]@);
}

/// A controller that is gone leaves no entry and is not active; every other controller stays registered,
/// and active if it was. The lease stays, so that it can come back.
pub proof fn law_only_the_gone_controller_leaves(
    state: &mut SupervisorState,
    controller: ControllerIdentity,
    other: u64,
)
    requires
        call_ensures(SupervisorState::remove_controller, (state, controller), ()),
    ensures
        other != controller.id ==> lookup(final(state)@.controllers, other) == lookup(
            old(state)@.controllers,
            other,
        ),
        !(lookup(final(state)@.controllers, controller.id) matches Some(handle)
            && handle.connection_id == controller.connection_id),
        lookup(old(state)@.controllers, controller.id) matches Some(handle) && handle.connection_id
            != controller.connection_id ==> lookup(final(state)@.controllers, controller.id)
            == lookup(old(state)@.controllers, controller.id),
        final(state)@.active_controller_id == (if old(state)@.active_controller_id == Some(
            controller.id,
        ) && old(state)@.active_controller_connection_id == Some(controller.connection_id) {
            None
        } else {
            old(state)@.active_controller_id
        }),
        final(state)@.controller_resume_lease_id == old(state)@.controller_resume_lease_id,
        final(state)@.attached_devices == old(state)@.attached_devices,
        final(state)@.terminal_attaches == old(state)@.terminal_attaches,
        final(state)@.terminal == old(state)@.terminal,
{
    lemma_without(old(state)@.controllers, controller.id, controller.id);
    lemma_without(old(state)@.controllers, controller.id, other);
}

/// A viewer that is registered reads from its lane under a number of its own, beside the viewers that are
/// there; one that is removed leaves alone.
pub proof fn law_viewers_come_and_go_alone(
    state: &mut SupervisorState,
    lane_id: u64,
    attach_id: u64,
    other: u64,
)
    requires
        call_ensures(SupervisorState::register_terminal_attach, (state, lane_id), attach_id),
    ensures
        attach_id == old(state)@.next_terminal_attach_id,
        attach_id < u64::MAX ==> final(state)@.next_terminal_attach_id == attach_id + 1,
        lookup(final(state)@.terminal_attaches, attach_id) == Some(lane_id),
        other != attach_id ==> lookup(final(state)@.terminal_attaches, other) == lookup(
            old(state)@.terminal_attaches,
            other,
        ),
        final(state)@.controllers == old(state)@.controllers,
        final(state)@.active_controller_id == old(state)@.active_controller_id,
        final(state)@.terminal == old(state)@.terminal,
        final(state)@.lanes == old(state)@.lanes,
{
    lemma_with(old(state)@.terminal_attaches, attach_id, lane_id, attach_id);
    lemma_with(old(state)@.terminal_attaches, attach_id, lane_id, other);
}

/// A viewer that is removed is not reached any more, and every other one still is.
pub proof fn law_removed_viewer_is_gone(state: &mut SupervisorState, attach_id: u64, other: u64)
    requires
        call_ensures(SupervisorState::remove_terminal_attach, (state, attach_id), ()),
    ensures
        lookup(final(state)@.terminal_attaches, attach_id) is None,
        other != attach_id ==> lookup(final(state)@.terminal_attaches, other) == lookup(
            old(state)@.terminal_attaches,
            other,
        ),
        final(state)@.controllers == old(state)@.controllers,
        final(state)@.terminal == old(state)@.terminal,
        final(state)@.lanes == old(state)@.lanes,
{
    lemma_without(old(state)@.terminal_attaches, attach_id, attach_id);
    lemma_without(old(state)@.terminal_attaches, attach_id, other);
}

/// Devices of a supervised session come, go and are asked for one by one.
pub proof fn law_devices_are_kept_one_by_one(
    state: &mut SupervisorState,
    device_id: &str,
    other: &str,
    found: bool,
)
    requires
        call_ensures(SupervisorState::attach_device, (state, device_id), ()),
        call_ensures(SupervisorState::has_attached_device, (&*final(state), other), found),
    ensures
        found <==> other@ == device_id@ || old(state)@.attached_devices.contains(other@),
        final(state)@.controllers == old(state)@.controllers,
        final(state)@.terminal == old(state)@.terminal,
{
}

/// A device that was detached is not found any more; every other one is found as before.
pub proof fn law_detached_device_is_gone(
    state: &mut SupervisorState,
    device_id: &str,
    other: &str,
    found: bool,
)
    requires
        call_ensures(SupervisorState::detach_device, (state, device_id), ()),
        call_ensures(SupervisorState::has_attached_device, (&*final(state), other), found),
    ensures
        found <==> other@ != device_id@ && old(state)@.attached_devices.contains(other@),
        final(state)@.controllers == old(state)@.controllers,
        final(state)@.terminal == old(state)@.terminal,
{
}

/// What follows a synchronisation is what waits and is newer than it, all of it and in order, and
/// screens.
pub proof fn law_newer_frames_follow_a_sync(frames: Seq<FrameModel>, base_seq: u64, i: int, j: int)
    ensures
        0 <= i < frames.len() && (frames[i] is Snapshot || crate::laws::frames::number_of(frames[i])
            > base_seq) ==> not_covered(frames, base_seq).contains(frames[i]),
        0 <= j < not_covered(frames, base_seq).len() ==> frames.contains(
            not_covered(frames, base_seq)[j],
        ) && (not_covered(frames, base_seq)[j] is Snapshot || crate::laws::frames::number_of(
            not_covered(frames, base_seq)[j],
        ) > base_seq),
        not_covered(frames, base_seq).len() <= frames.len(),
        (forall|k: int|
            0 <= k < frames.len() ==> (#[trigger] frames[k]) is Snapshot
                || crate::laws::frames::number_of(frames[k]) > base_seq) ==> not_covered(
            frames,
            base_seq,
        ) == frames,
    decreases frames.len(),
{
    if frames.len() > 0 {
        let rest = frames.drop_last();
        let n = rest.len() as int;
        let kept = not_covered(rest, base_seq);
        let all = not_covered(frames, base_seq);
        assert(forall|k: int| 0 <= k < n ==> rest[k] == #[trigger] frames[k]);
        law_newer_frames_follow_a_sync(rest, base_seq, i, j);
        assert(forall|k: int| 0 <= k < kept.len() ==> all[k] == #[trigger] kept[k]);
        if 0 <= i < n && (frames[i] is Snapshot || crate::laws::frames::number_of(frames[i]) > base_seq) {
            assert(kept.contains(rest[i]));
            let k = choose|k: int| 0 <= k < kept.len() && kept[k] == rest[i];
            assert(all[k] == frames[i]);
        } else if i == n && (frames[i] is Snapshot || crate::laws::frames::number_of(frames[i])
            > base_seq) {
            assert(all[all.len() - 1] == frames[n]);
        }
        if 0 <= j < kept.len() {
            assert(rest.contains(kept[j]));
            let k = choose|k: int| 0 <= k < rest.len() && rest[k] == kept[j];
            assert(frames[k] == all[j]);
        } else if 0 <= j < all.len() {
            assert(frames[n] == all[j]);
        }
    }
}

/// A supervisor starts with the size and the capability that it was given, and with nobody and nothing else.
pub proof fn law_supervisor_starts_alone(
    size: PtySize,
    capability: Option<[u8; 32]>,
    state: SupervisorState,
    secret: [u8; 32],
    with_secret: SupervisorState,
)
    requires
        call_ensures(SupervisorState::with_optional_cleanup_capability, (size, capability), state),
        call_ensures(SupervisorState::with_cleanup_capability, (size, secret), with_secret),
    ensures
        state@.terminal.size == size,
        state@.terminal.next_seq == 1,
        state@.terminal.journal.len() == 0,
        state@.cleanup_capability is Some <==> capability is Some,
        capability is Some ==> state@.cleanup_capability->0 == capability->0@,
        state@.cleanup_capability_replaceable <==> capability is None,
        state@.active_controller_id is None,
        state@.controller_resume_lease_id is None,
        state@.controllers.len() == 0,
        state@.terminal_attaches.len() == 0,
        state@.committed_resumes.len() == 0,
        state@.confirmed_close is None,
        !state@.exited,
        forall|device: Seq<char>| !(#[trigger] state@.attached_devices.contains(device)),
        forall|lane: u64| !(#[trigger] state@.lanes.contains_key(lane)),
        with_secret@.cleanup_capability == Some(secret@),
        with_secret@.terminal.size == size,
{
}

/// Lanes are opened under new numbers, empty, and closed alone.
pub proof fn law_lanes_are_opened_and_closed_alone(
    state: &mut SupervisorState,
    lane_id: u64,
    closed: &mut SupervisorState,
    gone: u64,
    other: u64,
)
    requires
        call_ensures(SupervisorState::open_lane, (state,), lane_id),
        old(state)@.next_lane_id < u64::MAX,
        call_ensures(SupervisorState::close_lane, (closed, gone), ()),
    ensures
        lane_id == old(state)@.next_lane_id,
        final(state)@.next_lane_id == lane_id + 1,
        final(state)@.lanes.contains_key(lane_id),
        final(state)@.lanes[lane_id].frames.len() == 0,
        final(state)@.lanes[lane_id].open,
        !final(state)@.lanes[lane_id].overflowed,
        other != lane_id ==> final(state)@.lanes.contains_key(other) == old(
            state,
        )@.lanes.contains_key(other),
        other != lane_id && old(state)@.lanes.contains_key(other) ==> final(state)@.lanes[other] == old(
            state,
        )@.lanes[other],
        final(state)@.terminal == old(state)@.terminal,
        final(state)@.controllers == old(state)@.controllers,
        !final(closed)@.lanes.contains_key(gone),
        other != gone ==> final(closed)@.lanes.contains_key(other) == old(
            closed,
        )@.lanes.contains_key(other),
        other != gone && old(closed)@.lanes.contains_key(other) ==> final(closed)@.lanes[other] == old(
            closed,
        )@.lanes[other],
        final(closed)@.terminal == old(closed)@.terminal,
        final(closed)@.controllers == old(closed)@.controllers,
{
}

/// Frames leave a lane of the session in order; what follows a synchronisation leaves all at once.
pub proof fn law_lane_is_read_in_order(
    state: &mut SupervisorState,
    lane_id: u64,
    frame: Option<PtyTerminalFrame>,
    drained: &mut SupervisorState,
    base_seq: u64,
    frames: Vec<PtyTerminalFrame>,
    overflowed: bool,
)
    requires
        call_ensures(SupervisorState::lane_try_recv, (state, lane_id), frame),
        call_ensures(SupervisorState::drain_lane_after_sync, (drained, lane_id, base_seq), frames),
        call_ensures(SupervisorState::lane_overflowed, (&*old(state), lane_id), overflowed),
    ensures
        ({
            let present = old(state)@.lanes.contains_key(lane_id);
            let lane = old(state)@.lanes[lane_id];
            &&& frame is Some <==> present && lane.frames.len() > 0
            &&& frame is Some ==> frame->0@ == lane.frames[0] && final(state)@.lanes[lane_id].frames
                == lane.frames.skip(1) && final(state)@.lanes[lane_id].overflowed == lane.overflowed
            &&& frame is None ==> final(state)@ == old(state)@
            &&& overflowed <==> present && lane.overflowed
        }),
        !old(drained)@.lanes.contains_key(lane_id) ==> frames@.len() == 0 && final(drained)@ == old(
            drained,
        )@,
        old(drained)@.lanes.contains_key(lane_id) ==> {
            &&& frame_models(frames@) == not_covered(old(drained)@.lanes[lane_id].frames, base_seq)
            &&& final(drained)@.lanes[lane_id].frames.len() == 0
            &&& final(drained)@.lanes[lane_id].open == old(drained)@.lanes[lane_id].open
            &&& final(drained)@.terminal == old(drained)@.terminal
        },
{
    assert(frame_models(frames@).len() == frames@.len());
}

/// After a reset no device is attached, and nothing else has changed.
pub proof fn law_reset_leaves_no_device(
    state: &mut SupervisorState,
    device: &str,
    attached: bool,
)
    requires
        call_ensures(SupervisorState::reset_attached_devices, (state,), ()),
        call_ensures(SupervisorState::has_attached_device, (&*final(state), device), attached),
    ensures
        !attached,
        final(state)@ == (StateModel {
            attached_devices: final(state)@.attached_devices,
            ..old(state)@
        }),
{
}

/// A reader who has seen nothing gets the screen, whole and alone, with the number of the last event.
pub proof fn law_session_shows_its_screen(
    state: &SupervisorState,
    screen: Vec<u8>,
    res: (u64, Vec<PtyTerminalFrame>),
    process_id: Option<u32>,
    output: Vec<u8>,
    payload: SupervisorSnapshotPayload,
)
    requires
        call_ensures(
            SupervisorState::terminal_snapshot_or_tail_with_base,
            (state, None::<u64>, screen),
            res,
        ),
        call_ensures(SupervisorState::snapshot_payload, (state, process_id, output), payload),
    ensures
        res.0 == state@.terminal.next_seq - 1,
        res.1@.len() == 1,
        is_screen(res.1@[0], state@.terminal.next_seq - 1, state@.terminal.size, screen@),
        payload.size == state@.terminal.size,
        payload.process_id == process_id,
        payload.exited == state@.exited,
        payload.retained_output@ == output@,
{
    assert(frame_models(res.1@).len() == res.1@.len());
    assert(frame_models(res.1@)[0] == res.1@[0]@);
}

/// The numbers of events and lanes end; before they do there is room.
pub proof fn law_numbers_may_run_out(state: &SupervisorState, record: bool, lane: bool)
    requires
        call_ensures(SupervisorState::can_record, (state,), record),
        call_ensures(SupervisorState::can_open_lane, (state,), lane),
    ensures
        record <==> state@.terminal.next_seq < 0xffff_ffff_ffff_ffff,
        lane <==> state@.next_lane_id < 0xffff_ffff_ffff_ffff,
{
}

/// Who had the session last may prepare to take it back, under a new connection, and is shown the session;
/// nobody loses it by that.
pub proof fn law_last_owner_may_prepare(
    state: &mut SupervisorState,
    id: u64,
    process_id: Option<u32>,
    screen: Vec<u8>,
    res: PtyResult<(ControllerIdentity, SupervisorAttachSyncPayload)>,
    may: bool,
)
    requires
        call_ensures(
            SupervisorState::resume_attach_sync,
            (state, id, process_id, None::<u64>, screen),
            res,
        ),
        call_ensures(SupervisorState::may_resume, (&*old(state), id), may),
        old(state)@.terminal.next_seq > 0,
        old(state)@.next_controller_connection_id < u64::MAX,
    ensures
        may <==> old(state)@.controller_resume_lease_id == Some(id) && (old(
            state,
        )@.active_controller_id is None || old(state)@.active_controller_id == Some(id)),
        res is Ok <==> may && 0 < id < old(state)@.next_controller_id,
        res is Err ==> final(state)@ == old(state)@,
        res is Ok ==> {
            let candidate = (res->Ok_0).0;
            let sync = (res->Ok_0).1;
            &&& candidate.id == id
            &&& candidate.connection_id == old(state)@.next_controller_connection_id
            &&& final(state)@ == (StateModel {
                next_controller_connection_id: (candidate.connection_id + 1) as u64,
                ..old(state)@
            })
            &&& sync.controller_id == id
            &&& sync.controller_connection_id == candidate.connection_id
            &&& sync.snapshot.size == old(state)@.terminal.size
            &&& sync.snapshot.process_id == process_id
            &&& sync.snapshot.exited == old(state)@.exited
            &&& sync.base_seq == old(state)@.terminal.next_seq - 1
            &&& sync.frames@.len() == 1
            &&& is_screen(sync.frames@[0], sync.base_seq as int, old(state)@.terminal.size, screen@)
        },
{
    if res is Ok {
        let sync = (res->Ok_0).1;
        assert(frame_models(sync.frames@).len() == sync.frames@.len());
        assert(frame_models(sync.frames@)[0] == sync.frames@[0]@);
    }
}

/// A commit makes the candidate the active controller, and the same number gives the same one again.
pub proof fn law_commit_makes_the_candidate_active(
    state: &mut SupervisorState,
    transaction: u64,
    candidate: ControllerIdentity,
    lane_id: u64,
    res: PtyResult<ControllerIdentity>,
    recorded: Option<ControllerIdentity>,
    active: bool,
    other: u64,
)
    requires
        call_ensures(
            SupervisorState::commit_controller_resume,
            (state, transaction, candidate, lane_id),
            res,
        ),
        call_ensures(SupervisorState::committed_controller_resume, (&*final(state), transaction), recorded),
        res is Ok ==> call_ensures(
            SupervisorState::is_active_controller,
            (&*final(state), res->Ok_0),
            active,
        ),
    ensures
        ({
            let known = lookup(old(state)@.committed_resumes, transaction);
            let may = old(state)@.controller_resume_lease_id == Some(candidate.id) && (old(
                state,
            )@.active_controller_id is None || old(state)@.active_controller_id == Some(candidate.id));
            &&& known is Some && known->0.id == candidate.id ==> res is Ok && res->Ok_0 == known->0
            &&& known is Some && known->0.id != candidate.id ==> res is Err
            &&& known is None ==> (res is Ok <==> may)
            &&& known is None && res is Ok ==> res->Ok_0 == candidate
            &&& res is Err ==> final(state)@ == old(state)@
            &&& res is Ok ==> {
                &&& active
                &&& recorded == Some(res->Ok_0)
                &&& final(state)@.active_controller_id == Some(res->Ok_0.id)
                &&& final(state)@.active_controller_connection_id == Some(res->Ok_0.connection_id)
                &&& lookup(final(state)@.controllers, res->Ok_0.id) == Some(
                    ControllerHandle { connection_id: res->Ok_0.connection_id, lane_id },
                )
                &&& other != res->Ok_0.id ==> lookup(final(state)@.controllers, other) == lookup(
                    old(state)@.controllers,
                    other,
                )
                &&& final(state)@.terminal == old(state)@.terminal
                &&& final(state)@.attached_devices == old(state)@.attached_devices
                &&& final(state)@.lanes == old(state)@.lanes
            }
        }),
{
    if res is Ok {
        let handle = ControllerHandle { connection_id: res->Ok_0.connection_id, lane_id };
        lemma_with(old(state)@.controllers, res->Ok_0.id, handle, res->Ok_0.id);
        lemma_with(old(state)@.controllers, res->Ok_0.id, handle, other);
        lemma_with(old(state)@.committed_resumes, transaction, candidate, transaction);
    }
}

/// A capability that is installed is the session's and cannot be replaced; a close that is confirmed is
/// remembered.
pub proof fn law_capability_and_close_are_kept(
    state: &mut SupervisorState,
    capability: [u8; 32],
    told: Option<[u8; 32]>,
    settled: &mut SupervisorState,
    closed: &mut SupervisorState,
    number: u64,
    confirmed: Option<u64>,
)
    requires
        call_ensures(SupervisorState::install_cleanup_capability, (state, capability), ()),
        call_ensures(SupervisorState::cleanup_capability, (&*final(state),), told),
        call_ensures(SupervisorState::settle_cleanup_capability, (settled,), ()),
        call_ensures(SupervisorState::confirm_close, (closed, number), ()),
        call_ensures(SupervisorState::confirmed_close_operation_id, (&*final(closed),), confirmed),
    ensures
        told is Some,
        told->0@ == capability@,
        final(state)@ == (StateModel {
            cleanup_capability: Some(capability@),
            cleanup_capability_replaceable: false,
            ..old(state)@
        }),
        final(settled)@ == (StateModel { cleanup_capability_replaceable: false, ..old(settled)@ }),
        confirmed == Some(number),
        final(closed)@ == (StateModel { confirmed_close: Some(number), ..old(closed)@ }),
{
}

/// What is counted is what is there.
pub proof fn law_connections_are_counted(
    state: &SupervisorState,
    controllers: usize,
    resumes: usize,
    viewers: usize,
    size: PtySize,
    exited: bool,
)
    requires
        call_ensures(SupervisorState::controller_count, (state,), controllers),
        call_ensures(SupervisorState::committed_resume_count, (state,), resumes),
        call_ensures(SupervisorState::terminal_attach_count, (state,), viewers),
        call_ensures(SupervisorState::size, (state,), size),
        call_ensures(SupervisorState::exited, (state,), exited),
    ensures
        controllers == state@.controllers.len(),
        resumes == state@.committed_resumes.len(),
        viewers == state@.terminal_attaches.len(),
        size == state@.terminal.size,
        exited == state@.exited,
{
}

/// What a lane holds after some copies of a frame were offered to it: what it held, and then nothing but
/// that frame.
pub open spec fn holds_more(before: LaneModel, after: LaneModel, frame: FrameModel) -> bool {
    &&& after.open == before.open
    &&& before.frames.len() <= after.frames.len()
    &&& after.frames.take(before.frames.len() as int) == before.frames
    &&& forall|k: int|
        before.frames.len() <= k < after.frames.len() ==> #[trigger] after.frames[k] == frame
    &&& before.overflowed ==> after.overflowed
}

proof fn lemma_holds_more(a: LaneModel, b: LaneModel, c: LaneModel, frame: FrameModel)
    requires
        holds_more(a, b, frame),
        holds_more(b, c, frame),
    ensures
        holds_more(a, c, frame),
{
    assert(c.frames.take(a.frames.len() as int) =~= a.frames) by {
        assert forall|k: int| 0 <= k < a.frames.len() implies c.frames[k] == a.frames[k] by {
            assert(c.frames.take(b.frames.len() as int)[k] == b.frames[k]);
            assert(b.frames.take(a.frames.len() as int)[k] == a.frames[k]);
        }
    }
    assert forall|k: int| a.frames.len() <= k < c.frames.len() implies #[trigger] c.frames[k] == frame by {
        if k < b.frames.len() {
            assert(c.frames.take(b.frames.len() as int)[k] == b.frames[k]);
        }
    }
}

proof fn lemma_delivered(lanes: Map<u64, LaneModel>, targets: Seq<u64>, frame: FrameModel, lane_id: u64)
    requires
        lanes.contains_key(lane_id),
    ensures
        ({
            let after = deliver(lanes, targets, frame).1;
            &&& after.contains_key(lane_id)
            &&& holds_more(lanes[lane_id], after[lane_id], frame)
            &&& targets.contains(lane_id) && has_room(lanes[lane_id], frame)
                ==> after[lane_id].frames.len() > lanes[lane_id].frames.len()
            &&& targets.contains(lane_id) && !has_room(lanes[lane_id], frame)
                ==> after[lane_id].overflowed
            &&& !targets.contains(lane_id) ==> after[lane_id] == lanes[lane_id]
        }),
    decreases targets.len(),
{
    let lane = lanes[lane_id];
    if targets.len() == 0 {
        assert(lane.frames.take(lane.frames.len() as int) =~= lane.frames);
    } else {
        let rest = targets.drop_last();
        lemma_delivered(lanes, rest, frame, lane_id);
        let before = deliver(lanes, rest, frame).1;
        let after = deliver(lanes, targets, frame).1;
        let n = rest.len() as int;
        assert(targets[n] == targets.last());
        if targets.last() == lane_id {
            assert(targets.contains(lane_id));
            lemma_total(before[lane_id].frames);
            assert(after[lane_id].frames.take(before[lane_id].frames.len() as int)
                =~= before[lane_id].frames);
            lemma_holds_more(lane, before[lane_id], after[lane_id], frame);
            if !rest.contains(lane_id) {
                assert(before[lane_id] == lane);
            }
        } else {
            assert(after[lane_id] == before[lane_id]);
            if targets.contains(lane_id) {
                let k = choose|k: int| 0 <= k < targets.len() && targets[k] == lane_id;
                assert(rest[k] == lane_id);
            }
            if rest.contains(lane_id) {
                let k = choose|k: int| 0 <= k < rest.len() && rest[k] == lane_id;
                assert(targets[k] == lane_id);
            }
        }
    }
}

/// Whatever lanes the controllers and the viewers read from, shared ones too: a lane of one of them that has
/// room gets the frame right behind what waits there, and no lane loses or reorders anything.
pub proof fn law_output_reaches_every_lane(
    state: &mut SupervisorState,
    frame: &PtyTerminalFrame,
    lane_id: u64,
)
    requires
        old(state)@.lanes.contains_key(lane_id),
        call_ensures(SupervisorState::broadcast_terminal_frame, (state, frame), ()),
    ensures
        ({
            let before = old(state)@.lanes[lane_id];
            let after = final(state)@.lanes[lane_id];
            let registered = controller_lanes(old(state)@.controllers).contains(lane_id)
                || attach_lanes(old(state)@.terminal_attaches).contains(lane_id);
            &&& final(state)@.lanes.contains_key(lane_id)
            &&& holds_more(before, after, frame@)
            &&& registered && has_room(before, frame@) ==> after.frames.len() > before.frames.len()
                && after.frames[before.frames.len() as int] == frame@
            &&& registered && !has_room(before, frame@) ==> after.overflowed
            &&& !registered ==> after == before
        }),
{
    let before = old(state)@;
    let controllers = controller_lanes(before.controllers);
    let viewers = attach_lanes(before.terminal_attaches);
    let first = deliver(before.lanes, controllers, frame@).1;
    let second = deliver(first, viewers, frame@).1;
    lemma_delivered(before.lanes, controllers, frame@, lane_id);
    lemma_delivered(first, viewers, frame@, lane_id);
    lemma_holds_more(before.lanes[lane_id], first[lane_id], second[lane_id], frame@);
}

} // verus!
