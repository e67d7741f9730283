//! Bounded output queues: a consumer that reads too slowly loses its queue, never the session.

use crate::pty::supervisor::protocol::SupervisorFrame;
use crate::pty::{FrameModel, PtyTerminalFrame};
use std::collections::VecDeque;
use vstd::prelude::*;

verus! {

/// How many messages a budget covers.
pub const SUPERVISOR_OUTPUT_QUEUE_MAX_MESSAGES: usize = 128;

/// How many bytes a budget covers.
pub const SUPERVISOR_OUTPUT_QUEUE_MAX_BYTES: usize = 8388608;

/// What the messages that are queued or being written may occupy together.
#[derive(Debug, PartialEq, Eq)]
pub struct SupervisorOutputQueueBudget {
    messages: usize,
    bytes: usize,
}

/// A part of a budget that one message occupies until it is given back.
#[derive(Debug, PartialEq, Eq)]
pub struct SupervisorOutputReservation {
    retained_bytes: usize,
}

impl SupervisorOutputReservation {
    /// How many bytes are reserved.
    pub closed spec fn spec_bytes(&self) -> nat {
        self.retained_bytes as nat
    }
}

/// The mathematical content of a budget.
pub struct BudgetModel {
    pub messages: nat,
    pub bytes: nat,
}

impl BudgetModel {
    /// A further message of the given size fits.
    pub open spec fn fits(self, retained: nat) -> bool {
        &&& self.messages + 1 <= SUPERVISOR_OUTPUT_QUEUE_MAX_MESSAGES
        &&& self.bytes + retained <= SUPERVISOR_OUTPUT_QUEUE_MAX_BYTES
    }

    /// The budget after a reservation.
    pub open spec fn taken(self, retained: nat) -> BudgetModel {
        BudgetModel { messages: self.messages + 1, bytes: self.bytes + retained }
    }

    /// The budget after a reservation has been given back.
    pub open spec fn given_back(self, retained: nat) -> BudgetModel {
        BudgetModel {
            messages: if self.messages >= 1 {
                (self.messages - 1) as nat
            } else {
                0
            },
            bytes: if self.bytes >= retained {
                (self.bytes - retained) as nat
            } else {
                0
            },
        }
    }
}

impl View for SupervisorOutputQueueBudget {
    type V = BudgetModel;

    closed spec fn view(&self) -> BudgetModel {
        BudgetModel { messages: self.messages as nat, bytes: self.bytes as nat }
    }
}

impl SupervisorOutputQueueBudget {
    /// An unused budget.
    pub fn new() -> (budget: Self)
        ensures
            budget@ == (BudgetModel { messages: 0, bytes: 0 }),
    {
        SupervisorOutputQueueBudget { messages: 0, bytes: 0 }
    }

    /// Reserves room for one message, if there is any.
    pub fn reserve(&mut self, retained_bytes: usize) -> (reservation: Option<
        SupervisorOutputReservation,
    >)
        ensures
            reservation is Some <==> old(self)@.fits(retained_bytes as nat),
            reservation matches Some(r) ==> r.spec_bytes() == retained_bytes,
            final(self)@ == if reservation is Some {
                old(self)@.taken(retained_bytes as nat)
            } else {
                old(self)@
            },
    {
        let messages: usize = match self.messages.checked_add(1) {
            Some(messages) => messages,
            None => {
                return None;
            },
        };
        let bytes: usize = match self.bytes.checked_add(retained_bytes) {
            Some(bytes) => bytes,
            None => {
                return None;
            },
        };
        if messages > SUPERVISOR_OUTPUT_QUEUE_MAX_MESSAGES || bytes
            > SUPERVISOR_OUTPUT_QUEUE_MAX_BYTES {
            return None;
        }
        self.messages = messages;
        self.bytes = bytes;
        Some(SupervisorOutputReservation { retained_bytes })
    }

    /// Gives a reservation back.
    pub fn release(&mut self, reservation: SupervisorOutputReservation)
        ensures
            final(self)@ == old(self)@.given_back(reservation.spec_bytes()),
    {
        self.messages = self.messages.saturating_sub(1);
        self.bytes = self.bytes.saturating_sub(reservation.retained_bytes);
    }
}

/// Giving a reservation back undoes taking it, and a budget never covers more than its limits.
pub proof fn law_reservations_cancel_out(budget: BudgetModel, retained: nat)
    requires
        budget.fits(retained),
    ensures
        budget.taken(retained).given_back(retained) == budget,
        budget.taken(retained).messages <= SUPERVISOR_OUTPUT_QUEUE_MAX_MESSAGES,
        budget.taken(retained).bytes <= SUPERVISOR_OUTPUT_QUEUE_MAX_BYTES,
{
}

/// A message with the room that it occupies.
#[derive(Debug, PartialEq, Eq)]
pub struct QueuedSupervisorOutput<T> {
    value: T,
    reservation: SupervisorOutputReservation,
}

impl<T> QueuedSupervisorOutput<T> {
    /// The message.
    pub closed spec fn spec_value(&self) -> T {
        self.value
    }

    /// How many bytes it occupies.
    pub closed spec fn spec_bytes(&self) -> nat {
        self.reservation.spec_bytes()
    }

    /// The message.
    pub fn value(&self) -> (value: &T)
        ensures
            *value == self.spec_value(),
    {
        &self.value
    }

    /// Takes the message out and gives its room back.
    pub fn into_inner(self, budget: &mut SupervisorOutputQueueBudget) -> (value: T)
        ensures
            value == self.spec_value(),
            final(budget)@ == old(budget)@.given_back(self.spec_bytes()),
    {
        budget.release(self.reservation);
        self.value
    }
}

/// A queue whose messages count against a budget.
#[derive(Debug, PartialEq, Eq)]
pub struct BoundedSupervisorOutputQueue<T> {
    items: VecDeque<QueuedSupervisorOutput<T>>,
    open: bool,
    overflowed: bool,
}

/// The mathematical content of a queue.
pub struct QueueModel<T> {
    pub items: Seq<QueuedSupervisorOutput<T>>,
    pub open: bool,
    pub overflowed: bool,
}

impl<T> View for BoundedSupervisorOutputQueue<T> {
    type V = QueueModel<T>;

    closed spec fn view(&self) -> QueueModel<T> {
        QueueModel { items: self.items@, open: self.open, overflowed: self.overflowed }
    }
}

impl<T> BoundedSupervisorOutputQueue<T> {
    /// An empty queue with a consumer.
    pub fn new() -> (queue: Self)
        ensures
            queue@ == (QueueModel::<T> { items: Seq::empty(), open: true, overflowed: false }),
    {
        BoundedSupervisorOutputQueue { items: VecDeque::new(), open: true, overflowed: false }
    }

    /// Appends a message if its consumer is still there and the budget covers it; otherwise the queue
    /// is marked as overflowed and the budget stays as it was.
    pub fn try_send(
        &mut self,
        budget: &mut SupervisorOutputQueueBudget,
        value: T,
        retained_bytes: usize,
    ) -> (res: Result<(), ()>)
        ensures
            res is Ok <==> old(self)@.open && old(budget)@.fits(retained_bytes as nat),
            res is Ok ==> {
                &&& final(budget)@ == old(budget)@.taken(retained_bytes as nat)
                &&& final(self)@.items.len() == old(self)@.items.len() + 1
                &&& final(self)@.items.drop_last() == old(self)@.items
                &&& final(self)@.items.last().spec_value() == value
                &&& final(self)@.items.last().spec_bytes() == retained_bytes
                &&& final(self)@.open == old(self)@.open
                &&& final(self)@.overflowed == old(self)@.overflowed
            },
            res is Err ==> {
                &&& final(budget)@ == old(budget)@
                &&& final(self)@ == (QueueModel { overflowed: true, ..old(self)@ })
            },
    {
        if !self.open {
            self.overflowed = true;
            return Err(());
        }
        match budget.reserve(retained_bytes) {
            Some(reservation) => {
                self.items.push_back(QueuedSupervisorOutput { value, reservation });
                assert(self@.items.drop_last() =~= old(self)@.items);
                Ok(())
            },
            None => {
                self.overflowed = true;
                Err(())
            },
        }
    }

    /// Takes the oldest message with its room still reserved.
    pub fn recv_reserved(&mut self) -> (item: Option<QueuedSupervisorOutput<T>>)
        ensures
            item is None <==> old(self)@.items.len() == 0,
            item is None ==> final(self)@ == old(self)@,
            item matches Some(i) ==> i == old(self)@.items[0] && final(self)@ == (QueueModel {
                items: old(self)@.items.drop_first(),
                ..old(self)@
            }),
    {
        let item = self.items.pop_front();
        assert(item is Some ==> self@.items =~= old(self)@.items.drop_first());
        item
    }

    /// Takes the oldest message and gives its room back.
    pub fn try_recv(&mut self, budget: &mut SupervisorOutputQueueBudget) -> (value: Option<T>)
        ensures
            value is None <==> old(self)@.items.len() == 0,
            value is None ==> final(self)@ == old(self)@ && final(budget)@ == old(budget)@,
            value matches Some(v) ==> {
                &&& v == old(self)@.items[0].spec_value()
                &&& final(self)@ == (QueueModel {
                    items: old(self)@.items.drop_first(),
                    ..old(self)@
                })
                &&& final(budget)@ == old(budget)@.given_back(old(self)@.items[0].spec_bytes())
            },
    {
        match self.recv_reserved() {
            Some(item) => Some(item.into_inner(budget)),
            None => None,
        }
    }

    /// The consumer is gone: nothing more is accepted.
    pub fn close(&mut self)
        ensures
            final(self)@ == (QueueModel { open: false, ..old(self)@ }),
    {
        self.open = false;
    }

    /// Whether a message had to be refused.
    pub fn overflowed(&self) -> (overflowed: bool)
        ensures
            overflowed == self@.overflowed,
    {
        self.overflowed
    }

    /// Whether no message waits.
    pub fn is_empty(&self) -> (empty: bool)
        ensures
            empty == (self@.items.len() == 0),
    {
        self.items.len() == 0
    }
}

// ---------------------------------------------------------------------------
// A queue of terminal frames with a budget of its own

/// The live frames on their way to one consumer.
#[derive(Debug, PartialEq, Eq)]
pub struct TerminalFrameLane {
    queue: BoundedSupervisorOutputQueue<PtyTerminalFrame>,
    budget: SupervisorOutputQueueBudget,
}

/// The mathematical content of a lane.
pub struct LaneModel {
    pub frames: Seq<FrameModel>,
    pub open: bool,
    pub overflowed: bool,
}

/// What queued frames occupy together.
pub open spec fn total_retained(frames: Seq<FrameModel>) -> nat
    decreases frames.len(),
{
    if frames.len() == 0 {
        0
    } else {
        frames[0].retained_bytes() + total_retained(frames.drop_first())
    }
}

proof fn lemma_total_push(frames: Seq<FrameModel>, frame: FrameModel)
    ensures
        total_retained(frames.push(frame)) == total_retained(frames) + frame.retained_bytes(),
    decreases frames.len(),
{
    if frames.len() == 0 {
        assert(frames.push(frame).drop_first() =~= Seq::<FrameModel>::empty());
        reveal_with_fuel(total_retained, 2);
    } else {
        lemma_total_push(frames.drop_first(), frame);
        assert(frames.push(frame).drop_first() =~= frames.drop_first().push(frame));
    }
}

impl LaneModel {
    /// A lane with a consumer and nothing in it.
    pub open spec fn fresh() -> LaneModel {
        LaneModel { frames: Seq::empty(), open: true, overflowed: false }
    }

    /// The lane takes a further frame: its consumer is there and both limits hold.
    pub open spec fn accepts(self, frame: FrameModel) -> bool {
        &&& self.open
        &&& self.frames.len() + 1 <= SUPERVISOR_OUTPUT_QUEUE_MAX_MESSAGES
        &&& total_retained(self.frames) + frame.retained_bytes()
            <= SUPERVISOR_OUTPUT_QUEUE_MAX_BYTES
    }

    /// The lane with a further frame.
    pub open spec fn sent(self, frame: FrameModel) -> LaneModel {
        LaneModel { frames: self.frames.push(frame), ..self }
    }
}

impl View for TerminalFrameLane {
    type V = LaneModel;

    closed spec fn view(&self) -> LaneModel {
        LaneModel {
            frames: Seq::new(
                self.queue@.items.len(),
                |i: int| self.queue@.items[i].spec_value()@,
            ),
            open: self.queue@.open,
            overflowed: self.queue@.overflowed,
        }
    }
}

/// What a frame occupies in a queue.
pub fn terminal_frame_retained_bytes(frame: &PtyTerminalFrame) -> (bytes: usize)
    ensures
        bytes == frame@.retained_bytes(),
{
    match frame.bytes_for_legacy_read() {
        Some(bytes) => bytes.len(),
        None => 1,
    }
}

impl TerminalFrameLane {
    /// The budget is exactly what the queued frames occupy, within its limits.
    pub closed spec fn wf(&self) -> bool {
        &&& forall|i: int|
            0 <= i < self.queue@.items.len() ==> (#[trigger] self.queue@.items[i]).spec_bytes()
                == self.queue@.items[i].spec_value()@.retained_bytes()
        &&& self.budget@.messages == self@.frames.len()
        &&& self.budget@.bytes == total_retained(self@.frames)
        &&& self@.frames.len() <= SUPERVISOR_OUTPUT_QUEUE_MAX_MESSAGES
        &&& total_retained(self@.frames) <= SUPERVISOR_OUTPUT_QUEUE_MAX_BYTES
    }

    /// A lane never holds more than its limits.
    pub proof fn lemma_bounded(&self)
        requires
            self.wf(),
        ensures
            self@.frames.len() <= SUPERVISOR_OUTPUT_QUEUE_MAX_MESSAGES,
            total_retained(self@.frames) <= SUPERVISOR_OUTPUT_QUEUE_MAX_BYTES,
    {
    }

    /// A lane with a consumer and nothing in it.
    pub fn new() -> (lane: Self)
        ensures
            lane.wf(),
            lane@ == LaneModel::fresh(),
    {
        let lane = TerminalFrameLane {
            queue: BoundedSupervisorOutputQueue::new(),
            budget: SupervisorOutputQueueBudget::new(),
        };
        assert(lane@.frames =~= Seq::<FrameModel>::empty());
        lane
    }

    /// Sends a frame if the lane takes it; otherwise the lane is marked as overflowed.
    pub fn try_send(&mut self, frame: PtyTerminalFrame) -> (res: Result<(), ()>)
        requires
            old(self).wf(),
        ensures
            final(self).wf(),
            res is Ok <==> old(self)@.accepts(frame@),
            final(self)@ == if res is Ok {
                old(self)@.sent(frame@)
            } else {
                LaneModel { overflowed: true, ..old(self)@ }
            },
    {
        let ghost before = self.queue@.items;
        let ghost model = frame@;
        let retained: usize = terminal_frame_retained_bytes(&frame);
        let res = self.queue.try_send(&mut self.budget, frame, retained);
        proof {
            if res is Ok {
                assert(self.queue@.items =~= before.push(self.queue@.items.last()));
                assert(self@.frames =~= old(self)@.frames.push(model));
                lemma_total_push(old(self)@.frames, model);
            } else {
                assert(self@.frames =~= old(self)@.frames);
            }
        }
        res
    }

    /// Takes the oldest frame.
    pub fn try_recv(&mut self) -> (frame: Option<PtyTerminalFrame>)
        requires
            old(self).wf(),
        ensures
            final(self).wf(),
            frame is None <==> old(self)@.frames.len() == 0,
            frame is None ==> final(self)@ == old(self)@,
            frame matches Some(f) ==> f@ == old(self)@.frames[0] && final(self)@ == (LaneModel {
                frames: old(self)@.frames.drop_first(),
                ..old(self)@
            }),
    {
        let frame = self.queue.try_recv(&mut self.budget);
        proof {
            if frame is Some {
                assert(self@.frames =~= old(self)@.frames.drop_first());
            } else {
                assert(self@.frames =~= old(self)@.frames);
            }
        }
        frame
    }

    /// The consumer is gone: nothing more is accepted.
    pub fn close(&mut self)
        requires
            old(self).wf(),
        ensures
            final(self).wf(),
            final(self)@ == (LaneModel { open: false, ..old(self)@ }),
    {
        self.queue.close();
        assert(self@.frames =~= old(self)@.frames);
    }

    /// Whether a frame had to be refused.
    pub fn overflowed(&self) -> (overflowed: bool)
        ensures
            overflowed == self@.overflowed,
    {
        self.queue.overflowed()
    }

    /// The live frames that a synchronisation up to `base_seq` does not cover, taken out in order.
    pub fn drain_after_sync(&mut self, base_seq: u64) -> (delayed: Vec<PtyTerminalFrame>)
        requires
            old(self).wf(),
        ensures
            final(self).wf(),
            final(self)@ == (LaneModel { frames: Seq::empty(), ..old(self)@ }),
            crate::pty::frame_models(delayed@) == not_covered(old(self)@.frames, base_seq),
    {
        let ghost all = self@.frames;
        let mut delayed: Vec<PtyTerminalFrame> = Vec::new();
        assert(crate::pty::frame_models(delayed@) =~= Seq::<FrameModel>::empty());
        assert(all.take(0) =~= Seq::<FrameModel>::empty());
        let ghost mut n: int = 0;
        assert(all.skip(0) =~= all);
        loop
            invariant
                self.wf(),
                0 <= n <= all.len(),
                self@ == (LaneModel { frames: all.skip(n), ..old(self)@ }),
                crate::pty::frame_models(delayed@) == not_covered(all.take(n), base_seq),
            ensures
                n == all.len(),
            decreases all.len() - n,
        {
            match self.try_recv() {
                Some(frame) => {
                    let ghost part = all.take(n + 1);
                    assert(part.drop_last() =~= all.take(n));
                    assert(part.last() == frame@);
                    assert(all.skip(n).drop_first() =~= all.skip(n + 1));
                    let covered = match frame.terminal_seq() {
                        Some(seq) => seq <= base_seq,
                        None => false,
                    };
                    if !covered {
                        let ghost before = delayed@;
                        let ghost model = frame@;
                        delayed.push(frame);
                        assert(crate::pty::frame_models(delayed@) =~= crate::pty::frame_models(
                            before,
                        ).push(model));
                    }
                    proof {
                        n = n + 1;
                    }
                },
                None => {
                    break;
                },
            }
        }
        assert(all.take(n) =~= all);
        assert(all.skip(n) =~= Seq::<FrameModel>::empty());
        delayed
    }
}

/// The frames that a synchronisation up to `base_seq` does not cover.
pub open spec fn not_covered(frames: Seq<FrameModel>, base_seq: u64) -> Seq<FrameModel>
    decreases frames.len(),
{
    if frames.len() == 0 {
        Seq::empty()
    } else {
        let rest = not_covered(frames.drop_last(), base_seq);
        if frames.last().seq() matches Some(seq) && seq <= base_seq {
            rest
        } else {
            rest.push(frames.last())
        }
    }
}

/// After a synchronisation no frame is sent that the synchronisation already covers.
pub proof fn law_no_covered_frame_follows_a_sync(frames: Seq<FrameModel>, base_seq: u64)
    ensures
        forall|i: int|
            0 <= i < not_covered(frames, base_seq).len() ==> !(#[trigger] not_covered(
                frames,
                base_seq,
            )[i].seq() matches Some(seq) && seq <= base_seq),
    decreases frames.len(),
{
    if frames.len() > 0 {
        law_no_covered_frame_follows_a_sync(frames.drop_last(), base_seq);
    }
}

// ---------------------------------------------------------------------------
// The two queues of a connection's writer

/// Responses and live frames on their way to one daemon, under one budget.
///
/// A response never waits behind live frames, and the frame that is being written keeps its room
/// until the write has finished.
#[derive(Debug)]
pub struct SupervisorWriterQueues {
    control: BoundedSupervisorOutputQueue<SupervisorFrame>,
    data: BoundedSupervisorOutputQueue<SupervisorFrame>,
    budget: SupervisorOutputQueueBudget,
    in_flight: Option<SupervisorOutputReservation>,
}

/// The mathematical content of the writer queues.
pub struct WriterModel {
    pub control: Seq<(SupervisorFrame, nat)>,
    pub data: Seq<(SupervisorFrame, nat)>,
    pub budget: BudgetModel,
    pub in_flight: Option<nat>,
}

/// Messages with the room that they occupy.
pub open spec fn queued_pairs<T>(items: Seq<QueuedSupervisorOutput<T>>) -> Seq<(T, nat)> {
    Seq::new(items.len(), |i: int| (items[i].spec_value(), items[i].spec_bytes()))
}

impl View for SupervisorWriterQueues {
    type V = WriterModel;

    closed spec fn view(&self) -> WriterModel {
        WriterModel {
            control: queued_pairs(self.control@.items),
            data: queued_pairs(self.data@.items),
            budget: self.budget@,
            in_flight: match self.in_flight {
                Some(r) => Some(r.spec_bytes()),
                None => None,
            },
        }
    }
}

impl SupervisorWriterQueues {
    /// Both queues have a consumer.
    pub closed spec fn wf(&self) -> bool {
        self.control@.open && self.data@.open
    }

    /// Empty queues.
    pub fn new() -> (queues: Self)
        ensures
            queues.wf(),
            queues@ == (WriterModel {
                control: Seq::empty(),
                data: Seq::empty(),
                budget: BudgetModel { messages: 0, bytes: 0 },
                in_flight: None,
            }),
    {
        let queues = SupervisorWriterQueues {
            control: BoundedSupervisorOutputQueue::new(),
            data: BoundedSupervisorOutputQueue::new(),
            budget: SupervisorOutputQueueBudget::new(),
            in_flight: None,
        };
        assert(queues@.control =~= Seq::<(SupervisorFrame, nat)>::empty());
        assert(queues@.data =~= Seq::<(SupervisorFrame, nat)>::empty());
        queues
    }

    /// Queues a response.
    pub fn push_control(&mut self, frame: SupervisorFrame, retained_bytes: usize) -> (res: Result<
        (),
        (),
    >)
        requires
            old(self).wf(),
        ensures
            final(self).wf(),
            res is Ok <==> old(self)@.budget.fits(retained_bytes as nat),
            final(self)@ == if res is Ok {
                WriterModel {
                    control: old(self)@.control.push((frame, retained_bytes as nat)),
                    budget: old(self)@.budget.taken(retained_bytes as nat),
                    ..old(self)@
                }
            } else {
                old(self)@
            },
    {
        let res = self.control.try_send(&mut self.budget, frame, retained_bytes);
        proof {
            if res is Ok {
                assert(self.control@.items =~= old(self).control@.items.push(
                    self.control@.items.last(),
                ));
                assert(self@.control =~= old(self)@.control.push((frame, retained_bytes as nat)));
            }
        }
        res
    }

    /// Queues a live frame.
    pub fn push_data(&mut self, frame: SupervisorFrame, retained_bytes: usize) -> (res: Result<
        (),
        (),
    >)
        requires
            old(self).wf(),
        ensures
            final(self).wf(),
            res is Ok <==> old(self)@.budget.fits(retained_bytes as nat),
            final(self)@ == if res is Ok {
                WriterModel {
                    data: old(self)@.data.push((frame, retained_bytes as nat)),
                    budget: old(self)@.budget.taken(retained_bytes as nat),
                    ..old(self)@
                }
            } else {
                old(self)@
            },
    {
        let res = self.data.try_send(&mut self.budget, frame, retained_bytes);
        proof {
            if res is Ok {
                assert(self.data@.items =~= old(self).data@.items.push(self.data@.items.last()));
                assert(self@.data =~= old(self)@.data.push((frame, retained_bytes as nat)));
            }
        }
        res
    }

    /// Takes the next frame to write: a response if one waits, otherwise a live frame. Its room stays
    /// reserved until [`SupervisorWriterQueues::finish_write`].
    pub fn begin_write(&mut self) -> (frame: Option<SupervisorFrame>)
        requires
            old(self).wf(),
            old(self)@.in_flight is None,
        ensures
            final(self).wf(),
            final(self)@.budget == old(self)@.budget,
            frame is None <==> old(self)@.control.len() == 0 && old(self)@.data.len() == 0,
            frame is None ==> final(self)@ == old(self)@,
            old(self)@.control.len() > 0 ==> {
                &&& frame == Some(old(self)@.control[0].0)
                &&& final(self)@ == (WriterModel {
                    control: old(self)@.control.drop_first(),
                    in_flight: Some(old(self)@.control[0].1),
                    ..old(self)@
                })
            },
            old(self)@.control.len() == 0 && old(self)@.data.len() > 0 ==> {
                &&& frame == Some(old(self)@.data[0].0)
                &&& final(self)@ == (WriterModel {
                    data: old(self)@.data.drop_first(),
                    in_flight: Some(old(self)@.data[0].1),
                    ..old(self)@
                })
            },
    {
        let next = match self.control.recv_reserved() {
            Some(item) => Some(item),
            None => self.data.recv_reserved(),
        };
        proof {
            assert(old(self)@.control.len() > 0 ==> self@.control =~= old(self)@.control.drop_first());
            assert(old(self)@.control.len() == 0 && old(self)@.data.len() > 0 ==> self@.data
                =~= old(self)@.data.drop_first());
        }
        match next {
            Some(item) => {
                let QueuedSupervisorOutput { value, reservation } = item;
                self.in_flight = Some(reservation);
                Some(value)
            },
            None => None,
        }
    }

    /// The frame that was being written is out: its room is free again.
    pub fn finish_write(&mut self)
        requires
            old(self).wf(),
        ensures
            final(self).wf(),
            final(self)@ == (WriterModel {
                budget: match old(self)@.in_flight {
                    Some(bytes) => old(self)@.budget.given_back(bytes),
                    None => old(self)@.budget,
                },
                in_flight: None,
                ..old(self)@
            }),
    {
        match self.in_flight.take() {
            Some(reservation) => {
                self.budget.release(reservation);
            },
            None => {},
        }
        assert(self@.control =~= old(self)@.control);
        assert(self@.data =~= old(self)@.data);
    }
}

} // verus!
