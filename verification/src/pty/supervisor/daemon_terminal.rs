//! The daemon's side of a session's terminal stream.
//!
//! Live frames arrive on the control connection and wait here for readers. A queue that fills up is
//! replaced by one snapshot of the screen. While a connection is being established, live frames are
//! held back until the synchronisation that precedes them has been applied.
//!
//! The screen emulator stays outside, behind [`ScreenEmulator`]: it is fed every frame that the mirror
//! takes, and asked for a snapshot where a full queue has to be replaced.

use crate::pty::supervisor::output_queue::{
    terminal_frame_retained_bytes, total_retained, SUPERVISOR_OUTPUT_QUEUE_MAX_BYTES,
    SUPERVISOR_OUTPUT_QUEUE_MAX_MESSAGES,
};
use crate::pty::supervisor::protocol::{
    AttachSyncModel, ControllerIdentity, SupervisorAttachSyncPayload,
};
use crate::pty::supervisor::screen::{draws, fed, redrawn, show_frame, shown, ScreenEmulator};
use crate::pty::supervisor::terminal_journal::{MirrorModel, SupervisorTerminalMirror};
use crate::pty::{frame_models, FrameModel, PtySize, PtyTerminalFrame};
use std::collections::VecDeque;
use vstd::prelude::*;

verus! {

/// The daemon's side of a session's terminal stream.
pub struct DaemonTerminal {
    mirror: SupervisorTerminalMirror,
    pending_output: VecDeque<Vec<u8>>,
    pending_frames: VecDeque<PtyTerminalFrame>,
    bootstrap: Option<VecDeque<PtyTerminalFrame>>,
    controller: Option<ControllerIdentity>,
    size: PtySize,
    process_id: Option<u32>,
    exited: bool,
    output_signal: u64,
}

/// The mathematical content of a [`DaemonTerminal`].
#[verifier::ext_equal]
pub struct DaemonModel {
    pub mirror: MirrorModel,
    pub pending_output: Seq<Seq<u8>>,
    pub pending_frames: Seq<FrameModel>,
    pub bootstrap: Option<Seq<FrameModel>>,
    pub controller: Option<ControllerIdentity>,
    pub size: PtySize,
    pub process_id: Option<u32>,
    pub exited: bool,
    pub output_signal: u64,
}

/// The contents of a sequence of byte strings.
pub open spec fn chunk_views(chunks: Seq<Vec<u8>>) -> Seq<Seq<u8>> {
    Seq::new(chunks.len(), |i: int| chunks[i]@)
}

/// The bytes in a sequence of byte strings.
pub open spec fn chunk_total(chunks: Seq<Seq<u8>>) -> nat
    decreases chunks.len(),
{
    if chunks.len() == 0 {
        0
    } else {
        chunk_total(chunks.drop_last()) + chunks.last().len()
    }
}

/// A queue of frames has room for one more.
pub open spec fn frames_fit(frames: Seq<FrameModel>, frame: FrameModel) -> bool {
    &&& frames.len() < SUPERVISOR_OUTPUT_QUEUE_MAX_MESSAGES
    &&& total_retained(frames) + frame.retained_bytes() <= SUPERVISOR_OUTPUT_QUEUE_MAX_BYTES
}

/// A queue of frames after one more. A full queue is replaced by a snapshot, unless that is itself
/// too large to queue.
pub open spec fn enqueued(
    frames: Seq<FrameModel>,
    frame: FrameModel,
    snapshot: FrameModel,
) -> Seq<FrameModel> {
    if frames_fit(frames, frame) {
        frames.push(frame)
    } else if snapshot.retained_bytes() <= SUPERVISOR_OUTPUT_QUEUE_MAX_BYTES {
        seq![snapshot]
    } else {
        Seq::empty()
    }
}

/// Where a chunk of raw output is put.
#[derive(Clone, Copy, Debug, PartialEq, Eq, Structural)]
pub enum QueueEnd {
    Front,
    Back,
}

/// The part of a chunk that a queue can hold: its beginning at the front, its end at the back.
pub open spec fn clipped(chunk: Seq<u8>, end: QueueEnd) -> Seq<u8> {
    if chunk.len() <= SUPERVISOR_OUTPUT_QUEUE_MAX_BYTES {
        chunk
    } else {
        match end {
            QueueEnd::Front => chunk.take(SUPERVISOR_OUTPUT_QUEUE_MAX_BYTES as int),
            QueueEnd::Back => chunk.skip(chunk.len() - SUPERVISOR_OUTPUT_QUEUE_MAX_BYTES),
        }
    }
}

/// The chunks that stay when room is made for another: those at the far end leave first.
pub open spec fn room_made(chunks: Seq<Seq<u8>>, len: nat, end: QueueEnd) -> Seq<Seq<u8>>
    decreases chunks.len(),
{
    if chunks.len() == 0 || (chunks.len() < SUPERVISOR_OUTPUT_QUEUE_MAX_MESSAGES && chunk_total(
        chunks,
    ) + len <= SUPERVISOR_OUTPUT_QUEUE_MAX_BYTES) {
        chunks
    } else {
        match end {
            QueueEnd::Front => room_made(chunks.drop_last(), len, end),
            QueueEnd::Back => room_made(chunks.drop_first(), len, end),
        }
    }
}

/// A queue of raw output after one more chunk.
pub open spec fn with_chunk(chunks: Seq<Seq<u8>>, chunk: Seq<u8>, end: QueueEnd) -> Seq<Seq<u8>> {
    let kept = clipped(chunk, end);
    match end {
        QueueEnd::Front => seq![kept] + room_made(chunks, kept.len(), end),
        QueueEnd::Back => room_made(chunks, kept.len(), end).push(kept),
    }
}

/// The frames after a sequence number; snapshots have none and are left out.
pub open spec fn live_after(frames: Seq<FrameModel>, base_seq: u64) -> Seq<FrameModel>
    decreases frames.len(),
{
    if frames.len() == 0 {
        Seq::empty()
    } else {
        let rest = live_after(frames.drop_last(), base_seq);
        if frames.last().seq() matches Some(seq) && seq > base_seq {
            rest.push(frames.last())
        } else {
            rest
        }
    }
}

/// The place of a frame among live frames: its sequence number, or zero for a snapshot.
pub open spec fn seq_or_zero(frame: FrameModel) -> u64 {
    match frame.seq() {
        Some(seq) => seq,
        None => 0,
    }
}

/// A frame put behind every frame that is not after it.
pub open spec fn inserted(frames: Seq<FrameModel>, frame: FrameModel) -> Seq<FrameModel>
    decreases frames.len(),
{
    if frames.len() == 0 || seq_or_zero(frames.last()) <= seq_or_zero(frame) {
        frames.push(frame)
    } else {
        inserted(frames.drop_last(), frame).push(frames.last())
    }
}

/// Frames in the order of their sequence numbers; equal ones keep their order.
pub open spec fn in_order(frames: Seq<FrameModel>) -> Seq<FrameModel>
    decreases frames.len(),
{
    if frames.len() == 0 {
        Seq::empty()
    } else {
        inserted(in_order(frames.drop_last()), frames.last())
    }
}

/// Frames without those that have the sequence number of the frame before.
pub open spec fn without_repeats(frames: Seq<FrameModel>) -> Seq<FrameModel>
    decreases frames.len(),
{
    if frames.len() == 0 {
        Seq::empty()
    } else {
        let rest = without_repeats(frames.drop_last());
        if rest.len() > 0 && rest.last().seq() == frames.last().seq() {
            rest
        } else {
            rest.push(frames.last())
        }
    }
}

impl DaemonModel {
    /// What waits, what is held back and the raw output each stay within the bounds of a queue.
    pub open spec fn bounded(self) -> bool {
        &&& self.pending_frames.len() <= SUPERVISOR_OUTPUT_QUEUE_MAX_MESSAGES
        &&& total_retained(self.pending_frames) <= SUPERVISOR_OUTPUT_QUEUE_MAX_BYTES
        &&& self.pending_output.len() <= SUPERVISOR_OUTPUT_QUEUE_MAX_MESSAGES
        &&& chunk_total(self.pending_output) <= SUPERVISOR_OUTPUT_QUEUE_MAX_BYTES
        &&& self.bootstrap matches Some(held) ==> {
            &&& held.len() <= SUPERVISOR_OUTPUT_QUEUE_MAX_MESSAGES
            &&& total_retained(held) <= SUPERVISOR_OUTPUT_QUEUE_MAX_BYTES
        }
    }

    /// The mirror takes a frame, and the frame waits for readers. What the mirror does not take is
    /// dropped.
    pub open spec fn applied(self, frame: FrameModel, screen: Seq<u8>) -> DaemonModel {
        if !self.mirror.accepts(frame) {
            self
        } else {
            let mirror = self.mirror.apply(frame);
            let snapshot = FrameModel::Snapshot {
                base_seq: mirror.current_seq,
                size: mirror.size,
                data: screen,
            };
            DaemonModel {
                mirror,
                pending_frames: enqueued(self.pending_frames, frame, snapshot),
                ..self
            }
        }
    }

    /// Readers are woken.
    pub open spec fn signalled(self) -> DaemonModel {
        DaemonModel {
            output_signal: if self.output_signal == u64::MAX {
                0
            } else {
                (self.output_signal + 1) as u64
            },
            ..self
        }
    }

    /// The live frames that are to follow a synchronisation: those that were waiting and are not
    /// covered by it, and those held back, in order and without repeats.
    pub open spec fn live_to_replay(self, base_seq: u64) -> Seq<FrameModel> {
        let held = match self.bootstrap {
            Some(frames) => frames,
            None => Seq::empty(),
        };
        without_repeats(in_order(live_after(self.pending_frames, base_seq) + held))
    }

    /// A synchronisation without frames makes the mirror begin anew, unless it is older.
    pub open spec fn restarts_with(self, sync: AttachSyncModel) -> bool {
        &&& sync.frames.len() == 0
        &&& sync.snapshot.retained_output.len() > 0
        &&& sync.base_seq >= self.mirror.current_seq
    }

    /// A synchronisation begins: it names the controller and describes the session host. Frames that
    /// wait are taken back, to be replayed behind it.
    pub open spec fn seeding(self, sync: AttachSyncModel) -> DaemonModel {
        DaemonModel {
            controller: Some(
                ControllerIdentity {
                    id: sync.controller_id,
                    connection_id: sync.controller_connection_id,
                },
            ),
            exited: sync.snapshot.exited,
            size: sync.snapshot.size,
            process_id: sync.snapshot.process_id,
            pending_frames: Seq::empty(),
            bootstrap: match self.bootstrap {
                Some(_) => Some(Seq::empty()),
                None => None,
            },
            mirror: if self.restarts_with(sync) {
                self.mirror.restart(sync.snapshot.size, sync.base_seq)
            } else {
                self.mirror
            },
            ..self
        }
    }

    /// A synchronisation ends: live frames are no longer held back, and readers are woken for frames
    /// and for raw output.
    pub open spec fn seeded(self, published: bool, retained_output: Seq<u8>) -> DaemonModel {
        let open = DaemonModel { bootstrap: None, ..self };
        let woken = if published {
            open.signalled()
        } else {
            open
        };
        if retained_output.len() == 0 {
            woken
        } else {
            DaemonModel {
                pending_output: with_chunk(woken.pending_output, retained_output, QueueEnd::Back),
                ..woken
            }.signalled()
        }
    }

    /// A live frame is held back, if there is room.
    pub open spec fn held_back(self, frame: FrameModel) -> DaemonModel {
        DaemonModel { bootstrap: Some((self.bootstrap->0).push(frame)), ..self }
    }

    /// The end of the process is noticed as soon as its frame arrives.
    pub open spec fn noticed(self, frame: FrameModel) -> DaemonModel {
        if frame is Exit {
            DaemonModel { exited: true, ..self }
        } else {
            self
        }
    }
}

impl View for DaemonTerminal {
    type V = DaemonModel;

    closed spec fn view(&self) -> DaemonModel {
        DaemonModel {
            mirror: self.mirror@,
            pending_output: chunk_views(self.pending_output@),
            pending_frames: frame_models(self.pending_frames@),
            bootstrap: match self.bootstrap {
                Some(frames) => Some(frame_models(frames@)),
                None => None,
            },
            controller: self.controller,
            size: self.size,
            process_id: self.process_id,
            exited: self.exited,
            output_signal: self.output_signal,
        }
    }
}

fn retained_in_queue(frames: &VecDeque<PtyTerminalFrame>) -> (total: u128)
    requires
        frames@.len() <= SUPERVISOR_OUTPUT_QUEUE_MAX_MESSAGES,
    ensures
        total == total_retained(frame_models(frames@)),
        total <= 128 * 0x1_0000_0000_0000_0000,
{
    let ghost all = frame_models(frames@);
    let mut total: u128 = 0;
    let mut i: usize = frames.len();
    assert(all.skip(i as int) =~= Seq::<FrameModel>::empty());
    while i > 0
        invariant
            i <= frames@.len() <= SUPERVISOR_OUTPUT_QUEUE_MAX_MESSAGES,
            all == frame_models(frames@),
            total == total_retained(all.skip(i as int)),
            total <= (frames@.len() - i) * 0x1_0000_0000_0000_0000,
        decreases i,
    {
        i = i - 1;
        assert(all.skip(i as int).drop_first() =~= all.skip(i + 1));
        assert(all.skip(i as int)[0] == frames@[i as int]@);
        let step: usize = terminal_frame_retained_bytes(&frames[i]);
        total = total + step as u128;
    }
    assert(all.skip(0) =~= all);
    total
}

fn has_room(frames: &VecDeque<PtyTerminalFrame>, frame: &PtyTerminalFrame) -> (room: bool)
    requires
        frames@.len() <= SUPERVISOR_OUTPUT_QUEUE_MAX_MESSAGES,
    ensures
        room == frames_fit(frame_models(frames@), frame@),
{
    if frames.len() >= SUPERVISOR_OUTPUT_QUEUE_MAX_MESSAGES {
        return false;
    }
    let step: usize = terminal_frame_retained_bytes(frame);
    retained_in_queue(frames) + step as u128 <= SUPERVISOR_OUTPUT_QUEUE_MAX_BYTES as u128
}

fn chunk_bytes(chunks: &VecDeque<Vec<u8>>) -> (total: u128)
    requires
        chunks@.len() <= SUPERVISOR_OUTPUT_QUEUE_MAX_MESSAGES,
    ensures
        total == chunk_total(chunk_views(chunks@)),
        total <= 128 * 0x1_0000_0000_0000_0000,
{
    let ghost all = chunk_views(chunks@);
    let mut total: u128 = 0;
    let mut i: usize = 0;
    assert(all.take(0) =~= Seq::<Seq<u8>>::empty());
    while i < chunks.len()
        invariant
            i <= chunks@.len() <= SUPERVISOR_OUTPUT_QUEUE_MAX_MESSAGES,
            all == chunk_views(chunks@),
            total == chunk_total(all.take(i as int)),
            total <= i * 0x1_0000_0000_0000_0000,
        decreases chunks@.len() - i,
    {
        assert(all.take(i + 1).drop_last() =~= all.take(i as int));
        assert(all.take(i + 1).last() == chunks@[i as int]@);
        total = total + chunks[i].len() as u128;
        i = i + 1;
    }
    assert(all.take(i as int) =~= all);
    total
}

/// Puts a chunk of raw output into a bounded queue, and drops what lies at the far end for it.
pub fn enqueue_daemon_legacy_output(pending: &mut VecDeque<Vec<u8>>, chunk: Vec<u8>, end: QueueEnd)
    ensures
        chunk_views(final(pending)@) == with_chunk(chunk_views(old(pending)@), chunk@, end),
        final(pending)@.len() <= SUPERVISOR_OUTPUT_QUEUE_MAX_MESSAGES,
        chunk_total(chunk_views(final(pending)@)) <= SUPERVISOR_OUTPUT_QUEUE_MAX_BYTES,
{
    proof {
        lemma_chunks_bounded(chunk_views(pending@), chunk@, end);
    }
    let ghost given = chunk@;
    let mut chunk = chunk;
    if chunk.len() > SUPERVISOR_OUTPUT_QUEUE_MAX_BYTES {
        match end {
            QueueEnd::Front => {
                chunk.truncate(SUPERVISOR_OUTPUT_QUEUE_MAX_BYTES);
            },
            QueueEnd::Back => {
                let cut: usize = chunk.len() - SUPERVISOR_OUTPUT_QUEUE_MAX_BYTES;
                chunk = chunk.split_off(cut);
            },
        }
        assert(chunk@ =~= clipped(given, end));
    }
    let ghost kept = chunk@;
    let ghost before = chunk_views(pending@);
    loop
        invariant
            kept == chunk@,
            room_made(chunk_views(pending@), kept.len(), end) == room_made(before, kept.len(), end),
        ensures
            chunk_views(pending@) == room_made(before, kept.len(), end),
            pending@.len() < SUPERVISOR_OUTPUT_QUEUE_MAX_MESSAGES,
        decreases pending@.len(),
    {
        let ghost now = chunk_views(pending@);
        if pending.len() == 0 || (pending.len() < SUPERVISOR_OUTPUT_QUEUE_MAX_MESSAGES
            && chunk_bytes(pending) + chunk.len() as u128
            <= SUPERVISOR_OUTPUT_QUEUE_MAX_BYTES as u128) {
            break;
        }
        match end {
            QueueEnd::Front => {
                let _ = pending.pop_back();
                assert(chunk_views(pending@) =~= now.drop_last());
            },
            QueueEnd::Back => {
                let _ = pending.pop_front();
                assert(chunk_views(pending@) =~= now.drop_first());
            },
        }
    }
    let ghost roomy = chunk_views(pending@);
    match end {
        QueueEnd::Front => {
            pending.push_front(chunk);
            assert(chunk_views(pending@) =~= seq![kept] + roomy);
        },
        QueueEnd::Back => {
            pending.push_back(chunk);
            assert(chunk_views(pending@) =~= roomy.push(kept));
        },
    }
}

fn frame_order(frame: &PtyTerminalFrame) -> (seq: u64)
    ensures
        seq == seq_or_zero(frame@),
{
    match frame.terminal_seq() {
        Some(seq) => seq,
        None => 0,
    }
}

fn insert_in_order(frames: &mut Vec<PtyTerminalFrame>, frame: PtyTerminalFrame)
    requires
        old(frames)@.len() < usize::MAX,
    ensures
        frame_models(final(frames)@) == inserted(frame_models(old(frames)@), frame@),
        final(frames)@.len() == old(frames)@.len() + 1,
{
    let ghost all = frame_models(frames@);
    let ghost model = frame@;
    let order: u64 = frame_order(&frame);
    let mut i: usize = frames.len();
    assert(all.take(i as int) =~= all);
    assert(inserted(all, model) =~= inserted(all.take(i as int), model) + all.skip(i as int));
    while i > 0 && frame_order(&frames[i - 1]) > order
        invariant
            i <= frames@.len(),
            frames@ == old(frames)@,
            all == frame_models(frames@),
            order == seq_or_zero(model),
            inserted(all, model) == inserted(all.take(i as int), model) + all.skip(i as int),
        decreases i,
    {
        assert(all.take(i as int).last() == frames@[i - 1]@);
        assert(all.take(i as int).drop_last() =~= all.take(i - 1));
        assert(inserted(all.take(i as int), model) == inserted(all.take(i - 1), model).push(
            all[i - 1],
        ));
        assert(inserted(all.take(i - 1), model).push(all[i - 1]) + all.skip(i as int) =~= inserted(
            all.take(i - 1),
            model,
        ) + all.skip(i - 1));
        i = i - 1;
    }
    assert(i > 0 ==> all.take(i as int).last() == frames@[i - 1]@);
    assert(inserted(all.take(i as int), model) == all.take(i as int).push(model));
    frames.insert(i, frame);
    assert(frame_models(frames@) =~= all.take(i as int).push(model) + all.skip(i as int));
}

fn sort_frames(frames: Vec<PtyTerminalFrame>) -> (sorted: Vec<PtyTerminalFrame>)
    ensures
        frame_models(sorted@) == in_order(frame_models(frames@)),
        sorted@.len() == frames@.len(),
{
    let ghost all = frame_models(frames@);
    let mut sorted: Vec<PtyTerminalFrame> = Vec::new();
    let mut i: usize = 0;
    assert(all.take(0) =~= Seq::<FrameModel>::empty());
    assert(frame_models(sorted@) =~= Seq::<FrameModel>::empty());
    while i < frames.len()
        invariant
            i <= frames@.len(),
            frames.len() == frames@.len(),
            all == frame_models(frames@),
            sorted@.len() == i,
            frame_models(sorted@) == in_order(all.take(i as int)),
        decreases frames@.len() - i,
    {
        assert(all.take(i + 1).drop_last() =~= all.take(i as int));
        assert(all.take(i + 1).last() == frames@[i as int]@);
        insert_in_order(&mut sorted, frames[i].clone());
        i = i + 1;
    }
    assert(all.take(i as int) =~= all);
    sorted
}

fn same_seq(a: Option<u64>, b: Option<u64>) -> (same: bool)
    ensures
        same == (a == b),
{
    match (a, b) {
        (Some(x), Some(y)) => x == y,
        (None, None) => true,
        _ => false,
    }
}

fn drop_repeats(frames: Vec<PtyTerminalFrame>) -> (kept: Vec<PtyTerminalFrame>)
    ensures
        frame_models(kept@) == without_repeats(frame_models(frames@)),
{
    let ghost all = frame_models(frames@);
    let mut kept: Vec<PtyTerminalFrame> = Vec::new();
    let mut i: usize = 0;
    assert(all.take(0) =~= Seq::<FrameModel>::empty());
    assert(frame_models(kept@) =~= Seq::<FrameModel>::empty());
    while i < frames.len()
        invariant
            i <= frames@.len(),
            all == frame_models(frames@),
            frame_models(kept@) == without_repeats(all.take(i as int)),
        decreases frames@.len() - i,
    {
        assert(all.take(i + 1).drop_last() =~= all.take(i as int));
        assert(all.take(i + 1).last() == frames@[i as int]@);
        let ghost before = frame_models(kept@);
        assert(kept@.len() > 0 ==> before.last() == kept@[kept@.len() - 1]@);
        let repeat = kept.len() > 0 && same_seq(
            kept[kept.len() - 1].terminal_seq(),
            frames[i].terminal_seq(),
        );
        if !repeat {
            let frame = frames[i].clone();
            let ghost model = frame@;
            kept.push(frame);
            assert(frame_models(kept@) =~= before.push(model));
        }
        i = i + 1;
    }
    assert(all.take(i as int) =~= all);
    kept
}

/// What to replay after a synchronisation has begun.
pub struct SeedPlan {
    /// The mirror has restarted from the raw output of the synchronisation.
    pub restart_screen: bool,
    /// The frames to apply, in order: those of the synchronisation, then live ones.
    pub frames: Vec<PtyTerminalFrame>,
    /// The raw output to hand to [`DaemonTerminal::finish_seed`].
    pub retained_output: Vec<u8>,
}

/// What became of a live frame.
#[derive(Clone, Copy, Debug, PartialEq, Eq, Structural)]
pub enum LiveFrameOutcome {
    /// The mirror took it and it waits for readers.
    Published,
    /// The mirror had already seen it.
    Stale,
    /// It is held back until the synchronisation has been applied.
    HeldBack,
    /// Too much had to be held back: the connection must be made anew.
    Overflow,
}

impl DaemonTerminal {
    /// The mirror is consistent and the queues are within their bounds.
    pub closed spec fn wf(&self) -> bool {
        &&& self.mirror.wf()
        &&& self@.bounded()
    }

    /// A consistent terminal stays within its bounds.
    pub proof fn lemma_bounded(&self)
        requires
            self.wf(),
        ensures
            self@.mirror.wf(),
            self@.bounded(),
    {
    }

    /// A terminal whose connection is being established: live frames are held back.
    pub fn new(size: PtySize) -> (terminal: Self)
        ensures
            terminal.wf(),
            terminal@ == (DaemonModel {
                mirror: MirrorModel { current_seq: 0, base_seq: 1, journal: Seq::empty(), size },
                pending_output: Seq::empty(),
                pending_frames: Seq::empty(),
                bootstrap: Some(Seq::empty()),
                controller: None,
                size,
                process_id: None,
                exited: false,
                output_signal: 0,
            }),
    {
        let terminal = DaemonTerminal {
            mirror: SupervisorTerminalMirror::new(size),
            pending_output: VecDeque::new(),
            pending_frames: VecDeque::new(),
            bootstrap: Some(VecDeque::new()),
            controller: None,
            size,
            process_id: None,
            exited: false,
            output_signal: 0,
        };
        assert(terminal@.pending_output =~= Seq::<Seq<u8>>::empty());
        assert(terminal@.pending_frames =~= Seq::<FrameModel>::empty());
        assert(terminal@.bootstrap->0 =~= Seq::<FrameModel>::empty());
        terminal
    }

    /// A connection is being made anew: live frames are held back again.
    pub fn hold_back(&mut self)
        requires
            old(self).wf(),
        ensures
            final(self).wf(),
            final(self)@ == (DaemonModel { bootstrap: Some(Seq::empty()), ..old(self)@ }),
    {
        self.bootstrap = Some(VecDeque::new());
        assert(self@.bootstrap->0 =~= Seq::<FrameModel>::empty());
    }

    fn signal(&mut self)
        requires
            old(self).wf(),
        ensures
            final(self).wf(),
            final(self)@ == old(self)@.signalled(),
    {
        self.output_signal = if self.output_signal == u64::MAX {
            0
        } else {
            self.output_signal + 1
        };
    }

    /// Whether the mirror will take a frame.
    pub fn accepts(&self, frame: &PtyTerminalFrame) -> (accepts: bool)
        requires
            self.wf(),
        ensures
            accepts == self@.mirror.accepts(frame@),
    {
        let current: u64 = self.mirror.current_terminal_seq();
        match frame {
            PtyTerminalFrame::Snapshot { base_seq, .. } => *base_seq >= current,
            PtyTerminalFrame::Output { terminal_seq, .. } => *terminal_seq > current,
            PtyTerminalFrame::Resize { terminal_seq, .. } => *terminal_seq > current,
            PtyTerminalFrame::Exit { terminal_seq, .. } => *terminal_seq > current,
        }
    }

    /// Whether a frame will make the queue be replaced by a snapshot.
    pub fn needs_snapshot(&self, frame: &PtyTerminalFrame) -> (needs: bool)
        requires
            self.wf(),
        ensures
            needs == !frames_fit(self@.pending_frames, frame@),
    {
        !has_room(&self.pending_frames, frame)
    }

    /// The mirror takes a frame, and the frame waits for readers. `screen` is the screen after the
    /// frame; it is used where the queue is full.
    pub fn apply_and_enqueue(&mut self, frame: PtyTerminalFrame, screen: Vec<u8>) -> (applied: bool)
        requires
            old(self).wf(),
        ensures
            final(self).wf(),
            applied == old(self)@.mirror.accepts(frame@),
            final(self)@ == old(self)@.applied(frame@, screen@),
    {
        let applied = self.mirror.apply_frame(&frame);
        if applied {
            self.enqueue(frame, screen);
        }
        applied
    }

    fn enqueue(&mut self, frame: PtyTerminalFrame, screen: Vec<u8>)
        requires
            old(self).wf(),
        ensures
            final(self).wf(),
            final(self)@ == (DaemonModel {
                pending_frames: enqueued(
                    old(self)@.pending_frames,
                    frame@,
                    FrameModel::Snapshot {
                        base_seq: old(self)@.mirror.current_seq,
                        size: old(self)@.mirror.size,
                        data: screen@,
                    },
                ),
                ..old(self)@
            }),
    {
        let ghost before = self@.pending_frames;
        let ghost model = frame@;
        if has_room(&self.pending_frames, &frame) {
            self.pending_frames.push_back(frame);
            assert(self@.pending_frames =~= before.push(model));
            proof {
                lemma_total_push(before, model);
            }
            return;
        }
        self.pending_frames = VecDeque::new();
        assert(self@.pending_frames =~= Seq::<FrameModel>::empty());
        let snapshot = PtyTerminalFrame::Snapshot {
            base_seq: self.mirror.current_terminal_seq(),
            size: self.mirror.size(),
            data: screen,
        };
        let ghost whole = snapshot@;
        if terminal_frame_retained_bytes(&snapshot) <= SUPERVISOR_OUTPUT_QUEUE_MAX_BYTES {
            self.pending_frames.push_back(snapshot);
            assert(self@.pending_frames =~= seq![whole]);
            assert(seq![whole] =~= Seq::<FrameModel>::empty().push(whole));
            proof {
                lemma_total_push(Seq::empty(), whole);
            }
        }
    }

    /// A live frame arrives on the control connection. `screen` is the screen after the frame.
    pub fn on_live_frame(&mut self, frame: PtyTerminalFrame, screen: Vec<u8>) -> (outcome:
        LiveFrameOutcome)
        requires
            old(self).wf(),
        ensures
            final(self).wf(),
            ({
                let noticed = old(self)@.noticed(frame@);
                match noticed.bootstrap {
                    Some(held) => if frames_fit(held, frame@) {
                        &&& outcome == LiveFrameOutcome::HeldBack
                        &&& final(self)@ == noticed.held_back(frame@)
                    } else {
                        &&& outcome == LiveFrameOutcome::Overflow
                        &&& final(self)@ == (DaemonModel { bootstrap: Some(Seq::empty()), ..noticed })
                    },
                    None => if noticed.mirror.accepts(frame@) {
                        &&& outcome == LiveFrameOutcome::Published
                        &&& final(self)@ == noticed.applied(frame@, screen@).signalled()
                    } else {
                        outcome == LiveFrameOutcome::Stale && final(self)@ == noticed
                    },
                }
            }),
    {
        let is_exit = match &frame {
            PtyTerminalFrame::Exit { .. } => true,
            _ => false,
        };
        if is_exit {
            self.exited = true;
        }
        match self.bootstrap.take() {
            Some(held) => {
                let mut held = held;
                let ghost before = frame_models(held@);
                let ghost model = frame@;
                if !has_room(&held, &frame) {
                    self.bootstrap = Some(VecDeque::new());
                    assert(self@.bootstrap->0 =~= Seq::<FrameModel>::empty());
                    return LiveFrameOutcome::Overflow;
                }
                held.push_back(frame);
                assert(frame_models(held@) =~= before.push(model));
                proof {
                    lemma_total_push(before, model);
                }
                self.bootstrap = Some(held);
                LiveFrameOutcome::HeldBack
            },
            None => {
                if self.apply_and_enqueue(frame, screen) {
                    self.signal();
                    LiveFrameOutcome::Published
                } else {
                    LiveFrameOutcome::Stale
                }
            },
        }
    }

    /// A synchronisation arrives. The frames to apply come back in order; apply each with
    /// [`DaemonTerminal::apply_and_enqueue`], then call [`DaemonTerminal::finish_seed`].
    pub fn begin_seed(&mut self, sync: SupervisorAttachSyncPayload) -> (plan: SeedPlan)
        requires
            old(self).wf(),
        ensures
            final(self).wf(),
            final(self)@ == old(self)@.seeding(sync@),
            plan.restart_screen == old(self)@.restarts_with(sync@),
            frame_models(plan.frames@) == old(self)@.frames_with(sync@),
            plan.retained_output@ == sync@.snapshot.retained_output,
    {
        let ghost model = sync@;
        let ghost waiting = self@.pending_frames;
        self.controller = Some(
            ControllerIdentity {
                id: sync.controller_id,
                connection_id: sync.controller_connection_id,
            },
        );
        self.exited = sync.snapshot.exited;
        self.size = sync.snapshot.size;
        self.process_id = sync.snapshot.process_id;
        let mut live: Vec<PtyTerminalFrame> = Vec::new();
        let mut i: usize = 0;
        assert(waiting.take(0) =~= Seq::<FrameModel>::empty());
        assert(frame_models(live@) =~= Seq::<FrameModel>::empty());
        while i < self.pending_frames.len()
            invariant
                i <= self.pending_frames@.len(),
                waiting == frame_models(self.pending_frames@),
                frame_models(live@) == live_after(waiting.take(i as int), sync.base_seq),
            decreases self.pending_frames@.len() - i,
        {
            assert(waiting.take(i + 1).drop_last() =~= waiting.take(i as int));
            assert(waiting.take(i + 1).last() == self.pending_frames@[i as int]@);
            let ghost before = frame_models(live@);
            let newer = match self.pending_frames[i].terminal_seq() {
                Some(seq) => seq > sync.base_seq,
                None => false,
            };
            if newer {
                let frame = self.pending_frames[i].clone();
                let ghost kept = frame@;
                live.push(frame);
                assert(frame_models(live@) =~= before.push(kept));
            }
            i = i + 1;
        }
        assert(waiting.take(i as int) =~= waiting);
        self.pending_frames = VecDeque::new();
        assert(self@.pending_frames =~= Seq::<FrameModel>::empty());
        let ghost first = frame_models(live@);
        let ghost held_models = match old(self)@.bootstrap {
            Some(frames) => frames,
            None => Seq::empty(),
        };
        match self.bootstrap.take() {
            Some(held) => {
                let mut k: usize = 0;
                while k < held.len()
                    invariant
                        k <= held@.len(),
                        held_models == frame_models(held@),
                        frame_models(live@) == first + held_models.take(k as int),
                    decreases held@.len() - k,
                {
                    let ghost before = frame_models(live@);
                    let frame = held[k].clone();
                    let ghost kept = frame@;
                    live.push(frame);
                    assert(frame_models(live@) =~= before.push(kept));
                    k = k + 1;
                    assert(frame_models(live@) =~= first + held_models.take(k as int));
                }
                assert(held_models.take(k as int) =~= held_models);
                self.bootstrap = Some(VecDeque::new());
                assert(self@.bootstrap->0 =~= Seq::<FrameModel>::empty());
            },
            None => {
                assert(first + held_models =~= first);
            },
        }
        assert(frame_models(live@) == first + held_models);
        let mut restart_screen: bool = false;
        if sync.frames.len() == 0 && sync.snapshot.retained_output.len() > 0 {
            restart_screen = self.mirror.reset_from_snapshot(sync.snapshot.size, sync.base_seq);
        }
        let mut live = drop_repeats(sort_frames(live));
        let SupervisorAttachSyncPayload { snapshot, frames, .. } = sync;
        let mut frames = frames;
        let ghost early = frames@;
        let ghost late = live@;
        frames.append(&mut live);
        assert(frame_models(frames@) =~= frame_models(early) + frame_models(late));
        SeedPlan { restart_screen, frames, retained_output: snapshot.retained_output }
    }

    /// A synchronisation has been applied. `published` tells whether any of its frames was.
    pub fn finish_seed(&mut self, published: bool, retained_output: Vec<u8>)
        requires
            old(self).wf(),
        ensures
            final(self).wf(),
            final(self)@ == old(self)@.seeded(published, retained_output@),
    {
        self.bootstrap = None;
        if published {
            self.signal();
        }
        if retained_output.len() > 0 {
            enqueue_daemon_legacy_output(
                &mut self.pending_output,
                retained_output,
                QueueEnd::Back,
            );
            self.signal();
        }
    }

    /// Reads raw output: what waits as such, then the bytes of waiting frames. What does not fit is
    /// put back, and readers are woken while anything waits.
    pub fn read(&mut self, max: usize) -> (bytes: Vec<u8>)
        requires
            old(self).wf(),
        ensures
            final(self).wf(),
            ({
                let (chunk, source) = old(self)@.next_chunk();
                if max == 0 || chunk is None {
                    &&& bytes@.len() == 0
                    &&& final(self)@ == (if max == 0 {
                        old(self)@
                    } else {
                        source
                    })
                } else {
                    let data = chunk->0;
                    if data.len() <= max {
                        &&& bytes@ == data
                        &&& final(self)@ == source.rearmed()
                    } else {
                        &&& bytes@ == data.take(max as int)
                        &&& final(self)@ == (DaemonModel {
                            pending_output: with_chunk(
                                source.pending_output,
                                data.skip(max as int),
                                QueueEnd::Front,
                            ),
                            ..source
                        }).rearmed()
                    }
                }
            }),
    {
        let empty: Vec<u8> = Vec::new();
        if max == 0 {
            assert(empty@.len() == 0);
            return empty;
        }
        let mut chunk: Vec<u8> = match self.take_chunk() {
            Some(chunk) => chunk,
            None => {
                assert(empty@.len() == 0);
                return empty;
            },
        };
        let ghost data = chunk@;
        if chunk.len() > max {
            let rest = chunk.split_off(max);
            assert(chunk@ =~= data.take(max as int));
            assert(rest@ =~= data.skip(max as int));
            enqueue_daemon_legacy_output(&mut self.pending_output, rest, QueueEnd::Front);
        }
        if self.pending_output.len() > 0 || self.pending_frames.len() > 0 {
            self.signal();
        }
        chunk
    }

    fn take_chunk(&mut self) -> (chunk: Option<Vec<u8>>)
        requires
            old(self).wf(),
        ensures
            final(self).wf(),
            (match chunk {
                Some(bytes) => Some(bytes@),
                None => None::<Seq<u8>>,
            }, final(self)@) == old(self)@.next_chunk(),
    {
        let ghost chunks = self@.pending_output;
        match self.pending_output.pop_front() {
            Some(chunk) => {
                assert(self@.pending_output =~= chunks.drop_first());
                proof {
                    lemma_chunk_total_drop_first(chunks);
                }
                return Some(chunk);
            },
            None => {
                assert(self@.pending_output =~= chunks);
            },
        }
        let ghost frames = self@.pending_frames;
        loop
            invariant
                self.wf(),
                chunks.len() == 0,
                self@.pending_output == chunks,
                self@ == (DaemonModel { pending_frames: self@.pending_frames, ..old(self)@ }),
                first_bytes(frames) == first_bytes(self@.pending_frames),
                old(self)@.pending_output == chunks,
                old(self)@.pending_frames == frames,
            decreases self@.pending_frames.len(),
        {
            let ghost now = self@.pending_frames;
            match self.pending_frames.pop_front() {
                Some(frame) => {
                    assert(now[0] == frame@);
                    assert(self@.pending_frames =~= now.drop_first());
                    if let Some(bytes) = frame.bytes_for_legacy_read() {
                        let chunk = vstd::slice::slice_to_vec(bytes);
                        return Some(chunk);
                    }
                },
                None => {
                    assert(now.len() == 0);
                    assert(self@.pending_frames =~= Seq::<FrameModel>::empty());
                    return None;
                },
            }
        }
    }

    /// Takes the next waiting frame; readers are woken while more frames wait.
    pub fn read_terminal_frame(&mut self) -> (frame: Option<PtyTerminalFrame>)
        requires
            old(self).wf(),
        ensures
            final(self).wf(),
            frame is None <==> old(self)@.pending_frames.len() == 0,
            frame is None ==> final(self)@ == old(self)@,
            frame matches Some(f) ==> {
                let rest = DaemonModel {
                    pending_frames: old(self)@.pending_frames.drop_first(),
                    ..old(self)@
                };
                &&& f@ == old(self)@.pending_frames[0]
                &&& final(self)@ == (if rest.pending_frames.len() > 0 {
                    rest.signalled()
                } else {
                    rest
                })
            },
    {
        let ghost before = self@.pending_frames;
        let frame = self.pending_frames.pop_front();
        assert(frame is Some ==> self@.pending_frames =~= before.drop_first());
        assert(frame is None ==> self@.pending_frames =~= before);
        if self.pending_frames.len() > 0 {
            self.signal();
        }
        frame
    }

    /// The frames that bring a reader up to date, out of the mirror alone. `screen` is the current
    /// screen.
    pub fn terminal_snapshot(&mut self, last_terminal_seq: Option<u64>, screen: Vec<u8>) -> (frames: Vec<
        PtyTerminalFrame,
    >)
        requires
            old(self).wf(),
        ensures
            final(self).wf(),
            frame_models(frames@) == old(self)@.mirror.frames_for(last_terminal_seq, screen@),
            final(self)@ == (DaemonModel {
                size: if frame_models(frames@).len() > 0 && frame_models(frames@)[0] is Snapshot {
                    frame_models(frames@)[0]->Snapshot_size
                } else {
                    old(self)@.size
                },
                ..old(self)@
            }),
    {
        let (_, frames) = self.mirror.terminal_snapshot_or_tail(last_terminal_seq, screen);
        if frames.len() > 0 {
            assert(frame_models(frames@)[0] == frames@[0]@);
            if let PtyTerminalFrame::Snapshot { size, .. } = &frames[0] {
                self.size = *size;
            }
        }
        frames
    }

    /// The supervisor confirmed a change of size.
    pub fn set_size(&mut self, size: PtySize)
        requires
            old(self).wf(),
        ensures
            final(self).wf(),
            final(self)@ == (DaemonModel { size, ..old(self)@ }),
    {
        self.size = size;
    }

    /// The supervisor described the session host anew.
    pub fn note_snapshot(&mut self, size: PtySize, process_id: Option<u32>, exited: bool)
        requires
            old(self).wf(),
        ensures
            final(self).wf(),
            final(self)@ == (DaemonModel { size, process_id, exited, ..old(self)@ }),
    {
        self.size = size;
        self.process_id = process_id;
        self.exited = exited;
    }

    /// A resume was committed: the daemon holds this controller from now on.
    pub fn set_controller(&mut self, controller: ControllerIdentity)
        requires
            old(self).wf(),
        ensures
            final(self).wf(),
            final(self)@ == (DaemonModel { controller: Some(controller), ..old(self)@ }),
    {
        self.controller = Some(controller);
    }

    /// The controller that the daemon holds.
    pub fn controller(&self) -> (controller: Option<ControllerIdentity>)
        ensures
            controller == self@.controller,
    {
        self.controller
    }

    /// The process id of the session host, where it is known.
    pub fn process_id(&self) -> (process_id: Option<u32>)
        ensures
            process_id == self@.process_id,
    {
        self.process_id
    }

    /// The size that the session host has, as far as the daemon knows.
    pub fn size(&self) -> (size: PtySize)
        ensures
            size == self@.size,
    {
        self.size
    }

    /// Whether the process is known to have ended.
    pub fn exited(&self) -> (exited: bool)
        ensures
            exited == self@.exited,
    {
        self.exited
    }

    /// The number that changes whenever readers are woken.
    pub fn output_signal(&self) -> (signal: u64)
        ensures
            signal == self@.output_signal,
    {
        self.output_signal
    }

    /// The number of waiting frames.
    pub fn pending_frame_count(&self) -> (count: usize)
        ensures
            count == self@.pending_frames.len(),
    {
        self.pending_frames.len()
    }
}

impl DaemonModel {
    /// An emulator follows a frame: it is shown what the mirror takes, and draws the screen where the
    /// queue is full.
    pub open spec fn follows<S: ScreenEmulator>(
        self,
        before: S,
        frame: FrameModel,
        after: S,
        drawn: Seq<u8>,
    ) -> bool {
        if self.mirror.accepts(frame) {
            shown(before, frame, after) && (!frames_fit(self.pending_frames, frame) ==> draws(
                after,
                drawn,
            ))
        } else {
            after == before
        }
    }

    /// An emulator follows frames one after the other. It goes through `states`, and `screens` are what
    /// it draws where it has to.
    pub open spec fn follows_all<S: ScreenEmulator>(
        self,
        first: S,
        frames: Seq<FrameModel>,
        states: Seq<S>,
        screens: Seq<Seq<u8>>,
    ) -> bool
        decreases frames.len(),
    {
        &&& states.len() == frames.len()
        &&& screens.len() == frames.len()
        &&& frames.len() > 0 ==> {
            &&& self.follows_all(
                first,
                frames.drop_last(),
                states.drop_last(),
                screens.drop_last(),
            )
            &&& self.replayed(frames.drop_last(), screens.drop_last()).follows(
                last_state(first, states.drop_last()),
                frames.last(),
                states.last(),
                screens.last(),
            )
        }
    }
}

/// What an emulator looks like at the end.
pub open spec fn last_state<S>(first: S, states: Seq<S>) -> S {
    if states.len() == 0 {
        first
    } else {
        states.last()
    }
}

impl DaemonModel {
    /// Frames are applied one after the other; `screens` are the screens after each of them.
    pub open spec fn replayed(self, frames: Seq<FrameModel>, screens: Seq<Seq<u8>>) -> DaemonModel
        decreases frames.len(),
    {
        if frames.len() == 0 {
            self
        } else {
            self.replayed(frames.drop_last(), screens.drop_last()).applied(
                frames.last(),
                screens.last(),
            )
        }
    }

    /// Whether any of the frames is taken.
    pub open spec fn publishes(self, frames: Seq<FrameModel>, screens: Seq<Seq<u8>>) -> bool
        decreases frames.len(),
    {
        if frames.len() == 0 {
            false
        } else {
            self.publishes(frames.drop_last(), screens.drop_last()) || self.replayed(
                frames.drop_last(),
                screens.drop_last(),
            ).mirror.accepts(frames.last())
        }
    }

    /// The frames that a synchronisation brings: its own, and then the live ones that it does not cover.
    pub open spec fn frames_with(self, sync: AttachSyncModel) -> Seq<FrameModel> {
        sync.frames + self.live_to_replay(sync.base_seq)
    }

    /// A whole synchronisation: it begins, its frames and then the live ones are applied, and it ends.
    pub open spec fn synchronised(self, sync: AttachSyncModel, screens: Seq<Seq<u8>>) -> DaemonModel {
        let frames = self.frames_with(sync);
        let begun = self.seeding(sync);
        begun.replayed(frames, screens).seeded(
            begun.publishes(frames, screens),
            sync.snapshot.retained_output,
        )
    }
}

impl DaemonTerminal {
    /// A live frame arrives on the control connection; the emulator follows what the mirror takes.
    pub fn receive_live_frame<S: ScreenEmulator>(&mut self, screen: S, frame: PtyTerminalFrame) -> (res: (
        S,
        LiveFrameOutcome,
    ))
        requires
            old(self).wf(),
        ensures
            final(self).wf(),
            ({
                let noticed = old(self)@.noticed(frame@);
                match noticed.bootstrap {
                    Some(held) => {
                        &&& res.0 == screen
                        &&& if frames_fit(held, frame@) {
                            &&& res.1 == LiveFrameOutcome::HeldBack
                            &&& final(self)@ == noticed.held_back(frame@)
                        } else {
                            &&& res.1 == LiveFrameOutcome::Overflow
                            &&& final(self)@ == (DaemonModel {
                                bootstrap: Some(Seq::empty()),
                                ..noticed
                            })
                        }
                    },
                    None => if noticed.mirror.accepts(frame@) {
                        &&& res.1 == LiveFrameOutcome::Published
                        &&& exists|drawn: Seq<u8>|
                            {
                                &&& noticed.follows(screen, frame@, res.0, drawn)
                                &&& final(self)@ == #[trigger] noticed.applied(frame@, drawn).signalled()
                            }
                    } else {
                        &&& res.0 == screen
                        &&& res.1 == LiveFrameOutcome::Stale
                        &&& final(self)@ == noticed
                    },
                }
            }),
    {
        let mut drawn: Vec<u8> = Vec::new();
        let mut after: S = screen;
        if self.bootstrap.is_none() && self.accepts(&frame) {
            after = show_frame(after, &frame);
            if self.needs_snapshot(&frame) {
                drawn = after.snapshot();
                assert(draws(after, drawn@));
            }
        }
        let outcome = self.on_live_frame(frame, drawn);
        (after, outcome)
    }

    /// A synchronisation arrives: the mirror, the emulator and the waiting frames follow it, and then the
    /// live frames that it does not cover, in order.
    pub fn seed_attach_sync<S: ScreenEmulator>(
        &mut self,
        screen: S,
        sync: SupervisorAttachSyncPayload,
    ) -> (after: S)
        requires
            old(self).wf(),
        ensures
            final(self).wf(),
            exists|first: S, states: Seq<S>, screens: Seq<Seq<u8>>|
                {
                    &&& if old(self)@.restarts_with(sync@) {
                        redrawn(screen, sync@.snapshot.size, sync@.snapshot.retained_output, first)
                    } else {
                        first == screen
                    }
                    &&& #[trigger] old(self)@.seeding(sync@).follows_all(
                        first,
                        old(self)@.frames_with(sync@),
                        states,
                        screens,
                    )
                    &&& after == last_state(first, states)
                    &&& final(self)@ == old(self)@.synchronised(sync@, screens)
                },
    {
        let size: PtySize = sync.snapshot.size;
        let plan = self.begin_seed(sync);
        let ghost begun = self@;
        let ghost all = frame_models(plan.frames@);
        let mut after: S = screen;
        if plan.restart_screen {
            let blank = after.reset(size);
            after = blank.feed(plan.retained_output.as_slice());
            assert(call_ensures(S::reset, (screen, size), blank));
            assert(fed(blank, plan.retained_output@, after));
        }
        let ghost first: S = after;
        let ghost mut states: Seq<S> = Seq::empty();
        let ghost mut screens: Seq<Seq<u8>> = Seq::empty();
        let mut published: bool = false;
        let mut i: usize = 0;
        assert(all.take(0) =~= Seq::<FrameModel>::empty());
        while i < plan.frames.len()
            invariant
                self.wf(),
                i <= plan.frames@.len(),
                all == frame_models(plan.frames@),
                screens.len() == i,
                begun.follows_all(first, all.take(i as int), states, screens),
                after == last_state(first, states),
                self@ == begun.replayed(all.take(i as int), screens),
                published == begun.publishes(all.take(i as int), screens),
            decreases plan.frames@.len() - i,
        {
            let frame = plan.frames[i].clone();
            assert(frame@ == all[i as int]);
            let ghost part = all.take(i + 1);
            assert(part.drop_last() =~= all.take(i as int));
            assert(part.last() == frame@);
            let ghost before = after;
            let mut drawn: Vec<u8> = Vec::new();
            if self.accepts(&frame) {
                after = show_frame(after, &frame);
                if self.needs_snapshot(&frame) {
                    drawn = after.snapshot();
                    assert(draws(after, drawn@));
                }
            }
            let ghost model = drawn@;
            assert(self@.follows(before, frame@, after, model));
            let applied = self.apply_and_enqueue(frame, drawn);
            proof {
                let longer = screens.push(model);
                assert(longer.drop_last() =~= screens);
                assert(longer.last() == model);
                screens = longer;
                let further = states.push(after);
                assert(further.drop_last() =~= states);
                assert(further.last() == after);
                states = further;
            }
            published = published || applied;
            i = i + 1;
        }
        assert(all.take(i as int) =~= all);
        self.finish_seed(published, plan.retained_output);
        assert(self@ == old(self)@.synchronised(sync@, screens));
        after
    }
}

/// The bytes of the first frame that has any, and the frames behind it.
pub open spec fn first_bytes(frames: Seq<FrameModel>) -> (Option<Seq<u8>>, Seq<FrameModel>)
    decreases frames.len(),
{
    if frames.len() == 0 {
        (None, Seq::empty())
    } else {
        match frames[0].bytes() {
            Some(data) => (Some(data), frames.drop_first()),
            None => first_bytes(frames.drop_first()),
        }
    }
}

impl DaemonModel {
    /// What a reader of raw output gets next, and what is left. Frames without bytes are skipped.
    pub open spec fn next_chunk(self) -> (Option<Seq<u8>>, DaemonModel) {
        if self.pending_output.len() > 0 {
            (
                Some(self.pending_output[0]),
                DaemonModel { pending_output: self.pending_output.drop_first(), ..self },
            )
        } else {
            let (data, rest) = first_bytes(self.pending_frames);
            (data, DaemonModel { pending_frames: rest, ..self })
        }
    }

    /// Readers are woken while anything waits.
    pub open spec fn rearmed(self) -> DaemonModel {
        if self.pending_output.len() > 0 || self.pending_frames.len() > 0 {
            self.signalled()
        } else {
            self
        }
    }
}

// ---------------------------------------------------------------------------
// Laws

/// However much arrives, a queue of frames never holds more than its limits, and after an overflow
/// it is the snapshot alone.
pub proof fn law_backlog_is_replaced_by_a_snapshot(
    frames: Seq<FrameModel>,
    frame: FrameModel,
    snapshot: FrameModel,
)
    requires
        frames.len() <= SUPERVISOR_OUTPUT_QUEUE_MAX_MESSAGES,
        total_retained(frames) <= SUPERVISOR_OUTPUT_QUEUE_MAX_BYTES,
    ensures
        enqueued(frames, frame, snapshot).len() <= SUPERVISOR_OUTPUT_QUEUE_MAX_MESSAGES,
        total_retained(enqueued(frames, frame, snapshot)) <= SUPERVISOR_OUTPUT_QUEUE_MAX_BYTES,
        !frames_fit(frames, frame) && snapshot.retained_bytes() <= SUPERVISOR_OUTPUT_QUEUE_MAX_BYTES
            ==> enqueued(frames, frame, snapshot) == seq![snapshot],
{
    if frames_fit(frames, frame) {
        lemma_total_push(frames, frame);
    } else {
        reveal_with_fuel(total_retained, 2);
        assert(seq![snapshot].drop_first() =~= Seq::<FrameModel>::empty());
    }
}

proof fn lemma_chunk_total_parts(first: Seq<Seq<u8>>, second: Seq<Seq<u8>>)
    ensures
        chunk_total(first + second) == chunk_total(first) + chunk_total(second),
    decreases second.len(),
{
    if second.len() == 0 {
        assert(first + second =~= first);
    } else {
        assert((first + second).drop_last() =~= first + second.drop_last());
        lemma_chunk_total_parts(first, second.drop_last());
    }
}

/// Taking the first away leaves no more bytes.
pub proof fn lemma_chunk_total_drop_first(chunks: Seq<Seq<u8>>)
    requires
        chunks.len() > 0,
    ensures
        chunk_total(chunks.drop_first()) <= chunk_total(chunks),
{
    lemma_chunk_total_parts(seq![chunks[0]], chunks.drop_first());
    assert(seq![chunks[0]] + chunks.drop_first() =~= chunks);
}

proof fn lemma_room_made(chunks: Seq<Seq<u8>>, len: nat, end: QueueEnd)
    requires
        len <= SUPERVISOR_OUTPUT_QUEUE_MAX_BYTES,
    ensures
        chunk_total(room_made(chunks, len, end)) + len <= SUPERVISOR_OUTPUT_QUEUE_MAX_BYTES,
    decreases chunks.len(),
{
    if chunks.len() > 0 {
        match end {
            QueueEnd::Front => lemma_room_made(chunks.drop_last(), len, end),
            QueueEnd::Back => lemma_room_made(chunks.drop_first(), len, end),
        }
    }
}

proof fn lemma_chunks_bounded(chunks: Seq<Seq<u8>>, chunk: Seq<u8>, end: QueueEnd)
    ensures
        chunk_total(with_chunk(chunks, chunk, end)) <= SUPERVISOR_OUTPUT_QUEUE_MAX_BYTES,
{
    let kept = clipped(chunk, end);
    let room = room_made(chunks, kept.len(), end);
    lemma_room_made(chunks, kept.len(), end);
    assert(seq![kept].drop_last() =~= Seq::<Seq<u8>>::empty());
    assert(chunk_total(seq![kept]) == kept.len()) by {
        reveal_with_fuel(chunk_total, 2);
    }
    lemma_chunk_total_parts(seq![kept], room);
    assert(room.push(kept).drop_last() =~= room);
}

proof fn lemma_total_push(frames: Seq<FrameModel>, frame: FrameModel)
    ensures
        total_retained(frames.push(frame)) == total_retained(frames) + frame.retained_bytes(),
    decreases frames.len(),
{
    if frames.len() == 0 {
        assert(frames.push(frame).drop_first() =~= Seq::<FrameModel>::empty());
        reveal_with_fuel(total_retained, 2);
    } else {
        lemma_total_push(frames.drop_first(), frame);
        assert(frames.push(frame).drop_first() =~= frames.drop_first().push(frame));
    }
}

/// Frames are in increasing order of their sequence numbers, each of which occurs once.
pub open spec fn strictly_increasing(frames: Seq<FrameModel>) -> bool {
    forall|i: int, j: int|
        0 <= i < j < frames.len() ==> seq_or_zero(#[trigger] frames[i]) < seq_or_zero(
            #[trigger] frames[j],
        )
}

spec fn sorted(frames: Seq<FrameModel>) -> bool {
    forall|i: int, j: int|
        0 <= i < j < frames.len() ==> seq_or_zero(#[trigger] frames[i]) <= seq_or_zero(
            #[trigger] frames[j],
        )
}

spec fn all_live(frames: Seq<FrameModel>) -> bool {
    forall|i: int| 0 <= i < frames.len() ==> (#[trigger] frames[i]).seq() is Some
}

proof fn lemma_inserted(frames: Seq<FrameModel>, frame: FrameModel)
    requires
        sorted(frames),
    ensures
        sorted(inserted(frames, frame)),
        inserted(frames, frame).len() == frames.len() + 1,
        all_live(frames) && frame.seq() is Some ==> all_live(inserted(frames, frame)),
        inserted(frames, frame).to_multiset() == frames.to_multiset().insert(frame),
        seq_or_zero(inserted(frames, frame).last()) == (if frames.len() > 0 && seq_or_zero(
            frames.last(),
        ) > seq_or_zero(frame) {
            seq_or_zero(frames.last())
        } else {
            seq_or_zero(frame)
        }),
    decreases frames.len(),
{
    broadcast use vstd::seq_lib::group_to_multiset_ensures;

    if frames.len() == 0 || seq_or_zero(frames.last()) <= seq_or_zero(frame) {
        let grown = frames.push(frame);
        assert forall|i: int, j: int| 0 <= i < j < grown.len() implies seq_or_zero(
            #[trigger] grown[i],
        ) <= seq_or_zero(#[trigger] grown[j]) by {
            if j == frames.len() && i < frames.len() - 1 {
                assert(seq_or_zero(frames[i]) <= seq_or_zero(frames[frames.len() - 1]));
            }
        }
    } else {
        let rest = frames.drop_last();
        assert forall|i: int, j: int| 0 <= i < j < rest.len() implies seq_or_zero(
            #[trigger] rest[i],
        ) <= seq_or_zero(#[trigger] rest[j]) by {
            assert(seq_or_zero(frames[i]) <= seq_or_zero(frames[j]));
        }
        assert(all_live(frames) ==> all_live(rest)) by {
            if all_live(frames) {
                assert forall|i: int| 0 <= i < rest.len() implies (
                #[trigger] rest[i]).seq() is Some by {
                    assert(frames[i].seq() is Some);
                }
            }
        }
        lemma_inserted(rest, frame);
        let inner = inserted(rest, frame);
        let grown = inner.push(frames.last());
        assert(seq_or_zero(inner.last()) <= seq_or_zero(frames.last())) by {
            if rest.len() > 0 {
                assert(seq_or_zero(frames[rest.len() - 1]) <= seq_or_zero(frames[rest.len() as int]));
            }
        }
        assert forall|i: int, j: int| 0 <= i < j < grown.len() implies seq_or_zero(
            #[trigger] grown[i],
        ) <= seq_or_zero(#[trigger] grown[j]) by {
            if j == inner.len() && i < inner.len() - 1 {
                assert(seq_or_zero(inner[i]) <= seq_or_zero(inner[inner.len() - 1]));
            }
        }
        assert(frames =~= rest.push(frames.last()));
        assert(grown.to_multiset() =~= frames.to_multiset().insert(frame));
    }
}

proof fn lemma_in_order(frames: Seq<FrameModel>)
    ensures
        sorted(in_order(frames)),
        in_order(frames).len() == frames.len(),
        all_live(frames) ==> all_live(in_order(frames)),
        in_order(frames).to_multiset() == frames.to_multiset(),
    decreases frames.len(),
{
    broadcast use vstd::seq_lib::group_to_multiset_ensures;

    if frames.len() > 0 {
        let rest = frames.drop_last();
        assert(all_live(frames) ==> all_live(rest)) by {
            if all_live(frames) {
                assert forall|i: int| 0 <= i < rest.len() implies (
                #[trigger] rest[i]).seq() is Some by {
                    assert(frames[i].seq() is Some);
                }
            }
        }
        lemma_in_order(rest);
        lemma_inserted(in_order(rest), frames.last());
        assert(frames =~= rest.push(frames.last()));
    } else {
        assert(in_order(frames) =~= frames);
    }
}

proof fn lemma_without_repeats(frames: Seq<FrameModel>)
    requires
        sorted(frames),
        all_live(frames),
    ensures
        strictly_increasing(without_repeats(frames)),
        all_live(without_repeats(frames)),
        frames.len() > 0 ==> without_repeats(frames).len() > 0 && without_repeats(frames).last().seq()
            == frames.last().seq(),
        without_repeats(frames).len() <= frames.len(),
    decreases frames.len(),
{
    if frames.len() > 0 {
        let rest = frames.drop_last();
        assert forall|i: int, j: int| 0 <= i < j < rest.len() implies seq_or_zero(
            #[trigger] rest[i],
        ) <= seq_or_zero(#[trigger] rest[j]) by {
            assert(seq_or_zero(frames[i]) <= seq_or_zero(frames[j]));
        }
        assert forall|i: int| 0 <= i < rest.len() implies (#[trigger] rest[i]).seq() is Some by {
            assert(frames[i].seq() is Some);
        }
        lemma_without_repeats(rest);
        let kept = without_repeats(rest);
        assert(frames.last() == frames[frames.len() - 1]);
        if rest.len() > 0 {
            assert(seq_or_zero(frames[rest.len() - 1]) <= seq_or_zero(frames[rest.len() as int]));
            assert(kept.last() == kept[kept.len() - 1]);
            if kept.last().seq() != frames.last().seq() {
                let grown = kept.push(frames.last());
                assert forall|i: int, j: int| 0 <= i < j < grown.len() implies seq_or_zero(
                    #[trigger] grown[i],
                ) < seq_or_zero(#[trigger] grown[j]) by {
                    if j == kept.len() && i < kept.len() - 1 {
                        assert(seq_or_zero(kept[i]) < seq_or_zero(kept[kept.len() - 1]));
                    }
                }
            }
        }
    }
}

/// Live frames follow a synchronisation in increasing order, each sequence number once, provided that
/// only live events were held back.
pub proof fn law_live_frames_are_replayed_in_order(daemon: DaemonModel, base_seq: u64)
    requires
        daemon.bootstrap matches Some(held) ==> forall|i: int|
            0 <= i < held.len() ==> (#[trigger] held[i]).seq() is Some,
    ensures
        strictly_increasing(daemon.live_to_replay(base_seq)),
{
    let held = match daemon.bootstrap {
        Some(frames) => frames,
        None => Seq::empty(),
    };
    let waiting = live_after(daemon.pending_frames, base_seq);
    lemma_live_after(daemon.pending_frames, base_seq);
    let all = waiting + held;
    assert(all_live(all)) by {
        assert forall|i: int| 0 <= i < all.len() implies (#[trigger] all[i]).seq() is Some by {
            if i < waiting.len() {
                assert(waiting[i].seq() is Some);
            } else {
                assert(held[i - waiting.len()].seq() is Some);
            }
        }
    }
    lemma_in_order(all);
    lemma_without_repeats(in_order(all));
}

proof fn lemma_live_after(frames: Seq<FrameModel>, base_seq: u64)
    ensures
        all_live(live_after(frames, base_seq)),
    decreases frames.len(),
{
    if frames.len() > 0 {
        lemma_live_after(frames.drop_last(), base_seq);
    }
}

} // verus!
