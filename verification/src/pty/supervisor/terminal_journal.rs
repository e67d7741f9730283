//! Sequenced terminal events: the supervisor's journal and the daemon's mirror of it.
//!
//! The screen emulator itself stays outside; whoever owns it feeds it the frames that are recorded
//! or accepted here, and hands its current snapshot in where one may have to be sent.

use crate::pty::{frame_models, FrameModel, PtySize, PtyTerminalFrame};
use std::collections::VecDeque;
use vstd::prelude::*;
use vstd::slice::slice_to_vec;

verus! {

/// How many events a journal keeps.
pub const TERMINAL_JOURNAL_MAX_EVENTS: usize = 8192;

/// A tail up to this size is always replayed.
pub const TERMINAL_ATTACH_TAIL_MAX_BYTES: usize = 131072;

/// A larger tail is replayed while it is at most this many times the snapshot.
pub const TERMINAL_ATTACH_TAIL_SNAPSHOT_RATIO: usize = 2;

/// A raw terminal event of the journal.
#[derive(Debug, PartialEq, Eq)]
pub enum TerminalEvent {
    Output { seq: u64, bytes: Vec<u8> },
    Resize { seq: u64, size: PtySize },
    Exit { seq: u64, code: Option<i32> },
}

impl View for TerminalEvent {
    type V = FrameModel;

    open spec fn view(&self) -> FrameModel {
        match self {
            TerminalEvent::Output { seq, bytes } => FrameModel::Output {
                terminal_seq: *seq,
                data: bytes@,
            },
            TerminalEvent::Resize { seq, size } => FrameModel::Resize {
                terminal_seq: *seq,
                size: *size,
            },
            TerminalEvent::Exit { seq, code } => FrameModel::Exit { terminal_seq: *seq, code: *code },
        }
    }
}

/// What replaying an event costs: its bytes, or one.
pub open spec fn replay_cost(event: FrameModel) -> nat {
    match event {
        FrameModel::Output { data, .. } => data.len(),
        _ => 1,
    }
}

impl TerminalEvent {
    /// The sequence number of the event.
    pub fn terminal_seq(&self) -> (seq: u64)
        ensures
            self@.seq() == Some(seq),
    {
        match self {
            TerminalEvent::Output { seq, .. } => *seq,
            TerminalEvent::Resize { seq, .. } => *seq,
            TerminalEvent::Exit { seq, .. } => *seq,
        }
    }

    /// The frame that carries the event.
    pub fn to_terminal_frame(&self) -> (frame: PtyTerminalFrame)
        ensures
            frame@ == self@,
    {
        match self {
            TerminalEvent::Output { seq, bytes } => PtyTerminalFrame::Output {
                terminal_seq: *seq,
                data: slice_to_vec(bytes.as_slice()),
            },
            TerminalEvent::Resize { seq, size } => PtyTerminalFrame::Resize {
                terminal_seq: *seq,
                size: *size,
            },
            TerminalEvent::Exit { seq, code } => PtyTerminalFrame::Exit {
                terminal_seq: *seq,
                code: *code,
            },
        }
    }

    /// What replaying the event costs.
    pub fn replay_cost_bytes(&self) -> (cost: usize)
        ensures
            cost == replay_cost(self@),
    {
        match self {
            TerminalEvent::Output { bytes, .. } => bytes.len(),
            TerminalEvent::Resize { .. } => 1,
            TerminalEvent::Exit { .. } => 1,
        }
    }
}

/// The contents of a sequence of events.
pub open spec fn event_models(events: Seq<TerminalEvent>) -> Seq<FrameModel> {
    Seq::new(events.len(), |i: int| events[i]@)
}

/// The events that come after a sequence number, in order.
pub open spec fn events_after(journal: Seq<FrameModel>, last: u64) -> Seq<FrameModel>
    decreases journal.len(),
{
    if journal.len() == 0 {
        Seq::empty()
    } else {
        let rest = events_after(journal.drop_last(), last);
        if journal.last().seq() matches Some(seq) && seq > last {
            rest.push(journal.last())
        } else {
            rest
        }
    }
}

/// The total cost of replaying a tail.
pub open spec fn tail_cost(tail: Seq<FrameModel>) -> nat
    decreases tail.len(),
{
    if tail.len() == 0 {
        0
    } else {
        tail_cost(tail.drop_last()) + replay_cost(tail.last())
    }
}

/// A tail contains a change of the terminal size.
pub open spec fn has_resize(tail: Seq<FrameModel>) -> bool {
    exists|i: int| 0 <= i < tail.len() && (#[trigger] tail[i]) is Resize
}

/// A tail may be replayed instead of a snapshot of the given length.
///
/// Replaying across a change of size would wrap lines for the wrong width, so such a tail never is.
pub open spec fn replayable(tail: Seq<FrameModel>, snapshot_len: nat) -> bool {
    &&& !has_resize(tail)
    &&& tail_cost(tail) <= TERMINAL_ATTACH_TAIL_MAX_BYTES || tail_cost(tail) <= snapshot_len
        * TERMINAL_ATTACH_TAIL_SNAPSHOT_RATIO
}

/// A journal after one more event; the oldest event leaves a full journal.
pub open spec fn journal_push(journal: Seq<FrameModel>, event: FrameModel) -> Seq<FrameModel> {
    let grown = journal.push(event);
    if grown.len() > TERMINAL_JOURNAL_MAX_EVENTS {
        grown.drop_first()
    } else {
        grown
    }
}

/// The frames that bring a reader who has seen everything up to `last` up to date.
pub open spec fn attach_frames(
    journal: Seq<FrameModel>,
    base_seq: u64,
    current_seq: u64,
    size: PtySize,
    last: Option<u64>,
    snapshot: Seq<u8>,
) -> Seq<FrameModel> {
    let whole = seq![FrameModel::Snapshot { base_seq: current_seq, size, data: snapshot }];
    match last {
        None => whole,
        Some(l) => if l == current_seq {
            Seq::empty()
        } else if l < current_seq && l + 1 >= base_seq && replayable(
            events_after(journal, l),
            snapshot.len(),
        ) {
            events_after(journal, l)
        } else {
            whole
        },
    }
}

/// Appends to a journal and drops the oldest event of a full one.
fn push_bounded(journal: &mut VecDeque<TerminalEvent>, event: TerminalEvent)
    requires
        old(journal)@.len() <= TERMINAL_JOURNAL_MAX_EVENTS,
    ensures
        event_models(final(journal)@) == journal_push(event_models(old(journal)@), event@),
        0 < final(journal)@.len() <= TERMINAL_JOURNAL_MAX_EVENTS,
{
    let ghost model = event@;
    journal.push_back(event);
    assert(event_models(journal@) =~= event_models(old(journal)@).push(model));
    if journal.len() > TERMINAL_JOURNAL_MAX_EVENTS {
        let ghost grown = journal@;
        let _ = journal.pop_front();
        assert(event_models(journal@) =~= event_models(grown).drop_first());
    }
}

/// The frames of the events after a sequence number.
fn collect_tail(journal: &VecDeque<TerminalEvent>, last: u64) -> (frames: Vec<PtyTerminalFrame>)
    ensures
        frame_models(frames@) == events_after(event_models(journal@), last),
{
    let mut frames: Vec<PtyTerminalFrame> = Vec::new();
    let mut i: usize = 0;
    while i < journal.len()
        invariant
            i <= journal@.len(),
            frame_models(frames@) == events_after(event_models(journal@).take(i as int), last),
        decreases journal@.len() - i,
    {
        let ghost before = frames@;
        let ghost part = event_models(journal@).take(i + 1);
        assert(part.drop_last() =~= event_models(journal@).take(i as int));
        assert(part.last() == journal@[i as int]@);
        if journal[i].terminal_seq() > last {
            let frame = journal[i].to_terminal_frame();
            frames.push(frame);
            assert(frame_models(frames@) =~= frame_models(before).push(part.last()));
        }
        i = i + 1;
    }
    assert(event_models(journal@).take(i as int) =~= event_models(journal@));
    frames
}

/// Decides whether the events after a sequence number may be replayed.
fn should_replay_attach_tail(
    journal: &VecDeque<TerminalEvent>,
    last: u64,
    snapshot_len: usize,
) -> (replay: bool)
    requires
        journal@.len() <= TERMINAL_JOURNAL_MAX_EVENTS,
    ensures
        replay == replayable(events_after(event_models(journal@), last), snapshot_len as nat),
{
    let mut cost: u128 = 0;
    let mut resized: bool = false;
    let mut i: usize = 0;
    proof {
        assert(tail_cost(Seq::<FrameModel>::empty()) == 0);
    }
    while i < journal.len()
        invariant
            i <= journal@.len() <= TERMINAL_JOURNAL_MAX_EVENTS,
            cost == tail_cost(events_after(event_models(journal@).take(i as int), last)),
            cost <= i * 0x1_0000_0000_0000_0000,
            resized == has_resize(events_after(event_models(journal@).take(i as int), last)),
        decreases journal@.len() - i,
    {
        let ghost part = event_models(journal@).take(i + 1);
        let ghost before = events_after(event_models(journal@).take(i as int), last);
        assert(part.drop_last() =~= event_models(journal@).take(i as int));
        assert(part.last() == journal@[i as int]@);
        if journal[i].terminal_seq() > last {
            let step: usize = journal[i].replay_cost_bytes();
            cost = cost + step as u128;
            let is_resize = match &journal[i] {
                TerminalEvent::Resize { .. } => true,
                _ => false,
            };
            proof {
                let after = before.push(part.last());
                assert(after.drop_last() =~= before);
                if is_resize {
                    assert(after[before.len() as int] is Resize);
                } else if resized {
                    let k = choose|k: int| 0 <= k < before.len() && (#[trigger] before[k]) is Resize;
                    assert(after[k] is Resize);
                } else if has_resize(after) {
                    let k = choose|k: int| 0 <= k < after.len() && (#[trigger] after[k]) is Resize;
                    if k < before.len() {
                        assert(before[k] is Resize);
                    }
                }
            }
            resized = resized || is_resize;
        }
        i = i + 1;
    }
    assert(event_models(journal@).take(i as int) =~= event_models(journal@));
    if resized {
        return false;
    }
    cost <= TERMINAL_ATTACH_TAIL_MAX_BYTES as u128 || cost <= snapshot_len as u128
        * TERMINAL_ATTACH_TAIL_SNAPSHOT_RATIO as u128
}

/// Chooses between nothing, a tail and a snapshot.
fn frames_for_reader(
    journal: &VecDeque<TerminalEvent>,
    base_seq: u64,
    current_seq: u64,
    size: PtySize,
    last: Option<u64>,
    snapshot: Vec<u8>,
) -> (frames: Vec<PtyTerminalFrame>)
    requires
        journal@.len() <= TERMINAL_JOURNAL_MAX_EVENTS,
    ensures
        frame_models(frames@) == attach_frames(
            event_models(journal@),
            base_seq,
            current_seq,
            size,
            last,
            snapshot@,
        ),
{
    if let Some(l) = last {
        if l == current_seq {
            let frames: Vec<PtyTerminalFrame> = Vec::new();
            assert(frame_models(frames@) =~= Seq::<FrameModel>::empty());
            return frames;
        }
        if l < current_seq && l + 1 >= base_seq && should_replay_attach_tail(
            journal,
            l,
            snapshot.len(),
        ) {
            return collect_tail(journal, l);
        }
    }
    let mut frames: Vec<PtyTerminalFrame> = Vec::new();
    let frame = PtyTerminalFrame::Snapshot { base_seq: current_seq, size, data: snapshot };
    frames.push(frame);
    assert(frame_models(frames@) =~= seq![
        FrameModel::Snapshot { base_seq: current_seq, size, data: snapshot@ },
    ]);
    frames
}

// ---------------------------------------------------------------------------
// The supervisor's journal

/// The authoritative event journal, kept next to the pseudo-terminal itself.
pub struct SupervisorTerminalCache {
    next_terminal_seq: u64,
    journal_base_seq: u64,
    journal: VecDeque<TerminalEvent>,
    size: PtySize,
}

/// The mathematical content of a [`SupervisorTerminalCache`].
pub struct CacheModel {
    pub next_seq: u64,
    pub journal: Seq<FrameModel>,
    pub size: PtySize,
}

impl CacheModel {
    /// The sequence number of the oldest event in the journal, or the next one where it is empty.
    pub open spec fn base_seq(self) -> int {
        self.next_seq - self.journal.len()
    }

    /// The sequence number of the latest event; zero before the first.
    pub open spec fn current_seq(self) -> int {
        self.next_seq - 1
    }

    /// The journal holds the latest events, one for each sequence number, without a gap.
    pub open spec fn wf(self) -> bool {
        &&& self.next_seq >= 1
        &&& self.journal.len() <= TERMINAL_JOURNAL_MAX_EVENTS
        &&& self.journal.len() < self.next_seq
        &&& forall|i: int|
            0 <= i < self.journal.len() ==> (#[trigger] self.journal[i]).seq() == Some(
                (self.base_seq() + i) as u64,
            )
    }

    /// The journal after recording an event.
    pub open spec fn record(self, event: FrameModel) -> CacheModel {
        CacheModel {
            next_seq: (self.next_seq + 1) as u64,
            journal: journal_push(self.journal, event),
            size: match event {
                FrameModel::Resize { size, .. } => size,
                _ => self.size,
            },
        }
    }

    /// What a reader is sent who has seen everything up to `last`.
    pub open spec fn frames_for(self, last: Option<u64>, snapshot: Seq<u8>) -> Seq<FrameModel> {
        attach_frames(
            self.journal,
            self.base_seq() as u64,
            self.current_seq() as u64,
            self.size,
            last,
            snapshot,
        )
    }
}

impl View for SupervisorTerminalCache {
    type V = CacheModel;

    closed spec fn view(&self) -> CacheModel {
        CacheModel {
            next_seq: self.next_terminal_seq,
            journal: event_models(self.journal@),
            size: self.size,
        }
    }
}

impl SupervisorTerminalCache {
    /// The journal is consistent and its base is known.
    pub closed spec fn wf(&self) -> bool {
        &&& self@.wf()
        &&& self.journal_base_seq == self@.base_seq()
    }

    /// A consistent journal has a consistent model.
    pub proof fn lemma_wf(&self)
        requires
            self.wf(),
        ensures
            self@.wf(),
    {
    }

    /// An empty journal; the first event gets sequence number one.
    pub fn new(size: PtySize) -> (cache: Self)
        ensures
            cache.wf(),
            cache@ == (CacheModel { next_seq: 1, journal: Seq::empty(), size }),
    {
        let cache = SupervisorTerminalCache {
            next_terminal_seq: 1,
            journal_base_seq: 1,
            journal: VecDeque::new(),
            size,
        };
        assert(cache@.journal =~= Seq::<FrameModel>::empty());
        cache
    }

    fn allocate_terminal_seq(&mut self) -> (seq: u64)
        requires
            old(self).next_terminal_seq < u64::MAX,
        ensures
            seq == old(self).next_terminal_seq,
            *final(self) == (SupervisorTerminalCache {
                next_terminal_seq: (seq + 1) as u64,
                ..*old(self)
            }),
    {
        let seq: u64 = self.next_terminal_seq;
        self.next_terminal_seq = seq + 1;
        seq
    }

    fn push_journal(&mut self, event: TerminalEvent)
        requires
            old(self)@.next_seq >= 2,
            old(self)@.journal.len() + 1 < old(self)@.next_seq,
            old(self)@.journal.len() <= TERMINAL_JOURNAL_MAX_EVENTS,
            event@.seq() == Some((old(self)@.next_seq - 1) as u64),
            forall|i: int|
                0 <= i < old(self)@.journal.len() ==> (#[trigger] old(self)@.journal[i]).seq()
                    == Some((old(self)@.next_seq - 1 - old(self)@.journal.len() + i) as u64),
        ensures
            final(self).wf(),
            final(self)@ == (CacheModel {
                journal: journal_push(old(self)@.journal, event@),
                ..old(self)@
            }),
    {
        push_bounded(&mut self.journal, event);
        assert(self@.journal[0] == self.journal@[0]@);
        self.journal_base_seq = self.journal[0].terminal_seq();
    }

    /// Records output of the pseudo-terminal.
    pub fn record_output(&mut self, bytes: &[u8]) -> (frame: PtyTerminalFrame)
        requires
            old(self).wf(),
            old(self)@.next_seq < u64::MAX,
        ensures
            final(self).wf(),
            frame@ == (FrameModel::Output { terminal_seq: old(self)@.next_seq, data: bytes@ }),
            final(self)@ == old(self)@.record(frame@),
    {
        let seq: u64 = self.allocate_terminal_seq();
        let event = TerminalEvent::Output { seq, bytes: slice_to_vec(bytes) };
        let frame = event.to_terminal_frame();
        self.push_journal(event);
        frame
    }

    /// Records a change of the terminal size.
    pub fn resize(&mut self, size: PtySize) -> (frame: PtyTerminalFrame)
        requires
            old(self).wf(),
            old(self)@.next_seq < u64::MAX,
        ensures
            final(self).wf(),
            frame@ == (FrameModel::Resize { terminal_seq: old(self)@.next_seq, size }),
            final(self)@ == old(self)@.record(frame@),
    {
        self.size = size;
        let seq: u64 = self.allocate_terminal_seq();
        let event = TerminalEvent::Resize { seq, size };
        let frame = event.to_terminal_frame();
        self.push_journal(event);
        frame
    }

    /// Records that the process ended.
    pub fn record_exit(&mut self, code: Option<i32>) -> (frame: PtyTerminalFrame)
        requires
            old(self).wf(),
            old(self)@.next_seq < u64::MAX,
        ensures
            final(self).wf(),
            frame@ == (FrameModel::Exit { terminal_seq: old(self)@.next_seq, code }),
            final(self)@ == old(self)@.record(frame@),
    {
        let seq: u64 = self.allocate_terminal_seq();
        let event = TerminalEvent::Exit { seq, code };
        let frame = event.to_terminal_frame();
        self.push_journal(event);
        frame
    }

    /// The latest sequence number and the frames that bring a reader up to it.
    pub fn terminal_snapshot_or_tail(&self, last_terminal_seq: Option<u64>, snapshot: Vec<u8>) -> (res: (
        u64,
        Vec<PtyTerminalFrame>,
    ))
        requires
            self.wf(),
        ensures
            res.0 == self@.current_seq(),
            frame_models(res.1@) == self@.frames_for(last_terminal_seq, snapshot@),
    {
        let current: u64 = self.current_terminal_seq();
        (
            current,
            frames_for_reader(
                &self.journal,
                self.journal_base_seq,
                current,
                self.size,
                last_terminal_seq,
                snapshot,
            ),
        )
    }

    /// The sequence number of the latest event; zero before the first.
    pub fn current_terminal_seq(&self) -> (seq: u64)
        requires
            self.wf(),
        ensures
            seq == self@.current_seq(),
    {
        self.next_terminal_seq - 1
    }

    /// The sequence number that the next event will get.
    pub fn next_terminal_seq(&self) -> (seq: u64)
        ensures
            seq == self@.next_seq,
    {
        self.next_terminal_seq
    }

    /// The current terminal size.
    pub fn size(&self) -> (size: PtySize)
        ensures
            size == self@.size,
    {
        self.size
    }

    /// The number of events in the journal.
    pub fn journal_len(&self) -> (len: usize)
        ensures
            len == self@.journal.len(),
    {
        self.journal.len()
    }
}

// ---------------------------------------------------------------------------
// The daemon's mirror

/// The daemon's copy of a supervisor's journal.
///
/// It is not authoritative: a snapshot or tail from the supervisor sets it, live frames advance it.
pub struct SupervisorTerminalMirror {
    current_terminal_seq: u64,
    journal_base_seq: u64,
    journal: VecDeque<TerminalEvent>,
    size: PtySize,
}

/// The mathematical content of a [`SupervisorTerminalMirror`].
pub struct MirrorModel {
    pub current_seq: u64,
    pub base_seq: u64,
    pub journal: Seq<FrameModel>,
    pub size: PtySize,
}

/// The number after a sequence number, or the number itself where there is none.
pub open spec fn next_or_same(seq: u64) -> u64 {
    if seq < u64::MAX {
        (seq + 1) as u64
    } else {
        seq
    }
}

impl MirrorModel {
    /// Events are in increasing order and end at the current sequence number.
    pub open spec fn wf(self) -> bool {
        &&& self.journal.len() <= TERMINAL_JOURNAL_MAX_EVENTS
        &&& forall|i: int|
            0 <= i < self.journal.len() ==> (#[trigger] self.journal[i]).seq() is Some
        &&& forall|i: int, j: int|
            0 <= i < j < self.journal.len() ==> (#[trigger] self.journal[i]).seq()->0 < (
            #[trigger] self.journal[j]).seq()->0
        &&& self.journal.len() > 0 ==> {
            &&& self.journal.last().seq() == Some(self.current_seq)
            &&& self.journal[0].seq() == Some(self.base_seq)
        }
        &&& self.journal.len() == 0 ==> self.base_seq == next_or_same(self.current_seq)
    }

    /// The mirror restarts from a snapshot.
    pub open spec fn restart(self, size: PtySize, base_seq: u64) -> MirrorModel {
        MirrorModel {
            current_seq: base_seq,
            base_seq: next_or_same(base_seq),
            journal: Seq::empty(),
            size,
        }
    }

    /// The mirror takes a frame: a snapshot that is not older, a live event that is newer.
    pub open spec fn accepts(self, frame: FrameModel) -> bool {
        match frame {
            FrameModel::Snapshot { base_seq, .. } => base_seq >= self.current_seq,
            FrameModel::Output { terminal_seq, .. } => terminal_seq > self.current_seq,
            FrameModel::Resize { terminal_seq, .. } => terminal_seq > self.current_seq,
            FrameModel::Exit { terminal_seq, .. } => terminal_seq > self.current_seq,
        }
    }

    /// The mirror after a frame; a frame it does not take changes nothing.
    pub open spec fn apply(self, frame: FrameModel) -> MirrorModel {
        if !self.accepts(frame) {
            self
        } else {
            match frame {
                FrameModel::Snapshot { base_seq, size, .. } => self.restart(size, base_seq),
                _ => {
                    let journal = journal_push(self.journal, frame);
                    MirrorModel {
                        current_seq: frame.seq()->0,
                        base_seq: journal[0].seq()->0,
                        journal,
                        size: match frame {
                            FrameModel::Resize { size, .. } => size,
                            _ => self.size,
                        },
                    }
                },
            }
        }
    }

    /// The mirror after several frames.
    pub open spec fn apply_all(self, frames: Seq<FrameModel>) -> MirrorModel
        decreases frames.len(),
    {
        if frames.len() == 0 {
            self
        } else {
            self.apply_all(frames.drop_last()).apply(frames.last())
        }
    }

    /// What a reader is sent who has seen everything up to `last`.
    pub open spec fn frames_for(self, last: Option<u64>, snapshot: Seq<u8>) -> Seq<FrameModel> {
        attach_frames(self.journal, self.base_seq, self.current_seq, self.size, last, snapshot)
    }
}

impl View for SupervisorTerminalMirror {
    type V = MirrorModel;

    closed spec fn view(&self) -> MirrorModel {
        MirrorModel {
            current_seq: self.current_terminal_seq,
            base_seq: self.journal_base_seq,
            journal: event_models(self.journal@),
            size: self.size,
        }
    }
}

/// Which parts of a synchronisation a mirror took, and so which must reach the screen.
#[derive(Debug, PartialEq, Eq)]
pub struct MirrorSync {
    pub reset: bool,
    pub accepted: Vec<bool>,
}

impl SupervisorTerminalMirror {
    /// The mirror is consistent.
    pub open spec fn wf(&self) -> bool {
        self@.wf()
    }

    /// A mirror that has seen nothing yet.
    pub fn new(size: PtySize) -> (mirror: Self)
        ensures
            mirror.wf(),
            mirror@ == (MirrorModel { current_seq: 0, base_seq: 1, journal: Seq::empty(), size }),
    {
        let mirror = SupervisorTerminalMirror {
            current_terminal_seq: 0,
            journal_base_seq: 1,
            journal: VecDeque::new(),
            size,
        };
        assert(mirror@.journal =~= Seq::<FrameModel>::empty());
        mirror
    }

    /// Restarts from a snapshot unless the mirror has already seen more; tells whether it did.
    pub fn reset_from_snapshot(&mut self, size: PtySize, base_seq: u64) -> (reset: bool)
        requires
            old(self).wf(),
        ensures
            final(self).wf(),
            reset == (base_seq >= old(self)@.current_seq),
            final(self)@ == if reset {
                old(self)@.restart(size, base_seq)
            } else {
                old(self)@
            },
    {
        if base_seq < self.current_terminal_seq {
            return false;
        }
        self.current_terminal_seq = base_seq;
        self.journal_base_seq = base_seq.saturating_add(1);
        self.journal = VecDeque::new();
        self.size = size;
        assert(self@.journal =~= Seq::<FrameModel>::empty());
        true
    }

    /// Restarts from a snapshot and applies the frames after it.
    pub fn apply_snapshot_and_tail(
        &mut self,
        size: PtySize,
        base_seq: u64,
        frames: &[PtyTerminalFrame],
    ) -> (sync: MirrorSync)
        requires
            old(self).wf(),
        ensures
            final(self).wf(),
            sync.reset == (base_seq >= old(self)@.current_seq),
            sync.accepted@.len() == frames@.len(),
            ({
                let start = if sync.reset {
                    old(self)@.restart(size, base_seq)
                } else {
                    old(self)@
                };
                &&& final(self)@ == start.apply_all(frame_models(frames@))
                &&& forall|i: int|
                    0 <= i < frames@.len() ==> #[trigger] sync.accepted@[i] == start.apply_all(
                        frame_models(frames@).take(i),
                    ).accepts(frames@[i]@)
            }),
    {
        let reset = self.reset_from_snapshot(size, base_seq);
        let ghost start = self@;
        let mut accepted: Vec<bool> = Vec::new();
        let mut i: usize = 0;
        assert(frame_models(frames@).take(0) =~= Seq::<FrameModel>::empty());
        while i < frames.len()
            invariant
                i <= frames@.len(),
                self.wf(),
                self@ == start.apply_all(frame_models(frames@).take(i as int)),
                accepted@.len() == i,
                forall|k: int|
                    0 <= k < i ==> #[trigger] accepted@[k] == start.apply_all(
                        frame_models(frames@).take(k),
                    ).accepts(frames@[k]@),
            decreases frames@.len() - i,
        {
            let ghost part = frame_models(frames@).take(i + 1);
            assert(part.drop_last() =~= frame_models(frames@).take(i as int));
            assert(part.last() == frames@[i as int]@);
            let taken = self.apply_frame(&frames[i]);
            accepted.push(taken);
            i = i + 1;
        }
        assert(frame_models(frames@).take(i as int) =~= frame_models(frames@));
        MirrorSync { reset, accepted }
    }

    /// Applies one frame; tells whether the mirror took it.
    pub fn apply_frame(&mut self, frame: &PtyTerminalFrame) -> (taken: bool)
        requires
            old(self).wf(),
        ensures
            final(self).wf(),
            taken == old(self)@.accepts(frame@),
            final(self)@ == old(self)@.apply(frame@),
    {
        match frame {
            PtyTerminalFrame::Snapshot { base_seq, size, data: _ } => self.reset_from_snapshot(
                *size,
                *base_seq,
            ),
            PtyTerminalFrame::Output { terminal_seq, data } => {
                if *terminal_seq <= self.current_terminal_seq {
                    return false;
                }
                self.push_journal(
                    TerminalEvent::Output {
                        seq: *terminal_seq,
                        bytes: slice_to_vec(data.as_slice()),
                    },
                );
                true
            },
            PtyTerminalFrame::Resize { terminal_seq, size } => {
                if *terminal_seq <= self.current_terminal_seq {
                    return false;
                }
                self.push_journal(TerminalEvent::Resize { seq: *terminal_seq, size: *size });
                self.size = *size;
                true
            },
            PtyTerminalFrame::Exit { terminal_seq, code } => {
                if *terminal_seq <= self.current_terminal_seq {
                    return false;
                }
                self.push_journal(TerminalEvent::Exit { seq: *terminal_seq, code: *code });
                true
            },
        }
    }

    fn push_journal(&mut self, event: TerminalEvent)
        requires
            old(self).wf(),
            event@.seq() is Some,
            event@.seq()->0 > old(self)@.current_seq,
        ensures
            final(self).wf(),
            ({
                let journal = journal_push(old(self)@.journal, event@);
                final(self)@ == (MirrorModel {
                    current_seq: event@.seq()->0,
                    base_seq: journal[0].seq()->0,
                    journal,
                    size: old(self)@.size,
                })
            }),
    {
        let ghost grown = old(self)@.journal.push(event@);
        self.current_terminal_seq = event.terminal_seq();
        push_bounded(&mut self.journal, event);
        assert(self@.journal[0] == self.journal@[0]@);
        self.journal_base_seq = self.journal[0].terminal_seq();
        assert(self.wf()) by {
            assert(forall|i: int|
                0 <= i < grown.len() ==> (#[trigger] grown[i]).seq() is Some);
            assert(forall|i: int, j: int|
                0 <= i < j < grown.len() ==> (#[trigger] grown[i]).seq()->0 < (
                #[trigger] grown[j]).seq()->0) by {
                assert(old(self)@.journal.len() > 0 ==> old(self)@.journal.last()
                    == old(self)@.journal[old(self)@.journal.len() - 1]);
            }
            assert(self@.journal.last() == grown.last());
        }
    }

    /// The latest sequence number and the frames that bring a reader up to it.
    pub fn terminal_snapshot_or_tail(&self, last_terminal_seq: Option<u64>, snapshot: Vec<u8>) -> (res: (
        u64,
        Vec<PtyTerminalFrame>,
    ))
        requires
            self.wf(),
        ensures
            res.0 == self@.current_seq,
            frame_models(res.1@) == self@.frames_for(last_terminal_seq, snapshot@),
    {
        (
            self.current_terminal_seq,
            frames_for_reader(
                &self.journal,
                self.journal_base_seq,
                self.current_terminal_seq,
                self.size,
                last_terminal_seq,
                snapshot,
            ),
        )
    }

    /// The latest sequence number that the mirror has seen.
    pub fn current_terminal_seq(&self) -> (seq: u64)
        ensures
            seq == self@.current_seq,
    {
        self.current_terminal_seq
    }

    /// The terminal size that the mirror knows.
    pub fn size(&self) -> (size: PtySize)
        ensures
            size == self@.size,
    {
        self.size
    }
}

// ---------------------------------------------------------------------------
// Laws

proof fn lemma_events_after_contiguous(journal: Seq<FrameModel>, base: int, last: u64)
    requires
        base >= 0,
        base + journal.len() <= u64::MAX + 1,
        last + 1 >= base,
        last < base + journal.len(),
        forall|i: int|
            0 <= i < journal.len() ==> (#[trigger] journal[i]).seq() == Some((base + i) as u64),
    ensures
        events_after(journal, last) == journal.skip(last + 1 - base),
    decreases journal.len(),
{
    if journal.len() > 0 {
        let rest = journal.drop_last();
        if last < base + rest.len() {
            lemma_events_after_contiguous(rest, base, last);
            assert(journal.skip(last + 1 - base) =~= rest.skip(last + 1 - base).push(journal.last()));
        } else {
            lemma_events_after_none(rest, last);
            assert(journal.last().seq() == Some((base + rest.len()) as u64));
            assert(journal.skip(last + 1 - base) =~= Seq::<FrameModel>::empty());
        }
    } else {
        assert(journal.skip(last + 1 - base) =~= Seq::<FrameModel>::empty());
    }
}

proof fn lemma_events_after_none(journal: Seq<FrameModel>, last: u64)
    requires
        forall|i: int|
            0 <= i < journal.len() ==> match (#[trigger] journal[i]).seq() {
                Some(seq) => seq <= last,
                None => true,
            },
    ensures
        events_after(journal, last) == Seq::<FrameModel>::empty(),
    decreases journal.len(),
{
    if journal.len() > 0 {
        let rest = journal.drop_last();
        assert forall|i: int| 0 <= i < rest.len() implies match (#[trigger] rest[i]).seq() {
            Some(seq) => seq <= last,
            None => true,
        } by {
            assert(rest[i] == journal[i]);
        }
        lemma_events_after_none(rest, last);
        assert(journal.last() == journal[journal.len() - 1]);
    }
}

/// A recorded journal stays consistent, and the sequence number grows by one.
pub proof fn law_recording_keeps_the_journal_consistent(cache: CacheModel, event: FrameModel)
    requires
        cache.wf(),
        cache.next_seq < u64::MAX,
        event.seq() == Some(cache.next_seq),
    ensures
        cache.record(event).wf(),
        cache.record(event).current_seq() == cache.current_seq() + 1,
        cache.record(event).journal.last() == event,
{
}

/// A reader who is sent live events gets every event after the last one it has seen, in order and
/// without a gap, up to the latest.
pub proof fn law_tail_is_complete(cache: CacheModel, last: u64, snapshot: Seq<u8>)
    requires
        cache.wf(),
        last <= cache.current_seq(),
    ensures
        ({
            let frames = cache.frames_for(Some(last), snapshot);
            let whole = seq![
                FrameModel::Snapshot {
                    base_seq: cache.current_seq() as u64,
                    size: cache.size,
                    data: snapshot,
                },
            ];
            frames == whole || {
                &&& frames.len() == cache.current_seq() - last
                &&& forall|i: int|
                    0 <= i < frames.len() ==> (#[trigger] frames[i]).seq() == Some(
                        (last + 1 + i) as u64,
                    )
                &&& !has_resize(frames)
            }
        }),
{
    let base = cache.base_seq();
    if last < cache.current_seq() && last + 1 >= base {
        lemma_events_after_contiguous(cache.journal, base, last);
    }
}

/// Whatever a reader is sent, a mirror that stood at the reader's position ends up at the latest
/// sequence number, takes every frame, and knows the current size when it was sent a snapshot.
pub proof fn law_synchronised_mirror_is_current(
    cache: CacheModel,
    mirror: MirrorModel,
    snapshot: Seq<u8>,
)
    requires
        cache.wf(),
        mirror.wf(),
        mirror.current_seq <= cache.current_seq(),
    ensures
        ({
            let frames = cache.frames_for(Some(mirror.current_seq), snapshot);
            &&& mirror.apply_all(frames).current_seq == cache.current_seq()
            &&& forall|i: int|
                0 <= i < frames.len() ==> mirror.apply_all(frames.take(i)).accepts(
                    #[trigger] frames[i],
                )
            &&& (frames.len() == 1 && frames[0] is Snapshot) ==> mirror.apply_all(frames).size
                == cache.size
            &&& !(frames.len() == 1 && frames[0] is Snapshot) ==> mirror.apply_all(frames).size
                == mirror.size
        }),
{
    let last = mirror.current_seq;
    let frames = cache.frames_for(Some(last), snapshot);
    law_tail_is_complete(cache, last, snapshot);
    if frames.len() == 1 && frames[0] is Snapshot {
        assert(frames.drop_last() =~= Seq::<FrameModel>::empty());
        assert(frames.take(0) =~= Seq::<FrameModel>::empty());
        assert(frames.last() == frames[0]);
        reveal_with_fuel(MirrorModel::apply_all, 2);
    } else {
        lemma_apply_contiguous(mirror, frames, frames.len() as int);
        assert(frames.take(frames.len() as int) =~= frames);
        assert forall|i: int| 0 <= i < frames.len() implies mirror.apply_all(frames.take(i)).accepts(
            #[trigger] frames[i],
        ) by {
            lemma_apply_contiguous(mirror, frames, i);
        }
    }
}

proof fn lemma_apply_contiguous(mirror: MirrorModel, frames: Seq<FrameModel>, n: int)
    requires
        0 <= n <= frames.len(),
        mirror.current_seq + frames.len() <= u64::MAX,
        forall|i: int|
            0 <= i < frames.len() ==> (#[trigger] frames[i]).seq() == Some(
                (mirror.current_seq + 1 + i) as u64,
            ),
        !has_resize(frames),
    ensures
        mirror.apply_all(frames.take(n)).current_seq == mirror.current_seq + n,
        mirror.apply_all(frames.take(n)).size == mirror.size,
    decreases n,
{
    if n > 0 {
        lemma_apply_contiguous(mirror, frames, n - 1);
        let part = frames.take(n);
        assert(part.drop_last() =~= frames.take(n - 1));
        assert(part.last() == frames[n - 1]);
        assert(!(frames[n - 1] is Resize));
    }
}

/// A mirror never goes back: no frame lowers its sequence number, and a frame that it does not take
/// leaves it as it was.
pub proof fn law_mirror_never_goes_back(mirror: MirrorModel, frame: FrameModel)
    requires
        mirror.wf(),
    ensures
        mirror.apply(frame).current_seq >= mirror.current_seq,
        !mirror.accepts(frame) ==> mirror.apply(frame) == mirror,
        mirror.apply(frame).wf(),
{
    if mirror.accepts(frame) && !(frame is Snapshot) {
        let grown = mirror.journal.push(frame);
        assert(mirror.journal.len() > 0 ==> mirror.journal.last() == mirror.journal[mirror.journal.len()
            - 1]);
        let after = mirror.apply(frame);
        assert(after.journal.last() == grown.last());
    }
}

/// What a reader is sent live never costs more than the larger of the fixed bound and twice the
/// snapshot it replaces.
pub proof fn law_tail_cost_is_bounded(cache: CacheModel, last: u64, snapshot: Seq<u8>)
    requires
        cache.wf(),
    ensures
        ({
            let frames = cache.frames_for(Some(last), snapshot);
            (frames.len() == 1 && frames[0] is Snapshot) || tail_cost(frames)
                <= TERMINAL_ATTACH_TAIL_MAX_BYTES || tail_cost(frames) <= 2 * snapshot.len()
        }),
{
}

/// A mirror holds what a journal holds.
pub open spec fn mirrors(mirror: MirrorModel, cache: CacheModel) -> bool {
    &&& mirror.current_seq == cache.current_seq()
    &&& mirror.base_seq == cache.base_seq()
    &&& mirror.journal == cache.journal
    &&& mirror.size == cache.size
}

/// A mirror that is fed every event of a journal answers every reader as the journal does.
pub proof fn law_fed_mirror_answers_as_the_journal(
    mirror: MirrorModel,
    cache: CacheModel,
    event: FrameModel,
    last: Option<u64>,
    snapshot: Seq<u8>,
)
    requires
        cache.wf(),
        cache.next_seq < u64::MAX,
        mirrors(mirror, cache),
        event.seq() == Some(cache.next_seq),
    ensures
        mirror.frames_for(last, snapshot) == cache.frames_for(last, snapshot),
        mirrors(mirror.apply(event), cache.record(event)),
        mirror.apply(event).frames_for(last, snapshot) == cache.record(event).frames_for(
            last,
            snapshot,
        ),
{
    law_recording_keeps_the_journal_consistent(cache, event);
    let recorded = cache.record(event);
    assert(recorded.journal.len() > 0);
    assert(recorded.journal[0].seq() == Some(recorded.base_seq() as u64));
}

} // verus!
