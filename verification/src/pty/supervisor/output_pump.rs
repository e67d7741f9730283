//! The pump that moves pseudo-terminal output into the journal in bounded batches.

use crate::pty::supervisor::screen::{fed, ScreenEmulator};
use crate::pty::supervisor::state::{StateModel, SupervisorState};
use crate::pty::{FrameModel, PtyExitStatus};
use vstd::prelude::*;

verus! {

/// The size of a read, and of the largest batch.
pub const SUPERVISOR_OUTPUT_PUMP_CHUNK_BYTES: usize = 65536;

/// How many reads one turn makes.
pub const SUPERVISOR_OUTPUT_PUMP_MAX_CHUNKS_PER_TICK: usize = 64;

/// How many bytes one turn moves.
pub const SUPERVISOR_OUTPUT_PUMP_MAX_BYTES_PER_TICK: usize = 4194304;

/// One turn of the pump.
pub struct SupervisorOutputPump {
    chunks: usize,
    bytes: usize,
    batch: Vec<u8>,
}

/// The mathematical content of a [`SupervisorOutputPump`].
pub struct PumpModel {
    pub chunks: nat,
    pub bytes: nat,
    pub batch: Seq<u8>,
}

impl View for SupervisorOutputPump {
    type V = PumpModel;

    closed spec fn view(&self) -> PumpModel {
        PumpModel { chunks: self.chunks as nat, bytes: self.bytes as nat, batch: self.batch@ }
    }
}

impl PumpModel {
    /// The turn has used its share, and others must get a chance.
    pub open spec fn exhausted(self) -> bool {
        ||| self.chunks >= SUPERVISOR_OUTPUT_PUMP_MAX_CHUNKS_PER_TICK
        ||| self.bytes >= SUPERVISOR_OUTPUT_PUMP_MAX_BYTES_PER_TICK
    }

    /// A turn that can still read.
    pub open spec fn wf(self) -> bool {
        &&& self.chunks <= SUPERVISOR_OUTPUT_PUMP_MAX_CHUNKS_PER_TICK
        &&& self.bytes <= self.chunks * SUPERVISOR_OUTPUT_PUMP_CHUNK_BYTES
        &&& self.batch.len() < SUPERVISOR_OUTPUT_PUMP_CHUNK_BYTES
    }

    /// The batches that a read completes, and what stays in the batch after it.
    ///
    /// A read that does not fit any more goes into a new batch; a full batch goes out at once.
    pub open spec fn after_read(self, data: Seq<u8>) -> (Seq<Seq<u8>>, Seq<u8>) {
        let (first, rest) = if self.batch.len() + data.len() > SUPERVISOR_OUTPUT_PUMP_CHUNK_BYTES {
            (non_empty(self.batch), data)
        } else {
            (Seq::<Seq<u8>>::empty(), self.batch + data)
        };
        if rest.len() >= SUPERVISOR_OUTPUT_PUMP_CHUNK_BYTES {
            (first + non_empty(rest), Seq::empty())
        } else {
            (first, rest)
        }
    }
}

/// One batch, or none where there is nothing in it.
pub open spec fn non_empty(batch: Seq<u8>) -> Seq<Seq<u8>> {
    if batch.len() == 0 {
        Seq::empty()
    } else {
        seq![batch]
    }
}

/// The contents of a sequence of batches.
pub open spec fn batch_views(batches: Seq<Vec<u8>>) -> Seq<Seq<u8>> {
    Seq::new(batches.len(), |i: int| batches[i]@)
}

fn push_non_empty(batches: &mut Vec<Vec<u8>>, batch: Vec<u8>)
    requires
        old(batches)@.len() < 2,
    ensures
        batch_views(final(batches)@) == batch_views(old(batches)@) + non_empty(batch@),
        final(batches)@.len() <= old(batches)@.len() + 1,
{
    let ghost model = batch@;
    if batch.len() > 0 {
        batches.push(batch);
        assert(batch_views(batches@) =~= batch_views(old(batches)@) + seq![model]);
    } else {
        assert(batch_views(batches@) =~= batch_views(old(batches)@) + Seq::<Seq<u8>>::empty());
    }
}

impl SupervisorOutputPump {
    /// The turn is within its share.
    pub open spec fn wf(&self) -> bool {
        self@.wf()
    }

    /// A new turn.
    pub fn new() -> (pump: Self)
        ensures
            pump.wf(),
            pump@ == (PumpModel { chunks: 0, bytes: 0, batch: Seq::empty() }),
    {
        SupervisorOutputPump { chunks: 0, bytes: 0, batch: Vec::new() }
    }

    /// Whether the turn must end before the next read.
    pub fn exhausted(&self) -> (exhausted: bool)
        ensures
            exhausted == self@.exhausted(),
    {
        self.chunks >= SUPERVISOR_OUTPUT_PUMP_MAX_CHUNKS_PER_TICK || self.bytes
            >= SUPERVISOR_OUTPUT_PUMP_MAX_BYTES_PER_TICK
    }

    /// Takes what a read has returned, and hands out the batches that it completes.
    pub fn on_read(&mut self, data: Vec<u8>) -> (batches: Vec<Vec<u8>>)
        requires
            old(self).wf(),
            !old(self)@.exhausted(),
            data@.len() <= SUPERVISOR_OUTPUT_PUMP_CHUNK_BYTES,
        ensures
            final(self).wf(),
            (batch_views(batches@), final(self)@.batch) == old(self)@.after_read(data@),
            final(self)@.chunks == old(self)@.chunks + 1,
            final(self)@.bytes == old(self)@.bytes + data@.len(),
    {
        let mut batches: Vec<Vec<u8>> = Vec::new();
        assert(batch_views(batches@) =~= Seq::<Seq<u8>>::empty());
        self.chunks = self.chunks + 1;
        self.bytes = self.bytes + data.len();
        let mut data = data;
        if self.batch.len() + data.len() > SUPERVISOR_OUTPUT_PUMP_CHUNK_BYTES {
            let full = self.take_batch();
            push_non_empty(&mut batches, full);
            assert(batch_views(batches@) =~= non_empty(old(self)@.batch));
        }
        let ghost kept = self.batch@;
        let ghost read = data@;
        self.batch.append(&mut data);
        assert(kept.len() == 0 ==> kept + read =~= read);
        if self.batch.len() >= SUPERVISOR_OUTPUT_PUMP_CHUNK_BYTES {
            let ghost before = batch_views(batches@);
            let full = self.take_batch();
            push_non_empty(&mut batches, full);
            assert(batch_views(batches@) =~= before + non_empty(kept + read));
        }
        batches
    }

    fn take_batch(&mut self) -> (batch: Vec<u8>)
        ensures
            batch@ == old(self)@.batch,
            final(self)@ == (PumpModel { batch: Seq::empty(), ..old(self)@ }),
    {
        let mut batch: Vec<u8> = Vec::new();
        std::mem::swap(&mut batch, &mut self.batch);
        batch
    }

    /// The turn ends: what is left goes out as a last batch.
    pub fn finish(self) -> (batches: Vec<Vec<u8>>)
        ensures
            batch_views(batches@) == non_empty(self@.batch),
    {
        let mut batches: Vec<Vec<u8>> = Vec::new();
        push_non_empty(&mut batches, self.batch);
        assert(batch_views(batches@) =~= non_empty(self@.batch));
        batches
    }
}

/// Shows a batch of output on the screen, journals it and sends it to everybody. An empty batch does
/// nothing.
pub fn publish_supervisor_output_batch<S: ScreenEmulator>(
    state: &mut SupervisorState,
    screen: S,
    batch: &[u8],
) -> (after: S)
    requires
        old(state).wf(),
        old(state)@.terminal.next_seq < u64::MAX,
    ensures
        final(state).wf(),
        final(state)@ == published(old(state)@, batch@),
        if batch@.len() == 0 {
            after == screen
        } else {
            fed(screen, batch@, after)
        },
{
    if batch.len() == 0 {
        return screen;
    }
    let after = screen.feed(batch);
    let frame = state.record_output(batch);
    state.broadcast_terminal_frame(&frame);
    after
}

/// The shared state once a batch of output has been journalled and sent.
pub open spec fn published(state: StateModel, batch: Seq<u8>) -> StateModel {
    if batch.len() == 0 {
        state
    } else {
        let frame = FrameModel::Output { terminal_seq: state.terminal.next_seq, data: batch };
        StateModel { terminal: state.terminal.record(frame), ..state }.broadcast(frame)
    }
}

/// The exit code that viewers are told: none where a signal ended the process.
pub open spec fn reported_code(status: PtyExitStatus) -> Option<i32> {
    if status.signal is None {
        Some(status.exit_code as i32)
    } else {
        None
    }
}

/// The process has ended: the session is marked so, and everybody is told.
pub fn publish_exit(state: &mut SupervisorState, status: &PtyExitStatus)
    requires
        old(state).wf(),
        old(state)@.terminal.next_seq < u64::MAX,
    ensures
        final(state).wf(),
        ({
            let frame = FrameModel::Exit {
                terminal_seq: old(state)@.terminal.next_seq,
                code: reported_code(*status),
            };
            final(state)@ == (StateModel {
                exited: true,
                terminal: old(state)@.terminal.record(frame),
                ..old(state)@
            }).broadcast(frame)
        }),
{
    let code: Option<i32> = if status.signal.is_none() {
        Some(#[verifier::truncate] (status.exit_code as i32))
    } else {
        None
    };
    let frame = state.record_exit(code);
    state.broadcast_terminal_frame(&frame);
}

/// The bytes of all batches, one after another.
pub open spec fn joined(batches: Seq<Seq<u8>>) -> Seq<u8>
    decreases batches.len(),
{
    if batches.len() == 0 {
        Seq::empty()
    } else {
        joined(batches.drop_last()) + batches.last()
    }
}

/// The pump neither loses nor reorders a byte, and no batch is larger than a read.
pub proof fn law_pump_keeps_every_byte(pump: PumpModel, data: Seq<u8>)
    requires
        pump.wf(),
        data.len() <= SUPERVISOR_OUTPUT_PUMP_CHUNK_BYTES,
    ensures
        joined(pump.after_read(data).0) + pump.after_read(data).1 == pump.batch + data,
        forall|i: int|
            0 <= i < pump.after_read(data).0.len() ==> 0 < (#[trigger] pump.after_read(
                data,
            ).0[i]).len() <= SUPERVISOR_OUTPUT_PUMP_CHUNK_BYTES,
{
    reveal_with_fuel(joined, 3);
    let (batches, rest) = pump.after_read(data);
    assert(joined(Seq::<Seq<u8>>::empty()) =~= Seq::<u8>::empty());
    if batches.len() == 1 {
        assert(batches.drop_last() =~= Seq::<Seq<u8>>::empty());
        assert(joined(batches) =~= batches[0]);
    }
    if batches.len() == 2 {
        assert(batches.drop_last().drop_last() =~= Seq::<Seq<u8>>::empty());
        assert(joined(batches) =~= batches[0] + batches[1]);
    }
    assert(joined(batches) + rest =~= pump.batch + data);
}

} // verus!
