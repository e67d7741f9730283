//! The daemon's side of a terminal: what arrives is kept in order, once, and read as it came.

use crate::laws::frames::{frame_weight, number_of, weight};
use crate::laws::state::lemma_total;
use crate::pty::supervisor::daemon_terminal::{
    chunk_total, chunk_views, clipped, enqueue_daemon_legacy_output, first_bytes, in_order, inserted,
    live_after, room_made, seq_or_zero, without_repeats, DaemonModel, DaemonTerminal, LiveFrameOutcome,
    QueueEnd, SeedPlan,
};
use crate::pty::supervisor::output_pump::{
    batch_views, joined, publish_exit, publish_supervisor_output_batch, SupervisorOutputPump,
};
use crate::pty::supervisor::protocol::{ControllerIdentity, SupervisorAttachSyncPayload};
use crate::pty::supervisor::screen::{fed, redrawn, show_frame, shown, ScreenEmulator};
use crate::pty::supervisor::state::SupervisorState;
use crate::pty::{frame_models, FrameModel, PtyExitStatus, PtySize, PtyTerminalFrame};
use std::collections::VecDeque;
use vstd::prelude::*;

verus! {

/// Frames that wait leave room for one more: at most 128 of them and 8 MiB.
pub open spec fn room_for(waiting: Seq<FrameModel>, frame: FrameModel) -> bool {
    waiting.len() < 128 && weight(waiting) + frame_weight(frame) <= 8388608
}

/// A frame is news to a terminal that has seen everything up to a number.
pub open spec fn is_news(frame: FrameModel, upto: u64) -> bool {
    match frame {
        FrameModel::Snapshot { base_seq, .. } => base_seq >= upto,
        event => number_of(event) > upto,
    }
}

/// How far a frame brings whoever sees it.
pub open spec fn reaches(frame: FrameModel) -> int {
    match frame {
        FrameModel::Snapshot { base_seq, .. } => base_seq as int,
        event => number_of(event),
    }
}

/// What concerns the session itself is the same.
pub open spec fn same_session(before: DaemonModel, after: DaemonModel) -> bool {
    &&& after.controller == before.controller
    &&& after.size == before.size
    &&& after.process_id == before.process_id
}

/// A new terminal has nothing to read, has seen nothing, and holds live frames back until it is seeded.
pub proof fn law_new_terminal_waits_for_its_seed(size: PtySize, terminal: DaemonTerminal)
    requires
        call_ensures(DaemonTerminal::new, (size,), terminal),
    ensures
        terminal@.size == size,
        terminal@.mirror.size == size,
        terminal@.mirror.current_seq == 0,
        terminal@.mirror.journal.len() == 0,
        terminal@.pending_output.len() == 0,
        terminal@.pending_frames.len() == 0,
        terminal@.bootstrap is Some,
        terminal@.bootstrap->0.len() == 0,
        terminal@.controller is None,
        terminal@.process_id is None,
        !terminal@.exited,
{
}

/// A live frame that is news is published: it waits behind the others, or a screen takes the place of all
/// of them if there is no room. One that is old changes nothing. An exit is noticed in any case.
pub proof fn law_live_frame_is_published(
    terminal: &mut DaemonTerminal,
    frame: PtyTerminalFrame,
    screen: Vec<u8>,
    outcome: LiveFrameOutcome,
)
    requires
        call_ensures(DaemonTerminal::on_live_frame, (terminal, frame, screen), outcome),
        old(terminal)@.bootstrap is None,
    ensures
        final(terminal)@.exited == (old(terminal)@.exited || frame@ is Exit),
        same_session(old(terminal)@, final(terminal)@),
        final(terminal)@.bootstrap is None,
        final(terminal)@.pending_output == old(terminal)@.pending_output,
        outcome is Published <==> is_news(frame@, old(terminal)@.mirror.current_seq),
        outcome is Stale <==> !is_news(frame@, old(terminal)@.mirror.current_seq),
        outcome is Stale ==> final(terminal)@.pending_frames == old(terminal)@.pending_frames
            && final(terminal)@.mirror == old(terminal)@.mirror && final(terminal)@.output_signal == old(
            terminal,
        )@.output_signal,
        outcome is Published ==> {
            let waiting = old(terminal)@.pending_frames;
            &&& final(terminal)@.mirror.current_seq == reaches(frame@)
            &&& final(terminal)@.output_signal != old(terminal)@.output_signal
            &&& room_for(waiting, frame@) ==> final(terminal)@.pending_frames == waiting.push(frame@)
            &&& !room_for(waiting, frame@) && screen@.len() <= 8388608
                ==> final(terminal)@.pending_frames == seq![
                FrameModel::Snapshot {
                    base_seq: final(terminal)@.mirror.current_seq,
                    size: final(terminal)@.mirror.size,
                    data: screen@,
                },
            ]
            &&& !room_for(waiting, frame@) && screen@.len() > 8388608
                ==> final(terminal)@.pending_frames.len() == 0
        },
{
    lemma_total(old(terminal)@.pending_frames);
}

/// While the terminal waits for its seed, a live frame is held back behind the others; without room for it
/// the seed has to be asked for again.
pub proof fn law_live_frame_is_held_back(
    terminal: &mut DaemonTerminal,
    frame: PtyTerminalFrame,
    screen: Vec<u8>,
    outcome: LiveFrameOutcome,
)
    requires
        call_ensures(DaemonTerminal::on_live_frame, (terminal, frame, screen), outcome),
        old(terminal)@.bootstrap is Some,
    ensures
        final(terminal)@.exited == (old(terminal)@.exited || frame@ is Exit),
        same_session(old(terminal)@, final(terminal)@),
        final(terminal)@.mirror == old(terminal)@.mirror,
        final(terminal)@.pending_frames == old(terminal)@.pending_frames,
        final(terminal)@.pending_output == old(terminal)@.pending_output,
        final(terminal)@.output_signal == old(terminal)@.output_signal,
        final(terminal)@.bootstrap is Some,
        outcome is HeldBack <==> room_for(old(terminal)@.bootstrap->0, frame@),
        outcome is HeldBack ==> final(terminal)@.bootstrap->0 == old(terminal)@.bootstrap->0.push(
            frame@,
        ),
        outcome is Overflow <==> !room_for(old(terminal)@.bootstrap->0, frame@),
        outcome is Overflow ==> final(terminal)@.bootstrap->0.len() == 0,
{
    lemma_total(old(terminal)@.bootstrap->0);
}

/// The same with a screen that is kept up to date: it is left alone unless the frame is published.
pub proof fn law_received_frame_is_kept<S: ScreenEmulator>(
    terminal: &mut DaemonTerminal,
    screen: S,
    frame: PtyTerminalFrame,
    res: (S, LiveFrameOutcome),
)
    requires
        call_ensures(DaemonTerminal::receive_live_frame::<S>, (terminal, screen, frame), res),
    ensures
        final(terminal)@.exited == (old(terminal)@.exited || frame@ is Exit),
        same_session(old(terminal)@, final(terminal)@),
        final(terminal)@.pending_output == old(terminal)@.pending_output,
        !(res.1 is Published) ==> res.0 == screen,
        old(terminal)@.bootstrap is Some ==> {
            &&& res.1 is HeldBack <==> room_for(old(terminal)@.bootstrap->0, frame@)
            &&& res.1 is HeldBack ==> final(terminal)@.bootstrap == Some(
                old(terminal)@.bootstrap->0.push(frame@),
            )
            &&& final(terminal)@.pending_frames == old(terminal)@.pending_frames
        },
        old(terminal)@.bootstrap is None ==> {
            &&& res.1 is Published <==> is_news(frame@, old(terminal)@.mirror.current_seq)
            &&& res.1 is Published ==> final(terminal)@.mirror.current_seq == reaches(frame@)
            &&& res.1 is Published && room_for(old(terminal)@.pending_frames, frame@)
                ==> final(terminal)@.pending_frames == old(terminal)@.pending_frames.push(frame@)
            &&& res.1 is Stale ==> final(terminal)@.pending_frames == old(terminal)@.pending_frames
        },
{
    lemma_total(old(terminal)@.pending_frames);
    if old(terminal)@.bootstrap is Some {
        lemma_total(old(terminal)@.bootstrap->0);
    }
}

// ---------------------------------------------------------------------------
// Seeding

proof fn lemma_inserted(frames: Seq<FrameModel>, frame: FrameModel, x: FrameModel)
    ensures
        inserted(frames, frame).contains(x) <==> frames.contains(x) || x == frame,
    decreases frames.len(),
{
    let after = inserted(frames, frame);
    if frames.len() == 0 || seq_or_zero(frames.last()) <= seq_or_zero(frame) {
        assert(after[frames.len() as int] == frame);
        if frames.contains(x) {
            let i = choose|i: int| 0 <= i < frames.len() && frames[i] == x;
            assert(after[i] == x);
        }
    } else {
        let rest = frames.drop_last();
        lemma_inserted(rest, frame, x);
        let inner = inserted(rest, frame);
        assert(after == inner.push(frames.last()));
        assert(after[inner.len() as int] == frames.last());
        if frames.contains(x) {
            let i = choose|i: int| 0 <= i < frames.len() && frames[i] == x;
            if i < rest.len() {
                assert(rest[i] == x);
            }
        }
        if inner.contains(x) {
            let i = choose|i: int| 0 <= i < inner.len() && inner[i] == x;
            assert(after[i] == x);
        }
        if rest.contains(x) {
            let i = choose|i: int| 0 <= i < rest.len() && rest[i] == x;
            assert(frames[i] == x);
        }
        if after.contains(x) {
            let i = choose|i: int| 0 <= i < after.len() && after[i] == x;
            if i < inner.len() {
                assert(inner[i] == x);
            } else {
                assert(frames[frames.len() - 1] == x);
            }
        }
    }
}

proof fn lemma_in_order(frames: Seq<FrameModel>, x: FrameModel)
    ensures
        in_order(frames).contains(x) <==> frames.contains(x),
    decreases frames.len(),
{
    if frames.len() > 0 {
        let rest = frames.drop_last();
        lemma_in_order(rest, x);
        lemma_inserted(in_order(rest), frames.last(), x);
        if frames.contains(x) {
            let i = choose|i: int| 0 <= i < frames.len() && frames[i] == x;
            if i < rest.len() {
                assert(rest[i] == x);
            }
        }
        if rest.contains(x) {
            let i = choose|i: int| 0 <= i < rest.len() && rest[i] == x;
            assert(frames[i] == x);
        }
        assert(frames[frames.len() - 1] == frames.last());
    }
}

proof fn lemma_without_repeats(frames: Seq<FrameModel>, x: FrameModel)
    ensures
        without_repeats(frames).contains(x) ==> frames.contains(x),
        frames.contains(x) ==> exists|k: int|
            0 <= k < without_repeats(frames).len() && (#[trigger] without_repeats(frames)[k]).seq()
                == x.seq(),
    decreases frames.len(),
{
    if frames.len() > 0 {
        let rest = frames.drop_last();
        let kept = without_repeats(rest);
        let all = without_repeats(frames);
        lemma_without_repeats(rest, x);
        if all.contains(x) {
            let i = choose|i: int| 0 <= i < all.len() && all[i] == x;
            if i < kept.len() {
                assert(kept[i] == x);
                assert(rest.contains(x));
                let k = choose|k: int| 0 <= k < rest.len() && rest[k] == x;
                assert(frames[k] == x);
            } else {
                assert(frames[frames.len() - 1] == x);
            }
        }
        if frames.contains(x) {
            let i = choose|i: int| 0 <= i < frames.len() && frames[i] == x;
            if i < rest.len() {
                assert(rest[i] == x);
                let k = choose|k: int|
                    0 <= k < kept.len() && (#[trigger] kept[k]).seq() == x.seq();
                assert(all[k] == kept[k]);
            } else {
                assert(all[all.len() - 1].seq() == x.seq());
            }
        }
    }
}

proof fn lemma_live_after(frames: Seq<FrameModel>, base_seq: u64, x: FrameModel)
    ensures
        live_after(frames, base_seq).contains(x) <==> frames.contains(x) && !(x is Snapshot)
            && number_of(x) > base_seq,
    decreases frames.len(),
{
    if frames.len() > 0 {
        let rest = frames.drop_last();
        let kept = live_after(rest, base_seq);
        let all = live_after(frames, base_seq);
        lemma_live_after(rest, base_seq, x);
        if frames.contains(x) {
            let i = choose|i: int| 0 <= i < frames.len() && frames[i] == x;
            if i < rest.len() {
                assert(rest[i] == x);
            } else if !(x is Snapshot) && number_of(x) > base_seq {
                assert(all[all.len() - 1] == x);
            }
        }
        if kept.contains(x) {
            let i = choose|i: int| 0 <= i < kept.len() && kept[i] == x;
            assert(all[i] == x);
        }
        if all.contains(x) {
            let i = choose|i: int| 0 <= i < all.len() && all[i] == x;
            if i < kept.len() {
                assert(kept[i] == x);
            } else {
                assert(frames[frames.len() - 1] == x);
            }
        }
        if rest.contains(x) {
            let i = choose|i: int| 0 <= i < rest.len() && rest[i] == x;
            assert(frames[i] == x);
        }
    }
}

/// A frame waits to be replayed: it was held back, or it was published and is newer than the seed.
pub open spec fn waits(daemon: DaemonModel, base_seq: u64, frame: FrameModel) -> bool {
    ||| daemon.bootstrap is Some && daemon.bootstrap->0.contains(frame)
    ||| daemon.pending_frames.contains(frame) && !(frame is Snapshot) && number_of(frame) > base_seq
}

/// A seed says who controls the session and how it is. What it carries is shown first, and then whatever
/// waits: of every number one, and nothing else.
pub proof fn law_seed_comes_before_what_waits(
    terminal: &mut DaemonTerminal,
    sync: SupervisorAttachSyncPayload,
    plan: SeedPlan,
    x: FrameModel,
    i: int,
)
    requires
        call_ensures(DaemonTerminal::begin_seed, (terminal, sync), plan),
    ensures
        final(terminal)@.controller == Some(
            ControllerIdentity {
                id: sync.controller_id,
                connection_id: sync.controller_connection_id,
            },
        ),
        final(terminal)@.size == sync.snapshot.size,
        final(terminal)@.process_id == sync.snapshot.process_id,
        final(terminal)@.exited == sync.snapshot.exited,
        final(terminal)@.pending_frames.len() == 0,
        final(terminal)@.pending_output == old(terminal)@.pending_output,
        plan.retained_output@ == sync.snapshot.retained_output@,
        plan.restart_screen <==> sync.frames@.len() == 0 && sync.snapshot.retained_output@.len() > 0
            && sync.base_seq >= old(terminal)@.mirror.current_seq,
        plan.restart_screen ==> final(terminal)@.mirror.current_seq == sync.base_seq
            && final(terminal)@.mirror.size == sync.snapshot.size,
        !plan.restart_screen ==> final(terminal)@.mirror == old(terminal)@.mirror,
        plan.frames@.len() >= sync.frames@.len(),
        0 <= i < sync.frames@.len() ==> plan.frames@[i]@ == sync.frames@[i]@,
        sync.frames@.len() <= i < plan.frames@.len() ==> waits(
            old(terminal)@,
            sync.base_seq,
            plan.frames@[i]@,
        ),
        waits(old(terminal)@, sync.base_seq, x) ==> exists|k: int|
            sync.frames@.len() <= k < plan.frames@.len() && (#[trigger] plan.frames@[k])@.seq()
                == x.seq(),
{
    let daemon = old(terminal)@;
    let held = match daemon.bootstrap {
        Some(frames) => frames,
        None => Seq::empty(),
    };
    let live = live_after(daemon.pending_frames, sync.base_seq);
    let all = live + held;
    let replay = daemon.live_to_replay(sync.base_seq);
    let n = sync.frames@.len() as int;
    assert(replay == without_repeats(in_order(all)));
    let models = frame_models(plan.frames@);
    assert(models == frame_models(sync.frames@) + replay);
    assert(models.len() == plan.frames@.len());
    assert(frame_models(sync.frames@).len() == n);
    assert(forall|k: int| 0 <= k < models.len() ==> models[k] == #[trigger] plan.frames@[k]@);
    if 0 <= i < n {
        assert(models[i] == frame_models(sync.frames@)[i]);
    }
    if n <= i < plan.frames@.len() {
        let y = plan.frames@[i]@;
        assert(models[i] == replay[i - n]);
        assert(replay.contains(y));
        lemma_without_repeats(in_order(all), y);
        lemma_in_order(all, y);
        let k = choose|k: int| 0 <= k < all.len() && all[k] == y;
        if k < live.len() {
            assert(live[k] == y);
            lemma_live_after(daemon.pending_frames, sync.base_seq, y);
        } else {
            assert(held[k - live.len()] == y);
        }
    }
    if waits(daemon, sync.base_seq, x) {
        lemma_live_after(daemon.pending_frames, sync.base_seq, x);
        if live.contains(x) {
            let k = choose|k: int| 0 <= k < live.len() && live[k] == x;
            assert(all[k] == x);
        } else {
            let k = choose|k: int| 0 <= k < held.len() && held[k] == x;
            assert(all[live.len() + k] == x);
        }
        assert(all.contains(x));
        lemma_in_order(all, x);
        lemma_without_repeats(in_order(all), x);
        let k = choose|k: int| 0 <= k < replay.len() && (#[trigger] replay[k]).seq() == x.seq();
        assert(models[n + k] == replay[k]);
        assert(plan.frames@[n + k]@.seq() == x.seq());
    }
}

/// After its seed a terminal holds nothing back. Output that came with the seed can be read behind what
/// waits, and whoever reads is woken if there is something new.
pub proof fn law_seeded_terminal_is_open(terminal: &mut DaemonTerminal, published: bool, output: Vec<u8>)
    requires
        call_ensures(DaemonTerminal::finish_seed, (terminal, published, output), ()),
    ensures
        final(terminal)@.bootstrap is None,
        final(terminal)@.mirror == old(terminal)@.mirror,
        final(terminal)@.pending_frames == old(terminal)@.pending_frames,
        final(terminal)@.exited == old(terminal)@.exited,
        same_session(old(terminal)@, final(terminal)@),
        output@.len() == 0 ==> final(terminal)@.pending_output == old(terminal)@.pending_output,
        0 < output@.len() <= 8388608 ==> final(terminal)@.pending_output.len() > 0
            && final(terminal)@.pending_output.last() == output@,
        published != (output@.len() > 0) ==> final(terminal)@.output_signal != old(
            terminal,
        )@.output_signal,
        !published && output@.len() == 0 ==> final(terminal)@.output_signal == old(
            terminal,
        )@.output_signal,
{
}

/// Holding back begins with nothing.
pub proof fn law_holding_back_begins_empty(terminal: &mut DaemonTerminal)
    requires
        call_ensures(DaemonTerminal::hold_back, (terminal,), ()),
    ensures
        final(terminal)@ == (DaemonModel { bootstrap: Some(Seq::empty()), ..old(terminal)@ }),
{
}

// ---------------------------------------------------------------------------
// Reading

/// The bytes of chunks, one behind the other.
pub open spec fn flat(chunks: Seq<Seq<u8>>) -> Seq<u8>
    decreases chunks.len(),
{
    if chunks.len() == 0 {
        Seq::empty()
    } else {
        chunks[0] + flat(chunks.drop_first())
    }
}

proof fn lemma_total_first(chunks: Seq<Seq<u8>>)
    ensures
        chunks.len() > 0 ==> chunk_total(chunks) == chunks[0].len() + chunk_total(chunks.drop_first()),
    decreases chunks.len(),
{
    if chunks.len() == 1 {
        assert(chunks.drop_first() =~= Seq::<Seq<u8>>::empty());
        assert(chunks.drop_last() =~= Seq::<Seq<u8>>::empty());
    } else if chunks.len() > 1 {
        lemma_total_first(chunks.drop_last());
        assert(chunks.drop_last().drop_first() =~= chunks.drop_first().drop_last());
        assert(chunks.drop_last()[0] == chunks[0]);
    }
}

/// A read takes up to so many bytes off the front of what waits, and leaves the rest as it is.
pub proof fn law_read_takes_from_the_front(terminal: &mut DaemonTerminal, max: usize, bytes: Vec<u8>)
    requires
        call_ensures(DaemonTerminal::read, (terminal, max), bytes),
        old(terminal)@.bounded(),
    ensures
        bytes@.len() <= max,
        max == 0 ==> final(terminal)@ == old(terminal)@,
        final(terminal)@.mirror == old(terminal)@.mirror,
        same_session(old(terminal)@, final(terminal)@),
        max > 0 && old(terminal)@.pending_output.len() > 0 ==> {
            let waiting = old(terminal)@.pending_output;
            &&& bytes@ + flat(final(terminal)@.pending_output) == flat(waiting)
            &&& bytes@.len() == (if waiting[0].len() <= max {
                waiting[0].len() as int
            } else {
                max as int
            })
            &&& final(terminal)@.pending_frames == old(terminal)@.pending_frames
        },
{
    let waiting = old(terminal)@.pending_output;
    if max > 0 && waiting.len() > 0 {
        let rest = waiting.drop_first();
        lemma_total_first(waiting);
        if waiting[0].len() > max {
            let kept = waiting[0].skip(max as int);
            assert(room_made(rest, kept.len(), QueueEnd::Front) == rest);
            let now = seq![kept] + rest;
            assert(now.drop_first() =~= rest);
            assert(now[0] == kept);
            assert(flat(now) == kept + flat(rest));
            assert(waiting[0] =~= bytes@ + kept);
            assert(bytes@ + flat(now) =~= waiting[0] + flat(rest));
        }
    }
}

/// Where no output waits, a read takes that of the first frame that has any.
pub proof fn law_read_goes_on_with_frames(
    terminal: &mut DaemonTerminal,
    max: usize,
    bytes: Vec<u8>,
    k: int,
)
    requires
        call_ensures(DaemonTerminal::read, (terminal, max), bytes),
        old(terminal)@.pending_output.len() == 0,
        max > 0,
        0 <= k < old(terminal)@.pending_frames.len(),
        forall|i: int|
            0 <= i < k ==> (#[trigger] old(terminal)@.pending_frames[i]) is Resize || old(
                terminal,
            )@.pending_frames[i] is Exit,
    ensures
        ({
            let frame = old(terminal)@.pending_frames[k];
            let data = match frame {
                FrameModel::Snapshot { data, .. } => data,
                FrameModel::Output { data, .. } => data,
                _ => Seq::empty(),
            };
            frame is Snapshot || frame is Output ==> {
                &&& data.len() <= max ==> bytes@ == data
                &&& data.len() > max ==> bytes@ == data.take(max as int)
                &&& final(terminal)@.pending_frames == old(terminal)@.pending_frames.skip(k + 1)
                &&& data.len() <= max ==> final(terminal)@.pending_output.len() == 0
                &&& max < data.len() <= 8388608 + max ==> final(terminal)@.pending_output == seq![
                    data.skip(max as int),
                ]
            }
        }),
{
    let frames = old(terminal)@.pending_frames;
    if frames[k] is Snapshot || frames[k] is Output {
        lemma_first_bytes(frames, k);
        let data = frames[k].bytes()->0;
        if data.len() > max {
            let rest = Seq::<Seq<u8>>::empty();
            assert(seq![data.skip(max as int)] + rest =~= seq![data.skip(max as int)]);
        }
    }
}

proof fn lemma_first_bytes(frames: Seq<FrameModel>, k: int)
    requires
        0 <= k < frames.len(),
        frames[k] is Snapshot || frames[k] is Output,
        forall|i: int| 0 <= i < k ==> (#[trigger] frames[i]) is Resize || frames[i] is Exit,
    ensures
        first_bytes(frames) == (frames[k].bytes(), frames.skip(k + 1)),
    decreases k,
{
    let rest = frames.drop_first();
    if k > 0 {
        assert(frames[0] is Resize || frames[0] is Exit);
        assert forall|i: int| 0 <= i < k - 1 implies (#[trigger] rest[i]) is Resize || rest[i] is Exit by {
            assert(rest[i] == frames[i + 1]);
        }
        lemma_first_bytes(rest, k - 1);
        assert(rest.skip(k) =~= frames.skip(k + 1));
    } else {
        assert(rest =~= frames.skip(1));
    }
}

/// Frames are read in the order in which they wait, each once.
pub proof fn law_frames_are_read_in_order(terminal: &mut DaemonTerminal, frame: Option<PtyTerminalFrame>)
    requires
        call_ensures(DaemonTerminal::read_terminal_frame, (terminal,), frame),
    ensures
        frame is Some <==> old(terminal)@.pending_frames.len() > 0,
        frame is None ==> final(terminal)@ == old(terminal)@,
        frame is Some ==> {
            &&& frame->0@ == old(terminal)@.pending_frames[0]
            &&& final(terminal)@.pending_frames == old(terminal)@.pending_frames.skip(1)
            &&& final(terminal)@.pending_output == old(terminal)@.pending_output
            &&& final(terminal)@.mirror == old(terminal)@.mirror
            &&& final(terminal)@.bootstrap == old(terminal)@.bootstrap
            &&& final(terminal)@.exited == old(terminal)@.exited
            &&& same_session(old(terminal)@, final(terminal)@)
            &&& final(terminal)@.pending_frames.len() > 0 ==> final(terminal)@.output_signal != old(
                terminal,
            )@.output_signal
        },
{
}

/// A reader who has seen nothing gets the screen as it is drawn, whole and alone.
pub proof fn law_terminal_shows_its_screen(
    terminal: &mut DaemonTerminal,
    screen: Vec<u8>,
    frames: Vec<PtyTerminalFrame>,
)
    requires
        call_ensures(DaemonTerminal::terminal_snapshot, (terminal, None::<u64>, screen), frames),
    ensures
        frames@.len() == 1,
        frames@[0]@ == (FrameModel::Snapshot {
            base_seq: old(terminal)@.mirror.current_seq,
            size: old(terminal)@.mirror.size,
            data: screen@,
        }),
        final(terminal)@ == (DaemonModel { size: old(terminal)@.mirror.size, ..old(terminal)@ }),
{
    assert(frame_models(frames@).len() == frames@.len());
    assert(frame_models(frames@)[0] == frames@[0]@);
}

/// What is noted about a session is what can be asked about it.
pub proof fn law_noted_is_what_is_told(
    terminal: &mut DaemonTerminal,
    size: PtySize,
    process_id: Option<u32>,
    exited: bool,
    told_size: PtySize,
    told_process: Option<u32>,
    told_exited: bool,
)
    requires
        call_ensures(DaemonTerminal::note_snapshot, (terminal, size, process_id, exited), ()),
        call_ensures(DaemonTerminal::size, (&*final(terminal),), told_size),
        call_ensures(DaemonTerminal::process_id, (&*final(terminal),), told_process),
        call_ensures(DaemonTerminal::exited, (&*final(terminal),), told_exited),
    ensures
        told_size == size,
        told_process == process_id,
        told_exited == exited,
        final(terminal)@.pending_frames == old(terminal)@.pending_frames,
        final(terminal)@.pending_output == old(terminal)@.pending_output,
        final(terminal)@.mirror == old(terminal)@.mirror,
        final(terminal)@.controller == old(terminal)@.controller,
{
}

/// The size and the controller are changed alone.
pub proof fn law_size_and_controller_are_set_alone(
    terminal: &mut DaemonTerminal,
    size: PtySize,
    other: &mut DaemonTerminal,
    controller: ControllerIdentity,
    told: Option<ControllerIdentity>,
)
    requires
        call_ensures(DaemonTerminal::set_size, (terminal, size), ()),
        call_ensures(DaemonTerminal::set_controller, (other, controller), ()),
        call_ensures(DaemonTerminal::controller, (&*final(other),), told),
    ensures
        final(terminal)@ == (DaemonModel { size, ..old(terminal)@ }),
        told == Some(controller),
        final(other)@ == (DaemonModel { controller: Some(controller), ..old(other)@ }),
{
}

// ---------------------------------------------------------------------------
// Bounded output

/// Output that waits leaves room for some bytes more: at most 128 chunks and 8 MiB.
pub open spec fn room_for_bytes(chunks: Seq<Seq<u8>>, len: nat) -> bool {
    chunks.len() < 128 && chunk_total(chunks) + len <= 8388608
}

/// New output waits behind the rest, and the oldest gives way to it: no more of it than has to.
pub proof fn law_newest_output_is_kept(pending: &mut VecDeque<Vec<u8>>, chunk: Vec<u8>) -> (dropped: int)
    requires
        call_ensures(enqueue_daemon_legacy_output, (pending, chunk, QueueEnd::Back), ()),
    ensures
        ({
            let before = chunk_views(old(pending)@);
            let after = chunk_views(final(pending)@);
            let kept = if chunk@.len() <= 8388608 {
                chunk@
            } else {
                chunk@.skip(chunk@.len() - 8388608)
            };
            &&& 0 <= dropped <= before.len()
            &&& after == before.skip(dropped).push(kept)
            &&& dropped < before.len() ==> room_for_bytes(before.skip(dropped), kept.len())
            &&& dropped > 0 ==> !room_for_bytes(before.skip(dropped - 1), kept.len())
        }),
{
    let before = chunk_views(old(pending)@);
    lemma_back_room(before, clipped(chunk@, QueueEnd::Back).len())
}

proof fn lemma_back_room(chunks: Seq<Seq<u8>>, len: nat) -> (dropped: int)
    ensures
        0 <= dropped <= chunks.len(),
        room_made(chunks, len, QueueEnd::Back) == chunks.skip(dropped),
        dropped < chunks.len() ==> room_for_bytes(chunks.skip(dropped), len),
        dropped > 0 ==> !room_for_bytes(chunks.skip(dropped - 1), len),
    decreases chunks.len(),
{
    if chunks.len() == 0 || room_for_bytes(chunks, len) {
        assert(chunks.skip(0) =~= chunks);
        0
    } else {
        let rest = chunks.drop_first();
        let inner = lemma_back_room(rest, len);
        assert(rest.skip(inner) =~= chunks.skip(inner + 1));
        if inner > 0 {
            assert(rest.skip(inner - 1) =~= chunks.skip(inner));
        } else {
            assert(chunks.skip(0) =~= chunks);
        }
        inner + 1
    }
}

/// Output that is put back waits before the rest, and the newest gives way to it: no more than has to.
pub proof fn law_returned_output_is_kept(pending: &mut VecDeque<Vec<u8>>, chunk: Vec<u8>) -> (stays: int)
    requires
        call_ensures(enqueue_daemon_legacy_output, (pending, chunk, QueueEnd::Front), ()),
    ensures
        ({
            let before = chunk_views(old(pending)@);
            let after = chunk_views(final(pending)@);
            let kept = if chunk@.len() <= 8388608 {
                chunk@
            } else {
                chunk@.take(8388608)
            };
            &&& 0 <= stays <= before.len()
            &&& after == seq![kept] + before.take(stays)
            &&& stays > 0 ==> room_for_bytes(before.take(stays), kept.len())
            &&& stays < before.len() ==> !room_for_bytes(before.take(stays + 1), kept.len())
        }),
{
    let before = chunk_views(old(pending)@);
    lemma_front_room(before, clipped(chunk@, QueueEnd::Front).len())
}

proof fn lemma_front_room(chunks: Seq<Seq<u8>>, len: nat) -> (stays: int)
    ensures
        0 <= stays <= chunks.len(),
        room_made(chunks, len, QueueEnd::Front) == chunks.take(stays),
        stays > 0 ==> room_for_bytes(chunks.take(stays), len),
        stays < chunks.len() ==> !room_for_bytes(chunks.take(stays + 1), len),
    decreases chunks.len(),
{
    if chunks.len() == 0 || room_for_bytes(chunks, len) {
        assert(chunks.take(chunks.len() as int) =~= chunks);
        chunks.len() as int
    } else {
        let rest = chunks.drop_last();
        let inner = lemma_front_room(rest, len);
        assert(rest.take(inner) =~= chunks.take(inner));
        if inner < rest.len() {
            assert(rest.take(inner + 1) =~= chunks.take(inner + 1));
        } else {
            assert(chunks.take(inner + 1) =~= chunks);
        }
        inner
    }
}

// ---------------------------------------------------------------------------
// The pump

/// What is read from a process in one turn is passed on, every byte and in order: what a read does not
/// give away it keeps, and the end of the turn gives that away.
pub proof fn law_turn_passes_every_byte_on(
    pump: &mut SupervisorOutputPump,
    data: Vec<u8>,
    batches: Vec<Vec<u8>>,
    rest: Vec<Vec<u8>>,
)
    requires
        old(pump).wf(),
        data@.len() <= 65536,
        call_ensures(SupervisorOutputPump::on_read, (pump, data), batches),
        call_ensures(SupervisorOutputPump::finish, (*final(pump),), rest),
    ensures
        joined(batch_views(batches@)) + joined(batch_views(rest@)) == old(pump)@.batch + data@,
        final(pump)@.chunks == old(pump)@.chunks + 1,
        final(pump)@.bytes == old(pump)@.bytes + data@.len(),
        forall|i: int| 0 <= i < batches@.len() ==> 0 < (#[trigger] batches@[i])@.len() <= 65536,
{
    crate::pty::supervisor::output_pump::law_pump_keeps_every_byte(old(pump)@, data@);
    let models = batch_views(batches@);
    assert(forall|i: int| 0 <= i < models.len() ==> models[i] == #[trigger] batches@[i]@);
    reveal_with_fuel(joined, 2);
    let left = batch_views(rest@);
    if final(pump)@.batch.len() > 0 {
        assert(left.drop_last() =~= Seq::<Seq<u8>>::empty());
    }
    assert(joined(left) =~= final(pump)@.batch);
}

/// A turn ends after 64 reads or 4 MiB.
pub proof fn law_turn_is_bounded(pump: &SupervisorOutputPump, exhausted: bool)
    requires
        call_ensures(SupervisorOutputPump::exhausted, (pump,), exhausted),
    ensures
        exhausted <==> pump@.chunks >= 64 || pump@.bytes >= 4194304,
{
}

/// Output is published by recording it and telling everybody; no output changes nothing.
pub proof fn law_publishing_is_recording_and_telling<S: ScreenEmulator>(
    state: &mut SupervisorState,
    screen: S,
    batch: &[u8],
    after: S,
    recorded: &mut SupervisorState,
    frame: PtyTerminalFrame,
    told: &mut SupervisorState,
)
    requires
        call_ensures(publish_supervisor_output_batch::<S>, (state, screen, batch), after),
        *old(recorded) == *old(state),
        call_ensures(SupervisorState::record_output, (recorded, batch), frame),
        *old(told) == *final(recorded),
        call_ensures(SupervisorState::broadcast_terminal_frame, (told, &frame), ()),
    ensures
        batch@.len() == 0 ==> final(state)@ == old(state)@ && after == screen,
        batch@.len() > 0 ==> final(state)@ == final(told)@ && frame@ == (FrameModel::Output {
            terminal_seq: old(state)@.terminal.next_seq,
            data: batch@,
        }),
{
}

/// An exit is recorded with the code of the process, unless a signal ended it, and everybody is told.
pub proof fn law_exit_is_told_with_its_code(state: &mut SupervisorState, status: &PtyExitStatus)
    requires
        call_ensures(publish_exit, (state, status), ()),
        old(state)@.terminal.next_seq < u64::MAX,
    ensures
        final(state)@.exited,
        final(state)@.terminal.next_seq == old(state)@.terminal.next_seq + 1,
        final(state)@.terminal.size == old(state)@.terminal.size,
        final(state)@.terminal.journal.len() > 0,
        final(state)@.terminal.journal.last() == (FrameModel::Exit {
            terminal_seq: old(state)@.terminal.next_seq,
            code: if status.signal is None {
                Some(status.exit_code as i32)
            } else {
                None::<i32>
            },
        }),
        final(state)@.attached_devices == old(state)@.attached_devices,
        final(state)@.confirmed_close == old(state)@.confirmed_close,
{
}

proof fn lemma_replayed(daemon: DaemonModel, frames: Seq<FrameModel>, screens: Seq<Seq<u8>>)
    ensures
        ({
            let after = daemon.replayed(frames, screens);
            &&& after.controller == daemon.controller
            &&& after.size == daemon.size
            &&& after.process_id == daemon.process_id
            &&& after.exited == daemon.exited
            &&& after.pending_output == daemon.pending_output
            &&& after.mirror.current_seq >= daemon.mirror.current_seq
            &&& forall|i: int|
                0 <= i < frames.len() ==> after.mirror.current_seq >= reaches(#[trigger] frames[i])
        }),
    decreases frames.len(),
{
    if frames.len() > 0 {
        let rest = frames.drop_last();
        lemma_replayed(daemon, rest, screens.drop_last());
        assert(forall|i: int| 0 <= i < rest.len() ==> rest[i] == #[trigger] frames[i]);
        let before = daemon.replayed(rest, screens.drop_last());
        let after = daemon.replayed(frames, screens);
        assert(after == before.applied(frames.last(), screens.last()));
        assert(after.mirror.current_seq >= before.mirror.current_seq);
        assert(after.mirror.current_seq >= reaches(frames.last()));
    }
}

/// Once it is seeded, a terminal is the session's: its controller, its size, its process, and whether it has
/// ended. It has seen everything that the seed brought and everything that waited, and holds nothing back.
pub proof fn law_seeded_terminal_has_seen_everything<S: ScreenEmulator>(
    terminal: &mut DaemonTerminal,
    screen: S,
    sync: SupervisorAttachSyncPayload,
    after: S,
    i: int,
)
    requires
        call_ensures(DaemonTerminal::seed_attach_sync::<S>, (terminal, screen, sync), after),
    ensures
        final(terminal)@.controller == Some(
            ControllerIdentity {
                id: sync.controller_id,
                connection_id: sync.controller_connection_id,
            },
        ),
        final(terminal)@.size == sync.snapshot.size,
        final(terminal)@.process_id == sync.snapshot.process_id,
        final(terminal)@.exited == sync.snapshot.exited,
        final(terminal)@.bootstrap is None,
        0 <= i < sync.frames@.len() ==> final(terminal)@.mirror.current_seq >= reaches(
            sync.frames@[i]@,
        ),
        final(terminal)@.mirror.current_seq >= old(terminal)@.mirror.current_seq,
        sync.snapshot.retained_output@.len() == 0 ==> final(terminal)@.pending_output == old(
            terminal,
        )@.pending_output,
{
    let (first, states, screens) = choose|first: S, states: Seq<S>, screens: Seq<Seq<u8>>|
        {
            &&& if old(terminal)@.restarts_with(sync@) {
                crate::pty::supervisor::screen::redrawn(
                    screen,
                    sync@.snapshot.size,
                    sync@.snapshot.retained_output,
                    first,
                )
            } else {
                first == screen
            }
            &&& #[trigger] old(terminal)@.seeding(sync@).follows_all(
                first,
                old(terminal)@.frames_with(sync@),
                states,
                screens,
            )
            &&& after == crate::pty::supervisor::daemon_terminal::last_state(first, states)
            &&& final(terminal)@ == old(terminal)@.synchronised(sync@, screens)
        };
    let frames = old(terminal)@.frames_with(sync@);
    lemma_replayed(old(terminal)@.seeding(sync@), frames, screens);
    if 0 <= i < sync.frames@.len() {
        assert(frame_models(sync.frames@).len() == sync.frames@.len());
        assert(frames[i] == frame_models(sync.frames@)[i]);
        assert(frame_models(sync.frames@)[i] == sync.frames@[i]@);
    }
}

/// A frame that is applied directly waits as a live one does.
pub proof fn law_applied_frame_waits(
    terminal: &mut DaemonTerminal,
    frame: PtyTerminalFrame,
    screen: Vec<u8>,
    applied: bool,
    accepted: bool,
    needs: bool,
)
    requires
        call_ensures(DaemonTerminal::accepts, (&*old(terminal), &frame), accepted),
        call_ensures(DaemonTerminal::needs_snapshot, (&*old(terminal), &frame), needs),
        call_ensures(DaemonTerminal::apply_and_enqueue, (terminal, frame, screen), applied),
    ensures
        accepted <==> is_news(frame@, old(terminal)@.mirror.current_seq),
        applied == accepted,
        needs <==> !room_for(old(terminal)@.pending_frames, frame@),
        !applied ==> final(terminal)@ == old(terminal)@,
        applied ==> final(terminal)@.mirror.current_seq == reaches(frame@),
        applied && !needs ==> final(terminal)@.pending_frames == old(terminal)@.pending_frames.push(
            frame@,
        ),
        applied && needs && screen@.len() <= 8388608 ==> final(terminal)@.pending_frames == seq![
            FrameModel::Snapshot {
                base_seq: final(terminal)@.mirror.current_seq,
                size: final(terminal)@.mirror.size,
                data: screen@,
            },
        ],
        final(terminal)@.exited == old(terminal)@.exited,
        final(terminal)@.bootstrap == old(terminal)@.bootstrap,
        same_session(old(terminal)@, final(terminal)@),
{
    lemma_total(old(terminal)@.pending_frames);
}

/// What waits is counted, and whether there is something new shows in the signal.
pub proof fn law_waiting_frames_are_counted(terminal: &DaemonTerminal, count: usize, signal: u64)
    requires
        call_ensures(DaemonTerminal::pending_frame_count, (terminal,), count),
        call_ensures(DaemonTerminal::output_signal, (terminal,), signal),
    ensures
        count == terminal@.pending_frames.len(),
        signal == terminal@.output_signal,
{
}

/// A screen took a frame: output was fed to it as it came, a change of size resized it, a whole screen was
/// drawn on it anew, and an exit left it alone.
pub open spec fn took<S: ScreenEmulator>(before: S, frame: FrameModel, after: S) -> bool {
    match frame {
        FrameModel::Output { data, .. } => exists|bytes: &[u8]|
            bytes@ == data && #[trigger] call_ensures(S::feed, (before, bytes), after),
        FrameModel::Resize { size, .. } => call_ensures(S::resize, (before, size), after),
        FrameModel::Snapshot { size, data, .. } => drawn_anew(before, size, data, after),
        FrameModel::Exit { .. } => after == before,
    }
}

/// A screen was cleared, in a size, and then drawn.
pub open spec fn drawn_anew<S: ScreenEmulator>(before: S, size: PtySize, data: Seq<u8>, after: S) -> bool {
    exists|blank: S, bytes: &[u8]|
        bytes@ == data && #[trigger] call_ensures(S::reset, (before, size), blank)
            && #[trigger] call_ensures(S::feed, (blank, bytes), after)
}

proof fn lemma_drawn_anew<S: ScreenEmulator>(before: S, size: PtySize, data: Seq<u8>, after: S)
    requires
        redrawn(before, size, data, after),
    ensures
        drawn_anew(before, size, data, after),
{
    let blank = choose|blank: S| #[trigger]
        call_ensures(S::reset, (before, size), blank) && fed(blank, data, after);
    let bytes = choose|bytes: &[u8]|
        bytes@ == data && #[trigger] call_ensures(S::feed, (blank, bytes), after);
    assert(call_ensures(S::reset, (before, size), blank));
    assert(call_ensures(S::feed, (blank, bytes), after));
}

proof fn lemma_took<S: ScreenEmulator>(before: S, frame: FrameModel, after: S)
    requires
        shown(before, frame, after),
    ensures
        took(before, frame, after),
{
    if let FrameModel::Snapshot { size, data, .. } = frame {
        lemma_drawn_anew(before, size, data, after);
    }
}

/// A screen that is shown a frame takes it.
pub proof fn law_shown_frame_is_taken<S: ScreenEmulator>(screen: S, frame: &PtyTerminalFrame, after: S)
    requires
        call_ensures(show_frame::<S>, (screen, frame), after),
    ensures
        took(screen, frame@, after),
{
    lemma_took(screen, frame@, after);
}

/// The screen takes every frame that is published, and where too much waits, what it then draws takes the
/// place of all of it.
pub proof fn law_screen_follows_what_is_published<S: ScreenEmulator>(
    terminal: &mut DaemonTerminal,
    screen: S,
    frame: PtyTerminalFrame,
    res: (S, LiveFrameOutcome),
)
    requires
        call_ensures(DaemonTerminal::receive_live_frame::<S>, (terminal, screen, frame), res),
        res.1 is Published,
    ensures
        took(screen, frame@, res.0),
        !room_for(old(terminal)@.pending_frames, frame@) ==> {
            &&& final(terminal)@.pending_frames.len() <= 1
            &&& final(terminal)@.pending_frames.len() == 1 ==> final(terminal)@.pending_frames[0] is Snapshot
                && exists|bytes: Vec<u8>|
                bytes@ == final(terminal)@.pending_frames[0]->Snapshot_data && #[trigger] call_ensures(
                    S::snapshot,
                    (&res.0,),
                    bytes,
                )
        },
{
    lemma_total(old(terminal)@.pending_frames);
    lemma_took(screen, frame@, res.0);
}

/// What a session prints is fed to its screen as it was printed.
pub proof fn law_output_is_fed_to_the_screen<S: ScreenEmulator>(
    state: &mut SupervisorState,
    screen: S,
    batch: &[u8],
    after: S,
)
    requires
        call_ensures(publish_supervisor_output_batch::<S>, (state, screen, batch), after),
        batch@.len() > 0,
    ensures
        exists|bytes: &[u8]|
            bytes@ == batch@ && #[trigger] call_ensures(S::feed, (screen, bytes), after),
{
}

/// A seed that brings a screen and no frames draws it anew, in its size, where nothing waits and nothing newer
/// was seen. A seed that brings neither leaves the screen alone.
pub proof fn law_seed_draws_the_screen<S: ScreenEmulator>(
    terminal: &mut DaemonTerminal,
    screen: S,
    sync: SupervisorAttachSyncPayload,
    after: S,
)
    requires
        call_ensures(DaemonTerminal::seed_attach_sync::<S>, (terminal, screen, sync), after),
        sync.frames@.len() == 0,
        old(terminal)@.pending_frames.len() == 0,
        old(terminal)@.bootstrap is Some ==> old(terminal)@.bootstrap->0.len() == 0,
    ensures
        sync.snapshot.retained_output@.len() > 0 && sync.base_seq >= old(terminal)@.mirror.current_seq
            ==> drawn_anew(screen, sync.snapshot.size, sync.snapshot.retained_output@, after),
        sync.snapshot.retained_output@.len() == 0 || sync.base_seq < old(terminal)@.mirror.current_seq
            ==> after == screen,
{
    let (first, states, screens) = choose|first: S, states: Seq<S>, screens: Seq<Seq<u8>>|
        {
            &&& if old(terminal)@.restarts_with(sync@) {
                redrawn(screen, sync@.snapshot.size, sync@.snapshot.retained_output, first)
            } else {
                first == screen
            }
            &&& #[trigger] old(terminal)@.seeding(sync@).follows_all(
                first,
                old(terminal)@.frames_with(sync@),
                states,
                screens,
            )
            &&& after == crate::pty::supervisor::daemon_terminal::last_state(first, states)
            &&& final(terminal)@ == old(terminal)@.synchronised(sync@, screens)
        };
    assert(live_after(old(terminal)@.pending_frames, sync.base_seq).len() == 0);
    assert(old(terminal)@.frames_with(sync@).len() == 0);
    assert(states.len() == 0);
    if old(terminal)@.restarts_with(sync@) {
        lemma_drawn_anew(screen, sync@.snapshot.size, sync@.snapshot.retained_output, first);
    }
}

} // verus!
