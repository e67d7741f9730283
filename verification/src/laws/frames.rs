//! The terminal stream: what is recorded, what a reader is sent, and what a mirror makes of it.

use crate::pty::supervisor::terminal_journal::{
    events_after, has_resize, tail_cost, CacheModel, MirrorModel, MirrorSync,
    SupervisorTerminalCache, SupervisorTerminalMirror, TerminalEvent,
};
use crate::pty::{frame_models, FrameModel, PtySize, PtyTerminalFrame};
use vstd::prelude::*;

verus! {

/// How many bytes a frame weighs: those that it draws with, or one where it draws nothing.
pub open spec fn frame_weight(frame: FrameModel) -> nat {
    match frame {
        FrameModel::Snapshot { data, .. } => data.len(),
        FrameModel::Output { data, .. } => data.len(),
        _ => 1,
    }
}

/// How many bytes frames weigh together.
pub open spec fn weight(frames: Seq<FrameModel>) -> nat
    decreases frames.len(),
{
    if frames.len() == 0 {
        0
    } else {
        weight(frames.drop_last()) + frame_weight(frames.last())
    }
}

/// The number that an event carries.
pub open spec fn number_of(frame: FrameModel) -> int {
    match frame {
        FrameModel::Snapshot { .. } => -1,
        FrameModel::Output { terminal_seq, .. } => terminal_seq as int,
        FrameModel::Resize { terminal_seq, .. } => terminal_seq as int,
        FrameModel::Exit { terminal_seq, .. } => terminal_seq as int,
    }
}

/// Frames are events whose numbers grow.
pub open spec fn numbered_upwards(frames: Seq<FrameModel>) -> bool {
    &&& forall|i: int| 0 <= i < frames.len() ==> !((#[trigger] frames[i]) is Snapshot)
    &&& forall|i: int, j: int|
        0 <= i < j < frames.len() ==> number_of(#[trigger] frames[i]) < number_of(#[trigger] frames[j])
}

/// A frame is the whole screen: everything up to a number, in a size, drawn with some bytes.
pub open spec fn is_screen(frame: PtyTerminalFrame, upto: int, size: PtySize, drawn: Seq<u8>) -> bool {
    match frame {
        PtyTerminalFrame::Snapshot { base_seq, size: its_size, data } => {
            &&& base_seq == upto
            &&& its_size == size
            &&& data@ == drawn
        },
        _ => false,
    }
}

proof fn lemma_tail(journal: Seq<FrameModel>, last: u64) -> (seen: int)
    requires
        numbered_upwards(journal),
    ensures
        0 <= seen <= journal.len(),
        events_after(journal, last) == journal.skip(seen),
        forall|i: int| 0 <= i < seen ==> number_of(#[trigger] journal[i]) <= last,
        forall|i: int| seen <= i < journal.len() ==> number_of(#[trigger] journal[i]) > last,
    decreases journal.len(),
{
    if journal.len() == 0 {
        assert(journal.skip(0) =~= Seq::<FrameModel>::empty());
        0
    } else {
        let rest = journal.drop_last();
        let n = rest.len() as int;
        assert(forall|i: int| 0 <= i < n ==> rest[i] == #[trigger] journal[i]);
        let seen = lemma_tail(rest, last);
        if number_of(journal.last()) > last {
            assert(events_after(journal, last) =~= journal.skip(seen));
            seen
        } else {
            if seen < n {
                assert(number_of(rest[seen]) > last);
                assert(number_of(journal[seen]) < number_of(journal[n]));
            }
            assert(events_after(journal, last) =~= journal.skip(n + 1));
            n + 1
        }
    }
}

proof fn lemma_cost(frames: Seq<FrameModel>)
    requires
        forall|i: int| 0 <= i < frames.len() ==> !((#[trigger] frames[i]) is Snapshot),
    ensures
        tail_cost(frames) == weight(frames),
    decreases frames.len(),
{
    if frames.len() > 0 {
        assert(forall|i: int| 0 <= i < frames.drop_last().len() ==> frames.drop_last()[i] == #[trigger] frames[i]);
        lemma_cost(frames.drop_last());
    }
}

proof fn lemma_consistent(cache: CacheModel)
    requires
        cache.wf(),
    ensures
        numbered_upwards(cache.journal),
        forall|i: int|
            0 <= i < cache.journal.len() ==> number_of(#[trigger] cache.journal[i]) == cache.next_seq
                - cache.journal.len() + i,
{
    assert forall|i: int| 0 <= i < cache.journal.len() implies !(cache.journal[i] is Snapshot)
        && number_of(#[trigger] cache.journal[i]) == cache.next_seq - cache.journal.len() + i by {
        assert(cache.journal[i].seq() == Some((cache.base_seq() + i) as u64));
    }
}

/// A reader who has seen nothing yet is sent one frame: the screen as it was drawn, in the current size,
/// up to the latest event.
pub proof fn law_new_reader_gets_the_screen(
    cache: &SupervisorTerminalCache,
    drawn: Vec<u8>,
    res: (u64, Vec<PtyTerminalFrame>),
)
    requires
        cache.wf(),
        call_ensures(
            SupervisorTerminalCache::terminal_snapshot_or_tail,
            (cache, None::<u64>, drawn),
            res,
        ),
    ensures
        res.0 == cache@.next_seq - 1,
        res.1@.len() == 1,
        is_screen(res.1@[0], cache@.next_seq - 1, cache@.size, drawn@),
{
    cache.lemma_wf();
    assert(frame_models(res.1@).len() == res.1@.len());
    assert(frame_models(res.1@)[0] == res.1@[0]@);
}

/// A reader who comes back is sent nothing if nothing has happened since. Otherwise it is sent exactly
/// the events that it has missed, in order, if they are all still there, none of them is a change of size,
/// and they weigh no more than 128 KiB or twice the screen; and else the screen as it was drawn.
pub proof fn law_returning_reader_gets_what_it_missed(
    cache: &SupervisorTerminalCache,
    last: u64,
    drawn: Vec<u8>,
    res: (u64, Vec<PtyTerminalFrame>),
)
    requires
        cache.wf(),
        call_ensures(
            SupervisorTerminalCache::terminal_snapshot_or_tail,
            (cache, Some(last), drawn),
            res,
        ),
    ensures
        ({
            let current = cache@.next_seq - 1;
            let missed = current - last;
            let kept = cache@.journal.len();
            let tail = cache@.journal.skip(kept - missed);
            &&& res.0 == current
            &&& missed == 0 ==> res.1@.len() == 0
            &&& missed > 0 && missed <= kept && (forall|i: int|
                0 <= i < missed ==> !((#[trigger] tail[i]) is Resize)) && (weight(tail) <= 131072
                || weight(tail) <= 2 * drawn@.len()) ==> frame_models(res.1@) == tail
            &&& missed != 0 && !(missed > 0 && missed <= kept && (forall|i: int|
                0 <= i < missed ==> !((#[trigger] tail[i]) is Resize)) && (weight(tail) <= 131072
                || weight(tail) <= 2 * drawn@.len())) ==> res.1@.len() == 1 && is_screen(
                res.1@[0],
                current,
                cache@.size,
                drawn@,
            )
        }),
{
    cache.lemma_wf();
    lemma_consistent(cache@);
    let journal = cache@.journal;
    let kept = journal.len();
    let current = cache@.next_seq - 1;
    let missed = current - last;
    assert(frame_models(res.1@).len() == res.1@.len());
    if res.1@.len() > 0 {
        assert(frame_models(res.1@)[0] == res.1@[0]@);
    }
    if missed > 0 && missed <= kept {
        let seen = lemma_tail(journal, last);
        if seen < kept - missed {
            assert(number_of(journal[seen]) > last);
        }
        if seen > kept - missed {
            assert(number_of(journal[kept - missed]) <= last);
        }
        assert(seen == kept - missed);
        let tail = journal.skip(seen);
        assert(forall|i: int| 0 <= i < tail.len() ==> #[trigger] tail[i] == journal[seen + i]);
        lemma_cost(tail);
        if has_resize(tail) {
            let i = choose|i: int| 0 <= i < tail.len() && (#[trigger] tail[i]) is Resize;
            assert(tail[i] is Resize);
        }
    }
}

/// The events before a place are those up to a number, and the others come after it.
pub open spec fn divides(journal: Seq<FrameModel>, last: u64, place: int) -> bool {
    &&& 0 <= place <= journal.len()
    &&& forall|i: int| 0 <= i < place ==> number_of(#[trigger] journal[i]) <= last
    &&& forall|i: int| place <= i < journal.len() ==> number_of(#[trigger] journal[i]) > last
}

/// A daemon's mirror answers in the same way: nothing to a reader who is up to date, exactly the events
/// after the reader's last one where they may be replayed, and else the screen.
pub proof fn law_mirror_reader_gets_what_it_missed(
    mirror: &SupervisorTerminalMirror,
    last: Option<u64>,
    drawn: Vec<u8>,
    res: (u64, Vec<PtyTerminalFrame>),
)
    requires
        mirror.wf(),
        call_ensures(SupervisorTerminalMirror::terminal_snapshot_or_tail, (mirror, last, drawn), res),
    ensures
        res.0 == mirror@.current_seq,
        last is None ==> res.1@.len() == 1 && is_screen(
            res.1@[0],
            mirror@.current_seq as int,
            mirror@.size,
            drawn@,
        ),
        last == Some(mirror@.current_seq) ==> res.1@.len() == 0,
        last is Some && last->0 > mirror@.current_seq ==> res.1@.len() == 1 && is_screen(
            res.1@[0],
            mirror@.current_seq as int,
            mirror@.size,
            drawn@,
        ),
        last is Some && last->0 < mirror@.current_seq ==> exists|seen: int| #[trigger]
            divides(mirror@.journal, last->0, seen) && {
                let tail = mirror@.journal.skip(seen);
                if last->0 + 1 >= mirror@.base_seq && (forall|i: int|
                    seen <= i < mirror@.journal.len() ==> !((#[trigger] mirror@.journal[i]) is Resize))
                    && (weight(tail) <= 131072 || weight(tail) <= 2 * drawn@.len()) {
                    frame_models(res.1@) == tail
                } else {
                    res.1@.len() == 1 && is_screen(
                        res.1@[0],
                        mirror@.current_seq as int,
                        mirror@.size,
                        drawn@,
                    )
                }
            },
{
    let journal = mirror@.journal;
    assert(frame_models(res.1@).len() == res.1@.len());
    if res.1@.len() > 0 {
        assert(frame_models(res.1@)[0] == res.1@[0]@);
    }
    assert forall|i: int| 0 <= i < journal.len() implies !((#[trigger] journal[i]) is Snapshot) by {
        assert(journal[i].seq() is Some);
    }
    assert forall|i: int, j: int| 0 <= i < j < journal.len() implies number_of(#[trigger] journal[i])
        < number_of(#[trigger] journal[j]) by {
        assert(journal[i].seq()->0 < journal[j].seq()->0);
    }
    if let Some(l) = last {
        let seen = lemma_tail(journal, l);
        assert(divides(journal, l, seen));
        let tail = journal.skip(seen);
        assert(forall|i: int| 0 <= i < tail.len() ==> #[trigger] tail[i] == journal[seen + i]);
        lemma_cost(tail);
        if has_resize(tail) {
            let i = choose|i: int| 0 <= i < tail.len() && (#[trigger] tail[i]) is Resize;
            assert(journal[seen + i] is Resize);
        } else {
            assert forall|i: int| seen <= i < journal.len() implies !((#[trigger] journal[i]) is Resize) by {
                assert(tail[i - seen] == journal[i]);
            }
        }
    }
}

/// The journal keeps the latest 8192 events.
pub open spec fn appended(before: Seq<FrameModel>, after: Seq<FrameModel>, event: FrameModel) -> bool {
    if before.len() < 8192 {
        after == before.push(event)
    } else {
        after == before.push(event).skip(1)
    }
}

/// Output is recorded as it came, under the next number, behind what was recorded before; the size stays.
pub proof fn law_output_is_recorded(
    cache: &mut SupervisorTerminalCache,
    bytes: &[u8],
    frame: PtyTerminalFrame,
)
    requires
        old(cache).wf(),
        old(cache)@.next_seq < u64::MAX,
        call_ensures(SupervisorTerminalCache::record_output, (cache, bytes), frame),
    ensures
        frame matches PtyTerminalFrame::Output { terminal_seq, data } && terminal_seq
            == old(cache)@.next_seq && data@ == bytes@,
        final(cache)@.next_seq == old(cache)@.next_seq + 1,
        final(cache)@.size == old(cache)@.size,
        appended(old(cache)@.journal, final(cache)@.journal, frame@),
{
    old(cache).lemma_wf();
    assert(old(cache)@.journal.push(frame@).drop_first() =~= old(cache)@.journal.push(frame@).skip(1));
}

/// A change of size is recorded under the next number, and is the size from then on.
pub proof fn law_resize_is_recorded(
    cache: &mut SupervisorTerminalCache,
    size: PtySize,
    frame: PtyTerminalFrame,
)
    requires
        old(cache).wf(),
        old(cache)@.next_seq < u64::MAX,
        call_ensures(SupervisorTerminalCache::resize, (cache, size), frame),
    ensures
        frame matches PtyTerminalFrame::Resize { terminal_seq, size: its_size } && terminal_seq
            == old(cache)@.next_seq && its_size == size,
        final(cache)@.next_seq == old(cache)@.next_seq + 1,
        final(cache)@.size == size,
        appended(old(cache)@.journal, final(cache)@.journal, frame@),
{
    old(cache).lemma_wf();
    assert(old(cache)@.journal.push(frame@).drop_first() =~= old(cache)@.journal.push(frame@).skip(1));
}

/// The end of the process is recorded with its code, under the next number.
pub proof fn law_exit_is_recorded(
    cache: &mut SupervisorTerminalCache,
    code: Option<i32>,
    frame: PtyTerminalFrame,
)
    requires
        old(cache).wf(),
        old(cache)@.next_seq < u64::MAX,
        call_ensures(SupervisorTerminalCache::record_exit, (cache, code), frame),
    ensures
        frame matches PtyTerminalFrame::Exit { terminal_seq, code: its_code } && terminal_seq
            == old(cache)@.next_seq && its_code == code,
        final(cache)@.next_seq == old(cache)@.next_seq + 1,
        final(cache)@.size == old(cache)@.size,
        appended(old(cache)@.journal, final(cache)@.journal, frame@),
{
    old(cache).lemma_wf();
    assert(old(cache)@.journal.push(frame@).drop_first() =~= old(cache)@.journal.push(frame@).skip(1));
}

/// A new journal has nothing in it, the first event gets the number one, and the size is the given one.
pub proof fn law_journal_starts_empty(size: PtySize, cache: SupervisorTerminalCache)
    requires
        call_ensures(SupervisorTerminalCache::new, (size,), cache),
    ensures
        cache@.next_seq == 1,
        cache@.journal.len() == 0,
        cache@.size == size,
{
}

/// A mirror takes a live event that is newer than what it has seen, and a screen that is not older. What
/// it takes becomes its latest; a screen replaces everything, an event is kept behind the others, and a
/// change of size is followed. What it does not take leaves it as it was.
pub proof fn law_mirror_follows_the_stream(
    mirror: &mut SupervisorTerminalMirror,
    frame: &PtyTerminalFrame,
    taken: bool,
)
    requires
        old(mirror).wf(),
        call_ensures(SupervisorTerminalMirror::apply_frame, (mirror, frame), taken),
    ensures
        taken == (match frame@ {
            FrameModel::Snapshot { base_seq, .. } => base_seq >= old(mirror)@.current_seq,
            event => number_of(event) > old(mirror)@.current_seq,
        }),
        !taken ==> final(mirror)@ == old(mirror)@,
        taken ==> match frame@ {
            FrameModel::Snapshot { base_seq, size, .. } => {
                &&& final(mirror)@.current_seq == base_seq
                &&& final(mirror)@.journal.len() == 0
                &&& final(mirror)@.size == size
            },
            event => {
                &&& final(mirror)@.current_seq == number_of(event)
                &&& appended(old(mirror)@.journal, final(mirror)@.journal, event)
                &&& final(mirror)@.size == (match event {
                    FrameModel::Resize { size, .. } => size,
                    _ => old(mirror)@.size,
                })
            },
        },
{
    assert(old(mirror)@.journal.push(frame@).drop_first() =~= old(mirror)@.journal.push(frame@).skip(1));
}

/// A mirror begins anew from a screen unless it has already seen more.
pub proof fn law_mirror_restarts_from_a_screen(
    mirror: &mut SupervisorTerminalMirror,
    size: PtySize,
    base_seq: u64,
    reset: bool,
)
    requires
        call_ensures(SupervisorTerminalMirror::reset_from_snapshot, (mirror, size, base_seq), reset),
    ensures
        reset <==> base_seq >= old(mirror)@.current_seq,
        !reset ==> final(mirror)@ == old(mirror)@,
        reset ==> {
            &&& final(mirror)@.current_seq == base_seq
            &&& final(mirror)@.journal.len() == 0
            &&& final(mirror)@.size == size
            &&& base_seq < u64::MAX ==> final(mirror)@.base_seq == base_seq + 1
        },
{
}

/// A mirror that is fed a screen and then events goes on as if it was fed them one by one.
pub proof fn law_mirror_takes_frames_one_by_one(
    mirror: &mut SupervisorTerminalMirror,
    size: PtySize,
    base_seq: u64,
    frames: &[PtyTerminalFrame],
    sync: MirrorSync,
    reset: &mut SupervisorTerminalMirror,
    was_reset: bool,
)
    requires
        call_ensures(
            SupervisorTerminalMirror::apply_snapshot_and_tail,
            (mirror, size, base_seq, frames),
            sync,
        ),
        *old(reset) == *old(mirror),
        call_ensures(SupervisorTerminalMirror::reset_from_snapshot, (reset, size, base_seq), was_reset),
    ensures
        sync.reset == was_reset,
        sync.reset <==> base_seq >= old(mirror)@.current_seq,
        sync.accepted@.len() == frames@.len(),
        frames@.len() == 0 ==> final(mirror)@ == final(reset)@,
        frames@.len() > 0 ==> sync.accepted@[0] == (match frames@[0]@ {
            FrameModel::Snapshot { base_seq: from, .. } => from >= final(reset)@.current_seq,
            event => number_of(event) > final(reset)@.current_seq,
        }),
{
    assert(frame_models(frames@).len() == frames@.len());
    if frames@.len() > 0 {
        assert(frame_models(frames@).take(0) =~= Seq::<FrameModel>::empty());
    }
}

/// Feeding a mirror frame by frame, the last one counts last.
pub proof fn law_last_frame_counts_last(mirror: MirrorModel, frames: Seq<FrameModel>, frame: FrameModel)
    ensures
        mirror.apply_all(frames.push(frame)) == mirror.apply_all(frames).apply(frame),
        mirror.apply_all(Seq::empty()) == mirror,
{
    assert(frames.push(frame).drop_last() =~= frames);
}

/// An event becomes a frame with the same number and the same content, and costs the bytes that it prints.
pub proof fn law_event_becomes_its_frame(
    event: &TerminalEvent,
    number: u64,
    frame: PtyTerminalFrame,
    cost: usize,
)
    requires
        call_ensures(TerminalEvent::terminal_seq, (event,), number),
        call_ensures(TerminalEvent::to_terminal_frame, (event,), frame),
        call_ensures(TerminalEvent::replay_cost_bytes, (event,), cost),
    ensures
        match *event {
            TerminalEvent::Output { seq, bytes } => number == seq && cost == bytes@.len() && frame@
                == (FrameModel::Output { terminal_seq: seq, data: bytes@ }),
            TerminalEvent::Resize { seq, size } => number == seq && cost == 1 && frame@
                == (FrameModel::Resize { terminal_seq: seq, size }),
            TerminalEvent::Exit { seq, code } => number == seq && cost == 1 && frame@
                == (FrameModel::Exit { terminal_seq: seq, code }),
        },
{
}

/// What is asked of a journal or a mirror is answered from it.
pub proof fn law_journal_answers_for_itself(
    cache: &SupervisorTerminalCache,
    current: u64,
    next: u64,
    size: PtySize,
    len: usize,
    mirror: &SupervisorTerminalMirror,
    seen: u64,
    its_size: PtySize,
)
    requires
        call_ensures(SupervisorTerminalCache::current_terminal_seq, (cache,), current),
        call_ensures(SupervisorTerminalCache::next_terminal_seq, (cache,), next),
        call_ensures(SupervisorTerminalCache::size, (cache,), size),
        call_ensures(SupervisorTerminalCache::journal_len, (cache,), len),
        call_ensures(SupervisorTerminalMirror::current_terminal_seq, (mirror,), seen),
        call_ensures(SupervisorTerminalMirror::size, (mirror,), its_size),
    ensures
        next == cache@.next_seq,
        current == next - 1,
        size == cache@.size,
        len == cache@.journal.len(),
        seen == mirror@.current_seq,
        its_size == mirror@.size,
{
}

} // verus!
