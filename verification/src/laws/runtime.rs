//! The runtime: what becomes of sessions and their processes, and what is kept of them over a restart.

use crate::laws::session::{same_elsewhere, usable};
use crate::pty::activity::UnixTimestampMillis;
use crate::pty::{CommandSpec, PtyBackend, PtyRestoreInfo, PtyResult, PtySession, PtySize};
use crate::runtime::{
    canonical_uuid, kept_records, numbered_session, pty_size_of, terminal_size_to_pty_size,
    timestamp_for, timestamp_of, RuntimeError, RuntimeModel, RuntimeResult, SessionRuntime,
    SessionStateRecord, StateRecordModel,
};
use crate::session::{AttachRole, SessionState, TerminalSize};
use crate::text::decimal;
use vstd::prelude::*;

verus! {

/// Two tables of processes agree on every session but one.
pub open spec fn same_processes_elsewhere<S>(
    before: Map<Seq<char>, S>,
    after: Map<Seq<char>, S>,
    session_id: Seq<char>,
) -> bool {
    forall|other: Seq<char>| #![trigger after.contains_key(other)]
        other != session_id ==> after.contains_key(other) == before.contains_key(other) && (
        before.contains_key(other) ==> after[other] == before[other])
}

/// A session has a process and can be used.
pub open spec fn alive(runtime: RuntimeModel, session_id: Seq<char>) -> bool {
    usable(runtime.sessions, session_id) && runtime.running.contains_key(session_id)
}

/// What is kept of a session is what the session is: its state, its size, and when it was created and
/// last changed. It is kept exactly if its process can be found again and its name is a UUID.
pub proof fn law_record_says_what_the_session_is<B: PtyBackend>(
    runtime: &SessionRuntime<B>,
    session_id: &str,
    restore_info: Option<PtyRestoreInfo>,
    record: Option<SessionStateRecord>,
)
    requires
        call_ensures(SessionRuntime::<B>::persisted_record, (runtime, session_id, restore_info), record),
    ensures
        record is Some <==> restore_info is Some && canonical_uuid(session_id@) is Some,
        record matches Some(kept) ==> {
            let session = runtime@.sessions[session_id@];
            let running = runtime@.running[session_id@];
            &&& Some(kept.session_id@) == canonical_uuid(session_id@)
            &&& kept.state == session.state
            &&& kept.size == session.size
            &&& kept.created_at_ms == running.created_at_ms
            &&& kept.updated_at_ms == running.updated_at_ms
            &&& kept.restore_info is Some
            &&& kept.restore_info->0@ == restore_info->0@
        },
{
}

/// A session that was recorded comes back as it was: taken up in a runtime that does not know it, it has
/// the size and the times of the session that was recorded, it runs if that one ran, nobody is attached
/// to it, and its process is the one that was found. Nothing else in that runtime changes.
pub proof fn law_recorded_session_comes_back<B: PtyBackend>(
    before: &SessionRuntime<B>,
    session_id: &str,
    restore_info: Option<PtyRestoreInfo>,
    record: Option<SessionStateRecord>,
    after: &mut SessionRuntime<B>,
    connected: PtyResult<B::Session>,
    res: RuntimeResult<()>,
)
    requires
        call_ensures(SessionRuntime::<B>::persisted_record, (before, session_id, restore_info), record),
        record is Some,
        before@.sessions[session_id@].size.rows != 0,
        before@.sessions[session_id@].size.cols != 0,
        !old(after)@.sessions.contains_key(record->0.session_id@),
        connected is Ok,
        call_ensures(SessionRuntime::<B>::finish_reconnect, (after, &record->0, connected), res),
    ensures
        ({
            let id = record->0.session_id@;
            let was = before@.sessions[session_id@];
            let is = final(after)@.sessions[id];
            &&& res is Ok
            &&& final(after)@.sessions.contains_key(id)
            &&& is.size == was.size
            &&& is.state is Running <==> was.state is Running
            &&& !(is.state is Closed)
            &&& forall|device: Seq<char>| !(#[trigger] is.attached_devices.contains_key(device))
            &&& final(after)@.running.contains_key(id)
            &&& final(after)@.running[id].created_at_ms
                == before@.running[session_id@].created_at_ms
            &&& final(after)@.running[id].updated_at_ms
                == before@.running[session_id@].updated_at_ms
            &&& final(after).processes().contains_key(id)
            &&& final(after).processes()[id] == connected->Ok_0
            &&& same_elsewhere(old(after)@.sessions, final(after)@.sessions, id)
            &&& same_processes_elsewhere(old(after)@.running, final(after)@.running, id)
            &&& same_processes_elsewhere(old(after).processes(), final(after).processes(), id)
        }),
{
}

/// A session whose process cannot be found again, or that is known already, is not taken up, and nothing
/// changes.
pub proof fn law_failed_take_up_changes_nothing<B: PtyBackend>(
    runtime: &mut SessionRuntime<B>,
    record: &SessionStateRecord,
    connected: PtyResult<B::Session>,
    res: RuntimeResult<()>,
)
    requires
        call_ensures(SessionRuntime::<B>::finish_reconnect, (runtime, record, connected), res),
    ensures
        connected matches Err(error) ==> res == Err::<(), RuntimeError>(RuntimeError::Pty(error))
            && final(runtime).whole() == old(runtime).whole(),
        connected is Ok && old(runtime)@.sessions.contains_key(record.session_id@) ==> res == Err::<
            (),
            RuntimeError,
        >(RuntimeError::SessionAlreadyExists) && final(runtime).whole() == old(runtime).whole(),
        record.size.rows == 0 || record.size.cols == 0 ==> res is Err,
{
}

/// Whatever is written down for a restart was a session with a process, in the state, the size and with
/// the times that it had; and every session with a process that can be found again, and whose name is a
/// UUID, is written down.
pub proof fn law_every_session_is_written_down(
    runtime: RuntimeModel,
    ids: Seq<Seq<char>>,
    infos: Seq<Option<PtyRestoreInfo>>,
)
    requires
        ids.len() == infos.len(),
    ensures
        forall|k: int|
            0 <= k < kept_records(runtime, ids, infos).len() ==> exists|i: int|
                0 <= i < ids.len() && describes(
                    #[trigger] kept_records(runtime, ids, infos)[k],
                    runtime,
                    #[trigger] ids[i],
                    infos[i],
                ),
        forall|i: int|
            0 <= i < ids.len() && infos[i] is Some && canonical_uuid(#[trigger] ids[i]) is Some
                ==> exists|k: int|
                0 <= k < kept_records(runtime, ids, infos).len() && describes(
                    #[trigger] kept_records(runtime, ids, infos)[k],
                    runtime,
                    ids[i],
                    infos[i],
                ),
        kept_records(runtime, ids, infos).len() <= ids.len(),
    decreases ids.len(),
{
    let all = kept_records(runtime, ids, infos);
    if ids.len() > 0 {
        let n = ids.len() - 1;
        let earlier = kept_records(runtime, ids.drop_last(), infos.drop_last());
        law_every_session_is_written_down(runtime, ids.drop_last(), infos.drop_last());
        assert forall|k: int| 0 <= k < all.len() implies exists|i: int|
            0 <= i < ids.len() && describes(#[trigger] all[k], runtime, #[trigger] ids[i], infos[i]) by {
            if k < earlier.len() {
                assert(all[k] == earlier[k]);
                let i = choose|i: int|
                    0 <= i < ids.drop_last().len() && describes(
                        earlier[k],
                        runtime,
                        #[trigger] ids.drop_last()[i],
                        infos.drop_last()[i],
                    );
                assert(describes(all[k], runtime, ids[i], infos[i]));
            } else {
                assert(describes(all[k], runtime, ids[n], infos[n]));
            }
        }
        assert forall|i: int|
            0 <= i < ids.len() && infos[i] is Some && canonical_uuid(#[trigger] ids[i]) is Some implies exists|
            k: int,
        |
            0 <= k < all.len() && describes(#[trigger] all[k], runtime, ids[i], infos[i]) by {
            if i < n {
                assert(ids.drop_last()[i] == ids[i]);
                let k = choose|k: int|
                    0 <= k < earlier.len() && describes(
                        #[trigger] earlier[k],
                        runtime,
                        ids[i],
                        infos[i],
                    );
                assert(all[k] == earlier[k]);
            } else {
                assert(describes(all[all.len() - 1], runtime, ids[i], infos[i]));
            }
        }
    }
}

/// A record describes a session of a runtime.
pub open spec fn describes(
    record: StateRecordModel,
    runtime: RuntimeModel,
    session_id: Seq<char>,
    info: Option<PtyRestoreInfo>,
) -> bool {
    &&& info is Some
    &&& canonical_uuid(session_id) == Some(record.session_id)
    &&& record.state == runtime.sessions[session_id].state
    &&& record.size == runtime.sessions[session_id].size
    &&& record.created_at_ms == runtime.running[session_id].created_at_ms
    &&& record.updated_at_ms == runtime.running[session_id].updated_at_ms
    &&& record.restore_info == Some(info->0@)
}

/// A session whose process was started has the size that was asked for, has not run yet, has nobody
/// attached and the moment of its creation as both its times; its process is the one that was started.
/// A session that is known already is not replaced. Nothing else changes.
pub proof fn law_created_session_is_as_ordered<B: PtyBackend>(
    runtime: &mut SessionRuntime<B>,
    session_id: &str,
    size: TerminalSize,
    now: UnixTimestampMillis,
    spawned: PtyResult<B::Session>,
    res: RuntimeResult<()>,
)
    requires
        call_ensures(
            SessionRuntime::<B>::finish_create,
            (runtime, session_id, size, now, spawned),
            res,
        ),
    ensures
        res is Ok <==> spawned is Ok && !old(runtime)@.sessions.contains_key(session_id@),
        spawned matches Err(error) ==> res == Err::<(), RuntimeError>(RuntimeError::Pty(error)),
        spawned is Ok && res is Err ==> res == Err::<(), RuntimeError>(
            RuntimeError::SessionAlreadyExists,
        ),
        res is Err ==> final(runtime).whole() == old(runtime).whole(),
        same_elsewhere(old(runtime)@.sessions, final(runtime)@.sessions, session_id@),
        same_processes_elsewhere(old(runtime)@.running, final(runtime)@.running, session_id@),
        same_processes_elsewhere(old(runtime).processes(), final(runtime).processes(), session_id@),
        res is Ok ==> {
            let session = final(runtime)@.sessions[session_id@];
            &&& final(runtime)@.sessions.contains_key(session_id@)
            &&& session.size == size
            &&& session.state is Created
            &&& forall|device: Seq<char>| !(#[trigger] session.attached_devices.contains_key(device))
            &&& final(runtime)@.running.contains_key(session_id@)
            &&& final(runtime)@.running[session_id@].created_at_ms == now
            &&& final(runtime)@.running[session_id@].updated_at_ms == now
            &&& final(runtime).processes().contains_key(session_id@)
            &&& final(runtime).processes()[session_id@] == spawned->Ok_0
        },
{
}

/// Once the terminal of the process has another size, the session has it too, from that moment on; the
/// rest of the session, and every other one, stays as it was. If the process refused, nothing changes.
pub proof fn law_resize_follows_the_process<B: PtyBackend>(
    runtime: &mut SessionRuntime<B>,
    session_id: &str,
    size: TerminalSize,
    now: UnixTimestampMillis,
    resized: PtyResult<()>,
    res: RuntimeResult<()>,
)
    requires
        alive(old(runtime)@, session_id@),
        call_ensures(
            SessionRuntime::<B>::finish_resize,
            (runtime, session_id, size, now, resized),
            res,
        ),
    ensures
        res is Ok <==> resized is Ok,
        resized matches Err(error) ==> res == Err::<(), RuntimeError>(RuntimeError::Pty(error))
            && final(runtime).whole() == old(runtime).whole(),
        final(runtime).processes() == old(runtime).processes(),
        same_elsewhere(old(runtime)@.sessions, final(runtime)@.sessions, session_id@),
        same_processes_elsewhere(old(runtime)@.running, final(runtime)@.running, session_id@),
        res is Ok ==> {
            let before = old(runtime)@.sessions[session_id@];
            let after = final(runtime)@.sessions[session_id@];
            &&& alive(final(runtime)@, session_id@)
            &&& after.size == size
            &&& after.state == before.state
            &&& after.attached_devices == before.attached_devices
            &&& final(runtime)@.running[session_id@].created_at_ms
                == old(runtime)@.running[session_id@].created_at_ms
            &&& final(runtime)@.running[session_id@].updated_at_ms == now
        },
{
}

/// Attaching a device through the runtime adds it to the session alone: size, times and processes stay.
pub proof fn law_runtime_attach_adds_one_device<B: PtyBackend>(
    runtime: &mut SessionRuntime<B>,
    session_id: &str,
    device_id: &str,
    res: RuntimeResult<AttachRole>,
)
    requires
        call_ensures(SessionRuntime::<B>::attach, (runtime, session_id, device_id), res),
    ensures
        res is Ok <==> alive(old(runtime)@, session_id@),
        res is Err ==> final(runtime)@ == old(runtime)@,
        final(runtime).processes() == old(runtime).processes(),
        final(runtime)@.running == old(runtime)@.running,
        same_elsewhere(old(runtime)@.sessions, final(runtime)@.sessions, session_id@),
        res is Ok ==> {
            let before = old(runtime)@.sessions[session_id@];
            let after = final(runtime)@.sessions[session_id@];
            &&& after.state is Running
            &&& after.size == before.size
            &&& after.attached_devices.contains_key(device_id@)
            &&& forall|other: Seq<char>| #![trigger after.attached_devices.contains_key(other)]
                other != device_id@ ==> after.attached_devices.contains_key(other)
                    == before.attached_devices.contains_key(other)
        },
{
}

/// Detaching a device through the runtime leaves the process, the state and the size alone.
pub proof fn law_runtime_detach_removes_one_device<B: PtyBackend>(
    runtime: &mut SessionRuntime<B>,
    session_id: &str,
    device_id: &str,
    res: RuntimeResult<()>,
)
    requires
        call_ensures(SessionRuntime::<B>::detach, (runtime, session_id, device_id), res),
    ensures
        res is Ok <==> alive(old(runtime)@, session_id@)
            && old(runtime)@.sessions[session_id@].attached_devices.contains_key(device_id@),
        res is Err ==> final(runtime)@ == old(runtime)@,
        final(runtime).processes() == old(runtime).processes(),
        final(runtime)@.running == old(runtime)@.running,
        same_elsewhere(old(runtime)@.sessions, final(runtime)@.sessions, session_id@),
        res is Ok ==> {
            let before = old(runtime)@.sessions[session_id@];
            let after = final(runtime)@.sessions[session_id@];
            &&& final(runtime)@.sessions.contains_key(session_id@)
            &&& after.state == before.state
            &&& after.size == before.size
            &&& !after.attached_devices.contains_key(device_id@)
            &&& forall|other: Seq<char>| #![trigger after.attached_devices.contains_key(other)]
                other != device_id@ ==> after.attached_devices.contains_key(other)
                    == before.attached_devices.contains_key(other)
        },
{
}

/// Once its process has ended, a session is closed and has neither process nor devices, and its size is
/// still known. If the process could not be ended, nothing changes. No other session is touched.
pub proof fn law_close_ends_one_session<B: PtyBackend>(
    runtime: &mut SessionRuntime<B>,
    session_id: &str,
    ended: PtyResult<()>,
    res: RuntimeResult<()>,
)
    requires
        alive(old(runtime)@, session_id@),
        call_ensures(SessionRuntime::<B>::finish_close, (runtime, session_id, ended), res),
    ensures
        res is Ok <==> ended is Ok,
        ended matches Err(error) ==> res == Err::<(), RuntimeError>(RuntimeError::Pty(error))
            && final(runtime).whole() == old(runtime).whole(),
        same_elsewhere(old(runtime)@.sessions, final(runtime)@.sessions, session_id@),
        same_processes_elsewhere(old(runtime)@.running, final(runtime)@.running, session_id@),
        same_processes_elsewhere(old(runtime).processes(), final(runtime).processes(), session_id@),
        res is Ok ==> {
            &&& final(runtime)@.sessions.contains_key(session_id@)
            &&& final(runtime)@.sessions[session_id@].state is Closed
            &&& final(runtime)@.sessions[session_id@].size
                == old(runtime)@.sessions[session_id@].size
            &&& !final(runtime)@.running.contains_key(session_id@)
            &&& !final(runtime).processes().contains_key(session_id@)
        },
{
}

/// Giving a session up closes it, takes its process out of the runtime and touches no other session. It
/// succeeds exactly on a session with a process.
pub proof fn law_discard_gives_one_session_up<B: PtyBackend>(
    runtime: &mut SessionRuntime<B>,
    session_id: &str,
    res: RuntimeResult<()>,
)
    requires
        call_ensures(SessionRuntime::<B>::discard, (runtime, session_id), res),
    ensures
        res is Ok <==> old(runtime)@.running.contains_key(session_id@),
        res is Err ==> res == Err::<(), RuntimeError>(RuntimeError::SessionNotFound)
            && final(runtime).whole() == old(runtime).whole(),
        same_elsewhere(old(runtime)@.sessions, final(runtime)@.sessions, session_id@),
        same_processes_elsewhere(old(runtime)@.running, final(runtime)@.running, session_id@),
        same_processes_elsewhere(old(runtime).processes(), final(runtime).processes(), session_id@),
        res is Ok ==> {
            &&& final(runtime)@.sessions[session_id@].state is Closed
            &&& !final(runtime)@.running.contains_key(session_id@)
            &&& !final(runtime).processes().contains_key(session_id@)
        },
{
}

/// What a device that is not attached types reaches no process, nor does what is typed into a session
/// that is unknown, closed or without a process. What an attached device types reaches the process of
/// that session, byte for byte, and no other process; its answer is the result.
pub proof fn law_only_attached_devices_type<B: PtyBackend>(
    runtime: &mut SessionRuntime<B>,
    session_id: &str,
    device_id: &str,
    bytes: &[u8],
    res: RuntimeResult<()>,
)
    requires
        call_ensures(SessionRuntime::<B>::write_input, (runtime, session_id, device_id, bytes), res),
    ensures
        final(runtime)@ == old(runtime)@,
        !(alive(old(runtime)@, session_id@)
            && old(runtime)@.sessions[session_id@].attached_devices.contains_key(device_id@)) ==> {
            &&& res is Err
            &&& final(runtime).processes() == old(runtime).processes()
        },
        alive(old(runtime)@, session_id@)
            && old(runtime)@.sessions[session_id@].attached_devices.contains_key(device_id@) ==> {
            &&& same_processes_elsewhere(
                old(runtime).processes(),
                final(runtime).processes(),
                session_id@,
            )
            &&& exists|process: &mut B::Session, written: PtyResult<()>|
                {
                    &&& *process == old(runtime).processes()[session_id@]
                    &&& #[trigger] call_ensures(
                        <B::Session as PtySession>::write_all,
                        (process, bytes),
                        written,
                    )
                    &&& *final(process) == final(runtime).processes()[session_id@]
                    &&& res is Ok <==> written is Ok
                    &&& written matches Err(error) ==> res == Err::<(), RuntimeError>(
                        RuntimeError::Pty(error),
                    )
                }
        },
{
}

/// A process is started with the rows, the columns and the pixels that were asked for.
pub proof fn law_process_gets_the_size(size: TerminalSize)
    ensures
        pty_size_of(size).rows == size.rows,
        pty_size_of(size).cols == size.cols,
        pty_size_of(size).pixel_width == size.pixel_width,
        pty_size_of(size).pixel_height == size.pixel_height,
{
}

/// A moment is given in whole milliseconds since the epoch, as long as those fit; a clock before the
/// epoch gives its beginning.
pub proof fn law_time_is_in_milliseconds(millis: u128)
    requires
        millis <= u64::MAX,
    ensures
        timestamp_of(Some(millis)).0 == millis,
        timestamp_of(None).0 == 0,
{
}

/// A new runtime has no sessions and counts from one.
pub proof fn law_runtime_starts_empty<B: PtyBackend>(
    backend: B,
    runtime: SessionRuntime<B>,
    session_id: Seq<char>,
)
    requires
        call_ensures(SessionRuntime::<B>::new, (backend,), runtime),
    ensures
        !runtime@.sessions.contains_key(session_id),
        !runtime@.running.contains_key(session_id),
        !runtime.processes().contains_key(session_id),
        runtime@.next_session_number == 1,
        runtime.host() == backend,
{
}

/// A session that was asked for by name is there with its size, or nothing has changed.
pub proof fn law_named_session_is_there_or_nothing_changed<B: PtyBackend>(
    runtime: &mut SessionRuntime<B>,
    session_id: &str,
    command: CommandSpec,
    size: TerminalSize,
    res: RuntimeResult<()>,
)
    requires
        call_ensures(
            SessionRuntime::<B>::create_session_with_id,
            (runtime, session_id, command, size),
            res,
        ),
    ensures
        size.rows == 0 || size.cols == 0 ==> res == Err::<(), RuntimeError>(RuntimeError::InvalidSize),
        size.rows != 0 && size.cols != 0 && old(runtime)@.running.contains_key(session_id@) ==> res
            == Err::<(), RuntimeError>(RuntimeError::SessionAlreadyExists),
        res is Err ==> final(runtime).whole() == old(runtime).whole(),
        res is Ok ==> {
            &&& !old(runtime)@.sessions.contains_key(session_id@)
            &&& final(runtime)@.sessions.contains_key(session_id@)
            &&& final(runtime)@.sessions[session_id@].size == size
            &&& !(final(runtime)@.sessions[session_id@].state is Closed)
            &&& final(runtime)@.running.contains_key(session_id@)
            &&& final(runtime)@.running[session_id@].created_at_ms
                == final(runtime)@.running[session_id@].updated_at_ms
            &&& final(runtime).processes().contains_key(session_id@)
            &&& final(runtime)@.next_session_number == old(runtime)@.next_session_number
            &&& same_elsewhere(old(runtime)@.sessions, final(runtime)@.sessions, session_id@)
            &&& same_processes_elsewhere(
                old(runtime)@.running,
                final(runtime)@.running,
                session_id@,
            )
            &&& same_processes_elsewhere(
                old(runtime).processes(),
                final(runtime).processes(),
                session_id@,
            )
        },
        final(runtime).host() == old(runtime).host(),
{
}

/// A session that was asked for without a name gets the first number that no running session has.
pub proof fn law_unnamed_session_gets_a_free_number<B: PtyBackend>(
    runtime: &mut SessionRuntime<B>,
    command: CommandSpec,
    size: TerminalSize,
    res: RuntimeResult<String>,
)
    requires
        call_ensures(SessionRuntime::<B>::create_session, (runtime, command, size), res),
    ensures
        res is Ok ==> {
            let id = (res->Ok_0)@;
            &&& exists|n: u64|
                #![trigger decimal(n as nat)]
                {
                    &&& old(runtime)@.next_session_number <= n < u64::MAX
                    &&& id == "session-"@ + decimal(n as nat)
                    &&& final(runtime)@.next_session_number == n + 1
                    &&& forall|k: u64|
                        #![trigger decimal(k as nat)]
                        old(runtime)@.next_session_number <= k < n ==> old(
                            runtime,
                        )@.running.contains_key("session-"@ + decimal(k as nat))
                }
            &&& !old(runtime)@.running.contains_key(id)
            &&& final(runtime)@.sessions.contains_key(id)
            &&& final(runtime)@.sessions[id].size == size
            &&& final(runtime)@.running.contains_key(id)
            &&& final(runtime).processes().contains_key(id)
            &&& same_elsewhere(old(runtime)@.sessions, final(runtime)@.sessions, id)
        },
        res is Err ==> final(runtime)@.sessions == old(runtime)@.sessions && final(runtime)@.running
            == old(runtime)@.running && final(runtime).processes() == old(runtime).processes(),
        size.rows == 0 || size.cols == 0 ==> res == Err::<String, RuntimeError>(
            RuntimeError::InvalidSize,
        ),
{
    let n = choose|n: u64| #[trigger]
        old(runtime)@.first_free(n) && {
            let numbered = (old(runtime)@.numbered(n), old(runtime).processes());
            if !size.valid() {
                crate::runtime::fails_with(res, RuntimeError::InvalidSize) && final(runtime).whole()
                    == numbered
            } else {
                &&& res matches Ok(id) ==> id@ == numbered_session(n)
                &&& exists|spawned: PtyResult<B::Session>| #[trigger]
                    crate::runtime::spawn_answer(
                        old(runtime).host(),
                        numbered_session(n),
                        command,
                        size,
                        spawned,
                    ) && crate::runtime::created_with(
                        numbered,
                        final(runtime).whole(),
                        numbered_session(n),
                        size,
                        spawned,
                        match res {
                            Ok(_) => Ok(()),
                            Err(error) => Err(error),
                        },
                    )
            }
        };
    assert(old(runtime)@.first_free(n));
    if res is Ok {
        assert((res->Ok_0)@ == "session-"@ + decimal(n as nat));
        assert forall|k: u64|
            #![trigger decimal(k as nat)]
            old(runtime)@.next_session_number <= k < n implies old(runtime)@.running.contains_key(
            "session-"@ + decimal(k as nat),
        ) by {
            assert(old(runtime)@.running.contains_key(numbered_session(k)));
        }
    }
}

/// A session that is reconnected to has the size and the times that were recorded; one that is known, was
/// closed or left no trace is refused, and nothing changes.
pub proof fn law_reconnected_session_has_its_record<B: PtyBackend>(
    runtime: &mut SessionRuntime<B>,
    record: &SessionStateRecord,
    res: RuntimeResult<()>,
)
    requires
        call_ensures(SessionRuntime::<B>::reconnect_session, (runtime, record), res),
    ensures
        old(runtime)@.running.contains_key(record.session_id@) ==> res == Err::<(), RuntimeError>(
            RuntimeError::SessionAlreadyExists,
        ) && final(runtime).whole() == old(runtime).whole(),
        !old(runtime)@.running.contains_key(record.session_id@) && record.state is Closed ==> res
            == Err::<(), RuntimeError>(RuntimeError::SessionClosed) && final(runtime).whole() == old(
            runtime,
        ).whole(),
        !old(runtime)@.running.contains_key(record.session_id@) && !(record.state is Closed)
            && record.restore_info is None ==> res == Err::<(), RuntimeError>(
            RuntimeError::NotReconnectable,
        ) && final(runtime).whole() == old(runtime).whole(),
        res is Ok ==> {
            let id = record.session_id@;
            &&& final(runtime)@.sessions.contains_key(id)
            &&& final(runtime)@.sessions[id].size == record.size
            &&& final(runtime)@.sessions[id].state is Running <==> record.state is Running
            &&& final(runtime)@.running[id].created_at_ms == record.created_at_ms
            &&& final(runtime)@.running[id].updated_at_ms == record.updated_at_ms
            &&& final(runtime).processes().contains_key(id)
            &&& same_elsewhere(old(runtime)@.sessions, final(runtime)@.sessions, id)
        },
{
}

/// Output is read from the process of the session, and nothing else of the runtime changes.
pub proof fn law_output_is_read_from_the_process<B: PtyBackend>(
    runtime: &mut SessionRuntime<B>,
    session_id: &str,
    buffer: &mut [u8],
    res: RuntimeResult<usize>,
    other: Seq<char>,
)
    requires
        call_ensures(SessionRuntime::<B>::read_output, (runtime, session_id, buffer), res),
    ensures
        final(runtime)@ == old(runtime)@,
        !alive(old(runtime)@, session_id@) ==> res is Err && final(buffer)@ == old(buffer)@
            && final(runtime).processes() == old(runtime).processes(),
        other != session_id@ ==> final(runtime).processes().contains_key(other) == old(
            runtime,
        ).processes().contains_key(other),
        other != session_id@ && old(runtime).processes().contains_key(other)
            ==> final(runtime).processes()[other] == old(runtime).processes()[other],
{
}

/// A size is usable if it has rows and columns, and the process gets it as it is.
pub proof fn law_usable_size_is_passed_on(
    size: TerminalSize,
    res: RuntimeResult<PtySize>,
    valid: bool,
    rows: u16,
    cols: u16,
    cells: TerminalSize,
    elapsed: Option<u128>,
    now: UnixTimestampMillis,
)
    requires
        call_ensures(terminal_size_to_pty_size, (size,), res),
        call_ensures(TerminalSize::is_valid, (&size,), valid),
        call_ensures(TerminalSize::cells, (rows, cols), cells),
        call_ensures(timestamp_for, (elapsed,), now),
    ensures
        valid <==> size.rows > 0 && size.cols > 0,
        res is Ok <==> valid,
        res is Ok ==> res->Ok_0.rows == size.rows && res->Ok_0.cols == size.cols
            && res->Ok_0.pixel_width == size.pixel_width && res->Ok_0.pixel_height == size.pixel_height,
        res is Err ==> res->Err_0 is InvalidSize,
        cells.rows == rows && cells.cols == cols && cells.pixel_width == 0 && cells.pixel_height == 0,
        elapsed is None ==> now == UnixTimestampMillis(0),
        elapsed is Some && elapsed->0 <= u64::MAX ==> now == UnixTimestampMillis(elapsed->0 as u64),
{
}

/// What is asked of a session is answered from it.
pub proof fn law_session_answers_for_itself<B: PtyBackend>(
    runtime: &SessionRuntime<B>,
    session_id: &str,
    device_id: &str,
    state: RuntimeResult<SessionState>,
    size: RuntimeResult<TerminalSize>,
    role: RuntimeResult<Option<AttachRole>>,
)
    requires
        call_ensures(SessionRuntime::<B>::state, (runtime, session_id), state),
        call_ensures(SessionRuntime::<B>::size, (runtime, session_id), size),
        call_ensures(SessionRuntime::<B>::role, (runtime, session_id, device_id), role),
    ensures
        ({
            let known = runtime@.sessions.contains_key(session_id@);
            let session = runtime@.sessions[session_id@];
            &&& state is Ok <==> known
            &&& size is Ok <==> known
            &&& role is Ok <==> known
            &&& known ==> state->Ok_0 == session.state
            &&& known ==> size->Ok_0 == session.size
            &&& known ==> (role->Ok_0 is Some <==> session.attached_devices.contains_key(device_id@))
            &&& !known ==> state->Err_0 is SessionNotFound
        }),
{
}

/// An error of the runtime says what it is.
pub proof fn law_runtime_error_says_what_it_is(error: &RuntimeError, text: String)
    requires
        call_ensures(RuntimeError::to_string, (error,), text),
    ensures
        text@ == (match *error {
            RuntimeError::SessionAlreadyExists => "session already exists"@,
            RuntimeError::SessionNotFound => "session not found"@,
            RuntimeError::SessionClosed => "session is closed"@,
            RuntimeError::DeviceNotAttached => "device is not attached"@,
            RuntimeError::InvalidSize => "terminal size must have non-zero rows and cols"@,
            RuntimeError::NotReconnectable => "session does not contain reconnect metadata"@,
            RuntimeError::Pty(cause) => cause@.text(),
        }),
{
}

/// A record is of a session that has a process, and says what it is.
pub open spec fn records_a_session(record: SessionStateRecord, runtime: RuntimeModel, id: Seq<char>) -> bool {
    &&& runtime.running.contains_key(id)
    &&& canonical_uuid(id) == Some(record.session_id@)
    &&& record.state == runtime.sessions[id].state
    &&& record.size == runtime.sessions[id].size
    &&& record.created_at_ms == runtime.running[id].created_at_ms
    &&& record.updated_at_ms == runtime.running[id].updated_at_ms
    &&& record.restore_info is Some
}

proof fn lemma_kept_record(
    runtime: RuntimeModel,
    ids: Seq<Seq<char>>,
    infos: Seq<Option<PtyRestoreInfo>>,
    k: int,
) -> (i: int)
    requires
        ids.len() == infos.len(),
        0 <= k < kept_records(runtime, ids, infos).len(),
    ensures
        0 <= i < ids.len(),
        describes(kept_records(runtime, ids, infos)[k], runtime, ids[i], infos[i]),
{
    law_every_session_is_written_down(runtime, ids, infos);
    choose|i: int|
        0 <= i < ids.len() && describes(
            kept_records(runtime, ids, infos)[k],
            runtime,
            #[trigger] ids[i],
            infos[i],
        )
}

proof fn lemma_session_kept(
    runtime: RuntimeModel,
    ids: Seq<Seq<char>>,
    infos: Seq<Option<PtyRestoreInfo>>,
    i: int,
) -> (k: int)
    requires
        ids.len() == infos.len(),
        0 <= i < ids.len(),
        infos[i] is Some,
        canonical_uuid(ids[i]) is Some,
    ensures
        0 <= k < kept_records(runtime, ids, infos).len(),
        describes(kept_records(runtime, ids, infos)[k], runtime, ids[i], infos[i]),
{
    law_every_session_is_written_down(runtime, ids, infos);
    choose|k: int|
        0 <= k < kept_records(runtime, ids, infos).len() && describes(
            #[trigger] kept_records(runtime, ids, infos)[k],
            runtime,
            ids[i],
            infos[i],
        )
}

/// The sessions with a process by name, and how to find the process of each again.
spec fn are_found<B: PtyBackend>(
    runtime: &SessionRuntime<B>,
    ids: Seq<Seq<char>>,
    infos: Seq<Option<PtyRestoreInfo>>,
) -> bool {
    &&& forall|id: Seq<char>| runtime@.running.contains_key(id) <==> #[trigger] ids.contains(id)
    &&& infos.len() == ids.len()
    &&& forall|i: int|
        0 <= i < ids.len() ==> call_ensures(
            <B::Session as PtySession>::restore_info,
            (&runtime.processes()[ids[i]],),
            #[trigger] infos[i],
        )
}

proof fn lemma_found<B: PtyBackend>(runtime: &SessionRuntime<B>, records: Vec<SessionStateRecord>) -> (res: (
    Seq<Seq<char>>,
    Seq<Option<PtyRestoreInfo>>,
))
    requires
        call_ensures(SessionRuntime::<B>::persisted_sessions, (runtime,), records),
    ensures
        are_found(runtime, res.0, res.1),
        crate::runtime::record_models(records@) == kept_records(runtime@, res.0, res.1),
{
    choose|ids: Seq<Seq<char>>, infos: Seq<Option<PtyRestoreInfo>>|
        are_found(runtime, ids, infos) && crate::runtime::record_models(records@)
            == #[trigger] kept_records(runtime@, ids, infos)
}

/// What is kept for a restart are sessions that have a process, as they are.
pub proof fn law_kept_records_are_of_sessions<B: PtyBackend>(
    runtime: &SessionRuntime<B>,
    records: Vec<SessionStateRecord>,
    k: int,
)
    requires
        call_ensures(SessionRuntime::<B>::persisted_sessions, (runtime,), records),
        0 <= k < records@.len(),
    ensures
        exists|id: Seq<char>| #[trigger] records_a_session(records@[k], runtime@, id),
{
    let (ids, infos) = lemma_found(runtime, records);
    let kept = crate::runtime::record_models(records@);
    assert(kept[k] == records@[k]@);
    let i = lemma_kept_record(runtime@, ids, infos, k);
    assert(ids.contains(ids[i]));
    assert(records_a_session(records@[k], runtime@, ids[i]));
}

/// A session with a process whose name is a UUID, and whose process can be found again, is kept for a restart.
pub proof fn law_sessions_with_a_process_are_kept<B: PtyBackend>(
    runtime: &SessionRuntime<B>,
    records: Vec<SessionStateRecord>,
    id: Seq<char>,
)
    requires
        call_ensures(SessionRuntime::<B>::persisted_sessions, (runtime,), records),
        runtime@.running.contains_key(id),
        canonical_uuid(id) is Some,
        forall|info: Option<PtyRestoreInfo>| #[trigger]
            call_ensures(
                <B::Session as PtySession>::restore_info,
                (&runtime.processes()[id],),
                info,
            ) ==> info is Some,
    ensures
        exists|k: int|
            0 <= k < records@.len() && #[trigger] records_a_session(records@[k], runtime@, id),
{
    let (ids, infos) = lemma_found(runtime, records);
    let kept = crate::runtime::record_models(records@);
    assert(ids.contains(id));
    let i = choose|i: int| 0 <= i < ids.len() && ids[i] == id;
    assert(infos[i] is Some);
    let k = lemma_session_kept(runtime@, ids, infos, i);
    assert(kept[k] == records@[k]@);
    assert(records_a_session(records@[k], runtime@, id));
}

} // verus!
