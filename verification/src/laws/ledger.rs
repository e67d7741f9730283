//! The ledger of sessions: what a row says after each step, what is done for it next, and in what order.

use crate::laws::session::same_elsewhere;
use crate::pty::{PtyBackend, PtyError, PtyRestoreInfo, PtyResult};
use crate::runtime::{RuntimeError, RuntimeResult, SessionRuntime, SessionStateRecord};
use crate::session_ownership::{
    active_evidence_matches, backfilled_row, cleanup_confirmed, close_wait_step, ended_on_its_own,
    interrupted_create, lacks_column, last_close, ledger_timestamp, migration_step,
    operation_id_from_bytes, reconcile_action, reconcile_order, reconnect_active_with_retry,
    recovery_action, should_retry_reconnect, stat_is_zombie, unreachable_diagnostic, was_closing,
    CreateStep, InterruptedCreate, MigrationStep, OwnedCreate, OwnershipError,
    OwnershipPhase, OwnershipRow, ReconcileAction, RecoveryAction, RowModel,
};
use crate::text::{occurs_at, text_less};
use vstd::prelude::*;

verus! {

/// Two rows are of the same session, and of the same create of it.
pub open spec fn same_session(before: RowModel, after: RowModel) -> bool {
    &&& after.session_id == before.session_id
    &&& after.create_operation_id == before.create_operation_id
    &&& after.capability == before.capability
    &&& after.expected_socket == before.expected_socket
    &&& after.created_at_ms == before.created_at_ms
    &&& after.owner_generation == before.owner_generation
}

/// Two rows point at the same process.
pub open spec fn same_process(before: RowModel, after: RowModel) -> bool {
    &&& after.supervisor_pid == before.supervisor_pid
    &&& after.socket_path == before.socket_path
}

/// Two rows carry the same notes.
pub open spec fn same_notes(before: RowModel, after: RowModel) -> bool {
    &&& after.diagnostic == before.diagnostic
    &&& after.legacy_protocol == before.legacy_protocol
}

// ---------------------------------------------------------------------------
// Rows

/// A row that is written before a process is started says who wants it and why, and nothing about a process.
pub proof fn law_intent_names_no_process(
    session_id: &str,
    create_operation_id: &[u8],
    capability: &[u8],
    expected_socket: Option<String>,
    now: i64,
    generation: &[u8],
    row: OwnershipRow,
)
    requires
        call_ensures(
            OwnershipRow::preparing,
            (session_id, create_operation_id, capability, expected_socket, now, generation),
            row,
        ),
    ensures
        row.phase is Preparing,
        row.session_id@ == session_id@,
        row.create_operation_id@ == create_operation_id@,
        row.capability@ == capability@,
        row.expected_socket is Some <==> expected_socket is Some,
        expected_socket is Some ==> row.expected_socket->0@ == expected_socket->0@,
        row.close_operation_id is None,
        row.supervisor_pid is None,
        row.socket_path is None,
        row.diagnostic is None,
        !row.legacy_protocol,
        row.created_at_ms == now,
        row.updated_at_ms == now,
        row.owner_generation is Some,
        row.owner_generation->0@ == generation@,
{
}

/// The process that was started is written down exactly if it was asked for and has the socket that was
/// announced. Otherwise nothing is written.
pub proof fn law_started_process_is_written_down(
    row: &mut OwnershipRow,
    info: &PtyRestoreInfo,
    now: i64,
    res: PtyResult<()>,
)
    requires
        call_ensures(OwnershipRow::record_prepared, (row, info, now), res),
    ensures
        res is Ok <==> old(row)@.phase is Preparing && info@ is UnixSocket && (old(
            row,
        )@.expected_socket is None || old(row)@.expected_socket == Some(
            info@->UnixSocket_socket_path,
        )),
        res is Ok ==> {
            &&& final(row)@.phase is Prepared
            &&& final(row)@.supervisor_pid == Some(info@->UnixSocket_supervisor_pid)
            &&& final(row)@.socket_path == Some(info@->UnixSocket_socket_path)
            &&& final(row)@.updated_at_ms == now
            &&& final(row)@.close_operation_id == old(row)@.close_operation_id
            &&& same_session(old(row)@, final(row)@)
            &&& same_notes(old(row)@, final(row)@)
        },
        res is Err ==> final(row)@ == old(row)@ && res->Err_0@ is Backend,
{
}

/// A session becomes one of the daemon exactly once its process is known, and keeps all that is known.
pub proof fn law_known_process_becomes_a_session(row: &mut OwnershipRow, now: i64, committed: bool)
    requires
        call_ensures(OwnershipRow::commit_active, (row, now), committed),
    ensures
        committed <==> old(row)@.phase is Prepared,
        !committed ==> final(row)@ == old(row)@,
        committed ==> {
            &&& final(row)@.phase is Active
            &&& final(row)@.updated_at_ms == now
            &&& final(row)@.close_operation_id == old(row)@.close_operation_id
            &&& same_session(old(row)@, final(row)@)
            &&& same_process(old(row)@, final(row)@)
            &&& same_notes(old(row)@, final(row)@)
        },
{
}

/// A create goes from its intent over its process to a session that points at that process.
pub proof fn law_create_ends_in_an_active_session(
    row: OwnershipRow,
    prepared: &mut OwnershipRow,
    info: &PtyRestoreInfo,
    then: i64,
    res: PtyResult<()>,
    active: &mut OwnershipRow,
    now: i64,
    committed: bool,
)
    requires
        row.phase is Preparing,
        info@ is UnixSocket,
        row@.expected_socket is None || row@.expected_socket == Some(info@->UnixSocket_socket_path),
        *old(prepared) == row,
        call_ensures(OwnershipRow::record_prepared, (prepared, info, then), res),
        *old(active) == *final(prepared),
        call_ensures(OwnershipRow::commit_active, (active, now), committed),
    ensures
        committed,
        final(active)@.phase is Active,
        final(active)@.supervisor_pid == Some(info@->UnixSocket_supervisor_pid),
        final(active)@.socket_path == Some(info@->UnixSocket_socket_path),
        same_session(row@, final(active)@),
{
}

/// A create that failed is to be cleaned up; a session of the daemon is not touched by that.
pub proof fn law_failed_create_is_to_be_cleaned_up(row: &mut OwnershipRow, now: i64)
    requires
        call_ensures(OwnershipRow::mark_cleaning, (row, now), ()),
    ensures
        old(row)@.phase is Active ==> final(row)@ == old(row)@,
        !(old(row)@.phase is Active) ==> {
            &&& final(row)@.phase is Cleaning
            &&& final(row)@.updated_at_ms == now
            &&& final(row)@.close_operation_id == old(row)@.close_operation_id
            &&& same_session(old(row)@, final(row)@)
            &&& same_process(old(row)@, final(row)@)
            &&& same_notes(old(row)@, final(row)@)
        },
{
}

/// A close is begun for a session, and only for one, under the first number that was proposed for it.
pub proof fn law_close_is_begun_under_one_number(
    row: &mut OwnershipRow,
    proposed: u64,
    now: i64,
    number: Option<u64>,
)
    requires
        call_ensures(OwnershipRow::begin_close, (row, proposed, now), number),
    ensures
        number is Some <==> old(row)@.phase is Active || old(row)@.phase is Cleaning,
        number is None ==> final(row)@ == old(row)@,
        number is Some ==> {
            &&& final(row)@.phase is Cleaning
            &&& final(row)@.updated_at_ms == now
            &&& final(row)@.close_operation_id == number
            &&& old(row)@.close_operation_id is Some ==> number == old(row)@.close_operation_id
            &&& old(row)@.close_operation_id is None ==> number == Some(proposed)
            &&& same_session(old(row)@, final(row)@)
            &&& same_process(old(row)@, final(row)@)
            &&& same_notes(old(row)@, final(row)@)
        },
{
}

/// Asking twice gives the same number.
pub proof fn law_second_close_has_the_same_number(
    first: &mut OwnershipRow,
    proposed: u64,
    then: i64,
    number: Option<u64>,
    second: &mut OwnershipRow,
    other: u64,
    now: i64,
    again: Option<u64>,
)
    requires
        call_ensures(OwnershipRow::begin_close, (first, proposed, then), number),
        number is Some,
        *old(second) == *final(first),
        call_ensures(OwnershipRow::begin_close, (second, other, now), again),
    ensures
        again == number,
{
}

/// A session, or a process that was started for one, can be marked for cleaning under a number that stays.
pub proof fn law_stable_number_for_cleaning(
    row: &mut OwnershipRow,
    proposed: u64,
    now: i64,
    number: Option<u64>,
)
    requires
        call_ensures(OwnershipRow::mark_cleaning_with_stable_operation, (row, proposed, now), number),
    ensures
        number == final(row)@.close_operation_id,
        old(row)@.phase is Preparing || old(row)@.phase is Quarantined ==> final(row)@ == old(row)@,
        old(row)@.phase is Prepared || old(row)@.phase is Active || old(row)@.phase is Cleaning ==> {
            &&& final(row)@.phase is Cleaning
            &&& final(row)@.updated_at_ms == now
            &&& old(row)@.close_operation_id is Some ==> number == old(row)@.close_operation_id
            &&& old(row)@.close_operation_id is None ==> number == Some(proposed)
            &&& same_session(old(row)@, final(row)@)
            &&& same_process(old(row)@, final(row)@)
            &&& same_notes(old(row)@, final(row)@)
        },
{
}

/// A session that cannot be trusted is put aside with the reason; what is known of it is kept.
pub proof fn law_quarantine_keeps_what_is_known(row: &mut OwnershipRow, reason: &str, now: i64)
    requires
        call_ensures(OwnershipRow::quarantine, (row, reason, now), ()),
    ensures
        final(row)@.phase is Quarantined,
        final(row)@.diagnostic == Some(reason@),
        final(row)@.updated_at_ms == now,
        final(row)@.close_operation_id == old(row)@.close_operation_id,
        final(row)@.legacy_protocol == old(row)@.legacy_protocol,
        same_session(old(row)@, final(row)@),
        same_process(old(row)@, final(row)@),
{
}

/// A migrated session is one of the daemon, or is cleaned up if it was being closed. It speaks the old
/// protocol exactly if no capability could be installed.
pub proof fn law_migration_ends(
    row: &mut OwnershipRow,
    installed: bool,
    closing: bool,
    proposed: u64,
    now: i64,
)
    requires
        call_ensures(OwnershipRow::finish_migration, (row, installed, closing, proposed, now), ()),
    ensures
        !(old(row)@.phase is Prepared) ==> final(row)@ == old(row)@,
        old(row)@.phase is Prepared ==> {
            &&& final(row)@.legacy_protocol == !installed
            &&& final(row)@.diagnostic is None
            &&& final(row)@.updated_at_ms == now
            &&& same_session(old(row)@, final(row)@)
            &&& same_process(old(row)@, final(row)@)
            &&& closing ==> final(row)@.phase is Cleaning
            &&& closing && old(row)@.close_operation_id is None ==> final(row)@.close_operation_id
                == Some(proposed)
            &&& closing && old(row)@.close_operation_id is Some ==> final(row)@.close_operation_id
                == old(row)@.close_operation_id
            &&& !closing ==> final(row)@.phase is Active && final(row)@.close_operation_id == old(
                row,
            )@.close_operation_id
        },
{
}

/// A row is given up for a dead process only while it is being cleaned up.
pub proof fn law_only_cleaned_rows_are_given_up(row: &OwnershipRow, removable: bool)
    requires
        call_ensures(OwnershipRow::removable_when_dead, (row,), removable),
    ensures
        removable <==> row.phase is Cleaning,
{
}

/// A phase is found again by its name, and no other name is one of a phase.
pub proof fn law_phase_is_found_by_its_name(
    phase: OwnershipPhase,
    name: &'static str,
    other: &str,
    found: Option<OwnershipPhase>,
)
    requires
        call_ensures(OwnershipPhase::name, (&phase,), name),
        call_ensures(OwnershipPhase::from_name, (other,), found),
    ensures
        other@ == name@ <==> found == Some(phase),
        phase is Preparing <==> name@ == "preparing"@,
        phase is Prepared <==> name@ == "prepared"@,
        phase is Active <==> name@ == "active"@,
        phase is Cleaning <==> name@ == "cleaning"@,
        phase is Quarantined <==> name@ == "quarantined"@,
{
    reveal_strlit("preparing");
    reveal_strlit("prepared");
    reveal_strlit("active");
    reveal_strlit("cleaning");
    reveal_strlit("quarantined");
    assert("preparing"@.len() == 9);
    assert("prepared"@.len() == 8 && "prepared"@[0] == 'p');
    assert("active"@.len() == 6);
    assert("cleaning"@.len() == 8 && "cleaning"@[0] == 'c');
    assert("quarantined"@.len() == 11);
    assert(phase.text() == name@);
}

// ---------------------------------------------------------------------------
// What is done next

/// A session is asked whether it has ended; one that is being closed is cleaned up under its number; and any
/// other is left alone. Both name the process that the row points at.
pub proof fn law_reconciling_goes_by_the_row(row: &OwnershipRow, action: ReconcileAction)
    requires
        call_ensures(reconcile_action, (row,), action),
    ensures
        row@.socket_path is None || row@.supervisor_pid is None ==> action is Ignore,
        row@.phase is Preparing || row@.phase is Prepared || row@.phase is Quarantined ==> action is Ignore,
        row@.socket_path is Some && row@.supervisor_pid is Some && row@.phase is Active ==> {
            &&& action is AskNaturalExit
            &&& action->AskNaturalExit_0@ is UnixSocket
            &&& Some(action->AskNaturalExit_0@->UnixSocket_socket_path) == row@.socket_path
            &&& Some(action->AskNaturalExit_0@->UnixSocket_supervisor_pid) == row@.supervisor_pid
            &&& action->AskNaturalExit_0@->UnixSocket_supervisor_status is Running
        },
        row@.socket_path is Some && row@.supervisor_pid is Some && row@.phase is Cleaning ==> {
            &&& action is CleanUp
            &&& action->CleanUp_restore_info@ is UnixSocket
            &&& Some(action->CleanUp_restore_info@->UnixSocket_socket_path) == row@.socket_path
            &&& Some(action->CleanUp_restore_info@->UnixSocket_supervisor_pid) == row@.supervisor_pid
            &&& action->CleanUp_restore_info@->UnixSocket_supervisor_status is Closing
            &&& action->CleanUp_operation_id == row@.close_operation_id
            &&& action->CleanUp_legacy == row@.legacy_protocol
        },
{
}

/// Once a close was begun, its process is cleaned up under the number that was given for it.
pub proof fn law_begun_close_is_carried_out(
    row: &mut OwnershipRow,
    proposed: u64,
    now: i64,
    number: Option<u64>,
    action: ReconcileAction,
)
    requires
        call_ensures(OwnershipRow::begin_close, (row, proposed, now), number),
        number is Some,
        old(row)@.socket_path is Some,
        old(row)@.supervisor_pid is Some,
        call_ensures(reconcile_action, (&*final(row),), action),
    ensures
        action is CleanUp,
        action->CleanUp_operation_id == number,
        Some(action->CleanUp_restore_info@->UnixSocket_supervisor_pid) == old(row)@.supervisor_pid,
{
}

/// A recorded session matches its row exactly if it ran, at the same socket and under the same process.
pub proof fn law_evidence_is_compared(row: &OwnershipRow, record: &SessionStateRecord, same: bool)
    requires
        call_ensures(active_evidence_matches, (row, record), same),
    ensures
        same <==> record@.restore_info is Some && record@.restore_info->0 is UnixSocket
            && record@.restore_info->0->UnixSocket_supervisor_status is Running && row@.socket_path
            == Some(record@.restore_info->0->UnixSocket_socket_path) && row@.supervisor_pid == Some(
            record@.restore_info->0->UnixSocket_supervisor_pid,
        ),
{
}

/// After a restart a session is reconnected to if its row and its record agree, and put aside if not. One
/// that awaits migration gets its capability if it is known where it is, and is put aside if not.
pub proof fn law_recovery_goes_by_row_and_record(
    row: Option<&OwnershipRow>,
    record: &SessionStateRecord,
    same: bool,
    action: RecoveryAction,
)
    requires
        call_ensures(recovery_action, (row, record), action),
        row is Some ==> call_ensures(active_evidence_matches, (row->0, record), same),
    ensures
        row is None ==> action is Skip,
        row is Some && row->0@.phase is Active && same ==> action is Reconnect,
        row is Some && row->0@.phase is Active && !same ==> action is QuarantineMismatch,
        row is Some && row->0@.phase is Prepared && row->0@.diagnostic == Some("legacy_migration"@) ==> {
            &&& record@.restore_info is Some ==> action is InstallCapability
            &&& record@.restore_info is None ==> action is QuarantineWithoutEvidence
        },
        row is Some && row->0@.phase is Prepared && row->0@.diagnostic != Some("legacy_migration"@)
            ==> action is Skip,
        row is Some && (row->0@.phase is Preparing || row->0@.phase is Cleaning
            || row->0@.phase is Quarantined) ==> action is Skip,
{
}

/// A session from before the ledger gets a row. It awaits migration if it ran and it is known where; if not,
/// it is put aside.
pub proof fn law_old_session_gets_a_row(
    record: &SessionStateRecord,
    create_operation_id: &[u8],
    capability: &[u8],
    now: i64,
    res: (OwnershipRow, bool),
    action: RecoveryAction,
)
    requires
        call_ensures(backfilled_row, (record, create_operation_id, capability, now), res),
        call_ensures(recovery_action, (Some(&res.0), record), action),
    ensures
        ({
            let row = (res.0)@;
            let info = record@.restore_info;
            let found = record@.state is Running && info is Some && info->0 is UnixSocket
                && !(info->0->UnixSocket_supervisor_status is Closed)
                && info->0->UnixSocket_supervisor_pid != 0 && info->0->UnixSocket_socket_path.len() > 0;
            &&& res.1 <==> !found
            &&& row.session_id == record@.session_id
            &&& row.create_operation_id == create_operation_id@
            &&& row.capability == capability@
            &&& row.created_at_ms == now && row.updated_at_ms == now
            &&& row.close_operation_id is None && row.owner_generation is None && !row.legacy_protocol
            &&& found ==> {
                &&& row.phase is Prepared
                &&& row.supervisor_pid == Some(info->0->UnixSocket_supervisor_pid)
                &&& row.socket_path == Some(info->0->UnixSocket_socket_path)
                &&& row.expected_socket == Some(info->0->UnixSocket_socket_path)
                &&& action is InstallCapability
            }
            &&& !found ==> {
                &&& row.phase is Quarantined
                &&& row.supervisor_pid is None && row.socket_path is None
                &&& row.expected_socket is None
                &&& row.diagnostic == Some("legacy runtime evidence is missing or invalid"@)
                &&& action is Skip
            }
        }),
{
}

/// A recorded session was being closed exactly if its record says so.
pub proof fn law_closing_is_read_from_the_record(record: &SessionStateRecord, closing: bool)
    requires
        call_ensures(was_closing, (record,), closing),
    ensures
        closing <==> record@.restore_info is Some && record@.restore_info->0 is UnixSocket
            && record@.restore_info->0->UnixSocket_supervisor_status is Closing,
{
}

/// A supervisor whose authority cannot be shown is put aside; otherwise the session is reconnected to,
/// or the reconciler is woken if it was being closed.
pub proof fn law_migration_goes_by_authority(
    installed: &PtyResult<bool>,
    closing: bool,
    step: MigrationStep,
    note: Option<&'static str>,
)
    requires
        call_ensures(migration_step, (installed, closing), step),
        call_ensures(MigrationStep::diagnostic, (&step,), note),
    ensures
        *installed is Err ==> step is Quarantine && note is Some,
        *installed is Ok && closing ==> step is WakeReconciler && note is None,
        *installed is Ok && !closing ==> step is Reconnect && note is None,
{
}

/// An unfinished create of another daemon is cleaned up if its process is known, and removed if its socket is
/// gone; what a daemon does itself is left alone.
pub proof fn law_unfinished_creates_of_others(
    row: &OwnershipRow,
    generation: &[u8],
    action: InterruptedCreate,
)
    requires
        call_ensures(interrupted_create, (row, generation), action),
    ensures
        action is Clean <==> row@.owner_generation != Some(generation@) && row@.phase is Prepared
            && row@.diagnostic is None,
        action is RemoveIfSocketAbsent <==> row@.owner_generation != Some(generation@)
            && row@.phase is Preparing,
{
}

/// A create goes step by step. Before the process is started a failure only ends it; afterwards it asks for
/// a cleanup, of the runtime too once the session stands there.
pub proof fn law_create_goes_step_by_step(
    begun: OwnedCreate,
    first: &mut OwnedCreate,
    intent: Result<(), OwnershipError>,
    to_spawn: CreateStep,
    second: &mut OwnedCreate,
    spawned: PtyResult<()>,
    evidence: bool,
    to_prepare: CreateStep,
    third: &mut OwnedCreate,
    prepared: Result<(), OwnershipError>,
    to_commit: CreateStep,
    fourth: &mut OwnedCreate,
    committed: Result<(), OwnershipError>,
    done: CreateStep,
)
    requires
        call_ensures(OwnedCreate::begin, (), begun),
        *old(first) == begun,
        call_ensures(OwnedCreate::on_intent, (first, intent), to_spawn),
        *old(second) == *final(first),
        intent is Ok ==> call_ensures(OwnedCreate::on_spawned, (second, spawned, evidence), to_prepare),
        *old(third) == *final(second),
        intent is Ok && spawned is Ok && evidence ==> call_ensures(
            OwnedCreate::on_result,
            (third, prepared),
            to_commit,
        ),
        *old(fourth) == *final(third),
        intent is Ok && spawned is Ok && evidence && prepared is Ok ==> call_ensures(
            OwnedCreate::on_result,
            (fourth, committed),
            done,
        ),
    ensures
        intent is Err ==> to_spawn == CreateStep::Failed(intent->Err_0),
        intent is Ok ==> to_spawn is Spawn,
        intent is Ok && spawned is Err ==> to_prepare == (CreateStep::CleanUp {
            take_from_runtime: false,
            error: OwnershipError::Pty(spawned->Err_0),
        }),
        intent is Ok && spawned is Ok && !evidence ==> to_prepare is CleanUp
            && to_prepare->CleanUp_take_from_runtime,
        intent is Ok && spawned is Ok && evidence ==> {
            &&& to_prepare is Prepare
            &&& prepared is Err ==> to_commit == (CreateStep::CleanUp {
                take_from_runtime: true,
                error: prepared->Err_0,
            })
            &&& prepared is Ok ==> {
                &&& to_commit is Commit
                &&& committed is Err ==> done == (CreateStep::CleanUp {
                    take_from_runtime: true,
                    error: committed->Err_0,
                })
                &&& committed is Ok ==> done is Done && final(fourth).at() is Over
            }
        },
{
}

/// Sessions are reconciled once each, the older first and those of one age by their names.
pub proof fn law_older_sessions_come_first(rows: &[OwnershipRow], order: Vec<usize>)
    requires
        call_ensures(reconcile_order, (rows,), order),
    ensures
        forall|i: int, j: int|
            0 <= i < j < order@.len() ==> {
                let a = rows@[#[trigger] order@[i] as int]@;
                let b = rows@[#[trigger] order@[j] as int]@;
                &&& order@[i] != order@[j]
                &&& a.created_at_ms <= b.created_at_ms
                &&& a.created_at_ms == b.created_at_ms ==> !text_less(b.session_id, a.session_id)
            },
        forall|p: int|
            0 <= p < rows@.len() ==> {
                let row = (#[trigger] rows@[p])@;
                (exists|i: int| 0 <= i < order@.len() && #[trigger] order@[i] == p) <==> (
                row.phase is Active || row.phase is Cleaning) && row.socket_path is Some
                    && row.supervisor_pid is Some
            },
        forall|i: int| 0 <= i < order@.len() ==> #[trigger] order@[i] < rows@.len(),
{
}

// ---------------------------------------------------------------------------
// Answers

/// A reconnect is tried three times, and only the process's side is given another chance.
pub proof fn law_reconnect_is_tried_three_times(error: &RuntimeError, attempt: u32, retry: bool)
    requires
        call_ensures(should_retry_reconnect, (error, attempt), retry),
    ensures
        !(*error is Pty) ==> !retry,
        *error is Pty ==> (retry <==> attempt < 3),
{
}

/// A session whose process was found again has the size and the times that were recorded, and nothing else
/// has changed. One that is known, was closed or left no trace is refused, and nothing changes.
pub proof fn law_reconnected_session_is_as_recorded<B: PtyBackend>(
    runtime: &mut SessionRuntime<B>,
    record: &SessionStateRecord,
    res: RuntimeResult<()>,
)
    requires
        call_ensures(reconnect_active_with_retry::<B>, (runtime, record), res),
    ensures
        res is Ok ==> {
            let id = record.session_id@;
            &&& !old(runtime)@.sessions.contains_key(id)
            &&& final(runtime)@.sessions.contains_key(id)
            &&& final(runtime)@.sessions[id].size == record.size
            &&& final(runtime)@.running.contains_key(id)
            &&& final(runtime)@.running[id].created_at_ms == record.created_at_ms
            &&& final(runtime)@.running[id].updated_at_ms == record.updated_at_ms
            &&& final(runtime).processes().contains_key(id)
            &&& same_elsewhere(old(runtime)@.sessions, final(runtime)@.sessions, id)
        },
        old(runtime)@.running.contains_key(record.session_id@) ==> res == Err::<(), RuntimeError>(
            RuntimeError::SessionAlreadyExists,
        ) && final(runtime).whole() == old(runtime).whole(),
        !old(runtime)@.running.contains_key(record.session_id@) && record.state is Closed ==> res
            == Err::<(), RuntimeError>(RuntimeError::SessionClosed) && final(runtime).whole() == old(
            runtime,
        ).whole(),
        !old(runtime)@.running.contains_key(record.session_id@) && !(record.state is Closed)
            && record.restore_info is None ==> res == Err::<(), RuntimeError>(
            RuntimeError::NotReconnectable,
        ) && final(runtime).whole() == old(runtime).whole(),
{
}

/// A session has ended on its own only if it said so, and a cleanup is confirmed by the answer or by the
/// process being gone.
pub proof fn law_end_is_believed(
    answer: PtyResult<bool>,
    ended: bool,
    outcome: &PtyResult<bool>,
    absent: bool,
    confirmed: bool,
)
    requires
        call_ensures(ended_on_its_own, (answer,), ended),
        call_ensures(cleanup_confirmed, (outcome, absent), confirmed),
    ensures
        ended <==> answer == Ok::<bool, PtyError>(true),
        confirmed <==> absent || *outcome == Ok::<bool, PtyError>(true),
{
}

/// Waiting for a close ends when the session is gone, or with an error when the time is up.
pub proof fn law_waiting_for_a_close_ends(gone: bool, in_time: bool, done: Option<PtyResult<()>>)
    requires
        call_ensures(close_wait_step, (gone, in_time), done),
    ensures
        done is None <==> !gone && in_time,
        done is Some ==> (done->0 is Ok <==> gone),
{
}

/// The number of an operation is read from its bytes, the highest first, and is never zero.
pub proof fn law_operation_number_is_read_from_its_bytes(bytes: &[u8], number: u64, value: u64)
    requires
        bytes@.len() == 8,
        call_ensures(operation_id_from_bytes, (bytes,), number),
        value == 256 * (256 * (256 * (256 * (256 * (256 * (256 * bytes@[0] + bytes@[1]) + bytes@[2])
            + bytes@[3]) + bytes@[4]) + bytes@[5]) + bytes@[6]) + bytes@[7],
    ensures
        value != 0 ==> number == value,
        value == 0 ==> number == 1,
{
}

/// The time of the ledger is the time that has passed, as far as it fits.
pub proof fn law_ledger_time_is_what_passed(elapsed: Option<u128>, now: i64)
    requires
        call_ensures(ledger_timestamp, (elapsed,), now),
    ensures
        elapsed is None ==> now == 0,
        elapsed is Some && elapsed->0 <= 0x7fff_ffff_ffff_ffff ==> now == elapsed->0,
        elapsed is Some && elapsed->0 > 0x7fff_ffff_ffff_ffff ==> now == 0x7fff_ffff_ffff_ffff,
{
}

/// A process is a zombie by the letter behind its name, which may hold brackets and blanks itself.
pub proof fn law_zombie_is_told_behind_the_name(
    stat: &str,
    zombie: bool,
    name: Seq<char>,
    rest: Seq<char>,
)
    requires
        call_ensures(stat_is_zombie, (stat,), zombie),
        stat@ == name.push(')').push(' ') + rest,
        forall|i: int| 0 <= i < rest.len() - 1 ==> !(#[trigger] rest[i] == ')' && rest[i + 1] == ' '),
    ensures
        zombie <==> rest.len() > 0 && rest[0] == 'Z',
{
    reveal_strlit(") ");
    let mark = ") "@;
    let at = name.len() as int;
    assert(mark =~= seq![')', ' ']);
    assert(stat@.subrange(at, at + 2) =~= mark);
    assert forall|j: int| at < j implies !occurs_at(stat@, mark, j) by {
        if occurs_at(stat@, mark, j) {
            assert(stat@.subrange(j, j + 2)[0] == mark[0]);
            assert(stat@.subrange(j, j + 2)[1] == mark[1]);
            if j > at + 1 {
                assert(rest[j - at - 2] == ')');
                assert(rest[j - at - 2 + 1] == ' ');
            }
        }
    }
    lemma_last_close(stat@, at, stat@.len() as int);
    if rest.len() > 0 {
        assert(stat@[at + 2] == rest[0]);
    }
}

proof fn lemma_last_close(stat: Seq<char>, at: int, from: int)
    requires
        0 <= at <= from,
        occurs_at(stat, ") "@, at),
        forall|j: int| at < j ==> !#[trigger] occurs_at(stat, ") "@, j),
    ensures
        last_close(stat, from) == Some(at),
    decreases from,
{
    if at < from {
        lemma_last_close(stat, at, from - 1);
    }
}

/// A table that does not lack a column has one of that name.
pub proof fn law_present_column_has_its_name(columns: &[String], name: &str, lacks: bool)
    requires
        call_ensures(lacks_column, (columns, name), lacks),
    ensures
        !lacks ==> exists|i: int| 0 <= i < columns@.len() && (#[trigger] columns@[i])@ == name@,
{
}

/// An error of the ledger says where it comes from and then what it is.
pub proof fn law_ledger_error_names_its_source(error: &OwnershipError, text: String)
    requires
        call_ensures(OwnershipError::to_string, (error,), text),
    ensures
        match *error {
            OwnershipError::State(why) => text@ == "ownership state error: "@ + why@,
            OwnershipError::Sqlite(why) => text@ == "ownership database error: "@ + why@,
            OwnershipError::Pty(why) => text@ == "ownership PTY error: "@ + why@.text(),
            OwnershipError::Runtime(why) => text@ == "ownership runtime error: "@ + why.text(),
            OwnershipError::Preparation => text@ == "owned session preparation failed"@,
        },
{
}

/// What is noted when a session is put aside says why.
pub proof fn law_notes_say_why(
    action: RecoveryAction,
    note: Option<&'static str>,
    migrated: bool,
    text: &'static str,
)
    requires
        call_ensures(RecoveryAction::diagnostic, (&action,), note),
        call_ensures(unreachable_diagnostic, (migrated,), text),
    ensures
        note is Some <==> action is QuarantineMismatch || action is QuarantineWithoutEvidence,
        action is QuarantineMismatch ==> note->0@
            == "public runtime projection does not match durable ownership evidence"@,
        action is QuarantineWithoutEvidence ==> note->0@ == "legacy runtime row has no restore evidence"@,
        migrated ==> text@ == "migrated supervisor could not be authenticated and reconnected"@,
        !migrated ==> text@ == "owned supervisor could not be authenticated and reconnected"@,
{
}

} // verus!
