//! The ledger of sessions that outlive the daemon.

use std::sync::atomic::{AtomicUsize, Ordering};
use std::sync::Arc;
use termd::pty::activity::UnixTimestampMillis;
use termd::pty::{
    CommandSpec, PtyBackend, PtyError, PtyExitStatus, PtyRestoreInfo, PtyResult, PtySession,
    PtySize, PtySnapshot, PtySupervisorStatus,
};
use termd::runtime::{RuntimeError, SessionRuntime, SessionStateRecord};
use termd::session::{SessionState, TerminalSize};
use termd::session_ownership::{
    active_evidence_matches, backfilled_row, cleanup_confirmed, close_wait_step, ended_on_its_own,
    interrupted_create, lacks_column, ledger_timestamp, migration_step, operation_id_from_bytes,
    random_operation_id, reconcile_action, reconcile_order, reconnect_active_with_retry,
    recovery_action, should_retry_reconnect, stat_is_zombie, unreachable_diagnostic, was_closing,
    CreateStep, InterruptedCreate, MigrationStep, OwnedCreate, OwnershipError, OwnershipPhase, OwnershipRow,
    ReconcileAction, RecoveryAction,
};

const SESSION: &str = "00000000-0000-0000-0000-000000000006";

fn evidence(supervisor_pid: u32) -> PtyRestoreInfo {
    PtyRestoreInfo::UnixSocket {
        socket_path: "/run/s.sock".to_owned(),
        supervisor_pid,
        supervisor_status: PtySupervisorStatus::Running,
    }
}

fn record(restore_info: Option<PtyRestoreInfo>) -> SessionStateRecord {
    SessionStateRecord {
        session_id: SESSION.to_owned(),
        state: SessionState::Running,
        size: TerminalSize::cells(24, 80),
        created_at_ms: UnixTimestampMillis(1),
        updated_at_ms: UnixTimestampMillis(2),
        restore_info,
    }
}

fn preparing(generation: &[u8]) -> OwnershipRow {
    OwnershipRow::preparing(
        SESSION,
        &[1; 16],
        &[2; 32],
        Some("/run/s.sock".to_owned()),
        10,
        generation,
    )
}

fn active() -> OwnershipRow {
    let mut row = preparing(&[9; 16]);
    row.record_prepared(&evidence(4242), 11).unwrap();
    assert!(row.commit_active(12));
    row
}

#[test]
fn create_does_not_spawn_when_preparing_intent_cannot_commit() {
    let mut create = OwnedCreate::begin();
    assert!(matches!(
        create.on_intent(Err(OwnershipError::Sqlite("database is locked".to_owned()))),
        CreateStep::Failed(OwnershipError::Sqlite(_))
    ));
}

#[test]
fn create_commits_pid_evidence_before_startup_grant() {
    let mut create = OwnedCreate::begin();
    assert!(matches!(create.on_intent(Ok(())), CreateStep::Spawn));
    let mut row = preparing(&[9; 16]);
    assert_eq!(row.phase, OwnershipPhase::Preparing);
    row.record_prepared(&evidence(4242), 11).unwrap();
    assert_eq!(row.phase.name(), "prepared");
    assert_eq!(row.supervisor_pid, Some(4242));
    assert!(matches!(
        create.on_spawned(
            Err(PtyError::Backend("stop after grant observation".to_owned())),
            false
        ),
        CreateStep::CleanUp {
            take_from_runtime: false,
            ..
        }
    ));
}

#[test]
fn successful_create_atomically_publishes_active_runtime_projection() {
    let mut create = OwnedCreate::begin();
    create.on_intent(Ok(()));
    assert!(matches!(
        create.on_spawned(Ok(()), true),
        CreateStep::Prepare
    ));
    assert!(matches!(create.on_result(Ok(())), CreateStep::Commit));
    assert!(matches!(create.on_result(Ok(())), CreateStep::Done));
    assert_eq!(active().phase.name(), "active");
}

#[test]
fn reconciler_never_claims_current_generation_prepared_create() {
    let mut row = preparing(&[9; 16]);
    assert_eq!(interrupted_create(&row, &[9; 16]), InterruptedCreate::Keep);
    row.record_prepared(&evidence(4243), 11).unwrap();
    assert_eq!(interrupted_create(&row, &[9; 16]), InterruptedCreate::Keep);
}

#[test]
fn previous_generation_prepared_create_is_hidden_and_reconciled() {
    let mut row = preparing(&[9; 16]);
    assert_eq!(
        interrupted_create(&row, &[8; 16]),
        InterruptedCreate::RemoveIfSocketAbsent
    );
    row.record_prepared(&evidence(u32::MAX), 11).unwrap();
    assert_eq!(interrupted_create(&row, &[8; 16]), InterruptedCreate::Clean);
    row.mark_cleaning(12);
    assert_eq!(row.phase, OwnershipPhase::Cleaning);
    assert!(matches!(
        reconcile_action(&row),
        ReconcileAction::CleanUp { legacy: false, .. }
    ));
    assert!(cleanup_confirmed(&Ok(true), false));
    assert!(row.removable_when_dead());
    assert!(matches!(
        recovery_action(Some(&row), &record(Some(evidence(u32::MAX)))),
        RecoveryAction::Skip
    ));
}

#[test]
fn active_projection_with_mismatched_evidence_is_quarantined() {
    let mut row = active();
    row.supervisor_pid = Some(4243);
    let action = recovery_action(Some(&row), &record(Some(evidence(4242))));
    assert!(matches!(action, RecoveryAction::QuarantineMismatch));
    let diagnostic = action.diagnostic().unwrap();
    row.quarantine(diagnostic, 20);
    assert_eq!(row.phase.name(), "quarantined");
    assert_eq!(row.diagnostic.as_deref(), Some(diagnostic));
    assert!(matches!(
        recovery_action(Some(&row), &record(Some(evidence(4242)))),
        RecoveryAction::Skip
    ));
}

struct TransientReconnectBackend {
    reconnect_attempts: Arc<AtomicUsize>,
    failures: usize,
}

struct NoopSession;

impl PtySession for NoopSession {
    fn read(&mut self, _buffer: &mut [u8]) -> PtyResult<usize> {
        Ok(0)
    }

    fn write_all(&mut self, _bytes: &[u8]) -> PtyResult<()> {
        Ok(())
    }

    fn resize(&mut self, _size: PtySize) -> PtyResult<()> {
        Ok(())
    }

    fn snapshot(&mut self) -> PtyResult<PtySnapshot> {
        Err(PtyError::Backend("no snapshot".to_owned()))
    }

    fn terminate(&mut self) -> PtyResult<()> {
        Ok(())
    }

    fn try_wait(&mut self) -> PtyResult<Option<PtyExitStatus>> {
        Ok(None)
    }

    fn wait(&mut self) -> PtyResult<PtyExitStatus> {
        Ok(PtyExitStatus::exited(0))
    }

    fn process_id(&self) -> Option<u32> {
        None
    }
}

impl PtyBackend for TransientReconnectBackend {
    type Session = NoopSession;

    fn spawn(&self, _command: &CommandSpec, _size: PtySize) -> PtyResult<NoopSession> {
        Err(PtyError::Backend("spawn should not run".to_owned()))
    }

    fn reconnect(
        &self,
        _session_id: &str,
        _restore_info: &PtyRestoreInfo,
        _size: PtySize,
    ) -> PtyResult<NoopSession> {
        let attempt = self.reconnect_attempts.fetch_add(1, Ordering::SeqCst);
        if attempt < self.failures {
            return Err(PtyError::Backend(
                "injected transient reconnect failure".to_owned(),
            ));
        }
        Ok(NoopSession)
    }
}

#[test]
fn active_recovery_retries_one_transient_pty_reconnect_failure() {
    let attempts = Arc::new(AtomicUsize::new(0));
    let mut runtime = SessionRuntime::new(TransientReconnectBackend {
        reconnect_attempts: Arc::clone(&attempts),
        failures: 1,
    });
    let row = active();
    let record = record(Some(evidence(4242)));
    assert!(matches!(
        recovery_action(Some(&row), &record),
        RecoveryAction::Reconnect
    ));
    reconnect_active_with_retry(&mut runtime, &record).unwrap();
    assert_eq!(attempts.load(Ordering::SeqCst), 2);
    assert_eq!(runtime.state(SESSION).unwrap(), SessionState::Running);
}

#[test]
fn lasting_reconnect_failures_are_reported() {
    let attempts = Arc::new(AtomicUsize::new(0));
    let mut runtime = SessionRuntime::new(TransientReconnectBackend {
        reconnect_attempts: Arc::clone(&attempts),
        failures: 9,
    });
    assert!(reconnect_active_with_retry(&mut runtime, &record(Some(evidence(4242)))).is_err());
    assert_eq!(attempts.load(Ordering::SeqCst), 3);
    assert!(!should_retry_reconnect(&RuntimeError::NotReconnectable, 0));
}

#[test]
fn active_commit_survives_lost_response_and_recovers_after_restart() {
    let row = active();
    let record = record(Some(evidence(4242)));
    assert!(active_evidence_matches(&row, &record));
    assert!(matches!(
        recovery_action(Some(&row), &record),
        RecoveryAction::Reconnect
    ));
}

#[test]
fn evidence_must_fit_the_intent() {
    let mut row = preparing(&[9; 16]);
    let elsewhere = PtyRestoreInfo::UnixSocket {
        socket_path: "/run/other.sock".to_owned(),
        supervisor_pid: 4242,
        supervisor_status: PtySupervisorStatus::Running,
    };
    assert!(row.record_prepared(&elsewhere, 11).is_err());
    assert_eq!(row.phase, OwnershipPhase::Preparing);
    let tmux = PtyRestoreInfo::Tmux {
        socket_path: "/run/s.sock".to_owned(),
        session_name: "s".to_owned(),
    };
    assert!(row.record_prepared(&tmux, 11).is_err());
}

#[test]
fn close_numbers_never_change() {
    let mut row = active();
    assert_eq!(row.begin_close(5, 20), Some(5));
    assert_eq!(row.phase, OwnershipPhase::Cleaning);
    assert_eq!(row.begin_close(6, 21), Some(5));
    assert_eq!(row.mark_cleaning_with_stable_operation(7, 22), Some(5));
    match reconcile_action(&row) {
        ReconcileAction::CleanUp {
            operation_id,
            restore_info,
            ..
        } => {
            assert_eq!(operation_id, Some(5));
            assert!(matches!(
                restore_info,
                PtyRestoreInfo::UnixSocket { supervisor_pid: 4242, .. }
            ));
        }
        other => panic!("a closing session must be cleaned up: {other:?}"),
    }
    assert_eq!(preparing(&[9; 16]).begin_close(5, 20), None);
}

#[test]
fn sessions_of_an_earlier_version_are_migrated() {
    let (mut row, hidden) = backfilled_row(&record(Some(evidence(4242))), &[1; 16], &[2; 32], 30);
    assert!(!hidden);
    assert!(matches!(
        recovery_action(Some(&row), &record(Some(evidence(4242)))),
        RecoveryAction::InstallCapability
    ));
    row.finish_migration(true, false, 5, 31);
    assert_eq!(row.phase, OwnershipPhase::Active);
    assert!(!row.legacy_protocol);

    let (row, hidden) = backfilled_row(&record(None), &[1; 16], &[2; 32], 30);
    assert!(hidden);
    assert_eq!(row.phase, OwnershipPhase::Quarantined);
    assert!(!was_closing(&record(Some(evidence(1)))));
    assert_ne!(unreachable_diagnostic(true), unreachable_diagnostic(false));
}

#[test]
fn ended_sessions_are_removed() {
    assert!(matches!(
        reconcile_action(&active()),
        ReconcileAction::AskNaturalExit(_)
    ));
    assert!(ended_on_its_own(Ok(true)));
    assert!(!ended_on_its_own(Ok(false)));
    assert!(!ended_on_its_own(Err(PtyError::Backend("no".to_owned()))));
    assert!(cleanup_confirmed(
        &Err(PtyError::Backend("no".to_owned())),
        true
    ));
    assert!(!cleanup_confirmed(&Ok(false), false));
    assert!(stat_is_zombie("42 (a) b) Z 1 1"));
    assert!(!stat_is_zombie("42 (a) Z) S 1 1"));
}

#[test]
fn rows_are_reconciled_from_the_oldest() {
    let mut first = active();
    first.created_at_ms = 5;
    let mut second = active();
    second.created_at_ms = 3;
    let skipped = preparing(&[9; 16]);
    assert_eq!(reconcile_order(&[first, skipped, second]), [2, 0]);
}

#[test]
fn phases_are_stored_by_name() {
    for phase in [
        OwnershipPhase::Preparing,
        OwnershipPhase::Prepared,
        OwnershipPhase::Active,
        OwnershipPhase::Cleaning,
        OwnershipPhase::Quarantined,
    ] {
        assert_eq!(OwnershipPhase::from_name(phase.name()), Some(phase));
    }
    assert_eq!(OwnershipPhase::from_name("gone"), None);
    assert!(lacks_column(&["a".to_owned()], "b"));
    assert!(!lacks_column(&["a".to_owned()], "a"));
}

#[test]
fn operation_numbers_are_never_zero() {
    assert_eq!(operation_id_from_bytes(&[0; 8]), 1);
    assert_eq!(operation_id_from_bytes(&[0, 0, 0, 0, 0, 0, 1, 2]), 258);
    assert_eq!(operation_id_from_bytes(&[0xff; 8]), u64::MAX);
    assert_ne!(random_operation_id().unwrap(), 0);
    assert_eq!(ledger_timestamp(Some(12)), 12);
    assert_eq!(ledger_timestamp(None), 0);
}

#[test]
fn ownership_errors_have_texts() {
    assert!(OwnershipError::from(PtyError::Backend("x".to_owned()))
        .to_string()
        .contains("x"));
    assert!(OwnershipError::from(RuntimeError::SessionClosed)
        .to_string()
        .contains("session is closed"));
}

#[test]
fn migrations_end_in_quarantine_cleanup_or_a_connection() {
    let refused: PtyResult<bool> = Err(PtyError::Backend("no".to_owned()));
    for closing in [false, true] {
        let step = migration_step(&refused, closing);
        assert_eq!(step, MigrationStep::Quarantine);
        assert_eq!(step.diagnostic(), Some("legacy supervisor authority is unverified"));
    }
    for installed in [false, true] {
        assert_eq!(migration_step(&Ok(installed), true), MigrationStep::WakeReconciler);
        assert_eq!(migration_step(&Ok(installed), false), MigrationStep::Reconnect);
        assert_eq!(migration_step(&Ok(installed), false).diagnostic(), None);
    }
}

#[test]
fn a_close_is_waited_for_until_its_deadline() {
    assert!(matches!(close_wait_step(true, true), Some(Ok(()))));
    assert!(close_wait_step(false, true).is_none());
    let Some(Err(error)) = close_wait_step(false, false) else {
        panic!("a close that takes too long must be given up");
    };
    assert!(error
        .to_string()
        .contains("timed out waiting for owned session cleanup"));
}
