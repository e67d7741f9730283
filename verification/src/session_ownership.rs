//! Who owns a session's process: the durable ledger of creating, running and cleaning up sessions.
//!
//! A row of the ledger is written before a process is started and removed after it is known to be
//! dead, so that no process is ever forgotten. This module holds the rules by which a row changes and
//! what to do for it next; reading and writing the database, and talking to the processes, is done
//! around it.

use crate::codec::{draw_random_bytes, may_be_drawn};
use crate::pty::{
    PtyBackend, PtyError, PtyErrorModel, PtyRestoreInfo, PtyResult, PtySupervisorStatus, RestoreModel,
};
use crate::runtime::{
    fails_with, reconnect_answer, record_refusal, taken_up_with, RuntimeError, RuntimeResult,
    SessionRuntime, SessionStateRecord, StateRecordModel,
};
use crate::session::SessionState;
use crate::text::{
    bytes_equal, chars_match_at, concat, lemma_text_order, occurs_at, str_chars, str_equal, text_less,
    text_order, TextOrder,
};
use vstd::prelude::*;
use vstd::slice::slice_to_vec;

verus! {

/// Where a session is in the ledger.
#[derive(Debug, Clone, Copy, PartialEq, Eq, Structural)]
pub enum OwnershipPhase {
    /// Its process is about to be started.
    Preparing,
    /// Its process was started and is known by its number.
    Prepared,
    /// It is a session of the daemon.
    Active,
    /// Its process is to be ended.
    Cleaning,
    /// It cannot be trusted, and is left alone.
    Quarantined,
}

impl OwnershipPhase {
    /// The name of the phase in the ledger.
    pub open spec fn text(self) -> Seq<char> {
        match self {
            OwnershipPhase::Preparing => "preparing"@,
            OwnershipPhase::Prepared => "prepared"@,
            OwnershipPhase::Active => "active"@,
            OwnershipPhase::Cleaning => "cleaning"@,
            OwnershipPhase::Quarantined => "quarantined"@,
        }
    }

    /// The name of the phase in the ledger.
    pub fn name(&self) -> (name: &'static str)
        ensures
            name@ == self.text(),
    {
        match self {
            OwnershipPhase::Preparing => "preparing",
            OwnershipPhase::Prepared => "prepared",
            OwnershipPhase::Active => "active",
            OwnershipPhase::Cleaning => "cleaning",
            OwnershipPhase::Quarantined => "quarantined",
        }
    }

    /// The phase with a name, if there is one.
    pub fn from_name(name: &str) -> (phase: Option<OwnershipPhase>)
        ensures
            match phase {
                Some(p) => p.text() == name@,
                None => forall|other: OwnershipPhase| #[trigger] other.text() != name@,
            },
    {
        if str_equal(name, "preparing") {
            Some(OwnershipPhase::Preparing)
        } else if str_equal(name, "prepared") {
            Some(OwnershipPhase::Prepared)
        } else if str_equal(name, "active") {
            Some(OwnershipPhase::Active)
        } else if str_equal(name, "cleaning") {
            Some(OwnershipPhase::Cleaning)
        } else if str_equal(name, "quarantined") {
            Some(OwnershipPhase::Quarantined)
        } else {
            None
        }
    }
}

/// Why an operation on the ledger failed.
#[derive(Debug)]
pub enum OwnershipError {
    State(String),
    Sqlite(String),
    Pty(PtyError),
    Runtime(RuntimeError),
    Preparation,
}

impl OwnershipError {
    /// The message shown to users.
    pub open spec fn text(self) -> Seq<char> {
        match self {
            OwnershipError::State(error) => "ownership state error: "@ + error@,
            OwnershipError::Sqlite(error) => "ownership database error: "@ + error@,
            OwnershipError::Pty(error) => "ownership PTY error: "@ + error@.text(),
            OwnershipError::Runtime(error) => "ownership runtime error: "@ + error.text(),
            OwnershipError::Preparation => "owned session preparation failed"@,
        }
    }

    /// The message shown to users.
    pub fn to_string(&self) -> (text: String)
        ensures
            text@ == self.text(),
    {
        match self {
            OwnershipError::State(error) => concat("ownership state error: ", error.as_str()),
            OwnershipError::Sqlite(error) => concat("ownership database error: ", error.as_str()),
            OwnershipError::Pty(error) => concat(
                "ownership PTY error: ",
                error.to_string().as_str(),
            ),
            OwnershipError::Runtime(error) => concat(
                "ownership runtime error: ",
                error.to_string().as_str(),
            ),
            OwnershipError::Preparation => "owned session preparation failed".to_owned(),
        }
    }
}

impl From<PtyError> for OwnershipError {
    fn from(error: PtyError) -> (res: Self) {
        OwnershipError::Pty(error)
    }
}

impl vstd::std_specs::convert::FromSpecImpl<PtyError> for OwnershipError {
    open spec fn obeys_from_spec() -> bool {
        true
    }

    open spec fn from_spec(error: PtyError) -> OwnershipError {
        OwnershipError::Pty(error)
    }
}

impl From<RuntimeError> for OwnershipError {
    fn from(error: RuntimeError) -> (res: Self) {
        OwnershipError::Runtime(error)
    }
}

impl vstd::std_specs::convert::FromSpecImpl<RuntimeError> for OwnershipError {
    open spec fn obeys_from_spec() -> bool {
        true
    }

    open spec fn from_spec(error: RuntimeError) -> OwnershipError {
        OwnershipError::Runtime(error)
    }
}

// ---------------------------------------------------------------------------
// Rows

/// A row of the ledger.
#[derive(Debug)]
pub struct OwnershipRow {
    pub session_id: String,
    pub phase: OwnershipPhase,
    pub create_operation_id: Vec<u8>,
    pub close_operation_id: Option<u64>,
    pub capability: Vec<u8>,
    pub expected_socket: Option<String>,
    pub supervisor_pid: Option<u32>,
    pub socket_path: Option<String>,
    pub created_at_ms: i64,
    pub updated_at_ms: i64,
    pub diagnostic: Option<String>,
    pub legacy_protocol: bool,
    pub owner_generation: Option<Vec<u8>>,
}

/// What a row of the ledger says.
pub struct RowModel {
    pub session_id: Seq<char>,
    pub phase: OwnershipPhase,
    pub create_operation_id: Seq<u8>,
    pub close_operation_id: Option<u64>,
    pub capability: Seq<u8>,
    pub expected_socket: Option<Seq<char>>,
    pub supervisor_pid: Option<u32>,
    pub socket_path: Option<Seq<char>>,
    pub created_at_ms: i64,
    pub updated_at_ms: i64,
    pub diagnostic: Option<Seq<char>>,
    pub legacy_protocol: bool,
    pub owner_generation: Option<Seq<u8>>,
}

/// An optional text by its contents.
pub open spec fn text_of(text: Option<String>) -> Option<Seq<char>> {
    match text {
        Some(t) => Some(t@),
        None => None,
    }
}

/// Optional bytes by their contents.
pub open spec fn bytes_of(bytes: Option<Vec<u8>>) -> Option<Seq<u8>> {
    match bytes {
        Some(b) => Some(b@),
        None => None,
    }
}

impl View for OwnershipRow {
    type V = RowModel;

    open spec fn view(&self) -> RowModel {
        RowModel {
            session_id: self.session_id@,
            phase: self.phase,
            create_operation_id: self.create_operation_id@,
            close_operation_id: self.close_operation_id,
            capability: self.capability@,
            expected_socket: text_of(self.expected_socket),
            supervisor_pid: self.supervisor_pid,
            socket_path: text_of(self.socket_path),
            created_at_ms: self.created_at_ms,
            updated_at_ms: self.updated_at_ms,
            diagnostic: text_of(self.diagnostic),
            legacy_protocol: self.legacy_protocol,
            owner_generation: bytes_of(self.owner_generation),
        }
    }
}

impl RowModel {
    /// A process that was started is known by its number and its socket.
    pub open spec fn wf(self) -> bool {
        self.phase == OwnershipPhase::Prepared || self.phase == OwnershipPhase::Active ==> {
            &&& self.supervisor_pid is Some
            &&& self.socket_path is Some
        }
    }

    /// The row is in another phase since a moment.
    pub open spec fn in_phase(self, phase: OwnershipPhase, now: i64) -> RowModel {
        RowModel { phase, updated_at_ms: now, ..self }
    }

    /// The row is to be cleaned up under a number; a number that was chosen earlier stays.
    pub open spec fn cleaning(self, proposed: u64, now: i64) -> RowModel {
        RowModel {
            close_operation_id: Some(
                match self.close_operation_id {
                    Some(id) => id,
                    None => proposed,
                },
            ),
            ..self.in_phase(OwnershipPhase::Cleaning, now)
        }
    }

    /// The row was left in the middle of a create by an earlier daemon.
    pub open spec fn from_another_generation(self, generation: Seq<u8>) -> bool {
        match self.owner_generation {
            Some(owner) => owner != generation,
            None => true,
        }
    }

    /// The evidence of a process fits what was announced before it was started.
    pub open spec fn expects(self, socket_path: Seq<char>) -> bool {
        match self.expected_socket {
            Some(expected) => expected == socket_path,
            None => true,
        }
    }

    /// The row after its process was started.
    pub open spec fn with_evidence(self, supervisor_pid: u32, socket_path: Seq<char>, now: i64) -> RowModel {
        RowModel {
            supervisor_pid: Some(supervisor_pid),
            socket_path: Some(socket_path),
            ..self.in_phase(OwnershipPhase::Prepared, now)
        }
    }

    /// The row of a session that cannot be trusted.
    pub open spec fn quarantined(self, diagnostic: Seq<char>, now: i64) -> RowModel {
        RowModel {
            diagnostic: Some(diagnostic),
            ..self.in_phase(OwnershipPhase::Quarantined, now)
        }
    }

    /// A session of an earlier version waits for its capability.
    pub open spec fn awaits_migration(self) -> bool {
        self.phase == OwnershipPhase::Prepared && self.diagnostic == Some("legacy_migration"@)
    }
}

impl OwnershipRow {
    /// A process that was started is known by its number and its socket.
    pub open spec fn wf(&self) -> bool {
        self@.wf()
    }

    /// The row of a session whose process is about to be started.
    pub fn preparing(
        session_id: &str,
        create_operation_id: &[u8],
        capability: &[u8],
        expected_socket: Option<String>,
        now: i64,
        generation: &[u8],
    ) -> (row: Self)
        ensures
            row.wf(),
            row@ == (RowModel {
                session_id: session_id@,
                phase: OwnershipPhase::Preparing,
                create_operation_id: create_operation_id@,
                close_operation_id: None,
                capability: capability@,
                expected_socket: text_of(expected_socket),
                supervisor_pid: None,
                socket_path: None,
                created_at_ms: now,
                updated_at_ms: now,
                diagnostic: None,
                legacy_protocol: false,
                owner_generation: Some(generation@),
            }),
    {
        OwnershipRow {
            session_id: session_id.to_owned(),
            phase: OwnershipPhase::Preparing,
            create_operation_id: slice_to_vec(create_operation_id),
            close_operation_id: None,
            capability: slice_to_vec(capability),
            expected_socket,
            supervisor_pid: None,
            socket_path: None,
            created_at_ms: now,
            updated_at_ms: now,
            diagnostic: None,
            legacy_protocol: false,
            owner_generation: Some(slice_to_vec(generation)),
        }
    }

    /// The process was started. Its evidence is recorded before it gets the secret without which it
    /// does nothing.
    pub fn record_prepared(&mut self, restore_info: &PtyRestoreInfo, now: i64) -> (res: PtyResult<()>)
        ensures
            old(self).wf() ==> final(self).wf(),
            match restore_info@ {
                RestoreModel::Tmux { .. } => {
                    &&& final(self)@ == old(self)@
                    &&& res matches Err(e)
                    &&& e@ == PtyErrorModel::Backend(
                        "gated supervisor spawn returned non-Unix restore evidence"@,
                    )
                },
                RestoreModel::UnixSocket { socket_path, supervisor_pid, .. } => {
                    if old(self)@.phase == OwnershipPhase::Preparing && old(self)@.expects(
                        socket_path,
                    ) {
                        &&& res is Ok
                        &&& final(self)@ == old(self)@.with_evidence(
                            supervisor_pid,
                            socket_path,
                            now,
                        )
                    } else {
                        &&& final(self)@ == old(self)@
                        &&& res matches Err(e)
                        &&& e@ == PtyErrorModel::Backend(
                            "supervisor evidence did not match durable preparing intent"@,
                        )
                    }
                },
            },
    {
        match restore_info {
            PtyRestoreInfo::Tmux { .. } => Err(
                PtyError::backend_message(
                    "gated supervisor spawn returned non-Unix restore evidence",
                ),
            ),
            PtyRestoreInfo::UnixSocket { socket_path, supervisor_pid, .. } => {
                let expected = match &self.expected_socket {
                    Some(expected) => str_equal(expected.as_str(), socket_path.as_str()),
                    None => true,
                };
                if self.phase != OwnershipPhase::Preparing || !expected {
                    return Err(
                        PtyError::backend_message(
                            "supervisor evidence did not match durable preparing intent",
                        ),
                    );
                }
                self.phase = OwnershipPhase::Prepared;
                self.supervisor_pid = Some(*supervisor_pid);
                self.socket_path = Some(socket_path.clone());
                self.updated_at_ms = now;
                Ok(())
            },
        }
    }

    /// The create failed: what it left is to be cleaned up. A session that became active stays.
    pub fn mark_cleaning(&mut self, now: i64)
        ensures
            old(self).wf() ==> final(self).wf(),
            final(self)@ == (if old(self)@.phase == OwnershipPhase::Active {
                old(self)@
            } else {
                old(self)@.in_phase(OwnershipPhase::Cleaning, now)
            }),
    {
        if self.phase != OwnershipPhase::Active {
            self.phase = OwnershipPhase::Cleaning;
            self.updated_at_ms = now;
        }
    }

    /// The session becomes a session of the daemon. Whether it did comes back; only one whose process
    /// is known can.
    pub fn commit_active(&mut self, now: i64) -> (committed: bool)
        ensures
            old(self).wf() ==> final(self).wf(),
            committed == (old(self)@.phase == OwnershipPhase::Prepared),
            final(self)@ == (if committed {
                old(self)@.in_phase(OwnershipPhase::Active, now)
            } else {
                old(self)@
            }),
    {
        if self.phase != OwnershipPhase::Prepared {
            return false;
        }
        self.phase = OwnershipPhase::Active;
        self.updated_at_ms = now;
        true
    }

    fn clean_under(&mut self, proposed: u64, now: i64) -> (operation_id: u64)
        ensures
            old(self).wf() ==> final(self).wf(),
            final(self)@ == old(self)@.cleaning(proposed, now),
            Some(operation_id) == final(self)@.close_operation_id,
    {
        let operation_id: u64 = match self.close_operation_id {
            Some(id) => id,
            None => proposed,
        };
        self.close_operation_id = Some(operation_id);
        self.phase = OwnershipPhase::Cleaning;
        self.updated_at_ms = now;
        operation_id
    }

    /// A session is closed: it is to be cleaned up under a number. Nothing comes back for a session
    /// that is neither active nor being cleaned up.
    pub fn begin_close(&mut self, proposed: u64, now: i64) -> (operation_id: Option<u64>)
        ensures
            old(self).wf() ==> final(self).wf(),
            if old(self)@.phase == OwnershipPhase::Active || old(self)@.phase
                == OwnershipPhase::Cleaning {
                &&& final(self)@ == old(self)@.cleaning(proposed, now)
                &&& operation_id == final(self)@.close_operation_id
            } else {
                final(self)@ == old(self)@ && operation_id is None
            },
    {
        match self.phase {
            OwnershipPhase::Active | OwnershipPhase::Cleaning => Some(
                self.clean_under(proposed, now),
            ),
            _ => None,
        }
    }

    /// A session whose process was started is to be cleaned up under a number. A session in any other
    /// phase stays as it is; the number that it has, if it has one, comes back.
    pub fn mark_cleaning_with_stable_operation(&mut self, proposed: u64, now: i64) -> (operation_id:
        Option<u64>)
        ensures
            old(self).wf() ==> final(self).wf(),
            final(self)@ == (match old(self)@.phase {
                OwnershipPhase::Prepared | OwnershipPhase::Active | OwnershipPhase::Cleaning => old(
                    self,
                )@.cleaning(proposed, now),
                _ => old(self)@,
            }),
            operation_id == final(self)@.close_operation_id,
    {
        match self.phase {
            OwnershipPhase::Prepared | OwnershipPhase::Active | OwnershipPhase::Cleaning => Some(
                self.clean_under(proposed, now),
            ),
            _ => self.close_operation_id,
        }
    }

    /// The session cannot be trusted: it is left alone from now on.
    pub fn quarantine(&mut self, diagnostic: &str, now: i64)
        ensures
            old(self).wf() ==> final(self).wf(),
            final(self)@ == old(self)@.quarantined(diagnostic@, now),
    {
        self.phase = OwnershipPhase::Quarantined;
        self.diagnostic = Some(diagnostic.to_owned());
        self.updated_at_ms = now;
    }

    /// The supervisor of a session of an earlier version was given its capability, or is too old for
    /// one. A session that was being closed goes on being closed.
    pub fn finish_migration(&mut self, installed: bool, closing: bool, proposed: u64, now: i64)
        ensures
            old(self).wf() ==> final(self).wf(),
            final(self)@ == (if old(self)@.phase != OwnershipPhase::Prepared {
                old(self)@
            } else {
                let migrated = RowModel {
                    legacy_protocol: !installed,
                    diagnostic: None,
                    ..old(self)@
                };
                if closing {
                    migrated.cleaning(proposed, now)
                } else {
                    migrated.in_phase(OwnershipPhase::Active, now)
                }
            }),
    {
        if self.phase != OwnershipPhase::Prepared {
            return;
        }
        self.legacy_protocol = !installed;
        self.diagnostic = None;
        if closing {
            let _ = self.clean_under(proposed, now);
        } else {
            self.phase = OwnershipPhase::Active;
            self.updated_at_ms = now;
        }
    }

    /// Whether the row is removed once its process is known to be dead.
    pub fn removable_when_dead(&self) -> (removable: bool)
        ensures
            removable == (self@.phase == OwnershipPhase::Cleaning),
    {
        self.phase == OwnershipPhase::Cleaning
    }
}

// ---------------------------------------------------------------------------
// Sessions of an earlier version

/// The evidence of a record is enough to take its process over.
pub open spec fn usable_evidence(record: StateRecordModel) -> bool {
    match record.restore_info {
        Some(RestoreModel::UnixSocket { socket_path, supervisor_pid, supervisor_status }) => {
            &&& record.state == SessionState::Running
            &&& supervisor_status != PtySupervisorStatus::Closed
            &&& supervisor_pid != 0
            &&& socket_path.len() > 0
        },
        _ => false,
    }
}

/// The row for a recorded session that the ledger does not know yet. Whether the session has to
/// disappear from the daemon's sessions comes back with it: so it does where its evidence is missing
/// or invalid.
pub fn backfilled_row(
    record: &SessionStateRecord,
    create_operation_id: &[u8],
    capability: &[u8],
    now: i64,
) -> (res: (OwnershipRow, bool))
    ensures
        (res.0).wf(),
        res.1 == !usable_evidence(record@),
        (res.0)@ == (if usable_evidence(record@) {
            let info = record@.restore_info->0;
            RowModel {
                session_id: record@.session_id,
                phase: OwnershipPhase::Prepared,
                create_operation_id: create_operation_id@,
                close_operation_id: None,
                capability: capability@,
                expected_socket: Some(info->UnixSocket_socket_path),
                supervisor_pid: Some(info->UnixSocket_supervisor_pid),
                socket_path: Some(info->UnixSocket_socket_path),
                created_at_ms: now,
                updated_at_ms: now,
                diagnostic: Some("legacy_migration"@),
                legacy_protocol: false,
                owner_generation: None,
            }
        } else {
            RowModel {
                session_id: record@.session_id,
                phase: OwnershipPhase::Quarantined,
                create_operation_id: create_operation_id@,
                close_operation_id: None,
                capability: capability@,
                expected_socket: None,
                supervisor_pid: None,
                socket_path: None,
                created_at_ms: now,
                updated_at_ms: now,
                diagnostic: Some("legacy runtime evidence is missing or invalid"@),
                legacy_protocol: false,
                owner_generation: None,
            }
        }),
{
    let mut row = OwnershipRow {
        session_id: record.session_id.clone(),
        phase: OwnershipPhase::Quarantined,
        create_operation_id: slice_to_vec(create_operation_id),
        close_operation_id: None,
        capability: slice_to_vec(capability),
        expected_socket: None,
        supervisor_pid: None,
        socket_path: None,
        created_at_ms: now,
        updated_at_ms: now,
        diagnostic: Some("legacy runtime evidence is missing or invalid".to_owned()),
        legacy_protocol: false,
        owner_generation: None,
    };
    if let Some(PtyRestoreInfo::UnixSocket { socket_path, supervisor_pid, supervisor_status }) =
        &record.restore_info {
        if record.state == SessionState::Running && *supervisor_status
            != PtySupervisorStatus::Closed && *supervisor_pid != 0
            && socket_path.as_str().unicode_len() > 0 {
            row.phase = OwnershipPhase::Prepared;
            row.expected_socket = Some(socket_path.clone());
            row.supervisor_pid = Some(*supervisor_pid);
            row.socket_path = Some(socket_path.clone());
            row.diagnostic = Some("legacy_migration".to_owned());
            return (row, false);
        }
    }
    (row, true)
}

// ---------------------------------------------------------------------------
// Recovery

/// The record of a session and its row name the same running process.
pub open spec fn evidence_matches(row: RowModel, record: StateRecordModel) -> bool {
    match record.restore_info {
        Some(
            RestoreModel::UnixSocket {
                socket_path,
                supervisor_pid,
                supervisor_status: PtySupervisorStatus::Running,
            },
        ) => row.socket_path == Some(socket_path) && row.supervisor_pid == Some(supervisor_pid),
        _ => false,
    }
}

/// Whether the record of a session and its row name the same running process.
pub fn active_evidence_matches(row: &OwnershipRow, record: &SessionStateRecord) -> (matches: bool)
    ensures
        matches == evidence_matches(row@, record@),
{
    if let Some(PtyRestoreInfo::UnixSocket { socket_path, supervisor_pid, supervisor_status }) =
        &record.restore_info {
        if *supervisor_status == PtySupervisorStatus::Running {
            let same_socket = match &row.socket_path {
                Some(known) => str_equal(known.as_str(), socket_path.as_str()),
                None => false,
            };
            let same_pid = match row.supervisor_pid {
                Some(known) => known == *supervisor_pid,
                None => false,
            };
            return same_socket && same_pid;
        }
    }
    false
}

/// What follows the attempt to give the supervisor of a session of an earlier version its capability.
#[derive(Debug, Clone, Copy, PartialEq, Eq, Structural)]
pub enum MigrationStep {
    /// The session cannot be trusted: who runs it is not known.
    Quarantine,
    /// It was being closed: the cleanup goes on.
    WakeReconciler,
    /// Reconnect to its process.
    Reconnect,
}

impl MigrationStep {
    /// What is noted about a session that is not trusted.
    pub open spec fn spec_diagnostic(self) -> Option<Seq<char>> {
        match self {
            MigrationStep::Quarantine => Some("legacy supervisor authority is unverified"@),
            _ => None,
        }
    }

    /// What is noted about a session that is not trusted.
    pub fn diagnostic(&self) -> (text: Option<&'static str>)
        ensures
            match text {
                Some(note) => self.spec_diagnostic() == Some(note@),
                None => self.spec_diagnostic() is None,
            },
    {
        match self {
            MigrationStep::Quarantine => Some("legacy supervisor authority is unverified"),
            _ => None,
        }
    }
}

/// What follows the attempt to give a supervisor its capability. A supervisor that is too old for one
/// answers `false`, which is no failure.
pub fn migration_step(installed: &PtyResult<bool>, closing: bool) -> (step: MigrationStep)
    ensures
        step == (match installed {
            Err(_) => MigrationStep::Quarantine,
            Ok(_) => if closing {
                MigrationStep::WakeReconciler
            } else {
                MigrationStep::Reconnect
            },
        }),
{
    match installed {
        Err(_) => MigrationStep::Quarantine,
        Ok(_) => if closing {
            MigrationStep::WakeReconciler
        } else {
            MigrationStep::Reconnect
        },
    }
}

/// What to do about a recorded session when the daemon starts.
#[derive(Debug, Clone, Copy, PartialEq, Eq, Structural)]
pub enum RecoveryAction {
    /// Nothing: it is being cleaned up, or cannot be trusted.
    Skip,
    /// Reconnect to its process.
    Reconnect,
    /// Give its supervisor the capability.
    InstallCapability,
    /// It cannot be trusted: its record and the ledger disagree.
    QuarantineMismatch,
    /// It cannot be trusted: there is no evidence of its process.
    QuarantineWithoutEvidence,
}

impl RecoveryAction {
    /// What is noted about a session that is not trusted.
    pub open spec fn reason(self) -> Option<Seq<char>> {
        match self {
            RecoveryAction::QuarantineMismatch => Some(
                "public runtime projection does not match durable ownership evidence"@,
            ),
            RecoveryAction::QuarantineWithoutEvidence => Some(
                "legacy runtime row has no restore evidence"@,
            ),
            _ => None,
        }
    }

    /// What is noted about a session that is not trusted.
    pub fn diagnostic(&self) -> (text: Option<&'static str>)
        ensures
            match text {
                Some(t) => self.reason() == Some(t@),
                None => self.reason() is None,
            },
    {
        match self {
            RecoveryAction::QuarantineMismatch => Some(
                "public runtime projection does not match durable ownership evidence",
            ),
            RecoveryAction::QuarantineWithoutEvidence => Some(
                "legacy runtime row has no restore evidence",
            ),
            _ => None,
        }
    }
}

/// What to do about a recorded session with a row when the daemon starts.
pub open spec fn recovery_of(row: RowModel, record: StateRecordModel) -> RecoveryAction {
    if row.phase == OwnershipPhase::Active {
        if evidence_matches(row, record) {
            RecoveryAction::Reconnect
        } else {
            RecoveryAction::QuarantineMismatch
        }
    } else if !row.awaits_migration() {
        RecoveryAction::Skip
    } else if record.restore_info is None {
        RecoveryAction::QuarantineWithoutEvidence
    } else {
        RecoveryAction::InstallCapability
    }
}

/// What to do about a recorded session when the daemon starts. One without a row is skipped.
pub fn recovery_action(row: Option<&OwnershipRow>, record: &SessionStateRecord) -> (action:
    RecoveryAction)
    ensures
        action == (match row {
            Some(r) => recovery_of(r@, record@),
            None => RecoveryAction::Skip,
        }),
{
    let row = match row {
        Some(row) => row,
        None => {
            return RecoveryAction::Skip;
        },
    };
    if row.phase == OwnershipPhase::Active {
        if active_evidence_matches(row, record) {
            return RecoveryAction::Reconnect;
        }
        return RecoveryAction::QuarantineMismatch;
    }
    let migrating = match &row.diagnostic {
        Some(text) => str_equal(text.as_str(), "legacy_migration"),
        None => false,
    };
    if row.phase != OwnershipPhase::Prepared || !migrating {
        return RecoveryAction::Skip;
    }
    if record.restore_info.is_none() {
        return RecoveryAction::QuarantineWithoutEvidence;
    }
    RecoveryAction::InstallCapability
}

/// Whether a recorded session was being closed.
pub fn was_closing(record: &SessionStateRecord) -> (closing: bool)
    ensures
        closing == (match record@.restore_info {
            Some(RestoreModel::UnixSocket { supervisor_status, .. }) => supervisor_status
                == PtySupervisorStatus::Closing,
            _ => false,
        }),
{
    match &record.restore_info {
        Some(PtyRestoreInfo::UnixSocket { supervisor_status, .. }) => *supervisor_status
            == PtySupervisorStatus::Closing,
        _ => false,
    }
}

/// What is noted about a session whose process could not be reached, after it was migrated or not.
pub fn unreachable_diagnostic(migrated: bool) -> (text: &'static str)
    ensures
        text@ == (if migrated {
            "migrated supervisor could not be authenticated and reconnected"@
        } else {
            "owned supervisor could not be authenticated and reconnected"@
        }),
{
    if migrated {
        "migrated supervisor could not be authenticated and reconnected"
    } else {
        "owned supervisor could not be authenticated and reconnected"
    }
}

/// How often a reconnect is tried.
pub const RECONNECT_ATTEMPTS: u32 = 3;

/// Whether a reconnect that failed is tried again: only a failure of the process's side may pass.
pub fn should_retry_reconnect(error: &RuntimeError, attempt: u32) -> (retry: bool)
    ensures
        retry == (error is Pty && attempt < RECONNECT_ATTEMPTS),
{
    match error {
        RuntimeError::Pty(_) => attempt < RECONNECT_ATTEMPTS,
        _ => false,
    }
}

/// The answers of a backend to the tries to reach a recorded session: another try follows a failure,
/// and only a failure, as long as there are tries left.
pub open spec fn tried_reconnects<B: PtyBackend>(
    host: B,
    record: SessionStateRecord,
    answers: Seq<PtyResult<B::Session>>,
) -> bool {
    &&& 1 <= answers.len() <= RECONNECT_ATTEMPTS
    &&& forall|i: int|
        0 <= i < answers.len() ==> reconnect_answer(host, record, #[trigger] answers[i])
    &&& forall|i: int| 0 <= i < answers.len() - 1 ==> (#[trigger] answers[i]) is Err
    &&& answers.last() is Ok || answers.len() == RECONNECT_ATTEMPTS
}

/// Takes a recorded session up again, with up to three tries.
pub fn reconnect_active_with_retry<B: PtyBackend>(
    runtime: &mut SessionRuntime<B>,
    record: &SessionStateRecord,
) -> (res: RuntimeResult<()>)
    requires
        old(runtime).wf(),
    ensures
        final(runtime).wf(),
        final(runtime).host() == old(runtime).host(),
        match record_refusal(old(runtime)@, record@) {
            Some(error) => fails_with(res, error) && final(runtime).whole() == old(runtime).whole(),
            None => exists|answers: Seq<PtyResult<B::Session>>|
                #[trigger] tried_reconnects(old(runtime).host(), *record, answers) && taken_up_with(
                    old(runtime).whole(),
                    final(runtime).whole(),
                    record@,
                    answers.last(),
                    res,
                ),
        },
{
    let mut attempt: u32 = 1;
    let ghost mut answers: Seq<PtyResult<B::Session>> = Seq::empty();
    while attempt < RECONNECT_ATTEMPTS
        invariant
            1 <= attempt <= RECONNECT_ATTEMPTS,
            runtime.wf(),
            runtime.whole() == old(runtime).whole(),
            runtime.host() == old(runtime).host(),
            answers.len() == attempt - 1,
            answers.len() > 0 ==> record_refusal(old(runtime)@, record@) is None,
            forall|i: int|
                0 <= i < answers.len() ==> (#[trigger] answers[i]) is Err && reconnect_answer(
                    old(runtime).host(),
                    *record,
                    answers[i],
                ),
        decreases RECONNECT_ATTEMPTS - attempt,
    {
        let tried = runtime.reconnect_session(record);
        proof {
            if record_refusal(old(runtime)@, record@) is None {
                let answer = choose|answer: PtyResult<B::Session>| #[trigger]
                    reconnect_answer(old(runtime).host(), *record, answer) && taken_up_with(
                        old(runtime).whole(),
                        runtime.whole(),
                        record@,
                        answer,
                        tried,
                    );
                answers = answers.push(answer);
            }
        }
        match tried {
            Ok(()) => {
                assert(tried_reconnects(old(runtime).host(), *record, answers));
                return Ok(());
            },
            Err(error) => {
                if !should_retry_reconnect(&error, attempt) {
                    assert(record_refusal(old(runtime)@, record@) is None ==> tried_reconnects(
                        old(runtime).host(),
                        *record,
                        answers,
                    ));
                    return Err(error);
                }
            },
        }
        attempt = attempt + 1;
    }
    let tried = runtime.reconnect_session(record);
    proof {
        if record_refusal(old(runtime)@, record@) is None {
            let answer = choose|answer: PtyResult<B::Session>| #[trigger]
                reconnect_answer(old(runtime).host(), *record, answer) && taken_up_with(
                    old(runtime).whole(),
                    runtime.whole(),
                    record@,
                    answer,
                    tried,
                );
            assert(tried_reconnects(old(runtime).host(), *record, answers.push(answer)));
        }
    }
    tried
}

// ---------------------------------------------------------------------------
// Creating

/// What a create waits for.
#[derive(Debug, Clone, Copy, PartialEq, Eq, Structural)]
pub enum CreateStage {
    /// The intent is in the ledger.
    Intent,
    /// The process is started, and its evidence is in the ledger.
    Spawn,
    /// The session is a session of the runtime, and whoever asked for it has prepared it.
    Prepare,
    /// The session is active in the ledger.
    Commit,
    /// Nothing: it is over.
    Over,
}

/// What to do for a create.
#[derive(Debug)]
pub enum CreateStep {
    /// Start the process behind its gate.
    Spawn,
    /// Add the session to the runtime and prepare it.
    Prepare,
    /// Make the session active in the ledger.
    Commit,
    /// The session is created.
    Done,
    /// Nothing was started: report the failure.
    Failed(OwnershipError),
    /// A process may have been started: mark the row for cleaning up, wake the reconciler, and report
    /// the failure. Where the session is in the runtime, it is taken out first.
    CleanUp { take_from_runtime: bool, error: OwnershipError },
}

/// A create in progress. No process is started before the intent is in the ledger, and no session is
/// shown before its process is.
pub struct OwnedCreate {
    stage: CreateStage,
}

impl OwnedCreate {
    /// What the create waits for.
    pub closed spec fn at(&self) -> CreateStage {
        self.stage
    }

    /// A create begins: the intent is to be written.
    pub fn begin() -> (create: Self)
        ensures
            create.at() == CreateStage::Intent,
    {
        OwnedCreate { stage: CreateStage::Intent }
    }

    /// What the create waits for.
    pub fn stage(&self) -> (stage: CreateStage)
        ensures
            stage == self.at(),
    {
        self.stage
    }

    /// The intent was written, or not.
    pub fn on_intent(&mut self, result: Result<(), OwnershipError>) -> (step: CreateStep)
        requires
            old(self).at() == CreateStage::Intent,
        ensures
            match result {
                Ok(()) => final(self).at() == CreateStage::Spawn && step is Spawn,
                Err(failure) => final(self).at() == CreateStage::Over && step == CreateStep::Failed(
                    failure,
                ),
            },
    {
        match result {
            Ok(()) => {
                self.stage = CreateStage::Spawn;
                CreateStep::Spawn
            },
            Err(error) => {
                self.stage = CreateStage::Over;
                CreateStep::Failed(error)
            },
        }
    }

    /// The process was started, or not. `has_evidence` tells whether it can be found again.
    pub fn on_spawned(&mut self, result: PtyResult<()>, has_evidence: bool) -> (step: CreateStep)
        requires
            old(self).at() == CreateStage::Spawn,
        ensures
            match result {
                Ok(()) => if has_evidence {
                    final(self).at() == CreateStage::Prepare && step is Prepare
                } else {
                    &&& final(self).at() == CreateStage::Over
                    &&& step matches CreateStep::CleanUp { take_from_runtime: true, error }
                    &&& error matches OwnershipError::Pty(e)
                    &&& e@ == PtyErrorModel::Backend(
                        "persistent ownership create requires restore evidence"@,
                    )
                },
                Err(failure) => final(self).at() == CreateStage::Over && step
                    == (CreateStep::CleanUp {
                    take_from_runtime: false,
                    error: OwnershipError::Pty(failure),
                }),
            },
    {
        match result {
            Err(error) => {
                self.stage = CreateStage::Over;
                CreateStep::CleanUp {
                    take_from_runtime: false,
                    error: OwnershipError::Pty(error),
                }
            },
            Ok(()) => {
                if has_evidence {
                    self.stage = CreateStage::Prepare;
                    CreateStep::Prepare
                } else {
                    self.stage = CreateStage::Over;
                    CreateStep::CleanUp {
                        take_from_runtime: true,
                        error: OwnershipError::Pty(
                            PtyError::backend_message(
                                "persistent ownership create requires restore evidence",
                            ),
                        ),
                    }
                }
            },
        }
    }

    /// Whoever asked for the session has prepared it, or not; or the session was made active, or not.
    pub fn on_result(&mut self, result: Result<(), OwnershipError>) -> (step: CreateStep)
        requires
            old(self).at() == CreateStage::Prepare || old(self).at() == CreateStage::Commit,
        ensures
            match result {
                Ok(()) => if old(self).at() == CreateStage::Prepare {
                    final(self).at() == CreateStage::Commit && step is Commit
                } else {
                    final(self).at() == CreateStage::Over && step is Done
                },
                Err(failure) => final(self).at() == CreateStage::Over && step
                    == (CreateStep::CleanUp { take_from_runtime: true, error: failure }),
            },
    {
        match result {
            Err(error) => {
                self.stage = CreateStage::Over;
                CreateStep::CleanUp { take_from_runtime: true, error }
            },
            Ok(()) => {
                if self.stage == CreateStage::Prepare {
                    self.stage = CreateStage::Commit;
                    CreateStep::Commit
                } else {
                    self.stage = CreateStage::Over;
                    CreateStep::Done
                }
            },
        }
    }
}

// ---------------------------------------------------------------------------
// Reconciling

/// What to do about a create that an earlier daemon did not finish.
#[derive(Debug, Clone, Copy, PartialEq, Eq, Structural)]
pub enum InterruptedCreate {
    /// Nothing: it is not one, or it is this daemon's own.
    Keep,
    /// Its process was started: clean it up.
    Clean,
    /// Its process may never have been started: remove the row if its socket is not there.
    RemoveIfSocketAbsent,
}

/// What to do about a row that may be an unfinished create of an earlier daemon.
pub open spec fn interruption_of(row: RowModel, generation: Seq<u8>) -> InterruptedCreate {
    if !row.from_another_generation(generation) {
        InterruptedCreate::Keep
    } else if row.phase == OwnershipPhase::Prepared && row.diagnostic is None {
        InterruptedCreate::Clean
    } else if row.phase == OwnershipPhase::Preparing {
        InterruptedCreate::RemoveIfSocketAbsent
    } else {
        InterruptedCreate::Keep
    }
}

/// What to do about a row that may be an unfinished create of an earlier daemon.
pub fn interrupted_create(row: &OwnershipRow, generation: &[u8]) -> (action: InterruptedCreate)
    ensures
        action == interruption_of(row@, generation@),
{
    let foreign = match &row.owner_generation {
        Some(owner) => !bytes_equal(owner.as_slice(), generation),
        None => true,
    };
    if !foreign {
        return InterruptedCreate::Keep;
    }
    match row.phase {
        OwnershipPhase::Prepared => {
            if row.diagnostic.is_none() {
                InterruptedCreate::Clean
            } else {
                InterruptedCreate::Keep
            }
        },
        OwnershipPhase::Preparing => InterruptedCreate::RemoveIfSocketAbsent,
        _ => InterruptedCreate::Keep,
    }
}

/// What the reconciler does about a row.
#[derive(Debug)]
pub enum ReconcileAction {
    /// Nothing.
    Ignore,
    /// Ask the supervisor whether the process ended on its own.
    AskNaturalExit(PtyRestoreInfo),
    /// End the process, and take its supervisor's word for it. Without a number the row needs one
    /// first.
    CleanUp { restore_info: PtyRestoreInfo, operation_id: Option<u64>, legacy: bool },
}

/// The restore information that a row stands for.
pub open spec fn row_restore(row: RowModel, supervisor_status: PtySupervisorStatus) -> RestoreModel {
    RestoreModel::UnixSocket {
        socket_path: row.socket_path->0,
        supervisor_pid: row.supervisor_pid->0,
        supervisor_status,
    }
}

/// A row whose process the reconciler can reach.
pub open spec fn reconcilable(row: RowModel) -> bool {
    &&& row.phase == OwnershipPhase::Active || row.phase == OwnershipPhase::Cleaning
    &&& row.socket_path is Some
    &&& row.supervisor_pid is Some
}

/// What the reconciler does about a row.
pub fn reconcile_action(row: &OwnershipRow) -> (action: ReconcileAction)
    ensures
        if !reconcilable(row@) {
            action is Ignore
        } else if row@.phase == OwnershipPhase::Active {
            action matches ReconcileAction::AskNaturalExit(info) && info@ == row_restore(
                row@,
                PtySupervisorStatus::Running,
            )
        } else {
            match action {
                ReconcileAction::CleanUp { restore_info, operation_id, legacy } => {
                    &&& restore_info@ == row_restore(row@, PtySupervisorStatus::Closing)
                    &&& operation_id == row@.close_operation_id
                    &&& legacy == row@.legacy_protocol
                },
                _ => false,
            }
        },
{
    let (socket_path, supervisor_pid): (String, u32) = match (&row.socket_path, row.supervisor_pid) {
        (Some(path), Some(pid)) => (path.clone(), pid),
        _ => {
            return ReconcileAction::Ignore;
        },
    };
    match row.phase {
        OwnershipPhase::Active => ReconcileAction::AskNaturalExit(
            PtyRestoreInfo::UnixSocket {
                socket_path,
                supervisor_pid,
                supervisor_status: PtySupervisorStatus::Running,
            },
        ),
        OwnershipPhase::Cleaning => ReconcileAction::CleanUp {
            restore_info: PtyRestoreInfo::UnixSocket {
                socket_path,
                supervisor_pid,
                supervisor_status: PtySupervisorStatus::Closing,
            },
            operation_id: row.close_operation_id,
            legacy: row.legacy_protocol,
        },
        _ => ReconcileAction::Ignore,
    }
}

/// Whether an active session is to be cleaned up: its process ended on its own. A supervisor that
/// does not answer is no evidence of that.
pub fn ended_on_its_own(answer: PtyResult<bool>) -> (ended: bool)
    ensures
        ended == (answer matches Ok(exited) && exited),
{
    match answer {
        Ok(exited) => exited,
        Err(_) => false,
    }
}

/// Whether a session is gone for good: its supervisor confirmed it, or its process is not there.
pub fn cleanup_confirmed(outcome: &PtyResult<bool>, process_absent: bool) -> (confirmed: bool)
    ensures
        confirmed == (match outcome {
            Ok(true) => true,
            _ => process_absent,
        }),
{
    match outcome {
        Ok(confirmed) => *confirmed || process_absent,
        Err(_) => process_absent,
    }
}

// ---------------------------------------------------------------------------
// The order of reconciling

/// A row comes before another: it was created earlier or, at the same time, its session id is
/// smaller.
pub open spec fn row_before(a: RowModel, b: RowModel) -> bool {
    a.created_at_ms < b.created_at_ms || (a.created_at_ms == b.created_at_ms && text_less(
        a.session_id,
        b.session_id,
    ))
}

fn comes_before(a: &OwnershipRow, b: &OwnershipRow) -> (before: bool)
    ensures
        before == row_before(a@, b@),
{
    if a.created_at_ms != b.created_at_ms {
        return a.created_at_ms < b.created_at_ms;
    }
    proof {
        lemma_text_order(a.session_id@, b.session_id@, a.session_id@);
    }
    match text_order(a.session_id.as_str(), b.session_id.as_str()) {
        TextOrder::Before => true,
        _ => false,
    }
}

/// Positions of rows that the reconciler looks at, in the order in which it does.
pub open spec fn in_reconcile_order(rows: Seq<OwnershipRow>, order: Seq<usize>) -> bool {
    &&& forall|i: int| 0 <= i < order.len() ==> #[trigger] order[i] < rows.len() && reconcilable(
        rows[order[i] as int]@,
    )
    &&& forall|p: int|
        0 <= p < rows.len() && reconcilable(#[trigger] rows[p]@) ==> exists|i: int|
            0 <= i < order.len() && #[trigger] order[i] == p
    &&& forall|i: int, j: int|
        0 <= i < j < order.len() ==> !row_before(
            rows[#[trigger] order[j] as int]@,
            rows[#[trigger] order[i] as int]@,
        )
    &&& order.no_duplicates()
}

proof fn lemma_before_transitive(a: RowModel, b: RowModel, c: RowModel)
    requires
        !row_before(b, a),
        !row_before(c, b),
    ensures
        !row_before(c, a),
{
    lemma_text_order(a.session_id, b.session_id, c.session_id);
    lemma_text_order(c.session_id, b.session_id, a.session_id);
    lemma_text_order(b.session_id, a.session_id, c.session_id);
    lemma_text_order(c.session_id, a.session_id, b.session_id);
    lemma_text_order(a.session_id, c.session_id, b.session_id);
    lemma_text_order(b.session_id, c.session_id, a.session_id);
}

proof fn lemma_before_asymmetric(a: RowModel, b: RowModel)
    requires
        row_before(a, b),
    ensures
        !row_before(b, a),
{
    lemma_text_order(a.session_id, b.session_id, a.session_id);
}

/// The rows that the reconciler looks at, in the order in which it does: oldest first.
#[verifier::spinoff_prover]
#[verifier::rlimit(40)]
pub fn reconcile_order(rows: &[OwnershipRow]) -> (order: Vec<usize>)
    ensures
        in_reconcile_order(rows@, order@),
{
    let mut order: Vec<usize> = Vec::new();
    let mut p: usize = 0;
    while p < rows.len()
        invariant
            p <= rows@.len(),
            forall|i: int| 0 <= i < order@.len() ==> #[trigger] order@[i] < p && reconcilable(
                rows@[order@[i] as int]@,
            ),
            forall|q: int|
                0 <= q < p && reconcilable(#[trigger] rows@[q]@) ==> exists|i: int|
                    0 <= i < order@.len() && #[trigger] order@[i] == q,
            forall|i: int, j: int|
                0 <= i < j < order@.len() ==> !row_before(
                    rows@[#[trigger] order@[j] as int]@,
                    rows@[#[trigger] order@[i] as int]@,
                ),
            order@.no_duplicates(),
        decreases rows@.len() - p,
    {
        let wanted = (match rows[p].phase {
            OwnershipPhase::Active => true,
            OwnershipPhase::Cleaning => true,
            _ => false,
        }) && rows[p].socket_path.is_some() && rows[p].supervisor_pid.is_some();
        assert(wanted == reconcilable(rows@[p as int]@));
        if wanted {
            let ghost before = order@;
            let mut at: usize = order.len();
            while at > 0 && comes_before(&rows[p], &rows[order[at - 1]])
                invariant
                    p < rows@.len(),
                    at <= order@.len(),
                    order@ == before,
                    forall|i: int| 0 <= i < before.len() ==> #[trigger] before[i] < p,
                    forall|i: int|
                        at <= i < before.len() ==> row_before(
                            rows@[p as int]@,
                            rows@[#[trigger] before[i] as int]@,
                        ),
                decreases at,
            {
                at = at - 1;
            }
            order.insert(at, p);
            let ghost after = order@;
            assert(after == before.insert(at as int, p));
            proof {
                assert forall|q: int|
                    0 <= q < p + 1 && reconcilable(#[trigger] rows@[q]@) implies exists|i: int|
                    0 <= i < after.len() && #[trigger] after[i] == q by {
                    if q == p {
                        assert(after[at as int] == q);
                    } else {
                        let i = choose|i: int| 0 <= i < before.len() && #[trigger] before[i] == q;
                        if i < at {
                            assert(after[i] == q);
                        } else {
                            assert(after[i + 1] == q);
                        }
                    }
                }
                assert forall|i: int, j: int| 0 <= i < j < after.len() implies !row_before(
                    rows@[#[trigger] after[j] as int]@,
                    rows@[#[trigger] after[i] as int]@,
                ) by {
                    if i < at && j < at {
                        assert(after[i] == before[i] && after[j] == before[j]);
                    } else if i < at && j == at {
                        assert(after[i] == before[i]);
                        let last = before[at - 1];
                        assert(!row_before(rows@[p as int]@, rows@[last as int]@));
                        if i < at - 1 {
                            assert(!row_before(
                                rows@[before[at - 1] as int]@,
                                rows@[before[i] as int]@,
                            ));
                            lemma_before_transitive(
                                rows@[before[i] as int]@,
                                rows@[last as int]@,
                                rows@[p as int]@,
                            );
                        }
                    } else if i < at && j > at {
                        assert(after[i] == before[i] && after[j] == before[j - 1]);
                    } else if i == at {
                        assert(after[j] == before[j - 1]);
                        lemma_before_asymmetric(rows@[p as int]@, rows@[before[j - 1] as int]@);
                    } else {
                        assert(after[i] == before[i - 1] && after[j] == before[j - 1]);
                    }
                }
                assert(after.no_duplicates()) by {
                    assert forall|i: int, j: int|
                        0 <= i < after.len() && 0 <= j < after.len() && i != j implies after[i]
                        != after[j] by {
                        let back = |k: int|
                            if k < at {
                                k
                            } else {
                                k - 1
                            };
                        if i != at && j != at {
                            assert(after[i] == before[back(i)] && after[j] == before[back(j)]);
                        } else if i == at {
                            assert(after[j] == before[back(j)]);
                        } else {
                            assert(after[i] == before[back(i)]);
                        }
                    }
                }
            }
        }
        p = p + 1;
    }
    order
}

// ---------------------------------------------------------------------------
// Small facts

/// The number of a close for eight random bytes, the most significant one first; one in place of zero.
pub open spec fn operation_number(bytes: Seq<u8>) -> int {
    let value = bytes[7] + 0x100 * bytes[6] + 0x1_0000 * bytes[5] + 0x100_0000 * bytes[4]
        + 0x1_0000_0000 * bytes[3] + 0x100_0000_0000 * bytes[2] + 0x1_0000_0000_0000 * bytes[1]
        + 0x100_0000_0000_0000 * bytes[0];
    if value == 0 {
        1
    } else {
        value
    }
}

/// The number of a close for eight random bytes, the most significant one first; never zero.
pub fn operation_id_from_bytes(bytes: &[u8]) -> (operation_id: u64)
    requires
        bytes@.len() == 8,
    ensures
        operation_id > 0,
        operation_id == operation_number(bytes@),
{
    let value: u64 = bytes[7] as u64 + 0x100 * bytes[6] as u64 + 0x1_0000 * bytes[5] as u64
        + 0x100_0000 * bytes[4] as u64 + 0x1_0000_0000 * bytes[3] as u64 + 0x100_0000_0000
        * bytes[2] as u64 + 0x1_0000_0000_0000 * bytes[1] as u64 + 0x100_0000_0000_0000
        * bytes[0] as u64;
    if value == 0 {
        1
    } else {
        value
    }
}

/// A fresh number for a close: the one for the bytes that one draw gave, or why it gave none.
pub fn random_operation_id() -> (res: PtyResult<u64>)
    ensures
        exists|drawn: Result<Vec<u8>, String>| #[trigger]
            may_be_drawn(8, drawn) && match drawn {
                Ok(bytes) => bytes@.len() == 8 && (res matches Ok(id) && id == operation_number(bytes@)),
                Err(reason) => res matches Err(e) && e@ == PtyErrorModel::Backend(reason@),
            },
        res matches Ok(id) ==> id > 0,
{
    let drawn = draw_random_bytes(8);
    assert(may_be_drawn(8, drawn));
    match drawn {
        Ok(bytes) => Ok(operation_id_from_bytes(bytes.as_slice())),
        Err(reason) => Err(PtyError::Backend(reason)),
    }
}

/// What to do about a session that is being closed: nothing comes back where to look again later. `gone`
/// tells that its row has left the ledger.
pub fn close_wait_step(gone: bool, before_deadline: bool) -> (done: Option<PtyResult<()>>)
    ensures
        gone ==> done == Some(Ok::<(), PtyError>(())),
        !gone && before_deadline ==> done is None,
        !gone && !before_deadline ==> (done matches Some(Err(e)) && e@ == PtyErrorModel::Backend(
            "timed out waiting for owned session cleanup"@,
        )),
{
    if gone {
        Some(Ok(()))
    } else if before_deadline {
        None
    } else {
        Some(Err(PtyError::backend_message("timed out waiting for owned session cleanup")))
    }
}

/// The time in the ledger for a time since the epoch; zero where the clock is before it.
pub fn ledger_timestamp(elapsed_millis: Option<u128>) -> (now: i64)
    ensures
        now == (match elapsed_millis {
            Some(millis) => if millis <= i64::MAX {
                millis as int
            } else {
                i64::MAX as int
            },
            None => 0int,
        }),
{
    match elapsed_millis {
        Some(millis) => {
            if millis <= 0x7fff_ffff_ffff_ffff {
                millis as i64
            } else {
                0x7fff_ffff_ffff_ffff
            }
        },
        None => 0,
    }
}

/// The last place at which a text holds `") "`, if there is one.
pub open spec fn last_close(text: Seq<char>, from: int) -> Option<int>
    decreases from + 1,
{
    if from < 0 {
        None
    } else if occurs_at(text, ") "@, from) {
        Some(from)
    } else {
        last_close(text, from - 1)
    }
}

/// The state of a process is the first field behind its name, which is in brackets.
pub open spec fn zombie_stat(stat: Seq<char>) -> bool {
    match last_close(stat, stat.len() as int) {
        Some(at) => at + 2 < stat.len() && stat[at + 2] == 'Z',
        None => false,
    }
}

/// Whether the status line of a process says that it has ended and only waits to be reaped.
pub fn stat_is_zombie(stat: &str) -> (zombie: bool)
    ensures
        zombie == zombie_stat(stat@),
{
    proof {
        reveal_strlit(") ");
    }
    let chars = str_chars(stat);
    let closing = str_chars(") ");
    let mut at: usize = chars.len();
    loop
        invariant
            chars@ == stat@,
            closing@ == ") "@,
            closing@.len() == 2,
            at <= chars@.len(),
            last_close(stat@, stat@.len() as int) == last_close(stat@, at as int),
        decreases at,
    {
        if chars_match_at(chars.as_slice(), closing.as_slice(), at) {
            assert(last_close(stat@, at as int) == Some(at as int));
            return chars.len() - at > 2 && chars[at + 2] == 'Z';
        }
        if at == 0 {
            assert(last_close(stat@, -1) is None);
            return false;
        }
        at = at - 1;
    }
}

/// Whether a table lacks a column.
pub fn lacks_column(columns: &[String], name: &str) -> (lacks: bool)
    ensures
        lacks == forall|i: int| 0 <= i < columns@.len() ==> (#[trigger] columns@[i])@ != name@,
        !lacks ==> exists|i: int| 0 <= i < columns@.len() && (#[trigger] columns@[i])@ == name@,
        lacks ==> forall|i: int| 0 <= i < columns@.len() ==> (#[trigger] columns@[i])@ != name@,
{
    let mut i: usize = 0;
    while i < columns.len()
        invariant
            i <= columns@.len(),
            forall|k: int| 0 <= k < i ==> (#[trigger] columns@[k])@ != name@,
        decreases columns@.len() - i,
    {
        if str_equal(columns[i].as_str(), name) {
            return false;
        }
        i = i + 1;
    }
    true
}

// ---------------------------------------------------------------------------
// Laws

/// The number of a close, once chosen, is never changed.
pub proof fn law_close_number_is_never_changed(
    row: RowModel,
    proposed: u64,
    now: i64,
    supervisor_pid: u32,
    socket_path: Seq<char>,
    diagnostic: Seq<char>,
    phase: OwnershipPhase,
)
    requires
        row.close_operation_id is Some,
    ensures
        row.cleaning(proposed, now).close_operation_id == row.close_operation_id,
        row.in_phase(phase, now).close_operation_id == row.close_operation_id,
        row.with_evidence(supervisor_pid, socket_path, now).close_operation_id
            == row.close_operation_id,
        row.quarantined(diagnostic, now).close_operation_id == row.close_operation_id,
{
}

/// A daemon never takes its own unfinished create for an interrupted one.
pub proof fn law_own_create_is_never_claimed(row: RowModel, generation: Seq<u8>)
    requires
        row.owner_generation == Some(generation),
    ensures
        interruption_of(row, generation) == InterruptedCreate::Keep,
{
}

/// A create of an earlier daemon whose process was started is always cleaned up.
pub proof fn law_interrupted_create_is_cleaned_up(row: RowModel, generation: Seq<u8>, proposed: u64, now: i64)
    requires
        row.wf(),
        row.phase == OwnershipPhase::Prepared,
        row.diagnostic is None,
        row.from_another_generation(generation),
    ensures
        interruption_of(row, generation) == InterruptedCreate::Clean,
        reconcilable(row.cleaning(proposed, now)),
        row.cleaning(proposed, now).close_operation_id is Some,
{
}

/// A session becomes active only with the evidence of its process, under the socket that was
/// announced.
pub proof fn law_active_session_has_evidence(row: RowModel, now: i64)
    requires
        row.wf(),
        row.phase == OwnershipPhase::Prepared,
    ensures
        row.in_phase(OwnershipPhase::Active, now).wf(),
        reconcilable(row.in_phase(OwnershipPhase::Active, now)),
{
}

/// A session that cannot be trusted is neither reconnected to nor cleaned up.
pub proof fn law_quarantined_session_is_left_alone(
    row: RowModel,
    record: StateRecordModel,
    generation: Seq<u8>,
)
    requires
        row.phase == OwnershipPhase::Quarantined,
    ensures
        recovery_of(row, record) == RecoveryAction::Skip,
        interruption_of(row, generation) == InterruptedCreate::Keep,
        !reconcilable(row),
{
}

/// A session whose record disagrees with the ledger is never reconnected to.
pub proof fn law_mismatched_session_is_not_reconnected(row: RowModel, record: StateRecordModel)
    requires
        row.phase == OwnershipPhase::Active,
        !evidence_matches(row, record),
    ensures
        recovery_of(row, record) == RecoveryAction::QuarantineMismatch,
{
}

} // verus!
