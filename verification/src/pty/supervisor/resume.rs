//! Resuming a controller over a new connection.
//!
//! A daemon that lost its control connection connects again, checks that the supervisor answers, and
//! only then commits the takeover. A try that fails anywhere leaves the session as it was; the commit
//! carries the same transaction number in every try, so that a commit whose response was lost is found
//! again.

use crate::collections::{lemma_with, lookup, without};
use crate::pty::supervisor::client::reply_model;
use crate::pty::supervisor::connection::{
    controller_failure, finished, handled, resume_status, ConnectionModel,
};
use crate::pty::supervisor::output_queue::LaneModel;
use crate::pty::supervisor::protocol::{
    AttachSyncModel, ControllerIdentity, PayloadModel, SupervisorAttachSyncPayload,
    SupervisorRequest, SupervisorRequestEnvelope, SupervisorResponsePayload,
};
use crate::pty::supervisor::state::{ControllerHandle, StateModel};
use crate::pty::{PtyError, PtyErrorModel, PtyRestoreInfo, PtyResult, PtySupervisorStatus, RestoreModel};
use crate::text::concat3;
use vstd::prelude::*;

verus! {

/// How often a resume is tried.
pub const RESUME_ATTEMPTS: u32 = 3;

/// What a resume waits for.
#[derive(Clone, Copy, Debug, PartialEq, Eq, Structural)]
pub enum ResumeStage {
    /// A new connection.
    Connect,
    /// The response to the first synchronisation.
    AttachSync,
    /// The response to a ping.
    Ping,
    /// The response to a snapshot request.
    Snapshot,
    /// A reader for the connection, prepared and not started.
    PrepareReader,
    /// The response to the commit.
    Commit,
    /// The start of the reader.
    StartReader,
    /// Nothing: the controller is resumed.
    Finished,
    /// Nothing: every try failed.
    Failed,
}

/// What the owner of the connection does next.
#[derive(Debug)]
pub enum ResumeAction {
    /// Make a new connection, and report how it went.
    Connect,
    /// Send a request on the connection, and report the reply.
    Send(SupervisorRequestEnvelope),
    /// Prepare a reader for the connection, and report how it went.
    PrepareReader,
    /// Start the reader, and report how it went.
    StartReader,
    /// Take the connection over: apply the synchronisation, and hold the controller.
    Install { sync: SupervisorAttachSyncPayload, controller: ControllerIdentity },
    /// Give up.
    Fail(PtyError),
}

/// A resume in progress.
pub struct ResumeTransaction {
    session_id: String,
    controller_id: u64,
    transaction_id: u64,
    attempts_left: u32,
    stage: ResumeStage,
    sync: Option<SupervisorAttachSyncPayload>,
    committed: Option<ControllerIdentity>,
}

/// The content of a [`ResumeTransaction`].
pub struct ResumeModel {
    pub session_id: Seq<char>,
    pub controller_id: u64,
    pub transaction_id: u64,
    pub attempts_left: u32,
    pub stage: ResumeStage,
    pub sync: Option<AttachSyncModel>,
    pub committed: Option<ControllerIdentity>,
}

impl View for ResumeTransaction {
    type V = ResumeModel;

    closed spec fn view(&self) -> ResumeModel {
        ResumeModel {
            session_id: self.session_id@,
            controller_id: self.controller_id,
            transaction_id: self.transaction_id,
            attempts_left: self.attempts_left,
            stage: self.stage,
            sync: match self.sync {
                Some(payload) => Some(payload@),
                None => None,
            },
            committed: self.committed,
        }
    }
}

/// The name of a lifecycle state in messages.
pub open spec fn status_name(status: PtySupervisorStatus) -> Seq<char> {
    match status {
        PtySupervisorStatus::Running => "Running"@,
        PtySupervisorStatus::Closing => "Closing"@,
        PtySupervisorStatus::Closed => "Closed"@,
    }
}

/// The failure to reconnect to a supervisor that is not running.
pub open spec fn not_reconnectable(status: PtySupervisorStatus) -> PtyErrorModel {
    PtyErrorModel::Backend(
        "session supervisor is not reconnectable in "@ + status_name(status) + " state"@,
    )
}

/// Builds the failure to reconnect to a supervisor that is not running.
pub fn not_reconnectable_error(status: PtySupervisorStatus) -> (error: PtyError)
    ensures
        error@ == not_reconnectable(status),
{
    let name: &str = match status {
        PtySupervisorStatus::Running => "Running",
        PtySupervisorStatus::Closing => "Closing",
        PtySupervisorStatus::Closed => "Closed",
    };
    PtyError::Backend(concat3("session supervisor is not reconnectable in ", name, " state"))
}

/// Why a resume cannot begin, if it cannot.
pub open spec fn resume_refusal(
    restore_info: RestoreModel,
    controller: Option<ControllerIdentity>,
) -> Option<PtyErrorModel> {
    match restore_info {
        RestoreModel::Tmux { .. } => Some(
            PtyErrorModel::Backend(
                "supervisor IPC cannot reconnect obsolete tmux restore metadata"@,
            ),
        ),
        RestoreModel::UnixSocket { supervisor_status, .. } => if supervisor_status
            != PtySupervisorStatus::Running {
            Some(not_reconnectable(supervisor_status))
        } else if controller is None {
            Some(PtyErrorModel::Backend("session supervisor controller lease is missing"@))
        } else {
            None
        },
    }
}

impl ResumeModel {
    /// A try ended with a failure: the next one begins, or the last failure is reported.
    pub open spec fn failed(self) -> ResumeModel {
        ResumeModel {
            attempts_left: (self.attempts_left - 1) as u32,
            stage: if self.attempts_left <= 1 {
                ResumeStage::Failed
            } else {
                ResumeStage::Connect
            },
            sync: None,
            committed: None,
            ..self
        }
    }

    /// The reason why a reply does not let a try go on, if it does not.
    pub open spec fn rejected(self, reply: Result<PayloadModel, PtyErrorModel>) -> Option<
        PtyErrorModel,
    > {
        match reply {
            Err(error) => Some(error),
            Ok(payload) => match self.stage {
                ResumeStage::AttachSync => if payload is AttachSync {
                    None
                } else {
                    Some(
                        PtyErrorModel::Backend(
                            "session supervisor returned unexpected attach sync payload"@,
                        ),
                    )
                },
                ResumeStage::Ping => if payload is Empty {
                    None
                } else {
                    Some(
                        PtyErrorModel::Backend(
                            "session supervisor returned unexpected snapshot payload"@,
                        ),
                    )
                },
                ResumeStage::Snapshot => if payload is Snapshot {
                    None
                } else {
                    Some(PtyErrorModel::Backend("session supervisor returned empty payload"@))
                },
                _ => match payload {
                    PayloadModel::ControllerResumeStatus {
                        controller_id: Some(_),
                        controller_connection_id: Some(_),
                    } => None,
                    PayloadModel::ControllerResumeStatus {
                        controller_id: None,
                        controller_connection_id: None,
                    } => Some(
                        PtyErrorModel::Backend(
                            "session supervisor resume commit was not recorded"@,
                        ),
                    ),
                    PayloadModel::ControllerResumeStatus { .. } => Some(
                        PtyErrorModel::Backend(
                            "session supervisor returned incomplete resume status"@,
                        ),
                    ),
                    _ => Some(
                        PtyErrorModel::Backend(
                            "session supervisor returned unexpected resume status payload"@,
                        ),
                    ),
                },
            },
        }
    }

    /// A reply is in order: what the resume waits for next.
    pub open spec fn accepted(self, payload: PayloadModel) -> ResumeModel {
        match self.stage {
            ResumeStage::AttachSync => ResumeModel {
                stage: ResumeStage::Ping,
                sync: Some(payload->AttachSync_0),
                ..self
            },
            ResumeStage::Ping => ResumeModel { stage: ResumeStage::Snapshot, ..self },
            ResumeStage::Snapshot => ResumeModel { stage: ResumeStage::PrepareReader, ..self },
            _ => ResumeModel {
                stage: ResumeStage::StartReader,
                committed: Some(
                    ControllerIdentity {
                        id: payload->ControllerResumeStatus_controller_id->0,
                        connection_id: payload->ControllerResumeStatus_controller_connection_id->0,
                    },
                ),
                ..self
            },
        }
    }

    /// A reply arrives.
    pub open spec fn replied(self, reply: Result<PayloadModel, PtyErrorModel>) -> ResumeModel {
        match self.rejected(reply) {
            Some(_) => self.failed(),
            None => self.accepted(reply->Ok_0),
        }
    }

    /// Work on the connection ends.
    pub open spec fn worked(self, ok: bool) -> ResumeModel {
        if !ok {
            self.failed()
        } else {
            match self.stage {
                ResumeStage::Connect => ResumeModel { stage: ResumeStage::AttachSync, ..self },
                ResumeStage::PrepareReader => ResumeModel { stage: ResumeStage::Commit, ..self },
                _ => ResumeModel { stage: ResumeStage::Finished, sync: None, ..self },
            }
        }
    }

    /// The stages that wait for a reply.
    pub open spec fn awaits_reply(self) -> bool {
        ||| self.stage == ResumeStage::AttachSync
        ||| self.stage == ResumeStage::Ping
        ||| self.stage == ResumeStage::Snapshot
        ||| self.stage == ResumeStage::Commit
    }

    /// The stages that wait for work on the connection.
    pub open spec fn awaits_work(self) -> bool {
        ||| self.stage == ResumeStage::Connect
        ||| self.stage == ResumeStage::PrepareReader
        ||| self.stage == ResumeStage::StartReader
    }

    /// What has been learnt fits the stage, and tries are left while the resume goes on.
    pub open spec fn wf(self) -> bool {
        &&& self.attempts_left <= RESUME_ATTEMPTS
        &&& self.stage != ResumeStage::Failed ==> self.attempts_left > 0
        &&& (self.sync is Some) == !(self.stage == ResumeStage::Connect || self.stage
            == ResumeStage::AttachSync || self.stage == ResumeStage::Finished || self.stage
            == ResumeStage::Failed)
        &&& (self.committed is Some) == (self.stage == ResumeStage::StartReader || self.stage
            == ResumeStage::Finished)
    }

    /// An action is the one for the stage. `error` is the failure of the last try.
    pub open spec fn acts(self, action: ResumeAction, error: Option<PtyErrorModel>) -> bool {
        match self.stage {
            ResumeStage::Connect => action is Connect,
            ResumeStage::AttachSync => action matches ResumeAction::Send(envelope)
                && envelope.request_id == 1 && (match envelope.request {
                SupervisorRequest::AttachSync {
                    session_id,
                    last_terminal_seq,
                    resume_controller_id,
                } => session_id@ == self.session_id && last_terminal_seq is None
                    && resume_controller_id == Some(self.controller_id),
                _ => false,
            }),
            ResumeStage::Ping => action == ResumeAction::Send(
                SupervisorRequestEnvelope { request_id: 2, request: SupervisorRequest::Ping },
            ),
            ResumeStage::Snapshot => action == ResumeAction::Send(
                SupervisorRequestEnvelope { request_id: 3, request: SupervisorRequest::Snapshot },
            ),
            ResumeStage::PrepareReader => action is PrepareReader,
            ResumeStage::Commit => action == ResumeAction::Send(
                SupervisorRequestEnvelope {
                    request_id: 4,
                    request: SupervisorRequest::CommitControllerResume {
                        transaction_id: self.transaction_id,
                    },
                },
            ),
            ResumeStage::StartReader => action is StartReader,
            ResumeStage::Finished => action matches ResumeAction::Install { controller, .. }
                && self.committed == Some(controller),
            ResumeStage::Failed => match (action, error) {
                (ResumeAction::Fail(failure), Some(reason)) => failure@ == reason,
                _ => false,
            },
        }
    }
}

impl ResumeTransaction {
    /// What has been learnt fits the stage.
    pub open spec fn wf(&self) -> bool {
        self@.wf()
    }

    /// Begins a resume of the controller that the daemon holds.
    pub fn begin(
        restore_info: &PtyRestoreInfo,
        session_id: &str,
        controller: Option<ControllerIdentity>,
        transaction_id: u64,
    ) -> (res: PtyResult<Self>)
        ensures
            match resume_refusal(restore_info@, controller) {
                Some(reason) => res matches Err(e) && e@ == reason,
                None => res matches Ok(resume) && resume.wf() && resume@ == (ResumeModel {
                    session_id: session_id@,
                    controller_id: controller->0.id,
                    transaction_id,
                    attempts_left: RESUME_ATTEMPTS,
                    stage: ResumeStage::Connect,
                    sync: None,
                    committed: None,
                }),
            },
    {
        let status: PtySupervisorStatus = match restore_info {
            PtyRestoreInfo::UnixSocket { supervisor_status, .. } => *supervisor_status,
            PtyRestoreInfo::Tmux { .. } => {
                return Err(
                    PtyError::backend_message(
                        "supervisor IPC cannot reconnect obsolete tmux restore metadata",
                    ),
                );
            },
        };
        if status != PtySupervisorStatus::Running {
            return Err(not_reconnectable_error(status));
        }
        match controller {
            None => Err(PtyError::backend_message("session supervisor controller lease is missing")),
            Some(identity) => Ok(
                ResumeTransaction {
                    session_id: session_id.to_owned(),
                    controller_id: identity.id,
                    transaction_id,
                    attempts_left: RESUME_ATTEMPTS,
                    stage: ResumeStage::Connect,
                    sync: None,
                    committed: None,
                },
            ),
        }
    }

    /// What the resume waits for.
    pub fn stage(&self) -> (stage: ResumeStage)
        ensures
            stage == self@.stage,
    {
        self.stage
    }

    fn fail(&mut self, error: PtyError) -> (action: ResumeAction)
        requires
            old(self).wf(),
            old(self)@.stage != ResumeStage::Failed,
        ensures
            final(self).wf(),
            final(self)@ == old(self)@.failed(),
            final(self)@.acts(action, Some(error@)),
    {
        self.sync = None;
        self.committed = None;
        self.attempts_left = self.attempts_left - 1;
        if self.attempts_left == 0 {
            self.stage = ResumeStage::Failed;
            ResumeAction::Fail(error)
        } else {
            self.stage = ResumeStage::Connect;
            ResumeAction::Connect
        }
    }

    /// A reply to the request that was sent.
    pub fn on_reply(&mut self, reply: PtyResult<SupervisorResponsePayload>) -> (action: ResumeAction)
        requires
            old(self).wf(),
            old(self)@.awaits_reply(),
        ensures
            final(self).wf(),
            final(self)@ == old(self)@.replied(reply_model(reply)),
            final(self)@.acts(action, old(self)@.rejected(reply_model(reply))),
    {
        let payload = match reply {
            Ok(payload) => payload,
            Err(error) => {
                return self.fail(error);
            },
        };
        match self.stage {
            ResumeStage::AttachSync => match payload.into_attach_sync() {
                Ok(sync) => {
                    self.sync = Some(sync);
                    self.stage = ResumeStage::Ping;
                    ResumeAction::Send(
                        SupervisorRequestEnvelope { request_id: 2, request: SupervisorRequest::Ping },
                    )
                },
                Err(error) => self.fail(error),
            },
            ResumeStage::Ping => match payload.expect_empty() {
                Ok(()) => {
                    self.stage = ResumeStage::Snapshot;
                    ResumeAction::Send(
                        SupervisorRequestEnvelope {
                            request_id: 3,
                            request: SupervisorRequest::Snapshot,
                        },
                    )
                },
                Err(error) => self.fail(error),
            },
            ResumeStage::Snapshot => match payload.into_snapshot() {
                Ok(_) => {
                    self.stage = ResumeStage::PrepareReader;
                    ResumeAction::PrepareReader
                },
                Err(error) => self.fail(error),
            },
            _ => match payload.into_controller_resume_status() {
                Ok(Some(controller)) => {
                    self.committed = Some(controller);
                    self.stage = ResumeStage::StartReader;
                    ResumeAction::StartReader
                },
                Ok(None) => self.fail(
                    PtyError::backend_message("session supervisor resume commit was not recorded"),
                ),
                Err(error) => self.fail(error),
            },
        }
    }

    /// Work on the connection ended.
    pub fn on_worked(&mut self, result: PtyResult<()>) -> (action: ResumeAction)
        requires
            old(self).wf(),
            old(self)@.awaits_work(),
        ensures
            final(self).wf(),
            final(self)@ == old(self)@.worked(result is Ok),
            final(self)@.acts(
                action,
                match result {
                    Ok(()) => None,
                    Err(error) => Some(error@),
                },
            ),
            action matches ResumeAction::Install { sync, .. } ==> old(self)@.sync == Some(sync@),
    {
        if let Err(error) = result {
            return self.fail(error);
        }
        match self.stage {
            ResumeStage::Connect => {
                self.stage = ResumeStage::AttachSync;
                ResumeAction::Send(
                    SupervisorRequestEnvelope {
                        request_id: 1,
                        request: SupervisorRequest::AttachSync {
                            session_id: self.session_id.clone(),
                            last_terminal_seq: None,
                            resume_controller_id: Some(self.controller_id),
                        },
                    },
                )
            },
            ResumeStage::PrepareReader => {
                self.stage = ResumeStage::Commit;
                ResumeAction::Send(
                    SupervisorRequestEnvelope {
                        request_id: 4,
                        request: SupervisorRequest::CommitControllerResume {
                            transaction_id: self.transaction_id,
                        },
                    },
                )
            },
            _ => {
                self.stage = ResumeStage::Finished;
                match (self.sync.take(), self.committed) {
                    (Some(sync), Some(controller)) => ResumeAction::Install { sync, controller },
                    _ => ResumeAction::Connect,
                }
            },
        }
    }
}

// ---------------------------------------------------------------------------
// Laws

/// A resume finishes only after the supervisor answered a synchronisation and committed the
/// controller.
pub proof fn law_resume_finishes_only_after_a_commit(resume: ResumeModel, ok: bool)
    requires
        resume.wf(),
        resume.awaits_work(),
        resume.worked(ok).stage == ResumeStage::Finished,
    ensures
        ok,
        resume.sync is Some,
        resume.committed is Some,
        resume.worked(ok).committed == resume.committed,
{
}

/// Every step of a resume keeps the session, the controller and the transaction number.
pub proof fn law_resume_keeps_its_transaction(
    resume: ResumeModel,
    reply: Result<PayloadModel, PtyErrorModel>,
    ok: bool,
)
    ensures
        resume.replied(reply).transaction_id == resume.transaction_id,
        resume.replied(reply).controller_id == resume.controller_id,
        resume.replied(reply).session_id == resume.session_id,
        resume.worked(ok).transaction_id == resume.transaction_id,
        resume.worked(ok).controller_id == resume.controller_id,
        resume.worked(ok).session_id == resume.session_id,
{
}

/// Every failed try uses one up, so a resume ends after three failures.
pub proof fn law_resume_tries_are_bounded(resume: ResumeModel)
    requires
        resume.wf(),
        resume.stage != ResumeStage::Failed,
    ensures
        resume.failed().attempts_left == resume.attempts_left - 1,
        resume.failed().stage == ResumeStage::Failed <==> resume.attempts_left == 1,
{
}

// ---------------------------------------------------------------------------
// A resume and the supervisor that it talks to

/// A resume together with the supervisor, and the connection of the current try.
#[verifier::ext_equal]
pub struct ResumeRun {
    pub resume: ResumeModel,
    pub state: StateModel,
    pub candidate: Option<ConnectionModel>,
}

/// What happens to a resume.
pub enum ResumeEvent {
    /// Work on the connection ended.
    Worked { result: Result<(), PtyErrorModel> },
    /// A request was sent. It reached the supervisor or got lost, and some reply was taken for its
    /// answer.
    Asked {
        envelope: SupervisorRequestEnvelope,
        reached: bool,
        process_id: Option<u32>,
        screen: Seq<u8>,
        reply: Result<PayloadModel, PtyErrorModel>,
    },
}

impl ResumeRun {
    /// An event fits what the resume waits for.
    pub open spec fn may_meet(self, event: ResumeEvent) -> bool {
        match event {
            ResumeEvent::Worked { result } => {
                &&& self.resume.awaits_work()
                &&& result is Ok && self.resume.stage == ResumeStage::Connect
                    ==> self.state.next_lane_id < u64::MAX
            },
            ResumeEvent::Asked { envelope, .. } => {
                &&& self.resume.awaits_reply()
                &&& self.candidate is Some
                &&& self.resume.acts(ResumeAction::Send(envelope), None)
            },
        }
    }

    /// The reason why an event ends a try, if it does.
    pub open spec fn failure(self, event: ResumeEvent) -> Option<PtyErrorModel> {
        match event {
            ResumeEvent::Worked { result } => match result {
                Ok(()) => None,
                Err(error) => Some(error),
            },
            ResumeEvent::Asked { reply, .. } => self.resume.rejected(reply),
        }
    }

    /// The connection of the try is gone.
    pub open spec fn dropped(self) -> ResumeRun {
        match self.candidate {
            None => self,
            Some(candidate) => ResumeRun {
                state: finished(self.state, candidate),
                candidate: None,
                ..self
            },
        }
    }

    /// A new connection was accepted.
    pub open spec fn connected(self) -> ResumeRun {
        let lane_id = self.state.next_lane_id;
        ResumeRun {
            state: StateModel {
                next_lane_id: (lane_id + 1) as u64,
                lanes: self.state.lanes.insert(lane_id, LaneModel::fresh()),
                ..self.state
            },
            candidate: Some(
                ConnectionModel {
                    session_id: self.resume.session_id,
                    lane_id,
                    controller: None,
                    pending_resume: None,
                    committed_transaction: None,
                    pending_nonces: None,
                    cleanup_authenticated: false,
                },
            ),
            ..self
        }
    }

    /// What an event does. A try that fails gives its connection up.
    pub open spec fn met(self, event: ResumeEvent) -> ResumeRun {
        let happened = match event {
            ResumeEvent::Worked { result } => {
                let at = if result is Ok && self.resume.stage == ResumeStage::Connect {
                    self.connected()
                } else {
                    self
                };
                ResumeRun { resume: self.resume.worked(result is Ok), ..at }
            },
            ResumeEvent::Asked { envelope, reached, process_id, screen, reply } => {
                let resume = self.resume.replied(reply);
                if reached {
                    let out = handled(
                        self.state,
                        self.candidate->0,
                        envelope.request,
                        process_id,
                        screen,
                        Seq::empty(),
                    );
                    ResumeRun { resume, state: out.state, candidate: Some(out.conn) }
                } else {
                    ResumeRun { resume, ..self }
                }
            },
        };
        if self.failure(event) is Some {
            happened.dropped()
        } else {
            happened
        }
    }

    /// What a sequence of events does.
    pub open spec fn ran(self, events: Seq<ResumeEvent>) -> ResumeRun
        decreases events.len(),
    {
        if events.len() == 0 {
            self
        } else {
            self.ran(events.drop_last()).met(events.last())
        }
    }

    /// A sequence of events may happen, and none of them asks for the commit.
    pub open spec fn may_run_uncommitted(self, events: Seq<ResumeEvent>) -> bool {
        forall|i: int|
            0 <= i < events.len() ==> {
                let before = #[trigger] self.ran(events.take(i));
                before.may_meet(events[i]) && before.resume.stage != ResumeStage::Commit
            }
    }

    /// A resume that is about to begin, with a supervisor whose lanes have the numbers handed out.
    pub open spec fn begins(self) -> bool {
        &&& self.resume.wf()
        &&& self.resume.stage == ResumeStage::Connect
        &&& self.candidate is None
        &&& forall|lane_id: u64| #[trigger]
            self.state.lanes.contains_key(lane_id) ==> lane_id < self.state.next_lane_id
    }

    /// The supervisor is as it was at the start, but for the numbers that it has handed out and the lane
    /// of the current try.
    pub open spec fn keeps(self, start: ResumeRun) -> bool {
        let lanes = match self.candidate {
            None => start.state.lanes,
            Some(candidate) => start.state.lanes.insert(candidate.lane_id, LaneModel::fresh()),
        };
        &&& self.state == (StateModel {
            next_controller_connection_id: self.state.next_controller_connection_id,
            next_lane_id: self.state.next_lane_id,
            lanes,
            ..start.state
        })
        &&& self.state.next_controller_connection_id >= start.state.next_controller_connection_id
        &&& self.state.next_lane_id >= start.state.next_lane_id
    }

    spec fn uncommitted(self, start: ResumeRun) -> bool {
        &&& self.resume.wf()
        &&& self.resume.committed is None
        &&& self.resume.session_id == start.resume.session_id
        &&& self.resume.controller_id == start.resume.controller_id
        &&& self.resume.transaction_id == start.resume.transaction_id
        &&& self.keeps(start)
        &&& (self.candidate is None) == (self.resume.stage == ResumeStage::Connect
            || self.resume.stage == ResumeStage::Failed)
        &&& self.candidate matches Some(candidate) ==> {
            &&& !start.state.lanes.contains_key(candidate.lane_id)
            &&& candidate.session_id == start.resume.session_id
            &&& candidate.controller is None
            &&& !candidate.cleanup_authenticated
            &&& candidate.pending_resume matches Some(next) ==> {
                &&& next.id == start.resume.controller_id
                &&& next.connection_id >= start.state.next_controller_connection_id
            }
        }
    }
}

proof fn lemma_event_keeps_the_owner(start: ResumeRun, run: ResumeRun, event: ResumeEvent)
    requires
        start.begins(),
        run.uncommitted(start),
        run.may_meet(event),
        run.resume.stage != ResumeStage::Commit,
    ensures
        run.met(event).uncommitted(start),
{
    let after = run.met(event);
    match run.candidate {
        None => {
            if run.failure(event) is None {
                assert(after.state.lanes =~= start.state.lanes.insert(
                    run.state.next_lane_id,
                    LaneModel::fresh(),
                ));
            }
        },
        Some(candidate) => {
            assert(start.state.lanes.insert(candidate.lane_id, LaneModel::fresh()).remove(
                candidate.lane_id,
            ) =~= start.state.lanes);
        },
    }
}

proof fn lemma_uncommitted(start: ResumeRun, events: Seq<ResumeEvent>)
    requires
        start.begins(),
        start.may_run_uncommitted(events),
    ensures
        start.ran(events).uncommitted(start),
    decreases events.len(),
{
    if events.len() > 0 {
        let rest = events.drop_last();
        assert forall|i: int| 0 <= i < rest.len() implies {
            let before = #[trigger] start.ran(rest.take(i));
            before.may_meet(rest[i]) && before.resume.stage != ResumeStage::Commit
        } by {
            assert(rest.take(i) =~= events.take(i));
        }
        lemma_uncommitted(start, rest);
        assert(events.take(events.len() - 1) =~= rest);
        lemma_event_keeps_the_owner(start, start.ran(rest), events.last());
    }
}

/// A resume that fails before its commit takes nothing away from the controller that it was to follow.
///
/// Wherever a try fails, in its connection, its requests or its reader, and however often: lease, active
/// controller, registered controllers, attached devices, journal and lanes are as before, the failure of
/// the last try is reported, and what the old connection sends is still answered as it was.
pub proof fn law_failed_resume_keeps_the_owner(
    start: ResumeRun,
    events: Seq<ResumeEvent>,
    owner: ConnectionModel,
    request: SupervisorRequest,
    process_id: Option<u32>,
    screen: Seq<u8>,
    server_nonce: Seq<u8>,
    action: ResumeAction,
)
    requires
        start.begins(),
        start.may_run_uncommitted(events),
        start.ran(events).resume.stage == ResumeStage::Failed,
        start.ran(events).resume.acts(
            action,
            start.ran(events.drop_last()).failure(events.last()),
        ),
    ensures
        ({
            let end = start.ran(events).state;
            &&& end == (StateModel {
                next_controller_connection_id: end.next_controller_connection_id,
                next_lane_id: end.next_lane_id,
                ..start.state
            })
            &&& controller_failure(end, owner) == controller_failure(start.state, owner)
            &&& (request is Input || request is DeviceAttached) ==> handled(
                end,
                owner,
                request,
                process_id,
                screen,
                server_nonce,
            ).step == handled(
                start.state,
                owner,
                request,
                process_id,
                screen,
                server_nonce,
            ).step
        }),
        action matches ResumeAction::Fail(error) && start.ran(events.drop_last()).failure(
            events.last(),
        ) == Some(error@),
{
    lemma_uncommitted(start, events);
    assert(events.len() > 0);
}

/// A resume that gets as far as its commit, and whose candidate the supervisor knows, takes the
/// controller over: it keeps its number under a connection number that was not handed out before, it is
/// the active one with a single entry, and the devices stay attached. The old connection is fenced off,
/// and its end changes nothing any more.
pub proof fn law_committed_resume_takes_the_controller_over(
    start: ResumeRun,
    events: Seq<ResumeEvent>,
    owner: ControllerIdentity,
    old: ConnectionModel,
    request: SupervisorRequest,
    process_id: Option<u32>,
    screen: Seq<u8>,
    server_nonce: Seq<u8>,
)
    requires
        start.begins(),
        start.may_run_uncommitted(events),
        start.resume.controller_id == owner.id,
        start.state.is_active(owner),
        start.state.may_resume(owner.id),
        start.state.controllers.len() == 1,
        owner.connection_id < start.state.next_controller_connection_id,
        lookup(start.state.committed_resumes, start.resume.transaction_id) is None,
        start.ran(events).resume.stage == ResumeStage::Commit,
        start.ran(events).candidate->0.pending_resume is Some,
        request == (SupervisorRequest::CommitControllerResume {
            transaction_id: start.resume.transaction_id,
        }),
        old.controller == Some(owner),
    ensures
        ({
            let run = start.ran(events);
            let next = run.candidate->0.pending_resume->0;
            let out = handled(
                run.state,
                run.candidate->0,
                request,
                process_id,
                screen,
                server_nonce,
            );
            &&& out.step == resume_status(Some(next))
            &&& out.conn.controller == Some(next)
            &&& next.id == owner.id
            &&& next.connection_id >= start.state.next_controller_connection_id
            &&& next.connection_id != owner.connection_id
            &&& out.state.is_active(next)
            &&& !out.state.is_active(owner)
            &&& out.state.controllers.len() == 1
            &&& out.state.controller_resume_lease_id == Some(owner.id)
            &&& out.state.attached_devices == start.state.attached_devices
            &&& finished(out.state, old) == (StateModel {
                lanes: out.state.lanes.remove(old.lane_id),
                ..out.state
            })
        }),
{
    lemma_uncommitted(start, events);
    let run = start.ran(events);
    let candidate = run.candidate->0;
    let next = candidate.pending_resume->0;
    let handle = ControllerHandle {
        connection_id: next.connection_id,
        lane_id: candidate.lane_id,
    };
    lemma_with(start.state.controllers, owner.id, handle, owner.id);
    reveal_with_fuel(without, 2);
    reveal_with_fuel(lookup, 2);
    assert(start.state.controllers.drop_last() =~= Seq::<(u64, ControllerHandle)>::empty());
}

} // verus!
