//! Closing a session from the daemon's side.
//!
//! A close survives a lost connection: it has a number that stays the same over every try, and it is
//! confirmed over a connection that proves to the supervisor that it may only clean up. Before any
//! secret is sent, the supervisor has to prove that it knows it.

use crate::codec::{base64_bytes, base64_decode, base64_encode, base64_text};
use crate::paths::{path_file_name, path_file_name_text, path_parent, path_parent_text, paths_equal, same_path};
use crate::pty::supervisor::cleanup_auth::{
    cleanup_auth_proof, constant_time_eq, decode_cleanup_nonce, decoded_nonce, proof_digest,
};
use crate::pty::supervisor::client::{once_model, reply_model, FailureModel};
use crate::pty::supervisor::protocol::{
    PayloadModel, SupervisorRequest, SupervisorRequestEnvelope, SupervisorRequestFailure,
    SupervisorResponsePayload,
};
use crate::pty::supervisor::runtime_dir::SupervisorProcess;
use crate::pty::{
    IoError, PtyError, PtyErrorModel, PtyExitStatus, PtyRestoreInfo, PtyResult,
    PtySupervisorStatus, RestoreModel,
};
use crate::text::str_equal;
use vstd::prelude::*;

verus! {

/// The restore information with another lifecycle state; only a supervisor has one.
pub open spec fn with_status(info: RestoreModel, supervisor_status: PtySupervisorStatus) -> RestoreModel {
    match info {
        RestoreModel::UnixSocket { socket_path, supervisor_pid, .. } => RestoreModel::UnixSocket {
            socket_path,
            supervisor_pid,
            supervisor_status,
        },
        RestoreModel::Tmux { .. } => info,
    }
}

/// The restore information with another lifecycle state.
pub fn restore_info_with_status(
    restore_info: &PtyRestoreInfo,
    supervisor_status: PtySupervisorStatus,
) -> (info: PtyRestoreInfo)
    ensures
        info@ == with_status(restore_info@, supervisor_status),
{
    match restore_info {
        PtyRestoreInfo::UnixSocket { socket_path, supervisor_pid, .. } => PtyRestoreInfo::UnixSocket {
            socket_path: socket_path.clone(),
            supervisor_pid: *supervisor_pid,
            supervisor_status,
        },
        PtyRestoreInfo::Tmux { socket_path, session_name } => PtyRestoreInfo::Tmux {
            socket_path: socket_path.clone(),
            session_name: session_name.clone(),
        },
    }
}

// ---------------------------------------------------------------------------
// Is the supervisor still there?

/// A process is the supervisor of a session at a socket.
pub open spec fn is_supervisor_of(
    process: SupervisorProcess,
    session_id: Seq<char>,
    socket_path: Seq<char>,
) -> bool {
    process.session_id@ == session_id && same_path(process.socket_path@, socket_path)
}

fn process_matches(process: &SupervisorProcess, session_id: &str, socket_path: &str) -> (same: bool)
    ensures
        same == is_supervisor_of(*process, session_id@, socket_path@),
{
    str_equal(process.session_id.as_str(), session_id) && paths_equal(
        process.socket_path.as_str(),
        socket_path,
    )
}

/// How a supervisor ended that this daemon did not start, if it did. `process` is the supervisor that
/// now has the recorded process id, if one has: with another session or socket it is a later process.
pub fn probe_reconnected_supervisor_exit(
    session_id: &str,
    restore_info: &PtyRestoreInfo,
    process: Option<&SupervisorProcess>,
) -> (exit: Option<PtyExitStatus>)
    ensures
        match restore_info@ {
            RestoreModel::Tmux { .. } => exit is None,
            RestoreModel::UnixSocket { socket_path, .. } => {
                &&& exit is None <==> (process matches Some(p) && is_supervisor_of(
                    *p,
                    session_id@,
                    socket_path,
                ))
                &&& exit matches Some(status) ==> status.exit_code == 0 && status.signal is None
            },
        },
{
    match restore_info {
        PtyRestoreInfo::Tmux { .. } => None,
        PtyRestoreInfo::UnixSocket { socket_path, .. } => {
            let same = match process {
                Some(process) => process_matches(process, session_id, socket_path.as_str()),
                None => false,
            };
            if same {
                None
            } else {
                Some(PtyExitStatus::exited(0))
            }
        },
    }
}

/// Whether a process is gone, by the outcome of sending it the empty signal: without permission to
/// signal it, it is there.
pub fn pid_is_missing(signalled: bool, no_such_process: bool, not_permitted: bool, error: IoError) -> (res:
    PtyResult<bool>)
    ensures
        signalled ==> res == Ok::<bool, PtyError>(false),
        !signalled && no_such_process ==> res == Ok::<bool, PtyError>(true),
        !signalled && !no_such_process && not_permitted ==> res == Ok::<bool, PtyError>(false),
        !signalled && !no_such_process && !not_permitted ==> res == Err::<bool, PtyError>(
            PtyError::Io(error),
        ),
{
    if signalled {
        Ok(false)
    } else if no_such_process {
        Ok(true)
    } else if not_permitted {
        Ok(false)
    } else {
        Err(PtyError::Io(error))
    }
}

/// What one look at a child process showed.
#[derive(Debug)]
pub enum ReapPoll {
    /// It was reaped.
    Reaped,
    /// It still runs.
    Running,
    /// It is not a child of this process; it may be gone altogether.
    NotAChild { missing: bool, error: IoError },
    /// The look was interrupted.
    Interrupted,
    /// The look failed.
    Failed(IoError),
}

/// What to do after a look at a child process: nothing comes back where to look again later.
pub fn reap_step(poll: ReapPoll, past_deadline: bool) -> (done: Option<PtyResult<()>>)
    ensures
        match poll {
            ReapPoll::Reaped => done == Some(Ok::<(), PtyError>(())),
            ReapPoll::NotAChild { missing, error } => if missing {
                done == Some(Ok::<(), PtyError>(()))
            } else {
                done == Some(Err::<(), PtyError>(PtyError::Io(error)))
            },
            ReapPoll::Failed(error) => done == Some(Err::<(), PtyError>(PtyError::Io(error))),
            ReapPoll::Running | ReapPoll::Interrupted => {
                &&& done is None <==> !past_deadline
                &&& done matches Some(result) ==> (result matches Err(e) && e@
                    == PtyErrorModel::Backend(
                    "timed out reaping failed session supervisor launch"@,
                ))
            },
        },
{
    match poll {
        ReapPoll::Reaped => Some(Ok(())),
        ReapPoll::NotAChild { missing, error } => {
            if missing {
                Some(Ok(()))
            } else {
                Some(Err(PtyError::Io(error)))
            }
        },
        ReapPoll::Failed(error) => Some(Err(PtyError::Io(error))),
        ReapPoll::Running | ReapPoll::Interrupted => {
            if past_deadline {
                Some(
                    Err(
                        PtyError::backend_message(
                            "timed out reaping failed session supervisor launch",
                        ),
                    ),
                )
            } else {
                None
            }
        },
    }
}

// ---------------------------------------------------------------------------
// Is it the right supervisor?

/// Where a cleanup connection goes.
#[derive(Debug)]
pub struct CloseTarget {
    pub socket_path: String,
    pub supervisor_pid: u32,
    pub expected_pid: i32,
}

/// The other side of a connection, as the kernel reports it.
#[derive(Clone, Copy, Debug, PartialEq, Eq)]
pub struct PeerCredentials {
    pub complete: bool,
    pub pid: i32,
    pub uid: u32,
}

/// Where a cleanup connection may go: only to a supervisor that is recorded as closing.
pub fn restricted_close_target(restore_info: &PtyRestoreInfo) -> (res: PtyResult<CloseTarget>)
    ensures
        match restore_info@ {
            RestoreModel::UnixSocket {
                socket_path,
                supervisor_pid,
                supervisor_status: PtySupervisorStatus::Closing,
            } => if supervisor_pid <= i32::MAX {
                res matches Ok(target) && target.socket_path@ == socket_path
                    && target.supervisor_pid == supervisor_pid && target.expected_pid
                    == supervisor_pid
            } else {
                res matches Err(e) && e@ == PtyErrorModel::Backend(
                    "out of range integral type conversion attempted"@,
                )
            },
            _ => res matches Err(e) && e@ == PtyErrorModel::Backend(
                "restricted supervisor close requires Closing Unix restore metadata"@,
            ),
        },
{
    if let PtyRestoreInfo::UnixSocket { socket_path, supervisor_pid, supervisor_status } = restore_info {
        if *supervisor_status == PtySupervisorStatus::Closing {
            if *supervisor_pid <= 0x7fff_ffff {
                return Ok(
                    CloseTarget {
                        socket_path: socket_path.clone(),
                        supervisor_pid: *supervisor_pid,
                        expected_pid: *supervisor_pid as i32,
                    },
                );
            }
            return Err(
                PtyError::backend_message("out of range integral type conversion attempted"),
            );
        }
    }
    Err(
        PtyError::backend_message(
            "restricted supervisor close requires Closing Unix restore metadata",
        ),
    )
}

impl CloseTarget {
    /// The other side must be the recorded process, of the same user.
    pub fn check_peer(&self, credentials: PeerCredentials, effective_uid: u32) -> (res: PtyResult<()>)
        ensures
            res is Ok <==> credentials.complete && credentials.pid == self.expected_pid
                && credentials.uid == effective_uid,
            res matches Err(e) ==> e@ == PtyErrorModel::Backend(
                "restricted supervisor close peer credentials do not match restore metadata"@,
            ),
    {
        if !credentials.complete || credentials.pid != self.expected_pid || credentials.uid
            != effective_uid {
            return Err(
                PtyError::backend_message(
                    "restricted supervisor close peer credentials do not match restore metadata",
                ),
            );
        }
        Ok(())
    }

    /// The recorded process must be the supervisor of the session at the recorded socket.
    pub fn check_process(&self, session_id: &str, process: Option<&SupervisorProcess>) -> (res:
        PtyResult<()>)
        ensures
            res is Ok <==> (process matches Some(p) && is_supervisor_of(
                *p,
                session_id@,
                self.socket_path@,
            )),
            res matches Err(e) ==> e@ == PtyErrorModel::Backend(
                if process is None {
                    "restricted supervisor close process identity is unavailable"@
                } else {
                    "restricted supervisor close process identity does not match restore metadata"@
                },
            ),
    {
        match process {
            None => Err(
                PtyError::backend_message(
                    "restricted supervisor close process identity is unavailable",
                ),
            ),
            Some(process) => {
                if process_matches(process, session_id, self.socket_path.as_str()) {
                    Ok(())
                } else {
                    Err(
                        PtyError::backend_message(
                            "restricted supervisor close process identity does not match restore metadata",
                        ),
                    )
                }
            },
        }
    }

    /// The directory and the name of the socket.
    pub fn locate(&self) -> (res: PtyResult<(String, String)>)
        ensures
            match path_parent_text(self.socket_path@) {
                None => res matches Err(e) && e@ == PtyErrorModel::Backend(
                    "restricted supervisor socket has no parent directory"@,
                ),
                Some(parent) => match path_file_name_text(self.socket_path@) {
                    None => res matches Err(e) && e@ == PtyErrorModel::Backend(
                        "restricted supervisor socket has no file name"@,
                    ),
                    Some(name) => res matches Ok((dir, file)) && dir@ == parent && file@ == name,
                },
            },
    {
        let parent = match path_parent(self.socket_path.as_str()) {
            Some(parent) => parent,
            None => {
                return Err(
                    PtyError::backend_message("restricted supervisor socket has no parent directory"),
                );
            },
        };
        match path_file_name(self.socket_path.as_str()) {
            Some(name) => Ok((parent, name)),
            None => Err(
                PtyError::backend_message("restricted supervisor socket has no file name"),
            ),
        }
    }

    /// The socket must belong to the user, and nobody else may reach it.
    pub fn check_socket(&self, owner_uid: u32, permissions: u32, effective_uid: u32) -> (res:
        PtyResult<()>)
        ensures
            res is Ok <==> owner_uid == effective_uid && permissions == 0o600,
            res matches Err(e) ==> e@ == PtyErrorModel::Backend(
                "restricted supervisor socket ownership or permissions are unsafe"@,
            ),
    {
        if owner_uid != effective_uid || permissions != 0o600 {
            return Err(
                PtyError::backend_message(
                    "restricted supervisor socket ownership or permissions are unsafe",
                ),
            );
        }
        Ok(())
    }
}

// ---------------------------------------------------------------------------
// Mutual authentication

/// The daemon's part of the authentication on a cleanup connection.
pub struct CleanupAuthentication {
    session_id: String,
    capability: [u8; 32],
    client_nonce: [u8; 32],
}

/// The content of a [`CleanupAuthentication`].
pub struct CleanupAuthModel {
    pub session_id: Seq<char>,
    pub capability: Seq<u8>,
    pub client_nonce: Seq<u8>,
}

impl View for CleanupAuthentication {
    type V = CleanupAuthModel;

    closed spec fn view(&self) -> CleanupAuthModel {
        CleanupAuthModel {
            session_id: self.session_id@,
            capability: self.capability@,
            client_nonce: self.client_nonce@,
        }
    }
}

impl CleanupAuthModel {
    /// Why a challenge of the supervisor is not to be answered, if it is not.
    pub open spec fn distrust(self, payload: PayloadModel) -> Option<PtyErrorModel> {
        match payload {
            PayloadModel::CleanupAuthChallenge { server_nonce_base64, server_proof_base64 } => {
                match decoded_nonce(server_nonce_base64) {
                    Err(error) => Some(error),
                    Ok(server_nonce) => match base64_bytes(server_proof_base64) {
                        Err(reason) => Some(PtyErrorModel::Backend(reason)),
                        Ok(supplied) => if supplied == proof_digest(
                            self.capability,
                            self.session_id,
                            self.client_nonce,
                            server_nonce,
                        ) {
                            None
                        } else {
                            Some(
                                PtyErrorModel::Backend(
                                    "restricted supervisor cleanup server authentication failed"@,
                                ),
                            )
                        },
                    },
                }
            },
            _ => Some(
                PtyErrorModel::Backend(
                    "session supervisor returned unexpected cleanup authentication payload"@,
                ),
            ),
        }
    }

    /// A request is the challenge to the supervisor.
    pub open spec fn challenges(self, request: SupervisorRequest) -> bool {
        match request {
            SupervisorRequest::CleanupAuthChallenge { session_id, client_nonce_base64 } => {
                &&& session_id@ == self.session_id
                &&& client_nonce_base64@ == base64_text(self.client_nonce)
                &&& base64_bytes(client_nonce_base64@) == Ok::<Seq<u8>, Seq<char>>(
                    self.client_nonce,
                )
            },
            _ => false,
        }
    }

    /// A request is the answer to a challenge of the supervisor.
    pub open spec fn answers(self, request: SupervisorRequest, payload: PayloadModel) -> bool {
        match request {
            SupervisorRequest::CleanupAuthenticate {
                session_id,
                client_nonce_base64,
                server_nonce_base64,
                capability_base64,
            } => {
                &&& session_id@ == self.session_id
                &&& client_nonce_base64@ == base64_text(self.client_nonce)
                &&& base64_bytes(client_nonce_base64@) == Ok::<Seq<u8>, Seq<char>>(
                    self.client_nonce,
                )
                &&& server_nonce_base64@ == payload->CleanupAuthChallenge_server_nonce_base64
                &&& capability_base64@ == base64_text(self.capability)
                &&& base64_bytes(capability_base64@) == Ok::<Seq<u8>, Seq<char>>(self.capability)
            },
            _ => false,
        }
    }
}

impl CleanupAuthentication {
    /// The authentication for a session with its capability and a fresh nonce.
    pub fn new(session_id: &str, capability: [u8; 32], client_nonce: [u8; 32]) -> (auth: Self)
        ensures
            auth@ == (CleanupAuthModel {
                session_id: session_id@,
                capability: capability@,
                client_nonce: client_nonce@,
            }),
    {
        CleanupAuthentication { session_id: session_id.to_owned(), capability, client_nonce }
    }

    /// The challenge to the supervisor.
    pub fn challenge(&self) -> (request: SupervisorRequest)
        ensures
            self@.challenges(request),
    {
        SupervisorRequest::CleanupAuthChallenge {
            session_id: self.session_id.clone(),
            client_nonce_base64: base64_encode(self.client_nonce.as_slice()),
        }
    }

    /// Checks what the supervisor proves, and only then shows it the capability.
    pub fn answer(&self, payload: SupervisorResponsePayload) -> (res: PtyResult<SupervisorRequest>)
        ensures
            match self@.distrust(payload@) {
                Some(reason) => res matches Err(e) && e@ == reason,
                None => res matches Ok(request) && self@.answers(request, payload@),
            },
    {
        let (server_nonce_base64, server_proof_base64) = match payload.into_cleanup_auth_challenge() {
            Ok(challenge) => challenge,
            Err(error) => {
                return Err(error);
            },
        };
        let server_nonce = match decode_cleanup_nonce(server_nonce_base64.as_str()) {
            Ok(nonce) => nonce,
            Err(error) => {
                return Err(error);
            },
        };
        let supplied = match base64_decode(server_proof_base64.as_str()) {
            Ok(bytes) => bytes,
            Err(reason) => {
                return Err(PtyError::Backend(reason));
            },
        };
        let expected = cleanup_auth_proof(
            &self.capability,
            self.session_id.as_str(),
            &self.client_nonce,
            &server_nonce,
        );
        if !constant_time_eq(supplied.as_slice(), expected.as_slice()) {
            return Err(
                PtyError::backend_message(
                    "restricted supervisor cleanup server authentication failed",
                ),
            );
        }
        Ok(
            SupervisorRequest::CleanupAuthenticate {
                session_id: self.session_id.clone(),
                client_nonce_base64: base64_encode(self.client_nonce.as_slice()),
                server_nonce_base64,
                capability_base64: base64_encode(self.capability.as_slice()),
            },
        )
    }
}

// ---------------------------------------------------------------------------
// A restricted close

/// What a restricted close waits for.
#[derive(Clone, Copy, Debug, PartialEq, Eq, Structural)]
pub enum RestrictedStage {
    Challenge,
    Authenticate,
    Status,
    Close,
    Finalize,
    Exit,
    Over,
}

/// What the owner of a cleanup connection does next.
#[derive(Debug)]
pub enum RestrictedStep {
    /// Send a request, and report the reply.
    Send(SupervisorRequestEnvelope),
    /// Look whether the supervisor has ended, and report it.
    AwaitExit,
    /// The close is over; it is known whether the process is dead.
    Done(bool),
    /// The close failed.
    Failed(PtyError),
}

/// A close over a cleanup connection, by a daemon that may hold no controller.
pub struct RestrictedClose {
    auth: CleanupAuthentication,
    operation_id: u64,
    stage: RestrictedStage,
}

/// The content of a [`RestrictedClose`].
pub struct RestrictedModel {
    pub auth: CleanupAuthModel,
    pub operation_id: u64,
    pub stage: RestrictedStage,
}

impl View for RestrictedClose {
    type V = RestrictedModel;

    closed spec fn view(&self) -> RestrictedModel {
        RestrictedModel {
            auth: self.auth@,
            operation_id: self.operation_id,
            stage: self.stage,
        }
    }
}

impl RestrictedModel {
    /// Why a reply ends the close, if it does.
    pub open spec fn rejected(self, reply: Result<PayloadModel, PtyErrorModel>) -> Option<
        PtyErrorModel,
    > {
        match reply {
            Err(error) => Some(error),
            Ok(payload) => match self.stage {
                RestrictedStage::Challenge => self.auth.distrust(payload),
                RestrictedStage::Status | RestrictedStage::Close => if payload is CloseStatus {
                    None
                } else {
                    Some(
                        PtyErrorModel::Backend(
                            "session supervisor returned unexpected close status payload"@,
                        ),
                    )
                },
                _ => if payload is Empty {
                    None
                } else {
                    Some(
                        PtyErrorModel::Backend(
                            "session supervisor returned unexpected snapshot payload"@,
                        ),
                    )
                },
            },
        }
    }

    /// What the close waits for after a reply that is in order. A process that is already dead is not
    /// closed again.
    pub open spec fn next_stage(self, payload: PayloadModel) -> RestrictedStage {
        match self.stage {
            RestrictedStage::Challenge => RestrictedStage::Authenticate,
            RestrictedStage::Authenticate => RestrictedStage::Status,
            RestrictedStage::Status => if payload->CloseStatus_confirmed_dead {
                RestrictedStage::Finalize
            } else {
                RestrictedStage::Close
            },
            RestrictedStage::Close => if payload->CloseStatus_confirmed_dead {
                RestrictedStage::Finalize
            } else {
                RestrictedStage::Over
            },
            _ => RestrictedStage::Exit,
        }
    }

    /// A step is the one for a stage.
    pub open spec fn steps(self, payload: PayloadModel, step: RestrictedStep) -> bool {
        match self.stage {
            RestrictedStage::Authenticate => step matches RestrictedStep::Send(envelope)
                && envelope.request_id == 2 && self.auth.answers(envelope.request, payload),
            RestrictedStage::Status => step == RestrictedStep::Send(
                SupervisorRequestEnvelope {
                    request_id: 3,
                    request: SupervisorRequest::CloseStatus { operation_id: self.operation_id },
                },
            ),
            RestrictedStage::Close => step matches RestrictedStep::Send(envelope)
                && envelope.request_id == 4 && (match envelope.request {
                SupervisorRequest::CleanupClose { session_id, operation_id } => session_id@
                    == self.auth.session_id && operation_id == self.operation_id,
                _ => false,
            }),
            RestrictedStage::Finalize => step == RestrictedStep::Send(
                SupervisorRequestEnvelope {
                    request_id: 5,
                    request: SupervisorRequest::FinalizeClose { operation_id: self.operation_id },
                },
            ),
            RestrictedStage::Exit => step is AwaitExit,
            _ => step == RestrictedStep::Done(false),
        }
    }
}

impl RestrictedClose {
    /// Begins a close. The first request is the challenge.
    pub fn begin(auth: CleanupAuthentication, operation_id: u64) -> (res: (
        Self,
        SupervisorRequestEnvelope,
    ))
        ensures
            (res.0)@ == (RestrictedModel {
                auth: auth@,
                operation_id,
                stage: RestrictedStage::Challenge,
            }),
            (res.1).request_id == 1,
            auth@.challenges((res.1).request),
    {
        let request = auth.challenge();
        (
            RestrictedClose { auth, operation_id, stage: RestrictedStage::Challenge },
            SupervisorRequestEnvelope { request_id: 1, request },
        )
    }

    /// What the close waits for.
    pub fn stage(&self) -> (stage: RestrictedStage)
        ensures
            stage == self@.stage,
    {
        self.stage
    }

    fn stop(&mut self, error: PtyError) -> (step: RestrictedStep)
        ensures
            final(self)@ == (RestrictedModel { stage: RestrictedStage::Over, ..old(self)@ }),
            step == RestrictedStep::Failed(error),
    {
        self.stage = RestrictedStage::Over;
        RestrictedStep::Failed(error)
    }

    fn finalize(&mut self) -> (step: RestrictedStep)
        ensures
            final(self)@ == (RestrictedModel { stage: RestrictedStage::Finalize, ..old(self)@ }),
            step == RestrictedStep::Send(
                SupervisorRequestEnvelope {
                    request_id: 5,
                    request: SupervisorRequest::FinalizeClose {
                        operation_id: old(self)@.operation_id,
                    },
                },
            ),
    {
        self.stage = RestrictedStage::Finalize;
        RestrictedStep::Send(
            SupervisorRequestEnvelope {
                request_id: 5,
                request: SupervisorRequest::FinalizeClose { operation_id: self.operation_id },
            },
        )
    }

    /// A reply to the request that was sent.
    pub fn on_reply(&mut self, reply: PtyResult<SupervisorResponsePayload>) -> (step: RestrictedStep)
        requires
            old(self)@.stage != RestrictedStage::Exit,
            old(self)@.stage != RestrictedStage::Over,
        ensures
            match old(self)@.rejected(reply_model(reply)) {
                Some(reason) => {
                    &&& final(self)@ == (RestrictedModel {
                        stage: RestrictedStage::Over,
                        ..old(self)@
                    })
                    &&& step matches RestrictedStep::Failed(e)
                    &&& e@ == reason
                },
                None => {
                    let payload = reply_model(reply)->Ok_0;
                    &&& final(self)@ == (RestrictedModel {
                        stage: old(self)@.next_stage(payload),
                        ..old(self)@
                    })
                    &&& final(self)@.steps(payload, step)
                },
            },
    {
        let payload = match reply {
            Ok(payload) => payload,
            Err(error) => {
                return self.stop(error);
            },
        };
        match self.stage {
            RestrictedStage::Challenge => match self.auth.answer(payload) {
                Ok(request) => {
                    self.stage = RestrictedStage::Authenticate;
                    RestrictedStep::Send(SupervisorRequestEnvelope { request_id: 2, request })
                },
                Err(error) => self.stop(error),
            },
            RestrictedStage::Authenticate => match payload.expect_empty() {
                Ok(()) => {
                    self.stage = RestrictedStage::Status;
                    RestrictedStep::Send(
                        SupervisorRequestEnvelope {
                            request_id: 3,
                            request: SupervisorRequest::CloseStatus {
                                operation_id: self.operation_id,
                            },
                        },
                    )
                },
                Err(error) => self.stop(error),
            },
            RestrictedStage::Status => match payload.into_close_status() {
                Ok(true) => self.finalize(),
                Ok(false) => {
                    self.stage = RestrictedStage::Close;
                    RestrictedStep::Send(
                        SupervisorRequestEnvelope {
                            request_id: 4,
                            request: SupervisorRequest::CleanupClose {
                                session_id: self.auth.session_id.clone(),
                                operation_id: self.operation_id,
                            },
                        },
                    )
                },
                Err(error) => self.stop(error),
            },
            RestrictedStage::Close => match payload.into_close_status() {
                Ok(true) => self.finalize(),
                Ok(false) => {
                    self.stage = RestrictedStage::Over;
                    RestrictedStep::Done(false)
                },
                Err(error) => self.stop(error),
            },
            _ => match payload.expect_empty() {
                Ok(()) => {
                    self.stage = RestrictedStage::Exit;
                    RestrictedStep::AwaitExit
                },
                Err(error) => self.stop(error),
            },
        }
    }

    /// A look at the supervisor after the close was finalised.
    pub fn on_exit_probe(&mut self, before_deadline: bool, exited: bool) -> (step: RestrictedStep)
        requires
            old(self)@.stage == RestrictedStage::Exit,
        ensures
            final(self)@ == (RestrictedModel {
                stage: if before_deadline && !exited {
                    RestrictedStage::Exit
                } else {
                    RestrictedStage::Over
                },
                ..old(self)@
            }),
            before_deadline && exited ==> step == RestrictedStep::Done(true),
            before_deadline && !exited ==> step is AwaitExit,
            !before_deadline ==> (step matches RestrictedStep::Failed(e) && e@
                == PtyErrorModel::Backend(
                "timed out waiting for finalized session supervisor to exit"@,
            )),
    {
        if !before_deadline {
            return self.stop(
                PtyError::backend_message(
                    "timed out waiting for finalized session supervisor to exit",
                ),
            );
        }
        if exited {
            self.stage = RestrictedStage::Over;
            RestrictedStep::Done(true)
        } else {
            RestrictedStep::AwaitExit
        }
    }
}

// ---------------------------------------------------------------------------
// A natural exit

/// The socket at which to ask whether a process ended on its own; only a running supervisor is asked.
pub fn natural_exit_target(restore_info: &PtyRestoreInfo) -> (socket_path: Option<String>)
    ensures
        match restore_info@ {
            RestoreModel::UnixSocket {
                socket_path: path,
                supervisor_status: PtySupervisorStatus::Running,
                ..
            } => socket_path matches Some(p) && p@ == path,
            _ => socket_path is None,
        },
{
    if let PtyRestoreInfo::UnixSocket { socket_path, supervisor_status, .. } = restore_info {
        if *supervisor_status == PtySupervisorStatus::Running {
            return Some(socket_path.clone());
        }
    }
    None
}

/// What to do after the supervisor told whether the process ended on its own.
#[derive(Debug)]
pub enum NaturalExitStep {
    /// The supervisor may go: send the request, and report the reply.
    Finalize(SupervisorRequestEnvelope),
    /// It is known whether the process ended.
    Done(PtyResult<bool>),
}

/// The question whether the process ended on its own.
pub fn natural_exit_request() -> (envelope: SupervisorRequestEnvelope)
    ensures
        envelope == (SupervisorRequestEnvelope {
            request_id: 1,
            request: SupervisorRequest::NaturalExitStatus,
        }),
{
    SupervisorRequestEnvelope { request_id: 1, request: SupervisorRequest::NaturalExitStatus }
}

/// The supervisor told whether the process ended on its own.
pub fn on_natural_exit_status(reply: PtyResult<SupervisorResponsePayload>) -> (step: NaturalExitStep)
    ensures
        match reply_model(reply) {
            Ok(PayloadModel::CloseStatus { confirmed_dead: true }) => step
                == NaturalExitStep::Finalize(
                SupervisorRequestEnvelope {
                    request_id: 2,
                    request: SupervisorRequest::FinalizeNaturalExit,
                },
            ),
            Ok(PayloadModel::CloseStatus { confirmed_dead: false }) => step
                == NaturalExitStep::Done(Ok(false)),
            Ok(_) => step matches NaturalExitStep::Done(Err(e)) && e@ == PtyErrorModel::Backend(
                "session supervisor returned unexpected close status payload"@,
            ),
            Err(error) => step matches NaturalExitStep::Done(Err(e)) && e@ == error,
        },
{
    match reply {
        Ok(payload) => match payload.into_close_status() {
            Ok(true) => NaturalExitStep::Finalize(
                SupervisorRequestEnvelope {
                    request_id: 2,
                    request: SupervisorRequest::FinalizeNaturalExit,
                },
            ),
            Ok(false) => NaturalExitStep::Done(Ok(false)),
            Err(error) => NaturalExitStep::Done(Err(error)),
        },
        Err(error) => NaturalExitStep::Done(Err(error)),
    }
}

/// The supervisor was told that it may go.
pub fn on_natural_exit_finalized(reply: PtyResult<SupervisorResponsePayload>) -> (res: PtyResult<bool>)
    ensures
        match reply_model(reply) {
            Ok(PayloadModel::Empty) => res == Ok::<bool, PtyError>(true),
            Ok(_) => res matches Err(e) && e@ == PtyErrorModel::Backend(
                "session supervisor returned unexpected snapshot payload"@,
            ),
            Err(error) => res matches Err(e) && e@ == error,
        },
{
    match reply {
        Ok(payload) => match payload.expect_empty() {
            Ok(()) => Ok(true),
            Err(error) => Err(error),
        },
        Err(error) => Err(error),
    }
}

// ---------------------------------------------------------------------------
// Terminating a session

/// What a daemon keeps of a session for closing it.
pub struct CloseState {
    restore_info: PtyRestoreInfo,
    cleanup_capability: Option<[u8; 32]>,
    close_operation_id: Option<u64>,
}

/// The content of a [`CloseState`].
pub struct CloseModel {
    pub restore_info: RestoreModel,
    pub cleanup_capability: Option<Seq<u8>>,
    pub close_operation_id: Option<u64>,
}

impl View for CloseState {
    type V = CloseModel;

    closed spec fn view(&self) -> CloseModel {
        CloseModel {
            restore_info: self.restore_info@,
            cleanup_capability: match self.cleanup_capability {
                Some(capability) => Some(capability@),
                None => None,
            },
            close_operation_id: self.close_operation_id,
        }
    }
}

impl CloseModel {
    /// The session is recorded in a lifecycle state.
    pub open spec fn in_status(self, status: PtySupervisorStatus) -> CloseModel {
        CloseModel { restore_info: with_status(self.restore_info, status), ..self }
    }
}

/// How a session is closed over its control connection.
#[derive(Clone, Copy, Debug, PartialEq, Eq, Structural)]
pub enum ClosePlan {
    /// Without a capability the close is asked for once.
    Once,
    /// With a capability the close has a number, and is confirmed.
    Numbered { operation_id: u64 },
}

impl CloseState {
    /// What is kept of a session that nobody closes yet.
    pub fn new(restore_info: PtyRestoreInfo, cleanup_capability: Option<[u8; 32]>) -> (state: Self)
        ensures
            state@ == (CloseModel {
                restore_info: restore_info@,
                cleanup_capability: match cleanup_capability {
                    Some(capability) => Some(capability@),
                    None => None,
                },
                close_operation_id: None,
            }),
    {
        CloseState { restore_info, cleanup_capability, close_operation_id: None }
    }

    /// How to find the session again.
    pub fn restore_info(&self) -> (info: &PtyRestoreInfo)
        ensures
            info@ == self@.restore_info,
    {
        &self.restore_info
    }

    /// The close that a daemon chose earlier keeps its number.
    pub fn set_operation(&mut self, operation_id: u64)
        ensures
            final(self)@ == (CloseModel { close_operation_id: Some(operation_id), ..old(self)@ }),
    {
        self.close_operation_id = Some(operation_id);
    }

    /// A close begins. `fresh_operation_id` is used where the close has no number yet.
    pub fn begin(&mut self, fresh_operation_id: u64) -> (plan: ClosePlan)
        ensures
            match old(self)@.cleanup_capability {
                None => {
                    &&& plan == ClosePlan::Once
                    &&& final(self)@ == old(self)@.in_status(PtySupervisorStatus::Closing)
                },
                Some(_) => {
                    let operation_id = match old(self)@.close_operation_id {
                        Some(id) => id,
                        None => fresh_operation_id,
                    };
                    &&& plan == (ClosePlan::Numbered { operation_id })
                    &&& final(self)@ == (CloseModel {
                        close_operation_id: Some(operation_id),
                        ..old(self)@.in_status(PtySupervisorStatus::Closing)
                    })
                },
            },
    {
        self.restore_info = restore_info_with_status(
            &self.restore_info,
            PtySupervisorStatus::Closing,
        );
        if self.cleanup_capability.is_none() {
            return ClosePlan::Once;
        }
        let operation_id: u64 = match self.close_operation_id {
            Some(id) => id,
            None => fresh_operation_id,
        };
        self.close_operation_id = Some(operation_id);
        ClosePlan::Numbered { operation_id }
    }

    /// The close that was asked for once was answered.
    pub fn finish_once(
        &mut self,
        once: Result<SupervisorResponsePayload, SupervisorRequestFailure>,
    ) -> (res: PtyResult<()>)
        ensures
            match once_model(once) {
                Ok(PayloadModel::Empty) => res is Ok && final(self)@ == old(self)@.in_status(
                    PtySupervisorStatus::Closed,
                ),
                Ok(_) => final(self)@ == old(self)@ && (res matches Err(e) && e@
                    == PtyErrorModel::Backend(
                    "session supervisor returned unexpected snapshot payload"@,
                )),
                Err(FailureModel::Response(error)) => final(self)@ == old(self)@ && (res matches Err(
                    e,
                ) && e@ == error),
                Err(FailureModel::Transport(error)) => final(self)@ == old(self)@ && (res matches Err(
                    e,
                ) && e@ == error),
            },
    {
        match once {
            Ok(payload) => match payload.expect_empty() {
                Ok(()) => {
                    self.mark_closed();
                    Ok(())
                },
                Err(error) => Err(error),
            },
            Err(SupervisorRequestFailure::Response(error)) => Err(error),
            Err(SupervisorRequestFailure::Transport(error)) => Err(error),
        }
    }

    /// The session is closed.
    pub fn mark_closed(&mut self)
        ensures
            final(self)@ == old(self)@.in_status(PtySupervisorStatus::Closed),
    {
        self.restore_info = restore_info_with_status(
            &self.restore_info,
            PtySupervisorStatus::Closed,
        );
    }

    /// What a daemon that never reached the supervisor needs for closing it: the number of the close
    /// and the capability.
    pub fn disconnected_close(&mut self) -> (res: PtyResult<(u64, [u8; 32])>)
        ensures
            final(self)@ == old(self)@.in_status(PtySupervisorStatus::Closing),
            match old(self)@.close_operation_id {
                None => res matches Err(e) && e@ == PtyErrorModel::Backend(
                    "disconnected supervisor cleanup requires a durable close operation"@,
                ),
                Some(id) => match old(self)@.cleanup_capability {
                    None => res matches Err(e) && e@ == PtyErrorModel::Backend(
                        "disconnected supervisor cleanup capability is unavailable"@,
                    ),
                    Some(capability) => res matches Ok((operation_id, secret)) && operation_id == id
                        && secret@ == capability,
                },
            },
    {
        self.restore_info = restore_info_with_status(
            &self.restore_info,
            PtySupervisorStatus::Closing,
        );
        match (self.close_operation_id, self.cleanup_capability) {
            (None, _) => Err(
                PtyError::backend_message(
                    "disconnected supervisor cleanup requires a durable close operation",
                ),
            ),
            (Some(_), None) => Err(
                PtyError::backend_message(
                    "disconnected supervisor cleanup capability is unavailable",
                ),
            ),
            (Some(operation_id), Some(capability)) => Ok((operation_id, capability)),
        }
    }
}

/// Whether a close over a cleanup connection was confirmed.
pub fn disconnected_close_result(confirmed: bool) -> (res: PtyResult<()>)
    ensures
        res is Ok <==> confirmed,
        res matches Err(e) ==> e@ == PtyErrorModel::Backend(
            "disconnected supervisor cleanup was not confirmed"@,
        ),
{
    if confirmed {
        Ok(())
    } else {
        Err(PtyError::backend_message("disconnected supervisor cleanup was not confirmed"))
    }
}

/// The failure to report where a numbered close is never confirmed.
pub open spec fn close_failure(
    once: Result<PayloadModel, FailureModel>,
) -> PtyErrorModel {
    match once {
        Ok(PayloadModel::CloseStatus { confirmed_dead: true }) => PtyErrorModel::Backend(
            "session supervisor finalize was not confirmed"@,
        ),
        Ok(PayloadModel::CloseStatus { confirmed_dead: false }) => PtyErrorModel::Backend(
            "session supervisor close was not confirmed"@,
        ),
        Ok(_) => PtyErrorModel::Backend(
            "session supervisor returned unexpected close status payload"@,
        ),
        Err(FailureModel::Response(error)) => error,
        Err(FailureModel::Transport(error)) => error,
    }
}

fn close_failure_error(once: Result<SupervisorResponsePayload, SupervisorRequestFailure>) -> (error:
    PtyError)
    ensures
        error@ == close_failure(once_model(once)),
{
    match once {
        Ok(payload) => match payload.into_close_status() {
            Ok(true) => PtyError::backend_message("session supervisor finalize was not confirmed"),
            Ok(false) => PtyError::backend_message("session supervisor close was not confirmed"),
            Err(error) => error,
        },
        Err(SupervisorRequestFailure::Response(error)) => error,
        Err(SupervisorRequestFailure::Transport(error)) => error,
    }
}

/// What the confirmation of a close waits for.
#[derive(Clone, Copy, Debug, PartialEq, Eq, Structural)]
pub enum ConfirmStage {
    /// Whether time is left, and whether a supervisor that is a child has ended.
    Child,
    /// Whether a supervisor that is no child has ended.
    Probe,
    /// An authenticated cleanup connection.
    Connect,
    /// Whether the process is dead.
    Status,
    /// Whether the close is finalised.
    Finalize,
    /// Nothing: it is over.
    Over,
}

/// What to do for the confirmation of a close.
#[derive(Debug)]
pub enum ConfirmStep {
    /// Look at the clock and, where there is one, at the child process.
    CheckChild,
    /// Look whether the supervisor has ended.
    ProbeExit,
    /// Make a cleanup connection and authenticate on it.
    Connect,
    /// Send a request on the connection, and report the reply.
    Send(SupervisorRequestEnvelope),
    /// Wait a moment, then look again.
    Pause,
    /// The close is confirmed.
    Done,
    /// Time is up.
    Failed(PtyError),
}

/// The confirmation of a numbered close. Only the end of the process counts, or the supervisor's word
/// that it is dead and that the close is final.
pub struct CloseConfirmation {
    operation_id: u64,
    confirmed_dead: bool,
    stage: ConfirmStage,
    close_error: Option<PtyError>,
}

/// The content of a [`CloseConfirmation`].
pub struct ConfirmModel {
    pub operation_id: u64,
    pub confirmed_dead: bool,
    pub stage: ConfirmStage,
    pub close_error: Option<PtyErrorModel>,
}

impl View for CloseConfirmation {
    type V = ConfirmModel;

    closed spec fn view(&self) -> ConfirmModel {
        ConfirmModel {
            operation_id: self.operation_id,
            confirmed_dead: self.confirmed_dead,
            stage: self.stage,
            close_error: match self.close_error {
                Some(error) => Some(error@),
                None => None,
            },
        }
    }
}

impl ConfirmModel {
    /// The failure to report is kept until it is over.
    pub open spec fn wf(self) -> bool {
        self.stage != ConfirmStage::Over ==> self.close_error is Some
    }

    /// The confirmation waits for something.
    pub open spec fn at(self, stage: ConfirmStage) -> ConfirmModel {
        ConfirmModel { stage, ..self }
    }

    /// The confirmation is over.
    pub open spec fn over(self) -> ConfirmModel {
        ConfirmModel { stage: ConfirmStage::Over, close_error: None, ..self }
    }
}

impl CloseConfirmation {
    /// The failure to report is kept until it is over.
    pub open spec fn wf(&self) -> bool {
        self@.wf()
    }

    /// Begins to confirm a close. `once` is what the first try of the close came to.
    pub fn begin(
        restore_info: &PtyRestoreInfo,
        cleanup_capability: Option<[u8; 32]>,
        operation_id: u64,
        once: Result<SupervisorResponsePayload, SupervisorRequestFailure>,
    ) -> (res: PtyResult<Self>)
        ensures
            match restore_info@ {
                RestoreModel::Tmux { .. } => res matches Err(e) && e@ == close_failure(
                    once_model(once),
                ),
                RestoreModel::UnixSocket { .. } => if cleanup_capability is None {
                    res matches Err(e) && e@ == PtyErrorModel::Backend(
                        "session supervisor cleanup capability is unavailable"@,
                    )
                } else {
                    res matches Ok(confirmation) && confirmation.wf() && confirmation@
                        == (ConfirmModel {
                        operation_id,
                        confirmed_dead: false,
                        stage: ConfirmStage::Child,
                        close_error: Some(close_failure(once_model(once))),
                    })
                },
            },
    {
        let close_error = close_failure_error(once);
        match restore_info {
            PtyRestoreInfo::Tmux { .. } => Err(close_error),
            PtyRestoreInfo::UnixSocket { .. } => {
                if cleanup_capability.is_none() {
                    return Err(
                        PtyError::backend_message(
                            "session supervisor cleanup capability is unavailable",
                        ),
                    );
                }
                Ok(
                    CloseConfirmation {
                        operation_id,
                        confirmed_dead: false,
                        stage: ConfirmStage::Child,
                        close_error: Some(close_error),
                    },
                )
            },
        }
    }

    /// What the confirmation waits for.
    pub fn stage(&self) -> (stage: ConfirmStage)
        ensures
            stage == self@.stage,
    {
        self.stage
    }

    fn done(&mut self) -> (step: ConfirmStep)
        ensures
            final(self)@ == old(self)@.over(),
            step is Done,
    {
        self.stage = ConfirmStage::Over;
        self.close_error = None;
        ConfirmStep::Done
    }

    fn pause(&mut self) -> (step: ConfirmStep)
        ensures
            final(self)@ == old(self)@.at(ConfirmStage::Child),
            step is Pause,
    {
        self.stage = ConfirmStage::Child;
        ConfirmStep::Pause
    }

    /// A look at the clock and at the child process. Where time is up, the failure of the close is
    /// reported.
    pub fn on_child(&mut self, before_deadline: bool, child_exited: bool) -> (step: ConfirmStep)
        requires
            old(self).wf(),
            old(self)@.stage == ConfirmStage::Child,
        ensures
            final(self).wf(),
            if !before_deadline {
                &&& final(self)@ == old(self)@.over()
                &&& step matches ConfirmStep::Failed(e)
                &&& Some(e@) == old(self)@.close_error
            } else if child_exited {
                final(self)@ == old(self)@.over() && step is Done
            } else if old(self)@.confirmed_dead {
                final(self)@ == old(self)@.at(ConfirmStage::Probe) && step is ProbeExit
            } else {
                final(self)@ == old(self)@.at(ConfirmStage::Connect) && step is Connect
            },
    {
        if !before_deadline {
            self.stage = ConfirmStage::Over;
            return match self.close_error.take() {
                Some(error) => ConfirmStep::Failed(error),
                None => ConfirmStep::Pause,
            };
        }
        if child_exited {
            return self.done();
        }
        if self.confirmed_dead {
            self.stage = ConfirmStage::Probe;
            ConfirmStep::ProbeExit
        } else {
            self.stage = ConfirmStage::Connect;
            ConfirmStep::Connect
        }
    }

    /// A look at a supervisor that said that the process is dead.
    pub fn on_probe(&mut self, exited: bool) -> (step: ConfirmStep)
        requires
            old(self).wf(),
            old(self)@.stage == ConfirmStage::Probe,
        ensures
            final(self).wf(),
            if exited {
                final(self)@ == old(self)@.over() && step is Done
            } else {
                final(self)@ == old(self)@.at(ConfirmStage::Connect) && step is Connect
            },
    {
        if exited {
            return self.done();
        }
        self.stage = ConfirmStage::Connect;
        ConfirmStep::Connect
    }

    /// A cleanup connection was made and authenticated, or not.
    pub fn on_connected(&mut self, authenticated: bool) -> (step: ConfirmStep)
        requires
            old(self).wf(),
            old(self)@.stage == ConfirmStage::Connect,
        ensures
            final(self).wf(),
            if authenticated {
                &&& final(self)@ == old(self)@.at(ConfirmStage::Status)
                &&& step == ConfirmStep::Send(
                    SupervisorRequestEnvelope {
                        request_id: 3,
                        request: SupervisorRequest::CloseStatus {
                            operation_id: old(self)@.operation_id,
                        },
                    },
                )
            } else {
                final(self)@ == old(self)@.at(ConfirmStage::Child) && step is Pause
            },
    {
        if !authenticated {
            return self.pause();
        }
        self.stage = ConfirmStage::Status;
        ConfirmStep::Send(
            SupervisorRequestEnvelope {
                request_id: 3,
                request: SupervisorRequest::CloseStatus { operation_id: self.operation_id },
            },
        )
    }

    /// The supervisor told whether the process is dead.
    pub fn on_status(&mut self, reply: PtyResult<SupervisorResponsePayload>) -> (step: ConfirmStep)
        requires
            old(self).wf(),
            old(self)@.stage == ConfirmStage::Status,
        ensures
            final(self).wf(),
            if reply_model(reply) == Ok::<PayloadModel, PtyErrorModel>(
                PayloadModel::CloseStatus { confirmed_dead: true },
            ) {
                &&& final(self)@ == (ConfirmModel { confirmed_dead: true, ..old(self)@ }).at(
                    ConfirmStage::Finalize,
                )
                &&& step == ConfirmStep::Send(
                    SupervisorRequestEnvelope {
                        request_id: 4,
                        request: SupervisorRequest::FinalizeClose {
                            operation_id: old(self)@.operation_id,
                        },
                    },
                )
            } else {
                final(self)@ == old(self)@.at(ConfirmStage::Child) && step is Pause
            },
    {
        let dead = match reply {
            Ok(payload) => match payload.into_close_status() {
                Ok(dead) => dead,
                Err(_) => false,
            },
            Err(_) => false,
        };
        if !dead {
            return self.pause();
        }
        self.confirmed_dead = true;
        self.stage = ConfirmStage::Finalize;
        ConfirmStep::Send(
            SupervisorRequestEnvelope {
                request_id: 4,
                request: SupervisorRequest::FinalizeClose { operation_id: self.operation_id },
            },
        )
    }

    /// The supervisor made the close final, or not.
    pub fn on_finalized(&mut self, reply: PtyResult<SupervisorResponsePayload>) -> (step: ConfirmStep)
        requires
            old(self).wf(),
            old(self)@.stage == ConfirmStage::Finalize,
        ensures
            final(self).wf(),
            if reply_model(reply) == Ok::<PayloadModel, PtyErrorModel>(PayloadModel::Empty) {
                final(self)@ == old(self)@.over() && step is Done
            } else {
                final(self)@ == old(self)@.at(ConfirmStage::Child) && step is Pause
            },
    {
        let finalized = match reply {
            Ok(payload) => payload.expect_empty().is_ok(),
            Err(_) => false,
        };
        if finalized {
            self.done()
        } else {
            self.pause()
        }
    }
}

/// What to do about a child process that was told to end: nothing comes back where to look again
/// later.
pub fn child_reap_step(exited: bool, past_deadline: bool) -> (done: Option<PtyResult<()>>)
    ensures
        exited ==> done == Some(Ok::<(), PtyError>(())),
        !exited && !past_deadline ==> done is None,
        !exited && past_deadline ==> (done matches Some(Err(e)) && e@ == PtyErrorModel::Backend(
            "timed out reaping session supervisor child"@,
        )),
{
    if exited {
        Some(Ok(()))
    } else if past_deadline {
        Some(Err(PtyError::backend_message("timed out reaping session supervisor child")))
    } else {
        None
    }
}

// ---------------------------------------------------------------------------
// Laws

/// A daemon trusts a supervisor that proves to know the capability, and answers its challenge.
pub proof fn law_honest_supervisor_is_trusted(
    auth: CleanupAuthModel,
    server_nonce_base64: Seq<char>,
    server_proof_base64: Seq<char>,
    server_nonce: Seq<u8>,
)
    requires
        decoded_nonce(server_nonce_base64) == Ok::<Seq<u8>, PtyErrorModel>(server_nonce),
        base64_bytes(server_proof_base64) == Ok::<Seq<u8>, Seq<char>>(
            proof_digest(auth.capability, auth.session_id, auth.client_nonce, server_nonce),
        ),
    ensures
        auth.distrust(
            PayloadModel::CleanupAuthChallenge { server_nonce_base64, server_proof_base64 },
        ) is None,
{
}

/// A supervisor that does not prove to know the capability is never shown it.
pub proof fn law_capability_is_not_shown_to_a_stranger(
    auth: CleanupAuthModel,
    payload: PayloadModel,
)
    requires
        match payload {
            PayloadModel::CleanupAuthChallenge { server_nonce_base64, server_proof_base64 } => {
                forall|server_nonce: Seq<u8>|
                    decoded_nonce(server_nonce_base64) == Ok::<Seq<u8>, PtyErrorModel>(server_nonce)
                        ==> base64_bytes(server_proof_base64) != Ok::<Seq<u8>, Seq<char>>(
                        #[trigger] proof_digest(
                            auth.capability,
                            auth.session_id,
                            auth.client_nonce,
                            server_nonce,
                        ),
                    )
            },
            _ => true,
        },
    ensures
        auth.distrust(payload) is Some,
{
}

/// The number of a close stays the same however often the close begins.
pub proof fn law_close_number_is_stable(close: CloseModel, first: u64, second: u64)
    requires
        close.cleanup_capability is Some,
    ensures
        ({
            let chosen = |state: CloseModel, fresh: u64|
                match state.close_operation_id {
                    Some(id) => id,
                    None => fresh,
                };
            let begun = CloseModel {
                close_operation_id: Some(chosen(close, first)),
                ..close.in_status(PtySupervisorStatus::Closing)
            };
            chosen(begun, second) == chosen(close, first)
        }),
{
}

} // verus!
