//! The protocol of one control connection of a supervisor.
//!
//! A request is answered in one step, or it first needs something done to the pseudo-terminal. Then
//! the step names the effect, whoever owns the pseudo-terminal performs it, and the outcome is handed
//! back to complete the answer.

use crate::codec::{base64_bytes, base64_decode, base64_encode, base64_text, may_be_drawn};
use crate::collections::lookup;
use crate::pty::supervisor::cleanup_auth::{
    cleanup_auth_proof, constant_time_eq, decode_cleanup_capability, decode_cleanup_nonce,
    decoded_capability, decoded_nonce, proof_digest, random_cleanup_nonce,
    PendingCleanupAuthentication,
};
use crate::pty::supervisor::output_queue::LaneModel;
use crate::pty::supervisor::protocol::{
    ControllerIdentity, PayloadModel, ResponseModel, SupervisorFrame, SupervisorRequest,
    SupervisorResponse, SupervisorResponsePayload,
};
use crate::pty::supervisor::screen::ScreenEmulator;
use crate::pty::supervisor::state::{not_active, StateModel, SupervisorState};
use crate::pty::{FrameModel, PtyError, PtyErrorModel, PtyResult, PtySize, PtyTerminalFrame};
use crate::text::str_equal;
use vstd::prelude::*;

verus! {

/// What one control connection remembers.
pub struct SupervisorConnection {
    expected_session_id: String,
    lane_id: u64,
    controller_identity: Option<ControllerIdentity>,
    pending_resume_identity: Option<ControllerIdentity>,
    committed_resume_transaction_id: Option<u64>,
    pending_cleanup_authentication: Option<PendingCleanupAuthentication>,
    cleanup_authenticated: bool,
}

/// The mathematical content of a [`SupervisorConnection`].
pub struct ConnectionModel {
    pub session_id: Seq<char>,
    pub lane_id: u64,
    pub controller: Option<ControllerIdentity>,
    pub pending_resume: Option<ControllerIdentity>,
    pub committed_transaction: Option<u64>,
    pub pending_nonces: Option<(Seq<u8>, Seq<u8>)>,
    pub cleanup_authenticated: bool,
}

impl View for SupervisorConnection {
    type V = ConnectionModel;

    closed spec fn view(&self) -> ConnectionModel {
        ConnectionModel {
            session_id: self.expected_session_id@,
            lane_id: self.lane_id,
            controller: self.controller_identity,
            pending_resume: self.pending_resume_identity,
            committed_transaction: self.committed_resume_transaction_id,
            pending_nonces: match self.pending_cleanup_authentication {
                Some(pending) => Some((pending.client_nonce@, pending.server_nonce@)),
                None => None,
            },
            cleanup_authenticated: self.cleanup_authenticated,
        }
    }
}

/// Something that has to be done to the pseudo-terminal before a request can be answered.
#[derive(Debug, PartialEq, Eq)]
pub enum PtyEffect {
    /// Write input.
    Write(Vec<u8>),
    /// Change the size.
    Resize(PtySize),
    /// End the process and wait for it; only ending it may fail.
    Terminate,
    /// End the process and wait for it; both may fail.
    TerminateAndWait,
}

/// The content of a [`PtyEffect`].
pub enum EffectModel {
    Write(Seq<u8>),
    Resize(PtySize),
    Terminate,
    TerminateAndWait,
}

impl View for PtyEffect {
    type V = EffectModel;

    open spec fn view(&self) -> EffectModel {
        match self {
            PtyEffect::Write(bytes) => EffectModel::Write(bytes@),
            PtyEffect::Resize(size) => EffectModel::Resize(*size),
            PtyEffect::Terminate => EffectModel::Terminate,
            PtyEffect::TerminateAndWait => EffectModel::TerminateAndWait,
        }
    }
}

/// How a request is answered once its effect has been performed.
#[derive(Clone, Copy, Debug, PartialEq, Eq, Structural)]
pub enum PendingReply {
    Written,
    Resized(PtySize),
    Closed,
    ConfirmedDead(u64),
}

/// An answer, with what must happen around sending it.
#[derive(Debug)]
pub struct SupervisorReply {
    pub response: SupervisorResponse,
    /// Live frames up to this sequence number are covered by the answer.
    pub suppress_live_through_base_seq: Option<u64>,
    /// The supervisor itself is to stop.
    pub shutdown: bool,
}

/// The content of a [`SupervisorReply`].
pub struct ReplyModel {
    pub response: ResponseModel,
    pub suppress: Option<u64>,
    pub shutdown: bool,
}

impl View for SupervisorReply {
    type V = ReplyModel;

    open spec fn view(&self) -> ReplyModel {
        ReplyModel {
            response: self.response@,
            suppress: self.suppress_live_through_base_seq,
            shutdown: self.shutdown,
        }
    }
}

/// What to do about a request.
#[derive(Debug)]
pub enum SupervisorStep {
    Reply(SupervisorReply),
    Perform { effect: PtyEffect, pending: PendingReply },
}

/// The content of a [`SupervisorStep`].
pub enum StepModel {
    Reply(ReplyModel),
    Perform { effect: EffectModel, pending: PendingReply },
}

impl View for SupervisorStep {
    type V = StepModel;

    open spec fn view(&self) -> StepModel {
        match self {
            SupervisorStep::Reply(reply) => StepModel::Reply(reply@),
            SupervisorStep::Perform { effect, pending } => StepModel::Perform {
                effect: effect@,
                pending: *pending,
            },
        }
    }
}

/// What is known of the session host when a request is handled.
pub struct RequestContext {
    pub process_id: Option<u32>,
    pub screen: Vec<u8>,
}

// ---------------------------------------------------------------------------
// What each request means

/// An answer without further ado.
pub open spec fn plain(response: ResponseModel) -> StepModel {
    StepModel::Reply(ReplyModel { response, suppress: None, shutdown: false })
}

/// A refusal.
pub open spec fn refused(message: Seq<char>) -> StepModel {
    plain(ResponseModel::Refusal(message))
}

/// A refusal that shows a failure.
pub open spec fn failed(error: PtyErrorModel) -> StepModel {
    refused(error.text())
}

/// The empty success.
pub open spec fn done() -> StepModel {
    plain(ResponseModel::Success(PayloadModel::Empty))
}

/// Whether a process is confirmed dead.
pub open spec fn close_status(confirmed_dead: bool) -> StepModel {
    plain(ResponseModel::Success(PayloadModel::CloseStatus { confirmed_dead }))
}

/// Why a connection may not act as the controller, if it may not.
pub open spec fn controller_failure(state: StateModel, conn: ConnectionModel) -> Option<
    PtyErrorModel,
> {
    match conn.controller {
        None => Some(
            PtyErrorModel::Backend("session supervisor connection is not attached"@),
        ),
        Some(controller) => if state.is_active(controller) {
            None
        } else {
            Some(not_active())
        },
    }
}

/// Why a connection may act neither as the controller nor as a candidate, if it may not.
pub open spec fn candidate_failure(state: StateModel, conn: ConnectionModel) -> Option<PtyErrorModel> {
    if conn.controller is Some {
        controller_failure(state, conn)
    } else {
        match conn.pending_resume {
            None => Some(
                PtyErrorModel::Backend("session supervisor connection is not attached"@),
            ),
            Some(candidate) => if state.may_resume(candidate.id) {
                None
            } else {
                Some(not_active())
            },
        }
    }
}

/// A connection has some authority over closing: it is attached or authenticated for cleanup.
pub open spec fn has_close_authority(conn: ConnectionModel) -> bool {
    conn.controller is Some || conn.cleanup_authenticated
}

/// Everything that supports an authentication: an open challenge, well-formed secrets that match it,
/// and the capability of this session.
pub open spec fn authenticates(
    state: StateModel,
    conn: ConnectionModel,
    client_nonce_base64: Seq<char>,
    server_nonce_base64: Seq<char>,
    capability_base64: Seq<char>,
) -> bool {
    &&& conn.pending_nonces matches Some((client, server)) && {
        &&& decoded_nonce(client_nonce_base64) == Ok::<Seq<u8>, PtyErrorModel>(client)
        &&& decoded_nonce(server_nonce_base64) == Ok::<Seq<u8>, PtyErrorModel>(server)
    }
    &&& state.cleanup_capability matches Some(capability) && decoded_capability(capability_base64)
        == Ok::<Seq<u8>, PtyErrorModel>(capability)
}

/// The result of a step: the shared state, the connection, and what to do.
pub struct Outcome {
    pub state: StateModel,
    pub conn: ConnectionModel,
    pub step: StepModel,
}

/// A step that changes neither the shared state nor the connection.
pub open spec fn unchanged(state: StateModel, conn: ConnectionModel, step: StepModel) -> Outcome {
    Outcome { state, conn, step }
}

/// What an attached controller gets as its answer.
pub open spec fn attach_outcome(
    state: StateModel,
    conn: ConnectionModel,
    process_id: Option<u32>,
    screen: Seq<u8>,
    last: Option<u64>,
    with_frames: bool,
) -> Outcome {
    let controller = state.next_identity();
    let sync = state.sync_payload(controller, process_id, last, screen);
    Outcome {
        state: state.attached(conn.lane_id),
        conn: ConnectionModel { controller: Some(controller), ..conn },
        step: StepModel::Reply(
            ReplyModel {
                response: ResponseModel::Success(
                    if with_frames {
                        PayloadModel::AttachSync(sync)
                    } else {
                        PayloadModel::Snapshot(sync.snapshot)
                    },
                ),
                suppress: Some(sync.base_seq),
                shutdown: false,
            },
        ),
    }
}

/// The answer to a request to attach or to resume.
pub open spec fn attach_sync_outcome(
    state: StateModel,
    conn: ConnectionModel,
    session_id: Seq<char>,
    last: Option<u64>,
    resume: Option<u64>,
    process_id: Option<u32>,
    screen: Seq<u8>,
) -> Outcome {
    if conn.controller is Some {
        unchanged(state, conn, refused("session supervisor control socket is already attached"@))
    } else if session_id != conn.session_id {
        unchanged(state, conn, refused("session id mismatch"@))
    } else if state.exited {
        unchanged(
            state,
            conn,
            failed(PtyErrorModel::Backend("session supervisor PTY has exited"@)),
        )
    } else {
        match resume {
            None => attach_outcome(state, conn, process_id, screen, last, true),
            Some(id) => if !state.may_prepare_resume(id) {
                unchanged(state, conn, failed(not_active()))
            } else {
                let candidate = ControllerIdentity {
                    id,
                    connection_id: state.next_controller_connection_id,
                };
                let sync = state.sync_payload(candidate, process_id, last, screen);
                Outcome {
                    state: state.connection_allocated(),
                    conn: ConnectionModel { pending_resume: Some(candidate), ..conn },
                    step: StepModel::Reply(
                        ReplyModel {
                            response: ResponseModel::Success(PayloadModel::AttachSync(sync)),
                            suppress: Some(sync.base_seq),
                            shutdown: false,
                        },
                    ),
                }
            },
        }
    }
}

/// The answer that tells which controller a transaction committed.
pub open spec fn resume_status(committed: Option<ControllerIdentity>) -> StepModel {
    plain(
        ResponseModel::Success(
            PayloadModel::ControllerResumeStatus {
                controller_id: match committed {
                    Some(controller) => Some(controller.id),
                    None => None,
                },
                controller_connection_id: match committed {
                    Some(controller) => Some(controller.connection_id),
                    None => None,
                },
            },
        ),
    )
}

/// The answer to a request to commit a resume.
pub open spec fn commit_outcome(state: StateModel, conn: ConnectionModel, transaction_id: u64) -> Outcome {
    match conn.pending_resume {
        None => unchanged(
            state,
            conn,
            refused("session supervisor has no pending controller resume"@),
        ),
        Some(candidate) => {
            let settled = |committed: ControllerIdentity|
                ConnectionModel {
                    controller: Some(committed),
                    pending_resume: None,
                    committed_transaction: Some(transaction_id),
                    ..conn
                };
            match lookup(state.committed_resumes, transaction_id) {
                Some(committed) => if committed.id == candidate.id {
                    Outcome {
                        state: state.activated(committed, conn.lane_id),
                        conn: settled(committed),
                        step: resume_status(Some(committed)),
                    }
                } else {
                    unchanged(
                        state,
                        conn,
                        failed(
                            PtyErrorModel::Backend(
                                "session supervisor resume transaction mismatch"@,
                            ),
                        ),
                    )
                },
                None => if state.may_resume(candidate.id) {
                    Outcome {
                        state: StateModel {
                            committed_resumes: crate::collections::with(
                                state.committed_resumes,
                                transaction_id,
                                candidate,
                            ),
                            ..state.activated(candidate, conn.lane_id)
                        },
                        conn: settled(candidate),
                        step: resume_status(Some(candidate)),
                    }
                } else {
                    unchanged(state, conn, failed(not_active()))
                },
            }
        },
    }
}

/// The answer to a cleanup challenge, for a given server nonce.
pub open spec fn challenge_outcome(
    state: StateModel,
    conn: ConnectionModel,
    session_id: Seq<char>,
    client_nonce_base64: Seq<char>,
    server_nonce: Seq<u8>,
) -> Outcome {
    if conn.controller is Some {
        unchanged(
            state,
            conn,
            refused("cleanup authentication cannot use a controller connection"@),
        )
    } else if session_id != conn.session_id {
        unchanged(state, conn, refused("session id mismatch"@))
    } else {
        match decoded_nonce(client_nonce_base64) {
            Err(error) => unchanged(state, conn, failed(error)),
            Ok(client_nonce) => match state.cleanup_capability {
                None => unchanged(state, conn, refused("cleanup capability is not installed"@)),
                Some(capability) => Outcome {
                    state,
                    conn: ConnectionModel {
                        pending_nonces: Some((client_nonce, server_nonce)),
                        ..conn
                    },
                    step: plain(
                        ResponseModel::Success(
                            PayloadModel::CleanupAuthChallenge {
                                server_nonce_base64: base64_text(server_nonce),
                                server_proof_base64: base64_text(
                                    proof_digest(
                                        capability,
                                        conn.session_id,
                                        client_nonce,
                                        server_nonce,
                                    ),
                                ),
                            },
                        ),
                    ),
                },
            },
        }
    }
}

/// A request is a challenge that is going to be met, for which a nonce has to be drawn.
pub open spec fn meets_challenge(
    state: StateModel,
    conn: ConnectionModel,
    request: SupervisorRequest,
) -> bool {
    &&& !(conn.cleanup_authenticated && !request.restricted())
    &&& conn.controller is None
    &&& state.cleanup_capability is Some
    &&& request matches SupervisorRequest::CleanupAuthChallenge { session_id, client_nonce_base64 }
    &&& session_id@ == conn.session_id
    &&& decoded_nonce(client_nonce_base64@) is Ok
}

/// The answer to an authentication. The open challenge is used up in any case.
pub open spec fn authenticate_outcome(
    state: StateModel,
    conn: ConnectionModel,
    session_id: Seq<char>,
    client_nonce_base64: Seq<char>,
    server_nonce_base64: Seq<char>,
    capability_base64: Seq<char>,
) -> Outcome {
    let spent = ConnectionModel { pending_nonces: None, ..conn };
    if conn.controller is Some {
        unchanged(
            state,
            spent,
            refused("cleanup authentication cannot use a controller connection"@),
        )
    } else if session_id != conn.session_id {
        unchanged(state, spent, refused("session id mismatch"@))
    } else if authenticates(
        state,
        conn,
        client_nonce_base64,
        server_nonce_base64,
        capability_base64,
    ) {
        Outcome {
            state: StateModel { cleanup_capability_replaceable: false, ..state },
            conn: ConnectionModel { cleanup_authenticated: true, ..spent },
            step: done(),
        }
    } else {
        unchanged(state, spent, refused("cleanup authentication failed"@))
    }
}

/// The answer to a close on an authenticated cleanup connection.
pub open spec fn cleanup_close_outcome(
    state: StateModel,
    conn: ConnectionModel,
    session_id: Seq<char>,
    operation_id: u64,
) -> Outcome {
    if !conn.cleanup_authenticated {
        unchanged(state, conn, refused("restricted cleanup close requires authentication"@))
    } else if session_id != conn.session_id {
        unchanged(state, conn, refused("session id mismatch"@))
    } else {
        match state.confirmed_close {
            Some(confirmed) => if confirmed == operation_id {
                unchanged(state, conn, close_status(true))
            } else {
                unchanged(
                    state,
                    conn,
                    refused("a different session supervisor close operation is confirmed"@),
                )
            },
            None => Outcome {
                state: StateModel { cleanup_capability_replaceable: false, ..state },
                conn,
                step: StepModel::Perform {
                    effect: EffectModel::TerminateAndWait,
                    pending: PendingReply::ConfirmedDead(operation_id),
                },
            },
        }
    }
}

/// A stop of the supervisor with an empty success.
pub open spec fn stopping() -> StepModel {
    StepModel::Reply(
        ReplyModel {
            response: ResponseModel::Success(PayloadModel::Empty),
            suppress: None,
            shutdown: true,
        },
    )
}

/// What a request does on a connection that may still make it, for a given server nonce.
pub open spec fn request_outcome(
    state: StateModel,
    conn: ConnectionModel,
    request: SupervisorRequest,
    process_id: Option<u32>,
    screen: Seq<u8>,
    server_nonce: Seq<u8>,
) -> Outcome {
    match request {
        SupervisorRequest::Attach { session_id } => if conn.controller is Some {
            unchanged(
                state,
                conn,
                refused("session supervisor control socket is already attached"@),
            )
        } else if session_id@ != conn.session_id {
            unchanged(state, conn, refused("session id mismatch"@))
        } else {
            attach_outcome(state, conn, process_id, screen, None, false)
        },
        SupervisorRequest::AttachSync { session_id, last_terminal_seq, resume_controller_id } => {
            attach_sync_outcome(
                state,
                conn,
                session_id@,
                last_terminal_seq,
                resume_controller_id,
                process_id,
                screen,
            )
        },
        SupervisorRequest::CommitControllerResume { transaction_id } => commit_outcome(
            state,
            conn,
            transaction_id,
        ),
        SupervisorRequest::ControllerResumeStatus { transaction_id } => unchanged(
            state,
            conn,
            resume_status(lookup(state.committed_resumes, transaction_id)),
        ),
        SupervisorRequest::ResetAttachedDevices => match controller_failure(state, conn) {
            Some(error) => unchanged(state, conn, failed(error)),
            None => unchanged(
                StateModel { attached_devices: Set::empty(), ..state },
                conn,
                done(),
            ),
        },
        SupervisorRequest::ResetAttachedDevicesForController {
            controller_id,
            controller_connection_id,
        } => if state.is_active(
            ControllerIdentity { id: controller_id, connection_id: controller_connection_id },
        ) {
            unchanged(StateModel { attached_devices: Set::empty(), ..state }, conn, done())
        } else {
            unchanged(state, conn, refused("session supervisor reset controller is not active"@))
        },
        SupervisorRequest::AttachDevice { device_id } => match controller_failure(state, conn) {
            Some(error) => unchanged(state, conn, failed(error)),
            None => if state.exited {
                unchanged(state, conn, refused("session supervisor PTY has exited"@))
            } else {
                unchanged(
                    StateModel {
                        attached_devices: state.attached_devices.insert(device_id@),
                        ..state
                    },
                    conn,
                    done(),
                )
            },
        },
        SupervisorRequest::DetachDevice { device_id } => match controller_failure(state, conn) {
            Some(error) => unchanged(state, conn, failed(error)),
            None => unchanged(
                StateModel {
                    attached_devices: state.attached_devices.remove(device_id@),
                    ..state
                },
                conn,
                done(),
            ),
        },
        SupervisorRequest::DeviceAttached { device_id } => match controller_failure(state, conn) {
            Some(error) => unchanged(state, conn, failed(error)),
            None => unchanged(
                state,
                conn,
                plain(
                    ResponseModel::Success(
                        PayloadModel::DeviceAttached {
                            attached: state.attached_devices.contains(device_id@),
                        },
                    ),
                ),
            ),
        },
        SupervisorRequest::Input { data_base64 } => match controller_failure(state, conn) {
            Some(error) => unchanged(state, conn, failed(error)),
            None => if state.exited {
                unchanged(state, conn, refused("session supervisor PTY has exited"@))
            } else {
                match base64_bytes(data_base64@) {
                    Err(reason) => unchanged(state, conn, failed(PtyErrorModel::Backend(reason))),
                    Ok(bytes) => unchanged(
                        state,
                        conn,
                        StepModel::Perform {
                            effect: EffectModel::Write(bytes),
                            pending: PendingReply::Written,
                        },
                    ),
                }
            },
        },
        SupervisorRequest::Resize { size } => match controller_failure(state, conn) {
            Some(error) => unchanged(state, conn, failed(error)),
            None => unchanged(
                state,
                conn,
                StepModel::Perform {
                    effect: EffectModel::Resize(size),
                    pending: PendingReply::Resized(size),
                },
            ),
        },
        SupervisorRequest::Snapshot => match candidate_failure(state, conn) {
            Some(error) => unchanged(state, conn, failed(error)),
            None => unchanged(
                state,
                conn,
                plain(
                    ResponseModel::Success(
                        PayloadModel::Snapshot(state.snapshot_payload(process_id, screen)),
                    ),
                ),
            ),
        },
        SupervisorRequest::TerminalSnapshot { last_terminal_seq } => match controller_failure(
            state,
            conn,
        ) {
            Some(error) => unchanged(state, conn, failed(error)),
            None => {
                let base_seq = state.terminal.current_seq() as u64;
                unchanged(
                    state,
                    conn,
                    StepModel::Reply(
                        ReplyModel {
                            response: ResponseModel::Success(
                                PayloadModel::TerminalFrames {
                                    base_seq,
                                    frames: state.terminal.frames_for(last_terminal_seq, screen),
                                },
                            ),
                            suppress: Some(base_seq),
                            shutdown: false,
                        },
                    ),
                )
            },
        },
        SupervisorRequest::Close => match controller_failure(state, conn) {
            Some(error) => unchanged(state, conn, failed(error)),
            None => unchanged(
                state,
                conn,
                StepModel::Perform {
                    effect: EffectModel::Terminate,
                    pending: PendingReply::Closed,
                },
            ),
        },
        SupervisorRequest::CloseIdempotent { operation_id } => match controller_failure(state, conn) {
            Some(error) => unchanged(state, conn, failed(error)),
            None => if state.confirmed_close == Some(operation_id) {
                unchanged(state, conn, close_status(true))
            } else {
                unchanged(
                    state,
                    conn,
                    StepModel::Perform {
                        effect: EffectModel::TerminateAndWait,
                        pending: PendingReply::ConfirmedDead(operation_id),
                    },
                )
            },
        },
        SupervisorRequest::InstallCleanupCapability { session_id, capability_base64, .. } => {
            if session_id@ != conn.session_id {
                unchanged(state, conn, refused("session id mismatch"@))
            } else {
                match decoded_capability(capability_base64@) {
                    Err(error) => unchanged(state, conn, failed(error)),
                    Ok(capability) => if controller_failure(state, conn) is None {
                        unchanged(
                            StateModel {
                                cleanup_capability: Some(capability),
                                cleanup_capability_replaceable: false,
                                ..state
                            },
                            conn,
                            done(),
                        )
                    } else {
                        unchanged(
                            state,
                            conn,
                            refused("cleanup capability installation is not authorized"@),
                        )
                    },
                }
            }
        },
        SupervisorRequest::CleanupAuthChallenge { session_id, client_nonce_base64 } => {
            challenge_outcome(state, conn, session_id@, client_nonce_base64@, server_nonce)
        },
        SupervisorRequest::CleanupAuthenticate {
            session_id,
            client_nonce_base64,
            server_nonce_base64,
            capability_base64,
        } => authenticate_outcome(
            state,
            conn,
            session_id@,
            client_nonce_base64@,
            server_nonce_base64@,
            capability_base64@,
        ),
        SupervisorRequest::CleanupClose { session_id, operation_id } => cleanup_close_outcome(
            state,
            conn,
            session_id@,
            operation_id,
        ),
        SupervisorRequest::CloseStatus { operation_id } => if !has_close_authority(conn) {
            unchanged(state, conn, refused("session supervisor close status requires authority"@))
        } else {
            unchanged(state, conn, close_status(state.confirmed_close == Some(operation_id)))
        },
        SupervisorRequest::FinalizeClose { operation_id } => if !has_close_authority(conn) {
            unchanged(
                state,
                conn,
                refused("session supervisor close finalization requires authority"@),
            )
        } else if state.confirmed_close != Some(operation_id) {
            unchanged(state, conn, refused("session supervisor close operation is not confirmed"@))
        } else {
            unchanged(state, conn, stopping())
        },
        SupervisorRequest::NaturalExitStatus => unchanged(state, conn, close_status(state.exited)),
        SupervisorRequest::FinalizeNaturalExit => if !state.exited {
            unchanged(state, conn, refused("session supervisor PTY has not exited"@))
        } else {
            unchanged(state, conn, stopping())
        },
        SupervisorRequest::Ping => if conn.cleanup_authenticated {
            unchanged(state, conn, done())
        } else {
            match candidate_failure(state, conn) {
                Some(error) => unchanged(state, conn, failed(error)),
                None => unchanged(state, conn, done()),
            }
        },
    }
}

/// What a request does. A connection that has authenticated for cleanup may make few requests.
pub open spec fn handled(
    state: StateModel,
    conn: ConnectionModel,
    request: SupervisorRequest,
    process_id: Option<u32>,
    screen: Seq<u8>,
    server_nonce: Seq<u8>,
) -> Outcome {
    if conn.cleanup_authenticated && !request.restricted() {
        unchanged(
            state,
            conn,
            refused("restricted cleanup connection cannot enter controller mode"@),
        )
    } else {
        request_outcome(state, conn, request, process_id, screen, server_nonce)
    }
}

/// What completing a request does, given how its effect went.
pub open spec fn completed(
    state: StateModel,
    pending: PendingReply,
    outcome: Result<(), PtyErrorModel>,
) -> (StateModel, ReplyModel) {
    let reply = |payload: PayloadModel, shutdown: bool|
        ReplyModel { response: ResponseModel::Success(payload), suppress: None, shutdown };
    match outcome {
        Err(error) => (
            state,
            ReplyModel {
                response: ResponseModel::Refusal(error.text()),
                suppress: None,
                shutdown: false,
            },
        ),
        Ok(()) => match pending {
            PendingReply::Written => (state, reply(PayloadModel::Empty, false)),
            PendingReply::Resized(size) => {
                let frame = FrameModel::Resize { terminal_seq: state.terminal.next_seq, size };
                let recorded = StateModel { terminal: state.terminal.record(frame), ..state };
                (recorded.broadcast(frame), reply(PayloadModel::Empty, false))
            },
            PendingReply::Closed => (state, reply(PayloadModel::Empty, true)),
            PendingReply::ConfirmedDead(operation_id) => (
                StateModel { confirmed_close: Some(operation_id), ..state },
                reply(PayloadModel::CloseStatus { confirmed_dead: true }, false),
            ),
        },
    }
}

/// The outcome of an effect by its contents.
pub open spec fn effect_view(outcome: PtyResult<()>) -> Result<(), PtyErrorModel> {
    match outcome {
        Ok(()) => Ok(()),
        Err(error) => Err(error@),
    }
}

// ---------------------------------------------------------------------------
// Handling requests

fn reply(response: SupervisorResponse) -> (step: SupervisorStep)
    ensures
        step@ == plain(response@),
{
    SupervisorStep::Reply(
        SupervisorReply { response, suppress_live_through_base_seq: None, shutdown: false },
    )
}

fn refuse(message: &str) -> (step: SupervisorStep)
    ensures
        step@ == refused(message@),
{
    reply(SupervisorResponse::err(message))
}

fn fail(error: PtyError) -> (step: SupervisorStep)
    ensures
        step@ == failed(error@),
{
    reply(SupervisorResponse::failed(&error))
}

fn succeed(payload: SupervisorResponsePayload) -> (step: SupervisorStep)
    ensures
        step@ == plain(ResponseModel::Success(payload@)),
{
    reply(SupervisorResponse::ok(payload))
}

fn stop() -> (step: SupervisorStep)
    ensures
        step@ == stopping(),
{
    SupervisorStep::Reply(
        SupervisorReply {
            response: SupervisorResponse::ok(SupervisorResponsePayload::Empty),
            suppress_live_through_base_seq: None,
            shutdown: true,
        },
    )
}

fn confirms(confirmed: Option<u64>, operation_id: u64) -> (same: bool)
    ensures
        same == (confirmed == Some(operation_id)),
{
    match confirmed {
        Some(id) => id == operation_id,
        None => false,
    }
}

/// Fails unless the connection is the active controller.
pub fn ensure_current_controller(state: &SupervisorState, controller: Option<ControllerIdentity>) -> (res:
    PtyResult<()>)
    ensures
        match controller {
            None => res matches Err(e) && e@ == PtyErrorModel::Backend(
                "session supervisor connection is not attached"@,
            ),
            Some(c) => if state@.is_active(c) {
                res is Ok
            } else {
                res matches Err(e) && e@ == not_active()
            },
        },
{
    match controller {
        None => Err(PtyError::backend_message("session supervisor connection is not attached")),
        Some(c) => if state.is_active_controller(c) {
            Ok(())
        } else {
            Err(
                PtyError::backend_message(
                    "session supervisor connection is not the active controller",
                ),
            )
        },
    }
}

/// Fails unless the connection is the active controller, or a candidate that may still take over.
pub fn ensure_current_or_pending_controller(
    state: &SupervisorState,
    controller: Option<ControllerIdentity>,
    pending: Option<ControllerIdentity>,
) -> (res: PtyResult<()>)
    ensures
        match (controller, pending) {
            (Some(c), _) => if state@.is_active(c) {
                res is Ok
            } else {
                res matches Err(e) && e@ == not_active()
            },
            (None, Some(candidate)) => if state@.may_resume(candidate.id) {
                res is Ok
            } else {
                res matches Err(e) && e@ == not_active()
            },
            (None, None) => res matches Err(e) && e@ == PtyErrorModel::Backend(
                "session supervisor connection is not attached"@,
            ),
        },
{
    if controller.is_some() {
        return ensure_current_controller(state, controller);
    }
    match pending {
        None => Err(PtyError::backend_message("session supervisor connection is not attached")),
        Some(candidate) => if state.may_resume(candidate.id) {
            Ok(())
        } else {
            Err(
                PtyError::backend_message(
                    "session supervisor connection is not the active controller",
                ),
            )
        },
    }
}

/// Whether the connection is the active controller.
pub fn is_current_controller(state: &SupervisorState, controller: Option<ControllerIdentity>) -> (current:
    bool)
    ensures
        current == (controller matches Some(c) && state@.is_active(c)),
{
    match controller {
        Some(c) => state.is_active_controller(c),
        None => false,
    }
}

impl SupervisorConnection {
    /// A connection to a session that has just been accepted.
    pub fn new(expected_session_id: &str, lane_id: u64) -> (conn: Self)
        ensures
            conn@ == (ConnectionModel {
                session_id: expected_session_id@,
                lane_id,
                controller: None,
                pending_resume: None,
                committed_transaction: None,
                pending_nonces: None,
                cleanup_authenticated: false,
            }),
    {
        SupervisorConnection {
            expected_session_id: expected_session_id.to_owned(),
            lane_id,
            controller_identity: None,
            pending_resume_identity: None,
            committed_resume_transaction_id: None,
            pending_cleanup_authentication: None,
            cleanup_authenticated: false,
        }
    }

    /// The controller that the connection is attached as.
    pub fn controller_identity(&self) -> (controller: Option<ControllerIdentity>)
        ensures
            controller == self@.controller,
    {
        self.controller_identity
    }

    /// The lane that carries the live frames of the connection.
    pub fn lane_id(&self) -> (lane_id: u64)
        ensures
            lane_id == self@.lane_id,
    {
        self.lane_id
    }

    /// Whether the connection has authenticated for cleanup.
    pub fn cleanup_authenticated(&self) -> (authenticated: bool)
        ensures
            authenticated == self@.cleanup_authenticated,
    {
        self.cleanup_authenticated
    }

    /// Whether a request is a challenge that is going to be met.
    pub fn meets_challenge(&self, state: &SupervisorState, request: &SupervisorRequest) -> (meets: bool)
        ensures
            meets == meets_challenge(state@, self@, *request),
    {
        if self.cleanup_authenticated && !request.allowed_in_restricted_mode() {
            return false;
        }
        match request {
            SupervisorRequest::CleanupAuthChallenge { session_id, client_nonce_base64 } => {
                self.controller_identity.is_none() && str_equal(
                    session_id.as_str(),
                    self.expected_session_id.as_str(),
                ) && decode_cleanup_nonce(client_nonce_base64.as_str()).is_ok()
                    && state.cleanup_capability().is_some()
            },
            _ => false,
        }
    }

    /// Handles a request. Only a challenge that passes every check draws a random nonce.
    pub fn handle_request(
        &mut self,
        state: &mut SupervisorState,
        request: &SupervisorRequest,
        context: RequestContext,
    ) -> (step: SupervisorStep)
        requires
            old(state).wf(),
        ensures
            final(state).wf(),
            meets_challenge(old(state)@, old(self)@, *request) ==> exists|
                drawn: Result<Vec<u8>, String>,
            | #[trigger]
                may_be_drawn(32, drawn) && match drawn {
                    Ok(server_nonce) => server_nonce@.len() == 32 && handled(
                        old(state)@,
                        old(self)@,
                        *request,
                        context.process_id,
                        context.screen@,
                        server_nonce@,
                    ) == (Outcome { state: final(state)@, conn: final(self)@, step: step@ }),
                    Err(reason) => final(state)@ == old(state)@ && final(self)@ == old(self)@ && step@
                        == failed(PtyErrorModel::Backend(reason@)),
                },
            !meets_challenge(old(state)@, old(self)@, *request) ==> forall|server_nonce: Seq<u8>|
                (#[trigger] handled(
                    old(state)@,
                    old(self)@,
                    *request,
                    context.process_id,
                    context.screen@,
                    server_nonce,
                )) == (Outcome { state: final(state)@, conn: final(self)@, step: step@ }),
    {
        if self.meets_challenge(state, request) {
            match random_cleanup_nonce() {
                Ok(server_nonce) => self.handle_request_with_nonce(
                    state,
                    request,
                    context,
                    server_nonce,
                ),
                Err(error) => fail(error),
            }
        } else {
            let step = self.handle_request_with_nonce(state, request, context, [0u8; 32]);
            proof {
                assert forall|server_nonce: Seq<u8>|
                    (#[trigger] handled(
                        old(state)@,
                        old(self)@,
                        *request,
                        context.process_id,
                        context.screen@,
                        server_nonce,
                    )) == (Outcome { state: state@, conn: self@, step: step@ }) by {
                    assert(handled(
                        old(state)@,
                        old(self)@,
                        *request,
                        context.process_id,
                        context.screen@,
                        server_nonce,
                    ) == handled(
                        old(state)@,
                        old(self)@,
                        *request,
                        context.process_id,
                        context.screen@,
                        [0u8; 32]@,
                    ));
                }
            }
            step
        }
    }

    /// Handles a request with a given server nonce.
    pub fn handle_request_with_nonce(
        &mut self,
        state: &mut SupervisorState,
        request: &SupervisorRequest,
        context: RequestContext,
        server_nonce: [u8; 32],
    ) -> (step: SupervisorStep)
        requires
            old(state).wf(),
        ensures
            final(state).wf(),
            handled(
                old(state)@,
                old(self)@,
                *request,
                context.process_id,
                context.screen@,
                server_nonce@,
            ) == (Outcome { state: final(state)@, conn: final(self)@, step: step@ }),
    {
        if self.cleanup_authenticated && !request.allowed_in_restricted_mode() {
            return refuse("restricted cleanup connection cannot enter controller mode");
        }
        proof {
            state.lemma_wf();
        }
        match request {
            SupervisorRequest::Attach { session_id } => self.handle_attach(
                state,
                session_id.as_str(),
                context,
            ),
            SupervisorRequest::AttachSync { session_id, last_terminal_seq, resume_controller_id } => {
                self.handle_attach_sync(
                    state,
                    session_id.as_str(),
                    *last_terminal_seq,
                    *resume_controller_id,
                    context,
                )
            },
            SupervisorRequest::CommitControllerResume { transaction_id } => self.handle_commit(
                state,
                *transaction_id,
            ),
            SupervisorRequest::ControllerResumeStatus { transaction_id } => Self::resume_status_step(
                state.committed_controller_resume(*transaction_id),
            ),
            SupervisorRequest::ResetAttachedDevices => {
                match ensure_current_controller(state, self.controller_identity) {
                    Err(error) => fail(error),
                    Ok(()) => {
                        state.reset_attached_devices();
                        succeed(SupervisorResponsePayload::Empty)
                    },
                }
            },
            SupervisorRequest::ResetAttachedDevicesForController {
                controller_id,
                controller_connection_id,
            } => {
                let controller = ControllerIdentity {
                    id: *controller_id,
                    connection_id: *controller_connection_id,
                };
                if !state.is_active_controller(controller) {
                    refuse("session supervisor reset controller is not active")
                } else {
                    state.reset_attached_devices();
                    succeed(SupervisorResponsePayload::Empty)
                }
            },
            SupervisorRequest::AttachDevice { device_id } => {
                match ensure_current_controller(state, self.controller_identity) {
                    Err(error) => fail(error),
                    Ok(()) => {
                        if state.exited() {
                            refuse("session supervisor PTY has exited")
                        } else {
                            state.attach_device(device_id.as_str());
                            succeed(SupervisorResponsePayload::Empty)
                        }
                    },
                }
            },
            SupervisorRequest::DetachDevice { device_id } => {
                match ensure_current_controller(state, self.controller_identity) {
                    Err(error) => fail(error),
                    Ok(()) => {
                        state.detach_device(device_id.as_str());
                        succeed(SupervisorResponsePayload::Empty)
                    },
                }
            },
            SupervisorRequest::DeviceAttached { device_id } => {
                match ensure_current_controller(state, self.controller_identity) {
                    Err(error) => fail(error),
                    Ok(()) => succeed(
                        SupervisorResponsePayload::DeviceAttached {
                            attached: state.has_attached_device(device_id.as_str()),
                        },
                    ),
                }
            },
            SupervisorRequest::Input { data_base64 } => {
                match ensure_current_controller(state, self.controller_identity) {
                    Err(error) => fail(error),
                    Ok(()) => {
                        if state.exited() {
                            refuse("session supervisor PTY has exited")
                        } else {
                            match base64_decode(data_base64.as_str()) {
                                Err(reason) => fail(PtyError::Backend(reason)),
                                Ok(bytes) => SupervisorStep::Perform {
                                    effect: PtyEffect::Write(bytes),
                                    pending: PendingReply::Written,
                                },
                            }
                        }
                    },
                }
            },
            SupervisorRequest::Resize { size } => {
                match ensure_current_controller(state, self.controller_identity) {
                    Err(error) => fail(error),
                    Ok(()) => SupervisorStep::Perform {
                        effect: PtyEffect::Resize(*size),
                        pending: PendingReply::Resized(*size),
                    },
                }
            },
            SupervisorRequest::Snapshot => {
                match ensure_current_or_pending_controller(
                    state,
                    self.controller_identity,
                    self.pending_resume_identity,
                ) {
                    Err(error) => fail(error),
                    Ok(()) => succeed(
                        SupervisorResponsePayload::Snapshot(
                            state.snapshot_payload(context.process_id, context.screen),
                        ),
                    ),
                }
            },
            SupervisorRequest::TerminalSnapshot { last_terminal_seq } => {
                match ensure_current_controller(state, self.controller_identity) {
                    Err(error) => fail(error),
                    Ok(()) => {
                        let (base_seq, frames) = state.terminal_snapshot_or_tail_with_base(
                            *last_terminal_seq,
                            context.screen,
                        );
                        SupervisorStep::Reply(
                            SupervisorReply {
                                response: SupervisorResponse::ok(
                                    SupervisorResponsePayload::TerminalFrames { base_seq, frames },
                                ),
                                suppress_live_through_base_seq: Some(base_seq),
                                shutdown: false,
                            },
                        )
                    },
                }
            },
            SupervisorRequest::Close => {
                match ensure_current_controller(state, self.controller_identity) {
                    Err(error) => fail(error),
                    Ok(()) => SupervisorStep::Perform {
                        effect: PtyEffect::Terminate,
                        pending: PendingReply::Closed,
                    },
                }
            },
            SupervisorRequest::CloseIdempotent { operation_id } => {
                match ensure_current_controller(state, self.controller_identity) {
                    Err(error) => fail(error),
                    Ok(()) => {
                        if confirms(state.confirmed_close_operation_id(), *operation_id) {
                            succeed(
                                SupervisorResponsePayload::CloseStatus { confirmed_dead: true },
                            )
                        } else {
                            SupervisorStep::Perform {
                                effect: PtyEffect::TerminateAndWait,
                                pending: PendingReply::ConfirmedDead(*operation_id),
                            }
                        }
                    },
                }
            },
            SupervisorRequest::InstallCleanupCapability {
                session_id,
                capability_base64,
                migration_operation_id: _,
            } => self.handle_install(state, session_id.as_str(), capability_base64.as_str()),
            SupervisorRequest::CleanupAuthChallenge { session_id, client_nonce_base64 } => {
                self.handle_challenge(
                    state,
                    session_id.as_str(),
                    client_nonce_base64.as_str(),
                    server_nonce,
                )
            },
            SupervisorRequest::CleanupAuthenticate {
                session_id,
                client_nonce_base64,
                server_nonce_base64,
                capability_base64,
            } => self.handle_authenticate(
                state,
                session_id.as_str(),
                client_nonce_base64.as_str(),
                server_nonce_base64.as_str(),
                capability_base64.as_str(),
            ),
            SupervisorRequest::CleanupClose { session_id, operation_id } => {
                self.handle_cleanup_close(state, session_id.as_str(), *operation_id)
            },
            SupervisorRequest::CloseStatus { operation_id } => {
                if self.controller_identity.is_none() && !self.cleanup_authenticated {
                    refuse("session supervisor close status requires authority")
                } else {
                    succeed(
                        SupervisorResponsePayload::CloseStatus {
                            confirmed_dead: confirms(
                                state.confirmed_close_operation_id(),
                                *operation_id,
                            ),
                        },
                    )
                }
            },
            SupervisorRequest::FinalizeClose { operation_id } => {
                if self.controller_identity.is_none() && !self.cleanup_authenticated {
                    refuse("session supervisor close finalization requires authority")
                } else if !confirms(state.confirmed_close_operation_id(), *operation_id) {
                    refuse("session supervisor close operation is not confirmed")
                } else {
                    stop()
                }
            },
            SupervisorRequest::NaturalExitStatus => succeed(
                SupervisorResponsePayload::CloseStatus { confirmed_dead: state.exited() },
            ),
            SupervisorRequest::FinalizeNaturalExit => {
                if !state.exited() {
                    refuse("session supervisor PTY has not exited")
                } else {
                    stop()
                }
            },
            SupervisorRequest::Ping => {
                if self.cleanup_authenticated {
                    return succeed(SupervisorResponsePayload::Empty);
                }
                match ensure_current_or_pending_controller(
                    state,
                    self.controller_identity,
                    self.pending_resume_identity,
                ) {
                    Err(error) => fail(error),
                    Ok(()) => succeed(SupervisorResponsePayload::Empty),
                }
            },
        }
    }

    fn handle_attach(
        &mut self,
        state: &mut SupervisorState,
        session_id: &str,
        context: RequestContext,
    ) -> (step: SupervisorStep)
        requires
            old(state).wf(),
        ensures
            final(state).wf(),
            (Outcome { state: final(state)@, conn: final(self)@, step: step@ }) == (if old(
                self,
            )@.controller is Some {
                unchanged(
                    old(state)@,
                    old(self)@,
                    refused("session supervisor control socket is already attached"@),
                )
            } else if session_id@ != old(self)@.session_id {
                unchanged(old(state)@, old(self)@, refused("session id mismatch"@))
            } else {
                attach_outcome(
                    old(state)@,
                    old(self)@,
                    context.process_id,
                    context.screen@,
                    None,
                    false,
                )
            }),
    {
        if self.controller_identity.is_some() {
            return refuse("session supervisor control socket is already attached");
        }
        if !str_equal(session_id, self.expected_session_id.as_str()) {
            return refuse("session id mismatch");
        }
        let (identity, sync) = state.attach_sync(
            self.lane_id,
            context.process_id,
            None,
            context.screen,
        );
        self.controller_identity = Some(identity);
        SupervisorStep::Reply(
            SupervisorReply {
                suppress_live_through_base_seq: Some(sync.base_seq),
                response: SupervisorResponse::ok(SupervisorResponsePayload::Snapshot(sync.snapshot)),
                shutdown: false,
            },
        )
    }

    fn handle_attach_sync(
        &mut self,
        state: &mut SupervisorState,
        session_id: &str,
        last_terminal_seq: Option<u64>,
        resume_controller_id: Option<u64>,
        context: RequestContext,
    ) -> (step: SupervisorStep)
        requires
            old(state).wf(),
        ensures
            final(state).wf(),
            (Outcome { state: final(state)@, conn: final(self)@, step: step@ })
                == attach_sync_outcome(
                old(state)@,
                old(self)@,
                session_id@,
                last_terminal_seq,
                resume_controller_id,
                context.process_id,
                context.screen@,
            ),
    {
        if self.controller_identity.is_some() {
            return refuse("session supervisor control socket is already attached");
        }
        if !str_equal(session_id, self.expected_session_id.as_str()) {
            return refuse("session id mismatch");
        }
        if state.exited() {
            return fail(PtyError::backend_message("session supervisor PTY has exited"));
        }
        let sync = match resume_controller_id {
            Some(controller_id) => {
                match state.resume_attach_sync(
                    controller_id,
                    context.process_id,
                    last_terminal_seq,
                    context.screen,
                ) {
                    Ok((candidate, sync)) => {
                        self.pending_resume_identity = Some(candidate);
                        sync
                    },
                    Err(error) => {
                        return fail(error);
                    },
                }
            },
            None => {
                let (identity, sync) = state.attach_sync(
                    self.lane_id,
                    context.process_id,
                    last_terminal_seq,
                    context.screen,
                );
                self.controller_identity = Some(identity);
                sync
            },
        };
        SupervisorStep::Reply(
            SupervisorReply {
                suppress_live_through_base_seq: Some(sync.base_seq),
                response: SupervisorResponse::ok(SupervisorResponsePayload::AttachSync(sync)),
                shutdown: false,
            },
        )
    }

    fn resume_status_step(committed: Option<ControllerIdentity>) -> (step: SupervisorStep)
        ensures
            step@ == resume_status(committed),
    {
        let (controller_id, controller_connection_id): (Option<u64>, Option<u64>) = match committed {
            Some(controller) => (Some(controller.id), Some(controller.connection_id)),
            None => (None, None),
        };
        succeed(
            SupervisorResponsePayload::ControllerResumeStatus {
                controller_id,
                controller_connection_id,
            },
        )
    }

    fn handle_commit(&mut self, state: &mut SupervisorState, transaction_id: u64) -> (step:
        SupervisorStep)
        requires
            old(state).wf(),
        ensures
            final(state).wf(),
            (Outcome { state: final(state)@, conn: final(self)@, step: step@ }) == commit_outcome(
                old(state)@,
                old(self)@,
                transaction_id,
            ),
    {
        match self.pending_resume_identity {
            None => refuse("session supervisor has no pending controller resume"),
            Some(candidate) => {
                match state.commit_controller_resume(transaction_id, candidate, self.lane_id) {
                    Ok(committed) => {
                        self.controller_identity = Some(committed);
                        self.pending_resume_identity = None;
                        self.committed_resume_transaction_id = Some(transaction_id);
                        Self::resume_status_step(Some(committed))
                    },
                    Err(error) => fail(error),
                }
            },
        }
    }

    fn handle_install(&mut self, state: &mut SupervisorState, session_id: &str, capability_base64: &str) -> (step:
        SupervisorStep)
        requires
            old(state).wf(),
        ensures
            final(state).wf(),
            final(self)@ == old(self)@,
            (final(state)@, step@) == (if session_id@ != old(self)@.session_id {
                (old(state)@, refused("session id mismatch"@))
            } else {
                match decoded_capability(capability_base64@) {
                    Err(error) => (old(state)@, failed(error)),
                    Ok(capability) => if controller_failure(old(state)@, old(self)@) is None {
                        (
                            StateModel {
                                cleanup_capability: Some(capability),
                                cleanup_capability_replaceable: false,
                                ..old(state)@
                            },
                            done(),
                        )
                    } else {
                        (
                            old(state)@,
                            refused("cleanup capability installation is not authorized"@),
                        )
                    },
                }
            }),
    {
        if !str_equal(session_id, self.expected_session_id.as_str()) {
            return refuse("session id mismatch");
        }
        match decode_cleanup_capability(capability_base64) {
            Err(error) => fail(error),
            Ok(capability) => {
                if is_current_controller(state, self.controller_identity) {
                    state.install_cleanup_capability(capability);
                    succeed(SupervisorResponsePayload::Empty)
                } else {
                    refuse("cleanup capability installation is not authorized")
                }
            },
        }
    }

    fn handle_challenge(
        &mut self,
        state: &mut SupervisorState,
        session_id: &str,
        client_nonce_base64: &str,
        server_nonce: [u8; 32],
    ) -> (step: SupervisorStep)
        requires
            old(state).wf(),
        ensures
            final(state).wf(),
            (Outcome { state: final(state)@, conn: final(self)@, step: step@ })
                == challenge_outcome(
                old(state)@,
                old(self)@,
                session_id@,
                client_nonce_base64@,
                server_nonce@,
            ),
    {
        if self.controller_identity.is_some() {
            return refuse("cleanup authentication cannot use a controller connection");
        }
        if !str_equal(session_id, self.expected_session_id.as_str()) {
            return refuse("session id mismatch");
        }
        match decode_cleanup_nonce(client_nonce_base64) {
            Err(error) => fail(error),
            Ok(client_nonce) => match state.cleanup_capability() {
                None => refuse("cleanup capability is not installed"),
                Some(capability) => {
                    let digest = cleanup_auth_proof(
                        &capability,
                        self.expected_session_id.as_str(),
                        &client_nonce,
                        &server_nonce,
                    );
                    self.pending_cleanup_authentication = Some(
                        PendingCleanupAuthentication { client_nonce, server_nonce },
                    );
                    succeed(
                        SupervisorResponsePayload::CleanupAuthChallenge {
                            server_nonce_base64: base64_encode(server_nonce.as_slice()),
                            server_proof_base64: base64_encode(digest.as_slice()),
                        },
                    )
                },
            },
        }
    }

    fn handle_authenticate(
        &mut self,
        state: &mut SupervisorState,
        session_id: &str,
        client_nonce_base64: &str,
        server_nonce_base64: &str,
        capability_base64: &str,
    ) -> (step: SupervisorStep)
        requires
            old(state).wf(),
        ensures
            final(state).wf(),
            (Outcome { state: final(state)@, conn: final(self)@, step: step@ })
                == authenticate_outcome(
                old(state)@,
                old(self)@,
                session_id@,
                client_nonce_base64@,
                server_nonce_base64@,
                capability_base64@,
            ),
    {
        let pending = self.pending_cleanup_authentication;
        self.pending_cleanup_authentication = None;
        if self.controller_identity.is_some() {
            return refuse("cleanup authentication cannot use a controller connection");
        }
        if !str_equal(session_id, self.expected_session_id.as_str()) {
            return refuse("session id mismatch");
        }
        let supplied = decode_cleanup_capability(capability_base64);
        let client_nonce = decode_cleanup_nonce(client_nonce_base64);
        let server_nonce = decode_cleanup_nonce(server_nonce_base64);
        let expected = state.cleanup_capability();
        let authenticated = match (pending, supplied, client_nonce, server_nonce, expected) {
            (Some(pending), Ok(supplied), Ok(client), Ok(server), Some(expected)) => {
                constant_time_eq(supplied.as_slice(), expected.as_slice()) && constant_time_eq(
                    client.as_slice(),
                    pending.client_nonce.as_slice(),
                ) && constant_time_eq(server.as_slice(), pending.server_nonce.as_slice())
            },
            _ => false,
        };
        if authenticated {
            state.settle_cleanup_capability();
            self.cleanup_authenticated = true;
            succeed(SupervisorResponsePayload::Empty)
        } else {
            refuse("cleanup authentication failed")
        }
    }

    fn handle_cleanup_close(
        &mut self,
        state: &mut SupervisorState,
        session_id: &str,
        operation_id: u64,
    ) -> (step: SupervisorStep)
        requires
            old(state).wf(),
        ensures
            final(state).wf(),
            (Outcome { state: final(state)@, conn: final(self)@, step: step@ })
                == cleanup_close_outcome(old(state)@, old(self)@, session_id@, operation_id),
    {
        if !self.cleanup_authenticated {
            return refuse("restricted cleanup close requires authentication");
        }
        if !str_equal(session_id, self.expected_session_id.as_str()) {
            return refuse("session id mismatch");
        }
        match state.confirmed_close_operation_id() {
            Some(confirmed) => {
                if confirmed != operation_id {
                    refuse("a different session supervisor close operation is confirmed")
                } else {
                    succeed(SupervisorResponsePayload::CloseStatus { confirmed_dead: true })
                }
            },
            None => {
                state.settle_cleanup_capability();
                SupervisorStep::Perform {
                    effect: PtyEffect::TerminateAndWait,
                    pending: PendingReply::ConfirmedDead(operation_id),
                }
            },
        }
    }

    /// Completes a request whose effect has been performed. The screen follows a change of the size.
    pub fn complete_request<S: ScreenEmulator>(
        state: &mut SupervisorState,
        screen: S,
        pending: PendingReply,
        outcome: PtyResult<()>,
    ) -> (res: (S, SupervisorReply))
        requires
            old(state).wf(),
            pending is Resized ==> old(state)@.terminal.next_seq < u64::MAX,
        ensures
            final(state).wf(),
            (final(state)@, (res.1)@) == completed(old(state)@, pending, effect_view(outcome)),
            match pending {
                PendingReply::Resized(size) if outcome is Ok => call_ensures(
                    S::resize,
                    (screen, size),
                    res.0,
                ),
                _ => res.0 == screen,
            },
    {
        let mut after: S = screen;
        let payload = match outcome {
            Err(error) => {
                return (
                    after,
                    SupervisorReply {
                        response: SupervisorResponse::failed(&error),
                        suppress_live_through_base_seq: None,
                        shutdown: false,
                    },
                );
            },
            Ok(()) => match pending {
                PendingReply::Written => SupervisorResponsePayload::Empty,
                PendingReply::Resized(size) => {
                    after = after.resize(size);
                    let frame = state.resize(size);
                    state.broadcast_terminal_frame(&frame);
                    SupervisorResponsePayload::Empty
                },
                PendingReply::Closed => SupervisorResponsePayload::Empty,
                PendingReply::ConfirmedDead(operation_id) => {
                    state.confirm_close(operation_id);
                    SupervisorResponsePayload::CloseStatus { confirmed_dead: true }
                },
            },
        };
        let shutdown = match pending {
            PendingReply::Closed => true,
            _ => false,
        };
        (
            after,
            SupervisorReply {
                response: SupervisorResponse::ok(payload),
                suppress_live_through_base_seq: None,
                shutdown,
            },
        )
    }

    /// The connection is gone. A controller that it attached goes with it, unless the connection
    /// itself committed it by a resume transaction that can still be repeated. The lane goes too.
    pub fn finish(&self, state: &mut SupervisorState)
        requires
            old(state).wf(),
        ensures
            final(state).wf(),
            final(state)@ == finished(old(state)@, self@),
    {
        if let Some(identity) = self.controller_identity {
            let committed_here = match self.committed_resume_transaction_id {
                Some(transaction_id) => match state.committed_controller_resume(transaction_id) {
                    Some(committed) => committed.id == identity.id && committed.connection_id
                        == identity.connection_id,
                    None => false,
                },
                None => false,
            };
            if !committed_here {
                state.remove_controller(identity);
            }
        }
        state.close_lane(self.lane_id);
    }

    /// What is next on the outgoing side: a live frame, the end of the connection, or nothing yet.
    ///
    /// A full lane ends the connection with a failure, so that its daemon synchronises anew. A frame
    /// for a controller that is no longer the active one ends it quietly.
    pub fn poll_outbound(&self, state: &mut SupervisorState) -> (outbound: Outbound)
        requires
            old(state).wf(),
        ensures
            final(state).wf(),
            ({
                let lanes = old(state)@.lanes;
                let lane = lanes[self@.lane_id];
                if !lanes.contains_key(self@.lane_id) {
                    outbound is Idle && final(state)@ == old(state)@
                } else if lane.overflowed {
                    &&& outbound matches Outbound::Failed(e) && e@ == PtyErrorModel::Backend(
                        "session supervisor controller output queue overflow; reconnect to resynchronize"@,
                    )
                    &&& final(state)@ == old(state)@
                } else if lane.frames.len() == 0 {
                    outbound is Idle && final(state)@ == old(state)@
                } else {
                    &&& final(state)@ == (StateModel {
                        lanes: lanes.insert(
                            self@.lane_id,
                            LaneModel { frames: lane.frames.drop_first(), ..lane },
                        ),
                        ..old(state)@
                    })
                    &&& if controller_failure(old(state)@, self@) is None {
                        outbound matches Outbound::Frame(SupervisorFrame::TerminalFrame { frame })
                            && frame@ == lane.frames[0]
                    } else {
                        outbound is Finished
                    }
                }
            }),
    {
        if state.lane_overflowed(self.lane_id) {
            return Outbound::Failed(
                PtyError::backend_message(
                    "session supervisor controller output queue overflow; reconnect to resynchronize",
                ),
            );
        }
        match state.lane_try_recv(self.lane_id) {
            None => Outbound::Idle,
            Some(frame) => {
                if is_current_controller(state, self.controller_identity) {
                    Outbound::Frame(SupervisorFrame::TerminalFrame { frame })
                } else {
                    Outbound::Finished
                }
            },
        }
    }

    /// The live frames to send after an answer that covers everything up to `base_seq`. A connection
    /// that is not the active controller sends none of them.
    pub fn frames_after_sync(&self, state: &mut SupervisorState, base_seq: u64) -> (frames: Vec<
        PtyTerminalFrame,
    >)
        requires
            old(state).wf(),
        ensures
            final(state).wf(),
            ({
                let lanes = old(state)@.lanes;
                let present = lanes.contains_key(self@.lane_id);
                &&& crate::pty::frame_models(frames@) == (if present && controller_failure(
                    old(state)@,
                    self@,
                ) is None {
                    crate::pty::supervisor::output_queue::not_covered(
                        lanes[self@.lane_id].frames,
                        base_seq,
                    )
                } else {
                    Seq::empty()
                })
                &&& final(state)@ == (StateModel {
                    lanes: if present {
                        lanes.insert(
                            self@.lane_id,
                            LaneModel { frames: Seq::empty(), ..lanes[self@.lane_id] },
                        )
                    } else {
                        lanes
                    },
                    ..old(state)@
                })
            }),
    {
        let frames = state.drain_lane_after_sync(self.lane_id, base_seq);
        if is_current_controller(state, self.controller_identity) {
            frames
        } else {
            let none: Vec<PtyTerminalFrame> = Vec::new();
            assert(crate::pty::frame_models(none@) =~= Seq::<FrameModel>::empty());
            none
        }
    }
}

/// What is next on the outgoing side of a connection.
#[derive(Debug)]
pub enum Outbound {
    Idle,
    Frame(SupervisorFrame),
    Finished,
    Failed(PtyError),
}

/// The shared state once a connection is gone.
pub open spec fn finished(state: StateModel, conn: ConnectionModel) -> StateModel {
    let after = match conn.controller {
        None => state,
        Some(controller) => {
            let committed_here = conn.committed_transaction matches Some(transaction) && lookup(
                state.committed_resumes,
                transaction,
            ) == Some(controller);
            if committed_here {
                state
            } else {
                state.removed(controller)
            }
        },
    };
    StateModel { lanes: after.lanes.remove(conn.lane_id), ..after }
}

// ---------------------------------------------------------------------------
// Laws

/// The screen matters to those requests alone whose response shows it.
pub proof fn law_other_requests_ignore_the_screen(
    state: StateModel,
    conn: ConnectionModel,
    request: SupervisorRequest,
    process_id: Option<u32>,
    screen: Seq<u8>,
    other_screen: Seq<u8>,
    server_nonce: Seq<u8>,
)
    requires
        !request.shows_the_screen(),
    ensures
        handled(state, conn, request, process_id, screen, server_nonce) == handled(
            state,
            conn,
            request,
            process_id,
            other_screen,
            server_nonce,
        ),
{
}

/// A connection is either a controller or a cleanup connection, never both: one that has shown the
/// capability holds no control, whatever it asks for afterwards.
pub proof fn law_cleanup_connection_never_controls(
    state: StateModel,
    conn: ConnectionModel,
    request: SupervisorRequest,
    process_id: Option<u32>,
    screen: Seq<u8>,
    server_nonce: Seq<u8>,
)
    requires
        conn.cleanup_authenticated ==> conn.controller is None,
    ensures
        ({
            let after = handled(state, conn, request, process_id, screen, server_nonce).conn;
            after.cleanup_authenticated ==> after.controller is None
        }),
{
}

/// The input that the active controller sends reaches the process as it was given: the session is
/// written exactly the bytes that the request carries, as long as its process runs.
pub proof fn law_input_reaches_the_process(
    state: StateModel,
    conn: ConnectionModel,
    request: SupervisorRequest,
    bytes: Seq<u8>,
    process_id: Option<u32>,
    screen: Seq<u8>,
    server_nonce: Seq<u8>,
)
    requires
        !conn.cleanup_authenticated,
        controller_failure(state, conn) is None,
        !state.exited,
        request matches SupervisorRequest::Input { data_base64 } && base64_bytes(data_base64@) == Ok::<
            Seq<u8>,
            Seq<char>,
        >(bytes),
    ensures
        handled(state, conn, request, process_id, screen, server_nonce) == unchanged(
            state,
            conn,
            StepModel::Perform {
                effect: EffectModel::Write(bytes),
                pending: PendingReply::Written,
            },
        ),
{
}

/// A connection that has authenticated for cleanup never becomes a controller: no request makes it
/// one, gives it a candidate, or lets it write, resize or install a capability.
pub proof fn law_cleanup_connection_stays_restricted(
    state: StateModel,
    conn: ConnectionModel,
    request: SupervisorRequest,
    process_id: Option<u32>,
    screen: Seq<u8>,
    server_nonce: Seq<u8>,
)
    requires
        conn.cleanup_authenticated,
        conn.controller is None,
    ensures
        ({
            let out = handled(state, conn, request, process_id, screen, server_nonce);
            &&& out.conn.controller is None
            &&& out.conn.cleanup_authenticated
            &&& out.conn.pending_resume == conn.pending_resume
            &&& out.state.controllers == state.controllers
            &&& out.state.active_controller_id == state.active_controller_id
            &&& out.state.attached_devices == state.attached_devices
            &&& out.state.cleanup_capability == state.cleanup_capability
            &&& out.state.terminal == state.terminal
            &&& (out.step matches StepModel::Perform { effect, .. } ==> effect
                == EffectModel::TerminateAndWait && request is CleanupClose)
        }),
{
}

/// A connection that is neither attached nor authenticated cannot end the process, whatever it asks.
pub proof fn law_naked_connection_cannot_terminate(
    state: StateModel,
    conn: ConnectionModel,
    request: SupervisorRequest,
    process_id: Option<u32>,
    screen: Seq<u8>,
    server_nonce: Seq<u8>,
)
    requires
        conn.controller is None,
        !conn.cleanup_authenticated,
    ensures
        ({
            let out = handled(state, conn, request, process_id, screen, server_nonce);
            &&& !(out.step is Perform)
            &&& out.state.confirmed_close == state.confirmed_close
            &&& out.state.cleanup_capability == state.cleanup_capability
            &&& (out.step matches StepModel::Reply(reply) && reply.shutdown ==> state.exited
                && request is FinalizeNaturalExit)
        }),
{
}

/// Authentication succeeds only with the capability of the session and with the nonces of the open
/// challenge; otherwise nothing of the session changes and the challenge is spent.
pub proof fn law_wrong_secret_does_not_authenticate(
    state: StateModel,
    conn: ConnectionModel,
    session_id: Seq<char>,
    client_nonce_base64: Seq<char>,
    server_nonce_base64: Seq<char>,
    capability_base64: Seq<char>,
)
    requires
        !conn.cleanup_authenticated,
        conn.pending_nonces is None || state.cleanup_capability is None || decoded_capability(
            capability_base64,
        ) != Ok::<Seq<u8>, PtyErrorModel>(state.cleanup_capability->0) || session_id
            != conn.session_id || decoded_nonce(client_nonce_base64) != Ok::<
            Seq<u8>,
            PtyErrorModel,
        >((conn.pending_nonces->0).0) || decoded_nonce(server_nonce_base64) != Ok::<
            Seq<u8>,
            PtyErrorModel,
        >((conn.pending_nonces->0).1),
    ensures
        ({
            let out = authenticate_outcome(
                state,
                conn,
                session_id,
                client_nonce_base64,
                server_nonce_base64,
                capability_base64,
            );
            &&& !out.conn.cleanup_authenticated
            &&& out.conn.pending_nonces is None
            &&& out.state == state
            &&& out.step matches StepModel::Reply(reply) && reply.response is Refusal
        }),
{
}

/// The owner of the capability who answers the challenge with its nonces is authenticated.
pub proof fn law_right_secret_authenticates(
    state: StateModel,
    conn: ConnectionModel,
    client_nonce_base64: Seq<char>,
    server_nonce_base64: Seq<char>,
    capability_base64: Seq<char>,
)
    requires
        conn.controller is None,
        conn.pending_nonces is Some,
        state.cleanup_capability is Some,
        decoded_capability(capability_base64) == Ok::<Seq<u8>, PtyErrorModel>(
            state.cleanup_capability->0,
        ),
        decoded_nonce(client_nonce_base64) == Ok::<Seq<u8>, PtyErrorModel>((conn.pending_nonces->0).0),
        decoded_nonce(server_nonce_base64) == Ok::<Seq<u8>, PtyErrorModel>((conn.pending_nonces->0).1),
    ensures
        ({
            let out = authenticate_outcome(
                state,
                conn,
                conn.session_id,
                client_nonce_base64,
                server_nonce_base64,
                capability_base64,
            );
            out.conn.cleanup_authenticated && out.step == done()
        }),
{
}

/// A close that has been confirmed is answered again without ending the process again, to the
/// controller and to an authenticated cleanup connection alike.
pub proof fn law_confirmed_close_is_not_repeated(
    state: StateModel,
    conn: ConnectionModel,
    operation_id: u64,
    pending_state: StateModel,
)
    requires
        state == completed(
            pending_state,
            PendingReply::ConfirmedDead(operation_id),
            Ok::<(), PtyErrorModel>(()),
        ).0,
    ensures
        controller_failure(state, conn) is None && !conn.cleanup_authenticated ==> handled(
            state,
            conn,
            SupervisorRequest::CloseIdempotent { operation_id },
            None,
            Seq::empty(),
            Seq::empty(),
        ) == unchanged(state, conn, close_status(true)),
        conn.cleanup_authenticated ==> cleanup_close_outcome(
            state,
            conn,
            conn.session_id,
            operation_id,
        ) == unchanged(state, conn, close_status(true)),
        has_close_authority(conn) ==> handled(
            state,
            conn,
            SupervisorRequest::CloseStatus { operation_id },
            None,
            Seq::empty(),
            Seq::empty(),
        ) == unchanged(state, conn, close_status(true)),
{
}

/// A commit whose answer was lost can be repeated on a new connection: it gives the same controller
/// again, and that controller is active.
pub proof fn law_repeated_commit_gives_the_same_controller(
    state: StateModel,
    first: ConnectionModel,
    second: ConnectionModel,
    transaction_id: u64,
)
    requires
        first.pending_resume is Some,
        second.pending_resume is Some,
        first.pending_resume->0.id == second.pending_resume->0.id,
        lookup(state.committed_resumes, transaction_id) is None,
        state.may_resume(first.pending_resume->0.id),
    ensures
        ({
            let once = commit_outcome(state, first, transaction_id);
            let gone = finished(once.state, once.conn);
            let twice = commit_outcome(gone, second, transaction_id);
            &&& once.conn.controller == Some(first.pending_resume->0)
            &&& twice.conn.controller == once.conn.controller
            &&& twice.step == once.step
            &&& twice.state.is_active(first.pending_resume->0)
        }),
{
    let candidate = first.pending_resume->0;
    let once = commit_outcome(state, first, transaction_id);
    crate::collections::lemma_with(
        state.committed_resumes,
        transaction_id,
        candidate,
        transaction_id,
    );
    let gone = finished(once.state, once.conn);
    assert(gone.committed_resumes == once.state.committed_resumes);
    crate::collections::lemma_with(
        gone.controllers,
        candidate.id,
        crate::pty::supervisor::state::ControllerHandle {
            connection_id: candidate.connection_id,
            lane_id: second.lane_id,
        },
        candidate.id,
    );
}

/// A control connection attaches at most once.
pub proof fn law_second_attach_is_refused(
    state: StateModel,
    conn: ConnectionModel,
    session_id: String,
    last_terminal_seq: Option<u64>,
    resume_controller_id: Option<u64>,
    process_id: Option<u32>,
    screen: Seq<u8>,
)
    requires
        conn.controller is Some,
        !conn.cleanup_authenticated,
    ensures
        ({
            let out = handled(
                state,
                conn,
                SupervisorRequest::AttachSync {
                    session_id,
                    last_terminal_seq,
                    resume_controller_id,
                },
                process_id,
                screen,
                Seq::empty(),
            );
            out == unchanged(
                state,
                conn,
                refused("session supervisor control socket is already attached"@),
            )
        }),
{
}

/// A capability is installed only by the active controller.
pub proof fn law_only_the_controller_installs_a_capability(
    state: StateModel,
    conn: ConnectionModel,
    request: SupervisorRequest,
    process_id: Option<u32>,
    screen: Seq<u8>,
    server_nonce: Seq<u8>,
)
    requires
        handled(state, conn, request, process_id, screen, server_nonce).state.cleanup_capability
            != state.cleanup_capability,
    ensures
        request is InstallCleanupCapability,
        conn.controller matches Some(controller) && state.is_active(controller),
{
}

} // verus!
