//! The messages of the supervisor protocol.

use crate::pty::{
    frame_models, FrameModel, PtyError, PtyErrorModel, PtyResult, PtySize, PtyTerminalFrame,
};
use vstd::prelude::*;

verus! {

/// A controller and the connection generation that holds it.
#[derive(Clone, Copy, Debug, PartialEq, Eq, Structural)]
pub struct ControllerIdentity {
    pub id: u64,
    pub connection_id: u64,
}

/// A request with the number that its response will carry.
#[derive(Debug)]
pub struct SupervisorRequestEnvelope {
    pub request_id: u64,
    pub request: SupervisorRequest,
}

/// What a daemon asks of a supervisor.
#[derive(Clone, Debug, PartialEq, Eq)]
pub enum SupervisorRequest {
    Attach { session_id: String },
    AttachSync {
        session_id: String,
        last_terminal_seq: Option<u64>,
        resume_controller_id: Option<u64>,
    },
    CommitControllerResume { transaction_id: u64 },
    ControllerResumeStatus { transaction_id: u64 },
    ResetAttachedDevices,
    ResetAttachedDevicesForController { controller_id: u64, controller_connection_id: u64 },
    AttachDevice { device_id: String },
    DetachDevice { device_id: String },
    DeviceAttached { device_id: String },
    Input { data_base64: String },
    Resize { size: PtySize },
    Snapshot,
    TerminalSnapshot { last_terminal_seq: Option<u64> },
    Close,
    CloseIdempotent { operation_id: u64 },
    InstallCleanupCapability {
        session_id: String,
        capability_base64: String,
        migration_operation_id: Option<u64>,
    },
    CleanupAuthChallenge { session_id: String, client_nonce_base64: String },
    CleanupAuthenticate {
        session_id: String,
        client_nonce_base64: String,
        server_nonce_base64: String,
        capability_base64: String,
    },
    CleanupClose { session_id: String, operation_id: u64 },
    CloseStatus { operation_id: u64 },
    FinalizeClose { operation_id: u64 },
    NaturalExitStatus,
    FinalizeNaturalExit,
    Ping,
}

impl SupervisorRequest {
    /// The requests that an authenticated cleanup connection may still make.
    pub open spec fn restricted(&self) -> bool {
        ||| self is CleanupAuthChallenge
        ||| self is CleanupAuthenticate
        ||| self is CleanupClose
        ||| self is CloseStatus
        ||| self is FinalizeClose
        ||| self is Ping
    }

    /// Whether an authenticated cleanup connection may still make the request.
    pub fn allowed_in_restricted_mode(&self) -> (allowed: bool)
        ensures
            allowed == self.restricted(),
    {
        match self {
            SupervisorRequest::CleanupAuthChallenge { .. } => true,
            SupervisorRequest::CleanupAuthenticate { .. } => true,
            SupervisorRequest::CleanupClose { .. } => true,
            SupervisorRequest::CloseStatus { .. } => true,
            SupervisorRequest::FinalizeClose { .. } => true,
            SupervisorRequest::Ping => true,
            _ => false,
        }
    }

    /// The requests whose response shows the screen.
    pub open spec fn shows_the_screen(&self) -> bool {
        ||| self is Attach
        ||| self is AttachSync
        ||| self is Snapshot
        ||| self is TerminalSnapshot
    }

    /// Whether the screen has to be drawn for the response.
    pub fn shows_screen(&self) -> (shows: bool)
        ensures
            shows == self.shows_the_screen(),
    {
        match self {
            SupervisorRequest::Attach { .. } => true,
            SupervisorRequest::AttachSync { .. } => true,
            SupervisorRequest::Snapshot => true,
            SupervisorRequest::TerminalSnapshot { .. } => true,
            _ => false,
        }
    }

    /// The name of the request in logs.
    pub open spec fn label(&self) -> Seq<char> {
        match self {
            SupervisorRequest::Attach { .. } => "attach"@,
            SupervisorRequest::AttachSync { .. } => "attach_sync"@,
            SupervisorRequest::CommitControllerResume { .. } => "commit_controller_resume"@,
            SupervisorRequest::ControllerResumeStatus { .. } => "controller_resume_status"@,
            SupervisorRequest::ResetAttachedDevices => "reset_attached_devices"@,
            SupervisorRequest::ResetAttachedDevicesForController { .. } => {
                "reset_attached_devices_for_controller"@
            },
            SupervisorRequest::AttachDevice { .. } => "attach_device"@,
            SupervisorRequest::DetachDevice { .. } => "detach_device"@,
            SupervisorRequest::DeviceAttached { .. } => "device_attached"@,
            SupervisorRequest::Input { .. } => "input"@,
            SupervisorRequest::Resize { .. } => "resize"@,
            SupervisorRequest::Snapshot => "snapshot"@,
            SupervisorRequest::TerminalSnapshot { .. } => "terminal_snapshot"@,
            SupervisorRequest::Close => "close"@,
            SupervisorRequest::CloseIdempotent { .. } => "close_idempotent"@,
            SupervisorRequest::InstallCleanupCapability { .. } => "install_cleanup_capability"@,
            SupervisorRequest::CleanupAuthChallenge { .. } => "cleanup_auth_challenge"@,
            SupervisorRequest::CleanupAuthenticate { .. } => "cleanup_authenticate"@,
            SupervisorRequest::CleanupClose { .. } => "cleanup_close"@,
            SupervisorRequest::CloseStatus { .. } => "close_status"@,
            SupervisorRequest::FinalizeClose { .. } => "finalize_close"@,
            SupervisorRequest::NaturalExitStatus => "natural_exit_status"@,
            SupervisorRequest::FinalizeNaturalExit => "finalize_natural_exit"@,
            SupervisorRequest::Ping => "ping"@,
        }
    }

    /// The name of the request in logs.
    pub fn kind_label(&self) -> (label: &'static str)
        ensures
            label@ == self.label(),
    {
        match self {
            SupervisorRequest::Attach { .. } => "attach",
            SupervisorRequest::AttachSync { .. } => "attach_sync",
            SupervisorRequest::CommitControllerResume { .. } => "commit_controller_resume",
            SupervisorRequest::ControllerResumeStatus { .. } => "controller_resume_status",
            SupervisorRequest::ResetAttachedDevices => "reset_attached_devices",
            SupervisorRequest::ResetAttachedDevicesForController { .. } => {
                "reset_attached_devices_for_controller"
            },
            SupervisorRequest::AttachDevice { .. } => "attach_device",
            SupervisorRequest::DetachDevice { .. } => "detach_device",
            SupervisorRequest::DeviceAttached { .. } => "device_attached",
            SupervisorRequest::Input { .. } => "input",
            SupervisorRequest::Resize { .. } => "resize",
            SupervisorRequest::Snapshot => "snapshot",
            SupervisorRequest::TerminalSnapshot { .. } => "terminal_snapshot",
            SupervisorRequest::Close => "close",
            SupervisorRequest::CloseIdempotent { .. } => "close_idempotent",
            SupervisorRequest::InstallCleanupCapability { .. } => "install_cleanup_capability",
            SupervisorRequest::CleanupAuthChallenge { .. } => "cleanup_auth_challenge",
            SupervisorRequest::CleanupAuthenticate { .. } => "cleanup_authenticate",
            SupervisorRequest::CleanupClose { .. } => "cleanup_close",
            SupervisorRequest::CloseStatus { .. } => "close_status",
            SupervisorRequest::FinalizeClose { .. } => "finalize_close",
            SupervisorRequest::NaturalExitStatus => "natural_exit_status",
            SupervisorRequest::FinalizeNaturalExit => "finalize_natural_exit",
            SupervisorRequest::Ping => "ping",
        }
    }
}

/// The state of the session host in a response.
#[derive(Debug, Clone, PartialEq, Eq)]
pub struct SupervisorSnapshotPayload {
    pub size: PtySize,
    pub process_id: Option<u32>,
    pub exited: bool,
    pub retained_output: Vec<u8>,
}

/// The content of a [`SupervisorSnapshotPayload`].
pub struct SnapshotModel {
    pub size: PtySize,
    pub process_id: Option<u32>,
    pub exited: bool,
    pub retained_output: Seq<u8>,
}

impl View for SupervisorSnapshotPayload {
    type V = SnapshotModel;

    open spec fn view(&self) -> SnapshotModel {
        SnapshotModel {
            size: self.size,
            process_id: self.process_id,
            exited: self.exited,
            retained_output: self.retained_output@,
        }
    }
}

/// What a new controller is told: who it is, and how to reach the current screen.
#[derive(Debug, Clone, PartialEq, Eq)]
pub struct SupervisorAttachSyncPayload {
    pub controller_id: u64,
    pub controller_connection_id: u64,
    pub snapshot: SupervisorSnapshotPayload,
    pub base_seq: u64,
    pub frames: Vec<PtyTerminalFrame>,
}

/// The content of a [`SupervisorAttachSyncPayload`].
pub struct AttachSyncModel {
    pub controller_id: u64,
    pub controller_connection_id: u64,
    pub snapshot: SnapshotModel,
    pub base_seq: u64,
    pub frames: Seq<FrameModel>,
}

impl View for SupervisorAttachSyncPayload {
    type V = AttachSyncModel;

    open spec fn view(&self) -> AttachSyncModel {
        AttachSyncModel {
            controller_id: self.controller_id,
            controller_connection_id: self.controller_connection_id,
            snapshot: self.snapshot@,
            base_seq: self.base_seq,
            frames: frame_models(self.frames@),
        }
    }
}

/// The payload of a successful response.
#[derive(Debug, Clone, PartialEq, Eq)]
pub enum SupervisorResponsePayload {
    Empty,
    Snapshot(SupervisorSnapshotPayload),
    AttachSync(SupervisorAttachSyncPayload),
    DeviceAttached { attached: bool },
    TerminalFrames { base_seq: u64, frames: Vec<PtyTerminalFrame> },
    ControllerResumeStatus { controller_id: Option<u64>, controller_connection_id: Option<u64> },
    CleanupAuthChallenge { server_nonce_base64: String, server_proof_base64: String },
    CloseStatus { confirmed_dead: bool },
}

/// The content of a [`SupervisorResponsePayload`].
pub enum PayloadModel {
    Empty,
    Snapshot(SnapshotModel),
    AttachSync(AttachSyncModel),
    DeviceAttached { attached: bool },
    TerminalFrames { base_seq: u64, frames: Seq<FrameModel> },
    ControllerResumeStatus { controller_id: Option<u64>, controller_connection_id: Option<u64> },
    CleanupAuthChallenge { server_nonce_base64: Seq<char>, server_proof_base64: Seq<char> },
    CloseStatus { confirmed_dead: bool },
}

impl View for SupervisorResponsePayload {
    type V = PayloadModel;

    open spec fn view(&self) -> PayloadModel {
        match self {
            SupervisorResponsePayload::Empty => PayloadModel::Empty,
            SupervisorResponsePayload::Snapshot(payload) => PayloadModel::Snapshot(payload@),
            SupervisorResponsePayload::AttachSync(payload) => PayloadModel::AttachSync(payload@),
            SupervisorResponsePayload::DeviceAttached { attached } => PayloadModel::DeviceAttached {
                attached: *attached,
            },
            SupervisorResponsePayload::TerminalFrames { base_seq, frames } => {
                PayloadModel::TerminalFrames { base_seq: *base_seq, frames: frame_models(frames@) }
            },
            SupervisorResponsePayload::ControllerResumeStatus {
                controller_id,
                controller_connection_id,
            } => PayloadModel::ControllerResumeStatus {
                controller_id: *controller_id,
                controller_connection_id: *controller_connection_id,
            },
            SupervisorResponsePayload::CleanupAuthChallenge {
                server_nonce_base64,
                server_proof_base64,
            } => PayloadModel::CleanupAuthChallenge {
                server_nonce_base64: server_nonce_base64@,
                server_proof_base64: server_proof_base64@,
            },
            SupervisorResponsePayload::CloseStatus { confirmed_dead } => PayloadModel::CloseStatus {
                confirmed_dead: *confirmed_dead,
            },
        }
    }
}

/// What a supervisor answers.
#[derive(Debug, Clone, PartialEq, Eq)]
pub enum SupervisorResponse {
    Success { payload: SupervisorResponsePayload },
    Refusal { message: String },
}

/// The content of a [`SupervisorResponse`].
pub enum ResponseModel {
    Success(PayloadModel),
    Refusal(Seq<char>),
}

impl View for SupervisorResponse {
    type V = ResponseModel;

    open spec fn view(&self) -> ResponseModel {
        match self {
            SupervisorResponse::Success { payload } => ResponseModel::Success(payload@),
            SupervisorResponse::Refusal { message } => ResponseModel::Refusal(message@),
        }
    }
}

impl SupervisorResponse {
    /// A successful response.
    pub fn ok(payload: SupervisorResponsePayload) -> (response: Self)
        ensures
            response == (SupervisorResponse::Success { payload }),
            response@ == ResponseModel::Success(payload@),
    {
        SupervisorResponse::Success { payload }
    }

    /// A refusal.
    pub fn err(message: &str) -> (response: Self)
        ensures
            response@ == ResponseModel::Refusal(message@),
    {
        SupervisorResponse::Refusal { message: message.to_owned() }
    }

    /// A refusal that shows a failure.
    pub fn failed(error: &PtyError) -> (response: Self)
        ensures
            response@ == ResponseModel::Refusal(error@.text()),
    {
        SupervisorResponse::Refusal { message: error.to_string() }
    }

    /// The payload, or the refusal as a backend failure.
    pub fn into_result(self) -> (res: PtyResult<SupervisorResponsePayload>)
        ensures
            match self {
                SupervisorResponse::Success { payload } => res == Ok::<SupervisorResponsePayload, PtyError>(payload),
                SupervisorResponse::Refusal { message } => res matches Err(e) && e@
                    == PtyErrorModel::Backend(message@),
            },
    {
        match self {
            SupervisorResponse::Success { payload } => Ok(payload),
            SupervisorResponse::Refusal { message } => Err(PtyError::Backend(message)),
        }
    }
}

/// What travels from a supervisor to a daemon.
#[derive(Debug, Clone, PartialEq, Eq)]
pub enum SupervisorFrame {
    Response { request_id: u64, response: SupervisorResponse },
    TerminalFrame { frame: PtyTerminalFrame },
}

/// How a pending request ended.
#[derive(Debug)]
pub enum SupervisorRequestCompletion {
    Response(SupervisorResponse),
    TransportError(PtyError),
}

/// Why a request failed: the supervisor refused it, or it may never have arrived.
#[derive(Debug)]
pub enum SupervisorRequestFailure {
    Response(PtyError),
    Transport(PtyError),
}

impl SupervisorRequestCompletion {
    /// The payload, or why there is none.
    pub fn into_result(self) -> (res: Result<SupervisorResponsePayload, SupervisorRequestFailure>)
        ensures
            match self {
                SupervisorRequestCompletion::Response(SupervisorResponse::Success { payload }) => res
                    == Ok::<SupervisorResponsePayload, SupervisorRequestFailure>(payload),
                SupervisorRequestCompletion::Response(SupervisorResponse::Refusal { message }) => res matches Err(
                    SupervisorRequestFailure::Response(e),
                ) && e@ == PtyErrorModel::Backend(message@),
                SupervisorRequestCompletion::TransportError(error) => res == Err::<
                    SupervisorResponsePayload,
                    SupervisorRequestFailure,
                >(SupervisorRequestFailure::Transport(error)),
            },
    {
        match self {
            SupervisorRequestCompletion::Response(response) => match response.into_result() {
                Ok(payload) => Ok(payload),
                Err(error) => Err(SupervisorRequestFailure::Response(error)),
            },
            SupervisorRequestCompletion::TransportError(error) => Err(
                SupervisorRequestFailure::Transport(error),
            ),
        }
    }
}

impl SupervisorResponsePayload {
    /// The payload must be empty.
    pub fn expect_empty(self) -> (res: PtyResult<()>)
        ensures
            res is Ok <==> self is Empty,
            res matches Err(e) ==> e@ == PtyErrorModel::Backend(
                "session supervisor returned unexpected snapshot payload"@,
            ),
    {
        match self {
            SupervisorResponsePayload::Empty => Ok(()),
            _ => Err(
                PtyError::backend_message("session supervisor returned unexpected snapshot payload"),
            ),
        }
    }

    /// The payload must be a snapshot.
    pub fn into_snapshot(self) -> (res: PtyResult<SupervisorSnapshotPayload>)
        ensures
            res is Ok <==> self is Snapshot,
            res matches Ok(payload) ==> self == SupervisorResponsePayload::Snapshot(payload),
            res matches Err(e) ==> e@ == PtyErrorModel::Backend(
                "session supervisor returned empty payload"@,
            ),
    {
        match self {
            SupervisorResponsePayload::Snapshot(payload) => Ok(payload),
            _ => Err(PtyError::backend_message("session supervisor returned empty payload")),
        }
    }

    /// The payload must be a synchronisation.
    pub fn into_attach_sync(self) -> (res: PtyResult<SupervisorAttachSyncPayload>)
        ensures
            res is Ok <==> self is AttachSync,
            res matches Ok(payload) ==> self == SupervisorResponsePayload::AttachSync(payload),
            res matches Err(e) ==> e@ == PtyErrorModel::Backend(
                "session supervisor returned unexpected attach sync payload"@,
            ),
    {
        match self {
            SupervisorResponsePayload::AttachSync(payload) => Ok(payload),
            _ => Err(
                PtyError::backend_message("session supervisor returned unexpected attach sync payload"),
            ),
        }
    }

    /// The payload must tell whether a device is attached.
    pub fn into_device_attached(self) -> (res: PtyResult<bool>)
        ensures
            res is Ok <==> self is DeviceAttached,
            res matches Ok(attached) ==> self == (SupervisorResponsePayload::DeviceAttached {
                attached,
            }),
            res matches Err(e) ==> e@ == PtyErrorModel::Backend(
                "session supervisor returned unexpected device attachment payload"@,
            ),
    {
        match self {
            SupervisorResponsePayload::DeviceAttached { attached } => Ok(attached),
            _ => Err(
                PtyError::backend_message(
                    "session supervisor returned unexpected device attachment payload",
                ),
            ),
        }
    }

    /// The payload must be terminal frames.
    pub fn into_terminal_frames(self) -> (res: PtyResult<(u64, Vec<PtyTerminalFrame>)>)
        ensures
            res is Ok <==> self is TerminalFrames,
            res matches Ok((base_seq, frames)) ==> self
                == (SupervisorResponsePayload::TerminalFrames { base_seq, frames }),
            res matches Err(e) ==> e@ == PtyErrorModel::Backend(
                "session supervisor returned unexpected terminal frames payload"@,
            ),
    {
        match self {
            SupervisorResponsePayload::TerminalFrames { base_seq, frames } => Ok((base_seq, frames)),
            _ => Err(
                PtyError::backend_message(
                    "session supervisor returned unexpected terminal frames payload",
                ),
            ),
        }
    }

    /// The payload must tell which controller a resume transaction committed, completely or not at all.
    pub fn into_controller_resume_status(self) -> (res: PtyResult<Option<ControllerIdentity>>)
        ensures
            match self {
                SupervisorResponsePayload::ControllerResumeStatus {
                    controller_id: Some(id),
                    controller_connection_id: Some(connection_id),
                } => res == Ok::<Option<ControllerIdentity>, PtyError>(
                    Some(ControllerIdentity { id, connection_id }),
                ),
                SupervisorResponsePayload::ControllerResumeStatus {
                    controller_id: None,
                    controller_connection_id: None,
                } => res == Ok::<Option<ControllerIdentity>, PtyError>(None),
                SupervisorResponsePayload::ControllerResumeStatus { .. } => res matches Err(e) && e@
                    == PtyErrorModel::Backend(
                    "session supervisor returned incomplete resume status"@,
                ),
                _ => res matches Err(e) && e@ == PtyErrorModel::Backend(
                    "session supervisor returned unexpected resume status payload"@,
                ),
            },
    {
        match self {
            SupervisorResponsePayload::ControllerResumeStatus {
                controller_id,
                controller_connection_id,
            } => match (controller_id, controller_connection_id) {
                (Some(id), Some(connection_id)) => Ok(
                    Some(ControllerIdentity { id, connection_id }),
                ),
                (None, None) => Ok(None),
                _ => Err(
                    PtyError::backend_message("session supervisor returned incomplete resume status"),
                ),
            },
            _ => Err(
                PtyError::backend_message(
                    "session supervisor returned unexpected resume status payload",
                ),
            ),
        }
    }

    /// The payload must be a cleanup challenge.
    pub fn into_cleanup_auth_challenge(self) -> (res: PtyResult<(String, String)>)
        ensures
            res is Ok <==> self is CleanupAuthChallenge,
            res matches Ok((server_nonce_base64, server_proof_base64)) ==> self
                == (SupervisorResponsePayload::CleanupAuthChallenge {
                server_nonce_base64,
                server_proof_base64,
            }),
            res matches Err(e) ==> e@ == PtyErrorModel::Backend(
                "session supervisor returned unexpected cleanup authentication payload"@,
            ),
    {
        match self {
            SupervisorResponsePayload::CleanupAuthChallenge {
                server_nonce_base64,
                server_proof_base64,
            } => Ok((server_nonce_base64, server_proof_base64)),
            _ => Err(
                PtyError::backend_message(
                    "session supervisor returned unexpected cleanup authentication payload",
                ),
            ),
        }
    }

    /// The payload must tell whether the process is confirmed dead.
    pub fn into_close_status(self) -> (res: PtyResult<bool>)
        ensures
            res is Ok <==> self is CloseStatus,
            res matches Ok(confirmed_dead) ==> self == (SupervisorResponsePayload::CloseStatus {
                confirmed_dead,
            }),
            res matches Err(e) ==> e@ == PtyErrorModel::Backend(
                "session supervisor returned unexpected close status payload"@,
            ),
    {
        match self {
            SupervisorResponsePayload::CloseStatus { confirmed_dead } => Ok(confirmed_dead),
            _ => Err(
                PtyError::backend_message(
                    "session supervisor returned unexpected close status payload",
                ),
            ),
        }
    }
}

/// What a terminal viewer sends on its own socket.
#[derive(Debug, Clone, PartialEq, Eq)]
pub enum SupervisorTerminalClientFrame {
    BootstrapAttach { session_id: String, last_terminal_seq: Option<u64> },
    Input { data: Vec<u8> },
    Resize { size: PtySize },
    HeartbeatPong { nonce: String },
}

/// What a terminal viewer receives on its own socket.
#[derive(Debug, Clone, PartialEq, Eq)]
pub enum SupervisorTerminalServerFrame {
    AttachSync {
        session_id: String,
        base_seq: u64,
        snapshot: SupervisorSnapshotPayload,
        frames: Vec<PtyTerminalFrame>,
    },
    TerminalFrame { session_id: String, frame: PtyTerminalFrame },
    HeartbeatPing { nonce: String, timeout_ms: u64 },
    Close { reason: String, message: Option<String> },
}

/// The content of a [`SupervisorTerminalServerFrame`].
pub enum ServerFrameModel {
    AttachSync {
        session_id: Seq<char>,
        base_seq: u64,
        snapshot: SnapshotModel,
        frames: Seq<FrameModel>,
    },
    TerminalFrame { session_id: Seq<char>, frame: FrameModel },
    HeartbeatPing { nonce: Seq<char>, timeout_ms: u64 },
    Close { reason: Seq<char>, message: Option<Seq<char>> },
}

impl View for SupervisorTerminalServerFrame {
    type V = ServerFrameModel;

    open spec fn view(&self) -> ServerFrameModel {
        match self {
            SupervisorTerminalServerFrame::AttachSync { session_id, base_seq, snapshot, frames } => {
                ServerFrameModel::AttachSync {
                    session_id: session_id@,
                    base_seq: *base_seq,
                    snapshot: snapshot@,
                    frames: frame_models(frames@),
                }
            },
            SupervisorTerminalServerFrame::TerminalFrame { session_id, frame } => {
                ServerFrameModel::TerminalFrame { session_id: session_id@, frame: frame@ }
            },
            SupervisorTerminalServerFrame::HeartbeatPing { nonce, timeout_ms } => {
                ServerFrameModel::HeartbeatPing { nonce: nonce@, timeout_ms: *timeout_ms }
            },
            SupervisorTerminalServerFrame::Close { reason, message } => ServerFrameModel::Close {
                reason: reason@,
                message: match message {
                    Some(text) => Some(text@),
                    None => None,
                },
            },
        }
    }
}

} // verus!
