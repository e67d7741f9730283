//! The daemon's side of the control connection: requests that wait for their responses, what to do
//! when the connection fails, and the queue of raw frames of a viewer.

use crate::codec::{base64_bytes, base64_encode, base64_text};
use crate::collections::{lookup, with, without, IdMap};
use crate::pty::supervisor::daemon_terminal::{chunk_total, chunk_views, lemma_chunk_total_drop_first};
use crate::pty::supervisor::output_queue::{
    SUPERVISOR_OUTPUT_QUEUE_MAX_BYTES, SUPERVISOR_OUTPUT_QUEUE_MAX_MESSAGES,
};
use crate::pty::supervisor::protocol::{
    PayloadModel, SupervisorFrame, SupervisorRequest, SupervisorRequestCompletion,
    SupervisorRequestEnvelope, SupervisorRequestFailure, SupervisorResponse,
    SupervisorResponsePayload,
};
use crate::pty::supervisor::startup_grant::{bytes_to_32, CLEANUP_CAPABILITY_BYTES};
use crate::pty::{
    IoError, IoErrorKind, PtyError, PtyErrorModel, PtyExitStatus, PtyRestoreInfo, PtyResult,
    RestoreModel,
};
use crate::text::concat;
use std::collections::VecDeque;
use vstd::prelude::*;

verus! {

/// A reply by its contents.
pub open spec fn reply_model(reply: PtyResult<SupervisorResponsePayload>) -> Result<
    PayloadModel,
    PtyErrorModel,
> {
    match reply {
        Ok(payload) => Ok(payload@),
        Err(error) => Err(error@),
    }
}

/// What a response says: its payload, or the refusal as a backend failure.
pub open spec fn response_result(response: SupervisorResponse) -> Result<
    PayloadModel,
    PtyErrorModel,
> {
    match response {
        SupervisorResponse::Success { payload } => Ok(payload@),
        SupervisorResponse::Refusal { message } => Err(PtyErrorModel::Backend(message@)),
    }
}

/// What a frame means for the one request that a connection waits for.
#[derive(Debug)]
pub enum CandidateReply {
    /// A live frame; the response is still to come.
    Skip,
    /// The response.
    Done(PtyResult<SupervisorResponsePayload>),
}

fn reply_to(request_id: u64, frame: SupervisorFrame, mismatch: &str) -> (reply: CandidateReply)
    ensures
        match frame {
            SupervisorFrame::TerminalFrame { .. } => reply is Skip,
            SupervisorFrame::Response { request_id: response_id, response } => reply matches CandidateReply::Done(
                result,
            ) && reply_model(result) == (if response_id == request_id {
                response_result(response)
            } else {
                Err(PtyErrorModel::Backend(mismatch@))
            }),
        },
{
    match frame {
        SupervisorFrame::TerminalFrame { .. } => CandidateReply::Skip,
        SupervisorFrame::Response { request_id: response_id, response } => {
            if response_id == request_id {
                CandidateReply::Done(response.into_result())
            } else {
                CandidateReply::Done(Err(PtyError::backend_message(mismatch)))
            }
        },
    }
}

/// What a frame means for a request on a connection of its own: live frames are skipped, and a
/// response to anything else is a failure.
pub fn candidate_reply(request_id: u64, frame: SupervisorFrame) -> (reply: CandidateReply)
    ensures
        match frame {
            SupervisorFrame::TerminalFrame { .. } => reply is Skip,
            SupervisorFrame::Response { request_id: response_id, response } => reply matches CandidateReply::Done(
                result,
            ) && reply_model(result) == (if response_id == request_id {
                response_result(response)
            } else {
                Err(
                    PtyErrorModel::Backend(
                        "session supervisor returned a mismatched candidate response"@,
                    ),
                )
            }),
        },
{
    reply_to(
        request_id,
        frame,
        "session supervisor returned a mismatched candidate response",
    )
}

/// The peer closed the connection.
pub open spec fn peer_closed(kind: IoErrorKind) -> bool {
    ||| kind == IoErrorKind::UnexpectedEof
    ||| kind == IoErrorKind::ConnectionReset
    ||| kind == IoErrorKind::BrokenPipe
}

fn is_peer_closed(kind: IoErrorKind) -> (closed: bool)
    ensures
        closed == peer_closed(kind),
{
    match kind {
        IoErrorKind::UnexpectedEof => true,
        IoErrorKind::ConnectionReset => true,
        IoErrorKind::BrokenPipe => true,
        _ => false,
    }
}

/// The request that lets a new controller forget the devices of an earlier daemon. It is made on a
/// connection of its own, so that an old supervisor that does not know it can hang up.
pub fn reset_devices_request(controller_id: u64, controller_connection_id: u64) -> (envelope:
    SupervisorRequestEnvelope)
    ensures
        envelope == (SupervisorRequestEnvelope {
            request_id: 1,
            request: SupervisorRequest::ResetAttachedDevicesForController {
                controller_id,
                controller_connection_id,
            },
        }),
{
    SupervisorRequestEnvelope {
        request_id: 1,
        request: SupervisorRequest::ResetAttachedDevicesForController {
            controller_id,
            controller_connection_id,
        },
    }
}

/// What a frame means for a device reset; nothing comes back while the response is still to come.
pub fn reset_devices_reply(frame: SupervisorFrame) -> (done: Option<PtyResult<()>>)
    ensures
        match frame {
            SupervisorFrame::TerminalFrame { .. } => done is None,
            SupervisorFrame::Response { request_id, response } => {
                &&& done matches Some(result)
                &&& result is Ok <==> request_id == 1 && response_result(response) == Ok::<
                    PayloadModel,
                    PtyErrorModel,
                >(PayloadModel::Empty)
                &&& result matches Err(e) ==> e@ == (if request_id != 1 {
                    PtyErrorModel::Backend(
                        "session supervisor returned a mismatched reset response"@,
                    )
                } else {
                    match response_result(response) {
                        Err(error) => error,
                        Ok(_) => PtyErrorModel::Backend(
                            "session supervisor returned unexpected snapshot payload"@,
                        ),
                    }
                })
            },
        },
{
    match reply_to(1, frame, "session supervisor returned a mismatched reset response") {
        CandidateReply::Skip => None,
        CandidateReply::Done(Ok(payload)) => Some(payload.expect_empty()),
        CandidateReply::Done(Err(error)) => Some(Err(error)),
    }
}

/// What a failed read means for a device reset: a supervisor that hangs up does not know the request.
pub fn reset_devices_read_failed(error: IoError) -> (res: PtyResult<()>)
    ensures
        res is Ok <==> peer_closed(error.kind),
        res matches Err(e) ==> e@ == PtyErrorModel::Io(error.kind, error.message@),
{
    if is_peer_closed(error.kind) {
        Ok(())
    } else {
        Err(PtyError::Io(error))
    }
}

// ---------------------------------------------------------------------------
// Requests that carry bytes

/// The request that hands user input to the session.
pub fn input_request(bytes: &[u8]) -> (request: SupervisorRequest)
    requires
        (bytes@.len() + 2) / 3 * 4 <= usize::MAX,
    ensures
        request matches SupervisorRequest::Input { data_base64 } && data_base64@ == base64_text(bytes@)
            && base64_bytes(data_base64@) == Ok::<Seq<u8>, Seq<char>>(bytes@),
{
    SupervisorRequest::Input { data_base64: base64_encode(bytes) }
}

/// A cleanup capability that was kept in the ledger.
pub fn durable_capability(capability: &[u8]) -> (res: PtyResult<[u8; 32]>)
    ensures
        res is Ok <==> capability@.len() == CLEANUP_CAPABILITY_BYTES,
        res matches Ok(array) ==> array@ == capability@,
        res matches Err(e) ==> e@ == PtyErrorModel::Backend(
            "invalid durable supervisor cleanup capability"@,
        ),
{
    if capability.len() == CLEANUP_CAPABILITY_BYTES {
        Ok(bytes_to_32(capability))
    } else {
        Err(PtyError::backend_message("invalid durable supervisor cleanup capability"))
    }
}

// ---------------------------------------------------------------------------
// Supervisors of an earlier version

/// Where a capability can be installed later, and the capability itself.
pub fn legacy_install_target(restore_info: &PtyRestoreInfo, capability: &[u8]) -> (res: PtyResult<
    (String, [u8; 32]),
>)
    ensures
        match restore_info@ {
            RestoreModel::UnixSocket { socket_path, .. } => if capability@.len()
                == CLEANUP_CAPABILITY_BYTES {
                res matches Ok(target) && target.0@ == socket_path && target.1@ == capability@
            } else {
                res matches Err(e) && e@ == PtyErrorModel::Backend(
                    "invalid migrated supervisor cleanup capability"@,
                )
            },
            RestoreModel::Tmux { .. } => res matches Err(e) && e@ == PtyErrorModel::Backend(
                "legacy capability migration requires Unix restore metadata"@,
            ),
        },
{
    match restore_info {
        PtyRestoreInfo::UnixSocket { socket_path, .. } => {
            if capability.len() == CLEANUP_CAPABILITY_BYTES {
                Ok((socket_path.clone(), bytes_to_32(capability)))
            } else {
                Err(PtyError::backend_message("invalid migrated supervisor cleanup capability"))
            }
        },
        PtyRestoreInfo::Tmux { .. } => Err(
            PtyError::backend_message("legacy capability migration requires Unix restore metadata"),
        ),
    }
}

/// The first of two requests that give a supervisor its capability later: the connection takes control.
pub fn legacy_attach_request(session_id: &str) -> (envelope: SupervisorRequestEnvelope)
    ensures
        envelope.request_id == 1,
        envelope.request matches SupervisorRequest::AttachSync {
            session_id: id,
            last_terminal_seq: None,
            resume_controller_id: None,
        } && id@ == session_id@,
{
    SupervisorRequestEnvelope {
        request_id: 1,
        request: SupervisorRequest::AttachSync {
            session_id: session_id.to_owned(),
            last_terminal_seq: None,
            resume_controller_id: None,
        },
    }
}

/// The second of them: the capability.
pub fn legacy_install_request(session_id: &str, capability: &[u8; 32]) -> (envelope:
    SupervisorRequestEnvelope)
    ensures
        envelope.request_id == 2,
        envelope.request matches SupervisorRequest::InstallCleanupCapability {
            session_id: id,
            capability_base64,
            migration_operation_id: None,
        } && id@ == session_id@ && capability_base64@ == base64_text(capability@)
            && base64_bytes(capability_base64@) == Ok::<Seq<u8>, Seq<char>>(capability@),
{
    SupervisorRequestEnvelope {
        request_id: 2,
        request: SupervisorRequest::InstallCleanupCapability {
            session_id: session_id.to_owned(),
            capability_base64: base64_encode(capability.as_slice()),
            migration_operation_id: None,
        },
    }
}

/// Whether a supervisor took a migrated cleanup capability: one that hangs up does not know the
/// request.
pub fn legacy_install_result(reply: PtyResult<SupervisorResponsePayload>) -> (res: PtyResult<bool>)
    ensures
        match reply {
            Ok(payload) => {
                &&& payload is Empty ==> res == Ok::<bool, PtyError>(true)
                &&& !(payload is Empty) ==> (res matches Err(e) && e@ == PtyErrorModel::Backend(
                    "session supervisor returned unexpected snapshot payload"@,
                ))
            },
            Err(PtyError::Io(error)) => if peer_closed(error.kind) {
                res == Ok::<bool, PtyError>(false)
            } else {
                res == Err::<bool, PtyError>(PtyError::Io(error))
            },
            Err(error) => res == Err::<bool, PtyError>(error),
        },
{
    match reply {
        Ok(payload) => match payload.expect_empty() {
            Ok(()) => Ok(true),
            Err(error) => Err(error),
        },
        Err(PtyError::Io(error)) => {
            if is_peer_closed(error.kind) {
                Ok(false)
            } else {
                Err(PtyError::Io(error))
            }
        },
        Err(error) => Err(error),
    }
}

/// The socket and the process of the supervisor behind a session; there is none behind tmux.
pub fn supervisor_address(restore_info: &PtyRestoreInfo) -> (target: Option<(String, u32)>)
    ensures
        match restore_info@ {
            RestoreModel::UnixSocket { socket_path, supervisor_pid, .. } => target matches Some(found)
                && found.0@ == socket_path && found.1 == supervisor_pid,
            RestoreModel::Tmux { .. } => target is None,
        },
{
    match restore_info {
        PtyRestoreInfo::UnixSocket { socket_path, supervisor_pid, .. } => Some(
            (socket_path.clone(), *supervisor_pid),
        ),
        PtyRestoreInfo::Tmux { .. } => None,
    }
}

// ---------------------------------------------------------------------------
// Whether the process has ended

/// What is known of the end of a process without asking its supervisor.
#[derive(Debug)]
pub enum ExitCheck {
    /// It ended, or it still runs.
    Known(Option<PtyExitStatus>),
    /// The supervisor has to be asked.
    AskSupervisor,
}

/// What is known before the supervisor is asked: an exit frame may have come, and a supervisor that this
/// daemon started can be looked at as a child.
pub fn exit_check(exited: bool, child_exited: Option<bool>) -> (check: ExitCheck)
    ensures
        if exited || child_exited == Some(true) {
            check matches ExitCheck::Known(Some(status)) && status.exit_code == 0 && status.signal is None
        } else if child_exited == Some(false) {
            check matches ExitCheck::Known(None)
        } else {
            check is AskSupervisor
        },
{
    if exited {
        return ExitCheck::Known(Some(PtyExitStatus::exited(0)));
    }
    match child_exited {
        Some(true) => ExitCheck::Known(Some(PtyExitStatus::exited(0))),
        Some(false) => ExitCheck::Known(None),
        None => ExitCheck::AskSupervisor,
    }
}

/// Whether to try again after a failed connect: a supervisor that is still starting has no socket yet,
/// or does not listen on it.
pub fn should_retry_connect(kind: IoErrorKind, before_deadline: bool) -> (retry: bool)
    ensures
        retry == (before_deadline && (kind == IoErrorKind::NotFound || kind
            == IoErrorKind::ConnectionRefused)),
{
    before_deadline && match kind {
        IoErrorKind::NotFound => true,
        IoErrorKind::ConnectionRefused => true,
        _ => false,
    }
}

// ---------------------------------------------------------------------------
// Requests that wait

/// The requests that wait for a response, by number.
pub struct PendingRequests {
    next_request_id: u64,
    waiting: IdMap<bool>,
}

/// How waiting for a response ended.
#[derive(Debug)]
pub enum RequestWait {
    /// The request could not be written.
    NotWritten(IoError),
    /// The reader finished the request.
    Completed(SupervisorRequestCompletion),
    /// No response came in time.
    TimedOut,
    /// The reader is gone.
    Disconnected,
}

/// The next number after a request; numbers wrap around.
pub open spec fn next_number(id: u64) -> u64 {
    if id == u64::MAX {
        0
    } else {
        (id + 1) as u64
    }
}

impl PendingRequests {
    /// The number that the next request will carry.
    pub closed spec fn next(&self) -> u64 {
        self.next_request_id
    }

    /// The numbers of the waiting requests.
    pub closed spec fn ids(&self) -> Seq<(u64, bool)> {
        self.waiting@
    }

    /// No request waits; the first one will carry the number one.
    pub fn new() -> (pending: Self)
        ensures
            pending.next() == 1,
            pending.ids() == Seq::<(u64, bool)>::empty(),
    {
        PendingRequests { next_request_id: 1, waiting: IdMap::new() }
    }

    /// A request gets its number and waits.
    pub fn begin(&mut self, request: SupervisorRequest) -> (envelope: SupervisorRequestEnvelope)
        ensures
            envelope == (SupervisorRequestEnvelope { request_id: old(self).next(), request }),
            final(self).next() == next_number(old(self).next()),
            final(self).ids() == with(old(self).ids(), old(self).next(), true),
    {
        let request_id: u64 = self.next_request_id;
        self.next_request_id = if request_id == u64::MAX {
            0
        } else {
            request_id + 1
        };
        self.waiting.insert(request_id, true);
        SupervisorRequestEnvelope { request_id, request }
    }

    /// A request no longer waits. Whether it did comes back; a response to any other number is
    /// dropped.
    pub fn finish(&mut self, request_id: u64) -> (waited: bool)
        ensures
            waited == lookup(old(self).ids(), request_id) is Some,
            final(self).next() == old(self).next(),
            final(self).ids() == without(old(self).ids(), request_id),
    {
        match self.waiting.remove(request_id) {
            Some(_) => true,
            None => false,
        }
    }

    /// The connection failed: no request waits any longer. Their numbers come back, to be told.
    pub fn fail_all(&mut self) -> (failed: Vec<u64>)
        ensures
            final(self).next() == old(self).next(),
            final(self).ids() == Seq::<(u64, bool)>::empty(),
            failed@.len() == old(self).ids().len(),
            forall|i: int| 0 <= i < failed@.len() ==> #[trigger] failed@[i] == old(self).ids()[i].0,
    {
        let mut failed: Vec<u64> = Vec::new();
        let mut i: usize = 0;
        while i < self.waiting.len()
            invariant
                i <= self.waiting@.len(),
                self.waiting@ == old(self).ids(),
                failed@.len() == i,
                forall|k: int| 0 <= k < i ==> #[trigger] failed@[k] == self.waiting@[k].0,
            decreases self.waiting@.len() - i,
        {
            failed.push(self.waiting.id_at(i));
            i = i + 1;
        }
        self.waiting = IdMap::new();
        failed
    }
}

/// What the requests that wait are told when the reader of the connection stops.
pub fn reader_stopped(error: &IoError) -> (completion: SupervisorRequestCompletion)
    ensures
        completion matches SupervisorRequestCompletion::TransportError(e) && e@
            == PtyErrorModel::Backend("session supervisor reader stopped: "@ + error.message@),
{
    SupervisorRequestCompletion::TransportError(
        PtyError::Backend(
            concat("session supervisor reader stopped: ", error.message.as_str()),
        ),
    )
}

/// What the requests that wait are told when too many live frames had to be held back.
pub fn bootstrap_overflowed() -> (completion: SupervisorRequestCompletion)
    ensures
        completion matches SupervisorRequestCompletion::TransportError(e) && e@
            == PtyErrorModel::Backend(
            "session supervisor bootstrap output queue overflow; reconnect to resynchronize"@,
        ),
{
    SupervisorRequestCompletion::TransportError(
        PtyError::backend_message(
            "session supervisor bootstrap output queue overflow; reconnect to resynchronize",
        ),
    )
}

/// The failures of a request, by their contents.
pub enum FailureModel {
    Response(PtyErrorModel),
    Transport(PtyErrorModel),
}

impl View for SupervisorRequestFailure {
    type V = FailureModel;

    open spec fn view(&self) -> FailureModel {
        match self {
            SupervisorRequestFailure::Response(error) => FailureModel::Response(error@),
            SupervisorRequestFailure::Transport(error) => FailureModel::Transport(error@),
        }
    }
}

/// The outcome of one try of a request, by its contents.
pub open spec fn once_model(
    once: Result<SupervisorResponsePayload, SupervisorRequestFailure>,
) -> Result<PayloadModel, FailureModel> {
    match once {
        Ok(payload) => Ok(payload@),
        Err(failure) => Err(failure@),
    }
}

/// What one try of a request came to. Only what the supervisor itself said counts as a response.
pub fn request_outcome(wait: RequestWait) -> (once: Result<
    SupervisorResponsePayload,
    SupervisorRequestFailure,
>)
    ensures
        once_model(once) == (match wait {
            RequestWait::NotWritten(error) => Err(
                FailureModel::Transport(PtyErrorModel::Io(error.kind, error.message@)),
            ),
            RequestWait::Completed(SupervisorRequestCompletion::Response(response)) => match response_result(
                response,
            ) {
                Ok(payload) => Ok(payload),
                Err(error) => Err(FailureModel::Response(error)),
            },
            RequestWait::Completed(SupervisorRequestCompletion::TransportError(error)) => Err(
                FailureModel::Transport(error@),
            ),
            RequestWait::TimedOut => Err(
                FailureModel::Transport(
                    PtyErrorModel::Backend("session supervisor request timed out"@),
                ),
            ),
            RequestWait::Disconnected => Err(
                FailureModel::Transport(
                    PtyErrorModel::Backend("session supervisor response channel disconnected"@),
                ),
            ),
        }),
{
    match wait {
        RequestWait::NotWritten(error) => Err(
            SupervisorRequestFailure::Transport(PtyError::Io(error)),
        ),
        RequestWait::Completed(completion) => completion.into_result(),
        RequestWait::TimedOut => Err(
            SupervisorRequestFailure::Transport(
                PtyError::backend_message("session supervisor request timed out"),
            ),
        ),
        RequestWait::Disconnected => Err(
            SupervisorRequestFailure::Transport(
                PtyError::backend_message("session supervisor response channel disconnected"),
            ),
        ),
    }
}

// ---------------------------------------------------------------------------
// Tries of a request

/// The tries of one request: at most three, with a reconnect between them.
pub struct RequestTries {
    failed: u32,
}

/// What to do after a try or a reconnect.
#[derive(Debug)]
pub enum RequestStep {
    /// The request succeeded.
    Done(SupervisorResponsePayload),
    /// The request failed for good.
    Failed(PtyError),
    /// Reconnect, and report how it went.
    Reconnect,
    /// Send the request again.
    Retry,
}

impl RequestTries {
    /// How many tries have failed so far.
    pub closed spec fn failures(&self) -> u32 {
        self.failed
    }

    /// Nothing was tried yet.
    pub fn new() -> (tries: Self)
        ensures
            tries.failures() == 0,
    {
        RequestTries { failed: 0 }
    }

    /// A try ended. Only a failed connection is worth another try: what the supervisor refuses stays
    /// refused, so that a superseded controller never takes the session back.
    pub fn on_outcome(
        &mut self,
        once: Result<SupervisorResponsePayload, SupervisorRequestFailure>,
    ) -> (step: RequestStep)
        requires
            old(self).failures() < 3,
        ensures
            match once {
                Ok(payload) => step == RequestStep::Done(payload) && final(self).failures() == old(
                    self,
                ).failures(),
                Err(SupervisorRequestFailure::Response(error)) => step == RequestStep::Failed(error)
                    && final(self).failures() == old(self).failures(),
                Err(SupervisorRequestFailure::Transport(error)) => {
                    &&& final(self).failures() == old(self).failures() + 1
                    &&& old(self).failures() < 2 ==> step == RequestStep::Reconnect
                    &&& old(self).failures() >= 2 ==> step == RequestStep::Failed(error)
                },
            },
    {
        match once {
            Ok(payload) => RequestStep::Done(payload),
            Err(SupervisorRequestFailure::Response(error)) => RequestStep::Failed(error),
            Err(SupervisorRequestFailure::Transport(error)) => {
                let retry = self.failed < 2;
                self.failed = self.failed + 1;
                if retry {
                    RequestStep::Reconnect
                } else {
                    RequestStep::Failed(error)
                }
            },
        }
    }

    /// A reconnect ended: the request is sent again, or its failure is the request's.
    pub fn on_reconnected(&self, reconnected: PtyResult<()>) -> (step: RequestStep)
        ensures
            match reconnected {
                Ok(()) => step == RequestStep::Retry,
                Err(error) => step == RequestStep::Failed(error),
            },
    {
        match reconnected {
            Ok(()) => RequestStep::Retry,
            Err(error) => RequestStep::Failed(error),
        }
    }
}

// ---------------------------------------------------------------------------
// Raw frames of a viewer

/// The raw frames that wait for a viewer, and the failure that it has to be told.
pub struct AttachFrameQueue {
    pending: VecDeque<Vec<u8>>,
    error: Option<String>,
    output_signal: u64,
}

/// The content of an [`AttachFrameQueue`].
#[verifier::ext_equal]
pub struct AttachQueueModel {
    pub pending: Seq<Seq<u8>>,
    pub error: Option<Seq<char>>,
    pub output_signal: u64,
}

impl View for AttachFrameQueue {
    type V = AttachQueueModel;

    closed spec fn view(&self) -> AttachQueueModel {
        AttachQueueModel {
            pending: chunk_views(self.pending@),
            error: match self.error {
                Some(text) => Some(text@),
                None => None,
            },
            output_signal: self.output_signal,
        }
    }
}

impl AttachQueueModel {
    /// The queue has room for one more frame.
    pub open spec fn fits(self, frame: Seq<u8>) -> bool {
        &&& self.pending.len() < SUPERVISOR_OUTPUT_QUEUE_MAX_MESSAGES
        &&& chunk_total(self.pending) + frame.len() <= SUPERVISOR_OUTPUT_QUEUE_MAX_BYTES
    }

    /// The viewer is woken.
    pub open spec fn signalled(self) -> AttachQueueModel {
        AttachQueueModel { output_signal: next_number(self.output_signal), ..self }
    }

    /// Everything that waits is given up for a failure.
    pub open spec fn failed(self, message: Seq<char>) -> AttachQueueModel {
        AttachQueueModel { pending: Seq::empty(), error: Some(message), ..self }.signalled()
    }
}

impl AttachFrameQueue {
    /// The queue holds no more frames and no more bytes than it may.
    pub open spec fn wf(&self) -> bool {
        &&& self@.pending.len() <= SUPERVISOR_OUTPUT_QUEUE_MAX_MESSAGES
        &&& chunk_total(self@.pending) <= SUPERVISOR_OUTPUT_QUEUE_MAX_BYTES
    }

    /// An empty queue.
    pub fn new() -> (queue: Self)
        ensures
            queue.wf(),
            queue@ == (AttachQueueModel { pending: Seq::empty(), error: None, output_signal: 0 }),
    {
        let queue = AttachFrameQueue { pending: VecDeque::new(), error: None, output_signal: 0 };
        assert(queue@.pending =~= Seq::<Seq<u8>>::empty());
        queue
    }

    fn signal(&mut self)
        ensures
            final(self).wf() == old(self).wf(),
            final(self)@ == old(self)@.signalled(),
    {
        self.output_signal = if self.output_signal == u64::MAX {
            0
        } else {
            self.output_signal + 1
        };
    }

    fn fail(&mut self, message: String)
        ensures
            final(self).wf(),
            final(self)@ == old(self)@.failed(message@),
    {
        self.pending = VecDeque::new();
        assert(self@.pending =~= Seq::<Seq<u8>>::empty());
        self.error = Some(message);
        self.signal();
    }

    /// A frame arrives. Whether to go on reading comes back: a viewer that is too slow has to attach
    /// anew.
    pub fn on_frame(&mut self, frame: Vec<u8>) -> (go_on: bool)
        requires
            old(self).wf(),
        ensures
            final(self).wf(),
            go_on == old(self)@.fits(frame@),
            final(self)@ == (if go_on {
                AttachQueueModel { pending: old(self)@.pending.push(frame@), ..old(self)@ }.signalled()
            } else {
                old(self)@.failed(
                    "session supervisor attach output queue overflow; reattach to resynchronize"@,
                )
            }),
    {
        let ghost before = self@.pending;
        let ghost data = frame@;
        let mut total: u128 = 0;
        let mut i: usize = 0;
        assert(before.take(0) =~= Seq::<Seq<u8>>::empty());
        while i < self.pending.len()
            invariant
                self.wf(),
                i <= self.pending@.len(),
                before == chunk_views(self.pending@),
                total == chunk_total(before.take(i as int)),
                total <= i * 0x1_0000_0000_0000_0000,
            decreases self.pending@.len() - i,
        {
            assert(before.take(i + 1).drop_last() =~= before.take(i as int));
            assert(before.take(i + 1).last() == self.pending@[i as int]@);
            total = total + self.pending[i].len() as u128;
            i = i + 1;
        }
        assert(before.take(i as int) =~= before);
        if self.pending.len() >= SUPERVISOR_OUTPUT_QUEUE_MAX_MESSAGES || total + frame.len() as u128
            > SUPERVISOR_OUTPUT_QUEUE_MAX_BYTES as u128 {
            self.fail(
                "session supervisor attach output queue overflow; reattach to resynchronize".to_owned(),
            );
            return false;
        }
        self.pending.push_back(frame);
        assert(self@.pending =~= before.push(data));
        assert(before.push(data).drop_last() =~= before);
        self.signal();
        true
    }

    /// Reading failed. The end of the stream is no failure: what waits can still be read.
    pub fn on_read_failed(&mut self, error: &IoError)
        requires
            old(self).wf(),
        ensures
            final(self).wf(),
            final(self)@ == (if error.kind == IoErrorKind::UnexpectedEof {
                old(self)@
            } else {
                old(self)@.failed(
                    "session supervisor attach transport failed; reattach to resynchronize: "@
                        + error.message@,
                )
            }),
    {
        if error.kind == IoErrorKind::UnexpectedEof {
            return;
        }
        self.fail(
            concat(
                "session supervisor attach transport failed; reattach to resynchronize: ",
                error.message.as_str(),
            ),
        );
    }

    /// Takes the next frame. A failure is told once, before anything else; the viewer is woken while
    /// more frames wait.
    pub fn read_frame(&mut self) -> (res: PtyResult<Option<Vec<u8>>>)
        requires
            old(self).wf(),
        ensures
            final(self).wf(),
            res is Err <==> old(self)@.error is Some,
            res matches Err(e) ==> {
                &&& e@ == PtyErrorModel::Backend(old(self)@.error->0)
                &&& final(self)@ == (AttachQueueModel { error: None, ..old(self)@ })
            },
            res matches Ok(frame) ==> {
                &&& frame is None <==> old(self)@.pending.len() == 0
                &&& frame is None ==> final(self)@ == old(self)@
                &&& frame matches Some(bytes) ==> {
                    let rest = AttachQueueModel {
                        pending: old(self)@.pending.drop_first(),
                        ..old(self)@
                    };
                    &&& bytes@ == old(self)@.pending[0]
                    &&& final(self)@ == (if rest.pending.len() > 0 {
                        rest.signalled()
                    } else {
                        rest
                    })
                }
            },
    {
        if let Some(message) = self.error.take() {
            return Err(PtyError::Backend(message));
        }
        let ghost before = self@.pending;
        let frame = self.pending.pop_front();
        assert(frame is Some ==> self@.pending =~= before.drop_first());
        assert(frame is None ==> self@.pending =~= before);
        proof {
            if frame is Some {
                lemma_chunk_total_drop_first(before);
            }
        }
        if self.pending.len() > 0 {
            self.signal();
        }
        Ok(frame)
    }

    /// The number that changes whenever the viewer is woken.
    pub fn output_signal(&self) -> (signal: u64)
        ensures
            signal == self@.output_signal,
    {
        self.output_signal
    }
}

} // verus!
