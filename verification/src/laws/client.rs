//! The daemon's requests to a supervisor: which answer belongs to which request, when one is tried again,
//! and how a lost connection is taken up.

use crate::codec::base64_bytes;
use crate::collections::{lemma_with, lemma_without, lookup};
use crate::pty::supervisor::client::{
    bootstrap_overflowed, candidate_reply, durable_capability, exit_check, input_request,
    legacy_attach_request, legacy_install_request, legacy_install_result, legacy_install_target,
    reader_stopped, request_outcome, reset_devices_read_failed, reset_devices_reply,
    reset_devices_request, should_retry_connect, supervisor_address, AttachFrameQueue,
    CandidateReply, ExitCheck, PendingRequests, RequestStep, RequestTries,
    RequestWait,
};
use crate::pty::supervisor::daemon_terminal::chunk_total;
use crate::pty::supervisor::protocol::{
    ControllerIdentity, SupervisorFrame, SupervisorRequest, SupervisorRequestCompletion,
    SupervisorRequestEnvelope, SupervisorRequestFailure, SupervisorResponsePayload,
};
use crate::pty::supervisor::resume::{not_reconnectable_error, ResumeAction, ResumeTransaction};
use crate::pty::{
    IoError, IoErrorKind, PtyError, PtyErrorModel, PtyRestoreInfo, PtyResult, PtySupervisorStatus,
};
use vstd::prelude::*;

verus! {

/// An answer to the request that is waited for is what it says; a frame of the terminal is passed over, and
/// an answer to another request is an error.
pub proof fn law_answer_belongs_to_its_request(
    number: u64,
    frame: SupervisorFrame,
    reply: CandidateReply,
)
    requires
        call_ensures(candidate_reply, (number, frame), reply),
    ensures
        frame is TerminalFrame <==> reply is Skip,
        frame is Response && frame->request_id != number ==> reply->Done_0 is Err,
        frame is Response && frame->request_id == number && frame->response is Success
            ==> reply->Done_0 is Ok && reply->Done_0->Ok_0@ == frame->response->payload@,
        frame is Response && frame->request_id == number && frame->response is Refusal
            ==> reply->Done_0 is Err && reply->Done_0->Err_0@ == PtyErrorModel::Backend(
            frame->response->message@,
        ),
{
}

/// A peer that went away.
pub open spec fn went_away(kind: IoErrorKind) -> bool {
    kind is UnexpectedEof || kind is ConnectionReset || kind is BrokenPipe
}

/// Devices are reset for the controller that is named; the answer has to be that it was done, and a peer
/// that went away has none.
pub proof fn law_devices_are_reset_by_name(
    id: u64,
    connection: u64,
    asked: SupervisorRequestEnvelope,
    frame: SupervisorFrame,
    done: Option<PtyResult<()>>,
    error: IoError,
    failed: PtyResult<()>,
)
    requires
        call_ensures(reset_devices_request, (id, connection), asked),
        call_ensures(reset_devices_reply, (frame,), done),
        call_ensures(reset_devices_read_failed, (error,), failed),
    ensures
        asked.request == (SupervisorRequest::ResetAttachedDevicesForController {
            controller_id: id,
            controller_connection_id: connection,
        }),
        done is None <==> frame is TerminalFrame,
        done is Some ==> (done->0 is Ok <==> frame->request_id == asked.request_id
            && frame->response is Success && frame->response->payload@ is Empty),
        failed is Ok <==> went_away(error.kind),
{
}

/// Input is sent so that the supervisor reads the same bytes.
pub proof fn law_input_can_be_read_back(bytes: &[u8], request: SupervisorRequest)
    requires
        call_ensures(input_request, (bytes,), request),
    ensures
        request is Input,
        base64_bytes(request->Input_data_base64@) == Ok::<Seq<u8>, Seq<char>>(bytes@),
{
}

/// A capability has 32 bytes.
pub proof fn law_capability_has_its_length(
    bytes: &[u8],
    capability: PtyResult<[u8; 32]>,
    info: &PtyRestoreInfo,
    target: PtyResult<(String, [u8; 32])>,
)
    requires
        call_ensures(durable_capability, (bytes,), capability),
        call_ensures(legacy_install_target, (info, bytes), target),
    ensures
        capability is Ok <==> bytes@.len() == 32,
        capability is Ok ==> capability->Ok_0@ == bytes@,
        target is Ok <==> info@ is UnixSocket && bytes@.len() == 32,
        target is Ok ==> (target->Ok_0).0@ == info@->UnixSocket_socket_path && (target->Ok_0).1@ == bytes@,
{
}

/// An old supervisor is attached to and given its capability, as it is; whether it can take it shows in
/// its answer, and one that goes away cannot.
pub proof fn law_old_supervisor_gets_its_capability(
    session_id: &str,
    capability: &[u8; 32],
    attach: SupervisorRequestEnvelope,
    install: SupervisorRequestEnvelope,
    reply: PtyResult<SupervisorResponsePayload>,
    res: PtyResult<bool>,
)
    requires
        call_ensures(legacy_attach_request, (session_id,), attach),
        call_ensures(legacy_install_request, (session_id, capability), install),
        call_ensures(legacy_install_result, (reply,), res),
    ensures
        attach.request is AttachSync,
        attach.request->AttachSync_session_id@ == session_id@,
        attach.request->AttachSync_last_terminal_seq is None,
        attach.request->AttachSync_resume_controller_id is None,
        install.request is InstallCleanupCapability,
        install.request->InstallCleanupCapability_session_id@ == session_id@,
        base64_bytes(install.request->InstallCleanupCapability_capability_base64@) == Ok::<
            Seq<u8>,
            Seq<char>,
        >(capability@),
        install.request_id != attach.request_id,
        res == Ok::<bool, PtyError>(true) <==> reply is Ok && reply->Ok_0 is Empty,
        res == Ok::<bool, PtyError>(false) <==> reply is Err && reply->Err_0 is Io && went_away(
            reply->Err_0->Io_0.kind,
        ),
{
}

/// A supervisor is reached at its socket; a session has exited if it said so or its process is gone.
pub proof fn law_exit_is_known_or_asked_for(
    info: &PtyRestoreInfo,
    place: Option<(String, u32)>,
    exited: bool,
    child: Option<bool>,
    check: ExitCheck,
    kind: IoErrorKind,
    in_time: bool,
    retry: bool,
)
    requires
        call_ensures(supervisor_address, (info,), place),
        call_ensures(exit_check, (exited, child), check),
        call_ensures(should_retry_connect, (kind, in_time), retry),
    ensures
        place is Some <==> info@ is UnixSocket,
        place is Some ==> (place->0).0@ == info@->UnixSocket_socket_path && (place->0).1
            == info@->UnixSocket_supervisor_pid,
        check is AskSupervisor <==> !exited && child is None,
        check is Known ==> (check->Known_0 is Some <==> exited || child == Some(true)),
        retry <==> in_time && (kind is NotFound || kind is ConnectionRefused),
{
    if child is Some {
        assert(child == Some(child->0));
        assert(child->0 == true || child->0 == false);
    }
}

/// Requests are numbered upwards, and wait under their number until they are answered or all fail.
pub proof fn law_requests_wait_under_their_number(
    pending: &mut PendingRequests,
    request: SupervisorRequest,
    envelope: SupervisorRequestEnvelope,
    then: &mut PendingRequests,
    number: u64,
    waited: bool,
    other: u64,
)
    requires
        call_ensures(PendingRequests::begin, (pending, request), envelope),
        old(pending).next() < u64::MAX,
        *old(then) == *final(pending),
        call_ensures(PendingRequests::finish, (then, number), waited),
    ensures
        envelope.request == request,
        envelope.request_id == old(pending).next(),
        final(pending).next() == old(pending).next() + 1,
        number == envelope.request_id ==> waited,
        number != envelope.request_id ==> waited == (lookup(old(pending).ids(), number) is Some),
        lookup(final(then).ids(), number) is None,
        other != number ==> lookup(final(then).ids(), other) == lookup(final(pending).ids(), other),
        final(then).next() == final(pending).next(),
{
    lemma_with(old(pending).ids(), envelope.request_id, true, number);
    lemma_without(old(then).ids(), number, number);
    lemma_without(old(then).ids(), number, other);
}

/// When all fail, everything that waited is named, and nothing waits any more.
pub proof fn law_all_that_waited_fails(pending: &mut PendingRequests, failed: Vec<u64>, i: int)
    requires
        call_ensures(PendingRequests::fail_all, (pending,), failed),
    ensures
        failed@.len() == old(pending).ids().len(),
        0 <= i < failed@.len() ==> failed@[i] == old(pending).ids()[i].0,
        final(pending).ids().len() == 0,
        final(pending).next() == old(pending).next(),
{
}

/// What one try came to. Only what the supervisor itself said is its answer; everything else is the
/// connection's.
pub proof fn law_only_the_supervisors_word_is_its_answer(
    wait: RequestWait,
    once: Result<SupervisorResponsePayload, SupervisorRequestFailure>,
)
    requires
        call_ensures(request_outcome, (wait,), once),
    ensures
        once is Ok <==> wait is Completed && wait->Completed_0 is Response
            && wait->Completed_0->Response_0 is Success,
        once is Ok ==> once->Ok_0@ == wait->Completed_0->Response_0->payload@,
        once is Err ==> (once->Err_0 is Response <==> wait is Completed
            && wait->Completed_0 is Response),
        once is Err && once->Err_0 is Response ==> once->Err_0->Response_0@ == PtyErrorModel::Backend(
            wait->Completed_0->Response_0->message@,
        ),
        wait is NotWritten ==> once->Err_0->Transport_0@ == PtyErrorModel::Io(
            wait->NotWritten_0.kind,
            wait->NotWritten_0.message@,
        ),
        wait is Completed && wait->Completed_0 is TransportError ==> once->Err_0->Transport_0@
            == wait->Completed_0->TransportError_0@,
{
}

/// A request whose connection fails is tried again twice, after a reconnect; what the supervisor refuses is
/// not tried again.
pub proof fn law_request_is_tried_three_times(
    tries: &mut RequestTries,
    once: Result<SupervisorResponsePayload, SupervisorRequestFailure>,
    step: RequestStep,
    reconnected: PtyResult<()>,
    next: RequestStep,
    fresh: RequestTries,
)
    requires
        call_ensures(RequestTries::on_outcome, (tries, once), step),
        call_ensures(RequestTries::on_reconnected, (&*final(tries), reconnected), next),
        call_ensures(RequestTries::new, (), fresh),
    ensures
        fresh.failures() == 0,
        once is Ok ==> step == RequestStep::Done(once->Ok_0),
        once is Err && once->Err_0 is Response ==> step == RequestStep::Failed(once->Err_0->Response_0),
        once is Err && once->Err_0 is Transport ==> {
            &&& final(tries).failures() == old(tries).failures() + 1
            &&& step is Reconnect <==> old(tries).failures() < 2
            &&& old(tries).failures() >= 2 ==> step == RequestStep::Failed(once->Err_0->Transport_0)
        },
        reconnected is Ok ==> next is Retry,
        reconnected is Err ==> next == RequestStep::Failed(reconnected->Err_0),
{
}

/// What stopped the reader fails every request as a failure of the connection.
pub proof fn law_stopped_reader_is_the_connections_failure(
    error: &IoError,
    stopped: SupervisorRequestCompletion,
    overflowed: SupervisorRequestCompletion,
)
    requires
        call_ensures(reader_stopped, (error,), stopped),
        call_ensures(bootstrap_overflowed, (), overflowed),
    ensures
        stopped is TransportError,
        stopped->TransportError_0@ == PtyErrorModel::Backend(
            "session supervisor reader stopped: "@ + error.message@,
        ),
        overflowed is TransportError,
{
}

// ---------------------------------------------------------------------------
// Frames of an attached viewer

/// A frame waits behind the others while there is room: at most 128 frames and 8 MiB. Without room what
/// waits is given up, and the reader is told to come back.
pub proof fn law_attached_frame_waits_in_order(queue: &mut AttachFrameQueue, frame: Vec<u8>, go_on: bool)
    requires
        call_ensures(AttachFrameQueue::on_frame, (queue, frame), go_on),
    ensures
        go_on <==> old(queue)@.pending.len() < 128 && chunk_total(old(queue)@.pending) + frame@.len()
            <= 8388608,
        go_on ==> final(queue)@.pending == old(queue)@.pending.push(frame@) && final(queue)@.error == old(
            queue,
        )@.error,
        !go_on ==> final(queue)@.pending.len() == 0 && final(queue)@.error is Some,
        final(queue)@.output_signal != old(queue)@.output_signal,
{
}

/// A reader gets an error once, before anything else, and then frame after frame as they came.
pub proof fn law_attached_frames_are_read_in_order(
    queue: &mut AttachFrameQueue,
    res: PtyResult<Option<Vec<u8>>>,
)
    requires
        call_ensures(AttachFrameQueue::read_frame, (queue,), res),
    ensures
        res is Err <==> old(queue)@.error is Some,
        res is Err ==> res->Err_0@ == PtyErrorModel::Backend(old(queue)@.error->0)
            && final(queue)@.error is None && final(queue)@.pending == old(queue)@.pending,
        res is Ok ==> (res->Ok_0 is Some <==> old(queue)@.pending.len() > 0),
        res is Ok && res->Ok_0 is Some ==> {
            &&& (res->Ok_0->0)@ == old(queue)@.pending[0]
            &&& final(queue)@.pending == old(queue)@.pending.skip(1)
            &&& final(queue)@.pending.len() > 0 ==> final(queue)@.output_signal != old(
                queue,
            )@.output_signal
        },
        res is Ok && res->Ok_0 is None ==> final(queue)@ == old(queue)@,
{
}

/// The end of the stream is no failure; anything else gives up what waits and is told.
pub proof fn law_end_of_the_stream_is_no_failure(queue: &mut AttachFrameQueue, error: &IoError)
    requires
        call_ensures(AttachFrameQueue::on_read_failed, (queue, error), ()),
    ensures
        error.kind is UnexpectedEof ==> final(queue)@ == old(queue)@,
        !(error.kind is UnexpectedEof) ==> final(queue)@.pending.len() == 0 && final(queue)@.error
            == Some(
            "session supervisor attach transport failed; reattach to resynchronize: "@ + error.message@,
        ),
{
}

// ---------------------------------------------------------------------------
// Taking a connection up again

/// A connection is taken up again for a running supervisor and the controller that the daemon holds.
pub proof fn law_resume_begins_for_a_running_supervisor(
    info: &PtyRestoreInfo,
    session_id: &str,
    controller: Option<ControllerIdentity>,
    transaction: u64,
    res: PtyResult<ResumeTransaction>,
)
    requires
        call_ensures(ResumeTransaction::begin, (info, session_id, controller, transaction), res),
    ensures
        res is Ok <==> info@ is UnixSocket && info@->UnixSocket_supervisor_status is Running
            && controller is Some,
        res is Ok ==> {
            let resume = (res->Ok_0)@;
            &&& resume.session_id == session_id@
            &&& resume.controller_id == controller->0.id
            &&& resume.transaction_id == transaction
            &&& resume.attempts_left == 3
            &&& resume.stage is Connect
            &&& resume.sync is None
            &&& resume.committed is None
        },
{
}

/// What the daemon does on its own side moves the resume on: it connects and then attaches, prepares its
/// reader and then commits, starts its reader and is done. A failure uses up a try.
pub proof fn law_resume_goes_on_with_work(
    resume: &mut ResumeTransaction,
    result: PtyResult<()>,
    action: ResumeAction,
)
    requires
        call_ensures(ResumeTransaction::on_worked, (resume, result), action),
        old(resume).wf(),
        old(resume)@.stage is Connect || old(resume)@.stage is PrepareReader || old(
            resume,
        )@.stage is StartReader,
    ensures
        ({
            let at = old(resume)@.stage;
            let sent = action->Send_0.request;
            &&& result is Ok && at is Connect ==> action is Send && sent is AttachSync
                && sent->AttachSync_session_id@ == old(resume)@.session_id
                && sent->AttachSync_resume_controller_id == Some(old(resume)@.controller_id)
                && sent->AttachSync_last_terminal_seq is None && final(resume)@.stage is AttachSync
            &&& result is Ok && at is PrepareReader ==> action is Send && sent
                == (SupervisorRequest::CommitControllerResume {
                transaction_id: old(resume)@.transaction_id,
            }) && final(resume)@.stage is Commit
            &&& result is Ok && at is StartReader ==> action is Install && Some(action->controller)
                == old(resume)@.committed && Some(action->sync@) == old(resume)@.sync
                && final(resume)@.stage is Finished
            &&& result is Err ==> {
                &&& final(resume)@.attempts_left == old(resume)@.attempts_left - 1
                &&& old(resume)@.attempts_left > 1 ==> action is Connect && final(resume)@.stage is Connect
                &&& old(resume)@.attempts_left == 1 ==> action is Fail && action->Fail_0@
                    == result->Err_0@ && final(resume)@.stage is Failed
            }
        }),
{
}

/// What the supervisor answers moves the resume on: it attaches, answers, shows itself and commits, in this
/// order. Any other answer uses up a try.
pub proof fn law_resume_goes_on_with_answers(
    resume: &mut ResumeTransaction,
    reply: PtyResult<SupervisorResponsePayload>,
    action: ResumeAction,
)
    requires
        call_ensures(ResumeTransaction::on_reply, (resume, reply), action),
        old(resume).wf(),
        old(resume)@.stage is AttachSync || old(resume)@.stage is Ping || old(resume)@.stage is Snapshot
            || old(resume)@.stage is Commit,
    ensures
        ({
            let at = old(resume)@.stage;
            let told = reply->Ok_0@;
            let right = reply is Ok && (at is AttachSync ==> told is AttachSync) && (at is Ping
                ==> told is Empty) && (at is Snapshot ==> told is Snapshot) && (at is Commit
                ==> told is ControllerResumeStatus && told->ControllerResumeStatus_controller_id is Some
                && told->ControllerResumeStatus_controller_connection_id is Some);
            &&& right && at is AttachSync ==> action is Send && action->Send_0.request is Ping
                && final(resume)@.sync == Some(told->AttachSync_0) && final(resume)@.stage is Ping
            &&& right && at is Ping ==> action is Send && action->Send_0.request is Snapshot
                && final(resume)@.stage is Snapshot
            &&& right && at is Snapshot ==> action is PrepareReader
                && final(resume)@.stage is PrepareReader
            &&& right && at is Commit ==> action is StartReader && final(resume)@.stage is StartReader
                && final(resume)@.committed == Some(
                ControllerIdentity {
                    id: told->ControllerResumeStatus_controller_id->0,
                    connection_id: told->ControllerResumeStatus_controller_connection_id->0,
                },
            )
            &&& right ==> final(resume)@.attempts_left == old(resume)@.attempts_left
            &&& !right ==> {
                &&& final(resume)@.attempts_left == old(resume)@.attempts_left - 1
                &&& final(resume)@.committed is None
                &&& old(resume)@.attempts_left > 1 ==> action is Connect && final(resume)@.stage is Connect
                &&& old(resume)@.attempts_left == 1 ==> action is Fail && final(resume)@.stage is Failed
                &&& old(resume)@.attempts_left == 1 && reply is Err ==> action->Fail_0@ == reply->Err_0@
            }
            &&& final(resume)@.session_id == old(resume)@.session_id
            &&& final(resume)@.controller_id == old(resume)@.controller_id
            &&& final(resume)@.transaction_id == old(resume)@.transaction_id
        }),
{
}

/// A supervisor that is not running cannot be taken up again, and the failure says how it is.
pub proof fn law_refusal_to_reconnect_names_the_state(status: PtySupervisorStatus, error: PtyError)
    requires
        call_ensures(not_reconnectable_error, (status,), error),
    ensures
        error@ == PtyErrorModel::Backend(
            "session supervisor is not reconnectable in "@ + (match status {
                PtySupervisorStatus::Running => "Running"@,
                PtySupervisorStatus::Closing => "Closing"@,
                PtySupervisorStatus::Closed => "Closed"@,
            }) + " state"@,
        ),
{
}

} // verus!
