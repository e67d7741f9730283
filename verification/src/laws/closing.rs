//! Closing a session from outside: whom a daemon believes, what it asks in turn, and when it is done.

use crate::codec::{base64_bytes, base64_text};
use crate::paths::{path_file_name_text, path_parent_text, same_path};
use crate::pty::supervisor::cleanup_auth::proof_digest;
use crate::pty::supervisor::close_client::{
    child_reap_step, disconnected_close_result, natural_exit_request, natural_exit_target,
    on_natural_exit_finalized, on_natural_exit_status, pid_is_missing,
    probe_reconnected_supervisor_exit, reap_step, restore_info_with_status, restricted_close_target,
    CleanupAuthentication, CloseConfirmation, ClosePlan, CloseState, CloseTarget, ConfirmStep,
    NaturalExitStep, PeerCredentials, ReapPoll, RestrictedClose, RestrictedStep,
};
use crate::pty::supervisor::protocol::{
    PayloadModel, SupervisorRequest, SupervisorRequestEnvelope, SupervisorRequestFailure,
    SupervisorResponsePayload,
};
use crate::pty::supervisor::runtime_dir::SupervisorProcess;
use crate::pty::{IoError, PtyError, PtyExitStatus, PtyRestoreInfo, PtyResult, PtySupervisorStatus};
use vstd::prelude::*;

verus! {

/// Noting a status keeps everything else that is known of a process.
pub proof fn law_status_is_noted_alone(
    info: &PtyRestoreInfo,
    status: PtySupervisorStatus,
    noted: PtyRestoreInfo,
)
    requires
        call_ensures(restore_info_with_status, (info, status), noted),
    ensures
        info@ is Tmux ==> noted@ == info@,
        info@ is UnixSocket ==> {
            &&& noted@ is UnixSocket
            &&& noted@->UnixSocket_socket_path == info@->UnixSocket_socket_path
            &&& noted@->UnixSocket_supervisor_pid == info@->UnixSocket_supervisor_pid
            &&& noted@->UnixSocket_supervisor_status == status
        },
{
}

/// A supervisor has exited if its process is gone or is now somebody else's.
pub proof fn law_exit_is_told_by_the_process(
    session_id: &str,
    info: &PtyRestoreInfo,
    process: Option<&SupervisorProcess>,
    exit: Option<PtyExitStatus>,
)
    requires
        call_ensures(probe_reconnected_supervisor_exit, (session_id, info, process), exit),
    ensures
        info@ is Tmux ==> exit is None,
        info@ is UnixSocket ==> (exit is None <==> process is Some && process->0.session_id@ == session_id@
            && same_path(process->0.socket_path@, info@->UnixSocket_socket_path)),
        exit is Some ==> exit->0.exit_code == 0 && exit->0.signal is None,
{
}

/// A process is missing only if the system says that there is none.
pub proof fn law_missing_process_is_told_by_the_system(
    signalled: bool,
    none: bool,
    forbidden: bool,
    error: IoError,
    res: PtyResult<bool>,
)
    requires
        call_ensures(pid_is_missing, (signalled, none, forbidden, error), res),
    ensures
        res == Ok::<bool, PtyError>(true) <==> !signalled && none,
        res == Ok::<bool, PtyError>(false) <==> signalled || (!none && forbidden),
        res is Err <==> !signalled && !none && !forbidden,
{
}

/// Waiting for a process to be reaped goes on until it is, or cannot be, or the time is up.
pub proof fn law_reaping_goes_on_in_time(
    poll: ReapPoll,
    late: bool,
    done: Option<PtyResult<()>>,
    exited: bool,
    child: Option<PtyResult<()>>,
)
    requires
        call_ensures(reap_step, (poll, late), done),
        call_ensures(child_reap_step, (exited, late), child),
    ensures
        done is None <==> (poll is Running || poll is Interrupted) && !late,
        done is Some ==> (done->0 is Ok <==> poll is Reaped || (poll is NotAChild
            && poll->NotAChild_missing)),
        child is None <==> !exited && !late,
        child is Some ==> (child->0 is Ok <==> exited),
{
}

/// A process is closed from outside only where it is known and being closed.
pub proof fn law_only_closing_processes_are_targets(info: &PtyRestoreInfo, res: PtyResult<CloseTarget>)
    requires
        call_ensures(restricted_close_target, (info,), res),
    ensures
        res is Ok <==> info@ is UnixSocket && info@->UnixSocket_supervisor_status is Closing
            && info@->UnixSocket_supervisor_pid <= 0x7fff_ffff,
        res is Ok ==> {
            &&& res->Ok_0.socket_path@ == info@->UnixSocket_socket_path
            &&& res->Ok_0.supervisor_pid == info@->UnixSocket_supervisor_pid
            &&& res->Ok_0.expected_pid == info@->UnixSocket_supervisor_pid
        },
{
}

/// A peer is the supervisor that was expected: the same process, of the same user, for the same session, at
/// a socket that nobody else may use.
pub proof fn law_peer_has_to_be_the_expected_one(
    target: &CloseTarget,
    peer: PeerCredentials,
    user: u32,
    checked: PtyResult<()>,
    session_id: &str,
    process: Option<&SupervisorProcess>,
    known: PtyResult<()>,
    owner: u32,
    mode: u32,
    socket: PtyResult<()>,
    place: PtyResult<(String, String)>,
)
    requires
        call_ensures(CloseTarget::check_peer, (target, peer, user), checked),
        call_ensures(CloseTarget::check_process, (target, session_id, process), known),
        call_ensures(CloseTarget::check_socket, (target, owner, mode, user), socket),
        call_ensures(CloseTarget::locate, (target,), place),
    ensures
        checked is Ok <==> peer.complete && peer.pid == target.expected_pid && peer.uid == user,
        known is Ok <==> process is Some && process->0.session_id@ == session_id@ && same_path(
            process->0.socket_path@,
            target.socket_path@,
        ),
        socket is Ok <==> owner == user && mode == 0x180,
        place is Ok <==> path_parent_text(target.socket_path@) is Some && path_file_name_text(
            target.socket_path@,
        ) is Some,
        place is Ok ==> (place->Ok_0).0@ == path_parent_text(target.socket_path@)->0 && (place->Ok_0).1@
            == path_file_name_text(target.socket_path@)->0,
{
}

// ---------------------------------------------------------------------------
// Authentication

/// A daemon asks with its own nonce, and shows the capability only to who proves to know it.
pub proof fn law_capability_is_shown_for_a_proof(
    session_id: &str,
    capability: [u8; 32],
    nonce: [u8; 32],
    auth: CleanupAuthentication,
    asked: SupervisorRequest,
    reply: SupervisorResponsePayload,
    answer: PtyResult<SupervisorRequest>,
)
    requires
        call_ensures(CleanupAuthentication::new, (session_id, capability, nonce), auth),
        call_ensures(CleanupAuthentication::challenge, (&auth,), asked),
        call_ensures(CleanupAuthentication::answer, (&auth, reply), answer),
    ensures
        asked is CleanupAuthChallenge,
        asked->CleanupAuthChallenge_session_id@ == session_id@,
        asked->CleanupAuthChallenge_client_nonce_base64@ == base64_text(nonce@),
        ({
            let told = reply@;
            let server = base64_bytes(told->CleanupAuthChallenge_server_nonce_base64);
            let evidence = base64_bytes(told->CleanupAuthChallenge_server_proof_base64);
            let proven = told is CleanupAuthChallenge && server is Ok && server->Ok_0.len() == 32
                && evidence is Ok && evidence->Ok_0 == proof_digest(
                capability@,
                session_id@,
                nonce@,
                server->Ok_0,
            );
            &&& answer is Ok <==> proven
            &&& answer is Ok ==> {
                let shown = answer->Ok_0;
                &&& shown is CleanupAuthenticate
                &&& shown->CleanupAuthenticate_session_id@ == session_id@
                &&& shown->CleanupAuthenticate_client_nonce_base64@ == base64_text(nonce@)
                &&& shown->CleanupAuthenticate_server_nonce_base64@
                    == told->CleanupAuthChallenge_server_nonce_base64
                &&& shown->CleanupAuthenticate_capability_base64@ == base64_text(capability@)
            }
        }),
{
}

/// A close begins with the challenge and asks for the number that it was given.
pub proof fn law_close_begins_with_the_challenge(
    auth: CleanupAuthentication,
    number: u64,
    res: (RestrictedClose, SupervisorRequestEnvelope),
    asked: SupervisorRequest,
)
    requires
        call_ensures(RestrictedClose::begin, (auth, number), res),
        call_ensures(CleanupAuthentication::challenge, (&auth,), asked),
    ensures
        (res.0)@.stage is Challenge,
        (res.0)@.operation_id == number,
        (res.0)@.auth == auth@,
        res.1.request_id == 1,
        res.1.request is CleanupAuthChallenge,
        res.1.request->CleanupAuthChallenge_session_id@ == asked->CleanupAuthChallenge_session_id@,
        res.1.request->CleanupAuthChallenge_client_nonce_base64@
            == asked->CleanupAuthChallenge_client_nonce_base64@,
{
}

/// A failed reply ends the close with its error, at every stage.
pub proof fn law_failed_reply_ends_the_close(
    close: &mut RestrictedClose,
    reply: PtyResult<SupervisorResponsePayload>,
    step: RestrictedStep,
)
    requires
        call_ensures(RestrictedClose::on_reply, (close, reply), step),
        reply is Err,
    ensures
        final(close)@.stage is Over,
        step is Failed,
        step->Failed_0@ == reply->Err_0@,
{
}

/// Each stage follows from the reply to the one before: after the authentication the status is asked for;
/// a process that is not dead is closed; one that is dead is let go, and its end awaited.
pub proof fn law_close_goes_stage_by_stage(
    close: &mut RestrictedClose,
    reply: PtyResult<SupervisorResponsePayload>,
    step: RestrictedStep,
)
    requires
        call_ensures(RestrictedClose::on_reply, (close, reply), step),
        reply is Ok,
    ensures
        ({
            let told = reply->Ok_0@;
            let number = old(close)@.operation_id;
            let sent = step->Send_0.request;
            let at = old(close)@.stage;
            &&& final(close)@.operation_id == number
            &&& final(close)@.auth == old(close)@.auth
            &&& at is Challenge && step is Send ==> sent is CleanupAuthenticate
                && final(close)@.stage is Authenticate
            &&& at is Authenticate && told is Empty ==> step is Send && sent
                == (SupervisorRequest::CloseStatus { operation_id: number }) && final(close)@.stage is Status
            &&& at is Status && told is CloseStatus && told->CloseStatus_confirmed_dead ==> step is Send
                && sent == (SupervisorRequest::FinalizeClose { operation_id: number })
                && final(close)@.stage is Finalize
            &&& at is Status && told is CloseStatus && !told->CloseStatus_confirmed_dead ==> step is Send
                && sent is CleanupClose && sent->CleanupClose_operation_id == number
                && sent->CleanupClose_session_id@ == old(close)@.auth.session_id
                && final(close)@.stage is Close
            &&& at is Close && told is CloseStatus && told->CloseStatus_confirmed_dead ==> step is Send
                && sent == (SupervisorRequest::FinalizeClose { operation_id: number })
                && final(close)@.stage is Finalize
            &&& at is Close && told is CloseStatus && !told->CloseStatus_confirmed_dead ==> step
                == RestrictedStep::Done(false) && final(close)@.stage is Over
            &&& at is Finalize && told is Empty ==> step is AwaitExit && final(close)@.stage is Exit
            &&& (at is Status || at is Close) && !(told is CloseStatus) ==> step is Failed
                && final(close)@.stage is Over
            &&& (at is Authenticate || at is Finalize) && !(told is Empty) ==> step is Failed
                && final(close)@.stage is Over
        }),
{
}

/// A close is done once the process is gone, and fails if it is not in time.
pub proof fn law_close_is_done_when_the_process_is_gone(
    close: &mut RestrictedClose,
    in_time: bool,
    gone: bool,
    step: RestrictedStep,
)
    requires
        call_ensures(RestrictedClose::on_exit_probe, (close, in_time, gone), step),
    ensures
        step == RestrictedStep::Done(true) <==> in_time && gone,
        step is AwaitExit <==> in_time && !gone,
        step is Failed <==> !in_time,
        final(close)@.stage is Exit <==> in_time && !gone,
{
}

// ---------------------------------------------------------------------------
// Natural exits

/// A running session is asked whether it has ended by itself; if so it is let go.
pub proof fn law_ended_session_is_let_go(
    info: &PtyRestoreInfo,
    place: Option<String>,
    asked: SupervisorRequestEnvelope,
    reply: PtyResult<SupervisorResponsePayload>,
    step: NaturalExitStep,
    last: PtyResult<SupervisorResponsePayload>,
    res: PtyResult<bool>,
)
    requires
        call_ensures(natural_exit_target, (info,), place),
        call_ensures(natural_exit_request, (), asked),
        call_ensures(on_natural_exit_status, (reply,), step),
        call_ensures(on_natural_exit_finalized, (last,), res),
    ensures
        place is Some <==> info@ is UnixSocket && info@->UnixSocket_supervisor_status is Running,
        place is Some ==> place->0@ == info@->UnixSocket_socket_path,
        asked.request is NaturalExitStatus,
        step is Finalize <==> reply is Ok && reply->Ok_0@ == (PayloadModel::CloseStatus {
            confirmed_dead: true,
        }),
        step is Finalize ==> step->Finalize_0.request is FinalizeNaturalExit,
        step == NaturalExitStep::Done(Ok(false)) <==> reply is Ok && reply->Ok_0@
            == (PayloadModel::CloseStatus { confirmed_dead: false }),
        reply is Err ==> step is Done && step->Done_0 is Err && step->Done_0->Err_0@ == reply->Err_0@,
        res is Ok <==> last is Ok && last->Ok_0@ is Empty,
        res is Ok ==> res->Ok_0,
        last is Err ==> res->Err_0@ == last->Err_0@,
{
}

// ---------------------------------------------------------------------------
// The session's own close

/// A close is noted before it is asked for. With a capability it has a number, the first that it was given;
/// without, it is asked for once.
pub proof fn law_begun_close_is_noted(state: &mut CloseState, fresh: u64, plan: ClosePlan)
    requires
        call_ensures(CloseState::begin, (state, fresh), plan),
    ensures
        plan is Once <==> old(state)@.cleanup_capability is None,
        plan is Numbered ==> {
            &&& old(state)@.close_operation_id is Some ==> plan->operation_id == old(
                state,
            )@.close_operation_id->0
            &&& old(state)@.close_operation_id is None ==> plan->operation_id == fresh
            &&& final(state)@.close_operation_id == Some(plan->operation_id)
        },
        plan is Once ==> final(state)@.close_operation_id == old(state)@.close_operation_id,
        final(state)@.cleanup_capability == old(state)@.cleanup_capability,
        old(state)@.restore_info is UnixSocket ==> {
            &&& final(state)@.restore_info is UnixSocket
            &&& final(state)@.restore_info->UnixSocket_supervisor_status is Closing
            &&& final(state)@.restore_info->UnixSocket_socket_path == old(
                state,
            )@.restore_info->UnixSocket_socket_path
            &&& final(state)@.restore_info->UnixSocket_supervisor_pid == old(
                state,
            )@.restore_info->UnixSocket_supervisor_pid
        },
{
}

/// A second close has the number of the first.
pub proof fn law_second_close_keeps_the_number(
    first: &mut CloseState,
    fresh: u64,
    plan: ClosePlan,
    second: &mut CloseState,
    other: u64,
    again: ClosePlan,
)
    requires
        call_ensures(CloseState::begin, (first, fresh), plan),
        *old(second) == *final(first),
        call_ensures(CloseState::begin, (second, other), again),
    ensures
        again == plan,
{
}

/// A close without a number is over exactly if the answer is in order.
pub proof fn law_plain_close_is_over_with_its_answer(
    state: &mut CloseState,
    once: Result<SupervisorResponsePayload, SupervisorRequestFailure>,
    res: PtyResult<()>,
)
    requires
        call_ensures(CloseState::finish_once, (state, once), res),
    ensures
        res is Ok <==> once is Ok && once->Ok_0@ is Empty,
        res is Err ==> final(state)@ == old(state)@,
        res is Ok && old(state)@.restore_info is UnixSocket
            ==> final(state)@.restore_info->UnixSocket_supervisor_status is Closed,
        once is Err && once->Err_0 is Response ==> res->Err_0@ == once->Err_0->Response_0@,
        once is Err && once->Err_0 is Transport ==> res->Err_0@ == once->Err_0->Transport_0@,
{
}

/// A new close knows its process and its capability, and has no number; a number can be given.
pub proof fn law_new_close_has_no_number(
    info: PtyRestoreInfo,
    capability: Option<[u8; 32]>,
    state: CloseState,
    numbered: &mut CloseState,
    number: u64,
    closed: &mut CloseState,
)
    requires
        call_ensures(CloseState::new, (info, capability), state),
        call_ensures(CloseState::set_operation, (numbered, number), ()),
        call_ensures(CloseState::mark_closed, (closed,), ()),
    ensures
        state@.restore_info == info@,
        state@.close_operation_id is None,
        state@.cleanup_capability is Some <==> capability is Some,
        capability is Some ==> state@.cleanup_capability->0 == capability->0@,
        final(numbered)@.close_operation_id == Some(number),
        final(numbered)@.restore_info == old(numbered)@.restore_info,
        final(numbered)@.cleanup_capability == old(numbered)@.cleanup_capability,
        old(closed)@.restore_info is UnixSocket
            ==> final(closed)@.restore_info->UnixSocket_supervisor_status is Closed,
{
}

/// A session that is not connected is closed with its number and its capability, and not without either.
pub proof fn law_disconnected_session_needs_both(
    state: &mut CloseState,
    res: PtyResult<(u64, [u8; 32])>,
    confirmed: bool,
    told: PtyResult<()>,
)
    requires
        call_ensures(CloseState::disconnected_close, (state,), res),
        call_ensures(disconnected_close_result, (confirmed,), told),
    ensures
        res is Ok <==> old(state)@.close_operation_id is Some && old(state)@.cleanup_capability is Some,
        res is Ok ==> Some((res->Ok_0).0) == old(state)@.close_operation_id && Some((res->Ok_0).1@) == old(
            state,
        )@.cleanup_capability,
        final(state)@.close_operation_id == old(state)@.close_operation_id,
        final(state)@.cleanup_capability == old(state)@.cleanup_capability,
        told is Ok <==> confirmed,
{
}

// ---------------------------------------------------------------------------
// Confirmation

/// A close whose answer was lost is confirmed if it can be: with a capability, at a socket. Otherwise it
/// fails as the answer did.
pub proof fn law_lost_close_is_confirmed_with_a_capability(
    info: &PtyRestoreInfo,
    capability: Option<[u8; 32]>,
    number: u64,
    once: Result<SupervisorResponsePayload, SupervisorRequestFailure>,
    res: PtyResult<CloseConfirmation>,
)
    requires
        call_ensures(CloseConfirmation::begin, (info, capability, number, once), res),
    ensures
        res is Ok <==> info@ is UnixSocket && capability is Some,
        res is Ok ==> (res->Ok_0)@.operation_id == number && !(res->Ok_0)@.confirmed_dead
            && (res->Ok_0)@.stage is Child,
        res is Err && info@ is Tmux && once is Err && once->Err_0 is Transport ==> res->Err_0@
            == once->Err_0->Transport_0@,
        res is Err && info@ is Tmux && once is Err && once->Err_0 is Response ==> res->Err_0@
            == once->Err_0->Response_0@,
        res is Ok && once is Err && once->Err_0 is Transport ==> (res->Ok_0)@.close_error == Some(
            once->Err_0->Transport_0@,
        ),
{
}

/// The child is looked at first. Its end is the end of the close; where it is not there yet, the supervisor
/// is asked, and out of time the first error stands.
pub proof fn law_end_of_the_child_ends_the_close(
    confirmation: &mut CloseConfirmation,
    in_time: bool,
    exited: bool,
    step: ConfirmStep,
    probing: &mut CloseConfirmation,
    gone: bool,
    probed: ConfirmStep,
)
    requires
        call_ensures(CloseConfirmation::on_child, (confirmation, in_time, exited), step),
        call_ensures(CloseConfirmation::on_probe, (probing, gone), probed),
    ensures
        step is Done <==> in_time && exited,
        step is Failed <==> !in_time,
        step is Failed ==> Some(step->Failed_0@) == old(confirmation)@.close_error,
        step is ProbeExit <==> in_time && !exited && old(confirmation)@.confirmed_dead,
        step is Connect <==> in_time && !exited && !old(confirmation)@.confirmed_dead,
        step is Done || step is Failed ==> final(confirmation)@.stage is Over,
        final(confirmation)@.operation_id == old(confirmation)@.operation_id,
        probed is Done <==> gone,
        probed is Connect <==> !gone,
{
}

/// The supervisor is asked for the close by its number; once it confirms, it is let go, and whatever else it
/// says is asked again after a pause.
pub proof fn law_supervisor_confirms_by_number(
    connecting: &mut CloseConfirmation,
    authenticated: bool,
    sent: ConfirmStep,
    asking: &mut CloseConfirmation,
    reply: PtyResult<SupervisorResponsePayload>,
    step: ConfirmStep,
    ending: &mut CloseConfirmation,
    last: PtyResult<SupervisorResponsePayload>,
    over: ConfirmStep,
)
    requires
        call_ensures(CloseConfirmation::on_connected, (connecting, authenticated), sent),
        call_ensures(CloseConfirmation::on_status, (asking, reply), step),
        call_ensures(CloseConfirmation::on_finalized, (ending, last), over),
    ensures
        authenticated ==> sent is Send && sent->Send_0.request == (SupervisorRequest::CloseStatus {
            operation_id: old(connecting)@.operation_id,
        }),
        !authenticated ==> sent is Pause && final(connecting)@.stage is Child,
        ({
            let dead = reply is Ok && reply->Ok_0@ == (PayloadModel::CloseStatus { confirmed_dead: true });
            &&& dead ==> step is Send && step->Send_0.request == (SupervisorRequest::FinalizeClose {
                operation_id: old(asking)@.operation_id,
            }) && final(asking)@.confirmed_dead && final(asking)@.stage is Finalize
            &&& !dead ==> step is Pause && final(asking)@.stage is Child && final(asking)@.confirmed_dead
                == old(asking)@.confirmed_dead
        }),
        over is Done <==> last is Ok && last->Ok_0@ is Empty,
        over is Pause <==> !(last is Ok && last->Ok_0@ is Empty),
        over is Pause ==> final(ending)@.stage is Child && final(ending)@.close_error == old(
            ending,
        )@.close_error,
{
}

} // verus!
