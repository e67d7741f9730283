//! Requests to a supervisor: what each of them does for whom, and what it leaves alone.

use crate::codec::{base64_bytes, base64_text};
use crate::collections::lookup;
use crate::pty::supervisor::cleanup_auth::{
    constant_time_eq, decode_cleanup_capability, decode_cleanup_nonce, proof_digest,
};
use crate::pty::supervisor::connection::{
    ensure_current_controller, ensure_current_or_pending_controller,
    is_current_controller, ConnectionModel, EffectModel, Outbound, PendingReply, RequestContext,
    StepModel, SupervisorConnection, SupervisorReply, SupervisorStep,
};
use crate::pty::supervisor::protocol::{
    ControllerIdentity, PayloadModel, ResponseModel, SupervisorRequest,
};
use crate::pty::supervisor::screen::ScreenEmulator;
use crate::pty::supervisor::state::{StateModel, SupervisorState};
use crate::pty::{FrameModel, PtyResult};
use vstd::prelude::*;

verus! {

/// A connection is the one that controls the session.
pub open spec fn controls(state: StateModel, conn: ConnectionModel) -> bool {
    &&& conn.controller is Some
    &&& state.active_controller_id == Some(conn.controller->0.id)
    &&& state.active_controller_connection_id == Some(conn.controller->0.connection_id)
    &&& lookup(state.controllers, conn.controller->0.id) is Some
    &&& lookup(state.controllers, conn.controller->0.id)->0.connection_id
        == conn.controller->0.connection_id
}

/// The answer is that something was done, and no more.
pub open spec fn says_done(step: StepModel) -> bool {
    &&& step is Reply
    &&& step->Reply_0.response == ResponseModel::Success(PayloadModel::Empty)
    &&& !step->Reply_0.shutdown
}

/// The answer is that a request is refused.
pub open spec fn says_no(step: StepModel) -> bool {
    &&& step is Reply
    &&& step->Reply_0.response is Refusal
    &&& !step->Reply_0.shutdown
}

/// The answer is about a close.
pub open spec fn says_closed(step: StepModel, dead: bool) -> bool {
    &&& step is Reply
    &&& step->Reply_0.response == ResponseModel::Success(
        PayloadModel::CloseStatus { confirmed_dead: dead },
    )
    &&& !step->Reply_0.shutdown
}

/// The supervisor stops.
pub open spec fn says_stop(step: StepModel) -> bool {
    step is Reply && step->Reply_0.response == ResponseModel::Success(PayloadModel::Empty)
        && step->Reply_0.shutdown
}

/// A session but for its devices.
pub open spec fn same_but_devices(before: StateModel, after: StateModel) -> bool {
    after == (StateModel { attached_devices: after.attached_devices, ..before })
}

/// What only the controller may do. Anybody else is refused, and nothing changes.
pub proof fn law_only_the_controller_acts(
    conn: &mut SupervisorConnection,
    state: &mut SupervisorState,
    request: &SupervisorRequest,
    context: RequestContext,
    nonce: [u8; 32],
    step: SupervisorStep,
)
    requires
        call_ensures(
            SupervisorConnection::handle_request_with_nonce,
            (conn, state, request, context, nonce),
            step,
        ),
        *request is Input || *request is Resize || *request is AttachDevice || *request is DetachDevice
            || *request is DeviceAttached || *request is TerminalSnapshot || *request is Close
            || *request is CloseIdempotent || *request is ResetAttachedDevices,
        !controls(old(state)@, old(conn)@),
    ensures
        says_no(step@),
        final(state)@ == old(state)@,
        final(conn)@ == old(conn)@,
{
}

/// Input of the controller is written to the process as long as it runs, and nothing else happens.
pub proof fn law_input_is_written(
    conn: &mut SupervisorConnection,
    state: &mut SupervisorState,
    request: &SupervisorRequest,
    context: RequestContext,
    nonce: [u8; 32],
    step: SupervisorStep,
)
    requires
        call_ensures(
            SupervisorConnection::handle_request_with_nonce,
            (conn, state, request, context, nonce),
            step,
        ),
        *request is Input,
        controls(old(state)@, old(conn)@),
        !old(conn)@.cleanup_authenticated,
    ensures
        final(state)@ == old(state)@,
        final(conn)@ == old(conn)@,
        old(state)@.exited || base64_bytes(request->Input_data_base64@) is Err ==> says_no(step@),
        !old(state)@.exited && base64_bytes(request->Input_data_base64@) is Ok ==> step@
            == (StepModel::Perform {
            effect: EffectModel::Write(base64_bytes(request->Input_data_base64@)->Ok_0),
            pending: PendingReply::Written,
        }),
{
}

/// A size that the controller wants is given to the process; once the process has it, it is recorded as the
/// size of the terminal and everybody is told.
pub proof fn law_size_is_given_and_recorded<S: ScreenEmulator>(
    conn: &mut SupervisorConnection,
    state: &mut SupervisorState,
    request: &SupervisorRequest,
    context: RequestContext,
    nonce: [u8; 32],
    step: SupervisorStep,
    after: &mut SupervisorState,
    screen: S,
    pending: PendingReply,
    outcome: PtyResult<()>,
    res: (S, SupervisorReply),
)
    requires
        call_ensures(
            SupervisorConnection::handle_request_with_nonce,
            (conn, state, request, context, nonce),
            step,
        ),
        *request is Resize,
        controls(old(state)@, old(conn)@),
        !old(conn)@.cleanup_authenticated,
        old(state)@.terminal.next_seq < u64::MAX,
        *old(after) == *final(state),
        step@ is Perform,
        pending == step@->pending,
        call_ensures(
            SupervisorConnection::complete_request::<S>,
            (after, screen, pending, outcome),
            res,
        ),
    ensures
        step@->effect == EffectModel::Resize(request->Resize_size),
        final(state)@ == old(state)@,
        outcome is Ok ==> {
            &&& final(after)@.terminal.size == request->Resize_size
            &&& final(after)@.terminal.next_seq == old(state)@.terminal.next_seq + 1
            &&& (res.1)@.response == ResponseModel::Success(PayloadModel::Empty)
            &&& final(after)@.attached_devices == old(state)@.attached_devices
            &&& final(after)@.confirmed_close == old(state)@.confirmed_close
        },
        outcome is Err ==> {
            &&& final(after)@ == old(state)@
            &&& (res.1)@.response is Refusal
            &&& res.0 == screen
        },
{
}

/// Any request to resize that is refused is so by the authority of the connection alone: the controller's
/// own always asks the process.
pub proof fn law_resize_of_the_controller_asks_the_process(
    conn: &mut SupervisorConnection,
    state: &mut SupervisorState,
    request: &SupervisorRequest,
    context: RequestContext,
    nonce: [u8; 32],
    step: SupervisorStep,
)
    requires
        call_ensures(
            SupervisorConnection::handle_request_with_nonce,
            (conn, state, request, context, nonce),
            step,
        ),
        *request is Resize,
        controls(old(state)@, old(conn)@),
        !old(conn)@.cleanup_authenticated,
    ensures
        step@ is Perform,
{
}

/// The controller's devices: one is added, one is taken away, all are, and it is told who is there.
pub proof fn law_devices_follow_the_controller(
    conn: &mut SupervisorConnection,
    state: &mut SupervisorState,
    request: &SupervisorRequest,
    context: RequestContext,
    nonce: [u8; 32],
    step: SupervisorStep,
    device: Seq<char>,
)
    requires
        call_ensures(
            SupervisorConnection::handle_request_with_nonce,
            (conn, state, request, context, nonce),
            step,
        ),
        controls(old(state)@, old(conn)@),
        !old(conn)@.cleanup_authenticated,
    ensures
        *request is AttachDevice && old(state)@.exited ==> says_no(step@) && final(state)@ == old(state)@,
        *request is AttachDevice && !old(state)@.exited ==> {
            &&& says_done(step@)
            &&& same_but_devices(old(state)@, final(state)@)
            &&& final(state)@.attached_devices.contains(device) <==> old(
                state,
            )@.attached_devices.contains(device) || device == request->AttachDevice_device_id@
        },
        *request is DetachDevice ==> {
            &&& says_done(step@)
            &&& same_but_devices(old(state)@, final(state)@)
            &&& final(state)@.attached_devices.contains(device) <==> old(
                state,
            )@.attached_devices.contains(device) && device != request->DetachDevice_device_id@
        },
        *request is ResetAttachedDevices ==> {
            &&& says_done(step@)
            &&& same_but_devices(old(state)@, final(state)@)
            &&& !final(state)@.attached_devices.contains(device)
        },
        *request is DeviceAttached ==> {
            &&& final(state)@ == old(state)@
            &&& step@ is Reply
            &&& step@->Reply_0.response == ResponseModel::Success(
                PayloadModel::DeviceAttached {
                    attached: old(state)@.attached_devices.contains(
                        request->DeviceAttached_device_id@,
                    ),
                },
            )
        },
{
}

/// Devices are also reset for the controller that is named, if it is the active one, on any connection.
pub proof fn law_named_controller_resets_its_devices(
    conn: &mut SupervisorConnection,
    state: &mut SupervisorState,
    request: &SupervisorRequest,
    context: RequestContext,
    nonce: [u8; 32],
    step: SupervisorStep,
    device: Seq<char>,
)
    requires
        call_ensures(
            SupervisorConnection::handle_request_with_nonce,
            (conn, state, request, context, nonce),
            step,
        ),
        *request is ResetAttachedDevicesForController,
        !old(conn)@.cleanup_authenticated,
    ensures
        ({
            let named = ControllerIdentity {
                id: request->controller_id,
                connection_id: request->controller_connection_id,
            };
            let active = controls(
                old(state)@,
                ConnectionModel { controller: Some(named), ..old(conn)@ },
            );
            &&& final(conn)@ == old(conn)@
            &&& active ==> says_done(step@) && same_but_devices(old(state)@, final(state)@)
                && !final(state)@.attached_devices.contains(device)
            &&& !active ==> says_no(step@) && final(state)@ == old(state)@
        }),
{
}

/// A connection that is not attached yet attaches to its session. It is then the controller, the only one,
/// under new numbers, and gets the size, the state and the screen of the session.
pub proof fn law_attach_gives_control_and_the_screen(
    conn: &mut SupervisorConnection,
    state: &mut SupervisorState,
    request: &SupervisorRequest,
    context: RequestContext,
    nonce: [u8; 32],
    step: SupervisorStep,
)
    requires
        call_ensures(
            SupervisorConnection::handle_request_with_nonce,
            (conn, state, request, context, nonce),
            step,
        ),
        !old(conn)@.cleanup_authenticated,
        *request is AttachSync,
        request->AttachSync_resume_controller_id is None,
        old(state)@.terminal.next_seq > 0,
    ensures
        ({
            let allowed = old(conn)@.controller is None && request->AttachSync_session_id@ == old(
                conn,
            )@.session_id && !old(state)@.exited;
            &&& !allowed ==> says_no(step@) && final(state)@ == old(state)@ && final(conn)@ == old(conn)@
            &&& allowed ==> {
                let sync = step@->Reply_0.response->Success_0->AttachSync_0;
                let who = ControllerIdentity {
                    id: old(state)@.next_controller_id,
                    connection_id: old(state)@.next_controller_connection_id,
                };
                &&& final(conn)@.controller == Some(who)
                &&& final(state)@.active_controller_id == Some(who.id)
                &&& final(state)@.active_controller_connection_id == Some(who.connection_id)
                &&& final(state)@.controller_resume_lease_id == Some(who.id)
                &&& final(state)@.terminal == old(state)@.terminal
                &&& final(state)@.attached_devices == old(state)@.attached_devices
                &&& final(state)@.lanes == old(state)@.lanes
                &&& step@ is Reply
                &&& !step@->Reply_0.shutdown
                &&& step@->Reply_0.response is Success
                &&& step@->Reply_0.response->Success_0 is AttachSync
                &&& sync.controller_id == who.id
                &&& sync.controller_connection_id == who.connection_id
                &&& sync.snapshot.size == old(state)@.terminal.size
                &&& sync.snapshot.process_id == context.process_id
                &&& !sync.snapshot.exited
                &&& sync.snapshot.retained_output.len() == 0
                &&& sync.base_seq == old(state)@.terminal.next_seq - 1
                &&& step@->Reply_0.suppress == Some(sync.base_seq)
                &&& request->AttachSync_last_terminal_seq is None ==> sync.frames == seq![
                    FrameModel::Snapshot {
                        base_seq: sync.base_seq,
                        size: old(state)@.terminal.size,
                        data: context.screen@,
                    },
                ]
            }
        }),
{
}

/// The older way to attach gives control too, and shows the screen itself.
pub proof fn law_plain_attach_shows_the_screen(
    conn: &mut SupervisorConnection,
    state: &mut SupervisorState,
    request: &SupervisorRequest,
    context: RequestContext,
    nonce: [u8; 32],
    step: SupervisorStep,
)
    requires
        call_ensures(
            SupervisorConnection::handle_request_with_nonce,
            (conn, state, request, context, nonce),
            step,
        ),
        !old(conn)@.cleanup_authenticated,
        *request is Attach,
        old(state)@.terminal.next_seq > 0,
    ensures
        ({
            let allowed = old(conn)@.controller is None && request->Attach_session_id@ == old(
                conn,
            )@.session_id;
            &&& !allowed ==> says_no(step@) && final(state)@ == old(state)@ && final(conn)@ == old(conn)@
            &&& allowed ==> {
                let shown = step@->Reply_0.response->Success_0->Snapshot_0;
                &&& final(conn)@.controller == Some(
                    ControllerIdentity {
                        id: old(state)@.next_controller_id,
                        connection_id: old(state)@.next_controller_connection_id,
                    },
                )
                &&& final(state)@.active_controller_id == Some(old(state)@.next_controller_id)
                &&& final(state)@.terminal == old(state)@.terminal
                &&& step@ is Reply
                &&& step@->Reply_0.response is Success
                &&& step@->Reply_0.response->Success_0 is Snapshot
                &&& shown.size == old(state)@.terminal.size
                &&& shown.process_id == context.process_id
                &&& shown.exited == old(state)@.exited
                &&& step@->Reply_0.suppress == Some((old(state)@.terminal.next_seq - 1) as u64)
            }
        }),
{
}

/// Looking at the session changes nothing, and shows it as it is.
pub proof fn law_snapshot_shows_the_session(
    conn: &mut SupervisorConnection,
    state: &mut SupervisorState,
    request: &SupervisorRequest,
    context: RequestContext,
    nonce: [u8; 32],
    step: SupervisorStep,
)
    requires
        call_ensures(
            SupervisorConnection::handle_request_with_nonce,
            (conn, state, request, context, nonce),
            step,
        ),
        !old(conn)@.cleanup_authenticated,
        old(state)@.terminal.next_seq > 0,
        controls(old(state)@, old(conn)@),
        *request is Snapshot || *request is TerminalSnapshot,
    ensures
        final(state)@ == old(state)@,
        final(conn)@ == old(conn)@,
        step@ is Reply,
        step@->Reply_0.response is Success,
        *request is Snapshot ==> {
            let shown = step@->Reply_0.response->Success_0->Snapshot_0;
            &&& step@->Reply_0.response->Success_0 is Snapshot
            &&& shown.size == old(state)@.terminal.size
            &&& shown.process_id == context.process_id
            &&& shown.exited == old(state)@.exited
            &&& shown.retained_output == context.screen@
        },
        *request is TerminalSnapshot ==> {
            let shown = step@->Reply_0.response->Success_0;
            &&& shown is TerminalFrames
            &&& shown->TerminalFrames_base_seq == old(state)@.terminal.next_seq - 1
            &&& step@->Reply_0.suppress == Some(shown->TerminalFrames_base_seq)
            &&& request->TerminalSnapshot_last_terminal_seq is None ==> shown->TerminalFrames_frames
                == seq![
                FrameModel::Snapshot {
                    base_seq: shown->TerminalFrames_base_seq,
                    size: old(state)@.terminal.size,
                    data: context.screen@,
                },
            ]
        },
{
}

/// The controller that had the session last may prepare to take it back on a new connection: nothing of the
/// session changes but the count of connections, until the resume is committed.
pub proof fn law_resume_is_prepared_and_committed(
    conn: &mut SupervisorConnection,
    state: &mut SupervisorState,
    request: &SupervisorRequest,
    context: RequestContext,
    nonce: [u8; 32],
    step: SupervisorStep,
    then: &mut SupervisorConnection,
    after: &mut SupervisorState,
    commit: &SupervisorRequest,
    later: RequestContext,
    other_nonce: [u8; 32],
    answer: SupervisorStep,
)
    requires
        call_ensures(
            SupervisorConnection::handle_request_with_nonce,
            (conn, state, request, context, nonce),
            step,
        ),
        !old(conn)@.cleanup_authenticated,
        old(conn)@.controller is None,
        *request is AttachSync,
        request->AttachSync_session_id@ == old(conn)@.session_id,
        !old(state)@.exited,
        request->AttachSync_resume_controller_id is Some,
        *old(then) == *final(conn),
        *old(after) == *final(state),
        *commit is CommitControllerResume,
        lookup(old(state)@.committed_resumes, commit->CommitControllerResume_transaction_id) is None,
        call_ensures(
            SupervisorConnection::handle_request_with_nonce,
            (then, after, commit, later, other_nonce),
            answer,
        ),
    ensures
        ({
            let id = request->AttachSync_resume_controller_id->0;
            let who = ControllerIdentity {
                id,
                connection_id: old(state)@.next_controller_connection_id,
            };
            let allowed = 0 < id < old(state)@.next_controller_id && old(
                state,
            )@.controller_resume_lease_id == Some(id) && (old(state)@.active_controller_id is None
                || old(state)@.active_controller_id == Some(id));
            &&& !allowed ==> says_no(step@) && final(state)@ == old(state)@ && final(conn)@ == old(conn)@
            &&& allowed ==> {
                &&& step@ is Reply && step@->Reply_0.response is Success
                &&& final(conn)@.controller is None
                &&& final(conn)@.pending_resume == Some(who)
                &&& final(state)@.active_controller_id == old(state)@.active_controller_id
                &&& final(state)@.active_controller_connection_id == old(
                    state,
                )@.active_controller_connection_id
                &&& final(state)@.controllers == old(state)@.controllers
                &&& final(then)@.controller == Some(who)
                &&& final(then)@.pending_resume is None
                &&& final(after)@.active_controller_id == Some(who.id)
                &&& final(after)@.active_controller_connection_id == Some(who.connection_id)
                &&& final(after)@.terminal == old(state)@.terminal
                &&& answer@ is Reply
                &&& answer@->Reply_0.response == ResponseModel::Success(
                    PayloadModel::ControllerResumeStatus {
                        controller_id: Some(who.id),
                        controller_connection_id: Some(who.connection_id),
                    },
                )
                &&& lookup(
                    final(after)@.committed_resumes,
                    commit->CommitControllerResume_transaction_id,
                ) == Some(who)
            }
        }),
{
    crate::collections::lemma_with(
        final(state)@.committed_resumes,
        commit->CommitControllerResume_transaction_id,
        ControllerIdentity {
            id: request->AttachSync_resume_controller_id->0,
            connection_id: old(state)@.next_controller_connection_id,
        },
        commit->CommitControllerResume_transaction_id,
    );
}

/// A commit without a candidate, or under a number of another controller's, is refused. What became of a
/// commit can be asked by anybody.
pub proof fn law_commits_can_be_looked_up(
    conn: &mut SupervisorConnection,
    state: &mut SupervisorState,
    request: &SupervisorRequest,
    context: RequestContext,
    nonce: [u8; 32],
    step: SupervisorStep,
)
    requires
        call_ensures(
            SupervisorConnection::handle_request_with_nonce,
            (conn, state, request, context, nonce),
            step,
        ),
        !old(conn)@.cleanup_authenticated,
    ensures
        *request is CommitControllerResume && old(conn)@.pending_resume is None ==> says_no(step@)
            && final(state)@ == old(state)@ && final(conn)@ == old(conn)@,
        *request is CommitControllerResume && old(conn)@.pending_resume is Some ==> {
            let known = lookup(
                old(state)@.committed_resumes,
                request->CommitControllerResume_transaction_id,
            );
            known is Some && known->0.id != old(conn)@.pending_resume->0.id ==> says_no(step@)
                && final(state)@ == old(state)@ && final(conn)@ == old(conn)@
        },
        *request is ControllerResumeStatus ==> {
            let known = lookup(
                old(state)@.committed_resumes,
                request->ControllerResumeStatus_transaction_id,
            );
            let told = step@->Reply_0.response->Success_0;
            &&& final(state)@ == old(state)@ && final(conn)@ == old(conn)@
            &&& step@ is Reply && step@->Reply_0.response is Success
            &&& told is ControllerResumeStatus
            &&& known is None ==> told->ControllerResumeStatus_controller_id is None
                && told->ControllerResumeStatus_controller_connection_id is None
            &&& known is Some ==> told->ControllerResumeStatus_controller_id == Some(known->0.id)
                && told->ControllerResumeStatus_controller_connection_id == Some(known->0.connection_id)
        },
{
}

/// A close of the controller ends the process, and the supervisor stops afterwards; one under a number ends
/// it, and stays to say so, but only once.
pub proof fn law_close_ends_the_process(
    conn: &mut SupervisorConnection,
    state: &mut SupervisorState,
    request: &SupervisorRequest,
    context: RequestContext,
    nonce: [u8; 32],
    step: SupervisorStep,
)
    requires
        call_ensures(
            SupervisorConnection::handle_request_with_nonce,
            (conn, state, request, context, nonce),
            step,
        ),
        !old(conn)@.cleanup_authenticated,
        controls(old(state)@, old(conn)@),
        *request is Close || *request is CloseIdempotent,
    ensures
        final(state)@ == old(state)@,
        final(conn)@ == old(conn)@,
        *request is Close ==> step@ == (StepModel::Perform {
            effect: EffectModel::Terminate,
            pending: PendingReply::Closed,
        }),
        *request is CloseIdempotent && old(state)@.confirmed_close == Some(
            request->CloseIdempotent_operation_id,
        ) ==> says_closed(step@, true),
        *request is CloseIdempotent && old(state)@.confirmed_close != Some(
            request->CloseIdempotent_operation_id,
        ) ==> step@ == (StepModel::Perform {
            effect: EffectModel::TerminateAndWait,
            pending: PendingReply::ConfirmedDead(request->CloseIdempotent_operation_id),
        }),
{
}

/// What was done to the process decides the answer: a failure is passed on and nothing is recorded.
pub proof fn law_work_of_the_process_is_answered<S: ScreenEmulator>(
    state: &mut SupervisorState,
    screen: S,
    pending: PendingReply,
    outcome: PtyResult<()>,
    res: (S, SupervisorReply),
)
    requires
        call_ensures(
            SupervisorConnection::complete_request::<S>,
            (state, screen, pending, outcome),
            res,
        ),
    ensures
        (res.1)@.suppress is None,
        outcome is Err ==> {
            &&& final(state)@ == old(state)@
            &&& res.0 == screen
            &&& (res.1)@.response == ResponseModel::Refusal(outcome->Err_0@.text())
            &&& !(res.1)@.shutdown
        },
        outcome is Ok && pending is Written ==> {
            &&& final(state)@ == old(state)@
            &&& res.0 == screen
            &&& (res.1)@.response == ResponseModel::Success(PayloadModel::Empty)
            &&& !(res.1)@.shutdown
        },
        outcome is Ok && pending is Closed ==> {
            &&& final(state)@ == old(state)@
            &&& res.0 == screen
            &&& (res.1)@.response == ResponseModel::Success(PayloadModel::Empty)
            &&& (res.1)@.shutdown
        },
        outcome is Ok && pending is ConfirmedDead ==> {
            &&& final(state)@ == (StateModel {
                confirmed_close: Some(pending->ConfirmedDead_0),
                ..old(state)@
            })
            &&& res.0 == screen
            &&& (res.1)@.response == ResponseModel::Success(
                PayloadModel::CloseStatus { confirmed_dead: true },
            )
            &&& !(res.1)@.shutdown
        },
        outcome is Ok && pending is Resized ==> {
            &&& call_ensures(S::resize, (screen, pending->Resized_0), res.0)
            &&& (res.1)@.response == ResponseModel::Success(PayloadModel::Empty)
            &&& !(res.1)@.shutdown
            &&& final(state)@.terminal.size == pending->Resized_0
        },
{
}

/// A close can be asked about, and the supervisor stopped after it, by those who may close; a session that
/// has ended by itself, by anybody.
pub proof fn law_end_can_be_asked_for(
    conn: &mut SupervisorConnection,
    state: &mut SupervisorState,
    request: &SupervisorRequest,
    context: RequestContext,
    nonce: [u8; 32],
    step: SupervisorStep,
)
    requires
        call_ensures(
            SupervisorConnection::handle_request_with_nonce,
            (conn, state, request, context, nonce),
            step,
        ),
    ensures
        ({
            let may_close = old(conn)@.controller is Some || old(conn)@.cleanup_authenticated;
            &&& *request is CloseStatus || *request is FinalizeClose || *request is NaturalExitStatus
                || *request is FinalizeNaturalExit || *request is Ping ==> final(state)@ == old(state)@
                && final(conn)@ == old(conn)@
            &&& *request is CloseStatus && !may_close ==> says_no(step@)
            &&& *request is CloseStatus && may_close ==> says_closed(
                step@,
                old(state)@.confirmed_close == Some(request->CloseStatus_operation_id),
            )
            &&& *request is FinalizeClose && may_close && old(state)@.confirmed_close == Some(
                request->FinalizeClose_operation_id,
            ) ==> says_stop(step@)
            &&& *request is FinalizeClose && !(may_close && old(state)@.confirmed_close == Some(
                request->FinalizeClose_operation_id,
            )) ==> says_no(step@)
            &&& *request is NaturalExitStatus && !old(conn)@.cleanup_authenticated ==> says_closed(
                step@,
                old(state)@.exited,
            )
            &&& *request is FinalizeNaturalExit && !old(conn)@.cleanup_authenticated ==> {
                &&& old(state)@.exited ==> says_stop(step@)
                &&& !old(state)@.exited ==> says_no(step@)
            }
            &&& *request is Ping && (old(conn)@.cleanup_authenticated || controls(
                old(state)@,
                old(conn)@,
            )) ==> says_done(step@)
            &&& *request is Ping && old(conn)@.controller is None && old(conn)@.pending_resume is None
                && !old(conn)@.cleanup_authenticated ==> says_no(step@)
        }),
{
}

/// The active controller installs a capability for its own session; it is then the session's.
pub proof fn law_installed_capability_is_the_sessions(
    conn: &mut SupervisorConnection,
    state: &mut SupervisorState,
    request: &SupervisorRequest,
    context: RequestContext,
    nonce: [u8; 32],
    step: SupervisorStep,
)
    requires
        call_ensures(
            SupervisorConnection::handle_request_with_nonce,
            (conn, state, request, context, nonce),
            step,
        ),
        !old(conn)@.cleanup_authenticated,
        *request is InstallCleanupCapability,
    ensures
        ({
            let given = base64_bytes(request->InstallCleanupCapability_capability_base64@);
            let allowed = request->InstallCleanupCapability_session_id@ == old(conn)@.session_id
                && given is Ok && given->Ok_0.len() == 32 && controls(old(state)@, old(conn)@);
            &&& final(conn)@ == old(conn)@
            &&& !allowed ==> says_no(step@) && final(state)@ == old(state)@
            &&& allowed ==> {
                &&& says_done(step@)
                &&& final(state)@.cleanup_capability == Some(given->Ok_0)
                &&& !final(state)@.cleanup_capability_replaceable
                &&& final(state)@ == (StateModel {
                    cleanup_capability: final(state)@.cleanup_capability,
                    cleanup_capability_replaceable: false,
                    ..old(state)@
                })
            }
        }),
{
}

/// A challenge is answered with the nonce that was drawn and a proof that only the owner of the capability
/// could give for both nonces; it opens the authentication and changes nothing of the session.
pub proof fn law_challenge_is_answered_with_a_proof(
    conn: &mut SupervisorConnection,
    state: &mut SupervisorState,
    request: &SupervisorRequest,
    context: RequestContext,
    nonce: [u8; 32],
    step: SupervisorStep,
)
    requires
        call_ensures(
            SupervisorConnection::handle_request_with_nonce,
            (conn, state, request, context, nonce),
            step,
        ),
        *request is CleanupAuthChallenge,
    ensures
        ({
            let given = base64_bytes(request->CleanupAuthChallenge_client_nonce_base64@);
            let allowed = old(conn)@.controller is None && request->CleanupAuthChallenge_session_id@
                == old(conn)@.session_id && given is Ok && given->Ok_0.len() == 32 && old(
                state,
            )@.cleanup_capability is Some;
            let told = step@->Reply_0.response->Success_0;
            &&& final(state)@ == old(state)@
            &&& !allowed ==> says_no(step@) && final(conn)@ == old(conn)@
            &&& allowed ==> {
                &&& final(conn)@.pending_nonces == Some((given->Ok_0, nonce@))
                &&& final(conn)@.cleanup_authenticated == old(conn)@.cleanup_authenticated
                &&& final(conn)@.controller is None
                &&& step@ is Reply && step@->Reply_0.response is Success
                &&& told is CleanupAuthChallenge
                &&& told->CleanupAuthChallenge_server_nonce_base64 == base64_text(nonce@)
                &&& told->CleanupAuthChallenge_server_proof_base64 == base64_text(
                    proof_digest(
                        old(state)@.cleanup_capability->0,
                        old(conn)@.session_id,
                        given->Ok_0,
                        nonce@,
                    ),
                )
            }
        }),
{
}

/// Whoever shows the capability with both nonces of the open challenge is authenticated, nobody else is,
/// and the challenge is spent either way.
pub proof fn law_capability_with_both_nonces_authenticates(
    conn: &mut SupervisorConnection,
    state: &mut SupervisorState,
    request: &SupervisorRequest,
    context: RequestContext,
    nonce: [u8; 32],
    step: SupervisorStep,
)
    requires
        call_ensures(
            SupervisorConnection::handle_request_with_nonce,
            (conn, state, request, context, nonce),
            step,
        ),
        *request is CleanupAuthenticate,
        !old(conn)@.cleanup_authenticated,
        old(conn)@.pending_nonces is Some ==> (old(conn)@.pending_nonces->0).0.len() == 32 && (old(
            conn,
        )@.pending_nonces->0).1.len() == 32,
        old(state)@.cleanup_capability is Some ==> old(state)@.cleanup_capability->0.len() == 32,
    ensures
        ({
            let shown = base64_bytes(request->CleanupAuthenticate_capability_base64@);
            let client = base64_bytes(request->CleanupAuthenticate_client_nonce_base64@);
            let server = base64_bytes(request->CleanupAuthenticate_server_nonce_base64@);
            let right = old(conn)@.controller is None && request->CleanupAuthenticate_session_id@
                == old(conn)@.session_id && old(conn)@.pending_nonces is Some && client is Ok
                && client->Ok_0 == (old(conn)@.pending_nonces->0).0 && server is Ok && server->Ok_0
                == (old(conn)@.pending_nonces->0).1 && old(state)@.cleanup_capability is Some
                && shown is Ok && shown->Ok_0 == old(state)@.cleanup_capability->0;
            &&& final(conn)@.cleanup_authenticated <==> right
            &&& final(conn)@.pending_nonces is None
            &&& final(conn)@.controller == old(conn)@.controller
            &&& right ==> says_done(step@) && !final(state)@.cleanup_capability_replaceable
            &&& !right ==> says_no(step@) && final(state)@ == old(state)@
            &&& final(state)@.cleanup_capability == old(state)@.cleanup_capability
        }),
{
}

/// An authenticated connection ends the process of its own session, once; under another number than the one
/// that was confirmed it is refused.
pub proof fn law_authenticated_close(
    conn: &mut SupervisorConnection,
    state: &mut SupervisorState,
    request: &SupervisorRequest,
    context: RequestContext,
    nonce: [u8; 32],
    step: SupervisorStep,
)
    requires
        call_ensures(
            SupervisorConnection::handle_request_with_nonce,
            (conn, state, request, context, nonce),
            step,
        ),
        *request is CleanupClose,
    ensures
        ({
            let number = request->CleanupClose_operation_id;
            let allowed = old(conn)@.cleanup_authenticated && request->CleanupClose_session_id@ == old(
                conn,
            )@.session_id;
            &&& final(conn)@ == old(conn)@
            &&& !allowed ==> says_no(step@) && final(state)@ == old(state)@
            &&& allowed && old(state)@.confirmed_close == Some(number) ==> says_closed(step@, true)
                && final(state)@ == old(state)@
            &&& allowed && old(state)@.confirmed_close is Some && old(state)@.confirmed_close != Some(
                number,
            ) ==> says_no(step@) && final(state)@ == old(state)@
            &&& allowed && old(state)@.confirmed_close is None ==> step@ == (StepModel::Perform {
                effect: EffectModel::TerminateAndWait,
                pending: PendingReply::ConfirmedDead(number),
            }) && final(state)@ == (StateModel {
                cleanup_capability_replaceable: false,
                ..old(state)@
            })
        }),
{
}

/// Which requests an authenticated cleanup connection may make.
pub proof fn law_cleanup_connection_asks_only_for_cleanup(request: &SupervisorRequest, allowed: bool, shows: bool)
    requires
        call_ensures(SupervisorRequest::allowed_in_restricted_mode, (request,), allowed),
        call_ensures(SupervisorRequest::shows_screen, (request,), shows),
    ensures
        allowed <==> *request is CleanupAuthChallenge || *request is CleanupAuthenticate
            || *request is CleanupClose || *request is CloseStatus || *request is FinalizeClose
            || *request is Ping,
        shows <==> *request is Attach || *request is AttachSync || *request is Snapshot
            || *request is TerminalSnapshot,
{
}

/// A new connection belongs to its session and its lane, and has no rights yet.
pub proof fn law_new_connection_has_no_rights(session_id: &str, lane_id: u64, conn: SupervisorConnection)
    requires
        call_ensures(SupervisorConnection::new, (session_id, lane_id), conn),
    ensures
        conn@.session_id == session_id@,
        conn@.lane_id == lane_id,
        conn@.controller is None,
        conn@.pending_resume is None,
        conn@.committed_transaction is None,
        conn@.pending_nonces is None,
        !conn@.cleanup_authenticated,
{
}

/// Who is the active controller, and who may still become it.
pub proof fn law_control_is_checked(
    state: &SupervisorState,
    controller: Option<ControllerIdentity>,
    candidate: Option<ControllerIdentity>,
    is_current: bool,
    current: PtyResult<()>,
    either: PtyResult<()>,
)
    requires
        call_ensures(is_current_controller, (state, controller), is_current),
        call_ensures(ensure_current_controller, (state, controller), current),
        call_ensures(ensure_current_or_pending_controller, (state, controller, candidate), either),
    ensures
        ({
            let active = controller is Some && state@.active_controller_id == Some(controller->0.id)
                && state@.active_controller_connection_id == Some(controller->0.connection_id)
                && lookup(state@.controllers, controller->0.id) is Some && lookup(
                state@.controllers,
                controller->0.id,
            )->0.connection_id == controller->0.connection_id;
            let waiting = controller is None && candidate is Some && state@.controller_resume_lease_id
                == Some(candidate->0.id) && (state@.active_controller_id is None
                || state@.active_controller_id == Some(candidate->0.id));
            &&& is_current <==> active
            &&& current is Ok <==> active
            &&& either is Ok <==> active || waiting
        }),
{
}

/// Frames leave a lane in order, one at a time, to the controller alone; a lane that overflowed fails.
pub proof fn law_frames_leave_in_order(
    conn: &SupervisorConnection,
    state: &mut SupervisorState,
    outbound: Outbound,
)
    requires
        call_ensures(SupervisorConnection::poll_outbound, (conn, state), outbound),
    ensures
        ({
            let lane = old(state)@.lanes[conn@.lane_id];
            let present = old(state)@.lanes.contains_key(conn@.lane_id);
            let waiting = present && !lane.overflowed && lane.frames.len() > 0;
            &&& present && lane.overflowed ==> outbound is Failed && final(state)@ == old(state)@
            &&& !waiting && !(present && lane.overflowed) ==> outbound is Idle && final(state)@ == old(
                state,
            )@
            &&& waiting ==> {
                &&& final(state)@.lanes.contains_key(conn@.lane_id)
                &&& final(state)@.lanes[conn@.lane_id].frames == lane.frames.skip(1)
                &&& !final(state)@.lanes[conn@.lane_id].overflowed
                &&& final(state)@.terminal == old(state)@.terminal
                &&& final(state)@.controllers == old(state)@.controllers
                &&& forall|other: u64|
                    #![trigger final(state)@.lanes.contains_key(other)]
                    other != conn@.lane_id ==> final(state)@.lanes.contains_key(other) == old(
                        state,
                    )@.lanes.contains_key(other) && (old(state)@.lanes.contains_key(other)
                        ==> final(state)@.lanes[other] == old(state)@.lanes[other])
            }
            &&& waiting && controls(old(state)@, conn@) ==> outbound is Frame
                && outbound->Frame_0 is TerminalFrame && outbound->Frame_0->TerminalFrame_frame@
                == lane.frames[0]
            &&& waiting && !controls(old(state)@, conn@) ==> outbound is Finished
        }),
{
}

/// A connection that ends leaves: its lane is closed and it controls nothing any more, unless it had
/// taken control over by a commit, which its owner may repeat.
pub proof fn law_ended_connection_leaves(conn: &SupervisorConnection, state: &mut SupervisorState)
    requires
        call_ensures(SupervisorConnection::finish, (conn, state), ()),
    ensures
        ({
            let committed = conn@.controller is Some && conn@.committed_transaction is Some && lookup(
                old(state)@.committed_resumes,
                conn@.committed_transaction->0,
            ) == conn@.controller;
            let active = conn@.controller is Some && old(state)@.active_controller_id == Some(
                conn@.controller->0.id,
            ) && old(state)@.active_controller_connection_id == Some(
                conn@.controller->0.connection_id,
            );
            &&& !final(state)@.lanes.contains_key(conn@.lane_id)
            &&& forall|other: u64|
                #![trigger final(state)@.lanes.contains_key(other)]
                other != conn@.lane_id ==> final(state)@.lanes.contains_key(other) == old(
                    state,
                )@.lanes.contains_key(other) && (old(state)@.lanes.contains_key(other)
                    ==> final(state)@.lanes[other] == old(state)@.lanes[other])
            &&& active && !committed ==> final(state)@.active_controller_id is None
                && final(state)@.active_controller_connection_id is None
            &&& !active || committed ==> final(state)@.active_controller_id == old(
                state,
            )@.active_controller_id && final(state)@.active_controller_connection_id == old(
                state,
            )@.active_controller_connection_id
            &&& final(state)@.controller_resume_lease_id == old(state)@.controller_resume_lease_id
            &&& final(state)@.terminal == old(state)@.terminal
            &&& final(state)@.attached_devices == old(state)@.attached_devices
            &&& final(state)@.terminal_attaches == old(state)@.terminal_attaches
            &&& final(state)@.committed_resumes == old(state)@.committed_resumes
            &&& final(state)@.confirmed_close == old(state)@.confirmed_close
            &&& final(state)@.cleanup_capability == old(state)@.cleanup_capability
            &&& final(state)@.exited == old(state)@.exited
        }),
{
}

/// Secrets are compared as a whole, and read from their text if they have the right length.
pub proof fn law_secrets_are_compared_and_read(
    left: &[u8],
    right: &[u8],
    equal: bool,
    text: &str,
    capability: PtyResult<[u8; 32]>,
    nonce: PtyResult<[u8; 32]>,
)
    requires
        call_ensures(constant_time_eq, (left, right), equal),
        call_ensures(decode_cleanup_capability, (text,), capability),
        call_ensures(decode_cleanup_nonce, (text,), nonce),
    ensures
        equal <==> left@ == right@,
        capability is Ok <==> base64_bytes(text@) is Ok && base64_bytes(text@)->Ok_0.len() == 32,
        nonce is Ok <==> base64_bytes(text@) is Ok && base64_bytes(text@)->Ok_0.len() == 32,
        capability is Ok ==> capability->Ok_0@ == base64_bytes(text@)->Ok_0,
        nonce is Ok ==> nonce->Ok_0@ == base64_bytes(text@)->Ok_0,
{
}

/// A challenge is met, and a fresh nonce drawn for it, exactly if it comes from somebody who is not the
/// controller, is about this session, brings a nonce, and there is a capability to prove.
pub proof fn law_challenge_is_met_for_this_session(
    conn: &SupervisorConnection,
    state: &SupervisorState,
    request: &SupervisorRequest,
    text: &str,
    nonce: PtyResult<[u8; 32]>,
    meets: bool,
    controller: Option<ControllerIdentity>,
)
    requires
        call_ensures(SupervisorConnection::meets_challenge, (conn, state, request), meets),
        call_ensures(SupervisorConnection::controller_identity, (conn,), controller),
        *request is CleanupAuthChallenge ==> text@
            == request->CleanupAuthChallenge_client_nonce_base64@ && call_ensures(
            decode_cleanup_nonce,
            (text,),
            nonce,
        ),
    ensures
        controller == conn@.controller,
        meets ==> *request is CleanupAuthChallenge,
        *request is CleanupAuthChallenge ==> (meets <==> controller is None
            && state@.cleanup_capability is Some && request->CleanupAuthChallenge_session_id@
            == conn@.session_id && nonce is Ok),
{
}

} // verus!
