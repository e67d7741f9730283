//! Requests and responses: how each is named, and what is taken out of a response.

use crate::laws::places::number_from;
use crate::pty::supervisor::cleanup_auth::{cleanup_auth_proof, nonzero_from_bytes};
use crate::pty::supervisor::protocol::{
    ControllerIdentity, ResponseModel, SupervisorAttachSyncPayload, SupervisorRequest,
    SupervisorRequestCompletion, SupervisorRequestFailure, SupervisorResponse,
    SupervisorResponsePayload, SupervisorSnapshotPayload,
};
use crate::pty::{PtyError, PtyErrorModel, PtyResult, PtyTerminalFrame};
use vstd::prelude::*;
use vstd::utf8::encode_utf8;

verus! {

/// A response is a success with its payload, or a refusal with its message, and is taken apart as such.
pub proof fn law_response_is_taken_apart_as_built(
    payload: SupervisorResponsePayload,
    good: SupervisorResponse,
    message: &str,
    bad: SupervisorResponse,
    error: &PtyError,
    failed: SupervisorResponse,
    from_good: PtyResult<SupervisorResponsePayload>,
    from_bad: PtyResult<SupervisorResponsePayload>,
)
    requires
        call_ensures(SupervisorResponse::ok, (payload,), good),
        call_ensures(SupervisorResponse::err, (message,), bad),
        call_ensures(SupervisorResponse::failed, (error,), failed),
        call_ensures(SupervisorResponse::into_result, (good,), from_good),
        call_ensures(SupervisorResponse::into_result, (bad,), from_bad),
    ensures
        from_good == Ok::<SupervisorResponsePayload, PtyError>(payload),
        from_bad is Err,
        from_bad->Err_0@ == PtyErrorModel::Backend(message@),
        failed@ == ResponseModel::Refusal(error@.text()),
{
}

/// What came of a request: the answer of the supervisor, good or bad, or a failure of the connection.
pub proof fn law_completion_tells_who_failed(
    response: SupervisorResponse,
    answered: Result<SupervisorResponsePayload, SupervisorRequestFailure>,
    error: PtyError,
    broken: Result<SupervisorResponsePayload, SupervisorRequestFailure>,
)
    requires
        call_ensures(
            SupervisorRequestCompletion::into_result,
            (SupervisorRequestCompletion::Response(response),),
            answered,
        ),
        call_ensures(
            SupervisorRequestCompletion::into_result,
            (SupervisorRequestCompletion::TransportError(error),),
            broken,
        ),
    ensures
        response is Success ==> answered is Ok && answered->Ok_0 == response->payload,
        response is Refusal ==> answered is Err && answered->Err_0 is Response
            && answered->Err_0->Response_0@ == PtyErrorModel::Backend(response->message@),
        broken == Err::<SupervisorResponsePayload, SupervisorRequestFailure>(
            SupervisorRequestFailure::Transport(error),
        ),
{
}

/// A payload is taken out of a response exactly if it is of the kind that is expected, and as it is.
pub proof fn law_payload_is_taken_out_as_it_is(
    payload: SupervisorResponsePayload,
    empty: PtyResult<()>,
    snapshot: PtyResult<SupervisorSnapshotPayload>,
    sync: PtyResult<SupervisorAttachSyncPayload>,
    device: PtyResult<bool>,
    frames: PtyResult<(u64, Vec<PtyTerminalFrame>)>,
    challenge: PtyResult<(String, String)>,
    close: PtyResult<bool>,
)
    requires
        call_ensures(SupervisorResponsePayload::expect_empty, (payload,), empty),
        call_ensures(SupervisorResponsePayload::into_snapshot, (payload,), snapshot),
        call_ensures(SupervisorResponsePayload::into_attach_sync, (payload,), sync),
        call_ensures(SupervisorResponsePayload::into_device_attached, (payload,), device),
        call_ensures(SupervisorResponsePayload::into_terminal_frames, (payload,), frames),
        call_ensures(SupervisorResponsePayload::into_cleanup_auth_challenge, (payload,), challenge),
        call_ensures(SupervisorResponsePayload::into_close_status, (payload,), close),
    ensures
        empty is Ok <==> payload is Empty,
        snapshot is Ok <==> payload is Snapshot,
        snapshot is Ok ==> snapshot->Ok_0 == payload->Snapshot_0,
        sync is Ok <==> payload is AttachSync,
        sync is Ok ==> sync->Ok_0 == payload->AttachSync_0,
        device is Ok <==> payload is DeviceAttached,
        device is Ok ==> device->Ok_0 == payload->attached,
        frames is Ok <==> payload is TerminalFrames,
        frames is Ok ==> (frames->Ok_0).0 == payload->TerminalFrames_base_seq && (frames->Ok_0).1
            == payload->TerminalFrames_frames,
        challenge is Ok <==> payload is CleanupAuthChallenge,
        challenge is Ok ==> (challenge->Ok_0).0 == payload->server_nonce_base64 && (challenge->Ok_0).1
            == payload->server_proof_base64,
        close is Ok <==> payload is CloseStatus,
        close is Ok ==> close->Ok_0 == payload->confirmed_dead,
{
}

/// The status of a resume is a controller or none; half of one is an error.
pub proof fn law_resume_status_is_whole_or_none(
    payload: SupervisorResponsePayload,
    status: PtyResult<Option<ControllerIdentity>>,
)
    requires
        call_ensures(SupervisorResponsePayload::into_controller_resume_status, (payload,), status),
    ensures
        ({
            let id = payload->ControllerResumeStatus_controller_id;
            let connection = payload->ControllerResumeStatus_controller_connection_id;
            &&& status is Ok <==> payload is ControllerResumeStatus && (id is Some <==> connection is Some)
            &&& status is Ok && id is Some ==> status->Ok_0 == Some(
                ControllerIdentity { id: id->0, connection_id: connection->0 },
            )
            &&& status is Ok && id is None ==> status->Ok_0 is None
        }),
{
}

/// A request is called by its kind.
pub proof fn law_request_is_called_by_its_kind(request: &SupervisorRequest, label: &'static str)
    requires
        call_ensures(SupervisorRequest::kind_label, (request,), label),
    ensures
        *request is Attach ==> label@ == "attach"@,
        *request is AttachSync ==> label@ == "attach_sync"@,
        *request is CommitControllerResume ==> label@ == "commit_controller_resume"@,
        *request is ControllerResumeStatus ==> label@ == "controller_resume_status"@,
        *request is ResetAttachedDevices ==> label@ == "reset_attached_devices"@,
        *request is ResetAttachedDevicesForController ==> label@
            == "reset_attached_devices_for_controller"@,
        *request is AttachDevice ==> label@ == "attach_device"@,
        *request is DetachDevice ==> label@ == "detach_device"@,
        *request is DeviceAttached ==> label@ == "device_attached"@,
        *request is Input ==> label@ == "input"@,
        *request is Resize ==> label@ == "resize"@,
        *request is Snapshot ==> label@ == "snapshot"@,
        *request is TerminalSnapshot ==> label@ == "terminal_snapshot"@,
        *request is Close ==> label@ == "close"@,
        *request is CloseIdempotent ==> label@ == "close_idempotent"@,
        *request is InstallCleanupCapability ==> label@ == "install_cleanup_capability"@,
        *request is CleanupAuthChallenge ==> label@ == "cleanup_auth_challenge"@,
        *request is CleanupAuthenticate ==> label@ == "cleanup_authenticate"@,
        *request is CleanupClose ==> label@ == "cleanup_close"@,
        *request is CloseStatus ==> label@ == "close_status"@,
        *request is FinalizeClose ==> label@ == "finalize_close"@,
        *request is NaturalExitStatus ==> label@ == "natural_exit_status"@,
        *request is FinalizeNaturalExit ==> label@ == "finalize_natural_exit"@,
        *request is Ping ==> label@ == "ping"@,
{
}

/// A secret of 32 bytes, filled up to a block of the hash and mixed with a byte.
pub open spec fn mixed(secret: Seq<u8>, byte: u8) -> Seq<u8> {
    secret.map_values(|b: u8| byte ^ b) + Seq::new(32, |i: int| byte)
}

/// A proof is a keyed hash, as it is usual, of the purpose, the session and both nonces.
pub proof fn law_proof_is_a_keyed_hash(
    secret: &[u8; 32],
    session_id: &str,
    client: &[u8; 32],
    server: &[u8; 32],
    digest: [u8; 32],
    message: Seq<u8>,
)
    requires
        call_ensures(cleanup_auth_proof, (secret, session_id, client, server), digest),
        message == encode_utf8("termd-supervisor-cleanup-v1\0"@) + encode_utf8(session_id@).push(0)
            + client@ + server@,
    ensures
        digest@ == crate::codec::sha256_digest(
            mixed(secret@, 0x5c) + crate::codec::sha256_digest(mixed(secret@, 0x36) + message),
        ),
{
    let first = encode_utf8("termd-supervisor-cleanup-v1\0"@);
    assert(message =~= first + encode_utf8(session_id@) + seq![0u8] + client@ + server@);
    assert(mixed(secret@, 0x5c) =~= crate::pty::supervisor::cleanup_auth::key_block(secret@, 0x5c));
    assert(mixed(secret@, 0x36) =~= crate::pty::supervisor::cleanup_auth::key_block(secret@, 0x36));
}

/// A number is drawn from eight bytes, the lowest first, unless all of them are zero.
pub proof fn law_drawn_number_is_not_zero(bytes: &[u8], value: Option<u64>)
    requires
        call_ensures(nonzero_from_bytes, (bytes,), value),
        bytes@.len() == 8,
    ensures
        value is None <==> number_from(bytes@.reverse()) == 0,
        value is Some ==> value->0 == number_from(bytes@.reverse()),
{
    let turned = bytes@.reverse();
    assert(turned[0] == bytes@[7] && turned[1] == bytes@[6] && turned[2] == bytes@[5] && turned[3]
        == bytes@[4]);
    assert(turned[4] == bytes@[3] && turned[5] == bytes@[2] && turned[6] == bytes@[1] && turned[7]
        == bytes@[0]);
}

} // verus!
