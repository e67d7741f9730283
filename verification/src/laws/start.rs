//! Starting a supervisor: the grant that it needs, the order of its start, and the frames that it speaks.

use crate::pty::supervisor::frame_codec::{
    checked_supervisor_payload_len, frame_supervisor_payload, law_frame_round_trip,
    invalid_data, law_length_prefix_round_trip, supervisor_frame_too_large,
    supervisor_payload_length_prefix, supervisor_serialized_frame_bytes,
    validate_length_prefixed_supervisor_frame, BoundedSupervisorPayloadWriter,
};
use crate::pty::supervisor::launch::{required_controller, startup_pipe_unavailable, LaunchStep, SupervisorLaunch};
use crate::pty::supervisor::protocol::ControllerIdentity;
use crate::pty::supervisor::startup::{
    serve_step, ServeEvent, ServeStep, StartupStep, SupervisorStartup,
};
use crate::pty::supervisor::startup_grant::{
    drawn_16, drawn_32, encode_startup_grant, law_grant_is_bound_to_its_process, law_grant_round_trip,
    validate_startup_grant, PtyStartupGrant, ValidatedStartupGrant,
};
use crate::pty::{IoError, PtyError, PtyErrorModel, PtyResult};
use vstd::prelude::*;

verus! {

/// A supervisor takes the capability out of the grant that was made for it, and refuses one that was made
/// for another process.
pub proof fn law_grant_is_for_one_process(
    operation: [u8; 16],
    capability: [u8; 32],
    grant: PtyStartupGrant,
    session_id: &str,
    socket_path: &str,
    pid: u32,
    frame: Vec<u8>,
    bytes: &[u8],
    reader: u32,
    res: PtyResult<ValidatedStartupGrant>,
)
    requires
        call_ensures(PtyStartupGrant::new, (operation, capability), grant),
        call_ensures(encode_startup_grant, (&grant, session_id, socket_path, pid), frame),
        bytes@ == frame@,
        call_ensures(validate_startup_grant, (bytes, session_id, socket_path, reader), res),
    ensures
        frame@.len() == 124,
        res is Ok <==> reader == pid,
        res is Ok ==> res->Ok_0.cleanup_capability@ == capability@,
{
    law_grant_round_trip(operation@, capability@, session_id@, socket_path@, pid);
    if reader != pid {
        law_grant_is_bound_to_its_process(
            operation@,
            capability@,
            session_id@,
            socket_path@,
            pid,
            reader,
        );
    }
}

/// A grant keeps what it was made of.
pub proof fn law_grant_keeps_what_it_was_made_of(
    operation: [u8; 16],
    capability: [u8; 32],
    grant: PtyStartupGrant,
    told_operation: &[u8; 16],
    told_capability: &[u8; 32],
)
    requires
        call_ensures(PtyStartupGrant::new, (operation, capability), grant),
        call_ensures(PtyStartupGrant::create_operation_id, (&grant,), told_operation),
        call_ensures(PtyStartupGrant::capability, (&grant,), told_capability),
    ensures
        told_operation@ == operation@,
        told_capability@ == capability@,
{
}

/// What is too short or too long is no grant.
pub proof fn law_grant_has_its_length(
    bytes: &[u8],
    session_id: &str,
    socket_path: &str,
    pid: u32,
    res: PtyResult<ValidatedStartupGrant>,
)
    requires
        call_ensures(validate_startup_grant, (bytes, session_id, socket_path, pid), res),
        bytes@.len() != 124,
    ensures
        res is Err,
        res->Err_0@ == PtyErrorModel::Backend("session supervisor startup grant is invalid"@),
{
}

// ---------------------------------------------------------------------------
// Frames

/// A framed payload is read back as it was, as long as it has at most 8 MiB with its frame.
pub proof fn law_framed_payload_is_read_back(
    payload: &[u8],
    res: Result<Vec<u8>, IoError>,
    bytes: &[u8],
    read: Result<usize, IoError>,
)
    requires
        call_ensures(frame_supervisor_payload, (payload,), res),
        res is Ok ==> bytes@ == (res->Ok_0)@,
        call_ensures(validate_length_prefixed_supervisor_frame, (bytes,), read),
    ensures
        res is Ok <==> payload@.len() + 4 <= 8388608,
        res is Ok ==> {
            &&& bytes@.len() == payload@.len() + 4
            &&& bytes@.skip(4) == payload@
            &&& read is Ok
            &&& read->Ok_0 == payload@.len()
        },
{
    if res is Ok {
        law_frame_round_trip(payload@);
    }
}

/// The length before a payload is read back as the length of the payload.
pub proof fn law_length_is_read_back(
    len: usize,
    prefix: Result<[u8; 4], IoError>,
    read: Result<usize, IoError>,
    whole: Result<usize, IoError>,
)
    requires
        call_ensures(supervisor_payload_length_prefix, (len,), prefix),
        prefix is Ok ==> call_ensures(checked_supervisor_payload_len, (prefix->Ok_0,), read),
        call_ensures(supervisor_serialized_frame_bytes, (len,), whole),
    ensures
        prefix is Ok <==> len <= 8388604,
        prefix is Ok ==> read is Ok && read->Ok_0 == len,
        whole is Ok ==> whole->Ok_0 == len + 4,
        len <= 8388604 ==> whole is Ok,
{
    if prefix is Ok {
        law_length_prefix_round_trip(len as nat);
    }
}

/// The length of a payload is given in four bytes, the lowest first, and is bounded.
pub proof fn law_length_is_given_lowest_byte_first(length: [u8; 4], read: Result<usize, IoError>)
    requires
        call_ensures(checked_supervisor_payload_len, (length,), read),
    ensures
        ({
            let value = length@[0] + 256 * (length@[1] + 256 * (length@[2] + 256 * length@[3]));
            &&& read is Ok <==> value <= 8388604
            &&& read is Ok ==> read->Ok_0 == value
        }),
{
}

/// A frame whose length does not match is refused.
pub proof fn law_frame_has_its_length(bytes: &[u8], read: Result<usize, IoError>)
    requires
        call_ensures(validate_length_prefixed_supervisor_frame, (bytes,), read),
    ensures
        bytes@.len() < 4 ==> read is Err,
        bytes@.len() >= 4 ==> {
            let value = bytes@[0] + 256 * (bytes@[1] + 256 * (bytes@[2] + 256 * bytes@[3]));
            &&& read is Ok <==> value <= 8388604 && bytes@.len() == value + 4
            &&& read is Ok ==> read->Ok_0 == value
        },
{
    if bytes@.len() >= 4 {
        let head = bytes@.take(4);
        assert(head[0] == bytes@[0] && head[1] == bytes@[1] && head[2] == bytes@[2] && head[3]
            == bytes@[3]);
    }
}

/// A payload grows as long as it stays below its bound.
pub proof fn law_payload_is_bounded(
    writer: &mut BoundedSupervisorPayloadWriter,
    len: usize,
    room: Result<(), IoError>,
    fresh: BoundedSupervisorPayloadWriter,
)
    requires
        call_ensures(BoundedSupervisorPayloadWriter::check_room, (&*old(writer), len), room),
        call_ensures(BoundedSupervisorPayloadWriter::advance, (writer, len), ()),
        call_ensures(BoundedSupervisorPayloadWriter::new, (), fresh),
    ensures
        fresh.spec_written() == 0,
        room is Ok <==> len == 0 || old(writer).spec_written() + len <= 8388604,
        old(writer).spec_written() + len <= usize::MAX ==> final(writer).spec_written() == old(
            writer,
        ).spec_written() + len,
{
}

// ---------------------------------------------------------------------------
// The start of a supervisor

/// A supervisor starts in order: its two sockets, its grant, and then the command. Whatever fails, what
/// was published before is taken back.
pub proof fn law_supervisor_starts_in_order(
    fresh: SupervisorStartup,
    first: &mut SupervisorStartup,
    control: PtyResult<()>,
    to_attach: StartupStep,
    second: &mut SupervisorStartup,
    attach: PtyResult<()>,
    to_grant: StartupStep,
    third: &mut SupervisorStartup,
    grant: PtyResult<()>,
    to_command: StartupStep,
    fourth: &mut SupervisorStartup,
    command: PtyResult<()>,
    to_serve: StartupStep,
)
    requires
        call_ensures(SupervisorStartup::new, (), fresh),
        *old(first) == fresh,
        call_ensures(SupervisorStartup::on_result, (first, control), to_attach),
        *old(second) == *final(first),
        control is Ok ==> call_ensures(SupervisorStartup::on_result, (second, attach), to_grant),
        *old(third) == *final(second),
        control is Ok && attach is Ok ==> call_ensures(
            SupervisorStartup::on_result,
            (third, grant),
            to_command,
        ),
        *old(fourth) == *final(third),
        control is Ok && attach is Ok && grant is Ok ==> call_ensures(
            SupervisorStartup::on_result,
            (fourth, command),
            to_serve,
        ),
    ensures
        control is Err ==> to_attach == (StartupStep::GiveUp {
            remove_control: false,
            remove_attach: false,
            error: control->Err_0,
        }),
        control is Ok ==> to_attach is BindAttach,
        control is Ok && attach is Err ==> to_grant == (StartupStep::GiveUp {
            remove_control: true,
            remove_attach: false,
            error: attach->Err_0,
        }),
        control is Ok && attach is Ok ==> to_grant is ReadGrant,
        control is Ok && attach is Ok && grant is Err ==> to_command == (StartupStep::GiveUp {
            remove_control: true,
            remove_attach: true,
            error: grant->Err_0,
        }),
        control is Ok && attach is Ok && grant is Ok ==> to_command is SpawnCommand,
        control is Ok && attach is Ok && grant is Ok && command is Err ==> to_serve
            == (StartupStep::GiveUp {
            remove_control: true,
            remove_attach: true,
            error: command->Err_0,
        }),
        control is Ok && attach is Ok && grant is Ok && command is Ok ==> to_serve is Serve,
{
}

/// A supervisor serves whoever connects, until it is told to stop.
pub proof fn law_supervisor_serves_until_told_to_stop(event: ServeEvent, step: ServeStep)
    requires
        call_ensures(serve_step, (event,), step),
    ensures
        step is Stop <==> event == ServeEvent::ShutdownChanged(Some(true)),
        step is ServeConnection <==> event is Accepted,
        step is Failed <==> event is AcceptFailed,
        step is Failed ==> step->Failed_0@ == PtyErrorModel::Io(
            event->AcceptFailed_0.kind,
            event->AcceptFailed_0.message@,
        ),
{
}

// ---------------------------------------------------------------------------
// The launch of a supervisor

/// The process is written down before it gets its grant: what is written down is its socket and its number,
/// and the grant is for that process.
pub proof fn law_evidence_comes_before_the_grant(
    session_id: &str,
    socket_path: &str,
    begun: SupervisorLaunch,
    first: &mut SupervisorLaunch,
    directory: PtyResult<()>,
    to_start: LaunchStep,
    second: &mut SupervisorLaunch,
    started: PtyResult<u32>,
    to_evidence: LaunchStep,
    third: &mut SupervisorLaunch,
    written: PtyResult<()>,
    grant: &PtyStartupGrant,
    to_grant: LaunchStep,
    frame: Vec<u8>,
)
    requires
        call_ensures(SupervisorLaunch::begin, (session_id, socket_path), begun),
        *old(first) == begun,
        call_ensures(SupervisorLaunch::on_directory, (first, directory), to_start),
        *old(second) == *final(first),
        directory is Ok ==> call_ensures(SupervisorLaunch::on_started, (second, started), to_evidence),
        *old(third) == *final(second),
        directory is Ok && started is Ok ==> call_ensures(
            SupervisorLaunch::on_evidence,
            (third, written, grant),
            to_grant,
        ),
        directory is Ok && started is Ok ==> call_ensures(
            encode_startup_grant,
            (grant, session_id, socket_path, started->Ok_0),
            frame,
        ),
    ensures
        directory is Err ==> to_start == LaunchStep::Failed(directory->Err_0),
        directory is Ok ==> to_start is Start,
        directory is Ok && started is Err ==> to_evidence == LaunchStep::Failed(started->Err_0),
        directory is Ok && started is Ok ==> {
            let info = to_evidence->CommitEvidence_0@;
            &&& to_evidence is CommitEvidence
            &&& info is UnixSocket
            &&& info->UnixSocket_socket_path == socket_path@
            &&& info->UnixSocket_supervisor_pid == started->Ok_0
            &&& info->UnixSocket_supervisor_status is Running
            &&& written is Err ==> to_grant == LaunchStep::Abandon(written->Err_0)
            &&& written is Ok ==> to_grant is SendGrant && (to_grant->SendGrant_0)@ == frame@
        },
{
}

/// After its grant a supervisor is connected to; one that cannot be is left disconnected, with the reason.
pub proof fn law_granted_supervisor_is_connected_to(
    launch: &mut SupervisorLaunch,
    sent: PtyResult<()>,
    step: LaunchStep,
    then: &mut SupervisorLaunch,
    connected: PtyResult<()>,
    last: LaunchStep,
    controller: Option<ControllerIdentity>,
    required: PtyResult<ControllerIdentity>,
)
    requires
        call_ensures(SupervisorLaunch::on_grant, (launch, sent), step),
        call_ensures(SupervisorLaunch::on_connected, (then, connected), last),
        call_ensures(required_controller, (controller,), required),
    ensures
        sent is Ok ==> step is Connect,
        sent is Err ==> step == LaunchStep::Failed(sent->Err_0),
        connected is Ok ==> last is Connected,
        connected is Err ==> last is Disconnected && last->connect_error@ == connected->Err_0@.text(),
        final(then)@.stage is Over,
        required is Ok <==> controller is Some,
        required is Ok ==> required->Ok_0 == controller->0,
{
}

/// What was drawn is kept byte for byte, and what could not be drawn says why.
pub proof fn law_drawn_bytes_are_kept(
    long: Result<Vec<u8>, String>,
    secret: PtyResult<[u8; 32]>,
    short: Result<Vec<u8>, String>,
    number: PtyResult<[u8; 16]>,
)
    requires
        call_ensures(drawn_32, (long,), secret),
        call_ensures(drawn_16, (short,), number),
    ensures
        secret is Ok <==> long is Ok,
        long is Ok ==> secret->Ok_0@ == long->Ok_0@,
        long is Err ==> secret->Err_0@ == PtyErrorModel::Backend(long->Err_0@),
        number is Ok <==> short is Ok,
        short is Ok ==> number->Ok_0@ == short->Ok_0@,
        short is Err ==> number->Err_0@ == PtyErrorModel::Backend(short->Err_0@),
{
}

/// A frame over the limit is told as such.
pub proof fn law_failures_of_frames_say_what_is_wrong(
    too_large: IoError,
    message: &str,
    invalid: IoError,
    no_pipe: PtyError,
)
    requires
        call_ensures(supervisor_frame_too_large, (), too_large),
        call_ensures(invalid_data, (message,), invalid),
        call_ensures(startup_pipe_unavailable, (), no_pipe),
    ensures
        too_large.kind is InvalidData,
        too_large.message@ == "session supervisor frame exceeds maximum of 8388608 bytes"@,
        invalid.kind is InvalidData,
        invalid.message@ == message@,
        no_pipe@ == PtyErrorModel::Backend("session supervisor startup grant pipe is unavailable"@),
{
}

} // verus!
