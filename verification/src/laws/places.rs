//! Where supervisors live: their directory and sockets, and how running ones are recognised.

use crate::codec::base64_url_text;
use crate::collections::StringSet;
use crate::laws::text::{law_decimal_can_be_read_back, law_empty_pieces_are_dropped};
use crate::paths::{path_file_name_text, path_parent_text, same_path};
use crate::pty::supervisor::runtime_dir::{
    attach_socket_path_for_control_socket, attach_target, big_endian, binary_sibling, candidate_models,
    cmdline_args, orphaned_supervisor_pids, orphans, parse_supervisor_cmdline, proc_entry_pid, raw_args,
    reconnect_target, restorable, short_supervisor_attach_socket_file_name,
    short_supervisor_socket_file_name, socket_file_name_for_hash, supervisor_base_dir, supervisor_launch_args,
    supervisor_runtime_dir, text_hash, CandidateModel, HostEnvironment, SupervisorCmdline,
    SupervisorProcess, SupervisorPtyBackend, SupervisorRestoreCandidate,
};
use crate::pty::{texts, PtyRestoreInfo, PtyResult, PtySize};
use crate::text::{
    decimal, lossy_text, split_on, utf8_len,
};
use vstd::prelude::*;

verus! {

/// The number behind eight bytes, the highest first.
pub open spec fn number_from(bytes: Seq<u8>) -> int {
    256 * (256 * (256 * (256 * (256 * (256 * (256 * bytes[0] + bytes[1]) + bytes[2]) + bytes[3])
        + bytes[4]) + bytes[5]) + bytes[6]) + bytes[7]
}

/// A number is written with its highest byte first, and can be read back.
pub proof fn law_number_can_be_read_back(value: u64)
    ensures
        big_endian(value).len() == 8,
        number_from(big_endian(value)) == value,
{
    let v = value as int;
    let v1 = v / 0x100;
    let v2 = v / 0x1_0000;
    let v3 = v / 0x100_0000;
    let v4 = v / 0x1_0000_0000;
    let v5 = v / 0x100_0000_0000;
    let v6 = v / 0x1_0000_0000_0000;
    let v7 = v / 0x100_0000_0000_0000;
    lemma_digit(v, v1, 1);
    lemma_digit(v, v2, 0x100);
    lemma_digit(v, v3, 0x1_0000);
    lemma_digit(v, v4, 0x100_0000);
    lemma_digit(v, v5, 0x1_0000_0000);
    lemma_digit(v, v6, 0x100_0000_0000);
    lemma_digit(v, v7, 0x1_0000_0000_0000);
    lemma_low(v7);
}

proof fn lemma_digit(value: int, quotient: int, unit: int)
    requires
        value >= 0,
        unit > 0,
        quotient == value / (256 * unit),
    ensures
        value / unit == 256 * quotient + value / unit % 256,
        0 <= value / unit % 256 < 256,
{
    vstd::arithmetic::div_mod::lemma_div_denominator(value, unit, 256);
    assert(unit * 256 == 256 * unit) by (nonlinear_arith);
    vstd::arithmetic::div_mod::lemma_fundamental_div_mod(value / unit, 256);
}

proof fn lemma_low(digit: int)
    ensures
        0 <= digit < 256 ==> digit % 256 == digit,
{
}

/// The two sockets of a session share a name, which depends on the session alone, and differ in their ends.
pub proof fn law_sockets_are_named_after_the_session(
    session_id: &str,
    control: String,
    attach: String,
    other_id: &str,
    other: String,
)
    requires
        call_ensures(short_supervisor_socket_file_name, (session_id,), control),
        call_ensures(short_supervisor_attach_socket_file_name, (session_id,), attach),
        call_ensures(short_supervisor_socket_file_name, (other_id,), other),
    ensures
        control@ == base64_url_text(big_endian(text_hash(session_id@))) + ".sock"@,
        attach@ == base64_url_text(big_endian(text_hash(session_id@))) + ".attach.sock"@,
        utf8_len(control@) == 16,
        utf8_len(attach@) == 23,
        session_id@ == other_id@ ==> control@ == other@,
{
}

/// Supervisors live beside the state, or in the current directory, or in the temporary one.
pub proof fn law_supervisors_live_beside_the_state(
    state_path: &str,
    current_dir: Option<String>,
    temp_dir: String,
    base: String,
)
    requires
        call_ensures(supervisor_base_dir, (state_path, current_dir, temp_dir), base),
    ensures
        ({
            let parent = path_parent_text(state_path@);
            let has_parent = parent is Some && parent->0.len() > 0;
            &&& has_parent ==> base@ == parent->0
            &&& !has_parent && current_dir is Some ==> base@ == current_dir->0@
            &&& !has_parent && current_dir is None ==> base@ == temp_dir@
        }),
{
}

/// The directory has a long name where the longest socket in it still fits into 107 bytes, and shorter
/// ones where it does not; where none fits there is none.
pub proof fn law_directory_leaves_room_for_sockets(
    state_path: &str,
    base: &str,
    res: Result<String, String>,
)
    requires
        call_ensures(supervisor_runtime_dir, (state_path, base), res),
        base@.len() > 0,
        base@.last() != '/',
    ensures
        ({
            let long = base@ + "/"@ + "termd-supervisors"@;
            let fits = utf8_len(long) + 24 <= 107;
            &&& fits ==> res is Ok && res->Ok_0@ == long
            &&& !fits && utf8_len(base@) + 27 <= 107 ==> res is Ok && res->Ok_0@ == base@ + "/"@ + "ts"@
            &&& !fits && utf8_len(base@) + 26 == 107 ==> res is Ok && res->Ok_0@ == base@ + "/"@ + "t"@
            &&& !fits && utf8_len(base@) + 26 > 107 ==> res is Err
        }),
{
    reveal_strlit("termd-supervisors");
    reveal_strlit("ts");
    reveal_strlit("t");
    assert("termd-supervisors"@[0] == 't');
    assert("ts"@[0] == 't');
    assert("t"@[0] == 't');
}

/// The attach socket lies in the directory of the control socket.
pub proof fn law_attach_socket_lies_beside_the_control_socket(
    control: &str,
    session_id: &str,
    path: String,
    other_id: &str,
    other: String,
)
    requires
        call_ensures(attach_socket_path_for_control_socket, (control, session_id), path),
        call_ensures(attach_socket_path_for_control_socket, (control, other_id), other),
        path_parent_text(control@) is Some,
        path_file_name_text(control@) is Some,
    ensures
        ({
            let parent = path_parent_text(control@)->0;
            let name = path_file_name_text(control@)->0;
            let renamed = crate::paths::joined(
                parent,
                crate::text::replaced_first(name, ".sock"@, ".attach.sock"@),
            );
            &&& utf8_len(renamed) <= 107 ==> path@ == renamed && other@ == path@
            &&& utf8_len(renamed) > 107 ==> path@ == crate::paths::joined(
                parent,
                base64_url_text(big_endian(text_hash(session_id@))) + ".attach.sock"@,
            )
        }),
{
}

/// A control socket without a directory or a name is its own attach socket.
pub proof fn law_nameless_socket_stays(control: &str, session_id: &str, path: String)
    requires
        call_ensures(attach_socket_path_for_control_socket, (control, session_id), path),
        path_parent_text(control@) is None || path_file_name_text(control@) is None,
    ensures
        path@ == control@,
{
}

// ---------------------------------------------------------------------------
// Running supervisors

/// The arguments of a process are the pieces between its zero bytes that are not empty, in order.
pub proof fn law_arguments_stand_between_zeros(raw: &[u8], args: Vec<String>)
    requires
        call_ensures(cmdline_args, (raw,), args),
    ensures
        ({
            let pieces = split_on(raw@, 0).filter(|piece: Seq<u8>| piece.len() > 0);
            &&& args@.len() == pieces.len()
            &&& forall|i: int| 0 <= i < args@.len() ==> (#[trigger] args@[i])@ == lossy_text(pieces[i])
        }),
{
    law_empty_pieces_are_dropped(split_on(raw@, 0));
    let all = raw_args(raw@);
    assert(texts(args@).len() == args@.len());
    assert(forall|i: int| 0 <= i < args@.len() ==> texts(args@)[i] == #[trigger] args@[i]@);
}

/// A supervisor is recognised by the arguments that it was started with, and its session, its socket and
/// its size are read from them.
pub proof fn law_started_supervisor_is_recognised(
    session_id: &str,
    socket_path: &str,
    command_json: &[u8],
    size_json: &[u8],
    started: Vec<String>,
    args: &[String],
    found: Option<SupervisorCmdline>,
    program: Seq<char>,
)
    requires
        call_ensures(
            supervisor_launch_args,
            (session_id, socket_path, command_json, size_json),
            started,
        ),
        program.len() == 0 || program[0] != '-',
        texts(args@) == seq![program] + texts(started@),
        call_ensures(parse_supervisor_cmdline, (args,), found),
    ensures
        found is Some,
        found->0.session_id@ == session_id@,
        found->0.socket_path@ == socket_path@,
        found->0.size_json is Some,
        found->0.size_json->0@ == size_json@,
{
    crate::pty::supervisor::runtime_dir::law_launched_supervisor_is_recognised(
        program,
        session_id@,
        socket_path@,
        command_json@,
        size_json@,
    );
}

/// A process that does not say it is a supervisor is none.
pub proof fn law_other_processes_are_no_supervisors(args: &[String], found: Option<SupervisorCmdline>)
    requires
        call_ensures(parse_supervisor_cmdline, (args,), found),
        forall|i: int| 0 <= i < args@.len() ==> (#[trigger] args@[i])@ != "__session-supervisor"@,
    ensures
        found is None,
{
    let all = texts(args@);
    if all.contains("__session-supervisor"@) {
        let i = choose|i: int| 0 <= i < all.len() && all[i] == "__session-supervisor"@;
        assert(all[i] == args@[i]@);
    }
}

/// A recognised supervisor keeps what was read, with the number of its process.
pub proof fn law_recognised_supervisor_keeps_what_was_read(
    cmdline: SupervisorCmdline,
    pid: u32,
    size: Option<PtySize>,
    process: SupervisorProcess,
)
    requires
        call_ensures(SupervisorCmdline::into_process, (cmdline, pid, size), process),
    ensures
        process.pid == pid,
        process.session_id == cmdline.session_id,
        process.socket_path == cmdline.socket_path,
        process.size == size,
{
}

/// An entry of the process table is a process if it is a number.
pub proof fn law_entry_is_a_process_by_its_number(name: &str, pid: Option<u32>, n: u32)
    requires
        call_ensures(proc_entry_pid, (name,), pid),
    ensures
        name@ == decimal(n as nat) ==> pid == Some(n),
        (exists|i: int| 0 <= i < name@.len() && !('0' <= #[trigger] name@[i] <= '9')) ==> pid is None,
        name@.len() == 0 ==> pid is None,
{
    law_decimal_can_be_read_back(n as nat);
}

/// A supervisor belongs to a directory if its socket lies there.
pub open spec fn lives_in(process: SupervisorProcess, dir: Seq<char>) -> bool {
    path_parent_text(process.socket_path@) is Some && same_path(
        path_parent_text(process.socket_path@)->0,
        dir,
    )
}

/// The orphans of a directory are the supervisors that live there for sessions that nobody knows: all of
/// them, in order, and no other.
pub proof fn law_orphans_belong_to_nobody(
    dir: &str,
    known: &StringSet,
    supervisors: &[SupervisorProcess],
    pids: Vec<u32>,
)
    requires
        call_ensures(orphaned_supervisor_pids, (dir, known, supervisors), pids),
    ensures
        pids@ == supervisors@.filter(
            |process: SupervisorProcess|
                lives_in(process, dir@) && !known@.contains(process.session_id@),
        ).map_values(|process: SupervisorProcess| process.pid),
{
    lemma_orphans(dir@, known@, supervisors@);
}

proof fn lemma_orphans(dir: Seq<char>, known: Set<Seq<char>>, supervisors: Seq<SupervisorProcess>)
    ensures
        orphans(dir, known, supervisors) == supervisors.filter(
            |process: SupervisorProcess| lives_in(process, dir) && !known.contains(process.session_id@),
        ).map_values(|process: SupervisorProcess| process.pid),
    decreases supervisors.len(),
{
    reveal(Seq::filter);
    let picks = |process: SupervisorProcess|
        lives_in(process, dir) && !known.contains(process.session_id@);
    let pid = |process: SupervisorProcess| process.pid;
    if supervisors.len() > 0 {
        let rest = supervisors.drop_last();
        lemma_orphans(dir, known, rest);
        let kept = rest.filter(picks);
        if picks(supervisors.last()) {
            assert(supervisors.filter(picks) == kept.push(supervisors.last()));
            assert(kept.push(supervisors.last()).map_values(pid) =~= kept.map_values(pid).push(
                supervisors.last().pid,
            ));
        } else {
            assert(supervisors.filter(picks) == kept);
        }
    }
}

/// What is to be restored are the supervisors of the directory whose size is known: all of them, in order,
/// as they were found.
pub proof fn law_found_supervisors_are_restored(
    backend: &SupervisorPtyBackend,
    supervisors: &[SupervisorProcess],
    res: PtyResult<Vec<SupervisorRestoreCandidate>>,
)
    requires
        call_ensures(
            SupervisorPtyBackend::live_supervisor_restore_candidates,
            (backend, supervisors),
            res,
        ),
    ensures
        backend.dir() is Err ==> res is Err,
        backend.dir() is Ok ==> res is Ok && candidate_models((res->Ok_0)@) == supervisors@.filter(
            |process: SupervisorProcess|
                lives_in(process, backend.dir()->Ok_0) && process.size is Some,
        ).map_values(
            |process: SupervisorProcess|
                CandidateModel {
                    session_id: process.session_id@,
                    socket_path: process.socket_path@,
                    supervisor_pid: process.pid,
                    size: process.size->0,
                },
        ),
{
    if backend.dir() is Ok {
        lemma_restorable(backend.dir()->Ok_0, supervisors@);
    }
}

proof fn lemma_restorable(dir: Seq<char>, supervisors: Seq<SupervisorProcess>)
    ensures
        restorable(dir, supervisors) == supervisors.filter(
            |process: SupervisorProcess| lives_in(process, dir) && process.size is Some,
        ).map_values(
            |process: SupervisorProcess|
                CandidateModel {
                    session_id: process.session_id@,
                    socket_path: process.socket_path@,
                    supervisor_pid: process.pid,
                    size: process.size->0,
                },
        ),
    decreases supervisors.len(),
{
    reveal(Seq::filter);
    let picks = |process: SupervisorProcess| lives_in(process, dir) && process.size is Some;
    let shown = |process: SupervisorProcess|
        CandidateModel {
            session_id: process.session_id@,
            socket_path: process.socket_path@,
            supervisor_pid: process.pid,
            size: process.size->0,
        };
    if supervisors.len() > 0 {
        let rest = supervisors.drop_last();
        lemma_restorable(dir, rest);
        let kept = rest.filter(picks);
        if picks(supervisors.last()) {
            assert(supervisors.filter(picks) == kept.push(supervisors.last()));
            assert(kept.push(supervisors.last()).map_values(shown) =~= kept.map_values(shown).push(
                shown(supervisors.last()),
            ));
        } else {
            assert(supervisors.filter(picks) == kept);
        }
    }
}

/// The count of orphans is that of the orphans.
pub proof fn law_orphans_are_counted(
    backend: &SupervisorPtyBackend,
    known: &StringSet,
    supervisors: &[SupervisorProcess],
    count: PtyResult<usize>,
    dir: &str,
    pids: Vec<u32>,
)
    requires
        call_ensures(
            SupervisorPtyBackend::orphaned_supervisor_count,
            (backend, known, supervisors),
            count,
        ),
        backend.dir() == Ok::<Seq<char>, Seq<char>>(dir@),
        call_ensures(orphaned_supervisor_pids, (dir, known, supervisors), pids),
    ensures
        count is Ok,
        count->Ok_0 == pids@.len(),
{
}

/// The program to start is the one that is named, or the one beside the running one, or the running one.
pub proof fn law_program_is_discovered(
    host: &HostEnvironment,
    path: String,
    exe: &str,
    sibling: Option<String>,
)
    requires
        call_ensures(HostEnvironment::discover_termd_binary_path, (host,), path),
        host.current_exe is Some ==> exe@ == host.current_exe->0@,
        call_ensures(binary_sibling, (exe,), sibling),
    ensures
        host.test_binary is Some ==> path@ == host.test_binary->0@,
        host.test_binary is None && host.current_exe is None ==> path@ == "termd"@,
        host.test_binary is None && host.current_exe is Some && sibling is Some && host.sibling_exists
            ==> path@ == sibling->0@,
        host.test_binary is None && host.current_exe is Some && (sibling is None || !host.sibling_exists)
            ==> path@ == exe@,
{
}

/// A backend starts its program and puts the sockets of its sessions into its directory.
pub proof fn law_backend_has_its_directory(
    binary: &str,
    state_path: &str,
    host: &HostEnvironment,
    backend: SupervisorPtyBackend,
    base: &str,
    dir: Result<String, String>,
    session_id: &str,
    socket: PtyResult<String>,
    name: String,
    temp_dir: String,
    found: String,
    current_dir: Option<String>,
)
    requires
        call_ensures(
            SupervisorPtyBackend::with_binary_and_state_path,
            (binary, state_path, host),
            backend,
        ),
        temp_dir == host.temp_dir,
        current_dir == host.current_dir,
        call_ensures(supervisor_base_dir, (state_path, current_dir, temp_dir), found),
        base@ == found@,
        call_ensures(supervisor_runtime_dir, (state_path, base), dir),
        call_ensures(SupervisorPtyBackend::socket_path_for_session, (&backend, session_id), socket),
        call_ensures(short_supervisor_socket_file_name, (session_id,), name),
    ensures
        backend.binary() == binary@,
        dir is Ok ==> backend.dir() == Ok::<Seq<char>, Seq<char>>(dir->Ok_0@),
        dir is Err ==> backend.dir() == Err::<Seq<char>, Seq<char>>(dir->Err_0@),
        socket is Ok <==> dir is Ok,
        dir is Ok ==> socket->Ok_0@ == crate::paths::joined(dir->Ok_0@, name@),
{
}

/// A supervisor is reconnected to at its socket exactly if it was running, and attached to wherever it is
/// known.
pub proof fn law_supervisor_is_found_at_its_socket(
    info: &PtyRestoreInfo,
    target: PtyResult<(String, u32)>,
    session_id: &str,
    attach: PtyResult<String>,
    none: PtyResult<String>,
)
    requires
        call_ensures(reconnect_target, (info,), target),
        call_ensures(attach_target, (Some(info), session_id), attach),
        call_ensures(attach_target, (None::<&PtyRestoreInfo>, session_id), none),
    ensures
        target is Ok <==> info@ is UnixSocket && info@->UnixSocket_supervisor_status is Running,
        target is Ok ==> (target->Ok_0).0@ == info@->UnixSocket_socket_path && (target->Ok_0).1
            == info@->UnixSocket_supervisor_pid,
        attach is Ok <==> info@ is UnixSocket,
        none is Err,
{
}

/// A backend for a state starts the program that was discovered.
pub proof fn law_backend_starts_the_discovered_program(
    state_path: &str,
    host: &HostEnvironment,
    backend: SupervisorPtyBackend,
    program: String,
    told: &str,
    same: SupervisorPtyBackend,
    binary: &str,
    copy: SupervisorPtyBackend,
    dir: PtyResult<&str>,
)
    requires
        call_ensures(SupervisorPtyBackend::for_state_path, (state_path, host), backend),
        call_ensures(HostEnvironment::discover_termd_binary_path, (host,), program),
        call_ensures(SupervisorPtyBackend::binary_path, (&backend,), told),
        binary@ == program@,
        call_ensures(
            SupervisorPtyBackend::with_binary_and_state_path,
            (binary, state_path, host),
            same,
        ),
        call_ensures(SupervisorPtyBackend::clone, (&backend,), copy),
        call_ensures(SupervisorPtyBackend::runtime_dir, (&backend,), dir),
    ensures
        told@ == program@,
        backend.binary() == same.binary(),
        backend.dir() == same.dir(),
        copy.binary() == backend.binary(),
        copy.dir() == backend.dir(),
        dir is Ok <==> backend.dir() is Ok,
        dir is Ok ==> (dir->Ok_0)@ == backend.dir()->Ok_0,
{
}

/// A socket is named by eight bytes of a hash, and the name is short.
pub proof fn law_socket_is_named_by_its_hash(hash: u64, suffix: &str, name: String)
    requires
        call_ensures(socket_file_name_for_hash, (hash, suffix), name),
    ensures
        name@ == base64_url_text(big_endian(hash)) + suffix@,
        utf8_len(name@) == 11 + suffix@.len(),
{
}

} // verus!
