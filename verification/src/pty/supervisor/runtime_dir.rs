//! Where supervisors live: their runtime directory, their sockets, and how running ones are found.

use crate::codec::{base64_bytes, base64_decode, base64_encode, base64_text, base64_url_encode, base64_url_text};
use crate::collections::StringSet;
use crate::paths::{
    join_path, joined, optional_text, path_file_name, path_file_name_text, path_parent,
    path_parent_text, paths_equal, same_path,
};
use crate::pty::supervisor::resume::{not_reconnectable, not_reconnectable_error};
use crate::pty::{
    texts, CommandSpec, PtyError, PtyErrorModel, PtyRestoreInfo, PtyResult, PtySize,
    PtySupervisorStatus, RestoreModel,
};
use crate::text::{
    byte_len, byte_views, concat, concat3, digits_value, is_u32_digits, keep_non_empty, lemma_utf8_len_ascii,
    lemma_utf8_len_concat, lossy_text, non_empty_pieces, parse_digits, replace_first, replaced_first, split_bytes,
    split_on, str_chars, str_equal, utf8_len, utf8_lossy,
};
use std::hash::{BuildHasher, BuildHasherDefault};
use vstd::prelude::*;
use vstd::utf8::is_ascii_chars;

verus! {

/// The longest path that a Unix socket address holds.
pub const UNIX_SOCKET_PATH_MAX_BYTES: usize = 107;

/// The hash of a text by a hasher that `std::collections::hash_map::DefaultHasher::default` makes.
pub uninterp spec fn text_hash(text: Seq<char>) -> u64;

/// Hashes a text with `std::collections::hash_map::DefaultHasher`, through
/// `std::hash::BuildHasher::hash_one`.
///
/// All hashers that `DefaultHasher::default` makes are the same, so the hash is a function of the text.
/// Which number it is is left open, since the algorithm may change between releases of the standard
/// library.
#[verifier::external_body]
fn hash_text(text: &str) -> (hash: u64)
    ensures
        hash == text_hash(text@),
{
    BuildHasherDefault::<std::collections::hash_map::DefaultHasher>::default().hash_one(text)
}

/// The bytes of a number, the most significant one first.
pub open spec fn big_endian(value: u64) -> Seq<u8> {
    seq![
        (value / 0x100_0000_0000_0000 % 0x100) as u8,
        (value / 0x1_0000_0000_0000 % 0x100) as u8,
        (value / 0x100_0000_0000 % 0x100) as u8,
        (value / 0x1_0000_0000 % 0x100) as u8,
        (value / 0x100_0000 % 0x100) as u8,
        (value / 0x1_0000 % 0x100) as u8,
        (value / 0x100 % 0x100) as u8,
        (value % 0x100) as u8,
    ]
}

fn big_endian_bytes(value: u64) -> (bytes: Vec<u8>)
    ensures
        bytes@ == big_endian(value),
{
    let mut bytes: Vec<u8> = Vec::new();
    bytes.push((value / 0x100_0000_0000_0000 % 0x100) as u8);
    bytes.push((value / 0x1_0000_0000_0000 % 0x100) as u8);
    bytes.push((value / 0x100_0000_0000 % 0x100) as u8);
    bytes.push((value / 0x1_0000_0000 % 0x100) as u8);
    bytes.push((value / 0x100_0000 % 0x100) as u8);
    bytes.push((value / 0x1_0000 % 0x100) as u8);
    bytes.push((value / 0x100 % 0x100) as u8);
    bytes.push((value % 0x100) as u8);
    bytes
}

/// The file name of a socket: a short token for the hash of the session, and a suffix.
pub open spec fn socket_name(hash: u64, suffix: Seq<char>) -> Seq<char> {
    base64_url_text(big_endian(hash)) + suffix
}

/// The file name of a socket for a hash. It is short and of fixed length, whatever the session is
/// called.
pub fn socket_file_name_for_hash(hash: u64, suffix: &str) -> (name: String)
    requires
        is_ascii_chars(suffix@),
    ensures
        name@ == socket_name(hash, suffix@),
        utf8_len(name@) == 11 + suffix@.len(),
        name@.len() == 11 + suffix@.len(),
{
    let token = base64_url_encode(big_endian_bytes(hash).as_slice());
    let name = concat(token.as_str(), suffix);
    proof {
        lemma_utf8_len_concat(token@, suffix@);
        lemma_utf8_len_ascii(token@);
        lemma_utf8_len_ascii(suffix@);
    }
    name
}

/// The file name of the control socket of a session.
pub fn short_supervisor_socket_file_name(session_id: &str) -> (name: String)
    ensures
        name@ == socket_name(text_hash(session_id@), ".sock"@),
        utf8_len(name@) == 16,
{
    proof {
        reveal_strlit(".sock");
    }
    let hash: u64 = hash_text(session_id);
    socket_file_name_for_hash(hash, ".sock")
}

/// The file name of the viewer socket of a session.
pub fn short_supervisor_attach_socket_file_name(session_id: &str) -> (name: String)
    ensures
        name@ == socket_name(text_hash(session_id@), ".attach.sock"@),
        utf8_len(name@) == 23,
{
    proof {
        reveal_strlit(".attach.sock");
    }
    let hash: u64 = hash_text(session_id);
    socket_file_name_for_hash(hash, ".attach.sock")
}

// ---------------------------------------------------------------------------
// The runtime directory

/// The directory of the state file, or else the current directory, or else the temporary one.
pub open spec fn base_dir_of(
    state_path: Seq<char>,
    current_dir: Option<Seq<char>>,
    temp_dir: Seq<char>,
) -> Seq<char> {
    match path_parent_text(state_path) {
        Some(parent) if parent.len() > 0 => parent,
        _ => match current_dir {
            Some(dir) => dir,
            None => temp_dir,
        },
    }
}

/// The directory that holds the runtime directory.
pub fn supervisor_base_dir(state_path: &str, current_dir: Option<String>, temp_dir: String) -> (base:
    String)
    ensures
        base@ == base_dir_of(state_path@, optional_text(current_dir), temp_dir@),
{
    if let Some(parent) = path_parent(state_path) {
        if parent.as_str().unicode_len() > 0 {
            return parent;
        }
    }
    match current_dir {
        Some(dir) => dir,
        None => temp_dir,
    }
}

/// The directory for the sockets: a directory of their own, under the longest name with which every
/// socket path stays within its limit.
pub open spec fn runtime_dir_in(base: Seq<char>) -> Option<Seq<char>> {
    if utf8_len(joined(base, "termd-supervisors"@)) + 1 + 23 <= UNIX_SOCKET_PATH_MAX_BYTES {
        Some(joined(base, "termd-supervisors"@))
    } else if utf8_len(base) + 1 + 2 + 1 + 23 <= UNIX_SOCKET_PATH_MAX_BYTES {
        Some(joined(base, "ts"@))
    } else if utf8_len(base) + 1 + 1 + 1 + 23 <= UNIX_SOCKET_PATH_MAX_BYTES {
        Some(joined(base, "t"@))
    } else {
        None
    }
}

/// The runtime directory for a state file, below its base directory. Sockets are never put straight
/// into the base directory: where no directory of their own is short enough, there is none.
pub fn supervisor_runtime_dir(state_path: &str, base_dir: &str) -> (res: Result<String, String>)
    ensures
        match runtime_dir_in(base_dir@) {
            Some(dir) => res matches Ok(d) && d@ == dir,
            None => res matches Err(message) && message@
                == "cannot construct a safe supervisor runtime directory for state path "@
                + state_path@ + ": Unix socket path exceeds 107 bytes"@,
        },
{
    let preferred = join_path(base_dir, "termd-supervisors");
    let base_len: usize = byte_len(base_dir);
    let preferred_len: usize = byte_len(preferred.as_str());
    if preferred_len <= UNIX_SOCKET_PATH_MAX_BYTES - 24 {
        Ok(preferred)
    } else if base_len <= UNIX_SOCKET_PATH_MAX_BYTES - 27 {
        Ok(join_path(base_dir, "ts"))
    } else if base_len <= UNIX_SOCKET_PATH_MAX_BYTES - 26 {
        Ok(join_path(base_dir, "t"))
    } else {
        Err(
            concat3(
                "cannot construct a safe supervisor runtime directory for state path ",
                state_path,
                ": Unix socket path exceeds 107 bytes",
            ),
        )
    }
}

proof fn lemma_joined_len(base: Seq<char>, name: Seq<char>)
    requires
        name.len() > 0,
        name[0] != '/',
    ensures
        utf8_len(joined(base, name)) <= utf8_len(base) + 1 + utf8_len(name),
{
    reveal_strlit("/");
    lemma_utf8_len_concat(base, name);
    lemma_utf8_len_concat(base, "/"@);
    lemma_utf8_len_concat(base + "/"@, name);
    lemma_utf8_len_ascii("/"@);
}

/// In a runtime directory, no socket path is longer than a socket address holds.
pub proof fn law_socket_paths_fit(base: Seq<char>, name: Seq<char>)
    requires
        runtime_dir_in(base) is Some,
        name.len() > 0,
        name[0] != '/',
        utf8_len(name) <= 23,
    ensures
        utf8_len(joined(runtime_dir_in(base)->0, name)) <= UNIX_SOCKET_PATH_MAX_BYTES,
{
    reveal_strlit("termd-supervisors");
    reveal_strlit("ts");
    reveal_strlit("t");
    lemma_utf8_len_ascii("ts"@);
    lemma_utf8_len_ascii("t"@);
    lemma_joined_len(base, "ts"@);
    lemma_joined_len(base, "t"@);
    lemma_joined_len(runtime_dir_in(base)->0, name);
}

/// The path of the viewer socket beside a control socket: the same name with another suffix, or the
/// short name of the session where that is too long.
pub open spec fn attach_path(control: Seq<char>, session_id: Seq<char>) -> Seq<char> {
    match (path_parent_text(control), path_file_name_text(control)) {
        (Some(parent), Some(file_name)) => {
            let preferred = joined(
                parent,
                replaced_first(file_name, ".sock"@, ".attach.sock"@),
            );
            if utf8_len(preferred) <= UNIX_SOCKET_PATH_MAX_BYTES {
                preferred
            } else {
                joined(parent, socket_name(text_hash(session_id), ".attach.sock"@))
            }
        },
        _ => control,
    }
}

/// The path of the viewer socket beside a control socket.
pub fn attach_socket_path_for_control_socket(control_socket_path: &str, session_id: &str) -> (path:
    String)
    ensures
        path@ == attach_path(control_socket_path@, session_id@),
{
    match (path_parent(control_socket_path), path_file_name(control_socket_path)) {
        (Some(parent), Some(file_name)) => {
            let attach_name = replace_first(file_name.as_str(), ".sock", ".attach.sock");
            let preferred = join_path(parent.as_str(), attach_name.as_str());
            if byte_len(preferred.as_str()) <= UNIX_SOCKET_PATH_MAX_BYTES {
                preferred
            } else {
                let short_name = short_supervisor_attach_socket_file_name(session_id);
                join_path(parent.as_str(), short_name.as_str())
            }
        },
        _ => control_socket_path.to_owned(),
    }
}

// ---------------------------------------------------------------------------
// Command lines

/// What the command line of a supervisor says. The size is the document that was passed, still to be
/// read.
#[derive(Debug, Clone, PartialEq, Eq)]
pub struct SupervisorCmdline {
    pub session_id: String,
    pub socket_path: String,
    pub size_json: Option<Vec<u8>>,
}

/// A running supervisor.
#[derive(Debug, Clone, PartialEq, Eq)]
pub struct SupervisorProcess {
    pub pid: u32,
    pub session_id: String,
    pub socket_path: String,
    pub size: Option<PtySize>,
}

impl SupervisorCmdline {
    /// The process with this command line. `size` is what the size document holds, where it could be
    /// read.
    pub fn into_process(self, pid: u32, size: Option<PtySize>) -> (process: SupervisorProcess)
        ensures
            process == (SupervisorProcess {
                pid,
                session_id: self.session_id,
                socket_path: self.socket_path,
                size,
            }),
    {
        SupervisorProcess { pid, session_id: self.session_id, socket_path: self.socket_path, size }
    }
}

/// The options of a command line, as far as they have been read.
pub struct CmdlineModel {
    pub session_id: Option<Seq<char>>,
    pub socket_path: Option<Seq<char>>,
    pub size_json: Option<Seq<u8>>,
}

/// The argument at a position, if there is one.
pub open spec fn arg_at(args: Seq<Seq<char>>, i: int) -> Option<Seq<char>> {
    if 0 <= i < args.len() {
        Some(args[i])
    } else {
        None
    }
}

/// What standard base64 decoding makes of an optional text.
pub open spec fn decoded_arg(arg: Option<Seq<char>>) -> Option<Seq<u8>> {
    match arg {
        Some(text) => match base64_bytes(text) {
            Ok(bytes) => Some(bytes),
            Err(_) => None,
        },
        None => None,
    }
}

/// Reads options from a position on. An option takes the argument behind it; a later one replaces an
/// earlier one.
pub open spec fn read_options(args: Seq<Seq<char>>, i: int, found: CmdlineModel) -> CmdlineModel
    decreases args.len() + 2 - i,
{
    if i < 0 || i >= args.len() {
        found
    } else if args[i] == "--session-id"@ {
        read_options(args, i + 2, CmdlineModel { session_id: arg_at(args, i + 1), ..found })
    } else if args[i] == "--socket-path"@ {
        read_options(args, i + 2, CmdlineModel { socket_path: arg_at(args, i + 1), ..found })
    } else if args[i] == "--size-base64"@ {
        read_options(
            args,
            i + 2,
            CmdlineModel { size_json: decoded_arg(arg_at(args, i + 1)), ..found },
        )
    } else {
        read_options(args, i + 1, found)
    }
}

/// The options of a command line.
pub open spec fn cmdline_options(args: Seq<Seq<char>>) -> CmdlineModel {
    read_options(args, 0, CmdlineModel { session_id: None, socket_path: None, size_json: None })
}

/// An optional document by its contents.
pub open spec fn optional_bytes(bytes: Option<Vec<u8>>) -> Option<Seq<u8>> {
    match bytes {
        Some(b) => Some(b@),
        None => None,
    }
}

fn cloned_arg(args: &[String], i: usize) -> (arg: Option<String>)
    ensures
        optional_text(arg) == arg_at(texts(args@), i as int),
{
    if i < args.len() {
        Some(args[i].clone())
    } else {
        None
    }
}

/// Reads the command line of a process. It is a supervisor if it carries the marker, a session and a
/// socket.
pub fn parse_supervisor_cmdline(args: &[String]) -> (cmdline: Option<SupervisorCmdline>)
    requires
        args@.len() < usize::MAX - 2,
    ensures
        ({
            let options = cmdline_options(texts(args@));
            &&& cmdline is Some <==> texts(args@).contains("__session-supervisor"@)
                && options.session_id is Some && options.socket_path is Some
            &&& cmdline matches Some(c) ==> {
                &&& Some(c.session_id@) == options.session_id
                &&& Some(c.socket_path@) == options.socket_path
                &&& optional_bytes(c.size_json) == options.size_json
            }
        }),
{
    let ghost all = texts(args@);
    let mut marked: bool = false;
    let mut k: usize = 0;
    while k < args.len()
        invariant
            k <= args@.len(),
            all == texts(args@),
            marked == exists|j: int| 0 <= j < k && #[trigger] all[j] == "__session-supervisor"@,
        decreases args@.len() - k,
    {
        if str_equal(args[k].as_str(), "__session-supervisor") {
            assert(all[k as int] == "__session-supervisor"@);
            marked = true;
        }
        k = k + 1;
    }
    assert(marked == all.contains("__session-supervisor"@));
    if !marked {
        return None;
    }
    let mut session_id: Option<String> = None;
    let mut socket_path: Option<String> = None;
    let mut size_json: Option<Vec<u8>> = None;
    let mut index: usize = 0;
    while index < args.len()
        invariant
            args@.len() < usize::MAX - 2,
            index <= args@.len() + 2,
            all == texts(args@),
            cmdline_options(all) == read_options(
                all,
                index as int,
                CmdlineModel {
                    session_id: optional_text(session_id),
                    socket_path: optional_text(socket_path),
                    size_json: optional_bytes(size_json),
                },
            ),
        decreases args@.len() + 2 - index,
    {
        let arg = args[index].as_str();
        assert(arg@ == all[index as int]);
        if str_equal(arg, "--session-id") {
            session_id = cloned_arg(args, index + 1);
            index = index + 2;
        } else if str_equal(arg, "--socket-path") {
            socket_path = cloned_arg(args, index + 1);
            index = index + 2;
        } else if str_equal(arg, "--size-base64") {
            size_json = match cloned_arg(args, index + 1) {
                Some(raw) => match base64_decode(raw.as_str()) {
                    Ok(bytes) => Some(bytes),
                    Err(_) => None,
                },
                None => None,
            };
            index = index + 2;
        } else {
            index = index + 1;
        }
    }
    match (session_id, socket_path) {
        (Some(session_id), Some(socket_path)) => Some(
            SupervisorCmdline { session_id, socket_path, size_json },
        ),
        _ => None,
    }
}

/// The texts of the arguments of a raw command line, which ends each of them with a zero byte.
pub open spec fn raw_args(raw: Seq<u8>) -> Seq<Seq<char>> {
    let pieces = non_empty_pieces(split_on(raw, 0));
    Seq::new(pieces.len(), |i: int| lossy_text(pieces[i]))
}

/// Splits a raw command line into its arguments.
pub fn cmdline_args(raw: &[u8]) -> (args: Vec<String>)
    ensures
        texts(args@) == raw_args(raw@),
{
    let pieces = keep_non_empty(split_bytes(raw, 0));
    let ghost parts = byte_views(pieces@);
    let mut args: Vec<String> = Vec::new();
    let mut i: usize = 0;
    while i < pieces.len()
        invariant
            i <= pieces@.len(),
            parts == byte_views(pieces@),
            args@.len() == i,
            forall|k: int| 0 <= k < i ==> (#[trigger] args@[k])@ == lossy_text(parts[k]),
        decreases pieces@.len() - i,
    {
        args.push(utf8_lossy(pieces[i].as_slice()));
        i = i + 1;
    }
    assert(texts(args@) =~= raw_args(raw@));
    args
}

/// The process that an entry of the process directory stands for: its name is the number of the
/// process.
pub fn proc_entry_pid(name: &str) -> (pid: Option<u32>)
    ensures
        pid is Some <==> is_u32_digits(name@),
        pid matches Some(p) ==> p == digits_value(name@),
{
    parse_digits(str_chars(name).as_slice())
}

/// The arguments with which a supervisor is started. The command and the size are passed as
/// documents, in base64.
pub open spec fn launch_args(
    session_id: Seq<char>,
    socket_path: Seq<char>,
    command_json: Seq<u8>,
    size_json: Seq<u8>,
) -> Seq<Seq<char>> {
    seq![
        "__session-supervisor"@,
        "--session-id"@,
        session_id,
        "--socket-path"@,
        socket_path,
        "--command-base64"@,
        base64_text(command_json),
        "--size-base64"@,
        base64_text(size_json),
    ]
}

/// Builds the arguments with which a supervisor is started.
pub fn supervisor_launch_args(
    session_id: &str,
    socket_path: &str,
    command_json: &[u8],
    size_json: &[u8],
) -> (args: Vec<String>)
    requires
        (command_json@.len() + 2) / 3 * 4 <= usize::MAX,
        (size_json@.len() + 2) / 3 * 4 <= usize::MAX,
    ensures
        texts(args@) == launch_args(session_id@, socket_path@, command_json@, size_json@),
        base64_bytes(base64_text(size_json@)) == Ok::<Seq<u8>, Seq<char>>(size_json@),
        !base64_text(command_json@).contains('-'),
{
    let mut args: Vec<String> = Vec::new();
    args.push("__session-supervisor".to_owned());
    args.push("--session-id".to_owned());
    args.push(session_id.to_owned());
    args.push("--socket-path".to_owned());
    args.push(socket_path.to_owned());
    args.push("--command-base64".to_owned());
    args.push(base64_encode(command_json));
    args.push("--size-base64".to_owned());
    args.push(base64_encode(size_json));
    assert(texts(args@) =~= launch_args(session_id@, socket_path@, command_json@, size_json@));
    args
}

/// A supervisor is recognised by the arguments with which it is started, behind the path of the
/// program.
pub proof fn law_launched_supervisor_is_recognised(
    program: Seq<char>,
    session_id: Seq<char>,
    socket_path: Seq<char>,
    command_json: Seq<u8>,
    size_json: Seq<u8>,
)
    requires
        base64_bytes(base64_text(size_json)) == Ok::<Seq<u8>, Seq<char>>(size_json),
        !base64_text(command_json).contains('-'),
        program.len() == 0 || program[0] != '-',
    ensures
        ({
            let args = seq![program] + launch_args(session_id, socket_path, command_json, size_json);
            &&& args.contains("__session-supervisor"@)
            &&& cmdline_options(args).session_id == Some(session_id)
            &&& cmdline_options(args).socket_path == Some(socket_path)
            &&& cmdline_options(args).size_json == Some(size_json)
        }),
{
    let args = seq![program] + launch_args(session_id, socket_path, command_json, size_json);
    reveal_strlit("__session-supervisor");
    reveal_strlit("--session-id");
    reveal_strlit("--socket-path");
    reveal_strlit("--command-base64");
    reveal_strlit("--size-base64");
    assert(args[1] == "__session-supervisor"@);
    let command = base64_text(command_json);
    assert("--session-id"@[0] == '-');
    assert("--socket-path"@[0] == '-');
    assert("--size-base64"@[0] == '-');
    assert("--session-id"@.contains('-'));
    assert("--socket-path"@.contains('-'));
    assert("--size-base64"@.contains('-'));
    assert("--command-base64"@.len() == 16);
    assert("--session-id"@.len() == 12);
    assert("--socket-path"@.len() == 13);
    assert("--size-base64"@.len() == 13);
    assert("__session-supervisor"@.len() == 20);
    assert("--socket-path"@[3] != "--size-base64"@[3]);
    assert(args[7] == command);
    reveal_with_fuel(read_options, 10);
}

// ---------------------------------------------------------------------------
// Running supervisors

/// A supervisor whose socket lies in the runtime directory.
pub open spec fn lies_in(process: SupervisorProcess, runtime_dir: Seq<char>) -> bool {
    match path_parent_text(process.socket_path@) {
        Some(parent) => same_path(parent, runtime_dir),
        None => false,
    }
}

fn socket_lies_in(socket_path: &str, runtime_dir: &str) -> (inside: bool)
    ensures
        inside == (match path_parent_text(socket_path@) {
            Some(parent) => same_path(parent, runtime_dir@),
            None => false,
        }),
{
    match path_parent(socket_path) {
        Some(parent) => paths_equal(parent.as_str(), runtime_dir),
        None => false,
    }
}

/// The processes of the supervisors in a runtime directory whose session is not among the valid ones.
pub open spec fn orphans(
    runtime_dir: Seq<char>,
    valid_session_ids: Set<Seq<char>>,
    supervisors: Seq<SupervisorProcess>,
) -> Seq<u32>
    decreases supervisors.len(),
{
    if supervisors.len() == 0 {
        Seq::empty()
    } else {
        let rest = orphans(runtime_dir, valid_session_ids, supervisors.drop_last());
        let last = supervisors.last();
        if lies_in(last, runtime_dir) && !valid_session_ids.contains(last.session_id@) {
            rest.push(last.pid)
        } else {
            rest
        }
    }
}

/// Finds the supervisors in a runtime directory that no valid session owns.
pub fn orphaned_supervisor_pids(
    runtime_dir: &str,
    valid_session_ids: &StringSet,
    supervisors: &[SupervisorProcess],
) -> (pids: Vec<u32>)
    requires
        valid_session_ids.wf(),
    ensures
        pids@ == orphans(runtime_dir@, valid_session_ids@, supervisors@),
{
    let mut pids: Vec<u32> = Vec::new();
    let mut i: usize = 0;
    assert(supervisors@.take(0) =~= Seq::<SupervisorProcess>::empty());
    while i < supervisors.len()
        invariant
            i <= supervisors@.len(),
            valid_session_ids.wf(),
            pids@ == orphans(runtime_dir@, valid_session_ids@, supervisors@.take(i as int)),
        decreases supervisors@.len() - i,
    {
        assert(supervisors@.take(i + 1).drop_last() =~= supervisors@.take(i as int));
        assert(supervisors@.take(i + 1).last() == supervisors@[i as int]);
        if socket_lies_in(supervisors[i].socket_path.as_str(), runtime_dir)
            && !valid_session_ids.contains(supervisors[i].session_id.as_str()) {
            pids.push(supervisors[i].pid);
        }
        i = i + 1;
    }
    assert(supervisors@.take(i as int) =~= supervisors@);
    pids
}

/// A running supervisor that a daemon can take over.
#[derive(Debug, Clone, PartialEq, Eq)]
pub struct SupervisorRestoreCandidate {
    pub session_id: String,
    pub socket_path: String,
    pub supervisor_pid: u32,
    pub size: PtySize,
}

/// What a [`SupervisorRestoreCandidate`] says.
pub struct CandidateModel {
    pub session_id: Seq<char>,
    pub socket_path: Seq<char>,
    pub supervisor_pid: u32,
    pub size: PtySize,
}

impl View for SupervisorRestoreCandidate {
    type V = CandidateModel;

    open spec fn view(&self) -> CandidateModel {
        CandidateModel {
            session_id: self.session_id@,
            socket_path: self.socket_path@,
            supervisor_pid: self.supervisor_pid,
            size: self.size,
        }
    }
}

/// The contents of a sequence of candidates.
pub open spec fn candidate_models(candidates: Seq<SupervisorRestoreCandidate>) -> Seq<CandidateModel> {
    Seq::new(candidates.len(), |i: int| candidates[i]@)
}

/// The supervisors in a runtime directory whose size is known.
pub open spec fn restorable(
    runtime_dir: Seq<char>,
    supervisors: Seq<SupervisorProcess>,
) -> Seq<CandidateModel>
    decreases supervisors.len(),
{
    if supervisors.len() == 0 {
        Seq::empty()
    } else {
        let rest = restorable(runtime_dir, supervisors.drop_last());
        let last = supervisors.last();
        match last.size {
            Some(size) if lies_in(last, runtime_dir) => rest.push(
                CandidateModel {
                    session_id: last.session_id@,
                    socket_path: last.socket_path@,
                    supervisor_pid: last.pid,
                    size,
                },
            ),
            _ => rest,
        }
    }
}

/// A way to start sessions under supervisors of their own.
#[derive(Debug)]
pub struct SupervisorPtyBackend {
    binary_path: String,
    runtime_dir: Result<String, String>,
}

impl Clone for SupervisorPtyBackend {
    fn clone(&self) -> (backend: Self)
        ensures
            backend.binary() == self.binary(),
            backend.dir() == self.dir(),
    {
        SupervisorPtyBackend {
            binary_path: self.binary_path.clone(),
            runtime_dir: match &self.runtime_dir {
                Ok(dir) => Ok(dir.clone()),
                Err(message) => Err(message.clone()),
            },
        }
    }
}

/// What the backend learns from the machine that it runs on.
#[derive(Debug, Clone)]
pub struct HostEnvironment {
    /// The current directory, where there is one.
    pub current_dir: Option<String>,
    /// The directory for temporary files.
    pub temp_dir: String,
    /// A program that was named for tests, and exists.
    pub test_binary: Option<String>,
    /// The running program, where it is known.
    pub current_exe: Option<String>,
    /// The program beside the directory of the running one exists.
    pub sibling_exists: bool,
}

/// The program two directories above the running one.
pub open spec fn sibling_of(current_exe: Seq<char>) -> Option<Seq<char>> {
    match path_parent_text(current_exe) {
        Some(deps_dir) => match path_parent_text(deps_dir) {
            Some(target_dir) => Some(joined(target_dir, "termd"@)),
            None => None,
        },
        None => None,
    }
}

/// The program two directories above the running one: there it lies when tests run.
pub fn binary_sibling(current_exe: &str) -> (path: Option<String>)
    ensures
        optional_text(path) == sibling_of(current_exe@),
{
    match path_parent(current_exe) {
        Some(deps_dir) => match path_parent(deps_dir.as_str()) {
            Some(target_dir) => Some(join_path(target_dir.as_str(), "termd")),
            None => None,
        },
        None => None,
    }
}

impl HostEnvironment {
    /// The program that supervisors run.
    pub open spec fn binary(self) -> Seq<char> {
        match self.test_binary {
            Some(path) => path@,
            None => match self.current_exe {
                Some(exe) => match sibling_of(exe@) {
                    Some(candidate) if self.sibling_exists => candidate,
                    _ => exe@,
                },
                None => "termd"@,
            },
        }
    }

    /// Finds the program that supervisors run.
    pub fn discover_termd_binary_path(&self) -> (path: String)
        ensures
            path@ == self.binary(),
    {
        if let Some(path) = &self.test_binary {
            return path.clone();
        }
        if let Some(exe) = &self.current_exe {
            if let Some(candidate) = binary_sibling(exe.as_str()) {
                if self.sibling_exists {
                    return candidate;
                }
            }
            return exe.clone();
        }
        "termd".to_owned()
    }
}

impl SupervisorPtyBackend {
    /// The program that supervisors run.
    pub closed spec fn binary(&self) -> Seq<char> {
        self.binary_path@
    }

    /// The runtime directory, or why there is none.
    pub closed spec fn dir(&self) -> Result<Seq<char>, Seq<char>> {
        match self.runtime_dir {
            Ok(dir) => Ok(dir@),
            Err(message) => Err(message@),
        }
    }

    /// A backend for a program and a state file.
    pub fn with_binary_and_state_path(
        binary_path: &str,
        state_path: &str,
        environment: &HostEnvironment,
    ) -> (backend: Self)
        ensures
            backend.binary() == binary_path@,
            ({
                let base = base_dir_of(
                    state_path@,
                    optional_text(environment.current_dir),
                    environment.temp_dir@,
                );
                backend.dir() == (match runtime_dir_in(base) {
                    Some(dir) => Ok::<Seq<char>, Seq<char>>(dir),
                    None => Err(
                        "cannot construct a safe supervisor runtime directory for state path "@
                            + state_path@ + ": Unix socket path exceeds 107 bytes"@,
                    ),
                })
            }),
    {
        let current_dir: Option<String> = match &environment.current_dir {
            Some(dir) => Some(dir.clone()),
            None => None,
        };
        let base = supervisor_base_dir(state_path, current_dir, environment.temp_dir.clone());
        SupervisorPtyBackend {
            binary_path: binary_path.to_owned(),
            runtime_dir: supervisor_runtime_dir(state_path, base.as_str()),
        }
    }

    /// A backend for the running program and a state file.
    pub fn for_state_path(state_path: &str, environment: &HostEnvironment) -> (backend: Self)
        ensures
            backend.binary() == environment.binary(),
            ({
                let base = base_dir_of(
                    state_path@,
                    optional_text(environment.current_dir),
                    environment.temp_dir@,
                );
                backend.dir() == (match runtime_dir_in(base) {
                    Some(dir) => Ok::<Seq<char>, Seq<char>>(dir),
                    None => Err(
                        "cannot construct a safe supervisor runtime directory for state path "@
                            + state_path@ + ": Unix socket path exceeds 107 bytes"@,
                    ),
                })
            }),
    {
        let binary = environment.discover_termd_binary_path();
        SupervisorPtyBackend::with_binary_and_state_path(binary.as_str(), state_path, environment)
    }

    /// The program that supervisors run.
    pub fn binary_path(&self) -> (path: &str)
        ensures
            path@ == self.binary(),
    {
        self.binary_path.as_str()
    }

    /// The runtime directory, or why there is none.
    pub fn runtime_dir(&self) -> (res: PtyResult<&str>)
        ensures
            match self.dir() {
                Ok(dir) => res matches Ok(d) && d@ == dir,
                Err(message) => res matches Err(e) && e@ == PtyErrorModel::Backend(message),
            },
    {
        match &self.runtime_dir {
            Ok(dir) => Ok(dir.as_str()),
            Err(message) => Err(PtyError::Backend(message.clone())),
        }
    }

    /// The path of the control socket of a session.
    pub fn socket_path_for_session(&self, session_id: &str) -> (res: PtyResult<String>)
        ensures
            match self.dir() {
                Ok(dir) => res matches Ok(path) && path@ == joined(
                    dir,
                    socket_name(text_hash(session_id@), ".sock"@),
                ),
                Err(message) => res matches Err(e) && e@ == PtyErrorModel::Backend(message),
            },
    {
        match self.runtime_dir() {
            Ok(dir) => {
                let name = short_supervisor_socket_file_name(session_id);
                Ok(join_path(dir, name.as_str()))
            },
            Err(error) => Err(error),
        }
    }

    /// How many of the running supervisors in the runtime directory no valid session owns.
    pub fn orphaned_supervisor_count(
        &self,
        valid_session_ids: &StringSet,
        supervisors: &[SupervisorProcess],
    ) -> (res: PtyResult<usize>)
        requires
            valid_session_ids.wf(),
        ensures
            match self.dir() {
                Ok(dir) => res matches Ok(count) && count == orphans(
                    dir,
                    valid_session_ids@,
                    supervisors@,
                ).len(),
                Err(message) => res matches Err(e) && e@ == PtyErrorModel::Backend(message),
            },
    {
        match self.runtime_dir() {
            Ok(dir) => Ok(orphaned_supervisor_pids(dir, valid_session_ids, supervisors).len()),
            Err(error) => Err(error),
        }
    }

    /// The running supervisors in the runtime directory that a daemon can take over.
    pub fn live_supervisor_restore_candidates(&self, supervisors: &[SupervisorProcess]) -> (res:
        PtyResult<Vec<SupervisorRestoreCandidate>>)
        ensures
            match self.dir() {
                Ok(dir) => res matches Ok(candidates) && candidate_models(candidates@) == restorable(
                    dir,
                    supervisors@,
                ),
                Err(message) => res matches Err(e) && e@ == PtyErrorModel::Backend(message),
            },
    {
        let dir = match self.runtime_dir() {
            Ok(dir) => dir,
            Err(error) => {
                return Err(error);
            },
        };
        let mut candidates: Vec<SupervisorRestoreCandidate> = Vec::new();
        let mut i: usize = 0;
        assert(supervisors@.take(0) =~= Seq::<SupervisorProcess>::empty());
        assert(candidate_models(candidates@) =~= Seq::<CandidateModel>::empty());
        while i < supervisors.len()
            invariant
                i <= supervisors@.len(),
                candidate_models(candidates@) == restorable(dir@, supervisors@.take(i as int)),
            decreases supervisors@.len() - i,
        {
            assert(supervisors@.take(i + 1).drop_last() =~= supervisors@.take(i as int));
            assert(supervisors@.take(i + 1).last() == supervisors@[i as int]);
            let ghost before = candidate_models(candidates@);
            if let Some(size) = supervisors[i].size {
                if socket_lies_in(supervisors[i].socket_path.as_str(), dir) {
                    let candidate = SupervisorRestoreCandidate {
                        session_id: supervisors[i].session_id.clone(),
                        socket_path: supervisors[i].socket_path.clone(),
                        supervisor_pid: supervisors[i].pid,
                        size,
                    };
                    let ghost model = candidate@;
                    candidates.push(candidate);
                    assert(candidate_models(candidates@) =~= before.push(model));
                }
            }
            i = i + 1;
        }
        assert(supervisors@.take(i as int) =~= supervisors@);
        Ok(candidates)
    }
}

/// The socket and the process of a supervisor to reconnect to.
pub fn reconnect_target(restore_info: &PtyRestoreInfo) -> (res: PtyResult<(String, u32)>)
    ensures
        match restore_info@ {
            RestoreModel::UnixSocket { socket_path, supervisor_pid, supervisor_status } => {
                if supervisor_status == PtySupervisorStatus::Running {
                    res matches Ok((path, pid)) && path@ == socket_path && pid == supervisor_pid
                } else {
                    res matches Err(e) && e@ == not_reconnectable(supervisor_status)
                }
            },
            RestoreModel::Tmux { .. } => res matches Err(e) && e@ == PtyErrorModel::Backend(
                "supervisor backend cannot reconnect obsolete tmux restore metadata"@,
            ),
        },
{
    match restore_info {
        PtyRestoreInfo::UnixSocket { socket_path, supervisor_pid, supervisor_status } => {
            if *supervisor_status != PtySupervisorStatus::Running {
                return Err(not_reconnectable_error(*supervisor_status));
            }
            Ok((socket_path.clone(), *supervisor_pid))
        },
        PtyRestoreInfo::Tmux { .. } => Err(
            PtyError::backend_message(
                "supervisor backend cannot reconnect obsolete tmux restore metadata",
            ),
        ),
    }
}

/// The socket at which a viewer of a session attaches.
pub fn attach_target(restore_info: Option<&PtyRestoreInfo>, session_id: &str) -> (res: PtyResult<
    String,
>)
    ensures
        match restore_info {
            None => res matches Err(e) && e@ == PtyErrorModel::Backend(
                "supervisor attach requires reconnect metadata"@,
            ),
            Some(info) => match info@ {
                RestoreModel::Tmux { .. } => res matches Err(e) && e@ == PtyErrorModel::Backend(
                    "supervisor backend cannot attach obsolete tmux restore metadata"@,
                ),
                RestoreModel::UnixSocket { socket_path, .. } => res matches Ok(path) && path@
                    == attach_path(socket_path, session_id@),
            },
        },
{
    let info = match restore_info {
        None => {
            return Err(PtyError::backend_message("supervisor attach requires reconnect metadata"));
        },
        Some(info) => info,
    };
    match info {
        PtyRestoreInfo::Tmux { .. } => Err(
            PtyError::backend_message(
                "supervisor backend cannot attach obsolete tmux restore metadata",
            ),
        ),
        PtyRestoreInfo::UnixSocket { socket_path, .. } => {
            Ok(attach_socket_path_for_control_socket(socket_path.as_str(), session_id))
        },
    }
}

/// The arguments of a supervisor process.
#[derive(Debug, Clone)]
pub struct SessionSupervisorArgs {
    pub session_id: String,
    pub socket_path: String,
    pub command: CommandSpec,
    pub size: PtySize,
}

} // verus!
