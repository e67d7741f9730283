//! tmux: how its sessions are named, started and asked, and how its answers are read.

use crate::laws::text::law_decimal_can_be_read_back;
use crate::pty::tmux::{
    absolute_path_without_canonicalize, answer_lines, awaits_client_end, clear_sequences, client_from,
    client_in_line, client_name_for_pid, client_start_step, ends_behind, env_args, exit_status_text,
    kills_client, new_session_args_of, pane_current_path, pane_dead_status, pane_process_id, ping_result,
    plain_name_char, sanitize_tmux_socket_component, sanitized, show_exit_status, startup_output_complete,
    startup_failure, startup_output_note, tmux_failure, tmux_output_requests_history_clear,
    tmux_socket_path_beside, tmux_socket_path_for_state_path, not_running_error, wait_status, ChildLook, ClientStartStep,
    HistoryClearScanner, TmuxOption, TmuxPtyBackend, TmuxTarget, TmuxTerminalStream,
};
use crate::pty::{
    texts, CommandSpec, FrameModel, PtyError, PtyErrorModel, PtyExitStatus, PtyRestoreInfo,
    PtyResult, PtySize, PtySnapshot, PtyTerminalFrame,
};
use crate::text::{
    decimal, digits_value, first_at, is_u32_digits, is_whitespace, lossy_text, occurs_at, split_once,
    trimmed,
};
use vstd::prelude::*;

verus! {

/// A letter, a digit, a dash or an underscore.
pub open spec fn is_plain(c: char) -> bool {
    ||| 'a' <= c <= 'z'
    ||| 'A' <= c <= 'Z'
    ||| '0' <= c <= '9'
    ||| c == '-'
    ||| c == '_'
}

proof fn lemma_plain(text: Seq<char>, dots: bool, i: int)
    requires
        0 <= i < text.len(),
    ensures
        sanitized(text, dots).len() == text.len(),
        sanitized(text, dots)[i] == (if is_plain(text[i]) || (dots && text[i] == '.') {
            text[i]
        } else {
            '_'
        }),
{
    assert(is_plain(text[i]) == plain_name_char(text[i]));
}

/// A session of tmux is named after its session; what tmux could misread becomes an underscore, and
/// everything else stays as it is.
pub proof fn law_session_is_named_after_its_id(session_id: &str, name: String)
    requires
        call_ensures(TmuxPtyBackend::session_name_for_id, (session_id,), name),
    ensures
        name@.len() == 6 + session_id@.len(),
        name@.take(6) == "termd-"@,
        forall|i: int|
            0 <= i < session_id@.len() ==> #[trigger] name@[6 + i] == (if is_plain(session_id@[i]) {
                session_id@[i]
            } else {
                '_'
            }),
{
    reveal_strlit("termd-");
    assert(name@.take(6) =~= "termd-"@);
    assert forall|i: int| 0 <= i < session_id@.len() implies #[trigger] name@[6 + i] == (if is_plain(
        session_id@[i],
    ) {
        session_id@[i]
    } else {
        '_'
    }) by {
        lemma_plain(session_id@, false, i);
        assert(name@[6 + i] == sanitized(session_id@, false)[i]);
    }
}

/// A name in a path keeps its dots too.
pub proof fn law_socket_name_keeps_its_dots(raw: &str, name: String)
    requires
        call_ensures(sanitize_tmux_socket_component, (raw,), name),
    ensures
        name@.len() == raw@.len(),
        forall|i: int|
            0 <= i < raw@.len() ==> #[trigger] name@[i] == (if is_plain(raw@[i]) || raw@[i] == '.' {
                raw@[i]
            } else {
                '_'
            }),
{
    assert forall|i: int| 0 <= i < raw@.len() implies #[trigger] name@[i] == (if is_plain(raw@[i]) || raw@[i]
        == '.' {
        raw@[i]
    } else {
        '_'
    }) by {
        lemma_plain(raw@, true, i);
    }
}

/// A path that begins at the root stays; any other lies below the current directory.
pub proof fn law_path_begins_at_the_root(path: &str, current_dir: Option<&str>, res: String)
    requires
        call_ensures(absolute_path_without_canonicalize, (path, current_dir), res),
    ensures
        path@.len() > 0 && path@[0] == '/' ==> res@ == path@,
        !(path@.len() > 0 && path@[0] == '/') && current_dir is Some && current_dir->0@.len() > 0
            && current_dir->0@.last() != '/' ==> res@ == current_dir->0@.push('/') + path@,
        !(path@.len() > 0 && path@[0] == '/') && current_dir is None ==> res@ == "."@.push('/') + path@,
{
    reveal_strlit("/");
    reveal_strlit(".");
    if current_dir is Some {
        assert(current_dir->0@ + "/"@ =~= current_dir->0@.push('/'));
    }
    assert("."@.last() == '.');
    assert("."@ + "/"@ =~= "."@.push('/'));
}

/// The socket lies beside the state, in the same directory and under the same name.
pub proof fn law_socket_lies_beside_the_state(
    stem: String,
    parent: String,
    current_dir: Option<&str>,
    path: String,
    raw: &str,
    cleaned: String,
)
    requires
        call_ensures(tmux_socket_path_beside, (Some(stem), Some(parent), current_dir), path),
        raw@ == stem@,
        call_ensures(sanitize_tmux_socket_component, (raw,), cleaned),
        stem@.len() > 0,
        parent@.len() > 1,
        parent@[0] == '/',
        parent@.last() != '/',
    ensures
        path@ == parent@.push('/') + cleaned@ + ".tmux.sock"@,
{
    reveal_strlit("/");
    reveal_strlit(".tmux.sock");
    assert(cleaned@.len() > 0);
    assert(cleaned@[0] != '/');
    let name = cleaned@ + ".tmux.sock"@;
    assert(name[0] == cleaned@[0]);
    assert(parent@ + "/"@ =~= parent@.push('/'));
    let whole = parent@ + "/"@ + name;
    assert(whole[0] == '/');
    assert(whole =~= parent@.push('/') + cleaned@ + ".tmux.sock"@);
}

/// A backend uses the socket that it was given, and stays with its program at another one.
pub proof fn law_backend_uses_its_socket(
    socket: &str,
    backend: TmuxPtyBackend,
    other: &str,
    moved: TmuxPtyBackend,
    copy: TmuxPtyBackend,
)
    requires
        call_ensures(TmuxPtyBackend::with_socket_path, (socket,), backend),
        call_ensures(TmuxPtyBackend::at_socket, (&backend, other), moved),
        call_ensures(TmuxPtyBackend::clone, (&backend,), copy),
    ensures
        backend.socket() == socket@,
        backend.program() == "tmux"@,
        moved.socket() == other@,
        moved.program() == "tmux"@,
        copy.socket() == socket@,
        copy.program() == "tmux"@,
{
}

/// A session that was started is found again where it was, under its name.
pub proof fn law_session_is_found_again(
    backend: &TmuxPtyBackend,
    name: &str,
    info: PtyRestoreInfo,
    again: PtyResult<(TmuxPtyBackend, String)>,
    attached: PtyResult<(TmuxPtyBackend, String)>,
)
    requires
        call_ensures(TmuxPtyBackend::restore_info, (backend, name), info),
        call_ensures(TmuxPtyBackend::reconnect_target, (backend, &info), again),
        call_ensures(TmuxPtyBackend::attach_target, (backend, Some(&info)), attached),
    ensures
        again is Ok,
        (again->Ok_0).0.socket() == backend.socket(),
        (again->Ok_0).0.program() == backend.program(),
        (again->Ok_0).1@ == name@,
        attached is Ok,
        (attached->Ok_0).0.socket() == backend.socket(),
        (attached->Ok_0).1@ == name@,
{
}

// ---------------------------------------------------------------------------
// Commands

proof fn lemma_env_args(keys: Seq<Seq<char>>, env: Map<Seq<char>, Seq<char>>, k: int)
    ensures
        env_args(keys, env).len() == 2 * keys.len(),
        0 <= k < keys.len() ==> env_args(keys, env)[2 * k] == "-e"@ && env_args(keys, env)[2 * k + 1]
            == keys[k] + "="@ + env[keys[k]],
    decreases keys.len(),
{
    if keys.len() > 0 {
        lemma_env_args(keys.drop_last(), env, k);
        let before = env_args(keys.drop_last(), env);
        let after = env_args(keys, env);
        if 0 <= k < keys.len() - 1 {
            assert(after[2 * k] == before[2 * k]);
            assert(after[2 * k + 1] == before[2 * k + 1]);
            assert(keys.drop_last()[k] == keys[k]);
        }
    }
}

/// A session is started in the background, under its name and with its size; every variable is passed on
/// with its value, and the program comes last, with its arguments.
pub proof fn law_session_is_started_as_ordered(
    backend: &TmuxPtyBackend,
    name: &str,
    command: &CommandSpec,
    size: PtySize,
    res: PtyResult<Vec<String>>,
    key: Seq<char>,
)
    requires
        call_ensures(TmuxPtyBackend::new_session_args, (backend, name, command, size), res),
    ensures
        (forall|i: int| 0 <= i < command@.program.len() ==> is_whitespace(#[trigger] command@.program[i]))
            ==> res is Err,
        res is Ok && command@.env.contains_key(key) ==> key.len() > 0 && !key.contains('='),
        res is Ok ==> {
            let args = texts((res->Ok_0)@);
            let n = args.len() as int;
            let m = command@.args.len() as int;
            &&& n >= 10 + m
            &&& args[0] == "new-session"@ && args[1] == "-d"@
            &&& args[2] == "-s"@ && args[3] == name@
            &&& args[4] == "-x"@ && args[5] == decimal(size.cols as nat)
            &&& args[6] == "-y"@ && args[7] == decimal(size.rows as nat)
            &&& args[n - m - 2] == "--"@
            &&& args[n - m - 1] == command@.program
            &&& args.skip(n - m) == command@.args
            &&& command@.cwd is Some ==> args[n - m - 4] == "-c"@ && args[n - m - 3] == command@.cwd->0
            &&& command@.env.contains_key(key) ==> exists|i: int|
                8 <= i < n - m - 3 && #[trigger] args[i] == "-e"@ && args[i + 1] == key + "="@
                    + command@.env[key]
        },
{
    if res is Ok {
        let args = texts((res->Ok_0)@);
        let keys = choose|keys: Seq<Seq<char>>|
            {
                &&& keys.to_set() == command@.env.dom()
                &&& crate::collections::strictly_sorted(keys)
                &&& args == #[trigger] new_session_args_of(name@, size, keys, command@)
            };
        lemma_env_args(keys, command@.env, 0);
        let n = args.len() as int;
        let m = command@.args.len() as int;
        assert(args.skip(n - m) =~= command@.args);
        if command@.env.contains_key(key) {
            assert(keys.to_set().contains(key));
            let k = choose|k: int| 0 <= k < keys.len() && keys[k] == key;
            lemma_env_args(keys, command@.env, k);
            let all = env_args(keys, command@.env);
            assert(args[8 + 2 * k] == all[2 * k]);
            assert(args[8 + 2 * k + 1] == all[2 * k + 1]);
        }
    }
}

/// tmux is asked about a session by its name, and at the socket of the backend.
pub proof fn law_tmux_is_asked_by_name(
    backend: &TmuxPtyBackend,
    name: &str,
    property: &str,
    size: PtySize,
    base: Vec<String>,
    resize: Vec<String>,
    display: Vec<String>,
    capture: Vec<String>,
    control: Vec<String>,
    clients: Vec<String>,
)
    requires
        call_ensures(TmuxPtyBackend::build_tmux_command, (backend, false), base),
        call_ensures(TmuxPtyBackend::resize_args, (name, size), resize),
        call_ensures(TmuxPtyBackend::display_args, (name, property), display),
        call_ensures(TmuxPtyBackend::capture_pane_args, (name,), capture),
        call_ensures(TmuxPtyBackend::control_client_args, (name,), control),
        call_ensures(TmuxPtyBackend::list_clients_args, (name,), clients),
    ensures
        texts(base@) == seq!["-S"@, backend.socket()],
        texts(resize@) == seq![
            "resize-window"@,
            "-t"@,
            name@,
            "-x"@,
            decimal(size.cols as nat),
            "-y"@,
            decimal(size.rows as nat),
        ],
        texts(display@) == seq!["display-message"@, "-pt"@, name@, property@],
        texts(capture@) == seq!["capture-pane"@, "-p"@, "-e"@, "-J"@, "-S"@, "-500"@, "-t"@, name@],
        texts(control@) == seq!["-C"@, "attach-session"@, "-t"@, name@],
        texts(clients@) == seq![
            "list-clients"@,
            "-t"@,
            name@,
            "-F"@,
            "#{client_pid}\t#{client_name}"@,
        ],
{
}

/// An action is named for what it does, and an option is set for one session or for all.
pub proof fn law_actions_are_named(
    action: TmuxTarget,
    target: &str,
    args: Vec<String>,
    name: &str,
    option: &str,
    value: &str,
    one: Vec<String>,
    all: Vec<String>,
)
    requires
        call_ensures(TmuxPtyBackend::target_args, (action, target), args),
        call_ensures(TmuxPtyBackend::set_option_args, (Some(name), option, value), one),
        call_ensures(TmuxPtyBackend::set_option_args, (None::<&str>, option, value), all),
    ensures
        args@.len() == 3,
        texts(args@)[1] == "-t"@,
        texts(args@)[2] == target@,
        action is HasSession ==> texts(args@)[0] == "has-session"@,
        action is KillSession ==> texts(args@)[0] == "kill-session"@,
        action is ClearHistory ==> texts(args@)[0] == "clear-history"@,
        action is DetachClient ==> texts(args@)[0] == "detach-client"@,
        texts(one@) == seq!["set-option"@, "-t"@, name@, option@, value@],
        texts(all@) == seq!["set-option"@, "-g"@, option@, value@],
{
    assert(texts(args@).len() == args@.len());
}

/// A client is attached to the session at the socket, on a plain terminal and outside of any other tmux.
pub proof fn law_client_is_attached_outside(backend: &TmuxPtyBackend, name: &str, command: CommandSpec)
    requires
        call_ensures(TmuxPtyBackend::attach_tmux_command, (backend, name), command),
    ensures
        command@.program == backend.program(),
        command@.args == seq!["-S"@, backend.socket(), "attach-session"@, "-t"@, name@],
        command@.env.contains_key("TERM"@),
        command@.env["TERM"@] == "ansi"@,
        command@.removed_env.contains("TMUX"@),
        command@.removed_env.contains("TMUX_PANE"@),
        command@.cwd is None,
{
}

// ---------------------------------------------------------------------------
// Answers

proof fn lemma_trim_plain(text: Seq<char>)
    requires
        forall|i: int| 0 <= i < text.len() ==> !is_whitespace(#[trigger] text[i]),
    ensures
        trimmed(text) == text,
{
    if text.len() > 0 {
        assert(!is_whitespace(text[0]));
        assert(!is_whitespace(text[text.len() - 1]));
    }
}

proof fn lemma_digits_of(n: nat)
    requires
        n <= u32::MAX,
    ensures
        is_u32_digits(decimal(n)),
        digits_value(decimal(n)) == n,
        crate::text::unsigned_digits(decimal(n)) == decimal(n),
        trimmed(decimal(n)) == decimal(n),
{
    law_decimal_can_be_read_back(n);
    assert(!('0' <= '+' <= '9'));
    assert(decimal(n)[0] != '+');
    lemma_trim_plain(decimal(n));
}

proof fn lemma_split_once(before: Seq<char>, c: char, behind: Seq<char>)
    requires
        !before.contains(c),
    ensures
        split_once(before.push(c) + behind, c) == Some((before, behind)),
{
    let text = before.push(c) + behind;
    assert forall|i: int| 0 <= i < before.len() implies text[i] != c by {
        assert(before[i] == text[i]);
        assert(before.contains(before[i]));
    }
    lemma_first(text, c, before.len() as int, 0);
    assert(text.take(before.len() as int) =~= before);
    assert(text.skip(before.len() as int + 1) =~= behind);
}

proof fn lemma_first(text: Seq<char>, c: char, at: int, from: int)
    requires
        0 <= from <= at < text.len(),
        text[at] == c,
        forall|i: int| from <= i < at ==> text[i] != c,
    ensures
        first_at(text, c, from) == at,
    decreases at - from,
{
    if from < at {
        lemma_first(text, c, at, from + 1);
    }
}

/// A client is found in the first line that gives its number; the rest of the line is its name.
pub proof fn law_client_is_found_by_its_number(
    lines: Seq<Seq<char>>,
    pid: u32,
    name: Seq<char>,
    at: int,
)
    requires
        0 <= at < lines.len(),
        name.len() > 0,
        lines[at] == decimal(pid as nat).push('\t') + name,
        forall|i: int| 0 <= i < at ==> client_in_line(#[trigger] lines[i], pid) is None,
    ensures
        client_from(lines, pid, 0) == Some(name),
{
    lemma_digits_of(pid as nat);
    law_decimal_can_be_read_back(pid as nat);
    assert(!decimal(pid as nat).contains('\t')) by {
        if decimal(pid as nat).contains('\t') {
            let i = choose|i: int| 0 <= i < decimal(pid as nat).len() && decimal(pid as nat)[i] == '\t';
            assert('0' <= decimal(pid as nat)[i] <= '9');
        }
    }
    lemma_split_once(decimal(pid as nat), '\t', name);
    lemma_client(lines, pid, name, at, 0);
}

proof fn lemma_client(lines: Seq<Seq<char>>, pid: u32, name: Seq<char>, at: int, from: int)
    requires
        0 <= from <= at < lines.len(),
        client_in_line(lines[at], pid) == Some(name),
        forall|i: int| from <= i < at ==> client_in_line(#[trigger] lines[i], pid) is None,
    ensures
        client_from(lines, pid, from) == Some(name),
    decreases at - from,
{
    if from < at {
        assert(client_in_line(lines[from], pid) is None);
        lemma_client(lines, pid, name, at, from + 1);
    }
}

/// A line with another number, or without a name, is not the client's.
pub proof fn law_other_lines_are_not_the_clients(pid: u32, other: u32, name: Seq<char>, bare: Seq<char>)
    requires
        pid != other,
        !bare.contains('\t'),
    ensures
        client_in_line(decimal(other as nat).push('\t') + name, pid) is None,
        client_in_line(decimal(pid as nat).push('\t'), pid) is None,
        client_in_line(bare, pid) is None,
{
    lemma_digits_of(other as nat);
    lemma_digits_of(pid as nat);
    law_decimal_can_be_read_back(other as nat);
    law_decimal_can_be_read_back(pid as nat);
    assert forall|n: nat| #![trigger decimal(n)] !decimal(n).contains('\t') by {
        law_decimal_can_be_read_back(n);
        if decimal(n).contains('\t') {
            let i = choose|i: int| 0 <= i < decimal(n).len() && decimal(n)[i] == '\t';
            assert('0' <= decimal(n)[i] <= '9');
        }
    }
    lemma_split_once(decimal(other as nat), '\t', name);
    lemma_split_once(decimal(pid as nat), '\t', Seq::empty());
    assert(decimal(pid as nat).push('\t') + Seq::<char>::empty() =~= decimal(pid as nat).push('\t'));
    crate::laws::text::law_split_once_is_at_the_first_place(bare, '\t');
}

/// Lines end at line feeds; a return before one belongs to the end of the line, and a feed at the very end
/// begins no other line.
pub proof fn law_answer_has_its_lines(line: Seq<char>, rest: Seq<char>)
    requires
        !line.contains('\n'),
        line.len() == 0 || line.last() != '\r',
    ensures
        answer_lines(line.push('\n') + rest) == seq![line] + answer_lines(rest),
        answer_lines(line.push('\r').push('\n') + rest) == seq![line] + answer_lines(rest),
        line.len() > 0 ==> answer_lines(line) == seq![line],
        answer_lines(Seq::empty()).len() == 0,
{
    lemma_lines(line, rest);
    let returned = line.push('\r');
    assert(!returned.contains('\n')) by {
        if returned.contains('\n') {
            let i = choose|i: int| 0 <= i < returned.len() && returned[i] == '\n';
            if i < line.len() {
                assert(line[i] == '\n');
            }
        }
    }
    lemma_lines(returned, rest);
    assert(returned.drop_last() =~= line);
    crate::laws::text::law_unseparated_is_one_piece(line, '\n');
    if line.len() > 0 {
        assert(answer_lines(line) =~= seq![line]);
    }
    let none = Seq::<char>::empty();
    assert(!none.contains('\n'));
    crate::laws::text::law_unseparated_is_one_piece(none, '\n');
}

proof fn lemma_lines(line: Seq<char>, rest: Seq<char>)
    requires
        !line.contains('\n'),
    ensures
        answer_lines(line.push('\n') + rest) == seq![crate::pty::tmux::without_return(line)]
            + answer_lines(rest),
{
    crate::laws::text::law_separator_parts_pieces(line, '\n', rest);
    crate::laws::text::law_unseparated_is_one_piece(line, '\n');
    crate::laws::text::law_split_pieces_fit_together(rest, '\n');
    let pieces = crate::text::split_on(rest, '\n');
    let all = crate::text::split_on(line.push('\n') + rest, '\n');
    assert(all == seq![line] + pieces);
    assert(all.last() == pieces.last());
    assert(answer_lines(line.push('\n') + rest) =~= seq![crate::pty::tmux::without_return(line)]
        + answer_lines(rest));
}

/// A number or a path in an answer is what is left without the blanks around it.
pub proof fn law_answers_are_read_without_blanks(
    output: &[u8],
    pid: Option<u32>,
    path: Option<String>,
    n: u32,
)
    requires
        call_ensures(pane_process_id, (output,), pid),
        call_ensures(pane_current_path, (output,), path),
    ensures
        trimmed(lossy_text(output@)) == decimal(n as nat) ==> pid == Some(n),
        trimmed(lossy_text(output@)).len() == 0 ==> pid is None && path is None,
        trimmed(lossy_text(output@)).len() > 0 ==> path is Some && path->0@ == trimmed(
            lossy_text(output@),
        ),
{
    lemma_digits_of(n as nat);
}

/// A pane is dead if its answer says so; the code is the number behind, or zero where there is none.
pub proof fn law_dead_pane_tells_its_code(
    output: &[u8],
    status: Option<PtyExitStatus>,
    flag: Seq<char>,
    rest: Seq<char>,
    n: u32,
)
    requires
        call_ensures(pane_dead_status, (output,), status),
        trimmed(lossy_text(output@)) == flag.push('\t') + rest,
        !flag.contains('\t'),
    ensures
        flag == "1"@ ==> status is Some && status->0.signal is None,
        flag != "1"@ ==> status is None,
        flag == "1"@ && trimmed(rest) == decimal(n as nat) ==> status->0.exit_code == n,
        flag == "1"@ && trimmed(rest).len() == 0 ==> status->0.exit_code == 0,
{
    lemma_split_once(flag, '\t', rest);
    lemma_digits_of(n as nat);
}

/// An answer without a second field tells nothing.
pub proof fn law_unfinished_answer_tells_nothing(output: &[u8], status: Option<PtyExitStatus>)
    requires
        call_ensures(pane_dead_status, (output,), status),
        !trimmed(lossy_text(output@)).contains('\t'),
    ensures
        status is None,
{
    crate::laws::text::law_split_once_is_at_the_first_place(trimmed(lossy_text(output@)), '\t');
}

/// A session answers exactly if its pane is not dead and tmux knows it. One that tmux does not know has
/// ended without an error.
pub proof fn law_living_session_answers(
    name: &str,
    dead: Option<PtyExitStatus>,
    known: bool,
    answer: PtyResult<()>,
    ended: Option<PtyExitStatus>,
)
    requires
        call_ensures(ping_result, (name, dead, known), answer),
        call_ensures(wait_status, (dead, known), ended),
    ensures
        answer is Ok <==> dead is None && known,
        dead is Some ==> ended == dead,
        dead is None && known ==> ended is None,
        dead is None && !known ==> ended is Some && ended->0.exit_code == 0 && ended->0.signal is None,
        dead is None && !known ==> answer->Err_0@ == PtyErrorModel::Backend(
            "tmux session "@ + name@ + " is not running"@,
        ),
{
}

/// A client is looked at twice before it counts as started, and waited for fifty times before it is killed.
pub proof fn law_client_is_given_time(
    looks: usize,
    ended: bool,
    step: ClientStartStep,
    found: ChildLook,
    waits: bool,
    kills: bool,
    collected: usize,
    read: usize,
    complete: bool,
)
    requires
        call_ensures(client_start_step, (looks, ended), step),
        call_ensures(awaits_client_end, (looks, found), waits),
        call_ensures(kills_client, (found,), kills),
        call_ensures(startup_output_complete, (collected, read), complete),
    ensures
        ended ==> step is Failed,
        !ended && looks < 2 ==> step is Look,
        !ended && looks >= 2 ==> step is Started,
        waits <==> found is Running && looks < 50,
        kills <==> found is Running,
        complete <==> read == 0 || collected >= 16384,
{
}

/// How an exit is shown.
pub proof fn law_exit_is_shown(status: &PtyExitStatus, text: String)
    requires
        call_ensures(show_exit_status, (status,), text),
    ensures
        status.signal is None ==> text@ == "PtyExitStatus { exit_code: "@ + decimal(
            status.exit_code as nat,
        ) + ", signal: "@ + "None"@ + " }"@,
        text@ == exit_status_text(*status),
{
}

// ---------------------------------------------------------------------------
// Output

/// Bytes hold a sequence that ends behind a place.
pub open spec fn holds_behind(bytes: Seq<u8>, sequence: Seq<u8>, place: int) -> bool {
    exists|at: int|
        #![trigger bytes.subrange(at, at + sequence.len())]
        0 <= at && at + sequence.len() <= bytes.len() && bytes.subrange(at, at + sequence.len())
            == sequence && at + sequence.len() > place
}

/// Output asks for the history to be cleared by erasing it, or by erasing the screen from its first corner,
/// in one of two spellings; a sequence that ended before does not count again.
pub proof fn law_clearing_is_asked_for_by_three_sequences(bytes: &[u8], prefix: usize, clear: bool)
    requires
        call_ensures(tmux_output_requests_history_clear, (bytes, prefix), clear),
    ensures
        clear <==> holds_behind(bytes@, seq![0x1bu8, 0x5b, 0x33, 0x4a], prefix as int) || holds_behind(
            bytes@,
            seq![0x1bu8, 0x5b, 0x48, 0x1b, 0x5b, 0x32, 0x4a],
            prefix as int,
        ) || holds_behind(
            bytes@,
            seq![0x1bu8, 0x5b, 0x31, 0x3b, 0x31, 0x48, 0x1b, 0x5b, 0x32, 0x4a],
            prefix as int,
        ),
{
    let first = seq![0x1bu8, 0x5b, 0x33, 0x4a];
    let second = seq![0x1bu8, 0x5b, 0x48, 0x1b, 0x5b, 0x32, 0x4a];
    let third = seq![0x1bu8, 0x5b, 0x31, 0x3b, 0x31, 0x48, 0x1b, 0x5b, 0x32, 0x4a];
    assert(clear_sequences()[0] == first);
    assert(clear_sequences()[1] == second);
    assert(clear_sequences()[2] == third);
    if clear {
        let (p, at) = choose|p: int, at: int|
            0 <= p < 3 && #[trigger] ends_behind(bytes@, clear_sequences()[p], at, prefix as int);
        let sequence = clear_sequences()[p];
        assert(occurs_at(bytes@, sequence, at));
        assert(bytes@.subrange(at, at + sequence.len()) == sequence);
        assert(p == 0 || p == 1 || p == 2);
    }
    lemma_held(bytes@, 0, prefix as int);
    lemma_held(bytes@, 1, prefix as int);
    lemma_held(bytes@, 2, prefix as int);
}

proof fn lemma_held(bytes: Seq<u8>, p: int, prefix: int)
    requires
        0 <= p < 3,
    ensures
        holds_behind(bytes, clear_sequences()[p], prefix) ==> crate::pty::tmux::requests_clear(
            bytes,
            prefix,
        ),
{
    let sequence = clear_sequences()[p];
    if holds_behind(bytes, sequence, prefix) {
        let at = choose|at: int|
            #![trigger bytes.subrange(at, at + sequence.len())]
            0 <= at && at + sequence.len() <= bytes.len() && bytes.subrange(at, at + sequence.len())
                == sequence && at + sequence.len() > prefix;
        assert(ends_behind(bytes, clear_sequences()[p], at, prefix));
    }
}

/// The scanner remembers the last 32 bytes.
pub proof fn law_scanner_remembers_the_last_bytes(
    scanner: &mut HistoryClearScanner,
    bytes: &[u8],
    clear: bool,
)
    requires
        call_ensures(HistoryClearScanner::observe, (scanner, bytes), clear),
    ensures
        bytes@.len() == 0 ==> !clear && final(scanner).seen() == old(scanner).seen(),
        bytes@.len() > 0 && old(scanner).seen().len() + bytes@.len() <= 32 ==> final(scanner).seen()
            == old(scanner).seen() + bytes@,
        bytes@.len() > 0 && old(scanner).seen().len() + bytes@.len() > 32 ==> final(scanner).seen()
            == (old(scanner).seen() + bytes@).skip(
            old(scanner).seen().len() + bytes@.len() - 32,
        ),
{
}

/// Output is numbered upwards, and a screen carries the number of the last output before it.
pub proof fn law_output_is_numbered_upwards(
    stream: &mut TmuxTerminalStream,
    buffer: Vec<u8>,
    read: usize,
    frame: Option<PtyTerminalFrame>,
    snapshot: PtySnapshot,
    frames: Vec<PtyTerminalFrame>,
    fresh: TmuxTerminalStream,
)
    requires
        read <= buffer@.len(),
        call_ensures(TmuxTerminalStream::output_frame, (stream, buffer, read), frame),
        call_ensures(TmuxTerminalStream::snapshot_frames, (&*final(stream), snapshot), frames),
        call_ensures(TmuxTerminalStream::new, (), fresh),
        old(stream).last() < u64::MAX,
    ensures
        fresh.last() == 0,
        read == 0 ==> frame is None && final(stream).last() == old(stream).last(),
        read > 0 ==> frame is Some && frame->0@ == (FrameModel::Output {
            terminal_seq: (old(stream).last() + 1) as u64,
            data: buffer@.take(read as int),
        }) && final(stream).last() == old(stream).last() + 1,
        frames@.len() == 1,
        frames@[0]@ == (FrameModel::Snapshot {
            base_seq: final(stream).last(),
            size: snapshot.size,
            data: snapshot.retained_output@,
        }),
{
    let models = crate::pty::frame_models(frames@);
    assert(models.len() == frames@.len());
    assert(models[0] == frames@[0]@);
}

/// tmux keeps 500 lines, keeps what has exited, and shows no status; so for all sessions and for each.
pub proof fn law_tmux_is_set_up(
    backend: &TmuxPtyBackend,
    config: String,
    place: String,
    global: Vec<TmuxOption>,
    session: Vec<TmuxOption>,
    with_config: Vec<String>,
)
    requires
        call_ensures(TmuxPtyBackend::tmux_startup_config, (backend,), config),
        call_ensures(TmuxPtyBackend::tmux_startup_config_path, (backend,), place),
        call_ensures(TmuxPtyBackend::global_options, (), global),
        call_ensures(TmuxPtyBackend::session_options, (), session),
        call_ensures(TmuxPtyBackend::build_tmux_command, (backend, true), with_config),
    ensures
        config@
            == "set-option -g history-limit 500\nset-option -g remain-on-exit on\nset-option -g status off\n"@,
        place@ == crate::paths::path_with_extension_text(backend.socket(), "conf"@),
        texts(with_config@) == seq!["-S"@, backend.socket(), "-f"@, place@],
        global@.len() == 3,
        global@[0].name@ == "history-limit"@ && global@[0].value@ == "500"@,
        global@[1].name@ == "remain-on-exit"@ && global@[1].value@ == "on"@,
        global@[2].name@ == "status"@ && global@[2].value@ == "off"@,
        session@.len() == 2,
        session@[0].name@ == "history-limit"@ && session@[0].value@ == "500"@,
        session@[1].name@ == "status"@ && session@[1].value@ == "off"@,
{
    let all = crate::pty::tmux::option_models(global@);
    let each = crate::pty::tmux::option_models(session@);
    assert(all.len() == global@.len());
    assert(each.len() == session@.len());
    assert(all[0] == (global@[0].name@, global@[0].value@, global@[0].action@));
    assert(all[1] == (global@[1].name@, global@[1].value@, global@[1].action@));
    assert(all[2] == (global@[2].name@, global@[2].value@, global@[2].action@));
    assert(each[0] == (session@[0].name@, session@[0].value@, session@[0].action@));
    assert(each[1] == (session@[1].name@, session@[1].value@, session@[1].action@));
}

/// A failure says what was asked for and what tmux said to it.
pub proof fn law_failures_say_what_was_said(
    action: &str,
    stderr: &[u8],
    failure: PtyError,
    name: &str,
    gone: PtyError,
    status: &PtyExitStatus,
    shown: String,
    collected: &[u8],
    note: String,
    at_start: PtyError,
)
    requires
        call_ensures(tmux_failure, (action, stderr), failure),
        call_ensures(not_running_error, (name,), gone),
        call_ensures(show_exit_status, (status,), shown),
        call_ensures(startup_output_note, (collected,), note),
        call_ensures(startup_failure, (name, status, collected), at_start),
    ensures
        failure@ == PtyErrorModel::Backend(
            "tmux "@ + action@ + " failed: "@ + trimmed(lossy_text(stderr@)),
        ),
        gone@ == PtyErrorModel::Backend("tmux session "@ + name@ + " is not running"@),
        at_start@ == PtyErrorModel::Backend(
            "tmux attach bridge for session "@ + name@ + " exited during startup: "@ + shown@ + note@,
        ),
        collected@.len() == 0 ==> note@.len() == 0,
{
}

/// What a client printed at its start is noted on one line, without the blanks around it.
pub proof fn law_startup_output_is_noted_on_one_line(collected: &[u8], note: String)
    requires
        call_ensures(startup_output_note, (collected,), note),
        collected@.len() > 0,
        forall|i: int|
            0 <= i < lossy_text(collected@).len() ==> (#[trigger] lossy_text(collected@)[i]) != '\n'
                && lossy_text(collected@)[i] != '\r',
    ensures
        trimmed(lossy_text(collected@)).len() > 0 ==> note@ == "; startup output: "@ + trimmed(
            lossy_text(collected@),
        ),
        trimmed(lossy_text(collected@)).len() == 0 ==> note@.len() == 0,
{
    assert(crate::pty::tmux::on_one_line(lossy_text(collected@)) =~= lossy_text(collected@));
}

/// A client is looked for in the lines of the answer, and the socket for a state lies beside it.
pub proof fn law_client_is_looked_for_in_the_answer(
    output: &[u8],
    pid: u32,
    name: Option<String>,
    state_path: &str,
    current_dir: Option<&str>,
    path: String,
    backend: TmuxPtyBackend,
    stem: Option<String>,
    parent: Option<String>,
    beside: String,
    line: Seq<char>,
)
    requires
        call_ensures(client_name_for_pid, (output, pid), name),
        call_ensures(tmux_socket_path_for_state_path, (state_path, current_dir), path),
        call_ensures(TmuxPtyBackend::for_state_path, (state_path, current_dir), backend),
        crate::paths::optional_text(stem) == crate::paths::path_file_stem_text(state_path@),
        crate::paths::optional_text(parent) == crate::paths::path_parent_text(state_path@),
        call_ensures(tmux_socket_path_beside, (stem, parent, current_dir), beside),
        lossy_text(output@) == decimal(pid as nat).push('\t') + line,
        line.len() > 0,
        !line.contains('\n'),
        line.last() != '\r',
    ensures
        name is Some,
        name->0@ == line,
        path@ == beside@,
        backend.socket() == beside@,
        backend.program() == "tmux"@,
{
    let whole = lossy_text(output@);
    law_decimal_can_be_read_back(pid as nat);
    assert(!whole.contains('\n')) by {
        if whole.contains('\n') {
            let i = choose|i: int| 0 <= i < whole.len() && whole[i] == '\n';
            if i < decimal(pid as nat).len() {
                assert('0' <= decimal(pid as nat)[i] <= '9');
            } else if i > decimal(pid as nat).len() {
                assert(line[i - decimal(pid as nat).len() - 1] == '\n');
            }
        }
    }
    assert(whole.last() == line.last());
    law_answer_has_its_lines(whole, Seq::empty());
    law_client_is_found_by_its_number(seq![whole], pid, line, 0);
}

} // verus!
