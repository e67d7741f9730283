//! Sessions inside tmux.
//!
//! tmux keeps the sessions; the daemon attaches to them with clients of its own. Here are the commands
//! that are sent to tmux and the meaning of its answers; running the program is done around it.

use crate::collections::strictly_sorted;
use crate::paths::{
    join_path, joined, optional_text, path_file_stem, path_file_stem_text, path_parent,
    path_parent_text, path_with_extension, path_with_extension_text,
};
use crate::pty::{
    frame_models, slice_texts, text_values, texts, CommandModel, CommandSpec, FrameModel, PtyError,
    PtyErrorModel, PtyExitStatus, PtyRestoreInfo, PtyResult, PtySize, PtySnapshot, PtyTerminalFrame,
    RestoreModel,
};
use crate::text::{
    all_whitespace, char_views, chars_equal, concat, concat3, decimal, digits_value, format_u64,
    is_u32_digits, lemma_text_order, lossy_text, occurs_at, parse_u32, quoted, quoted_text, split_chars, split_on,
    split_once, split_once_at, str_chars, string_from_chars, text_less, trim_chars, trimmed,
    unsigned_digits, utf8_lossy,
};
use vstd::prelude::*;
use vstd::slice::slice_to_vec;

verus! {

/// The terminal type of the daemon's own clients. It has no alternate screen, so that the scrollback
/// of a viewer fills with the output of the session.
pub const TMUX_BRIDGE_TERM: &'static str = "ansi";

/// How many bytes of output are kept to find a sequence that was cut in two.
pub const TMUX_CLEAR_HISTORY_SCAN_TAIL_MAX_BYTES: usize = 32;

/// How much of the output of a client that failed to start is reported.
pub const TMUX_STARTUP_OUTPUT_MAX_BYTES: usize = 16384;

// ---------------------------------------------------------------------------
// Names and paths

/// A character that is kept in the name of a session.
pub open spec fn plain_name_char(c: char) -> bool {
    ||| '0' <= c <= '9'
    ||| 'a' <= c <= 'z'
    ||| 'A' <= c <= 'Z'
    ||| c == '-'
    ||| c == '_'
}

fn is_plain_name_char(c: char) -> (plain: bool)
    ensures
        plain == plain_name_char(c),
{
    ('0' <= c && c <= '9') || ('a' <= c && c <= 'z') || ('A' <= c && c <= 'Z') || c == '-' || c
        == '_'
}

/// A text with every unusual character replaced by an underscore.
pub open spec fn sanitized(text: Seq<char>, dots: bool) -> Seq<char> {
    Seq::new(
        text.len(),
        |i: int|
            if plain_name_char(text[i]) || (dots && text[i] == '.') {
                text[i]
            } else {
                '_'
            },
    )
}

fn sanitize(text: &str, dots: bool) -> (res: String)
    ensures
        res@ == sanitized(text@, dots),
{
    let chars = str_chars(text);
    let mut kept: Vec<char> = Vec::new();
    let mut i: usize = 0;
    while i < chars.len()
        invariant
            chars@ == text@,
            i <= chars@.len(),
            kept@ == sanitized(text@, dots).take(i as int),
        decreases chars@.len() - i,
    {
        let c: char = chars[i];
        if is_plain_name_char(c) || (dots && c == '.') {
            kept.push(c);
        } else {
            kept.push('_');
        }
        i = i + 1;
        assert(kept@ =~= sanitized(text@, dots).take(i as int));
    }
    assert(kept@ =~= sanitized(text@, dots));
    string_from_chars(kept.as_slice())
}

/// A part of the name of a tmux socket, with every unusual character replaced by an underscore.
pub fn sanitize_tmux_socket_component(raw: &str) -> (name: String)
    ensures
        name@ == sanitized(raw@, true),
{
    sanitize(raw, true)
}

/// The path with the current directory before it, unless it is absolute.
pub open spec fn absolute(path: Seq<char>, current_dir: Option<Seq<char>>) -> Seq<char> {
    if path.len() > 0 && path[0] == '/' {
        path
    } else {
        joined(
            match current_dir {
                Some(dir) => dir,
                None => "."@,
            },
            path,
        )
    }
}

/// An absolute path. A client of tmux may run in another directory than the daemon.
pub fn absolute_path_without_canonicalize(path: &str, current_dir: Option<&str>) -> (res: String)
    ensures
        res@ == absolute(
            path@,
            match current_dir {
                Some(dir) => Some(dir@),
                None => None,
            },
        ),
{
    if path.unicode_len() > 0 && path.get_char(0) == '/' {
        return path.to_owned();
    }
    match current_dir {
        Some(dir) => join_path(dir, path),
        None => join_path(".", path),
    }
}

/// The name of the tmux socket for the stem of a state file's name.
pub open spec fn tmux_socket_name(file_stem: Option<Seq<char>>) -> Seq<char> {
    let stem = match file_stem {
        Some(stem) => sanitized(stem, true),
        None => Seq::empty(),
    };
    (if stem.len() > 0 {
        stem
    } else {
        "termd"@
    }) + ".tmux.sock"@
}

/// The tmux socket beside a state file, given the stem of its name and its directory.
pub open spec fn tmux_socket_beside(
    file_stem: Option<Seq<char>>,
    parent: Option<Seq<char>>,
    current_dir: Option<Seq<char>>,
) -> Seq<char> {
    let dir = match parent {
        Some(parent) if parent.len() > 0 => parent,
        _ => "."@,
    };
    absolute(joined(dir, tmux_socket_name(file_stem)), current_dir)
}

/// The tmux socket for a state file, beside it.
pub open spec fn tmux_socket(state_path: Seq<char>, current_dir: Option<Seq<char>>) -> Seq<char> {
    tmux_socket_beside(path_file_stem_text(state_path), path_parent_text(state_path), current_dir)
}

/// The tmux socket beside a state file, given the stem of its name and its directory.
pub fn tmux_socket_path_beside(
    file_stem: Option<String>,
    parent: Option<String>,
    current_dir: Option<&str>,
) -> (path: String)
    ensures
        path@ == tmux_socket_beside(
            optional_text(file_stem),
            optional_text(parent),
            match current_dir {
                Some(dir) => Some(dir@),
                None => None,
            },
        ),
{
    let stem: String = match file_stem {
        Some(stem) => sanitize_tmux_socket_component(stem.as_str()),
        None => String::new(),
    };
    let name: String = if stem.as_str().unicode_len() > 0 {
        concat(stem.as_str(), ".tmux.sock")
    } else {
        concat("termd", ".tmux.sock")
    };
    let path = match parent {
        Some(parent) => {
            if parent.as_str().unicode_len() > 0 {
                join_path(parent.as_str(), name.as_str())
            } else {
                join_path(".", name.as_str())
            }
        },
        None => join_path(".", name.as_str()),
    };
    absolute_path_without_canonicalize(path.as_str(), current_dir)
}

/// The tmux socket for a state file.
pub fn tmux_socket_path_for_state_path(state_path: &str, current_dir: Option<&str>) -> (path: String)
    ensures
        path@ == tmux_socket(
            state_path@,
            match current_dir {
                Some(dir) => Some(dir@),
                None => None,
            },
        ),
{
    tmux_socket_path_beside(path_file_stem(state_path), path_parent(state_path), current_dir)
}

// ---------------------------------------------------------------------------
// Commands

/// A way to start and reach sessions inside tmux.
#[derive(Debug)]
pub struct TmuxPtyBackend {
    tmux_path: String,
    socket_path: String,
}

impl Clone for TmuxPtyBackend {
    fn clone(&self) -> (backend: Self)
        ensures
            backend.program() == self.program(),
            backend.socket() == self.socket(),
    {
        TmuxPtyBackend {
            tmux_path: self.tmux_path.clone(),
            socket_path: self.socket_path.clone(),
        }
    }
}

fn strings(parts: &[&str]) -> (args: Vec<String>)
    ensures
        texts(args@) == slice_texts(parts@),
{
    let mut args: Vec<String> = Vec::new();
    let mut i: usize = 0;
    while i < parts.len()
        invariant
            i <= parts@.len(),
            args@.len() == i,
            forall|k: int| 0 <= k < i ==> (#[trigger] args@[k])@ == parts@[k]@,
        decreases parts@.len() - i,
    {
        args.push(parts[i].to_owned());
        i = i + 1;
    }
    assert(texts(args@) =~= slice_texts(parts@));
    args
}

/// The environment variables of a command, as tmux takes them.
pub open spec fn env_args(keys: Seq<Seq<char>>, env: Map<Seq<char>, Seq<char>>) -> Seq<Seq<char>>
    decreases keys.len(),
{
    if keys.len() == 0 {
        Seq::empty()
    } else {
        env_args(keys.drop_last(), env) + seq!["-e"@, keys.last() + "="@ + env[keys.last()]]
    }
}

/// A name that tmux takes for an environment variable.
pub open spec fn tmux_env_key(key: Seq<char>) -> bool {
    key.len() > 0 && !key.contains('=')
}

fn is_tmux_env_key(key: &str) -> (valid: bool)
    ensures
        valid == tmux_env_key(key@),
{
    let chars = str_chars(key);
    let mut i: usize = 0;
    while i < chars.len()
        invariant
            chars@ == key@,
            i <= chars@.len(),
            forall|k: int| 0 <= k < i ==> #[trigger] chars@[k] != '=',
        decreases chars@.len() - i,
    {
        if chars[i] == '=' {
            return false;
        }
        i = i + 1;
    }
    chars.len() > 0
}

/// The arguments behind `new-session` for a command whose environment is in a given order.
pub open spec fn new_session_args_of(
    session_name: Seq<char>,
    size: PtySize,
    keys: Seq<Seq<char>>,
    command: CommandModel,
) -> Seq<Seq<char>> {
    seq![
        "new-session"@,
        "-d"@,
        "-s"@,
        session_name,
        "-x"@,
        decimal(size.cols as nat),
        "-y"@,
        decimal(size.rows as nat),
    ] + env_args(keys, command.env) + (match command.cwd {
        Some(cwd) => seq!["-c"@, cwd],
        None => Seq::empty(),
    }) + seq!["--"@, command.program] + command.args
}

/// The failure of a session that does not run.
pub open spec fn not_running(session_name: Seq<char>) -> PtyErrorModel {
    PtyErrorModel::Backend("tmux session "@ + session_name + " is not running"@)
}

/// Builds the failure of a session that does not run.
pub fn not_running_error(session_name: &str) -> (error: PtyError)
    ensures
        error@ == not_running(session_name@),
{
    PtyError::Backend(concat3("tmux session ", session_name, " is not running"))
}

impl TmuxPtyBackend {
    /// The program.
    pub closed spec fn program(&self) -> Seq<char> {
        self.tmux_path@
    }

    /// The socket of the server.
    pub closed spec fn socket(&self) -> Seq<char> {
        self.socket_path@
    }

    /// A backend at a socket.
    pub fn with_socket_path(socket_path: &str) -> (backend: Self)
        ensures
            backend.program() == "tmux"@,
            backend.socket() == socket_path@,
    {
        TmuxPtyBackend { tmux_path: "tmux".to_owned(), socket_path: socket_path.to_owned() }
    }

    /// A backend at the socket for a state file.
    pub fn for_state_path(state_path: &str, current_dir: Option<&str>) -> (backend: Self)
        ensures
            backend.program() == "tmux"@,
            backend.socket() == tmux_socket(
                state_path@,
                match current_dir {
                    Some(dir) => Some(dir@),
                    None => None,
                },
            ),
    {
        let socket_path = tmux_socket_path_for_state_path(state_path, current_dir);
        TmuxPtyBackend::with_socket_path(socket_path.as_str())
    }

    /// The same program at another socket.
    pub fn at_socket(&self, socket_path: &str) -> (backend: Self)
        ensures
            backend.program() == self.program(),
            backend.socket() == socket_path@,
    {
        TmuxPtyBackend { tmux_path: self.tmux_path.clone(), socket_path: socket_path.to_owned() }
    }

    /// The program.
    pub fn tmux_path(&self) -> (path: &str)
        ensures
            path@ == self.program(),
    {
        self.tmux_path.as_str()
    }

    /// The socket of the server.
    pub fn socket_path(&self) -> (path: &str)
        ensures
            path@ == self.socket(),
    {
        self.socket_path.as_str()
    }

    /// The name of the tmux session for a session id.
    pub fn session_name_for_id(session_id: &str) -> (name: String)
        ensures
            name@ == "termd-"@ + sanitized(session_id@, false),
    {
        concat("termd-", sanitize(session_id, false).as_str())
    }

    /// The configuration file for a new server, beside the socket.
    pub fn tmux_startup_config_path(&self) -> (path: String)
        ensures
            path@ == path_with_extension_text(self.socket(), "conf"@),
    {
        proof {
            reveal_strlit("conf");
        }
        path_with_extension(self.socket_path.as_str(), "conf")
    }

    /// The configuration of a new server. The history has to be limited, dead panes kept and the status
    /// line switched off before the first command runs.
    pub fn tmux_startup_config(&self) -> (text: String)
        ensures
            text@
                == "set-option -g history-limit 500\nset-option -g remain-on-exit on\nset-option -g status off\n"@,
    {
        "set-option -g history-limit 500\nset-option -g remain-on-exit on\nset-option -g status off\n".to_owned()
    }

    /// The arguments that every call of tmux begins with.
    pub fn build_tmux_command(&self, include_startup_config: bool) -> (args: Vec<String>)
        ensures
            texts(args@) == (if include_startup_config {
                seq![
                    "-S"@,
                    self.socket(),
                    "-f"@,
                    path_with_extension_text(self.socket(), "conf"@),
                ]
            } else {
                seq!["-S"@, self.socket()]
            }),
    {
        let mut args: Vec<String> = Vec::new();
        args.push("-S".to_owned());
        args.push(self.socket_path.clone());
        if include_startup_config {
            args.push("-f".to_owned());
            args.push(self.tmux_startup_config_path());
            assert(texts(args@) =~= seq![
                "-S"@,
                self.socket(),
                "-f"@,
                path_with_extension_text(self.socket(), "conf"@),
            ]);
        } else {
            assert(texts(args@) =~= seq!["-S"@, self.socket()]);
        }
        args
    }

    /// The arguments that start a session with a command. A command without a program is refused, and
    /// so is a variable that tmux cannot set.
    pub fn new_session_args(&self, session_name: &str, command: &CommandSpec, size: PtySize) -> (res:
        PtyResult<Vec<String>>)
        requires
            command.wf(),
        ensures
            if all_whitespace(command@.program) {
                res matches Err(e) && e@ == PtyErrorModel::InvalidCommand(
                    "program must not be empty"@,
                )
            } else {
                match res {
                    Ok(args) => {
                        &&& forall|key: Seq<char>| #[trigger]
                            command@.env.contains_key(key) ==> tmux_env_key(key)
                        &&& exists|keys: Seq<Seq<char>>|
                            {
                                &&& keys.to_set() == command@.env.dom()
                                &&& strictly_sorted(keys)
                                &&& texts(args@) == #[trigger] new_session_args_of(
                                    session_name@,
                                    size,
                                    keys,
                                    command@,
                                )
                            }
                    },
                    Err(error) => exists|key: Seq<char>|
                        {
                            &&& command@.env.contains_key(key)
                            &&& !tmux_env_key(key)
                            &&& forall|other: Seq<char>| #[trigger]
                                command@.env.contains_key(other) && text_less(other, key)
                                    ==> tmux_env_key(other)
                            &&& error@ == PtyErrorModel::Backend(
                                "tmux environment key is invalid: "@ + #[trigger] quoted_text(key),
                            )
                        },
                }
            },
    {
        if let Err(error) = command.validate() {
            return Err(error);
        }
        let cols = format_u64(size.cols as u64);
        let rows = format_u64(size.rows as u64);
        let mut args: Vec<String> = Vec::new();
        args.push("new-session".to_owned());
        args.push("-d".to_owned());
        args.push("-s".to_owned());
        args.push(session_name.to_owned());
        args.push("-x".to_owned());
        args.push(cols);
        args.push("-y".to_owned());
        args.push(rows);
        let ghost head = texts(args@);
        assert(head =~= seq![
            "new-session"@,
            "-d"@,
            "-s"@,
            session_name@,
            "-x"@,
            decimal(size.cols as nat),
            "-y"@,
            decimal(size.rows as nat),
        ]);
        let env = command.env_map();
        let ghost keys = env.keys();
        let ghost values = command@.env;
        proof {
            env.lemma_positions();
            assert(values.dom() =~= env@.dom());
        }
        let mut i: usize = 0;
        assert(keys.take(0) =~= Seq::<Seq<char>>::empty());
        assert(head + Seq::<Seq<char>>::empty() =~= head);
        while i < env.len()
            invariant
                !all_whitespace(command@.program),
                env.wf(),
                i <= keys.len(),
                keys == env.keys(),
                text_values(env@) == values,
                values == command@.env,
                forall|k: int| 0 <= k < keys.len() ==> env@.contains_key(#[trigger] keys[k]),
                texts(args@) == head + env_args(keys.take(i as int), values),
                forall|k: int| 0 <= k < i ==> tmux_env_key(#[trigger] keys[k]),
            decreases keys.len() - i,
        {
            let key = env.key_at(i);
            let value = env.value_at(i);
            proof {
                env.lemma_positions();
                assert(keys[i as int] == key@);
                assert(env@.contains_key(key@));
                assert(values.contains_key(key@));
                assert(values[key@] == value@);
            }
            if !is_tmux_env_key(key.as_str()) {
                let shown = quoted(key.as_str());
                assert(shown@ == quoted_text(key@));
                assert forall|other: Seq<char>| #[trigger]
                    command@.env.contains_key(other) && text_less(other, key@) implies tmux_env_key(
                    other,
                ) by {
                    env.lemma_positions();
                    assert(env@.contains_key(other));
                    let k = choose|k: int| 0 <= k < keys.len() && keys[k] == other;
                    lemma_text_order(other, key@, other);
                    if k > i {
                        assert(text_less(keys[i as int], keys[k]));
                    }
                    assert(tmux_env_key(keys[k]));
                }
                return Err(
                    PtyError::Backend(concat("tmux environment key is invalid: ", shown.as_str())),
                );
            }
            let ghost before = texts(args@);
            let ghost part = keys.take(i + 1);
            assert(part.drop_last() =~= keys.take(i as int));
            assert(part.last() == key@);
            args.push("-e".to_owned());
            args.push(concat3(key.as_str(), "=", value.as_str()));
            assert(texts(args@) =~= before + seq!["-e"@, key@ + "="@ + value@]);
            assert(texts(args@) =~= head + env_args(part, values));
            i = i + 1;
        }
        assert(keys.take(i as int) =~= keys);
        assert forall|key: Seq<char>| #[trigger] values.contains_key(key) implies tmux_env_key(
            key,
        ) by {
            env.lemma_positions();
            let k = choose|k: int| 0 <= k < keys.len() && keys[k] == key;
            assert(tmux_env_key(keys[k]));
        }
        let ghost with_env = texts(args@);
        let ghost cwd_args = match command@.cwd {
            Some(cwd) => seq!["-c"@, cwd],
            None => Seq::empty(),
        };
        if let Some(cwd) = command.cwd_path() {
            args.push("-c".to_owned());
            args.push(cwd.to_owned());
        }
        assert(texts(args@) =~= with_env + cwd_args);
        args.push("--".to_owned());
        args.push(command.program().to_owned());
        assert(texts(args@) =~= with_env + cwd_args + seq!["--"@, command@.program]);
        let ghost with_program = texts(args@);
        let rest = command.args_slice();
        let mut j: usize = 0;
        while j < rest.len()
            invariant
                j <= rest@.len(),
                texts(rest@) == command@.args,
                texts(args@) == with_program + command@.args.take(j as int),
            decreases rest@.len() - j,
        {
            let ghost before = texts(args@);
            args.push(rest[j].clone());
            assert(texts(args@) =~= before.push(rest@[j as int]@));
            j = j + 1;
            assert(texts(args@) =~= with_program + command@.args.take(j as int));
        }
        assert(command@.args.take(j as int) =~= command@.args);
        proof {
            env.lemma_positions();
            assert(keys.to_set() =~= command@.env.dom()) by {
                assert forall|key: Seq<char>| keys.to_set().contains(key)
                    == command@.env.dom().contains(key) by {
                    if command@.env.dom().contains(key) {
                        assert(env@.contains_key(key));
                    }
                    if keys.contains(key) {
                        let k = choose|k: int| 0 <= k < keys.len() && keys[k] == key;
                        assert(env@.contains_key(keys[k]));
                    }
                }
            }
            assert(texts(args@) =~= new_session_args_of(session_name@, size, keys, command@));
        }
        Ok(args)
    }

    /// The command of a client that attaches to a session. It declares a usable terminal, and forgets
    /// that the daemon itself may run inside tmux.
    pub fn attach_tmux_command(&self, session_name: &str) -> (command: CommandSpec)
        ensures
            command.wf(),
            command@ == (CommandModel {
                program: self.program(),
                args: seq!["-S"@, self.socket(), "attach-session"@, "-t"@, session_name@],
                env: map!["TERM"@ => "ansi"@],
                removed_env: set!["TMUX"@, "TMUX_PANE"@],
                cwd: None,
            }),
    {
        let command = CommandSpec::new(self.tmux_path.as_str()).arg("-S").arg(
            self.socket_path.as_str(),
        ).arg("attach-session").arg("-t").arg(session_name).env("TERM", TMUX_BRIDGE_TERM).remove_env(
            "TMUX",
        ).remove_env("TMUX_PANE");
        assert(command@.args =~= seq![
            "-S"@,
            self.socket(),
            "attach-session"@,
            "-t"@,
            session_name@,
        ]);
        proof {
            reveal_strlit("TERM");
            reveal_strlit("TMUX");
            reveal_strlit("TMUX_PANE");
            assert("TERM"@[1] == 'E' && "TMUX"@[1] == 'M' && "TMUX_PANE"@[1] == 'M');
        }
        assert(command@.env =~= map!["TERM"@ => "ansi"@]);
        assert(command@.removed_env =~= set!["TMUX"@, "TMUX_PANE"@]);
        command
    }

    /// The arguments behind the socket of a client in control mode.
    pub fn control_client_args(session_name: &str) -> (args: Vec<String>)
        ensures
            texts(args@) == seq!["-C"@, "attach-session"@, "-t"@, session_name@],
    {
        let args = strings(["-C", "attach-session", "-t", session_name].as_slice());
        assert(texts(args@) =~= seq!["-C"@, "attach-session"@, "-t"@, session_name@]);
        args
    }

    /// The arguments that set an option, for one session or for all.
    pub fn set_option_args(target: Option<&str>, option: &str, value: &str) -> (args: Vec<String>)
        ensures
            texts(args@) == (match target {
                Some(name) => seq!["set-option"@, "-t"@, name@, option@, value@],
                None => seq!["set-option"@, "-g"@, option@, value@],
            }),
    {
        match target {
            Some(name) => {
                let args = strings(["set-option", "-t", name, option, value].as_slice());
                assert(texts(args@) =~= seq!["set-option"@, "-t"@, name@, option@, value@]);
                args
            },
            None => {
                let args = strings(["set-option", "-g", option, value].as_slice());
                assert(texts(args@) =~= seq!["set-option"@, "-g"@, option@, value@]);
                args
            },
        }
    }

    /// The options of every session, in the order in which they are set, each with the name of the
    /// step.
    pub fn global_options() -> (options: Vec<TmuxOption>)
        ensures
            option_models(options@) == seq![
                ("history-limit"@, "500"@, "set-option history-limit"@),
                ("remain-on-exit"@, "on"@, "set-option remain-on-exit"@),
                ("status"@, "off"@, "set-option status"@),
            ],
    {
        let mut options: Vec<TmuxOption> = Vec::new();
        options.push(
            TmuxOption {
                name: "history-limit",
                value: "500",
                action: "set-option history-limit",
            },
        );
        options.push(
            TmuxOption { name: "remain-on-exit", value: "on", action: "set-option remain-on-exit" },
        );
        options.push(TmuxOption { name: "status", value: "off", action: "set-option status" });
        assert(option_models(options@) =~= seq![
            ("history-limit"@, "500"@, "set-option history-limit"@),
            ("remain-on-exit"@, "on"@, "set-option remain-on-exit"@),
            ("status"@, "off"@, "set-option status"@),
        ]);
        options
    }

    /// The options that are set again for one session.
    pub fn session_options() -> (options: Vec<TmuxOption>)
        ensures
            option_models(options@) == seq![
                ("history-limit"@, "500"@, "set-option history-limit"@),
                ("status"@, "off"@, "set-option status"@),
            ],
    {
        let mut options: Vec<TmuxOption> = Vec::new();
        options.push(
            TmuxOption {
                name: "history-limit",
                value: "500",
                action: "set-option history-limit",
            },
        );
        options.push(TmuxOption { name: "status", value: "off", action: "set-option status" });
        assert(option_models(options@) =~= seq![
            ("history-limit"@, "500"@, "set-option history-limit"@),
            ("status"@, "off"@, "set-option status"@),
        ]);
        options
    }

    /// The arguments of a command that only names a session or a client.
    pub fn target_args(action: TmuxTarget, target: &str) -> (args: Vec<String>)
        ensures
            texts(args@) == seq![action.word(), "-t"@, target@],
    {
        let word: &str = action.name();
        let args = strings([word, "-t", target].as_slice());
        assert(texts(args@) =~= seq![action.word(), "-t"@, target@]);
        args
    }

    /// The arguments that list the clients of a session.
    pub fn list_clients_args(session_name: &str) -> (args: Vec<String>)
        ensures
            texts(args@) == seq![
                "list-clients"@,
                "-t"@,
                session_name@,
                "-F"@,
                "#{client_pid}\t#{client_name}"@,
            ],
    {
        let args = strings(
            ["list-clients", "-t", session_name, "-F", "#{client_pid}\t#{client_name}"].as_slice(),
        );
        assert(texts(args@) =~= seq![
            "list-clients"@,
            "-t"@,
            session_name@,
            "-F"@,
            "#{client_pid}\t#{client_name}"@,
        ]);
        args
    }

    /// The arguments that change the size of a session.
    pub fn resize_args(session_name: &str, size: PtySize) -> (args: Vec<String>)
        ensures
            texts(args@) == seq![
                "resize-window"@,
                "-t"@,
                session_name@,
                "-x"@,
                decimal(size.cols as nat),
                "-y"@,
                decimal(size.rows as nat),
            ],
    {
        let cols = format_u64(size.cols as u64);
        let rows = format_u64(size.rows as u64);
        let args = strings(
            ["resize-window", "-t", session_name, "-x", cols.as_str(), "-y", rows.as_str()].as_slice(),
        );
        assert(texts(args@) =~= seq![
            "resize-window"@,
            "-t"@,
            session_name@,
            "-x"@,
            decimal(size.cols as nat),
            "-y"@,
            decimal(size.rows as nat),
        ]);
        args
    }

    /// The arguments that ask for a property of the pane of a session.
    pub fn display_args(session_name: &str, property: &str) -> (args: Vec<String>)
        ensures
            texts(args@) == seq!["display-message"@, "-pt"@, session_name@, property@],
    {
        let args = strings(["display-message", "-pt", session_name, property].as_slice());
        assert(texts(args@) =~= seq!["display-message"@, "-pt"@, session_name@, property@]);
        args
    }

    /// The arguments that read the screen of a session with its history.
    pub fn capture_pane_args(session_name: &str) -> (args: Vec<String>)
        ensures
            texts(args@) == seq![
                "capture-pane"@,
                "-p"@,
                "-e"@,
                "-J"@,
                "-S"@,
                "-500"@,
                "-t"@,
                session_name@,
            ],
    {
        let args = strings(
            ["capture-pane", "-p", "-e", "-J", "-S", "-500", "-t", session_name].as_slice(),
        );
        assert(texts(args@) =~= seq![
            "capture-pane"@,
            "-p"@,
            "-e"@,
            "-J"@,
            "-S"@,
            "-500"@,
            "-t"@,
            session_name@,
        ]);
        args
    }

    /// Where to reconnect to a session, if it is one of tmux.
    pub fn reconnect_target(&self, restore_info: &PtyRestoreInfo) -> (res: PtyResult<(Self, String)>)
        ensures
            match restore_info@ {
                RestoreModel::Tmux { socket_path, session_name } => res matches Ok((backend, name))
                    && backend.program() == self.program() && backend.socket() == socket_path
                    && name@ == session_name,
                RestoreModel::UnixSocket { .. } => res matches Err(e) && e@
                    == PtyErrorModel::Backend(
                    "tmux backend cannot reconnect unix socket supervisor sessions"@,
                ),
            },
    {
        match restore_info {
            PtyRestoreInfo::Tmux { socket_path, session_name } => Ok(
                (self.at_socket(socket_path.as_str()), session_name.clone()),
            ),
            PtyRestoreInfo::UnixSocket { .. } => Err(
                PtyError::backend_message(
                    "tmux backend cannot reconnect unix socket supervisor sessions",
                ),
            ),
        }
    }

    /// Where to attach a client to a session, if it is one of tmux.
    pub fn attach_target(&self, restore_info: Option<&PtyRestoreInfo>) -> (res: PtyResult<
        (Self, String),
    >)
        ensures
            match restore_info {
                None => res matches Err(e) && e@ == PtyErrorModel::Backend(
                    "tmux attachment requires tmux restore metadata"@,
                ),
                Some(info) => match info@ {
                    RestoreModel::Tmux { socket_path, session_name } => res matches Ok(
                        (backend, name),
                    ) && backend.program() == self.program() && backend.socket() == socket_path
                        && name@ == session_name,
                    RestoreModel::UnixSocket { .. } => res matches Err(e) && e@
                        == PtyErrorModel::Backend(
                        "tmux backend cannot attach clients to unix socket supervisor sessions"@,
                    ),
                },
            },
    {
        let info = match restore_info {
            None => {
                return Err(
                    PtyError::backend_message("tmux attachment requires tmux restore metadata"),
                );
            },
            Some(info) => info,
        };
        match info {
            PtyRestoreInfo::Tmux { socket_path, session_name } => Ok(
                (self.at_socket(socket_path.as_str()), session_name.clone()),
            ),
            PtyRestoreInfo::UnixSocket { .. } => Err(
                PtyError::backend_message(
                    "tmux backend cannot attach clients to unix socket supervisor sessions",
                ),
            ),
        }
    }

    /// How to find a session again.
    pub fn restore_info(&self, session_name: &str) -> (info: PtyRestoreInfo)
        ensures
            info@ == (RestoreModel::Tmux {
                socket_path: self.socket(),
                session_name: session_name@,
            }),
    {
        PtyRestoreInfo::Tmux {
            socket_path: self.socket_path.clone(),
            session_name: session_name.to_owned(),
        }
    }
}

/// An option that is set in tmux.
#[derive(Debug, Clone, Copy)]
pub struct TmuxOption {
    pub name: &'static str,
    pub value: &'static str,
    pub action: &'static str,
}

/// The contents of a sequence of options.
pub open spec fn option_models(options: Seq<TmuxOption>) -> Seq<(Seq<char>, Seq<char>, Seq<char>)> {
    Seq::new(
        options.len(),
        |i: int| (options[i].name@, options[i].value@, options[i].action@),
    )
}

/// A command of tmux that only names its target.
#[derive(Debug, Clone, Copy, PartialEq, Eq, Structural)]
pub enum TmuxTarget {
    HasSession,
    KillSession,
    ClearHistory,
    DetachClient,
}

impl TmuxTarget {
    /// The name of the command.
    pub open spec fn word(self) -> Seq<char> {
        match self {
            TmuxTarget::HasSession => "has-session"@,
            TmuxTarget::KillSession => "kill-session"@,
            TmuxTarget::ClearHistory => "clear-history"@,
            TmuxTarget::DetachClient => "detach-client"@,
        }
    }

    /// The name of the command.
    pub fn name(&self) -> (name: &'static str)
        ensures
            name@ == self.word(),
    {
        match self {
            TmuxTarget::HasSession => "has-session",
            TmuxTarget::KillSession => "kill-session",
            TmuxTarget::ClearHistory => "clear-history",
            TmuxTarget::DetachClient => "detach-client",
        }
    }
}

// ---------------------------------------------------------------------------
// Answers

/// The failure of a step, with what tmux wrote about it.
pub fn tmux_failure(action: &str, stderr: &[u8]) -> (error: PtyError)
    ensures
        error@ == PtyErrorModel::Backend(
            "tmux "@ + action@ + " failed: "@ + trimmed(lossy_text(stderr@)),
        ),
{
    let text = utf8_lossy(stderr);
    let shown = string_from_chars(trim_chars(str_chars(text.as_str()).as_slice()).as_slice());
    let head = concat3("tmux ", action, " failed: ");
    PtyError::Backend(concat(head.as_str(), shown.as_str()))
}

/// The lines of an answer. A carriage return before the end of a line is not part of it, and an
/// unfinished line counts if it is not empty.
pub open spec fn answer_lines(text: Seq<char>) -> Seq<Seq<char>> {
    let pieces = split_on(text, '\n');
    let count: nat = if pieces.last().len() == 0 {
        (pieces.len() - 1) as nat
    } else {
        pieces.len()
    };
    Seq::new(
        count,
        |i: int|
            if i < pieces.len() - 1 {
                without_return(pieces[i])
            } else {
                pieces[i]
            },
    )
}

/// A line without the carriage return at its end.
pub open spec fn without_return(line: Seq<char>) -> Seq<char> {
    if line.len() > 0 && line.last() == '\r' {
        line.drop_last()
    } else {
        line
    }
}

/// The name in a line of a list of clients, if the line is that of a process.
pub open spec fn client_in_line(line: Seq<char>, client_pid: u32) -> Option<Seq<char>> {
    match split_once(line, '\t') {
        Some((raw_pid, name)) => {
            let digits = unsigned_digits(trimmed(raw_pid));
            if is_u32_digits(digits) && digits_value(digits) == client_pid && name.len() > 0 {
                Some(name)
            } else {
                None
            }
        },
        None => None,
    }
}

/// The name in the first line that is that of a process, from a line on.
pub open spec fn client_from(lines: Seq<Seq<char>>, client_pid: u32, from: int) -> Option<Seq<char>>
    decreases lines.len() - from,
{
    if from < 0 || from >= lines.len() {
        None
    } else {
        match client_in_line(lines[from], client_pid) {
            Some(name) => Some(name),
            None => client_from(lines, client_pid, from + 1),
        }
    }
}

fn line_client(line: &[char], client_pid: u32) -> (name: Option<String>)
    ensures
        (match name {
            Some(n) => Some(n@),
            None => None,
        }) == client_in_line(line@, client_pid),
{
    match split_once_at(line, '\t') {
        Some((raw_pid, client_name)) => {
            let found = match parse_u32(trim_chars(raw_pid.as_slice()).as_slice()) {
                Some(pid) => pid == client_pid,
                None => false,
            };
            if found && client_name.len() > 0 {
                Some(string_from_chars(client_name.as_slice()))
            } else {
                None
            }
        },
        None => None,
    }
}

/// The name of the client that is a process, in a list of clients.
pub fn client_name_for_pid(output: &[u8], client_pid: u32) -> (name: Option<String>)
    ensures
        (match name {
            Some(n) => Some(n@),
            None => None,
        }) == client_from(answer_lines(lossy_text(output@)), client_pid, 0),
{
    let text = utf8_lossy(output);
    let pieces = split_chars(str_chars(text.as_str()).as_slice(), '\n');
    let ghost lines = answer_lines(text@);
    let ghost all = split_on(text@, '\n');
    assert(char_views(pieces@) == all);
    assert(all.last() == pieces@[pieces@.len() - 1]@);
    let count: usize = if pieces[pieces.len() - 1].len() == 0 {
        pieces.len() - 1
    } else {
        pieces.len()
    };
    let mut i: usize = 0;
    while i < count
        invariant
            i <= count,
            count == lines.len(),
            count <= pieces@.len(),
            char_views(pieces@) == all,
            all == split_on(text@, '\n'),
            text@ == lossy_text(output@),
            lines == answer_lines(text@),
            client_from(lines, client_pid, 0) == client_from(lines, client_pid, i as int),
        decreases count - i,
    {
        let mut line = slice_to_vec(pieces[i].as_slice());
        assert(line@ == all[i as int]);
        if i < pieces.len() - 1 && line.len() > 0 && line[line.len() - 1] == '\r' {
            let ghost whole = line@;
            let _ = line.pop();
            assert(line@ =~= whole.drop_last());
        }
        assert(line@ == lines[i as int]);
        if let Some(name) = line_client(line.as_slice(), client_pid) {
            return Some(name);
        }
        i = i + 1;
    }
    None
}

/// The number in an answer, if it is one.
pub fn pane_process_id(output: &[u8]) -> (pid: Option<u32>)
    ensures
        ({
            let digits = unsigned_digits(trimmed(lossy_text(output@)));
            &&& pid is Some <==> is_u32_digits(digits)
            &&& pid matches Some(p) ==> p == digits_value(digits)
        }),
{
    let text = utf8_lossy(output);
    parse_u32(trim_chars(str_chars(text.as_str()).as_slice()).as_slice())
}

/// The path in an answer, if there is one.
pub fn pane_current_path(output: &[u8]) -> (path: Option<String>)
    ensures
        ({
            let raw = trimmed(lossy_text(output@));
            &&& path is Some <==> raw.len() > 0
            &&& path matches Some(p) ==> p@ == raw
        }),
{
    let text = utf8_lossy(output);
    let raw = trim_chars(str_chars(text.as_str()).as_slice());
    if raw.len() == 0 {
        None
    } else {
        Some(string_from_chars(raw.as_slice()))
    }
}

/// The exit code of a pane that is dead, by the answer about it. A code that cannot be read counts as
/// zero.
pub open spec fn dead_exit_code(text: Seq<char>) -> Option<u32> {
    match split_once(trimmed(text), '\t') {
        Some((dead, status)) => if dead == "1"@ {
            let digits = unsigned_digits(trimmed(status));
            Some(
                if is_u32_digits(digits) {
                    digits_value(digits) as u32
                } else {
                    0
                },
            )
        } else {
            None
        },
        None => None,
    }
}

/// How the process of a pane ended, by the answer about it; nothing while it runs.
pub fn pane_dead_status(output: &[u8]) -> (status: Option<PtyExitStatus>)
    ensures
        match status {
            Some(s) => dead_exit_code(lossy_text(output@)) == Some(s.exit_code) && s.signal is None,
            None => dead_exit_code(lossy_text(output@)) is None,
        },
{
    let text = utf8_lossy(output);
    let raw = trim_chars(str_chars(text.as_str()).as_slice());
    match split_once_at(raw.as_slice(), '\t') {
        Some((dead, status)) => {
            if !chars_equal(dead.as_slice(), "1") {
                return None;
            }
            let exit_code: u32 = match parse_u32(trim_chars(status.as_slice()).as_slice()) {
                Some(code) => code,
                None => 0,
            };
            Some(PtyExitStatus::exited(exit_code))
        },
        None => None,
    }
}

/// An exit status as it is shown in messages.
pub open spec fn exit_status_text(status: PtyExitStatus) -> Seq<char> {
    "PtyExitStatus { exit_code: "@ + decimal(status.exit_code as nat) + ", signal: "@ + (
    match status.signal {
        Some(signal) => "Some("@ + quoted_text(signal@) + ")"@,
        None => "None"@,
    }) + " }"@
}

/// Writes an exit status as it is shown in messages.
pub fn show_exit_status(status: &PtyExitStatus) -> (text: String)
    ensures
        text@ == exit_status_text(*status),
{
    let head = concat3(
        "PtyExitStatus { exit_code: ",
        format_u64(status.exit_code as u64).as_str(),
        ", signal: ",
    );
    let signal: String = match &status.signal {
        Some(signal) => concat3("Some(", quoted(signal.as_str()).as_str(), ")"),
        None => "None".to_owned(),
    };
    concat3(head.as_str(), signal.as_str(), " }")
}

/// Whether a session answers, by the state of its pane and whether tmux knows it.
pub fn ping_result(session_name: &str, dead: Option<PtyExitStatus>, has_session: bool) -> (res:
    PtyResult<()>)
    ensures
        match dead {
            Some(status) => res matches Err(e) && e@ == PtyErrorModel::Backend(
                "tmux session "@ + session_name@ + " exited: "@ + exit_status_text(status),
            ),
            None => if has_session {
                res is Ok
            } else {
                res matches Err(e) && e@ == not_running(session_name@)
            },
        },
{
    match dead {
        Some(status) => {
            let head = concat3("tmux session ", session_name, " exited: ");
            Err(PtyError::Backend(concat(head.as_str(), show_exit_status(&status).as_str())))
        },
        None => {
            if has_session {
                Ok(())
            } else {
                Err(not_running_error(session_name))
            }
        },
    }
}

/// How a session ended, by the state of its pane and whether tmux knows it: a session that tmux does
/// not know has ended.
pub fn wait_status(dead: Option<PtyExitStatus>, has_session: bool) -> (status: Option<PtyExitStatus>)
    ensures
        match dead {
            Some(ended) => status == Some(ended),
            None => if has_session {
                status is None
            } else {
                status matches Some(s) && s.exit_code == 0 && s.signal is None
            },
        },
{
    match dead {
        Some(ended) => Some(ended),
        None => {
            if has_session {
                None
            } else {
                Some(PtyExitStatus::exited(0))
            }
        },
    }
}

/// A text with line ends replaced by spaces.
pub open spec fn on_one_line(text: Seq<char>) -> Seq<char> {
    Seq::new(
        text.len(),
        |i: int|
            if text[i] == '\r' || text[i] == '\n' {
                ' '
            } else {
                text[i]
            },
    )
}

/// What a client wrote before it failed to start, as it is shown in messages.
pub open spec fn startup_note(output: Seq<u8>) -> Seq<char> {
    let shown = trimmed(on_one_line(lossy_text(output)));
    if output.len() == 0 || shown.len() == 0 {
        Seq::empty()
    } else {
        "; startup output: "@ + shown
    }
}

/// Writes what a client wrote before it failed to start, for a message.
pub fn startup_output_note(collected: &[u8]) -> (note: String)
    ensures
        note@ == startup_note(collected@),
{
    if collected.len() == 0 {
        return String::new();
    }
    let text = utf8_lossy(collected);
    let chars = str_chars(text.as_str());
    let mut line: Vec<char> = Vec::new();
    let mut i: usize = 0;
    while i < chars.len()
        invariant
            chars@ == text@,
            i <= chars@.len(),
            line@ == on_one_line(text@).take(i as int),
        decreases chars@.len() - i,
    {
        let c: char = chars[i];
        if c == '\r' || c == '\n' {
            line.push(' ');
        } else {
            line.push(c);
        }
        i = i + 1;
        assert(line@ =~= on_one_line(text@).take(i as int));
    }
    assert(line@ =~= on_one_line(text@));
    let shown = trim_chars(line.as_slice());
    if shown.len() == 0 {
        return String::new();
    }
    concat("; startup output: ", string_from_chars(shown.as_slice()).as_str())
}

/// How often a client that attaches is looked at before it counts as started.
pub const TMUX_ATTACH_STARTUP_CHECK_POLLS: usize = 2;

/// How often a client in control mode is looked at before it is no longer waited for.
pub const TMUX_ATTACHMENT_STOP_POLLS: usize = 50;

/// What to do about a client that is starting.
#[derive(Clone, Copy, Debug, PartialEq, Eq, Structural)]
pub enum ClientStartStep {
    /// Look at it once more.
    Look,
    /// It has started.
    Started,
    /// It ended while it started.
    Failed,
}

/// What to do about a client that is starting, after it was looked at a number of times. `ended` is what
/// the last look found.
pub fn client_start_step(looks: usize, ended: bool) -> (step: ClientStartStep)
    ensures
        step == (if ended {
            ClientStartStep::Failed
        } else if looks < TMUX_ATTACH_STARTUP_CHECK_POLLS {
            ClientStartStep::Look
        } else {
            ClientStartStep::Started
        }),
{
    if ended {
        ClientStartStep::Failed
    } else if looks < TMUX_ATTACH_STARTUP_CHECK_POLLS {
        ClientStartStep::Look
    } else {
        ClientStartStep::Started
    }
}

/// What a look at a child process finds.
#[derive(Clone, Copy, Debug, PartialEq, Eq, Structural)]
pub enum ChildLook {
    Running,
    Ended,
    /// It could not be looked at.
    Unknown,
}

/// Whether to go on waiting for a client in control mode to end, after it was looked at a number of
/// times. `found` is what the last look found.
pub fn awaits_client_end(looks: usize, found: ChildLook) -> (waits: bool)
    ensures
        waits == (found == ChildLook::Running && looks < TMUX_ATTACHMENT_STOP_POLLS),
{
    match found {
        ChildLook::Running => looks < TMUX_ATTACHMENT_STOP_POLLS,
        _ => false,
    }
}

/// Whether a client that is no longer waited for has to be killed, given a last look at it.
pub fn kills_client(found: ChildLook) -> (kills: bool)
    ensures
        kills == (found == ChildLook::Running),
{
    match found {
        ChildLook::Running => true,
        _ => false,
    }
}

/// Whether enough of the output of a client that failed to start was collected.
pub fn startup_output_complete(collected: usize, read: usize) -> (complete: bool)
    ensures
        complete == (read == 0 || collected >= TMUX_STARTUP_OUTPUT_MAX_BYTES),
{
    read == 0 || collected >= TMUX_STARTUP_OUTPUT_MAX_BYTES
}

/// The failure of a client that ended while it started.
pub fn startup_failure(session_name: &str, status: &PtyExitStatus, collected: &[u8]) -> (error: PtyError)
    ensures
        error@ == PtyErrorModel::Backend(
            "tmux attach bridge for session "@ + session_name@ + " exited during startup: "@
                + exit_status_text(*status) + startup_note(collected@),
        ),
{
    let head = concat3(
        "tmux attach bridge for session ",
        session_name,
        " exited during startup: ",
    );
    PtyError::Backend(
        concat3(
            head.as_str(),
            show_exit_status(status).as_str(),
            startup_output_note(collected).as_str(),
        ),
    )
}

// ---------------------------------------------------------------------------
// Output

/// The sequences with which a program clears the screen and what scrolled off it.
pub open spec fn clear_sequences() -> Seq<Seq<u8>> {
    seq![
        seq![0x1bu8, 0x5b, 0x33, 0x4a],
        seq![0x1bu8, 0x5b, 0x48, 0x1b, 0x5b, 0x32, 0x4a],
        seq![0x1bu8, 0x5b, 0x31, 0x3b, 0x31, 0x48, 0x1b, 0x5b, 0x32, 0x4a],
    ]
}

/// A sequence ends behind a position.
pub open spec fn ends_behind(bytes: Seq<u8>, sequence: Seq<u8>, at: int, prefix_len: int) -> bool {
    occurs_at(bytes, sequence, at) && at + sequence.len() > prefix_len
}

/// Bytes behind a prefix that was already looked at hold the end of a sequence that clears.
pub open spec fn requests_clear(bytes: Seq<u8>, prefix_len: int) -> bool {
    exists|p: int, at: int|
        0 <= p < 3 && #[trigger] ends_behind(bytes, clear_sequences()[p], at, prefix_len)
}

fn sequence_ends_behind(bytes: &[u8], sequence: &[u8], prefix_len: usize) -> (found: bool)
    requires
        sequence@.len() > 0,
    ensures
        found == exists|at: int| #[trigger]
            ends_behind(bytes@, sequence@, at, prefix_len as int),
{
    if bytes.len() < sequence.len() || prefix_len >= bytes.len() {
        return false;
    }
    let keep: usize = sequence.len() - 1;
    let mut at: usize = if prefix_len > keep {
        prefix_len - keep
    } else {
        0
    };
    while at <= bytes.len() - sequence.len()
        invariant
            prefix_len <= bytes@.len(),
            0 < sequence@.len() <= bytes@.len(),
            at + sequence@.len() > prefix_len,
            at <= bytes@.len() - sequence@.len() + 1 || at <= prefix_len,
            at <= bytes@.len(),
            forall|k: int|
                0 <= k < at ==> !#[trigger] ends_behind(bytes@, sequence@, k, prefix_len as int),
        decreases bytes@.len() - at,
    {
        let mut k: usize = 0;
        while k < sequence.len() && bytes[at + k] == sequence[k]
            invariant
                k <= sequence@.len(),
                at + sequence@.len() <= bytes.len(),
                forall|j: int| 0 <= j < k ==> bytes@[at + j] == sequence@[j],
            decreases sequence@.len() - k,
        {
            k = k + 1;
        }
        if k == sequence.len() {
            assert(bytes@.subrange(at as int, at + sequence@.len()) =~= sequence@);
            assert(ends_behind(bytes@, sequence@, at as int, prefix_len as int));
            return true;
        }
        assert(!ends_behind(bytes@, sequence@, at as int, prefix_len as int)) by {
            assert(bytes@.subrange(at as int, at + sequence@.len())[k as int] == bytes@[at + k]);
        }
        at = at + 1;
    }
    false
}

/// Whether new output clears the history. `prefix_len` bytes at the beginning were looked at before:
/// a sequence that ended there does not count again.
pub fn tmux_output_requests_history_clear(bytes: &[u8], prefix_len: usize) -> (clear: bool)
    ensures
        clear == requests_clear(bytes@, prefix_len as int),
{
    let scrollback: [u8; 4] = [0x1b, 0x5b, 0x33, 0x4a];
    let home: [u8; 7] = [0x1b, 0x5b, 0x48, 0x1b, 0x5b, 0x32, 0x4a];
    let origin: [u8; 10] = [0x1b, 0x5b, 0x31, 0x3b, 0x31, 0x48, 0x1b, 0x5b, 0x32, 0x4a];
    assert(scrollback@ =~= clear_sequences()[0]);
    assert(home@ =~= clear_sequences()[1]);
    assert(origin@ =~= clear_sequences()[2]);
    let a = sequence_ends_behind(bytes, scrollback.as_slice(), prefix_len);
    let b = sequence_ends_behind(bytes, home.as_slice(), prefix_len);
    let c = sequence_ends_behind(bytes, origin.as_slice(), prefix_len);
    proof {
        if a {
            let at = choose|at: int| #[trigger]
                ends_behind(bytes@, scrollback@, at, prefix_len as int);
            assert(ends_behind(bytes@, clear_sequences()[0], at, prefix_len as int));
        }
        if b {
            let at = choose|at: int| #[trigger] ends_behind(bytes@, home@, at, prefix_len as int);
            assert(ends_behind(bytes@, clear_sequences()[1], at, prefix_len as int));
        }
        if c {
            let at = choose|at: int| #[trigger] ends_behind(bytes@, origin@, at, prefix_len as int);
            assert(ends_behind(bytes@, clear_sequences()[2], at, prefix_len as int));
        }
    }
    a || b || c
}

/// The last bytes of an output.
pub open spec fn scan_tail(output: Seq<u8>) -> Seq<u8> {
    if output.len() <= TMUX_CLEAR_HISTORY_SCAN_TAIL_MAX_BYTES {
        output
    } else {
        output.skip(output.len() - TMUX_CLEAR_HISTORY_SCAN_TAIL_MAX_BYTES)
    }
}

/// Finds in the output of a session when its history has to be cleared.
pub struct HistoryClearScanner {
    tail: Vec<u8>,
}

impl HistoryClearScanner {
    /// The last bytes that were seen.
    pub closed spec fn seen(&self) -> Seq<u8> {
        self.tail@
    }

    /// Nothing was seen yet.
    pub fn new() -> (scanner: Self)
        ensures
            scanner.seen() == Seq::<u8>::empty(),
    {
        HistoryClearScanner { tail: Vec::new() }
    }

    /// New output arrives. Whether it clears the history comes back.
    pub fn observe(&mut self, bytes: &[u8]) -> (clear: bool)
        ensures
            clear == (bytes@.len() > 0 && requests_clear(
                old(self).seen() + bytes@,
                old(self).seen().len() as int,
            )),
            final(self).seen() == (if bytes@.len() == 0 {
                old(self).seen()
            } else {
                scan_tail(old(self).seen() + bytes@)
            }),
    {
        if bytes.len() == 0 {
            return false;
        }
        let prefix_len: usize = self.tail.len();
        let mut combined: Vec<u8> = slice_to_vec(self.tail.as_slice());
        let mut new: Vec<u8> = slice_to_vec(bytes);
        combined.append(&mut new);
        let ghost all = combined@;
        let clear = tmux_output_requests_history_clear(combined.as_slice(), prefix_len);
        if combined.len() > TMUX_CLEAR_HISTORY_SCAN_TAIL_MAX_BYTES {
            let cut: usize = combined.len() - TMUX_CLEAR_HISTORY_SCAN_TAIL_MAX_BYTES;
            self.tail = combined.split_off(cut);
        } else {
            self.tail = combined;
        }
        assert(self.tail@ =~= scan_tail(all));
        clear
    }
}

/// The sequence numbers of a session inside tmux, which has none of its own.
pub struct TmuxTerminalStream {
    next_terminal_seq: u64,
}

impl TmuxTerminalStream {
    /// The number of the last frame.
    pub closed spec fn last(&self) -> u64 {
        self.next_terminal_seq
    }

    /// No frame was read yet.
    pub fn new() -> (stream: Self)
        ensures
            stream.last() == 0,
    {
        TmuxTerminalStream { next_terminal_seq: 0 }
    }

    /// The frames for a snapshot: one, up to the last frame that was read.
    pub fn snapshot_frames(&self, snapshot: PtySnapshot) -> (frames: Vec<PtyTerminalFrame>)
        ensures
            frame_models(frames@) == seq![
                FrameModel::Snapshot {
                    base_seq: self.last(),
                    size: snapshot.size,
                    data: snapshot.retained_output@,
                },
            ],
    {
        let mut frames: Vec<PtyTerminalFrame> = Vec::new();
        frames.push(
            PtyTerminalFrame::Snapshot {
                base_seq: self.next_terminal_seq,
                size: snapshot.size,
                data: snapshot.retained_output,
            },
        );
        assert(frame_models(frames@) =~= seq![
            FrameModel::Snapshot {
                base_seq: self.last(),
                size: snapshot.size,
                data: snapshot.retained_output@,
            },
        ]);
        frames
    }

    /// The frame for the first `read` bytes of a buffer, if there are any. Numbers wrap around.
    pub fn output_frame(&mut self, buffer: Vec<u8>, read: usize) -> (frame: Option<PtyTerminalFrame>)
        requires
            read <= buffer@.len(),
        ensures
            frame is None <==> read == 0,
            final(self).last() == (if read == 0 {
                old(self).last() as int
            } else if old(self).last() == u64::MAX {
                0
            } else {
                old(self).last() + 1
            }),
            frame matches Some(f) ==> f@ == (FrameModel::Output {
                terminal_seq: final(self).last(),
                data: buffer@.take(read as int),
            }),
    {
        if read == 0 {
            return None;
        }
        let ghost whole = buffer@;
        let mut data = buffer;
        data.truncate(read);
        assert(data@ =~= whole.take(read as int));
        self.next_terminal_seq = if self.next_terminal_seq == u64::MAX {
            0
        } else {
            self.next_terminal_seq + 1
        };
        Some(PtyTerminalFrame::Output { terminal_seq: self.next_terminal_seq, data })
    }
}

// ---------------------------------------------------------------------------
// Laws

/// However output is cut into pieces, a sequence that clears the history is found in the piece in
/// which it ends: keeping the last bytes is as good as keeping everything.
pub proof fn law_cut_sequences_are_found(output: Seq<u8>, piece: Seq<u8>)
    ensures
        requests_clear(scan_tail(output) + piece, scan_tail(output).len() as int) == requests_clear(
            output + piece,
            output.len() as int,
        ),
{
    let tail = scan_tail(output);
    let d = output.len() - tail.len();
    let short = tail + piece;
    let long = output + piece;
    assert(short =~= long.skip(d));
    assert forall|p: int, at: int| 0 <= p < 3 implies #[trigger] ends_behind(
        short,
        clear_sequences()[p],
        at,
        tail.len() as int,
    ) == ends_behind(long, clear_sequences()[p], at + d, output.len() as int) by {
        let s = clear_sequences()[p];
        if 0 <= at && at + s.len() <= short.len() {
            assert(short.subrange(at, at + s.len()) =~= long.subrange(at + d, at + d + s.len()));
        } else if at < 0 {
            if ends_behind(long, s, at + d, output.len() as int) {
                assert(at + d + s.len() > output.len());
                assert(s.len() <= 10);
                if d > 0 {
                    assert(tail.len() == 32);
                }
            }
        }
    }
    if requests_clear(short, tail.len() as int) {
        let (p, at) = choose|p: int, at: int|
            0 <= p < 3 && #[trigger] ends_behind(
                short,
                clear_sequences()[p],
                at,
                tail.len() as int,
            );
        assert(ends_behind(long, clear_sequences()[p], at + d, output.len() as int));
    }
    if requests_clear(long, output.len() as int) {
        let (p, at) = choose|p: int, at: int|
            0 <= p < 3 && #[trigger] ends_behind(
                long,
                clear_sequences()[p],
                at,
                output.len() as int,
            );
        assert(ends_behind(short, clear_sequences()[p], at - d, tail.len() as int));
    }
}

/// What a scanner keeps of two pieces is what it would keep of them together.
pub proof fn law_scanner_keeps_the_last_bytes(output: Seq<u8>, piece: Seq<u8>)
    ensures
        scan_tail(scan_tail(output) + piece) == scan_tail(output + piece),
{
    assert(scan_tail(scan_tail(output) + piece) =~= scan_tail(output + piece));
}

/// The name of a tmux session holds nothing that tmux could take for anything else.
pub proof fn law_session_names_are_plain(session_id: Seq<char>, i: int)
    requires
        0 <= i < sanitized(session_id, false).len(),
    ensures
        plain_name_char(sanitized(session_id, false)[i]),
        plain_name_char(session_id[i]) ==> sanitized(session_id, false)[i] == session_id[i],
{
}

} // verus!
