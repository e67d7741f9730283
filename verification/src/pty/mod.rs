//! Pseudo-terminal vocabulary: commands, sizes, frames, exit states and errors.
//!
//! This layer describes how a pseudo-terminal process is started and driven. It knows nothing of
//! authentication, control rights or transport.

pub mod activity;
pub mod portable;
pub mod supervisor;
pub mod tmux;

use crate::collections::{StringMap, StringSet};
use crate::text::{all_whitespace, concat, is_blank};
use vstd::prelude::*;
use vstd::slice::slice_to_vec;
use vstd::string::to_string_from_display_ensures;

verus! {

/// Result type of the pseudo-terminal layer.
pub type PtyResult<T> = Result<T, PtyError>;

/// The classes of input/output failures that the kernel tells apart.
#[derive(Clone, Copy, Debug, PartialEq, Eq, Structural)]
pub enum IoErrorKind {
    NotFound,
    PermissionDenied,
    ConnectionRefused,
    ConnectionReset,
    BrokenPipe,
    AddrInUse,
    AlreadyExists,
    Interrupted,
    WouldBlock,
    InvalidInput,
    InvalidData,
    TimedOut,
    UnexpectedEof,
    Other,
}

/// An input/output failure: its class and its message.
#[derive(Debug)]
pub struct IoError {
    pub kind: IoErrorKind,
    pub message: String,
}

impl IoError {
    /// Builds a failure of a class with a message.
    pub fn new(kind: IoErrorKind, message: &str) -> (error: Self)
        ensures
            error.kind == kind,
            error.message@ == message@,
    {
        IoError { kind, message: message.to_owned() }
    }

    /// The class of the failure.
    pub fn kind(&self) -> (kind: IoErrorKind)
        ensures
            kind == self.kind,
    {
        self.kind
    }

    /// The message of the failure.
    pub fn to_string(&self) -> (text: String)
        ensures
            text@ == self.message@,
    {
        self.message.clone()
    }
}

/// Failures of the pseudo-terminal layer.
#[derive(Debug)]
pub enum PtyError {
    /// The command itself is not acceptable, for example because its program is empty.
    InvalidCommand(String),
    /// Reading, writing or waiting failed.
    Io(IoError),
    /// A concrete backend failed.
    Backend(String),
}

/// What a [`PtyError`] says.
pub enum PtyErrorModel {
    InvalidCommand(Seq<char>),
    Io(IoErrorKind, Seq<char>),
    Backend(Seq<char>),
}

impl PtyErrorModel {
    /// The message shown to users.
    pub open spec fn text(self) -> Seq<char> {
        match self {
            PtyErrorModel::InvalidCommand(m) => "invalid PTY command: "@ + m,
            PtyErrorModel::Io(_, m) => "PTY IO error: "@ + m,
            PtyErrorModel::Backend(m) => "PTY backend error: "@ + m,
        }
    }
}

impl View for PtyError {
    type V = PtyErrorModel;

    open spec fn view(&self) -> PtyErrorModel {
        match self {
            PtyError::InvalidCommand(m) => PtyErrorModel::InvalidCommand(m@),
            PtyError::Io(e) => PtyErrorModel::Io(e.kind, e.message@),
            PtyError::Backend(m) => PtyErrorModel::Backend(m@),
        }
    }
}

impl PtyError {
    /// Flattens any displayable failure into a backend failure.
    pub fn backend<E: core::fmt::Display>(error: E) -> (res: Self)
        ensures
            res matches PtyError::Backend(text) && to_string_from_display_ensures::<E>(&error, text),
    {
        PtyError::Backend(error.to_string())
    }

    /// A backend failure with a fixed message.
    pub fn backend_message(message: &str) -> (res: Self)
        ensures
            res@ == PtyErrorModel::Backend(message@),
    {
        PtyError::Backend(message.to_owned())
    }

    /// The message shown to users.
    pub fn to_string(&self) -> (text: String)
        ensures
            text@ == self@.text(),
    {
        match self {
            PtyError::InvalidCommand(m) => concat("invalid PTY command: ", m.as_str()),
            PtyError::Io(e) => concat("PTY IO error: ", e.message.as_str()),
            PtyError::Backend(m) => concat("PTY backend error: ", m.as_str()),
        }
    }
}

impl From<IoError> for PtyError {
    fn from(error: IoError) -> (res: Self) {
        PtyError::Io(error)
    }
}

impl vstd::std_specs::convert::FromSpecImpl<IoError> for PtyError {
    open spec fn obeys_from_spec() -> bool {
        true
    }

    open spec fn from_spec(error: IoError) -> PtyError {
        PtyError::Io(error)
    }
}

/// A command to start inside a pseudo-terminal.
///
/// It only describes how the process is started; it never picks a default shell.
#[derive(Clone, Debug, PartialEq, Eq)]
pub struct CommandSpec {
    program: String,
    args: Vec<String>,
    env: StringMap<String>,
    removed_env: StringSet,
    cwd: Option<String>,
}

/// The mathematical content of a [`CommandSpec`].
#[verifier::ext_equal]
pub struct CommandModel {
    pub program: Seq<char>,
    pub args: Seq<Seq<char>>,
    pub env: Map<Seq<char>, Seq<char>>,
    pub removed_env: Set<Seq<char>>,
    pub cwd: Option<Seq<char>>,
}

/// The texts of a sequence of strings.
pub open spec fn texts(strings: Seq<String>) -> Seq<Seq<char>> {
    Seq::new(strings.len(), |i: int| strings[i]@)
}

/// The texts of a sequence of string slices.
pub open spec fn slice_texts(strings: Seq<&str>) -> Seq<Seq<char>> {
    Seq::new(strings.len(), |i: int| strings[i]@)
}

/// The texts of the values of a map.
pub open spec fn text_values(map: Map<Seq<char>, String>) -> Map<Seq<char>, Seq<char>> {
    map.map_values(|s: String| s@)
}

impl View for CommandSpec {
    type V = CommandModel;

    closed spec fn view(&self) -> CommandModel {
        CommandModel {
            program: self.program@,
            args: texts(self.args@),
            env: text_values(self.env@),
            removed_env: self.removed_env@,
            cwd: match self.cwd {
                Some(path) => Some(path@),
                None => None,
            },
        }
    }
}

impl CommandSpec {
    /// No variable is both set and removed, and both collections are in order.
    pub closed spec fn wf(&self) -> bool {
        &&& self.env.wf()
        &&& self.removed_env.wf()
        &&& self.env@.dom().disjoint(self.removed_env@)
    }

    /// A variable is never both set for a process and removed from its environment.
    pub proof fn law_variables_are_not_set_and_removed(&self)
        requires
            self.wf(),
        ensures
            self@.env.dom().disjoint(self@.removed_env),
    {
        assert(self@.env.dom() =~= self.env@.dom());
    }

    /// A command without arguments, extra environment or working directory.
    pub fn new(program: &str) -> (command: Self)
        ensures
            command.wf(),
            command@ == (CommandModel {
                program: program@,
                args: Seq::empty(),
                env: Map::empty(),
                removed_env: Set::empty(),
                cwd: None,
            }),
    {
        let command = CommandSpec {
            program: program.to_owned(),
            args: Vec::new(),
            env: StringMap::new(),
            removed_env: StringSet::new(),
            cwd: None,
        };
        assert(command@.args =~= Seq::<Seq<char>>::empty());
        assert(command@.env =~= Map::<Seq<char>, Seq<char>>::empty());
        command
    }

    /// Appends one argument.
    pub fn arg(self, arg: &str) -> (command: Self)
        requires
            self.wf(),
        ensures
            command.wf(),
            command@ == (CommandModel { args: self@.args.push(arg@), ..self@ }),
    {
        let mut command = self;
        command.args.push(arg.to_owned());
        assert(command@.args =~= self@.args.push(arg@));
        command
    }

    /// Appends several arguments.
    pub fn args(self, args: &[&str]) -> (command: Self)
        requires
            self.wf(),
        ensures
            command.wf(),
            command@ == (CommandModel { args: self@.args + slice_texts(args@), ..self@ }),
    {
        let mut command = self;
        let mut i: usize = 0;
        while i < args.len()
            invariant
                i <= args.len(),
                command.wf(),
                command@ == (CommandModel {
                    args: self@.args + slice_texts(args@).take(i as int),
                    ..self@
                }),
            decreases args.len() - i,
        {
            command = command.arg(args[i]);
            i = i + 1;
            assert(command@.args =~= self@.args + slice_texts(args@).take(i as int));
        }
        assert(slice_texts(args@).take(i as int) =~= slice_texts(args@));
        command
    }

    /// Sets or overrides an environment variable.
    pub fn env(self, key: &str, value: &str) -> (command: Self)
        requires
            self.wf(),
        ensures
            command.wf(),
            command@ == (CommandModel {
                env: self@.env.insert(key@, value@),
                removed_env: self@.removed_env.remove(key@),
                ..self@
            }),
    {
        let mut command = self;
        command.removed_env.remove(key);
        command.env.insert(key.to_owned(), value.to_owned());
        assert(command@.env =~= self@.env.insert(key@, value@));
        command
    }

    /// Removes a variable from the inherited environment.
    pub fn remove_env(self, key: &str) -> (command: Self)
        requires
            self.wf(),
        ensures
            command.wf(),
            command@ == (CommandModel {
                env: self@.env.remove(key@),
                removed_env: self@.removed_env.insert(key@),
                ..self@
            }),
    {
        let mut command = self;
        command.env.remove(key);
        command.removed_env.insert(key.to_owned());
        assert(command@.env =~= self@.env.remove(key@));
        command
    }

    /// Sets the working directory.
    pub fn cwd(self, cwd: &str) -> (command: Self)
        requires
            self.wf(),
        ensures
            command.wf(),
            command@ == (CommandModel { cwd: Some(cwd@), ..self@ }),
    {
        let mut command = self;
        command.cwd = Some(cwd.to_owned());
        command
    }

    /// The program name.
    pub fn program(&self) -> (program: &str)
        ensures
            program@ == self@.program,
    {
        self.program.as_str()
    }

    /// The arguments after the program.
    pub fn args_slice(&self) -> (args: &[String])
        ensures
            texts(args@) == self@.args,
    {
        self.args.as_slice()
    }

    /// The variables set for the process.
    pub fn env_map(&self) -> (env: &StringMap<String>)
        requires
            self.wf(),
        ensures
            env.wf(),
            text_values(env@) == self@.env,
    {
        &self.env
    }

    /// The variables removed from the inherited environment.
    pub fn removed_env(&self) -> (removed: &StringSet)
        requires
            self.wf(),
        ensures
            removed.wf(),
            removed@ == self@.removed_env,
    {
        &self.removed_env
    }

    /// The working directory.
    pub fn cwd_path(&self) -> (path: Option<&str>)
        ensures
            match path {
                Some(p) => self@.cwd == Some(p@),
                None => self@.cwd is None,
            },
    {
        match &self.cwd {
            Some(path) => Some(path.as_str()),
            None => None,
        }
    }

    /// The program followed by its arguments.
    pub fn argv(&self) -> (argv: Vec<&str>)
        ensures
            slice_texts(argv@) == seq![self@.program] + self@.args,
    {
        let mut argv: Vec<&str> = Vec::new();
        argv.push(self.program.as_str());
        let mut i: usize = 0;
        while i < self.args.len()
            invariant
                i <= self.args.len(),
                slice_texts(argv@) == seq![self.program@] + texts(self.args@).take(i as int),
            decreases self.args.len() - i,
        {
            let ghost before = argv@;
            argv.push(self.args[i].as_str());
            i = i + 1;
            assert(slice_texts(argv@) =~= slice_texts(before).push(self.args@[i - 1]@));
            assert(slice_texts(argv@) =~= seq![self.program@] + texts(self.args@).take(i as int));
        }
        assert(texts(self.args@).take(i as int) =~= texts(self.args@));
        argv
    }

    /// Rejects a command whose program is blank.
    pub fn validate(&self) -> (res: PtyResult<()>)
        ensures
            res is Ok <==> !all_whitespace(self@.program),
            res matches Err(e) ==> e@ == PtyErrorModel::InvalidCommand("program must not be empty"@),
    {
        if is_blank(self.program.as_str()) {
            return Err(PtyError::InvalidCommand("program must not be empty".to_owned()));
        }
        Ok(())
    }
}

/// The size of a terminal: the character grid, and pixel hints that may be zero.
#[derive(Clone, Copy, Debug, PartialEq, Eq, Structural)]
pub struct PtySize {
    pub rows: u16,
    pub cols: u16,
    pub pixel_width: u16,
    pub pixel_height: u16,
}

impl PtySize {
    /// The usual number of rows.
    pub const DEFAULT_ROWS: u16 = 24;

    /// The usual number of columns.
    pub const DEFAULT_COLS: u16 = 80;

    /// A size of the character grid, without pixel hints.
    pub fn new(rows: u16, cols: u16) -> (size: Self)
        ensures
            size == (PtySize { rows, cols, pixel_width: 0, pixel_height: 0 }),
    {
        PtySize { rows, cols, pixel_width: 0, pixel_height: 0 }
    }

    /// A size with pixel hints.
    pub fn with_pixels(rows: u16, cols: u16, pixel_width: u16, pixel_height: u16) -> (size: Self)
        ensures
            size == (PtySize { rows, cols, pixel_width, pixel_height }),
    {
        PtySize { rows, cols, pixel_width, pixel_height }
    }
}

impl Default for PtySize {
    fn default() -> (size: Self)
        ensures
            size == (PtySize { rows: 24, cols: 80, pixel_width: 0, pixel_height: 0 }),
    {
        PtySize::new(PtySize::DEFAULT_ROWS, PtySize::DEFAULT_COLS)
    }
}

/// The persisted lifecycle of a session supervisor.
#[derive(Clone, Copy, Debug, PartialEq, Eq, Structural)]
pub enum PtySupervisorStatus {
    Running,
    Closing,
    Closed,
}

/// How to find a session host again after a restart.
#[derive(Clone, Debug, PartialEq, Eq)]
pub enum PtyRestoreInfo {
    UnixSocket { socket_path: String, supervisor_pid: u32, supervisor_status: PtySupervisorStatus },
    Tmux { socket_path: String, session_name: String },
}

/// What a [`PtyRestoreInfo`] says.
pub enum RestoreModel {
    UnixSocket { socket_path: Seq<char>, supervisor_pid: u32, supervisor_status: PtySupervisorStatus },
    Tmux { socket_path: Seq<char>, session_name: Seq<char> },
}

impl View for PtyRestoreInfo {
    type V = RestoreModel;

    open spec fn view(&self) -> RestoreModel {
        match self {
            PtyRestoreInfo::UnixSocket { socket_path, supervisor_pid, supervisor_status } => {
                RestoreModel::UnixSocket {
                    socket_path: socket_path@,
                    supervisor_pid: *supervisor_pid,
                    supervisor_status: *supervisor_status,
                }
            },
            PtyRestoreInfo::Tmux { socket_path, session_name } => RestoreModel::Tmux {
                socket_path: socket_path@,
                session_name: session_name@,
            },
        }
    }
}

/// The state of a session host at one moment.
#[derive(Clone, Debug, PartialEq, Eq)]
pub struct PtySnapshot {
    pub size: PtySize,
    pub process_id: Option<u32>,
    pub retained_output: Vec<u8>,
}

/// A terminal event of a session, as the daemon sees it.
///
/// `terminal_seq` counts the events of the session; it is unrelated to any transport sequence.
#[derive(Debug, PartialEq, Eq)]
pub enum PtyTerminalFrame {
    Snapshot { base_seq: u64, size: PtySize, data: Vec<u8> },
    Output { terminal_seq: u64, data: Vec<u8> },
    Resize { terminal_seq: u64, size: PtySize },
    Exit { terminal_seq: u64, code: Option<i32> },
}

/// The mathematical content of a [`PtyTerminalFrame`].
pub enum FrameModel {
    Snapshot { base_seq: u64, size: PtySize, data: Seq<u8> },
    Output { terminal_seq: u64, data: Seq<u8> },
    Resize { terminal_seq: u64, size: PtySize },
    Exit { terminal_seq: u64, code: Option<i32> },
}

impl FrameModel {
    /// The sequence number of a live event; a snapshot has none.
    pub open spec fn seq(self) -> Option<u64> {
        match self {
            FrameModel::Snapshot { .. } => None,
            FrameModel::Output { terminal_seq, .. } => Some(terminal_seq),
            FrameModel::Resize { terminal_seq, .. } => Some(terminal_seq),
            FrameModel::Exit { terminal_seq, .. } => Some(terminal_seq),
        }
    }

    /// The screen bytes that the frame carries.
    pub open spec fn bytes(self) -> Option<Seq<u8>> {
        match self {
            FrameModel::Snapshot { data, .. } => Some(data),
            FrameModel::Output { data, .. } => Some(data),
            FrameModel::Resize { .. } => None,
            FrameModel::Exit { .. } => None,
        }
    }

    /// What the frame counts for in a bounded queue: its bytes, or one.
    pub open spec fn retained_bytes(self) -> nat {
        match self.bytes() {
            Some(data) => data.len(),
            None => 1,
        }
    }
}

impl View for PtyTerminalFrame {
    type V = FrameModel;

    open spec fn view(&self) -> FrameModel {
        match self {
            PtyTerminalFrame::Snapshot { base_seq, size, data } => FrameModel::Snapshot {
                base_seq: *base_seq,
                size: *size,
                data: data@,
            },
            PtyTerminalFrame::Output { terminal_seq, data } => FrameModel::Output {
                terminal_seq: *terminal_seq,
                data: data@,
            },
            PtyTerminalFrame::Resize { terminal_seq, size } => FrameModel::Resize {
                terminal_seq: *terminal_seq,
                size: *size,
            },
            PtyTerminalFrame::Exit { terminal_seq, code } => FrameModel::Exit {
                terminal_seq: *terminal_seq,
                code: *code,
            },
        }
    }
}

/// The contents of a sequence of frames.
pub open spec fn frame_models(frames: Seq<PtyTerminalFrame>) -> Seq<FrameModel> {
    Seq::new(frames.len(), |i: int| frames[i]@)
}

impl Clone for PtyTerminalFrame {
    fn clone(&self) -> (frame: Self)
        ensures
            frame@ == self@,
    {
        match self {
            PtyTerminalFrame::Snapshot { base_seq, size, data } => PtyTerminalFrame::Snapshot {
                base_seq: *base_seq,
                size: *size,
                data: slice_to_vec(data.as_slice()),
            },
            PtyTerminalFrame::Output { terminal_seq, data } => PtyTerminalFrame::Output {
                terminal_seq: *terminal_seq,
                data: slice_to_vec(data.as_slice()),
            },
            PtyTerminalFrame::Resize { terminal_seq, size } => PtyTerminalFrame::Resize {
                terminal_seq: *terminal_seq,
                size: *size,
            },
            PtyTerminalFrame::Exit { terminal_seq, code } => PtyTerminalFrame::Exit {
                terminal_seq: *terminal_seq,
                code: *code,
            },
        }
    }
}

impl PtyTerminalFrame {
    /// The sequence number of a live event; a snapshot has none.
    pub fn terminal_seq(&self) -> (seq: Option<u64>)
        ensures
            seq == self@.seq(),
    {
        match self {
            PtyTerminalFrame::Snapshot { .. } => None,
            PtyTerminalFrame::Output { terminal_seq, .. } => Some(*terminal_seq),
            PtyTerminalFrame::Resize { terminal_seq, .. } => Some(*terminal_seq),
            PtyTerminalFrame::Exit { terminal_seq, .. } => Some(*terminal_seq),
        }
    }

    /// The screen bytes that a reader of raw output gets from the frame.
    pub fn bytes_for_legacy_read(&self) -> (bytes: Option<&[u8]>)
        ensures
            match bytes {
                Some(b) => self@.bytes() == Some(b@),
                None => self@.bytes() is None,
            },
    {
        match self {
            PtyTerminalFrame::Snapshot { data, .. } => Some(data.as_slice()),
            PtyTerminalFrame::Output { data, .. } => Some(data.as_slice()),
            PtyTerminalFrame::Resize { .. } => None,
            PtyTerminalFrame::Exit { .. } => None,
        }
    }
}

/// How a child process ended.
#[derive(Clone, Debug, PartialEq, Eq)]
pub struct PtyExitStatus {
    pub exit_code: u32,
    pub signal: Option<String>,
}

impl PtyExitStatus {
    /// The process ended on its own.
    pub fn exited(exit_code: u32) -> (status: Self)
        ensures
            status.exit_code == exit_code,
            status.signal is None,
    {
        PtyExitStatus { exit_code, signal: None }
    }

    /// The process was ended by a signal; its exit code is reported as 1.
    pub fn signaled(signal: &str) -> (status: Self)
        ensures
            status.exit_code == 1,
            status.signal matches Some(s) && s@ == signal@,
    {
        PtyExitStatus { exit_code: 1, signal: Some(signal.to_owned()) }
    }

    /// Whether the process ended on its own with code zero.
    pub fn success(&self) -> (ok: bool)
        ensures
            ok == (self.signal is None && self.exit_code == 0),
    {
        self.signal.is_none() && self.exit_code == 0
    }
}

/// A connection-level attachment to a session host.
pub trait PtyAttachment: Send {
    /// Ends the attachment; by default there is nothing to end.
    fn detach(&mut self) -> (res: PtyResult<()>)
        default_ensures
            res is Ok,
    {
        Ok(())
    }
}

/// The attachment of a host that has no separate attach client.
pub struct NoopPtyAttachment;

impl PtyAttachment for NoopPtyAttachment {

}

/// A running pseudo-terminal session.
pub trait PtySession: Send + Sized {
    /// Reads output into the buffer and returns how many bytes were read.
    fn read(&mut self, buffer: &mut [u8]) -> PtyResult<usize>;

    /// Writes user input.
    fn write_all(&mut self, bytes: &[u8]) -> PtyResult<()>;

    /// Changes the terminal size.
    fn resize(&mut self, size: PtySize) -> PtyResult<()>;

    /// The current state of the session host.
    fn snapshot(&mut self) -> PtyResult<PtySnapshot>;

    /// Asks the child process to end.
    fn terminate(&mut self) -> PtyResult<()>;

    /// Checks without blocking whether the child process has ended.
    fn try_wait(&mut self) -> PtyResult<Option<PtyExitStatus>>;

    /// Waits for the child process to end.
    fn wait(&mut self) -> PtyResult<PtyExitStatus>;

    /// The process id, where there is one.
    fn process_id(&self) -> Option<u32>;

    /// Checks that the session host answers.
    fn ping(&mut self) -> (res: PtyResult<()>)
        default_ensures
            res is Ok,
    {
        Ok(())
    }

    /// How to find the session again after a restart, where that is possible.
    fn restore_info(&self) -> (info: Option<PtyRestoreInfo>)
        default_ensures
            info is None,
    {
        None
    }

    /// The working directory of the main process, where it can be known.
    fn current_working_directory(&self) -> (path: Option<String>)
        default_ensures
            path is None,
    {
        None
    }

    /// A structured view of the screen; without session sequence numbers it is one snapshot at zero.
    fn terminal_snapshot(&mut self, _last_terminal_seq: Option<u64>) -> (res: PtyResult<
        Vec<PtyTerminalFrame>,
    >)
        default_ensures
            exists|session: &mut Self, snapshot: PtyResult<PtySnapshot>|
                {
                    &&& *session == *old(self)
                    &&& *final(session) == *final(self)
                    &&& #[trigger] call_ensures(Self::snapshot, (session,), snapshot)
                    &&& match (snapshot, res) {
                        (Ok(taken), Ok(frames)) => frame_models(frames@) == seq![
                            FrameModel::Snapshot {
                                base_seq: 0,
                                size: taken.size,
                                data: taken.retained_output@,
                            },
                        ],
                        (Err(error), Err(failure)) => failure == error,
                        _ => false,
                    }
                },
    {
        match self.snapshot() {
            Ok(snapshot) => Ok(unsequenced_snapshot_frames(snapshot)),
            Err(error) => Err(error),
        }
    }

    /// The next live frame; raw output is wrapped with sequence number zero.
    fn read_terminal_frame(&mut self) -> (res: PtyResult<Option<PtyTerminalFrame>>)
        default_ensures
            exists|session: &mut Self, buffer: &mut [u8], read: PtyResult<usize>|
                {
                    &&& *session == *old(self)
                    &&& *final(session) == *final(self)
                    &&& buffer@ == Seq::new(16384, |i: int| 0u8)
                    &&& #[trigger] call_ensures(Self::read, (session, buffer), read)
                    &&& match (read, res) {
                        (Ok(count), Ok(None)) => count == 0,
                        (Ok(count), Ok(Some(frame))) => count > 0 && frame@ == (FrameModel::Output {
                            terminal_seq: 0,
                            data: first_bytes(final(buffer)@, count),
                        }),
                        (Err(error), Err(failure)) => failure == error,
                        _ => false,
                    }
                },
    {
        let mut buffer: Vec<u8> = vec![0u8; 16384];
        match self.read(buffer.as_mut_slice()) {
            Ok(read) => Ok(unsequenced_output_frame(buffer, read)),
            Err(error) => Err(error),
        }
    }
}

/// The frames that stand for a snapshot of a host without sequence numbers.
pub fn unsequenced_snapshot_frames(snapshot: PtySnapshot) -> (frames: Vec<PtyTerminalFrame>)
    ensures
        frame_models(frames@) == seq![
            FrameModel::Snapshot {
                base_seq: 0,
                size: snapshot.size,
                data: snapshot.retained_output@,
            },
        ],
{
    let mut frames: Vec<PtyTerminalFrame> = Vec::new();
    frames.push(
        PtyTerminalFrame::Snapshot {
            base_seq: 0,
            size: snapshot.size,
            data: snapshot.retained_output,
        },
    );
    frames
}

/// The first bytes of a buffer, or all of them where it has fewer.
pub open spec fn first_bytes(buffer: Seq<u8>, count: usize) -> Seq<u8> {
    if count <= buffer.len() {
        buffer.take(count as int)
    } else {
        buffer
    }
}

/// The frame that stands for the first `read` bytes of raw output, if there are any.
pub fn unsequenced_output_frame(buffer: Vec<u8>, read: usize) -> (frame: Option<PtyTerminalFrame>)
    ensures
        frame is None <==> read == 0,
        frame matches Some(f) ==> f@ == (FrameModel::Output {
            terminal_seq: 0,
            data: first_bytes(buffer@, read),
        }),
{
    if read == 0 {
        return None;
    }
    let mut data = buffer;
    data.truncate(read);
    assert(read <= buffer@.len() ==> data@ =~= buffer@.take(read as int));
    Some(PtyTerminalFrame::Output { terminal_seq: 0, data })
}

/// A way to start pseudo-terminal sessions.
pub trait PtyBackend: Send + Sync + Sized {
    /// The sessions that the backend starts.
    type Session: PtySession;

    /// Starts a session.
    fn spawn(&self, command: &CommandSpec, size: PtySize) -> PtyResult<Self::Session>;

    /// Starts a session under a chosen name; a plain backend ignores the name.
    fn spawn_named(&self, _session_id: &str, command: &CommandSpec, size: PtySize) -> (res: PtyResult<
        Self::Session,
    >)
        default_ensures
            call_ensures(Self::spawn, (self, command, size), res),
    {
        self.spawn(command, size)
    }

    /// Connects to a session host that is still alive; a plain backend cannot.
    fn reconnect(&self, _session_id: &str, _restore_info: &PtyRestoreInfo, _size: PtySize) -> (res:
        PtyResult<Self::Session>)
        default_ensures
            res matches Err(e) && e@ == PtyErrorModel::Backend(
                "PTY backend does not support reconnect"@,
            ),
    {
        Err(PtyError::Backend("PTY backend does not support reconnect".to_owned()))
    }

    /// Makes an attach client for a session; a plain backend has no separate client.
    fn attach_client(
        &self,
        _session_id: &str,
        _restore_info: Option<&PtyRestoreInfo>,
        _size: PtySize,
        _attachment_id: &str,
    ) -> (res: PtyResult<Box<dyn PtyAttachment>>)
        default_ensures
            res is Ok,
    {
        Ok(Box::new(NoopPtyAttachment))
    }
}

} // verus!
