//! Commands, sizes, frames and exits: what is built is what is read back.

use crate::collections::{StringMap, StringSet};
use crate::paths::join_path;
use crate::pty::portable::{exit_status, PortableHistory};
use crate::pty::{
    text_values, texts, unsequenced_output_frame, unsequenced_snapshot_frames, CommandModel, CommandSpec,
    FrameModel, IoError, IoErrorKind, PtyError, PtyErrorModel, PtyExitStatus, PtyResult, PtySize,
    PtySnapshot, PtyTerminalFrame,
};
use crate::text::is_whitespace;
use vstd::prelude::*;

verus! {

/// A new command runs its program, without arguments, in the environment and the directory that it finds.
pub proof fn law_new_command_runs_its_program(
    program: &str,
    command: CommandSpec,
    told: &str,
    args: &[String],
    path: Option<&str>,
    name: Seq<char>,
)
    requires
        call_ensures(CommandSpec::new, (program,), command),
        call_ensures(CommandSpec::program, (&command,), told),
        call_ensures(CommandSpec::args_slice, (&command,), args),
        call_ensures(CommandSpec::cwd_path, (&command,), path),
    ensures
        told@ == program@,
        args@.len() == 0,
        path is None,
        !command@.env.contains_key(name),
        !command@.removed_env.contains(name),
{
    assert(texts(args@).len() == args@.len());
}

/// An argument stands behind those before it, and nothing else of the command changes.
pub proof fn law_argument_stands_last(command: CommandSpec, arg: &str, after: CommandSpec, args: &[String])
    requires
        call_ensures(CommandSpec::arg, (command, arg), after),
        call_ensures(CommandSpec::args_slice, (&after,), args),
    ensures
        args@.len() == command@.args.len() + 1,
        args@[args@.len() - 1]@ == arg@,
        forall|i: int| 0 <= i < command@.args.len() ==> (#[trigger] args@[i])@ == command@.args[i],
        after@ == (CommandModel { args: after@.args, ..command@ }),
{
    assert(texts(args@).len() == args@.len());
    assert(forall|i: int| 0 <= i < args@.len() ==> texts(args@)[i] == #[trigger] args@[i]@);
}

/// Several arguments stand behind those before them, in order.
pub proof fn law_arguments_keep_their_order(
    command: CommandSpec,
    more: &[&str],
    after: CommandSpec,
    args: &[String],
)
    requires
        call_ensures(CommandSpec::args, (command, more), after),
        call_ensures(CommandSpec::args_slice, (&after,), args),
    ensures
        args@.len() == command@.args.len() + more@.len(),
        forall|i: int| 0 <= i < command@.args.len() ==> (#[trigger] args@[i])@ == command@.args[i],
        forall|i: int|
            command@.args.len() <= i < args@.len() ==> (#[trigger] args@[i])@ == more@[i
                - command@.args.len()]@,
        after@ == (CommandModel { args: after@.args, ..command@ }),
{
    assert(texts(args@).len() == args@.len());
    assert(forall|i: int| 0 <= i < args@.len() ==> texts(args@)[i] == #[trigger] args@[i]@);
}

/// A variable that was set has its value and counts as removed no more; the others stay as they were.
pub proof fn law_variable_has_its_value(
    command: CommandSpec,
    key: &str,
    value: &str,
    after: CommandSpec,
    name: Seq<char>,
)
    requires
        call_ensures(CommandSpec::env, (command, key, value), after),
    ensures
        after@.env.contains_key(key@),
        after@.env[key@] == value@,
        !after@.removed_env.contains(key@),
        name != key@ ==> after@.env.contains_key(name) == command@.env.contains_key(name),
        name != key@ && command@.env.contains_key(name) ==> after@.env[name] == command@.env[name],
        name != key@ ==> after@.removed_env.contains(name) == command@.removed_env.contains(name),
        after@.program == command@.program,
        after@.args == command@.args,
        after@.cwd == command@.cwd,
{
}

/// A variable that was removed has no value; the others stay as they were.
pub proof fn law_removed_variable_has_no_value(
    command: CommandSpec,
    key: &str,
    after: CommandSpec,
    name: Seq<char>,
)
    requires
        call_ensures(CommandSpec::remove_env, (command, key), after),
    ensures
        !after@.env.contains_key(key@),
        after@.removed_env.contains(key@),
        name != key@ ==> after@.env.contains_key(name) == command@.env.contains_key(name),
        name != key@ && command@.env.contains_key(name) ==> after@.env[name] == command@.env[name],
        name != key@ ==> after@.removed_env.contains(name) == command@.removed_env.contains(name),
        after@.program == command@.program,
        after@.args == command@.args,
        after@.cwd == command@.cwd,
{
}

/// A directory that was set is where the command runs.
pub proof fn law_command_runs_in_its_directory(
    command: CommandSpec,
    cwd: &str,
    after: CommandSpec,
    path: Option<&str>,
)
    requires
        call_ensures(CommandSpec::cwd, (command, cwd), after),
        call_ensures(CommandSpec::cwd_path, (&after,), path),
    ensures
        path is Some,
        path->0@ == cwd@,
        after@ == (CommandModel { cwd: after@.cwd, ..command@ }),
{
}

/// What is run is the program and then its arguments.
pub proof fn law_program_comes_before_its_arguments(command: &CommandSpec, argv: Vec<&str>)
    requires
        call_ensures(CommandSpec::argv, (command,), argv),
    ensures
        argv@.len() == command@.args.len() + 1,
        argv@[0]@ == command@.program,
        forall|i: int| 0 < i < argv@.len() ==> (#[trigger] argv@[i])@ == command@.args[i - 1],
{
    let all = crate::pty::slice_texts(argv@);
    assert(all.len() == argv@.len());
    assert(forall|i: int| 0 <= i < argv@.len() ==> all[i] == #[trigger] argv@[i]@);
}

/// The variables of a command are read as they were set and removed.
pub proof fn law_variables_are_read_back(
    command: &CommandSpec,
    env: &StringMap<String>,
    removed: &StringSet,
    name: Seq<char>,
)
    requires
        call_ensures(CommandSpec::env_map, (command,), env),
        call_ensures(CommandSpec::removed_env, (command,), removed),
    ensures
        env@.contains_key(name) <==> command@.env.contains_key(name),
        env@.contains_key(name) ==> env@[name]@ == command@.env[name],
        removed@.contains(name) <==> command@.removed_env.contains(name),
{
    assert(text_values(env@).contains_key(name) == env@.contains_key(name));
}

/// A command is refused exactly if its program has nothing but blanks in it.
pub proof fn law_command_needs_a_program(command: &CommandSpec, res: PtyResult<()>)
    requires
        call_ensures(CommandSpec::validate, (command,), res),
    ensures
        res is Err <==> forall|i: int|
            0 <= i < command@.program.len() ==> is_whitespace(#[trigger] command@.program[i]),
        res is Err ==> res->Err_0@ == PtyErrorModel::InvalidCommand("program must not be empty"@),
{
}

/// A size has the rows and columns that it was made with, and 24 times 80 where none are given.
pub proof fn law_size_is_as_given(
    rows: u16,
    cols: u16,
    width: u16,
    height: u16,
    plain: PtySize,
    full: PtySize,
    usual: PtySize,
)
    requires
        call_ensures(PtySize::new, (rows, cols), plain),
        call_ensures(PtySize::with_pixels, (rows, cols, width, height), full),
        call_ensures(PtySize::default, (), usual),
    ensures
        plain.rows == rows && plain.cols == cols && plain.pixel_width == 0 && plain.pixel_height == 0,
        full.rows == rows && full.cols == cols && full.pixel_width == width && full.pixel_height == height,
        usual.rows == 24 && usual.cols == 80 && usual.pixel_width == 0 && usual.pixel_height == 0,
{
}

/// A frame carries its number unless it is a screen, and bytes if it draws.
pub proof fn law_frame_carries_number_and_bytes(
    frame: &PtyTerminalFrame,
    number: Option<u64>,
    bytes: Option<&[u8]>,
    copy: PtyTerminalFrame,
)
    requires
        call_ensures(PtyTerminalFrame::terminal_seq, (frame,), number),
        call_ensures(PtyTerminalFrame::bytes_for_legacy_read, (frame,), bytes),
        call_ensures(PtyTerminalFrame::clone, (frame,), copy),
    ensures
        match *frame {
            PtyTerminalFrame::Snapshot { data, .. } => number is None && bytes is Some && bytes->0@ == data@,
            PtyTerminalFrame::Output { terminal_seq, data } => number == Some(terminal_seq)
                && bytes is Some && bytes->0@ == data@,
            PtyTerminalFrame::Resize { terminal_seq, .. } => number == Some(terminal_seq) && bytes is None,
            PtyTerminalFrame::Exit { terminal_seq, .. } => number == Some(terminal_seq) && bytes is None,
        },
        copy@ == frame@,
{
}

/// A process ended well exactly if it exited by itself with code zero.
pub proof fn law_exit_tells_how_it_ended(
    code: u32,
    exited: PtyExitStatus,
    well: bool,
    signal: &str,
    signaled: PtyExitStatus,
    killed_well: bool,
    made: PtyExitStatus,
    made_signaled: PtyExitStatus,
)
    requires
        call_ensures(PtyExitStatus::exited, (code,), exited),
        call_ensures(PtyExitStatus::success, (&exited,), well),
        call_ensures(PtyExitStatus::signaled, (signal,), signaled),
        call_ensures(PtyExitStatus::success, (&signaled,), killed_well),
        call_ensures(exit_status, (code, None::<&str>), made),
        call_ensures(exit_status, (code, Some(signal)), made_signaled),
    ensures
        exited.exit_code == code && exited.signal is None,
        well <==> code == 0,
        signaled.signal is Some && signaled.signal->0@ == signal@ && signaled.exit_code == 1,
        !killed_well,
        made.exit_code == code && made.signal is None,
        made_signaled.signal is Some && made_signaled.signal->0@ == signal@,
        made_signaled.exit_code == 1,
{
}

/// Without numbers, a screen is one frame, and what was read is one, unless nothing was read.
pub proof fn law_unnumbered_frames(
    snapshot: PtySnapshot,
    frames: Vec<PtyTerminalFrame>,
    buffer: Vec<u8>,
    read: usize,
    frame: Option<PtyTerminalFrame>,
)
    requires
        call_ensures(unsequenced_snapshot_frames, (snapshot,), frames),
        call_ensures(unsequenced_output_frame, (buffer, read), frame),
    ensures
        frames@.len() == 1,
        frames@[0]@ == (FrameModel::Snapshot {
            base_seq: 0,
            size: snapshot.size,
            data: snapshot.retained_output@,
        }),
        frame is None <==> read == 0,
        0 < read <= buffer@.len() ==> frame->0@ == (FrameModel::Output {
            terminal_seq: 0,
            data: buffer@.take(read as int),
        }),
        read > buffer@.len() ==> frame->0@ == (FrameModel::Output { terminal_seq: 0, data: buffer@ }),
{
    let models = crate::pty::frame_models(frames@);
    assert(models.len() == frames@.len());
    assert(models[0] == frames@[0]@);
}

/// An error says of what kind it is and then what happened.
pub proof fn law_error_says_what_happened(
    error: &PtyError,
    text: String,
    kind: IoErrorKind,
    message: &str,
    io: IoError,
    io_kind: IoErrorKind,
    io_text: String,
    backend: PtyError,
)
    requires
        call_ensures(PtyError::to_string, (error,), text),
        call_ensures(IoError::new, (kind, message), io),
        call_ensures(IoError::kind, (&io,), io_kind),
        call_ensures(IoError::to_string, (&io,), io_text),
        call_ensures(PtyError::backend_message, (message,), backend),
    ensures
        match *error {
            PtyError::InvalidCommand(why) => text@ == "invalid PTY command: "@ + why@,
            PtyError::Io(cause) => text@ == "PTY IO error: "@ + cause.message@,
            PtyError::Backend(why) => text@ == "PTY backend error: "@ + why@,
        },
        io_kind == kind,
        io_text@ == message@,
        backend is Backend && backend->Backend_0@ == message@,
{
}

/// Everything that a process printed is kept, in order, and shown with its current size.
pub proof fn law_history_keeps_everything(
    history: &mut PortableHistory,
    buffer: &[u8],
    read: usize,
    resized: &mut PortableHistory,
    size: PtySize,
    process_id: Option<u32>,
    snapshot: PtySnapshot,
)
    requires
        read <= buffer@.len(),
        call_ensures(PortableHistory::record, (history, buffer, read), ()),
        *old(resized) == *final(history),
        call_ensures(PortableHistory::set_size, (resized, size), ()),
        call_ensures(PortableHistory::snapshot, (&*final(resized), process_id), snapshot),
    ensures
        snapshot.retained_output@ == old(history).output() + buffer@.take(read as int),
        snapshot.size == size,
        snapshot.process_id == process_id,
        final(history).current_size() == old(history).current_size(),
{
}

/// A name stands behind its directory and one slash; one that begins at the root stands alone.
pub proof fn law_name_stands_behind_its_directory(base: &str, name: &str, path: String)
    requires
        call_ensures(join_path, (base, name), path),
    ensures
        name@.len() > 0 && name@[0] == '/' ==> path@ == name@,
        !(name@.len() > 0 && name@[0] == '/') && base@.len() > 0 && base@.last() != '/' ==> path@
            == base@.push('/') + name@,
        !(name@.len() > 0 && name@[0] == '/') && (base@.len() == 0 || base@.last() == '/') ==> path@
            == base@ + name@,
{
    reveal_strlit("/");
    assert(base@ + "/"@ =~= base@.push('/'));
}

} // verus!
