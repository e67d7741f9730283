//! The session runtime with a session host that only records what it is asked.

use std::sync::{Arc, Mutex};
use termd::pty::activity::UnixTimestampMillis;
use termd::pty::{
    CommandSpec, PtyBackend, PtyError, PtyExitStatus, PtyRestoreInfo, PtyResult, PtySession,
    PtySize, PtySnapshot, PtySupervisorStatus, PtyTerminalFrame,
};
use termd::runtime::{
    current_unix_timestamp_millis, terminal_size_to_pty_size, timestamp_for, RuntimeError,
    SessionRuntime, SessionStateRecord,
};
use termd::session::{AttachRole, SessionError, SessionState, TerminalSize};

#[derive(Clone, Default)]
struct FakePtyBackend {
    state: Arc<Mutex<FakePtyState>>,
}

#[derive(Debug, Default)]
struct FakePtyState {
    spawns: Vec<(String, PtySize)>,
    writes: Vec<Vec<u8>>,
    resizes: Vec<PtySize>,
    terminate_count: usize,
    refuse_spawn: bool,
    reconnects: Vec<String>,
}

impl FakePtyBackend {
    fn writes(&self) -> Vec<Vec<u8>> {
        self.state.lock().unwrap().writes.clone()
    }

    fn resizes(&self) -> Vec<PtySize> {
        self.state.lock().unwrap().resizes.clone()
    }

    fn terminate_count(&self) -> usize {
        self.state.lock().unwrap().terminate_count
    }
}

impl PtyBackend for FakePtyBackend {
    type Session = FakePtySession;

    fn spawn(&self, command: &CommandSpec, size: PtySize) -> PtyResult<FakePtySession> {
        let mut state = self.state.lock().unwrap();
        if state.refuse_spawn {
            return Err(PtyError::Backend("no host".to_owned()));
        }
        state.spawns.push((command.program().to_owned(), size));
        Ok(FakePtySession {
            state: Arc::clone(&self.state),
        })
    }

    fn reconnect(
        &self,
        session_id: &str,
        _restore_info: &PtyRestoreInfo,
        _size: PtySize,
    ) -> PtyResult<FakePtySession> {
        self.state
            .lock()
            .unwrap()
            .reconnects
            .push(session_id.to_owned());
        Ok(FakePtySession {
            state: Arc::clone(&self.state),
        })
    }
}

struct FakePtySession {
    state: Arc<Mutex<FakePtyState>>,
}

impl PtySession for FakePtySession {
    fn read(&mut self, _buffer: &mut [u8]) -> PtyResult<usize> {
        Ok(0)
    }

    fn write_all(&mut self, bytes: &[u8]) -> PtyResult<()> {
        self.state.lock().unwrap().writes.push(bytes.to_vec());
        Ok(())
    }

    fn resize(&mut self, size: PtySize) -> PtyResult<()> {
        self.state.lock().unwrap().resizes.push(size);
        Ok(())
    }

    fn snapshot(&mut self) -> PtyResult<PtySnapshot> {
        Ok(PtySnapshot {
            size: self
                .state
                .lock()
                .unwrap()
                .resizes
                .last()
                .copied()
                .unwrap_or_else(|| PtySize::new(24, 80)),
            process_id: Some(42),
            retained_output: Vec::new(),
        })
    }

    fn terminate(&mut self) -> PtyResult<()> {
        self.state.lock().unwrap().terminate_count += 1;
        Ok(())
    }

    fn try_wait(&mut self) -> PtyResult<Option<PtyExitStatus>> {
        Ok(None)
    }

    fn wait(&mut self) -> PtyResult<PtyExitStatus> {
        Err(PtyError::Backend(
            "fake wait is not used by runtime tests".into(),
        ))
    }

    fn process_id(&self) -> Option<u32> {
        Some(42)
    }
}

#[test]
fn first_attach_after_create_becomes_operator() {
    let backend = FakePtyBackend::default();
    let mut runtime = SessionRuntime::new(backend);

    let session_id = runtime
        .create_session(CommandSpec::new("sh"), TerminalSize::cells(24, 80))
        .unwrap();

    let role = runtime.attach(&session_id, "dev-a").unwrap();

    assert_eq!(role, AttachRole::Operator);
}

#[test]
fn operator_input_is_written_to_pty() {
    let backend = FakePtyBackend::default();
    let mut runtime = SessionRuntime::new(backend.clone());
    let session_id = runtime
        .create_session(CommandSpec::new("sh"), TerminalSize::cells(24, 80))
        .unwrap();
    runtime.attach(&session_id, "dev-a").unwrap();

    runtime
        .write_input(&session_id, "dev-a", b"echo ok\n")
        .unwrap();

    assert_eq!(backend.writes(), vec![b"echo ok\n".to_vec()]);
}

#[test]
fn additional_attached_device_input_is_written_to_shared_pty() {
    let backend = FakePtyBackend::default();
    let mut runtime = SessionRuntime::new(backend.clone());
    let session_id = runtime
        .create_session(CommandSpec::new("sh"), TerminalSize::cells(24, 80))
        .unwrap();
    runtime.attach(&session_id, "dev-a").unwrap();
    runtime.attach(&session_id, "dev-b").unwrap();

    runtime
        .write_input(&session_id, "dev-b", b"whoami\n")
        .unwrap();

    assert_eq!(backend.writes(), vec![b"whoami\n".to_vec()]);
}

#[test]
fn detach_does_not_close_runtime_session() {
    let backend = FakePtyBackend::default();
    let mut runtime = SessionRuntime::new(backend.clone());
    let session_id = runtime
        .create_session(CommandSpec::new("sh"), TerminalSize::cells(24, 80))
        .unwrap();
    runtime.attach(&session_id, "dev-a").unwrap();

    runtime.detach(&session_id, "dev-a").unwrap();
    let role = runtime.attach(&session_id, "dev-b").unwrap();

    assert_eq!(role, AttachRole::Operator);
    assert_eq!(backend.terminate_count(), 0);
}

#[test]
fn resize_updates_pty_and_session_size() {
    let backend = FakePtyBackend::default();
    let mut runtime = SessionRuntime::new(backend.clone());
    let session_id = runtime
        .create_session(CommandSpec::new("sh"), TerminalSize::cells(24, 80))
        .unwrap();
    let new_size = TerminalSize {
        rows: 40,
        cols: 120,
        pixel_width: 800,
        pixel_height: 600,
    };

    runtime.resize(&session_id, new_size).unwrap();

    assert_eq!(
        backend.resizes(),
        vec![PtySize::with_pixels(40, 120, 800, 600)]
    );
    assert_eq!(runtime.size(&session_id).unwrap(), new_size);
}

#[test]
fn close_terminates_pty_and_closes_session() {
    let backend = FakePtyBackend::default();
    let mut runtime = SessionRuntime::new(backend.clone());
    let session_id = runtime
        .create_session(CommandSpec::new("sh"), TerminalSize::cells(24, 80))
        .unwrap();
    runtime.attach(&session_id, "dev-a").unwrap();

    runtime.close(&session_id).unwrap();

    assert_eq!(backend.terminate_count(), 1);
    let error = runtime.attach(&session_id, "dev-b").unwrap_err();
    assert_eq!(error, RuntimeError::SessionClosed);
}

#[test]
fn failed_spawn_leaves_no_session() {
    let backend = FakePtyBackend::default();
    backend.state.lock().unwrap().refuse_spawn = true;
    let mut runtime = SessionRuntime::new(backend.clone());

    let error = runtime
        .create_session_with_id("s1", CommandSpec::new("sh"), TerminalSize::cells(24, 80))
        .unwrap_err();
    assert!(matches!(error, RuntimeError::Pty(PtyError::Backend(_))));
    assert!(runtime.persisted_sessions().is_empty());

    backend.state.lock().unwrap().refuse_spawn = false;
    runtime
        .create_session_with_id("s1", CommandSpec::new("sh"), TerminalSize::cells(24, 80))
        .unwrap();
    assert_eq!(
        runtime
            .create_session_with_id("s1", CommandSpec::new("sh"), TerminalSize::cells(24, 80))
            .unwrap_err(),
        RuntimeError::SessionAlreadyExists
    );
}

#[test]
fn unattached_devices_write_nothing() {
    let backend = FakePtyBackend::default();
    let mut runtime = SessionRuntime::new(backend.clone());
    let session_id = runtime
        .create_session(CommandSpec::new("sh"), TerminalSize::cells(24, 80))
        .unwrap();
    assert_eq!(
        runtime.write_input(&session_id, "dev-a", b"x").unwrap_err(),
        RuntimeError::DeviceNotAttached
    );
    assert_eq!(
        runtime.write_input("other", "dev-a", b"x").unwrap_err(),
        RuntimeError::SessionNotFound
    );
    assert!(backend.writes().is_empty());
}

#[test]
fn numbered_sessions_have_different_ids() {
    let mut runtime = SessionRuntime::new(FakePtyBackend::default());
    let first = runtime
        .create_session(CommandSpec::new("sh"), TerminalSize::cells(24, 80))
        .unwrap();
    let second = runtime
        .create_session(CommandSpec::new("sh"), TerminalSize::cells(24, 80))
        .unwrap();
    assert_ne!(first, second);
    assert_eq!(runtime.process_id(&first).unwrap(), Some(42));
    assert_eq!(runtime.state(&first).unwrap(), SessionState::Created);
    assert_eq!(
        runtime.snapshot(&first).unwrap().size,
        PtySize::new(24, 80)
    );
}

#[test]
fn empty_sizes_reach_no_host() {
    let backend = FakePtyBackend::default();
    let mut runtime = SessionRuntime::new(backend.clone());
    assert_eq!(
        runtime
            .create_session(CommandSpec::new("sh"), TerminalSize::cells(0, 80))
            .unwrap_err(),
        RuntimeError::InvalidSize
    );
    assert!(backend.state.lock().unwrap().spawns.is_empty());
    assert!(terminal_size_to_pty_size(TerminalSize::cells(1, 0)).is_err());
    assert_eq!(
        terminal_size_to_pty_size(TerminalSize::cells(1, 2)).unwrap(),
        PtySize::new(1, 2)
    );
}

#[test]
fn persisted_sessions_are_reconnected_under_their_ids() {
    let backend = FakePtyBackend::default();
    let mut runtime = SessionRuntime::new(backend.clone());
    let record = SessionStateRecord {
        session_id: "5f7a1f8e-4c1e-4c51-8f0e-1d2c3b4a5968".to_owned(),
        state: SessionState::Running,
        size: TerminalSize::cells(30, 90),
        created_at_ms: UnixTimestampMillis(7),
        updated_at_ms: UnixTimestampMillis(9),
        restore_info: Some(PtyRestoreInfo::UnixSocket {
            socket_path: "/run/s.sock".to_owned(),
            supervisor_pid: 3,
            supervisor_status: PtySupervisorStatus::Running,
        }),
    };
    runtime.reconnect_session(&record).unwrap();
    assert_eq!(
        backend.state.lock().unwrap().reconnects,
        ["5f7a1f8e-4c1e-4c51-8f0e-1d2c3b4a5968"]
    );
    assert_eq!(
        runtime.size(&record.session_id).unwrap(),
        TerminalSize::cells(30, 90)
    );

    let without_host = SessionStateRecord {
        session_id: "6f7a1f8e-4c1e-4c51-8f0e-1d2c3b4a5968".to_owned(),
        restore_info: None,
        ..record
    };
    assert_eq!(
        runtime.reconnect_session(&without_host).unwrap_err(),
        RuntimeError::NotReconnectable
    );
}

#[test]
fn discarded_sessions_are_gone_without_being_ended() {
    let backend = FakePtyBackend::default();
    let mut runtime = SessionRuntime::new(backend.clone());
    let session_id = runtime
        .create_session(CommandSpec::new("sh"), TerminalSize::cells(24, 80))
        .unwrap();
    runtime.discard(&session_id).unwrap();
    assert_eq!(backend.terminate_count(), 0);
    assert_eq!(runtime.state(&session_id).unwrap(), SessionState::Closed);
    assert_eq!(
        runtime.discard(&session_id).unwrap_err(),
        RuntimeError::SessionNotFound
    );
    assert!(runtime.persisted_sessions().is_empty());
}

#[test]
fn errors_keep_their_class() {
    assert_eq!(
        RuntimeError::from(SessionError::InvalidSize),
        RuntimeError::InvalidSize
    );
    assert_eq!(
        RuntimeError::from(PtyError::Backend("x".to_owned())),
        RuntimeError::Pty(PtyError::Backend("y".to_owned()))
    );
    assert_ne!(RuntimeError::SessionClosed, RuntimeError::SessionNotFound);
    assert_eq!(RuntimeError::SessionClosed.to_string(), "session is closed");
}

#[test]
fn the_clock_is_past_the_year_two_thousand() {
    assert!(current_unix_timestamp_millis().0 > 946_684_800_000);
    assert_eq!(timestamp_for(Some(946_684_800_000)), UnixTimestampMillis(946_684_800_000));
    assert_eq!(timestamp_for(None), UnixTimestampMillis(0));
}

/// A session that has something to say, and can be found again if it has a socket.
struct TalkingSession {
    output: Vec<u8>,
    socket_path: Option<String>,
}

impl PtySession for TalkingSession {
    fn read(&mut self, buffer: &mut [u8]) -> PtyResult<usize> {
        let read = self.output.len().min(buffer.len());
        buffer[..read].copy_from_slice(&self.output[..read]);
        self.output.drain(..read);
        Ok(read)
    }

    fn write_all(&mut self, _bytes: &[u8]) -> PtyResult<()> {
        Err(PtyError::Backend("deaf".to_owned()))
    }

    fn resize(&mut self, _size: PtySize) -> PtyResult<()> {
        Err(PtyError::Backend("rigid".to_owned()))
    }

    fn snapshot(&mut self) -> PtyResult<PtySnapshot> {
        Ok(PtySnapshot {
            size: PtySize::new(3, 4),
            process_id: None,
            retained_output: self.output.clone(),
        })
    }

    fn terminate(&mut self) -> PtyResult<()> {
        Err(PtyError::Backend("alive".to_owned()))
    }

    fn try_wait(&mut self) -> PtyResult<Option<PtyExitStatus>> {
        Ok(None)
    }

    fn wait(&mut self) -> PtyResult<PtyExitStatus> {
        Ok(PtyExitStatus::exited(0))
    }

    fn process_id(&self) -> Option<u32> {
        None
    }

    fn restore_info(&self) -> Option<PtyRestoreInfo> {
        let socket_path = self.socket_path.clone()?;
        Some(PtyRestoreInfo::UnixSocket {
            socket_path,
            supervisor_pid: 7,
            supervisor_status: PtySupervisorStatus::Running,
        })
    }
}

struct TalkingBackend;

impl PtyBackend for TalkingBackend {
    type Session = TalkingSession;

    fn spawn(&self, command: &CommandSpec, _size: PtySize) -> PtyResult<TalkingSession> {
        Ok(TalkingSession {
            output: command.program().as_bytes().to_vec(),
            socket_path: command.args_slice().first().cloned(),
        })
    }
}

#[test]
fn output_is_read_from_the_process_of_the_session() {
    let mut runtime = SessionRuntime::new(TalkingBackend);
    let size = TerminalSize::cells(24, 80);
    let session_id = runtime
        .create_session(CommandSpec::new("hello"), size)
        .unwrap();
    let mut buffer = [0_u8; 4];
    assert_eq!(runtime.read_output(&session_id, &mut buffer).unwrap(), 4);
    assert_eq!(&buffer, b"hell");
    assert_eq!(runtime.snapshot(&session_id).unwrap().retained_output, b"o");
    assert_eq!(runtime.read_output(&session_id, &mut buffer).unwrap(), 1);
    assert_eq!(&buffer, b"oell");
    assert_eq!(
        runtime.read_output("other", &mut buffer).unwrap_err(),
        RuntimeError::SessionNotFound
    );
}

#[test]
fn refusals_of_the_process_are_reported() {
    let mut runtime = SessionRuntime::new(TalkingBackend);
    let size = TerminalSize::cells(24, 80);
    let session_id = runtime
        .create_session(CommandSpec::new("hello"), size)
        .unwrap();
    runtime.attach(&session_id, "dev-a").unwrap();
    let failure = runtime.write_input(&session_id, "dev-a", b"x").unwrap_err();
    assert_eq!(failure.to_string(), "PTY backend error: deaf");
    let failure = runtime
        .resize(&session_id, TerminalSize::cells(30, 90))
        .unwrap_err();
    assert_eq!(failure.to_string(), "PTY backend error: rigid");
    assert_eq!(runtime.size(&session_id).unwrap(), size);
    let failure = runtime.close(&session_id).unwrap_err();
    assert_eq!(failure.to_string(), "PTY backend error: alive");
    assert_eq!(runtime.state(&session_id).unwrap(), SessionState::Running);
    assert_eq!(runtime.process_id(&session_id).unwrap(), None);
}

#[test]
fn records_are_kept_of_sessions_that_can_be_found_again() {
    let mut runtime = SessionRuntime::new(TalkingBackend);
    let size = TerminalSize::cells(24, 80);
    for (session_id, socket) in [
        ("00000000-0000-0000-0000-00000000000b", Some("/b")),
        ("00000000-0000-0000-0000-00000000000a", Some("/a")),
        ("00000000-0000-0000-0000-00000000000c", None),
        ("not-a-uuid", Some("/d")),
    ] {
        let mut command = CommandSpec::new("hello");
        if let Some(socket) = socket {
            command = command.arg(socket);
        }
        runtime
            .create_session_with_id(session_id, command, size)
            .unwrap();
    }
    let records = runtime.persisted_sessions();
    let kept: Vec<(&str, bool)> = records
        .iter()
        .map(|record| {
            let socket = matches!(
                &record.restore_info,
                Some(PtyRestoreInfo::UnixSocket { socket_path, .. })
                    if record.session_id.ends_with(&socket_path[1..])
            );
            (record.session_id.as_str(), socket)
        })
        .collect();
    assert_eq!(
        kept,
        vec![
            ("00000000-0000-0000-0000-00000000000a", true),
            ("00000000-0000-0000-0000-00000000000b", true),
        ]
    );
}

#[test]
fn hosts_without_sequence_numbers_number_nothing() {
    let mut session = TalkingSession {
        output: b"hi".to_vec(),
        socket_path: None,
    };
    assert_eq!(
        session.terminal_snapshot(Some(9)).unwrap(),
        vec![PtyTerminalFrame::Snapshot {
            base_seq: 0,
            size: PtySize::new(3, 4),
            data: b"hi".to_vec(),
        }]
    );
    assert_eq!(
        session.read_terminal_frame().unwrap(),
        Some(PtyTerminalFrame::Output {
            terminal_seq: 0,
            data: b"hi".to_vec(),
        })
    );
    assert_eq!(session.read_terminal_frame().unwrap(), None);
    assert!(session.ping().is_ok());
    assert_eq!(session.current_working_directory(), None);
}
