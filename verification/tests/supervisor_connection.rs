//! One connection to a session supervisor: who may ask for what.

use termd::pty::supervisor::cleanup_auth::{
    cleanup_auth_proof, constant_time_eq, decode_cleanup_capability, decode_cleanup_nonce,
    nonzero_from_bytes, random_cleanup_nonce, random_nonzero_u64,
};
use termd::pty::supervisor::client::{
    input_request, legacy_attach_request, legacy_install_request, legacy_install_result,
};
use termd::pty::supervisor::close_client::CleanupAuthentication;
use termd::pty::supervisor::connection::{
    Outbound, PendingReply, PtyEffect, RequestContext, SupervisorConnection, SupervisorReply,
    SupervisorStep,
};
use termd::pty::supervisor::output_queue::SupervisorWriterQueues;
use termd::pty::supervisor::protocol::{
    ControllerIdentity, SupervisorFrame, SupervisorRequest, SupervisorResponse, SupervisorResponsePayload,
};
use termd::pty::supervisor::resume::{ResumeAction, ResumeStage, ResumeTransaction};
use termd::pty::supervisor::screen::ScreenEmulator;
use termd::pty::supervisor::startup_grant::{
    drawn_16, drawn_32, encode_startup_grant, random_16_bytes, random_cleanup_capability,
    validate_startup_grant, PtyStartupGrant, CLEANUP_CAPABILITY_BYTES, STARTUP_GRANT_BYTES,
};
use termd::pty::supervisor::state::SupervisorState;
use termd::pty::{
    PtyError, PtyRestoreInfo, PtyResult, PtySize, PtySupervisorStatus, PtyTerminalFrame,
};

/// A supervisor whose process only counts how often it was ended.
struct Supervisor {
    session_id: String,
    state: SupervisorState,
    terminated: usize,
    waited: usize,
    written: Vec<Vec<u8>>,
    screen: Sizes,
}

/// A screen that only keeps the sizes that it was given.
#[derive(Default, Debug, PartialEq)]
struct Sizes(Vec<PtySize>);

impl ScreenEmulator for Sizes {
    fn reset(self, size: PtySize) -> Self {
        Sizes(vec![size])
    }

    fn feed(self, _bytes: &[u8]) -> Self {
        self
    }

    fn resize(mut self, size: PtySize) -> Self {
        self.0.push(size);
        self
    }

    fn snapshot(&self) -> Vec<u8> {
        Vec::new()
    }
}

impl Supervisor {
    fn new(session_id: &str, capability: Option<[u8; CLEANUP_CAPABILITY_BYTES]>) -> Self {
        Supervisor {
            session_id: session_id.to_owned(),
            state: SupervisorState::with_optional_cleanup_capability(
                PtySize::new(24, 80),
                capability,
            ),
            terminated: 0,
            waited: 0,
            written: Vec::new(),
            screen: Sizes::default(),
        }
    }

    fn connect(&mut self) -> SupervisorConnection {
        let lane = self.state.open_lane();
        SupervisorConnection::new(&self.session_id, lane)
    }

    fn reply(
        &mut self,
        connection: &mut SupervisorConnection,
        request: SupervisorRequest,
    ) -> SupervisorReply {
        let context = RequestContext {
            process_id: Some(42),
            screen: b"screen".to_vec(),
        };
        match connection.handle_request(&mut self.state, &request, context) {
            SupervisorStep::Reply(reply) => reply,
            SupervisorStep::Perform { effect, pending } => {
                match effect {
                    PtyEffect::Write(bytes) => self.written.push(bytes),
                    PtyEffect::Resize(_) => {}
                    PtyEffect::Terminate => self.terminated += 1,
                    PtyEffect::TerminateAndWait => {
                        self.terminated += 1;
                        self.waited += 1;
                    }
                }
                let (screen, reply) = SupervisorConnection::complete_request(
                    &mut self.state,
                    std::mem::take(&mut self.screen),
                    pending,
                    Ok(()),
                );
                self.screen = screen;
                reply
            }
        }
    }

    fn ask(
        &mut self,
        connection: &mut SupervisorConnection,
        request: SupervisorRequest,
    ) -> PtyResult<SupervisorResponsePayload> {
        self.reply(connection, request).response.into_result()
    }

    fn attach(&mut self, connection: &mut SupervisorConnection) -> PtyResult<u64> {
        let session_id = self.session_id.clone();
        self.ask(
            connection,
            SupervisorRequest::AttachSync {
                session_id,
                last_terminal_seq: None,
                resume_controller_id: None,
            },
        )?
        .into_attach_sync()
        .map(|sync| sync.controller_id)
    }

    fn resume(&mut self, connection: &mut SupervisorConnection, controller_id: u64) {
        let session_id = self.session_id.clone();
        self.ask(
            connection,
            SupervisorRequest::AttachSync {
                session_id,
                last_terminal_seq: None,
                resume_controller_id: Some(controller_id),
            },
        )
        .unwrap();
    }

    fn commit(
        &mut self,
        connection: &mut SupervisorConnection,
        transaction_id: u64,
    ) -> ControllerIdentity {
        self.ask(
            connection,
            SupervisorRequest::CommitControllerResume { transaction_id },
        )
        .unwrap()
        .into_controller_resume_status()
        .unwrap()
        .unwrap()
    }

    fn authenticate(
        &mut self,
        connection: &mut SupervisorConnection,
        capability: [u8; CLEANUP_CAPABILITY_BYTES],
    ) -> PtyResult<()> {
        let auth = CleanupAuthentication::new(&self.session_id, capability, [3; 32]);
        let challenge = self.ask(connection, auth.challenge())?;
        let answer = auth.answer(challenge)?;
        self.ask(connection, answer)?.expect_empty()
    }
}

#[test]
fn lost_close_response_is_queryable_and_duplicate_close_does_not_reterminate() {
    let capability = [41_u8; CLEANUP_CAPABILITY_BYTES];
    let mut supervisor = Supervisor::new("close-response-loss-session", Some(capability));
    let mut first = supervisor.connect();
    assert_ne!(supervisor.attach(&mut first).unwrap(), 0);
    let operation_id = 41_u64;
    supervisor
        .ask(&mut first, SupervisorRequest::CloseIdempotent { operation_id })
        .unwrap();
    assert_eq!(
        supervisor.state.confirmed_close_operation_id(),
        Some(operation_id)
    );
    first.finish(&mut supervisor.state);

    let mut second = supervisor.connect();
    supervisor.authenticate(&mut second, capability).unwrap();
    assert!(supervisor
        .ask(&mut second, SupervisorRequest::CloseStatus { operation_id })
        .unwrap()
        .into_close_status()
        .unwrap());
    assert!(supervisor
        .ask(
            &mut second,
            SupervisorRequest::CleanupClose {
                session_id: "close-response-loss-session".to_owned(),
                operation_id,
            },
        )
        .unwrap()
        .into_close_status()
        .unwrap());
    assert_eq!(supervisor.terminated, 1);
    assert_eq!(supervisor.waited, 1);
}

#[test]
fn naked_cleanup_connection_cannot_terminate_with_an_active_controller() {
    let mut supervisor = Supervisor::new("cleanup-capability-session", Some([5; 32]));
    let mut controller = supervisor.connect();
    supervisor.attach(&mut controller).unwrap();

    let mut cleanup = supervisor.connect();
    assert!(supervisor
        .ask(
            &mut cleanup,
            SupervisorRequest::CleanupClose {
                session_id: "cleanup-capability-session".to_owned(),
                operation_id: 91,
            },
        )
        .is_err());
    assert_eq!(supervisor.terminated, 0);
    assert_eq!(supervisor.waited, 0);
}

#[test]
fn wrong_cleanup_capability_cannot_terminate_or_claim_operation_id() {
    let capability = [7_u8; CLEANUP_CAPABILITY_BYTES];
    let mut supervisor = Supervisor::new("wrong-cleanup-capability-session", Some(capability));
    let mut stranger = supervisor.connect();
    assert!(supervisor
        .authenticate(&mut stranger, [8_u8; CLEANUP_CAPABILITY_BYTES])
        .is_err());
    assert!(supervisor
        .ask(
            &mut stranger,
            SupervisorRequest::CleanupClose {
                session_id: "wrong-cleanup-capability-session".to_owned(),
                operation_id: 92,
            },
        )
        .is_err());
    assert_eq!(supervisor.terminated, 0);
    assert_eq!(supervisor.waited, 0);
    assert_eq!(supervisor.state.confirmed_close_operation_id(), None);

    let mut cleanup = supervisor.connect();
    supervisor.authenticate(&mut cleanup, capability).unwrap();
    assert!(supervisor
        .ask(
            &mut cleanup,
            SupervisorRequest::CleanupClose {
                session_id: "wrong-cleanup-capability-session".to_owned(),
                operation_id: 93,
            },
        )
        .unwrap()
        .into_close_status()
        .unwrap());
    assert_eq!(supervisor.terminated, 1);
    assert_eq!(supervisor.waited, 1);
    assert_eq!(supervisor.state.confirmed_close_operation_id(), Some(93));
}

#[test]
fn authenticated_cleanup_connection_cannot_expand_into_controller_mode() {
    let session_id = "restricted-cleanup-mode-session".to_owned();
    let capability = [31_u8; CLEANUP_CAPABILITY_BYTES];
    let mut supervisor = Supervisor::new(&session_id, Some(capability));
    let mut connection = supervisor.connect();
    supervisor.authenticate(&mut connection, capability).unwrap();
    assert!(connection.cleanup_authenticated());

    let forbidden = [
        SupervisorRequest::Attach {
            session_id: session_id.clone(),
        },
        SupervisorRequest::AttachSync {
            session_id: session_id.clone(),
            last_terminal_seq: None,
            resume_controller_id: None,
        },
        SupervisorRequest::CommitControllerResume { transaction_id: 11 },
        SupervisorRequest::ControllerResumeStatus { transaction_id: 11 },
        SupervisorRequest::ResetAttachedDevices,
        SupervisorRequest::AttachDevice {
            device_id: "forbidden-device".to_owned(),
        },
        SupervisorRequest::DetachDevice {
            device_id: "forbidden-device".to_owned(),
        },
        SupervisorRequest::DeviceAttached {
            device_id: "forbidden-device".to_owned(),
        },
        SupervisorRequest::Input {
            data_base64: "Zm9yYmlkZGVu".to_owned(),
        },
        SupervisorRequest::Resize {
            size: PtySize::new(30, 100),
        },
        SupervisorRequest::Snapshot,
        SupervisorRequest::TerminalSnapshot {
            last_terminal_seq: None,
        },
        SupervisorRequest::CloseIdempotent { operation_id: 401 },
        SupervisorRequest::InstallCleanupCapability {
            session_id: session_id.clone(),
            capability_base64: "ICAgICAgICAgICAgICAgICAgICAgICAgICAgICAgICA=".to_owned(),
            migration_operation_id: None,
        },
        SupervisorRequest::NaturalExitStatus,
        SupervisorRequest::FinalizeNaturalExit,
    ];
    for request in forbidden {
        assert!(supervisor.ask(&mut connection, request).is_err());
    }
    assert!(connection.controller_identity().is_none());
    assert_eq!(supervisor.state.controller_count(), 0);
    assert_eq!(supervisor.terminated, 0);
    assert_eq!(supervisor.waited, 0);
}

#[test]
fn legacy_cleanup_install_requires_active_controller_without_side_effects() {
    let session_id = "legacy-install-peer-identity-session".to_owned();
    let mut supervisor = Supervisor::new(&session_id, None);
    let mut connection = supervisor.connect();
    assert!(supervisor
        .ask(
            &mut connection,
            SupervisorRequest::InstallCleanupCapability {
                session_id: session_id.clone(),
                capability_base64: "Nzc3Nzc3Nzc3Nzc3Nzc3Nzc3Nzc3Nzc3Nzc3Nzc3Nzc=".to_owned(),
                migration_operation_id: Some(55),
            },
        )
        .is_err());
    assert_eq!(supervisor.state.cleanup_capability(), None);
    assert_eq!(supervisor.terminated, 0);
    assert_eq!(supervisor.waited, 0);

    supervisor.attach(&mut connection).unwrap();
    supervisor
        .ask(
            &mut connection,
            SupervisorRequest::InstallCleanupCapability {
                session_id,
                capability_base64: "Nzc3Nzc3Nzc3Nzc3Nzc3Nzc3Nzc3Nzc3Nzc3Nzc3Nzc=".to_owned(),
                migration_operation_id: Some(55),
            },
        )
        .unwrap();
    assert_eq!(supervisor.state.cleanup_capability(), Some([55_u8; 32]));
}

#[test]
fn repeated_attach_on_one_control_socket_is_rejected_without_duplicate_controller() {
    let mut supervisor = Supervisor::new("single-attach-session", None);
    let mut connection = supervisor.connect();
    supervisor
        .attach(&mut connection)
        .expect("first attach should succeed");
    let error = supervisor
        .attach(&mut connection)
        .expect_err("second attach on the same socket must fail");
    assert!(error.to_string().contains("already attached"));

    assert_eq!(supervisor.state.controller_count(), 1);
    let frame = supervisor.state.record_output(b"once");
    supervisor.state.broadcast_terminal_frame(&frame);
    assert!(matches!(
        connection.poll_outbound(&mut supervisor.state),
        Outbound::Frame(SupervisorFrame::TerminalFrame {
            frame: PtyTerminalFrame::Output {
                terminal_seq: 1,
                ref data,
            },
        }) if data == b"once"
    ));
    assert!(
        matches!(
            connection.poll_outbound(&mut supervisor.state),
            Outbound::Idle
        ),
        "rejected duplicate attach must not create a second broadcast recipient"
    );
}

#[test]
fn supervisor_ipc_prioritizes_control_response_while_output_is_backlogged() {
    let mut queues = SupervisorWriterQueues::new();
    for seq in 1..=64_u64 {
        queues
            .push_data(
                SupervisorFrame::TerminalFrame {
                    frame: PtyTerminalFrame::Output {
                        terminal_seq: seq,
                        data: vec![b'x'; 4096],
                    },
                },
                4096,
            )
            .expect("live output should queue");
    }
    queues
        .push_control(
            SupervisorFrame::Response {
                request_id: 2,
                response: SupervisorResponse::ok(SupervisorResponsePayload::Empty),
            },
            64,
        )
        .expect("ping response should queue");
    assert!(
        matches!(
            queues.begin_write(),
            Some(SupervisorFrame::Response { request_id: 2, .. })
        ),
        "control response must not wait for the entire live-output backlog"
    );
}

#[test]
fn slow_control_peer_holds_shared_byte_reservation_until_write_finishes() {
    let reply = |request_id| SupervisorFrame::Response {
        request_id,
        response: SupervisorResponse::ok(SupervisorResponsePayload::Empty),
    };
    let mut queues = SupervisorWriterQueues::new();
    queues.push_control(reply(2), 5 * 1024 * 1024).unwrap();
    assert!(queues.begin_write().is_some());
    assert!(
        queues.push_control(reply(3), 5 * 1024 * 1024).is_err(),
        "a frame that is being written still holds its bytes"
    );
    queues.finish_write();
    queues.push_control(reply(3), 5 * 1024 * 1024).unwrap();
}

#[test]
fn resumed_controllers_keep_their_devices_and_fence_the_old_connection() {
    let mut supervisor = Supervisor::new("s", None);
    let mut first = supervisor.connect();
    let controller_id = supervisor.attach(&mut first).unwrap();
    supervisor
        .ask(
            &mut first,
            SupervisorRequest::AttachDevice {
                device_id: "dev-a".to_owned(),
            },
        )
        .unwrap();

    let mut second = supervisor.connect();
    supervisor.resume(&mut second, controller_id);
    supervisor
        .ask(
            &mut first,
            SupervisorRequest::Input {
                data_base64: "b2xk".to_owned(),
            },
        )
        .expect("the owner stays usable until the resume is committed");
    let committed = supervisor.commit(&mut second, 5);
    assert_eq!(committed.id, controller_id);
    assert!(supervisor
        .ask(
            &mut first,
            SupervisorRequest::Input {
                data_base64: "b2xk".to_owned(),
            },
        )
        .is_err());
    supervisor
        .ask(
            &mut second,
            SupervisorRequest::Input {
                data_base64: "bmV3".to_owned(),
            },
        )
        .unwrap();
    assert_eq!(supervisor.written, [b"old".to_vec(), b"new".to_vec()]);
    assert!(supervisor
        .ask(
            &mut second,
            SupervisorRequest::DeviceAttached {
                device_id: "dev-a".to_owned(),
            },
        )
        .unwrap()
        .into_device_attached()
        .unwrap());
    assert_eq!(supervisor.state.controller_count(), 1);
}

#[test]
fn repeated_commit_gives_the_same_controller() {
    let mut supervisor = Supervisor::new("s", None);
    let mut first = supervisor.connect();
    let controller_id = supervisor.attach(&mut first).unwrap();
    first.finish(&mut supervisor.state);

    let mut second = supervisor.connect();
    supervisor.resume(&mut second, controller_id);
    let committed = supervisor.commit(&mut second, 9);
    second.finish(&mut supervisor.state);

    let mut third = supervisor.connect();
    supervisor.resume(&mut third, controller_id);
    assert_eq!(supervisor.commit(&mut third, 9), committed);
    assert!(supervisor.state.is_active_controller(committed));
    assert!(supervisor
        .ask(
            &mut third,
            SupervisorRequest::CommitControllerResume { transaction_id: 9 },
        )
        .is_err());
}

#[test]
fn other_sessions_and_broken_input_are_refused() {
    let mut supervisor = Supervisor::new("s", None);
    let mut connection = supervisor.connect();
    assert!(supervisor
        .ask(
            &mut connection,
            SupervisorRequest::AttachSync {
                session_id: "other".to_owned(),
                last_terminal_seq: None,
                resume_controller_id: None,
            },
        )
        .is_err());
    supervisor.attach(&mut connection).unwrap();
    assert!(supervisor
        .ask(
            &mut connection,
            SupervisorRequest::Input {
                data_base64: "%%".to_owned(),
            },
        )
        .is_err());
    assert!(supervisor.written.is_empty());
    let (screen, reply) = SupervisorConnection::complete_request(
        &mut supervisor.state,
        Sizes::default(),
        PendingReply::Resized(PtySize::new(30, 90)),
        Err(PtyError::Backend("no".to_owned())),
    );
    assert_eq!(screen, Sizes::default());
    assert!(reply.response.into_result().is_err());
    assert_eq!(supervisor.state.size(), PtySize::new(24, 80));
    supervisor
        .ask(
            &mut connection,
            SupervisorRequest::Resize {
                size: PtySize::new(30, 90),
            },
        )
        .unwrap();
    assert_eq!(supervisor.state.size(), PtySize::new(30, 90));
    assert_eq!(supervisor.screen, Sizes(vec![PtySize::new(30, 90)]));
}

#[test]
fn input_of_the_daemon_reaches_the_process_unchanged() {
    let mut supervisor = Supervisor::new("s", Some([5; 32]));
    let mut connection = supervisor.connect();
    supervisor.attach(&mut connection).unwrap();
    let bytes: Vec<u8> = (0..=255).collect();
    let request = input_request(&bytes);
    assert_eq!(
        input_request(b"old"),
        SupervisorRequest::Input {
            data_base64: "b2xk".to_owned(),
        }
    );
    supervisor.ask(&mut connection, request).unwrap();
    assert_eq!(supervisor.written, vec![bytes]);
}

#[test]
fn capability_of_an_earlier_supervisor_is_installed_by_its_controller() {
    let mut supervisor = Supervisor::new("s", None);
    let mut connection = supervisor.connect();
    let attach = legacy_attach_request("s");
    assert_eq!(attach.request_id, 1);
    supervisor.ask(&mut connection, attach.request).unwrap();
    let install = legacy_install_request("s", &[9; 32]);
    assert_eq!(install.request_id, 2);
    let reply = supervisor.ask(&mut connection, install.request);
    assert_eq!(legacy_install_result(reply).unwrap(), true);
    assert_eq!(supervisor.state.cleanup_capability(), Some([9; 32]));
}

#[test]
fn cleanup_connection_never_becomes_a_controller() {
    let mut supervisor = Supervisor::new("s", Some([5; 32]));
    let mut connection = supervisor.connect();
    supervisor.authenticate(&mut connection, [5; 32]).unwrap();
    assert!(supervisor.attach(&mut connection).is_err());
    assert!(connection.cleanup_authenticated());
    assert_eq!(connection.controller_identity(), None);
}

#[test]
fn only_responses_with_a_screen_depend_on_it() {
    let snapshot = SupervisorRequest::Snapshot;
    assert!(snapshot.shows_screen());
    assert!(SupervisorRequest::Attach {
        session_id: "s".to_owned(),
    }
    .shows_screen());
    assert!(!SupervisorRequest::Ping.shows_screen());
    for (screen, shown) in [(b"one".to_vec(), true), (Vec::new(), false)] {
        let mut supervisor = Supervisor::new("s", None);
        let mut connection = supervisor.connect();
        supervisor.attach(&mut connection).unwrap();
        let context = RequestContext {
            process_id: None,
            screen,
        };
        let step = connection.handle_request(&mut supervisor.state, &snapshot, context);
        let SupervisorStep::Reply(reply) = step else {
            panic!("a snapshot needs no effect");
        };
        let payload = reply.response.into_result().unwrap().into_snapshot().unwrap();
        assert_eq!(payload.retained_output == b"one", shown);
    }
}

#[test]
fn startup_grant_rejects_eof_short_frame_and_wrong_binding() {
    let grant = PtyStartupGrant::new([7; 16], [9; CLEANUP_CAPABILITY_BYTES]);
    let frame = encode_startup_grant(&grant, "session-a", "/tmp/a.sock", 42);

    assert!(validate_startup_grant(&[], "session-a", "/tmp/a.sock", 42).is_err());
    assert!(
        validate_startup_grant(&frame[..frame.len() - 1], "session-a", "/tmp/a.sock", 42).is_err()
    );
    assert!(validate_startup_grant(&frame, "session-b", "/tmp/a.sock", 42).is_err());
    assert!(validate_startup_grant(&frame, "session-a", "/tmp/a.sock", 43).is_err());
    assert!(validate_startup_grant(&frame, "session-a", "/tmp/b.sock", 42).is_err());

    assert_eq!(frame.len(), STARTUP_GRANT_BYTES);
    let validated = validate_startup_grant(&frame, "session-a", "/tmp/a.sock", 42).unwrap();
    assert_eq!(validated.cleanup_capability, [9; CLEANUP_CAPABILITY_BYTES]);
}

#[test]
fn proofs_depend_on_every_part() {
    let proof = cleanup_auth_proof(&[1; 32], "s", &[2; 32], &[3; 32]);
    assert_eq!(proof, cleanup_auth_proof(&[1; 32], "s", &[2; 32], &[3; 32]));
    assert_ne!(proof, cleanup_auth_proof(&[9; 32], "s", &[2; 32], &[3; 32]));
    assert_ne!(proof, cleanup_auth_proof(&[1; 32], "t", &[2; 32], &[3; 32]));
    assert_ne!(proof, cleanup_auth_proof(&[1; 32], "s", &[9; 32], &[3; 32]));
    assert_ne!(proof, cleanup_auth_proof(&[1; 32], "s", &[2; 32], &[9; 32]));
}

#[test]
fn secrets_are_compared_and_decoded_exactly() {
    assert!(constant_time_eq(b"abc", b"abc"));
    assert!(!constant_time_eq(b"abc", b"abd"));
    assert!(!constant_time_eq(b"abc", b"ab"));
    assert_eq!(
        decode_cleanup_capability("Nzc3Nzc3Nzc3Nzc3Nzc3Nzc3Nzc3Nzc3Nzc3Nzc3Nzc=").unwrap(),
        [55_u8; 32]
    );
    assert!(decode_cleanup_capability("Nzc=").is_err());
    assert!(decode_cleanup_capability("not base64!").is_err());
    assert!(decode_cleanup_nonce("Nzc=").is_err());
    assert_ne!(
        random_cleanup_nonce().unwrap(),
        random_cleanup_nonce().unwrap()
    );
    assert_eq!(nonzero_from_bytes(&[0; 8]), None);
    assert_eq!(nonzero_from_bytes(&[1, 0, 0, 0, 0, 0, 0, 0]), Some(1));
    assert_ne!(random_nonzero_u64().unwrap(), 0);
}

#[test]
fn drawn_bytes_are_used_as_they_came() {
    let bytes: Vec<u8> = (0..32).collect();
    assert_eq!(drawn_32(Ok(bytes.clone())).unwrap().to_vec(), bytes);
    assert_eq!(drawn_16(Ok(bytes[..16].to_vec())).unwrap().to_vec(), bytes[..16].to_vec());
    assert!(matches!(
        drawn_32(Err("no entropy".to_owned())),
        Err(PtyError::Backend(reason)) if reason == "no entropy"
    ));
    assert!(matches!(
        drawn_16(Err("no entropy".to_owned())),
        Err(PtyError::Backend(reason)) if reason == "no entropy"
    ));
    assert_ne!(random_16_bytes().unwrap(), random_16_bytes().unwrap());
    assert_ne!(random_cleanup_capability().unwrap(), random_cleanup_capability().unwrap());
}

/// Resumes a controller over new connections. Something goes wrong at a stage of the first tries, if a
/// stage is given.
fn resume_controller(
    supervisor: &mut Supervisor,
    controller: ControllerIdentity,
    fail_at: Option<(ResumeStage, usize, &str)>,
) -> PtyResult<(SupervisorConnection, ControllerIdentity)> {
    let restore_info = PtyRestoreInfo::UnixSocket {
        socket_path: "/run/s.sock".to_owned(),
        supervisor_pid: 7,
        supervisor_status: PtySupervisorStatus::Running,
    };
    let session_id = supervisor.session_id.clone();
    let mut resume =
        ResumeTransaction::begin(&restore_info, &session_id, Some(controller), 99).unwrap();
    let mut candidate: Option<SupervisorConnection> = None;
    let mut action = ResumeAction::Connect;
    let mut failed = 0;
    loop {
        let stage = resume.stage();
        let mut injected = || match fail_at {
            Some((at, times, reason)) if at == stage && failed < times => {
                failed += 1;
                Err(PtyError::Backend(reason.to_owned()))
            }
            _ => Ok(()),
        };
        action = match action {
            ResumeAction::Connect => {
                if let Some(lost) = candidate.take() {
                    lost.finish(&mut supervisor.state);
                }
                candidate = Some(supervisor.connect());
                resume.on_worked(Ok(()))
            }
            ResumeAction::Send(envelope) => {
                let connection = candidate.as_mut().unwrap();
                let reply = supervisor.ask(connection, envelope.request);
                resume.on_reply(reply.and_then(|payload| injected().map(|()| payload)))
            }
            ResumeAction::PrepareReader | ResumeAction::StartReader => {
                resume.on_worked(injected())
            }
            ResumeAction::Install { controller, .. } => {
                assert_eq!(failed, fail_at.map_or(0, |(_, times, _)| times));
                return Ok((candidate.unwrap(), controller));
            }
            ResumeAction::Fail(error) => {
                candidate.unwrap().finish(&mut supervisor.state);
                return Err(error);
            }
        };
    }
}

#[test]
fn failed_resume_validation_keeps_old_controller_usable_without_leaks() {
    let mut supervisor = Supervisor::new("resume-validation-session", Some([5; 32]));
    let mut connection = supervisor.connect();
    supervisor.attach(&mut connection).unwrap();
    let original = connection.controller_identity().unwrap();
    let attach_device = SupervisorRequest::AttachDevice {
        device_id: "dev-a".to_owned(),
    };
    supervisor.ask(&mut connection, attach_device).unwrap();
    let is_attached = SupervisorRequest::DeviceAttached {
        device_id: "dev-a".to_owned(),
    };

    for failed_stage in [
        ResumeStage::AttachSync,
        ResumeStage::Ping,
        ResumeStage::Snapshot,
        ResumeStage::PrepareReader,
    ] {
        let reason = format!("injected {failed_stage:?} failure");
        let Err(error) =
            resume_controller(&mut supervisor, original, Some((failed_stage, 3, &reason)))
        else {
            panic!("candidate validation failure must abort resume");
        };
        assert!(error.to_string().contains("injected"));
        assert!(supervisor
            .ask(&mut connection, is_attached.clone())
            .unwrap()
            .into_device_attached()
            .unwrap());
        supervisor
            .ask(&mut connection, input_request(b"old-controller-still-usable"))
            .unwrap();

        assert!(supervisor.state.may_resume(original.id));
        assert!(supervisor.state.is_active_controller(original));
        assert_eq!(supervisor.state.controller_count(), 1);
        assert!(supervisor.state.has_attached_device("dev-a"));
    }

    let (mut resumed_connection, resumed) =
        resume_controller(&mut supervisor, original, None).unwrap();
    connection.finish(&mut supervisor.state);
    assert_eq!(resumed.id, original.id);
    assert_ne!(resumed.connection_id, original.connection_id);
    assert!(supervisor
        .ask(&mut resumed_connection, is_attached)
        .unwrap()
        .into_device_attached()
        .unwrap());
    supervisor
        .ask(
            &mut resumed_connection,
            input_request(b"resumed-controller-usable"),
        )
        .unwrap();
    assert_eq!(supervisor.state.controller_count(), 1);
    assert!(supervisor.state.is_active_controller(resumed));
}

/// Resumes a controller whose first try goes wrong at a stage behind the commit.
fn resume_recovers(session_id: &str, stage: ResumeStage, reason: &str, input: &[u8]) {
    let mut supervisor = Supervisor::new(session_id, None);
    let mut connection = supervisor.connect();
    supervisor.attach(&mut connection).unwrap();
    let original = connection.controller_identity().unwrap();
    let attach_device = SupervisorRequest::AttachDevice {
        device_id: "dev-a".to_owned(),
    };
    supervisor.ask(&mut connection, attach_device).unwrap();

    let (mut resumed_connection, resumed) =
        resume_controller(&mut supervisor, original, Some((stage, 1, reason))).unwrap();
    connection.finish(&mut supervisor.state);
    assert_eq!(resumed.id, original.id);
    let is_attached = SupervisorRequest::DeviceAttached {
        device_id: "dev-a".to_owned(),
    };
    assert!(supervisor
        .ask(&mut resumed_connection, is_attached)
        .unwrap()
        .into_device_attached()
        .unwrap());
    supervisor
        .ask(&mut resumed_connection, input_request(input))
        .unwrap();
    assert_eq!(supervisor.written.last().unwrap(), input);
    assert_eq!(supervisor.state.controller_count(), 1);
    assert!(supervisor.state.is_active_controller(resumed));
    assert_eq!(supervisor.state.committed_resume_count(), 1);
    assert!(supervisor.state.has_attached_device("dev-a"));
}

#[test]
fn lost_resume_commit_response_replays_same_transaction_and_keeps_controller() {
    resume_recovers(
        "resume-response-loss-session",
        ResumeStage::Commit,
        "injected commit response loss",
        b"controller-usable-after-response-loss",
    );
}

#[test]
fn reader_start_failure_replays_committed_resume_transaction() {
    resume_recovers(
        "resume-reader-start-failure-session",
        ResumeStage::StartReader,
        "injected reader start failure",
        b"reader-start-recovered",
    );
}

#[test]
fn a_refused_challenge_draws_no_nonce() {
    let mut supervisor = Supervisor::new("challenge-session", Some([5; 32]));
    let challenge = |session_id: &str, nonce: &str| SupervisorRequest::CleanupAuthChallenge {
        session_id: session_id.to_owned(),
        client_nonce_base64: nonce.to_owned(),
    };
    let good = "Nzc3Nzc3Nzc3Nzc3Nzc3Nzc3Nzc3Nzc3Nzc3Nzc3Nzc=";
    let mut connection = supervisor.connect();
    assert!(connection.meets_challenge(&supervisor.state, &challenge("challenge-session", good)));
    assert!(!connection.meets_challenge(&supervisor.state, &challenge("other", good)));
    assert!(!connection.meets_challenge(&supervisor.state, &challenge("challenge-session", "Nzc=")));
    assert!(!connection.meets_challenge(&supervisor.state, &SupervisorRequest::Ping));
    let Err(error) = supervisor.ask(&mut connection, challenge("other", good)) else {
        panic!("a challenge for another session must be refused");
    };
    assert!(error.to_string().contains("session id mismatch"));
    let bare = Supervisor::new("challenge-session", None);
    assert!(!connection.meets_challenge(&bare.state, &challenge("challenge-session", good)));
}
