//! Resuming a controller and closing a session, as the daemon does them.

use termd::pty::supervisor::close_client::{
    child_reap_step, disconnected_close_result, natural_exit_request, natural_exit_target,
    on_natural_exit_finalized, on_natural_exit_status, pid_is_missing,
    probe_reconnected_supervisor_exit, reap_step, restore_info_with_status,
    restricted_close_target, CleanupAuthentication, CloseConfirmation, ClosePlan, CloseState,
    ConfirmStep, NaturalExitStep, PeerCredentials, ReapPoll, RestrictedClose, RestrictedStep,
};
use termd::pty::supervisor::protocol::{
    ControllerIdentity, SupervisorAttachSyncPayload, SupervisorRequest, SupervisorRequestFailure,
    SupervisorResponsePayload, SupervisorSnapshotPayload,
};
use termd::pty::supervisor::resume::{
    not_reconnectable_error, ResumeAction, ResumeStage, ResumeTransaction,
};
use termd::pty::supervisor::runtime_dir::SupervisorProcess;
use termd::pty::{
    IoError, IoErrorKind, PtyError, PtyExitStatus, PtyRestoreInfo, PtySize, PtySupervisorStatus,
};

fn restore_info(supervisor_status: PtySupervisorStatus) -> PtyRestoreInfo {
    PtyRestoreInfo::UnixSocket {
        socket_path: "/run/termd/s.sock".to_owned(),
        supervisor_pid: 77,
        supervisor_status,
    }
}

fn tmux_info() -> PtyRestoreInfo {
    PtyRestoreInfo::Tmux {
        socket_path: "/run/tmux.sock".to_owned(),
        session_name: "s".to_owned(),
    }
}

fn supervisor(session_id: &str, socket_path: &str) -> SupervisorProcess {
    SupervisorProcess {
        pid: 77,
        session_id: session_id.to_owned(),
        socket_path: socket_path.to_owned(),
        size: None,
    }
}

fn snapshot() -> SupervisorSnapshotPayload {
    SupervisorSnapshotPayload {
        size: PtySize::new(24, 80),
        process_id: Some(42),
        exited: false,
        retained_output: Vec::new(),
    }
}

fn sync_payload(controller: ControllerIdentity) -> SupervisorResponsePayload {
    SupervisorResponsePayload::AttachSync(SupervisorAttachSyncPayload {
        controller_id: controller.id,
        controller_connection_id: controller.connection_id,
        snapshot: snapshot(),
        base_seq: 0,
        frames: Vec::new(),
    })
}

const OWNER: ControllerIdentity = ControllerIdentity {
    id: 3,
    connection_id: 9,
};

fn begin_resume() -> ResumeTransaction {
    ResumeTransaction::begin(
        &restore_info(PtySupervisorStatus::Running),
        "s",
        Some(OWNER),
        55,
    )
    .unwrap()
}

/// Takes a resume up to the request that commits it.
fn up_to_commit(resume: &mut ResumeTransaction) -> ResumeAction {
    assert!(matches!(
        resume.on_worked(Ok(())),
        ResumeAction::Send(envelope) if matches!(
            envelope.request,
            SupervisorRequest::AttachSync { resume_controller_id: Some(3), .. }
        )
    ));
    assert!(matches!(
        resume.on_reply(Ok(sync_payload(OWNER))),
        ResumeAction::Send(envelope) if envelope.request == SupervisorRequest::Ping
    ));
    assert!(matches!(
        resume.on_reply(Ok(SupervisorResponsePayload::Empty)),
        ResumeAction::Send(envelope) if envelope.request == SupervisorRequest::Snapshot
    ));
    assert!(matches!(
        resume.on_reply(Ok(SupervisorResponsePayload::Snapshot(snapshot()))),
        ResumeAction::PrepareReader
    ));
    resume.on_worked(Ok(()))
}

fn committed() -> SupervisorResponsePayload {
    SupervisorResponsePayload::ControllerResumeStatus {
        controller_id: Some(3),
        controller_connection_id: Some(10),
    }
}

#[test]
fn a_resume_replays_its_commit_after_a_lost_response() {
    let mut resume = begin_resume();
    assert!(matches!(
        up_to_commit(&mut resume),
        ResumeAction::Send(envelope)
            if envelope.request == SupervisorRequest::CommitControllerResume { transaction_id: 55 }
    ));
    assert!(matches!(
        resume.on_reply(Err(PtyError::Backend(
            "injected commit response loss".to_owned()
        ))),
        ResumeAction::Connect
    ));
    assert!(matches!(
        up_to_commit(&mut resume),
        ResumeAction::Send(envelope)
            if envelope.request == SupervisorRequest::CommitControllerResume { transaction_id: 55 }
    ));
    assert!(matches!(
        resume.on_reply(Ok(committed())),
        ResumeAction::StartReader
    ));
    match resume.on_worked(Ok(())) {
        ResumeAction::Install { sync, controller } => {
            assert_eq!(sync.controller_id, 3);
            assert_eq!(
                controller,
                ControllerIdentity {
                    id: 3,
                    connection_id: 10,
                }
            );
        }
        other => panic!("a committed resume must be installed, got {other:?}"),
    }
    assert_eq!(resume.stage(), ResumeStage::Finished);
}

#[test]
fn a_resume_replays_its_commit_after_the_reader_fails() {
    let mut resume = begin_resume();
    up_to_commit(&mut resume);
    resume.on_reply(Ok(committed()));
    assert!(matches!(
        resume.on_worked(Err(PtyError::Backend(
            "injected reader start failure".to_owned()
        ))),
        ResumeAction::Connect
    ));
    up_to_commit(&mut resume);
    resume.on_reply(Ok(committed()));
    assert!(matches!(
        resume.on_worked(Ok(())),
        ResumeAction::Install { .. }
    ));
}

#[test]
fn resume_gives_up_after_its_tries() {
    let mut resume = begin_resume();
    for _ in 0..2 {
        assert!(matches!(
            resume.on_worked(Err(PtyError::Backend("injected".to_owned()))),
            ResumeAction::Connect
        ));
    }
    assert!(matches!(
        resume.on_worked(Err(PtyError::Backend("injected".to_owned()))),
        ResumeAction::Fail(error) if error.to_string().contains("injected")
    ));
    assert_eq!(resume.stage(), ResumeStage::Failed);
}

#[test]
fn only_running_supervisors_are_resumed() {
    assert!(ResumeTransaction::begin(&tmux_info(), "s", Some(OWNER), 1).is_err());
    let refused = ResumeTransaction::begin(
        &restore_info(PtySupervisorStatus::Closing),
        "s",
        Some(OWNER),
        1,
    );
    match refused {
        Ok(_) => panic!("a closing supervisor must not be resumed"),
        Err(error) => assert_eq!(
            error.to_string(),
            not_reconnectable_error(PtySupervisorStatus::Closing).to_string()
        ),
    }
    assert!(ResumeTransaction::begin(
        &restore_info(PtySupervisorStatus::Running),
        "s",
        None,
        1
    )
    .is_err());
}

#[test]
fn unexpected_replies_start_the_resume_again() {
    let mut resume = begin_resume();
    resume.on_worked(Ok(()));
    assert!(matches!(
        resume.on_reply(Ok(SupervisorResponsePayload::Empty)),
        ResumeAction::Connect
    ));
    up_to_commit(&mut resume);
    assert!(matches!(
        resume.on_reply(Ok(SupervisorResponsePayload::ControllerResumeStatus {
            controller_id: None,
            controller_connection_id: None,
        })),
        ResumeAction::Connect
    ));
}

#[test]
fn close_numbers_are_chosen_once() {
    let mut close = CloseState::new(restore_info(PtySupervisorStatus::Running), Some([1; 32]));
    assert_eq!(close.begin(11), ClosePlan::Numbered { operation_id: 11 });
    assert_eq!(close.begin(12), ClosePlan::Numbered { operation_id: 11 });
    assert_eq!(
        close.restore_info(),
        &restore_info(PtySupervisorStatus::Closing)
    );
    close.set_operation(40);
    assert_eq!(close.disconnected_close().unwrap(), (40, [1; 32]));
    close.mark_closed();
    assert_eq!(
        close.restore_info(),
        &restore_info(PtySupervisorStatus::Closed)
    );
}

#[test]
fn sessions_without_a_capability_are_closed_once() {
    let mut close = CloseState::new(restore_info(PtySupervisorStatus::Running), None);
    assert_eq!(close.begin(11), ClosePlan::Once);
    assert!(close.disconnected_close().is_err());
    assert!(close
        .finish_once(Err(SupervisorRequestFailure::Response(PtyError::Backend(
            "no".to_owned()
        ))))
        .is_err());
    close
        .finish_once(Ok(SupervisorResponsePayload::Empty))
        .unwrap();
    assert_eq!(
        close.restore_info(),
        &restore_info(PtySupervisorStatus::Closed)
    );
    assert!(disconnected_close_result(true).is_ok());
    assert!(disconnected_close_result(false).is_err());
}

#[test]
fn closes_are_confirmed_by_the_end_of_the_process() {
    let lost = || {
        Err(SupervisorRequestFailure::Transport(PtyError::Backend(
            "lost".to_owned(),
        )))
    };
    let info = restore_info(PtySupervisorStatus::Closing);
    let mut confirmation = CloseConfirmation::begin(&info, Some([1; 32]), 5, lost()).unwrap();
    assert!(matches!(
        confirmation.on_child(true, true),
        ConfirmStep::Done
    ));

    let dead = || {
        Ok(SupervisorResponsePayload::CloseStatus {
            confirmed_dead: true,
        })
    };
    let mut confirmation = CloseConfirmation::begin(&info, Some([1; 32]), 5, lost()).unwrap();
    assert!(matches!(
        confirmation.on_child(true, false),
        ConfirmStep::Connect
    ));
    assert!(matches!(
        confirmation.on_connected(false),
        ConfirmStep::Pause
    ));
    confirmation.on_child(true, false);
    confirmation.on_connected(true);
    confirmation.on_status(dead());
    assert!(matches!(
        confirmation.on_finalized(Err(PtyError::Backend("gone".to_owned()))),
        ConfirmStep::Pause
    ));
    assert!(matches!(
        confirmation.on_child(true, false),
        ConfirmStep::ProbeExit
    ));
    assert!(matches!(confirmation.on_probe(true), ConfirmStep::Done));

    let mut confirmation = CloseConfirmation::begin(&info, Some([1; 32]), 5, lost()).unwrap();
    assert!(matches!(
        confirmation.on_child(false, false),
        ConfirmStep::Failed(error) if error.to_string().contains("lost")
    ));

    assert!(CloseConfirmation::begin(&info, None, 5, lost()).is_err());
    assert!(CloseConfirmation::begin(&tmux_info(), Some([1; 32]), 5, lost()).is_err());
}

#[test]
fn closes_are_confirmed_by_the_supervisor() {
    let info = restore_info(PtySupervisorStatus::Closing);
    let mut confirmation = CloseConfirmation::begin(
        &info,
        Some([1; 32]),
        5,
        Ok(SupervisorResponsePayload::CloseStatus {
            confirmed_dead: true,
        }),
    )
    .unwrap();
    assert!(matches!(
        confirmation.on_child(true, false),
        ConfirmStep::Connect
    ));
    let step = confirmation.on_connected(true);
    assert!(
        matches!(
            step,
            ConfirmStep::Send(ref envelope)
                if envelope.request == SupervisorRequest::CloseStatus { operation_id: 5 }
        ),
        "{step:?}"
    );
    let step = confirmation.on_status(Ok(SupervisorResponsePayload::CloseStatus {
        confirmed_dead: true,
    }));
    assert!(
        matches!(
            step,
            ConfirmStep::Send(ref envelope)
                if envelope.request == SupervisorRequest::FinalizeClose { operation_id: 5 }
        ),
        "{step:?}"
    );
    assert!(matches!(
        confirmation.on_finalized(Ok(SupervisorResponsePayload::Empty)),
        ConfirmStep::Done
    ));
}

#[test]
fn restricted_closes_need_an_honest_supervisor() {
    let auth = CleanupAuthentication::new("s", [1; 32], [2; 32]);
    let (mut close, first) = RestrictedClose::begin(auth, 6);
    assert!(matches!(
        first.request,
        SupervisorRequest::CleanupAuthChallenge { .. }
    ));
    assert!(matches!(
        close.on_reply(Ok(SupervisorResponsePayload::CleanupAuthChallenge {
            server_nonce_base64: "AwMDAwMDAwMDAwMDAwMDAwMDAwMDAwMDAwMDAwMDAwM=".to_owned(),
            server_proof_base64: "AwMDAwMDAwMDAwMDAwMDAwMDAwMDAwMDAwMDAwMDAwM=".to_owned(),
        })),
        RestrictedStep::Failed(_)
    ));
}

#[test]
fn close_targets_are_checked() {
    let target = restricted_close_target(&restore_info(PtySupervisorStatus::Closing)).unwrap();
    assert_eq!(target.supervisor_pid, 77);
    assert_eq!(
        target.locate().unwrap(),
        ("/run/termd".to_owned(), "s.sock".to_owned())
    );
    let peer = |complete, pid, uid| PeerCredentials { complete, pid, uid };
    assert!(target.check_peer(peer(true, 77, 1000), 1000).is_ok());
    assert!(target.check_peer(peer(true, 78, 1000), 1000).is_err());
    assert!(target.check_peer(peer(true, 77, 0), 1000).is_err());
    assert!(target.check_peer(peer(false, 77, 1000), 1000).is_err());
    assert!(target
        .check_process("s", Some(&supervisor("s", "/run/termd/s.sock")))
        .is_ok());
    assert!(target
        .check_process("s", Some(&supervisor("t", "/run/termd/s.sock")))
        .is_err());
    assert!(target.check_process("s", None).is_err());
    assert!(target.check_socket(1000, 0o600, 1000).is_ok());
    assert!(target.check_socket(1000, 0o660, 1000).is_err());
    assert!(target.check_socket(0, 0o600, 1000).is_err());
    assert!(restricted_close_target(&tmux_info()).is_err());
}

#[test]
fn ended_supervisors_are_recognised() {
    let info = restore_info(PtySupervisorStatus::Running);
    assert_eq!(
        probe_reconnected_supervisor_exit(
            "s",
            &info,
            Some(&supervisor("s", "/run/termd/./s.sock"))
        ),
        None
    );
    assert_eq!(
        probe_reconnected_supervisor_exit("s", &info, None),
        Some(PtyExitStatus::exited(0))
    );
    assert_eq!(
        probe_reconnected_supervisor_exit(
            "s",
            &info,
            Some(&supervisor("other", "/run/termd/s.sock"))
        ),
        Some(PtyExitStatus::exited(0))
    );
    assert_eq!(
        probe_reconnected_supervisor_exit("s", &tmux_info(), None),
        None
    );
    assert_eq!(
        restore_info_with_status(&info, PtySupervisorStatus::Closed),
        restore_info(PtySupervisorStatus::Closed)
    );
}

#[test]
fn processes_are_missing_only_if_none_answers() {
    let error = || IoError::new(IoErrorKind::Other, "kill");
    assert!(!pid_is_missing(true, false, false, error()).unwrap());
    assert!(pid_is_missing(false, true, false, error()).unwrap());
    assert!(!pid_is_missing(false, false, true, error()).unwrap());
    assert!(pid_is_missing(false, false, false, error()).is_err());

    assert!(matches!(reap_step(ReapPoll::Reaped, false), Some(Ok(()))));
    assert!(reap_step(ReapPoll::Running, false).is_none());
    assert!(matches!(reap_step(ReapPoll::Running, true), Some(Err(_))));
    assert!(reap_step(ReapPoll::Interrupted, false).is_none());
    assert!(matches!(
        reap_step(ReapPoll::Failed(error()), false),
        Some(Err(_))
    ));
    assert!(matches!(child_reap_step(true, false), Some(Ok(()))));
    assert!(child_reap_step(false, false).is_none());
}

#[test]
fn natural_exits_are_finalised() {
    assert_eq!(
        natural_exit_target(&restore_info(PtySupervisorStatus::Running)).as_deref(),
        Some("/run/termd/s.sock")
    );
    assert_eq!(natural_exit_target(&tmux_info()), None);
    assert_eq!(
        natural_exit_request().request,
        SupervisorRequest::NaturalExitStatus
    );
    assert!(matches!(
        on_natural_exit_status(Ok(SupervisorResponsePayload::CloseStatus {
            confirmed_dead: false,
        })),
        NaturalExitStep::Done(Ok(false))
    ));
    assert!(matches!(
        on_natural_exit_status(Ok(SupervisorResponsePayload::CloseStatus {
            confirmed_dead: true,
        })),
        NaturalExitStep::Finalize(envelope)
            if envelope.request == SupervisorRequest::FinalizeNaturalExit
    ));
    assert!(on_natural_exit_finalized(Ok(SupervisorResponsePayload::Empty)).unwrap());
    assert!(on_natural_exit_finalized(Ok(SupervisorResponsePayload::CloseStatus {
        confirmed_dead: true,
    }))
    .is_err());
}
