//! Where a supervisor runs: its directory, its sockets, how it is started and found again.

use termd::collections::StringSet;
use termd::pty::supervisor::launch::{
    required_controller, startup_pipe_unavailable, LaunchStep, SupervisorLaunch,
};
use termd::pty::supervisor::protocol::{
    ControllerIdentity, SupervisorTerminalClientFrame, SupervisorTerminalServerFrame,
};
use termd::pty::supervisor::runtime_dir::{
    attach_socket_path_for_control_socket, attach_target, binary_sibling, cmdline_args,
    orphaned_supervisor_pids, parse_supervisor_cmdline, proc_entry_pid, reconnect_target,
    short_supervisor_attach_socket_file_name, short_supervisor_socket_file_name,
    socket_file_name_for_hash, supervisor_base_dir, supervisor_launch_args,
    supervisor_runtime_dir, HostEnvironment, SupervisorProcess, SupervisorPtyBackend,
    UNIX_SOCKET_PATH_MAX_BYTES,
};
use termd::pty::supervisor::secure_dir::{
    check_socket_entry, check_socket_identity, ensure_path_matches, ensure_private,
    open_directory_error, open_socket_error, validate_supervisor_runtime_ancestor,
    validate_supervisor_runtime_final, DirectoryFacts, SecureDirWalk, SupervisorPathIdentity,
    WalkStep,
};
use termd::pty::supervisor::socket_binding::{
    bind_helper_exit_code, bind_helper_outcome, check_restricted_socket, check_socket_path_length,
    existing_socket, random_supervisor_socket_temp_name, restrict_socket_error, socket_address_len,
    socket_health, socket_location, temp_name_for, BindHelperOutcome, ExistingSocket, PublishStep,
    SocketHealth, SocketPublication, TempBindStep, TempBindTries,
};
use termd::pty::supervisor::startup::{
    serve_step, ServeEvent, ServeStep, StartupStep, SupervisorStartup,
};
use termd::pty::supervisor::startup_grant::PtyStartupGrant;
use termd::pty::supervisor::state::SupervisorState;
use termd::pty::supervisor::terminal_attach::{TerminalAttachConnection, TerminalAttachStep};
use termd::pty::{
    IoError, IoErrorKind, PtyError, PtyRestoreInfo, PtySize, PtySupervisorStatus,
    PtyTerminalFrame,
};

fn environment(current_dir: &str) -> HostEnvironment {
    HostEnvironment {
        current_dir: Some(current_dir.to_owned()),
        temp_dir: "/tmp".to_owned(),
        test_binary: None,
        current_exe: Some("/usr/local/bin/termd".to_owned()),
        sibling_exists: true,
    }
}

fn runtime_dir_for(state_path: &str) -> Result<String, String> {
    let base = supervisor_base_dir(state_path, Some("/srv/termd".to_owned()), "/tmp".to_owned());
    supervisor_runtime_dir(state_path, &base)
}

#[test]
fn supervisor_runtime_dir_uses_shared_base_directory_for_relative_state_paths() {
    let runtime_dir = runtime_dir_for("daemon-state.json")
        .expect("relative state path should have a safe runtime directory");
    assert_eq!(runtime_dir, "/srv/termd/termd-supervisors");
}

#[test]
fn supervisor_runtime_dir_uses_state_parent_for_absolute_state_paths() {
    let runtime_dir = runtime_dir_for("/var/lib/termd/daemon-state.json")
        .expect("absolute state path should have a safe runtime directory");

    assert_eq!(runtime_dir, "/var/lib/termd/termd-supervisors");
}

#[test]
fn supervisor_socket_file_name_stays_short_under_long_state_directory() {
    let state_path = "/tmp/termd-server-test-1234567890-1234567890-1234567890-very-long-state-name/daemon-state.json";
    let backend = SupervisorPtyBackend::for_state_path(state_path, &environment("/srv"));
    let socket_path = backend
        .socket_path_for_session(
            "123e4567-e89b-12d3-a456-426614174000-this-session-name-is-deliberately-long",
        )
        .expect("long state directory should still have a safe socket path");

    assert!(
        socket_path.len() < 108,
        "supervisor socket path must stay under Unix socket path limits: {socket_path}"
    );
}

#[test]
fn supervisor_attach_socket_file_name_stays_short_under_long_state_directory() {
    let state_path = "/tmp/termd-server-test-1234567890-1234567890-1234567890-very-long-state-name/daemon-state.json";
    let backend = SupervisorPtyBackend::for_state_path(state_path, &environment("/srv"));
    let session_id = "123e4567-e89b-12d3-a456-426614174000-this-session-name-is-deliberately-long";
    let control_socket_path = backend
        .socket_path_for_session(session_id)
        .expect("long state directory should still have a safe control socket path");
    let attach_socket_path =
        attach_socket_path_for_control_socket(&control_socket_path, session_id);

    assert_ne!(attach_socket_path, control_socket_path);
    assert!(
        attach_socket_path.len() < 108,
        "supervisor attach socket path must stay under Unix socket path limits: {attach_socket_path}"
    );
}

#[test]
fn supervisor_runtime_dir_falls_back_when_attach_socket_is_longer_than_control_socket() {
    let control_name_len = short_supervisor_socket_file_name("probe").len();
    let attach_name_len = short_supervisor_attach_socket_file_name("probe").len();
    assert!(attach_name_len > control_name_len);

    let preferred_dir_name = "termd-supervisors";
    let preferred_len = UNIX_SOCKET_PATH_MAX_BYTES - 2 - control_name_len;
    let base_prefix = "/tmp/";
    let base_dir_len = preferred_len
        .checked_sub(1 + preferred_dir_name.len())
        .expect("preferred runtime dir must leave room for base dir");
    let filler_len = base_dir_len
        .checked_sub(base_prefix.len())
        .expect("base dir length must fit under /tmp prefix");
    let base_dir = format!("{base_prefix}{}", "a".repeat(filler_len));
    let state_path = format!("{base_dir}/daemon-state.json");
    let preferred = format!("{base_dir}/{preferred_dir_name}");

    assert!(
        preferred.len() + 1 + control_name_len < UNIX_SOCKET_PATH_MAX_BYTES,
        "control socket should still fit under preferred runtime dir",
    );
    assert!(
        preferred.len() + 1 + attach_name_len >= UNIX_SOCKET_PATH_MAX_BYTES,
        "attach socket should overflow preferred runtime dir so the fallback is exercised",
    );

    let runtime_dir =
        runtime_dir_for(&state_path).expect("short runtime subdirectory should still fit");
    assert_eq!(runtime_dir, format!("{base_dir}/ts"));
}

#[test]
fn supervisor_runtime_dir_preserves_107_byte_limit_and_rejects_108_bytes() {
    let attach_name_len = short_supervisor_attach_socket_file_name("probe").len();
    let base_prefix = "/tmp/";
    let base_dir = |socket_len: usize| {
        let base_len = socket_len - 1 - "t".len() - 1 - attach_name_len;
        format!("{base_prefix}{}", "b".repeat(base_len - base_prefix.len()))
    };

    let exact = base_dir(UNIX_SOCKET_PATH_MAX_BYTES);
    assert_eq!(
        runtime_dir_for(&format!("{exact}/state.json")).unwrap(),
        format!("{exact}/t"),
        "107-byte attach path must use the one-byte safe fallback"
    );
    let overflow = base_dir(UNIX_SOCKET_PATH_MAX_BYTES + 1);
    let error = runtime_dir_for(&format!("{overflow}/state.json"))
        .expect_err("108-byte attach path must fail explicitly");
    assert!(error.contains("exceeds 107 bytes"));
}

fn process(pid: u32, session_id: &str, socket_path: &str) -> SupervisorProcess {
    SupervisorProcess {
        pid,
        session_id: session_id.to_owned(),
        socket_path: socket_path.to_owned(),
        size: Some(PtySize::default()),
    }
}

#[test]
fn orphan_detection_selects_only_current_runtime_dir_unrecorded_supervisors() {
    let runtime_dir = "/var/lib/termd/termd-supervisors";
    let mut valid_session_ids = StringSet::new();
    valid_session_ids.insert("kept-session".to_owned());
    let supervisors = vec![
        process(
            11,
            "kept-session",
            "/var/lib/termd/termd-supervisors/kept-session.sock",
        ),
        process(
            12,
            "orphan-session",
            "/var/lib/termd/termd-supervisors/orphan-session.sock",
        ),
        process(
            13,
            "orphan-session",
            "/tmp/other-termd-supervisors/orphan-session.sock",
        ),
    ];

    let orphan_pids = orphaned_supervisor_pids(runtime_dir, &valid_session_ids, &supervisors);

    assert_eq!(orphan_pids, vec![12]);
}

#[test]
fn parses_session_supervisor_cmdline() {
    let size_json = br#"{"rows":33,"cols":101,"pixel_width":1200,"pixel_height":900}"#;
    let args = vec![
        "/usr/local/bin/termd".to_owned(),
        "__session-supervisor".to_owned(),
        "--session-id".to_owned(),
        "session-a".to_owned(),
        "--socket-path".to_owned(),
        "/var/lib/termd/termd-supervisors/session-a.sock".to_owned(),
        "--size-base64".to_owned(),
        "eyJyb3dzIjozMywiY29scyI6MTAxLCJwaXhlbF93aWR0aCI6MTIwMCwicGl4ZWxfaGVpZ2h0Ijo5MDB9"
            .to_owned(),
    ];

    let cmdline = parse_supervisor_cmdline(&args).expect("supervisor should parse");
    assert_eq!(cmdline.size_json.as_deref(), Some(&size_json[..]));
    let size = PtySize::with_pixels(33, 101, 1200, 900);
    let supervisor = cmdline.into_process(42, Some(size));

    assert_eq!(supervisor.pid, 42);
    assert_eq!(supervisor.session_id, "session-a");
    assert_eq!(
        supervisor.socket_path,
        "/var/lib/termd/termd-supervisors/session-a.sock"
    );
    assert_eq!(supervisor.size, Some(size));
}

#[test]
fn launched_supervisors_are_recognised_by_their_arguments() {
    let mut args = vec!["/usr/local/bin/termd".to_owned()];
    args.extend(supervisor_launch_args(
        "session-a",
        "/run/s.sock",
        b"{\"program\":\"sh\"}",
        b"{\"rows\":1}",
    ));
    let found = parse_supervisor_cmdline(&args).unwrap();
    assert_eq!(found.session_id, "session-a");
    assert_eq!(found.socket_path, "/run/s.sock");
    assert_eq!(found.size_json.as_deref(), Some(&b"{\"rows\":1}"[..]));

    let raw = args.join("\0") + "\0";
    assert_eq!(cmdline_args(raw.as_bytes()), args);
    assert!(parse_supervisor_cmdline(&["sh".to_owned()]).is_none());
    assert_eq!(proc_entry_pid("4242"), Some(4242));
    assert_eq!(proc_entry_pid("self"), None);
}

#[test]
fn socket_names_are_made_of_a_hash() {
    assert_eq!(socket_file_name_for_hash(0, ".sock"), "AAAAAAAAAAA.sock");
    assert_eq!(
        socket_file_name_for_hash(0xfbff_0000_0000_0001, ".attach.sock"),
        "-_8AAAAAAAE.attach.sock"
    );
    assert_eq!(
        short_supervisor_socket_file_name("a"),
        short_supervisor_socket_file_name("a")
    );
    assert_ne!(
        short_supervisor_socket_file_name("a"),
        short_supervisor_socket_file_name("b")
    );
}

#[test]
fn binaries_are_found_above_the_running_one() {
    let mut host = environment("/srv");
    host.current_exe = Some("/target/debug/deps/termd-cli".to_owned());
    assert_eq!(
        binary_sibling("/target/debug/deps/termd-cli").as_deref(),
        Some("/target/debug/termd")
    );
    assert_eq!(host.discover_termd_binary_path(), "/target/debug/termd");
    host.sibling_exists = false;
    assert_eq!(
        host.discover_termd_binary_path(),
        "/target/debug/deps/termd-cli"
    );
    host.current_exe = None;
    assert_eq!(host.discover_termd_binary_path(), "termd");
    host.test_binary = Some("/target/termd".to_owned());
    assert_eq!(host.discover_termd_binary_path(), "/target/termd");
}

#[test]
fn live_supervisors_can_be_restored() {
    let backend = SupervisorPtyBackend::with_binary_and_state_path(
        "/bin/termd",
        "/var/lib/termd/daemon-state.json",
        &environment("/srv"),
    );
    assert_eq!(backend.binary_path(), "/bin/termd");
    assert_eq!(
        backend.runtime_dir().unwrap(),
        "/var/lib/termd/termd-supervisors"
    );
    let supervisors = vec![
        process(1, "a", "/var/lib/termd/termd-supervisors/a.sock"),
        process(2, "b", "/elsewhere/b.sock"),
    ];
    let candidates = backend
        .live_supervisor_restore_candidates(&supervisors)
        .unwrap();
    assert_eq!(candidates.len(), 1);
    assert_eq!(candidates[0].supervisor_pid, 1);
    assert_eq!(
        backend
            .orphaned_supervisor_count(&StringSet::new(), &supervisors)
            .unwrap(),
        1
    );
    let info = PtyRestoreInfo::UnixSocket {
        socket_path: "/run/termd/s.sock".to_owned(),
        supervisor_pid: 9,
        supervisor_status: PtySupervisorStatus::Running,
    };
    assert_eq!(
        reconnect_target(&info).unwrap(),
        ("/run/termd/s.sock".to_owned(), 9)
    );
    assert!(attach_target(Some(&info), "s").is_ok());
    assert!(attach_target(None, "s").is_err());
}

fn directory(uid: u32, mode: u32, inode: u64) -> DirectoryFacts {
    DirectoryFacts {
        is_dir: true,
        uid,
        mode,
        identity: SupervisorPathIdentity { device: 1, inode },
    }
}

fn io_error(kind: IoErrorKind) -> IoError {
    IoError::new(kind, "injected")
}

#[test]
fn supervisor_runtime_directory_traversal_rejects_replaceable_components() {
    let (mut walk, step) = SecureDirWalk::begin("/srv/target/runtime", 1000, true, true).unwrap();
    assert!(matches!(step, WalkStep::OpenStart { absolute: true }));
    assert!(matches!(
        walk.on_opened(directory(0, 0o755, 1)),
        WalkStep::OpenBelow { name } if name == "srv"
    ));
    assert!(
        matches!(
            walk.on_open_failed(true, io_error(IoErrorKind::Other)),
            WalkStep::Failed(_)
        ),
        "a component that is a link must be rejected"
    );

    let (mut walk, _) = SecureDirWalk::begin("/srv/nested/runtime", 1000, true, true).unwrap();
    walk.on_opened(directory(0, 0o755, 1));
    assert!(
        matches!(
            walk.on_opened(directory(1000, 0o777, 2)),
            WalkStep::Failed(_)
        ),
        "writable ancestor must be rejected"
    );
}

#[test]
fn supervisor_rejects_foreign_owned_final_dir_without_chmod() {
    let (mut walk, _) = SecureDirWalk::begin("/runtime", 0, true, true).unwrap();
    walk.on_opened(directory(0, 0o755, 1));
    assert!(matches!(
        walk.on_opened(directory(65_534, 0o755, 2)),
        WalkStep::Failed(_)
    ));
    assert!(validate_supervisor_runtime_final(&directory(65_534, 0o755, 2), "/runtime", 0).is_err());
    assert!(validate_supervisor_runtime_final(&directory(0, 0o755, 2), "/runtime", 0).is_ok());
}

#[test]
fn missing_directories_are_created_and_restricted() {
    let (mut walk, _) = SecureDirWalk::begin("/srv/runtime", 1000, true, true).unwrap();
    walk.on_opened(directory(0, 0o755, 1));
    assert!(matches!(
        walk.on_opened(directory(1000, 0o755, 2)),
        WalkStep::OpenBelow { name } if name == "runtime"
    ));
    assert!(matches!(
        walk.on_open_failed(false, io_error(IoErrorKind::NotFound)),
        WalkStep::Create { name } if name == "runtime"
    ));
    assert!(matches!(
        walk.on_created(Ok(())),
        WalkStep::OpenBelow { name } if name == "runtime"
    ));
    let created = directory(1000, 0o700, 3);
    assert!(matches!(walk.on_opened(created), WalkStep::Restrict));
    walk.may_restrict(&created).unwrap();
    assert!(matches!(
        walk.on_restricted(Ok(Ok(()))),
        WalkStep::Done(SupervisorPathIdentity { device: 1, inode: 3 })
    ));

    let (mut walk, _) = SecureDirWalk::begin("/srv", 1000, false, true).unwrap();
    walk.on_opened(directory(0, 0o755, 1));
    assert!(matches!(
        walk.on_open_failed(false, io_error(IoErrorKind::NotFound)),
        WalkStep::Failed(_)
    ));
    assert!(SecureDirWalk::begin("/srv/../runtime", 1000, true, true).is_err());
}

#[test]
fn shared_directories_need_the_sticky_bit() {
    assert!(validate_supervisor_runtime_ancestor(&directory(0, 0o1777, 1), "/tmp", 1000).is_ok());
    assert!(validate_supervisor_runtime_ancestor(&directory(0, 0o777, 1), "/tmp", 1000).is_err());
    assert!(validate_supervisor_runtime_ancestor(&directory(5, 0o755, 1), "/x", 1000).is_err());
    assert!(ensure_private(&directory(1000, 0o700, 1), "/r", 1000).is_ok());
    assert!(ensure_private(&directory(1000, 0o750, 1), "/r", 1000).is_err());
}

#[test]
fn replaced_files_are_noticed() {
    let one = SupervisorPathIdentity { device: 1, inode: 1 };
    let two = SupervisorPathIdentity { device: 1, inode: 2 };
    assert!(ensure_path_matches(one, one, "/r").is_ok());
    assert!(ensure_path_matches(one, two, "/r").is_err());
    assert!(check_socket_identity(one, one, "/r/s").is_ok());
    assert!(check_socket_identity(one, two, "/r/s").is_err());
    assert!(check_socket_entry(false, true, "/r/s").is_ok());
    assert!(check_socket_entry(true, false, "/r/s").is_err());
    assert!(check_socket_entry(false, false, "/r/s").is_err());
    assert!(open_socket_error(true, io_error(IoErrorKind::Other), "/r/s")
        .to_string()
        .contains("/r/s"));
    assert!(open_directory_error(true, io_error(IoErrorKind::Other), "/r")
        .to_string()
        .contains("/r"));
}

#[test]
fn supervisor_listener_rejects_real_108_byte_socket_path_clearly() {
    let path = |length: usize| format!("/{}", "s".repeat(length - 1));
    check_socket_path_length(&path(107)).expect("107-byte socket path must bind and listen");
    let error = check_socket_path_length(&path(108)).expect_err("108-byte path must not bind");
    assert!(
        error
            .to_string()
            .contains("Unix socket path exceeds 107 bytes"),
        "unexpected bind error: {}",
        error.to_string()
    );
    assert_eq!(
        socket_location("/run/termd/s.sock").unwrap(),
        ("/run/termd".to_owned(), "s.sock".to_owned())
    );
    assert!(socket_location("/").is_err());
}

#[test]
fn supervisor_temp_bind_collision_exhaustion_leaves_target_unchanged() {
    let mut tries = TempBindTries::new();
    for _ in 0..7 {
        assert!(matches!(
            tries.on_bind(Err(io_error(IoErrorKind::AddrInUse)), "/r/control.sock"),
            TempBindStep::TryAnother
        ));
    }
    match tries.on_bind(Err(io_error(IoErrorKind::AddrInUse)), "/r/control.sock") {
        TempBindStep::Failed(error) => assert!(
            error
                .to_string()
                .contains("failed to allocate a unique temporary supervisor socket"),
            "unexpected collision error: {}",
            error.to_string()
        ),
        other => panic!("repeated temp-name collisions must exhaust the retry budget: {other:?}"),
    }
}

#[test]
fn supervisor_linkat_unsupported_cleans_temp_and_preserves_target() {
    let temporary = SupervisorPathIdentity { device: 1, inode: 7 };
    let (mut publication, step) = SocketPublication::begin("/r/control.sock", false);
    assert!(matches!(step, PublishStep::CheckDirectory));
    assert!(matches!(
        publication.on_directory(Ok(())),
        PublishStep::BindTemporary
    ));
    assert!(matches!(
        publication.on_bound(Ok(temporary)),
        PublishStep::Restrict(identity) if identity == temporary
    ));
    assert!(matches!(
        publication.on_restricted(Ok(())),
        PublishStep::Link
    ));
    assert!(matches!(
        publication.on_linked(Err(IoError::new(
            IoErrorKind::Other,
            "injected linkat unsupported"
        ))),
        PublishStep::CleanUp(identity) if identity == temporary
    ));
    match publication.on_cleaned_up() {
        PublishStep::Failed(error) => assert!(
            error.to_string().contains("injected linkat unsupported"),
            "unexpected publication error: {}",
            error.to_string()
        ),
        other => panic!("unsupported linkat publication must fail: {other:?}"),
    }
}

#[test]
fn published_sockets_keep_their_identity() {
    let socket = SupervisorPathIdentity { device: 1, inode: 7 };
    let (mut publication, _) = SocketPublication::begin("/r/control.sock", true);
    assert!(matches!(
        publication.on_directory(Ok(())),
        PublishStep::RemoveExisting
    ));
    assert!(matches!(
        publication.on_removed(Ok(())),
        PublishStep::BindTemporary
    ));
    publication.on_bound(Ok(socket));
    publication.on_restricted(Ok(()));
    assert!(matches!(
        publication.on_linked(Ok(())),
        PublishStep::OpenPublished
    ));
    assert!(matches!(
        publication.on_published(Ok(socket)),
        PublishStep::UnlinkTemporary(identity) if identity == socket
    ));
    assert!(matches!(
        publication.on_unlinked(Ok(())),
        PublishStep::Done(identity) if identity == socket
    ));

    assert!(check_restricted_socket(socket, socket, 0o600, "/r/s").is_ok());
    assert!(check_restricted_socket(socket, socket, 0o644, "/r/s").is_err());
    assert!(restrict_socket_error("/r/s", &io_error(IoErrorKind::Other))
        .to_string()
        .contains("injected"));
}

#[test]
fn existing_sockets_are_judged_by_what_is_found() {
    let one = SupervisorPathIdentity { device: 1, inode: 1 };
    let two = SupervisorPathIdentity { device: 1, inode: 2 };
    let missing = || Err(PtyError::Io(io_error(IoErrorKind::NotFound)));
    assert!(matches!(existing_socket(missing()), ExistingSocket::Absent));
    assert!(matches!(
        existing_socket(Ok(one)),
        ExistingSocket::Unlink(identity) if identity == one
    ));
    assert!(matches!(
        existing_socket(Err(PtyError::Backend("link".to_owned()))),
        ExistingSocket::Failed(_)
    ));
    assert!(matches!(
        socket_health(one, Ok(one), "/r/s"),
        SocketHealth::Bound
    ));
    assert!(matches!(
        socket_health(one, missing(), "/r/s"),
        SocketHealth::Rebind
    ));
    assert!(matches!(
        socket_health(one, Ok(two), "/r/s"),
        SocketHealth::Broken(_)
    ));
}

#[test]
fn temporary_names_are_short_and_random() {
    assert_eq!(temp_name_for(&[0; 12]), ".tAAAAAAAAAAAAAAAA");
    let first = random_supervisor_socket_temp_name().unwrap();
    assert!(first.starts_with(".t"));
    assert_ne!(first, random_supervisor_socket_temp_name().unwrap());
    assert_eq!(socket_address_len(5, 2).unwrap(), 8);
    assert!(socket_address_len(200, 2).is_err());
    assert!(matches!(
        bind_helper_outcome(Some(0)),
        BindHelperOutcome::Bound
    ));
    assert!(matches!(
        bind_helper_outcome(Some(bind_helper_exit_code(98))),
        BindHelperOutcome::Refused(98)
    ));
    assert!(matches!(
        bind_helper_outcome(None),
        BindHelperOutcome::Crashed(_)
    ));
}

#[test]
fn commands_start_after_the_grant() {
    let mut startup = SupervisorStartup::new();
    assert!(matches!(startup.on_result(Ok(())), StartupStep::BindAttach));
    assert!(matches!(startup.on_result(Ok(())), StartupStep::ReadGrant));
    assert!(matches!(
        startup.on_result(Err(PtyError::Backend("no grant".to_owned()))),
        StartupStep::GiveUp {
            remove_control: true,
            remove_attach: true,
            ..
        }
    ));
    let mut startup = SupervisorStartup::new();
    for _ in 0..2 {
        startup.on_result(Ok(()));
    }
    assert!(matches!(
        startup.on_result(Ok(())),
        StartupStep::SpawnCommand
    ));
    assert!(matches!(startup.on_result(Ok(())), StartupStep::Serve));

    assert!(matches!(
        serve_step(ServeEvent::ShutdownChanged(Some(true))),
        ServeStep::Stop
    ));
    assert!(matches!(
        serve_step(ServeEvent::Accepted),
        ServeStep::ServeConnection
    ));
    assert!(matches!(serve_step(ServeEvent::Idle), ServeStep::GoOn));
    assert!(matches!(
        serve_step(ServeEvent::AcceptFailed(io_error(IoErrorKind::Other))),
        ServeStep::Failed(_)
    ));
}

#[test]
fn evidence_is_committed_before_the_grant_is_sent() {
    let grant = PtyStartupGrant::new([7; 16], [9; 32]);
    let mut launch = SupervisorLaunch::begin("s", "/run/s.sock");
    assert!(matches!(launch.on_directory(Ok(())), LaunchStep::Start));
    assert!(matches!(
        launch.on_started(Ok(42)),
        LaunchStep::CommitEvidence(PtyRestoreInfo::UnixSocket { supervisor_pid: 42, .. })
    ));
    assert!(matches!(
        launch.on_evidence(Ok(()), &grant),
        LaunchStep::SendGrant(_)
    ));
    assert!(matches!(launch.on_grant(Ok(())), LaunchStep::Connect));
    assert!(matches!(
        launch.on_connected(Err(PtyError::Backend("late".to_owned()))),
        LaunchStep::Disconnected { .. }
    ));

    let mut launch = SupervisorLaunch::begin("s", "/run/s.sock");
    launch.on_directory(Ok(()));
    launch.on_started(Ok(42));
    assert!(matches!(
        launch.on_evidence(Err(startup_pipe_unavailable()), &grant),
        LaunchStep::Abandon(_)
    ));
    assert!(required_controller(None).is_err());
    let owner = ControllerIdentity {
        id: 1,
        connection_id: 2,
    };
    assert_eq!(required_controller(Some(owner)).unwrap(), owner);
}

#[test]
fn viewers_follow_the_session_and_answer_heartbeats() {
    let mut state = SupervisorState::with_optional_cleanup_capability(PtySize::new(24, 80), None);
    let lane = state.open_lane();
    let attach = TerminalAttachConnection::bootstrap(
        &mut state,
        "s",
        &SupervisorTerminalClientFrame::BootstrapAttach {
            session_id: "s".to_owned(),
            last_terminal_seq: None,
        },
        lane,
        Some(42),
        b"screen".to_vec(),
    );
    let mut attach = match attach {
        Ok(attach) => attach,
        Err(refused) => panic!("bootstrap should succeed: {:?}", refused.error),
    };
    assert!(matches!(
        attach.sync,
        SupervisorTerminalServerFrame::AttachSync { base_seq: 0, .. }
    ));
    let frame = state.record_output(b"live");
    state.broadcast_terminal_frame(&frame);
    assert!(matches!(
        attach.connection.poll_outbound(&mut state),
        TerminalAttachStep::Send(SupervisorTerminalServerFrame::TerminalFrame {
            frame: PtyTerminalFrame::Output { terminal_seq: 1, .. },
            ..
        })
    ));
    let nonce = match attach.connection.on_heartbeat_tick(1_000, 1_000) {
        TerminalAttachStep::Send(SupervisorTerminalServerFrame::HeartbeatPing {
            nonce, ..
        }) => nonce,
        other => panic!("a viewer must be asked for a sign of life: {other:?}"),
    };
    assert!(matches!(
        attach
            .connection
            .on_client_frame(&SupervisorTerminalClientFrame::HeartbeatPong { nonce }),
        TerminalAttachStep::Continue
    ));
    attach.connection.on_heartbeat_tick(11_000, 11_000);
    assert!(matches!(
        attach.connection.on_heartbeat_tick(50_000, 50_000),
        TerminalAttachStep::Close(_) | TerminalAttachStep::Fail(_)
    ));
    attach.connection.finish(&mut state);
    assert_eq!(state.terminal_attach_count(), 0);

    assert!(TerminalAttachConnection::bootstrap(
        &mut state,
        "s",
        &SupervisorTerminalClientFrame::Input { data: Vec::new() },
        lane,
        None,
        Vec::new(),
    )
    .is_err());
}

#[test]
fn socket_names_tell_sessions_apart() {
    let name = short_supervisor_socket_file_name("one");
    assert_eq!(name, short_supervisor_socket_file_name("one"));
    assert_ne!(name, short_supervisor_socket_file_name("two"));
    assert_eq!(
        name.strip_suffix(".sock"),
        short_supervisor_attach_socket_file_name("one").strip_suffix(".attach.sock")
    );
}
