//! The session registry: who is attached, and which state a session is in.

use termd::session::{AttachRole, SessionError, SessionManager, SessionState, TerminalSize};

#[test]
fn first_attach_becomes_operator() {
    let mut manager = SessionManager::default();
    manager.create_session("s1").unwrap();

    let role = manager.attach("s1", "dev-a").unwrap();

    assert_eq!(role, AttachRole::Operator);
    assert_eq!(manager.state("s1").unwrap(), SessionState::Running);
}

#[test]
fn second_attach_is_also_operator() {
    let mut manager = SessionManager::default();
    manager.create_session("s1").unwrap();
    manager.attach("s1", "dev-a").unwrap();

    let role = manager.attach("s1", "dev-b").unwrap();

    assert_eq!(role, AttachRole::Operator);
    assert_eq!(
        manager.role("s1", "dev-b").unwrap(),
        Some(AttachRole::Operator)
    );
}

#[test]
fn control_request_is_noop_for_attached_operator() {
    let mut manager = SessionManager::default();
    manager.create_session("s1").unwrap();
    manager.attach("s1", "dev-a").unwrap();
    manager.attach("s1", "dev-b").unwrap();

    manager.steal_control("s1", "dev-b").unwrap();

    assert_eq!(
        manager.role("s1", "dev-a").unwrap(),
        Some(AttachRole::Operator)
    );
    assert_eq!(
        manager.role("s1", "dev-b").unwrap(),
        Some(AttachRole::Operator)
    );
}

#[test]
fn detach_does_not_close_running_session() {
    let mut manager = SessionManager::default();
    manager.create_session("s1").unwrap();
    manager.attach("s1", "dev-a").unwrap();

    manager.detach("s1", "dev-a").unwrap();

    assert_eq!(manager.state("s1").unwrap(), SessionState::Running);
    assert_eq!(manager.role("s1", "dev-a").unwrap(), None);
}

#[test]
fn closed_session_rejects_attach_control_and_resize() {
    let mut manager = SessionManager::default();
    manager.create_session("s1").unwrap();
    manager.attach("s1", "dev-a").unwrap();
    manager.close("s1").unwrap();

    let attach_error = manager.attach("s1", "dev-b").unwrap_err();
    let control_error = manager.steal_control("s1", "dev-a").unwrap_err();
    let resize_error = manager
        .resize("s1", TerminalSize::cells(40, 120))
        .unwrap_err();

    assert_eq!(attach_error, SessionError::SessionClosed);
    assert_eq!(control_error, SessionError::SessionClosed);
    assert_eq!(resize_error, SessionError::SessionClosed);
}

#[test]
fn unknown_sessions_and_devices_are_refused() {
    let mut manager = SessionManager::default();
    assert_eq!(
        manager.attach("s1", "dev-a").unwrap_err(),
        SessionError::SessionNotFound
    );
    assert_eq!(manager.state("s1").unwrap_err(), SessionError::SessionNotFound);
    assert_eq!(manager.size("s1").unwrap_err(), SessionError::SessionNotFound);

    manager.create_session("s1").unwrap();
    assert_eq!(
        manager.create_session("s1").unwrap_err(),
        SessionError::SessionAlreadyExists
    );
    assert_eq!(
        manager.steal_control("s1", "dev-a").unwrap_err(),
        SessionError::DeviceNotAttached
    );
    assert_eq!(
        manager.detach("s1", "dev-a").unwrap_err(),
        SessionError::DeviceNotAttached
    );
    assert_eq!(manager.state("s1").unwrap(), SessionState::Created);
}

#[test]
fn empty_sizes_are_refused_and_valid_sizes_are_kept() {
    let mut manager = SessionManager::default();
    manager.create_session("s1").unwrap();
    assert_eq!(manager.size("s1").unwrap(), TerminalSize::cells(24, 80));
    assert_eq!(
        manager.resize("s1", TerminalSize::cells(0, 80)).unwrap_err(),
        SessionError::InvalidSize
    );
    assert_eq!(
        manager.resize("s1", TerminalSize::cells(24, 0)).unwrap_err(),
        SessionError::InvalidSize
    );
    assert_eq!(manager.size("s1").unwrap(), TerminalSize::cells(24, 80));
    manager.resize("s1", TerminalSize::cells(40, 120)).unwrap();
    assert_eq!(manager.size("s1").unwrap(), TerminalSize::cells(40, 120));
}

#[test]
fn attaching_twice_changes_nothing_more() {
    let mut manager = SessionManager::default();
    manager.create_session("s1").unwrap();
    assert_eq!(manager.attach("s1", "dev-a").unwrap(), AttachRole::Operator);
    assert_eq!(manager.attach("s1", "dev-a").unwrap(), AttachRole::Operator);
    manager.detach("s1", "dev-a").unwrap();
    assert_eq!(manager.role("s1", "dev-a").unwrap(), None);
}

#[test]
fn session_errors_have_texts() {
    assert_eq!(SessionError::SessionClosed.to_string(), "session is closed");
    assert_eq!(SessionError::SessionNotFound.to_string(), "session not found");
}
