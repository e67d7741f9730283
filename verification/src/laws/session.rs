//! Sessions: what each operation changes, what it leaves alone, and what the next question is answered.

use crate::session::{
    AttachRole, RecordModel, SessionError, SessionManager, SessionState, TerminalSize,
};
use vstd::prelude::*;

verus! {

/// Two tables of sessions agree on every session but one.
pub open spec fn same_elsewhere(
    before: Map<Seq<char>, RecordModel>,
    after: Map<Seq<char>, RecordModel>,
    session_id: Seq<char>,
) -> bool {
    forall|other: Seq<char>| #![trigger after.contains_key(other)]
        other != session_id ==> after.contains_key(other) == before.contains_key(other) && (
        before.contains_key(other) ==> after[other] == before[other])
}

/// A session with that name can still be used: it is known and not closed.
pub open spec fn usable(sessions: Map<Seq<char>, RecordModel>, session_id: Seq<char>) -> bool {
    sessions.contains_key(session_id) && sessions[session_id].state != SessionState::Closed
}

/// Creating a session succeeds exactly if there is none of that name. The new one has not run yet, nobody
/// is attached to it, it has 24 rows of 80 columns, and no other session is touched.
pub proof fn law_create_adds_an_empty_session(
    manager: &mut SessionManager,
    session_id: &str,
    res: Result<(), SessionError>,
)
    requires
        call_ensures(SessionManager::create_session, (manager, session_id), res),
    ensures
        res is Ok <==> !old(manager)@.contains_key(session_id@),
        res matches Err(e) ==> e is SessionAlreadyExists && final(manager)@ == old(manager)@,
        same_elsewhere(old(manager)@, final(manager)@, session_id@),
        res is Ok ==> {
            let record = final(manager)@[session_id@];
            &&& final(manager)@.contains_key(session_id@)
            &&& record.state is Created
            &&& forall|device: Seq<char>| !(#[trigger] record.attached_devices.contains_key(device))
            &&& record.size.rows == 24 && record.size.cols == 80
            &&& record.size.pixel_width == 0 && record.size.pixel_height == 0
        },
{
}

/// Attaching a device adds it to the session and changes nothing else: the size stays, every other device
/// stays attached with its role, and the session runs. It succeeds exactly on a session that is known and
/// not closed.
pub proof fn law_attach_adds_one_device(
    manager: &mut SessionManager,
    session_id: &str,
    device_id: &str,
    res: Result<AttachRole, SessionError>,
)
    requires
        call_ensures(SessionManager::attach, (manager, session_id, device_id), res),
    ensures
        res is Ok <==> usable(old(manager)@, session_id@),
        !old(manager)@.contains_key(session_id@) ==> res == Err::<AttachRole, SessionError>(
            SessionError::SessionNotFound,
        ),
        old(manager)@.contains_key(session_id@) && !usable(old(manager)@, session_id@) ==> res == Err::<
            AttachRole,
            SessionError,
        >(SessionError::SessionClosed),
        res is Err ==> final(manager)@ == old(manager)@,
        same_elsewhere(old(manager)@, final(manager)@, session_id@),
        res matches Ok(role) ==> {
            let before = old(manager)@[session_id@];
            let after = final(manager)@[session_id@];
            &&& final(manager)@.contains_key(session_id@)
            &&& role is Operator
            &&& after.state is Running
            &&& after.size == before.size
            &&& after.attached_devices.contains_key(device_id@)
            &&& after.attached_devices[device_id@] == role
            &&& forall|other: Seq<char>| #![trigger after.attached_devices.contains_key(other)]
                other != device_id@ ==> after.attached_devices.contains_key(other)
                    == before.attached_devices.contains_key(other) && (
                before.attached_devices.contains_key(other) ==> after.attached_devices[other]
                    == before.attached_devices[other])
        },
{
}

/// Detaching a device takes that device away and nothing else: the session goes on in the state and the
/// size that it had. It succeeds exactly for a device that is attached to a session that is not closed.
pub proof fn law_detach_removes_one_device(
    manager: &mut SessionManager,
    session_id: &str,
    device_id: &str,
    res: Result<(), SessionError>,
)
    requires
        call_ensures(SessionManager::detach, (manager, session_id, device_id), res),
    ensures
        res is Ok <==> usable(old(manager)@, session_id@)
            && old(manager)@[session_id@].attached_devices.contains_key(device_id@),
        !old(manager)@.contains_key(session_id@) ==> res == Err::<(), SessionError>(
            SessionError::SessionNotFound,
        ),
        old(manager)@.contains_key(session_id@) && !usable(old(manager)@, session_id@) ==> res == Err::<
            (),
            SessionError,
        >(SessionError::SessionClosed),
        usable(old(manager)@, session_id@) && res is Err ==> res == Err::<(), SessionError>(
            SessionError::DeviceNotAttached,
        ),
        res is Err ==> final(manager)@ == old(manager)@,
        same_elsewhere(old(manager)@, final(manager)@, session_id@),
        res is Ok ==> {
            let before = old(manager)@[session_id@];
            let after = final(manager)@[session_id@];
            &&& final(manager)@.contains_key(session_id@)
            &&& after.state == before.state
            &&& after.size == before.size
            &&& !after.attached_devices.contains_key(device_id@)
            &&& forall|other: Seq<char>| #![trigger after.attached_devices.contains_key(other)]
                other != device_id@ ==> after.attached_devices.contains_key(other)
                    == before.attached_devices.contains_key(other) && (
                before.attached_devices.contains_key(other) ==> after.attached_devices[other]
                    == before.attached_devices[other])
        },
{
}

/// Asking for control changes nothing, and is granted exactly to a device that is attached.
pub proof fn law_control_needs_no_taking(
    manager: &mut SessionManager,
    session_id: &str,
    device_id: &str,
    res: Result<(), SessionError>,
)
    requires
        call_ensures(SessionManager::steal_control, (manager, session_id, device_id), res),
    ensures
        final(manager)@ == old(manager)@,
        res is Ok <==> usable(old(manager)@, session_id@)
            && old(manager)@[session_id@].attached_devices.contains_key(device_id@),
        usable(old(manager)@, session_id@) && res is Err ==> res == Err::<(), SessionError>(
            SessionError::DeviceNotAttached,
        ),
{
}

/// A resize gives the session the size that was asked for, and changes nothing else. It is refused exactly
/// for a size without rows or columns, and for a session that is unknown or closed.
pub proof fn law_resize_changes_the_size_alone(
    manager: &mut SessionManager,
    session_id: &str,
    size: TerminalSize,
    res: Result<(), SessionError>,
)
    requires
        call_ensures(SessionManager::resize, (manager, session_id, size), res),
    ensures
        res is Ok <==> size.rows != 0 && size.cols != 0 && usable(old(manager)@, session_id@),
        size.rows == 0 || size.cols == 0 ==> res == Err::<(), SessionError>(SessionError::InvalidSize),
        res is Err ==> final(manager)@ == old(manager)@,
        same_elsewhere(old(manager)@, final(manager)@, session_id@),
        res is Ok ==> {
            let before = old(manager)@[session_id@];
            let after = final(manager)@[session_id@];
            &&& final(manager)@.contains_key(session_id@)
            &&& after.size == size
            &&& after.state == before.state
            &&& after.attached_devices == before.attached_devices
        },
{
}

/// A close takes every device away and is for good; the session is still known, with the size that it
/// had. It succeeds exactly on a session that is known.
pub proof fn law_close_keeps_the_name_and_the_size(
    manager: &mut SessionManager,
    session_id: &str,
    res: Result<(), SessionError>,
)
    requires
        call_ensures(SessionManager::close, (manager, session_id), res),
    ensures
        res is Ok <==> old(manager)@.contains_key(session_id@),
        res matches Err(e) ==> e is SessionNotFound && final(manager)@ == old(manager)@,
        same_elsewhere(old(manager)@, final(manager)@, session_id@),
        res is Ok ==> {
            let before = old(manager)@[session_id@];
            let after = final(manager)@[session_id@];
            &&& final(manager)@.contains_key(session_id@)
            &&& after.state is Closed
            &&& after.size == before.size
            &&& forall|device: Seq<char>| !(#[trigger] after.attached_devices.contains_key(device))
        },
{
}

/// What a session is asked about, it answers from what the operations before have left: the size that the
/// last resize gave it, the role that the attach returned.
pub proof fn law_questions_are_answered_by_what_was_done(
    manager: &SessionManager,
    session_id: &str,
    device_id: &str,
    state: Result<SessionState, SessionError>,
    size: Result<TerminalSize, SessionError>,
    role: Result<Option<AttachRole>, SessionError>,
)
    requires
        call_ensures(SessionManager::state, (manager, session_id), state),
        call_ensures(SessionManager::size, (manager, session_id), size),
        call_ensures(SessionManager::role, (manager, session_id, device_id), role),
    ensures
        manager@.contains_key(session_id@) ==> {
            let record = manager@[session_id@];
            &&& state == Ok::<SessionState, SessionError>(record.state)
            &&& size == Ok::<TerminalSize, SessionError>(record.size)
            &&& role matches Ok(found)
            &&& found is Some <==> record.attached_devices.contains_key(device_id@)
            &&& found is Some ==> found->0 == record.attached_devices[device_id@]
        },
        !manager@.contains_key(session_id@) ==> {
            &&& state == Err::<SessionState, SessionError>(SessionError::SessionNotFound)
            &&& size == Err::<TerminalSize, SessionError>(SessionError::SessionNotFound)
            &&& role == Err::<Option<AttachRole>, SessionError>(SessionError::SessionNotFound)
        },
{
}

/// After an attach the size is what it was before, whoever came.
pub proof fn law_size_survives_an_attach(
    manager: &mut SessionManager,
    session_id: &str,
    device_id: &str,
    before: Result<TerminalSize, SessionError>,
    attached: Result<AttachRole, SessionError>,
    after: Result<TerminalSize, SessionError>,
)
    requires
        call_ensures(SessionManager::size, (&*old(manager), session_id), before),
        call_ensures(SessionManager::attach, (manager, session_id, device_id), attached),
        call_ensures(SessionManager::size, (&*final(manager), session_id), after),
    ensures
        after == before,
{
}

} // verus!
