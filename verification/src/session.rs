//! Sessions, their lifecycle and the devices attached to them.
//!
//! Device ids that arrive here belong to devices that have already been authenticated. A session is
//! created, runs from its first attach on, and is closed for good.

use crate::collections::StringMap;
use vstd::prelude::*;

verus! {

/// The lifecycle of a session: created, running, closed, in this order.
#[derive(Debug, Clone, Copy, PartialEq, Eq, Structural)]
pub enum SessionState {
    Created,
    Running,
    Closed,
}

/// The role of an attached device. Control is shared: every attached device may type.
#[derive(Debug, Clone, Copy, PartialEq, Eq, Structural)]
pub enum AttachRole {
    Operator,
}

/// The size of a terminal; the pixel sizes may be zero.
#[derive(Debug, Clone, Copy, PartialEq, Eq, Structural)]
pub struct TerminalSize {
    pub rows: u16,
    pub cols: u16,
    pub pixel_width: u16,
    pub pixel_height: u16,
}

impl TerminalSize {
    /// A size in character cells.
    pub fn cells(rows: u16, cols: u16) -> (size: Self)
        ensures
            size == (TerminalSize { rows, cols, pixel_width: 0, pixel_height: 0 }),
    {
        TerminalSize { rows, cols, pixel_width: 0, pixel_height: 0 }
    }

    /// A terminal has at least one row and one column.
    pub open spec fn valid(self) -> bool {
        self.rows > 0 && self.cols > 0
    }

    /// Whether there is at least one row and one column.
    pub fn is_valid(&self) -> (valid: bool)
        ensures
            valid == self.valid(),
    {
        self.rows > 0 && self.cols > 0
    }
}

/// The size of a terminal that nobody has resized.
pub open spec fn default_size() -> TerminalSize {
    TerminalSize { rows: 24, cols: 80, pixel_width: 0, pixel_height: 0 }
}

impl Default for TerminalSize {
    fn default() -> (size: Self)
        ensures
            size == default_size(),
    {
        TerminalSize::cells(24, 80)
    }
}

/// Why an operation on a session is refused.
#[derive(Debug, Clone, Copy, PartialEq, Eq, Structural)]
pub enum SessionError {
    SessionAlreadyExists,
    SessionNotFound,
    SessionClosed,
    DeviceNotAttached,
    InvalidSize,
}

impl SessionError {
    /// The message shown to users.
    pub open spec fn text(self) -> Seq<char> {
        match self {
            SessionError::SessionAlreadyExists => "session already exists"@,
            SessionError::SessionNotFound => "session not found"@,
            SessionError::SessionClosed => "session is closed"@,
            SessionError::DeviceNotAttached => "device is not attached"@,
            SessionError::InvalidSize => "terminal size must have non-zero rows and cols"@,
        }
    }

    /// The message shown to users.
    pub fn to_string(&self) -> (text: String)
        ensures
            text@ == self.text(),
    {
        match self {
            SessionError::SessionAlreadyExists => "session already exists".to_owned(),
            SessionError::SessionNotFound => "session not found".to_owned(),
            SessionError::SessionClosed => "session is closed".to_owned(),
            SessionError::DeviceNotAttached => "device is not attached".to_owned(),
            SessionError::InvalidSize => {
                "terminal size must have non-zero rows and cols".to_owned()
            },
        }
    }
}

#[derive(Debug)]
struct SessionRecord {
    state: SessionState,
    attached_devices: StringMap<AttachRole>,
    size: TerminalSize,
}

/// What is known of a session.
#[verifier::ext_equal]
pub struct RecordModel {
    pub state: SessionState,
    pub attached_devices: Map<Seq<char>, AttachRole>,
    pub size: TerminalSize,
}

impl SessionRecord {
    spec fn wf(&self) -> bool {
        self.attached_devices.wf()
    }

    spec fn model(&self) -> RecordModel {
        RecordModel {
            state: self.state,
            attached_devices: self.attached_devices@,
            size: self.size,
        }
    }

    fn new() -> (record: Self)
        ensures
            record.wf(),
            record.model() == new_record(),
    {
        SessionRecord {
            state: SessionState::Created,
            attached_devices: StringMap::new(),
            size: TerminalSize::default(),
        }
    }
}

/// A session that was just created.
pub open spec fn new_record() -> RecordModel {
    RecordModel {
        state: SessionState::Created,
        attached_devices: Map::empty(),
        size: default_size(),
    }
}

impl RecordModel {
    /// A device is attached. The first one makes the session run; a device that already is attached
    /// keeps its role.
    pub open spec fn attached(self, device_id: Seq<char>) -> RecordModel {
        RecordModel {
            state: SessionState::Running,
            attached_devices: self.attached_devices.insert(device_id, self.role_of(device_id)),
            ..self
        }
    }

    /// The role that a device has or would get.
    pub open spec fn role_of(self, device_id: Seq<char>) -> AttachRole {
        if self.attached_devices.contains_key(device_id) {
            self.attached_devices[device_id]
        } else {
            AttachRole::Operator
        }
    }

    /// A device is detached; the session goes on.
    pub open spec fn detached(self, device_id: Seq<char>) -> RecordModel {
        RecordModel { attached_devices: self.attached_devices.remove(device_id), ..self }
    }

    /// The session is closed, and nobody is attached to it.
    pub open spec fn closed(self) -> RecordModel {
        RecordModel { state: SessionState::Closed, attached_devices: Map::empty(), ..self }
    }

    /// The terminal has another size.
    pub open spec fn resized(self, size: TerminalSize) -> RecordModel {
        RecordModel { size, ..self }
    }
}

/// The sessions of a daemon.
#[derive(Debug)]
pub struct SessionManager {
    sessions: StringMap<SessionRecord>,
}

impl View for SessionManager {
    type V = Map<Seq<char>, RecordModel>;

    closed spec fn view(&self) -> Map<Seq<char>, RecordModel> {
        self.sessions@.map_values(|record: SessionRecord| record.model())
    }
}

/// Why an operation on an open session is refused, if it is.
pub open spec fn open_refusal(
    sessions: Map<Seq<char>, RecordModel>,
    session_id: Seq<char>,
) -> Option<SessionError> {
    if !sessions.contains_key(session_id) {
        Some(SessionError::SessionNotFound)
    } else if sessions[session_id].state == SessionState::Closed {
        Some(SessionError::SessionClosed)
    } else {
        None
    }
}

/// Why an operation of an attached device is refused, if it is.
pub open spec fn device_refusal(
    sessions: Map<Seq<char>, RecordModel>,
    session_id: Seq<char>,
    device_id: Seq<char>,
) -> Option<SessionError> {
    match open_refusal(sessions, session_id) {
        Some(error) => Some(error),
        None => if sessions[session_id].attached_devices.contains_key(device_id) {
            None
        } else {
            Some(SessionError::DeviceNotAttached)
        },
    }
}

/// Why a resize is refused, if it is. The size is checked first.
pub open spec fn resize_refusal(
    sessions: Map<Seq<char>, RecordModel>,
    session_id: Seq<char>,
    size: TerminalSize,
) -> Option<SessionError> {
    if !size.valid() {
        Some(SessionError::InvalidSize)
    } else {
        open_refusal(sessions, session_id)
    }
}

impl Default for SessionManager {
    fn default() -> (manager: Self)
        ensures
            manager.wf(),
            manager@ == Map::<Seq<char>, RecordModel>::empty(),
    {
        let manager = SessionManager { sessions: StringMap::new() };
        assert(manager@ =~= Map::<Seq<char>, RecordModel>::empty());
        manager
    }
}

impl SessionManager {
    /// The tables of sessions and devices are in order.
    pub closed spec fn wf(&self) -> bool {
        &&& self.sessions.wf()
        &&& forall|id: Seq<char>| #[trigger] self.sessions@.contains_key(id) ==> self.sessions@[id].wf()
    }

    fn take(&mut self, session_id: &str) -> (record: Option<SessionRecord>)
        requires
            old(self).wf(),
        ensures
            final(self).wf(),
            final(self)@ == old(self)@.remove(session_id@),
            record is Some <==> old(self)@.contains_key(session_id@),
            record matches Some(r) ==> r.wf() && r.model() == old(self)@[session_id@],
    {
        let record = self.sessions.remove(session_id);
        assert(self@ =~= old(self)@.remove(session_id@));
        record
    }

    fn put(&mut self, session_id: &str, record: SessionRecord)
        requires
            old(self).wf(),
            record.wf(),
        ensures
            final(self).wf(),
            final(self)@ == old(self)@.insert(session_id@, record.model()),
    {
        self.sessions.insert(session_id.to_owned(), record);
        assert(self@ =~= old(self)@.insert(session_id@, record.model()));
    }

    fn open_record(&self, session_id: &str) -> (res: Result<&SessionRecord, SessionError>)
        requires
            self.wf(),
        ensures
            match open_refusal(self@, session_id@) {
                Some(error) => res == Err::<&SessionRecord, SessionError>(error),
                None => res matches Ok(record) && record.wf() && record.model()
                    == self@[session_id@],
            },
    {
        match self.sessions.get(session_id) {
            None => Err(SessionError::SessionNotFound),
            Some(record) => {
                if record.state == SessionState::Closed {
                    Err(SessionError::SessionClosed)
                } else {
                    Ok(record)
                }
            },
        }
    }

    /// Creates a session.
    pub fn create_session(&mut self, session_id: &str) -> (res: Result<(), SessionError>)
        requires
            old(self).wf(),
        ensures
            final(self).wf(),
            if old(self)@.contains_key(session_id@) {
                &&& res == Err::<(), SessionError>(SessionError::SessionAlreadyExists)
                &&& final(self)@ == old(self)@
            } else {
                &&& res is Ok
                &&& final(self)@ == old(self)@.insert(session_id@, new_record())
            },
    {
        if self.sessions.contains(session_id) {
            return Err(SessionError::SessionAlreadyExists);
        }
        self.put(session_id, SessionRecord::new());
        Ok(())
    }

    /// Attaches a device to a session.
    pub fn attach(&mut self, session_id: &str, device_id: &str) -> (res: Result<
        AttachRole,
        SessionError,
    >)
        requires
            old(self).wf(),
        ensures
            final(self).wf(),
            match open_refusal(old(self)@, session_id@) {
                Some(error) => {
                    &&& res == Err::<AttachRole, SessionError>(error)
                    &&& final(self)@ == old(self)@
                },
                None => {
                    let record = old(self)@[session_id@];
                    &&& res == Ok::<AttachRole, SessionError>(record.role_of(device_id@))
                    &&& final(self)@ == old(self)@.insert(session_id@, record.attached(device_id@))
                },
            },
    {
        if let Err(error) = self.open_record(session_id) {
            return Err(error);
        }
        let mut record = match self.take(session_id) {
            Some(record) => record,
            None => {
                return Err(SessionError::SessionNotFound);
            },
        };
        let ghost before = record.model();
        record.state = SessionState::Running;
        let role: AttachRole = match record.attached_devices.get(device_id) {
            Some(role) => *role,
            None => AttachRole::Operator,
        };
        record.attached_devices.insert(device_id.to_owned(), role);
        assert(record.model() == before.attached(device_id@));
        self.put(session_id, record);
        assert(self@ =~= old(self)@.insert(session_id@, before.attached(device_id@)));
        Ok(role)
    }

    /// Control is shared, so there is none to take: this only confirms that the device is attached.
    pub fn steal_control(&mut self, session_id: &str, device_id: &str) -> (res: Result<
        (),
        SessionError,
    >)
        requires
            old(self).wf(),
        ensures
            final(self).wf(),
            final(self)@ == old(self)@,
            match device_refusal(old(self)@, session_id@, device_id@) {
                Some(error) => res == Err::<(), SessionError>(error),
                None => res is Ok,
            },
    {
        match self.open_record(session_id) {
            Err(error) => Err(error),
            Ok(record) => {
                if record.attached_devices.contains(device_id) {
                    Ok(())
                } else {
                    Err(SessionError::DeviceNotAttached)
                }
            },
        }
    }

    /// Detaches a device; the session goes on.
    pub fn detach(&mut self, session_id: &str, device_id: &str) -> (res: Result<(), SessionError>)
        requires
            old(self).wf(),
        ensures
            final(self).wf(),
            match device_refusal(old(self)@, session_id@, device_id@) {
                Some(error) => res == Err::<(), SessionError>(error) && final(self)@ == old(self)@,
                None => res is Ok && final(self)@ == old(self)@.insert(
                    session_id@,
                    old(self)@[session_id@].detached(device_id@),
                ),
            },
    {
        match self.open_record(session_id) {
            Err(error) => {
                return Err(error);
            },
            Ok(record) => {
                if !record.attached_devices.contains(device_id) {
                    return Err(SessionError::DeviceNotAttached);
                }
            },
        }
        let mut record = match self.take(session_id) {
            Some(record) => record,
            None => {
                return Err(SessionError::SessionNotFound);
            },
        };
        let ghost before = record.model();
        let _ = record.attached_devices.remove(device_id);
        assert(record.model() == before.detached(device_id@));
        self.put(session_id, record);
        assert(self@ =~= old(self)@.insert(session_id@, before.detached(device_id@)));
        Ok(())
    }

    /// Closes a session for good. It can still be asked about.
    pub fn close(&mut self, session_id: &str) -> (res: Result<(), SessionError>)
        requires
            old(self).wf(),
        ensures
            final(self).wf(),
            if old(self)@.contains_key(session_id@) {
                &&& res is Ok
                &&& final(self)@ == old(self)@.insert(session_id@, old(self)@[session_id@].closed())
            } else {
                &&& res == Err::<(), SessionError>(SessionError::SessionNotFound)
                &&& final(self)@ == old(self)@
            },
    {
        if !self.sessions.contains(session_id) {
            return Err(SessionError::SessionNotFound);
        }
        let mut record = match self.take(session_id) {
            Some(record) => record,
            None => {
                return Err(SessionError::SessionNotFound);
            },
        };
        let ghost before = record.model();
        record.state = SessionState::Closed;
        record.attached_devices = StringMap::new();
        assert(record.model() == before.closed());
        self.put(session_id, record);
        assert(self@ =~= old(self)@.insert(session_id@, before.closed()));
        Ok(())
    }

    /// Changes the size of a terminal.
    pub fn resize(&mut self, session_id: &str, size: TerminalSize) -> (res: Result<(), SessionError>)
        requires
            old(self).wf(),
        ensures
            final(self).wf(),
            match resize_refusal(old(self)@, session_id@, size) {
                Some(error) => res == Err::<(), SessionError>(error) && final(self)@ == old(self)@,
                None => res is Ok && final(self)@ == old(self)@.insert(
                    session_id@,
                    old(self)@[session_id@].resized(size),
                ),
            },
    {
        if !size.is_valid() {
            return Err(SessionError::InvalidSize);
        }
        if let Err(error) = self.open_record(session_id) {
            return Err(error);
        }
        let mut record = match self.take(session_id) {
            Some(record) => record,
            None => {
                return Err(SessionError::SessionNotFound);
            },
        };
        let ghost before = record.model();
        record.size = size;
        self.put(session_id, record);
        assert(self@ =~= old(self)@.insert(session_id@, before.resized(size)));
        Ok(())
    }

    fn record(&self, session_id: &str) -> (res: Result<&SessionRecord, SessionError>)
        requires
            self.wf(),
        ensures
            match res {
                Ok(record) => self@.contains_key(session_id@) && record.wf() && record.model()
                    == self@[session_id@],
                Err(error) => !self@.contains_key(session_id@) && error
                    == SessionError::SessionNotFound,
            },
    {
        match self.sessions.get(session_id) {
            Some(record) => Ok(record),
            None => Err(SessionError::SessionNotFound),
        }
    }

    /// Where a session is in its lifecycle.
    pub fn state(&self, session_id: &str) -> (res: Result<SessionState, SessionError>)
        requires
            self.wf(),
        ensures
            res == (if self@.contains_key(session_id@) {
                Ok::<SessionState, SessionError>(self@[session_id@].state)
            } else {
                Err(SessionError::SessionNotFound)
            }),
    {
        match self.record(session_id) {
            Ok(record) => Ok(record.state),
            Err(error) => Err(error),
        }
    }

    /// The role of a device in a session, where it is attached.
    pub fn role(&self, session_id: &str, device_id: &str) -> (res: Result<
        Option<AttachRole>,
        SessionError,
    >)
        requires
            self.wf(),
        ensures
            res == (if !self@.contains_key(session_id@) {
                Err::<Option<AttachRole>, SessionError>(SessionError::SessionNotFound)
            } else if self@[session_id@].attached_devices.contains_key(device_id@) {
                Ok(Some(self@[session_id@].attached_devices[device_id@]))
            } else {
                Ok(None)
            }),
    {
        match self.record(session_id) {
            Ok(record) => match record.attached_devices.get(device_id) {
                Some(role) => Ok(Some(*role)),
                None => Ok(None),
            },
            Err(error) => Err(error),
        }
    }

    /// The size of the terminal of a session.
    pub fn size(&self, session_id: &str) -> (res: Result<TerminalSize, SessionError>)
        requires
            self.wf(),
        ensures
            res == (if self@.contains_key(session_id@) {
                Ok::<TerminalSize, SessionError>(self@[session_id@].size)
            } else {
                Err(SessionError::SessionNotFound)
            }),
    {
        match self.record(session_id) {
            Ok(record) => Ok(record.size),
            Err(error) => Err(error),
        }
    }
}

// ---------------------------------------------------------------------------
// Laws

/// The lifecycle of a session only goes forward.
pub open spec fn follows(before: SessionState, after: SessionState) -> bool {
    match before {
        SessionState::Created => true,
        SessionState::Running => after != SessionState::Created,
        SessionState::Closed => after == SessionState::Closed,
    }
}

/// No operation takes a session back in its lifecycle.
pub proof fn law_lifecycle_goes_forward(
    record: RecordModel,
    device_id: Seq<char>,
    size: TerminalSize,
)
    ensures
        record.state != SessionState::Closed ==> follows(record.state, record.attached(device_id).state),
        follows(record.state, record.detached(device_id).state),
        follows(record.state, record.closed().state),
        follows(record.state, record.resized(size).state),
{
}

/// A closed session refuses to be attached to, detached from, controlled or resized, and stays closed
/// however often it is closed.
pub proof fn law_closed_is_final(
    sessions: Map<Seq<char>, RecordModel>,
    session_id: Seq<char>,
    device_id: Seq<char>,
    size: TerminalSize,
)
    requires
        sessions.contains_key(session_id),
        sessions[session_id].state == SessionState::Closed,
    ensures
        open_refusal(sessions, session_id) == Some(SessionError::SessionClosed),
        device_refusal(sessions, session_id, device_id) == Some(SessionError::SessionClosed),
        size.valid() ==> resize_refusal(sessions, session_id, size) == Some(
            SessionError::SessionClosed,
        ),
        sessions[session_id].closed().state == SessionState::Closed,
{
}

/// Detaching a device never ends the session, and takes back exactly its attach.
pub proof fn law_detach_keeps_the_session(record: RecordModel, device_id: Seq<char>)
    ensures
        record.detached(device_id).state == record.state,
        record.detached(device_id).size == record.size,
        !record.attached_devices.contains_key(device_id) ==> record.attached(device_id).detached(
            device_id,
        ).attached_devices == record.attached_devices,
{
    if !record.attached_devices.contains_key(device_id) {
        assert(record.attached(device_id).detached(device_id).attached_devices
            =~= record.attached_devices);
    }
}

/// Attaching a device twice is the same as attaching it once.
pub proof fn law_attach_is_idempotent(record: RecordModel, device_id: Seq<char>)
    ensures
        record.attached(device_id).attached(device_id) == record.attached(device_id),
        record.attached(device_id).role_of(device_id) == record.role_of(device_id),
{
    assert(record.attached(device_id).attached(device_id) =~= record.attached(device_id));
}

/// Control is shared: an attached device keeps its role whoever else comes or goes.
pub proof fn law_control_is_shared(record: RecordModel, device_id: Seq<char>, other: Seq<char>)
    requires
        record.attached_devices.contains_key(device_id),
        other != device_id,
    ensures
        record.attached(other).attached_devices.contains_key(device_id),
        record.attached(other).role_of(device_id) == record.role_of(device_id),
        record.detached(other).attached_devices.contains_key(device_id),
        record.detached(other).role_of(device_id) == record.role_of(device_id),
        record.role_of(other) == AttachRole::Operator,
{
}

} // verus!
