//! The daemon's runtime: sessions together with the processes behind them.
//!
//! It connects the session table to a pseudo-terminal backend. Whether a device may do anything at all
//! is decided elsewhere; here an attached device may type, and only an explicit close ends a process.

use crate::collections::{strictly_sorted, StringMap};
use crate::pty::activity::UnixTimestampMillis;
use crate::pty::{
    CommandSpec, PtyBackend, PtyError, PtyRestoreInfo, PtyResult, PtySession, PtySize, PtySnapshot,
    RestoreModel,
};
use crate::session::{
    device_refusal, new_record, open_refusal, AttachRole, RecordModel, SessionError, SessionManager,
    SessionState, TerminalSize,
};
use crate::text::{concat, decimal, format_u64};
use std::time::UNIX_EPOCH;
use uuid::Uuid;
use vstd::prelude::*;

verus! {

/// Result type of the runtime.
pub type RuntimeResult<T> = Result<T, RuntimeError>;

/// Why an operation on the runtime failed.
#[derive(Debug)]
pub enum RuntimeError {
    SessionAlreadyExists,
    SessionNotFound,
    SessionClosed,
    DeviceNotAttached,
    InvalidSize,
    NotReconnectable,
    Pty(PtyError),
}

impl RuntimeError {
    /// Two failures are of the same class; failures of the pseudo-terminal layer are one class.
    pub open spec fn same_class(self, other: RuntimeError) -> bool {
        match (self, other) {
            (RuntimeError::SessionAlreadyExists, RuntimeError::SessionAlreadyExists) => true,
            (RuntimeError::SessionNotFound, RuntimeError::SessionNotFound) => true,
            (RuntimeError::SessionClosed, RuntimeError::SessionClosed) => true,
            (RuntimeError::DeviceNotAttached, RuntimeError::DeviceNotAttached) => true,
            (RuntimeError::InvalidSize, RuntimeError::InvalidSize) => true,
            (RuntimeError::NotReconnectable, RuntimeError::NotReconnectable) => true,
            (RuntimeError::Pty(_), RuntimeError::Pty(_)) => true,
            _ => false,
        }
    }

    /// The message shown to users.
    pub open spec fn text(self) -> Seq<char> {
        match self {
            RuntimeError::SessionAlreadyExists => "session already exists"@,
            RuntimeError::SessionNotFound => "session not found"@,
            RuntimeError::SessionClosed => "session is closed"@,
            RuntimeError::DeviceNotAttached => "device is not attached"@,
            RuntimeError::InvalidSize => "terminal size must have non-zero rows and cols"@,
            RuntimeError::NotReconnectable => "session does not contain reconnect metadata"@,
            RuntimeError::Pty(error) => error@.text(),
        }
    }

    /// The message shown to users.
    pub fn to_string(&self) -> (text: String)
        ensures
            text@ == self.text(),
    {
        match self {
            RuntimeError::SessionAlreadyExists => "session already exists".to_owned(),
            RuntimeError::SessionNotFound => "session not found".to_owned(),
            RuntimeError::SessionClosed => "session is closed".to_owned(),
            RuntimeError::DeviceNotAttached => "device is not attached".to_owned(),
            RuntimeError::InvalidSize => {
                "terminal size must have non-zero rows and cols".to_owned()
            },
            RuntimeError::NotReconnectable => {
                "session does not contain reconnect metadata".to_owned()
            },
            RuntimeError::Pty(error) => error.to_string(),
        }
    }
}

impl PartialEq for RuntimeError {
    fn eq(&self, other: &Self) -> (equal: bool) {
        match (self, other) {
            (RuntimeError::SessionAlreadyExists, RuntimeError::SessionAlreadyExists) => true,
            (RuntimeError::SessionNotFound, RuntimeError::SessionNotFound) => true,
            (RuntimeError::SessionClosed, RuntimeError::SessionClosed) => true,
            (RuntimeError::DeviceNotAttached, RuntimeError::DeviceNotAttached) => true,
            (RuntimeError::InvalidSize, RuntimeError::InvalidSize) => true,
            (RuntimeError::NotReconnectable, RuntimeError::NotReconnectable) => true,
            (RuntimeError::Pty(_), RuntimeError::Pty(_)) => true,
            _ => false,
        }
    }
}

impl vstd::std_specs::cmp::PartialEqSpecImpl for RuntimeError {
    open spec fn obeys_eq_spec() -> bool {
        true
    }

    open spec fn eq_spec(&self, other: &RuntimeError) -> bool {
        self.same_class(*other)
    }
}

/// A refusal of the session table, as the runtime reports it.
pub open spec fn from_session_error(error: SessionError) -> RuntimeError {
    match error {
        SessionError::SessionAlreadyExists => RuntimeError::SessionAlreadyExists,
        SessionError::SessionNotFound => RuntimeError::SessionNotFound,
        SessionError::SessionClosed => RuntimeError::SessionClosed,
        SessionError::DeviceNotAttached => RuntimeError::DeviceNotAttached,
        SessionError::InvalidSize => RuntimeError::InvalidSize,
    }
}

impl From<SessionError> for RuntimeError {
    fn from(error: SessionError) -> (res: Self) {
        match error {
            SessionError::SessionAlreadyExists => RuntimeError::SessionAlreadyExists,
            SessionError::SessionNotFound => RuntimeError::SessionNotFound,
            SessionError::SessionClosed => RuntimeError::SessionClosed,
            SessionError::DeviceNotAttached => RuntimeError::DeviceNotAttached,
            SessionError::InvalidSize => RuntimeError::InvalidSize,
        }
    }
}

impl vstd::std_specs::convert::FromSpecImpl<SessionError> for RuntimeError {
    open spec fn obeys_from_spec() -> bool {
        true
    }

    open spec fn from_spec(error: SessionError) -> RuntimeError {
        from_session_error(error)
    }
}

impl From<PtyError> for RuntimeError {
    fn from(error: PtyError) -> (res: Self) {
        RuntimeError::Pty(error)
    }
}

impl vstd::std_specs::convert::FromSpecImpl<PtyError> for RuntimeError {
    open spec fn obeys_from_spec() -> bool {
        true
    }

    open spec fn from_spec(error: PtyError) -> RuntimeError {
        RuntimeError::Pty(error)
    }
}

// ---------------------------------------------------------------------------
// Time, ids and sizes

/// The time since the Unix epoch in milliseconds, from `std::time::SystemTime::elapsed`; a clock before
/// the epoch gives nothing.
///
/// Nothing is claimed of the number.
#[verifier::external_body]
fn unix_elapsed_millis() -> (millis: Option<u128>) {
    UNIX_EPOCH.elapsed().ok().map(|elapsed| elapsed.as_millis())
}

/// Reading the clock may give this many milliseconds since the epoch.
pub closed spec fn may_have_elapsed(millis: Option<u128>) -> bool {
    call_ensures(unix_elapsed_millis, (), millis)
}

/// The timestamp for a time since the epoch; zero where the clock is before it.
pub open spec fn timestamp_of(elapsed_millis: Option<u128>) -> UnixTimestampMillis {
    match elapsed_millis {
        Some(millis) => UnixTimestampMillis(millis as u64),
        None => UnixTimestampMillis(0),
    }
}

/// The timestamp for a time since the epoch; zero where the clock is before it.
pub fn timestamp_for(elapsed_millis: Option<u128>) -> (now: UnixTimestampMillis)
    ensures
        now == timestamp_of(elapsed_millis),
{
    match elapsed_millis {
        Some(millis) => UnixTimestampMillis(millis as u64),
        None => UnixTimestampMillis(0),
    }
}

/// The current time: the timestamp for what the clock says.
pub fn current_unix_timestamp_millis() -> (now: UnixTimestampMillis)
    ensures
        exists|millis: Option<u128>| #[trigger]
            may_have_elapsed(millis) && now == timestamp_of(millis),
{
    let millis = unix_elapsed_millis();
    assert(may_have_elapsed(millis));
    timestamp_for(millis)
}

/// The canonical form of a text that is a UUID.
pub uninterp spec fn canonical_uuid(text: Seq<char>) -> Option<Seq<char>>;

/// Reads a UUID with `uuid::Uuid::parse_str` and writes it out again in its canonical form.
///
/// The result is a function of the text.
#[verifier::external_body]
fn parse_uuid(text: &str) -> (id: Option<String>)
    ensures
        (match id {
            Some(canonical) => Some(canonical@),
            None => None,
        }) == canonical_uuid(text@),
{
    Uuid::parse_str(text).ok().map(|id| id.to_string())
}

/// The size of the pseudo-terminal for a terminal size.
pub open spec fn pty_size_of(size: TerminalSize) -> PtySize {
    PtySize {
        rows: size.rows,
        cols: size.cols,
        pixel_width: size.pixel_width,
        pixel_height: size.pixel_height,
    }
}

/// The size of the pseudo-terminal for a terminal size, which must not be empty.
pub fn terminal_size_to_pty_size(size: TerminalSize) -> (res: RuntimeResult<PtySize>)
    ensures
        res is Ok <==> size.valid(),
        res matches Ok(s) ==> s == pty_size_of(size),
        res matches Err(e) ==> e is InvalidSize,
{
    if !size.is_valid() {
        return Err(RuntimeError::InvalidSize);
    }
    Ok(PtySize::with_pixels(size.rows, size.cols, size.pixel_width, size.pixel_height))
}

// ---------------------------------------------------------------------------
// Records

/// What is kept of a session over a restart. The session id is a UUID in its canonical form.
#[derive(Debug)]
pub struct SessionStateRecord {
    pub session_id: String,
    pub state: SessionState,
    pub size: TerminalSize,
    pub created_at_ms: UnixTimestampMillis,
    pub updated_at_ms: UnixTimestampMillis,
    pub restore_info: Option<PtyRestoreInfo>,
}

/// What a [`SessionStateRecord`] says.
pub struct StateRecordModel {
    pub session_id: Seq<char>,
    pub state: SessionState,
    pub size: TerminalSize,
    pub created_at_ms: UnixTimestampMillis,
    pub updated_at_ms: UnixTimestampMillis,
    pub restore_info: Option<RestoreModel>,
}

/// What is known of how to find a process again.
pub open spec fn optional_restore(info: Option<PtyRestoreInfo>) -> Option<RestoreModel> {
    match info {
        Some(i) => Some(i@),
        None => None,
    }
}

impl View for SessionStateRecord {
    type V = StateRecordModel;

    open spec fn view(&self) -> StateRecordModel {
        StateRecordModel {
            session_id: self.session_id@,
            state: self.state,
            size: self.size,
            created_at_ms: self.created_at_ms,
            updated_at_ms: self.updated_at_ms,
            restore_info: optional_restore(self.restore_info),
        }
    }
}

struct RuntimeSession<S> {
    pty: S,
    created_at_ms: UnixTimestampMillis,
    updated_at_ms: UnixTimestampMillis,
}

/// When a running session was created and last changed.
pub struct RunningModel {
    pub created_at_ms: UnixTimestampMillis,
    pub updated_at_ms: UnixTimestampMillis,
}

impl<S> RuntimeSession<S> {
    spec fn model(&self) -> RunningModel {
        RunningModel { created_at_ms: self.created_at_ms, updated_at_ms: self.updated_at_ms }
    }
}

/// The sessions of a daemon and the processes behind them.
pub struct SessionRuntime<B: PtyBackend> {
    backend: B,
    sessions: SessionManager,
    runtime_sessions: StringMap<RuntimeSession<B::Session>>,
    next_session_number: u64,
}

/// The content of a [`SessionRuntime`], apart from the processes themselves.
#[verifier::ext_equal]
pub struct RuntimeModel {
    pub sessions: Map<Seq<char>, RecordModel>,
    pub running: Map<Seq<char>, RunningModel>,
    pub next_session_number: u64,
}

impl<B: PtyBackend> View for SessionRuntime<B> {
    type V = RuntimeModel;

    closed spec fn view(&self) -> RuntimeModel {
        RuntimeModel {
            sessions: self.sessions@,
            running: self.runtime_sessions@.map_values(
                |session: RuntimeSession<B::Session>| session.model(),
            ),
            next_session_number: self.next_session_number,
        }
    }
}

/// The name of the session with a number.
pub open spec fn numbered_session(number: u64) -> Seq<char> {
    "session-"@ + decimal(number as nat)
}

impl RuntimeModel {
    /// A session with a process is known and not closed.
    pub open spec fn wf(self) -> bool {
        forall|id: Seq<char>| #[trigger]
            self.running.contains_key(id) ==> self.sessions.contains_key(id)
                && self.sessions[id].state != SessionState::Closed
    }

    /// Why an operation on an open session fails, if it does.
    pub open spec fn refusal(self, session_id: Seq<char>) -> Option<RuntimeError> {
        match open_refusal(self.sessions, session_id) {
            Some(error) => Some(from_session_error(error)),
            None => if self.running.contains_key(session_id) {
                None
            } else {
                Some(RuntimeError::SessionNotFound)
            },
        }
    }

    /// A number is the first from the next one on whose session has no process.
    pub open spec fn first_free(self, n: u64) -> bool {
        &&& self.next_session_number <= n < u64::MAX
        &&& !self.running.contains_key(numbered_session(n))
        &&& forall|k: u64|
            self.next_session_number <= k < n ==> self.running.contains_key(
                #[trigger] numbered_session(k),
            )
    }

    /// A number is used up.
    pub open spec fn numbered(self, n: u64) -> RuntimeModel {
        RuntimeModel { next_session_number: (n + 1) as u64, ..self }
    }

    /// A session with a process, as it was just created.
    pub open spec fn created(
        self,
        session_id: Seq<char>,
        size: TerminalSize,
        now: UnixTimestampMillis,
    ) -> RuntimeModel {
        RuntimeModel {
            sessions: self.sessions.insert(session_id, new_record().resized(size)),
            running: self.running.insert(
                session_id,
                RunningModel { created_at_ms: now, updated_at_ms: now },
            ),
            ..self
        }
    }

    /// A session without a process any longer.
    pub open spec fn closed(self, session_id: Seq<char>) -> RuntimeModel {
        RuntimeModel {
            sessions: self.sessions.insert(session_id, self.sessions[session_id].closed()),
            running: self.running.remove(session_id),
            ..self
        }
    }

    /// A session of another size.
    pub open spec fn resized(
        self,
        session_id: Seq<char>,
        size: TerminalSize,
        now: UnixTimestampMillis,
    ) -> RuntimeModel {
        RuntimeModel {
            sessions: self.sessions.insert(session_id, self.sessions[session_id].resized(size)),
            running: self.running.insert(
                session_id,
                RunningModel { updated_at_ms: now, ..self.running[session_id] },
            ),
            ..self
        }
    }

    /// The sessions after a recorded one was taken up again. One that was running runs, with nobody
    /// attached.
    pub open spec fn taken_up(self, record: StateRecordModel) -> RuntimeModel {
        RuntimeModel {
            sessions: self.sessions.insert(
                record.session_id,
                RecordModel {
                    state: if record.state == SessionState::Running {
                        SessionState::Running
                    } else {
                        SessionState::Created
                    },
                    ..new_record().resized(record.size)
                },
            ),
            running: self.running.insert(
                record.session_id,
                RunningModel {
                    created_at_ms: record.created_at_ms,
                    updated_at_ms: record.updated_at_ms,
                },
            ),
            ..self
        }
    }

    /// The record to keep of a session, given how to find its process again.
    pub open spec fn record_of(
        self,
        session_id: Seq<char>,
        restore_info: Option<RestoreModel>,
    ) -> Option<StateRecordModel> {
        match (restore_info, canonical_uuid(session_id)) {
            (Some(info), Some(id)) => Some(
                StateRecordModel {
                    session_id: id,
                    state: self.sessions[session_id].state,
                    size: self.sessions[session_id].size,
                    created_at_ms: self.running[session_id].created_at_ms,
                    updated_at_ms: self.running[session_id].updated_at_ms,
                    restore_info: Some(info),
                },
            ),
            _ => None,
        }
    }
}

/// A result that fails with a given failure.
pub open spec fn fails_with<T>(res: RuntimeResult<T>, error: RuntimeError) -> bool {
    res == Err::<T, RuntimeError>(error)
}

/// What a process answered, as the runtime reports it.
pub open spec fn reported<T>(answer: PtyResult<T>) -> RuntimeResult<T> {
    match answer {
        Ok(value) => Ok(value),
        Err(error) => Err(RuntimeError::Pty(error)),
    }
}

/// A backend may give an answer when it is asked to start a process for a session.
pub open spec fn spawn_answer<B: PtyBackend>(
    host: B,
    session_id: Seq<char>,
    command: CommandSpec,
    size: TerminalSize,
    answer: PtyResult<B::Session>,
) -> bool {
    exists|id: &str|
        id@ == session_id && #[trigger] call_ensures(
            B::spawn_named,
            (&host, id, &command, pty_size_of(size)),
            answer,
        )
}

/// A backend may give an answer when it is asked for the process of a recorded session.
pub open spec fn reconnect_answer<B: PtyBackend>(
    host: B,
    record: SessionStateRecord,
    answer: PtyResult<B::Session>,
) -> bool {
    exists|id: &str|
        id@ == record@.session_id && #[trigger] call_ensures(
            B::reconnect,
            (&host, id, &record.restore_info->0, pty_size_of(record.size)),
            answer,
        )
}

/// Why a recorded session is not taken up, without any backend being asked.
pub open spec fn record_refusal(runtime: RuntimeModel, record: StateRecordModel) -> Option<RuntimeError> {
    if runtime.running.contains_key(record.session_id) {
        Some(RuntimeError::SessionAlreadyExists)
    } else if record.state == SessionState::Closed {
        Some(RuntimeError::SessionClosed)
    } else if record.restore_info is None {
        Some(RuntimeError::NotReconnectable)
    } else {
        None
    }
}

/// What the answer of a backend to the wish for a new process makes of the runtime.
pub open spec fn created_with<S>(
    before: (RuntimeModel, Map<Seq<char>, S>),
    after: (RuntimeModel, Map<Seq<char>, S>),
    session_id: Seq<char>,
    size: TerminalSize,
    spawned: PtyResult<S>,
    res: RuntimeResult<()>,
) -> bool {
    match spawned {
        Err(error) => fails_with(res, RuntimeError::Pty(error)) && after == before,
        Ok(process) => if before.0.sessions.contains_key(session_id) {
            fails_with(res, RuntimeError::SessionAlreadyExists) && after == before
        } else {
            &&& res is Ok
            &&& exists|millis: Option<u128>| #[trigger]
                may_have_elapsed(millis) && after.0 == before.0.created(
                    session_id,
                    size,
                    timestamp_of(millis),
                )
            &&& after.1 == before.1.insert(session_id, process)
        },
    }
}

/// What the answer of a backend to the wish for a known process makes of the runtime.
pub open spec fn taken_up_with<S>(
    before: (RuntimeModel, Map<Seq<char>, S>),
    after: (RuntimeModel, Map<Seq<char>, S>),
    record: StateRecordModel,
    connected: PtyResult<S>,
    res: RuntimeResult<()>,
) -> bool {
    let id = record.session_id;
    match connected {
        Err(error) => fails_with(res, RuntimeError::Pty(error)) && after == before,
        Ok(process) => if before.0.sessions.contains_key(id) {
            fails_with(res, RuntimeError::SessionAlreadyExists) && after == before
        } else if !record.size.valid() {
            &&& fails_with(res, RuntimeError::InvalidSize)
            &&& after.0 == (RuntimeModel {
                sessions: before.0.sessions.insert(id, new_record()),
                ..before.0
            })
            &&& after.1 == before.1
        } else {
            &&& res is Ok
            &&& after.0 == before.0.taken_up(record)
            &&& after.1 == before.1.insert(id, process)
        },
    }
}

/// The records to keep of some sessions, given how to find the process of each again.
pub open spec fn kept_records(
    runtime: RuntimeModel,
    ids: Seq<Seq<char>>,
    infos: Seq<Option<PtyRestoreInfo>>,
) -> Seq<StateRecordModel>
    decreases ids.len(),
{
    if ids.len() == 0 {
        Seq::empty()
    } else {
        let before = kept_records(runtime, ids.drop_last(), infos.drop_last());
        match runtime.record_of(ids.last(), optional_restore(infos.last())) {
            Some(record) => before.push(record),
            None => before,
        }
    }
}

/// Records by their contents.
pub open spec fn record_models(records: Seq<SessionStateRecord>) -> Seq<StateRecordModel> {
    Seq::new(records.len(), |i: int| records[i]@)
}

impl<B: PtyBackend> SessionRuntime<B> {
    /// The tables are in order, and a session with a process is known and not closed.
    pub closed spec fn wf(&self) -> bool {
        &&& self.sessions.wf()
        &&& self.runtime_sessions.wf()
        &&& self@.wf()
    }

    /// The backend that starts and finds the processes.
    pub closed spec fn host(&self) -> B {
        self.backend
    }

    /// The processes of the sessions.
    pub closed spec fn processes(&self) -> Map<Seq<char>, B::Session> {
        self.runtime_sessions@.map_values(|session: RuntimeSession<B::Session>| session.pty)
    }

    /// The content of the runtime together with the processes.
    pub open spec fn whole(&self) -> (RuntimeModel, Map<Seq<char>, B::Session>) {
        (self@, self.processes())
    }

    /// A session with a process is known and not closed.
    pub proof fn lemma_wf(&self)
        requires
            self.wf(),
        ensures
            self@.wf(),
            self.processes().dom() == self@.running.dom(),
    {
        assert(self.processes().dom() =~= self@.running.dom());
    }

    /// A runtime without sessions.
    pub fn new(backend: B) -> (runtime: Self)
        ensures
            runtime.wf(),
            runtime@ == (RuntimeModel {
                sessions: Map::empty(),
                running: Map::empty(),
                next_session_number: 1,
            }),
            runtime.processes() == Map::<Seq<char>, B::Session>::empty(),
            runtime.host() == backend,
    {
        let runtime = SessionRuntime {
            backend,
            sessions: SessionManager::default(),
            runtime_sessions: StringMap::new(),
            next_session_number: 1,
        };
        assert(runtime@.running =~= Map::<Seq<char>, RunningModel>::empty());
        assert(runtime.processes() =~= Map::<Seq<char>, B::Session>::empty());
        runtime
    }

    fn allocate_session_id(&mut self) -> (session_id: String)
        requires
            old(self).wf(),
            exists|n: u64| #[trigger] old(self)@.first_free(n),
        ensures
            final(self).wf(),
            exists|n: u64| #[trigger]
                old(self)@.first_free(n) && session_id@ == numbered_session(n) && final(self)@
                    == old(self)@.numbered(n),
            final(self).processes() == old(self).processes(),
            final(self).host() == old(self).host(),
    {
        let ghost start = self.next_session_number;
        let ghost free = choose|n: u64| #[trigger] self@.first_free(n);
        loop
            invariant
                self.wf(),
                old(self)@.first_free(free),
                old(self)@.next_session_number == start,
                start <= self.next_session_number <= free,
                self@ == (RuntimeModel {
                    next_session_number: self.next_session_number,
                    ..old(self)@
                }),
                self.processes() == old(self).processes(),
                self.host() == old(self).host(),
            decreases u64::MAX - self.next_session_number,
        {
            let number: u64 = self.next_session_number;
            let ghost before = self@;
            assert(before.wf());
            let session_id = concat("session-", format_u64(number).as_str());
            assert(session_id@ == numbered_session(number));
            self.next_session_number = number + 1;
            assert(self@ =~= (RuntimeModel { next_session_number: (number + 1) as u64, ..old(self)@ }));
            assert(self@.wf()) by {
                assert forall|id: Seq<char>| #[trigger] self@.running.contains_key(id) implies self@.sessions.contains_key(
                    id,
                ) && self@.sessions[id].state != SessionState::Closed by {
                    assert(before.running.contains_key(id));
                }
            }
            if !self.runtime_sessions.contains(session_id.as_str()) {
                assert(!old(self)@.running.contains_key(numbered_session(number)));
                assert(number == free);
                return session_id;
            }
            assert(old(self)@.running.contains_key(numbered_session(number)));
        }
    }

    /// Creates a session under the next free number and starts its process. Nobody is attached to it
    /// yet.
    ///
    /// The number is used up even if the process cannot be started.
    pub fn create_session(&mut self, command: CommandSpec, size: TerminalSize) -> (res: RuntimeResult<
        String,
    >)
        requires
            old(self).wf(),
            exists|n: u64| #[trigger] old(self)@.first_free(n),
        ensures
            final(self).wf(),
            final(self).host() == old(self).host(),
            exists|n: u64| #[trigger]
                old(self)@.first_free(n) && {
                    let numbered = (old(self)@.numbered(n), old(self).processes());
                    if !size.valid() {
                        fails_with(res, RuntimeError::InvalidSize) && final(self).whole() == numbered
                    } else {
                        &&& res matches Ok(id) ==> id@ == numbered_session(n)
                        &&& exists|spawned: PtyResult<B::Session>| #[trigger]
                            spawn_answer(
                                old(self).host(),
                                numbered_session(n),
                                command,
                                size,
                                spawned,
                            ) && created_with(
                                numbered,
                                final(self).whole(),
                                numbered_session(n),
                                size,
                                spawned,
                                match res {
                                    Ok(_) => Ok(()),
                                    Err(error) => Err(error),
                                },
                            )
                    }
                },
    {
        let session_id = self.allocate_session_id();
        let ghost n = choose|n: u64| #[trigger]
            old(self)@.first_free(n) && session_id@ == numbered_session(n) && self@ == old(
                self,
            )@.numbered(n);
        match self.create_session_with_id(session_id.as_str(), command, size) {
            Ok(()) => {
                assert(old(self)@.first_free(n));
                Ok(session_id)
            },
            Err(error) => {
                assert(old(self)@.first_free(n));
                Err(error)
            },
        }
    }

    /// Creates a session under a given id and starts its process. The session is known only once its
    /// process runs.
    pub fn create_session_with_id(
        &mut self,
        session_id: &str,
        command: CommandSpec,
        size: TerminalSize,
    ) -> (res: RuntimeResult<()>)
        requires
            old(self).wf(),
        ensures
            final(self).wf(),
            final(self).host() == old(self).host(),
            if !size.valid() {
                fails_with(res, RuntimeError::InvalidSize) && final(self).whole() == old(self).whole()
            } else if old(self)@.running.contains_key(session_id@) {
                &&& fails_with(res, RuntimeError::SessionAlreadyExists)
                &&& final(self).whole() == old(self).whole()
            } else {
                exists|spawned: PtyResult<B::Session>| #[trigger]
                    spawn_answer(old(self).host(), session_id@, command, size, spawned) && created_with(
                        old(self).whole(),
                        final(self).whole(),
                        session_id@,
                        size,
                        spawned,
                        res,
                    )
            },
    {
        let pty_size: PtySize = match terminal_size_to_pty_size(size) {
            Ok(pty_size) => pty_size,
            Err(error) => {
                return Err(error);
            },
        };
        if self.runtime_sessions.contains(session_id) {
            return Err(RuntimeError::SessionAlreadyExists);
        }
        let spawned = self.backend.spawn_named(session_id, &command, pty_size);
        assert(spawn_answer(self.host(), session_id@, command, size, spawned));
        let now = current_unix_timestamp_millis();
        self.finish_create(session_id, size, now, spawned)
    }

    /// A process was started for a session, or not: the session is added, or the failure is reported.
    pub fn finish_create(
        &mut self,
        session_id: &str,
        size: TerminalSize,
        now: UnixTimestampMillis,
        spawned: PtyResult<B::Session>,
    ) -> (res: RuntimeResult<()>)
        requires
            old(self).wf(),
            size.valid(),
            !old(self)@.running.contains_key(session_id@),
        ensures
            final(self).wf(),
            final(self).host() == old(self).host(),
            match spawned {
                Err(error) => fails_with(res, RuntimeError::Pty(error)) && final(self).whole() == old(
                    self,
                ).whole(),
                Ok(process) => if old(self)@.sessions.contains_key(session_id@) {
                    &&& fails_with(res, RuntimeError::SessionAlreadyExists)
                    &&& final(self).whole() == old(self).whole()
                } else {
                    &&& res is Ok
                    &&& final(self)@ == old(self)@.created(session_id@, size, now)
                    &&& final(self).processes() == old(self).processes().insert(session_id@, process)
                },
            },
    {
        let pty = match spawned {
            Ok(pty) => pty,
            Err(error) => {
                return Err(RuntimeError::Pty(error));
            },
        };
        if let Err(error) = self.sessions.create_session(session_id) {
            return Err(RuntimeError::from(error));
        }
        if let Err(error) = self.sessions.resize(session_id, size) {
            return Err(RuntimeError::from(error));
        }
        self.runtime_sessions.insert(
            session_id.to_owned(),
            RuntimeSession { pty, created_at_ms: now, updated_at_ms: now },
        );
        assert(self@.sessions =~= old(self)@.created(session_id@, size, now).sessions);
        assert(self@.running =~= old(self)@.created(session_id@, size, now).running);
        assert(self.processes() =~= old(self).processes().insert(session_id@, pty));
        Ok(())
    }

    /// Takes a recorded session up again, whose process is still alive.
    pub fn reconnect_session(&mut self, record: &SessionStateRecord) -> (res: RuntimeResult<()>)
        requires
            old(self).wf(),
        ensures
            final(self).wf(),
            final(self).host() == old(self).host(),
            match record_refusal(old(self)@, record@) {
                Some(error) => fails_with(res, error) && final(self).whole() == old(self).whole(),
                None => exists|connected: PtyResult<B::Session>| #[trigger]
                    reconnect_answer(old(self).host(), *record, connected) && taken_up_with(
                        old(self).whole(),
                        final(self).whole(),
                        record@,
                        connected,
                        res,
                    ),
            },
    {
        let session_id = record.session_id.as_str();
        if self.runtime_sessions.contains(session_id) {
            return Err(RuntimeError::SessionAlreadyExists);
        }
        if record.state == SessionState::Closed {
            return Err(RuntimeError::SessionClosed);
        }
        let restore_info = match &record.restore_info {
            Some(info) => info,
            None => {
                return Err(RuntimeError::NotReconnectable);
            },
        };
        let pty_size = PtySize::with_pixels(
            record.size.rows,
            record.size.cols,
            record.size.pixel_width,
            record.size.pixel_height,
        );
        let connected = self.backend.reconnect(session_id, restore_info, pty_size);
        proof {
            assert(pty_size == pty_size_of(record.size));
            assert(call_ensures(
                B::reconnect,
                (&self.host(), session_id, &record.restore_info->0, pty_size),
                connected,
            ));
            assert(reconnect_answer(self.host(), *record, connected));
        }
        self.finish_reconnect(record, connected)
    }

    /// The process of a recorded session was reached, or not: the session is added, or the failure is
    /// reported.
    pub fn finish_reconnect(
        &mut self,
        record: &SessionStateRecord,
        connected: PtyResult<B::Session>,
    ) -> (res: RuntimeResult<()>)
        requires
            old(self).wf(),
            !old(self)@.running.contains_key(record@.session_id),
            record@.state != SessionState::Closed,
        ensures
            final(self).wf(),
            final(self).host() == old(self).host(),
            taken_up_with(old(self).whole(), final(self).whole(), record@, connected, res),
    {
        let session_id = record.session_id.as_str();
        let pty = match connected {
            Ok(pty) => pty,
            Err(error) => {
                return Err(RuntimeError::Pty(error));
            },
        };
        if let Err(error) = self.sessions.create_session(session_id) {
            return Err(RuntimeError::from(error));
        }
        if let Err(error) = self.sessions.resize(session_id, record.size) {
            assert(self@.sessions =~= old(self)@.sessions.insert(record@.session_id, new_record()));
            assert(self.processes() =~= old(self).processes());
            return Err(RuntimeError::from(error));
        }
        let ghost sized = new_record().resized(record@.size);
        assert(self.sessions@ =~= old(self)@.sessions.insert(record@.session_id, sized));
        if record.state == SessionState::Running {
            // Attaching and detaching a device is what makes a session run.
            let device = concat("__runtime-recovery-", session_id);
            if let Err(error) = self.sessions.attach(session_id, device.as_str()) {
                return Err(RuntimeError::from(error));
            }
            let _ = self.sessions.detach(session_id, device.as_str());
            assert(sized.attached(device@).detached(device@).attached_devices =~= Map::<
                Seq<char>,
                AttachRole,
            >::empty());
        }
        self.runtime_sessions.insert(
            session_id.to_owned(),
            RuntimeSession {
                pty,
                created_at_ms: record.created_at_ms,
                updated_at_ms: record.updated_at_ms,
            },
        );
        assert(self@.sessions =~= old(self)@.taken_up(record@).sessions);
        assert(self@.running =~= old(self)@.taken_up(record@).running);
        assert(self.processes() =~= old(self).processes().insert(record@.session_id, pty));
        Ok(())
    }

    fn ensure_open_session(&self, session_id: &str) -> (res: RuntimeResult<()>)
        requires
            self.wf(),
        ensures
            match self@.refusal(session_id@) {
                Some(error) => fails_with(res, error),
                None => res is Ok,
            },
    {
        match self.sessions.state(session_id) {
            Err(error) => Err(RuntimeError::from(error)),
            Ok(SessionState::Closed) => Err(RuntimeError::SessionClosed),
            Ok(_) => {
                if self.runtime_sessions.contains(session_id) {
                    Ok(())
                } else {
                    Err(RuntimeError::SessionNotFound)
                }
            },
        }
    }

    fn take_session(&mut self, session_id: &str) -> (session: RuntimeSession<B::Session>)
        requires
            old(self).wf(),
            old(self)@.running.contains_key(session_id@),
        ensures
            final(self).wf(),
            final(self)@ == (RuntimeModel {
                running: old(self)@.running.remove(session_id@),
                ..old(self)@
            }),
            session.model() == old(self)@.running[session_id@],
            session.pty == old(self).processes()[session_id@],
            final(self).processes() == old(self).processes().remove(session_id@),
            final(self).host() == old(self).host(),
    {
        let session = self.runtime_sessions.remove(session_id);
        assert(self@.running =~= old(self)@.running.remove(session_id@));
        assert(self.processes() =~= old(self).processes().remove(session_id@));
        session.unwrap()
    }

    fn put_session(&mut self, session_id: &str, session: RuntimeSession<B::Session>)
        requires
            old(self).wf(),
            old(self)@.sessions.contains_key(session_id@),
            old(self)@.sessions[session_id@].state != SessionState::Closed,
        ensures
            final(self).wf(),
            final(self)@ == (RuntimeModel {
                running: old(self)@.running.insert(session_id@, session.model()),
                ..old(self)@
            }),
            final(self).processes() == old(self).processes().insert(session_id@, session.pty),
            final(self).host() == old(self).host(),
    {
        self.runtime_sessions.insert(session_id.to_owned(), session);
        assert(self@.running =~= old(self)@.running.insert(session_id@, session.model()));
        assert(self.processes() =~= old(self).processes().insert(session_id@, session.pty));
    }

    /// Attaches a device to a session.
    pub fn attach(&mut self, session_id: &str, device_id: &str) -> (res: RuntimeResult<AttachRole>)
        requires
            old(self).wf(),
        ensures
            final(self).wf(),
            final(self).processes() == old(self).processes(),
            final(self).host() == old(self).host(),
            match old(self)@.refusal(session_id@) {
                Some(error) => fails_with(res, error) && final(self)@ == old(self)@,
                None => {
                    let record = old(self)@.sessions[session_id@];
                    &&& res matches Ok(role)
                    &&& role == record.role_of(device_id@)
                    &&& final(self)@ == (RuntimeModel {
                        sessions: old(self)@.sessions.insert(
                            session_id@,
                            record.attached(device_id@),
                        ),
                        ..old(self)@
                    })
                },
            },
    {
        if let Err(error) = self.ensure_open_session(session_id) {
            return Err(error);
        }
        match self.sessions.attach(session_id, device_id) {
            Ok(role) => Ok(role),
            Err(error) => Err(RuntimeError::from(error)),
        }
    }

    /// Control is shared, so there is none to take: this only confirms that the device is attached.
    pub fn steal_control(&mut self, session_id: &str, device_id: &str) -> (res: RuntimeResult<()>)
        requires
            old(self).wf(),
        ensures
            final(self).wf(),
            final(self)@ == old(self)@,
            final(self).processes() == old(self).processes(),
            final(self).host() == old(self).host(),
            match old(self)@.refusal(session_id@) {
                Some(error) => fails_with(res, error),
                None => match device_refusal(old(self)@.sessions, session_id@, device_id@) {
                    Some(error) => fails_with(res, from_session_error(error)),
                    None => res is Ok,
                },
            },
    {
        if let Err(error) = self.ensure_open_session(session_id) {
            return Err(error);
        }
        match self.sessions.steal_control(session_id, device_id) {
            Ok(()) => Ok(()),
            Err(error) => Err(RuntimeError::from(error)),
        }
    }

    /// Writes the input of an attached device to the process. Nobody else's input gets there.
    pub fn write_input(&mut self, session_id: &str, device_id: &str, bytes: &[u8]) -> (res:
        RuntimeResult<()>)
        requires
            old(self).wf(),
        ensures
            final(self).wf(),
            final(self)@ == old(self)@,
            final(self).host() == old(self).host(),
            match old(self)@.refusal(session_id@) {
                Some(error) => fails_with(res, error) && final(self).processes() == old(
                    self,
                ).processes(),
                None => if old(self)@.sessions[session_id@].attached_devices.contains_key(
                    device_id@,
                ) {
                    exists|process: &mut B::Session, written: PtyResult<()>|
                        {
                            &&& *process == old(self).processes()[session_id@]
                            &&& #[trigger] call_ensures(
                                <B::Session as PtySession>::write_all,
                                (process, bytes),
                                written,
                            )
                            &&& res == reported(written)
                            &&& final(self).processes() == old(self).processes().insert(
                                session_id@,
                                *final(process),
                            )
                        }
                } else {
                    &&& fails_with(res, RuntimeError::DeviceNotAttached)
                    &&& final(self).processes() == old(self).processes()
                },
            },
    {
        if let Err(error) = self.ensure_open_session(session_id) {
            return Err(error);
        }
        match self.sessions.role(session_id, device_id) {
            Err(error) => Err(RuntimeError::from(error)),
            Ok(None) => Err(RuntimeError::DeviceNotAttached),
            Ok(Some(_)) => {
                let mut session = self.take_session(session_id);
                let written = session.pty.write_all(bytes);
                self.put_session(session_id, session);
                assert(self@.running =~= old(self)@.running);
                assert(self.processes() =~= old(self).processes().insert(session_id@, session.pty));
                match written {
                    Ok(()) => Ok(()),
                    Err(error) => Err(RuntimeError::Pty(error)),
                }
            },
        }
    }

    /// Reads output of the process.
    pub fn read_output(&mut self, session_id: &str, buffer: &mut [u8]) -> (res: RuntimeResult<usize>)
        requires
            old(self).wf(),
        ensures
            final(self).wf(),
            final(self)@ == old(self)@,
            final(self).host() == old(self).host(),
            match old(self)@.refusal(session_id@) {
                Some(error) => {
                    &&& fails_with(res, error)
                    &&& final(buffer)@ == old(buffer)@
                    &&& final(self).processes() == old(self).processes()
                },
                None => exists|process: &mut B::Session, target: &mut [u8], read: PtyResult<usize>|
                    {
                        &&& *process == old(self).processes()[session_id@]
                        &&& target@ == old(buffer)@
                        &&& #[trigger] call_ensures(
                            <B::Session as PtySession>::read,
                            (process, target),
                            read,
                        )
                        &&& res == reported(read)
                        &&& final(buffer)@ == final(target)@
                        &&& final(self).processes() == old(self).processes().insert(
                            session_id@,
                            *final(process),
                        )
                    },
            },
    {
        if let Err(error) = self.ensure_open_session(session_id) {
            return Err(error);
        }
        let mut session = self.take_session(session_id);
        let read = session.pty.read(buffer);
        self.put_session(session_id, session);
        assert(self@.running =~= old(self)@.running);
        assert(self.processes() =~= old(self).processes().insert(session_id@, session.pty));
        match read {
            Ok(count) => Ok(count),
            Err(error) => Err(RuntimeError::Pty(error)),
        }
    }

    /// Changes the size of the process's terminal, and of the session only where that succeeds.
    pub fn resize(&mut self, session_id: &str, size: TerminalSize) -> (res: RuntimeResult<()>)
        requires
            old(self).wf(),
        ensures
            final(self).wf(),
            final(self).host() == old(self).host(),
            if !size.valid() {
                fails_with(res, RuntimeError::InvalidSize) && final(self).whole() == old(self).whole()
            } else {
                match old(self)@.refusal(session_id@) {
                    Some(error) => fails_with(res, error) && final(self).whole() == old(self).whole(),
                    None => exists|process: &mut B::Session, resized: PtyResult<()>|
                        {
                            &&& *process == old(self).processes()[session_id@]
                            &&& #[trigger] call_ensures(
                                <B::Session as PtySession>::resize,
                                (process, pty_size_of(size)),
                                resized,
                            )
                            &&& res == reported(resized)
                            &&& final(self).processes() == old(self).processes().insert(
                                session_id@,
                                *final(process),
                            )
                            &&& match resized {
                                Ok(()) => exists|millis: Option<u128>| #[trigger]
                                    may_have_elapsed(millis) && final(self)@ == old(self)@.resized(
                                        session_id@,
                                        size,
                                        timestamp_of(millis),
                                    ),
                                Err(_) => final(self)@ == old(self)@,
                            }
                        },
                }
            },
    {
        let pty_size: PtySize = match terminal_size_to_pty_size(size) {
            Ok(pty_size) => pty_size,
            Err(error) => {
                return Err(error);
            },
        };
        if let Err(error) = self.ensure_open_session(session_id) {
            return Err(error);
        }
        let mut session = self.take_session(session_id);
        let resized = session.pty.resize(pty_size);
        self.put_session(session_id, session);
        assert(self@ =~= old(self)@);
        assert(self.processes() =~= old(self).processes().insert(session_id@, session.pty));
        let now = current_unix_timestamp_millis();
        self.finish_resize(session_id, size, now, resized)
    }

    /// The terminal of the process has another size, or not: the session follows, or the failure is
    /// reported.
    pub fn finish_resize(
        &mut self,
        session_id: &str,
        size: TerminalSize,
        now: UnixTimestampMillis,
        resized: PtyResult<()>,
    ) -> (res: RuntimeResult<()>)
        requires
            old(self).wf(),
            size.valid(),
            old(self)@.refusal(session_id@) is None,
        ensures
            final(self).wf(),
            final(self).processes() == old(self).processes(),
            final(self).host() == old(self).host(),
            res == reported(resized),
            final(self)@ == (if resized is Ok {
                old(self)@.resized(session_id@, size, now)
            } else {
                old(self)@
            }),
    {
        if let Err(error) = resized {
            return Err(RuntimeError::Pty(error));
        }
        if let Err(error) = self.sessions.resize(session_id, size) {
            return Err(RuntimeError::from(error));
        }
        let mut session = self.take_session(session_id);
        session.updated_at_ms = now;
        self.put_session(session_id, session);
        assert(self@.running =~= old(self)@.resized(session_id@, size, now).running);
        assert(self.processes() =~= old(self).processes());
        Ok(())
    }

    /// Detaches a device. The process goes on, untouched.
    pub fn detach(&mut self, session_id: &str, device_id: &str) -> (res: RuntimeResult<()>)
        requires
            old(self).wf(),
        ensures
            final(self).wf(),
            final(self).processes() == old(self).processes(),
            final(self).host() == old(self).host(),
            match old(self)@.refusal(session_id@) {
                Some(error) => fails_with(res, error) && final(self)@ == old(self)@,
                None => match device_refusal(old(self)@.sessions, session_id@, device_id@) {
                    Some(error) => fails_with(res, from_session_error(error)) && final(self)@ == old(
                        self,
                    )@,
                    None => res is Ok && final(self)@ == (RuntimeModel {
                        sessions: old(self)@.sessions.insert(
                            session_id@,
                            old(self)@.sessions[session_id@].detached(device_id@),
                        ),
                        ..old(self)@
                    }),
                },
            },
    {
        if let Err(error) = self.ensure_open_session(session_id) {
            return Err(error);
        }
        match self.sessions.detach(session_id, device_id) {
            Ok(()) => Ok(()),
            Err(error) => Err(RuntimeError::from(error)),
        }
    }

    /// Ends the process of a session, and closes the session once that succeeded.
    pub fn close(&mut self, session_id: &str) -> (res: RuntimeResult<()>)
        requires
            old(self).wf(),
        ensures
            final(self).wf(),
            final(self).host() == old(self).host(),
            match old(self)@.refusal(session_id@) {
                Some(error) => fails_with(res, error) && final(self).whole() == old(self).whole(),
                None => exists|process: &mut B::Session, ended: PtyResult<()>|
                    {
                        &&& *process == old(self).processes()[session_id@]
                        &&& #[trigger] call_ensures(
                            <B::Session as PtySession>::terminate,
                            (process,),
                            ended,
                        )
                        &&& res == reported(ended)
                        &&& match ended {
                            Ok(()) => {
                                &&& final(self)@ == old(self)@.closed(session_id@)
                                &&& final(self).processes() == old(self).processes().remove(
                                    session_id@,
                                )
                            },
                            Err(_) => {
                                &&& final(self)@ == old(self)@
                                &&& final(self).processes() == old(self).processes().insert(
                                    session_id@,
                                    *final(process),
                                )
                            },
                        }
                    },
            },
    {
        if let Err(error) = self.ensure_open_session(session_id) {
            return Err(error);
        }
        let mut session = self.take_session(session_id);
        let ended = session.pty.terminate();
        self.put_session(session_id, session);
        assert(self@ =~= old(self)@);
        assert(self.processes() =~= old(self).processes().insert(session_id@, session.pty));
        assert(self.processes().remove(session_id@) =~= old(self).processes().remove(session_id@));
        self.finish_close(session_id, ended)
    }

    /// The process of a session has ended, or not: the session is closed, or the failure is reported.
    pub fn finish_close(&mut self, session_id: &str, ended: PtyResult<()>) -> (res: RuntimeResult<()>)
        requires
            old(self).wf(),
            old(self)@.refusal(session_id@) is None,
        ensures
            final(self).wf(),
            final(self).host() == old(self).host(),
            res == reported(ended),
            final(self).whole() == (if ended is Ok {
                (old(self)@.closed(session_id@), old(self).processes().remove(session_id@))
            } else {
                old(self).whole()
            }),
    {
        if let Err(error) = ended {
            return Err(RuntimeError::Pty(error));
        }
        let _ = self.take_session(session_id);
        match self.sessions.close(session_id) {
            Ok(()) => Ok(()),
            Err(error) => Err(RuntimeError::from(error)),
        }
    }

    /// Gives a session up without ending its process; for a close that failed.
    pub fn discard(&mut self, session_id: &str) -> (res: RuntimeResult<()>)
        requires
            old(self).wf(),
        ensures
            final(self).wf(),
            final(self).host() == old(self).host(),
            if old(self)@.running.contains_key(session_id@) {
                &&& res is Ok
                &&& final(self)@ == old(self)@.closed(session_id@)
                &&& final(self).processes() == old(self).processes().remove(session_id@)
            } else {
                &&& fails_with(res, RuntimeError::SessionNotFound)
                &&& final(self).whole() == old(self).whole()
            },
    {
        if !self.runtime_sessions.contains(session_id) {
            return Err(RuntimeError::SessionNotFound);
        }
        let _ = self.take_session(session_id);
        match self.sessions.close(session_id) {
            Ok(()) => Ok(()),
            Err(error) => Err(RuntimeError::from(error)),
        }
    }

    /// Where a session is in its lifecycle.
    pub fn state(&self, session_id: &str) -> (res: RuntimeResult<SessionState>)
        requires
            self.wf(),
        ensures
            if self@.sessions.contains_key(session_id@) {
                res matches Ok(state) && state == self@.sessions[session_id@].state
            } else {
                fails_with(res, RuntimeError::SessionNotFound)
            },
    {
        match self.sessions.state(session_id) {
            Ok(state) => Ok(state),
            Err(error) => Err(RuntimeError::from(error)),
        }
    }

    /// The role of a device in a session, where it is attached.
    pub fn role(&self, session_id: &str, device_id: &str) -> (res: RuntimeResult<Option<AttachRole>>)
        requires
            self.wf(),
        ensures
            if !self@.sessions.contains_key(session_id@) {
                fails_with(res, RuntimeError::SessionNotFound)
            } else {
                let devices = self@.sessions[session_id@].attached_devices;
                res matches Ok(role) && role == (if devices.contains_key(device_id@) {
                    Some(devices[device_id@])
                } else {
                    None
                })
            },
    {
        match self.sessions.role(session_id, device_id) {
            Ok(role) => Ok(role),
            Err(error) => Err(RuntimeError::from(error)),
        }
    }

    /// The size of the terminal of a session.
    pub fn size(&self, session_id: &str) -> (res: RuntimeResult<TerminalSize>)
        requires
            self.wf(),
        ensures
            if self@.sessions.contains_key(session_id@) {
                res matches Ok(size) && size == self@.sessions[session_id@].size
            } else {
                fails_with(res, RuntimeError::SessionNotFound)
            },
    {
        match self.sessions.size(session_id) {
            Ok(size) => Ok(size),
            Err(error) => Err(RuntimeError::from(error)),
        }
    }

    /// The process of a session, where it has a number.
    pub fn process_id(&self, session_id: &str) -> (res: RuntimeResult<Option<u32>>)
        requires
            self.wf(),
        ensures
            if self@.running.contains_key(session_id@) {
                res matches Ok(process_id) && call_ensures(
                    <B::Session as PtySession>::process_id,
                    (&self.processes()[session_id@],),
                    process_id,
                )
            } else {
                fails_with(res, RuntimeError::SessionNotFound)
            },
    {
        match self.runtime_sessions.get(session_id) {
            Some(session) => Ok(session.pty.process_id()),
            None => Err(RuntimeError::SessionNotFound),
        }
    }

    /// The current state of the process's terminal.
    pub fn snapshot(&mut self, session_id: &str) -> (res: RuntimeResult<PtySnapshot>)
        requires
            old(self).wf(),
        ensures
            final(self).wf(),
            final(self)@ == old(self)@,
            final(self).host() == old(self).host(),
            match old(self)@.refusal(session_id@) {
                Some(error) => fails_with(res, error) && final(self).processes() == old(
                    self,
                ).processes(),
                None => exists|process: &mut B::Session, snapshot: PtyResult<PtySnapshot>|
                    {
                        &&& *process == old(self).processes()[session_id@]
                        &&& #[trigger] call_ensures(
                            <B::Session as PtySession>::snapshot,
                            (process,),
                            snapshot,
                        )
                        &&& res == reported(snapshot)
                        &&& final(self).processes() == old(self).processes().insert(
                            session_id@,
                            *final(process),
                        )
                    },
            },
    {
        if let Err(error) = self.ensure_open_session(session_id) {
            return Err(error);
        }
        let mut session = self.take_session(session_id);
        let snapshot = session.pty.snapshot();
        self.put_session(session_id, session);
        assert(self@.running =~= old(self)@.running);
        assert(self.processes() =~= old(self).processes().insert(session_id@, session.pty));
        match snapshot {
            Ok(snapshot) => Ok(snapshot),
            Err(error) => Err(RuntimeError::Pty(error)),
        }
    }

    /// How to find the process of a session again, where that is possible.
    pub fn restore_info(&self, session_id: &str) -> (res: RuntimeResult<Option<PtyRestoreInfo>>)
        requires
            self.wf(),
        ensures
            match self@.refusal(session_id@) {
                Some(error) => fails_with(res, error),
                None => res matches Ok(info) && call_ensures(
                    <B::Session as PtySession>::restore_info,
                    (&self.processes()[session_id@],),
                    info,
                ),
            },
    {
        if let Err(error) = self.ensure_open_session(session_id) {
            return Err(error);
        }
        match self.runtime_sessions.get(session_id) {
            Some(session) => Ok(session.pty.restore_info()),
            None => Err(RuntimeError::SessionNotFound),
        }
    }

    /// The record to keep of a session, given how to find its process again. Only a session with a
    /// process, whose id is a UUID, is kept.
    pub fn persisted_record(&self, session_id: &str, restore_info: Option<PtyRestoreInfo>) -> (record:
        Option<SessionStateRecord>)
        requires
            self.wf(),
            self@.running.contains_key(session_id@),
        ensures
            (match record {
                Some(r) => Some(r@),
                None => None,
            }) == self@.record_of(
                session_id@,
                optional_restore(restore_info),
            ),
    {
        let info = match restore_info {
            Some(info) => info,
            None => {
                return None;
            },
        };
        let id = match parse_uuid(session_id) {
            Some(id) => id,
            None => {
                return None;
            },
        };
        match (
            self.sessions.state(session_id),
            self.sessions.size(session_id),
            self.runtime_sessions.get(session_id),
        ) {
            (Ok(state), Ok(size), Some(session)) => Some(
                SessionStateRecord {
                    session_id: id,
                    state,
                    size,
                    created_at_ms: session.created_at_ms,
                    updated_at_ms: session.updated_at_ms,
                    restore_info: Some(info),
                },
            ),
            _ => None,
        }
    }

    /// The records to keep over a restart, one for each session whose process can be found again, in
    /// the order of the session ids.
    pub fn persisted_sessions(&self) -> (records: Vec<SessionStateRecord>)
        requires
            self.wf(),
        ensures
            exists|ids: Seq<Seq<char>>, infos: Seq<Option<PtyRestoreInfo>>|
                {
                    &&& strictly_sorted(ids)
                    &&& forall|id: Seq<char>|
                        self@.running.contains_key(id) <==> #[trigger] ids.contains(id)
                    &&& infos.len() == ids.len()
                    &&& forall|i: int|
                        0 <= i < ids.len() ==> call_ensures(
                            <B::Session as PtySession>::restore_info,
                            (&self.processes()[ids[i]],),
                            #[trigger] infos[i],
                        )
                    &&& record_models(records@) == #[trigger] kept_records(self@, ids, infos)
                },
    {
        let mut records: Vec<SessionStateRecord> = Vec::new();
        let mut i: usize = 0;
        let ghost ids = self.runtime_sessions.keys();
        let ghost mut infos: Seq<Option<PtyRestoreInfo>> = Seq::empty();
        assert(record_models(records@) =~= kept_records(self@, ids.take(0), infos));
        while i < self.runtime_sessions.len()
            invariant
                self.wf(),
                ids == self.runtime_sessions.keys(),
                i <= ids.len(),
                infos.len() == i,
                forall|k: int|
                    0 <= k < i ==> call_ensures(
                        <B::Session as PtySession>::restore_info,
                        (&self.processes()[ids[k]],),
                        #[trigger] infos[k],
                    ),
                record_models(records@) == kept_records(self@, ids.take(i as int), infos),
            decreases ids.len() - i,
        {
            let session_id = self.runtime_sessions.key_at(i);
            let restore_info = self.runtime_sessions.value_at(i).pty.restore_info();
            let ghost before = infos;
            proof {
                self.runtime_sessions.lemma_positions();
                infos = infos.push(restore_info);
                assert(ids.take(i + 1).drop_last() =~= ids.take(i as int));
                assert(infos.drop_last() =~= before);
            }
            assert(self@.running.contains_key(session_id@));
            if let Some(record) = self.persisted_record(session_id.as_str(), restore_info) {
                let ghost earlier = records@;
                records.push(record);
                assert(record_models(records@) =~= record_models(earlier).push(record@));
            }
            i = i + 1;
        }
        proof {
            self.runtime_sessions.lemma_positions();
            assert(ids.take(i as int) =~= ids);
            assert forall|id: Seq<char>| self@.running.contains_key(id) <==> #[trigger] ids.contains(
                id,
            ) by {
                assert(self@.running.contains_key(id) == self.runtime_sessions@.contains_key(id));
            }
        }
        records
    }
}

impl<B: PtyBackend + Default> Default for SessionRuntime<B> {
    fn default() -> (runtime: Self)
        ensures
            runtime.wf(),
            runtime@ == (RuntimeModel {
                sessions: Map::empty(),
                running: Map::empty(),
                next_session_number: 1,
            }),
            runtime.processes() == Map::<Seq<char>, B::Session>::empty(),
            call_ensures(B::default, (), runtime.host()),
    {
        SessionRuntime::new(B::default())
    }
}

// ---------------------------------------------------------------------------
// Laws

/// Neither a detach nor anything else but a close, or giving a session up, takes its process away.
pub proof fn law_only_close_ends_a_process(
    runtime: RuntimeModel,
    session_id: Seq<char>,
    size: TerminalSize,
    now: UnixTimestampMillis,
    other: Seq<char>,
)
    requires
        runtime.running.contains_key(session_id),
    ensures
        runtime.created(other, size, now).running.contains_key(session_id),
        runtime.resized(other, size, now).running.contains_key(session_id),
        other != session_id ==> runtime.closed(other).running.contains_key(session_id),
        !runtime.closed(session_id).running.contains_key(session_id),
{
}

/// A closed session refuses everything, whoever asks.
pub proof fn law_closed_session_is_refused(runtime: RuntimeModel, session_id: Seq<char>)
    requires
        runtime.running.contains_key(session_id),
        runtime.wf(),
    ensures
        runtime.closed(session_id).refusal(session_id) == Some(RuntimeError::SessionClosed),
        runtime.closed(session_id).wf(),
{
}

} // verus!
