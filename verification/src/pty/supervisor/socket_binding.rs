//! Publishing a socket in the runtime directory.
//!
//! A socket is bound under a temporary name, closed to everybody else, and only then linked to its
//! name, so that no other process ever sees it open. Whatever goes wrong, only what this process put
//! there is removed again.

use crate::codec::{base64_url_encode, base64_url_text, draw_random_bytes, may_be_drawn};
use crate::paths::{path_file_name, path_file_name_text, path_parent, path_parent_text};
use crate::pty::supervisor::runtime_dir::UNIX_SOCKET_PATH_MAX_BYTES;
use crate::pty::supervisor::secure_dir::{
    check_socket_identity, path_error, path_failure, SupervisorPathIdentity, SUPERVISOR_SOCKET_MODE,
};
use crate::pty::{IoError, IoErrorKind, PtyError, PtyErrorModel, PtyResult};
use crate::text::{byte_len, concat, concat3, utf8_len};
use vstd::prelude::*;

verus! {

/// How many random bytes a temporary name holds.
pub const SUPERVISOR_SOCKET_TEMP_RANDOM_BYTES: usize = 12;

/// How many temporary names are tried.
pub const SUPERVISOR_SOCKET_TEMP_BIND_ATTEMPTS: u32 = 8;

/// The bytes that a socket address has for a name, with the zero byte that ends it.
pub const SOCKET_NAME_CAPACITY: usize = 108;

/// The directory and the name of a socket.
pub fn socket_location(socket_path: &str) -> (res: PtyResult<(String, String)>)
    ensures
        match path_parent_text(socket_path@) {
            None => res matches Err(e) && e@ == path_failure(
                "supervisor socket path has no runtime directory: "@,
                socket_path@,
            ),
            Some(parent) => match path_file_name_text(socket_path@) {
                None => res matches Err(e) && e@ == path_failure(
                    "supervisor socket path has no file name: "@,
                    socket_path@,
                ),
                Some(name) => res matches Ok((dir, file)) && dir@ == parent && file@ == name,
            },
        },
{
    let parent = match path_parent(socket_path) {
        Some(parent) => parent,
        None => {
            return Err(
                path_error("supervisor socket path has no runtime directory: ", socket_path),
            );
        },
    };
    match path_file_name(socket_path) {
        Some(name) => Ok((parent, name)),
        None => Err(path_error("supervisor socket path has no file name: ", socket_path)),
    }
}

/// Checks that a path fits into a socket address.
pub fn check_socket_path_length(socket_path: &str) -> (res: PtyResult<()>)
    ensures
        res is Ok <==> utf8_len(socket_path@) <= UNIX_SOCKET_PATH_MAX_BYTES,
        res matches Err(e) ==> e@ == PtyErrorModel::Backend(
            "cannot bind supervisor socket at "@ + socket_path@
                + ": Unix socket path exceeds 107 bytes"@,
        ),
{
    if byte_len(socket_path) > UNIX_SOCKET_PATH_MAX_BYTES {
        return Err(
            PtyError::Backend(
                concat3(
                    "cannot bind supervisor socket at ",
                    socket_path,
                    ": Unix socket path exceeds 107 bytes",
                ),
            ),
        );
    }
    Ok(())
}

// ---------------------------------------------------------------------------
// Temporary names

/// The temporary name for random bytes.
pub open spec fn temp_name(random: Seq<u8>) -> Seq<char> {
    ".t"@ + base64_url_text(random)
}

/// The temporary name for random bytes.
pub fn temp_name_for(random: &[u8]) -> (name: String)
    requires
        random@.len() == SUPERVISOR_SOCKET_TEMP_RANDOM_BYTES,
    ensures
        name@ == temp_name(random@),
        name@.len() == 18,
{
    proof {
        reveal_strlit(".t");
    }
    concat(".t", base64_url_encode(random).as_str())
}

/// A fresh temporary name: the one for the bytes that one draw gave, or why it gave none.
pub fn random_supervisor_socket_temp_name() -> (res: PtyResult<String>)
    ensures
        exists|drawn: Result<Vec<u8>, String>| #[trigger]
            may_be_drawn(SUPERVISOR_SOCKET_TEMP_RANDOM_BYTES, drawn) && match drawn {
                Ok(random) => random@.len() == SUPERVISOR_SOCKET_TEMP_RANDOM_BYTES && (res matches Ok(
                    name,
                ) && name@ == temp_name(random@)),
                Err(reason) => res matches Err(e) && e@ == PtyErrorModel::Backend(reason@),
            },
        res matches Ok(name) ==> name@.len() == 18,
{
    let drawn = draw_random_bytes(SUPERVISOR_SOCKET_TEMP_RANDOM_BYTES);
    assert(may_be_drawn(SUPERVISOR_SOCKET_TEMP_RANDOM_BYTES, drawn));
    match drawn {
        Ok(random) => Ok(temp_name_for(random.as_slice())),
        Err(reason) => Err(PtyError::Backend(reason)),
    }
}

/// The length of a socket address with a name, given where the name begins. `name_len` does not count
/// the zero byte that ends the name.
pub fn socket_address_len(name_len: usize, name_offset: usize) -> (res: Result<usize, IoError>)
    requires
        name_offset + SOCKET_NAME_CAPACITY <= usize::MAX,
    ensures
        res is Ok <==> name_len < SOCKET_NAME_CAPACITY,
        res matches Ok(len) ==> len == name_offset + name_len + 1,
        res matches Err(e) ==> e.kind == IoErrorKind::InvalidInput && e.message@
            == "temporary Unix socket name exceeds sun_path"@,
{
    if name_len >= SOCKET_NAME_CAPACITY {
        return Err(
            IoError::new(
                IoErrorKind::InvalidInput,
                "temporary Unix socket name exceeds sun_path",
            ),
        );
    }
    Ok(name_offset + name_len + 1)
}

/// What the process that binds a socket inside a directory reported.
#[derive(Debug)]
pub enum BindHelperOutcome {
    /// The socket is bound.
    Bound,
    /// The system refused, with this error number.
    Refused(i32),
    /// The process did not end on its own.
    Crashed(IoError),
}

/// The exit code with which the binding process reports an error number, which has to fit in a byte.
pub fn bind_helper_exit_code(error: i32) -> (code: i32)
    ensures
        code == (if error < 0 {
            0
        } else if error > 255 {
            255int
        } else {
            error as int
        }),
{
    if error < 0 {
        0
    } else if error > 255 {
        255
    } else {
        error
    }
}

/// What the end of the binding process means.
pub fn bind_helper_outcome(exit_code: Option<i32>) -> (outcome: BindHelperOutcome)
    ensures
        match exit_code {
            Some(0) => outcome is Bound,
            Some(error) => outcome == BindHelperOutcome::Refused(error),
            None => outcome matches BindHelperOutcome::Crashed(e) && e.kind == IoErrorKind::Other
                && e.message@ == "temporary Unix socket bind helper terminated unexpectedly"@,
        },
{
    match exit_code {
        Some(error) => {
            if error == 0 {
                BindHelperOutcome::Bound
            } else {
                BindHelperOutcome::Refused(error)
            }
        },
        None => BindHelperOutcome::Crashed(
            IoError::new(
                IoErrorKind::Other,
                "temporary Unix socket bind helper terminated unexpectedly",
            ),
        ),
    }
}

/// The tries to bind a socket under a temporary name.
pub struct TempBindTries {
    tries: u32,
}

/// What to do after a try to bind a temporary name.
#[derive(Debug)]
pub enum TempBindStep {
    /// The name is bound.
    Bound,
    /// The name is taken: try another one.
    TryAnother,
    /// Give up.
    Failed(PtyError),
}

impl TempBindTries {
    /// How many names were tried.
    pub closed spec fn count(&self) -> u32 {
        self.tries
    }

    /// No name was tried yet.
    pub fn new() -> (tries: Self)
        ensures
            tries.count() == 0,
    {
        TempBindTries { tries: 0 }
    }

    /// A name was tried. A name that is taken costs one try.
    pub fn on_bind(&mut self, result: Result<(), IoError>, socket_path: &str) -> (step: TempBindStep)
        requires
            old(self).count() < SUPERVISOR_SOCKET_TEMP_BIND_ATTEMPTS,
        ensures
            final(self).count() == old(self).count() + 1,
            match result {
                Ok(()) => step is Bound,
                Err(error) => if error.kind != IoErrorKind::AddrInUse {
                    step == TempBindStep::Failed(PtyError::Io(error))
                } else if final(self).count() < SUPERVISOR_SOCKET_TEMP_BIND_ATTEMPTS {
                    step is TryAnother
                } else {
                    step matches TempBindStep::Failed(e) && e@ == path_failure(
                        "failed to allocate a unique temporary supervisor socket for "@,
                        socket_path@,
                    )
                },
            },
    {
        self.tries = self.tries + 1;
        match result {
            Ok(()) => TempBindStep::Bound,
            Err(error) => {
                if error.kind != IoErrorKind::AddrInUse {
                    TempBindStep::Failed(PtyError::Io(error))
                } else if self.tries < SUPERVISOR_SOCKET_TEMP_BIND_ATTEMPTS {
                    TempBindStep::TryAnother
                } else {
                    TempBindStep::Failed(
                        path_error(
                            "failed to allocate a unique temporary supervisor socket for ",
                            socket_path,
                        ),
                    )
                }
            },
        }
    }
}

// ---------------------------------------------------------------------------
// Publishing

/// What a publication waits for.
#[derive(Clone, Copy, Debug, PartialEq, Eq, Structural)]
pub enum PublishStage {
    /// The directory is private and still the one at its path.
    CheckDirectory,
    /// A socket that is already there is removed.
    RemoveExisting,
    /// A temporary socket.
    BindTemporary,
    /// The temporary socket is closed to everybody else.
    Restrict,
    /// The temporary socket has its name.
    Link,
    /// The socket under its name.
    OpenPublished,
    /// The temporary name is removed.
    UnlinkTemporary,
    /// What was put there is removed.
    CleanUp,
    /// Nothing: it is over.
    Over,
}

/// What to do for a publication.
#[derive(Debug)]
pub enum PublishStep {
    CheckDirectory,
    RemoveExisting,
    BindTemporary,
    Restrict(SupervisorPathIdentity),
    Link,
    OpenPublished,
    UnlinkTemporary(SupervisorPathIdentity),
    /// Remove the socket and its temporary name, as far as they are the ones that were put there.
    CleanUp(SupervisorPathIdentity),
    Done(SupervisorPathIdentity),
    Failed(PtyError),
}

/// The publication of a socket.
pub struct SocketPublication {
    socket_path: String,
    remove_existing: bool,
    stage: PublishStage,
    identity: SupervisorPathIdentity,
    error: Option<PtyError>,
}

/// The content of a [`SocketPublication`].
pub struct PublishModel {
    pub socket_path: Seq<char>,
    pub remove_existing: bool,
    pub stage: PublishStage,
    pub identity: SupervisorPathIdentity,
    pub error: Option<PtyErrorModel>,
}

impl View for SocketPublication {
    type V = PublishModel;

    closed spec fn view(&self) -> PublishModel {
        PublishModel {
            socket_path: self.socket_path@,
            remove_existing: self.remove_existing,
            stage: self.stage,
            identity: self.identity,
            error: match self.error {
                Some(error) => Some(error@),
                None => None,
            },
        }
    }
}

impl PublishModel {
    /// A failure waits to be reported exactly while what was put there is removed.
    pub open spec fn wf(self) -> bool {
        (self.stage == PublishStage::CleanUp) == (self.error is Some)
    }

    /// The publication waits for something.
    pub open spec fn at(self, stage: PublishStage) -> PublishModel {
        PublishModel { stage, ..self }
    }

    /// The stages at which a temporary socket exists.
    pub open spec fn has_temporary(self) -> bool {
        ||| self.stage == PublishStage::Restrict
        ||| self.stage == PublishStage::Link
        ||| self.stage == PublishStage::OpenPublished
        ||| self.stage == PublishStage::UnlinkTemporary
    }

    /// Something failed. Where a temporary socket exists, it is removed first.
    pub open spec fn failed(self, error: PtyErrorModel) -> PublishModel {
        if self.has_temporary() {
            PublishModel { stage: PublishStage::CleanUp, error: Some(error), ..self }
        } else {
            self.at(PublishStage::Over)
        }
    }

    /// The step after a failure.
    pub open spec fn fails(self, error: PtyErrorModel, step: PublishStep) -> bool {
        if self.has_temporary() {
            step == PublishStep::CleanUp(self.identity)
        } else {
            step matches PublishStep::Failed(e) && e@ == error
        }
    }
}

impl SocketPublication {
    /// A failure waits to be reported exactly while what was put there is removed.
    pub open spec fn wf(&self) -> bool {
        self@.wf()
    }

    /// Begins to publish a socket.
    pub fn begin(socket_path: &str, remove_existing: bool) -> (res: (Self, PublishStep))
        ensures
            (res.0).wf(),
            (res.0)@.socket_path == socket_path@,
            (res.0)@.remove_existing == remove_existing,
            (res.0)@.stage == PublishStage::CheckDirectory,
            res.1 is CheckDirectory,
    {
        (
            SocketPublication {
                socket_path: socket_path.to_owned(),
                remove_existing,
                stage: PublishStage::CheckDirectory,
                identity: SupervisorPathIdentity { device: 0, inode: 0 },
                error: None,
            },
            PublishStep::CheckDirectory,
        )
    }

    /// What the publication waits for.
    pub fn stage(&self) -> (stage: PublishStage)
        ensures
            stage == self@.stage,
    {
        self.stage
    }

    fn fail(&mut self, error: PtyError) -> (step: PublishStep)
        requires
            old(self).wf(),
            old(self)@.stage != PublishStage::CleanUp,
        ensures
            final(self).wf(),
            final(self)@ == old(self)@.failed(error@),
            old(self)@.fails(error@, step),
    {
        let has_temporary = match self.stage {
            PublishStage::Restrict => true,
            PublishStage::Link => true,
            PublishStage::OpenPublished => true,
            PublishStage::UnlinkTemporary => true,
            _ => false,
        };
        if has_temporary {
            self.stage = PublishStage::CleanUp;
            self.error = Some(error);
            PublishStep::CleanUp(self.identity)
        } else {
            self.stage = PublishStage::Over;
            PublishStep::Failed(error)
        }
    }

    /// The directory was checked. A path that does not fit into a socket address is refused.
    pub fn on_directory(&mut self, result: PtyResult<()>) -> (step: PublishStep)
        requires
            old(self).wf(),
            old(self)@.stage == PublishStage::CheckDirectory,
        ensures
            final(self).wf(),
            ({
                let before = old(self)@;
                match result {
                    Err(error) => final(self)@ == before.failed(error@) && before.fails(
                        error@,
                        step,
                    ),
                    Ok(()) => if utf8_len(before.socket_path) > UNIX_SOCKET_PATH_MAX_BYTES {
                        let error = PtyErrorModel::Backend(
                            "cannot bind supervisor socket at "@ + before.socket_path
                                + ": Unix socket path exceeds 107 bytes"@,
                        );
                        final(self)@ == before.failed(error) && before.fails(error, step)
                    } else if before.remove_existing {
                        final(self)@ == before.at(PublishStage::RemoveExisting)
                            && step is RemoveExisting
                    } else {
                        final(self)@ == before.at(PublishStage::BindTemporary)
                            && step is BindTemporary
                    },
                }
            }),
    {
        if let Err(error) = result {
            return self.fail(error);
        }
        if let Err(error) = check_socket_path_length(self.socket_path.as_str()) {
            return self.fail(error);
        }
        if self.remove_existing {
            self.stage = PublishStage::RemoveExisting;
            PublishStep::RemoveExisting
        } else {
            self.stage = PublishStage::BindTemporary;
            PublishStep::BindTemporary
        }
    }

    /// A socket that was already there was removed.
    pub fn on_removed(&mut self, result: PtyResult<()>) -> (step: PublishStep)
        requires
            old(self).wf(),
            old(self)@.stage == PublishStage::RemoveExisting,
        ensures
            final(self).wf(),
            match result {
                Err(error) => final(self)@ == old(self)@.failed(error@) && old(self)@.fails(
                    error@,
                    step,
                ),
                Ok(()) => final(self)@ == old(self)@.at(PublishStage::BindTemporary)
                    && step is BindTemporary,
            },
    {
        if let Err(error) = result {
            return self.fail(error);
        }
        self.stage = PublishStage::BindTemporary;
        PublishStep::BindTemporary
    }

    /// A temporary socket was bound.
    pub fn on_bound(&mut self, result: PtyResult<SupervisorPathIdentity>) -> (step: PublishStep)
        requires
            old(self).wf(),
            old(self)@.stage == PublishStage::BindTemporary,
        ensures
            final(self).wf(),
            match result {
                Err(error) => final(self)@ == old(self)@.failed(error@) && old(self)@.fails(
                    error@,
                    step,
                ),
                Ok(identity) => final(self)@ == (PublishModel { identity, ..old(self)@ }).at(
                    PublishStage::Restrict,
                ) && step == PublishStep::Restrict(identity),
            },
    {
        match result {
            Err(error) => self.fail(error),
            Ok(identity) => {
                self.identity = identity;
                self.stage = PublishStage::Restrict;
                PublishStep::Restrict(identity)
            },
        }
    }

    /// The temporary socket was closed to everybody else.
    pub fn on_restricted(&mut self, result: PtyResult<()>) -> (step: PublishStep)
        requires
            old(self).wf(),
            old(self)@.stage == PublishStage::Restrict,
        ensures
            final(self).wf(),
            match result {
                Err(error) => final(self)@ == old(self)@.failed(error@) && old(self)@.fails(
                    error@,
                    step,
                ),
                Ok(()) => final(self)@ == old(self)@.at(PublishStage::Link) && step is Link,
            },
    {
        if let Err(error) = result {
            return self.fail(error);
        }
        self.stage = PublishStage::Link;
        PublishStep::Link
    }

    /// The temporary socket got its name. An entry that is already there is never replaced.
    pub fn on_linked(&mut self, result: Result<(), IoError>) -> (step: PublishStep)
        requires
            old(self).wf(),
            old(self)@.stage == PublishStage::Link,
        ensures
            final(self).wf(),
            match result {
                Err(cause) => {
                    let error = PtyErrorModel::Backend(
                        "cannot publish supervisor socket at "@ + old(self)@.socket_path
                            + " without replacing an existing entry: "@ + cause.message@,
                    );
                    final(self)@ == old(self)@.failed(error) && old(self)@.fails(error, step)
                },
                Ok(()) => final(self)@ == old(self)@.at(PublishStage::OpenPublished)
                    && step is OpenPublished,
            },
    {
        if let Err(cause) = result {
            let head = concat3(
                "cannot publish supervisor socket at ",
                self.socket_path.as_str(),
                " without replacing an existing entry: ",
            );
            return self.fail(PtyError::Backend(concat(head.as_str(), cause.message.as_str())));
        }
        self.stage = PublishStage::OpenPublished;
        PublishStep::OpenPublished
    }

    /// The socket was opened under its name: it must be the one that was bound.
    pub fn on_published(&mut self, result: PtyResult<SupervisorPathIdentity>) -> (step: PublishStep)
        requires
            old(self).wf(),
            old(self)@.stage == PublishStage::OpenPublished,
        ensures
            final(self).wf(),
            match result {
                Err(error) => final(self)@ == old(self)@.failed(error@) && old(self)@.fails(
                    error@,
                    step,
                ),
                Ok(identity) => if identity == old(self)@.identity {
                    &&& final(self)@ == old(self)@.at(PublishStage::UnlinkTemporary)
                    &&& step == PublishStep::UnlinkTemporary(identity)
                } else {
                    let error = path_failure(
                        "published supervisor socket identity mismatch: "@,
                        old(self)@.socket_path,
                    );
                    final(self)@ == old(self)@.failed(error) && old(self)@.fails(error, step)
                },
            },
    {
        match result {
            Err(error) => self.fail(error),
            Ok(identity) => {
                if identity != self.identity {
                    let error = path_error(
                        "published supervisor socket identity mismatch: ",
                        self.socket_path.as_str(),
                    );
                    return self.fail(error);
                }
                self.stage = PublishStage::UnlinkTemporary;
                PublishStep::UnlinkTemporary(identity)
            },
        }
    }

    /// The temporary name was removed.
    pub fn on_unlinked(&mut self, result: PtyResult<()>) -> (step: PublishStep)
        requires
            old(self).wf(),
            old(self)@.stage == PublishStage::UnlinkTemporary,
        ensures
            final(self).wf(),
            match result {
                Err(error) => final(self)@ == old(self)@.failed(error@) && old(self)@.fails(
                    error@,
                    step,
                ),
                Ok(()) => final(self)@ == old(self)@.at(PublishStage::Over) && step
                    == PublishStep::Done(old(self)@.identity),
            },
    {
        if let Err(error) = result {
            return self.fail(error);
        }
        self.stage = PublishStage::Over;
        PublishStep::Done(self.identity)
    }

    /// What was put there was removed, as far as that was possible: the first failure is reported.
    pub fn on_cleaned_up(&mut self) -> (step: PublishStep)
        requires
            old(self).wf(),
            old(self)@.stage == PublishStage::CleanUp,
        ensures
            final(self).wf(),
            final(self)@ == (PublishModel { error: None, ..old(self)@ }).at(PublishStage::Over),
            step matches PublishStep::Failed(e) && Some(e@) == old(self)@.error,
    {
        self.stage = PublishStage::Over;
        match self.error.take() {
            Some(error) => PublishStep::Failed(error),
            None => PublishStep::CheckDirectory,
        }
    }
}

/// Checks a socket after its permissions were changed.
pub fn check_restricted_socket(
    expected: SupervisorPathIdentity,
    current: SupervisorPathIdentity,
    mode: u32,
    path: &str,
) -> (res: PtyResult<()>)
    ensures
        res is Ok <==> expected == current && mode & 0o777 == SUPERVISOR_SOCKET_MODE,
        res matches Err(e) ==> e@ == path_failure(
            "supervisor socket changed while restricting permissions: "@,
            path@,
        ),
{
    if expected != current || mode & 0o777 != SUPERVISOR_SOCKET_MODE {
        return Err(path_error("supervisor socket changed while restricting permissions: ", path));
    }
    Ok(())
}

/// The failure to change the permissions of a socket.
pub fn restrict_socket_error(path: &str, error: &IoError) -> (failure: PtyError)
    ensures
        failure@ == PtyErrorModel::Backend(
            "failed to restrict supervisor socket permissions at "@ + path@ + ": "@
                + error.message@,
        ),
{
    let head = concat3("failed to restrict supervisor socket permissions at ", path, ": ");
    PtyError::Backend(concat(head.as_str(), error.message.as_str()))
}

/// What to do about a socket that may already be there.
#[derive(Debug)]
pub enum ExistingSocket {
    /// There is none.
    Absent,
    /// Remove it, if it is still this one.
    Unlink(SupervisorPathIdentity),
    /// It cannot be told.
    Failed(PtyError),
}

/// What to do about a socket that may already be there.
pub fn existing_socket(opened: PtyResult<SupervisorPathIdentity>) -> (existing: ExistingSocket)
    ensures
        match opened {
            Ok(identity) => existing == ExistingSocket::Unlink(identity),
            Err(PtyError::Io(error)) => if error.kind == IoErrorKind::NotFound {
                existing is Absent
            } else {
                existing == ExistingSocket::Failed(PtyError::Io(error))
            },
            Err(error) => existing == ExistingSocket::Failed(error),
        },
{
    match opened {
        Ok(identity) => ExistingSocket::Unlink(identity),
        Err(PtyError::Io(error)) => {
            if error.kind == IoErrorKind::NotFound {
                ExistingSocket::Absent
            } else {
                ExistingSocket::Failed(PtyError::Io(error))
            }
        },
        Err(error) => ExistingSocket::Failed(error),
    }
}

/// Whether a socket can still be reached under its name.
#[derive(Debug)]
pub enum SocketHealth {
    /// It can.
    Bound,
    /// Its name was removed: publish it anew, without removing what may be there by then.
    Rebind,
    /// Something else has its name, or it cannot be told.
    Broken(PtyError),
}

/// Checks whether a socket can still be reached under its name.
pub fn socket_health(
    bound: SupervisorPathIdentity,
    opened: PtyResult<SupervisorPathIdentity>,
    socket_path: &str,
) -> (health: SocketHealth)
    ensures
        match opened {
            Ok(current) => if current == bound {
                health is Bound
            } else {
                health matches SocketHealth::Broken(e) && e@ == path_failure(
                    "unsafe session supervisor socket path was replaced: "@,
                    socket_path@,
                )
            },
            Err(PtyError::Io(error)) => if error.kind == IoErrorKind::NotFound {
                health is Rebind
            } else {
                health == SocketHealth::Broken(PtyError::Io(error))
            },
            Err(error) => health == SocketHealth::Broken(error),
        },
{
    match existing_socket(opened) {
        ExistingSocket::Absent => SocketHealth::Rebind,
        ExistingSocket::Unlink(current) => match check_socket_identity(bound, current, socket_path) {
            Ok(()) => SocketHealth::Bound,
            Err(error) => SocketHealth::Broken(error),
        },
        ExistingSocket::Failed(error) => SocketHealth::Broken(error),
    }
}

// ---------------------------------------------------------------------------
// Laws

/// A publication that fails after a temporary socket exists removes it before it reports the failure.
pub proof fn law_failed_publication_is_cleaned_up(
    publication: PublishModel,
    error: PtyErrorModel,
    step: PublishStep,
)
    requires
        publication.has_temporary(),
        publication.fails(error, step),
    ensures
        step == PublishStep::CleanUp(publication.identity),
        publication.failed(error).stage == PublishStage::CleanUp,
        publication.failed(error).error == Some(error),
{
}

} // verus!
