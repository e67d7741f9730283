//! The rules for the runtime directory: nobody else may replace it, read it or write to it.
//!
//! A path is walked component by component, and every directory on the way is checked as it is
//! opened. What the file system says is handed in; what to do next comes back.

use crate::pty::{IoError, IoErrorKind, PtyError, PtyErrorModel, PtyResult};
use crate::text::{concat, concat3, str_chars, str_equal, string_from_chars};
use vstd::prelude::*;

verus! {

/// The permissions of the runtime directory.
pub const SUPERVISOR_RUNTIME_DIR_MODE: u32 = 0o700;

/// The permissions of a socket.
pub const SUPERVISOR_SOCKET_MODE: u32 = 0o600;

/// The bit that keeps others from replacing the entries of a shared directory.
pub const STICKY_BIT: u32 = 0o1000;

/// Which file an open descriptor stands for.
#[derive(Debug, Clone, Copy, PartialEq, Eq, Structural)]
pub struct SupervisorPathIdentity {
    pub device: u64,
    pub inode: u64,
}

/// What the file system says of an open directory.
#[derive(Debug, Clone, Copy, PartialEq, Eq, Structural)]
pub struct DirectoryFacts {
    pub is_dir: bool,
    pub uid: u32,
    pub mode: u32,
    pub identity: SupervisorPathIdentity,
}

/// A failure that names a path.
pub open spec fn path_failure(reason: Seq<char>, path: Seq<char>) -> PtyErrorModel {
    PtyErrorModel::Backend(reason + path)
}

/// Builds a failure that names a path.
pub fn path_error(reason: &str, path: &str) -> (error: PtyError)
    ensures
        error@ == path_failure(reason@, path@),
{
    PtyError::Backend(concat(reason, path))
}

// ---------------------------------------------------------------------------
// Checks on what was opened

impl DirectoryFacts {
    /// Nobody but the user and the administrator can replace what lies in the directory.
    pub open spec fn trusted_ancestor(self, effective_uid: u32) -> bool {
        &&& self.is_dir
        &&& self.uid == effective_uid || self.uid == 0
        &&& self.mode & 0o022 == 0 || self.mode & STICKY_BIT != 0
    }

    /// The directory belongs to the user.
    pub open spec fn own_directory(self, effective_uid: u32) -> bool {
        self.is_dir && self.uid == effective_uid
    }

    /// The directory belongs to the user, and nobody else can use it.
    pub open spec fn private(self, effective_uid: u32) -> bool {
        self.uid == effective_uid && self.mode & 0o777 == SUPERVISOR_RUNTIME_DIR_MODE
    }
}

/// Checks a directory above the runtime directory.
pub fn validate_supervisor_runtime_ancestor(
    directory: &DirectoryFacts,
    path: &str,
    effective_uid: u32,
) -> (res: PtyResult<()>)
    ensures
        res is Ok <==> directory.trusted_ancestor(effective_uid),
        res matches Err(e) ==> e@ == path_failure(
            "unsafe replaceable supervisor runtime directory ancestor: "@,
            path@,
        ),
{
    let owner_is_trusted = directory.uid == effective_uid || directory.uid == 0;
    let foreign_writable = directory.mode & 0o022 != 0;
    let sticky = directory.mode & STICKY_BIT != 0;
    if !directory.is_dir || !owner_is_trusted || (foreign_writable && !sticky) {
        return Err(
            path_error("unsafe replaceable supervisor runtime directory ancestor: ", path),
        );
    }
    Ok(())
}

/// Checks the runtime directory itself.
pub fn validate_supervisor_runtime_final(
    directory: &DirectoryFacts,
    path: &str,
    effective_uid: u32,
) -> (res: PtyResult<()>)
    ensures
        res is Ok <==> directory.own_directory(effective_uid),
        res matches Err(e) ==> e@ == path_failure(
            "unsafe foreign-owned supervisor runtime directory: "@,
            path@,
        ),
{
    if !directory.is_dir || directory.uid != effective_uid {
        return Err(path_error("unsafe foreign-owned supervisor runtime directory: ", path));
    }
    Ok(())
}

/// Checks that only the user can use the runtime directory.
pub fn ensure_private(directory: &DirectoryFacts, path: &str, effective_uid: u32) -> (res: PtyResult<()>)
    ensures
        res is Ok <==> directory.private(effective_uid),
        res matches Err(e) ==> e@ == path_failure(
            "unsafe supervisor runtime directory ownership or permissions: "@,
            path@,
        ),
{
    if directory.uid != effective_uid || directory.mode & 0o777 != SUPERVISOR_RUNTIME_DIR_MODE {
        return Err(
            path_error("unsafe supervisor runtime directory ownership or permissions: ", path),
        );
    }
    Ok(())
}

/// Checks that the path still leads to the directory that was opened.
pub fn ensure_path_matches(
    opened: SupervisorPathIdentity,
    current: SupervisorPathIdentity,
    path: &str,
) -> (res: PtyResult<()>)
    ensures
        res is Ok <==> opened == current,
        res matches Err(e) ==> e@ == path_failure(
            "unsafe supervisor runtime directory was replaced: "@,
            path@,
        ),
{
    if opened == current {
        Ok(())
    } else {
        Err(path_error("unsafe supervisor runtime directory was replaced: ", path))
    }
}

/// Checks that a directory entry is a socket.
pub fn check_socket_entry(is_symlink: bool, is_socket: bool, path: &str) -> (res: PtyResult<()>)
    ensures
        res is Ok <==> !is_symlink && is_socket,
        res matches Err(e) ==> e@ == path_failure("unsafe supervisor socket entry: "@, path@),
{
    if is_symlink || !is_socket {
        return Err(path_error("unsafe supervisor socket entry: ", path));
    }
    Ok(())
}

/// The failure to open a socket; a symbolic link is refused by name.
pub fn open_socket_error(is_symlink: bool, error: IoError, path: &str) -> (failure: PtyError)
    ensures
        failure@ == (if is_symlink {
            path_failure("unsafe supervisor socket symlink: "@, path@)
        } else {
            PtyErrorModel::Io(error.kind, error.message@)
        }),
{
    if is_symlink {
        path_error("unsafe supervisor socket symlink: ", path)
    } else {
        PtyError::Io(error)
    }
}

/// The failure to open a directory; a symbolic link and what is no directory are refused by name.
pub fn open_directory_error(not_a_directory: bool, error: IoError, path: &str) -> (failure: PtyError)
    ensures
        failure@ == open_failure(not_a_directory, error, path@),
{
    if not_a_directory {
        path_error("unsafe supervisor runtime directory component: ", path)
    } else {
        PtyError::Io(error)
    }
}

/// The failure to open a directory.
pub open spec fn open_failure(not_a_directory: bool, error: IoError, path: Seq<char>) -> PtyErrorModel {
    if not_a_directory {
        path_failure("unsafe supervisor runtime directory component: "@, path)
    } else {
        PtyErrorModel::Io(error.kind, error.message@)
    }
}

/// Checks that a socket is still the one that is meant, before it is removed.
pub fn check_socket_identity(
    expected: SupervisorPathIdentity,
    current: SupervisorPathIdentity,
    path: &str,
) -> (res: PtyResult<()>)
    ensures
        res is Ok <==> expected == current,
        res matches Err(e) ==> e@ == path_failure(
            "unsafe session supervisor socket path was replaced: "@,
            path@,
        ),
{
    if expected == current {
        Ok(())
    } else {
        Err(path_error("unsafe session supervisor socket path was replaced: ", path))
    }
}

// ---------------------------------------------------------------------------
// The components of a path

/// A path as the names of its directories. Repeated slashes and single dots stand for nothing.
pub open spec fn path_names(path: Seq<char>) -> Seq<Seq<char>>
    decreases path.len(),
{
    match first_slash(path) {
        None => kept_name(path),
        Some(i) => kept_name(path.take(i)) + path_names(path.skip(i + 1)),
    }
}

/// Where the first slash of a path is.
pub open spec fn first_slash(path: Seq<char>) -> Option<int>
    decreases path.len(),
{
    if path.len() == 0 {
        None
    } else if path[0] == '/' {
        Some(0)
    } else {
        match first_slash(path.drop_first()) {
            Some(i) if 0 <= i < path.len() - 1 => Some(i + 1),
            _ => None,
        }
    }
}

/// A name between two slashes, if it stands for anything.
pub open spec fn kept_name(name: Seq<char>) -> Seq<Seq<char>> {
    if name.len() == 0 || name == "."@ {
        Seq::empty()
    } else {
        seq![name]
    }
}

proof fn lemma_first_slash(path: Seq<char>)
    ensures
        match first_slash(path) {
            Some(i) => 0 <= i < path.len() && path[i] == '/' && forall|k: int|
                0 <= k < i ==> #[trigger] path[k] != '/',
            None => forall|k: int| 0 <= k < path.len() ==> #[trigger] path[k] != '/',
        },
    decreases path.len(),
{
    if path.len() > 0 && path[0] != '/' {
        lemma_first_slash(path.drop_first());
        let rest = path.drop_first();
        match first_slash(path) {
            Some(i) => {
                assert(path[i] == rest[i - 1]);
                assert forall|k: int| 0 <= k < i implies #[trigger] path[k] != '/' by {
                    if k > 0 {
                        assert(rest[k - 1] == path[k]);
                    }
                }
            },
            None => {
                assert forall|k: int| 0 <= k < path.len() implies #[trigger] path[k] != '/' by {
                    if k > 0 {
                        assert(rest[k - 1] == path[k]);
                    }
                }
            },
        }
    }
}

/// The contents of a sequence of names.
pub open spec fn name_views(names: Seq<String>) -> Seq<Seq<char>> {
    Seq::new(names.len(), |i: int| names[i]@)
}

/// A path that leads upwards.
pub open spec fn leads_upwards(path: Seq<char>) -> bool {
    path_names(path).contains(".."@)
}

fn split_names(path: &str) -> (names: Vec<String>)
    ensures
        name_views(names@) == path_names(path@),
{
    let chars = str_chars(path);
    let ghost all = path@;
    let mut names: Vec<String> = Vec::new();
    let mut start: usize = 0;
    let mut i: usize = 0;
    assert(all.skip(0) =~= all);
    assert(name_views(names@) =~= Seq::<Seq<char>>::empty());
    assert(path_names(all) =~= name_views(names@) + path_names(all.skip(0)));
    while i < chars.len()
        invariant
            chars@ == all,
            start <= i <= chars@.len(),
            forall|k: int| start <= k < i ==> #[trigger] all[k] != '/',
            path_names(all) == name_views(names@) + path_names(all.skip(start as int)),
        decreases chars@.len() - i,
    {
        if chars[i] == '/' {
            let name = string_from_chars(
                vstd::slice::slice_subrange(chars.as_slice(), start, i),
            );
            let ghost rest = all.skip(start as int);
            let ghost before = name_views(names@);
            proof {
                lemma_first_slash(rest);
                let at = i - start;
                assert(rest[at] == '/');
                assert(first_slash(rest) == Some(at)) by {
                    match first_slash(rest) {
                        Some(j) => {
                            assert(rest[j] == '/');
                            if j < at {
                                assert(all[start + j] == rest[j]);
                            }
                            if j > at {
                                assert(rest[at] != '/');
                            }
                        },
                        None => {
                            assert(rest[at] != '/');
                        },
                    }
                }
                assert(name@ =~= rest.take(at));
                assert(rest.skip(at + 1) =~= all.skip(i + 1));
            }
            if name.as_str().unicode_len() > 0 && !str_equal(name.as_str(), ".") {
                let ghost model = name@;
                names.push(name);
                assert(name_views(names@) =~= before.push(model));
                assert(name_views(names@) + path_names(all.skip(i + 1)) =~= before + (kept_name(model)
                    + path_names(all.skip(i + 1))));
            } else {
                assert(kept_name(name@) + path_names(all.skip(i + 1)) =~= path_names(
                    all.skip(i + 1),
                ));
            }
            start = i + 1;
        }
        i = i + 1;
    }
    let name = string_from_chars(
        vstd::slice::slice_subrange(chars.as_slice(), start, chars.len()),
    );
    let ghost rest = all.skip(start as int);
    let ghost before = name_views(names@);
    proof {
        lemma_first_slash(rest);
        assert(first_slash(rest) is None) by {
            if let Some(j) = first_slash(rest) {
                assert(rest[j] == all[start + j]);
            }
        }
        assert(name@ =~= rest);
    }
    if name.as_str().unicode_len() > 0 && !str_equal(name.as_str(), ".") {
        let ghost model = name@;
        names.push(name);
        assert(name_views(names@) =~= before.push(model));
        assert(before.push(model) =~= before + kept_name(model));
    } else {
        assert(before + kept_name(name@) =~= before);
    }
    names
}

// ---------------------------------------------------------------------------
// The walk

/// What a walk waits for.
#[derive(Clone, Copy, Debug, PartialEq, Eq, Structural)]
pub enum WalkStage {
    /// The directory where the path begins.
    Start,
    /// The next directory.
    Open,
    /// A directory that was missing is being made.
    Create,
    /// The directory that was made.
    Reopen,
    /// The permissions of the runtime directory.
    Restrict,
    /// Nothing: the walk is over.
    Over,
}

/// What to do for a walk.
#[derive(Debug)]
pub enum WalkStep {
    /// Open the root directory, or else the current one, without following links.
    OpenStart { absolute: bool },
    /// Open a directory below the last one, without following links.
    OpenBelow { name: String },
    /// Make a directory below the last one, for the user alone.
    Create { name: String },
    /// Take the permissions to the last directory from everybody else, if it still belongs to the
    /// user.
    Restrict,
    /// The runtime directory is open.
    Done(SupervisorPathIdentity),
    /// The path is refused.
    Failed(PtyError),
}

/// A walk to the runtime directory.
pub struct SecureDirWalk {
    path: String,
    effective_uid: u32,
    create_missing: bool,
    restrict_final: bool,
    names: Vec<String>,
    index: usize,
    stage: WalkStage,
    identity: SupervisorPathIdentity,
}

/// The content of a [`SecureDirWalk`].
pub struct WalkModel {
    pub path: Seq<char>,
    pub effective_uid: u32,
    pub create_missing: bool,
    pub restrict_final: bool,
    pub names: Seq<Seq<char>>,
    pub index: nat,
    pub stage: WalkStage,
    pub identity: SupervisorPathIdentity,
}

impl View for SecureDirWalk {
    type V = WalkModel;

    closed spec fn view(&self) -> WalkModel {
        WalkModel {
            path: self.path@,
            effective_uid: self.effective_uid,
            create_missing: self.create_missing,
            restrict_final: self.restrict_final,
            names: name_views(self.names@),
            index: self.index as nat,
            stage: self.stage,
            identity: self.identity,
        }
    }
}

/// A name that the file system cannot hold.
pub open spec fn has_nul(name: Seq<char>) -> bool {
    name.contains('\0')
}

fn contains_nul(name: &str) -> (found: bool)
    ensures
        found == has_nul(name@),
{
    let chars = str_chars(name);
    let mut i: usize = 0;
    while i < chars.len()
        invariant
            chars@ == name@,
            i <= chars@.len(),
            forall|k: int| 0 <= k < i ==> #[trigger] chars@[k] != '\0',
        decreases chars@.len() - i,
    {
        if chars[i] == '\0' {
            return true;
        }
        i = i + 1;
    }
    false
}

impl WalkModel {
    /// There is always a directory to go to, until the walk is over.
    pub open spec fn wf(self) -> bool {
        self.stage == WalkStage::Over || self.index < self.names.len()
    }

    /// The walk is over.
    pub open spec fn over(self) -> WalkModel {
        WalkModel { stage: WalkStage::Over, ..self }
    }

    /// The walk goes to the directory with a number.
    pub open spec fn going_to(self, index: nat) -> WalkModel {
        if has_nul(self.names[index as int]) {
            WalkModel { index, ..self }.over()
        } else {
            WalkModel { index, stage: WalkStage::Open, ..self }
        }
    }

    /// The step to the directory with a number.
    pub open spec fn goes_to(self, index: nat, step: WalkStep) -> bool {
        let name = self.names[index as int];
        if has_nul(name) {
            step matches WalkStep::Failed(e) && e@ == path_failure(
                "unsafe supervisor path contains an interior NUL byte: "@,
                self.path,
            )
        } else {
            step matches WalkStep::OpenBelow { name: n } && n@ == name
        }
    }

    /// The last directory of the path.
    pub open spec fn at_final(self) -> bool {
        self.index + 1 == self.names.len()
    }
}

impl SecureDirWalk {
    /// There is always a directory to go to, until the walk is over.
    pub open spec fn wf(&self) -> bool {
        self@.wf()
    }

    /// Begins a walk. A path that leads upwards, or nowhere, is refused.
    pub fn begin(path: &str, effective_uid: u32, create_missing: bool, restrict_final: bool) -> (res:
        PtyResult<(Self, WalkStep)>)
        ensures
            if leads_upwards(path@) || path_names(path@).len() == 0 {
                res matches Err(e) && e@ == path_failure(
                    "unsafe supervisor runtime directory path: "@,
                    path@,
                )
            } else {
                &&& res matches Ok((walk, step))
                &&& walk.wf()
                &&& walk@.path == path@
                &&& walk@.effective_uid == effective_uid
                &&& walk@.create_missing == create_missing
                &&& walk@.restrict_final == restrict_final
                &&& walk@.names == path_names(path@)
                &&& walk@.index == 0
                &&& walk@.stage == WalkStage::Start
                &&& step == (WalkStep::OpenStart { absolute: path@.len() > 0 && path@[0] == '/' })
            },
    {
        let names = split_names(path);
        let mut i: usize = 0;
        while i < names.len()
            invariant
                i <= names@.len(),
                name_views(names@) == path_names(path@),
                forall|k: int| 0 <= k < i ==> #[trigger] path_names(path@)[k] != ".."@,
            decreases names@.len() - i,
        {
            if str_equal(names[i].as_str(), "..") {
                assert(path_names(path@)[i as int] == ".."@);
                return Err(path_error("unsafe supervisor runtime directory path: ", path));
            }
            i = i + 1;
        }
        if names.len() == 0 {
            return Err(path_error("unsafe supervisor runtime directory path: ", path));
        }
        let absolute = path.unicode_len() > 0 && path.get_char(0) == '/';
        let walk = SecureDirWalk {
            path: path.to_owned(),
            effective_uid,
            create_missing,
            restrict_final,
            names,
            index: 0,
            stage: WalkStage::Start,
            identity: SupervisorPathIdentity { device: 0, inode: 0 },
        };
        Ok((walk, WalkStep::OpenStart { absolute }))
    }

    /// What the walk waits for.
    pub fn stage(&self) -> (stage: WalkStage)
        ensures
            stage == self@.stage,
    {
        self.stage
    }

    fn fail(&mut self, error: PtyError) -> (step: WalkStep)
        ensures
            final(self)@ == old(self)@.over(),
            final(self).wf(),
            step == WalkStep::Failed(error),
    {
        self.stage = WalkStage::Over;
        WalkStep::Failed(error)
    }

    fn go_to(&mut self, index: usize) -> (step: WalkStep)
        requires
            index < old(self)@.names.len(),
        ensures
            final(self).wf(),
            final(self)@ == old(self)@.going_to(index as nat),
            old(self)@.goes_to(index as nat, step),
    {
        self.index = index;
        let name = self.names[index].clone();
        if contains_nul(name.as_str()) {
            let error = path_error(
                "unsafe supervisor path contains an interior NUL byte: ",
                self.path.as_str(),
            );
            return self.fail(error);
        }
        self.stage = WalkStage::Open;
        WalkStep::OpenBelow { name }
    }

    /// A directory was opened.
    pub fn on_opened(&mut self, directory: DirectoryFacts) -> (step: WalkStep)
        requires
            old(self).wf(),
            old(self)@.stage == WalkStage::Start || old(self)@.stage == WalkStage::Open || old(
                self,
            )@.stage == WalkStage::Reopen,
        ensures
            final(self).wf(),
            ({
                let before = old(self)@;
                let uid = before.effective_uid;
                if before.stage == WalkStage::Start {
                    if directory.trusted_ancestor(uid) {
                        &&& final(self)@ == before.going_to(0)
                        &&& before.goes_to(0, step)
                    } else {
                        &&& final(self)@ == before.over()
                        &&& step matches WalkStep::Failed(e)
                        &&& e@ == path_failure(
                            "unsafe replaceable supervisor runtime directory ancestor: "@,
                            before.path,
                        )
                    }
                } else if before.at_final() {
                    if !directory.own_directory(uid) {
                        &&& final(self)@ == before.over()
                        &&& step matches WalkStep::Failed(e)
                        &&& e@ == path_failure(
                            "unsafe foreign-owned supervisor runtime directory: "@,
                            before.path,
                        )
                    } else if before.restrict_final {
                        &&& final(self)@ == (WalkModel {
                            stage: WalkStage::Restrict,
                            identity: directory.identity,
                            ..before
                        })
                        &&& step is Restrict
                    } else {
                        &&& final(self)@ == (WalkModel { identity: directory.identity, ..before }).over()
                        &&& step == WalkStep::Done(directory.identity)
                    }
                } else {
                    if directory.trusted_ancestor(uid) {
                        &&& final(self)@ == before.going_to(before.index + 1)
                        &&& before.goes_to(before.index + 1, step)
                    } else {
                        &&& final(self)@ == before.over()
                        &&& step matches WalkStep::Failed(e)
                        &&& e@ == path_failure(
                            "unsafe replaceable supervisor runtime directory ancestor: "@,
                            before.path,
                        )
                    }
                }
            }),
    {
        let at_final = self.stage != WalkStage::Start && self.index == self.names.len() - 1;
        if at_final {
            if let Err(error) = validate_supervisor_runtime_final(
                &directory,
                self.path.as_str(),
                self.effective_uid,
            ) {
                return self.fail(error);
            }
            self.identity = directory.identity;
            if self.restrict_final {
                self.stage = WalkStage::Restrict;
                return WalkStep::Restrict;
            }
            self.stage = WalkStage::Over;
            return WalkStep::Done(directory.identity);
        }
        if let Err(error) = validate_supervisor_runtime_ancestor(
            &directory,
            self.path.as_str(),
            self.effective_uid,
        ) {
            return self.fail(error);
        }
        let next: usize = if self.stage == WalkStage::Start {
            0
        } else {
            self.index + 1
        };
        self.go_to(next)
    }

    /// A directory could not be opened. `not_a_directory` tells that it is a link or no directory at
    /// all.
    pub fn on_open_failed(&mut self, not_a_directory: bool, error: IoError) -> (step: WalkStep)
        requires
            old(self).wf(),
            old(self)@.stage == WalkStage::Start || old(self)@.stage == WalkStage::Open || old(
                self,
            )@.stage == WalkStage::Reopen,
        ensures
            final(self).wf(),
            ({
                let before = old(self)@;
                if before.stage == WalkStage::Open && !not_a_directory && before.create_missing
                    && error.kind == IoErrorKind::NotFound {
                    &&& final(self)@ == (WalkModel { stage: WalkStage::Create, ..before })
                    &&& step matches WalkStep::Create { name }
                    &&& name@ == before.names[before.index as int]
                } else {
                    &&& final(self)@ == before.over()
                    &&& step matches WalkStep::Failed(e)
                    &&& e@ == open_failure(
                        not_a_directory && before.stage != WalkStage::Start,
                        error,
                        before.path,
                    )
                }
            }),
    {
        if self.stage == WalkStage::Start {
            return self.fail(PtyError::Io(error));
        }
        if self.stage == WalkStage::Open && !not_a_directory && self.create_missing && error.kind
            == IoErrorKind::NotFound {
            self.stage = WalkStage::Create;
            return WalkStep::Create { name: self.names[self.index].clone() };
        }
        let failure = open_directory_error(not_a_directory, error, self.path.as_str());
        self.fail(failure)
    }

    /// A missing directory was made, or not. One that somebody else made in the meantime is opened and
    /// checked like any other.
    pub fn on_created(&mut self, result: Result<(), IoError>) -> (step: WalkStep)
        requires
            old(self).wf(),
            old(self)@.stage == WalkStage::Create,
        ensures
            final(self).wf(),
            ({
                let before = old(self)@;
                let go_on = match result {
                    Ok(()) => true,
                    Err(error) => error.kind == IoErrorKind::AlreadyExists,
                };
                if go_on {
                    &&& final(self)@ == (WalkModel { stage: WalkStage::Reopen, ..before })
                    &&& step matches WalkStep::OpenBelow { name }
                    &&& name@ == before.names[before.index as int]
                } else {
                    &&& final(self)@ == before.over()
                    &&& step matches WalkStep::Failed(e)
                    &&& e@ == PtyErrorModel::Io(result->Err_0.kind, result->Err_0.message@)
                }
            }),
    {
        if let Err(error) = result {
            if error.kind != IoErrorKind::AlreadyExists {
                return self.fail(PtyError::Io(error));
            }
        }
        self.stage = WalkStage::Reopen;
        WalkStep::OpenBelow { name: self.names[self.index].clone() }
    }

    /// Permissions are about to be taken from everybody else: the directory must still belong to the
    /// user. What belongs to somebody else is never changed.
    pub fn may_restrict(&self, directory: &DirectoryFacts) -> (res: PtyResult<()>)
        ensures
            res is Ok <==> directory.own_directory(self@.effective_uid),
            res matches Err(e) ==> e@ == path_failure(
                "unsafe foreign-owned supervisor runtime directory: "@,
                self@.path,
            ),
    {
        validate_supervisor_runtime_final(directory, self.path.as_str(), self.effective_uid)
    }

    /// Permissions were taken from everybody else, or not. The outer failure is that of
    /// [`SecureDirWalk::may_restrict`], the inner one that of the change itself.
    pub fn on_restricted(&mut self, result: PtyResult<Result<(), IoError>>) -> (step: WalkStep)
        requires
            old(self).wf(),
            old(self)@.stage == WalkStage::Restrict,
        ensures
            final(self).wf(),
            final(self)@ == old(self)@.over(),
            match result {
                Ok(Ok(())) => step == WalkStep::Done(old(self)@.identity),
                Ok(Err(error)) => step matches WalkStep::Failed(e) && e@ == PtyErrorModel::Backend(
                    "failed to restrict supervisor runtime directory permissions at "@ + old(
                        self,
                    )@.path + ": "@ + error.message@,
                ),
                Err(error) => step == WalkStep::Failed(error),
            },
    {
        match result {
            Ok(Ok(())) => {
                self.stage = WalkStage::Over;
                WalkStep::Done(self.identity)
            },
            Ok(Err(error)) => {
                let head = concat3(
                    "failed to restrict supervisor runtime directory permissions at ",
                    self.path.as_str(),
                    ": ",
                );
                self.fail(PtyError::Backend(concat(head.as_str(), error.message.as_str())))
            },
            Err(error) => self.fail(error),
        }
    }
}

// ---------------------------------------------------------------------------
// Laws

/// A runtime directory that passes its checks is closed to everybody else, and so are its entries: a
/// private directory is one's own, and a trusted ancestor lets no stranger replace it.
pub proof fn law_private_directory_is_trusted(directory: DirectoryFacts, effective_uid: u32)
    requires
        directory.is_dir,
        directory.private(effective_uid),
    ensures
        directory.own_directory(effective_uid),
        directory.trusted_ancestor(effective_uid),
{
    let mode = directory.mode;
    assert(mode & 0o777 == 0o700 ==> mode & 0o022 == 0) by (bit_vector);
}

/// A directory that others may write to is trusted only if they cannot replace each other's entries.
pub proof fn law_shared_directory_needs_the_sticky_bit(directory: DirectoryFacts, effective_uid: u32)
    requires
        directory.mode & 0o022 != 0,
        directory.mode & STICKY_BIT == 0,
    ensures
        !directory.trusted_ancestor(effective_uid),
{
}

} // verus!
