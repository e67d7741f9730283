//! Guarding the directory and the sockets of supervisors: whom to trust, and in what order to go.

use crate::laws::text::{law_separator_parts_pieces, law_unseparated_is_one_piece};
use crate::paths::{path_file_name_text, path_parent_text};
use crate::pty::supervisor::secure_dir::{
    check_socket_entry, check_socket_identity, ensure_path_matches, ensure_private, first_slash,
    open_directory_error, open_socket_error, path_error, path_names,
    validate_supervisor_runtime_ancestor,
    validate_supervisor_runtime_final, DirectoryFacts, SecureDirWalk, SupervisorPathIdentity, WalkStep,
};
use crate::pty::supervisor::socket_binding::{
    bind_helper_exit_code, bind_helper_outcome, check_restricted_socket, check_socket_path_length,
    existing_socket, restrict_socket_error, socket_address_len, socket_health, socket_location, temp_name_for,
    BindHelperOutcome, ExistingSocket, PublishStep, SocketHealth, SocketPublication,
    TempBindStep, TempBindTries,
};
use crate::pty::{IoError, PtyError, PtyErrorModel, PtyResult};
use crate::text::{split_on, utf8_len};
use vstd::prelude::*;

verus! {

/// A directory on the way is trusted if it belongs to oneself or to the system, and nobody else can replace
/// what is in it. The last one has to be one's own, and closed to everybody else.
pub proof fn law_directories_are_trusted_by_owner_and_mode(
    directory: &DirectoryFacts,
    path: &str,
    user: u32,
    way: PtyResult<()>,
    last: PtyResult<()>,
    closed: PtyResult<()>,
)
    requires
        call_ensures(validate_supervisor_runtime_ancestor, (directory, path, user), way),
        call_ensures(validate_supervisor_runtime_final, (directory, path, user), last),
        call_ensures(ensure_private, (directory, path, user), closed),
    ensures
        way is Ok <==> directory.is_dir && (directory.uid == user || directory.uid == 0) && (directory.mode
            & 0o022 == 0 || directory.mode & 0o1000 != 0),
        last is Ok <==> directory.is_dir && directory.uid == user,
        closed is Ok <==> directory.uid == user && directory.mode & 0o777 == 0o700,
{
}

/// Files are the same if device and number are; a socket is a socket, and no link to one.
pub proof fn law_files_are_compared_by_identity(
    opened: SupervisorPathIdentity,
    current: SupervisorPathIdentity,
    path: &str,
    directory: PtyResult<()>,
    socket: PtyResult<()>,
    is_link: bool,
    is_socket: bool,
    entry: PtyResult<()>,
    mode: u32,
    restricted: PtyResult<()>,
)
    requires
        call_ensures(ensure_path_matches, (opened, current, path), directory),
        call_ensures(check_socket_identity, (opened, current, path), socket),
        call_ensures(check_socket_entry, (is_link, is_socket, path), entry),
        call_ensures(check_restricted_socket, (opened, current, mode, path), restricted),
    ensures
        directory is Ok <==> opened.device == current.device && opened.inode == current.inode,
        socket is Ok <==> opened.device == current.device && opened.inode == current.inode,
        entry is Ok <==> is_socket && !is_link,
        restricted is Ok <==> opened.device == current.device && opened.inode == current.inode && mode
            & 0o777 == 0o600,
{
}

/// What cannot be opened says why: a link or a file in the way is unsafe, anything else is the system's.
pub proof fn law_unopened_file_says_why(
    in_the_way: bool,
    error: IoError,
    path: &str,
    socket: PtyError,
    directory: PtyError,
)
    requires
        call_ensures(open_socket_error, (in_the_way, error, path), socket),
        call_ensures(open_directory_error, (in_the_way, error, path), directory),
    ensures
        !in_the_way ==> socket@ == PtyErrorModel::Io(error.kind, error.message@) && directory@ == socket@,
        in_the_way ==> socket@ == PtyErrorModel::Backend("unsafe supervisor socket symlink: "@ + path@),
        in_the_way ==> directory@ == PtyErrorModel::Backend(
            "unsafe supervisor runtime directory component: "@ + path@,
        ),
{
}

proof fn lemma_first_slash(path: Seq<char>)
    ensures
        first_slash(path) is None ==> !path.contains('/'),
        first_slash(path) matches Some(i) ==> 0 <= i < path.len() && path[i] == '/' && !path.take(
            i,
        ).contains('/'),
    decreases path.len(),
{
    if path.len() > 0 && path[0] != '/' {
        let rest = path.drop_first();
        lemma_first_slash(rest);
        if let Some(i) = first_slash(rest) {
            let head = path.take(i + 1);
            if head.contains('/') {
                let k = choose|k: int| 0 <= k < head.len() && head[k] == '/';
                assert(rest.take(i)[k - 1] == '/');
            }
        } else if path.contains('/') {
            let k = choose|k: int| 0 <= k < path.len() && path[k] == '/';
            assert(rest[k - 1] == '/');
        }
    } else if path.len() > 0 {
        assert(path.take(0) =~= Seq::<char>::empty());
    }
}

/// The names in a path are what stands between its slashes, without what is empty or stands for the
/// directory itself.
pub proof fn law_names_stand_between_slashes(path: Seq<char>)
    ensures
        path_names(path) == split_on(path, '/').filter(
            |name: Seq<char>| name.len() > 0 && name != "."@,
        ),
    decreases path.len(),
{
    let named = |name: Seq<char>| name.len() > 0 && name != "."@;
    lemma_first_slash(path);
    match first_slash(path) {
        None => {
            law_unseparated_is_one_piece(path, '/');
            lemma_filter_one(path, named);
        },
        Some(i) => {
            let head = path.take(i);
            let rest = path.skip(i + 1);
            assert(path =~= head.push('/') + rest);
            law_separator_parts_pieces(head, '/', rest);
            law_unseparated_is_one_piece(head, '/');
            law_names_stand_between_slashes(rest);
            Seq::filter_distributes_over_add(seq![head], split_on(rest, '/'), named);
            lemma_filter_one(head, named);
        },
    }
}

proof fn lemma_filter_one(name: Seq<char>, named: spec_fn(Seq<char>) -> bool)
    ensures
        seq![name].filter(named) == (if named(name) {
            seq![name]
        } else {
            Seq::empty()
        }),
{
    reveal(Seq::filter);
    reveal_with_fuel(Seq::filter, 2);
    assert(seq![name].drop_last() =~= Seq::<Seq<char>>::empty());
    assert(seq![name].filter(named) =~= (if named(name) {
        seq![name]
    } else {
        Seq::empty()
    }));
}

/// A walk begins at the root or where one is, with the first name; a path that leads upwards or nowhere is
/// not walked.
pub proof fn law_walk_begins_at_the_start(
    path: &str,
    user: u32,
    create: bool,
    restrict: bool,
    res: PtyResult<(SecureDirWalk, WalkStep)>,
)
    requires
        call_ensures(SecureDirWalk::begin, (path, user, create, restrict), res),
    ensures
        res is Ok <==> path_names(path@).len() > 0 && !path_names(path@).contains(".."@),
        res is Ok ==> {
            let walk = (res->Ok_0).0@;
            &&& walk.stage is Start
            &&& walk.index == 0
            &&& walk.names == path_names(path@)
            &&& walk.effective_uid == user
            &&& walk.create_missing == create
            &&& walk.restrict_final == restrict
            &&& (res->Ok_0).1 is OpenStart
            &&& (res->Ok_0).1->absolute <==> path@.len() > 0 && path@[0] == '/'
        },
{
}

/// A walk goes on below a directory that is trusted, name after name. At the last one it restricts it, or is
/// done; and it ends at the first that is not trusted.
pub proof fn law_walk_goes_below_trusted_directories(
    walk: &mut SecureDirWalk,
    directory: DirectoryFacts,
    step: WalkStep,
)
    requires
        call_ensures(SecureDirWalk::on_opened, (walk, directory), step),
        old(walk)@.index < old(walk)@.names.len(),
        forall|i: int|
            0 <= i < old(walk)@.names.len() ==> !(#[trigger] old(walk)@.names[i]).contains('\0'),
    ensures
        ({
            let before = old(walk)@;
            let user = before.effective_uid;
            let trusted = directory.is_dir && (directory.uid == user || directory.uid == 0) && (
            directory.mode & 0o022 == 0 || directory.mode & 0o1000 != 0);
            let own = directory.is_dir && directory.uid == user;
            let start = before.stage is Start;
            let at_last = !start && before.index + 1 == before.names.len();
            &&& start && trusted ==> step is OpenBelow && step->OpenBelow_name@ == before.names[0]
                && final(walk)@.index == 0 && final(walk)@.stage is Open
            &&& !start && !at_last && trusted ==> step is OpenBelow && step->OpenBelow_name@
                == before.names[before.index as int + 1] && final(walk)@.index == before.index + 1
                && final(walk)@.stage is Open
            &&& !at_last && !trusted ==> step is Failed && final(walk)@.stage is Over
            &&& at_last && !own ==> step is Failed && final(walk)@.stage is Over
            &&& at_last && own && before.restrict_final ==> step is Restrict
                && final(walk)@.stage is Restrict && final(walk)@.identity == directory.identity
            &&& at_last && own && !before.restrict_final ==> step == WalkStep::Done(directory.identity)
                && final(walk)@.stage is Over
        }),
{
}

/// A directory that is missing is created if that is wanted, and opened again; anything else ends the walk.
pub proof fn law_missing_directory_is_created(
    walk: &mut SecureDirWalk,
    in_the_way: bool,
    error: IoError,
    step: WalkStep,
    creating: &mut SecureDirWalk,
    result: Result<(), IoError>,
    next: WalkStep,
)
    requires
        call_ensures(SecureDirWalk::on_open_failed, (walk, in_the_way, error), step),
        call_ensures(SecureDirWalk::on_created, (creating, result), next),
    ensures
        ({
            let create = old(walk)@.stage is Open && !in_the_way && old(walk)@.create_missing
                && error.kind is NotFound;
            &&& create ==> step is Create && step->Create_name@ == old(walk)@.names[old(
                walk,
            )@.index as int] && final(walk)@.stage is Create
            &&& !create ==> step is Failed && final(walk)@.stage is Over
        }),
        ({
            let there = result is Ok || result->Err_0.kind is AlreadyExists;
            &&& there ==> next is OpenBelow && next->OpenBelow_name@ == old(creating)@.names[old(
                creating,
            )@.index as int] && final(creating)@.stage is Reopen
            &&& !there ==> next is Failed && final(creating)@.stage is Over
        }),
{
}

/// The last directory is restricted only if it is one's own, and the walk gives the directory that was
/// opened.
pub proof fn law_own_directory_is_restricted(
    walk: &SecureDirWalk,
    directory: &DirectoryFacts,
    may: PtyResult<()>,
    restricting: &mut SecureDirWalk,
    result: PtyResult<Result<(), IoError>>,
    step: WalkStep,
)
    requires
        call_ensures(SecureDirWalk::may_restrict, (walk, directory), may),
        call_ensures(SecureDirWalk::on_restricted, (restricting, result), step),
    ensures
        may is Ok <==> directory.is_dir && directory.uid == walk@.effective_uid,
        final(restricting)@.stage is Over,
        result is Ok && result->Ok_0 is Ok ==> step == WalkStep::Done(old(restricting)@.identity),
        result is Ok && result->Ok_0 is Err ==> step is Failed,
        result is Err ==> step == WalkStep::Failed(result->Err_0),
{
}

// ---------------------------------------------------------------------------
// Sockets

/// A socket has a directory and a name, and at most 107 bytes; one for a moment has a name of 18 characters.
pub proof fn law_socket_path_is_checked(
    path: &str,
    place: PtyResult<(String, String)>,
    fits: PtyResult<()>,
    random: &[u8],
    name: String,
    len: usize,
    offset: usize,
    address: Result<usize, IoError>,
)
    requires
        call_ensures(socket_location, (path,), place),
        call_ensures(check_socket_path_length, (path,), fits),
        call_ensures(temp_name_for, (random,), name),
        call_ensures(socket_address_len, (len, offset), address),
    ensures
        place is Ok <==> path_parent_text(path@) is Some && path_file_name_text(path@) is Some,
        place is Ok ==> (place->Ok_0).0@ == path_parent_text(path@)->0 && (place->Ok_0).1@
            == path_file_name_text(path@)->0,
        fits is Ok <==> utf8_len(path@) <= 107,
        name@.len() == 18,
        name@ == ".t"@ + crate::codec::base64_url_text(random@),
        address is Ok <==> len < 108,
        address is Ok ==> address->Ok_0 == offset + len + 1,
{
}

/// The helper that binds passes its error on as its code, as far as that fits.
pub proof fn law_bind_error_is_passed_on(
    error: i32,
    code: i32,
    exit: Option<i32>,
    outcome: BindHelperOutcome,
)
    requires
        call_ensures(bind_helper_exit_code, (error,), code),
        call_ensures(bind_helper_outcome, (exit,), outcome),
    ensures
        0 <= error <= 255 ==> code == error,
        error < 0 ==> code == 0,
        error > 255 ==> code == 255,
        outcome is Bound <==> exit == Some(0i32),
        exit is Some && exit->0 != 0 ==> outcome == BindHelperOutcome::Refused(exit->0),
        exit is None ==> outcome is Crashed,
{
}

/// A name that is taken is tried again under another, eight times in all.
pub proof fn law_names_are_tried_eight_times(
    tries: &mut TempBindTries,
    result: Result<(), IoError>,
    path: &str,
    step: TempBindStep,
    fresh: TempBindTries,
)
    requires
        call_ensures(TempBindTries::on_bind, (tries, result, path), step),
        call_ensures(TempBindTries::new, (), fresh),
    ensures
        fresh.count() == 0,
        final(tries).count() == old(tries).count() + 1,
        step is Bound <==> result is Ok,
        step is TryAnother <==> result is Err && result->Err_0.kind is AddrInUse && old(tries).count() < 7,
        result is Err && !(result->Err_0.kind is AddrInUse) ==> step == TempBindStep::Failed(
            PtyError::Io(result->Err_0),
        ),
{
}

/// A publication checks its directory, removes what is there if it may, binds under another name, restricts
/// that, links it, checks what was linked and unlinks the other name; each step follows the one before.
pub proof fn law_publication_goes_step_by_step(
    publication: &mut SocketPublication,
    result: PtyResult<()>,
    after_directory: PublishStep,
    removing: &mut SocketPublication,
    after_removal: PublishStep,
    binding: &mut SocketPublication,
    bound: PtyResult<SupervisorPathIdentity>,
    after_bind: PublishStep,
    restricting: &mut SocketPublication,
    after_restriction: PublishStep,
)
    requires
        call_ensures(SocketPublication::on_directory, (publication, result), after_directory),
        old(publication)@.stage is CheckDirectory,
        call_ensures(SocketPublication::on_removed, (removing, result), after_removal),
        old(removing)@.stage is RemoveExisting,
        call_ensures(SocketPublication::on_bound, (binding, bound), after_bind),
        old(binding)@.stage is BindTemporary,
        call_ensures(SocketPublication::on_restricted, (restricting, result), after_restriction),
        old(restricting)@.stage is Restrict,
    ensures
        ({
            let fits = utf8_len(old(publication)@.socket_path) <= 107;
            &&& result is Ok && fits && old(publication)@.remove_existing
                ==> after_directory is RemoveExisting && final(publication)@.stage is RemoveExisting
            &&& result is Ok && fits && !old(publication)@.remove_existing
                ==> after_directory is BindTemporary && final(publication)@.stage is BindTemporary
            &&& result is Err || !fits ==> after_directory is Failed && final(publication)@.stage is Over
            &&& result is Err ==> after_directory->Failed_0@ == result->Err_0@
        }),
        result is Ok ==> after_removal is BindTemporary && final(removing)@.stage is BindTemporary,
        result is Err ==> after_removal is Failed && after_removal->Failed_0@ == result->Err_0@,
        bound is Ok ==> after_bind == PublishStep::Restrict(bound->Ok_0) && final(binding)@.identity
            == bound->Ok_0 && final(binding)@.stage is Restrict,
        bound is Err ==> after_bind is Failed && after_bind->Failed_0@ == bound->Err_0@,
        result is Ok ==> after_restriction is Link && final(restricting)@.stage is Link,
        result is Err ==> after_restriction == PublishStep::CleanUp(old(restricting)@.identity)
            && final(restricting)@.stage is CleanUp && final(restricting)@.error == Some(
            result->Err_0@,
        ),
{
}

/// The last steps: what was linked has to be what was bound, and then the publication is done with it.
/// A failure cleans up first and is reported afterwards.
pub proof fn law_published_socket_is_the_bound_one(
    linking: &mut SocketPublication,
    linked: Result<(), IoError>,
    after_link: PublishStep,
    checking: &mut SocketPublication,
    found: PtyResult<SupervisorPathIdentity>,
    after_check: PublishStep,
    unlinking: &mut SocketPublication,
    unlinked: PtyResult<()>,
    after_unlink: PublishStep,
    cleaning: &mut SocketPublication,
    last: PublishStep,
)
    requires
        call_ensures(SocketPublication::on_linked, (linking, linked), after_link),
        old(linking)@.stage is Link,
        call_ensures(SocketPublication::on_published, (checking, found), after_check),
        old(checking)@.stage is OpenPublished,
        call_ensures(SocketPublication::on_unlinked, (unlinking, unlinked), after_unlink),
        old(unlinking)@.stage is UnlinkTemporary,
        call_ensures(SocketPublication::on_cleaned_up, (cleaning,), last),
        old(cleaning)@.stage is CleanUp,
    ensures
        linked is Ok ==> after_link is OpenPublished && final(linking)@.stage is OpenPublished,
        linked is Err ==> after_link == PublishStep::CleanUp(old(linking)@.identity),
        found is Ok && found->Ok_0 == old(checking)@.identity ==> after_check
            == PublishStep::UnlinkTemporary(found->Ok_0) && final(checking)@.stage is UnlinkTemporary,
        found is Err || found->Ok_0 != old(checking)@.identity ==> after_check == PublishStep::CleanUp(
            old(checking)@.identity,
        ) && final(checking)@.stage is CleanUp,
        unlinked is Ok ==> after_unlink == PublishStep::Done(old(unlinking)@.identity)
            && final(unlinking)@.stage is Over,
        unlinked is Err ==> after_unlink == PublishStep::CleanUp(old(unlinking)@.identity),
        last is Failed,
        Some(last->Failed_0@) == old(cleaning)@.error,
        final(cleaning)@.stage is Over,
{
}

/// A new publication begins with its directory.
pub proof fn law_publication_begins_with_its_directory(
    path: &str,
    remove: bool,
    res: (SocketPublication, PublishStep),
)
    requires
        call_ensures(SocketPublication::begin, (path, remove), res),
    ensures
        (res.0)@.socket_path == path@,
        (res.0)@.remove_existing == remove,
        (res.0)@.stage is CheckDirectory,
        res.1 is CheckDirectory,
{
}

/// A socket that is gone is bound again, one that was replaced is broken, and before a bind only what is
/// really there is removed.
pub proof fn law_socket_is_healthy_while_it_is_the_bound_one(
    bound: SupervisorPathIdentity,
    opened: PtyResult<SupervisorPathIdentity>,
    path: &str,
    health: SocketHealth,
    existing: ExistingSocket,
)
    requires
        call_ensures(socket_health, (bound, opened, path), health),
        call_ensures(existing_socket, (opened,), existing),
    ensures
        ({
            let gone = opened is Err && opened->Err_0 is Io && opened->Err_0->Io_0.kind is NotFound;
            &&& health is Bound <==> opened is Ok && opened->Ok_0 == bound
            &&& health is Rebind <==> gone
            &&& existing is Absent <==> gone
            &&& opened is Ok ==> existing == ExistingSocket::Unlink(opened->Ok_0)
            &&& opened is Err && !gone ==> existing == ExistingSocket::Failed(opened->Err_0) && health
                == SocketHealth::Broken(opened->Err_0)
        }),
{
}

/// A failure on a path says what went wrong and where.
pub proof fn law_failure_names_the_path(
    reason: &str,
    path: &str,
    error: PtyError,
    cause: &IoError,
    failure: PtyError,
)
    requires
        call_ensures(path_error, (reason, path), error),
        call_ensures(restrict_socket_error, (path, cause), failure),
    ensures
        error@ == PtyErrorModel::Backend(reason@ + path@),
        failure@ == PtyErrorModel::Backend(
            "failed to restrict supervisor socket permissions at "@ + path@ + ": "@ + cause.message@,
        ),
{
}

} // verus!
