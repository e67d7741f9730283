//! The startup grant: what a daemon hands to the supervisor process that it has just started.

use crate::codec::{draw_random_bytes, may_be_drawn, sha256, sha256_digest};
use crate::pty::supervisor::cleanup_auth::secret_view;
use crate::pty::{PtyError, PtyErrorModel, PtyResult};
use crate::text::bytes_equal;
use vstd::prelude::*;
use vstd::slice::{slice_subrange, slice_to_vec};
use vstd::utf8::encode_utf8;

verus! {

/// The length of a cleanup capability.
pub const CLEANUP_CAPABILITY_BYTES: usize = 32;

/// The length of an encoded startup grant.
pub const STARTUP_GRANT_BYTES: usize = 124;

/// The identity of a create operation and the capability that may later clean the session up.
#[derive(Clone, Copy, Debug, PartialEq, Eq)]
pub struct PtyStartupGrant {
    create_operation_id: [u8; 16],
    capability: [u8; 32],
}

impl PtyStartupGrant {
    /// The bytes of the create operation.
    pub closed spec fn spec_operation(&self) -> Seq<u8> {
        self.create_operation_id@
    }

    /// The bytes of the capability.
    pub closed spec fn spec_capability(&self) -> Seq<u8> {
        self.capability@
    }

    /// A grant for an operation with a capability.
    pub fn new(create_operation_id: [u8; 16], capability: [u8; 32]) -> (grant: Self)
        ensures
            grant.spec_operation() == create_operation_id@,
            grant.spec_capability() == capability@,
    {
        PtyStartupGrant { create_operation_id, capability }
    }

    /// The identity of the create operation.
    pub fn create_operation_id(&self) -> (id: &[u8; 16])
        ensures
            id@ == self.spec_operation(),
    {
        &self.create_operation_id
    }

    /// The cleanup capability.
    pub fn capability(&self) -> (capability: &[u8; 32])
        ensures
            capability@ == self.spec_capability(),
    {
        &self.capability
    }
}

/// What a supervisor keeps of a valid grant.
#[derive(Clone, Copy, Debug, PartialEq, Eq)]
pub struct ValidatedStartupGrant {
    pub cleanup_capability: [u8; 32],
}

/// The four big-endian bytes of a number.
pub open spec fn be_bytes(n: u32) -> Seq<u8> {
    seq![
        (n / 0x100_0000) as u8,
        (n / 0x1_0000 % 0x100) as u8,
        (n / 0x100 % 0x100) as u8,
        (n % 0x100) as u8,
    ]
}

/// The marker at the start of a grant.
pub open spec fn grant_magic() -> Seq<u8> {
    encode_utf8("TMDGRT01"@)
}

/// The part of a grant that binds it to a session, a socket and a process.
pub open spec fn grant_binding(session_id: Seq<char>, socket_path: Seq<char>, pid: u32) -> Seq<u8> {
    sha256_digest(encode_utf8(session_id)) + sha256_digest(encode_utf8(socket_path)) + be_bytes(pid)
}

/// The bytes of a grant.
pub open spec fn grant_frame(
    operation: Seq<u8>,
    capability: Seq<u8>,
    session_id: Seq<char>,
    socket_path: Seq<char>,
    pid: u32,
) -> Seq<u8> {
    grant_magic() + operation + capability + grant_binding(session_id, socket_path, pid)
}

/// A frame has the length and the marker of a grant.
pub open spec fn grant_is_well_formed(frame: Seq<u8>) -> bool {
    frame.len() == STARTUP_GRANT_BYTES && frame.subrange(0, 8) == grant_magic()
}

/// A well-formed frame is bound to this session, socket and process.
pub open spec fn grant_is_bound(
    frame: Seq<u8>,
    session_id: Seq<char>,
    socket_path: Seq<char>,
    pid: u32,
) -> bool {
    frame.subrange(56, 124) == grant_binding(session_id, socket_path, pid)
}

/// The digest that binds a grant to a text.
pub fn startup_binding_hash(bytes: &[u8]) -> (hash: [u8; 32])
    ensures
        hash@ == sha256_digest(bytes@),
{
    sha256(bytes)
}

fn binding(session_id: &str, socket_path: &str, supervisor_pid: u32) -> (bytes: Vec<u8>)
    ensures
        bytes@ == grant_binding(session_id@, socket_path@, supervisor_pid),
        bytes@.len() == 68,
{
    let session_hash = startup_binding_hash(session_id.as_bytes());
    let socket_hash = startup_binding_hash(socket_path.as_bytes());
    let mut bytes: Vec<u8> = slice_to_vec(session_hash.as_slice());
    let mut tail: Vec<u8> = slice_to_vec(socket_hash.as_slice());
    bytes.append(&mut tail);
    bytes.push((supervisor_pid / 0x100_0000) as u8);
    bytes.push((supervisor_pid / 0x1_0000 % 0x100) as u8);
    bytes.push((supervisor_pid / 0x100 % 0x100) as u8);
    bytes.push((supervisor_pid % 0x100) as u8);
    assert(bytes@ =~= grant_binding(session_id@, socket_path@, supervisor_pid));
    bytes
}

proof fn lemma_magic_len()
    ensures
        grant_magic().len() == 8,
{
    reveal_strlit("TMDGRT01");
    vstd::utf8::is_ascii_chars_encode_utf8("TMDGRT01"@);
}

/// Encodes a grant for a session, a socket and a process.
pub fn encode_startup_grant(
    grant: &PtyStartupGrant,
    session_id: &str,
    socket_path: &str,
    supervisor_pid: u32,
) -> (frame: Vec<u8>)
    ensures
        frame@ == grant_frame(
            grant.spec_operation(),
            grant.spec_capability(),
            session_id@,
            socket_path@,
            supervisor_pid,
        ),
        frame@.len() == STARTUP_GRANT_BYTES,
{
    proof {
        lemma_magic_len();
    }
    let mut frame: Vec<u8> = slice_to_vec("TMDGRT01".as_bytes());
    let mut operation: Vec<u8> = slice_to_vec(grant.create_operation_id.as_slice());
    let mut capability: Vec<u8> = slice_to_vec(grant.capability.as_slice());
    let mut bound: Vec<u8> = binding(session_id, socket_path, supervisor_pid);
    frame.append(&mut operation);
    frame.append(&mut capability);
    frame.append(&mut bound);
    frame
}

/// Checks the bytes that arrived as a grant, and takes the capability out of them.
///
/// The caller reads at most one byte more than a grant has, so a longer frame is seen as too long.
pub fn validate_startup_grant(
    frame: &[u8],
    session_id: &str,
    socket_path: &str,
    supervisor_pid: u32,
) -> (res: PtyResult<ValidatedStartupGrant>)
    ensures
        res is Ok <==> grant_is_well_formed(frame@) && grant_is_bound(
            frame@,
            session_id@,
            socket_path@,
            supervisor_pid,
        ),
        res matches Ok(grant) ==> grant.cleanup_capability@ == frame@.subrange(24, 56),
        res matches Err(e) ==> e@ == PtyErrorModel::Backend(
            if !grant_is_well_formed(frame@) {
                "session supervisor startup grant is invalid"@
            } else {
                "session supervisor startup grant binding is invalid"@
            },
        ),
{
    if frame.len() != STARTUP_GRANT_BYTES || !bytes_equal(
        slice_subrange(frame, 0, 8),
        "TMDGRT01".as_bytes(),
    ) {
        return Err(PtyError::backend_message("session supervisor startup grant is invalid"));
    }
    let expected: Vec<u8> = binding(session_id, socket_path, supervisor_pid);
    if !bytes_equal(slice_subrange(frame, 56, 124), expected.as_slice()) {
        return Err(PtyError::backend_message("session supervisor startup grant binding is invalid"));
    }
    let cleanup_capability = bytes_to_32(slice_subrange(frame, 24, 56));
    Ok(ValidatedStartupGrant { cleanup_capability })
}

/// Copies a slice of 32 bytes into an array.
pub fn bytes_to_32(bytes: &[u8]) -> (array: [u8; 32])
    requires
        bytes@.len() == 32,
    ensures
        array@ == bytes@,
{
    let mut array: [u8; 32] = [0u8; 32];
    let mut i: usize = 0;
    while i < 32
        invariant
            i <= 32,
            bytes@.len() == 32,
            forall|k: int| 0 <= k < i ==> array@[k] == bytes@[k],
        decreases 32 - i,
    {
        array[i] = bytes[i];
        i = i + 1;
    }
    assert(array@ =~= bytes@);
    array
}

/// Copies a slice of 16 bytes into an array.
pub fn bytes_to_16(bytes: &[u8]) -> (array: [u8; 16])
    requires
        bytes@.len() == 16,
    ensures
        array@ == bytes@,
{
    let mut array: [u8; 16] = [0u8; 16];
    let mut i: usize = 0;
    while i < 16
        invariant
            i <= 16,
            bytes@.len() == 16,
            forall|k: int| 0 <= k < i ==> array@[k] == bytes@[k],
        decreases 16 - i,
    {
        array[i] = bytes[i];
        i = i + 1;
    }
    assert(array@ =~= bytes@);
    array
}

/// What a draw of random bytes comes to: the bytes, or the message of the random source as an error.
pub open spec fn draw_outcome(drawn: Result<Vec<u8>, String>) -> Result<Seq<u8>, PtyErrorModel> {
    match drawn {
        Ok(bytes) => Ok(bytes@),
        Err(reason) => Err(PtyErrorModel::Backend(reason@)),
    }
}

/// The bytes of a result, or its error.
pub open spec fn identity_view(result: PtyResult<[u8; 16]>) -> Result<Seq<u8>, PtyErrorModel> {
    match result {
        Ok(bytes) => Ok(bytes@),
        Err(error) => Err(error@),
    }
}

/// Turns a draw of 32 bytes into an array.
pub fn drawn_32(drawn: Result<Vec<u8>, String>) -> (res: PtyResult<[u8; 32]>)
    requires
        drawn matches Ok(bytes) ==> bytes@.len() == 32,
    ensures
        secret_view(res) == draw_outcome(drawn),
{
    match drawn {
        Ok(bytes) => Ok(bytes_to_32(bytes.as_slice())),
        Err(reason) => Err(PtyError::Backend(reason)),
    }
}

/// Turns a draw of 16 bytes into an array.
pub fn drawn_16(drawn: Result<Vec<u8>, String>) -> (res: PtyResult<[u8; 16]>)
    requires
        drawn matches Ok(bytes) ==> bytes@.len() == 16,
    ensures
        identity_view(res) == draw_outcome(drawn),
{
    match drawn {
        Ok(bytes) => Ok(bytes_to_16(bytes.as_slice())),
        Err(reason) => Err(PtyError::Backend(reason)),
    }
}

/// A fresh random capability: exactly the bytes that one draw gave, or why it gave none.
pub fn random_cleanup_capability() -> (res: PtyResult<[u8; 32]>)
    ensures
        exists|drawn: Result<Vec<u8>, String>| #[trigger]
            may_be_drawn(CLEANUP_CAPABILITY_BYTES, drawn) && secret_view(res) == draw_outcome(drawn),
{
    drawn_32(draw_random_bytes(CLEANUP_CAPABILITY_BYTES))
}

/// Sixteen fresh random bytes: exactly the bytes that one draw gave, or why it gave none.
pub fn random_16_bytes() -> (res: PtyResult<[u8; 16]>)
    ensures
        exists|drawn: Result<Vec<u8>, String>| #[trigger]
            may_be_drawn(16, drawn) && identity_view(res) == draw_outcome(drawn),
{
    drawn_16(draw_random_bytes(16))
}

/// A supervisor accepts the grant that was made for it, and takes the same capability out of it.
pub proof fn law_grant_round_trip(
    operation: Seq<u8>,
    capability: Seq<u8>,
    session_id: Seq<char>,
    socket_path: Seq<char>,
    pid: u32,
)
    requires
        operation.len() == 16,
        capability.len() == 32,
    ensures
        ({
            let frame = grant_frame(operation, capability, session_id, socket_path, pid);
            &&& grant_is_well_formed(frame)
            &&& grant_is_bound(frame, session_id, socket_path, pid)
            &&& frame.subrange(24, 56) == capability
        }),
{
    lemma_magic_len();
    let frame = grant_frame(operation, capability, session_id, socket_path, pid);
    assert(frame.subrange(0, 8) =~= grant_magic());
    assert(frame.subrange(56, 124) =~= grant_binding(session_id, socket_path, pid));
    assert(frame.subrange(24, 56) =~= capability);
}

/// A grant that was made for another process is refused.
pub proof fn law_grant_is_bound_to_its_process(
    operation: Seq<u8>,
    capability: Seq<u8>,
    session_id: Seq<char>,
    socket_path: Seq<char>,
    pid: u32,
    other: u32,
)
    requires
        operation.len() == 16,
        capability.len() == 32,
        pid != other,
    ensures
        !grant_is_bound(
            grant_frame(operation, capability, session_id, socket_path, pid),
            session_id,
            socket_path,
            other,
        ),
{
    law_grant_round_trip(operation, capability, session_id, socket_path, pid);
    let a = grant_binding(session_id, socket_path, pid);
    let b = grant_binding(session_id, socket_path, other);
    if a == b {
        assert(a[64] == be_bytes(pid)[0] && b[64] == be_bytes(other)[0]);
        assert(a[65] == be_bytes(pid)[1] && b[65] == be_bytes(other)[1]);
        assert(a[66] == be_bytes(pid)[2] && b[66] == be_bytes(other)[2]);
        assert(a[67] == be_bytes(pid)[3] && b[67] == be_bytes(other)[3]);
        lemma_be_bytes_value(pid);
        lemma_be_bytes_value(other);
    }
}

proof fn lemma_be_bytes_value(n: u32)
    ensures
        n == 0x100_0000 * be_bytes(n)[0] + 0x1_0000 * be_bytes(n)[1] + 0x100 * be_bytes(n)[2]
            + be_bytes(n)[3],
{
    assert(n / 0x100_0000 <= 0xff);
    assert(n / 0x1_0000 == n / 0x100 / 0x100);
    assert(n / 0x100_0000 == n / 0x1_0000 / 0x100);
}

} // verus!
