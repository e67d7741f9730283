//! The challenge and response that lets a daemon without a controller connection close a session.

use crate::codec::{
    base64_bytes, base64_decode, draw_random_bytes, may_be_drawn, sha256, sha256_digest,
};
use crate::pty::supervisor::startup_grant::{bytes_to_32, draw_outcome, drawn_32};
use crate::pty::{PtyError, PtyErrorModel, PtyResult};
use vstd::prelude::*;
use vstd::slice::slice_to_vec;
use vstd::utf8::encode_utf8;

verus! {

/// The nonces of a challenge that has not been answered yet.
#[derive(Clone, Copy, Debug, PartialEq, Eq)]
pub struct PendingCleanupAuthentication {
    pub client_nonce: [u8; 32],
    pub server_nonce: [u8; 32],
}

/// A key block: the capability combined with a pad byte, filled up with the pad byte.
pub open spec fn key_block(capability: Seq<u8>, pad: u8) -> Seq<u8> {
    Seq::new(
        64,
        |i: int|
            if i < capability.len() {
                pad ^ capability[i]
            } else {
                pad
            },
    )
}

/// The proof that the owner of a capability gives for a pair of nonces.
pub open spec fn proof_digest(
    capability: Seq<u8>,
    session_id: Seq<char>,
    client_nonce: Seq<u8>,
    server_nonce: Seq<u8>,
) -> Seq<u8> {
    let message = encode_utf8("termd-supervisor-cleanup-v1\0"@) + encode_utf8(session_id) + seq![
        0u8,
    ] + client_nonce + server_nonce;
    sha256_digest(
        key_block(capability, 0x5c) + sha256_digest(key_block(capability, 0x36) + message),
    )
}

fn build_key_block(capability: &[u8; 32], pad: u8) -> (block: Vec<u8>)
    ensures
        block@ == key_block(capability@, pad),
{
    let mut block: Vec<u8> = Vec::new();
    let mut i: usize = 0;
    while i < 64
        invariant
            i <= 64,
            block@ == key_block(capability@, pad).take(i as int),
        decreases 64 - i,
    {
        if i < 32 {
            block.push(pad ^ capability[i]);
        } else {
            block.push(pad);
        }
        i = i + 1;
        assert(block@ =~= key_block(capability@, pad).take(i as int));
    }
    assert(key_block(capability@, pad).take(64) =~= key_block(capability@, pad));
    block
}

/// Computes the proof for a pair of nonces.
pub fn cleanup_auth_proof(
    capability: &[u8; 32],
    session_id: &str,
    client_nonce: &[u8; 32],
    server_nonce: &[u8; 32],
) -> (digest: [u8; 32])
    ensures
        digest@ == proof_digest(capability@, session_id@, client_nonce@, server_nonce@),
{
    let mut inner: Vec<u8> = build_key_block(capability, 0x36);
    let mut label: Vec<u8> = slice_to_vec("termd-supervisor-cleanup-v1\0".as_bytes());
    let mut session: Vec<u8> = slice_to_vec(session_id.as_bytes());
    let mut client: Vec<u8> = slice_to_vec(client_nonce.as_slice());
    let mut server: Vec<u8> = slice_to_vec(server_nonce.as_slice());
    inner.append(&mut label);
    inner.append(&mut session);
    inner.push(0u8);
    inner.append(&mut client);
    inner.append(&mut server);
    proof {
        let message = encode_utf8("termd-supervisor-cleanup-v1\0"@) + encode_utf8(session_id@)
            + seq![0u8] + client_nonce@ + server_nonce@;
        assert(inner@ =~= key_block(capability@, 0x36) + message);
    }
    let inner_digest = sha256(inner.as_slice());
    let mut outer: Vec<u8> = build_key_block(capability, 0x5c);
    let mut tail: Vec<u8> = slice_to_vec(inner_digest.as_slice());
    outer.append(&mut tail);
    sha256(outer.as_slice())
}

proof fn lemma_or_zero(a: usize, b: usize)
    ensures
        (a | b) == 0 <==> a == 0 && b == 0,
{
    assert((a | b) == 0 <==> a == 0 && b == 0) by (bit_vector);
}

proof fn lemma_xor_zero(a: u8, b: u8)
    ensures
        (a ^ b) == 0 <==> a == b,
{
    assert((a ^ b) == 0 <==> a == b) by (bit_vector);
}

proof fn lemma_xor_zero_len(a: usize, b: usize)
    ensures
        (a ^ b) == 0 <==> a == b,
{
    assert((a ^ b) == 0 <==> a == b) by (bit_vector);
}

/// Compares two byte strings without stopping at the first difference.
pub fn constant_time_eq(left: &[u8], right: &[u8]) -> (equal: bool)
    ensures
        equal == (left@ == right@),
{
    let mut difference: usize = left.len() ^ right.len();
    proof {
        lemma_xor_zero_len(left.len(), right.len());
    }
    let longest: usize = if left.len() >= right.len() {
        left.len()
    } else {
        right.len()
    };
    let mut index: usize = 0;
    while index < longest
        invariant
            index <= longest,
            longest >= left@.len(),
            longest >= right@.len(),
            left@.len() == right@.len() ==> longest == left@.len(),
            difference == 0 ==> left@.len() == right@.len(),
            left@.len() == right@.len() ==> (difference == 0 <==> (forall|k: int|
                0 <= k < index ==> left@[k] == right@[k])),
        decreases longest - index,
    {
        let left_byte: u8 = if index < left.len() {
            left[index]
        } else {
            0
        };
        let right_byte: u8 = if index < right.len() {
            right[index]
        } else {
            0
        };
        let mixed: u8 = left_byte ^ right_byte;
        proof {
            lemma_xor_zero(left_byte, right_byte);
            lemma_or_zero(difference, mixed as usize);
        }
        difference = difference | (mixed as usize);
        index = index + 1;
    }
    proof {
        if difference == 0 {
            assert(left@ =~= right@);
        }
    }
    difference == 0
}

/// What a decoded secret of 32 bytes is: the bytes, or why there are none.
pub open spec fn decoded_32(text: Seq<char>, wrong_length: Seq<char>) -> Result<Seq<u8>, PtyErrorModel> {
    match base64_bytes(text) {
        Err(reason) => Err(PtyErrorModel::Backend(reason)),
        Ok(bytes) => if bytes.len() == 32 {
            Ok(bytes)
        } else {
            Err(PtyErrorModel::Backend(wrong_length))
        },
    }
}

/// A secret by its contents.
pub open spec fn secret_view(result: PtyResult<[u8; 32]>) -> Result<Seq<u8>, PtyErrorModel> {
    match result {
        Ok(bytes) => Ok(bytes@),
        Err(error) => Err(error@),
    }
}

fn exactly_32(decoded: Result<Vec<u8>, String>, wrong_length: &str) -> (res: PtyResult<[u8; 32]>)
    ensures
        secret_view(res) == (match decoded {
            Err(reason) => Err::<Seq<u8>, PtyErrorModel>(PtyErrorModel::Backend(reason@)),
            Ok(bytes) => if bytes@.len() == 32 {
                Ok(bytes@)
            } else {
                Err(PtyErrorModel::Backend(wrong_length@))
            },
        }),
{
    match decoded {
        Err(reason) => Err(PtyError::Backend(reason)),
        Ok(bytes) => {
            if bytes.len() == 32 {
                Ok(bytes_to_32(bytes.as_slice()))
            } else {
                Err(PtyError::backend_message(wrong_length))
            }
        },
    }
}

/// What a capability in base64 decodes to.
pub open spec fn decoded_capability(text: Seq<char>) -> Result<Seq<u8>, PtyErrorModel> {
    decoded_32(text, "invalid session supervisor cleanup capability length"@)
}

/// What a nonce in base64 decodes to.
pub open spec fn decoded_nonce(text: Seq<char>) -> Result<Seq<u8>, PtyErrorModel> {
    decoded_32(text, "invalid session supervisor cleanup authentication nonce"@)
}

/// Decodes a cleanup capability.
pub fn decode_cleanup_capability(encoded: &str) -> (res: PtyResult<[u8; 32]>)
    ensures
        secret_view(res) == decoded_capability(encoded@),
{
    exactly_32(base64_decode(encoded), "invalid session supervisor cleanup capability length")
}

/// Decodes an authentication nonce.
pub fn decode_cleanup_nonce(encoded: &str) -> (res: PtyResult<[u8; 32]>)
    ensures
        secret_view(res) == decoded_nonce(encoded@),
{
    exactly_32(base64_decode(encoded), "invalid session supervisor cleanup authentication nonce")
}

/// A fresh random nonce: exactly the bytes that one draw gave, or why it gave none.
pub fn random_cleanup_nonce() -> (res: PtyResult<[u8; 32]>)
    ensures
        exists|drawn: Result<Vec<u8>, String>| #[trigger]
            may_be_drawn(32, drawn) && secret_view(res) == draw_outcome(drawn),
{
    drawn_32(draw_random_bytes(32))
}

/// The number that eight little-endian bytes stand for.
pub open spec fn little_endian_number(bytes: Seq<u8>) -> int {
    bytes[0] + 0x100 * bytes[1] + 0x1_0000 * bytes[2] + 0x100_0000 * bytes[3] + 0x1_0000_0000
        * bytes[4] + 0x100_0000_0000 * bytes[5] + 0x1_0000_0000_0000 * bytes[6]
        + 0x100_0000_0000_0000 * bytes[7]
}

/// The number that eight little-endian bytes stand for, or nothing where it is zero.
pub fn nonzero_from_bytes(bytes: &[u8]) -> (value: Option<u64>)
    requires
        bytes@.len() == 8,
    ensures
        value is None <==> (forall|i: int| 0 <= i < 8 ==> bytes@[i] == 0),
        value is None <==> little_endian_number(bytes@) == 0,
        value matches Some(v) ==> v == little_endian_number(bytes@),
{
    let value: u64 = bytes[0] as u64 + 0x100 * bytes[1] as u64 + 0x1_0000 * bytes[2] as u64
        + 0x100_0000 * bytes[3] as u64 + 0x1_0000_0000 * bytes[4] as u64 + 0x100_0000_0000
        * bytes[5] as u64 + 0x1_0000_0000_0000 * bytes[6] as u64 + 0x100_0000_0000_0000
        * bytes[7] as u64;
    if value == 0 {
        None
    } else {
        Some(value)
    }
}

/// How often a number is drawn before a source that gives only zeros counts as broken.
pub const NONZERO_DRAWS: usize = 64;

/// A draw of eight bytes gave the number zero.
pub open spec fn is_zero_draw(drawn: Result<Vec<u8>, String>) -> bool {
    drawn matches Ok(bytes) && little_endian_number(bytes@) == 0
}

/// Draws that went on for as long as they gave zero, and no longer than allowed.
pub open spec fn drawn_until_nonzero(draws: Seq<Result<Vec<u8>, String>>) -> bool {
    &&& 0 < draws.len() <= NONZERO_DRAWS
    &&& forall|i: int| 0 <= i < draws.len() ==> may_be_drawn(8, #[trigger] draws[i])
    &&& forall|i: int| 0 <= i < draws.len() - 1 ==> is_zero_draw(#[trigger] draws[i])
    &&& is_zero_draw(draws.last()) ==> draws.len() == NONZERO_DRAWS
}

/// What the last of such draws comes to: its number, or why there is none.
pub open spec fn nonzero_outcome(drawn: Result<Vec<u8>, String>) -> Result<int, PtyErrorModel> {
    match drawn {
        Ok(bytes) => if little_endian_number(bytes@) == 0 {
            Err(PtyErrorModel::Backend("operating system random source returns only zeros"@))
        } else {
            Ok(little_endian_number(bytes@))
        },
        Err(reason) => Err(PtyErrorModel::Backend(reason@)),
    }
}

/// A fresh random number that is never zero: the first one drawn that is not zero.
///
/// Drawing zero many times in a row counts as a failure of the random source.
pub fn random_nonzero_u64() -> (res: PtyResult<u64>)
    ensures
        exists|draws: Seq<Result<Vec<u8>, String>>| #[trigger]
            drawn_until_nonzero(draws) && nonzero_outcome(draws.last()) == (match res {
                Ok(value) => Ok(value as int),
                Err(error) => Err(error@),
            }),
        res matches Ok(value) ==> value != 0,
{
    let ghost mut draws: Seq<Result<Vec<u8>, String>> = Seq::empty();
    let mut attempt: usize = 0;
    while attempt < NONZERO_DRAWS
        invariant
            attempt <= NONZERO_DRAWS,
            draws.len() == attempt,
            forall|i: int| 0 <= i < attempt ==> may_be_drawn(8, #[trigger] draws[i]),
            forall|i: int| 0 <= i < attempt ==> is_zero_draw(#[trigger] draws[i]),
        decreases NONZERO_DRAWS - attempt,
    {
        let drawn = draw_random_bytes(8);
        proof {
            draws = draws.push(drawn);
        }
        match drawn {
            Ok(bytes) => {
                if let Some(value) = nonzero_from_bytes(bytes.as_slice()) {
                    assert(drawn_until_nonzero(draws));
                    return Ok(value);
                }
            },
            Err(reason) => {
                assert(drawn_until_nonzero(draws));
                return Err(PtyError::Backend(reason));
            },
        }
        attempt = attempt + 1;
    }
    assert(drawn_until_nonzero(draws));
    Err(PtyError::backend_message("operating system random source returns only zeros"))
}

} // verus!
