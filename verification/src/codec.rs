//! Encodings, digests and randomness that come from outside crates.

use base64::engine::general_purpose;
use base64::Engine;
use rand_core::{OsRng, RngCore};
use sha2::{Digest, Sha256};
use vstd::prelude::*;

verus! {

/// The standard padded base64 text of a byte sequence.
pub uninterp spec fn base64_text(bytes: Seq<u8>) -> Seq<char>;

/// What standard padded base64 decoding makes of a text: the bytes, or the reason why there are none.
pub uninterp spec fn base64_bytes(text: Seq<char>) -> Result<Seq<u8>, Seq<char>>;

/// The URL-safe unpadded base64 text of a byte sequence.
pub uninterp spec fn base64_url_text(bytes: Seq<u8>) -> Seq<char>;

/// The SHA-256 digest of a byte sequence, as an array.
pub uninterp spec fn sha256_array(bytes: Seq<u8>) -> [u8; 32];

/// The SHA-256 digest of a byte sequence, as a sequence of 32 bytes.
pub open spec fn sha256_digest(bytes: Seq<u8>) -> Seq<u8> {
    sha256_array(bytes)@
}

/// Encodes bytes with `base64::engine::general_purpose::STANDARD.encode`.
///
/// The result is a function of the bytes, decoding it with the same engine gives them back, and the
/// standard alphabet has no `-`. The
/// bound leaves out inputs whose encoded length does not fit in a `usize`, on which the call panics.
#[verifier::external_body]
pub(crate) fn base64_encode(bytes: &[u8]) -> (text: String)
    requires
        (bytes@.len() + 2) / 3 * 4 <= usize::MAX,
    ensures
        text@ == base64_text(bytes@),
        base64_bytes(text@) is Ok && base64_bytes(text@)->Ok_0 == bytes@,
        !text@.contains('-'),
{
    general_purpose::STANDARD.encode(bytes)
}

/// A decoding result by its contents.
pub open spec fn decoded_view(result: Result<Vec<u8>, String>) -> Result<Seq<u8>, Seq<char>> {
    match result {
        Ok(bytes) => Ok(bytes@),
        Err(reason) => Err(reason@),
    }
}

/// Decodes text with `base64::engine::general_purpose::STANDARD.decode`; a failure is turned into
/// its displayed message.
///
/// The result is a function of the text.
#[verifier::external_body]
pub(crate) fn base64_decode(text: &str) -> (bytes: Result<Vec<u8>, String>)
    ensures
        decoded_view(bytes) == base64_bytes(text@),
{
    general_purpose::STANDARD.decode(text).map_err(|error| error.to_string())
}

/// Encodes bytes with `base64::engine::general_purpose::URL_SAFE_NO_PAD.encode`.
///
/// The result is a function of the bytes. Without padding, every three bytes give four characters,
/// and one or two bytes that remain give two or three; all of them are ASCII. The bound leaves out
/// inputs whose encoded length does not fit in a `usize`, on which the call panics.
#[verifier::external_body]
pub(crate) fn base64_url_encode(bytes: &[u8]) -> (text: String)
    requires
        (bytes@.len() + 2) / 3 * 4 <= usize::MAX,
    ensures
        text@ == base64_url_text(bytes@),
        text@.len() == (bytes@.len() * 4 + 2) / 3,
        vstd::utf8::is_ascii_chars(text@),
{
    general_purpose::URL_SAFE_NO_PAD.encode(bytes)
}

/// Digests bytes with `sha2::Sha256::digest`.
///
/// The 32 bytes are a function of the input.
#[verifier::external_body]
pub(crate) fn sha256(bytes: &[u8]) -> (digest: [u8; 32])
    ensures
        digest == sha256_array(bytes@),
{
    Sha256::digest(bytes).into()
}

/// Takes random bytes from the operating system with `rand_core::OsRng.try_fill_bytes`; a failure is
/// turned into its displayed message.
///
/// Nothing is claimed of the bytes but their number.
#[verifier::external_body]
fn os_random_bytes(len: usize) -> (bytes: Result<Vec<u8>, String>)
    ensures
        bytes matches Ok(b) ==> b@.len() == len,
{
    let mut bytes = vec![0u8; len];
    match OsRng.try_fill_bytes(&mut bytes) {
        Ok(()) => Ok(bytes),
        Err(error) => Err(error.to_string()),
    }
}

/// A draw of so many bytes from the random source of the operating system may end this way.
pub closed spec fn may_be_drawn(len: usize, drawn: Result<Vec<u8>, String>) -> bool {
    call_ensures(os_random_bytes, (len,), drawn)
}

/// Draws random bytes from the operating system; a failure comes with its message.
pub(crate) fn draw_random_bytes(len: usize) -> (drawn: Result<Vec<u8>, String>)
    ensures
        may_be_drawn(len, drawn),
        drawn matches Ok(bytes) ==> bytes@.len() == len,
{
    os_random_bytes(len)
}

} // verus!
