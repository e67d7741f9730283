//! The length-prefixed framing of the supervisor protocol.
//!
//! A frame is a payload behind its length in four little-endian bytes. The size limit counts the
//! prefix.

use crate::pty::{IoError, IoErrorKind};
use vstd::prelude::*;
use vstd::slice::slice_to_vec;

verus! {

/// The largest frame, prefix and payload together.
pub const MAX_SUPERVISOR_FRAME_BYTES: usize = 8388608;

/// The largest payload of a frame.
pub const MAX_SUPERVISOR_PAYLOAD_BYTES: usize = 8388604;

/// The number that four little-endian bytes stand for.
pub open spec fn le_value(bytes: Seq<u8>) -> int
    recommends
        bytes.len() == 4,
{
    bytes[0] + 0x100 * bytes[1] + 0x1_0000 * bytes[2] + 0x100_0000 * bytes[3]
}

/// The four little-endian bytes of a number.
pub open spec fn le_bytes(n: nat) -> Seq<u8> {
    seq![
        (n % 0x100) as u8,
        (n / 0x100 % 0x100) as u8,
        (n / 0x1_0000 % 0x100) as u8,
        (n / 0x100_0000 % 0x100) as u8,
    ]
}

/// The frame of a payload.
pub open spec fn framed(payload: Seq<u8>) -> Seq<u8> {
    le_bytes(payload.len()) + payload
}

/// The message about a frame over the limit.
pub open spec fn too_large_text() -> Seq<char> {
    "session supervisor frame exceeds maximum of 8388608 bytes"@
}

/// The failure of a frame over the limit.
pub fn supervisor_frame_too_large() -> (error: IoError)
    ensures
        error.kind == IoErrorKind::InvalidData,
        error.message@ == too_large_text(),
{
    IoError::new(
        IoErrorKind::InvalidData,
        "session supervisor frame exceeds maximum of 8388608 bytes",
    )
}

/// A failure about malformed data.
pub fn invalid_data(message: &str) -> (error: IoError)
    ensures
        error.kind == IoErrorKind::InvalidData,
        error.message@ == message@,
{
    IoError::new(IoErrorKind::InvalidData, message)
}

/// Reads a length prefix; a payload that would push the frame over the limit is refused.
pub fn checked_supervisor_payload_len(length: [u8; 4]) -> (res: Result<usize, IoError>)
    ensures
        res is Ok <==> le_value(length@) <= MAX_SUPERVISOR_PAYLOAD_BYTES,
        res matches Ok(n) ==> n == le_value(length@),
        res matches Err(e) ==> e.kind == IoErrorKind::InvalidData && e.message@ == too_large_text(),
{
    let value: u32 = length[0] as u32 + 0x100 * length[1] as u32 + 0x1_0000 * length[2] as u32
        + 0x100_0000 * length[3] as u32;
    if value > 8388604u32 {
        return Err(supervisor_frame_too_large());
    }
    Ok(value as usize)
}

/// Writes a length prefix; a payload that would push the frame over the limit is refused.
pub fn supervisor_payload_length_prefix(payload_len: usize) -> (res: Result<[u8; 4], IoError>)
    ensures
        res is Ok <==> payload_len <= MAX_SUPERVISOR_PAYLOAD_BYTES,
        res matches Ok(prefix) ==> prefix@ == le_bytes(payload_len as nat),
        res matches Err(e) ==> e.kind == IoErrorKind::InvalidData && e.message@ == too_large_text(),
{
    if payload_len > MAX_SUPERVISOR_PAYLOAD_BYTES {
        return Err(supervisor_frame_too_large());
    }
    let prefix: [u8; 4] = [
        (payload_len % 0x100) as u8,
        (payload_len / 0x100 % 0x100) as u8,
        (payload_len / 0x1_0000 % 0x100) as u8,
        (payload_len / 0x100_0000 % 0x100) as u8,
    ];
    assert(prefix@ =~= le_bytes(payload_len as nat));
    Ok(prefix)
}

/// The number of bytes that a serialised payload occupies on the wire.
pub fn supervisor_serialized_frame_bytes(payload_len: usize) -> (res: Result<usize, IoError>)
    ensures
        res is Ok <==> payload_len + 4 <= usize::MAX,
        res matches Ok(n) ==> n == payload_len + 4,
        res matches Err(e) ==> e.kind == IoErrorKind::InvalidData && e.message@ == too_large_text(),
{
    match payload_len.checked_add(4) {
        Some(n) => Ok(n),
        None => Err(supervisor_frame_too_large()),
    }
}

/// Frames a payload.
pub fn frame_supervisor_payload(payload: &[u8]) -> (res: Result<Vec<u8>, IoError>)
    ensures
        res is Ok <==> payload@.len() <= MAX_SUPERVISOR_PAYLOAD_BYTES,
        res matches Ok(frame) ==> frame@ == framed(payload@) && frame@.len()
            <= MAX_SUPERVISOR_FRAME_BYTES,
        res matches Err(e) ==> e.kind == IoErrorKind::InvalidData && e.message@ == too_large_text(),
{
    match supervisor_payload_length_prefix(payload.len()) {
        Ok(prefix) => {
            let mut frame: Vec<u8> = slice_to_vec(prefix.as_slice());
            let mut body: Vec<u8> = slice_to_vec(payload);
            frame.append(&mut body);
            assert(frame@ =~= framed(payload@));
            Ok(frame)
        },
        Err(error) => Err(error),
    }
}

/// Checks that bytes are exactly one frame, and returns the length of its payload.
pub fn validate_length_prefixed_supervisor_frame(bytes: &[u8]) -> (res: Result<usize, IoError>)
    ensures
        res is Ok <==> bytes@.len() >= 4 && le_value(bytes@.take(4)) <= MAX_SUPERVISOR_PAYLOAD_BYTES
            && bytes@.len() == 4 + le_value(bytes@.take(4)),
        res matches Ok(n) ==> n == bytes@.len() - 4,
        res matches Err(e) ==> e.kind == IoErrorKind::InvalidData && e.message@ == (if bytes@.len()
            < 4 {
            "session supervisor frame is missing length prefix"@
        } else if le_value(bytes@.take(4)) > MAX_SUPERVISOR_PAYLOAD_BYTES {
            too_large_text()
        } else {
            "session supervisor frame length does not match payload"@
        }),
{
    if bytes.len() < 4 {
        return Err(invalid_data("session supervisor frame is missing length prefix"));
    }
    let length: [u8; 4] = [bytes[0], bytes[1], bytes[2], bytes[3]];
    assert(length@ =~= bytes@.take(4));
    match checked_supervisor_payload_len(length) {
        Ok(payload_len) => {
            if bytes.len() != 4 + payload_len {
                return Err(invalid_data("session supervisor frame length does not match payload"));
            }
            Ok(payload_len)
        },
        Err(error) => Err(error),
    }
}

/// Counts the bytes of a payload while it is serialised, and refuses what goes over the limit.
pub struct BoundedSupervisorPayloadWriter {
    written: usize,
}

impl BoundedSupervisorPayloadWriter {
    /// How many bytes have been written.
    pub closed spec fn spec_written(&self) -> usize {
        self.written
    }

    /// A writer that has written nothing.
    pub fn new() -> (writer: Self)
        ensures
            writer.spec_written() == 0,
    {
        BoundedSupervisorPayloadWriter { written: 0 }
    }

    /// How many bytes have been written.
    pub fn written(&self) -> (written: usize)
        ensures
            written == self.spec_written(),
    {
        self.written
    }

    /// Decides whether a further piece of the payload may be written at all.
    pub fn check_room(&self, len: usize) -> (res: Result<(), IoError>)
        ensures
            res is Ok <==> len == 0 || self.spec_written() + len <= MAX_SUPERVISOR_PAYLOAD_BYTES,
            res matches Err(e) ==> e.kind == IoErrorKind::InvalidData && e.message@
                == too_large_text(),
    {
        let room: usize = if self.written <= MAX_SUPERVISOR_PAYLOAD_BYTES {
            MAX_SUPERVISOR_PAYLOAD_BYTES - self.written
        } else {
            0
        };
        if len > room {
            return Err(supervisor_frame_too_large());
        }
        Ok(())
    }

    /// Notes that a piece of the payload was written.
    pub fn advance(&mut self, len: usize)
        ensures
            final(self).spec_written() == if old(self).spec_written() + len <= usize::MAX {
                (old(self).spec_written() + len) as usize
            } else {
                usize::MAX
            },
    {
        self.written = self.written.saturating_add(len);
    }
}

/// A length prefix reads back as the length it was written for.
pub proof fn law_length_prefix_round_trip(n: nat)
    requires
        n <= u32::MAX,
    ensures
        le_value(le_bytes(n)) == n,
        le_bytes(n).len() == 4,
{
    assert(n == n % 0x100 + 0x100 * (n / 0x100 % 0x100) + 0x1_0000 * (n / 0x1_0000 % 0x100)
        + 0x100_0000 * (n / 0x100_0000 % 0x100)) by {
        assert(n / 0x100_0000 % 0x100 == n / 0x100_0000);
        assert(n / 0x1_0000 == n / 0x100 / 0x100);
        assert(n / 0x100_0000 == n / 0x1_0000 / 0x100);
    }
}

/// A framed payload is one valid frame, and the reader finds the payload that was written.
pub proof fn law_frame_round_trip(payload: Seq<u8>)
    requires
        payload.len() <= MAX_SUPERVISOR_PAYLOAD_BYTES,
    ensures
        ({
            let frame = framed(payload);
            &&& frame.len() == 4 + le_value(frame.take(4))
            &&& le_value(frame.take(4)) == payload.len()
            &&& frame.skip(4) == payload
            &&& frame.len() <= MAX_SUPERVISOR_FRAME_BYTES
        }),
{
    law_length_prefix_round_trip(payload.len());
    assert(framed(payload).take(4) =~= le_bytes(payload.len()));
    assert(framed(payload).skip(4) =~= payload);
}

} // verus!
