//! Length-prefixed frames and their limits.

use std::io::Write;
use termd::pty::supervisor::frame_codec::{
    checked_supervisor_payload_len, frame_supervisor_payload, supervisor_payload_length_prefix,
    supervisor_serialized_frame_bytes, validate_length_prefixed_supervisor_frame,
    BoundedSupervisorPayloadWriter, MAX_SUPERVISOR_FRAME_BYTES,
};
use termd::pty::IoErrorKind;

const TEST_SUPERVISOR_FRAME_MAX_BYTES: usize = 8 * 1024 * 1024;

/// A sink for a serialiser that only counts, up to the limit of a payload.
struct CountingSink(BoundedSupervisorPayloadWriter);

impl Write for CountingSink {
    fn write(&mut self, bytes: &[u8]) -> std::io::Result<usize> {
        match self.0.check_room(bytes.len()) {
            Ok(()) => {
                self.0.advance(bytes.len());
                Ok(bytes.len())
            }
            Err(error) => Err(std::io::Error::new(
                std::io::ErrorKind::InvalidData,
                error.to_string(),
            )),
        }
    }

    fn flush(&mut self) -> std::io::Result<()> {
        Ok(())
    }
}

fn supervisor_json_payload_len(text: &str) -> Result<usize, std::io::Error> {
    let mut sink = CountingSink(BoundedSupervisorPayloadWriter::new());
    serde_json::to_writer(&mut sink, text).map_err(std::io::Error::from)?;
    Ok(sink.0.written())
}

#[test]
fn length_prefixed_decoder_rejects_u32_max_as_oversized() {
    let error = validate_length_prefixed_supervisor_frame(&u32::MAX.to_le_bytes())
        .expect_err("u32::MAX frame prefix must be rejected");

    assert_eq!(error.kind(), IoErrorKind::InvalidData);
    assert!(
        error.to_string().contains("exceeds maximum"),
        "oversized prefix should report the shared frame limit: {}",
        error.to_string()
    );
}

#[test]
fn supervisor_frame_limit_counts_the_four_byte_prefix() {
    assert_eq!(
        checked_supervisor_payload_len(
            ((TEST_SUPERVISOR_FRAME_MAX_BYTES - 4) as u32).to_le_bytes()
        )
        .expect("payload at the exact total-frame limit should be accepted"),
        TEST_SUPERVISOR_FRAME_MAX_BYTES - 4
    );
    let error = checked_supervisor_payload_len(
        ((TEST_SUPERVISOR_FRAME_MAX_BYTES - 3) as u32).to_le_bytes(),
    )
    .expect_err("payload one byte above the total-frame limit must be rejected");
    assert_eq!(error.kind(), IoErrorKind::InvalidData);
}

#[test]
fn bounded_json_writer_accepts_exact_payload_limit_and_rejects_one_byte_more() {
    let exact = "x".repeat(TEST_SUPERVISOR_FRAME_MAX_BYTES - 6);
    assert_eq!(
        supervisor_json_payload_len(&exact).expect("exact-limit JSON payload should be accepted"),
        TEST_SUPERVISOR_FRAME_MAX_BYTES - 4
    );
    let oversized = "x".repeat(TEST_SUPERVISOR_FRAME_MAX_BYTES - 5);
    let error = supervisor_json_payload_len(&oversized)
        .expect_err("one-byte oversized JSON payload must be rejected");
    assert_eq!(error.kind(), std::io::ErrorKind::InvalidData);
}

#[test]
fn frame_writer_rejects_oversized_serialized_payload_before_socket_write() {
    let payload = serde_json::to_vec(&vec![0_u8; 6 * 1024 * 1024]).unwrap();
    let error = frame_supervisor_payload(&payload)
        .expect_err("oversized serialized frame must be rejected");

    assert_eq!(error.kind(), IoErrorKind::InvalidData);
    assert!(error.to_string().contains("exceeds maximum"));
}

#[test]
fn frames_hold_their_length_and_their_payload() {
    assert_eq!(MAX_SUPERVISOR_FRAME_BYTES, TEST_SUPERVISOR_FRAME_MAX_BYTES);
    let frame = frame_supervisor_payload(b"{}").unwrap();
    assert_eq!(frame, [2, 0, 0, 0, b'{', b'}']);
    assert_eq!(validate_length_prefixed_supervisor_frame(&frame).unwrap(), 2);
    assert_eq!(
        supervisor_payload_length_prefix(0x0102).unwrap(),
        [2, 1, 0, 0]
    );
    assert!(supervisor_payload_length_prefix(TEST_SUPERVISOR_FRAME_MAX_BYTES - 3).is_err());
    assert_eq!(supervisor_serialized_frame_bytes(10).unwrap(), 14);
    assert!(supervisor_serialized_frame_bytes(usize::MAX).is_err());
}

#[test]
fn frames_of_another_length_are_refused() {
    assert_eq!(
        validate_length_prefixed_supervisor_frame(&[1, 0, 0])
            .unwrap_err()
            .kind(),
        IoErrorKind::InvalidData
    );
    assert!(validate_length_prefixed_supervisor_frame(&[2, 0, 0, 0, b'x']).is_err());
    assert!(validate_length_prefixed_supervisor_frame(&[1, 0, 0, 0, b'x', b'y']).is_err());
    assert_eq!(
        validate_length_prefixed_supervisor_frame(&[0, 0, 0, 0]).unwrap(),
        0
    );
}
