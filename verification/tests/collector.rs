use rustybmp::collector_protocol::{frame_body_len, frame_payload, MAX_FRAME_BYTES};
use rustybmp::error::Error;

#[test]
fn frame_prefix_declares_body_length() {
    let payload = vec![0x93u8, 1, 2, 3];
    let frame = frame_payload(&payload).unwrap();
    assert!(frame.len() > 4);
    let declared_len = u32::from_be_bytes([frame[0], frame[1], frame[2], frame[3]]);
    assert_eq!(declared_len as usize, frame.len() - 4);
    assert_eq!(&frame[4..], &payload[..]);
    assert_eq!(frame_body_len([frame[0], frame[1], frame[2], frame[3]]).unwrap(), 4);
}

#[test]
fn oversized_frame_is_refused() {
    let payload = vec![0u8; MAX_FRAME_BYTES as usize + 1];
    assert!(matches!(frame_payload(&payload), Err(Error::FrameTooLarge(n, m)) if n == MAX_FRAME_BYTES + 1 && m == MAX_FRAME_BYTES));
    let len = (MAX_FRAME_BYTES + 1).to_be_bytes();
    assert!(matches!(frame_body_len(len), Err(Error::FrameTooLarge(_, _))));
}

#[test]
fn empty_payload_frames_to_zero_length() {
    let frame = frame_payload(&[]).unwrap();
    assert_eq!(frame, vec![0, 0, 0, 0]);
}
