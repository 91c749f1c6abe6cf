use camloc_server::wire::{decode_observation, decode_registration, read_be_u64, PoseBits};

#[test]
fn registration_frame_carries_pose() {
    let mut frame = Vec::new();
    for v in [1.5f64, -2.0, 0.25, 1.0] {
        frame.extend_from_slice(&v.to_be_bytes());
    }
    assert_eq!(
        decode_registration(&frame),
        Some(PoseBits {
            x: 1.5f64.to_bits(),
            y: (-2.0f64).to_bits(),
            rotation: 0.25f64.to_bits(),
            fov: 1.0f64.to_bits(),
        })
    );
}

#[test]
fn incomplete_registration_is_malformed() {
    assert_eq!(decode_registration(&[0u8; 31]), None);
    assert_eq!(decode_registration(&[0u8; 33]), None);
}

#[test]
fn observation_frame_carries_bearing() {
    let b = (-0.3f64).to_be_bytes();
    assert_eq!(decode_observation(&b), Some((-0.3f64).to_bits()));
    assert_eq!(decode_observation(&b[..7]), None);
}

#[test]
fn number_read_at_offset() {
    let bytes = [9u8, 0, 0, 0, 0, 0, 0, 1, 0];
    assert_eq!(read_be_u64(&bytes, 1), 256);
    assert_eq!(read_be_u64(&bytes, 0), 0x0900_0000_0000_0001);
}
