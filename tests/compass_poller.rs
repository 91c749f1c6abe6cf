use camloc_server::compass::{decode_reply, request_bytes, CompassPoller, Phase, PollAction, Reading, REQUEST_BYTE};

fn bits_reply(v: f64) -> Vec<u8> {
    v.to_be_bytes().to_vec()
}

#[test]
fn request_is_dollar_sign() {
    assert_eq!(REQUEST_BYTE, b'$');
    assert_eq!(request_bytes(), vec![b'$']);
}

#[test]
fn reply_decodes_big_endian() {
    let bytes = [0x01u8, 0x02, 0x03, 0x04, 0x05, 0x06, 0x07, 0x08];
    assert_eq!(decode_reply(&bytes), Some(0x0102_0304_0506_0708));
    assert_eq!(decode_reply(&bits_reply(12.5)), Some(12.5f64.to_bits()));
}

#[test]
fn reply_of_wrong_length_is_rejected() {
    assert_eq!(decode_reply(&[1, 2, 3]), None);
    assert_eq!(decode_reply(&[0; 9]), None);
    assert_eq!(decode_reply(&[]), None);
}

#[test]
fn full_cycle_publishes_raw_and_offset() {
    let offset = 30.0f64.to_bits();
    let mut p = CompassPoller::new(offset);
    assert_eq!(p.get_value(), None);
    assert_eq!(p.on_tick(), PollAction::SendRequest);
    assert_eq!(p.on_written(true), PollAction::ReadReply);
    let reply = bits_reply(100.0);
    assert_eq!(p.on_replied(Some(&reply)), PollAction::Wait);
    let r = p.get_value().unwrap();
    assert_eq!(r, Reading { raw: 100.0f64.to_bits(), offset });
    assert_eq!(f64::from_bits(r.raw) - f64::from_bits(r.offset), 70.0);
}

#[test]
fn failed_write_makes_reading_unknown() {
    let mut p = CompassPoller::new(0);
    p.on_tick();
    p.on_written(true);
    p.on_replied(Some(&bits_reply(5.0)));
    assert!(p.get_value().is_some());
    assert_eq!(p.on_tick(), PollAction::SendRequest);
    assert_eq!(p.on_written(false), PollAction::Wait);
    assert_eq!(p.get_value(), None);
    assert_eq!(p.phase, Phase::Idle);
}

#[test]
fn failed_read_makes_reading_unknown() {
    let mut p = CompassPoller::new(0);
    p.on_tick();
    p.on_written(true);
    p.on_replied(Some(&bits_reply(5.0)));
    p.on_tick();
    p.on_written(true);
    p.on_replied(None);
    assert_eq!(p.get_value(), None);
    p.on_tick();
    p.on_written(true);
    p.on_replied(Some(&[1, 2, 3]));
    assert_eq!(p.get_value(), None);
}

#[test]
fn offset_change_in_flight_applies_to_next_reading() {
    let old_offset = 10.0f64.to_bits();
    let new_offset = 20.0f64.to_bits();
    let mut p = CompassPoller::new(old_offset);
    p.on_tick();
    p.on_written(true);
    p.set_offset(new_offset);
    p.on_replied(Some(&bits_reply(50.0)));
    let r = p.get_value().unwrap();
    assert_eq!(f64::from_bits(r.raw) - f64::from_bits(r.offset), 40.0);
    p.on_tick();
    p.on_written(true);
    p.on_replied(Some(&bits_reply(50.0)));
    let r = p.get_value().unwrap();
    assert_eq!(f64::from_bits(r.raw) - f64::from_bits(r.offset), 30.0);
}

#[test]
fn stop_is_seen_before_next_request() {
    let mut p = CompassPoller::new(0);
    p.on_tick();
    p.stop();
    assert_eq!(p.on_tick(), PollAction::Stop);
    assert_eq!(p.phase, Phase::Stopped);
    assert_eq!(p.on_tick(), PollAction::Stop);
}

#[test]
fn reply_outside_a_cycle_is_ignored() {
    let mut p = CompassPoller::new(0);
    assert_eq!(p.on_replied(Some(&bits_reply(1.0))), PollAction::Wait);
    assert_eq!(p.get_value(), None);
    assert_eq!(p.on_written(true), PollAction::Wait);
    assert_eq!(p.phase, Phase::Idle);
}
