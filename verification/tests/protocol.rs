//! Frame codec and command builder behaviour on concrete values.

use iscp::commands::to_signed_hex_str;
use iscp::device::Device;
use iscp::message::{IscpMessage, ISCP_MSG_DST_BROADCAST, ISCP_MSG_DST_RECEIVER};

#[test]
fn encode_exact_frame() {
    let m = IscpMessage::from(b"PWR", b"01");
    let frame = m.bytes();
    let expected: Vec<u8> = vec![
        b'I', b'S', b'C', b'P', // magic
        0x00, 0x00, 0x00, 0x10, // header length 16
        0x00, 0x00, 0x00, 0x08, // payload length 2 + 3 + 2 + 1
        0x01, // version
        0x00, 0x00, 0x00, // reserved
        b'!', b'1', // start marker, destination
        b'P', b'W', b'R', b'0', b'1', // command and parameter
        0x0a, // terminator
    ];
    assert_eq!(frame, expected);
    assert_eq!(m.len_payload(), 8);
    assert_eq!(m.len_bytes(), 24);
}

#[test]
fn round_trip_preserves_all_fields() {
    let m = IscpMessage::from(b"MVL", b"UP");
    let decoded = IscpMessage::from_slice(&m.bytes()).expect("frame must decode");
    assert_eq!(decoded.destination, ISCP_MSG_DST_RECEIVER);
    assert_eq!(decoded.command, b"MVL".to_vec());
    assert_eq!(decoded.parameter, b"UP".to_vec());
}

#[test]
fn round_trip_empty_parameter() {
    let m = IscpMessage::from(b"AMT", b"");
    let decoded = IscpMessage::from_slice(&m.bytes()).expect("frame must decode");
    assert_eq!(decoded.command, b"AMT".to_vec());
    assert_eq!(decoded.parameter, Vec::<u8>::new());
}

#[test]
fn round_trip_parameter_with_inner_line_feed() {
    let m = IscpMessage::from(b"XYZ", b"a\nb");
    let decoded = IscpMessage::from_slice(&m.bytes()).expect("frame must decode");
    assert_eq!(decoded.parameter, b"a\nb".to_vec());
}

#[test]
fn long_command_is_truncated_at_construction() {
    let m = IscpMessage::from(b"PWRXX", b"00");
    assert_eq!(m.command, b"PWR".to_vec());
}

#[test]
fn decode_rejects_short_buffer() {
    assert!(IscpMessage::from_slice(&[0u8; 10]).is_none());
    assert!(IscpMessage::from_slice(&[]).is_none());
    let frame = IscpMessage::from(b"PWR", b"01").bytes();
    assert!(IscpMessage::from_slice(&frame[..21]).is_none());
}

#[test]
fn decode_rejects_bad_magic() {
    let mut frame = IscpMessage::from(b"PWR", b"01").bytes();
    frame[0] = b'X';
    assert!(IscpMessage::from_slice(&frame).is_none());
}

#[test]
fn decode_rejects_missing_start_marker() {
    let mut frame = IscpMessage::from(b"PWR", b"01").bytes();
    frame[16] = b'?';
    assert!(IscpMessage::from_slice(&frame).is_none());
}

#[test]
fn decode_keeps_parameter_when_terminator_absent() {
    let mut frame = IscpMessage::from(b"PWR", b"0").bytes();
    let last = frame.len() - 1;
    frame[last] = b'1';
    let decoded = IscpMessage::from_slice(&frame).expect("frame must decode");
    assert_eq!(decoded.parameter, b"01".to_vec());
}

#[test]
fn new_message_is_empty_receiver_bound() {
    let m = IscpMessage::new();
    assert_eq!(m.destination, ISCP_MSG_DST_RECEIVER);
    assert!(m.command.is_empty());
    assert!(m.parameter.is_empty());
}

#[test]
fn power_and_mute_pairs() {
    let device = Device::from_address(b"10.0.0.2:60128");
    let commands = device.commands();
    let m = commands.main().power_on();
    assert_eq!(m.command, b"PWR".to_vec());
    assert_eq!(m.parameter, b"01".to_vec());
    let m = commands.main().power_off();
    assert_eq!(m.command, b"PWR".to_vec());
    assert_eq!(m.parameter, b"00".to_vec());
    let m = commands.main().mute();
    assert_eq!(m.command, b"AMT".to_vec());
    assert_eq!(m.parameter, b"01".to_vec());
    let m = commands.main().unmute();
    assert_eq!(m.command, b"AMT".to_vec());
    assert_eq!(m.parameter, b"00".to_vec());
}

#[test]
fn volume_clamps_and_encodes_hex() {
    let device = Device::from_address(b"10.0.0.2:60128");
    let commands = device.commands();
    let m = commands.main().set_volume(150);
    assert_eq!(m.command, b"MVL".to_vec());
    assert_eq!(m.parameter, b"64".to_vec());
    let m = commands.main().set_volume(0);
    assert_eq!(m.parameter, b"00".to_vec());
    let m = commands.main().set_volume(31);
    assert_eq!(m.parameter, b"1F".to_vec());
}

#[test]
fn volume_steps() {
    let device = Device::from_address(b"10.0.0.2:60128");
    let commands = device.commands();
    assert_eq!(commands.main().set_volume_up().parameter, b"UP".to_vec());
    assert_eq!(commands.main().set_volume_down().parameter, b"DOWN".to_vec());
}

#[test]
fn tone_clamps_and_encodes_signed_hex() {
    let device = Device::from_address(b"10.0.0.2:60128");
    let commands = device.commands();
    let m = commands.main().set_tone_front_bass(12);
    assert_eq!(m.command, b"TFR".to_vec());
    assert_eq!(m.parameter, b"B+A".to_vec());
    let m = commands.main().set_tone_front_treble(-15);
    assert_eq!(m.parameter, b"T-A".to_vec());
    let m = commands.main().set_tone_front_bass(0);
    assert_eq!(m.parameter, b"B+0".to_vec());
    let m = commands.main().set_tone_front_treble(7);
    assert_eq!(m.parameter, b"T+7".to_vec());
}

#[test]
fn tone_steps() {
    let device = Device::from_address(b"10.0.0.2:60128");
    let commands = device.commands();
    assert_eq!(commands.main().set_tone_front_bass_up().parameter, b"BUP".to_vec());
    assert_eq!(commands.main().set_tone_front_bass_down().parameter, b"BDOWN".to_vec());
    assert_eq!(commands.main().set_tone_front_treble_up().parameter, b"TUP".to_vec());
    assert_eq!(commands.main().set_tone_front_treble_down().parameter, b"TDOWN".to_vec());
}

#[test]
fn signed_hex_two_digit_magnitude() {
    assert_eq!(to_signed_hex_str(18, 20, -20), b"+12".to_vec());
    assert_eq!(to_signed_hex_str(-18, 20, -20), b"-12".to_vec());
}

#[test]
fn raw_builds_receiver_message() {
    let device = Device::from_address(b"10.0.0.2:60128");
    let m = device.raw(b"SLI", b"12");
    assert_eq!(m.destination, ISCP_MSG_DST_RECEIVER);
    assert_eq!(m.command, b"SLI".to_vec());
    assert_eq!(m.parameter, b"12".to_vec());
}

#[test]
fn broadcast_destination_differs_from_receiver() {
    assert_ne!(ISCP_MSG_DST_BROADCAST, ISCP_MSG_DST_RECEIVER);
    assert_eq!(ISCP_MSG_DST_RECEIVER, b'1');
    assert_eq!(ISCP_MSG_DST_BROADCAST, b'x');
}
