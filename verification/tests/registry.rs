//! Discovery reply handling, the registry, its snapshot round trip,
//! and the application state.

use iscp::application::Application;
use iscp::device::Device;
use iscp::discover::{collect_devices, get_discover_message, parse_reply};
use iscp::message::IscpMessage;
use iscp::remote::Remote;

fn reply_datagram(parameter: &[u8]) -> Vec<u8> {
    IscpMessage::from(b"ECN", parameter).bytes()
}

#[test]
fn discover_message_is_broadcast_query() {
    let m = get_discover_message();
    assert_eq!(m.destination, b'x');
    assert_eq!(m.command, b"ECN".to_vec());
    assert_eq!(m.parameter, b"QSTN".to_vec());
    assert_eq!(m.len_bytes(), 26);
}

#[test]
fn discovery_two_replies_second_mac_truncated() {
    let query_len = get_discover_message().len_bytes();
    let replies: Vec<(Vec<u8>, Vec<u8>)> = vec![
        (reply_datagram(b"TX-1/60128/DX/AABBCCDDEEFF"), b"192.168.0.10".to_vec()),
        (reply_datagram(b"TX-2/60128/XX/112233445566778899"), b"192.168.0.11".to_vec()),
    ];
    let devices = collect_devices(&replies, query_len);
    assert_eq!(devices.len(), 2);
    assert_eq!(devices[0].address, b"192.168.0.10:60128".to_vec());
    assert_eq!(devices[0].model, b"TX-1".to_vec());
    assert_eq!(devices[0].area, b"DX".to_vec());
    assert_eq!(devices[0].mac, b"AABBCCDDEEFF".to_vec());
    assert_eq!(devices[1].address, b"192.168.0.11:60128".to_vec());
    assert_eq!(devices[1].model, b"TX-2".to_vec());
    assert_eq!(devices[1].area, b"XX".to_vec());
    assert_eq!(devices[1].mac, b"112233445566".to_vec());
}

#[test]
fn discovery_excludes_echo_of_query_length() {
    let query = get_discover_message();
    let query_len = query.len_bytes();
    let echo = query.bytes();
    assert_eq!(echo.len(), query_len);
    let replies: Vec<(Vec<u8>, Vec<u8>)> = vec![
        (echo.to_vec(), b"192.168.0.5".to_vec()),
        (reply_datagram(b"TX-1/60128/DX/AABBCCDDEEFF"), b"192.168.0.10".to_vec()),
    ];
    let devices = collect_devices(&replies, query_len);
    assert_eq!(devices.len(), 1);
    assert_eq!(devices[0].model, b"TX-1".to_vec());
}

#[test]
fn discovery_skips_noise_and_short_parameters() {
    let query_len = get_discover_message().len_bytes();
    let replies: Vec<(Vec<u8>, Vec<u8>)> = vec![
        (b"not a frame at all".to_vec(), b"192.168.0.9".to_vec()),
        (reply_datagram(b"TX-1/60128"), b"192.168.0.10".to_vec()),
    ];
    let devices = collect_devices(&replies, query_len);
    assert!(devices.is_empty());
}

#[test]
fn parse_reply_single_datagram() {
    let query_len = get_discover_message().len_bytes();
    let data = reply_datagram(b"NR-1/1234/JJ/0011223344");
    let device = parse_reply(&data, &b"10.1.1.1".to_vec(), query_len).expect("reply must parse");
    assert_eq!(device.address, b"10.1.1.1:1234".to_vec());
    assert_eq!(device.model, b"NR-1".to_vec());
    assert_eq!(device.area, b"JJ".to_vec());
    assert_eq!(device.mac, b"0011223344".to_vec());
    assert!(parse_reply(&data, &b"10.1.1.1".to_vec(), data.len()).is_none());
}

#[test]
fn registry_snapshot_round_trip() {
    let mut remote = Remote::new();
    remote.devices.push(Device::from(
        b"192.168.0.10:60128".to_vec(),
        b"TX-1".to_vec(),
        b"DX".to_vec(),
        b"AABBCCDDEEFF".to_vec(),
    ));
    remote.devices.push(Device::from(
        b"192.168.0.11:60128".to_vec(),
        b"TX-2".to_vec(),
        b"XX".to_vec(),
        b"112233445566".to_vec(),
    ));
    let snapshot = remote.serialize();
    let back = Remote::deserialize(&snapshot).expect("snapshot must parse");
    assert_eq!(back.devices.len(), 2);
    for (a, b) in back.devices.iter().zip(remote.devices.iter()) {
        assert_eq!(a.address, b.address);
        assert_eq!(a.model, b.model);
        assert_eq!(a.area, b.area);
        assert_eq!(a.mac, b.mac);
    }
}

#[test]
fn snapshot_round_trip_awkward_bytes() {
    let mut remote = Remote::new();
    remote.devices.push(Device::from(
        b"with:colon".to_vec(),
        b"line\nfeed".to_vec(),
        Vec::new(),
        b"7:7\n7".to_vec(),
    ));
    let snapshot = remote.serialize();
    let back = Remote::deserialize(&snapshot).expect("snapshot must parse");
    assert_eq!(back.devices.len(), 1);
    assert_eq!(back.devices[0].address, b"with:colon".to_vec());
    assert_eq!(back.devices[0].model, b"line\nfeed".to_vec());
    assert_eq!(back.devices[0].area, Vec::<u8>::new());
    assert_eq!(back.devices[0].mac, b"7:7\n7".to_vec());
}

#[test]
fn snapshot_exact_bytes() {
    let mut remote = Remote::new();
    remote.devices.push(Device::from(
        b"ad".to_vec(),
        b"m".to_vec(),
        Vec::new(),
        b"xyz".to_vec(),
    ));
    assert_eq!(remote.serialize(), b"2:ad1:m0:3:xyz\n".to_vec());
}

#[test]
fn empty_registry_snapshot_round_trip() {
    let remote = Remote::new();
    let snapshot = remote.serialize();
    assert!(snapshot.is_empty());
    let back = Remote::deserialize(&snapshot).expect("snapshot must parse");
    assert!(back.devices.is_empty());
}

#[test]
fn deserialize_rejects_malformed_snapshots() {
    assert!(Remote::deserialize(&b"garbage".to_vec()).is_none());
    assert!(Remote::deserialize(&b"3:abc".to_vec()).is_none());
    let mut remote = Remote::new();
    remote.devices.push(Device::from(
        b"a".to_vec(),
        b"b".to_vec(),
        b"c".to_vec(),
        b"d".to_vec(),
    ));
    let mut snapshot = remote.serialize();
    snapshot.pop();
    assert!(Remote::deserialize(&snapshot).is_none());
    assert!(Remote::deserialize(&b"99999999999999999999999:x".to_vec()).is_none());
}

#[test]
fn remote_raw_builds_message() {
    let m = Remote::raw(b"10.0.0.9:60128", b"SLI", b"2B");
    assert_eq!(m.destination, b'1');
    assert_eq!(m.command, b"SLI".to_vec());
    assert_eq!(m.parameter, b"2B".to_vec());
}

#[test]
fn registry_lookup_by_index() {
    let mut remote = Remote::new();
    assert!(remote.device(0).is_none());
    remote.devices.push(Device::from_address(b"10.0.0.1:60128"));
    remote.devices.push(Device::from_address(b"10.0.0.2:60128"));
    assert_eq!(remote.device(0).unwrap().address, b"10.0.0.1:60128".to_vec());
    assert_eq!(remote.device(1).unwrap().address, b"10.0.0.2:60128".to_vec());
    assert!(remote.device(2).is_none());
}

#[test]
fn device_constructors() {
    let d = Device::new();
    assert!(d.address.is_empty() && d.model.is_empty() && d.area.is_empty() && d.mac.is_empty());
    let d = Device::from_address(b"host:1");
    assert_eq!(d.address, b"host:1".to_vec());
    assert!(d.model.is_empty());
}

#[test]
fn application_defaults_and_selection() {
    let mut app = Application::new();
    assert_eq!(app.selected_device, 0);
    assert_eq!(app.volume_max_level, 30);
    assert!(!app.select(0));
    app.remote.devices.push(Device::from_address(b"10.0.0.1:60128"));
    app.remote.devices.push(Device::from_address(b"10.0.0.2:60128"));
    assert!(app.select(1));
    assert_eq!(app.selected_device, 1);
    assert!(!app.select(2));
    assert_eq!(app.selected_device, 1);
    assert_eq!(app.device().address, b"10.0.0.2:60128".to_vec());
}

#[test]
fn application_volume_cap() {
    let app = Application::new();
    assert_eq!(app.checked_volume(10), 10);
    assert_eq!(app.checked_volume(30), 30);
    assert_eq!(app.checked_volume(77), 30);
}
