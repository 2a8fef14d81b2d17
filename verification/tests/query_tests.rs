use netlink_client::error::NetlinkError;
use netlink_client::generic_netlink_header::GenericNetlinkMessageHeader;
use netlink_client::interface_address_message::InterfaceAddressMessage;
use netlink_client::netlink_attribute::NetlinkAttribute;
use netlink_client::netlink_header::{NetlinkMessageHeader, Payload};
use netlink_client::query::{
    address_request, extract_bitrate, extract_bss_information, extract_family_id,
    extract_interface_ip, family_request, interface_information, scan_request, station_request,
};
use netlink_client::transport::{ReceiveOutcome, ResponseCollector};

fn attr_bytes(attribute_type: u16, data: &[u8]) -> Vec<u8> {
    NetlinkAttribute::build(attribute_type, data.to_vec()).serialize()
}

fn bss_entry(status: Option<u32>, ssid: Option<&[u8]>, frequency: Option<u32>) -> Vec<u8> {
    let mut nested = Vec::new();
    if let Some(status) = status {
        nested.extend_from_slice(&attr_bytes(9, &status.to_le_bytes()));
    }
    if let Some(ssid) = ssid {
        // Information elements: one vendor entry first, then the zero-tagged
        // SSID element.
        let mut ies = vec![221, 3, 1, 2, 3];
        ies.push(0);
        ies.push(ssid.len() as u8);
        ies.extend_from_slice(ssid);
        nested.extend_from_slice(&attr_bytes(6, &ies));
    }
    if let Some(frequency) = frequency {
        nested.extend_from_slice(&attr_bytes(2, &frequency.to_le_bytes()));
    }
    nested
}

fn scan_message(bss_blob: &[u8]) -> NetlinkMessageHeader {
    let bss_attribute = NetlinkAttribute::build(47, bss_blob.to_vec());
    let frame = GenericNetlinkMessageHeader::build(32, vec![bss_attribute]);
    NetlinkMessageHeader::build(0x1c, 0x301, Payload::GenericNetlink(frame), 77)
}

fn address_message(index: u32, local: Option<&[u8]>) -> NetlinkMessageHeader {
    let mut attributes = Vec::new();
    if let Some(local) = local {
        attributes.push(NetlinkAttribute::build(2, local.to_vec()));
    }
    let frame = InterfaceAddressMessage::build(2, 24, 0, 0, index, attributes);
    NetlinkMessageHeader::build(20, 0x301, Payload::RtmGetAddr(frame), 77)
}

fn station_message(raw_bitrate: Option<u16>) -> NetlinkMessageHeader {
    let mut sta_info = Vec::new();
    if let Some(raw) = raw_bitrate {
        let rate_info = attr_bytes(1, &raw.to_le_bytes());
        sta_info.extend_from_slice(&attr_bytes(8, &rate_info));
    }
    let sta_attribute = NetlinkAttribute::build(21, sta_info);
    let frame = GenericNetlinkMessageHeader::build(17, vec![sta_attribute]);
    NetlinkMessageHeader::build(0x1c, 0x301, Payload::GenericNetlink(frame), 77)
}

#[test]
fn family_request_bytes_match_the_control_protocol() {
    let bytes = family_request(4242).serialize();
    assert_eq!(bytes.len(), 32);
    assert_eq!(&bytes[0..4], &32u32.to_le_bytes());
    assert_eq!(&bytes[4..6], &0x10u16.to_le_bytes());
    assert_eq!(&bytes[6..8], &5u16.to_le_bytes());
    assert_eq!(&bytes[8..12], &0u32.to_le_bytes());
    assert_eq!(&bytes[12..16], &4242u32.to_le_bytes());
    assert_eq!(bytes[16], 3);
    assert_eq!(bytes[17], 1);
    assert_eq!(&bytes[20..22], &12u16.to_le_bytes());
    assert_eq!(&bytes[22..24], &2u16.to_le_bytes());
    assert_eq!(&bytes[24..32], b"nl80211\0");
}

#[test]
fn scoped_requests_carry_the_interface_index() {
    let scan = scan_request(0x1c, 3, 77);
    assert_eq!(scan.message_type, 0x1c);
    assert_eq!(scan.flags, 0x305);
    let station = station_request(0x1c, 3, 77);
    assert_eq!(station.flags, 0x305);
    match (&scan.payload, &station.payload) {
        (Payload::GenericNetlink(s), Payload::GenericNetlink(t)) => {
            assert_eq!(s.cmd, 32);
            assert_eq!(t.cmd, 17);
            assert_eq!(s.attributes[0].attribute_type, 3);
            assert_eq!(s.attributes[0].data, 3u32.to_le_bytes().to_vec());
        }
        _ => panic!("expected generic-netlink payloads"),
    }
    let address = address_request(3, 77);
    assert_eq!(address.message_type, 22);
    assert_eq!(address.flags, 0x301);
    match &address.payload {
        Payload::RtmGetAddr(frame) => {
            assert_eq!(frame.family, 0);
            assert_eq!(frame.index, 3);
            assert!(frame.attributes.is_empty());
        }
        _ => panic!("expected a route-address payload"),
    }
}

#[test]
fn family_id_is_read_from_the_first_reply() {
    let id_attribute = NetlinkAttribute::build(1, 0x1cu16.to_le_bytes().to_vec());
    let frame = GenericNetlinkMessageHeader::build(1, vec![id_attribute]);
    let message = NetlinkMessageHeader::build(0x10, 0, Payload::GenericNetlink(frame), 77);
    assert_eq!(extract_family_id(&vec![message]), Ok(0x1c));
}

#[test]
fn absent_family_id_attribute_is_reported() {
    let frame = GenericNetlinkMessageHeader::build(1, Vec::new());
    let message = NetlinkMessageHeader::build(0x10, 0, Payload::GenericNetlink(frame), 77);
    assert_eq!(
        extract_family_id(&vec![message]),
        Err(NetlinkError::MissingFamilyId)
    );
    assert_eq!(
        extract_family_id(&Vec::new()),
        Err(NetlinkError::MissingFamilyId)
    );
}

#[test]
fn family_id_of_wrong_width_is_malformed() {
    let id_attribute = NetlinkAttribute::build(1, vec![0x1c, 0, 0]);
    let frame = GenericNetlinkMessageHeader::build(1, vec![id_attribute]);
    let message = NetlinkMessageHeader::build(0x10, 0, Payload::GenericNetlink(frame), 77);
    assert_eq!(
        extract_family_id(&vec![message]),
        Err(NetlinkError::MalformedMessage)
    );
}

#[test]
fn second_entry_with_associated_status_is_selected() {
    // Three BSS entries; only the second one has status "associated".
    let messages = vec![
        scan_message(&bss_entry(Some(0), Some(b"OtherNet"), Some(2412))),
        scan_message(&bss_entry(Some(1), Some(b"HomeNet"), Some(5180))),
        scan_message(&bss_entry(Some(0), Some(b"ThirdNet"), Some(2437))),
    ];
    let bss = extract_bss_information(&messages).unwrap();
    assert_eq!(bss.ssid, "HomeNet");
    assert_eq!(bss.frequency_mhz, 5180);
}

#[test]
fn ibss_joined_status_also_counts() {
    let messages = vec![scan_message(&bss_entry(Some(2), Some(b"AdHoc"), Some(2412)))];
    let bss = extract_bss_information(&messages).unwrap();
    assert_eq!(bss.ssid, "AdHoc");
    assert_eq!(bss.frequency_mhz, 2412);
}

#[test]
fn no_associated_entry_means_no_ssid() {
    let messages = vec![
        scan_message(&bss_entry(Some(0), Some(b"OtherNet"), Some(2412))),
        scan_message(&bss_entry(None, Some(b"NoStatus"), Some(2412))),
    ];
    assert!(matches!(
        extract_bss_information(&messages),
        Err(NetlinkError::MissingSsid)
    ));
}

#[test]
fn status_of_wrong_width_is_malformed() {
    let mut nested = Vec::new();
    nested.extend_from_slice(&attr_bytes(9, &[1, 0, 0]));
    let messages = vec![scan_message(&nested)];
    assert!(matches!(
        extract_bss_information(&messages),
        Err(NetlinkError::MalformedMessage)
    ));
}

#[test]
fn short_information_element_tail_stops_the_scan() {
    // After skipping the vendor entry only one byte is left: the walk stops
    // without an SSID and the scan gives up.
    let mut nested = Vec::new();
    nested.extend_from_slice(&attr_bytes(9, &1u32.to_le_bytes()));
    nested.extend_from_slice(&attr_bytes(6, &[221, 1, 9, 0]));
    let messages = vec![scan_message(&nested)];
    assert!(matches!(
        extract_bss_information(&messages),
        Err(NetlinkError::MissingSsid)
    ));
}

#[test]
fn overrunning_information_element_is_malformed() {
    // The vendor entry declares more bytes than the blob holds.
    let mut nested = Vec::new();
    nested.extend_from_slice(&attr_bytes(9, &1u32.to_le_bytes()));
    nested.extend_from_slice(&attr_bytes(6, &[221, 200, 1]));
    let messages = vec![scan_message(&nested)];
    assert!(matches!(
        extract_bss_information(&messages),
        Err(NetlinkError::MalformedMessage)
    ));
}

#[test]
fn ssid_element_may_come_first() {
    // No vendor entries before the zero-tagged SSID element.
    let mut nested = Vec::new();
    nested.extend_from_slice(&attr_bytes(9, &1u32.to_le_bytes()));
    let mut ies = vec![0u8, 4];
    ies.extend_from_slice(b"Mesh");
    nested.extend_from_slice(&attr_bytes(6, &ies));
    nested.extend_from_slice(&attr_bytes(2, &2462u32.to_le_bytes()));
    let messages = vec![scan_message(&nested)];
    let bss = extract_bss_information(&messages).unwrap();
    assert_eq!(bss.ssid, "Mesh");
    assert_eq!(bss.frequency_mhz, 2462);
}

#[test]
fn associated_entry_without_frequency_keeps_earlier_value() {
    // The matching entry has no frequency attribute; the scan keeps the
    // latest frequency seen, which starts at zero.
    let messages = vec![scan_message(&bss_entry(Some(1), Some(b"Bare"), None))];
    let bss = extract_bss_information(&messages).unwrap();
    assert_eq!(bss.ssid, "Bare");
    assert_eq!(bss.frequency_mhz, 0);
}

#[test]
fn frequency_converts_to_gigahertz() {
    let messages = vec![scan_message(&bss_entry(Some(1), Some(b"HomeNet"), Some(5180)))];
    let bss = extract_bss_information(&messages).unwrap();
    assert_eq!(bss.frequency_mhz, 5180);
    let gigahertz = bss.frequency_mhz as f32 / 1000.0;
    assert!((gigahertz - 5.18).abs() < 1e-6);
}

#[test]
fn interface_ip_takes_the_matching_interface() {
    let messages = vec![
        address_message(1, Some(&[10, 0, 0, 1])),
        address_message(3, Some(&[192, 168, 1, 42])),
        address_message(7, Some(&[172, 16, 0, 9])),
    ];
    assert_eq!(
        extract_interface_ip(&messages, 3),
        Ok(String::from("192.168.1.42"))
    );
}

#[test]
fn interface_ip_renders_all_octet_widths() {
    let messages = vec![address_message(3, Some(&[0, 7, 45, 255]))];
    assert_eq!(
        extract_interface_ip(&messages, 3),
        Ok(String::from("0.7.45.255"))
    );
}

#[test]
fn missing_local_address_is_reported() {
    let messages = vec![
        address_message(1, Some(&[10, 0, 0, 1])),
        address_message(3, None),
    ];
    assert_eq!(
        extract_interface_ip(&messages, 3),
        Err(NetlinkError::MissingIp)
    );
}

#[test]
fn short_local_address_is_malformed() {
    let messages = vec![address_message(3, Some(&[192, 168]))];
    assert_eq!(
        extract_interface_ip(&messages, 3),
        Err(NetlinkError::MalformedMessage)
    );
}

#[test]
fn raw_bitrate_converts_from_100_kbit_units() {
    let messages = vec![station_message(Some(10))];
    assert_eq!(extract_bitrate(&messages), Ok(1));
    let messages = vec![station_message(Some(866))];
    assert_eq!(extract_bitrate(&messages), Ok(86));
}

#[test]
fn absent_bitrate_chain_yields_zero() {
    let messages = vec![station_message(None)];
    assert_eq!(extract_bitrate(&messages), Ok(0));
    assert_eq!(extract_bitrate(&Vec::new()), Ok(0));
}

#[test]
fn end_to_end_interface_information() {
    // Interface "wlan0" with index 3, associated to "HomeNet" at 5180 MHz,
    // address 192.168.1.42, raw bitrate 866.
    let interface_index: u32 = 3;

    let mut scan_datagram = scan_message(&bss_entry(Some(1), Some(b"HomeNet"), Some(5180)))
        .serialize();
    scan_datagram.extend_from_slice(&done_bytes());
    let mut scan_collector = ResponseCollector::new(0x1c);
    assert_eq!(
        scan_collector.process_datagram(&scan_datagram).unwrap(),
        ReceiveOutcome::Complete
    );
    let scan_messages = scan_collector.finish().unwrap();

    let mut address_datagram = address_message(3, Some(&[192, 168, 1, 42])).serialize();
    address_datagram.extend_from_slice(&done_bytes());
    let mut address_collector = ResponseCollector::new(22);
    assert_eq!(
        address_collector.process_datagram(&address_datagram).unwrap(),
        ReceiveOutcome::Complete
    );
    let address_messages = address_collector.finish().unwrap();

    let mut station_datagram = station_message(Some(866)).serialize();
    station_datagram.extend_from_slice(&done_bytes());
    let mut station_collector = ResponseCollector::new(0x1c);
    assert_eq!(
        station_collector.process_datagram(&station_datagram).unwrap(),
        ReceiveOutcome::Complete
    );
    let station_messages = station_collector.finish().unwrap();

    let info = interface_information(
        &scan_messages,
        &address_messages,
        &station_messages,
        interface_index,
    )
    .unwrap();
    assert_eq!(info.ssid, "HomeNet");
    assert_eq!(info.ip, "192.168.1.42");
    assert_eq!(info.frequency_mhz, 5180);
    assert!((info.frequency_mhz as f32 / 1000.0 - 5.18).abs() < 1e-6);
    assert_eq!(info.bitrate, 86);
}

fn done_bytes() -> Vec<u8> {
    let mut bytes = Vec::new();
    bytes.extend_from_slice(&20u32.to_le_bytes());
    bytes.extend_from_slice(&3u16.to_le_bytes());
    bytes.extend_from_slice(&2u16.to_le_bytes());
    bytes.extend_from_slice(&0u32.to_le_bytes());
    bytes.extend_from_slice(&77u32.to_le_bytes());
    bytes.extend_from_slice(&0i32.to_le_bytes());
    bytes
}
