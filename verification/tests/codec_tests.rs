use netlink_client::netlink_attribute::{align_message, NetlinkAttribute};
use netlink_client::netlink_header::{
    get_attribute, parse_attributes, NetlinkMessageHeader, Payload,
};
use netlink_client::walking_vec::WalkingVec;

fn encoded_attribute(attribute_type: u16, data: &[u8]) -> Vec<u8> {
    let length = (4 + data.len()) as u16;
    let mut bytes = Vec::new();
    bytes.extend_from_slice(&length.to_le_bytes());
    bytes.extend_from_slice(&attribute_type.to_le_bytes());
    bytes.extend_from_slice(data);
    while bytes.len() % 4 != 0 {
        bytes.push(0);
    }
    bytes
}

#[test]
fn align_rounds_up_to_multiples_of_four() {
    assert_eq!(align_message(0), 0);
    assert_eq!(align_message(1), 4);
    assert_eq!(align_message(2), 4);
    assert_eq!(align_message(3), 4);
    assert_eq!(align_message(4), 4);
    assert_eq!(align_message(5), 8);
    assert_eq!(align_message(12), 12);
    assert_eq!(align_message(13), 16);
}

#[test]
fn align_is_idempotent_and_close() {
    for n in 0..1000usize {
        let a = align_message(n);
        assert_eq!(align_message(a), a);
        assert!(a >= n);
        assert!(a - n < 4);
        assert_eq!(a % 4, 0);
    }
}

#[test]
fn attribute_round_trip_short_data() {
    let attribute = NetlinkAttribute::build(7, vec![1, 2, 3]);
    assert_eq!(attribute.length, 7);
    let bytes = attribute.serialize();
    assert_eq!(bytes.len(), 8);
    assert_eq!(&bytes[4..7], &[1, 2, 3]);
    assert_eq!(bytes[7], 0);
    let mut cursor = WalkingVec::new(bytes);
    let decoded = NetlinkAttribute::deserialize(&mut cursor).unwrap();
    assert_eq!(decoded.length, 7);
    assert_eq!(decoded.attribute_type, 7);
    assert_eq!(decoded.data, vec![1, 2, 3]);
    assert!(cursor.reached_end());
}

#[test]
fn attribute_round_trip_empty_and_long_data() {
    for len in [0usize, 1, 4, 5, 511, 512] {
        let data: Vec<u8> = (0..len).map(|i| (i % 251) as u8).collect();
        let attribute = NetlinkAttribute::build(0x1234, data.clone());
        let bytes = attribute.serialize();
        let mut cursor = WalkingVec::new(bytes);
        let decoded = NetlinkAttribute::deserialize(&mut cursor).unwrap();
        assert_eq!(decoded.attribute_type, 0x1234);
        assert_eq!(decoded.length as usize, 4 + len);
        assert_eq!(decoded.data, data);
        assert!(cursor.reached_end());
    }
}

#[test]
fn attribute_deserialize_rejects_truncated_buffers() {
    // Too short for a header.
    let mut cursor = WalkingVec::new(vec![8, 0, 1]);
    assert!(NetlinkAttribute::deserialize(&mut cursor).is_err());
    // Length field under the 4-byte header size.
    let mut cursor = WalkingVec::new(vec![3, 0, 1, 0]);
    assert!(NetlinkAttribute::deserialize(&mut cursor).is_err());
    // Declared data length past the end of the buffer.
    let mut cursor = WalkingVec::new(vec![12, 0, 1, 0, 9, 9]);
    assert!(NetlinkAttribute::deserialize(&mut cursor).is_err());
}

#[test]
fn parse_attributes_reads_a_flat_list() {
    let mut bytes = encoded_attribute(1, &[0xaa]);
    bytes.extend_from_slice(&encoded_attribute(2, &[0xbb, 0xcc]));
    bytes.extend_from_slice(&encoded_attribute(3, &[]));
    let mut cursor = WalkingVec::new(bytes);
    let attributes = parse_attributes(&mut cursor).unwrap();
    assert_eq!(attributes.len(), 3);
    assert_eq!(attributes[0].attribute_type, 1);
    assert_eq!(attributes[0].data, vec![0xaa]);
    assert_eq!(attributes[1].attribute_type, 2);
    assert_eq!(attributes[1].data, vec![0xbb, 0xcc]);
    assert_eq!(attributes[2].attribute_type, 3);
    assert_eq!(attributes[2].data, Vec::<u8>::new());
}

#[test]
fn parse_attributes_of_empty_buffer_is_empty() {
    let mut cursor = WalkingVec::new(Vec::new());
    let attributes = parse_attributes(&mut cursor).unwrap();
    assert!(attributes.is_empty());
}

#[test]
fn get_attribute_finds_first_match_only() {
    let mut bytes = encoded_attribute(5, &[1]);
    bytes.extend_from_slice(&encoded_attribute(6, &[2]));
    bytes.extend_from_slice(&encoded_attribute(5, &[3]));
    let mut cursor = WalkingVec::new(bytes);
    let attributes = parse_attributes(&mut cursor).unwrap();
    let found = get_attribute(&attributes, 5).unwrap();
    assert_eq!(found.data, vec![1]);
    assert!(get_attribute(&attributes, 9).is_none());
}

#[test]
fn walking_vec_walks_and_stops_at_end() {
    let mut cursor = WalkingVec::new(vec![10, 20, 30, 40]);
    assert!(!cursor.reached_end());
    let first = cursor.walk(3);
    assert_eq!(first, vec![10, 20, 30]);
    let second = cursor.walk(1);
    assert_eq!(second, vec![40]);
    assert!(cursor.reached_end());
    let empty = cursor.walk(5);
    assert!(empty.is_empty());
    assert!(cursor.reached_end());
}

#[test]
fn message_header_length_counts_header_and_payload() {
    let attribute = NetlinkAttribute::build(2, b"nl80211\0".to_vec());
    let frame = netlink_client::generic_netlink_header::GenericNetlinkMessageHeader::build(
        3,
        vec![attribute],
    );
    let message = NetlinkMessageHeader::build(16, 5, Payload::GenericNetlink(frame), 4242);
    assert_eq!(message.length, 32);
    assert_eq!(message.sequence_number, 0);
    assert_eq!(message.pid, 4242);
    let bytes = message.serialize();
    assert_eq!(bytes.len(), 32);
    assert_eq!(&bytes[0..4], &32u32.to_le_bytes());
    assert_eq!(&bytes[4..6], &16u16.to_le_bytes());
    assert_eq!(&bytes[6..8], &5u16.to_le_bytes());
    assert_eq!(&bytes[8..12], &0u32.to_le_bytes());
    assert_eq!(&bytes[12..16], &4242u32.to_le_bytes());
    assert_eq!(bytes[16], 3);
    assert_eq!(bytes[17], 1);
    assert_eq!(&bytes[20..22], &12u16.to_le_bytes());
    assert_eq!(&bytes[22..24], &2u16.to_le_bytes());
    assert_eq!(&bytes[24..32], b"nl80211\0");
}

#[test]
fn message_round_trip_through_deserialize() {
    let attribute = NetlinkAttribute::build(3, 7u32.to_le_bytes().to_vec());
    let frame = netlink_client::generic_netlink_header::GenericNetlinkMessageHeader::build(
        32,
        vec![attribute],
    );
    let message = NetlinkMessageHeader::build(0x1c, 0x305, Payload::GenericNetlink(frame), 99);
    let bytes = message.serialize();
    let mut cursor = WalkingVec::new(bytes);
    let decoded = NetlinkMessageHeader::deserialize(&mut cursor).unwrap();
    assert_eq!(decoded.length, 28);
    assert_eq!(decoded.message_type, 0x1c);
    assert_eq!(decoded.flags, 0x305);
    assert_eq!(decoded.pid, 99);
    match decoded.payload {
        Payload::GenericNetlink(f) => {
            assert_eq!(f.cmd, 32);
            assert_eq!(f.version, 1);
            assert_eq!(f.attributes.len(), 1);
            assert_eq!(f.attributes[0].attribute_type, 3);
            assert_eq!(f.attributes[0].data, 7u32.to_le_bytes().to_vec());
        }
        _ => panic!("expected a generic-netlink payload"),
    }
    assert!(cursor.reached_end());
}

#[test]
fn address_frame_round_trip() {
    let attribute = NetlinkAttribute::build(2, vec![192, 168, 1, 42]);
    let frame = netlink_client::interface_address_message::InterfaceAddressMessage::build(
        2, 24, 0, 0, 3,
        vec![attribute],
    );
    let bytes = frame.serialize();
    assert_eq!(bytes.len(), 16);
    let mut cursor = WalkingVec::new(bytes);
    let decoded =
        netlink_client::interface_address_message::InterfaceAddressMessage::deserialize(
            &mut cursor,
        )
        .unwrap();
    assert_eq!(decoded.family, 2);
    assert_eq!(decoded.prefix_length, 24);
    assert_eq!(decoded.index, 3);
    assert_eq!(decoded.attributes.len(), 1);
    assert_eq!(decoded.attributes[0].data, vec![192, 168, 1, 42]);
}
