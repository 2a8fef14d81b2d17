use netlink_client::error::NetlinkError;
use netlink_client::generic_netlink_header::GenericNetlinkMessageHeader;
use netlink_client::netlink_attribute::NetlinkAttribute;
use netlink_client::netlink_header::{NetlinkMessageHeader, Payload};
use netlink_client::transport::{parse_datagram, ReceiveOutcome, ResponseCollector};

fn generic_message_bytes(message_type: u16, cmd: u8, attr_type: u16, data: &[u8]) -> Vec<u8> {
    let attribute = NetlinkAttribute::build(attr_type, data.to_vec());
    let frame = GenericNetlinkMessageHeader::build(cmd, vec![attribute]);
    NetlinkMessageHeader::build(message_type, 0x301, Payload::GenericNetlink(frame), 77)
        .serialize()
}

fn sentinel_bytes(message_type: u16, code: i32) -> Vec<u8> {
    let mut bytes = Vec::new();
    bytes.extend_from_slice(&20u32.to_le_bytes());
    bytes.extend_from_slice(&message_type.to_le_bytes());
    bytes.extend_from_slice(&2u16.to_le_bytes());
    bytes.extend_from_slice(&0u32.to_le_bytes());
    bytes.extend_from_slice(&77u32.to_le_bytes());
    bytes.extend_from_slice(&code.to_le_bytes());
    bytes
}

#[test]
fn single_datagram_with_three_messages_and_done_reassembles() {
    let mut datagram = generic_message_bytes(0x1c, 32, 3, &[1, 0, 0, 0]);
    datagram.extend_from_slice(&generic_message_bytes(0x1c, 32, 3, &[2, 0, 0, 0]));
    datagram.extend_from_slice(&generic_message_bytes(0x1c, 32, 3, &[3, 0, 0, 0]));
    datagram.extend_from_slice(&sentinel_bytes(3, 0));

    let parsed = parse_datagram(&datagram).unwrap();
    assert_eq!(parsed.len(), 4);

    let mut collector = ResponseCollector::new(0x1c);
    let outcome = collector.process_datagram(&datagram).unwrap();
    assert_eq!(outcome, ReceiveOutcome::Complete);
    let messages = collector.finish().unwrap();
    assert_eq!(messages.len(), 4);
    assert_eq!(messages[3].message_type, 3);
    match &messages[3].payload {
        Payload::Done(code) => assert_eq!(*code, 0),
        _ => panic!("expected a done sentinel"),
    }
}

#[test]
fn error_sentinel_fails_request_and_discards_messages() {
    // Prior messages in the same datagram decode fine, yet the nonzero error
    // code discards everything accumulated.
    let mut datagram = generic_message_bytes(0x1c, 32, 3, &[1, 0, 0, 0]);
    datagram.extend_from_slice(&sentinel_bytes(2, 5));

    let mut collector = ResponseCollector::new(0x1c);
    let result = collector.process_datagram(&datagram);
    assert_eq!(
        result,
        Err(NetlinkError::KernelError { message_type: 0x1c, code: 5 })
    );
    assert!(matches!(collector.finish(), Err(NetlinkError::NoResponse)));
}

#[test]
fn ack_error_sentinel_completes_as_success() {
    let mut datagram = generic_message_bytes(0x10, 3, 2, b"nl80211\0");
    datagram.extend_from_slice(&sentinel_bytes(2, 0));

    let mut collector = ResponseCollector::new(0x10);
    let outcome = collector.process_datagram(&datagram).unwrap();
    assert_eq!(outcome, ReceiveOutcome::Complete);
    let messages = collector.finish().unwrap();
    assert_eq!(messages.len(), 2);
}

#[test]
fn plain_reply_asks_for_more_datagrams() {
    let datagram = generic_message_bytes(0x1c, 32, 3, &[1, 0, 0, 0]);
    let mut collector = ResponseCollector::new(0x1c);
    let outcome = collector.process_datagram(&datagram).unwrap();
    assert_eq!(outcome, ReceiveOutcome::Continue);
    let done = sentinel_bytes(3, 0);
    let outcome = collector.process_datagram(&done).unwrap();
    assert_eq!(outcome, ReceiveOutcome::Complete);
    assert_eq!(collector.finish().unwrap().len(), 2);
}

#[test]
fn empty_exchange_reports_no_response() {
    let collector = ResponseCollector::new(0x1c);
    assert!(matches!(collector.finish(), Err(NetlinkError::NoResponse)));
}

#[test]
fn malformed_datagram_is_rejected() {
    // A declared length larger than the datagram.
    let mut datagram = Vec::new();
    datagram.extend_from_slice(&64u32.to_le_bytes());
    datagram.extend_from_slice(&0x1cu16.to_le_bytes());
    datagram.extend_from_slice(&0u16.to_le_bytes());
    datagram.extend_from_slice(&0u32.to_le_bytes());
    datagram.extend_from_slice(&77u32.to_le_bytes());
    assert!(matches!(
        parse_datagram(&datagram),
        Err(NetlinkError::MalformedMessage)
    ));

    let mut collector = ResponseCollector::new(0x1c);
    assert_eq!(
        collector.process_datagram(&datagram),
        Err(NetlinkError::MalformedMessage)
    );
}

#[test]
fn empty_datagram_continues() {
    let mut collector = ResponseCollector::new(0x1c);
    let outcome = collector.process_datagram(&Vec::new()).unwrap();
    assert_eq!(outcome, ReceiveOutcome::Continue);
}
