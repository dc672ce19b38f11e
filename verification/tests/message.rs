use peer::addr::PeerAddr;
use peer::message::Message;
use peer::protocol::DecodeError;

#[test]
fn buffer_holds_family_address_port_and_payload() {
    let message = Message::new(PeerAddr::v4([127, 0, 0, 1], 8080), String::from("hi"));
    let buffer = message.to_buffer();
    assert_eq!(&buffer[..10], &[4, 127, 0, 0, 1, 0x1f, 0x90, b'h', b'i', 0]);
    assert!(buffer[9..].iter().all(|octet| *octet == 0));
}

#[test]
fn buffer_holds_an_ipv6_source() {
    let mut octets = [0u8; 16];
    octets[0] = 0xfe;
    octets[1] = 0x80;
    octets[15] = 1;
    let message = Message::new(PeerAddr::v6(octets, 9001), String::from("x"));
    let buffer = message.to_buffer();
    assert_eq!(buffer[0], 6);
    assert_eq!(&buffer[1..17], &octets);
    assert_eq!(&buffer[17..21], &[0x23, 0x29, b'x', 0]);
}

#[test]
fn source_comes_back_from_the_buffer() {
    let sources = [
        PeerAddr::v4([127, 0, 0, 1], 8080),
        PeerAddr::V4 { ip: u32::MAX, port: u16::MAX },
        PeerAddr::V6 { ip: 1, port: 9001, flowinfo: 0, scope_id: 0 },
        PeerAddr::V6 { ip: u128::MAX, port: 0, flowinfo: 0, scope_id: 0 },
    ];
    for source in sources {
        let read = Message::from_buffer(&Message::new(source, String::new()).to_buffer()).unwrap();
        assert_eq!(read.source, source);
    }
}

#[test]
fn scope_does_not_come_back_from_the_buffer() {
    let source = PeerAddr::V6 { ip: 1, port: 9001, flowinfo: 0, scope_id: 7 };
    let read = Message::from_buffer(&Message::new(source, String::new()).to_buffer()).unwrap();
    assert_eq!(read.source, PeerAddr::V6 { ip: 1, port: 9001, flowinfo: 0, scope_id: 0 });
}

#[test]
fn payload_comes_back_with_the_padding() {
    let message = Message::new(PeerAddr::v4([127, 0, 0, 1], 8080), String::from("hi"));
    let read = Message::from_buffer(&message.to_buffer()).unwrap();
    assert_eq!(read.payload.len(), 1024 - 7);
    assert_eq!(read.payload.trim_end_matches('\0'), "hi");
}

#[test]
fn long_payload_is_cut_to_the_room() {
    let message = Message::new(PeerAddr::v4([127, 0, 0, 1], 8080), "z".repeat(2000));
    let buffer = message.to_buffer();
    assert!(buffer[7..7 + 997].iter().all(|octet| *octet == b'z'));
    assert!(buffer[7 + 997..].iter().all(|octet| *octet == 0));
    let message = Message::new(PeerAddr::V6 { ip: 1, port: 1, flowinfo: 0, scope_id: 0 }, "z".repeat(2000));
    let buffer = message.to_buffer();
    assert!(buffer[19..19 + 985].iter().all(|octet| *octet == b'z'));
    assert!(buffer[19 + 985..].iter().all(|octet| *octet == 0));
}

#[test]
fn unknown_family_is_a_malformed_frame() {
    let mut buffer = [0u8; 1024];
    assert_eq!(Message::from_buffer(&buffer).unwrap_err(), DecodeError::MalformedFrame);
    buffer[0] = 5;
    assert_eq!(Message::from_buffer(&buffer).unwrap_err(), DecodeError::MalformedFrame);
    buffer[0] = 4;
    let read = Message::from_buffer(&buffer).unwrap();
    assert_eq!(read.source, PeerAddr::V4 { ip: 0, port: 0 });
}

#[test]
fn message_shows_source_and_payload() {
    let message = Message::new(PeerAddr::v4([127, 0, 0, 1], 8080), String::from("hi"));
    assert_eq!(message.to_text(), "Message(127.0.0.1:8080 | hi)");
    assert_eq!(message.clone().to_text(), "Message(127.0.0.1:8080 | hi)");
}
