use peer::addr::PeerAddr;

#[test]
fn ipv4_address_is_its_octets_in_network_order() {
    assert_eq!(PeerAddr::v4([127, 0, 0, 1], 8080), PeerAddr::V4 { ip: 0x7f00_0001, port: 8080 });
    assert_eq!(PeerAddr::v4([1, 2, 3, 4], 0).octets(), vec![1, 2, 3, 4]);
    assert_eq!(PeerAddr::v4([1, 2, 3, 4], 77).port(), 77);
}

#[test]
fn ipv6_address_is_its_octets_in_network_order() {
    let mut octets = [0u8; 16];
    octets[15] = 1;
    let addr = PeerAddr::v6(octets, 9001);
    assert_eq!(addr, PeerAddr::V6 { ip: 1, port: 9001, flowinfo: 0, scope_id: 0 });
    assert_eq!(addr.octets(), octets.to_vec());
    assert_eq!(addr.port(), 9001);
}

#[test]
fn from_octets_tells_the_family_by_the_count() {
    assert_eq!(PeerAddr::from_octets(&[10, 0, 0, 7], 1), Some(PeerAddr::V4 { ip: 0x0a00_0007, port: 1 }));
    assert_eq!(
        PeerAddr::from_octets(&[0x20, 1, 0, 0, 0, 0, 0, 0, 0, 0, 0, 0, 0, 0, 0, 2], 1),
        Some(PeerAddr::V6 { ip: 0x2001_0000_0000_0000_0000_0000_0000_0002, port: 1, flowinfo: 0, scope_id: 0 })
    );
    assert_eq!(PeerAddr::from_octets(&[], 1), None);
    assert_eq!(PeerAddr::from_octets(&[1, 2, 3], 1), None);
    assert_eq!(PeerAddr::from_octets(&[0; 17], 1), None);
}

#[test]
fn address_text_is_that_of_a_socket_address() {
    assert_eq!(PeerAddr::v4([127, 0, 0, 1], 8080).to_text(), "127.0.0.1:8080");
    assert_eq!(PeerAddr::V4 { ip: 0, port: 0 }.to_text(), "0.0.0.0:0");
    assert_eq!(PeerAddr::V6 { ip: 1, port: 9001, flowinfo: 0, scope_id: 0 }.to_text(), "[::1]:9001");
    assert_eq!(
        PeerAddr::V6 { ip: 0xfe80_0000_0000_0000_0000_0000_0000_0001, port: 80, flowinfo: 0, scope_id: 3 }
            .to_text(),
        "[fe80::1%3]:80"
    );
    assert_eq!(
        PeerAddr::v6([0, 255, 0, 255, 0, 255, 0, 255, 0, 255, 0, 255, 0, 255, 0, 255], 8080)
            .to_text(),
        "[ff:ff:ff:ff:ff:ff:ff:ff]:8080"
    );
}

#[test]
fn address_is_read_from_text() {
    assert_eq!(PeerAddr::from_text("127.0.0.1:8080"), Some(PeerAddr::v4([127, 0, 0, 1], 8080)));
    assert_eq!(PeerAddr::from_text("[::1]:9001"), Some(PeerAddr::V6 { ip: 1, port: 9001, flowinfo: 0, scope_id: 0 }));
    assert_eq!(
        PeerAddr::from_text("[fe80::1%3]:80"),
        Some(PeerAddr::V6 { ip: 0xfe80_0000_0000_0000_0000_0000_0000_0001, port: 80, flowinfo: 0, scope_id: 3 })
    );
    assert_eq!(PeerAddr::from_text(""), None);
    assert_eq!(PeerAddr::from_text("127.0.0.1"), None);
    assert_eq!(PeerAddr::from_text("localhost:80"), None);
    assert_eq!(PeerAddr::from_text("127.0.0.1:99999"), None);
}

#[test]
fn address_reads_back_from_its_text() {
    let addrs = [
        PeerAddr::V4 { ip: 0, port: 0 },
        PeerAddr::V4 { ip: u32::MAX, port: u16::MAX },
        PeerAddr::v4([192, 168, 1, 20], 9002),
        PeerAddr::V6 { ip: 0, port: 0, flowinfo: 0, scope_id: 0 },
        PeerAddr::V6 { ip: u128::MAX, port: u16::MAX, flowinfo: 0, scope_id: u32::MAX },
        PeerAddr::V6 { ip: 0xffff_0102_0304, port: 1, flowinfo: 0, scope_id: 0 },
        PeerAddr::V6 { ip: 0x2001_0db8_0000_0000_0000_0000_0000_0001, port: 443, flowinfo: 0, scope_id: 0 },
    ];
    for addr in addrs {
        assert_eq!(PeerAddr::from_text(&addr.to_text()), Some(addr));
        assert!(addr.to_text().len() <= 255);
    }
}

#[test]
fn flow_information_is_not_in_the_text() {
    let addr = PeerAddr::V6 { ip: 1, port: 9001, flowinfo: 5, scope_id: 0 };
    assert_eq!(addr.to_text(), "[::1]:9001");
    assert_eq!(
        PeerAddr::from_text(&addr.to_text()),
        Some(PeerAddr::V6 { ip: 1, port: 9001, flowinfo: 0, scope_id: 0 })
    );
}
