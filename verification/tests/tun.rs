//! The TUN path: packet building and parsing, the TCP state machine,
//! FakeDNS, the DNS interceptor, and UDP framing.

use ech_workers::{
    build_tcp_packet, build_udp_packet, calculate_checksum, frame_datagram, parse_framed_datagram,
    parse_query, parse_tcp_packet, parse_udp_packet, DnsQueryType, FakeDnsPool, Ipv4Address,
    Ipv6Address, Socks5UdpFrame, TargetAddr, TcpAction, TcpFlags, TcpSessionManager,
};

#[test]
fn test_tcp_packet_build() {
    let packet = build_tcp_packet(
        Ipv4Address::new(10, 0, 0, 1),
        Ipv4Address::new(93, 184, 216, 34),
        12345,
        80,
        1000,
        0,
        TcpFlags::syn(),
        65535,
        &[],
    );

    assert_eq!(packet[0] & 0xF0, 0x40); // IPv4
    assert_eq!(packet[9], 6); // TCP protocol
    assert_eq!(packet.len(), 40); // IP(20) + TCP(20)
}

#[test]
fn test_udp_packet_build() {
    let packet = build_udp_packet(
        Ipv4Address::new(10, 0, 0, 1),
        Ipv4Address::new(8, 8, 8, 8),
        54321,
        53,
        b"DNS query",
    );

    assert_eq!(packet[0] & 0xF0, 0x40); // IPv4
    assert_eq!(packet[9], 17); // UDP protocol
    assert_eq!(packet.len(), 20 + 8 + 9); // IP(20) + UDP(8) + payload(9)
}

#[test]
fn test_tcp_packet_parse_round_trip() {
    let payload = b"hello there";
    let packet = build_tcp_packet(
        Ipv4Address::new(10, 0, 0, 2),
        Ipv4Address::new(1, 1, 1, 1),
        40000,
        443,
        7777,
        8888,
        TcpFlags::psh_ack(),
        4096,
        payload,
    );
    let parsed = parse_tcp_packet(&packet).unwrap();
    assert_eq!(parsed.src.bits, Ipv4Address::new(10, 0, 0, 2).bits);
    assert_eq!(parsed.dst.bits, Ipv4Address::new(1, 1, 1, 1).bits);
    assert_eq!(parsed.src_port, 40000);
    assert_eq!(parsed.dst_port, 443);
    assert_eq!(parsed.seq, 7777);
    assert_eq!(parsed.ack, 8888);
    assert!(parsed.flags.psh && parsed.flags.ack && !parsed.flags.syn);
    assert_eq!(parsed.window, 4096);
    assert_eq!(parsed.payload, payload.to_vec());

    // Checksums recomputed over the packet's own bytes equal the embedded
    // ones.
    let mut ip_hdr = packet[..20].to_vec();
    let embedded_ip_ck = u16::from_be_bytes([ip_hdr[10], ip_hdr[11]]);
    ip_hdr[10] = 0;
    ip_hdr[11] = 0;
    assert_eq!(calculate_checksum(&ip_hdr), embedded_ip_ck);

    let embedded_tcp_ck = u16::from_be_bytes([packet[36], packet[37]]);
    let mut seg = packet[20..].to_vec();
    seg[16] = 0;
    seg[17] = 0;
    let recomputed = ech_workers::calculate_tcp_checksum(
        Ipv4Address::new(10, 0, 0, 2),
        Ipv4Address::new(1, 1, 1, 1),
        &seg,
    );
    assert_eq!(recomputed, embedded_tcp_ck);
}

#[test]
fn test_udp_packet_parse_round_trip() {
    let packet = build_udp_packet(
        Ipv4Address::new(8, 8, 8, 8),
        Ipv4Address::new(10, 0, 0, 2),
        53,
        40000,
        b"answer",
    );
    let parsed = parse_udp_packet(&packet).unwrap();
    assert_eq!(parsed.src.bits, Ipv4Address::new(8, 8, 8, 8).bits);
    assert_eq!(parsed.dst.bits, Ipv4Address::new(10, 0, 0, 2).bits);
    assert_eq!(parsed.src_port, 53);
    assert_eq!(parsed.dst_port, 40000);
    assert_eq!(parsed.payload, b"answer".to_vec());

    // A zero UDP checksum is rewritten, so the field is never zero.
    assert_ne!(u16::from_be_bytes([packet[26], packet[27]]), 0);
}

#[test]
fn test_checksum_known_value() {
    // RFC 1071's running example.
    let data = [0x00u8, 0x01, 0xf2, 0x03, 0xf4, 0xf5, 0xf6, 0xf7];
    assert_eq!(calculate_checksum(&data), !0xddf2u16);
}

#[test]
fn test_tun_handshake() {
    // Inject SYN (seq=1000) from 10.0.0.2:40000 to 1.1.1.1:80; expect
    // SYN|ACK with ack=1001 and some sequence S; after ACK (seq=1001,
    // ack=S+1) the session is established and a dial is due.
    let mut mgr = TcpSessionManager::new();
    let client = Ipv4Address::new(10, 0, 0, 2);
    let server = Ipv4Address::new(1, 1, 1, 1);
    let syn = ech_workers::ReceivedTcpFlags { syn: true, ack: false, fin: false, rst: false, psh: false };
    let (action, packets) = mgr.handle_packet(client, server, 40000, 80, 1000, 0, syn, &[], 0);
    assert!(matches!(action, TcpAction::SynAckSent(_)));
    assert_eq!(packets.len(), 1);
    let syn_ack = parse_tcp_packet(&packets[0]).unwrap();
    assert!(syn_ack.flags.syn && syn_ack.flags.ack);
    assert_eq!(syn_ack.ack, 1001);
    assert_eq!(syn_ack.src.bits, server.bits);
    assert_eq!(syn_ack.dst.bits, client.bits);
    assert_eq!(syn_ack.src_port, 80);
    assert_eq!(syn_ack.dst_port, 40000);
    let s = syn_ack.seq;

    let ack = ech_workers::ReceivedTcpFlags { syn: false, ack: true, fin: false, rst: false, psh: false };
    let (action2, packets2) =
        mgr.handle_packet(client, server, 40000, 80, 1001, s.wrapping_add(1), ack, &[], 5);
    assert!(matches!(action2, TcpAction::ConnectionEstablished(_)));
    assert!(packets2.is_empty());
}

#[test]
fn test_tcp_session_data_ack_and_seq_advance() {
    let mut mgr = TcpSessionManager::new();
    let client = Ipv4Address::new(10, 0, 0, 2);
    let server = Ipv4Address::new(1, 1, 1, 1);
    let syn = ech_workers::ReceivedTcpFlags { syn: true, ack: false, fin: false, rst: false, psh: false };
    let (_, packets) = mgr.handle_packet(client, server, 40000, 80, 1000, 0, syn, &[], 0);
    let s = parse_tcp_packet(&packets[0]).unwrap().seq;
    let ack = ech_workers::ReceivedTcpFlags { syn: false, ack: true, fin: false, rst: false, psh: false };
    mgr.handle_packet(client, server, 40000, 80, 1001, s.wrapping_add(1), ack, &[], 1);

    // Client payload: the machine acknowledges seq + len.
    let (action, packets) =
        mgr.handle_packet(client, server, 40000, 80, 1001, s.wrapping_add(1), ack, b"abcde", 2);
    match action {
        TcpAction::DataReceived(_, data) => assert_eq!(data, b"abcde".to_vec()),
        other => panic!("unexpected action {:?}", other),
    }
    let pure_ack = parse_tcp_packet(&packets[0]).unwrap();
    assert_eq!(pure_ack.ack, 1006);

    // Server-side sends: consecutive packets carry contiguous sequence
    // numbers advancing by payload length.
    let key = ech_workers::SessionKey::new(client, 40000, server, 80);
    let p1 = mgr.send_data(&key, b"0123456789", 3).unwrap();
    let p2 = mgr.send_data(&key, b"xyz", 4).unwrap();
    let f1 = parse_tcp_packet(&p1).unwrap();
    let f2 = parse_tcp_packet(&p2).unwrap();
    assert_eq!(f1.seq.wrapping_add(10), f2.seq);
    assert_eq!(f1.payload, b"0123456789".to_vec());

    // Closing emits FIN|ACK and consumes one sequence number.
    let fin = mgr.close_connection(&key, 5).unwrap().unwrap();
    let f3 = parse_tcp_packet(&fin).unwrap();
    assert!(f3.flags.fin && f3.flags.ack);
    assert_eq!(f2.seq.wrapping_add(3), f3.seq);
}

#[test]
fn test_tcp_rst_for_unknown_session() {
    let mut mgr = TcpSessionManager::new();
    let flags = ech_workers::ReceivedTcpFlags { syn: false, ack: true, fin: false, rst: false, psh: false };
    let (action, packets) = mgr.handle_packet(
        Ipv4Address::new(10, 0, 0, 2),
        Ipv4Address::new(1, 1, 1, 1),
        40000,
        80,
        5000,
        1,
        flags,
        &[],
        0,
    );
    assert!(matches!(action, TcpAction::Nothing));
    let rst = parse_tcp_packet(&packets[0]).unwrap();
    assert!(rst.flags.rst);
    assert_eq!(rst.seq, 0);
    assert_eq!(rst.ack, 5001);
}

#[test]
fn test_tcp_seq_wraparound() {
    // A session whose sequence number sits just below 2^32: payload
    // straddles the wrap and continues contiguously.
    let key = ech_workers::SessionKey::new(
        Ipv4Address::new(10, 0, 0, 2),
        40000,
        Ipv4Address::new(1, 1, 1, 1),
        80,
    );
    let session = ech_workers::TcpSession {
        state: ech_workers::TcpState::Established,
        local_ip: Ipv4Address::new(10, 0, 0, 2),
        local_port: 40000,
        remote_ip: Ipv4Address::new(1, 1, 1, 1),
        remote_port: 80,
        local_seq: u32::MAX - 3,
        local_ack: 1001,
        remote_seq: 1000,
        window_size: 65535,
        created_at_ms: 0,
        last_activity_ms: 0,
    };
    let mut mgr = TcpSessionManager {
        sessions: ech_workers::KvList { entries: vec![(key.encode(), session)] },
    };
    let p1 = mgr.send_data(&key, b"abcdefgh", 1).unwrap();
    let p2 = mgr.send_data(&key, b"ij", 2).unwrap();
    let f1 = parse_tcp_packet(&p1).unwrap();
    let f2 = parse_tcp_packet(&p2).unwrap();
    assert_eq!(f1.seq, u32::MAX - 3);
    assert_eq!(f2.seq, 4); // wrapped past 2^32
    assert_eq!(f1.seq.wrapping_add(8), f2.seq);
}

#[test]
fn test_fake_dns_allocate() {
    let mut pool = FakeDnsPool::new(true);

    let (ip1, ip6_1) = pool.allocate("example.com");
    let (ip2, _) = pool.allocate("example.com");
    let (ip3, _) = pool.allocate("google.com");

    assert_eq!(ip1, ip2);
    assert_ne!(ip1, ip3);

    assert!(FakeDnsPool::is_fake_ip(ip1));
    assert!(FakeDnsPool::is_fake_ip(ip3));
    assert!(FakeDnsPool::is_fake_ipv6(ip6_1));
}

#[test]
fn test_fake_dns_lookup() {
    let mut pool = FakeDnsPool::new(true);

    let (ip, ip6) = pool.allocate("test.example.com");
    let domain = pool.lookup(ip);
    let domain6 = pool.lookup_v6(ip6);

    assert_eq!(domain, Some("test.example.com".to_string()));
    assert_eq!(domain6, Some("test.example.com".to_string()));
}

#[test]
fn test_ipv4_ipv6_mapping() {
    let v4 = Ipv4Address::new(198, 18, 0, 5);
    let v6 = FakeDnsPool::map_v4_to_v6(v4);

    assert!(FakeDnsPool::is_fake_ipv6(v6));

    let extracted = FakeDnsPool::extract_ipv4_from_ipv6(v6);
    assert_eq!(extracted, Some(v4));
}

#[test]
fn test_is_fake_ip() {
    assert!(FakeDnsPool::is_fake_ip(Ipv4Address::new(198, 18, 0, 1)));
    assert!(FakeDnsPool::is_fake_ip(Ipv4Address::new(198, 18, 255, 255)));
    assert!(!FakeDnsPool::is_fake_ip(Ipv4Address::new(198, 19, 0, 0)));
    assert!(!FakeDnsPool::is_fake_ip(Ipv4Address::new(192, 168, 1, 1)));
    assert!(!FakeDnsPool::is_fake_ip(Ipv4Address::new(8, 8, 8, 8)));
}

#[test]
fn test_lru_eviction() {
    // Pool wrap-around: after pool_size further distinct domains the
    // cursor returns to the first address, evicting the first entry and
    // reusing its address instantly for the newest domain.
    let mut pool = FakeDnsPool::new(true);

    let (ip1, _) = pool.allocate("first.com");

    for i in 0..65536 {
        pool.allocate(&format!("domain{}.com", i));
    }

    assert!(pool.lookup_by_domain("first.com").is_none());
    assert_eq!(pool.lookup(ip1), Some("domain65535.com".to_string()));
}

#[test]
fn test_fake_dns_round_robin_from_pool_base() {
    // A fresh pool hands out addresses from the pool base upward.
    let mut pool = FakeDnsPool::new(true);
    let (ip1, ip6_1) = pool.allocate("example.com");
    assert_eq!(ip1, Ipv4Address::new(198, 18, 0, 0));
    assert_eq!(ip6_1.bits, 0xfc0000000000000000000000c6120000);
    let (ip2, _) = pool.allocate("other.example");
    assert_eq!(ip2, Ipv4Address::new(198, 18, 0, 1));
}

#[test]
fn test_fake_dns_bijection_concrete() {
    // Forward and reverse agree on live entries, in both directions.
    let mut pool = FakeDnsPool::new(true);
    let (ip_a, _) = pool.allocate("a.example");
    let (ip_b, _) = pool.allocate("b.example");
    assert_ne!(ip_a, ip_b);
    assert_eq!(pool.lookup(ip_a), Some("a.example".to_string()));
    assert_eq!(pool.lookup(ip_b), Some("b.example".to_string()));
    let (fwd_a, _) = pool.lookup_by_domain("a.example").unwrap();
    assert_eq!(fwd_a, ip_a);
    // Normalization folds case and trailing dots into the same entry.
    let (ip_a2, _) = pool.allocate("A.Example.");
    assert_eq!(ip_a2, ip_a);
    let stats = pool.stats();
    assert_eq!(stats.total_entries, 2);
    assert_eq!(stats.pool_size, 65536);
}

#[test]
fn test_parse_dns_query() {
    let packet = [
        0x12, 0x34, // ID
        0x01, 0x00, // Flags
        0x00, 0x01, // QDCOUNT
        0x00, 0x00, // ANCOUNT
        0x00, 0x00, // NSCOUNT
        0x00, 0x00, // ARCOUNT
        0x07, b'e', b'x', b'a', b'm', b'p', b'l', b'e', 0x03, b'c', b'o', b'm',
        0x00, // End of name
        0x00, 0x01, // Type A
        0x00, 0x01, // Class IN
    ];

    let query = parse_query(&packet).unwrap();
    assert_eq!(query.id, 0x1234);
    assert_eq!(query.name, "example.com");
    assert_eq!(query.qtype, DnsQueryType::A);
}

#[test]
fn test_parse_dns_query_rejects_compressed() {
    let packet = [
        0x12, 0x34, 0x01, 0x00, 0x00, 0x01, 0x00, 0x00, 0x00, 0x00, 0x00, 0x00, 0xc0, 0x0c, 0x00,
        0x01, 0x00, 0x01,
    ];
    assert!(parse_query(&packet).is_err());
}

fn a_query(name: &str, qtype: u16) -> Vec<u8> {
    let mut q = vec![0x00, 0x07, 0x01, 0x00, 0x00, 0x01, 0x00, 0x00, 0x00, 0x00, 0x00, 0x00];
    for label in name.split('.') {
        q.push(label.len() as u8);
        q.extend_from_slice(label.as_bytes());
    }
    q.push(0);
    q.extend_from_slice(&qtype.to_be_bytes());
    q.extend_from_slice(&[0x00, 0x01]);
    q
}

#[test]
fn test_fake_dns_loop() {
    // A query for www.test.invalid yields a pool address; a flow to that
    // address immediately reverse-resolves, and the upstream header
    // carries ATYP 0x03 with the very name.
    let mut pool = FakeDnsPool::new(true);
    let query = parse_query(&a_query("www.test.invalid", 1)).unwrap();
    let resp = pool.handle_query(&query).unwrap();
    // One answer, type A, RDLENGTH 4, address in 198.18.0.0/16.
    assert_eq!(u16::from_be_bytes([resp[6], resp[7]]), 1);
    let rdata_off = resp.len() - 4;
    let ip = Ipv4Address::new(
        resp[rdata_off],
        resp[rdata_off + 1],
        resp[rdata_off + 2],
        resp[rdata_off + 3],
    );
    assert_eq!(resp[rdata_off - 6..rdata_off - 2].to_vec(), vec![0, 0, 0, 1]); // TTL 1
    assert!(FakeDnsPool::is_fake_ip(ip));

    let target = ech_workers::target_for_flow(&pool, ip, 443);
    match &target {
        TargetAddr::Domain(name, 443) => assert_eq!(name, "www.test.invalid"),
        other => panic!("unexpected target {:?}", other),
    }
    let header = target.to_bytes();
    assert_eq!(header[0], 0x03);
    assert_eq!(header[1], 16);
    assert_eq!(&header[2..18], b"www.test.invalid");
}

#[test]
fn test_fake_dns_blocks_https_records() {
    // HTTPS (type 65) queries get NOERROR with zero answers.
    let mut pool = FakeDnsPool::new(true);
    let query = parse_query(&a_query("www.test.invalid", 65)).unwrap();
    let resp = pool.handle_query(&query).unwrap();
    assert_eq!(resp[3], 0x80); // NOERROR
    assert_eq!(u16::from_be_bytes([resp[6], resp[7]]), 0); // no answers
}

#[test]
fn test_fake_dns_nxdomain_for_other_types() {
    let mut pool = FakeDnsPool::new(true);
    let query = parse_query(&a_query("www.test.invalid", 16)).unwrap();
    let resp = pool.handle_query(&query).unwrap();
    assert_eq!(resp[3] & 0x0f, 0x03); // NXDOMAIN
}

#[test]
fn test_udp_frame_ipv4() {
    let frame = Socks5UdpFrame::new_ipv4(Ipv4Address::new(8, 8, 8, 8), 53, vec![0x01, 0x02, 0x03]);

    let bytes = frame.to_bytes();

    assert_eq!(bytes.len(), 13);
    assert_eq!(bytes[0..2], [0x00, 0x00]); // RSV
    assert_eq!(bytes[2], 0x00); // FRAG
    assert_eq!(bytes[3], 0x01); // ATYP
    assert_eq!(bytes[4..8], [8, 8, 8, 8]); // ADDR
    assert_eq!(bytes[8..10], [0x00, 0x35]); // PORT (53)
    assert_eq!(bytes[10..], [0x01, 0x02, 0x03]); // DATA

    let parsed = Socks5UdpFrame::from_bytes(&bytes).unwrap();
    assert_eq!(parsed.atyp, 0x01);
    assert_eq!(parsed.dst_port, 53);
    assert_eq!(parsed.data, vec![0x01, 0x02, 0x03]);
}

#[test]
fn test_udp_frame_domain() {
    let frame = Socks5UdpFrame::new_domain("example.com", 443, vec![0xAA, 0xBB]);

    let bytes = frame.to_bytes();
    let parsed = Socks5UdpFrame::from_bytes(&bytes).unwrap();

    assert_eq!(parsed.atyp, 0x03);
    assert_eq!(parsed.dst_port, 443);
    assert_eq!(parsed.data, vec![0xAA, 0xBB]);
}

#[test]
fn test_datagram_framing_round_trip() {
    let framed = frame_datagram(b"payload");
    assert_eq!(framed[..2], [0x00, 0x07]);
    let (payload, used) = parse_framed_datagram(&framed).unwrap();
    assert_eq!(payload, b"payload".to_vec());
    assert_eq!(used, framed.len());
    // An incomplete frame stays pending.
    assert!(parse_framed_datagram(&framed[..5]).is_none());
}

#[test]
fn test_packet_parsers_reject_malformed() {
    // Too short, wrong protocol, and a total-length mismatch.
    assert!(parse_tcp_packet(&[0x45; 20]).is_err());
    let mut udp_as_tcp = build_udp_packet(
        Ipv4Address::new(1, 1, 1, 1),
        Ipv4Address::new(2, 2, 2, 2),
        1,
        2,
        b"0123456789ab",
    );
    assert!(parse_tcp_packet(&udp_as_tcp).is_err());
    udp_as_tcp[2] = 0xff; // break the total length
    assert!(parse_udp_packet(&udp_as_tcp).is_err());
}

#[test]
fn test_udp_frame_rejects_malformed() {
    assert!(Socks5UdpFrame::from_bytes(&[0, 0, 0, 0x01, 1, 2]).is_err()); // short
    assert!(Socks5UdpFrame::from_bytes(&[0, 0, 0, 0x09, 0, 0, 0, 0, 0, 0]).is_err()); // atyp
    // A domain frame whose length byte runs past the buffer.
    assert!(Socks5UdpFrame::from_bytes(&[0, 0, 0, 0x03, 200, b'a', 0, 80, 0, 0]).is_err());
}

#[test]
fn test_udp_stream_header() {
    assert_eq!(
        ech_workers::build_udp_stream_header("example.com", 53),
        "UDP:example.com:53\n"
    );
}
