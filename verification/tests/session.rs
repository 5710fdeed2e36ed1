//! Session management, multiplexer sizing, ordered delivery, the relay
//! policy, configuration validation, and the status surface.

use ech_workers::{
    create_optimized_config, create_optimized_yamux_config, generate_ws_key, AuthMethod, Config,
    DialStep, Error, LogLevel, ProxyStatus, ReadBuffer, RelayStep, SessionState, Statistics,
};

#[test]
fn test_retry_cap() {
    // Three consecutive establishment failures: the fourth dial fails
    // fast, with no establishment attempt, until reset.
    let mut s = SessionState::new();
    assert_eq!(s.next_dial_step(), DialStep::Establish);
    s.on_establish_failed();
    assert_eq!(s.next_dial_step(), DialStep::Establish);
    s.on_establish_failed();
    assert_eq!(s.next_dial_step(), DialStep::Establish);
    s.on_establish_failed();
    assert_eq!(s.next_dial_step(), DialStep::FailFast);
    s.on_establish_failed();
    assert_eq!(s.next_dial_step(), DialStep::FailFast);
    s.reset();
    assert_eq!(s.next_dial_step(), DialStep::Establish);
}

#[test]
fn test_session_success_resets_failures() {
    let mut s = SessionState::new();
    s.on_establish_failed();
    s.on_establish_failed();
    s.on_stream_opened();
    assert_eq!(s.next_dial_step(), DialStep::UseExisting);
    assert_eq!(s.consecutive_failures, 0);
    s.on_existing_failed();
    assert_eq!(s.next_dial_step(), DialStep::Establish);
}

#[test]
fn test_mux_sizings() {
    let shared = create_optimized_config();
    assert_eq!(shared.stream_receive_window, 2 * 1024 * 1024);
    assert_eq!(shared.max_buffer_size, 4 * 1024 * 1024);
    assert_eq!(shared.split_send_size, 64 * 1024);
    assert_eq!(shared.max_num_streams, 256);

    let split = create_optimized_yamux_config();
    assert_eq!(split.connection_receive_window, 2 * 1024 * 1024);
    assert_eq!(split.stream_receive_window, 1024 * 1024);
    assert_eq!(split.split_send_size, 64 * 1024);
    assert_eq!(split.max_num_streams, 256);
}

#[test]
fn test_read_buffer_in_order_delivery() {
    // Bytes read out are a prefix of bytes the messages carried, in
    // order, across message boundaries and partial reads.
    let mut buf = ReadBuffer::new();
    buf.push_message(b"hello ".to_vec());
    let a = buf.read(4);
    assert_eq!(a, b"hell".to_vec());
    let b = buf.read(100);
    assert_eq!(b, b"o ".to_vec());
    assert_eq!(buf.remaining(), 0);
    buf.push_message(b"world".to_vec());
    let c = buf.read(5);
    assert_eq!(c, b"world".to_vec());
    let whole: Vec<u8> = [a, b, c].concat();
    assert_eq!(whole, b"hello world".to_vec());
}

#[test]
fn test_upgrade_request_and_response() {
    let req = ech_workers::build_upgrade_request("relay.example", "/ws", "KEY", Some("token123"));
    assert_eq!(
        req,
        "GET /ws HTTP/1.1\r\nHost: relay.example\r\nUpgrade: websocket\r\nConnection: Upgrade\r\nSec-WebSocket-Key: KEY\r\nSec-WebSocket-Version: 13\r\nSec-WebSocket-Protocol: token123\r\n\r\n"
    );
    let req2 = ech_workers::build_upgrade_request("relay.example", "/", "KEY", None);
    assert!(!req2.contains("Sec-WebSocket-Protocol"));

    assert!(ech_workers::check_upgrade_response(b"HTTP/1.1 101 Switching Protocols\r\n\r\n")
        .is_ok());
    assert_eq!(
        ech_workers::check_upgrade_response(b"HTTP/1.1 403 Forbidden\r\n\r\n").unwrap_err(),
        Error::Protocol
    );
    assert_eq!(
        ech_workers::check_upgrade_response(b"HTTP").unwrap_err(),
        Error::Protocol
    );
}

#[test]
fn test_ws_key_is_encoded() {
    // Sixteen random bytes encode to 24 base64 characters; raw bytes
    // handed back unchanged would be 16.
    let k = generate_ws_key();
    assert_eq!(k.len(), 24);
    assert!(k.chars().all(|c| c.is_ascii_alphanumeric() || c == '+' || c == '/' || c == '='));
}

#[test]
fn test_relay_policy() {
    let mut side = ech_workers::RelaySide::new();
    assert_eq!(side.on_read(100), RelayStep::WriteAndMaybeFlush(true));
    assert_eq!(side.on_read(100), RelayStep::WriteAndMaybeFlush(false));
    assert_eq!(side.total_bytes, 200);
    assert_eq!(side.on_eof(), RelayStep::FlushAndHalfClose);
    assert_eq!(side.on_timeout(), RelayStep::FlushAndHalfClose);
}

fn sample_config() -> Config {
    Config {
        listen_addr: String::new(),
        server_addr: "relay.example:443/ws".to_string(),
        server_ip: None,
        token: "secret".to_string(),
        use_ech: true,
        ech_domain: String::new(),
        doh_server: String::new(),
        use_yamux: true,
        randomize_fingerprint: true,
    }
}

#[test]
fn test_config_validation_fills_defaults() {
    let v = sample_config().validate().unwrap();
    assert_eq!(v.listen_addr, "127.0.0.1:1080");
    assert_eq!(v.ech_domain, "cloudflare-ech.com");
    assert_eq!(v.doh_server, "223.5.5.5/dns-query");
    assert_eq!(v.server_addr, "relay.example:443/ws");
}

#[test]
fn test_config_validation_idempotent() {
    // Validating a validated configuration changes nothing; invalid input
    // fails the same way every time.
    let once = sample_config().validate().unwrap();
    let twice = once.clone().validate().unwrap();
    assert_eq!(format!("{:?}", once), format!("{:?}", twice));

    let mut bad = sample_config();
    bad.server_addr = "no-port".to_string();
    assert_eq!(bad.clone().validate().unwrap_err(), Error::Config);
    assert_eq!(bad.validate().unwrap_err(), Error::Config);

    let mut no_token = sample_config();
    no_token.token = String::new();
    assert_eq!(no_token.validate().unwrap_err(), Error::Config);
}

#[test]
fn test_proxy_status() {
    assert!(ProxyStatus::Running.is_running());
    assert!(!ProxyStatus::Stopped.is_running());
    assert_eq!(ProxyStatus::Stopped.to_string(), "已停止");
    assert_eq!(LogLevel::Warn.to_string(), "WARN");
}

#[test]
fn test_statistics_formatting() {
    assert_eq!(Statistics::format_bytes(512), "512 B");
    assert_eq!(Statistics::format_bytes(2048), "2.00 KB");
    assert_eq!(Statistics::format_bytes(5 * 1024 * 1024 + 512 * 1024), "5.50 MB");
    assert_eq!(Statistics::format_bytes(3 * 1024 * 1024 * 1024), "3.00 GB");
    assert_eq!(Statistics::format_uptime(59), "00:59");
    assert_eq!(Statistics::format_uptime(3 * 3600 + 5 * 60 + 9), "03:05:09");

    let mut stats = Statistics::new();
    assert_eq!(stats.uptime(1000), 0);
    stats.start_time_ms = Some(400);
    assert_eq!(stats.uptime(1000), 600);
    stats.reset();
    assert_eq!(stats.start_time_ms, None);
}

#[test]
fn test_gui_config_defaults() {
    let c = ech_workers::GuiConfig::default();
    assert_eq!(c.basic.listen_addr, "127.0.0.1:1080");
    assert_eq!(c.basic.server_addr, "your-worker.workers.dev");
    assert!(c.ech.enabled);
    assert_eq!(c.ech.domain, "cloudflare-ech.com");
    assert_eq!(c.ech.doh_server, "https://1.1.1.1/dns-query");
    assert!(c.advanced.enable_yamux);
    assert_eq!(c.advanced.tls_profile, "Chrome");
    assert!(c.app.minimize_to_tray);
    assert!(ech_workers::default_true());
}

#[test]
fn test_socks5_handshake_helpers() {
    let (methods, used) = ech_workers::parse_socks5_greeting(&[0x05, 0x02, 0x00, 0x02]).unwrap();
    assert_eq!(used, 4);
    assert_eq!(methods, vec![0x00, 0x02]);
    let chosen = ech_workers::select_auth_method(&methods);
    assert!(matches!(chosen, AuthMethod::NoAuth));
    assert_eq!(ech_workers::build_method_selection(chosen), vec![0x05, 0x00]);
    assert!(matches!(
        ech_workers::select_auth_method(&[0x02]),
        AuthMethod::NoAcceptable
    ));

    let mut req = vec![0x05, 0x01, 0x00];
    req.extend_from_slice(&[0x03, 0x0b]);
    req.extend_from_slice(b"example.com");
    req.extend_from_slice(&[0x01, 0xbb]);
    let (parsed, used) = ech_workers::parse_socks5_request(&req).unwrap();
    assert_eq!(used, req.len());
    match parsed {
        ech_workers::Socks5Request::Connect(ech_workers::TargetAddr::Domain(host, port)) => {
            assert_eq!(host, "example.com");
            assert_eq!(port, 443);
        }
        other => panic!("unexpected request {:?}", other),
    }
    assert_eq!(
        ech_workers::build_socks5_reply(0x00),
        vec![0x05, 0x00, 0x00, 0x01, 0, 0, 0, 0, 0, 0]
    );
    assert_eq!(
        ech_workers::build_socks5_reply(0x07),
        vec![0x05, 0x07, 0x00, 0x01, 0, 0, 0, 0, 0, 0]
    );

    // NAT bookkeeping around an established flow.
    let mut nat = ech_workers::NatTable::new();
    let key = ech_workers::NatKey::new(
        ech_workers::Ipv4Address::new(10, 0, 0, 2),
        40000,
        ech_workers::Ipv4Address::new(1, 1, 1, 1),
        80,
        6,
    );
    let e = nat.lookup_or_create(&key, 1000);
    assert!(matches!(e.state, ech_workers::ConnectionState::New));
    nat.update_state(&key, ech_workers::ConnectionState::Established, 2000);
    let back = nat.lookup_reverse(&key.reverse()).unwrap();
    assert!(matches!(back.state, ech_workers::ConnectionState::Established));
    nat.cleanup_expired(2000 + 299_000);
    assert_eq!(nat.len(), 1);
    nat.cleanup_expired(2000 + 300_000);
    assert_eq!(nat.len(), 0);
}

#[test]
fn test_nat_stats_counts() {
    let mut nat = ech_workers::NatTable::new();
    let tcp_key = ech_workers::NatKey::new(
        ech_workers::Ipv4Address::new(10, 0, 0, 2),
        40000,
        ech_workers::Ipv4Address::new(1, 1, 1, 1),
        80,
        6,
    );
    let udp_key = ech_workers::NatKey::new(
        ech_workers::Ipv4Address::new(10, 0, 0, 2),
        40001,
        ech_workers::Ipv4Address::new(9, 9, 9, 9),
        53,
        17,
    );
    nat.lookup_or_create(&tcp_key, 0);
    nat.lookup_or_create(&udp_key, 0);
    let before = nat.stats();
    assert_eq!(
        (before.total, before.tcp_count, before.udp_count, before.established),
        (2, 1, 1, 0)
    );
    nat.update_state(&tcp_key, ech_workers::ConnectionState::Established, 1);
    let after = nat.stats();
    assert_eq!(
        (after.total, after.tcp_count, after.udp_count, after.established),
        (2, 1, 1, 1)
    );
}

#[test]
fn test_udp_session_decisions() {
    let mut mgr = ech_workers::UdpSessionManager::new();
    let key = ech_workers::UdpSessionKey::new(
        ech_workers::Ipv4Address::new(10, 0, 0, 2),
        5353,
        ech_workers::Ipv4Address::new(9, 9, 9, 9),
        443,
    );
    assert_eq!(mgr.handle_packet(&key, 0), ech_workers::UdpDecision::CreateSession);
    assert_eq!(mgr.handle_packet(&key, 1000), ech_workers::UdpDecision::ForwardExisting);
    // Past the 60 s idle timeout the session is recreated.
    assert_eq!(
        mgr.handle_packet(&key, 1000 + 61_000),
        ech_workers::UdpDecision::CreateSession
    );
    assert_eq!(mgr.active_sessions(62_000), 1);
    mgr.cleanup_expired(62_000 + 61_000);
    assert_eq!(mgr.active_sessions(62_000 + 61_000), 0);
}
