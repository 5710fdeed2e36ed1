//! SOCKS5 and HTTP CONNECT ingress parsing, and the relay address.

use ech_workers::{
    build_connect_response, build_method_not_allowed, parse_connect_request, parse_server_addr,
    parse_target, Error, Ipv4Address, TargetAddr,
};

#[test]
fn test_target_addr_domain() {
    let target = TargetAddr::Domain("example.com".to_string(), 443);
    let bytes = target.to_bytes();

    assert_eq!(bytes[0], 0x03); // Domain type
    assert_eq!(bytes[1], 11); // Length
    assert_eq!(&bytes[2..13], b"example.com");
    assert_eq!(u16::from_be_bytes([bytes[13], bytes[14]]), 443);

    let (parsed, used) = parse_target(&bytes).unwrap();
    assert_eq!(used, bytes.len());
    match parsed {
        TargetAddr::Domain(domain, port) => {
            assert_eq!(domain, "example.com");
            assert_eq!(port, 443);
        }
        _ => panic!("Expected domain"),
    }
}

#[test]
fn test_target_addr_ipv4() {
    let target = TargetAddr::Ipv4(Ipv4Address::new(1, 2, 3, 4), 8080);
    let bytes = target.to_bytes();

    assert_eq!(bytes[0], 0x01); // IPv4 type
    assert_eq!(&bytes[1..5], &[1, 2, 3, 4]);
    assert_eq!(u16::from_be_bytes([bytes[5], bytes[6]]), 8080);
}

#[test]
fn test_endianness() {
    let port: u16 = 443;
    let be_bytes = port.to_be_bytes();
    assert_eq!(be_bytes, [0x01, 0xBB]); // 443 = 0x01BB in big-endian
}

#[test]
fn test_socks5_header_for_tls_origin() {
    // The stream header for example.com:443 opens with ATYP 0x03 and the
    // verbatim name, so the relay can do its own ECH to the origin.
    let target = TargetAddr::Domain("example.com".to_string(), 443);
    let bytes = target.to_bytes();
    assert_eq!(
        bytes,
        vec![
            0x03, 0x0b, 0x65, 0x78, 0x61, 0x6d, 0x70, 0x6c, 0x65, 0x2e, 0x63, 0x6f, 0x6d, 0x01,
            0xbb
        ]
    );
}

#[test]
fn test_target_addr_ipv6_round_trip() {
    let ip = ech_workers::Ipv6Address::from_bits(0x20010db8000000000000000000000001);
    let target = TargetAddr::Ipv6(ip, 8443);
    let bytes = target.to_bytes();
    assert_eq!(bytes[0], 0x04);
    assert_eq!(bytes.len(), 19);
    let (parsed, used) = parse_target(&bytes).unwrap();
    assert_eq!(used, 19);
    match parsed {
        TargetAddr::Ipv6(got, port) => {
            assert_eq!(got.bits, ip.bits);
            assert_eq!(port, 8443);
        }
        _ => panic!("Expected IPv6"),
    }
}

#[test]
fn test_target_addr_max_length_domain() {
    let name: String = std::iter::repeat('a').take(255).collect();
    let target = TargetAddr::Domain(name.clone(), 53);
    let bytes = target.to_bytes();
    assert_eq!(bytes.len(), 4 + 255);
    assert_eq!(bytes[1], 255);
    let (parsed, used) = parse_target(&bytes).unwrap();
    assert_eq!(used, bytes.len());
    match parsed {
        TargetAddr::Domain(domain, port) => {
            assert_eq!(domain, name);
            assert_eq!(port, 53);
        }
        _ => panic!("Expected domain"),
    }
}

#[test]
fn test_parse_target_unknown_atyp() {
    assert_eq!(
        parse_target(&[0x05, 0, 0, 0, 0, 0, 0]).unwrap_err(),
        Error::Protocol
    );
}

#[test]
fn test_parse_connect_request() {
    let request = b"CONNECT example.com:443 HTTP/1.1\r\n\
                    Host: example.com:443\r\n\
                    User-Agent: curl/7.68.0\r\n\
                    \r\n";

    let target = parse_connect_request(request).unwrap();
    match target {
        TargetAddr::Domain(host, port) => {
            assert_eq!(host, "example.com");
            assert_eq!(port, 443);
        }
        _ => panic!("Expected domain"),
    }
}

#[test]
fn test_parse_connect_with_ipv6() {
    let request = b"CONNECT [2001:db8::1]:8080 HTTP/1.1\r\n\r\n";

    let target = parse_connect_request(request).unwrap();
    match target {
        TargetAddr::Domain(host, port) => {
            assert_eq!(host, "[2001:db8::1]");
            assert_eq!(port, 8080);
        }
        _ => panic!("Expected domain"),
    }
}

#[test]
fn test_parse_connect_rejects_other_methods() {
    assert_eq!(
        parse_connect_request(b"GET / HTTP/1.1\r\n\r\n").unwrap_err(),
        Error::Protocol
    );
    assert_eq!(
        parse_connect_request(b"CONNECT example.com HTTP/1.1\r\n\r\n").unwrap_err(),
        Error::Protocol
    );
}

#[test]
fn test_http_response_lines() {
    assert_eq!(
        build_connect_response(),
        b"HTTP/1.1 200 Connection Established\r\n\r\n".to_vec()
    );
    assert_eq!(
        build_method_not_allowed(),
        b"HTTP/1.1 405 Method Not Allowed\r\n\r\n".to_vec()
    );
    assert_eq!(
        ech_workers::build_bad_gateway(),
        b"HTTP/1.1 502 Bad Gateway\r\n\r\n".to_vec()
    );
}

#[test]
fn test_parse_server_addr() {
    let (host, port, path) = parse_server_addr("example.com:443").unwrap();
    assert_eq!(host, "example.com");
    assert_eq!(port, 443);
    assert_eq!(path, "/");

    let (host, port, path) = parse_server_addr("example.com:443/ws").unwrap();
    assert_eq!(host, "example.com");
    assert_eq!(port, 443);
    assert_eq!(path, "/ws");
}

#[test]
fn test_parse_server_addr_plus_port() {
    // The port parser mirrors the standard library: an optional leading
    // plus sign is accepted.
    let (_, port, _) = parse_server_addr("example.com:+443").unwrap();
    assert_eq!(port, 443);
}

#[test]
fn test_parse_server_addr_rejects() {
    assert_eq!(parse_server_addr("example.com").unwrap_err(), Error::Config);
    assert_eq!(parse_server_addr("a:b:443").unwrap_err(), Error::Config);
    assert_eq!(parse_server_addr("example.com:x").unwrap_err(), Error::Config);
    assert_eq!(parse_server_addr("example.com:70000").unwrap_err(), Error::Config);
}
