//! ECH configuration parsing, DoH composition, and the strict-mode policy.

use ech_workers::{
    build_dns_query, build_doh_request, build_doh_url, check_ech_policy, parse_dns_response,
    parse_ech_config, parse_ech_config_list, parse_https_record, validate_ech_config,
    ConnectionInfo, Error,
};

#[test]
fn test_parse_empty() {
    assert!(parse_ech_config(&[]).is_err());
}

#[test]
fn test_parse_too_short() {
    assert!(parse_ech_config_list(&[0x00]).is_err());
}

#[test]
fn test_parse_valid_config() {
    let config_list = vec![
        0x00, 0x08, // ECHConfigList length = 8
        0xfe, 0x0d, // version = draft-18
        0x00, 0x04, // config length = 4
        0x01, 0x02, 0x03, 0x04, // contents
    ];

    let result = parse_ech_config_list(&config_list).unwrap();
    assert_eq!(result.len(), 1);
    assert_eq!(result[0].version, 0xfe0d);
    assert_eq!(result[0].raw.len(), 8);
}

#[test]
fn test_validate_config() {
    let valid = vec![
        0xfe, 0x0d, // version
        0x00, 0x02, // length
        0x01, 0x02, // contents
    ];
    assert!(validate_ech_config(&valid).unwrap());

    let invalid_version = vec![0x00, 0x01, 0x00, 0x02, 0x01, 0x02];
    assert!(!validate_ech_config(&invalid_version).unwrap());
}

#[test]
fn test_parse_empty_config_list() {
    // A declared length of zero holds no records at all.
    assert_eq!(parse_ech_config_list(&[0x00, 0x00]).unwrap_err(), Error::Ech);
}

#[test]
fn test_parse_config_list_truncated_record() {
    // The record's declared length runs past the region.
    let bytes = vec![0x00, 0x06, 0xfe, 0x0d, 0x00, 0x09, 0x01, 0x02];
    assert_eq!(parse_ech_config_list(&bytes).unwrap_err(), Error::Ech);
}

#[test]
fn test_parse_config_list_trailing_bytes() {
    // The declared length must equal the byte count minus two; bytes
    // beyond the declared region are refused, not ignored.
    let bytes = vec![0x00, 0x08, 0xfe, 0x0d, 0x00, 0x04, 0x01, 0x02, 0x03, 0x04, 0xff];
    assert_eq!(parse_ech_config_list(&bytes).unwrap_err(), Error::Ech);
}

#[test]
fn test_parse_config_prefers_draft18() {
    // An older-version record first; the draft-18 record must win.
    let config_list = vec![
        0x00, 0x0c, // total = 12
        0xfe, 0x0a, 0x00, 0x02, 0xaa, 0xbb, // version fe0a
        0xfe, 0x0d, 0x00, 0x02, 0xcc, 0xdd, // version fe0d
    ];
    let chosen = parse_ech_config(&config_list).unwrap();
    assert_eq!(chosen, vec![0xfe, 0x0d, 0x00, 0x02, 0xcc, 0xdd]);
}

#[test]
fn test_build_dns_query_https_record() {
    let q = build_dns_query("example.com", 65);
    let expected = vec![
        0x00, 0x01, 0x01, 0x00, 0x00, 0x01, 0x00, 0x00, 0x00, 0x00, 0x00, 0x00, // header
        0x07, b'e', b'x', b'a', b'm', b'p', b'l', b'e', 0x03, b'c', b'o', b'm',
        0x00, // name
        0x00, 0x41, // type 65
        0x00, 0x01, // class IN
    ];
    assert_eq!(q, expected);
}

/// A synthetic DoH answer: one HTTPS record whose SvcParams carry an `ech`
/// value that itself parses as a draft-18 ECHConfigList.
fn sample_doh_response(ech: &[u8]) -> Vec<u8> {
    let mut r = vec![
        0x00, 0x01, // ID
        0x81, 0x80, // flags
        0x00, 0x01, // QDCOUNT
        0x00, 0x01, // ANCOUNT
        0x00, 0x00, 0x00, 0x00, // NSCOUNT/ARCOUNT
    ];
    // question: crypto.cloudflare.com HTTPS IN
    for label in ["crypto", "cloudflare", "com"] {
        r.push(label.len() as u8);
        r.extend_from_slice(label.as_bytes());
    }
    r.extend_from_slice(&[0x00, 0x00, 0x41, 0x00, 0x01]);
    // answer: compressed name pointer, type 65, class IN, TTL, RDLENGTH
    let mut rdata = vec![0x00, 0x01, 0x00]; // SvcPriority 1, empty target name
    rdata.extend_from_slice(&[0x00, 0x01, 0x00, 0x03, b'h', b'2', 0x00]); // alpn param (key 1)
    rdata.extend_from_slice(&[0x00, 0x05]); // key 5 = ech
    rdata.extend_from_slice(&(ech.len() as u16).to_be_bytes());
    rdata.extend_from_slice(ech);
    r.extend_from_slice(&[0xc0, 0x0c, 0x00, 0x41, 0x00, 0x01, 0x00, 0x00, 0x01, 0x2c]);
    r.extend_from_slice(&(rdata.len() as u16).to_be_bytes());
    r.extend_from_slice(&rdata);
    r
}

#[test]
fn test_doh_answer_yields_valid_ech_config() {
    // The offline shape of the DoH happy path: the answer walk finds the
    // ech SvcParam and its first four bytes parse as a draft-18 record.
    let ech_list = vec![0x00, 0x08, 0xfe, 0x0d, 0x00, 0x04, 0x01, 0x02, 0x03, 0x04];
    let body = sample_doh_response(&ech_list);
    let got = parse_dns_response(&body).unwrap();
    assert_eq!(got, ech_list);
    assert!(got.len() >= 4);
    let total = u16::from_be_bytes([got[0], got[1]]);
    assert!(total >= 4);
    let parsed = parse_ech_config_list(&got).unwrap();
    assert_eq!(parsed[0].version, 0xfe0d);
}

#[test]
fn test_parse_dns_response_truncated() {
    let ech_list = vec![0x00, 0x08, 0xfe, 0x0d, 0x00, 0x04, 0x01, 0x02, 0x03, 0x04];
    let body = sample_doh_response(&ech_list);
    // Cut the answer short: the walk must fail, not misread.
    assert_eq!(parse_dns_response(&body[..body.len() - 6]), Err(Error::Dns));
    assert_eq!(parse_dns_response(&body[..8]), Err(Error::Dns));
}

#[test]
fn test_parse_dns_response_no_answers() {
    let mut body = sample_doh_response(&[0x00, 0x04, 0xfe, 0x0d, 0x00, 0x00]);
    body[7] = 0; // ANCOUNT = 0
    assert_eq!(parse_dns_response(&body), Err(Error::Dns));
}

#[test]
fn test_parse_https_record_without_ech() {
    // SvcParams without key 5 yield nothing.
    let rdata = vec![0x00, 0x01, 0x00, 0x00, 0x01, 0x00, 0x02, b'h', b'2'];
    assert!(parse_https_record(&rdata).is_none());
}

#[test]
fn test_build_doh_url_forms() {
    let url = build_doh_url("1.1.1.1/dns-query", "QUERY");
    assert_eq!(url, "https://1.1.1.1/dns-query?dns=QUERY");

    let url2 = build_doh_url("https://dns.example/dns-query?x=1", "QUERY");
    assert_eq!(url2, "https://dns.example/dns-query?x=1&dns=QUERY");

    // A trailing '?' is trimmed, but it already marked the URL as
    // carrying a query, so the parameter joins with '&'.
    let url3 = build_doh_url("https://dns.example/dns-query?", "QUERY");
    assert_eq!(url3, "https://dns.example/dns-query&dns=QUERY");
}

#[test]
fn test_doh_request_is_base64url() {
    // The dns parameter must be unpadded base64url text, not the raw
    // query bytes (which contain zero bytes).
    let url = build_doh_request("example.com", "https://dns.example/dns-query");
    let param = url.split("dns=").nth(1).unwrap();
    assert!(!param.is_empty());
    assert!(param
        .chars()
        .all(|c| c.is_ascii_alphanumeric() || c == '-' || c == '_'));
    // 29 query bytes encode to ceil(29 * 4 / 3) characters.
    assert_eq!(param.len(), 39);
}

#[test]
fn test_ech_policy_accepts_when_granted() {
    let info = ConnectionInfo { protocol_version: 0x0304, cipher_suite: 0x1301, used_ech: true };
    assert!(check_ech_policy(true, &info).is_ok());
    assert_eq!(info.protocol_name(), "TLS 1.3");
    assert_eq!(info.cipher_name(), "TLS_AES_128_GCM_SHA256");
}

#[test]
fn test_ech_downgrade_refused() {
    // A syntactically valid ECH ask that the server did not honor: the
    // policy fails hard with EchNotAccepted and nothing is relayed.
    let info = ConnectionInfo { protocol_version: 0x0304, cipher_suite: 0x1302, used_ech: false };
    assert_eq!(check_ech_policy(true, &info), Err(Error::EchNotAccepted));
    assert_eq!(Error::EchNotAccepted.message(), "ECH not accepted (possible downgrade attack)");
    // Without enforcement the same report passes.
    assert!(check_ech_policy(false, &info).is_ok());
}
