//! Client-side tunnel core: ECH configuration discovery and validation,
//! stream multiplexing policy, SOCKS5/HTTP ingress parsing, FakeDNS,
//! and the user-space TCP/IP path for transparent (TUN) proxying.

use vstd::prelude::*;

mod addr;
mod config;
mod dns;
mod doh;
mod ech_config;
mod errors;
mod fake_dns;
mod gui_config;
mod http;
mod kvlist;
mod nat_table;
mod net;
mod outside;
mod packet;
mod relay;
mod session;
mod socks5;
mod state;
mod socks5_udp;
mod textutil;
mod tcp_session;
mod tls_adapter;
mod udp_session;
mod websocket;

pub use addr::parse_server_addr;
pub use config::Config;
pub use dns::{parse_query, DnsQuery, DnsQueryType, DnsResponse};
pub use doh::{build_dns_query, build_doh_request, build_doh_url, parse_dns_response, parse_https_record};
pub use ech_config::{parse_ech_config, parse_ech_config_list, validate_ech_config, EchConfig};
pub use errors::Error;
pub use http::{
    build_bad_gateway, build_connect_response, build_method_not_allowed, parse_connect_request,
};
pub use socks5_udp::Socks5UdpFrame;
pub use state::{LogLevel, ProxyStatus, Statistics};
pub use gui_config::{
    default_doh_server, default_ech_domain, default_listen_addr, default_server_addr,
    default_tls_profile, default_true, AdvancedConfig, AppConfig, BasicConfig, EchSettings,
    GuiConfig,
};
pub use relay::{RelaySide, RelayStep};
pub use udp_session::{
    build_udp_stream_header, frame_datagram, parse_framed_datagram, UdpDecision, UdpSessionKey,
    UdpSessionManager,
};
pub use fake_dns::{normalize_domain, FakeDnsPool, FakeDnsStats};
pub use nat_table::{ConnectionState, NatEntry, NatKey, NatStats, NatTable};
pub use kvlist::KvList;
pub use net::{Ipv4Address, Ipv6Address};
pub use packet::{
    build_tcp_packet, build_udp_packet, calculate_checksum, calculate_tcp_checksum,
    calculate_udp_checksum, parse_tcp_packet, parse_udp_packet, ReceivedTcpFlags, TcpFlags,
    TcpPacket, UdpPacket,
};
pub use session::{
    create_optimized_config, create_optimized_yamux_config, DialStep, MuxParams, SessionState,
};
pub use socks5::{
    build_method_selection, build_socks5_reply, build_udp_associate_response, parse_socks5_greeting,
    parse_socks5_request, parse_target, select_auth_method, target_for_flow, AddressType,
    AuthMethod, Command, Socks5Request, TargetAddr,
};
pub use tls_adapter::{check_ech_policy, ConnectionInfo, TunnelConfig};
pub use websocket::{build_upgrade_request, check_upgrade_response, generate_ws_key, ReadBuffer};
pub use tcp_session::{SessionKey, TcpAction, TcpSession, TcpSessionManager, TcpState};
pub use textutil::{fmt_u64, parse_u16_chars};

verus! {

/// The single ECHConfig version this tunnel accepts (draft-ietf-tls-esni-18).
pub const ECH_VERSION_DRAFT18: u16 = 0xfe0d;

} // verus!
