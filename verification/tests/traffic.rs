use eginet::classify::{classify, PacketTag};
use eginet::config::Config;
use eginet::filter::{domain_policy_allows, is_allowed, uid_lookup_key};
use eginet::packet::parse_transport;
use eginet::scan::{collect_scan_results, HostLabel, ProbeOutcome, ScanHost};
use eginet::shield::{run_passive_shield, ReadEvent};
use eginet::socktable::find_uid_by_port;
use eginet::status::{CoreState, CoreStatus};
use eginet::tunnel::{probe_readiness, run_tunnel_loop, TunnelEnv};

/// An IPv4 packet: version 4, header length 20, the given protocol, a TCP
/// header with data offset 20 when asked for, then the payload.
fn ipv4_packet(proto: u8, payload: &[u8]) -> Vec<u8> {
    let mut p = vec![0u8; 20];
    p[0] = 0x45;
    p[9] = proto;
    if proto == 6 {
        let mut tcp = vec![0u8; 20];
        tcp[0] = 0x30;
        tcp[1] = 0x39;
        tcp[12] = 0x50;
        p.extend_from_slice(&tcp);
    } else if proto == 17 {
        let mut udp = vec![0u8; 8];
        udp[0] = 0x30;
        udp[1] = 0x39;
        p.extend_from_slice(&udp);
    }
    p.extend_from_slice(payload);
    p
}

/// A 44-byte TLS Client-Hello-shaped payload carrying the given bytes.
fn client_hello_payload(inner: &[u8]) -> Vec<u8> {
    let mut payload = vec![0u8; 44];
    payload[0] = 0x16;
    payload[5] = 0x01;
    let start = 10;
    payload[start..start + inner.len()].copy_from_slice(inner);
    payload
}

#[test]
fn classify_reads_protocol_byte() {
    assert_eq!(classify(&ipv4_packet(6, &[])), PacketTag::Tcp);
    assert_eq!(classify(&ipv4_packet(17, &[])), PacketTag::Udp);
    assert_eq!(classify(&ipv4_packet(1, &[])), PacketTag::Other);
}

#[test]
fn classify_short_buffers_are_other() {
    assert_eq!(classify(&vec![]), PacketTag::Other);
    assert_eq!(classify(&vec![0x45; 19]), PacketTag::Other);
}

#[test]
fn classify_ipv6_needs_forty_bytes() {
    let mut v6 = vec![0u8; 40];
    v6[0] = 0x60;
    v6[6] = 6;
    assert_eq!(classify(&v6), PacketTag::Tcp);
    v6[6] = 17;
    assert_eq!(classify(&v6), PacketTag::Udp);
    let short = vec![0x60; 39];
    assert_eq!(classify(&short), PacketTag::Other);
}

#[test]
fn transport_parse_reads_source_port() {
    let t = parse_transport(&ipv4_packet(6, &[])).unwrap();
    assert!(!t.is_udp);
    assert_eq!(t.src_port, 12345);
    assert_eq!(t.payload_start, 40);
    let u = parse_transport(&ipv4_packet(17, &[])).unwrap();
    assert!(u.is_udp);
    assert_eq!(u.src_port, 12345);
    assert_eq!(u.payload_start, 28);
    assert!(parse_transport(&vec![0u8; 5]).is_none());
}

#[test]
fn open_mode_allows_everything() {
    let cfg = Config::new();
    assert!(is_allowed(&cfg, &vec![], None));
    assert!(is_allowed(&cfg, &vec![0xff; 3], None));
    assert!(is_allowed(&cfg, &ipv4_packet(6, &[1, 2, 3]), None));
    assert!(is_allowed(&cfg, &ipv4_packet(17, &[]), Some(999)));
}

#[test]
fn client_hello_with_allowed_domain_passes() {
    let mut cfg = Config::new();
    cfg.set_allowed_domains("example.com");
    let pkt = ipv4_packet(6, &client_hello_payload(b"xexample.comy"));
    assert!(is_allowed(&cfg, &pkt, None));
}

#[test]
fn client_hello_without_allowed_domain_is_denied() {
    let mut cfg = Config::new();
    cfg.set_allowed_domains("example.com");
    let pkt = ipv4_packet(6, &client_hello_payload(b"other.site"));
    assert!(!is_allowed(&cfg, &pkt, None));
}

#[test]
fn non_client_hello_always_passes_domain_policy() {
    let mut cfg = Config::new();
    cfg.set_allowed_domains("example.com");
    let mut payload = client_hello_payload(b"other.site");
    payload[0] = 0x17;
    assert!(is_allowed(&cfg, &ipv4_packet(6, &payload), None));
    let short = ipv4_packet(6, &[0x16, 0, 0, 0, 0, 0x01]);
    assert!(is_allowed(&cfg, &short, None));
    assert!(is_allowed(&cfg, &ipv4_packet(17, &[]), None));
    assert!(domain_policy_allows(&cfg.allowed_domains, &vec![0u8; 3]));
}

#[test]
fn owner_policy_decides_by_resolved_uid() {
    let mut cfg = Config::new();
    cfg.set_allowed_uids(vec![1000]);
    let pkt = ipv4_packet(6, &[]);
    assert!(is_allowed(&cfg, &pkt, Some(1000)));
    assert!(!is_allowed(&cfg, &pkt, Some(2000)));
    assert!(is_allowed(&cfg, &pkt, None));
    assert!(is_allowed(&cfg, &vec![0u8; 3], Some(2000)));
}

#[test]
fn uid_lookup_key_names_port_and_table() {
    assert_eq!(uid_lookup_key(&ipv4_packet(6, &[])), Some((12345, false)));
    assert_eq!(uid_lookup_key(&ipv4_packet(17, &[])), Some((12345, true)));
    assert_eq!(uid_lookup_key(&vec![0u8; 3]), None);
}

fn table_lines() -> Vec<Vec<u8>> {
    vec![
        b"  sl  local_address rem_address   st tx_queue rx_queue tr tm->when retrnsmt   uid".to_vec(),
        b"   0: 0100007F:2710 00000000:0000 0A 00000000:00000000 00:00000000 00000000  1000        0 12345 1 0000000000000000 100 0 0 10 0".to_vec(),
        b"   1: 0100007F:1F90 00000000:0000 0A 00000000:00000000 00:00000000 00000000  1337        0 12346 1 0000000000000000 100 0 0 10 0".to_vec(),
    ]
}

#[test]
fn socket_table_resolves_uid_by_port() {
    let lines = table_lines();
    assert_eq!(find_uid_by_port(&lines, 0x2710), Some(1000));
    assert_eq!(find_uid_by_port(&lines, 0x1F90), Some(1337));
    assert_eq!(find_uid_by_port(&lines, 80), None);
    assert_eq!(find_uid_by_port(&vec![], 80), None);
}

#[test]
fn shield_counts_until_eof() {
    let mut s = CoreState::new();
    let events = vec![
        ReadEvent::Data(ipv4_packet(6, &[])),
        ReadEvent::WouldBlock,
        ReadEvent::Data(ipv4_packet(17, &[])),
        ReadEvent::Eof,
        ReadEvent::Data(ipv4_packet(6, &[])),
    ];
    run_passive_shield(&mut s, true, &events);
    assert_eq!(s.status, CoreStatus::Stopped);
    assert_eq!(s.counters.tcp_count, 1);
    assert_eq!(s.counters.udp_count, 1);
    assert_eq!(s.counters.other_count, 0);
    assert_eq!(s.counters.bytes_processed, 40 + 28);
}

#[test]
fn shield_without_registration_errors() {
    let mut s = CoreState::new();
    run_passive_shield(&mut s, false, &vec![ReadEvent::Eof]);
    assert_eq!(s.status, CoreStatus::Error);
    assert_eq!(s.counters.tcp_count, 0);
    assert_eq!(s.counters.bytes_processed, 0);
}

#[test]
fn empty_credential_tunnel_matches_passive_shield() {
    let events = vec![
        ReadEvent::Data(ipv4_packet(6, &[9, 9])),
        ReadEvent::Data(ipv4_packet(1, &[])),
        ReadEvent::ReadError,
    ];
    let cfg = Config::new();
    let env = TunnelEnv {
        shield_registered: true,
        bound_port: Some(5555),
        probes: vec![true],
        device_ok: true,
    };
    let mut tunneled = CoreState::new();
    run_tunnel_loop(&mut tunneled, &cfg, &env, &events);
    let mut shielded = CoreState::new();
    run_passive_shield(&mut shielded, true, &events);
    assert_eq!(tunneled.status, shielded.status);
    assert_eq!(tunneled.counters, shielded.counters);
}

#[test]
fn tunnel_happy_path_ends_stopped() {
    let mut s = CoreState::new();
    let mut cfg = Config::new();
    cfg.set_credential("ss://demo-access-key".to_string());
    let env = TunnelEnv {
        shield_registered: true,
        bound_port: Some(5555),
        probes: vec![false, false, true],
        device_ok: true,
    };
    run_tunnel_loop(&mut s, &cfg, &env, &vec![]);
    assert_eq!(s.status, CoreStatus::Stopped);
    assert_eq!(s.proxy_port, 5555);
    assert_eq!(s.counters.tcp_count, 0);
}

#[test]
fn tunnel_readiness_timeout_errors() {
    let mut s = CoreState::new();
    let mut cfg = Config::new();
    cfg.set_credential("ss://demo-access-key".to_string());
    let env = TunnelEnv {
        shield_registered: true,
        bound_port: None,
        probes: vec![false; 10],
        device_ok: true,
    };
    run_tunnel_loop(&mut s, &cfg, &env, &vec![]);
    assert_eq!(s.status, CoreStatus::Error);
    assert_eq!(s.proxy_port, 10808);
}

#[test]
fn tunnel_device_failure_errors() {
    let mut s = CoreState::new();
    let mut cfg = Config::new();
    cfg.set_credential("ss://demo-access-key".to_string());
    let env = TunnelEnv {
        shield_registered: true,
        bound_port: Some(7000),
        probes: vec![true],
        device_ok: false,
    };
    run_tunnel_loop(&mut s, &cfg, &env, &vec![]);
    assert_eq!(s.status, CoreStatus::Error);
}

#[test]
fn probe_budget_is_ten_attempts() {
    let mut probes = vec![false; 11];
    probes[10] = true;
    assert!(!probe_readiness(&probes));
    let mut probes2 = vec![false; 10];
    probes2[9] = true;
    assert!(probe_readiness(&probes2));
}

#[test]
fn scan_finds_single_host_with_listener() {
    let mut outcomes = vec![ProbeOutcome { tcp_success: false, mdns_reply: false }; 254];
    outcomes[4].tcp_success = true;
    let hosts = collect_scan_results(&outcomes);
    assert_eq!(hosts, vec![ScanHost { suffix: 5, label: HostLabel::Active }]);
}

#[test]
fn scan_labels_gateway_and_mdns() {
    let mut outcomes = vec![ProbeOutcome { tcp_success: false, mdns_reply: false }; 254];
    outcomes[0].tcp_success = true;
    outcomes[7].mdns_reply = true;
    outcomes[7].tcp_success = false;
    let hosts = collect_scan_results(&outcomes);
    assert_eq!(
        hosts,
        vec![
            ScanHost { suffix: 1, label: HostLabel::Gateway },
            ScanHost { suffix: 8, label: HostLabel::MdnsDevice },
        ]
    );
}
