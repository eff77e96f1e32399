use eginet::config::{Config, SecureKey};
use eginet::energy::energy_savings_estimate;
use eginet::stats::{address_with_default_port, stats_from_samples};
use eginet::status::{CoreState, CoreStatus, Counters};
use eginet::classify::PacketTag;

#[test]
fn test_core_stats_atomic() {
    let mut c = Counters::new();
    c.record_packet(PacketTag::Other, 1024);
    assert_eq!(c.bytes_processed, 1024);
    assert_eq!(c.other_count, 1);
}

#[test]
fn test_secure_key_zeroize() {
    let mut key = SecureKey { key: "secret".to_string() };
    key.zeroize();
    assert!(key.key.is_empty());
}

#[test]
fn health_snapshot_reports_all_fields() {
    let mut s = CoreState::new();
    assert_eq!(s.status, CoreStatus::Stopped);
    s.record_packet(PacketTag::Tcp, 100);
    s.record_packet(PacketTag::Udp, 50);
    s.record_packet(PacketTag::Other, 25);
    s.set_proxy_port(4444);
    let h = s.health_snapshot();
    assert_eq!(h.status, CoreStatus::Stopped);
    assert_eq!(h.tcp_count, 1);
    assert_eq!(h.udp_count, 1);
    assert_eq!(h.other_count, 1);
    assert_eq!(h.bytes_processed, 175);
    assert_eq!(h.proxy_port, 4444);
    assert_eq!(s.blocked_count(), 3);
}

#[test]
fn counters_saturate_at_bound() {
    let mut c = Counters::new();
    c.bytes_processed = u64::MAX - 1;
    c.record_packet(PacketTag::Tcp, 100);
    assert_eq!(c.bytes_processed, u64::MAX);
    assert_eq!(c.tcp_count, 1);
}

#[test]
fn domain_list_trims_and_drops_empty_fields() {
    let mut cfg = Config::new();
    cfg.set_allowed_domains(" example.com , ,video.site,");
    let want: Vec<Vec<u8>> = vec![b"example.com".to_vec(), b"video.site".to_vec()];
    assert_eq!(cfg.allowed_domains, want);
}

#[test]
fn domain_list_of_empty_input_is_empty() {
    let mut cfg = Config::new();
    cfg.set_allowed_domains("   ");
    assert!(cfg.allowed_domains.is_empty());
}

#[test]
fn credential_replacement() {
    let mut cfg = Config::new();
    assert!(cfg.credential.is_empty());
    cfg.set_credential("ss://demo-access-key".to_string());
    assert!(!cfg.credential.is_empty());
    cfg.set_credential(String::new());
    assert!(cfg.credential.is_empty());
}

#[test]
fn bandwidth_limit_converts_mbps_to_bytes_per_sec() {
    let mut cfg = Config::new();
    cfg.set_bandwidth_limit_mbps(8);
    assert_eq!(cfg.bandwidth_limit, 1048576);
    cfg.set_stealth(true);
    assert!(cfg.stealth);
    assert_eq!(cfg.bandwidth_limit, 1048576);
}

#[test]
fn stats_unreachable_on_any_failure() {
    let r = stats_from_samples("203.0.113.9", 10, -1, 12);
    assert_eq!(r.ping, -1);
    assert_eq!(r.jitter, 0);
    assert_eq!(r.status, "unreachable");
}

#[test]
fn stats_mean_and_jitter() {
    let r = stats_from_samples("203.0.113.9", 10, 12, 11);
    assert_eq!(r.ping, 11);
    assert_eq!(r.jitter, 2);
    assert_eq!(r.status, "203.0.113.9");
}

#[test]
fn address_gets_default_port_only_without_colon() {
    assert_eq!(address_with_default_port("10.0.0.5"), b"10.0.0.5:80".to_vec());
    assert_eq!(address_with_default_port("10.0.0.5:443"), b"10.0.0.5:443".to_vec());
}

#[test]
fn energy_estimate_exact_values() {
    assert_eq!(energy_savings_estimate(0, 0), "0.00");
    assert_eq!(energy_savings_estimate(1_000_000, 3), "0.17");
    assert_eq!(energy_savings_estimate(2_000_000_000, 100), "45.00");
}

#[test]
fn energy_estimate_is_a_function_of_its_inputs() {
    let a = energy_savings_estimate(750_000, 7);
    let b = energy_savings_estimate(750_000, 7);
    assert_eq!(a, b);
    assert_eq!(a, "0.36");
}
