//! Configuration and its builders.

use rperf3::config::{Config, Mode, OneWayMode, Protocol};
use rperf3::net::IpAddr;
use rperf3::time::Duration;

#[test]
fn test_protocol_as_str() {
    assert_eq!(Protocol::Tcp.as_str(), "Tcp");
    assert_eq!(Protocol::Udp.as_str(), "Udp");
}

#[test]
fn test_protocol_equality() {
    assert_eq!(Protocol::Tcp, Protocol::Tcp);
    assert_eq!(Protocol::Udp, Protocol::Udp);
    assert_ne!(Protocol::Tcp, Protocol::Udp);
}

#[test]
fn test_mode_equality() {
    assert_eq!(Mode::Server, Mode::Server);
    assert_eq!(Mode::Client, Mode::Client);
    assert_ne!(Mode::Server, Mode::Client);
}

#[test]
fn test_config_default() {
    let config = Config::default();
    assert_eq!(config.mode, Mode::Client);
    assert_eq!(config.protocol, Protocol::Tcp);
    assert_eq!(config.port, 5201);
    assert_eq!(config.duration, Duration::from_secs(10));
    assert_eq!(config.buffer_size, 128 * 1024);
    assert_eq!(config.parallel, 1);
    assert!(!config.reverse);
    assert!(!config.json);
    assert_eq!(config.interval, Duration::from_secs(1));
}

#[test]
fn test_config_new() {
    let config = Config::new();
    assert_eq!(config.port, 5201);
}

#[test]
fn test_config_server() {
    let config = Config::server(8080);
    assert_eq!(config.mode, Mode::Server);
    assert_eq!(config.port, 8080);
}

#[test]
fn test_config_client() {
    let config = Config::client("192.168.1.1".to_string(), 5201);
    assert_eq!(config.mode, Mode::Client);
    assert_eq!(config.server_addr, Some("192.168.1.1".to_string()));
    assert_eq!(config.port, 5201);
}

#[test]
fn test_config_with_protocol() {
    let config = Config::new().with_protocol(Protocol::Udp);
    assert_eq!(config.protocol, Protocol::Udp);
}

#[test]
fn test_config_with_duration() {
    let duration = Duration::from_secs(30);
    let config = Config::new().with_duration(duration);
    assert_eq!(config.duration, duration);
}

#[test]
fn test_config_with_bandwidth() {
    let config = Config::new().with_bandwidth(100_000_000);
    assert_eq!(config.bandwidth, Some(100_000_000));
}

#[test]
fn test_config_with_buffer_size() {
    let config = Config::new().with_buffer_size(256 * 1024);
    assert_eq!(config.buffer_size, 256 * 1024);
}

#[test]
fn test_config_with_parallel() {
    let config = Config::new().with_parallel(4);
    assert_eq!(config.parallel, 4);
}

#[test]
fn test_config_with_reverse() {
    let config = Config::new().with_reverse(true);
    assert!(config.reverse);
}

#[test]
fn test_config_with_json() {
    let config = Config::new().with_json(true);
    assert!(config.json);
}

#[test]
fn test_config_with_interval() {
    let interval = Duration::from_secs(2);
    let config = Config::new().with_interval(interval);
    assert_eq!(config.interval, interval);
}

#[test]
fn test_config_builder_chain() {
    let config = Config::client("10.0.0.1".to_string(), 5201)
        .with_protocol(Protocol::Udp)
        .with_duration(Duration::from_secs(60))
        .with_bandwidth(50_000_000)
        .with_buffer_size(64 * 1024)
        .with_parallel(2)
        .with_reverse(true)
        .with_json(true)
        .with_interval(Duration::from_millis(500));

    assert_eq!(config.mode, Mode::Client);
    assert_eq!(config.protocol, Protocol::Udp);
    assert_eq!(config.server_addr, Some("10.0.0.1".to_string()));
    assert_eq!(config.port, 5201);
    assert_eq!(config.duration, Duration::from_secs(60));
    assert_eq!(config.bandwidth, Some(50_000_000));
    assert_eq!(config.buffer_size, 64 * 1024);
    assert_eq!(config.parallel, 2);
    assert!(config.reverse);
    assert!(config.json);
    assert_eq!(config.interval, Duration::from_millis(500));
}

#[test]
fn config_one_way_and_sockets() {
    assert_eq!(OneWayMode::default(), OneWayMode::Off);
    let config = Config::new();
    assert_eq!(config.one_way, OneWayMode::Off);
    assert_eq!(config.expected_pps, None);
    assert_eq!(config.socket_buf, 0);
    assert_eq!(config.recv_workers, 1);
    assert_eq!(config.bind_addr, None);
    let config = config
        .with_one_way_receive()
        .with_expected_pps(1000)
        .with_socket_buf(4096)
        .with_recv_workers(3);
    assert_eq!(config.one_way, OneWayMode::Receive);
    assert_eq!(config.expected_pps, Some(1000));
    assert_eq!(config.socket_buf, 4096);
    assert_eq!(config.recv_workers, 3);
    let mut config = config.with_one_way_send();
    config.bind_addr = Some(IpAddr::V4([127, 0, 0, 1]));
    let copy = config.clone();
    assert_eq!(copy.one_way, OneWayMode::Send);
    assert_eq!(copy.bind_addr, Some(IpAddr::V4([127, 0, 0, 1])));
    assert_eq!(copy.expected_pps, Some(1000));
}

#[test]
fn duration_arithmetic() {
    assert_eq!(Duration::from_millis(1500).as_nanos(), 1_500_000_000);
    assert_eq!(Duration::from_millis(1999).as_secs(), 1);
    assert_eq!(Duration::from_nanos(u128::MAX).as_secs(), u64::MAX);
    assert!(Duration::zero().is_zero());
    assert_eq!(Duration::default(), Duration::zero());
    let one = Duration::from_secs(1);
    let two = Duration::from_secs(2);
    assert_eq!(two.saturating_sub(&one), one);
    assert_eq!(one.saturating_sub(&two), Duration::zero());
    assert_eq!(one.min_with(&two), one);
    assert!(one.shorter_than(&two));
    assert!(!two.shorter_than(&two));
}
