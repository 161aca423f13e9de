use ntomb::config::{LatencyBucket, LatencyConfig};
use ntomb::endpoint::{classify_endpoint, classify_latency, is_heavy_talker, EndpointType};
use ntomb::net::ConnectionState;
use ntomb::theme::{get_overdrive_icon, get_overdrive_status_text, get_stats_label, get_status_text};

#[test]
fn graveyard_test_classify_endpoint_localhost() {
    assert_eq!(classify_endpoint("127.0.0.1", false), EndpointType::Localhost);
    assert_eq!(classify_endpoint("::1", false), EndpointType::Localhost);
    assert_eq!(classify_endpoint("0.0.0.0", false), EndpointType::Localhost);
}

#[test]
fn graveyard_test_classify_endpoint_rfc1918_class_a() {
    assert_eq!(classify_endpoint("10.0.0.1", false), EndpointType::Private);
    assert_eq!(classify_endpoint("10.255.255.255", false), EndpointType::Private);
    assert_eq!(classify_endpoint("10.100.50.25", false), EndpointType::Private);
}

#[test]
fn graveyard_test_classify_endpoint_rfc1918_class_b() {
    assert_eq!(classify_endpoint("172.16.0.1", false), EndpointType::Private);
    assert_eq!(classify_endpoint("172.31.255.255", false), EndpointType::Private);
    assert_eq!(classify_endpoint("172.20.100.50", false), EndpointType::Private);

    assert_eq!(classify_endpoint("172.15.0.1", false), EndpointType::Public);
    assert_eq!(classify_endpoint("172.32.0.1", false), EndpointType::Public);
}

#[test]
fn graveyard_test_classify_endpoint_rfc1918_class_c() {
    assert_eq!(classify_endpoint("192.168.0.1", false), EndpointType::Private);
    assert_eq!(classify_endpoint("192.168.255.255", false), EndpointType::Private);
    assert_eq!(classify_endpoint("192.168.1.100", false), EndpointType::Private);

    assert_eq!(classify_endpoint("192.169.0.1", false), EndpointType::Public);
    assert_eq!(classify_endpoint("192.167.0.1", false), EndpointType::Public);
}

#[test]
fn graveyard_test_classify_endpoint_public() {
    assert_eq!(classify_endpoint("8.8.8.8", false), EndpointType::Public);
    assert_eq!(classify_endpoint("1.1.1.1", false), EndpointType::Public);
    assert_eq!(classify_endpoint("203.0.113.50", false), EndpointType::Public);
    assert_eq!(classify_endpoint("198.51.100.1", false), EndpointType::Public);
}

#[test]
fn graveyard_test_classify_endpoint_listen_only() {
    assert_eq!(classify_endpoint("0.0.0.0", true), EndpointType::ListenOnly);
    assert_eq!(classify_endpoint("127.0.0.1", true), EndpointType::ListenOnly);
    assert_eq!(classify_endpoint("192.168.1.1", true), EndpointType::ListenOnly);
}

#[test]
fn graveyard_test_endpoint_type_icons() {
    assert_eq!(EndpointType::Localhost.icon(), "⚰️");
    assert_eq!(EndpointType::Private.icon(), "🪦");
    assert_eq!(EndpointType::Public.icon(), "🎃");
    assert_eq!(EndpointType::ListenOnly.icon(), "🕯");
}

#[test]
fn graveyard_test_endpoint_type_icon_with_badge() {
    assert_eq!(EndpointType::Public.icon_with_badge(false), "🎃");
    assert_eq!(EndpointType::Public.icon_with_badge(true), "🎃👑");
    assert_eq!(EndpointType::Private.icon_with_badge(true), "🪦👑");
}

#[test]
fn graveyard_test_classify_latency_low() {
    let config = LatencyConfig::default();
    assert_eq!(classify_latency(Some(0), &config), LatencyBucket::Low);
    assert_eq!(classify_latency(Some(25), &config), LatencyBucket::Low);
    assert_eq!(classify_latency(Some(49), &config), LatencyBucket::Low);
}

#[test]
fn graveyard_test_classify_latency_medium() {
    let config = LatencyConfig::default();
    assert_eq!(classify_latency(Some(50), &config), LatencyBucket::Medium);
    assert_eq!(classify_latency(Some(100), &config), LatencyBucket::Medium);
    assert_eq!(classify_latency(Some(200), &config), LatencyBucket::Medium);
}

#[test]
fn graveyard_test_classify_latency_high() {
    let config = LatencyConfig::default();
    assert_eq!(classify_latency(Some(201), &config), LatencyBucket::High);
    assert_eq!(classify_latency(Some(500), &config), LatencyBucket::High);
    assert_eq!(classify_latency(Some(1000), &config), LatencyBucket::High);
}

#[test]
fn graveyard_test_classify_latency_unknown() {
    let config = LatencyConfig::default();
    assert_eq!(classify_latency(None, &config), LatencyBucket::Unknown);
}

#[test]
fn graveyard_test_classify_latency_custom_thresholds() {
    let config = LatencyConfig {
        low_threshold_ms: 100,
        high_threshold_ms: 500,
    };

    assert_eq!(classify_latency(Some(50), &config), LatencyBucket::Low);
    assert_eq!(classify_latency(Some(99), &config), LatencyBucket::Low);

    assert_eq!(classify_latency(Some(100), &config), LatencyBucket::Medium);
    assert_eq!(classify_latency(Some(300), &config), LatencyBucket::Medium);
    assert_eq!(classify_latency(Some(500), &config), LatencyBucket::Medium);

    assert_eq!(classify_latency(Some(501), &config), LatencyBucket::High);
}

#[test]
fn graveyard_test_is_heavy_talker_top_5() {
    let all_counts = vec![100, 80, 60, 40, 20, 10, 5];

    assert!(is_heavy_talker(100, &all_counts));
    assert!(is_heavy_talker(80, &all_counts));
    assert!(is_heavy_talker(60, &all_counts));
    assert!(is_heavy_talker(40, &all_counts));
    assert!(is_heavy_talker(20, &all_counts));

    assert!(!is_heavy_talker(10, &all_counts));
    assert!(!is_heavy_talker(5, &all_counts));
}

#[test]
fn graveyard_test_is_heavy_talker_fewer_than_5() {
    let all_counts = vec![50, 30, 10];

    assert!(is_heavy_talker(50, &all_counts));
    assert!(is_heavy_talker(30, &all_counts));
    assert!(is_heavy_talker(10, &all_counts));
}

#[test]
fn graveyard_test_is_heavy_talker_empty() {
    let all_counts: Vec<usize> = vec![];
    assert!(!is_heavy_talker(10, &all_counts));
}

#[test]
fn graveyard_test_is_heavy_talker_zero_count() {
    let all_counts = vec![10, 5, 0, 0, 0];

    assert!(!is_heavy_talker(0, &all_counts));
    assert!(is_heavy_talker(10, &all_counts));
    assert!(is_heavy_talker(5, &all_counts));
}

#[test]
fn graveyard_test_is_heavy_talker_ties() {
    let all_counts = vec![100, 50, 50, 50, 50, 10];

    assert!(is_heavy_talker(100, &all_counts));
    assert!(is_heavy_talker(50, &all_counts));
    assert!(!is_heavy_talker(10, &all_counts));
}

#[test]
fn overdrive_test_get_overdrive_icon() {
    assert_eq!(get_overdrive_icon(ConnectionState::Established, LatencyBucket::Low), "🟢👻");
    assert_eq!(get_overdrive_icon(ConnectionState::Established, LatencyBucket::Medium), "🟢👻");

    assert_eq!(get_overdrive_icon(ConnectionState::Established, LatencyBucket::High), "🔥🎃");

    assert_eq!(get_overdrive_icon(ConnectionState::CloseWait, LatencyBucket::Low), "💀");
    assert_eq!(get_overdrive_icon(ConnectionState::TimeWait, LatencyBucket::Medium), "💀");
}

#[test]
fn overdrive_test_get_overdrive_status_text() {
    assert_eq!(get_overdrive_status_text(ConnectionState::Established), "Haunting");
    assert_eq!(get_overdrive_status_text(ConnectionState::Listen), "Summoning");
    assert_eq!(get_overdrive_status_text(ConnectionState::TimeWait), "Fading");
    assert_eq!(get_overdrive_status_text(ConnectionState::CloseWait), "Fading");
}

#[test]
fn overdrive_test_get_stats_label() {
    assert_eq!(get_stats_label(false), "Connections");
    assert_eq!(get_stats_label(true), "Spirits");
}

#[test]
fn overdrive_test_get_status_text() {
    assert_eq!(get_status_text(ConnectionState::Established, false), "Alive");
    assert_eq!(get_status_text(ConnectionState::Listen, false), "Listening");

    assert_eq!(get_status_text(ConnectionState::Established, true), "Haunting");
    assert_eq!(get_status_text(ConnectionState::Listen, true), "Summoning");
}
