use ntomb::config::{GraveyardMode, GraveyardSettings, LatencyConfig, RefreshConfig};
use std::time::Duration;

#[test]
fn defaults_match_the_documented_values() {
    let latency = LatencyConfig::default();
    assert_eq!(latency.low_threshold_ms, 50);
    assert_eq!(latency.high_threshold_ms, 200);
    let settings = GraveyardSettings::default();
    assert!(settings.animations_enabled);
    assert!(settings.labels_enabled);
    assert!(!settings.overdrive_enabled);
    assert_eq!(settings.emoji_width_offset, 0);
    assert_eq!(GraveyardMode::default(), GraveyardMode::Host);
}

#[test]
fn refresh_intervals() {
    let config = RefreshConfig::new();
    assert_eq!(config.refresh_ms, 500);
    assert!(config.last_change.is_none());
    assert_eq!(config.ui_interval(), Duration::from_millis(500));
    assert_eq!(config.data_interval(), Duration::from_millis(5000));
}

#[test]
fn refresh_steps_are_clamped() {
    assert_eq!(RefreshConfig::faster_interval(500), 450);
    assert_eq!(RefreshConfig::faster_interval(60), 50);
    assert_eq!(RefreshConfig::faster_interval(0), 50);
    assert_eq!(RefreshConfig::slower_interval(500), 550);
    assert_eq!(RefreshConfig::slower_interval(9990), 10000);
    assert_eq!(RefreshConfig::slower_interval(u64::MAX), 10000);
}
