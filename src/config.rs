//! Display settings, latency thresholds and refresh intervals.

use std::time::{Duration, Instant};
use vstd::prelude::*;

verus! {

/// Shortest refresh interval in milliseconds.
pub const MIN_REFRESH_MS: u64 = 50;

/// Longest refresh interval in milliseconds.
pub const MAX_REFRESH_MS: u64 = 10000;

/// Step by which the refresh interval is changed, in milliseconds.
pub const REFRESH_STEP: u64 = 50;

/// Connection data is refreshed this many UI intervals apart.
pub const DATA_REFRESH_MULTIPLIER: u64 = 10;

/// Refresh interval used when nothing else is configured, in milliseconds.
pub const DEFAULT_REFRESH_MS: u64 = 500;

/// Default latency below which a sample is `Low`, in milliseconds.
pub const DEFAULT_LOW_THRESHOLD_MS: u64 = 50;

/// Default latency above which a sample is `High`, in milliseconds.
pub const DEFAULT_HIGH_THRESHOLD_MS: u64 = 200;

/// `std::time::Instant`, carried opaquely: the time of the last change of
/// the refresh interval.
#[verifier::external_type_specification]
#[verifier::external_body]
pub struct ExInstant(Instant);

/// What `Duration::from_millis` returns for `ms`.
pub uninterp spec fn duration_of_millis(ms: u64) -> Duration;

/// Relies on `std::time::Duration::from_millis`, which depends on `ms` alone.
#[verifier::external_body]
fn millis(ms: u64) -> (d: Duration)
    ensures
        d == duration_of_millis(ms),
{
    Duration::from_millis(ms)
}

/// Which part of the system the network map centres on.
#[derive(Debug, Clone, Copy, PartialEq, Eq, Structural)]
pub enum GraveyardMode {
    /// The whole host.
    Host,
    /// One selected process.
    Process,
}

impl Default for GraveyardMode {
    fn default() -> (r: Self)
        ensures
            r == GraveyardMode::Host,
    {
        GraveyardMode::Host
    }
}

/// Latency tier of an endpoint; it selects the ring the endpoint sits on.
#[derive(Debug, Clone, Copy, PartialEq, Eq, Hash, Structural)]
pub enum LatencyBucket {
    /// Below the low threshold: innermost ring.
    Low,
    /// Between the thresholds, both included: middle ring.
    Medium,
    /// Above the high threshold: outermost ring.
    High,
    /// No sample; laid out on the middle ring.
    Unknown,
}

/// Visual settings of the network map.
#[derive(Debug, Clone)]
pub struct GraveyardSettings {
    /// Particle animations along edges.
    pub animations_enabled: bool,
    /// Text labels next to endpoints.
    pub labels_enabled: bool,
    /// The themed "overdrive" icons and wording.
    pub overdrive_enabled: bool,
    /// Correction, in cells per emoji, for terminals that draw emoji at
    /// another width than the width tables say.
    pub emoji_width_offset: i32,
}

impl Default for GraveyardSettings {
    fn default() -> (r: Self)
        ensures
            r.animations_enabled,
            r.labels_enabled,
            !r.overdrive_enabled,
            r.emoji_width_offset == 0,
    {
        GraveyardSettings {
            animations_enabled: true,
            labels_enabled: true,
            overdrive_enabled: false,
            emoji_width_offset: 0,
        }
    }
}

/// Thresholds that split latency samples into buckets.
#[derive(Debug, Clone)]
pub struct LatencyConfig {
    /// Samples below this are `Low`.
    pub low_threshold_ms: u64,
    /// Samples above this are `High`.
    pub high_threshold_ms: u64,
}

impl Default for LatencyConfig {
    fn default() -> (r: Self)
        ensures
            r.low_threshold_ms == DEFAULT_LOW_THRESHOLD_MS,
            r.high_threshold_ms == DEFAULT_HIGH_THRESHOLD_MS,
    {
        LatencyConfig {
            low_threshold_ms: DEFAULT_LOW_THRESHOLD_MS,
            high_threshold_ms: DEFAULT_HIGH_THRESHOLD_MS,
        }
    }
}

/// Refresh interval of the display; connection data is refreshed at a
/// multiple of it.
#[derive(Debug, Clone)]
pub struct RefreshConfig {
    /// UI refresh interval in milliseconds.
    pub refresh_ms: u64,
    /// When the interval was last changed, for highlighting the change.
    pub last_change: Option<Instant>,
}

impl RefreshConfig {
    /// The default interval, never changed.
    pub fn new() -> (r: Self)
        ensures
            r.refresh_ms == DEFAULT_REFRESH_MS,
            r.last_change is None,
    {
        RefreshConfig { refresh_ms: DEFAULT_REFRESH_MS, last_change: None }
    }

    /// The UI refresh interval.
    pub fn ui_interval(&self) -> (d: Duration)
        ensures
            d == duration_of_millis(self.refresh_ms),
    {
        millis(self.refresh_ms)
    }

    /// The connection-data refresh interval: ten UI intervals.
    pub fn data_interval(&self) -> (d: Duration)
        requires
            self.refresh_ms * DATA_REFRESH_MULTIPLIER <= u64::MAX,
        ensures
            d == duration_of_millis((self.refresh_ms * DATA_REFRESH_MULTIPLIER) as u64),
    {
        millis(self.refresh_ms * DATA_REFRESH_MULTIPLIER)
    }

    /// The interval one step shorter, but not below the minimum.
    pub fn faster_interval(ms: u64) -> (r: u64)
        ensures
            r == if ms >= MIN_REFRESH_MS + REFRESH_STEP {
                ms - REFRESH_STEP
            } else {
                MIN_REFRESH_MS as int
            },
    {
        let stepped = ms.saturating_sub(REFRESH_STEP);
        if stepped < MIN_REFRESH_MS {
            MIN_REFRESH_MS
        } else {
            stepped
        }
    }

    /// The interval one step longer, but not above the maximum.
    pub fn slower_interval(ms: u64) -> (r: u64)
        ensures
            r == if ms + REFRESH_STEP <= MAX_REFRESH_MS {
                ms + REFRESH_STEP
            } else {
                MAX_REFRESH_MS as int
            },
    {
        let stepped = ms.saturating_add(REFRESH_STEP);
        if stepped > MAX_REFRESH_MS {
            MAX_REFRESH_MS
        } else {
            stepped
        }
    }
}

impl Default for RefreshConfig {
    fn default() -> (r: Self)
        ensures
            r.refresh_ms == DEFAULT_REFRESH_MS,
            r.last_change is None,
    {
        RefreshConfig::new()
    }
}

} // verus!
