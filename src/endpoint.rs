//! Classification of remote endpoints, heavy-talker detection and latency
//! tiers.

use crate::config::{LatencyBucket, LatencyConfig};
use crate::text::{all_digits, chars_of, digits_value, parse_digits, same_text, split_char, split_ranges, pieces};
use vstd::prelude::*;
use vstd::string::StringExecFns;

verus! {

broadcast use vstd::string::group_string_axioms;

/// Number of endpoints whose counts set the heavy-talker threshold.
pub const HEAVY_TALKER_RANK: usize = 5;

/// Kind of a remote endpoint.
#[derive(Debug, Clone, Copy, PartialEq, Eq, Hash, Structural)]
pub enum EndpointType {
    /// Loopback or wildcard address.
    Localhost,
    /// An address in one of the RFC 1918 private ranges.
    Private,
    /// Any other address.
    Public,
    /// A local listening socket with no remote peer.
    ListenOnly,
}

/// Icon of each endpoint kind.
pub open spec fn icon_text(t: EndpointType) -> Seq<char> {
    match t {
        EndpointType::Localhost => "⚰️"@,
        EndpointType::Private => "🪦"@,
        EndpointType::Public => "🎃"@,
        EndpointType::ListenOnly => "🕯"@,
    }
}

/// Badge appended to the icon of a heavy talker.
pub open spec fn badge_text() -> Seq<char> {
    "👑"@
}

impl EndpointType {
    /// The icon of this kind of endpoint.
    pub fn icon(&self) -> (r: &'static str)
        ensures
            r@ == icon_text(*self),
    {
        match self {
            EndpointType::Localhost => "⚰️",
            EndpointType::Private => "🪦",
            EndpointType::Public => "🎃",
            EndpointType::ListenOnly => "🕯",
        }
    }

    /// The icon, followed by the crown badge for a heavy talker.
    pub fn icon_with_badge(&self, is_heavy_talker: bool) -> (r: String)
        ensures
            r@ == if is_heavy_talker {
                icon_text(*self) + badge_text()
            } else {
                icon_text(*self)
            },
    {
        let mut out = String::from_str(self.icon());
        if is_heavy_talker {
            out.append("👑");
        }
        out
    }
}

/// Value of one part of a dotted quad: one to three decimal digits, no sign,
/// no leading zero, at most 255.
pub open spec fn octet_value(p: Seq<char>) -> Option<nat> {
    if 1 <= p.len() <= 3 && (p.len() == 1 || p[0] != '0') && all_digits(p, 10) && digits_value(
        p,
        10,
    ) <= 255 {
        Some(digits_value(p, 10))
    } else {
        None
    }
}

/// The text `s` is a well-formed dotted quad in 10.0.0.0/8, 172.16.0.0/12
/// or 192.168.0.0/16.
pub open spec fn is_private_ipv4(s: Seq<char>) -> bool {
    let parts = split_char(s, '.');
    &&& parts.len() == 4
    &&& forall|k: int| 0 <= k < 4 ==> (#[trigger] octet_value(parts[k])) is Some
    &&& {
        let a = octet_value(parts[0])->0;
        let b = octet_value(parts[1])->0;
        a == 10 || (a == 172 && 16 <= b <= 31) || (a == 192 && b == 168)
    }
}

/// The loopback and wildcard addresses.
pub open spec fn is_local_address(s: Seq<char>) -> bool {
    s == "127.0.0.1"@ || s == "::1"@ || s == "0.0.0.0"@
}

/// Kind of the endpoint at address `ip`.
pub open spec fn endpoint_kind(ip: Seq<char>, is_listen_socket: bool) -> EndpointType {
    if is_listen_socket {
        EndpointType::ListenOnly
    } else if is_local_address(ip) {
        EndpointType::Localhost
    } else if is_private_ipv4(ip) {
        EndpointType::Private
    } else {
        EndpointType::Public
    }
}

/// Classifies a remote address. A listening socket is `ListenOnly` whatever
/// its address; text that is no IPv4 address falls through to `Public`.
pub fn classify_endpoint(ip: &str, is_listen_socket: bool) -> (r: EndpointType)
    ensures
        r == endpoint_kind(ip@, is_listen_socket),
{
    if is_listen_socket {
        return EndpointType::ListenOnly;
    }
    if same_text(ip, "127.0.0.1") || same_text(ip, "::1") || same_text(ip, "0.0.0.0") {
        return EndpointType::Localhost;
    }
    match classify_ipv4_private(ip) {
        Some(t) => t,
        None => EndpointType::Public,
    }
}

/// The octet written as `s[lo..hi]`.
fn parse_octet(s: &Vec<char>, lo: usize, hi: usize) -> (r: Option<u64>)
    requires
        lo <= hi <= s@.len(),
    ensures
        match octet_value(s@.subrange(lo as int, hi as int)) {
            Some(v) => r == Some(v as u64),
            None => r is None,
        },
{
    let n = hi - lo;
    if n < 1 || n > 3 || (n > 1 && s[lo] == '0') {
        return None;
    }
    parse_digits(s, lo, hi, 10, 255)
}

/// `Some(Private)` when `ip` is an address of a private IPv4 range, else
/// `None`.
pub fn classify_ipv4_private(ip: &str) -> (r: Option<EndpointType>)
    ensures
        r == (if is_private_ipv4(ip@) {
            Some(EndpointType::Private)
        } else {
            None
        }),
{
    let s = chars_of(ip);
    let parts = split_ranges(&s, 0, s.len(), '.');
    assert(s@.subrange(0, s@.len() as int) =~= ip@);
    let ghost ps = split_char(ip@, '.');
    if parts.len() != 4 {
        return None;
    }
    assert(pieces(s@, parts@)[0] == ps[0]);
    let mut octets: Vec<u64> = Vec::new();
    let mut k: usize = 0;
    while k < 4
        invariant
            parts@.len() == 4,
            ps.len() == 4,
            ps == split_char(ip@, '.'),
            pieces(s@, parts@) == ps,
            crate::text::ranges_within(parts@, 0, s@.len() as int),
            k <= 4,
            octets@.len() == k,
            forall|j: int| 0 <= j < k ==> octet_value(#[trigger] ps[j]) == Some(octets@[j] as nat),
        decreases 4 - k,
    {
        let (lo, hi) = parts[k];
        assert(pieces(s@, parts@)[k as int] == s@.subrange(lo as int, hi as int));
        match parse_octet(&s, lo, hi) {
            Some(v) => {
                octets.push(v);
            },
            None => {
                assert(ps[k as int] == s@.subrange(lo as int, hi as int));
                assert(octet_value(ps[k as int]) is None);
                assert(!is_private_ipv4(ip@));
                return None;
            },
        }
        k = k + 1;
    }
    let a = octets[0];
    let b = octets[1];
    if a == 10 || (a == 172 && 16 <= b && b <= 31) || (a == 192 && b == 168) {
        Some(EndpointType::Private)
    } else {
        None
    }
}

/// Number of elements of `s` greater than `c`.
pub open spec fn count_greater(s: Seq<usize>, c: usize) -> nat
    decreases s.len(),
{
    if s.len() == 0 {
        0
    } else {
        count_greater(s.drop_last(), c) + if s.last() > c {
            1nat
        } else {
            0nat
        }
    }
}

/// An endpoint with `count` connections is a heavy talker among endpoints
/// with `all` counts: its count is non-zero and at least the fifth-highest
/// count (fewer than five counts exceed it); with fewer than five endpoints,
/// at least the smallest count.
pub open spec fn heavy_talker(count: usize, all: Seq<usize>) -> bool {
    &&& all.len() > 0
    &&& count > 0
    &&& if all.len() >= HEAVY_TALKER_RANK {
        count_greater(all, count) < HEAVY_TALKER_RANK
    } else {
        exists|i: int| 0 <= i < all.len() && all[i] <= count
    }
}

/// Whether an endpoint with `conn_count` connections is a heavy talker among
/// endpoints with `all_counts` connections.
pub fn is_heavy_talker(conn_count: usize, all_counts: &[usize]) -> (r: bool)
    ensures
        r == heavy_talker(conn_count, all_counts@),
{
    let n = all_counts.len();
    if n == 0 || conn_count == 0 {
        return false;
    }
    let mut greater: usize = 0;
    let mut reaches_min = false;
    let mut i: usize = 0;
    while i < n
        invariant
            n == all_counts@.len(),
            i <= n,
            greater == count_greater(all_counts@.subrange(0, i as int), conn_count),
            greater <= i,
            reaches_min <==> exists|j: int| 0 <= j < i && all_counts@[j] <= conn_count,
        decreases n - i,
    {
        let x = all_counts[i];
        assert(all_counts@.subrange(0, i + 1).drop_last() =~= all_counts@.subrange(0, i as int));
        if x > conn_count {
            greater = greater + 1;
        } else {
            reaches_min = true;
        }
        i = i + 1;
    }
    assert(all_counts@.subrange(0, n as int) =~= all_counts@);
    if n >= HEAVY_TALKER_RANK {
        greater < HEAVY_TALKER_RANK
    } else {
        reaches_min
    }
}

/// Latency tier of an optional sample.
pub open spec fn latency_tier(latency_ms: Option<u64>, config: LatencyConfig) -> LatencyBucket {
    match latency_ms {
        None => LatencyBucket::Unknown,
        Some(ms) => if ms < config.low_threshold_ms {
            LatencyBucket::Low
        } else if ms <= config.high_threshold_ms {
            LatencyBucket::Medium
        } else {
            LatencyBucket::High
        },
    }
}

/// The latency tier of a sample: below the low threshold `Low`, up to the high
/// threshold `Medium`, above it `High`; no sample gives `Unknown`.
pub fn classify_latency(latency_ms: Option<u64>, config: &LatencyConfig) -> (r: LatencyBucket)
    ensures
        r == latency_tier(latency_ms, *config),
{
    match latency_ms {
        None => LatencyBucket::Unknown,
        Some(ms) => {
            if ms < config.low_threshold_ms {
                LatencyBucket::Low
            } else if ms <= config.high_threshold_ms {
                LatencyBucket::Medium
            } else {
                LatencyBucket::High
            }
        },
    }
}

} // verus!
