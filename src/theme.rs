//! Status wording and icons of the standard and the "overdrive" theme.

use crate::config::LatencyBucket;
use crate::net::ConnectionState;
use vstd::prelude::*;

verus! {

/// Standard status wording of a state.
pub open spec fn normal_status(state: ConnectionState) -> Seq<char> {
    match state {
        ConnectionState::Established => "Alive"@,
        ConnectionState::Listen => "Listening"@,
        ConnectionState::SynSent | ConnectionState::SynRecv => "Connecting"@,
        ConnectionState::Unknown => "Unknown"@,
        _ => "Closing"@,
    }
}

/// Themed status wording of a state.
pub open spec fn overdrive_status(state: ConnectionState) -> Seq<char> {
    match state {
        ConnectionState::Established => "Haunting"@,
        ConnectionState::Listen => "Summoning"@,
        ConnectionState::SynSent | ConnectionState::SynRecv => "Awakening"@,
        ConnectionState::Unknown => "Unknown"@,
        _ => "Fading"@,
    }
}

/// Themed icon of a state and latency tier. Dying sockets take precedence,
/// then high latency, then the state itself.
pub open spec fn overdrive_icon(state: ConnectionState, bucket: LatencyBucket) -> Seq<char> {
    match state {
        ConnectionState::CloseWait | ConnectionState::TimeWait => "💀"@,
        _ => if bucket == LatencyBucket::High {
            "🔥🎃"@
        } else {
            match state {
                ConnectionState::Established => "🟢👻"@,
                ConnectionState::Listen => "🕯"@,
                ConnectionState::SynSent | ConnectionState::SynRecv => "⏳"@,
                ConnectionState::Close => "💀"@,
                ConnectionState::FinWait1 | ConnectionState::FinWait2 | ConnectionState::LastAck
                | ConnectionState::Closing => "👻"@,
                _ => "❓"@,
            }
        },
    }
}

/// Standard status wording of a state.
pub fn get_normal_status_text(state: ConnectionState) -> (r: &'static str)
    ensures
        r@ == normal_status(state),
{
    match state {
        ConnectionState::Established => "Alive",
        ConnectionState::Listen => "Listening",
        ConnectionState::TimeWait
        | ConnectionState::CloseWait
        | ConnectionState::FinWait1
        | ConnectionState::FinWait2
        | ConnectionState::LastAck
        | ConnectionState::Closing
        | ConnectionState::Close => "Closing",
        ConnectionState::SynSent | ConnectionState::SynRecv => "Connecting",
        ConnectionState::Unknown => "Unknown",
    }
}

/// Themed icon of a connection by state and latency tier.
pub fn get_overdrive_icon(state: ConnectionState, latency_bucket: LatencyBucket) -> (r:
    &'static str)
    ensures
        r@ == overdrive_icon(state, latency_bucket),
{
    match state {
        ConnectionState::CloseWait | ConnectionState::TimeWait => "💀",
        ConnectionState::Established => {
            if latency_bucket == LatencyBucket::High {
                "🔥🎃"
            } else {
                "🟢👻"
            }
        },
        _ => {
            if latency_bucket == LatencyBucket::High {
                "🔥🎃"
            } else {
                match state {
                    ConnectionState::Listen => "🕯",
                    ConnectionState::SynSent | ConnectionState::SynRecv => "⏳",
                    ConnectionState::Close => "💀",
                    ConnectionState::FinWait1 | ConnectionState::FinWait2 => "👻",
                    ConnectionState::LastAck | ConnectionState::Closing => "👻",
                    _ => "❓",
                }
            }
        },
    }
}

/// Themed status wording of a state.
pub fn get_overdrive_status_text(state: ConnectionState) -> (r: &'static str)
    ensures
        r@ == overdrive_status(state),
{
    match state {
        ConnectionState::Established => "Haunting",
        ConnectionState::Listen => "Summoning",
        ConnectionState::TimeWait
        | ConnectionState::CloseWait
        | ConnectionState::FinWait1
        | ConnectionState::FinWait2
        | ConnectionState::LastAck
        | ConnectionState::Closing
        | ConnectionState::Close => "Fading",
        ConnectionState::SynSent | ConnectionState::SynRecv => "Awakening",
        ConnectionState::Unknown => "Unknown",
    }
}

/// What connection counts are called: "Spirits" in overdrive, else
/// "Connections".
pub fn get_stats_label(overdrive_enabled: bool) -> (r: &'static str)
    ensures
        r@ == (if overdrive_enabled {
            "Spirits"@
        } else {
            "Connections"@
        }),
{
    if overdrive_enabled {
        "Spirits"
    } else {
        "Connections"
    }
}

/// Status wording in the theme that is switched on.
pub fn get_status_text(state: ConnectionState, overdrive_enabled: bool) -> (r: &'static str)
    ensures
        r@ == (if overdrive_enabled {
            overdrive_status(state)
        } else {
            normal_status(state)
        }),
{
    if overdrive_enabled {
        get_overdrive_status_text(state)
    } else {
        get_normal_status_text(state)
    }
}

} // verus!
