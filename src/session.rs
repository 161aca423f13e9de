//! Decisions of the interactive session, apart from clocks and drawing:
//! moving the selection, focusing a process, throttling animation, and the
//! activity level plotted over time.

use crate::config::GraveyardMode;
use crate::net::{Connection, ConnectionState, ConnectionView};
use crate::topology::conns_view;
use vstd::prelude::*;

verus! {

/// Frames slower than this, in milliseconds, count as slow.
pub const FRAME_TIME_THRESHOLD_MS: u64 = 100;

/// Consecutive slow frames after which animation is reduced.
pub const SLOW_FRAME_COUNT_THRESHOLD: u32 = 5;

/// Lowest and highest plotted activity level.
pub const MIN_ACTIVITY: i64 = 5;
pub const MAX_ACTIVITY: i64 = 100;

/// The selection after moving down a list of `len` connections: the first
/// when nothing was selected, the next unless at the end.
pub open spec fn next_selection_spec(len: nat, current: Option<usize>) -> Option<usize> {
    if len == 0 {
        None
    } else {
        match current {
            None => Some(0),
            Some(i) => if i + 1 < len {
                Some((i + 1) as usize)
            } else {
                Some(i)
            },
        }
    }
}

/// The selection after moving up a list of `len` connections: the last when
/// nothing was selected, the previous unless at the start.
pub open spec fn previous_selection_spec(len: nat, current: Option<usize>) -> Option<usize> {
    if len == 0 {
        None
    } else {
        match current {
            None => Some((len - 1) as usize),
            Some(i) => if i > 0 {
                Some((i - 1) as usize)
            } else {
                Some(i)
            },
        }
    }
}

pub fn next_selection(len: usize, current: Option<usize>) -> (r: Option<usize>)
    ensures
        r == next_selection_spec(len as nat, current),
{
    if len == 0 {
        return None;
    }
    match current {
        None => Some(0),
        Some(i) => {
            if i < len - 1 {
                Some(i + 1)
            } else {
                Some(i)
            }
        },
    }
}

pub fn previous_selection(len: usize, current: Option<usize>) -> (r: Option<usize>)
    ensures
        r == previous_selection_spec(len as nat, current),
{
    if len == 0 {
        return None;
    }
    match current {
        None => Some(len - 1),
        Some(i) => {
            if i > 0 {
                Some(i - 1)
            } else {
                Some(i)
            }
        },
    }
}

/// What the map centres on.
#[derive(Debug, Clone, Copy, PartialEq, Eq, Structural)]
pub struct ViewFocus {
    pub mode: GraveyardMode,
    /// The process shown in process mode, when its id is known.
    pub selected_process_pid: Option<i32>,
}

impl ViewFocus {
    /// Focus on the process owning the selected connection, if a connection
    /// is selected; process mode is entered even when its owner is unknown.
    pub fn focus_selected(self, selected: Option<usize>, conns: &Vec<Connection>) -> (r: ViewFocus)
        ensures
            match selected {
                Some(i) => if i < conns@.len() {
                    r == ViewFocus { mode: GraveyardMode::Process, selected_process_pid: conns@[i as int].pid }
                } else {
                    r == self
                },
                None => r == self,
            },
    {
        match selected {
            Some(i) => {
                if i < conns.len() {
                    ViewFocus { mode: GraveyardMode::Process, selected_process_pid: conns[i].pid }
                } else {
                    self
                }
            },
            None => self,
        }
    }

    /// Back to the whole host.
    pub fn cleared() -> (r: ViewFocus)
        ensures
            r == (ViewFocus { mode: GraveyardMode::Host, selected_process_pid: None }),
    {
        ViewFocus { mode: GraveyardMode::Host, selected_process_pid: None }
    }

    /// From host mode, focus the selected connection's process; from process
    /// mode, return to the host.
    pub fn toggled(self, selected: Option<usize>, conns: &Vec<Connection>) -> (r: ViewFocus)
        ensures
            self.mode == GraveyardMode::Process ==> r == ViewFocus::cleared_spec(),
            self.mode == GraveyardMode::Host ==> (match selected {
                Some(i) => if i < conns@.len() {
                    r == ViewFocus { mode: GraveyardMode::Process, selected_process_pid: conns@[i as int].pid }
                } else {
                    r == self
                },
                None => r == self,
            }),
    {
        match self.mode {
            GraveyardMode::Host => self.focus_selected(selected, conns),
            GraveyardMode::Process => ViewFocus::cleared(),
        }
    }

    pub open spec fn cleared_spec() -> ViewFocus {
        ViewFocus { mode: GraveyardMode::Host, selected_process_pid: None }
    }
}

/// Tracks slow frames and whether animation has been reduced because of them.
#[derive(Debug, Clone, Copy, PartialEq, Eq, Structural)]
pub struct FrameMonitor {
    pub slow_frame_count: u32,
    pub animation_reduced: bool,
}

impl FrameMonitor {
    pub fn new() -> (r: FrameMonitor)
        ensures
            r.slow_frame_count == 0,
            !r.animation_reduced,
    {
        FrameMonitor { slow_frame_count: 0, animation_reduced: false }
    }

    /// The monitor after a frame that took `frame_ms` milliseconds: a slow
    /// frame is counted and, from the fifth in a row, animation is reduced;
    /// a fast frame resets the count unless animation is already reduced.
    pub fn after_frame(self, frame_ms: u64) -> (r: FrameMonitor)
        ensures
            frame_ms > FRAME_TIME_THRESHOLD_MS ==> {
                &&& r.slow_frame_count == if self.slow_frame_count < u32::MAX {
                    self.slow_frame_count + 1
                } else {
                    u32::MAX as int
                }
                &&& r.animation_reduced == (self.animation_reduced || r.slow_frame_count
                    >= SLOW_FRAME_COUNT_THRESHOLD)
            },
            frame_ms <= FRAME_TIME_THRESHOLD_MS ==> {
                &&& r.animation_reduced == self.animation_reduced
                &&& r.slow_frame_count == if self.animation_reduced {
                    self.slow_frame_count
                } else {
                    0
                }
            },
    {
        if frame_ms > FRAME_TIME_THRESHOLD_MS {
            let count = self.slow_frame_count.saturating_add(1);
            let reduced = self.animation_reduced || count >= SLOW_FRAME_COUNT_THRESHOLD;
            FrameMonitor { slow_frame_count: count, animation_reduced: reduced }
        } else if self.animation_reduced {
            self
        } else {
            FrameMonitor { slow_frame_count: 0, animation_reduced: false }
        }
    }

    /// Full animation again, e.g. after the user toggled animations.
    pub fn reset() -> (r: FrameMonitor)
        ensures
            r.slow_frame_count == 0,
            !r.animation_reduced,
    {
        FrameMonitor::new()
    }
}

/// Number of connections among `s` whose state satisfies `f`.
pub open spec fn count_where(s: Seq<ConnectionView>, f: spec_fn(ConnectionState) -> bool) -> nat
    decreases s.len(),
{
    if s.len() == 0 {
        0
    } else {
        count_where(s.drop_last(), f) + if f(s.last().state) {
            1nat
        } else {
            0nat
        }
    }
}

pub open spec fn is_established(st: ConnectionState) -> bool {
    st == ConnectionState::Established
}

pub open spec fn is_listening(st: ConnectionState) -> bool {
    st == ConnectionState::Listen
}

/// Handshakes and closes in progress.
pub open spec fn is_transitional(st: ConnectionState) -> bool {
    st == ConnectionState::SynSent || st == ConnectionState::SynRecv || st
        == ConnectionState::FinWait1 || st == ConnectionState::FinWait2 || st
        == ConnectionState::Closing
}

pub open spec fn min_int(a: int, b: int) -> int {
    if a < b {
        a
    } else {
        b
    }
}

/// Activity level of a set of connections before variation: a floor of 5
/// (10 when there are connections), plus 5 per established connection (at
/// most 50), 2 per listening socket (at most 20), and 10 per transitional one
/// (at most 30).
pub open spec fn activity_base(s: Seq<ConnectionView>) -> int {
    (if s.len() == 0 {
        5int
    } else {
        10int
    }) + min_int(5 * count_where(s, |st| is_established(st)) as int, 50) + min_int(
        2 * count_where(s, |st| is_listening(st)) as int,
        20,
    ) + min_int(10 * count_where(s, |st| is_transitional(st)) as int, 30)
}

/// The activity level of `conns` before variation.
pub fn activity_level(conns: &Vec<Connection>) -> (r: i64)
    ensures
        r == activity_base(conns_view(conns@)),
{
    let ghost s = conns_view(conns@);
    let mut est: u64 = 0;
    let mut lis: u64 = 0;
    let mut act: u64 = 0;
    let mut i: usize = 0;
    while i < conns.len()
        invariant
            i <= conns@.len(),
            s == conns_view(conns@),
            est == count_where(conns_view(conns@.subrange(0, i as int)), |st| is_established(st)),
            lis == count_where(conns_view(conns@.subrange(0, i as int)), |st| is_listening(st)),
            act == count_where(conns_view(conns@.subrange(0, i as int)), |st| is_transitional(st)),
            est <= i && lis <= i && act <= i,
        decreases conns@.len() - i,
    {
        let ghost pre = conns_view(conns@.subrange(0, i as int));
        let ghost cur = conns_view(conns@.subrange(0, i + 1));
        assert(cur.drop_last() =~= pre);
        let st = conns[i].state;
        if st == ConnectionState::Established {
            est = est + 1;
        }
        if st == ConnectionState::Listen {
            lis = lis + 1;
        }
        if st == ConnectionState::SynSent || st == ConnectionState::SynRecv || st
            == ConnectionState::FinWait1 || st == ConnectionState::FinWait2 || st
            == ConnectionState::Closing {
            act = act + 1;
        }
        i = i + 1;
    }
    assert(conns@.subrange(0, i as int) =~= conns@);
    let base: i64 = if conns.len() == 0 {
        5
    } else {
        10
    };
    let e: i64 = if est >= 10 {
        50
    } else {
        (est * 5) as i64
    };
    let l: i64 = if lis >= 10 {
        20
    } else {
        (lis * 2) as i64
    };
    let a: i64 = if act >= 3 {
        30
    } else {
        (act * 10) as i64
    };
    base + e + l + a
}

/// A plotted activity sample: the level plus its variation, kept between 5
/// and 100.
pub fn activity_sample(level: i64, variation: i64) -> (r: u64)
    ensures
        r == (if level + variation < MIN_ACTIVITY {
            MIN_ACTIVITY as int
        } else if level + variation > MAX_ACTIVITY {
            MAX_ACTIVITY as int
        } else {
            level + variation
        }),
{
    let v: i128 = level as i128 + variation as i128;
    if v < MIN_ACTIVITY as i128 {
        MIN_ACTIVITY as u64
    } else if v > MAX_ACTIVITY as i128 {
        MAX_ACTIVITY as u64
    } else {
        v as u64
    }
}

} // verus!
