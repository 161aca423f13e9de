//! Ring geometry of the map, in hundredths of a canvas unit (the canvas is
//! 100 units square): ring radii fixed or scaled to the canvas, the ring of
//! each latency tier, and the jitter that separates neighbouring nodes.

use crate::config::LatencyBucket;
use vstd::prelude::*;

verus! {

/// Hundredths of a canvas unit per unit.
pub const UNIT: u32 = 100;

/// Default ring radii and edge padding, in hundredths.
pub const DEFAULT_RING_LOW: u32 = 1500;
pub const DEFAULT_RING_MEDIUM: u32 = 2500;
pub const DEFAULT_RING_HIGH: u32 = 3500;
pub const DEFAULT_EDGE_PADDING: u32 = 500;

/// Smaller canvas side, in cells, up to which the rings keep their size.
pub const ADAPTIVE_THRESHOLD_CELLS: i64 = 30;

/// Largest scale of the rings, in hundredths.
pub const MAX_SCALE: i64 = 350;

/// Radii and padding of one frame, in hundredths of a canvas unit.
#[derive(Debug, Clone, Copy, PartialEq, Eq, Structural)]
pub struct RingLayout {
    pub ring_low: u32,
    pub ring_medium: u32,
    pub ring_high: u32,
    pub edge_padding: u32,
    /// The rings were scaled up for a large canvas.
    pub is_adaptive: bool,
}

/// Scale of the rings, in hundredths, for a canvas whose smaller side is `s`
/// cells: one up to thirty cells, then growing by a twentieth per cell, at
/// most three and a half.
pub open spec fn ring_scale(s: int) -> int {
    let raw = 5 * (s - 10);
    if raw < 100 {
        100
    } else if raw > MAX_SCALE {
        MAX_SCALE as int
    } else {
        raw
    }
}

/// The layout for a canvas of `canvas_w` by `canvas_h` cells: the default
/// radii scaled by `ring_scale` of the smaller side, with the three radii
/// always in the ratio 15 : 25 : 35.
pub open spec fn layout_for(canvas_w: i64, canvas_h: i64) -> RingLayout {
    let s: int = if canvas_w < canvas_h {
        canvas_w as int
    } else {
        canvas_h as int
    };
    let k = ring_scale(s);
    RingLayout {
        ring_low: (15 * k) as u32,
        ring_medium: (25 * k) as u32,
        ring_high: (35 * k) as u32,
        edge_padding: DEFAULT_EDGE_PADDING,
        is_adaptive: k > 100,
    }
}

impl RingLayout {
    /// The fixed layout used for small or degenerate canvases.
    pub fn default_layout() -> (r: RingLayout)
        ensures
            r == layout_for(0, 0),
            r.ring_low == DEFAULT_RING_LOW && r.ring_medium == DEFAULT_RING_MEDIUM && r.ring_high
                == DEFAULT_RING_HIGH,
            r.edge_padding == DEFAULT_EDGE_PADDING,
            !r.is_adaptive,
    {
        RingLayout {
            ring_low: DEFAULT_RING_LOW,
            ring_medium: DEFAULT_RING_MEDIUM,
            ring_high: DEFAULT_RING_HIGH,
            edge_padding: DEFAULT_EDGE_PADDING,
            is_adaptive: false,
        }
    }

    /// The radius of a latency tier's ring; nodes without a sample sit on
    /// the middle ring.
    pub open spec fn ring_of(self, bucket: LatencyBucket) -> u32 {
        match bucket {
            LatencyBucket::Low => self.ring_low,
            LatencyBucket::Medium => self.ring_medium,
            LatencyBucket::High => self.ring_high,
            LatencyBucket::Unknown => self.ring_medium,
        }
    }

    pub fn ring_radius(&self, bucket: LatencyBucket) -> (r: u32)
        ensures
            r == self.ring_of(bucket),
    {
        match bucket {
            LatencyBucket::Low => self.ring_low,
            LatencyBucket::Medium => self.ring_medium,
            LatencyBucket::High => self.ring_high,
            LatencyBucket::Unknown => self.ring_medium,
        }
    }

    /// The radius at which the `index`-th node of a tier is placed: its ring
    /// moved in by two units, kept, or moved out by two, in turn.
    pub open spec fn placed_radius(self, bucket: LatencyBucket, index: nat) -> int {
        self.ring_of(bucket) + ((index % 3) as int - 1) * 200
    }

    pub fn node_radius(&self, bucket: LatencyBucket, index: usize) -> (r: i64)
        ensures
            r == self.placed_radius(bucket, index as nat),
    {
        let ring = self.ring_radius(bucket) as i64;
        ring + ((index % 3) as i64 - 1) * 200
    }
}

/// The ring layout for a canvas of `canvas_w` by `canvas_h` cells. A
/// non-positive side gives the default layout; so does a smaller side of up
/// to thirty cells; larger canvases scale all rings alike.
pub fn calculate_layout_config(canvas_w: i64, canvas_h: i64) -> (r: RingLayout)
    ensures
        r == layout_for(canvas_w, canvas_h),
        (canvas_w <= 0 || canvas_h <= 0) ==> r == RingLayout::default_layout_spec(),
{
    let s: i64 = if canvas_w < canvas_h {
        canvas_w
    } else {
        canvas_h
    };
    let k: i64 = if s <= ADAPTIVE_THRESHOLD_CELLS {
        100
    } else if s >= 80 {
        MAX_SCALE
    } else {
        5 * (s - 10)
    };
    RingLayout {
        ring_low: (15 * k) as u32,
        ring_medium: (25 * k) as u32,
        ring_high: (35 * k) as u32,
        edge_padding: DEFAULT_EDGE_PADDING,
        is_adaptive: k > 100,
    }
}

impl RingLayout {
    pub open spec fn default_layout_spec() -> RingLayout {
        RingLayout {
            ring_low: DEFAULT_RING_LOW,
            ring_medium: DEFAULT_RING_MEDIUM,
            ring_high: DEFAULT_RING_HIGH,
            edge_padding: DEFAULT_EDGE_PADDING,
            is_adaptive: false,
        }
    }
}

/// Number of entries of `bs` equal to `b`.
pub open spec fn bucket_count(bs: Seq<LatencyBucket>, b: LatencyBucket) -> nat
    decreases bs.len(),
{
    if bs.len() == 0 {
        0
    } else {
        bucket_count(bs.drop_last(), b) + if bs.last() == b {
            1nat
        } else {
            0nat
        }
    }
}

/// For each node, in order, its index among the nodes of its tier and the
/// number of nodes of that tier: where it goes round its ring.
pub fn bucket_slots(buckets: &Vec<LatencyBucket>) -> (r: Vec<(usize, usize)>)
    ensures
        r@.len() == buckets@.len(),
        forall|k: int|
            0 <= k < buckets@.len() ==> (#[trigger] r@[k]).0 == bucket_count(
                buckets@.subrange(0, k),
                buckets@[k],
            ) && r@[k].1 == bucket_count(buckets@, buckets@[k]),
{
    let n = buckets.len();
    let mut r: Vec<(usize, usize)> = Vec::new();
    let mut k: usize = 0;
    while k < n
        invariant
            n == buckets@.len(),
            k <= n,
            r@.len() == k,
            forall|j: int|
                0 <= j < k ==> (#[trigger] r@[j]).0 == bucket_count(
                    buckets@.subrange(0, j),
                    buckets@[j],
                ) && r@[j].1 == bucket_count(buckets@, buckets@[j]),
        decreases n - k,
    {
        let b = buckets[k];
        let mut before: usize = 0;
        let mut total: usize = 0;
        let mut i: usize = 0;
        while i < n
            invariant
                n == buckets@.len(),
                k < n,
                i <= n,
                b == buckets@[k as int],
                total == bucket_count(buckets@.subrange(0, i as int), b),
                before == bucket_count(buckets@.subrange(0, if i < k { i as int } else { k as int }), b),
                total <= i,
            decreases n - i,
        {
            assert(buckets@.subrange(0, i + 1).drop_last() =~= buckets@.subrange(0, i as int));
            if buckets[i] == b {
                total = total + 1;
                if i < k {
                    before = before + 1;
                }
            }
            i = i + 1;
        }
        assert(buckets@.subrange(0, n as int) =~= buckets@);
        r.push((before, total));
        k = k + 1;
    }
    r
}

/// In every layout the engine produces the rings are ordered, low inside
/// medium inside high, and so are the radii at which the same-numbered node
/// of each tier is placed; nodes without a sample share the medium ring.
pub proof fn lemma_rings_ordered(canvas_w: i64, canvas_h: i64, index: nat)
    ensures
        ({
            let l = layout_for(canvas_w, canvas_h);
            &&& l.ring_low < l.ring_medium < l.ring_high
            &&& l.placed_radius(LatencyBucket::Low, index) < l.placed_radius(
                LatencyBucket::Medium,
                index,
            ) < l.placed_radius(LatencyBucket::High, index)
            &&& l.placed_radius(LatencyBucket::Unknown, index) == l.placed_radius(
                LatencyBucket::Medium,
                index,
            )
        }),
{
}

} // verus!
