//! Endpoint aggregation: connections grouped by remote address, each group
//! counted, given its dominant state and classified.

use crate::config::{LatencyBucket, LatencyConfig};
use crate::endpoint::{classify_endpoint, classify_latency, endpoint_kind, heavy_talker, is_heavy_talker, EndpointType};
use crate::net::{Connection, ConnectionState, ConnectionView};
use crate::config::GraveyardMode;
use crate::inspector::{first_name, first_process_name};
use crate::text::{push_signed, same_text, shorten_text, shortened, signed_text};
use vstd::string::StringExecFns;
use vstd::prelude::*;

verus! {

broadcast use vstd::string::group_string_axioms;

/// A connection that stands for a real peer: not a listening socket, and not
/// towards the wildcard address.
pub open spec fn is_peer(c: ConnectionView) -> bool {
    c.state != ConnectionState::Listen && c.remote_addr != "0.0.0.0"@
}

/// Remote addresses of the peers among `s`, in order.
pub open spec fn peer_addrs(s: Seq<ConnectionView>) -> Seq<Seq<char>>
    decreases s.len(),
{
    if s.len() == 0 {
        Seq::empty()
    } else {
        peer_addrs(s.drop_last()) + if is_peer(s.last()) {
            seq![s.last().remote_addr]
        } else {
            Seq::empty()
        }
    }
}

/// States of the peers among `s` whose remote address is `a`, in order.
pub open spec fn peer_states(s: Seq<ConnectionView>, a: Seq<char>) -> Seq<ConnectionState>
    decreases s.len(),
{
    if s.len() == 0 {
        Seq::empty()
    } else {
        peer_states(s.drop_last(), a) + if is_peer(s.last()) && s.last().remote_addr == a {
            seq![s.last().state]
        } else {
            Seq::empty()
        }
    }
}

/// The distinct elements of `xs`, in order of first appearance.
pub open spec fn first_seen<A>(xs: Seq<A>) -> Seq<A>
    decreases xs.len(),
{
    if xs.len() == 0 {
        Seq::empty()
    } else {
        let f = first_seen(xs.drop_last());
        if f.contains(xs.last()) {
            f
        } else {
            f.push(xs.last())
        }
    }
}

/// Number of occurrences of `x` in `xs`.
pub open spec fn occurrences<A>(xs: Seq<A>, x: A) -> nat
    decreases xs.len(),
{
    if xs.len() == 0 {
        0
    } else {
        occurrences(xs.drop_last(), x) + if xs.last() == x {
            1nat
        } else {
            0nat
        }
    }
}

/// The first of `cands` that occurs most often in `xs`; `Unknown` when there
/// is no candidate.
pub open spec fn most_frequent(cands: Seq<ConnectionState>, xs: Seq<ConnectionState>) -> ConnectionState
    decreases cands.len(),
{
    if cands.len() == 0 {
        ConnectionState::Unknown
    } else if cands.len() == 1 {
        cands[0]
    } else {
        let best = most_frequent(cands.drop_last(), xs);
        if occurrences(xs, cands.last()) > occurrences(xs, best) {
            cands.last()
        } else {
            best
        }
    }
}

/// The state most frequent among `states`, ties going to the state seen
/// first.
pub open spec fn dominant_state(states: Seq<ConnectionState>) -> ConnectionState {
    most_frequent(first_seen(states), states)
}

/// Connections towards one remote address.
#[derive(Debug, Clone)]
pub struct EndpointGroup {
    /// The remote address.
    pub addr: String,
    /// Number of connections towards it.
    pub conn_count: usize,
    /// The state most frequent among them, ties going to the one seen first.
    pub state: ConnectionState,
    /// Its classification.
    pub endpoint_type: EndpointType,
    /// Its latency tier.
    pub latency_bucket: LatencyBucket,
}

/// The connections of a snapshot, grouped.
#[derive(Debug, Clone)]
pub struct EndpointSummary {
    /// One group per remote peer address, in order of first appearance.
    pub groups: Vec<EndpointGroup>,
    /// Number of listening sockets, counted apart.
    pub listen_count: usize,
}

/// Number of listening sockets among `s`.
pub open spec fn listen_count(s: Seq<ConnectionView>) -> nat
    decreases s.len(),
{
    if s.len() == 0 {
        0
    } else {
        listen_count(s.drop_last()) + if s.last().state == ConnectionState::Listen {
            1nat
        } else {
            0nat
        }
    }
}

pub open spec fn conns_view(v: Seq<Connection>) -> Seq<ConnectionView> {
    v.map_values(|c: Connection| c@)
}

/// Distinct remote addresses of the peers, in order of first appearance.
fn peer_addresses(conns: &Vec<Connection>) -> (r: Vec<String>)
    ensures
        r@.map_values(|a: String| a@) == first_seen(peer_addrs(conns_view(conns@))),
{
    let mut out: Vec<String> = Vec::new();
    let mut i: usize = 0;
    while i < conns.len()
        invariant
            i <= conns@.len(),
            out@.map_values(|a: String| a@) == first_seen(peer_addrs(conns_view(conns@.subrange(0, i as int)))),
        decreases conns@.len() - i,
    {
        let c = &conns[i];
        let ghost pre = conns_view(conns@.subrange(0, i as int));
        let ghost cur = conns_view(conns@.subrange(0, i + 1));
        assert(cur.drop_last() =~= pre);
        assert(cur.last() == c@);
        let peer = c.state != ConnectionState::Listen && !same_text(c.remote_addr.as_str(), "0.0.0.0");
        if peer {
            let ghost f = out@.map_values(|a: String| a@);
            assert(peer_addrs(cur) =~= peer_addrs(pre).push(c.remote_addr@));
            assert(peer_addrs(cur).drop_last() =~= peer_addrs(pre));
            assert(peer_addrs(cur).last() == c.remote_addr@);
            let mut found = false;
            let mut j: usize = 0;
            while j < out.len()
                invariant
                    j <= out@.len(),
                    f == out@.map_values(|a: String| a@),
                    found <==> exists|k: int| 0 <= k < j && f[k] == c.remote_addr@,
                decreases out@.len() - j,
            {
                assert(f[j as int] == out@[j as int]@);
                if same_text(out[j].as_str(), c.remote_addr.as_str()) {
                    found = true;
                }
                j = j + 1;
            }
            if !found {
                assert(!f.contains(c.remote_addr@));
                out.push(c.remote_addr.clone());
                assert(out@.map_values(|a: String| a@) =~= f.push(c.remote_addr@));
            } else {
                assert(f.contains(c.remote_addr@));
            }
        } else {
            assert(peer_addrs(cur) =~= peer_addrs(pre));
        }
        i = i + 1;
    }
    assert(conns@.subrange(0, i as int) =~= conns@);
    out
}

/// States of the peers towards `addr`, in order.
fn states_towards(conns: &Vec<Connection>, addr: &String) -> (r: Vec<ConnectionState>)
    ensures
        r@ == peer_states(conns_view(conns@), addr@),
{
    let mut out: Vec<ConnectionState> = Vec::new();
    let mut i: usize = 0;
    while i < conns.len()
        invariant
            i <= conns@.len(),
            out@ == peer_states(conns_view(conns@.subrange(0, i as int)), addr@),
        decreases conns@.len() - i,
    {
        let c = &conns[i];
        let ghost pre = conns_view(conns@.subrange(0, i as int));
        let ghost cur = conns_view(conns@.subrange(0, i + 1));
        assert(cur.drop_last() =~= pre);
        assert(cur.last() == c@);
        if c.state != ConnectionState::Listen && !same_text(c.remote_addr.as_str(), "0.0.0.0")
            && same_text(c.remote_addr.as_str(), addr.as_str()) {
            out.push(c.state);
        }
        i = i + 1;
    }
    assert(conns@.subrange(0, i as int) =~= conns@);
    out
}

fn count_state(xs: &Vec<ConnectionState>, x: ConnectionState) -> (r: usize)
    ensures
        r == occurrences(xs@, x),
{
    let mut n: usize = 0;
    let mut i: usize = 0;
    while i < xs.len()
        invariant
            i <= xs@.len(),
            n == occurrences(xs@.subrange(0, i as int), x),
            n <= i,
        decreases xs@.len() - i,
    {
        assert(xs@.subrange(0, i + 1).drop_last() =~= xs@.subrange(0, i as int));
        if xs[i] == x {
            n = n + 1;
        }
        i = i + 1;
    }
    assert(xs@.subrange(0, i as int) =~= xs@);
    n
}

/// The state most frequent in `states`, ties going to the state seen first.
pub fn dominant(states: &Vec<ConnectionState>) -> (r: ConnectionState)
    ensures
        r == dominant_state(states@),
{
    let mut seen: Vec<ConnectionState> = Vec::new();
    let mut i: usize = 0;
    while i < states.len()
        invariant
            i <= states@.len(),
            seen@ == first_seen(states@.subrange(0, i as int)),
        decreases states@.len() - i,
    {
        let x = states[i];
        let ghost f = seen@;
        assert(states@.subrange(0, i + 1).drop_last() =~= states@.subrange(0, i as int));
        let mut found = false;
        let mut j: usize = 0;
        while j < seen.len()
            invariant
                j <= seen@.len(),
                f == seen@,
                found <==> exists|k: int| 0 <= k < j && f[k] == x,
            decreases seen@.len() - j,
        {
            if seen[j] == x {
                found = true;
            }
            j = j + 1;
        }
        if !found {
            assert(!f.contains(x));
            seen.push(x);
        } else {
            assert(f.contains(x));
        }
        i = i + 1;
    }
    assert(states@.subrange(0, i as int) =~= states@);
    if seen.len() == 0 {
        return ConnectionState::Unknown;
    }
    let mut best = seen[0];
    let mut best_count = count_state(states, best);
    let mut k: usize = 1;
    assert(seen@.subrange(0, 1) =~= seq![seen@[0]]);
    while k < seen.len()
        invariant
            1 <= k <= seen@.len(),
            best == most_frequent(seen@.subrange(0, k as int), states@),
            best_count == occurrences(states@, best),
        decreases seen@.len() - k,
    {
        assert(seen@.subrange(0, k + 1).drop_last() =~= seen@.subrange(0, k as int));
        let c = count_state(states, seen[k]);
        if c > best_count {
            best = seen[k];
            best_count = c;
        }
        k = k + 1;
    }
    assert(seen@.subrange(0, k as int) =~= seen@);
    best
}

fn count_listen(conns: &Vec<Connection>) -> (r: usize)
    ensures
        r == listen_count(conns_view(conns@)),
{
    let mut n: usize = 0;
    let mut i: usize = 0;
    while i < conns.len()
        invariant
            i <= conns@.len(),
            n == listen_count(conns_view(conns@.subrange(0, i as int))),
            n <= i,
        decreases conns@.len() - i,
    {
        let ghost pre = conns_view(conns@.subrange(0, i as int));
        let ghost cur = conns_view(conns@.subrange(0, i + 1));
        assert(cur.drop_last() =~= pre);
        if conns[i].state == ConnectionState::Listen {
            n = n + 1;
        }
        i = i + 1;
    }
    assert(conns@.subrange(0, i as int) =~= conns@);
    n
}

/// Groups the connections of a snapshot by remote address. Listening
/// sockets are only counted; connections towards the wildcard address are
/// left out. Each group is classified, given its connection count, its
/// dominant state, and the latency tier of a missing sample.
pub fn summarize_endpoints(conns: &Vec<Connection>, latency: &LatencyConfig) -> (r: EndpointSummary)
    ensures
        r.listen_count == listen_count(conns_view(conns@)),
        r.groups@.map_values(|g: EndpointGroup| g.addr@) == first_seen(peer_addrs(conns_view(conns@))),
        forall|k: int|
            0 <= k < r.groups@.len() ==> {
                let g = #[trigger] r.groups@[k];
                let states = peer_states(conns_view(conns@), g.addr@);
                &&& g.conn_count == states.len()
                &&& g.state == dominant_state(states)
                &&& g.endpoint_type == endpoint_kind(g.addr@, false)
                &&& g.latency_bucket == LatencyBucket::Unknown
            },
{
    let addrs = peer_addresses(conns);
    let mut groups: Vec<EndpointGroup> = Vec::new();
    let mut k: usize = 0;
    while k < addrs.len()
        invariant
            k <= addrs@.len(),
            groups@.len() == k,
            forall|j: int| 0 <= j < k ==> (#[trigger] groups@[j]).addr@ == addrs@[j]@,
            forall|j: int|
                0 <= j < k ==> {
                    let g = #[trigger] groups@[j];
                    let states = peer_states(conns_view(conns@), g.addr@);
                    &&& g.conn_count == states.len()
                    &&& g.state == dominant_state(states)
                    &&& g.endpoint_type == endpoint_kind(g.addr@, false)
                    &&& g.latency_bucket == LatencyBucket::Unknown
                },
        decreases addrs@.len() - k,
    {
        let addr = &addrs[k];
        let states = states_towards(conns, addr);
        let state = dominant(&states);
        let endpoint_type = classify_endpoint(addr.as_str(), false);
        let latency_bucket = classify_latency(None, latency);
        groups.push(
            EndpointGroup {
                addr: addr.clone(),
                conn_count: states.len(),
                state,
                endpoint_type,
                latency_bucket,
            },
        );
        k = k + 1;
    }
    assert(groups@.map_values(|g: EndpointGroup| g.addr@) =~= addrs@.map_values(|a: String| a@));
    let listen_count = count_listen(conns);
    EndpointSummary { groups, listen_count }
}

/// The connections among `s` owned by process `pid`, in order.
pub open spec fn owned_by(s: Seq<ConnectionView>, pid: i32) -> Seq<ConnectionView>
    decreases s.len(),
{
    if s.len() == 0 {
        Seq::empty()
    } else {
        owned_by(s.drop_last(), pid) + if s.last().pid == Some(pid) {
            seq![s.last()]
        } else {
            Seq::empty()
        }
    }
}

/// The connections owned by process `pid`, in order.
pub fn process_connections(conns: &Vec<Connection>, pid: i32) -> (r: Vec<Connection>)
    ensures
        conns_view(r@) == owned_by(conns_view(conns@), pid),
{
    let mut out: Vec<Connection> = Vec::new();
    let mut i: usize = 0;
    while i < conns.len()
        invariant
            i <= conns@.len(),
            conns_view(out@) == owned_by(conns_view(conns@.subrange(0, i as int)), pid),
        decreases conns@.len() - i,
    {
        let ghost pre = conns_view(conns@.subrange(0, i as int));
        let ghost cur = conns_view(conns@.subrange(0, i + 1));
        assert(cur.drop_last() =~= pre);
        let ghost before = out@;
        if conns[i].pid == Some(pid) {
            out.push(conns[i].duplicate());
            assert(conns_view(out@) =~= conns_view(before).push(conns@[i as int]@));
        }
        i = i + 1;
    }
    assert(conns@.subrange(0, i as int) =~= conns@);
    out
}

/// The label at the centre of the map: in process mode with a process
/// selected, the name on its first named connection (`unknown` when none
/// has one), cut to five characters and `...` when longer than eight,
/// followed by the process id in parentheses; otherwise `HOST`.
pub open spec fn center_label_text(mode: GraveyardMode, pid: Option<i32>, s: Seq<ConnectionView>) -> Seq<char> {
    match (mode, pid) {
        (GraveyardMode::Process, Some(p)) => {
            let name = match first_name(owned_by(s, p)) {
                Some(n) => n,
                None => "unknown"@,
            };
            shortened(name, 8, 5) + " ("@ + signed_text(p as int) + ")"@
        },
        _ => "HOST"@,
    }
}

/// The label drawn at the centre of the map.
pub fn center_label(mode: GraveyardMode, pid: Option<i32>, conns: &Vec<Connection>) -> (r: String)
    ensures
        r@ == center_label_text(mode, pid, conns_view(conns@)),
{
    match (mode, pid) {
        (GraveyardMode::Process, Some(p)) => {
            let owned = process_connections(conns, p);
            let name = match first_process_name(&owned) {
                Some(n) => n,
                None => String::from_str("unknown"),
            };
            let mut out = shorten_text(name.as_str(), 8, 5);
            out.append(" (");
            push_signed(&mut out, p);
            out.append(")");
            proof {
                reveal_strlit(" (");
                reveal_strlit(")");
            }
            out
        },
        _ => String::from_str("HOST"),
    }
}

/// Most endpoints drawn on the map.
pub const MAX_VISIBLE_ENDPOINTS: usize = 8;

/// Labels longer than this are shortened.
pub const MAX_LABEL_CHARS: usize = 15;

/// Endpoint `i` is drawn before endpoint `j`: it has more connections, or as
/// many and was seen first.
pub open spec fn ranked_before(counts: Seq<usize>, i: int, j: int) -> bool {
    counts[i] > counts[j] || (counts[i] == counts[j] && i < j)
}

/// `r` lists, in drawing order, the `min(max, n)` endpoints that come first
/// by connection count, ties going to the endpoint seen first.
pub open spec fn is_ranking(counts: Seq<usize>, max: nat, r: Seq<usize>) -> bool {
    &&& r.len() == if counts.len() < max {
        counts.len()
    } else {
        max
    }
    &&& forall|k: int| 0 <= k < r.len() ==> (#[trigger] r[k]) < counts.len()
    &&& forall|k: int, l: int| 0 <= k < l < r.len() ==> #[trigger] ranked_before(counts, r[k] as int, r[l] as int)
    &&& forall|j: int, k: int|
        0 <= j < counts.len() && !r.contains(j as usize) && 0 <= k < r.len() ==> #[trigger] ranked_before(
            counts,
            r[k] as int,
            j,
        )
}

fn contains_index(v: &Vec<usize>, x: usize) -> (r: bool)
    ensures
        r == v@.contains(x),
{
    let mut i: usize = 0;
    while i < v.len()
        invariant
            i <= v@.len(),
            forall|k: int| 0 <= k < i ==> v@[k] != x,
        decreases v@.len() - i,
    {
        if v[i] == x {
            return true;
        }
        i = i + 1;
    }
    false
}

/// Indices of the endpoints to draw, in drawing order: at most `max`, by
/// connection count from most to fewest, ties in order of first appearance.
pub fn rank_endpoints(counts: &Vec<usize>, max: usize) -> (r: Vec<usize>)
    ensures
        is_ranking(counts@, max as nat, r@),
{
    let n = counts.len();
    let target = if n < max {
        n
    } else {
        max
    };
    let mut r: Vec<usize> = Vec::new();
    while r.len() < target
        invariant
            n == counts@.len(),
            target == if n < max {
                n
            } else {
                max
            },
            r@.len() <= target,
            forall|k: int| 0 <= k < r@.len() ==> (#[trigger] r@[k]) < n,
            forall|k: int, l: int|
                0 <= k < l < r@.len() ==> #[trigger] ranked_before(counts@, r@[k] as int, r@[l] as int),
            forall|j: int, k: int|
                0 <= j < n && !r@.contains(j as usize) && 0 <= k < r@.len() ==> #[trigger] ranked_before(
                    counts@,
                    r@[k] as int,
                    j,
                ),
        decreases target - r@.len(),
    {
        // Pick the first endpoint with the most connections among those not drawn yet.
        let mut best: usize = n;
        let mut i: usize = 0;
        while i < n
            invariant
                n == counts@.len(),
                i <= n,
                best == n || (best < i && !r@.contains(best)),
                best < n ==> forall|j: int|
                    0 <= j < i && !r@.contains(j as usize) && j != best ==> #[trigger] ranked_before(
                        counts@,
                        best as int,
                        j,
                    ),
                best == n ==> forall|j: usize| j < i ==> #[trigger] r@.contains(j),
            decreases n - i,
        {
            let ghost old_best = best;
            if !contains_index(&r, i) {
                if best == n || counts[i] > counts[best] {
                    best = i;
                }
            }
            proof {
                if best < n {
                    assert forall|j: int|
                        0 <= j < i + 1 && !r@.contains(j as usize) && j != best implies #[trigger] ranked_before(
                        counts@,
                        best as int,
                        j,
                    ) by {
                        if j < i && old_best < n && j != old_best {
                            assert(ranked_before(counts@, old_best as int, j));
                        }
                        if j < i && old_best == n {
                            assert(r@.contains(j as usize));
                        }
                    }
                }
            }
            i = i + 1;
        }
        if best == n {
            proof {
                lemma_all_drawn(r@, n as nat, counts@);
            }
        }
        let ghost old_r = r@;
        r.push(best);
        assert forall|j: int, k: int|
            0 <= j < n && !r@.contains(j as usize) && 0 <= k < r@.len() implies #[trigger] ranked_before(
            counts@,
            r@[k] as int,
            j,
        ) by {
            if k < old_r.len() {
                assert(old_r[k] == r@[k]);
                if old_r.contains(j as usize) {
                    let m = choose|m: int| 0 <= m < old_r.len() && old_r[m] == j as usize;
                    assert(r@[m] == j as usize);
                }
            } else {
                assert(r@[old_r.len() as int] == best);
                assert(r@.contains(best));
                assert(j != best);
                if old_r.contains(j as usize) {
                    let m = choose|m: int| 0 <= m < old_r.len() && old_r[m] == j as usize;
                    assert(r@[m] == j as usize);
                }
            }
        }
        assert forall|k: int, l: int|
            0 <= k < l < r@.len() implies #[trigger] ranked_before(counts@, r@[k] as int, r@[l] as int) by {
            if l < old_r.len() {
                assert(old_r[k] == r@[k] && old_r[l] == r@[l]);
            } else {
                assert(old_r[k] == r@[k]);
            }
        }
    }
    r
}

/// Drawn indices that cover all `n` endpoints are at least `n` in number.
proof fn lemma_all_drawn(r: Seq<usize>, n: nat, counts: Seq<usize>)
    requires
        n == counts.len(),
        n <= usize::MAX,
        forall|k: int| 0 <= k < r.len() ==> (#[trigger] r[k]) < n,
        forall|j: usize| j < n ==> #[trigger] r.contains(j),
    ensures
        r.len() >= n,
{
    broadcast use vstd::seq_lib::seq_to_set_is_finite;
    let s = Set::new(|j: usize| j < n);
    let rs = r.to_set();
    assert(s.subset_of(rs)) by {
        assert forall|j: usize| s.contains(j) implies rs.contains(j) by {
        }
    }
    lemma_index_set_len(n);
    r.lemma_cardinality_of_set();
    vstd::set_lib::lemma_len_subset(s, rs);
}

proof fn lemma_index_set_len(n: nat)
    requires
        n <= usize::MAX,
    ensures
        Set::new(|j: usize| j < n).finite(),
        Set::new(|j: usize| j < n).len() == n,
    decreases n,
{
    if n == 0 {
        assert(Set::new(|j: usize| j < n) =~= Set::<usize>::empty());
    } else {
        let m = (n - 1) as nat;
        lemma_index_set_len(m);
        let smaller = Set::new(|j: usize| j < m);
        assert(!smaller.contains(m as usize));
        assert(Set::new(|j: usize| j < n) =~= smaller.insert(m as usize));
    }
}

/// The label of an endpoint: its address, shortened to twelve characters and
/// `...` when longer than fifteen.
pub open spec fn endpoint_label_text(addr: Seq<char>) -> Seq<char> {
    shortened(addr, MAX_LABEL_CHARS as nat, 12)
}

/// The label shown next to an endpoint.
pub fn endpoint_label(addr: &str) -> (r: String)
    ensures
        r@ == endpoint_label_text(addr@),
{
    shorten_text(addr, MAX_LABEL_CHARS, 12)
}

} // verus!
