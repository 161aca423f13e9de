//! Per-socket details shown for a selected target.

use crate::config::GraveyardMode;
use crate::net::{Connection, ConnectionState, ConnectionView};
use crate::session::{count_where, is_established, is_listening};
use crate::text::{push_radix, push_signed, radix_text, same_text, shorten_text, shortened, signed_text};
use crate::topology::{conns_view, owned_by, process_connections};
use vstd::prelude::*;
use vstd::string::StringExecFns;

verus! {

broadcast use vstd::string::group_string_axioms;

/// Ports above this one are ephemeral.
pub const HIGH_PORT_FLOOR: u16 = 49152;

/// Ports up to this one are well-known.
pub const WELL_KNOWN_PORT_CEILING: u16 = 1024;

/// Service ports that are not remarkable as a remote port.
pub open spec fn standard_ports() -> Seq<u16> {
    seq![80u16, 443, 22, 21, 25, 53, 110, 143, 993, 995, 3306, 5432, 6379, 27017]
}

/// One socket as listed for a target.
#[derive(Debug, Clone)]
pub struct SocketInfo {
    /// The local end, as `tcp://address:port`.
    pub display: String,
    /// The remote end as `address:port`, if the socket has a peer.
    pub remote: Option<String>,
    pub state: ConnectionState,
}

/// `addr:port`.
pub open spec fn endpoint_text(addr: Seq<char>, port: u16) -> Seq<char> {
    addr + ":"@ + radix_text(port as nat, 10)
}

/// The local end of a connection as listed.
pub open spec fn socket_display(c: ConnectionView) -> Seq<char> {
    "tcp://"@ + endpoint_text(c.local_addr, c.local_port)
}

/// The remote end of a connection as listed: none for a listening socket or
/// one towards the wildcard address.
pub open spec fn socket_remote(c: ConnectionView) -> Option<Seq<char>> {
    if c.state == ConnectionState::Listen || c.remote_addr == "0.0.0.0"@ {
        None
    } else {
        Some(endpoint_text(c.remote_addr, c.remote_port))
    }
}

fn push_endpoint(out: &mut String, addr: &String, port: u16)
    ensures
        final(out)@ == old(out)@ + endpoint_text(addr@, port),
{
    out.append(addr.as_str());
    out.append(":");
    proof {
        reveal_strlit(":");
    }
    push_radix(out, port as u64, 10);
    assert(out@ =~= old(out)@ + endpoint_text(addr@, port));
}

/// The listing of one connection.
pub fn connection_to_socket_info(conn: &Connection) -> (r: SocketInfo)
    ensures
        r.display@ == socket_display(conn@),
        r.state == conn.state,
        match socket_remote(conn@) {
            Some(t) => r.remote is Some && r.remote->0@ == t,
            None => r.remote is None,
        },
{
    let mut display = String::from_str("tcp://");
    push_endpoint(&mut display, &conn.local_addr, conn.local_port);
    proof {
        reveal_strlit("tcp://");
    }
    assert(display@ =~= socket_display(conn@));
    let remote = if conn.state == ConnectionState::Listen || same_text(
        conn.remote_addr.as_str(),
        "0.0.0.0",
    ) {
        None
    } else {
        let mut t = String::new();
        push_endpoint(&mut t, &conn.remote_addr, conn.remote_port);
        assert(t@ =~= endpoint_text(conn.remote_addr@, conn.remote_port));
        Some(t)
    };
    SocketInfo { display, remote, state: conn.state }
}

/// Both ends use ephemeral ports.
pub open spec fn high_port_pair(c: ConnectionView) -> bool {
    c.remote_port > HIGH_PORT_FLOOR && c.local_port > HIGH_PORT_FLOOR
}

/// An established connection to a registered, non-service remote port.
pub open spec fn non_standard_remote(c: ConnectionView) -> bool {
    c.state == ConnectionState::Established && !standard_ports().contains(c.remote_port)
        && c.remote_port > WELL_KNOWN_PORT_CEILING
}

/// Tags that a connection's ports earn.
pub open spec fn pattern_tags(c: ConnectionView) -> Seq<Seq<char>> {
    (if high_port_pair(c) {
        seq!["high-port"@]
    } else {
        Seq::empty()
    }) + (if non_standard_remote(c) {
        seq!["non-standard"@]
    } else {
        Seq::empty()
    })
}

/// Whether a connection's ports look unusual: whether it is suspicious (both
/// ends ephemeral), and the tags it earns.
pub fn check_suspicious_patterns(conn: &Connection) -> (r: (bool, Vec<String>))
    ensures
        r.0 == high_port_pair(conn@),
        r.1@.map_values(|t: String| t@) == pattern_tags(conn@),
{
    let mut tags: Vec<String> = Vec::new();
    let high = conn.remote_port > HIGH_PORT_FLOOR && conn.local_port > HIGH_PORT_FLOOR;
    if high {
        tags.push(String::from_str("high-port"));
    }
    let standard: [u16; 14] = [80, 443, 22, 21, 25, 53, 110, 143, 993, 995, 3306, 5432, 6379, 27017];
    assert(standard@ =~= standard_ports());
    let mut is_standard = false;
    let mut i: usize = 0;
    while i < 14
        invariant
            i <= 14,
            standard@ == standard_ports(),
            is_standard <==> exists|k: int| 0 <= k < i && standard@[k] == conn.remote_port,
        decreases 14 - i,
    {
        if standard[i] == conn.remote_port {
            is_standard = true;
        }
        i = i + 1;
    }
    if conn.state == ConnectionState::Established && !is_standard && conn.remote_port
        > WELL_KNOWN_PORT_CEILING {
        tags.push(String::from_str("non-standard"));
    }
    assert(tags@.map_values(|t: String| t@) =~= pattern_tags(conn@));
    (high, tags)
}

// ---------------------------------------------------------------------------
// The details panel
// ---------------------------------------------------------------------------

/// Sockets listed for a target, at most.
pub const MAX_LISTED_SOCKETS: usize = 5;

/// How a state reads at a glance; the display picks a colour for each.
#[derive(Debug, Clone, Copy, PartialEq, Eq, Structural)]
pub enum Tone {
    Healthy,
    Caution,
    Danger,
    Neutral,
}

/// Icon, wording and tone of each connection state.
pub open spec fn state_display_spec(state: ConnectionState) -> (Seq<char>, Seq<char>, Tone) {
    match state {
        ConnectionState::Established => ("🟢"@, "ESTABLISHED (Alive)"@, Tone::Healthy),
        ConnectionState::Listen => ("🟡"@, "LISTEN (Waiting)"@, Tone::Caution),
        ConnectionState::TimeWait => ("🟠"@, "TIME_WAIT (Closing)"@, Tone::Caution),
        ConnectionState::CloseWait => ("🟠"@, "CLOSE_WAIT (Stale)"@, Tone::Caution),
        ConnectionState::Close => ("🔴"@, "CLOSED (Dead)"@, Tone::Danger),
        ConnectionState::SynSent => ("🟡"@, "SYN_SENT (Connecting)"@, Tone::Caution),
        ConnectionState::SynRecv => ("🟡"@, "SYN_RECV (Handshake)"@, Tone::Caution),
        ConnectionState::FinWait1 | ConnectionState::FinWait2 => ("🟠"@, "FIN_WAIT (Closing)"@, Tone::Caution),
        ConnectionState::LastAck => ("🟠"@, "LAST_ACK (Closing)"@, Tone::Caution),
        ConnectionState::Closing => ("🟠"@, "CLOSING"@, Tone::Caution),
        ConnectionState::Unknown => ("⚪"@, "UNKNOWN"@, Tone::Neutral),
    }
}

/// Icon, wording and tone of a connection state.
pub fn connection_state_display(state: ConnectionState) -> (r: (&'static str, &'static str, Tone))
    ensures
        (r.0@, r.1@, r.2) == state_display_spec(state),
{
    match state {
        ConnectionState::Established => ("🟢", "ESTABLISHED (Alive)", Tone::Healthy),
        ConnectionState::Listen => ("🟡", "LISTEN (Waiting)", Tone::Caution),
        ConnectionState::TimeWait => ("🟠", "TIME_WAIT (Closing)", Tone::Caution),
        ConnectionState::CloseWait => ("🟠", "CLOSE_WAIT (Stale)", Tone::Caution),
        ConnectionState::Close => ("🔴", "CLOSED (Dead)", Tone::Danger),
        ConnectionState::SynSent => ("🟡", "SYN_SENT (Connecting)", Tone::Caution),
        ConnectionState::SynRecv => ("🟡", "SYN_RECV (Handshake)", Tone::Caution),
        ConnectionState::FinWait1 | ConnectionState::FinWait2 => ("🟠", "FIN_WAIT (Closing)", Tone::Caution),
        ConnectionState::LastAck => ("🟠", "LAST_ACK (Closing)", Tone::Caution),
        ConnectionState::Closing => ("🟠", "CLOSING", Tone::Caution),
        ConnectionState::Unknown => ("⚪", "UNKNOWN", Tone::Neutral),
    }
}

/// What the details panel shows about the selected target.
#[derive(Debug, Clone)]
pub struct SoulInspectorView {
    /// Process name, connection endpoint, or `HOST`.
    pub target_name: String,
    pub target_icon: String,
    pub pid: Option<i32>,
    /// Not known from the socket table; kept for display.
    pub ppid: Option<i32>,
    /// Not known from the socket table; kept for display.
    pub user: Option<String>,
    pub state_icon: String,
    pub state_text: String,
    pub tone: Tone,
    /// UI refresh interval in milliseconds.
    pub refresh_ms: u64,
    pub conn_count: usize,
    pub sockets: Vec<SocketInfo>,
    pub suspicious: bool,
    pub tags: Vec<String>,
    pub has_selection: bool,
}

pub open spec fn tags_view(v: Seq<String>) -> Seq<Seq<char>> {
    v.map_values(|t: String| t@)
}

/// The listed sockets are the listings of `cs`, in order.
pub open spec fn lists(sockets: Seq<SocketInfo>, cs: Seq<ConnectionView>) -> bool {
    &&& sockets.len() == cs.len()
    &&& forall|k: int|
        0 <= k < cs.len() ==> {
            let si = #[trigger] sockets[k];
            &&& si.display@ == socket_display(cs[k])
            &&& si.state == cs[k].state
            &&& match socket_remote(cs[k]) {
                Some(t) => si.remote is Some && si.remote->0@ == t,
                None => si.remote is None,
            }
        }
}

/// The first `MAX_LISTED_SOCKETS` of `cs`.
pub open spec fn first_listed(cs: Seq<ConnectionView>) -> Seq<ConnectionView> {
    if cs.len() <= MAX_LISTED_SOCKETS {
        cs
    } else {
        cs.take(MAX_LISTED_SOCKETS as int)
    }
}

pub open spec fn is_problematic(st: ConnectionState) -> bool {
    st == ConnectionState::CloseWait || st == ConnectionState::TimeWait || st
        == ConnectionState::Close
}

pub open spec fn established_count(s: Seq<ConnectionView>) -> nat {
    count_where(s, |st| is_established(st))
}

pub open spec fn listening_count(s: Seq<ConnectionView>) -> nat {
    count_where(s, |st| is_listening(st))
}

pub open spec fn problematic_count(s: Seq<ConnectionView>) -> nat {
    count_where(s, |st| is_problematic(st))
}

/// The state line of the host overview.
pub open spec fn host_state(s: Seq<ConnectionView>) -> (Seq<char>, Seq<char>, Tone) {
    let e = established_count(s);
    let l = listening_count(s);
    if s.len() == 0 {
        ("⚪"@, "No connections"@, Tone::Neutral)
    } else if e > 0 {
        ("🟢"@, radix_text(e, 10) + " active, "@ + radix_text(l, 10) + " listening"@, Tone::Healthy)
    } else if l > 0 {
        ("🟡"@, radix_text(l, 10) + " listening"@, Tone::Caution)
    } else {
        ("🟠"@, radix_text((s.len() - e - l) as nat, 10) + " other states"@, Tone::Caution)
    }
}

/// The tags of the host overview.
pub open spec fn host_tags(s: Seq<ConnectionView>) -> Seq<Seq<char>> {
    let e = established_count(s);
    let l = listening_count(s);
    (if l > 0 {
        seq!["server ("@ + radix_text(l, 10) + ")"@]
    } else {
        Seq::empty()
    }) + (if e > 0 {
        seq!["client ("@ + radix_text(e, 10) + ")"@]
    } else {
        Seq::empty()
    })
}

/// The state line of a process's view.
pub open spec fn process_state(s: Seq<ConnectionView>) -> (Seq<char>, Seq<char>, Tone) {
    let e = established_count(s);
    let l = listening_count(s);
    let p = problematic_count(s);
    if s.len() == 0 {
        ("⚪"@, "No connections"@, Tone::Neutral)
    } else if p > 0 {
        ("🟠"@, radix_text(p, 10) + " problematic"@, Tone::Caution)
    } else if e > 0 {
        ("🟢"@, radix_text(e, 10) + " established"@, Tone::Healthy)
    } else if l > 0 {
        ("🟡"@, radix_text(l, 10) + " listening"@, Tone::Caution)
    } else {
        ("⚪"@, "Idle"@, Tone::Neutral)
    }
}

/// The name of the first connection among `s` that carries one.
pub open spec fn first_name(s: Seq<ConnectionView>) -> Option<Seq<char>>
    decreases s.len(),
{
    if s.len() == 0 {
        None
    } else if s[0].process_name is Some {
        s[0].process_name
    } else {
        first_name(s.drop_first())
    }
}

/// A process's name as its view shows it: from its first named connection,
/// else `PID n`.
pub open spec fn process_label(s: Seq<ConnectionView>, pid: i32) -> Seq<char> {
    match first_name(s) {
        Some(n) => n,
        None => "PID "@ + signed_text(pid as int),
    }
}

/// Number of connections among `s` towards the remote address `a`.
pub open spec fn same_remote_count(s: Seq<ConnectionView>, a: Seq<char>) -> nat
    decreases s.len(),
{
    if s.len() == 0 {
        0
    } else {
        same_remote_count(s.drop_last(), a) + if s.last().remote_addr == a {
            1nat
        } else {
            0nat
        }
    }
}

/// The view in process mode with no process selected: the idle view under
/// another title.
pub open spec fn unselected_process_view_ok(v: SoulInspectorView, refresh_ms: u64) -> bool {
    &&& v.target_name@ == "No process selected"@
    &&& v.target_icon@ == "❓"@
    &&& v.pid is None && v.ppid is None && v.user is None
    &&& v.state_icon@ == "⚪"@ && v.state_text@ == "Idle"@ && v.tone == Tone::Neutral
    &&& v.refresh_ms == refresh_ms
    &&& v.conn_count == 0 && v.sockets@.len() == 0 && !v.suspicious && v.tags@.len() == 0
    &&& !v.has_selection
}

/// The view with nothing selected.
pub open spec fn idle_view_ok(v: SoulInspectorView, refresh_ms: u64) -> bool {
    &&& v.target_name@ == "No target selected"@
    &&& v.target_icon@ == "👻"@
    &&& v.pid is None && v.ppid is None && v.user is None
    &&& v.state_icon@ == "⚪"@ && v.state_text@ == "Idle"@ && v.tone == Tone::Neutral
    &&& v.refresh_ms == refresh_ms
    &&& v.conn_count == 0 && v.sockets@.len() == 0 && !v.suspicious && v.tags@.len() == 0
    &&& !v.has_selection
}

fn text(s: &str) -> (r: String)
    ensures
        r@ == s@,
{
    String::from_str(s)
}

fn idle_view(refresh_ms: u64) -> (r: SoulInspectorView)
    ensures
        idle_view_ok(r, refresh_ms),
{
    SoulInspectorView {
        target_name: text("No target selected"),
        target_icon: text("👻"),
        pid: None,
        ppid: None,
        user: None,
        state_icon: text("⚪"),
        state_text: text("Idle"),
        tone: Tone::Neutral,
        refresh_ms,
        conn_count: 0,
        sockets: Vec::new(),
        suspicious: false,
        tags: Vec::new(),
        has_selection: false,
    }
}

/// Counts of established, listening and problematic connections.
fn state_counts(conns: &Vec<Connection>) -> (r: (usize, usize, usize))
    ensures
        r.0 == established_count(conns_view(conns@)),
        r.1 == listening_count(conns_view(conns@)),
        r.2 == problematic_count(conns_view(conns@)),
        r.0 + r.1 <= conns@.len(),
{
    let mut e: usize = 0;
    let mut l: usize = 0;
    let mut p: usize = 0;
    let mut i: usize = 0;
    while i < conns.len()
        invariant
            i <= conns@.len(),
            e == established_count(conns_view(conns@.subrange(0, i as int))),
            l == listening_count(conns_view(conns@.subrange(0, i as int))),
            p == problematic_count(conns_view(conns@.subrange(0, i as int))),
            e + l <= i,
            p <= i,
        decreases conns@.len() - i,
    {
        let ghost pre = conns_view(conns@.subrange(0, i as int));
        let ghost cur = conns_view(conns@.subrange(0, i + 1));
        assert(cur.drop_last() =~= pre);
        let st = conns[i].state;
        if st == ConnectionState::Established {
            e = e + 1;
        }
        if st == ConnectionState::Listen {
            l = l + 1;
        }
        if st == ConnectionState::CloseWait || st == ConnectionState::TimeWait || st
            == ConnectionState::Close {
            p = p + 1;
        }
        i = i + 1;
    }
    assert(conns@.subrange(0, i as int) =~= conns@);
    (e, l, p)
}

/// Listings of the first few connections.
fn list_first(conns: &Vec<Connection>) -> (r: Vec<SocketInfo>)
    ensures
        lists(r@, first_listed(conns_view(conns@))),
{
    let n = if conns.len() < MAX_LISTED_SOCKETS {
        conns.len()
    } else {
        MAX_LISTED_SOCKETS
    };
    let ghost want = first_listed(conns_view(conns@));
    assert(want.len() == n);
    let mut out: Vec<SocketInfo> = Vec::new();
    let mut k: usize = 0;
    while k < n
        invariant
            n <= conns@.len(),
            want == first_listed(conns_view(conns@)),
            want.len() == n,
            k <= n,
            out@.len() == k,
            forall|j: int| 0 <= j < k ==> want[j] == conns@[j]@,
            lists(out@, want.take(k as int)),
        decreases n - k,
    {
        assert(want[k as int] == conns@[k as int]@);
        let info = connection_to_socket_info(&conns[k]);
        out.push(info);
        k = k + 1;
        assert(lists(out@, want.take(k as int))) by {
            assert forall|j: int| 0 <= j < k implies {
                let si = #[trigger] out@[j];
                &&& si.display@ == socket_display(want.take(k as int)[j])
                &&& si.state == want.take(k as int)[j].state
                &&& match socket_remote(want.take(k as int)[j]) {
                    Some(t) => si.remote is Some && si.remote->0@ == t,
                    None => si.remote is None,
                }
            } by {
                assert(want.take(k as int)[j] == want[j]);
                if j < k - 1 {
                    assert(want.take(k - 1)[j] == want[j]);
                }
            }
        }
    }
    assert(want.take(n as int) =~= want);
    out
}

/// The whole view that `build_host_view` returns.
pub open spec fn host_view_ok(
    r: SoulInspectorView,
    connections: Seq<Connection>,
    refresh_ms: u64,
) -> bool {
    let s = conns_view(connections);
    &&& r.target_name@ == "HOST"@ && r.target_icon@ == "🏠"@
    &&& r.has_selection
    &&& r.pid is None && r.ppid is None && r.user is None
    &&& (r.state_icon@, r.state_text@, r.tone) == host_state(s)
    &&& r.refresh_ms == refresh_ms
    &&& r.conn_count == connections.len()
    &&& lists(r.sockets@, first_listed(s))
    &&& !r.suspicious
    &&& tags_view(r.tags@) == host_tags(s)
}

/// The host overview: every connection counted, the first few listed.
pub fn build_host_view(connections: &Vec<Connection>, refresh_ms: u64) -> (r: SoulInspectorView)
    ensures
        host_view_ok(r, connections@, refresh_ms),
{
    let ghost s = conns_view(connections@);
    let (e, l, _p) = state_counts(connections);
    proof {
        reveal_strlit(" active, ");
        reveal_strlit(" listening");
        reveal_strlit(" other states");
        reveal_strlit("server (");
        reveal_strlit("client (");
        reveal_strlit(")");
    }
    let mut state_text = String::new();
    let (icon, tone) = if connections.len() == 0 {
        state_text.append("No connections");
        ("⚪", Tone::Neutral)
    } else if e > 0 {
        push_radix(&mut state_text, e as u64, 10);
        state_text.append(" active, ");
        push_radix(&mut state_text, l as u64, 10);
        state_text.append(" listening");
        ("🟢", Tone::Healthy)
    } else if l > 0 {
        push_radix(&mut state_text, l as u64, 10);
        state_text.append(" listening");
        ("🟡", Tone::Caution)
    } else {
        push_radix(&mut state_text, (connections.len() - e - l) as u64, 10);
        state_text.append(" other states");
        ("🟠", Tone::Caution)
    };
    assert((icon@, state_text@, tone) == host_state(s));
    let mut tags: Vec<String> = Vec::new();
    if l > 0 {
        let mut t = String::from_str("server (");
        push_radix(&mut t, l as u64, 10);
        t.append(")");
        tags.push(t);
    }
    if e > 0 {
        let mut t = String::from_str("client (");
        push_radix(&mut t, e as u64, 10);
        t.append(")");
        tags.push(t);
    }
    assert(tags_view(tags@) =~= host_tags(s));
    SoulInspectorView {
        target_name: text("HOST"),
        target_icon: text("🏠"),
        pid: None,
        ppid: None,
        user: None,
        state_icon: text(icon),
        state_text,
        tone,
        refresh_ms,
        conn_count: connections.len(),
        sockets: list_first(connections),
        suspicious: false,
        tags,
        has_selection: true,
    }
}

fn count_same_remote(conns: &Vec<Connection>, addr: &String) -> (r: usize)
    ensures
        r == same_remote_count(conns_view(conns@), addr@),
{
    let mut n: usize = 0;
    let mut i: usize = 0;
    while i < conns.len()
        invariant
            i <= conns@.len(),
            n <= i,
            n == same_remote_count(conns_view(conns@.subrange(0, i as int)), addr@),
        decreases conns@.len() - i,
    {
        let ghost pre = conns_view(conns@.subrange(0, i as int));
        let ghost cur = conns_view(conns@.subrange(0, i + 1));
        assert(cur.drop_last() =~= pre);
        if same_text(conns[i].remote_addr.as_str(), addr.as_str()) {
            n = n + 1;
        }
        i = i + 1;
    }
    assert(conns@.subrange(0, i as int) =~= conns@);
    n
}

/// The name shown for a selected connection: its remote end, or its local
/// end when it listens, shortened past twenty characters.
pub open spec fn connection_target(c: ConnectionView) -> Seq<char> {
    shortened(
        if c.state == ConnectionState::Listen {
            endpoint_text(c.local_addr, c.local_port)
        } else {
            endpoint_text(c.remote_addr, c.remote_port)
        },
        20,
        17,
    )
}

/// The whole view that `build_connection_view` returns.
pub open spec fn connection_view_ok(
    r: SoulInspectorView,
    conn: Connection,
    all_connections: Seq<Connection>,
    refresh_ms: u64,
) -> bool {
    let c = conn@;
    let d = state_display_spec(c.state);
    &&& r.target_name@ == connection_target(c) && r.target_icon@ == "🔗"@
    &&& r.has_selection
    &&& r.pid == c.pid && r.ppid is None && r.user is None
    &&& r.state_icon@ == d.0 && r.state_text@ == d.1 && r.tone == d.2
    &&& r.refresh_ms == refresh_ms
    &&& r.conn_count == if c.state == ConnectionState::Listen {
        1
    } else {
        same_remote_count(conns_view(all_connections), c.remote_addr)
    }
    &&& lists(r.sockets@, seq![c])
    &&& r.suspicious == high_port_pair(c)
    &&& tags_view(r.tags@) == (match c.process_name {
        Some(n) => seq![n],
        None => Seq::empty(),
    }) + pattern_tags(c)
}

/// The view of one selected connection.
pub fn build_connection_view(conn: &Connection, all_connections: &Vec<Connection>, refresh_ms: u64) -> (r: SoulInspectorView)
    ensures
        connection_view_ok(r, *conn, all_connections@, refresh_ms),
{
    let mut target = String::new();
    if conn.state == ConnectionState::Listen {
        push_endpoint(&mut target, &conn.local_addr, conn.local_port);
    } else {
        push_endpoint(&mut target, &conn.remote_addr, conn.remote_port);
    }
    let target_name = shorten_text(target.as_str(), 20, 17);
    let (icon, state_text, tone) = connection_state_display(conn.state);
    let conn_count = if conn.state != ConnectionState::Listen {
        count_same_remote(all_connections, &conn.remote_addr)
    } else {
        1
    };
    let info = connection_to_socket_info(conn);
    let mut sockets: Vec<SocketInfo> = Vec::new();
    sockets.push(info);
    let mut tags: Vec<String> = Vec::new();
    match &conn.process_name {
        Some(n) => tags.push(n.clone()),
        None => {},
    }
    let ghost before = tags_view(tags@);
    let (suspicious, mut extra) = check_suspicious_patterns(conn);
    let ghost extra_view = tags_view(extra@);
    tags.append(&mut extra);
    assert(tags_view(tags@) =~= before + extra_view);
    assert(lists(sockets@, seq![conn@]));
    assert(tags_view(tags@) == (match conn@.process_name {
        Some(n) => seq![n],
        None => Seq::empty(),
    }) + pattern_tags(conn@));
    SoulInspectorView {
        target_name,
        target_icon: text("🔗"),
        pid: conn.pid,
        ppid: None,
        user: None,
        state_icon: text(icon),
        state_text: text(state_text),
        tone,
        refresh_ms,
        conn_count,
        sockets,
        suspicious,
        tags,
        has_selection: true,
    }
}

pub(crate) fn first_process_name(conns: &Vec<Connection>) -> (r: Option<String>)
    ensures
        match first_name(conns_view(conns@)) {
            Some(n) => r is Some && r->0@ == n,
            None => r is None,
        },
{
    let mut i: usize = 0;
    assert(conns@.subrange(0, conns@.len() as int) =~= conns@);
    while i < conns.len()
        invariant
            i <= conns@.len(),
            first_name(conns_view(conns@)) == first_name(conns_view(conns@.subrange(i as int, conns@.len() as int))),
        decreases conns@.len() - i,
    {
        let ghost rest = conns_view(conns@.subrange(i as int, conns@.len() as int));
        assert(rest.drop_first() =~= conns_view(conns@.subrange(i + 1, conns@.len() as int)));
        assert(rest[0] == conns@[i as int]@);
        match &conns[i].process_name {
            Some(n) => {
                return Some(n.clone());
            },
            None => {},
        }
        i = i + 1;
    }
    assert(conns_view(conns@.subrange(i as int, conns@.len() as int)) =~= Seq::<ConnectionView>::empty());
    None
}

/// The whole view that `build_process_view` returns.
pub open spec fn process_view_ok(
    r: SoulInspectorView,
    pid: i32,
    connections: Seq<Connection>,
    refresh_ms: u64,
) -> bool {
    let s = owned_by(conns_view(connections), pid);
    let name = process_label(s, pid);
    &&& r.target_name@ == shortened(name, 15, 12) && r.target_icon@ == "⚰️"@
    &&& r.has_selection
    &&& r.pid == Some(pid) && r.ppid is None && r.user is None
    &&& (r.state_icon@, r.state_text@, r.tone) == process_state(s)
    &&& r.refresh_ms == refresh_ms
    &&& r.conn_count == s.len()
    &&& lists(r.sockets@, first_listed(s))
    &&& !r.suspicious
    &&& tags_view(r.tags@) == seq![name] + (if listening_count(s) > 0 {
        seq!["server"@]
    } else {
        Seq::empty()
    }) + (if established_count(s) > 0 {
        seq!["client"@]
    } else {
        Seq::empty()
    })
}

/// The view of one process: its connections counted and the first few
/// listed.
pub fn build_process_view(pid: i32, connections: &Vec<Connection>, refresh_ms: u64) -> (r: SoulInspectorView)
    ensures
        process_view_ok(r, pid, connections@, refresh_ms),
{
    let owned = process_connections(connections, pid);
    let ghost s = conns_view(owned@);
    let name = match first_process_name(&owned) {
        Some(n) => n,
        None => {
            let mut t = String::from_str("PID ");
            push_signed(&mut t, pid);
            proof {
                reveal_strlit("PID ");
            }
            assert(t@ =~= "PID "@ + signed_text(pid as int));
            t
        },
    };
    let target_name = shorten_text(name.as_str(), 15, 12);
    let (e, l, p) = state_counts(&owned);
    proof {
        reveal_strlit(" problematic");
        reveal_strlit(" established");
        reveal_strlit(" listening");
    }
    let mut state_text = String::new();
    let (icon, tone) = if owned.len() == 0 {
        state_text.append("No connections");
        ("⚪", Tone::Neutral)
    } else if p > 0 {
        push_radix(&mut state_text, p as u64, 10);
        state_text.append(" problematic");
        ("🟠", Tone::Caution)
    } else if e > 0 {
        push_radix(&mut state_text, e as u64, 10);
        state_text.append(" established");
        ("🟢", Tone::Healthy)
    } else if l > 0 {
        push_radix(&mut state_text, l as u64, 10);
        state_text.append(" listening");
        ("🟡", Tone::Caution)
    } else {
        state_text.append("Idle");
        ("⚪", Tone::Neutral)
    };
    assert((icon@, state_text@, tone) == process_state(s));
    let mut tags: Vec<String> = Vec::new();
    tags.push(name);
    if l > 0 {
        tags.push(text("server"));
    }
    if e > 0 {
        tags.push(text("client"));
    }
    assert(tags_view(tags@) =~= seq![process_label(s, pid)] + (if listening_count(s) > 0 {
        seq!["server"@]
    } else {
        Seq::empty()
    }) + (if established_count(s) > 0 {
        seq!["client"@]
    } else {
        Seq::empty()
    }));
    SoulInspectorView {
        target_name,
        target_icon: text("⚰️"),
        pid: Some(pid),
        ppid: None,
        user: None,
        state_icon: text(icon),
        state_text,
        tone,
        refresh_ms,
        conn_count: owned.len(),
        sockets: list_first(&owned),
        suspicious: false,
        tags,
        has_selection: true,
    }
}

/// The details panel for the current focus: in host mode the selected
/// connection, or the host overview when none is selected; in process mode
/// the selected process.
pub fn build_soul_inspector_view(
    mode: GraveyardMode,
    selected_connection: Option<usize>,
    selected_process_pid: Option<i32>,
    connections: &Vec<Connection>,
    refresh_ms: u64,
) -> (r: SoulInspectorView)
    ensures
        r.refresh_ms == refresh_ms,
        mode == GraveyardMode::Host && selected_connection is None ==> host_view_ok(
            r,
            connections@,
            refresh_ms,
        ),
        mode == GraveyardMode::Host && selected_connection is Some && selected_connection->0
            < connections@.len() ==> connection_view_ok(
            r,
            connections@[selected_connection->0 as int],
            connections@,
            refresh_ms,
        ),
        mode == GraveyardMode::Host && selected_connection is Some && selected_connection->0
            >= connections@.len() ==> idle_view_ok(r, refresh_ms),
        mode == GraveyardMode::Process && selected_process_pid is Some ==> process_view_ok(
            r,
            selected_process_pid->0,
            connections@,
            refresh_ms,
        ),
        mode == GraveyardMode::Process && selected_process_pid is None
            ==> unselected_process_view_ok(r, refresh_ms),
{
    match mode {
        GraveyardMode::Host => match selected_connection {
            Some(i) => {
                if i < connections.len() {
                    build_connection_view(&connections[i], connections, refresh_ms)
                } else {
                    idle_view(refresh_ms)
                }
            },
            None => build_host_view(connections, refresh_ms),
        },
        GraveyardMode::Process => match selected_process_pid {
            Some(pid) => build_process_view(pid, connections, refresh_ms),
            None => {
                let mut v = idle_view(refresh_ms);
                v.target_name = text("No process selected");
                v.target_icon = text("❓");
                v
            },
        },
    }
}

} // verus!
