//! The kernel's textual TCP tables: rows of hex-encoded little-endian
//! `address:port` pairs with a socket inode, and their matching to
//! connections.

use crate::net::{Connection, ConnectionView};
use crate::text::{
    chars_of, field_ranges, fields, parse_unsigned, parse_unsigned_range, pieces, push_radix,
    radix_text, ranges_within, split_char, split_ranges,
};
use vstd::prelude::*;
use vstd::string::StringExecFns;

verus! {

broadcast use vstd::string::group_string_axioms;

/// One row of a TCP table: the socket's endpoints and its inode.
#[derive(Debug, Clone)]
pub struct SocketInode {
    pub local_addr: String,
    pub local_port: u16,
    pub remote_addr: String,
    pub remote_port: u16,
    pub inode: u64,
}

/// A row as mathematical values.
pub struct RowView {
    pub local_addr: Seq<char>,
    pub local_port: u16,
    pub remote_addr: Seq<char>,
    pub remote_port: u16,
    pub inode: u64,
}

impl View for SocketInode {
    type V = RowView;

    open spec fn view(&self) -> RowView {
        RowView {
            local_addr: self.local_addr@,
            local_port: self.local_port,
            remote_addr: self.remote_addr@,
            remote_port: self.remote_port,
            inode: self.inode,
        }
    }
}

// ---------------------------------------------------------------------------
// Address text
// ---------------------------------------------------------------------------

/// Four octets in dotted-decimal form.
pub open spec fn dotted(a: nat, b: nat, c: nat, d: nat) -> Seq<char> {
    radix_text(a, 10) + "."@ + radix_text(b, 10) + "."@ + radix_text(c, 10) + "."@ + radix_text(
        d,
        10,
    )
}

/// Octet `j` (0 for the least significant) of `w`.
pub open spec fn octet(w: nat, j: nat) -> nat {
    if j == 0 {
        w % 256
    } else if j == 1 {
        (w / 256) % 256
    } else if j == 2 {
        (w / 65536) % 256
    } else {
        (w / 16777216) % 256
    }
}

/// Eight hex digits read as a 32-bit word, or zero where they do not read.
pub open spec fn hex_word(hex: Seq<char>) -> nat {
    match parse_unsigned(hex, 16, u32::MAX as nat) {
        Some(v) => v,
        None => 0,
    }
}

/// The eight 16-bit segments of an IPv6 address given as four little-endian
/// 32-bit words in hex.
pub open spec fn ipv6_segments(hex: Seq<char>) -> Seq<nat> {
    Seq::new(
        8,
        |k: int|
            {
                let w = hex_word(hex.subrange(8 * (k / 2), 8 * (k / 2) + 8));
                if k % 2 == 0 {
                    octet(w, 0) * 256 + octet(w, 1)
                } else {
                    octet(w, 2) * 256 + octet(w, 3)
                }
            },
    )
}

/// Length of the run of zero segments that starts at `i`.
pub open spec fn zero_run(segs: Seq<nat>, i: int) -> nat
    decreases segs.len() - i,
{
    if i < 0 || i >= segs.len() || segs[i] != 0 {
        0
    } else {
        1 + zero_run(segs, i + 1)
    }
}

/// Start and length of the first longest run of zero segments among runs
/// starting before `n`.
pub open spec fn longest_zero_run(segs: Seq<nat>, n: nat) -> (nat, nat)
    decreases n,
{
    if n == 0 {
        (0, 0)
    } else {
        let best = longest_zero_run(segs, (n - 1) as nat);
        let r = zero_run(segs, n - 1);
        if r > best.1 {
            ((n - 1) as nat, r)
        } else {
            best
        }
    }
}

/// Segments in lowercase hex, separated by colons.
pub open spec fn colon_hex(segs: Seq<nat>) -> Seq<char>
    decreases segs.len(),
{
    if segs.len() == 0 {
        Seq::empty()
    } else if segs.len() == 1 {
        radix_text(segs[0], 16)
    } else {
        colon_hex(segs.drop_last()) + ":"@ + radix_text(segs.last(), 16)
    }
}

/// An IPv6 address as `Ipv6Addr`'s `Display` writes it: an IPv4-mapped
/// address as `::ffff:` and a dotted quad; otherwise the first longest run
/// of two or more zero segments written as `::`.
pub open spec fn ipv6_text(segs: Seq<nat>) -> Seq<char> {
    if segs[0] == 0 && segs[1] == 0 && segs[2] == 0 && segs[3] == 0 && segs[4] == 0 && segs[5]
        == 0xffff {
        "::ffff:"@ + dotted(segs[6] / 256, segs[6] % 256, segs[7] / 256, segs[7] % 256)
    } else {
        let z = longest_zero_run(segs, 8);
        if z.1 > 1 {
            colon_hex(segs.subrange(0, z.0 as int)) + "::"@ + colon_hex(
                segs.subrange((z.0 + z.1) as int, 8),
            )
        } else {
            colon_hex(segs)
        }
    }
}

/// Address text of a hex-encoded table address: eight hex digits for IPv4
/// (a little-endian word), thirty-two for IPv6 (four little-endian words).
/// Text of another length, or IPv4 digits that do not read, gives the
/// unspecified address.
pub open spec fn hex_addr_text(hex: Seq<char>, is_ipv6: bool) -> Seq<char> {
    if is_ipv6 {
        if hex.len() != 32 {
            "::"@
        } else {
            ipv6_text(ipv6_segments(hex))
        }
    } else {
        if hex.len() != 8 {
            "0.0.0.0"@
        } else {
            match parse_unsigned(hex, 16, u32::MAX as nat) {
                Some(v) => dotted(octet(v, 0), octet(v, 1), octet(v, 2), octet(v, 3)),
                None => "0.0.0.0"@,
            }
        }
    }
}

fn push_dotted(out: &mut String, a: u64, b: u64, c: u64, d: u64)
    ensures
        final(out)@ == old(out)@ + dotted(a as nat, b as nat, c as nat, d as nat),
{
    proof {
        reveal_strlit(".");
    }
    push_radix(out, a, 10);
    out.append(".");
    push_radix(out, b, 10);
    out.append(".");
    push_radix(out, c, 10);
    out.append(".");
    push_radix(out, d, 10);
    assert(out@ =~= old(out)@ + dotted(a as nat, b as nat, c as nat, d as nat));
}

fn push_colon_hex(out: &mut String, segs: &Vec<u64>, lo: usize, hi: usize)
    requires
        lo <= hi <= segs@.len(),
    ensures
        final(out)@ == old(out)@ + colon_hex(
            segs@.subrange(lo as int, hi as int).map_values(|x: u64| x as nat),
        ),
{
    let mut i: usize = lo;
    assert(segs@.subrange(lo as int, lo as int).map_values(|x: u64| x as nat) =~= Seq::<
        nat,
    >::empty());
    assert(out@ =~= old(out)@ + colon_hex(Seq::<nat>::empty()));
    while i < hi
        invariant
            lo <= i <= hi <= segs@.len(),
            out@ == old(out)@ + colon_hex(
                segs@.subrange(lo as int, i as int).map_values(|x: u64| x as nat),
            ),
        decreases hi - i,
    {
        let ghost before = out@;
        let ghost prev = segs@.subrange(lo as int, i as int).map_values(|x: u64| x as nat);
        let ghost next = segs@.subrange(lo as int, i + 1).map_values(|x: u64| x as nat);
        assert(next.drop_last() =~= prev);
        assert(next.last() == segs@[i as int] as nat);
        if i > lo {
            proof {
                reveal_strlit(":");
            }
            out.append(":");
        }
        push_radix(out, segs[i], 16);
        if i == lo {
            assert(next =~= seq![segs@[i as int] as nat]);
        }
        assert(out@ =~= old(out)@ + colon_hex(next));
        i = i + 1;
    }
}

proof fn lemma_zero_run_span(s: Seq<nat>, i: int, j: int)
    requires
        0 <= i <= j <= s.len(),
        forall|k: int| i <= k < j ==> s[k] == 0,
        j == s.len() || s[j] != 0,
    ensures
        zero_run(s, i) == j - i,
    decreases j - i,
{
    if i < j {
        lemma_zero_run_span(s, i + 1, j);
    }
}

fn zero_run_at(segs: &Vec<u64>, i: usize) -> (r: usize)
    requires
        i <= segs@.len() <= 8,
    ensures
        r == zero_run(segs@.map_values(|x: u64| x as nat), i as int),
        r <= segs@.len() - i,
{
    let ghost s = segs@.map_values(|x: u64| x as nat);
    let mut j: usize = i;
    while j < segs.len() && segs[j] == 0
        invariant
            i <= j <= segs@.len() <= 8,
            s == segs@.map_values(|x: u64| x as nat),
            forall|k: int| i <= k < j ==> s[k] == 0,
        decreases segs@.len() - j,
    {
        j = j + 1;
    }
    proof {
        lemma_zero_run_span(s, i as int, j as int);
    }
    j - i
}

fn best_zero_run(segs: &Vec<u64>) -> (r: (usize, usize))
    requires
        segs@.len() == 8,
    ensures
        r.0 as nat == longest_zero_run(segs@.map_values(|x: u64| x as nat), 8).0,
        r.1 as nat == longest_zero_run(segs@.map_values(|x: u64| x as nat), 8).1,
        r.0 + r.1 <= 8,
{
    let ghost s = segs@.map_values(|x: u64| x as nat);
    let mut best_start: usize = 0;
    let mut best_len: usize = 0;
    let mut n: usize = 0;
    while n < 8
        invariant
            segs@.len() == 8,
            s == segs@.map_values(|x: u64| x as nat),
            n <= 8,
            best_start as nat == longest_zero_run(s, n as nat).0,
            best_len as nat == longest_zero_run(s, n as nat).1,
            best_start + best_len <= 8,
        decreases 8 - n,
    {
        let r = zero_run_at(segs, n);
        if r > best_len {
            best_start = n;
            best_len = r;
        }
        n = n + 1;
    }
    (best_start, best_len)
}

fn push_ipv6(out: &mut String, segs: &Vec<u64>)
    requires
        segs@.len() == 8,
        forall|k: int| 0 <= k < 8 ==> segs@[k] <= 0xffff,
    ensures
        final(out)@ == old(out)@ + ipv6_text(segs@.map_values(|x: u64| x as nat)),
{
    let ghost s = segs@.map_values(|x: u64| x as nat);
    if segs[0] == 0 && segs[1] == 0 && segs[2] == 0 && segs[3] == 0 && segs[4] == 0 && segs[5]
        == 0xffff {
        proof {
            reveal_strlit("::ffff:");
        }
        out.append("::ffff:");
        push_dotted(out, segs[6] / 256, segs[6] % 256, segs[7] / 256, segs[7] % 256);
        assert(out@ =~= old(out)@ + ipv6_text(s));
    } else {
        let (start, len) = best_zero_run(segs);
        if len > 1 {
            push_colon_hex(out, segs, 0, start);
            proof {
                reveal_strlit("::");
            }
            out.append("::");
            push_colon_hex(out, segs, start + len, 8);
            assert(segs@.subrange(0, start as int).map_values(|x: u64| x as nat) =~= s.subrange(
                0,
                start as int,
            ));
            assert(segs@.subrange((start + len) as int, 8).map_values(|x: u64| x as nat)
                =~= s.subrange((start + len) as int, 8));
            assert(out@ =~= old(out)@ + ipv6_text(s));
        } else {
            push_colon_hex(out, segs, 0, 8);
            assert(segs@.subrange(0, 8).map_values(|x: u64| x as nat) =~= s);
            assert(out@ =~= old(out)@ + ipv6_text(s));
        }
    }
}

/// Address text of the hex digits `s[lo..hi]`.
fn hex_addr_range(s: &Vec<char>, lo: usize, hi: usize, is_ipv6: bool) -> (r: String)
    requires
        lo <= hi <= s@.len(),
    ensures
        r@ == hex_addr_text(s@.subrange(lo as int, hi as int), is_ipv6),
{
    let ghost h = s@.subrange(lo as int, hi as int);
    if is_ipv6 {
        if hi - lo != 32 {
            return String::from_str("::");
        }
        let mut segs: Vec<u64> = Vec::new();
        let mut i: usize = 0;
        while i < 4
            invariant
                hi - lo == 32,
                lo <= hi <= s@.len(),
                h == s@.subrange(lo as int, hi as int),
                i <= 4,
                segs@.len() == 2 * i,
                forall|k: int| 0 <= k < 2 * i ==> segs@[k] <= 0xffff,
                forall|k: int| 0 <= k < 2 * i ==> segs@[k] as nat == #[trigger] ipv6_segments(h)[k],
            decreases 4 - i,
        {
            let start = lo + 8 * i;
            assert(s@.subrange(start as int, start + 8) =~= h.subrange(8 * i, 8 * i + 8));
            let w: u64 = match parse_unsigned_range(s, start, start + 8, 16, 0xffff_ffff) {
                Some(v) => v,
                None => 0,
            };
            assert(w == hex_word(h.subrange(8 * i, 8 * i + 8)));
            let b0 = w % 256;
            let b1 = (w / 256) % 256;
            let b2 = (w / 65536) % 256;
            let b3 = (w / 16777216) % 256;
            segs.push(b0 * 256 + b1);
            segs.push(b2 * 256 + b3);
            assert(ipv6_segments(h)[2 * i as int] == octet(w as nat, 0) * 256 + octet(w as nat, 1));
            assert((2 * i + 1) / 2 == i);
            assert(ipv6_segments(h)[2 * i + 1] == octet(w as nat, 2) * 256 + octet(w as nat, 3));
            i = i + 1;
        }
        let mut out = String::new();
        push_ipv6(&mut out, &segs);
        assert(segs@.map_values(|x: u64| x as nat) =~= ipv6_segments(h));
        out
    } else {
        if hi - lo != 8 {
            return String::from_str("0.0.0.0");
        }
        match parse_unsigned_range(s, lo, hi, 16, 0xffff_ffff) {
            Some(v) => {
                let mut out = String::new();
                push_dotted(&mut out, v % 256, (v / 256) % 256, (v / 65536) % 256, (v / 16777216) % 256);
                out
            },
            None => String::from_str("0.0.0.0"),
        }
    }
}

/// Address text of a hex-encoded table address.
pub fn parse_hex_addr(hex: &str, is_ipv6: bool) -> (r: String)
    ensures
        r@ == hex_addr_text(hex@, is_ipv6),
{
    let cs = chars_of(hex);
    assert(cs@.subrange(0, cs@.len() as int) =~= hex@);
    hex_addr_range(&cs, 0, cs.len(), is_ipv6)
}

// ---------------------------------------------------------------------------
// Rows
// ---------------------------------------------------------------------------

/// A port as four hex digits, or zero where they do not read.
pub open spec fn port_value(s: Seq<char>) -> u16 {
    match parse_unsigned(s, 16, u16::MAX as nat) {
        Some(v) => v as u16,
        None => 0,
    }
}

/// The row that one line of a TCP table describes: none when the line has
/// fewer than ten fields, when either address field is not one `:`-separated
/// pair, or when the inode field is no decimal `u64`.
pub open spec fn line_row(line: Seq<char>, is_ipv6: bool) -> Option<RowView> {
    let f = fields(line);
    if f.len() < 10 {
        None
    } else {
        let lp = split_char(f[1], ':');
        let rp = split_char(f[2], ':');
        if lp.len() != 2 || rp.len() != 2 {
            None
        } else {
            match parse_unsigned(f[9], 10, u64::MAX as nat) {
                None => None,
                Some(inode) => Some(
                    RowView {
                        local_addr: hex_addr_text(lp[0], is_ipv6),
                        local_port: port_value(lp[1]),
                        remote_addr: hex_addr_text(rp[0], is_ipv6),
                        remote_port: port_value(rp[1]),
                        inode: inode as u64,
                    },
                ),
            }
        }
    }
}

/// Rows of the lines `ls`, in order, lines that describe none left out.
pub open spec fn lines_rows(ls: Seq<Seq<char>>, is_ipv6: bool) -> Seq<RowView>
    decreases ls.len(),
{
    if ls.len() == 0 {
        Seq::empty()
    } else {
        lines_rows(ls.drop_last(), is_ipv6) + match line_row(ls.last(), is_ipv6) {
            Some(r) => seq![r],
            None => Seq::empty(),
        }
    }
}

/// Rows of a whole table; its first line is the header.
pub open spec fn table_rows(content: Seq<char>, is_ipv6: bool) -> Seq<RowView> {
    let ls = split_char(content, '\n');
    lines_rows(ls.subrange(1, ls.len() as int), is_ipv6)
}

pub open spec fn rows_view(v: Seq<SocketInode>) -> Seq<RowView> {
    v.map_values(|r: SocketInode| r@)
}

/// The row of the line `s[lo..hi]`, if it describes one.
fn parse_line(s: &Vec<char>, lo: usize, hi: usize, is_ipv6: bool) -> (r: Option<SocketInode>)
    requires
        lo <= hi <= s@.len(),
    ensures
        match line_row(s@.subrange(lo as int, hi as int), is_ipv6) {
            Some(v) => r is Some && r->0@ == v,
            None => r is None,
        },
{
    let ghost line = s@.subrange(lo as int, hi as int);
    let f = field_ranges(s, lo, hi);
    if f.len() < 10 {
        return None;
    }
    let ghost fs = fields(line);
    assert(pieces(s@, f@)[1] == fs[1]);
    assert(pieces(s@, f@)[2] == fs[2]);
    assert(pieces(s@, f@)[9] == fs[9]);
    let (a1, b1) = f[1];
    let (a2, b2) = f[2];
    let (a9, b9) = f[9];
    let lp = split_ranges(s, a1, b1, ':');
    if lp.len() != 2 {
        return None;
    }
    let rp = split_ranges(s, a2, b2, ':');
    if rp.len() != 2 {
        return None;
    }
    let inode = match parse_unsigned_range(s, a9, b9, 10, u64::MAX) {
        Some(v) => v,
        None => {
            return None;
        },
    };
    let ghost lps = split_char(fs[1], ':');
    let ghost rps = split_char(fs[2], ':');
    assert(pieces(s@, lp@)[0] == lps[0]);
    assert(pieces(s@, lp@)[1] == lps[1]);
    assert(pieces(s@, rp@)[0] == rps[0]);
    assert(pieces(s@, rp@)[1] == rps[1]);
    let local_addr = hex_addr_range(s, lp[0].0, lp[0].1, is_ipv6);
    let local_port: u16 = match parse_unsigned_range(s, lp[1].0, lp[1].1, 16, 0xffff) {
        Some(v) => v as u16,
        None => 0,
    };
    let remote_addr = hex_addr_range(s, rp[0].0, rp[0].1, is_ipv6);
    let remote_port: u16 = match parse_unsigned_range(s, rp[1].0, rp[1].1, 16, 0xffff) {
        Some(v) => v as u16,
        None => 0,
    };
    Some(SocketInode { local_addr, local_port, remote_addr, remote_port, inode })
}

/// The rows of a TCP table's text (`/proc/net/tcp` or `/proc/net/tcp6`),
/// header skipped and malformed lines passed over.
pub fn parse_proc_net_tcp(content: &str, is_ipv6: bool) -> (r: Vec<SocketInode>)
    ensures
        rows_view(r@) == table_rows(content@, is_ipv6),
{
    let cs = chars_of(content);
    let lines = split_ranges(&cs, 0, cs.len(), '\n');
    assert(cs@.subrange(0, cs@.len() as int) =~= content@);
    let ghost ls = split_char(content@, '\n');
    proof {
        crate::text::lemma_split_nonempty(content@, '\n');
    }
    let mut out: Vec<SocketInode> = Vec::new();
    let mut k: usize = 1;
    assert(rows_view(out@) =~= lines_rows(ls.subrange(1, 1), is_ipv6));
    while k < lines.len()
        invariant
            1 <= k <= lines@.len(),
            lines@.len() == ls.len(),
            pieces(cs@, lines@) == ls,
            ranges_within(lines@, 0, cs@.len() as int),
            rows_view(out@) == lines_rows(ls.subrange(1, k as int), is_ipv6),
        decreases lines@.len() - k,
    {
        let (lo, hi) = lines[k];
        assert(pieces(cs@, lines@)[k as int] == cs@.subrange(lo as int, hi as int));
        assert(ls.subrange(1, k + 1).drop_last() =~= ls.subrange(1, k as int));
        assert(ls.subrange(1, k + 1).last() == ls[k as int]);
        let ghost before = out@;
        match parse_line(&cs, lo, hi, is_ipv6) {
            Some(row) => {
                out.push(row);
                assert(rows_view(out@) =~= rows_view(before).push(out@.last()@));
            },
            None => {},
        }
        k = k + 1;
        assert(rows_view(out@) =~= lines_rows(ls.subrange(1, k as int), is_ipv6));
    }
    out
}

/// The inode of the last row whose endpoints are the connection's.
pub open spec fn row_inode(rows: Seq<RowView>, c: ConnectionView) -> Option<u64>
    decreases rows.len(),
{
    if rows.len() == 0 {
        None
    } else {
        let r = rows.last();
        if r.local_addr == c.local_addr && r.local_port == c.local_port && r.remote_addr
            == c.remote_addr && r.remote_port == c.remote_port {
            Some(r.inode)
        } else {
            row_inode(rows.drop_last(), c)
        }
    }
}

/// A connection after its inode is looked up among `rows`.
pub open spec fn with_inode(c: ConnectionView, rows: Seq<RowView>) -> ConnectionView {
    match row_inode(rows, c) {
        Some(i) => ConnectionView { inode: Some(i), ..c },
        None => c,
    }
}

fn same_string(a: &String, b: &String) -> (r: bool)
    ensures
        r == (a@ == b@),
{
    crate::text::same_text(a.as_str(), b.as_str())
}

fn find_row(rows: &Vec<SocketInode>, c: &Connection) -> (r: Option<u64>)
    ensures
        r == row_inode(rows_view(rows@), c@),
{
    let mut i: usize = rows.len();
    assert(rows@.subrange(0, i as int) =~= rows@);
    while i > 0
        invariant
            i <= rows@.len(),
            row_inode(rows_view(rows@), c@) == row_inode(
                rows_view(rows@.subrange(0, i as int)),
                c@,
            ),
        decreases i,
    {
        let ghost t = rows_view(rows@.subrange(0, i as int));
        assert(t.drop_last() =~= rows_view(rows@.subrange(0, i - 1)));
        let r = &rows[i - 1];
        if r.local_port == c.local_port && r.remote_port == c.remote_port && same_string(
            &r.local_addr,
            &c.local_addr,
        ) && same_string(&r.remote_addr, &c.remote_addr) {
            return Some(r.inode);
        }
        i = i - 1;
    }
    None
}

/// Sets the inode of each connection that some table row describes, the last
/// such row winning; other connections are left as they were.
pub fn populate_inodes(connections: &mut Vec<Connection>, rows: &Vec<SocketInode>)
    ensures
        final(connections)@.len() == old(connections)@.len(),
        forall|k: int|
            0 <= k < old(connections)@.len() ==> (#[trigger] final(connections)@[k])@
                == with_inode(old(connections)@[k]@, rows_view(rows@)),
{
    let mut out: Vec<Connection> = Vec::new();
    let mut k: usize = 0;
    while k < connections.len()
        invariant
            k <= connections@.len(),
            connections@ == old(connections)@,
            out@.len() == k,
            forall|j: int|
                0 <= j < k ==> (#[trigger] out@[j])@ == with_inode(
                    connections@[j]@,
                    rows_view(rows@),
                ),
        decreases connections@.len() - k,
    {
        let mut c = connections[k].duplicate();
        match find_row(rows, &connections[k]) {
            Some(i) => {
                c.inode = Some(i);
            },
            None => {},
        }
        out.push(c);
        k = k + 1;
    }
    *connections = out;
}

} // verus!
