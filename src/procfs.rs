//! Attribution of sockets to processes by socket inode: the table built from
//! each process's open descriptors, and the matching of connections to it.

use crate::net::{Connection, ConnectionView, DiscoveryError};
use crate::text::{chars_of, has_prefix, parse_i32, parse_i32_range, parse_unsigned, parse_unsigned_range, trim_text, trimmed};
use vstd::prelude::*;
use vstd::string::StringExecFns;

verus! {

broadcast use vstd::string::group_string_axioms;

/// Name given to a process whose short name could not be read.
pub open spec fn unknown_name() -> Seq<char> {
    "unknown"@
}

/// What one process directory showed when it was scanned.
#[derive(Debug, Clone)]
pub struct ProcessFds {
    /// Name of the process directory; a process id where it reads as one.
    pub dir_name: String,
    /// Contents of the process's short-name record, if it could be read.
    pub comm: Option<String>,
    /// Targets of the process's descriptor links that could be read.
    pub fd_targets: Vec<String>,
}

/// One socket inode and the process holding it.
#[derive(Debug, Clone)]
pub struct InodeOwner {
    pub inode: u64,
    pub pid: i32,
    pub name: String,
}

/// The inode named by a descriptor link target of the form `socket:[N]`.
pub open spec fn socket_link_inode(t: Seq<char>) -> Option<nat> {
    if t.len() >= 9 && t.subrange(0, 8) == "socket:["@ && t.last() == ']' {
        parse_unsigned(t.subrange(8, t.len() - 1), 10, u64::MAX as nat)
    } else {
        None
    }
}

/// A process's name as its short-name record gives it.
pub open spec fn name_from_comm(comm: Option<String>) -> Seq<char> {
    match comm {
        Some(c) => trimmed(c@),
        None => unknown_name(),
    }
}

/// Owners contributed by the descriptor targets `ts` of process `pid`.
pub open spec fn target_owners(ts: Seq<String>, pid: i32, name: Seq<char>) -> Seq<
    (u64, i32, Seq<char>),
>
    decreases ts.len(),
{
    if ts.len() == 0 {
        Seq::empty()
    } else {
        target_owners(ts.drop_last(), pid, name) + match socket_link_inode(ts.last()@) {
            Some(i) => seq![(i as u64, pid, name)],
            None => Seq::empty(),
        }
    }
}

/// Owners contributed by one process directory: none unless its name reads
/// as a process id.
pub open spec fn process_owners(p: ProcessFds) -> Seq<(u64, i32, Seq<char>)> {
    match parse_i32(p.dir_name@) {
        Some(pid) => target_owners(p.fd_targets@, pid as i32, name_from_comm(p.comm)),
        None => Seq::empty(),
    }
}

/// Owners of all scanned processes, in scan order.
pub open spec fn owner_table(ps: Seq<ProcessFds>) -> Seq<(u64, i32, Seq<char>)>
    decreases ps.len(),
{
    if ps.len() == 0 {
        Seq::empty()
    } else {
        owner_table(ps.drop_last()) + process_owners(ps.last())
    }
}

pub open spec fn owners_view(v: Seq<InodeOwner>) -> Seq<(u64, i32, Seq<char>)> {
    v.map_values(|o: InodeOwner| (o.inode, o.pid, o.name@))
}

/// The owner of `inode`: the last one recorded, as when the table is filled
/// into a map in order.
pub open spec fn owner_of(t: Seq<(u64, i32, Seq<char>)>, inode: u64) -> Option<(i32, Seq<char>)>
    decreases t.len(),
{
    if t.len() == 0 {
        None
    } else if t.last().0 == inode {
        Some((t.last().1, t.last().2))
    } else {
        owner_of(t.drop_last(), inode)
    }
}

/// A connection after attribution against the owner table `t`.
pub open spec fn attributed(c: ConnectionView, t: Seq<(u64, i32, Seq<char>)>) -> ConnectionView {
    match c.inode {
        Some(i) => match owner_of(t, i) {
            Some(o) => ConnectionView { pid: Some(o.0), process_name: Some(o.1), ..c },
            None => c,
        },
        None => c,
    }
}

/// Attribution never invents an owner: a connection without an inode, or any
/// connection when no process could be scanned (no `/proc`), comes out of
/// attribution exactly as it went in, with its owner still unknown.
pub proof fn lemma_attribution_never_invents_owner(c: ConnectionView, procs: Seq<ProcessFds>)
    requires
        c.inode is None || procs.len() == 0,
    ensures
        attributed(c, owner_table(procs)) == c,
{
    if procs.len() == 0 {
        assert(owner_table(procs) =~= Seq::<(u64, i32, Seq<char>)>::empty());
    }
}

/// Attribution is never fatal and invents nothing: when no connection
/// carries an inode, or no process could be scanned, every connection keeps
/// its owner exactly as it was; in particular one with no owner (no process
/// id and no name) still has none.
pub proof fn lemma_unattributable_snapshot_unchanged(cs: Seq<ConnectionView>, procs: Seq<ProcessFds>)
    requires
        (forall|i: int| 0 <= i < cs.len() ==> (#[trigger] cs[i]).inode is None) || procs.len() == 0,
    ensures
        forall|i: int|
            0 <= i < cs.len() ==> attributed(#[trigger] cs[i], owner_table(procs)) == cs[i],
        forall|i: int|
            0 <= i < cs.len() && cs[i].pid is None && cs[i].process_name is None ==> {
                let a = attributed(#[trigger] cs[i], owner_table(procs));
                a.pid is None && a.process_name is None
            },
{
    assert forall|i: int| 0 <= i < cs.len() implies attributed(
        #[trigger] cs[i],
        owner_table(procs),
    ) == cs[i] by {
        lemma_attribution_never_invents_owner(cs[i], procs);
    }
}

/// Attribution keeps a connection's fields consistent: when process id and
/// name were both known or both unknown before, they still are after.
pub proof fn lemma_attribution_keeps_owner_consistent(c: ConnectionView, t: Seq<(u64, i32, Seq<char>)>)
    requires
        c.attribution_consistent(),
    ensures
        attributed(c, t).attribution_consistent(),
        attributed(c, t).local_addr == c.local_addr,
        attributed(c, t).remote_addr == c.remote_addr,
        attributed(c, t).state == c.state,
        attributed(c, t).inode == c.inode,
{
}

/// The inode in a descriptor link target `socket:[N]`, or `None` for any
/// other target.
pub fn parse_socket_link(target: &str) -> (r: Option<u64>)
    ensures
        match socket_link_inode(target@) {
            Some(i) => r == Some(i as u64),
            None => r is None,
        },
{
    let cs = chars_of(target);
    let n = cs.len();
    if n < 9 || !has_prefix(&cs, "socket:[") || cs[n - 1] != ']' {
        proof {
            reveal_strlit("socket:[");
        }
        return None;
    }
    proof {
        reveal_strlit("socket:[");
    }
    parse_unsigned_range(&cs, 8, n - 1, 10, u64::MAX)
}

/// A process's name from its short-name record: the record trimmed, or
/// `unknown` when it could not be read.
pub fn read_process_name(comm: &Option<String>) -> (r: String)
    ensures
        r@ == name_from_comm(*comm),
{
    match comm {
        Some(c) => trim_text(c.as_str()),
        None => String::from_str("unknown"),
    }
}

/// The socket inodes held by the scanned processes, each with its process id
/// and name, in scan order. Directories whose names are no process id are
/// passed over, as are descriptors that are no sockets.
pub fn build_inode_pid_map(procs: &Vec<ProcessFds>) -> (r: Vec<InodeOwner>)
    ensures
        owners_view(r@) == owner_table(procs@),
{
    let mut out: Vec<InodeOwner> = Vec::new();
    let mut k: usize = 0;
    while k < procs.len()
        invariant
            k <= procs@.len(),
            owners_view(out@) == owner_table(procs@.subrange(0, k as int)),
        decreases procs@.len() - k,
    {
        let p = &procs[k];
        assert(procs@.subrange(0, k + 1).drop_last() =~= procs@.subrange(0, k as int));
        let ghost before = out@;
        let dn = chars_of(p.dir_name.as_str());
        assert(dn@.subrange(0, dn@.len() as int) =~= p.dir_name@);
        match parse_i32_range(&dn, 0, dn.len()) {
            None => {
                assert(process_owners(*p) =~= Seq::<(u64, i32, Seq<char>)>::empty());
                assert(owner_table(procs@.subrange(0, k + 1)) =~= owner_table(procs@.subrange(0, k as int)));
            },
            Some(pid) => {
                let name = read_process_name(&p.comm);
                let mut j: usize = 0;
                assert(owners_view(out@) =~= owners_view(before) + target_owners(
                    p.fd_targets@.subrange(0, 0),
                    pid,
                    name@,
                ));
                while j < p.fd_targets.len()
                    invariant
                        j <= p.fd_targets@.len(),
                        p == procs@[k as int],
                        name@ == name_from_comm(p.comm),
                        owners_view(out@) == owners_view(before) + target_owners(
                            p.fd_targets@.subrange(0, j as int),
                            pid,
                            name@,
                        ),
                    decreases p.fd_targets@.len() - j,
                {
                    assert(p.fd_targets@.subrange(0, j + 1).drop_last() =~= p.fd_targets@.subrange(
                        0,
                        j as int,
                    ));
                    let ghost mid = out@;
                    match parse_socket_link(p.fd_targets[j].as_str()) {
                        Some(inode) => {
                            out.push(InodeOwner { inode, pid, name: name.clone() });
                            assert(owners_view(out@) =~= owners_view(mid).push((inode, pid, name@)));
                        },
                        None => {},
                    }
                    j = j + 1;
                    assert(owners_view(out@) =~= owners_view(before) + target_owners(
                        p.fd_targets@.subrange(0, j as int),
                        pid,
                        name@,
                    ));
                }
                assert(p.fd_targets@.subrange(0, j as int) =~= p.fd_targets@);
                assert(owners_view(out@) =~= owner_table(procs@.subrange(0, k + 1)));
            },
        }
        k = k + 1;
    }
    assert(procs@.subrange(0, k as int) =~= procs@);
    out
}

/// The owner of `inode` in `owners`, the last recorded winning.
fn find_owner(owners: &Vec<InodeOwner>, inode: u64) -> (r: Option<usize>)
    ensures
        match owner_of(owners_view(owners@), inode) {
            Some(o) => r is Some && r->0 < owners@.len() && owners@[r->0 as int].pid == o.0
                && owners@[r->0 as int].name@ == o.1,
            None => r is None,
        },
{
    let mut i: usize = owners.len();
    assert(owners@.subrange(0, i as int) =~= owners@);
    while i > 0
        invariant
            i <= owners@.len(),
            owner_of(owners_view(owners@), inode) == owner_of(
                owners_view(owners@.subrange(0, i as int)),
                inode,
            ),
        decreases i,
    {
        let ghost t = owners_view(owners@.subrange(0, i as int));
        assert(t.drop_last() =~= owners_view(owners@.subrange(0, i - 1)));
        if owners[i - 1].inode == inode {
            return Some(i - 1);
        }
        i = i - 1;
    }
    None
}

/// Fills in the owning process of each connection whose inode the owner
/// table knows. Attribution is best effort: it never fails, and leaves
/// connections that it cannot attribute as they were.
pub fn attach_process_info(conns: &mut Vec<Connection>, owners: &Vec<InodeOwner>) -> (r: Result<
    (),
    DiscoveryError,
>)
    ensures
        r is Ok,
        final(conns)@.len() == old(conns)@.len(),
        forall|k: int|
            0 <= k < old(conns)@.len() ==> (#[trigger] final(conns)@[k])@ == attributed(
                old(conns)@[k]@,
                owners_view(owners@),
            ),
        forall|k: int|
            0 <= k < old(conns)@.len() && old(conns)@[k].inode is None ==> (#[trigger] final(conns)@[k])@ == old(
                conns,
            )@[k]@,
        forall|k: int|
            0 <= k < old(conns)@.len() && old(conns)@[k]@.attribution_consistent() ==> (
            #[trigger] final(conns)@[k])@.attribution_consistent(),
{
    let mut out: Vec<Connection> = Vec::new();
    let mut k: usize = 0;
    while k < conns.len()
        invariant
            k <= conns@.len(),
            conns@ == old(conns)@,
            out@.len() == k,
            forall|j: int|
                0 <= j < k ==> (#[trigger] out@[j])@ == attributed(
                    conns@[j]@,
                    owners_view(owners@),
                ),
        decreases conns@.len() - k,
    {
        let mut c = conns[k].duplicate();
        match c.inode {
            Some(inode) => match find_owner(owners, inode) {
                Some(i) => {
                    c.pid = Some(owners[i].pid);
                    c.process_name = Some(owners[i].name.clone());
                },
                None => {},
            },
            None => {},
        }
        out.push(c);
        k = k + 1;
    }
    *conns = out;
    Ok(())
}

} // verus!
