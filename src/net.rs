//! The connection model: one record per observed TCP socket.

use vstd::prelude::*;

verus! {

/// TCP socket state.
#[derive(Debug, Clone, Copy, PartialEq, Eq, Hash, Structural)]
pub enum ConnectionState {
    Established,
    SynSent,
    SynRecv,
    FinWait1,
    FinWait2,
    TimeWait,
    Close,
    CloseWait,
    LastAck,
    Listen,
    Closing,
    Unknown,
}

/// One observed TCP socket.
#[derive(Debug, Clone)]
pub struct Connection {
    pub local_addr: String,
    pub local_port: u16,
    pub remote_addr: String,
    pub remote_port: u16,
    pub state: ConnectionState,
    /// Kernel socket inode, where the platform exposes one.
    pub inode: Option<u64>,
    /// Owning process id, when attribution succeeded.
    pub pid: Option<i32>,
    /// Owning process name, when attribution succeeded.
    pub process_name: Option<String>,
}

/// A connection's fields as mathematical values.
pub struct ConnectionView {
    pub local_addr: Seq<char>,
    pub local_port: u16,
    pub remote_addr: Seq<char>,
    pub remote_port: u16,
    pub state: ConnectionState,
    pub inode: Option<u64>,
    pub pid: Option<i32>,
    pub process_name: Option<Seq<char>>,
}

impl ConnectionView {
    /// Process id and process name are both known or both unknown.
    pub open spec fn attribution_consistent(self) -> bool {
        self.pid is Some <==> self.process_name is Some
    }
}

impl View for Connection {
    type V = ConnectionView;

    open spec fn view(&self) -> ConnectionView {
        ConnectionView {
            local_addr: self.local_addr@,
            local_port: self.local_port,
            remote_addr: self.remote_addr@,
            remote_port: self.remote_port,
            state: self.state,
            inode: self.inode,
            pid: self.pid,
            process_name: match self.process_name {
                Some(n) => Some(n@),
                None => None,
            },
        }
    }
}

impl Connection {
    /// A field-by-field copy.
    pub fn duplicate(&self) -> (r: Connection)
        ensures
            r@ == self@,
    {
        Connection {
            local_addr: self.local_addr.clone(),
            local_port: self.local_port,
            remote_addr: self.remote_addr.clone(),
            remote_port: self.remote_port,
            state: self.state,
            inode: self.inode,
            pid: self.pid,
            process_name: match &self.process_name {
                Some(n) => Some(n.clone()),
                None => None,
            },
        }
    }
}

/// The socket table could not be read.
#[derive(Debug, Clone)]
pub struct DiscoveryError {
    /// A calm, human-readable description of what failed.
    pub message: String,
}

} // verus!
