//! Discovery of a host's TCP sockets, attribution of each socket to its owning
//! process, and the model that lays them out as a classified topology.

pub mod coffin;
pub mod config;
pub mod emoji_width;
pub mod endpoint;
pub mod inspector;
pub mod layout;
pub mod net;
pub mod proc_net;
pub mod procfs;
pub mod session;
pub mod text;
pub mod theme;
pub mod topology;
