//! The decisions of the `maschined` daemon: client requests and the queries
//! they run, OSC messages for device events, what a preset load needs, and
//! where the daemon keeps its files. Sockets, processes and the database are
//! driven by the caller with these values.
pub mod ipc;
pub mod osc;
pub mod load;
pub mod paths;
pub mod session;
