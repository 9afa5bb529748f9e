//! An on-demand reverse proxy library: routes inbound requests to backend
//! services by host name, starts backends lazily on first use, tracks their
//! activity, and reaps them after a period of idleness.
//!
//! The library holds the routing and lifecycle logic; a thin binary around it
//! performs the actual I/O (listening, spawning, probing, forwarding).

pub mod assoc;
pub mod config;
pub mod forward;
pub mod prober;
pub mod registry;
pub mod routing;
pub mod table;
