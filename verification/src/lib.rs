//! STARS: a line-oriented message broker for laboratory instrument control.
//!
//! Clients ("nodes") connect over TCP, authenticate with a per-node key,
//! and exchange addressed text messages routed by a central hub.  This
//! crate holds the hub's verified core: the frame parser, the routing
//! engine with alias resolution and command policy, the subscription
//! table, the handshake decisions and the `System` virtual-node verbs.
//! All socket and file I/O lives outside, in a thin driver that feeds
//! decoded lines in and carries the returned actions out.

pub mod alias;
pub mod config;
pub mod directory;
pub mod events;
pub mod frame;
pub mod glob;
pub mod handshake;
pub mod keycheck;
pub mod laws;
pub mod name;
pub mod num;
pub mod policy;
pub mod router;
pub mod state;
pub mod system;
pub mod subs;
pub mod text;
pub mod timefmt;
