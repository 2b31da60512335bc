//! Proximity-encounter engine for a battery-powered radio node.
//!
//! A node periodically announces its presence to nearby peers, exchanges a
//! small identity payload with each peer it meets, and remembers recent
//! encounters in a bounded, time-expiring table so that the same peer is not
//! handshaked again within a cooldown window.  The radio transport itself and
//! the persistent settings store are external collaborators; this crate holds
//! the verified state machines and bookkeeping that drive them.

pub mod engine;
pub mod handshake;
pub mod identity;
pub mod mac;
pub mod packet;
pub mod queue;
pub mod table;
