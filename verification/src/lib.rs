//! Wormhole: a location-transparent actor messaging core.
//!
//! Two processes are joined by one bidirectional message transport (a
//! conduit). A portal is the live endpoint of one such connection: it owns
//! the tables of exported local actors, outstanding reply ports and proxy
//! registrations, and it implements the wire protocol that multiplexes many
//! logical actor channels over the one transport. A nexus is the
//! per-process registry of portals.
//!
//! The crate holds the pure core: the wire codec, the portal state machine
//! and the nexus registry. Every transition is an ordinary function from
//! state and event to new state and a list of actions; the surrounding
//! process (tasks, sockets, actor runtime) performs the actions and feeds
//! events back in. The laws of the protocol — round-trip identity,
//! per-sender ordering, reply uniqueness, the drain guarantee, id
//! isolation, idempotent publishing — are stated and proved in [`laws`].

pub mod bytes;
pub mod codec;
pub mod conduit;
pub mod laws;
pub mod nexus;
pub mod portal;
