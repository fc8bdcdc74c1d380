//! Session and presence core for a multiplayer game service.
//!
//! Two independent parts, composed by a coordinator:
//!
//! - [`player`]: the player location state machine, a total function from
//!   (location, event) to a new location or a typed rejection.
//! - [`connection`]: reliable-delivery bookkeeping per network session:
//!   sequence numbers, a replay buffer, heartbeat liveness and a bounded
//!   reconnection grace period, plus a registry indexed by player id and by
//!   session token.
//! - [`coordinator`]: routes player events to the state machine and runs the
//!   sweep that expires stale connections and forces their players back to
//!   `Disconnected`.
//!
//! Time is passed in explicitly as readings of a monotonic clock, in
//! milliseconds; nothing here reads a clock itself.

pub mod connection;
pub mod coordinator;
pub mod player;
