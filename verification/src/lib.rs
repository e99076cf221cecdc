//! Verified core of a player-progress tracker: per-level best scores, star
//! ratings and completion flags, merged monotonically, together with the
//! delegation / commit / undelegate protocol that moves a record's write
//! authority between a durable layer and an accelerated layer.

pub mod record;
pub mod aggregator;
pub mod session;
pub mod store;
pub mod laws;
