//! A proof-of-existence claim registry: an identified caller asserts
//! ownership of an opaque content fingerprint at a logical point in time,
//! and may later revoke that assertion. The registry is a single map from
//! fingerprint to claim record, with two state transitions (claim, revoke)
//! that enforce uniqueness and ownership and emit auditable notifications.

pub mod model;
pub mod registry;
pub mod types;
