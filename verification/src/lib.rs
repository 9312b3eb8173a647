//! Request-time IPv4 access-control filter for a multi-worker gateway.
//!
//! Each worker keeps an in-memory snapshot of a blocked-CIDR list that is
//! periodically fetched from a remote source by at most one worker at a
//! time and propagated to the others through a shared key/value store.
//! This crate holds the verified core: the blocked-list text format, the
//! range-set membership structure, per-worker snapshot synchronisation,
//! and the refresh-coordination state machine.
pub mod coordinator;
pub mod parse;
pub mod range;
pub mod snapshot;
pub mod store;
