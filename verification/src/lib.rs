//! The command routing and permission-gating core of a chat automation bot:
//! per-guild prefix resolution with a read-through cache, structural command
//! matching, per-channel blacklist gating with per-command exemptions, and
//! the idempotent find-or-create protocol for identity records, all against
//! an in-memory model of the relational store.

pub mod clock;
pub mod dispatch;
pub mod laws;
pub mod models;
pub mod prefix;
pub mod registry;
pub mod store;
