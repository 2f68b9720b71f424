//! Core of a chat backend: a monotonic 64-bit id generator, an in-memory
//! presence registry backed by concurrent maps, conversation metadata
//! reconciliation, a per-recipient offline retry queue, an at-least-once
//! outbox ledger, and the delivery pipeline that ties them together.
//!
//! The durable relational store, the key-value store and the push channel
//! are external collaborators: the decision logic that drives them lives
//! here as verified state machines and pure planning functions, and the
//! binary glues those decisions to the real services.

pub mod config;
pub mod delivery;
pub mod dto;
pub mod message;
pub mod model;
pub mod offline;
pub mod outbox;
pub mod presence;
pub mod reconcile;
pub mod resp;
pub mod snowflake;
pub mod store;
pub mod util;
