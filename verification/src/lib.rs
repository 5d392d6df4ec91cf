//! Verified core of a fleet-wide SSH host key distribution service.
//!
//! Producers publish per-host key material on a message bus; a consumer
//! folds the update and delete events into an authoritative per-host map
//! and renders it as a trust file (a `known_hosts` style database).
//! This crate holds the verified logic of that system: the payload data
//! model, the topic parser, the reconciliation engine, the trust file
//! renderer, the connection retry policy and the configuration rules.
//! The unverified rim (broker sessions, file system, command line) lives
//! outside and calls into these functions with plain values.

pub mod collector;
pub mod config;
pub mod deleter;
pub mod known_hosts;
pub mod mqtt;
pub mod payload;
pub mod text;
pub mod reconcile;
pub mod topic;
