//! Helios: a distributed compile daemon. This crate holds its verified core:
//! the peer registry and its dispatch decisions, the wire formats of the
//! discovery beacon and of the local command channel, and the planning of a
//! compile job and of its response.

pub mod text;
pub mod messages;
pub mod registry;
pub mod decode;
pub mod discovery;
pub mod ipc;
pub mod service;
pub mod execution;
