//! Core of a Practical Byzantine Fault Tolerance (PBFT) consensus engine.
//!
//! The library owns the consensus decision: given candidate blocks and peer
//! messages delivered by a host validator, it drives the three-phase voting
//! protocol (PrePrepare / Prepare / Commit) with view-change recovery, builds
//! and verifies consensus seals, and tells the host which blocks to check,
//! commit or fail.  All host I/O (transport, block store, settings, the
//! clock) stays outside: handlers take the values the host read as arguments
//! and emit the calls the host must make as [`action::HostAction`] values.

use vstd::prelude::*;

pub mod action;
pub mod bytes;
pub mod codec;
pub mod config;
pub mod crypto;
pub mod error;
pub mod handlers;
pub mod log;
pub mod parsed;
pub mod state;
pub mod message;
pub mod node;
pub mod timing;

verus! {

} // verus!
