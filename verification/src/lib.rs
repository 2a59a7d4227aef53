//! A device session and protocol translation runtime.
//!
//! The crate resolves a discovered device's advertised identity to a
//! capability profile, validates and diffs generic actuation commands
//! against per-device state, encodes the resulting change sets into
//! vendor-specific wire writes, manages transport scanning with
//! advertisement deduplication, and drives the session state machine
//! that governs handshake, version negotiation and ping timeout.

use vstd::prelude::*;

pub mod adapter_task;
pub mod comm_manager;
pub mod command_manager;
pub mod configuration;
pub mod device_configuration;
pub mod errors;
pub mod messages;
pub mod protocols;
pub mod server;
pub mod util;

verus! {

/// Highest message-specification version this runtime negotiates.
pub const BUTTPLUG_CURRENT_MESSAGE_SPEC_VERSION: u32 = 3;

} // verus!
