//! Shadow register persistence and synchronization engine.
//!
//! A software-managed, error-corrected, versioned shadow layer that sits between
//! one-time-programmable hardware fuses and the rest of a bare-metal system.

pub mod crc;
pub mod error;
pub mod shadow_register;
pub mod ecc_handler;
pub mod fuse_manager;
pub mod version_control;
pub mod sync_manager;
pub mod shadow_mmio;
pub mod shadow_runtime;
