//! Verified core of the SmolOfis panel, the control plane of the SmolOfis
//! appliance.
//!
//! The library decides and computes; it reads no clock, no file, no socket and no
//! environment variable itself. The program around it hands in what it has read
//! and performs what the library decides on.

pub mod config;
pub mod docker;
pub mod double;
pub mod handlers;
pub mod json;
pub mod metrics;
pub mod phase;
pub mod probe;
pub mod system;
pub mod text;
pub mod units;
