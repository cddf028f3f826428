//! Verified core of the J-Link RTT orchestrator.
pub mod text;
pub mod numbers;
pub mod devices;
pub mod paths;
pub mod config;
pub mod preflight;
pub mod orchestrator;
pub mod session;
