//! eSCL / AirScan network scanners.

pub mod capabilities;
pub mod discovery;
pub mod endpoint;
pub mod job;
pub mod session;
pub mod settings;
pub mod transfer;
