//! Constants of the control protocol.

pub mod types;
