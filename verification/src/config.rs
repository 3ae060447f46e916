//! Configuration constants for the radiotrope engine.

pub mod audio;
pub mod buffer;
pub mod hls;
pub mod network;
pub mod timeouts;
