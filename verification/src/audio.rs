//! Audio subsystem: playback state, health, statistics, decoding and analysis bookkeeping.

pub mod analyzer;
pub mod decoder;
pub mod engine;
pub mod health;
pub mod stats;
pub mod types;

pub use stats::{DecoderStats, EventBus, StreamEvent, StreamStats};
pub use types::{AudioEvent, CodecInfo, PlaybackState};
