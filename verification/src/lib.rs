//! The verified core of an internet radio engine.

pub mod audio;
pub mod config;
pub mod error;
pub mod stream;
pub mod text;
pub mod time;
