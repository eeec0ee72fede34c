//! Short-time Fourier framing, spectrogram shape, and magnitude-to-color rules.
//!
//! The library cuts a sample buffer into overlapping windows, drives a caller
//! supplied transform over each window into a [`Spectrogram`], finds the
//! global magnitude range used for normalization, and saturates color channels
//! to eight bits.

pub mod config;
pub mod frames;
pub mod render;
pub mod stft;

pub use config::{ConfigError, StftConfig, HOP_SIZE, WINDOW_SIZE};
pub use frames::{frame_count, frame_windows};
pub use render::{normalization, saturate_channel, Normalization};
pub use stft::{generate_spectrogram, ShapeError, Spectrogram};
