//! The per-session driver: packet encryption and the mixer's tick loop.

pub mod crypto;
pub mod mixer;

pub use crypto::{CryptoMode, CryptoState};
pub use mixer::{Bitrate, Config, CycleOutcome, CycleResult, MixOutput, Mixer, MixerConnection, MixerMessage, TickResult};
