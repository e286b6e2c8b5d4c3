//! Real-time audio mixing and RTP egress core for a Discord-compatible
//! voice driver.
//!
//! The driver side holds the per-tick mixer, the RTP sequence/timestamp
//! counters, and the three `XSalsa20Poly1305` nonce schemes used to encrypt
//! each packet in place. The track side holds one state machine per audio
//! source (lazy, preparing, playable, ended) and a serial queue that plays
//! sources gaplessly one after another.

pub mod driver;
pub mod id;
pub mod tracks;
