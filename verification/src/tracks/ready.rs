//! Readiness of a track's input.
use vstd::prelude::*;

verus! {

/// Whether this track has been made live, is being processed, or is
/// currently uninitialised.
///
/// Readiness only ever advances along
/// `Uninitialised -> Preparing -> Playable`; it never regresses except
/// through an explicit seek that re-primes the decoder.
#[derive(Clone, Copy, Debug, PartialEq, Eq, Structural)]
pub enum ReadyState {
    /// This track is still a lazy source, and hasn't been made playable.
    Uninitialised,
    /// The mixer is currently creating and parsing this track's bytestream.
    Preparing,
    /// This track is fully initialised and usable.
    Playable,
}

} // verus!
