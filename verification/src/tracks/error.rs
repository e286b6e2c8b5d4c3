//! Errors reported while controlling or playing a track.
use vstd::prelude::*;

verus! {

/// Errors associated with control and manipulation of tracks.
///
/// Unless otherwise stated, these don't invalidate an existing track, but
/// do advise on valid operations and commands.
#[derive(Clone, Copy, Debug, PartialEq, Eq, Structural)]
pub enum ControlError {
    /// The operation failed because the track has ended, has been removed
    /// due to call closure, or some error within the driver.
    Finished,
    /// The supplied event listener can never be fired by a track, and
    /// should be attached to the driver instead.
    InvalidTrackEvent,
    /// The track's underlying input doesn't support seeking operations.
    SeekUnsupported,
}

impl ControlError {
    /// A printable description of the failure.
    pub fn description(self) -> (r: &'static str)
        ensures
            self is Finished ==> r@ == "failed to operate on track (handle): track ended"@,
            self is InvalidTrackEvent ==> r@
                == "failed to operate on track (handle): given event listener can't be fired on a track"@,
            self is SeekUnsupported ==> r@
                == "failed to operate on track (handle): track did not support seeking"@,
    {
        match self {
            Self::Finished => "failed to operate on track (handle): track ended",
            Self::InvalidTrackEvent => "failed to operate on track (handle): given event listener can't be fired on a track",
            Self::SeekUnsupported => "failed to operate on track (handle): track did not support seeking",
        }
    }
}

/// Alias for most calls to a track handle.
pub type TrackResult<T> = Result<T, ControlError>;

/// Errors reported by the mixer while attempting to play (or ready) a
/// track. Each is scoped to the one track it struck, which transitions to
/// its end state; the session lives on.
#[derive(Clone, Copy, Debug, PartialEq, Eq, Structural)]
pub enum PlayError {
    /// Failed to create a live bytestream from the lazy source.
    Create,
    /// Failed to read headers, codecs, or a valid stream from an input.
    Parse,
    /// Failed to decode a frame received from an input.
    Decode,
    /// Failed to seek to the requested location.
    Seek,
}

impl PlayError {
    /// A printable description of the failure.
    pub fn description(self) -> (r: &'static str)
        ensures
            self is Create ==> r@ == "runtime error while playing track: input creation"@,
            self is Parse ==> r@ == "runtime error while playing track: parsing formats/codecs"@,
            self is Decode ==> r@ == "runtime error while playing track: decoding packets"@,
            self is Seek ==> r@ == "runtime error while playing track: seeking along input"@,
    {
        match self {
            Self::Create => "runtime error while playing track: input creation",
            Self::Parse => "runtime error while playing track: parsing formats/codecs",
            Self::Decode => "runtime error while playing track: decoding packets",
            Self::Seek => "runtime error while playing track: seeking along input",
        }
    }
}

} // verus!
