//! Track lifecycle events, and the check that keeps driver-wide events
//! off individual tracks.
use vstd::prelude::*;

verus! {

use crate::tracks::error::ControlError;
use crate::tracks::error::TrackResult;

/// A lifecycle moment of one track, fired to user handlers off the hot
/// path.
#[derive(Clone, Copy, Debug, PartialEq, Eq, Structural)]
pub enum TrackEvent {
    /// The track began or resumed playback.
    Play,
    /// The track was paused.
    Pause,
    /// The track finished: its input ran out, it was stopped, or an
    /// unrecoverable error ended it.
    End,
    /// The track became playable after preparation.
    Playable,
    /// A playback error ended the track.
    Error,
}

/// When a handler fires.
#[derive(Clone, Copy, Debug, PartialEq, Eq, Structural)]
pub enum Event {
    /// On a lifecycle moment of the one track it is attached to.
    Track(TrackEvent),
    /// Once, this many milliseconds after attachment.
    Delayed(u64),
    /// Repeatedly, with this period in milliseconds.
    Periodic(u64),
    /// On a driver-wide moment; never fired by a single track.
    Core,
}

impl Event {
    /// Whether a single track can ever fire this event.
    pub open spec fn spec_track_scoped(self) -> bool {
        !(self is Core)
    }

    /// Whether a single track can ever fire this event.
    pub fn is_track_scoped(self) -> (r: bool)
        ensures
            r == self.spec_track_scoped(),
    {
        !matches!(self, Event::Core)
    }
}

/// Admits an event for attachment to a track: track-scoped events pass,
/// and a driver-wide event fails with [`ControlError::InvalidTrackEvent`]
/// - it belongs on the driver instead.
pub fn validate_track_event(event: Event) -> (r: TrackResult<Event>)
    ensures
        event.spec_track_scoped() ==> r == TrackResult::<Event>::Ok(event),
        !event.spec_track_scoped() ==> r == TrackResult::<Event>::Err(
            ControlError::InvalidTrackEvent,
        ),
{
    if event.is_track_scoped() {
        Ok(event)
    } else {
        Err(ControlError::InvalidTrackEvent)
    }
}

} // verus!
