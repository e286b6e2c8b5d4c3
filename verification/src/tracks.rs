//! Live, controllable audio sources: their state machines, errors, and the
//! gapless queue built on their lifecycle events.

pub mod error;
pub mod event;
pub mod queue;
pub mod ready;
pub mod track;

pub use error::{ControlError, PlayError, TrackResult};
pub use event::{Event, TrackEvent};
pub use ready::ReadyState;
pub use track::{AudioSource, Input, LoopState, PlayMode, Track, TrackAction};
pub use queue::{AddOutcome, Queued, TrackHandle, TrackQueueCore};
