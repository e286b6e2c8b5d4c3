//! One audio source's state machine: lazy or live input, readiness, play
//! state, volume, loop policy and sample-accurate position.
//!
//! Audio is modelled as 48 kHz interleaved stereo samples in a fixed-point
//! scale: a sample is an `i32` within `SAMPLE_MIN ..= SAMPLE_MAX`, and a
//! volume is a `u32` in units of `VOLUME_UNIT` (so `VOLUME_UNIT` is unity
//! gain). One 20 ms frame is `MONO_FRAME_SIZE` sample pairs, that is
//! `STEREO_FRAME_SIZE` interleaved values.
use vstd::prelude::*;

verus! {

use crate::tracks::ready::ReadyState;
use crate::tracks::error::ControlError;
use crate::tracks::error::TrackResult;

/// Stereo sample pairs per 20 ms frame at 48 kHz.
pub const MONO_FRAME_SIZE: usize = 960;

/// Interleaved samples per 20 ms stereo frame.
pub const STEREO_FRAME_SIZE: usize = 1920;

/// Full positive scale of a fixed-point PCM sample (24-bit audio).
pub const SAMPLE_MAX: i32 = 0x7fffff;

/// Full negative scale of a fixed-point PCM sample.
pub const SAMPLE_MIN: i32 = -0x800000;

/// Unity gain in fixed-point volume units.
pub const VOLUME_UNIT: u32 = 256;

/// Largest accepted volume (256 times unity); requests above it clamp.
pub const VOLUME_MAX: u32 = 65536;

/// Whether a track is playing, paused, or finished with.
///
/// `Stop` and `End` are terminal: once either is reached no further
/// decoding happens and the mixer drops the track at the next tick.
#[derive(Clone, Copy, Debug, PartialEq, Eq, Structural)]
pub enum PlayMode {
    /// The track is playing and will be mixed once playable.
    Play,
    /// The track is latched silent: it contributes nothing and does not
    /// advance until played again.
    Pause,
    /// The track was stopped by a user action; terminal.
    Stop,
    /// The input reached its end or failed unrecoverably; terminal.
    End,
}

impl PlayMode {
    /// Whether this state is terminal.
    pub open spec fn spec_is_done(self) -> bool {
        self is Stop || self is End
    }

    /// Whether this state is terminal.
    pub fn is_done(self) -> (r: bool)
        ensures
            r == self.spec_is_done(),
    {
        match self {
            PlayMode::Stop | PlayMode::End => true,
            _ => false,
        }
    }
}

/// How many times a track restarts from its beginning when its input runs
/// out before it ends.
#[derive(Clone, Copy, Debug, PartialEq, Eq, Structural)]
pub enum LoopState {
    /// Restart this many more times; at zero the track ends.
    Finite(u64),
    /// Restart forever.
    Infinite,
}

/// Decoded audio for a live input: 48 kHz interleaved stereo fixed-point
/// samples, plus the cached native Opus packets (one per frame) when the
/// input was Opus to begin with and passthrough is possible.
pub struct AudioSource {
    /// Interleaved stereo fixed-point samples.
    pub pcm: Vec<i32>,
    /// Cached Opus packets, one per 20 ms frame; empty when the input is
    /// not native Opus.
    pub opus_frames: Vec<Vec<u8>>,
    /// Whether the underlying stream supports seeking.
    pub seekable: bool,
}

impl AudioSource {
    /// Every sample in scale, and both lengths small enough that no
    /// position arithmetic can overflow.
    pub open spec fn wf(self) -> bool {
        &&& forall|i: int|
            0 <= i < self.pcm@.len() ==> SAMPLE_MIN <= #[trigger] self.pcm@[i] <= SAMPLE_MAX
        &&& self.pcm@.len() <= 0x100000000
        &&& self.opus_frames@.len() <= 0x100000
        &&& forall|i: int|
            0 <= i < self.opus_frames@.len() ==> (#[trigger] self.opus_frames@[i])@.len() <= 8192
    }

    /// Whether this source carries native Opus packets for passthrough.
    pub open spec fn spec_is_opus(self) -> bool {
        self.opus_frames@.len() > 0
    }

    /// Total stereo sample pairs this source holds: the cached Opus frames
    /// where the input is native Opus, the PCM buffer otherwise.
    pub open spec fn spec_total_pairs(self) -> int {
        if self.spec_is_opus() {
            self.opus_frames@.len() * MONO_FRAME_SIZE
        } else {
            (self.pcm@.len() / 2) as int
        }
    }
}

/// A track's input: either still a lazy source that a background task must
/// make live, or decoded audio ready to mix.
pub enum Input {
    /// Not yet promoted; a preparation task will deliver the audio.
    Lazy,
    /// Promoted and decoded.
    Live(AudioSource),
}

/// One audio source within the mixer: identity, input, readiness, play
/// state, volume, loop policy and position in stereo sample pairs.
pub struct Track {
    /// Globally unique 128-bit identity.
    pub uuid: u128,
    /// The audio itself, lazy or live.
    pub input: Input,
    /// How far promotion has advanced.
    pub ready: ReadyState,
    /// Playing, paused, or terminal.
    pub playing: PlayMode,
    /// Fixed-point gain in `VOLUME_UNIT` units.
    pub volume: u32,
    /// Remaining restarts at end of input.
    pub loops: LoopState,
    /// Playback offset in stereo sample pairs.
    pub position: u64,
}

impl Track {
    /// Validity: volume within the accepted cap, a playable track is live,
    /// live audio is in scale, and the position cannot overflow.
    pub open spec fn wf(self) -> bool {
        &&& self.volume <= VOLUME_MAX
        &&& (self.ready is Playable ==> self.input is Live)
        &&& (self.input matches Input::Live(s) ==> s.wf())
        &&& self.position <= 0x100000000
    }

    /// A track is mixed on a tick exactly when it is playing and playable.
    pub open spec fn spec_mixable(self) -> bool {
        self.playing is Play && self.ready is Playable
    }

    /// Stereo sample pairs left before this track's input runs out.
    pub open spec fn spec_avail(self) -> int {
        match self.input {
            Input::Live(s) => if self.position < s.spec_total_pairs() {
                s.spec_total_pairs() - self.position
            } else {
                0
            },
            Input::Lazy => 0,
        }
    }

    /// Sample pairs this track contributes on the coming tick.
    pub open spec fn spec_window(self) -> int {
        if self.spec_avail() >= MONO_FRAME_SIZE {
            MONO_FRAME_SIZE as int
        } else {
            self.spec_avail()
        }
    }

    /// Creates a fresh track around an input, playing from the start at
    /// unity volume. A live input is immediately playable; a lazy one
    /// waits for promotion.
    pub fn new(uuid: u128, input: Input) -> (r: Track)
        requires
            input matches Input::Live(s) ==> s.wf(),
        ensures
            r.wf(),
            r.uuid == uuid,
            r.input == input,
            r.playing is Play,
            r.volume == VOLUME_UNIT,
            r.loops == LoopState::Finite(0u64),
            r.position == 0,
            r.ready is Playable <==> input is Live,
            input is Lazy ==> r.ready is Uninitialised,
    {
        let ready = match &input {
            Input::Live(_) => ReadyState::Playable,
            Input::Lazy => ReadyState::Uninitialised,
        };
        Track {
            uuid,
            input,
            ready,
            playing: PlayMode::Play,
            volume: VOLUME_UNIT,
            loops: LoopState::Finite(0),
            position: 0,
        }
    }
}

/// What a control action does to one track. Terminal play states latch:
/// `Play`, `Pause` and `Stop` change nothing once a track is stopped or
/// ended. Volume requests clamp to `VOLUME_MAX`; a seek applies only to a
/// playable, seekable live input.
pub open spec fn spec_apply_action(t: Track, act: TrackAction) -> Track {
    match act {
        TrackAction::Play => if t.playing.spec_is_done() {
            t
        } else {
            Track { playing: PlayMode::Play, ..t }
        },
        TrackAction::Pause => if t.playing.spec_is_done() {
            t
        } else {
            Track { playing: PlayMode::Pause, ..t }
        },
        TrackAction::Stop => if t.playing.spec_is_done() {
            t
        } else {
            Track { playing: PlayMode::Stop, ..t }
        },
        TrackAction::SetVolume(v) => Track {
            volume: if v > VOLUME_MAX {
                VOLUME_MAX
            } else {
                v
            },
            ..t
        },
        TrackAction::Seek(p) => if t.ready is Playable && (t.input matches Input::Live(s)
            && s.seekable) && p <= 0x100000000 {
            Track { position: p, ..t }
        } else {
            t
        },
        TrackAction::SetLoops(l) => Track { loops: l, ..t },
    }
}

/// A control request aimed at one track by UUID.
#[derive(Clone, Copy, Debug, PartialEq, Eq, Structural)]
pub enum TrackAction {
    /// Resume (or first start) playback.
    Play,
    /// Latch the track silent without advancing it.
    Pause,
    /// Terminally stop the track; it is culled on the next tick.
    Stop,
    /// Set the fixed-point volume; clamped to `VOLUME_MAX`.
    SetVolume(u32),
    /// Jump to a position in stereo sample pairs, where supported.
    Seek(u64),
    /// Replace the loop policy.
    SetLoops(LoopState),
}

/// Applies one control action to one track, exactly as
/// [`spec_apply_action`] says.
pub fn apply_action(t: &mut Track, act: TrackAction)
    requires
        old(t).wf(),
    ensures
        *final(t) == spec_apply_action(*old(t), act),
        final(t).wf(),
{
    match act {
        TrackAction::Play => {
            if !t.playing.is_done() {
                t.playing = PlayMode::Play;
            }
        },
        TrackAction::Pause => {
            if !t.playing.is_done() {
                t.playing = PlayMode::Pause;
            }
        },
        TrackAction::Stop => {
            if !t.playing.is_done() {
                t.playing = PlayMode::Stop;
            }
        },
        TrackAction::SetVolume(v) => {
            t.volume = if v > VOLUME_MAX {
                VOLUME_MAX
            } else {
                v
            };
        },
        TrackAction::Seek(p) => {
            let seekable = match &t.input {
                Input::Live(s) => s.seekable,
                Input::Lazy => false,
            };
            if matches!(t.ready, ReadyState::Playable) && seekable && p <= 0x100000000 {
                t.position = p;
            }
        },
        TrackAction::SetLoops(l) => {
            t.loops = l;
        },
    }
}

impl Track {
    /// Requests playback. Fails with [`ControlError::Finished`] once the
    /// track is stopped or ended; nothing revives a terminal track.
    pub fn play(&mut self) -> (r: TrackResult<()>)
        ensures
            old(self).playing.spec_is_done() ==> r == TrackResult::<()>::Err(
                ControlError::Finished,
            ) && *final(self) == *old(self),
            !old(self).playing.spec_is_done() ==> r is Ok && *final(self) == (Track {
                playing: PlayMode::Play,
                ..*old(self)
            }),
    {
        if self.playing.is_done() {
            Err(ControlError::Finished)
        } else {
            self.playing = PlayMode::Play;
            Ok(())
        }
    }

    /// Latches the track silent. Fails with [`ControlError::Finished`] on
    /// a terminal track.
    pub fn pause(&mut self) -> (r: TrackResult<()>)
        ensures
            old(self).playing.spec_is_done() ==> r == TrackResult::<()>::Err(
                ControlError::Finished,
            ) && *final(self) == *old(self),
            !old(self).playing.spec_is_done() ==> r is Ok && *final(self) == (Track {
                playing: PlayMode::Pause,
                ..*old(self)
            }),
    {
        if self.playing.is_done() {
            Err(ControlError::Finished)
        } else {
            self.playing = PlayMode::Pause;
            Ok(())
        }
    }

    /// Stops the track for good. Fails with [`ControlError::Finished`] on
    /// a track that is already terminal.
    pub fn stop(&mut self) -> (r: TrackResult<()>)
        ensures
            old(self).playing.spec_is_done() ==> r == TrackResult::<()>::Err(
                ControlError::Finished,
            ) && *final(self) == *old(self),
            !old(self).playing.spec_is_done() ==> r is Ok && *final(self) == (Track {
                playing: PlayMode::Stop,
                ..*old(self)
            }),
    {
        if self.playing.is_done() {
            Err(ControlError::Finished)
        } else {
            self.playing = PlayMode::Stop;
            Ok(())
        }
    }

    /// Jumps to `position` stereo sample pairs into the input. A terminal
    /// track fails with [`ControlError::Finished`]; a track that is not
    /// yet playable, or whose input does not advertise seek support,
    /// fails with [`ControlError::SeekUnsupported`]. On success the new
    /// position is returned.
    pub fn seek(&mut self, position: u64) -> (r: TrackResult<u64>)
        requires
            position <= 0x100000000,
        ensures
            old(self).playing.spec_is_done() ==> r == TrackResult::<u64>::Err(
                ControlError::Finished,
            ) && *final(self) == *old(self),
            (!old(self).playing.spec_is_done() && !(old(self).ready is Playable && (old(
                self,
            ).input matches Input::Live(s) && s.seekable))) ==> r == TrackResult::<u64>::Err(
                ControlError::SeekUnsupported,
            ) && *final(self) == *old(self),
            (!old(self).playing.spec_is_done() && (old(self).ready is Playable && (old(
                self,
            ).input matches Input::Live(s) && s.seekable))) ==> r == TrackResult::<u64>::Ok(
                position,
            ) && *final(self) == (Track { position, ..*old(self) }),
    {
        if self.playing.is_done() {
            return Err(ControlError::Finished);
        }
        let seekable = match &self.input {
            Input::Live(s) => s.seekable,
            Input::Lazy => false,
        };
        if matches!(self.ready, ReadyState::Playable) && seekable {
            self.position = position;
            Ok(position)
        } else {
            Err(ControlError::SeekUnsupported)
        }
    }
}

impl AudioSource {
    /// Checks [`Self::wf`] at run time, so an unverified caller can test
    /// a received source before handing it to the mixer.
    pub fn is_valid(&self) -> (r: bool)
        ensures
            r == self.wf(),
    {
        if (self.pcm.len() as u64) > 0x100000000u64 {
            return false;
        }
        if (self.opus_frames.len() as u64) > 0x100000u64 {
            return false;
        }
        let mut i: usize = 0;
        while i < self.pcm.len()
            invariant
                i <= self.pcm@.len(),
                forall|k: int| 0 <= k < i ==> SAMPLE_MIN <= #[trigger] self.pcm@[k] <= SAMPLE_MAX,
            decreases self.pcm@.len() - i,
        {
            let v = self.pcm[i];
            if v < SAMPLE_MIN || v > SAMPLE_MAX {
                return false;
            }
            i += 1;
        }
        let mut j: usize = 0;
        while j < self.opus_frames.len()
            invariant
                j <= self.opus_frames@.len(),
                forall|k: int|
                    0 <= k < j ==> (#[trigger] self.opus_frames@[k])@.len() <= 8192,
            decreases self.opus_frames@.len() - j,
        {
            if self.opus_frames[j].len() > 8192 {
                return false;
            }
            j += 1;
        }
        true
    }
}

impl Track {
    /// Checks [`Self::wf`] at run time, so an unverified caller can test
    /// a received track before handing it to the mixer.
    pub fn is_valid(&self) -> (r: bool)
        ensures
            r == self.wf(),
    {
        if self.volume > VOLUME_MAX {
            return false;
        }
        if self.position > 0x100000000u64 {
            return false;
        }
        match &self.input {
            Input::Live(s) => s.is_valid(),
            Input::Lazy => !matches!(self.ready, ReadyState::Playable),
        }
    }
}

} // verus!
