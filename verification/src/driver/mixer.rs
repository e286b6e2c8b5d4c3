//! The mixer's 20 ms tick loop: select the mixable tracks, mix or pass
//! an Opus frame through, fill the silence tail, assemble and encrypt the
//! RTP packet, and advance the sequence and timestamp counters.
//!
//! The mixer is a state machine over plain values. Its caller owns the
//! clock, the channels and the UDP socket: each tick it hands any pending
//! control messages to [`Mixer::process_message`], advances readiness,
//! runs [`Mixer::mix_tick`], encodes a mixed frame if one came out, and
//! sends the packet that [`Mixer::prepare_packet`] returns.
use vstd::prelude::*;

verus! {

use crate::driver::crypto::CryptoState;
use crate::driver::crypto::CryptoMode;
use crate::driver::crypto::KEY_SIZE;
use crate::driver::crypto::copy_range;
use crate::driver::crypto::TAG_SIZE;
use crate::driver::crypto::RTP_HEADER_SIZE;
use crate::tracks::track::Track;
use crate::tracks::track::TrackAction;
use crate::tracks::track::AudioSource;
use crate::tracks::track::Input;
use crate::tracks::track::spec_apply_action;
use crate::tracks::track::apply_action;
use crate::tracks::ready::ReadyState;
use crate::tracks::track::PlayMode;
use crate::tracks::track::LoopState;
use crate::tracks::track::MONO_FRAME_SIZE;
use crate::tracks::track::STEREO_FRAME_SIZE;
use crate::tracks::track::SAMPLE_MAX;
use crate::tracks::track::SAMPLE_MIN;
use crate::tracks::track::VOLUME_UNIT;
use crate::tracks::error::PlayError;

/// Silence packets emitted after the last audible track ends, so the
/// remote decoder hears an end of speech.
pub const SILENCE_FRAME_COUNT: u8 = 5;

/// Most tracks a mixer will hold at once; tracks added beyond it are
/// dropped, which keeps every mixing sum inside an `i64`.
pub const MAX_TRACKS: usize = 4096;

/// RTP timestamp units per 20 ms tick: one stereo sample pair counts 1.
pub const TIMESTAMP_STEP: u32 = 960;

/// First RTP header byte: version 2, no padding, no extension, no CSRCs.
pub const RTP_VERSION_BYTE: u8 = 0x80;

/// RTP payload type Discord expects for Opus voice.
pub const RTP_PAYLOAD_TYPE: u8 = 0x78;

/// Largest payload handed to [`Mixer::prepare_packet`].
pub const MAX_PAYLOAD: usize = 8192;

/// The three-byte Opus silence frame.
pub open spec fn spec_silence_frame() -> Seq<u8> {
    seq![0xf8u8, 0xffu8, 0xfeu8]
}

/// Builds the three-byte Opus silence frame.
pub fn silence_frame() -> (r: Vec<u8>)
    ensures
        r@ == spec_silence_frame(),
{
    let mut r: Vec<u8> = Vec::new();
    r.push(0xf8);
    r.push(0xff);
    r.push(0xfe);
    proof {
        assert(r@ =~= spec_silence_frame());
    }
    r
}

/// The bitrate the encoder should aim for.
#[derive(Clone, Copy, Debug, PartialEq, Eq, Structural)]
pub enum Bitrate {
    /// An explicit bound in bits per second.
    BitsPerSecond(u32),
    /// Leave the choice to the encoder.
    Auto,
    /// As high as the encoder will go.
    Max,
}

/// Per-session mixer configuration.
#[derive(Clone, Copy, Debug, PartialEq, Eq, Structural)]
pub struct Config {
    /// How many lazy tracks may be in `Preparing` at once.
    pub preload_count: usize,
    /// Capacity of the channel that carries decoded audio to the mixer.
    pub decode_channel_capacity: usize,
    /// The negotiated packet encryption mode to start sessions with.
    pub crypto_mode: CryptoMode,
    /// Whether the five-frame silence tail is emitted after audio stops.
    pub mix_and_stop_silent_packets: bool,
    /// Whether mixed audio is soft-clipped by the encoding stage.
    pub use_softclip: bool,
}

impl Default for Config {
    /// One track preparing at a time, header-nonce encryption, the
    /// silence tail on, soft clipping on.
    fn default() -> (r: Self)
        ensures
            r.preload_count == 1,
            r.decode_channel_capacity == 16,
            r.crypto_mode is Normal,
            r.mix_and_stop_silent_packets == true,
            r.use_softclip == true,
    {
        Config {
            preload_count: 1,
            decode_channel_capacity: 16,
            crypto_mode: CryptoMode::Normal,
            mix_and_stop_silent_packets: true,
            use_softclip: true,
        }
    }
}

/// What a session's gateway handshake delivers: the cipher key and the
/// nonce state for the negotiated mode.
pub struct MixerConnection {
    /// The 32-byte `XSalsa20Poly1305` key.
    pub key: Vec<u8>,
    /// Nonce state for the negotiated crypto mode.
    pub crypto_state: CryptoState,
}

impl MixerConnection {
    /// The key has exactly the cipher's key size.
    pub open spec fn wf(self) -> bool {
        self.key@.len() == KEY_SIZE
    }

    /// Checks [`Self::wf`] at run time, so an unverified caller can test
    /// a received connection before installing it.
    pub fn is_valid(&self) -> (r: bool)
        ensures
            r == self.wf(),
    {
        self.key.len() == KEY_SIZE
    }
}

/// A control message drained at a tick boundary.
pub enum MixerMessage {
    /// Take ownership of a new track. Dropped silently when the mixer is
    /// full.
    AddTrack(Track),
    /// Apply an action to the first track with this UUID; unknown UUIDs
    /// are dropped silently.
    SetTrack(u128, TrackAction),
    /// Install a connection (key and crypto state) and the session SSRC.
    SetConn(MixerConnection, u32),
    /// Drop the connection; ticks emit nothing until a new one arrives.
    DropConn,
    /// Replace the configuration.
    SetConfig(Config),
    /// Replace the target bitrate.
    SetBitrate(Bitrate),
    /// A background preparation task finished for the track with this
    /// UUID: either decoded audio, or the error that ends the track.
    PrepareFinished(u128, Result<AudioSource, PlayError>),
    /// Shut the mixer down at this tick boundary.
    Poison,
}

impl MixerMessage {
    /// Checks at run time the payload validity that
    /// [`Mixer::process_message`] requires, so an unverified caller can
    /// test a received message before forwarding it.
    pub fn is_valid(&self) -> (r: bool)
        ensures
            r == {
                &&& (self matches MixerMessage::AddTrack(t) ==> t.wf())
                &&& (self matches MixerMessage::SetConn(c, _) ==> c.wf())
                &&& (self matches MixerMessage::PrepareFinished(_, Ok(s)) ==> s.wf())
            },
    {
        match self {
            MixerMessage::AddTrack(t) => t.is_valid(),
            MixerMessage::SetConn(c, _) => c.is_valid(),
            MixerMessage::PrepareFinished(_, res) => match res {
                Ok(s) => s.is_valid(),
                Err(_) => true,
            },
            _ => true,
        }
    }
}

/// `i` is the first index in `ts` holding the track named `uuid`.
pub open spec fn spec_first_match(ts: Seq<Track>, uuid: u128, i: int) -> bool {
    &&& 0 <= i < ts.len()
    &&& ts[i].uuid == uuid
    &&& forall|k: int| 0 <= k < i ==> ts[k].uuid != uuid
}

/// What finishing preparation does to one track: decoded audio makes a
/// preparing track playable; a failure ends it. Tracks not in
/// `Preparing` are left alone.
pub open spec fn spec_finish_prepare(t: Track, res: Result<AudioSource, PlayError>) -> Track {
    if t.ready is Preparing {
        match res {
            Ok(s) => Track {
                input: Input::Live(s),
                ready: ReadyState::Playable,
                position: 0,
                ..t
            },
            Err(_) => Track { playing: PlayMode::End, ..t },
        }
    } else {
        t
    }
}

/// Tracks in `Preparing` among the first `n` of `ts`.
pub open spec fn spec_count_preparing(ts: Seq<Track>, n: int) -> int
    decreases n,
{
    if n <= 0 {
        0
    } else {
        spec_count_preparing(ts, n - 1) + if ts[n - 1].ready is Preparing {
            1int
        } else {
            0int
        }
    }
}

/// The mixer: the owned tracks plus per-packet state.
pub struct Mixer {
    /// The tracks owned until they end.
    pub tracks: Vec<Track>,
    /// RTP sequence number; wraps.
    pub sequence: u16,
    /// RTP timestamp; advances by `TIMESTAMP_STEP` per tick; wraps.
    pub timestamp: u32,
    /// RTP synchronisation source, assigned by the gateway.
    pub ssrc: u32,
    /// Silence-tail packets still owed.
    pub silence_frames: u8,
    /// The session connection, once the gateway delivered one.
    pub conn_active: Option<MixerConnection>,
    /// Current configuration.
    pub config: Config,
    /// Target bitrate for the encoding stage.
    pub bitrate: Bitrate,
    /// Bench escape: the caller skips the tick sleep when set.
    pub skip_sleep: bool,
    /// Set when a `Poison` message arrived; the caller exits its loop.
    pub poisoned: bool,
}

/// Everything except the tracks is the same in `a` and `b`.
pub open spec fn spec_same_but_tracks(a: Mixer, b: Mixer) -> bool {
    &&& a.sequence == b.sequence
    &&& a.timestamp == b.timestamp
    &&& a.ssrc == b.ssrc
    &&& a.silence_frames == b.silence_frames
    &&& a.conn_active == b.conn_active
    &&& a.config == b.config
    &&& a.bitrate == b.bitrate
    &&& a.skip_sleep == b.skip_sleep
    &&& a.poisoned == b.poisoned
}

impl Mixer {
    /// Validity: few enough tracks that mixing sums fit, every track
    /// valid, and any installed key of the cipher's size.
    pub open spec fn wf(self) -> bool {
        &&& self.tracks@.len() <= MAX_TRACKS
        &&& forall|i: int| 0 <= i < self.tracks@.len() ==> (#[trigger] self.tracks@[i]).wf()
        &&& (self.conn_active matches Some(c) ==> c.wf())
    }

    /// A fresh, unconnected mixer: no tracks, counters at zero, the full
    /// silence tail owed so a connection starts with end-of-speech.
    pub fn new(config: Config) -> (r: Mixer)
        ensures
            r.wf(),
            r.tracks@.len() == 0,
            r.sequence == 0,
            r.timestamp == 0,
            r.ssrc == 0,
            r.silence_frames == SILENCE_FRAME_COUNT,
            r.conn_active is None,
            r.config == config,
            r.bitrate is Auto,
            r.skip_sleep == false,
            r.poisoned == false,
    {
        Mixer {
            tracks: Vec::new(),
            sequence: 0,
            timestamp: 0,
            ssrc: 0,
            silence_frames: SILENCE_FRAME_COUNT,
            conn_active: None,
            config,
            bitrate: Bitrate::Auto,
            skip_sleep: false,
            poisoned: false,
        }
    }

    /// Take ownership of a track. When the mixer is already full the
    /// track is dropped, as a control message for it would be. The cap is
    /// this model's overflow bound on the mixing sums; upstream no cap
    /// exists, and real sessions never approach it.
    pub fn add_track(&mut self, track: Track)
        requires
            old(self).wf(),
            track.wf(),
        ensures
            final(self).wf(),
            spec_same_but_tracks(*final(self), *old(self)),
            old(self).tracks@.len() < MAX_TRACKS ==> final(self).tracks@ == old(self).tracks@.push(track),
            old(self).tracks@.len() >= MAX_TRACKS ==> final(self).tracks@ == old(self).tracks@,
    {
        if self.tracks.len() < MAX_TRACKS {
            self.tracks.push(track);
        }
    }

    /// Applies one drained control message, exactly as each arm of the
    /// postcondition says. Messages aimed at an unknown UUID change
    /// nothing.
    pub fn process_message(&mut self, msg: MixerMessage)
        requires
            old(self).wf(),
            msg matches MixerMessage::AddTrack(t) ==> t.wf(),
            msg matches MixerMessage::SetConn(c, _) ==> c.wf(),
            msg matches MixerMessage::PrepareFinished(_, Ok(s)) ==> s.wf(),
        ensures
            final(self).wf(),
            final(self).sequence == old(self).sequence,
            final(self).timestamp == old(self).timestamp,
            msg matches MixerMessage::AddTrack(t) ==> spec_same_but_tracks(
                *final(self),
                *old(self),
            ) && (old(self).tracks@.len() < MAX_TRACKS ==> final(self).tracks@ == old(self).tracks@.push(t)) && (old(self).tracks@.len() >= MAX_TRACKS ==> final(self).tracks@
                == old(self).tracks@),
            msg matches MixerMessage::SetTrack(uuid, act) ==> spec_same_but_tracks(
                *final(self),
                *old(self),
            ) && final(self).tracks@.len() == old(self).tracks@.len() && (forall|i: int|
                0 <= i < old(self).tracks@.len() ==> final(self).tracks@[i] == (
                if spec_first_match(old(self).tracks@, uuid, i) {
                    spec_apply_action(old(self).tracks@[i], act)
                } else {
                    old(self).tracks@[i]
                })),
            msg matches MixerMessage::PrepareFinished(uuid, res) ==> spec_same_but_tracks(
                *final(self),
                *old(self),
            ) && final(self).tracks@.len() == old(self).tracks@.len() && (forall|i: int|
                0 <= i < old(self).tracks@.len() ==> final(self).tracks@[i] == (
                if spec_first_match(old(self).tracks@, uuid, i) {
                    spec_finish_prepare(old(self).tracks@[i], res)
                } else {
                    old(self).tracks@[i]
                })),
            msg matches MixerMessage::SetConn(c, ssrc) ==> final(self).tracks@ == old(self).tracks@ && final(self).conn_active == Some(c) && final(self).ssrc == ssrc && final(self).silence_frames == old(self).silence_frames && final(self).config == old(self).config
                && final(self).bitrate == old(self).bitrate && final(self).poisoned == old(self).poisoned,
            msg matches MixerMessage::DropConn ==> final(self).conn_active is None && final(self).tracks@ == old(self).tracks@ && final(self).ssrc == old(self).ssrc && final(self).config == old(self).config && final(self).poisoned == old(self).poisoned,
            msg matches MixerMessage::SetConfig(c) ==> final(self).config == c && final(self).tracks@ == old(self).tracks@ && final(self).conn_active == old(self).conn_active
                && final(self).poisoned == old(self).poisoned,
            msg matches MixerMessage::SetBitrate(b) ==> final(self).bitrate == b && final(self).tracks@ == old(self).tracks@ && final(self).conn_active == old(self).conn_active
                && final(self).poisoned == old(self).poisoned,
            msg matches MixerMessage::Poison ==> final(self).poisoned == true && final(self).tracks@ == old(self).tracks@ && final(self).conn_active == old(self).conn_active,
    {
        match msg {
            MixerMessage::AddTrack(t) => {
                self.add_track(t);
            },
            MixerMessage::SetTrack(uuid, act) => {
                let n = self.tracks.len();
                let mut i: usize = 0;
                let mut found = false;
                while i < n && !found
                    invariant
                        n == self.tracks@.len(),
                        i <= n,
                        self.wf(),
                        spec_same_but_tracks(*self, *old(self)),
                        !found ==> self.tracks@ == old(self).tracks@ && (forall|k: int|
                            0 <= k < i ==> old(self).tracks@[k].uuid != uuid),
                        found ==> exists|m: int|
                            spec_first_match(old(self).tracks@, uuid, m) && self.tracks@ == old(self).tracks@.update(
                                m,
                                spec_apply_action(old(self).tracks@[m], act),
                            ),
                    decreases n - i,
                {
                    if self.tracks[i].uuid == uuid {
                        let t = self.tracks.remove(i);
                        let mut t2 = t;
                        apply_action(&mut t2, act);
                        self.tracks.insert(i, t2);
                        proof {
                            assert(spec_first_match(old(self).tracks@, uuid, i as int));
                            assert(self.tracks@ =~= old(self).tracks@.update(
                                i as int,
                                spec_apply_action(old(self).tracks@[i as int], act),
                            ));
                            assert(exists|m: int|
                                spec_first_match(old(self).tracks@, uuid, m) && self.tracks@
                                    == old(self).tracks@.update(
                                    m,
                                    spec_apply_action(old(self).tracks@[m], act),
                                ));
                        }
                        found = true;
                    }
                    i += 1;
                }
            },
            MixerMessage::PrepareFinished(uuid, res) => {
                let n = self.tracks.len();
                let mut i: usize = 0;
                let mut found = false;
                let mut res_opt = res;
                while i < n && !found
                    invariant
                        n == self.tracks@.len(),
                        i <= n,
                        self.wf(),
                        spec_same_but_tracks(*self, *old(self)),
                        !found ==> res_opt == res && self.tracks@ == old(self).tracks@ && (
                        forall|k: int| 0 <= k < i ==> old(self).tracks@[k].uuid != uuid),
                        found ==> exists|m: int|
                            spec_first_match(old(self).tracks@, uuid, m) && self.tracks@ == old(self).tracks@.update(m, spec_finish_prepare(old(self).tracks@[m], res)),
                        res_opt matches Ok(s) ==> s.wf(),
                    decreases n - i,
                {
                    if self.tracks[i].uuid == uuid {
                        let t = self.tracks.remove(i);
                        let t2 = finish_prepare(t, res_opt);
                        res_opt = Err(PlayError::Create);
                        self.tracks.insert(i, t2);
                        proof {
                            assert(spec_first_match(old(self).tracks@, uuid, i as int));
                            assert(self.tracks@ =~= old(self).tracks@.update(
                                i as int,
                                spec_finish_prepare(old(self).tracks@[i as int], res),
                            ));
                            assert(exists|m: int|
                                spec_first_match(old(self).tracks@, uuid, m) && self.tracks@
                                    == old(self).tracks@.update(
                                    m,
                                    spec_finish_prepare(old(self).tracks@[m], res),
                                ));
                        }
                        found = true;
                    }
                    i += 1;
                }
            },
            MixerMessage::SetConn(c, ssrc) => {
                self.conn_active = Some(c);
                self.ssrc = ssrc;
            },
            MixerMessage::DropConn => {
                self.conn_active = None;
            },
            MixerMessage::SetConfig(c) => {
                self.config = c;
            },
            MixerMessage::SetBitrate(b) => {
                self.bitrate = b;
            },
            MixerMessage::Poison => {
                self.poisoned = true;
            },
        }
    }
}

/// Applies a finished preparation to one track, exactly as
/// [`spec_finish_prepare`] says.
fn finish_prepare(t: Track, res: Result<AudioSource, PlayError>) -> (r: Track)
    requires
        t.wf(),
        res matches Ok(s) ==> s.wf(),
    ensures
        r == spec_finish_prepare(t, res),
        r.wf(),
{
    if matches!(t.ready, ReadyState::Preparing) {
        match res {
            Ok(s) => Track {
                input: Input::Live(s),
                ready: ReadyState::Playable,
                position: 0,
                ..t
            },
            Err(_) => Track { playing: PlayMode::End, ..t },
        }
    } else {
        t
    }
}

/// One track's scaled contribution to the mix at interleaved offset `j`
/// of the current frame: its sample there times its volume, zero for any
/// track that is not mixable or has no sample there. Scaled by
/// `VOLUME_UNIT`: dividing the final sum back down gives the output.
pub open spec fn spec_sample_at(t: Track, j: int) -> int {
    if t.spec_mixable() && t.input is Live && 0 <= j && 2 * t.position + j
        < t.input->Live_0.pcm@.len() {
        t.input->Live_0.pcm@[2 * t.position + j] * t.volume
    } else {
        0
    }
}

/// Sum of the first `n` tracks' contributions at offset `j`.
pub open spec fn spec_mix_partial(ts: Seq<Track>, n: int, j: int) -> int
    decreases n,
{
    if n <= 0 {
        0
    } else {
        spec_mix_partial(ts, n - 1, j) + spec_sample_at(ts[n - 1], j)
    }
}

/// Truncating division by `VOLUME_UNIT`, the inverse of the scaling in
/// [`spec_sample_at`].
pub open spec fn spec_div_unit(x: int) -> int {
    if x >= 0 {
        x / (VOLUME_UNIT as int)
    } else {
        -((-x) / (VOLUME_UNIT as int))
    }
}

/// Saturation to the sample scale, applied on the final write.
pub open spec fn spec_clamp(x: int) -> int {
    if x > SAMPLE_MAX {
        SAMPLE_MAX as int
    } else if x < SAMPLE_MIN {
        SAMPLE_MIN as int
    } else {
        x
    }
}

/// The mixed output sample at offset `j`: every mixable track's
/// volume-scaled sample summed, scaled back down, and saturated.
pub open spec fn spec_mixed_sample(ts: Seq<Track>, j: int) -> int {
    spec_clamp(spec_div_unit(spec_mix_partial(ts, ts.len() as int, j)))
}

/// Mixable tracks among the first `n` of `ts`.
pub open spec fn spec_mixable_count(ts: Seq<Track>, n: int) -> int
    decreases n,
{
    if n <= 0 {
        0
    } else {
        spec_mixable_count(ts, n - 1) + if ts[n - 1].spec_mixable() {
            1int
        } else {
            0int
        }
    }
}

/// The passthrough condition: exactly one mixable track, and it is a
/// native Opus source at unity volume with a frame still to give.
pub open spec fn spec_passthrough(ts: Seq<Track>) -> bool {
    &&& spec_mixable_count(ts, ts.len() as int) == 1
    &&& forall|i: int|
        0 <= i < ts.len() && (#[trigger] ts[i]).spec_mixable() ==> {
            &&& ts[i].input is Live
            &&& ts[i].input->Live_0.spec_is_opus()
            &&& ts[i].volume == VOLUME_UNIT
            &&& ts[i].spec_avail() > 0
        }
}

/// How one tick moves one track on. Only mixable tracks move: a full
/// window advances the position one frame; a short window is the end of
/// input, which restarts the track when loops remain and otherwise ends
/// it. Everything else - paused, stopped, unready tracks - stays put.
pub open spec fn spec_tick_track(t: Track) -> Track {
    if !t.spec_mixable() {
        t
    } else {
        let w = t.spec_window();
        if w == MONO_FRAME_SIZE {
            Track { position: (t.position + MONO_FRAME_SIZE) as u64, ..t }
        } else {
            match t.loops {
                LoopState::Infinite => Track { position: 0, ..t },
                LoopState::Finite(c) => if c > 0 {
                    Track { position: 0, loops: LoopState::Finite((c - 1) as u64), ..t }
                } else {
                    Track {
                        playing: PlayMode::End,
                        position: (t.position + w) as u64,
                        ..t
                    }
                },
            }
        }
    }
}

/// The tracks that survive the tick (advanced, in order): every track
/// whose post-tick play state is not terminal.
pub open spec fn spec_surviving(ts: Seq<Track>, n: int) -> Seq<Track>
    decreases n,
{
    if n <= 0 {
        Seq::empty()
    } else {
        let prev = spec_surviving(ts, n - 1);
        let t2 = spec_tick_track(ts[n - 1]);
        if t2.playing.spec_is_done() {
            prev
        } else {
            prev.push(t2)
        }
    }
}

/// The UUIDs culled by the tick, in order: every track whose post-tick
/// play state is terminal, whether it ended naturally or was stopped.
pub open spec fn spec_ended_uuids(ts: Seq<Track>, n: int) -> Seq<u128>
    decreases n,
{
    if n <= 0 {
        Seq::empty()
    } else {
        let prev = spec_ended_uuids(ts, n - 1);
        let t2 = spec_tick_track(ts[n - 1]);
        if t2.playing.spec_is_done() {
            prev.push(t2.uuid)
        } else {
            prev
        }
    }
}

/// One track's contribution is bounded by full scale times the volume
/// cap.
pub proof fn lemma_sample_bound(t: Track, j: int)
    requires
        t.wf(),
    ensures
        -0x8000000000 <= spec_sample_at(t, j) <= 0x8000000000,
{
    if t.spec_mixable() && t.input is Live && 0 <= j && 2 * t.position + j
        < t.input->Live_0.pcm@.len() {
        let v = t.input->Live_0.pcm@[2 * t.position + j];
        let vol = t.volume;
        assert(-0x8000000000 <= v * vol <= 0x8000000000) by (nonlinear_arith)
            requires
                -0x800000 <= v <= 0x7fffff,
                0 <= vol <= 0x10000,
        ;
    }
}

/// A partial mix of `n` tracks is bounded by `n` single-track bounds, so
/// every accumulator value fits comfortably in an `i64`.
pub proof fn lemma_mix_partial_bound(ts: Seq<Track>, n: int, j: int)
    requires
        0 <= n <= ts.len(),
        forall|i: int| 0 <= i < ts.len() ==> (#[trigger] ts[i]).wf(),
    ensures
        -(n * 0x8000000000) <= spec_mix_partial(ts, n, j) <= n * 0x8000000000,
    decreases n,
{
    if n > 0 {
        lemma_mix_partial_bound(ts, n - 1, j);
        lemma_sample_bound(ts[n - 1], j);
    }
}

/// Stereo sample pairs left in `t`, as [`Track::spec_avail`] counts them.
fn track_avail(t: &Track) -> (r: u64)
    requires
        t.wf(),
    ensures
        r == t.spec_avail(),
{
    match &t.input {
        Input::Live(s) => {
            proof {
                assert(s.opus_frames@.len() <= 0x100000);
                assert(s.pcm@.len() <= 0x100000000);
                assert(s.opus_frames@.len() * (MONO_FRAME_SIZE as int) <= 0x100000 * 960)
                    by (nonlinear_arith)
                    requires
                        s.opus_frames@.len() <= 0x100000,
                        MONO_FRAME_SIZE == 960,
                ;
            }
            let total: u64 = if s.opus_frames.len() > 0 {
                (s.opus_frames.len() as u64) * (MONO_FRAME_SIZE as u64)
            } else {
                (s.pcm.len() / 2) as u64
            };
            if t.position < total {
                total - t.position
            } else {
                0
            }
        },
        Input::Lazy => 0,
    }
}

/// Moves one track through a tick, exactly as [`spec_tick_track`] says.
fn tick_track(t: Track) -> (r: Track)
    requires
        t.wf(),
    ensures
        r == spec_tick_track(t),
        r.wf(),
{
    if !(matches!(t.playing, PlayMode::Play) && matches!(t.ready, ReadyState::Playable)) {
        return t;
    }
    let avail = track_avail(&t);
    if avail >= MONO_FRAME_SIZE as u64 {
        Track { position: t.position + MONO_FRAME_SIZE as u64, ..t }
    } else {
        match t.loops {
            LoopState::Infinite => Track { position: 0, ..t },
            LoopState::Finite(c) => if c > 0 {
                Track { position: 0, loops: LoopState::Finite(c - 1), ..t }
            } else {
                Track { playing: PlayMode::End, position: t.position + avail, ..t }
            },
        }
    }
}

/// Mixes one 20 ms frame from every mixable track: per interleaved
/// offset, the volume-scaled sum of their samples, scaled back down and
/// saturated to the sample range.
fn mix_frame(tracks: &Vec<Track>) -> (out: Vec<i32>)
    requires
        tracks@.len() <= MAX_TRACKS,
        forall|i: int| 0 <= i < tracks@.len() ==> (#[trigger] tracks@[i]).wf(),
    ensures
        out@.len() == STEREO_FRAME_SIZE,
        forall|j: int| 0 <= j < STEREO_FRAME_SIZE ==> out@[j] == spec_mixed_sample(tracks@, j),
{
    let n = tracks.len();
    let mut acc: Vec<i64> = Vec::new();
    let mut z: usize = 0;
    while z < STEREO_FRAME_SIZE
        invariant
            z <= STEREO_FRAME_SIZE,
            acc@.len() == z,
            forall|k: int| 0 <= k < z ==> acc@[k] == 0,
        decreases STEREO_FRAME_SIZE - z,
    {
        acc.push(0);
        z += 1;
    }
    let mut i: usize = 0;
    while i < n
        invariant
            n == tracks@.len(),
            n <= MAX_TRACKS,
            i <= n,
            forall|k: int| 0 <= k < tracks@.len() ==> (#[trigger] tracks@[k]).wf(),
            acc@.len() == STEREO_FRAME_SIZE,
            forall|k: int|
                0 <= k < STEREO_FRAME_SIZE ==> acc@[k] == spec_mix_partial(tracks@, i as int, k),
        decreases n - i,
    {
        let t = &tracks[i];
        let mixable = matches!(t.playing, PlayMode::Play) && matches!(
            t.ready,
            ReadyState::Playable,
        );
        let is_live = matches!(t.input, Input::Live(_));
        if mixable && is_live {
            let mut j: usize = 0;
            while j < STEREO_FRAME_SIZE
                invariant
                    n == tracks@.len(),
                    n <= MAX_TRACKS,
                    i < n,
                    j <= STEREO_FRAME_SIZE,
                    forall|k: int| 0 <= k < tracks@.len() ==> (#[trigger] tracks@[k]).wf(),
                    tracks@[i as int].spec_mixable(),
                    tracks@[i as int].input is Live,
                    acc@.len() == STEREO_FRAME_SIZE,
                    forall|k: int| 0 <= k < j ==> acc@[k] == spec_mix_partial(tracks@, i + 1, k),
                    forall|k: int|
                        j <= k < STEREO_FRAME_SIZE ==> acc@[k] == spec_mix_partial(
                            tracks@,
                            i as int,
                            k,
                        ),
                decreases STEREO_FRAME_SIZE - j,
            {
                let t2 = &tracks[i];
                let term: i64 = match &t2.input {
                    Input::Live(s) => {
                        let idx: u64 = 2 * t2.position + (j as u64);
                        if idx < s.pcm.len() as u64 {
                            let sval = s.pcm[idx as usize];
                            let vol = t2.volume;
                            proof {
                                assert(tracks@[i as int].wf());
                                assert(SAMPLE_MIN <= sval <= SAMPLE_MAX);
                                assert(-0x8000000000 <= (sval as i64) * (vol as i64)
                                    <= 0x8000000000) by (nonlinear_arith)
                                    requires
                                        -0x800000 <= sval <= 0x7fffff,
                                        0 <= vol <= 0x10000,
                                ;
                            }
                            (sval as i64) * (vol as i64)
                        } else {
                            0
                        }
                    },
                    Input::Lazy => 0,
                };
                proof {
                    lemma_sample_bound(tracks@[i as int], j as int);
                    assert(term == spec_sample_at(tracks@[i as int], j as int));
                    lemma_mix_partial_bound(tracks@, i as int, j as int);
                }
                let v = acc[j];
                acc.set(j, v + term);
                j += 1;
            }
        } else {
            proof {
                assert forall|k: int|
                    0 <= k < STEREO_FRAME_SIZE implies spec_mix_partial(tracks@, i + 1, k)
                    == spec_mix_partial(tracks@, i as int, k) by {
                    assert(spec_sample_at(tracks@[i as int], k) == 0);
                }
            }
        }
        i += 1;
    }
    let mut out: Vec<i32> = Vec::new();
    let mut j: usize = 0;
    while j < STEREO_FRAME_SIZE
        invariant
            n == tracks@.len(),
            n <= MAX_TRACKS,
            j <= STEREO_FRAME_SIZE,
            forall|k: int| 0 <= k < tracks@.len() ==> (#[trigger] tracks@[k]).wf(),
            acc@.len() == STEREO_FRAME_SIZE,
            forall|k: int|
                0 <= k < STEREO_FRAME_SIZE ==> acc@[k] == spec_mix_partial(tracks@, n as int, k),
            out@.len() == j,
            forall|k: int| 0 <= k < j ==> out@[k] == spec_mixed_sample(tracks@, k),
        decreases STEREO_FRAME_SIZE - j,
    {
        let v: i64 = acc[j];
        proof {
            lemma_mix_partial_bound(tracks@, n as int, j as int);
        }
        let d: i64 = if v >= 0 {
            (((v as u64) / (VOLUME_UNIT as u64)) as i64)
        } else {
            -((((-v) as u64) / (VOLUME_UNIT as u64)) as i64)
        };
        let c: i32 = if d > SAMPLE_MAX as i64 {
            SAMPLE_MAX
        } else if d < SAMPLE_MIN as i64 {
            SAMPLE_MIN
        } else {
            d as i32
        };
        out.push(c);
        j += 1;
    }
    out
}

/// What one tick produced before packet assembly.
pub enum MixOutput {
    /// No connection is installed; nothing happens on this tick.
    NoConn,
    /// Exactly one native-Opus track at unity volume: its next cached
    /// Opus packet, to be sent without re-encoding.
    Passthrough(Vec<u8>),
    /// The mixed 20 ms frame; the caller encodes it to Opus and then
    /// assembles the packet.
    Mixed(Vec<i32>),
    /// No audio, but silence-tail packets are owed: send the silence
    /// frame.
    Silence,
    /// No audio and no silence owed: no packet, but the timestamp still
    /// advances.
    Skip,
}

/// What a tick did to the tracks: the output to emit and the UUIDs of
/// every track culled this tick (ended or stopped), in order.
pub struct TickResult {
    /// What to emit.
    pub output: MixOutput,
    /// Culled track UUIDs, for end-of-track events.
    pub ended: Vec<u128>,
}

impl Mixer {
    /// One tick's audio work: select the mixable tracks, produce the
    /// output (passthrough frame, mixed frame, silence, or nothing),
    /// advance every mixable track, end and cull finished ones. Counters
    /// are not touched here; packet assembly advances them.
    pub fn mix_tick(&mut self) -> (r: TickResult)
        requires
            old(self).wf(),
        ensures
            final(self).wf(),
            final(self).sequence == old(self).sequence,
            final(self).timestamp == old(self).timestamp,
            final(self).ssrc == old(self).ssrc,
            final(self).conn_active == old(self).conn_active,
            final(self).config == old(self).config,
            final(self).bitrate == old(self).bitrate,
            final(self).skip_sleep == old(self).skip_sleep,
            final(self).poisoned == old(self).poisoned,
            (r.output is NoConn <==> old(self).conn_active is None),
            r.output is NoConn ==> *final(self) == *old(self) && r.ended@.len() == 0,
            old(self).conn_active is Some ==> {
                let ts = old(self).tracks@;
                let n = ts.len() as int;
                &&& final(self).tracks@ == spec_surviving(ts, n)
                &&& r.ended@ == spec_ended_uuids(ts, n)
                &&& (r.output is Passthrough <==> spec_passthrough(ts))
                &&& (spec_passthrough(ts) ==> forall|i: int|
                    0 <= i < n && (#[trigger] ts[i]).spec_mixable()
                        ==> r.output->Passthrough_0@ == ts[i].input->Live_0.opus_frames@[
                        ts[i].position as int / (MONO_FRAME_SIZE as int)
                    ]@)
                &&& (r.output is Mixed <==> (!spec_passthrough(ts) && spec_mixable_count(ts, n)
                    > 0))
                &&& (r.output is Mixed ==> r.output->Mixed_0@.len() == STEREO_FRAME_SIZE && (
                forall|j: int|
                    0 <= j < STEREO_FRAME_SIZE ==> r.output->Mixed_0@[j] == spec_mixed_sample(
                        ts,
                        j,
                    )))
                &&& (spec_mixable_count(ts, n) == 0 ==> (
                if old(self).silence_frames > 0 && old(self).config.mix_and_stop_silent_packets {
                    r.output is Silence && final(self).silence_frames == old(self).silence_frames
                        - 1
                } else {
                    r.output is Skip && final(self).silence_frames == old(self).silence_frames
                }))
                &&& (spec_mixable_count(ts, n) > 0 ==> final(self).silence_frames
                    == SILENCE_FRAME_COUNT)
            },
    {
        if self.conn_active.is_none() {
            return TickResult { output: MixOutput::NoConn, ended: Vec::new() };
        }
        let ghost ts = self.tracks@;
        let n = self.tracks.len();

        // Select: count the mixable tracks and remember one of them.
        let mut count: usize = 0;
        let mut cand: usize = 0;
        let mut i: usize = 0;
        while i < n
            invariant
                *self == *old(self),
                n == self.tracks@.len(),
                i <= n,
                count <= i,
                count == spec_mixable_count(self.tracks@, i as int),
                count > 0 ==> cand < i && self.tracks@[cand as int].spec_mixable(),
                count == 1 ==> forall|k: int|
                    0 <= k < i && (#[trigger] self.tracks@[k]).spec_mixable() ==> k == cand,
                count == 0 ==> forall|k: int|
                    0 <= k < i ==> !(#[trigger] self.tracks@[k]).spec_mixable(),
            decreases n - i,
        {
            let t = &self.tracks[i];
            if matches!(t.playing, PlayMode::Play) && matches!(t.ready, ReadyState::Playable) {
                if count == 0 {
                    cand = i;
                }
                count += 1;
            }
            i += 1;
        }

        // Decide the output from the pre-advance state.
        let output: MixOutput = if count == 0 {
            if self.silence_frames > 0 && self.config.mix_and_stop_silent_packets {
                self.silence_frames = self.silence_frames - 1;
                MixOutput::Silence
            } else {
                MixOutput::Skip
            }
        } else {
            let pt_frame: Option<Vec<u8>> = if count == 1 {
                let t = &self.tracks[cand];
                let avail = track_avail(t);
                match &t.input {
                    Input::Live(s) => {
                        if s.opus_frames.len() > 0 && t.volume == VOLUME_UNIT && avail > 0 {
                            let idx64 = t.position / (MONO_FRAME_SIZE as u64);
                            proof {
                                assert(self.tracks@[cand as int].wf());
                                assert(t.position < s.opus_frames@.len() * (
                                MONO_FRAME_SIZE as int));
                                assert(t.position as int / (MONO_FRAME_SIZE as int)
                                    < s.opus_frames@.len()) by (nonlinear_arith)
                                    requires
                                        0 <= t.position as int,
                                        (t.position as int) < s.opus_frames@.len() * (
                                        MONO_FRAME_SIZE as int),
                                        MONO_FRAME_SIZE == 960,
                                ;
                            }
                            let idx = idx64 as usize;
                            let frame = &s.opus_frames[idx];
                            Some(copy_frame(frame))
                        } else {
                            None
                        }
                    },
                    Input::Lazy => None,
                }
            } else {
                None
            };
            self.silence_frames = SILENCE_FRAME_COUNT;
            match pt_frame {
                Some(frame) => MixOutput::Passthrough(frame),
                None => MixOutput::Mixed(mix_frame(&self.tracks)),
            }
        };

        // Advance, end and cull.
        let ghost sf = self.silence_frames;
        let mut kept: Vec<Track> = Vec::new();
        let mut ended: Vec<u128> = Vec::new();
        let mut i2: usize = 0;
        while i2 < n
            invariant
                self.sequence == old(self).sequence,
                self.timestamp == old(self).timestamp,
                self.ssrc == old(self).ssrc,
                self.conn_active == old(self).conn_active,
                self.config == old(self).config,
                self.bitrate == old(self).bitrate,
                self.skip_sleep == old(self).skip_sleep,
                self.poisoned == old(self).poisoned,
                self.silence_frames == sf,
                old(self).conn_active is Some ==> (self.conn_active matches Some(c) && c.wf()),
                n == ts.len(),
                i2 <= n,
                self.tracks@ =~= ts.skip(i2 as int),
                forall|k: int| 0 <= k < ts.len() ==> (#[trigger] ts[k]).wf(),
                kept@.len() <= i2,
                kept@ == spec_surviving(ts, i2 as int),
                ended@ == spec_ended_uuids(ts, i2 as int),
                forall|k: int| 0 <= k < kept@.len() ==> (#[trigger] kept@[k]).wf(),
            decreases n - i2,
        {
            let t = self.tracks.remove(0);
            proof {
                assert(t == ts[i2 as int]);
                assert(self.tracks@ =~= ts.skip(i2 + 1));
            }
            let t2 = tick_track(t);
            if t2.playing.is_done() {
                ended.push(t2.uuid);
            } else {
                kept.push(t2);
            }
            i2 += 1;
        }
        self.tracks = kept;
        TickResult { output, ended }
    }
}

/// Copies one cached Opus packet out for emission.
fn copy_frame(frame: &Vec<u8>) -> (r: Vec<u8>)
    ensures
        r@ == frame@,
{
    let out = copy_range(frame, 0, frame.len());
    proof {
        assert(frame@.subrange(0, frame@.len() as int) =~= frame@);
    }
    out
}

/// A value reduced modulo 2^16, as the RTP sequence counter wraps.
pub open spec fn spec_wrap_u16(x: int) -> u16 {
    (x % 0x10000) as u16
}

/// A value reduced modulo 2^32, as the RTP timestamp and the `Lite`
/// counter wrap.
pub open spec fn spec_wrap_u32(x: int) -> u32 {
    (x % 0x100000000) as u32
}

/// Adds with wrap-around at 2^16.
fn wrap_add_u16(x: u16, y: u16) -> (r: u16)
    ensures
        r == spec_wrap_u16(x + y),
{
    (((x as u32) + (y as u32)) % 0x10000) as u16
}

/// Adds with wrap-around at 2^32.
fn wrap_add_u32(x: u32, y: u32) -> (r: u32)
    ensures
        r == spec_wrap_u32(x + y),
{
    (((x as u64) + (y as u64)) % 0x100000000) as u32
}

/// The shape of every emitted datagram: a 12-byte RTP header carrying
/// version 2, the negotiated payload type, this packet's sequence number,
/// timestamp and SSRC big-endian; then the in-place encryption (tag,
/// ciphertext, nonce suffix) of a pre-encryption packet whose payload
/// region held exactly `payload`.
pub open spec fn spec_packet_shape(
    mode: CryptoMode,
    key: Seq<u8>,
    seqno: u16,
    stamp: u32,
    ssrc: u32,
    payload: Seq<u8>,
    pkt: Seq<u8>,
) -> bool {
    let suffix = mode.spec_suffix_len();
    let plen = TAG_SIZE + payload.len() + suffix;
    &&& pkt.len() == RTP_HEADER_SIZE + plen
    &&& pkt[0] == RTP_VERSION_BYTE
    &&& pkt[1] == RTP_PAYLOAD_TYPE
    &&& pkt.subrange(2, 4) == crate::driver::crypto::spec_u16_be(seqno)
    &&& pkt.subrange(4, 8) == crate::driver::crypto::spec_u32_be(stamp)
    &&& pkt.subrange(8, 12) == crate::driver::crypto::spec_u32_be(ssrc)
    &&& exists|p0: Seq<u8>|
        #![trigger mode.spec_encrypted(key, p0, plen as int)]
        {
            &&& p0.len() == pkt.len()
            &&& pkt == mode.spec_encrypted(key, p0, plen as int)
            &&& p0.subrange(0, RTP_HEADER_SIZE as int) == pkt.subrange(0, RTP_HEADER_SIZE as int)
            &&& p0.subrange(
                RTP_HEADER_SIZE + TAG_SIZE,
                RTP_HEADER_SIZE + TAG_SIZE + payload.len(),
            ) == payload
        }
}

impl Mixer {
    /// Assembles, encrypts and accounts one outgoing packet around
    /// `payload`: RTP header from the current counters, zeroed tag room,
    /// the payload, the mode's nonce suffix, in-place encryption; then
    /// the sequence steps by one and the timestamp by `TIMESTAMP_STEP`,
    /// both wrapping, and for `Lite` the nonce counter steps by one so
    /// the next packet sees it.
    pub fn prepare_packet(&mut self, payload: &Vec<u8>) -> (pkt: Vec<u8>)
        requires
            old(self).wf(),
            old(self).conn_active is Some,
            payload@.len() <= MAX_PAYLOAD,
        ensures
            final(self).wf(),
            final(self).tracks@ == old(self).tracks@,
            final(self).ssrc == old(self).ssrc,
            final(self).silence_frames == old(self).silence_frames,
            final(self).config == old(self).config,
            final(self).bitrate == old(self).bitrate,
            final(self).skip_sleep == old(self).skip_sleep,
            final(self).poisoned == old(self).poisoned,
            final(self).sequence == spec_wrap_u16(old(self).sequence + 1),
            final(self).timestamp == spec_wrap_u32(old(self).timestamp + TIMESTAMP_STEP),
            final(self).conn_active is Some,
            final(self).conn_active->Some_0.key@ == old(self).conn_active->Some_0.key@,
            final(self).conn_active->Some_0.crypto_state.spec_kind() == old(self).conn_active->Some_0.crypto_state.spec_kind(),
            spec_packet_shape(
                old(self).conn_active->Some_0.crypto_state.spec_kind(),
                old(self).conn_active->Some_0.key@,
                old(self).sequence,
                old(self).timestamp,
                old(self).ssrc,
                payload@,
                pkt@,
            ),
            old(self).conn_active->Some_0.crypto_state matches CryptoState::Lite(c) ==> pkt@.subrange(
                pkt@.len() - 4,
                pkt@.len() as int,
            ) == crate::driver::crypto::spec_u32_be(c) && final(self).conn_active->Some_0.crypto_state == CryptoState::Lite(spec_wrap_u32(c + 1)),
            !(old(self).conn_active->Some_0.crypto_state is Lite) ==> final(self).conn_active->Some_0.crypto_state == old(self).conn_active->Some_0.crypto_state,
    {
        let mut conn_opt: Option<MixerConnection> = None;
        core::mem::swap(&mut conn_opt, &mut self.conn_active);
        let mut conn = match conn_opt {
            Some(c) => c,
            None => vstd::pervasive::unreached(),
        };
        let mode = conn.crypto_state.kind();
        let suffix = mode.payload_suffix_len();

        let mut pkt: Vec<u8> = Vec::new();
        pkt.push(RTP_VERSION_BYTE);
        pkt.push(RTP_PAYLOAD_TYPE);
        let sb = crate::driver::crypto::u16_be_bytes(self.sequence);
        pkt.push(sb[0]);
        pkt.push(sb[1]);
        let tb = crate::driver::crypto::u32_be_bytes(self.timestamp);
        pkt.push(tb[0]);
        pkt.push(tb[1]);
        pkt.push(tb[2]);
        pkt.push(tb[3]);
        let qb = crate::driver::crypto::u32_be_bytes(self.ssrc);
        pkt.push(qb[0]);
        pkt.push(qb[1]);
        pkt.push(qb[2]);
        pkt.push(qb[3]);
        let ghost hdr = pkt@;
        proof {
            assert(hdr.len() == 12);
            assert(hdr[0] == RTP_VERSION_BYTE && hdr[1] == RTP_PAYLOAD_TYPE);
            assert(hdr[2] == sb@[0] && hdr[3] == sb@[1]);
            assert(hdr[4] == tb@[0] && hdr[5] == tb@[1] && hdr[6] == tb@[2] && hdr[7] == tb@[3]);
            assert(hdr[8] == qb@[0] && hdr[9] == qb@[1] && hdr[10] == qb@[2] && hdr[11] == qb@[
                3
            ]);
        }

        let mut z: usize = 0;
        while z < TAG_SIZE
            invariant
                z <= TAG_SIZE,
                pkt@.len() == RTP_HEADER_SIZE + z,
                forall|k: int| 0 <= k < RTP_HEADER_SIZE ==> pkt@[k] == hdr[k],
                forall|k: int| RTP_HEADER_SIZE <= k < pkt@.len() ==> pkt@[k] == 0,
            decreases TAG_SIZE - z,
        {
            pkt.push(0);
            z += 1;
        }
        let mut pi: usize = 0;
        while pi < payload.len()
            invariant
                pi <= payload@.len(),
                pkt@.len() == RTP_HEADER_SIZE + TAG_SIZE + pi,
                forall|k: int| 0 <= k < RTP_HEADER_SIZE ==> pkt@[k] == hdr[k],
                forall|k: int| RTP_HEADER_SIZE <= k < RTP_HEADER_SIZE + TAG_SIZE ==> pkt@[k] == 0,
                forall|k: int|
                    0 <= k < pi ==> pkt@[RTP_HEADER_SIZE + TAG_SIZE + k] == payload@[k],
            decreases payload@.len() - pi,
        {
            pkt.push(payload[pi]);
            pi += 1;
        }
        let mut si: usize = 0;
        while si < suffix
            invariant
                si <= suffix,
                pkt@.len() == RTP_HEADER_SIZE + TAG_SIZE + payload@.len() + si,
                forall|k: int| 0 <= k < RTP_HEADER_SIZE ==> pkt@[k] == hdr[k],
                forall|k: int| RTP_HEADER_SIZE <= k < RTP_HEADER_SIZE + TAG_SIZE ==> pkt@[k] == 0,
                forall|k: int|
                    0 <= k < payload@.len() ==> pkt@[RTP_HEADER_SIZE + TAG_SIZE + k] == payload@[
                        k
                    ],
            decreases suffix - si,
        {
            pkt.push(0);
            si += 1;
        }

        let payload_end = TAG_SIZE + payload.len();
        let written_end = conn.crypto_state.write_packet_nonce(&mut pkt, payload_end);
        let ghost p0 = pkt@;
        let _ = mode.encrypt_in_place(&mut pkt, &conn.key, written_end);

        proof {
            assert(forall|k: int| 0 <= k < RTP_HEADER_SIZE ==> p0[k] == hdr[k]);
            assert(forall|k: int| 0 <= k < RTP_HEADER_SIZE ==> pkt@[k] == p0[k]);
            assert(p0.subrange(0, RTP_HEADER_SIZE as int) =~= pkt@.subrange(
                0,
                RTP_HEADER_SIZE as int,
            ));
            assert(p0.subrange(
                RTP_HEADER_SIZE + TAG_SIZE,
                RTP_HEADER_SIZE + TAG_SIZE + payload@.len(),
            ) =~= payload@);
            assert(pkt@.subrange(2, 4) =~= crate::driver::crypto::spec_u16_be(old(self).sequence));
            assert(pkt@.subrange(4, 8) =~= crate::driver::crypto::spec_u32_be(
                old(self).timestamp,
            ));
            assert(pkt@.subrange(8, 12) =~= crate::driver::crypto::spec_u32_be(old(self).ssrc));
            if old(self).conn_active->Some_0.crypto_state is Lite {
                assert(pkt@.subrange(pkt@.len() - 4, pkt@.len() as int) =~= p0.subrange(
                    p0.len() - 4,
                    p0.len() as int,
                ));
                assert(p0.subrange(p0.len() - 4, p0.len() as int)
                    =~= crate::driver::crypto::spec_u32_be(
                    old(self).conn_active->Some_0.crypto_state->Lite_0,
                ));
            }
        }

        self.sequence = wrap_add_u16(self.sequence, 1);
        self.timestamp = wrap_add_u32(self.timestamp, TIMESTAMP_STEP);
        self.conn_active = Some(conn);
        pkt
    }

    /// A tick that emits nothing still advances the timestamp by one
    /// frame, so remote playback stays aligned on resume.
    pub fn advance_timestamp(&mut self)
        ensures
            final(self).timestamp == spec_wrap_u32(old(self).timestamp + TIMESTAMP_STEP),
            final(self).sequence == old(self).sequence,
            final(self).tracks@ == old(self).tracks@,
            final(self).ssrc == old(self).ssrc,
            final(self).silence_frames == old(self).silence_frames,
            final(self).conn_active == old(self).conn_active,
            final(self).config == old(self).config,
            final(self).bitrate == old(self).bitrate,
            final(self).skip_sleep == old(self).skip_sleep,
            final(self).poisoned == old(self).poisoned,
            old(self).wf() ==> final(self).wf(),
    {
        self.timestamp = wrap_add_u32(self.timestamp, TIMESTAMP_STEP);
    }
}

/// The larger of two values.
pub open spec fn spec_max(a: int, b: int) -> int {
    if a >= b {
        a
    } else {
        b
    }
}

/// Counting preparing tracks looks only at the first `n` entries.
pub proof fn lemma_count_preparing_prefix(a: Seq<Track>, b: Seq<Track>, n: int)
    requires
        0 <= n <= a.len(),
        n <= b.len(),
        forall|k: int| 0 <= k < n ==> a[k] == b[k],
    ensures
        spec_count_preparing(a, n) == spec_count_preparing(b, n),
    decreases n,
{
    if n > 0 {
        lemma_count_preparing_prefix(a, b, n - 1);
    }
}

/// Replacing one entry moves the preparing count by the difference the
/// entry itself makes.
pub proof fn lemma_count_preparing_update(ts: Seq<Track>, i: int, t2: Track, n: int)
    requires
        0 <= i < n <= ts.len(),
    ensures
        spec_count_preparing(ts.update(i, t2), n) == spec_count_preparing(ts, n) + (
        if t2.ready is Preparing {
            1int
        } else {
            0int
        }) - (
        if ts[i].ready is Preparing {
            1int
        } else {
            0int
        }),
    decreases n,
{
    if n > 0 {
        if i == n - 1 {
            lemma_count_preparing_prefix(ts.update(i, t2), ts, n - 1);
        } else {
            lemma_count_preparing_update(ts, i, t2, n - 1);
        }
    }
}

/// A mixable count is never negative.
pub proof fn lemma_mixable_count_nonneg(ts: Seq<Track>, n: int)
    requires
        0 <= n <= ts.len(),
    ensures
        spec_mixable_count(ts, n) >= 0,
    decreases n,
{
    if n > 0 {
        lemma_mixable_count_nonneg(ts, n - 1);
    }
}

/// A positive mixable count means some entry is mixable.
pub proof fn lemma_count_mixable_pos(ts: Seq<Track>, n: int)
    requires
        0 <= n <= ts.len(),
        spec_mixable_count(ts, n) > 0,
    ensures
        exists|i: int| 0 <= i < n && (#[trigger] ts[i]).spec_mixable(),
    decreases n,
{
    if n > 0 {
        if ts[n - 1].spec_mixable() {
        } else {
            lemma_count_mixable_pos(ts, n - 1);
        }
    }
}

/// Promotions this pass makes before index `i`: how many of the first
/// `i` tracks [`spec_promotes`] selects.
pub open spec fn spec_promoted_before(ts: Seq<Track>, limit: int, i: int) -> int
    decreases i, 0int,
{
    if i <= 0 {
        0
    } else {
        spec_promoted_before(ts, limit, i - 1) + if spec_promotes(ts, limit, i - 1) {
            1int
        } else {
            0int
        }
    }
}

/// Whether the readiness pass promotes track `i`: it is an uninitialised
/// lazy track that is not terminal, and the budget still has room - the
/// tracks already preparing anywhere in the list, plus the promotions
/// made at earlier indices, fall short of `limit`.
pub open spec fn spec_promotes(ts: Seq<Track>, limit: int, i: int) -> bool
    decreases i, 1int,
{
    &&& 0 <= i < ts.len()
    &&& ts[i].ready is Uninitialised
    &&& ts[i].input is Lazy
    &&& !ts[i].playing.spec_is_done()
    &&& spec_count_preparing(ts, ts.len() as int) + spec_promoted_before(ts, limit, i) < limit
}

/// The UUIDs the readiness pass promotes among the first `n` tracks, in
/// index order.
pub open spec fn spec_promoted_uuids(ts: Seq<Track>, limit: int, n: int) -> Seq<u128>
    decreases n,
{
    if n <= 0 {
        Seq::empty()
    } else {
        let prev = spec_promoted_uuids(ts, limit, n - 1);
        if spec_promotes(ts, limit, n - 1) {
            prev.push(ts[n - 1].uuid)
        } else {
            prev
        }
    }
}

impl Mixer {
    /// Promotes lazy tracks: counts the tracks already preparing, then
    /// marks further uninitialised lazy tracks `Preparing`, oldest first,
    /// while fewer than `preload_count` are preparing in total - exactly
    /// the tracks [`spec_promotes`] selects, no more and no fewer.
    /// Returns their UUIDs in order; the caller starts each background
    /// preparation, which finishes by sending
    /// [`MixerMessage::PrepareFinished`].
    pub fn advance_readiness(&mut self) -> (reqs: Vec<u128>)
        requires
            old(self).wf(),
        ensures
            final(self).wf(),
            spec_same_but_tracks(*final(self), *old(self)),
            final(self).tracks@.len() == old(self).tracks@.len(),
            forall|i: int|
                0 <= i < old(self).tracks@.len() ==> final(self).tracks@[i] == (
                if spec_promotes(
                    old(self).tracks@,
                    old(self).config.preload_count as int,
                    i,
                ) {
                    Track { ready: ReadyState::Preparing, ..old(self).tracks@[i] }
                } else {
                    old(self).tracks@[i]
                }),
            reqs@ == spec_promoted_uuids(
                old(self).tracks@,
                old(self).config.preload_count as int,
                old(self).tracks@.len() as int,
            ),
            spec_count_preparing(final(self).tracks@, final(self).tracks@.len() as int)
                <= spec_max(
                spec_count_preparing(old(self).tracks@, old(self).tracks@.len() as int),
                old(self).config.preload_count as int,
            ),
    {
        let n = self.tracks.len();
        let mut c: usize = 0;
        let mut i: usize = 0;
        while i < n
            invariant
                *self == *old(self),
                n == self.tracks@.len(),
                i <= n,
                c <= i,
                c == spec_count_preparing(self.tracks@, i as int),
            decreases n - i,
        {
            if matches!(self.tracks[i].ready, ReadyState::Preparing) {
                c += 1;
            }
            i += 1;
        }
        let ghost c0 = c as int;
        let ghost limit = self.config.preload_count as int;
        let mut reqs: Vec<u128> = Vec::new();
        let mut j: usize = 0;
        while j < n
            invariant
                spec_same_but_tracks(*self, *old(self)),
                self.wf(),
                n == self.tracks@.len(),
                n == old(self).tracks@.len(),
                j <= n,
                limit == self.config.preload_count as int,
                c0 == spec_count_preparing(old(self).tracks@, n as int),
                c as int == c0 + spec_promoted_before(old(self).tracks@, limit, j as int),
                c as int <= spec_max(c0, limit),
                c == spec_count_preparing(self.tracks@, n as int),
                forall|k: int| j <= k < n ==> self.tracks@[k] == old(self).tracks@[k],
                forall|k: int|
                    0 <= k < j ==> self.tracks@[k] == (
                    if spec_promotes(old(self).tracks@, limit, k) {
                        Track { ready: ReadyState::Preparing, ..old(self).tracks@[k] }
                    } else {
                        old(self).tracks@[k]
                    }),
                reqs@ == spec_promoted_uuids(old(self).tracks@, limit, j as int),
            decreases n - j,
        {
            let is_uninit = matches!(self.tracks[j].ready, ReadyState::Uninitialised);
            let is_lazy = matches!(self.tracks[j].input, Input::Lazy);
            let not_done = !self.tracks[j].playing.is_done();
            if is_uninit && is_lazy && not_done && c < self.config.preload_count {
                proof {
                    assert(spec_promotes(old(self).tracks@, limit, j as int));
                }
                let ghost prev = self.tracks@;
                let t = self.tracks.remove(j);
                let uuid = t.uuid;
                let t2 = Track { ready: ReadyState::Preparing, ..t };
                self.tracks.insert(j, t2);
                proof {
                    assert(self.tracks@ =~= prev.update(j as int, t2));
                    lemma_count_preparing_update(prev, j as int, t2, n as int);
                }
                reqs.push(uuid);
                c += 1;
                proof {
                    assert(reqs@ =~= spec_promoted_uuids(old(self).tracks@, limit, j + 1));
                }
            } else {
                proof {
                    assert(!spec_promotes(old(self).tracks@, limit, j as int));
                    assert(reqs@ =~= spec_promoted_uuids(old(self).tracks@, limit, j + 1));
                }
            }
            j += 1;
        }
        reqs
    }
}

/// What one composed tick produced.
pub enum CycleOutcome {
    /// No connection: nothing happened.
    Idle,
    /// A finished, encrypted packet to put on the wire.
    Sent(Vec<u8>),
    /// A mixed PCM frame: the caller encodes it to Opus and hands the
    /// result to [`Mixer::prepare_packet`], which sends and accounts it.
    NeedsEncode(Vec<i32>),
    /// Nothing to send this tick; the timestamp advanced alone.
    Quiet,
}

/// A composed tick's outcome and the tracks it culled.
pub struct CycleResult {
    /// What the tick produced.
    pub outcome: CycleOutcome,
    /// Culled track UUIDs, in order, for end-of-track events.
    pub ended: Vec<u128>,
}

impl Mixer {
    /// One composed tick: runs [`Mixer::mix_tick`], and for the
    /// passthrough and silence outputs assembles and accounts the packet
    /// itself. A mixed frame comes back as `NeedsEncode`, since Opus
    /// encoding lives outside; the caller then calls
    /// [`Mixer::prepare_packet`] on the encoded bytes to finish the tick.
    pub fn cycle(&mut self) -> (r: CycleResult)
        requires
            old(self).wf(),
        ensures
            final(self).wf(),
            final(self).ssrc == old(self).ssrc,
            final(self).config == old(self).config,
            final(self).bitrate == old(self).bitrate,
            final(self).skip_sleep == old(self).skip_sleep,
            final(self).poisoned == old(self).poisoned,
            old(self).conn_active is Some ==> final(self).conn_active is Some && final(self).conn_active->Some_0.key@ == old(self).conn_active->Some_0.key@ && final(self).conn_active->Some_0.crypto_state.spec_kind() == old(self).conn_active->Some_0.crypto_state.spec_kind(),
            (old(self).conn_active is Some && !(old(self).conn_active->Some_0.crypto_state
                is Lite)) ==> final(self).conn_active->Some_0.crypto_state == old(self).conn_active->Some_0.crypto_state,
            old(self).conn_active is Some ==> {
                let ts = old(self).tracks@;
                let n = ts.len() as int;
                &&& (spec_mixable_count(ts, n) > 0 ==> final(self).silence_frames
                    == SILENCE_FRAME_COUNT)
                &&& ((spec_mixable_count(ts, n) == 0 && old(self).silence_frames > 0 && old(self).config.mix_and_stop_silent_packets) ==> final(self).silence_frames == old(self).silence_frames - 1)
                &&& ((spec_mixable_count(ts, n) == 0 && !(old(self).silence_frames > 0 && old(self).config.mix_and_stop_silent_packets)) ==> final(self).silence_frames == old(self).silence_frames)
            },
            (r.outcome is Idle <==> old(self).conn_active is None),
            r.outcome is Idle ==> *final(self) == *old(self) && r.ended@.len() == 0,
            r.outcome is Sent ==> final(self).sequence == spec_wrap_u16(old(self).sequence + 1)
                && final(self).timestamp == spec_wrap_u32(old(self).timestamp + TIMESTAMP_STEP),
            r.outcome is Quiet ==> final(self).sequence == old(self).sequence && final(self).timestamp == spec_wrap_u32(old(self).timestamp + TIMESTAMP_STEP),
            (r.outcome is Idle || r.outcome is NeedsEncode) ==> final(self).sequence == old(self).sequence && final(self).timestamp == old(self).timestamp,
            old(self).conn_active is Some ==> final(self).tracks@ == spec_surviving(
                old(self).tracks@,
                old(self).tracks@.len() as int,
            ) && r.ended@ == spec_ended_uuids(old(self).tracks@, old(self).tracks@.len() as int),
            old(self).conn_active is Some ==> {
                let ts = old(self).tracks@;
                let n = ts.len() as int;
                let mode = old(self).conn_active->Some_0.crypto_state.spec_kind();
                let key = old(self).conn_active->Some_0.key@;
                &&& (r.outcome is NeedsEncode <==> (!spec_passthrough(ts) && spec_mixable_count(
                    ts,
                    n,
                ) > 0))
                &&& (r.outcome is NeedsEncode ==> r.outcome->NeedsEncode_0@.len()
                    == STEREO_FRAME_SIZE && (forall|j: int|
                    0 <= j < STEREO_FRAME_SIZE ==> r.outcome->NeedsEncode_0@[j]
                        == spec_mixed_sample(ts, j)))
                &&& (r.outcome is Quiet <==> (spec_mixable_count(ts, n) == 0 && !(old(self).silence_frames > 0 && old(self).config.mix_and_stop_silent_packets)))
                &&& (spec_passthrough(ts) ==> r.outcome is Sent && (forall|i: int|
                    0 <= i < n && (#[trigger] ts[i]).spec_mixable() ==> spec_packet_shape(
                        mode,
                        key,
                        old(self).sequence,
                        old(self).timestamp,
                        old(self).ssrc,
                        ts[i].input->Live_0.opus_frames@[
                            ts[i].position as int / (MONO_FRAME_SIZE as int)
                        ]@,
                        r.outcome->Sent_0@,
                    )))
                &&& ((spec_mixable_count(ts, n) == 0 && old(self).silence_frames > 0 && old(self).config.mix_and_stop_silent_packets) ==> r.outcome is Sent && spec_packet_shape(
                    mode,
                    key,
                    old(self).sequence,
                    old(self).timestamp,
                    old(self).ssrc,
                    spec_silence_frame(),
                    r.outcome->Sent_0@,
                ))
                &&& ((old(self).conn_active->Some_0.crypto_state is Lite
                    && r.outcome is Sent) ==> r.outcome->Sent_0@.subrange(
                    r.outcome->Sent_0@.len() - 4,
                    r.outcome->Sent_0@.len() as int,
                ) == crate::driver::crypto::spec_u32_be(
                    old(self).conn_active->Some_0.crypto_state->Lite_0,
                ) && final(self).conn_active->Some_0.crypto_state == CryptoState::Lite(
                    spec_wrap_u32(old(self).conn_active->Some_0.crypto_state->Lite_0 + 1),
                ))
            },
    {
        let tick = self.mix_tick();
        let ended = tick.ended;
        match tick.output {
            MixOutput::NoConn => CycleResult { outcome: CycleOutcome::Idle, ended },
            MixOutput::Passthrough(frame) => {
                proof {
                    lemma_count_mixable_pos(old(self).tracks@, old(self).tracks@.len() as int);
                    let i = choose|i: int|
                        0 <= i < old(self).tracks@.len() && (#[trigger] old(self).tracks@[i]).spec_mixable();
                    assert(old(self).tracks@[i].wf());
                    assert(frame@.len() <= MAX_PAYLOAD);
                }
                let pkt = self.prepare_packet(&frame);
                CycleResult { outcome: CycleOutcome::Sent(pkt), ended }
            },
            MixOutput::Silence => {
                let frame = silence_frame();
                let pkt = self.prepare_packet(&frame);
                CycleResult { outcome: CycleOutcome::Sent(pkt), ended }
            },
            MixOutput::Mixed(frame) => CycleResult {
                outcome: CycleOutcome::NeedsEncode(frame),
                ended,
            },
            MixOutput::Skip => {
                proof {
                    let ts = old(self).tracks@;
                    let n = ts.len() as int;
                    lemma_mixable_count_nonneg(ts, n);
                    if spec_mixable_count(ts, n) > 0 {
                        if spec_passthrough(ts) {
                            assert(false);
                        } else {
                            assert(false);
                        }
                    }
                    assert(spec_mixable_count(ts, n) == 0);
                    assert(!(old(self).silence_frames > 0
                        && old(self).config.mix_and_stop_silent_packets));
                }
                self.advance_timestamp();
                CycleResult { outcome: CycleOutcome::Quiet, ended }
            },
        }
    }
}

/// A paused track contributes silence to the mix and does not advance
/// its position over a tick.
pub proof fn lemma_paused_track_silent(t: Track, j: int)
    requires
        t.playing is Pause,
    ensures
        spec_sample_at(t, j) == 0,
        spec_tick_track(t) == t,
{
}

/// Terminal play states latch: no control action revives a stopped or
/// ended track, a tick leaves it unchanged, and it contributes nothing
/// to any mix - so a track stopped right after being added is never
/// emitted into any packet.
pub proof fn lemma_terminal_track_latched(t: Track, act: TrackAction, j: int)
    requires
        t.playing.spec_is_done(),
    ensures
        spec_apply_action(t, act).playing == t.playing,
        spec_tick_track(t) == t,
        !t.spec_mixable(),
        spec_sample_at(t, j) == 0,
        spec_tick_track(t).playing.spec_is_done(),
{
}

/// The RTP sequence counter over consecutive emitted packets: starting
/// anywhere and stepping by one with wrap, the counter at packet `k`
/// reads `start + k` modulo 2^16 - each packet's sequence number is the
/// strict wrapping successor of the one before, so emitted packets are
/// strictly ordered under wrap-around.
pub proof fn lemma_sequence_trajectory(vals: Seq<u16>, k: int)
    requires
        vals.len() > 0,
        forall|t: int| 0 <= t < vals.len() - 1 ==> vals[t + 1] == spec_wrap_u16(#[trigger] vals[t] + 1),
        0 <= k < vals.len(),
    ensures
        vals[k] == spec_wrap_u16(vals[0] + k),
    decreases k,
{
    if k > 0 {
        lemma_sequence_trajectory(vals, k - 1);
        vstd::arithmetic::div_mod::lemma_add_mod_noop(vals[0] + (k - 1), 1, 0x10000);
        assert((vals[0] + (k - 1)) % 0x10000 + 1int % 0x10000 == (vals[0] + (k - 1)) % 0x10000 + 1);
    }
}

/// The RTP timestamp over consecutive ticks: starting anywhere and
/// stepping by `TIMESTAMP_STEP` with wrap, the timestamp at tick `k`
/// reads `start + 960 * k` modulo 2^32.
pub proof fn lemma_timestamp_trajectory(vals: Seq<u32>, k: int)
    requires
        vals.len() > 0,
        forall|t: int|
            0 <= t < vals.len() - 1 ==> vals[t + 1] == spec_wrap_u32(
                #[trigger] vals[t] + TIMESTAMP_STEP,
            ),
        0 <= k < vals.len(),
    ensures
        vals[k] == spec_wrap_u32(vals[0] + 960 * k),
    decreases k,
{
    if k > 0 {
        lemma_timestamp_trajectory(vals, k - 1);
        vstd::arithmetic::div_mod::lemma_add_mod_noop(vals[0] + 960 * (k - 1), 960, 0x100000000);
        assert(vals[0] + 960 * (k - 1) + 960 == vals[0] + 960 * k) by (nonlinear_arith);
        assert((vals[0] + 960 * (k - 1)) % 0x100000000 + 960int % 0x100000000 == (vals[0] + 960 * (k
            - 1)) % 0x100000000 + 960);
    }
}

/// The `Lite` nonce counter over consecutive emitted packets: starting
/// at `start` and stepping by one with wrap per packet, the four-byte
/// suffix of packet `k` parses as `start + k` modulo 2^32.
pub proof fn lemma_lite_counter_trajectory(vals: Seq<u32>, k: int)
    requires
        vals.len() > 0,
        forall|t: int| 0 <= t < vals.len() - 1 ==> vals[t + 1] == spec_wrap_u32(#[trigger] vals[t] + 1),
        0 <= k < vals.len(),
    ensures
        vals[k] == spec_wrap_u32(vals[0] + k),
    decreases k,
{
    if k > 0 {
        lemma_lite_counter_trajectory(vals, k - 1);
        vstd::arithmetic::div_mod::lemma_add_mod_noop(vals[0] + (k - 1), 1, 0x100000000);
        assert((vals[0] + (k - 1)) % 0x100000000 + 1int % 0x100000000 == (vals[0] + (k - 1))
            % 0x100000000 + 1);
    }
}

/// Wrapping by one never stands still: the next sequence number always
/// differs from the current one, so consecutive packets never share a
/// sequence number.
pub proof fn lemma_sequence_strictly_moves(s: u16)
    ensures
        spec_wrap_u16(s + 1) != s,
{
}

/// Distinct sequence numbers spell distinct header bytes, so emitted
/// packets are told apart - and ordered, with the trajectory above - by
/// the two sequence bytes their RTP headers carry.
pub proof fn lemma_distinct_sequence_distinct_header(a: u16, b: u16)
    requires
        a != b,
    ensures
        crate::driver::crypto::spec_u16_be(a) != crate::driver::crypto::spec_u16_be(b),
{
    crate::driver::crypto::lemma_u16_be_round_trip(a);
    crate::driver::crypto::lemma_u16_be_round_trip(b);
}

/// The four-byte `Lite` suffix of packet `k` parses as the initial
/// counter plus the packet index, modulo 2^32: `counters` is the stored
/// counter before each packet and `suffixes` the bytes each packet
/// carried, stepping as packet assembly steps them.
pub proof fn lemma_lite_suffix_parses_as_index(
    counters: Seq<u32>,
    suffixes: Seq<Seq<u8>>,
    k: int,
)
    requires
        counters.len() == suffixes.len(),
        counters.len() > 0,
        forall|t: int|
            0 <= t < counters.len() - 1 ==> counters[t + 1] == spec_wrap_u32(
                #[trigger] counters[t] + 1,
            ),
        forall|t: int|
            0 <= t < suffixes.len() ==> #[trigger] suffixes[t]
                == crate::driver::crypto::spec_u32_be(counters[t]),
        0 <= k < counters.len(),
    ensures
        crate::driver::crypto::spec_be_u32(suffixes[k]) == (counters[0] + k) % 0x100000000,
{
    lemma_lite_counter_trajectory(counters, k);
    crate::driver::crypto::lemma_u32_be_round_trip(counters[k]);
}

} // verus!
