use songbird::driver::crypto::{CryptoMode, CryptoState, RTP_HEADER_SIZE, TAG_SIZE};
use songbird::driver::mixer::{
    silence_frame, Config, CycleOutcome, Mixer, MixerConnection, MixerMessage,
};
use songbird::tracks::track::{
    AudioSource, Input, LoopState, PlayMode, Track, TrackAction, MONO_FRAME_SIZE,
    STEREO_FRAME_SIZE, VOLUME_UNIT,
};
use songbird::tracks::queue::{TrackHandle, TrackQueueCore};
use songbird::tracks::{PlayError, ReadyState};

fn test_key() -> Vec<u8> {
    (0..32u8).collect()
}

fn connected_mixer(state: CryptoState) -> Mixer {
    let mut m = Mixer::new(Config::default());
    m.process_message(MixerMessage::SetConn(
        MixerConnection { key: test_key(), crypto_state: state },
        0x12345678,
    ));
    m
}

fn pcm_track(uuid: u128, pairs: usize) -> Track {
    let src = AudioSource { pcm: vec![1000i32; pairs * 2], opus_frames: Vec::new(), seekable: true };
    Track::new(uuid, Input::Live(src))
}

fn opus_track(uuid: u128, frames: usize) -> Track {
    let mut cached: Vec<Vec<u8>> = Vec::new();
    for f in 0..frames {
        cached.push(vec![0x40 + f as u8; 20]);
    }
    let src = AudioSource { pcm: Vec::new(), opus_frames: cached, seekable: false };
    Track::new(uuid, Input::Live(src))
}

fn decrypted_payload(mode: CryptoMode, key: &Vec<u8>, pkt: &Vec<u8>) -> Vec<u8> {
    let payload_len = pkt.len() - RTP_HEADER_SIZE;
    let mut copy = pkt.clone();
    assert!(mode.decrypt_in_place(&mut copy, key, payload_len).is_ok());
    let lo = RTP_HEADER_SIZE + TAG_SIZE;
    let hi = pkt.len() - mode.payload_suffix_len();
    copy[lo..hi].to_vec()
}

// S1: with zero tracks ever added, the first five ticks emit the Opus
// silence frame; the sixth emits nothing but still advances the
// timestamp by 960.
#[test]
fn silence_tail_five_frames_then_quiet() {
    let key = test_key();
    let mut m = connected_mixer(CryptoState::Normal);
    for _ in 0..5 {
        let before_ts = m.timestamp;
        let r = m.cycle();
        match r.outcome {
            CycleOutcome::Sent(pkt) => {
                let payload = decrypted_payload(CryptoMode::Normal, &key, &pkt);
                assert_eq!(payload, vec![0xf8, 0xff, 0xfe]);
            },
            _ => panic!("expected a silence packet"),
        }
        assert_eq!(m.timestamp, before_ts.wrapping_add(960));
    }
    let before_ts = m.timestamp;
    let before_seq = m.sequence;
    let r = m.cycle();
    assert!(matches!(r.outcome, CycleOutcome::Quiet));
    assert_eq!(m.timestamp, before_ts.wrapping_add(960));
    assert_eq!(m.sequence, before_seq);
}

// S2: a single native-Opus track of five frames plays through the
// passthrough path; each packet decrypts to the cached Opus frame,
// byte-identical.
#[test]
fn passthrough_packets_match_cached_frames() {
    let key = test_key();
    let mut m = connected_mixer(CryptoState::Normal);
    m.process_message(MixerMessage::AddTrack(opus_track(7, 5)));
    for f in 0..5u8 {
        let r = m.cycle();
        match r.outcome {
            CycleOutcome::Sent(pkt) => {
                let payload = decrypted_payload(CryptoMode::Normal, &key, &pkt);
                assert_eq!(payload, vec![0x40 + f; 20]);
            },
            _ => panic!("expected a passthrough packet"),
        }
    }
    // The sixth tick finds the cache exhausted: the track ends.
    let r = m.cycle();
    assert_eq!(r.ended, vec![7u128]);
}

// P5: the passthrough path is not taken when two tracks are mixable, or
// when the single Opus track's volume is not unity.
#[test]
fn passthrough_needs_single_unity_volume_opus_track() {
    let mut m = connected_mixer(CryptoState::Normal);
    m.process_message(MixerMessage::AddTrack(opus_track(1, 5)));
    m.process_message(MixerMessage::AddTrack(pcm_track(2, 5 * MONO_FRAME_SIZE)));
    let r = m.cycle();
    assert!(matches!(r.outcome, CycleOutcome::NeedsEncode(_)));

    let mut m2 = connected_mixer(CryptoState::Normal);
    m2.process_message(MixerMessage::AddTrack(opus_track(3, 5)));
    m2.process_message(MixerMessage::SetTrack(3, TrackAction::SetVolume(VOLUME_UNIT / 2)));
    let r2 = m2.cycle();
    assert!(matches!(r2.outcome, CycleOutcome::NeedsEncode(_)));
}

// S3 (mix and cull): fifteen tracks where track i holds floor(i / 5)
// frames of audio. The tracks with no audio at all end on the first
// tick; the others end as soon as their audio runs out.
#[test]
fn empty_tracks_are_culled_first() {
    let mut m = connected_mixer(CryptoState::Normal);
    for i in 0..15u128 {
        let frames = (i / 5) as usize;
        m.process_message(MixerMessage::AddTrack(pcm_track(i, frames * MONO_FRAME_SIZE)));
    }
    let r1 = m.cycle();
    assert_eq!(r1.ended, vec![0u128, 1, 2, 3, 4]);
    assert_eq!(m.tracks.len(), 10);
    let r2 = m.cycle();
    assert_eq!(r2.ended, vec![5u128, 6, 7, 8, 9]);
    let r3 = m.cycle();
    assert_eq!(r3.ended, vec![10u128, 11, 12, 13, 14]);
    assert_eq!(m.tracks.len(), 0);
    let r4 = m.cycle();
    assert_eq!(r4.ended, Vec::<u128>::new());
}

// S4: under the Lite mode with initial counter 1000, packet N carries
// 1000 + N - 1 big-endian in its last four bytes.
#[test]
fn lite_nonce_counts_from_initial_value() {
    let mut m = connected_mixer(CryptoState::Lite(1000));
    m.process_message(MixerMessage::AddTrack(opus_track(40, 8)));
    for n in 0..8u32 {
        let r = m.cycle();
        match r.outcome {
            CycleOutcome::Sent(pkt) => {
                let tail = &pkt[pkt.len() - 4..];
                let got = u32::from_be_bytes([tail[0], tail[1], tail[2], tail[3]]);
                assert_eq!(got, 1000 + n);
            },
            _ => panic!("expected a packet on every tick with audio"),
        }
    }
}

// P2: per completed tick the timestamp moves by exactly 960 and the
// sequence by exactly one packet's worth.
#[test]
fn counters_step_per_packet() {
    let mut m = connected_mixer(CryptoState::Normal);
    m.process_message(MixerMessage::AddTrack(opus_track(9, 3)));
    let mut last_seq = m.sequence;
    let mut last_ts = m.timestamp;
    for _ in 0..3 {
        let r = m.cycle();
        assert!(matches!(r.outcome, CycleOutcome::Sent(_)));
        assert_eq!(m.sequence, last_seq.wrapping_add(1));
        assert_eq!(m.timestamp, last_ts.wrapping_add(960));
        last_seq = m.sequence;
        last_ts = m.timestamp;
    }
}

// P1: the RTP header of consecutive packets carries strictly advancing
// sequence numbers and timestamps.
#[test]
fn packet_headers_strictly_advance() {
    let mut m = connected_mixer(CryptoState::Normal);
    m.process_message(MixerMessage::AddTrack(opus_track(9, 4)));
    let mut prior: Option<(u16, u32)> = None;
    for _ in 0..4 {
        let r = m.cycle();
        let pkt = match r.outcome {
            CycleOutcome::Sent(pkt) => pkt,
            _ => panic!("expected a packet"),
        };
        assert_eq!(pkt[0], 0x80);
        assert_eq!(pkt[1], 0x78);
        let seq = u16::from_be_bytes([pkt[2], pkt[3]]);
        let ts = u32::from_be_bytes([pkt[4], pkt[5], pkt[6], pkt[7]]);
        let ssrc = u32::from_be_bytes([pkt[8], pkt[9], pkt[10], pkt[11]]);
        assert_eq!(ssrc, 0x12345678);
        if let Some((ps, pt)) = prior {
            assert_eq!(seq, ps.wrapping_add(1));
            assert_eq!(ts, pt.wrapping_add(960));
            assert_ne!((seq, ts), (ps, pt));
        }
        prior = Some((seq, ts));
    }
}

// P6: a paused track contributes silence and its position does not
// advance.
#[test]
fn paused_track_contributes_silence_and_stays_put() {
    let mut m = connected_mixer(CryptoState::Normal);
    m.process_message(MixerMessage::AddTrack(pcm_track(1, 10 * MONO_FRAME_SIZE)));
    m.process_message(MixerMessage::SetTrack(1, TrackAction::Pause));
    // No mixable track: the tick is part of the silence tail, and the
    // paused track neither advances nor ends.
    let r = m.cycle();
    assert!(matches!(r.outcome, CycleOutcome::Sent(_)));
    assert_eq!(m.tracks.len(), 1);
    assert_eq!(m.tracks[0].position, 0);
    assert!(matches!(m.tracks[0].playing, PlayMode::Pause));
    // Resumed, it mixes and advances.
    m.process_message(MixerMessage::SetTrack(1, TrackAction::Play));
    let r2 = m.cycle();
    match r2.outcome {
        CycleOutcome::NeedsEncode(frame) => {
            assert_eq!(frame.len(), STEREO_FRAME_SIZE);
            // volume is unity, so the mixed sample equals the source sample
            assert_eq!(frame[0], 1000);
        },
        _ => panic!("expected a mixed frame"),
    }
    assert_eq!(m.tracks[0].position, MONO_FRAME_SIZE as u64);
}

// P7: a track added and immediately stopped is culled without ever
// reaching a packet.
#[test]
fn add_then_stop_never_mixes() {
    let key = test_key();
    let mut m = connected_mixer(CryptoState::Normal);
    m.process_message(MixerMessage::AddTrack(pcm_track(11, 10 * MONO_FRAME_SIZE)));
    m.process_message(MixerMessage::SetTrack(11, TrackAction::Stop));
    let r = m.cycle();
    // The tick is silence, not audio, and the stopped track is culled.
    match r.outcome {
        CycleOutcome::Sent(pkt) => {
            let payload = decrypted_payload(CryptoMode::Normal, &key, &pkt);
            assert_eq!(payload, silence_frame());
        },
        _ => panic!("expected a silence packet"),
    }
    assert_eq!(r.ended, vec![11u128]);
    assert_eq!(m.tracks.len(), 0);
}

// A finite loop policy restarts the track at its end and counts down.
#[test]
fn finite_loop_restarts_then_ends() {
    let mut m = connected_mixer(CryptoState::Normal);
    let mut t = pcm_track(21, MONO_FRAME_SIZE / 2);
    t.loops = LoopState::Finite(1);
    m.process_message(MixerMessage::AddTrack(t));
    let r1 = m.cycle();
    assert!(matches!(r1.outcome, CycleOutcome::NeedsEncode(_)));
    assert_eq!(r1.ended, Vec::<u128>::new());
    assert_eq!(m.tracks[0].position, 0);
    assert!(matches!(m.tracks[0].loops, LoopState::Finite(0)));
    let r2 = m.cycle();
    assert!(matches!(r2.outcome, CycleOutcome::NeedsEncode(_)));
    assert_eq!(r2.ended, vec![21u128]);
}

// Lazy tracks move through Preparing and become playable when their
// background preparation delivers the audio.
#[test]
fn lazy_track_promotion() {
    let mut m = connected_mixer(CryptoState::Normal);
    m.process_message(MixerMessage::AddTrack(Track::new(31, Input::Lazy)));
    assert!(matches!(m.tracks[0].ready, ReadyState::Uninitialised));
    let reqs = m.advance_readiness();
    assert_eq!(reqs, vec![31u128]);
    assert!(matches!(m.tracks[0].ready, ReadyState::Preparing));
    // Only preload_count tracks prepare at once.
    m.process_message(MixerMessage::AddTrack(Track::new(32, Input::Lazy)));
    let reqs2 = m.advance_readiness();
    assert_eq!(reqs2, Vec::<u128>::new());
    let src = AudioSource { pcm: vec![5i32; 1920], opus_frames: Vec::new(), seekable: false };
    m.process_message(MixerMessage::PrepareFinished(31, Ok(src)));
    assert!(matches!(m.tracks[0].ready, ReadyState::Playable));
    let reqs3 = m.advance_readiness();
    assert_eq!(reqs3, vec![32u128]);
}

// Without a connection the mixer does nothing at all.
#[test]
fn no_connection_is_idle() {
    let mut m = Mixer::new(Config::default());
    m.process_message(MixerMessage::AddTrack(pcm_track(1, MONO_FRAME_SIZE)));
    let before_ts = m.timestamp;
    let r = m.cycle();
    assert!(matches!(r.outcome, CycleOutcome::Idle));
    assert_eq!(m.timestamp, before_ts);
    assert_eq!(m.tracks[0].position, 0);
}

// Mixing saturates: two loud tracks clip to full scale instead of
// wrapping.
#[test]
fn mixing_saturates_at_full_scale() {
    let mut m = connected_mixer(CryptoState::Normal);
    let loud = AudioSource {
        pcm: vec![0x7fffff; STEREO_FRAME_SIZE],
        opus_frames: Vec::new(),
        seekable: false,
    };
    let loud2 = AudioSource {
        pcm: vec![0x7fffff; STEREO_FRAME_SIZE],
        opus_frames: Vec::new(),
        seekable: false,
    };
    m.process_message(MixerMessage::AddTrack(Track::new(1, Input::Live(loud))));
    m.process_message(MixerMessage::AddTrack(Track::new(2, Input::Live(loud2))));
    let r = m.cycle();
    match r.outcome {
        CycleOutcome::NeedsEncode(frame) => {
            assert_eq!(frame[0], 0x7fffff);
        },
        _ => panic!("expected a mixed frame"),
    }
}

// Poison reaches the caller through the mixer state.
#[test]
fn poison_marks_mixer() {
    let mut m = connected_mixer(CryptoState::Normal);
    assert!(!m.poisoned);
    m.process_message(MixerMessage::Poison);
    assert!(m.poisoned);
}

// A failed preparation ends the lazy track with a play error; the next
// tick culls it.
#[test]
fn failed_preparation_ends_track() {
    let mut m = connected_mixer(CryptoState::Normal);
    m.process_message(MixerMessage::AddTrack(Track::new(41, Input::Lazy)));
    let reqs = m.advance_readiness();
    assert_eq!(reqs, vec![41u128]);
    m.process_message(MixerMessage::PrepareFinished(41, Err(PlayError::Parse)));
    assert!(matches!(m.tracks[0].playing, PlayMode::End));
    let r = m.cycle();
    assert_eq!(r.ended, vec![41u128]);
    assert!(m.tracks.is_empty());
}

#[test]
fn default_config_values() {
    let c = Config::default();
    assert_eq!(c.preload_count, 1);
    assert_eq!(c.decode_channel_capacity, 16);
    assert_eq!(c.crypto_mode, CryptoMode::Normal);
    assert!(c.mix_and_stop_silent_packets);
    assert!(c.use_softclip);
}

// With the silence tail disabled, a quiet mixer emits nothing at all
// while timestamps keep their cadence.
#[test]
fn disabled_silence_tail_skips_straight_away() {
    let mut m = connected_mixer(CryptoState::Normal);
    let mut c = Config::default();
    c.mix_and_stop_silent_packets = false;
    m.process_message(MixerMessage::SetConfig(c));
    let before_ts = m.timestamp;
    let r = m.cycle();
    assert!(matches!(r.outcome, CycleOutcome::Quiet));
    assert_eq!(m.timestamp, before_ts.wrapping_add(960));
}

// S5 end to end: queued tracks enter the mixer paused, the queue starts
// its head, and each End event hands playback to the next track. A track
// ends on the tick its input yields nothing more, so two and three
// frames of audio span seven mixed ticks in all.
#[test]
fn queue_and_mixer_hand_over_gaplessly() {
    let mut m = connected_mixer(CryptoState::Normal);
    let mut q = TrackQueueCore::new();
    for (uuid, frames) in [(0xa_u128, 2_usize), (0xb, 3)] {
        let mut t = pcm_track(uuid, frames * MONO_FRAME_SIZE);
        t.playing = PlayMode::Pause;
        m.process_message(MixerMessage::AddTrack(t));
        let outcome = q.add_raw(TrackHandle { uuid }, None);
        if outcome.should_play {
            m.process_message(MixerMessage::SetTrack(uuid, TrackAction::Play));
        }
    }
    let mut audible_ticks = 0usize;
    let mut order: Vec<u128> = Vec::new();
    for _ in 0..8 {
        let r = m.cycle();
        if matches!(r.outcome, CycleOutcome::NeedsEncode(_)) {
            audible_ticks += 1;
        }
        for uuid in r.ended {
            order.push(uuid);
            if let Some(next) = q.on_track_end(uuid) {
                m.process_message(MixerMessage::SetTrack(next.uuid, TrackAction::Play));
            }
        }
    }
    // Two frames of A and its end tick, then three of B and its end tick.
    assert_eq!(audible_ticks, 7);
    assert_eq!(order, vec![0xa_u128, 0xb]);
    assert!(q.is_empty());
    assert!(m.tracks.is_empty());
}

#[test]
fn message_validity_guards_payloads() {
    let bad_key = MixerConnection { key: vec![0u8; 5], crypto_state: CryptoState::Normal };
    assert!(!MixerMessage::SetConn(bad_key, 1).is_valid());
    let good_key = MixerConnection { key: vec![0u8; 32], crypto_state: CryptoState::Normal };
    assert!(MixerMessage::SetConn(good_key, 1).is_valid());
    assert!(MixerMessage::AddTrack(pcm_track(1, 4)).is_valid());
    let mut bad = pcm_track(2, 4);
    bad.volume = u32::MAX;
    assert!(!MixerMessage::AddTrack(bad).is_valid());
    assert!(MixerMessage::Poison.is_valid());
    let loud = AudioSource { pcm: vec![i32::MAX; 2], opus_frames: Vec::new(), seekable: false };
    assert!(!MixerMessage::PrepareFinished(3, Ok(loud)).is_valid());
    assert!(MixerMessage::PrepareFinished(3, Err(PlayError::Decode)).is_valid());
}
