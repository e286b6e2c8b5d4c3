use songbird::id::{ChannelId, GuildId, UserId};
use songbird::tracks::track::{
    apply_action, AudioSource, Input, LoopState, PlayMode, Track, TrackAction, VOLUME_MAX,
    VOLUME_UNIT,
};
use songbird::tracks::event::validate_track_event;
use songbird::tracks::{ControlError, Event, PlayError, ReadyState, TrackEvent};

#[test]
fn ids_round_trip_their_value() {
    assert_eq!(ChannelId::new(5).get(), 5);
    assert_eq!(GuildId::new(77).get(), 77);
    assert_eq!(UserId::new(u64::MAX).get(), u64::MAX);
    assert_eq!(ChannelId::new(5), ChannelId::new(5));
    assert_ne!(GuildId::new(1), GuildId::new(2));
}

#[test]
fn control_error_descriptions() {
    assert_eq!(
        ControlError::Finished.description(),
        "failed to operate on track (handle): track ended"
    );
    assert_eq!(
        ControlError::InvalidTrackEvent.description(),
        "failed to operate on track (handle): given event listener can't be fired on a track"
    );
    assert_eq!(
        ControlError::SeekUnsupported.description(),
        "failed to operate on track (handle): track did not support seeking"
    );
}

#[test]
fn play_error_descriptions() {
    assert_eq!(PlayError::Create.description(), "runtime error while playing track: input creation");
    assert_eq!(
        PlayError::Parse.description(),
        "runtime error while playing track: parsing formats/codecs"
    );
    assert_eq!(
        PlayError::Decode.description(),
        "runtime error while playing track: decoding packets"
    );
    assert_eq!(
        PlayError::Seek.description(),
        "runtime error while playing track: seeking along input"
    );
}

fn live_track(seekable: bool) -> Track {
    let src = AudioSource { pcm: vec![0i32; 1920], opus_frames: Vec::new(), seekable };
    Track::new(1, Input::Live(src))
}

#[test]
fn new_track_defaults() {
    let t = live_track(false);
    assert!(matches!(t.playing, PlayMode::Play));
    assert!(matches!(t.ready, ReadyState::Playable));
    assert_eq!(t.volume, VOLUME_UNIT);
    assert!(matches!(t.loops, LoopState::Finite(0)));
    assert_eq!(t.position, 0);
    let lazy = Track::new(2, Input::Lazy);
    assert!(matches!(lazy.ready, ReadyState::Uninitialised));
}

#[test]
fn volume_requests_clamp() {
    let mut t = live_track(false);
    apply_action(&mut t, TrackAction::SetVolume(VOLUME_MAX + 100));
    assert_eq!(t.volume, VOLUME_MAX);
    apply_action(&mut t, TrackAction::SetVolume(0));
    assert_eq!(t.volume, 0);
}

#[test]
fn terminal_states_latch() {
    let mut t = live_track(false);
    apply_action(&mut t, TrackAction::Stop);
    assert!(matches!(t.playing, PlayMode::Stop));
    apply_action(&mut t, TrackAction::Play);
    assert!(matches!(t.playing, PlayMode::Stop));
    apply_action(&mut t, TrackAction::Pause);
    assert!(matches!(t.playing, PlayMode::Stop));
}

#[test]
fn seek_needs_playable_seekable_input() {
    let mut yes = live_track(true);
    apply_action(&mut yes, TrackAction::Seek(480));
    assert_eq!(yes.position, 480);
    let mut no = live_track(false);
    apply_action(&mut no, TrackAction::Seek(480));
    assert_eq!(no.position, 0);
    let mut lazy = Track::new(3, Input::Lazy);
    apply_action(&mut lazy, TrackAction::Seek(480));
    assert_eq!(lazy.position, 0);
}

#[test]
fn pause_and_resume_toggle() {
    let mut t = live_track(false);
    apply_action(&mut t, TrackAction::Pause);
    assert!(matches!(t.playing, PlayMode::Pause));
    apply_action(&mut t, TrackAction::Play);
    assert!(matches!(t.playing, PlayMode::Play));
}

#[test]
fn checked_controls_fail_on_finished_tracks() {
    let mut t = live_track(true);
    assert!(t.stop().is_ok());
    assert_eq!(t.play(), Err(ControlError::Finished));
    assert_eq!(t.pause(), Err(ControlError::Finished));
    assert_eq!(t.stop(), Err(ControlError::Finished));
    assert_eq!(t.seek(0), Err(ControlError::Finished));
}

#[test]
fn checked_seek_reports_unsupported_inputs() {
    let mut no = live_track(false);
    assert_eq!(no.seek(480), Err(ControlError::SeekUnsupported));
    assert_eq!(no.position, 0);
    let mut lazy = Track::new(4, Input::Lazy);
    assert_eq!(lazy.seek(480), Err(ControlError::SeekUnsupported));
    let mut yes = live_track(true);
    assert_eq!(yes.seek(480), Ok(480));
    assert_eq!(yes.position, 480);
}

#[test]
fn checked_controls_move_live_tracks() {
    let mut t = live_track(false);
    assert!(t.pause().is_ok());
    assert!(matches!(t.playing, PlayMode::Pause));
    assert!(t.play().is_ok());
    assert!(matches!(t.playing, PlayMode::Play));
}

#[test]
fn core_events_cannot_attach_to_tracks() {
    assert_eq!(
        validate_track_event(Event::Track(TrackEvent::End)),
        Ok(Event::Track(TrackEvent::End))
    );
    assert_eq!(validate_track_event(Event::Delayed(5000)), Ok(Event::Delayed(5000)));
    assert_eq!(validate_track_event(Event::Periodic(20)), Ok(Event::Periodic(20)));
    assert_eq!(validate_track_event(Event::Core), Err(ControlError::InvalidTrackEvent));
}

#[test]
fn validity_checks_match_construction() {
    let good = live_track(false);
    assert!(good.is_valid());
    let mut loud = live_track(false);
    loud.volume = VOLUME_MAX;
    assert!(loud.is_valid());
    loud.volume = VOLUME_MAX + 1;
    assert!(!loud.is_valid());
    let out_of_scale = AudioSource {
        pcm: vec![0x800000i32; 4],
        opus_frames: Vec::new(),
        seekable: false,
    };
    assert!(!out_of_scale.is_valid());
    let in_scale = AudioSource { pcm: vec![0x7fffffi32; 4], opus_frames: Vec::new(), seekable: false };
    assert!(in_scale.is_valid());
    let lazy_playable = Track { ready: ReadyState::Playable, ..Track::new(1, Input::Lazy) };
    assert!(!lazy_playable.is_valid());
}
