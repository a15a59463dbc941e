use velotype::now_playing::EndpointNotificationClient;
use velotype::output_format::DEVICE_INVALIDATED;
use velotype::playback::{ControlStep, Playback, ReadStep, SeekStep};
use velotype::player::{after_attempt, after_track, AfterTrack, RetryPause};
use velotype::player_state::{PlayerControls, PlayerState, RetryReason};
use velotype::track::{
    cleanup_of, cleanup_of_step, leave_track, loop_ends, prepare_track, send_decoder, take_answer,
    take_seek, track_resumed, track_started, wait_step, TrackClock, TrackExit, TrackSignals,
    WaitStep, NO_SEEK,
};

/// A track of a minute, two seconds in.
fn playing() -> Playback {
    Playback::new(48_000, 2, 60_000, 2_000, 240, 4_800)
}

fn leave(c: &mut PlayerControls, device: &mut EndpointNotificationClient, exit: TrackExit) -> Option<u64> {
    let mut clock = TrackClock::new();
    leave_track(c, device, &mut clock, exit, 500, 900, 77)
}

fn signals() -> TrackSignals {
    TrackSignals { stop: true, seek_req_ms: 5, seek_to_ms: 6, sought: true }
}

#[test]
fn retry_request_reopens_the_track() {
    let p = playing();
    let mut c = PlayerControls::new();
    c.request_playback_retry(RetryReason::ModeChanged);
    let step = p.obey(&mut c, true, true);
    assert!(step == ControlStep::Reopen(2_000));
    assert!(c.pending_retry == RetryReason::NoRetry);
    assert!(c.last_retry == RetryReason::ModeChanged);
    assert_eq!(loop_ends(step), Some(Some(2_000)));
    assert!(after_attempt(&mut c, Some(2_000)) == Some((2_000, RetryPause::Nothing)));
    assert!(c.last_retry == RetryReason::NoRetry);

    c.request_playback_retry(RetryReason::Restart);
    assert!(p.obey(&mut c, false, false) == ControlStep::Reopen(0));
    assert!(c.last_retry == RetryReason::Restart);

    c.request_playback_retry(RetryReason::DefaultDeviceChanged);
    assert!(p.obey(&mut c, false, false) == ControlStep::Reopen(2_000));
    assert!(after_attempt(&mut c, Some(2_000)) == Some((2_000, RetryPause::SettleDevice)));
}

#[test]
fn other_requests_are_obeyed() {
    let p = playing();
    let mut c = PlayerControls::new();
    c.set_player_state(PlayerState::Playing);
    assert!(p.obey(&mut c, false, true) == ControlStep::GoOn);
    assert!(c.state == PlayerState::Playing);
    assert_eq!(loop_ends(ControlStep::GoOn), None);

    c.to_next = true;
    assert!(p.obey(&mut c, true, true) == ControlStep::Abort);
    assert!(c.state == PlayerState::Playing && c.last_retry == RetryReason::NoRetry);
    assert_eq!(loop_ends(ControlStep::Abort), Some(None));
    assert!(c.to_next);
}

#[test]
fn pause_gives_an_exclusive_device_back() {
    let p = playing();
    let mut c = PlayerControls::new();
    c.set_player_state(PlayerState::Playing);
    assert!(p.obey(&mut c, true, false) == ControlStep::WaitForResume);
    assert!(c.state == PlayerState::Paused && c.last_retry == RetryReason::NoRetry);
    assert!(track_resumed(&mut c));
    assert!(c.state == PlayerState::Playing);
    assert!(!track_resumed(&mut c));
    assert!(p.obey(&mut c, true, true) == ControlStep::Release(2_000));
    assert!(c.state == PlayerState::Paused);
    assert!(c.last_retry == RetryReason::PauseExclusiveRelease);
}

#[test]
fn unopened_track_rests() {
    let mut c = PlayerControls::new();
    c.set_player_state(PlayerState::Playing);
    let mut device = EndpointNotificationClient::new();
    let mut clock = TrackClock { samples_played: 9, duration_ms: 8, rate: 48_000, channels: 1 };
    let r = leave_track(&mut c, &mut device, &mut clock, TrackExit::OpenFailed, 1, 2, 3);
    assert_eq!(r, None);
    assert!(clock == TrackClock { samples_played: 0, duration_ms: 0, rate: 48_000, channels: 1 });
    assert!(c.state == PlayerState::Stopped);
    assert!(c.last_retry == RetryReason::TrackOpenFailed);
    assert!(after_attempt(&mut c, r).is_none());
    assert!(c.last_retry == RetryReason::NoRetry);
    assert!(after_track(&mut c, 3, Some(0), 1) == AfterTrack::Wait);

    let mut clock = TrackClock { samples_played: 9, duration_ms: 8, rate: 48_000, channels: 1 };
    let r = leave_track(&mut c, &mut device, &mut clock, TrackExit::DecoderGone, 1, 2, 3);
    assert_eq!((r, clock.samples_played, clock.duration_ms), (None, 9, 8));
    assert!(c.state == PlayerState::Stopped);
    assert!(c.last_retry == RetryReason::TrackOpenFailed);
    assert_eq!(device.change_tick, 0);
}

#[test]
fn lost_device_settles() {
    for exit in [
        TrackExit::StartFailed(Some(DEVICE_INVALIDATED)),
        TrackExit::WriteFailed(Some(DEVICE_INVALIDATED)),
    ] {
        let mut c = PlayerControls::new();
        let mut device = EndpointNotificationClient::new();
        let back = leave(&mut c, &mut device, exit);
        assert!(c.last_retry == RetryReason::DeviceInvalidated);
        assert_eq!(device.change_tick, 77);
        assert!(after_attempt(&mut c, back).unwrap().1 == RetryPause::SettleDevice);
    }
}

#[test]
fn each_exit_has_its_reason() {
    let cases = [
        (TrackExit::DeviceFailed, Some(500), RetryReason::WasapiInitFailed),
        (TrackExit::DeviceInUse, Some(500), RetryReason::DeviceInUse),
        (TrackExit::StartFailed(None), Some(500), RetryReason::StartStreamFailed),
        (TrackExit::StartFailed(Some(1)), Some(500), RetryReason::StartStreamFailed),
        (TrackExit::ResumeFailed, Some(900), RetryReason::ResumeStartStreamFailed),
        (TrackExit::WriteFailed(None), Some(900), RetryReason::RenderWriteFailed),
        (TrackExit::WriteFailed(Some(2)), Some(900), RetryReason::RenderWriteFailed),
        (TrackExit::Ended, None, RetryReason::NoRetry),
        (TrackExit::NotBegun, None, RetryReason::NoRetry),
        (TrackExit::LeftInPause, None, RetryReason::NoRetry),
        (TrackExit::DeviceGone, None, RetryReason::NoRetry),
    ];
    for (exit, back, reason) in cases {
        let mut c = PlayerControls::new();
        c.set_player_state(PlayerState::Playing);
        let mut device = EndpointNotificationClient::new();
        assert_eq!(leave(&mut c, &mut device, exit), back);
        assert!(c.last_retry == reason);
        assert!(c.state == PlayerState::Playing);
        assert_eq!(device.change_tick, 0);
    }
}

#[test]
fn world_is_cleaned_up() {
    assert!(cleanup_of(TrackExit::DeviceInUse).pauses);
    let ended = cleanup_of(TrackExit::Ended);
    assert!(!ended.pauses && ended.stops_stream && ended.stops_decoder);
    let unstarted = cleanup_of(TrackExit::StartFailed(None));
    assert!(!unstarted.stops_stream && unstarted.stops_decoder);
    assert!(!cleanup_of(TrackExit::OpenFailed).stops_decoder);
    let waits = cleanup_of_step(ControlStep::WaitForResume);
    assert!(waits.stops_stream && !waits.stops_decoder);
    assert!(cleanup_of_step(ControlStep::Abort).stops_decoder);
    assert!(!cleanup_of_step(ControlStep::GoOn).stops_stream);
}

#[test]
fn wait_ends() {
    assert!(wait_step(true, 1) == WaitStep::Leave);
    assert!(wait_step(false, 0) == WaitStep::AskAgain);
    assert!(wait_step(false, 1) == WaitStep::GoOn);
    assert!(wait_step(false, 258) == WaitStep::Leave);
}

#[test]
fn track_starts() {
    let mut s = signals();
    let mut clock = TrackClock::new();
    prepare_track(&mut s, &mut clock, 2_000, 48_000, 2);
    assert!(s == TrackSignals { stop: false, seek_req_ms: NO_SEEK, seek_to_ms: NO_SEEK, sought: false });
    assert_eq!(clock.samples_played, 192_000);
    let mut c = PlayerControls::new();
    assert_eq!(track_started(&mut c, &mut clock, 48_000, 2, None, 7, 2_000), (2_000, 7));
    assert!(c.state == PlayerState::Playing);
    assert_eq!((clock.duration_ms, clock.rate, clock.channels), (7, 48_000, 2));
    let r = track_started(&mut c, &mut clock, 48_000, 2, Some(u64::MAX), 7, 0);
    assert_eq!(r, (0, i64::MAX));
    assert_eq!(clock.duration_ms, u64::MAX);
}

#[test]
fn requests_to_seek_are_taken() {
    let mut p = playing();
    let mut c = PlayerControls::new();
    let mut s = signals();
    s.seek_req_ms = 70_000;
    c.to_seek = 3;
    assert!(take_seek(&mut p, &mut c, &mut s) == SeekStep::PastEnd);
    assert!(c.to_next && c.to_seek == 0 && s.seek_req_ms == NO_SEEK);
    assert_eq!(s.seek_to_ms, 6);

    p.commit_seek(10_000);
    send_decoder(&mut s, 10_000);
    assert_eq!(s.seek_to_ms, 10_000);
    s.sought = false;
    assert!(take_answer(&mut p, &mut s) == ReadStep::Silence);
    c.to_seek = 5;
    assert!(take_seek(&mut p, &mut c, &mut s) == SeekStep::Redirect(15_000));
    assert_eq!(s.seek_to_ms, 15_000);
    s.sought = true;
    assert!(take_answer(&mut p, &mut s) == ReadStep::Clear);
    assert!(!s.sought);
    assert!(take_answer(&mut p, &mut s) == ReadStep::Proceed);
}
