use velotype::now_playing::{
    clamp_ms_to_timespan, media_button_message, timeline, window_title, EndpointNotificationClient,
    MediaButton, NowPlaying,
};
use velotype::player::{
    after_track, before_track, choose_next_track, current_play_mode, current_random_method,
    handle_playback_retry, random_next_track_index, AfterTrack, BeforeTrack, RetryPause,
    RANDOM_METHOD_MEMORY, RANDOM_METHOD_SQL,
};
use velotype::player_messages::{
    player_message, progress_bar, progress_to_save, seconds_of, taskbar_flag, toggle_visibility,
    PlayerDesk, PlayerMessage, WM_DEVICE_IN_USE, WM_NEXT_TRACK, WM_PLAY_PAUSE, WM_SEEK_FWD,
    WM_VOL_UP,
};
use velotype::player_state::{
    player_state_from_u8, player_state_to_u8, retry_priority, retry_reason_from_u32,
    retry_reason_to_u32, PlayMode, PlayerCommand, PlayerControls, PlayerState, RetryReason,
};
use velotype::random::Rng;
use velotype::song::SongInfo;

fn desk() -> PlayerDesk {
    PlayerDesk {
        controls: PlayerControls::new(),
        paused: false,
        exclusive: false,
        def_exclusive: false,
        window_visible: true,
        last_save: 0,
    }
}

#[test]
fn numbers_of_states_round_trip() {
    for state in [
        PlayerState::Idle,
        PlayerState::Playing,
        PlayerState::Paused,
        PlayerState::Stopped,
        PlayerState::Error,
    ] {
        assert!(player_state_from_u8(player_state_to_u8(state)) == state);
    }
    assert!(player_state_from_u8(200) == PlayerState::Idle);
    for n in 0..12u32 {
        let reason = retry_reason_from_u32(n);
        assert!(retry_reason_from_u32(retry_reason_to_u32(reason)) == reason);
    }
    assert!(retry_reason_from_u32(99) == RetryReason::NoRetry);
}

#[test]
fn most_urgent_request_waits() {
    let mut c = PlayerControls::new();
    let (low, high) = if retry_priority(RetryReason::Restart) < retry_priority(RetryReason::DeviceInUse)
    {
        (RetryReason::Restart, RetryReason::DeviceInUse)
    } else {
        (RetryReason::DeviceInUse, RetryReason::Restart)
    };
    c.request_playback_retry(high);
    c.request_playback_retry(low);
    assert!(c.take_playback_retry_request() == high);
    assert!(c.take_playback_retry_request() == RetryReason::NoRetry);
    c.request_playback_retry(low);
    c.clear_playback_retry_request_if(high);
    assert!(c.pending_retry == low);
    c.clear_playback_retry_request_if(low);
    assert!(c.pending_retry == RetryReason::NoRetry);
    c.set_last_retry_reason(low);
    assert!(c.take_last_retry_reason() == low);
    assert!(c.take_last_retry_reason() == RetryReason::NoRetry);
}

#[test]
fn commands_are_taken_once() {
    let mut c = PlayerControls::new();
    assert!(c.take_player_commands().is_none());
    c.push_command(PlayerCommand::SwitchToIndex(4));
    assert!(c.should_abort_playback());
    let taken = c.take_player_commands().unwrap();
    assert_eq!(taken.len(), 1);
    assert!(c.take_player_commands().is_none());
    assert!(c.get_player_state() == PlayerState::Idle);
    assert!(c.set_player_state(PlayerState::Playing));
    assert!(!c.set_player_state(PlayerState::Playing));
}

#[test]
fn next_and_previous() {
    assert_eq!(choose_next_track(PlayMode::Sequential, 0, 3, 9), (1, 0));
    assert_eq!(choose_next_track(PlayMode::Sequential, 2, 3, 9), (0, 0));
    assert_eq!(choose_next_track(PlayMode::Sequential, 7, 3, 9), (2, 0));
    assert_eq!(choose_next_track(PlayMode::Single, 1, 3, 9), (1, 0));
    assert_eq!(choose_next_track(PlayMode::Shuffle, 1, 3, 2), (2, 0));
    assert!(current_play_mode(0) == PlayMode::Single);
    assert!(current_play_mode(1) == PlayMode::Shuffle);
    assert!(current_play_mode(7) == PlayMode::Sequential);
    assert_eq!(current_random_method(RANDOM_METHOD_SQL), RANDOM_METHOD_SQL);
    assert_eq!(current_random_method(RANDOM_METHOD_MEMORY), RANDOM_METHOD_MEMORY);
    assert_eq!(current_random_method(9), RANDOM_METHOD_SQL);
}

#[test]
fn shuffled_track_is_another_one() {
    let mut rng = Rng::new();
    for i in 0..50u64 {
        let n = random_next_track_index(&mut rng, i, RANDOM_METHOD_MEMORY, None, 2, 4);
        assert!(n < 4 && n != 2);
    }
    assert_eq!(random_next_track_index(&mut rng, 1, RANDOM_METHOD_SQL, Some(3), 2, 4), 3);
}

#[test]
fn track_goes_on_after_the_last() {
    let mut c = PlayerControls::new();
    c.set_active_playlist(1, 3, 2, 2);
    match before_track(&mut c, 3, None) {
        BeforeTrack::Play { idx, start_ms } => {
            assert_eq!(idx, 2);
            assert_eq!(start_ms, 0);
        }
        _ => panic!("nothing is played"),
    }
    assert!(matches!(after_track(&mut c, 3, Some(2), 0), AfterTrack::Again));
    assert_eq!(c.track, 0);
}

#[test]
fn retry_pauses() {
    assert!(matches!(
        handle_playback_retry(RetryReason::DefaultDeviceChanged),
        RetryPause::SettleDevice
    ));
    assert!(matches!(handle_playback_retry(RetryReason::Restart), RetryPause::Nothing));
}

#[test]
fn messages_of_the_player() {
    assert!(player_message(WM_PLAY_PAUSE, 0, 0, 0xc000, true) == PlayerMessage::PlayPause);
    assert!(player_message(WM_SEEK_FWD, 0, 9, 0xc000, true) == PlayerMessage::SeekForward(9));
    assert!(player_message(0xc000, 0, 0, 0xc000, true) == PlayerMessage::TaskbarCreated);
    assert!(player_message(0xc001, 0, 0, 0xc000, true) == PlayerMessage::Other);
}

#[test]
fn play_and_pause_undo_each_other() {
    let mut d = desk();
    d.controls.set_player_state(PlayerState::Playing);
    let before = d.paused;
    d.handle(PlayerMessage::PlayPause, 3, 0);
    assert_ne!(d.paused, before);
    d.handle(PlayerMessage::PlayPause, 3, 0);
    assert_eq!(d.paused, before);
}

#[test]
fn volume_stays_in_range() {
    let mut d = desk();
    for _ in 0..60 {
        d.handle(PlayerMessage::VolumeUp, 3, 0);
    }
    assert_eq!(d.controls.to_volume, 100);
    for _ in 0..60 {
        d.handle(PlayerMessage::VolumeDown, 3, 0);
    }
    assert_eq!(d.controls.to_volume, 0);
}

#[test]
fn skipping_ends_a_pause() {
    let mut d = desk();
    d.paused = true;
    let reply = d.handle(PlayerMessage::NextTrack, 3, 0);
    assert!(!d.paused);
    assert!(d.controls.to_next);
    assert!(reply.wakes_player);
}

#[test]
fn hotkeys_and_codes() {
    assert_eq!(WM_NEXT_TRACK, 0x405);
    assert_eq!(WM_VOL_UP, 0x407);
    assert_eq!(WM_DEVICE_IN_USE, 0x40a);
    assert_eq!(seconds_of(0), 5);
    assert_eq!(seconds_of(7), 7);
    assert_eq!(seconds_of(1000), 100);
}

#[test]
fn progress_of_a_track() {
    assert_eq!(progress_bar(500, 1000), 500);
    assert_eq!(progress_bar(5000, 1000), 1000);
    assert_eq!(progress_bar(5, 0), 0);
    assert_eq!(taskbar_flag(PlayerState::Playing), 2);
    assert_eq!(taskbar_flag(PlayerState::Paused), 8);
    assert_eq!(taskbar_flag(PlayerState::Error), 4);
    assert_eq!(taskbar_flag(PlayerState::Stopped), 0);
    assert_eq!(progress_to_save(88200, 44100, 2, 7), 1000);
    assert_eq!(progress_to_save(88200, 0, 2, 7), 7);
}

#[test]
fn window_is_shown_and_hidden() {
    let t = toggle_visibility(true, PlayerState::Playing, 1000, 88200, 44100, 2);
    assert!(!t.shows && t.flag.is_none() && t.progress.is_none());
    let t = toggle_visibility(false, PlayerState::Playing, 5000, 88200, 44100, 2);
    assert!(t.shows);
    assert_eq!(t.flag, Some(2));
    assert_eq!(t.progress, Some((1000, 5000)));
    let t = toggle_visibility(false, PlayerState::Idle, 0, 0, 44100, 2);
    assert_eq!(t.progress, None);
}

#[test]
fn progress_is_saved_now_and_then() {
    let mut d = desk();
    d.controls.set_player_state(PlayerState::Playing);
    assert!(!d.save_due(100_000, 0, "a"));
}

#[test]
fn playing_song_is_told_once() {
    let mut np = NowPlaying::new();
    let song = SongInfo::at("C:\\a\\b.mp3");
    assert!(np.smtc_set_now_playing_from_song(&song, true));
    assert!(!np.smtc_sync_now_playing_if_needed(true));
    assert!(!np.smtc_set_now_playing(song.copy(), false));
    assert!(np.smtc_sync_now_playing_if_needed(true));
    assert!(np.smtc_update_playback_status(PlayerState::Playing).is_some());
    assert!(np.smtc_update_playback_status(PlayerState::Playing).is_none());
}

#[test]
fn times_are_clamped() {
    assert_eq!(clamp_ms_to_timespan(1), 10_000);
    assert_eq!(clamp_ms_to_timespan(u64::MAX), 9_223_372_036_854_770_000);
    assert_eq!(timeline(1, 0), None);
    assert_eq!(timeline(3, 2), Some((20_000, 20_000)));
}

#[test]
fn media_buttons() {
    assert_eq!(media_button_message(MediaButton::Next), Some(WM_NEXT_TRACK));
    assert_eq!(media_button_message(MediaButton::Other), None);
}

#[test]
fn device_changes_are_waited_for() {
    let mut client = EndpointNotificationClient::new();
    let mut c = PlayerControls::new();
    assert!(!client.default_changed(&mut c, false, 50));
    assert!(c.pending_retry == RetryReason::NoRetry);
    client.default_changed(&mut c, true, 50);
    assert!(client.waits(0, 100));
    assert!(!client.waits(0, 6000));
}

#[test]
fn title_of_the_window() {
    assert_eq!(window_title("Song", "Band"), "Song - Band");
    assert_eq!(window_title("Song", ""), "Song");
}
