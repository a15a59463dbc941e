//! What the system is told of the song that plays, and what it tells of the
//! output device.

use crate::player_messages::{WM_NEXT_TRACK, WM_PAUSE, WM_PREV_TRACK, WM_RESUME};
use crate::player_state::{Controls, PlayerControls, PlayerState, RetryReason};
use crate::song::{Song, SongInfo};
use crate::tags::{
    author_and_title, facts_of, fill_now_playing_from_ffmpeg_tags,
    fill_now_playing_from_symphonia_tags, is_song_of_facts, item_views, named_views,
    parse_author_title_from_path, smtc_fill_now_playing_fallbacks, with_fallbacks, TagItem,
};
use crate::text::same_text;
use vstd::prelude::*;

verus! {

/// The song that plays, as the system knows it.
pub struct NowPlaying {
    pub song: SongInfo,
    /// How often the song changed.
    pub id: u64,
    /// Which change the system was told last.
    pub applied_id: u64,
    /// The state that the system was told last.
    pub last_status: u8,
}

/// The system's number for the state of a player.
pub open spec fn status_number(state: PlayerState) -> u8 {
    match state {
        PlayerState::Playing => 1,
        PlayerState::Paused => 2,
        _ => 3,
    }
}

impl NowPlaying {
    /// No song plays.
    pub fn new() -> (r: NowPlaying)
        ensures
            r.song@ == Song::at(Seq::empty()),
            r.id == 0,
            r.applied_id == 0,
            r.last_status == 255,
    {
        proof {
            reveal_strlit("");
        }
        assert(""@ =~= Seq::<char>::empty());
        NowPlaying { song: SongInfo::at(""), id: 0, applied_id: 0, last_status: 255 }
    }

    /// Whether the system has to be told of the song now. `has_system` says
    /// whether there is anybody to tell.
    pub fn smtc_sync_now_playing_if_needed(&mut self, has_system: bool) -> (tell: bool)
        ensures
            tell == (has_system && old(self).id != 0 && old(self).applied_id != old(self).id),
            final(self).song@ == old(self).song@,
            final(self).id == old(self).id,
            final(self).last_status == old(self).last_status,
            final(self).applied_id == (if tell {
                old(self).id
            } else {
                old(self).applied_id
            }),
    {
        if !has_system || self.id == 0 || self.applied_id == self.id {
            return false;
        }
        self.applied_id = self.id;
        true
    }

    /// Takes over the song that plays.
    pub fn smtc_set_now_playing(&mut self, song: SongInfo, has_system: bool) -> (tell: bool)
        ensures
            final(self).song@ == song@,
            final(self).id == old(self).id.wrapping_add(1),
            final(self).last_status == old(self).last_status,
            tell == (has_system && final(self).id != 0 && old(self).applied_id != final(self).id),
            final(self).applied_id == (if tell {
                final(self).id
            } else {
                old(self).applied_id
            }),
    {
        self.song = song;
        self.id = self.id.wrapping_add(1);
        self.smtc_sync_now_playing_if_needed(has_system)
    }

    /// Takes over a song of a playlist that plays. What is not told of it is made
    /// up from its path. The same song again changes nothing.
    pub fn smtc_set_now_playing_from_song(&mut self, song: &SongInfo, has_system: bool) -> (tell: bool)
        ensures
            old(self).song.path@ == song.path@ ==> final(self).song@ == old(self).song@
                && final(self).id == old(self).id,
            old(self).song.path@ != song.path@ ==> final(self).song@ == with_fallbacks(song@)
                && final(self).id == old(self).id.wrapping_add(1),
            final(self).last_status == old(self).last_status,
            tell == (has_system && final(self).id != 0 && old(self).applied_id != final(self).id),
            final(self).applied_id == (if tell {
                final(self).id
            } else {
                old(self).applied_id
            }),
    {
        if same_text(self.song.path.as_str(), song.path.as_str()) {
            return self.smtc_sync_now_playing_if_needed(has_system);
        }
        let mut np = song.copy();
        smtc_fill_now_playing_fallbacks(&mut np);
        self.smtc_set_now_playing(np, has_system)
    }

    /// Whether the system has to be told of another state.
    pub fn smtc_update_playback_status(&mut self, state: PlayerState) -> (tell: Option<u8>)
        ensures
            final(self).last_status == status_number(state),
            final(self).song@ == old(self).song@,
            final(self).id == old(self).id,
            final(self).applied_id == old(self).applied_id,
            tell == (if old(self).last_status == status_number(state) {
                None
            } else {
                Some(status_number(state))
            }),
    {
        let status: u8 = match state {
            PlayerState::Playing => 1,
            PlayerState::Paused => 2,
            _ => 3,
        };
        let before: u8 = self.last_status;
        self.last_status = status;
        if before == status {
            None
        } else {
            Some(status)
        }
    }
}

/// A list that may be missing, by view.
pub open spec fn list_view<T>(list: Option<&Vec<T>>) -> Option<Seq<T>> {
    match list {
        Some(l) => Some(l@),
        None => None,
    }
}

/// Whether a song is what the tags of its file tell: those of the first reader
/// that could read them, else what its path tells alone.
pub open spec fn is_told(
    song: Song,
    path: Seq<char>,
    tags: Option<Seq<TagItem>>,
    other_tags: Option<Seq<(String, String)>>,
) -> bool {
    match (tags, other_tags) {
        (Some(t), _) => is_song_of_facts(song, path, facts_of(item_views(t)), false),
        (None, Some(t)) => is_song_of_facts(song, path, facts_of(named_views(t)), true),
        (None, None) => song == (Song {
            author: author_and_title(path).0,
            title: author_and_title(path).1,
            ..Song::at(path)
        }),
    }
}

/// The song at a path that plays, from what was read of its tags: from the first
/// reader that could read them, else from its path alone. What is still missing
/// is made up from the path.
pub fn smtc_set_now_playing_from_path(
    path: &str,
    tags: Option<&Vec<TagItem>>,
    other_tags: Option<&Vec<(String, String)>>,
) -> (r: SongInfo)
    ensures
        exists|song: Song| #[trigger]
            is_told(song, path@, list_view(tags), list_view(other_tags)) && r@ == with_fallbacks(
                song,
            ),
{
    let mut np: SongInfo = match tags {
        Some(t) => fill_now_playing_from_symphonia_tags(path, t),
        None => match other_tags {
            Some(t) => fill_now_playing_from_ffmpeg_tags(path, t),
            None => {
                let (author, title) = parse_author_title_from_path(path);
                let mut song = SongInfo::at(path);
                song.author = author;
                song.title = title;
                song
            },
        },
    };
    let ghost told = np@;
    assert(is_told(told, path@, list_view(tags), list_view(other_tags))) by {
        if tags is None && other_tags is None {
            assert(told =~= (Song {
                author: author_and_title(path@).0,
                title: author_and_title(path@).1,
                ..Song::at(path@)
            }));
        }
    }
    smtc_fill_now_playing_fallbacks(&mut np);
    np
}

/// A time as the system wants it, in units of a hundred nanoseconds, or the
/// highest that it can hold.
pub open spec fn time_span(ms: u64) -> int {
    let most = i64::MAX as int / 10_000;
    (if ms as int > most {
        most
    } else {
        ms as int
    }) * 10_000
}

/// A time as the system wants it.
pub fn clamp_ms_to_timespan(ms: u64) -> (r: i64)
    ensures
        r == time_span(ms),
{
    let most: u64 = i64::MAX as u64 / 10_000;
    let kept: u64 = if ms > most {
        most
    } else {
        ms
    };
    (kept * 10_000) as i64
}

/// What the system is told of the position: the end and the position, not beyond
/// it; nothing while the length is not known.
pub fn timeline(position_ms: u64, duration_ms: u64) -> (r: Option<(i64, i64)>)
    ensures
        r is Some <==> duration_ms > 0,
        r matches Some((end, pos)) ==> end == time_span(duration_ms) && pos == time_span(
            if position_ms < duration_ms {
                position_ms
            } else {
                duration_ms
            },
        ) && pos <= end,
{
    if duration_ms == 0 {
        return None;
    }
    let pos: u64 = if position_ms < duration_ms {
        position_ms
    } else {
        duration_ms
    };
    Some((clamp_ms_to_timespan(duration_ms), clamp_ms_to_timespan(pos)))
}

/// A button of the system's media controls.
#[derive(Clone, Copy, PartialEq, Eq, Structural)]
pub enum MediaButton {
    Play,
    Pause,
    Stop,
    Next,
    Previous,
    Other,
}

/// The message that a button sends to the player.
pub fn media_button_message(button: MediaButton) -> (r: Option<u32>)
    ensures
        r == (match button {
            MediaButton::Play => Some(WM_RESUME),
            MediaButton::Pause => Some(WM_PAUSE),
            MediaButton::Stop => Some(WM_PAUSE),
            MediaButton::Next => Some(WM_NEXT_TRACK),
            MediaButton::Previous => Some(WM_PREV_TRACK),
            MediaButton::Other => None,
        }),
{
    match button {
        MediaButton::Play => Some(WM_RESUME),
        MediaButton::Pause => Some(WM_PAUSE),
        MediaButton::Stop => Some(WM_PAUSE),
        MediaButton::Next => Some(WM_NEXT_TRACK),
        MediaButton::Previous => Some(WM_PREV_TRACK),
        MediaButton::Other => None,
    }
}

/// How long the output device must have stayed the same before the player opens
/// it again, how often that is looked at, and how long that is waited for.
pub const DEVICE_DEBOUNCE_MS: u32 = 300;

pub const DEVICE_POLL_MS: u32 = 20;

pub const DEVICE_MAX_WAIT_MS: u32 = 5000;

/// What is known of changes of the output device.
pub struct EndpointNotificationClient {
    /// When it changed last; zero says never.
    pub change_tick: u32,
}

impl EndpointNotificationClient {
    /// It never changed.
    pub fn new() -> (r: EndpointNotificationClient)
        ensures
            r.change_tick == 0,
    {
        EndpointNotificationClient { change_tick: 0 }
    }

    /// The default device changed. A player that plays opens the track again on
    /// the new one. `for_output` says whether the change concerns the output. The
    /// result says whether this is the first request.
    pub fn default_changed(&mut self, controls: &mut PlayerControls, for_output: bool, now: u32) -> (r:
        bool)
        ensures
            final(self).change_tick == (if for_output {
                now
            } else {
                old(self).change_tick
            }),
            final(controls)@ == (if for_output && old(controls).state == PlayerState::Playing {
                old(controls)@.retry_requested(RetryReason::DefaultDeviceChanged)
            } else {
                old(controls)@
            }),
            r == (for_output && old(controls).state == PlayerState::Playing && old(
                controls,
            ).pending_retry == RetryReason::NoRetry),
    {
        if !for_output {
            return false;
        }
        self.change_tick = now;
        if controls.state == PlayerState::Playing {
            controls.request_playback_retry(RetryReason::DefaultDeviceChanged)
        } else {
            false
        }
    }

    /// Whether the player waits a moment longer for the device to settle. `start`
    /// is when it started to wait.
    pub fn waits(&self, start: u32, now: u32) -> (r: bool)
        ensures
            r == (self.change_tick != 0 && now.wrapping_sub(self.change_tick) < DEVICE_DEBOUNCE_MS
                && now.wrapping_sub(start) < DEVICE_MAX_WAIT_MS),
    {
        self.change_tick != 0 && now.wrapping_sub(self.change_tick) < DEVICE_DEBOUNCE_MS
            && now.wrapping_sub(start) < DEVICE_MAX_WAIT_MS
    }
}

/// Ends the wait for the device: the request that led to it is dropped.
pub fn device_settled(controls: &mut PlayerControls)
    ensures
        final(controls)@ == (Controls {
            pending_retry: if old(controls).pending_retry == RetryReason::DefaultDeviceChanged {
                RetryReason::NoRetry
            } else {
                old(controls).pending_retry
            },
            ..old(controls)@
        }),
{
    controls.clear_playback_retry_request_if(RetryReason::DefaultDeviceChanged);
}

/// What stands over the window while a song is played: its title, and who made it
/// where that is known.
pub open spec fn window_title_of(title: Seq<char>, author: Seq<char>) -> Seq<char> {
    if author.len() == 0 {
        title
    } else {
        title + " - "@ + author
    }
}

/// What stands over the window while a song is played.
pub fn window_title(title: &str, author: &str) -> (r: String)
    ensures
        r@ == window_title_of(title@, author@),
{
    let mut r: String = title.to_owned();
    if !author.is_empty() {
        r.append(" - ");
        r.append(author);
    }
    r
}

/// The system is told of a player that plays, one that is paused, and else of one that has
/// stopped.
pub proof fn law_system_is_told_the_state(state: PlayerState)
    ensures
        status_number(PlayerState::Playing) == 1,
        status_number(PlayerState::Paused) == 2,
        state != PlayerState::Playing && state != PlayerState::Paused ==> status_number(state) == 3,
{
}

/// A time is told in units of a hundred nanoseconds, up to the greatest whole millisecond.
pub proof fn law_time_is_told_in_small_units(ms: u64)
    ensures
        ms <= 922_337_203_685_477 ==> time_span(ms) == ms * 10_000,
        0 <= time_span(ms) <= i64::MAX,
        ms >= 922_337_203_685_477 ==> time_span(ms) == 9_223_372_036_854_770_000,
{
}

/// The window is named by the song that plays: its title, and behind it its artist where it
/// has one.
pub proof fn law_window_is_named_by_the_song(title: Seq<char>, author: Seq<char>)
    ensures
        author.len() == 0 ==> window_title_of(title, author) == title,
        author.len() > 0 ==> window_title_of(title, author) == title + seq![' ', '-', ' '] + author,
{
    reveal_strlit(" - ");
    assert(" - "@ =~= seq![' ', '-', ' ']);
}

} // verus!
