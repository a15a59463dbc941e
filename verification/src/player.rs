//! The player thread's decisions: which track plays next, and when it waits.

use crate::player_state::{
    Controls, PlayMode, PlayerCommand, PlayerControls, PlayerState, RetryReason, play_mode_of,
};
use crate::random::{MAX_REJECTIONS, Rng, draw_below};
use vstd::prelude::*;

verus! {

/// Picks from memory.
pub const RANDOM_METHOD_MEMORY: usize = 0;

/// Picks by the playlist database.
pub const RANDOM_METHOD_SQL: usize = 1;

/// The song after `idx`; the last is followed by the first.
pub open spec fn next_index(idx: int, len: int) -> int {
    (idx + 1) % len
}

/// The song before `idx`; the first is preceded by the last.
pub open spec fn prev_index(idx: int, len: int) -> int {
    if idx == 0 {
        len - 1
    } else {
        idx - 1
    }
}

/// Stepping forwards and backwards undo each other, and stay in the list.
pub proof fn law_next_and_prev_are_inverse(idx: int, len: int)
    requires
        0 <= idx < len,
    ensures
        prev_index(next_index(idx, len), len) == idx,
        next_index(prev_index(idx, len), len) == idx,
        0 <= next_index(idx, len) < len,
        0 <= prev_index(idx, len) < len,
{
    if idx == len - 1 {
        assert(len % len == 0) by (nonlinear_arith)
            requires
                len > 0,
        ;
    } else {
        assert((idx + 1) % len == idx + 1) by (nonlinear_arith)
            requires
                0 <= idx + 1 < len,
        ;
    }
    if idx > 0 {
        assert(idx % len == idx) by (nonlinear_arith)
            requires
                0 <= idx < len,
        ;
    } else {
        assert(len % len == 0) by (nonlinear_arith)
            requires
                len > 0,
        ;
    }
}

fn step_forward(idx: usize, len: usize) -> (r: usize)
    requires
        idx < len,
    ensures
        r == next_index(idx as int, len as int),
        r < len,
{
    proof {
        law_next_and_prev_are_inverse(idx as int, len as int);
    }
    (idx + 1) % len
}

fn step_back(idx: usize, len: usize) -> (r: usize)
    requires
        idx < len,
    ensures
        r == prev_index(idx as int, len as int),
        r < len,
{
    if idx == 0 {
        len - 1
    } else {
        idx - 1
    }
}

/// The song that a switch command asks for, kept inside the list.
pub open spec fn switched_to(command: PlayerCommand, len: int) -> int {
    match command {
        PlayerCommand::SwitchToIndex(i) => if i < len {
            i as int
        } else {
            len - 1
        },
    }
}

/// The controls after some commands: the last one decides.
pub open spec fn after_commands(
    c: Controls,
    commands: Seq<PlayerCommand>,
    len: int,
) -> Controls {
    if commands.len() == 0 {
        c
    } else {
        Controls {
            track: switched_to(commands.last(), len) as usize,
            to_pos_ms: 0,
            to_next: false,
            to_prev: false,
            ..c
        }
    }
}

fn apply_commands(c: &mut PlayerControls, commands: &Vec<PlayerCommand>, len: usize)
    requires
        len > 0,
    ensures
        final(c)@ == after_commands(old(c)@, commands@, len as int),
{
    let mut i: usize = 0;
    while i < commands.len()
        invariant
            i <= commands@.len(),
            len > 0,
            c@ == after_commands(old(c)@, commands@.take(i as int), len as int),
        decreases commands@.len() - i,
    {
        match commands[i] {
            PlayerCommand::SwitchToIndex(target) => {
                c.track = if target < len {
                    target
                } else {
                    len - 1
                };
            },
        }
        c.to_pos_ms = 0;
        c.to_next = false;
        c.to_prev = false;
        i += 1;
        assert(commands@.take(i as int).last() == commands@[i - 1]);
    }
    assert(commands@.take(commands@.len() as int) =~= commands@);
}

/// What the player thread does before a track.
#[derive(Clone, Copy, PartialEq, Eq, Structural, Debug)]
pub enum BeforeTrack {
    /// Looks at the playlist again.
    Again,
    /// Waits for a change of the playlist or a command.
    Wait,
    /// Plays the song at `idx` from `start_ms` on.
    Play { idx: usize, start_ms: u64 },
}

/// Whether the thread rests: nothing plays, and no new list has come.
pub open spec fn rests(c: Controls) -> bool {
    c.state == PlayerState::Stopped && !c.list_changed
}

/// The start of the song at the place that the controls name.
pub open spec fn start_playing(c: Controls) -> (Controls, BeforeTrack) {
    (
        Controls { to_pos_ms: 0, list_changed: false, ..c },
        BeforeTrack::Play { idx: c.track, start_ms: c.to_pos_ms as u64 },
    )
}

/// Before a track of a list of `len` songs.
pub open spec fn before_track_spec(c: Controls, len: int, pending: Option<usize>) -> (
    Controls,
    BeforeTrack,
) {
    let c = match pending {
        Some(idx) => Controls { track: idx, ..c },
        None => c,
    };
    if c.track >= len {
        (Controls { track: 0, ..c }, BeforeTrack::Again)
    } else if !rests(c) {
        start_playing(c)
    } else {
        let waiting = c.waiting_commands();
        let taken = c.commands_taken();
        if waiting.len() > 0 {
            (
                Controls { list_changed: true, ..after_commands(taken, waiting, len) },
                BeforeTrack::Again,
            )
        } else if c.to_next {
            (
                Controls {
                    to_next: false,
                    track: next_index(c.track as int, len) as usize,
                    list_changed: true,
                    ..taken
                },
                BeforeTrack::Again,
            )
        } else if c.to_prev {
            (
                Controls {
                    to_prev: false,
                    track: prev_index(c.track as int, len) as usize,
                    list_changed: true,
                    ..taken
                },
                BeforeTrack::Again,
            )
        } else {
            let asked = Controls { pending_retry: RetryReason::NoRetry, ..taken };
            if c.pending_retry == RetryReason::NoRetry {
                (asked, BeforeTrack::Wait)
            } else if c.pending_retry == RetryReason::Restart {
                start_playing(Controls { to_pos_ms: 0, ..asked })
            } else {
                start_playing(asked)
            }
        }
    }
}

fn play(c: &mut PlayerControls) -> (r: BeforeTrack)
    ensures
        (final(c)@, r) == start_playing(old(c)@),
{
    let start_ms: u64 = c.to_pos_ms as u64;
    c.to_pos_ms = 0;
    c.list_changed = false;
    BeforeTrack::Play { idx: c.track, start_ms }
}

/// Decides what to do before a track of a list of `len` songs. `pending` is the
/// place of a track that was asked for by path, where the list holds it.
pub fn before_track(c: &mut PlayerControls, len: usize, pending: Option<usize>) -> (r: BeforeTrack)
    requires
        len > 0,
    ensures
        (final(c)@, r) == before_track_spec(old(c)@, len as int, pending),
        r matches BeforeTrack::Play { idx, .. } ==> idx < len,
{
    if let Some(idx) = pending {
        c.track = idx;
    }
    let idx: usize = c.track;
    if idx >= len {
        c.track = 0;
        return BeforeTrack::Again;
    }
    if c.state == PlayerState::Stopped && !c.list_changed {
        if let Some(commands) = c.take_player_commands() {
            apply_commands(c, &commands, len);
            c.list_changed = true;
            return BeforeTrack::Again;
        }
        if c.to_next {
            c.to_next = false;
            c.track = step_forward(idx, len);
            c.list_changed = true;
            return BeforeTrack::Again;
        }
        if c.to_prev {
            c.to_prev = false;
            c.track = step_back(idx, len);
            c.list_changed = true;
            return BeforeTrack::Again;
        }
        let request: RetryReason = c.take_playback_retry_request();
        if request == RetryReason::Restart {
            c.to_pos_ms = 0;
        }
        if request == RetryReason::NoRetry {
            return BeforeTrack::Wait;
        }
    }
    play(c)
}

/// What the player thread does when a playback was broken off.
#[derive(Clone, Copy, PartialEq, Eq, Structural, Debug)]
pub enum RetryPause {
    /// Waits until the default output device has settled.
    SettleDevice,
    /// Sleeps for this long.
    SleepMs(u32),
    /// Goes on at once.
    Nothing,
}

/// The pause that keeps a broken device from being tried in a hot loop.
pub const RETRY_SLEEP_MS: u32 = 80;

/// The pause before the track is opened again.
pub open spec fn retry_pause_of(reason: RetryReason) -> RetryPause {
    match reason {
        RetryReason::DefaultDeviceChanged
        | RetryReason::DeviceInvalidated
        | RetryReason::StartStreamFailed => RetryPause::SettleDevice,
        RetryReason::RenderWriteFailed
        | RetryReason::ResumeStartStreamFailed
        | RetryReason::WasapiInitFailed => RetryPause::SleepMs(RETRY_SLEEP_MS),
        _ => RetryPause::Nothing,
    }
}

/// The pause before the track is opened again.
pub fn handle_playback_retry(reason: RetryReason) -> (r: RetryPause)
    ensures
        r == retry_pause_of(reason),
{
    match reason {
        RetryReason::DefaultDeviceChanged
        | RetryReason::DeviceInvalidated
        | RetryReason::StartStreamFailed => RetryPause::SettleDevice,
        RetryReason::RenderWriteFailed
        | RetryReason::ResumeStartStreamFailed
        | RetryReason::WasapiInitFailed => RetryPause::SleepMs(RETRY_SLEEP_MS),
        _ => RetryPause::Nothing,
    }
}

/// The controls when a track has been left, and what follows: a track that is to be
/// opened again at a position is, after the pause that the recorded reason asks for. The
/// record is taken either way.
pub open spec fn attempt_followed(c: Controls, came_back: Option<u64>) -> (
    Controls,
    Option<(u64, RetryPause)>,
) {
    (
        Controls { last_retry: RetryReason::NoRetry, ..c },
        match came_back {
            Some(ms) => Some((ms, retry_pause_of(c.last_retry))),
            None => None,
        },
    )
}

/// Decides what follows when a track has been left: the position at which it is opened
/// again, and the pause before that; `None` where the player goes on after the track.
pub fn after_attempt(c: &mut PlayerControls, came_back: Option<u64>) -> (r: Option<
    (u64, RetryPause),
>)
    ensures
        (final(c)@, r) == attempt_followed(old(c)@, came_back),
{
    let reason: RetryReason = c.take_last_retry_reason();
    match came_back {
        Some(ms) => Some((ms, handle_playback_retry(reason))),
        None => None,
    }
}

/// What the player thread does after a track.
#[derive(Clone, Copy, PartialEq, Eq, Structural, Debug)]
pub enum AfterTrack {
    /// Goes on with the track that the controls name.
    Again,
    /// Waits for a change of the playlist or a command, then goes on.
    Wait,
}

/// The place of the song that has just played, in a list of `len` songs:
/// `found` where the list still holds it, else where it stood.
pub open spec fn played_index(c: Controls, len: int, found: Option<usize>) -> int {
    match found {
        Some(idx) => idx as int,
        None => if c.track < len {
            c.track as int
        } else {
            len - 1
        },
    }
}

/// After a track. `shuffled` is the random pick from the list.
pub open spec fn after_track_spec(
    c: Controls,
    len: int,
    found: Option<usize>,
    shuffled: usize,
) -> (Controls, AfterTrack) {
    if c.list_changed {
        (
            Controls { list_changed: false, to_next: false, to_prev: false, ..c },
            AfterTrack::Again,
        )
    } else if c.waiting_commands().len() > 0 {
        (after_commands(c.commands_taken(), c.waiting_commands(), len), AfterTrack::Again)
    } else {
        let taken = c.commands_taken();
        let idx = played_index(c, len, found);
        if c.state == PlayerState::Stopped {
            (taken, AfterTrack::Wait)
        } else if c.to_next {
            (
                Controls { to_next: false, track: next_index(idx, len) as usize, ..taken },
                AfterTrack::Again,
            )
        } else if c.to_prev {
            (
                Controls { to_prev: false, track: prev_index(idx, len) as usize, ..taken },
                AfterTrack::Again,
            )
        } else {
            (
                Controls {
                    track: next_by_mode(play_mode_of(c.play_mode), idx, len, shuffled as int)
                        as usize,
                    to_pos_ms: 0,
                    ..taken
                },
                AfterTrack::Again,
            )
        }
    }
}

/// The song that follows `idx` in a play mode.
pub open spec fn next_by_mode(mode: PlayMode, idx: int, len: int, shuffled: int) -> int {
    if len == 0 {
        0
    } else {
        match mode {
            PlayMode::Single => idx,
            PlayMode::Shuffle => shuffled,
            PlayMode::Sequential => next_index(idx, len),
        }
    }
}

/// The mode that a number stands for.
pub fn current_play_mode(play_mode: usize) -> (r: PlayMode)
    ensures
        r == play_mode_of(play_mode),
{
    match play_mode {
        0 => PlayMode::Single,
        1 => PlayMode::Shuffle,
        _ => PlayMode::Sequential,
    }
}

/// The method that a number stands for; any other number picks by database.
pub open spec fn random_method_of(n: usize) -> usize {
    if n == RANDOM_METHOD_MEMORY {
        RANDOM_METHOD_MEMORY
    } else {
        RANDOM_METHOD_SQL
    }
}

/// The method that a number stands for.
pub fn current_random_method(method: usize) -> (r: usize)
    ensures
        r == random_method_of(method),
{
    if method == RANDOM_METHOD_MEMORY {
        RANDOM_METHOD_MEMORY
    } else {
        RANDOM_METHOD_SQL
    }
}

/// The song that follows in a play mode, and where it starts. `shuffled` is the
/// random pick.
pub fn choose_next_track(mode: PlayMode, current_idx: usize, len: usize, shuffled: usize) -> (r: (
    usize,
    u64,
))
    requires
        len > 0 && mode == PlayMode::Sequential ==> current_idx < usize::MAX,
    ensures
        r.0 == next_by_mode(mode, current_idx as int, len as int, shuffled as int),
        r.1 == 0,
{
    if len == 0 {
        return (0, 0);
    }
    match mode {
        PlayMode::Single => (current_idx, 0),
        PlayMode::Shuffle => (shuffled, 0),
        PlayMode::Sequential => ((current_idx + 1) % len, 0),
    }
}

/// A random pick from a list of `len` songs. `from_database` is what the
/// database picked, where it was asked and answered.
pub fn random_next_track_index(
    rng: &mut Rng,
    entropy: u64,
    method: usize,
    from_database: Option<usize>,
    current_idx: usize,
    len: usize,
) -> (r: usize)
    ensures
        len <= 1 ==> r == 0 && final(rng).state == old(rng).state,
        len > 1 && random_method_of(method) == RANDOM_METHOD_SQL && from_database is Some ==> r
            == from_database->0 && final(rng).state == old(rng).state,
        len > 1 && !(random_method_of(method) == RANDOM_METHOD_SQL && from_database is Some) ==> {
            &&& r < len && r != current_idx
            &&& len > 2 ==> final(rng).state == draw_below(
                old(rng).state,
                entropy,
                (len - 1) as u64,
                MAX_REJECTIONS as nat,
            ).1
            &&& len == 2 ==> r == (if current_idx == 0 {
                1int
            } else {
                0int
            })
            &&& len > 2 ==> r == after_skipping(
                draw_below(
                    old(rng).state,
                    entropy,
                    (len - 1) as u64,
                    MAX_REJECTIONS as nat,
                ).0 as int,
                if current_idx < len {
                    current_idx as int
                } else {
                    len - 1
                },
            )
        },
{
    if len <= 1 {
        return 0;
    }
    if current_random_method(method) == RANDOM_METHOD_SQL {
        if let Some(pick) = from_database {
            return pick;
        }
    }
    rng.random_index_excluding(entropy, current_idx, len)
}

/// The `pick`-th place of those other than `skipped`.
pub open spec fn after_skipping(pick: int, skipped: int) -> int {
    if pick >= skipped {
        pick + 1
    } else {
        pick
    }
}

/// Decides what to do after a track. `len` is the length of the list as it is
/// now, `found` the place of the song that has just played, where the list still
/// holds it, and `shuffled` a random pick.
pub fn after_track(c: &mut PlayerControls, len: usize, found: Option<usize>, shuffled: usize) -> (r:
    AfterTrack)
    requires
        len > 0,
        found matches Some(idx) ==> idx < len,
    ensures
        (final(c)@, r) == after_track_spec(old(c)@, len as int, found, shuffled),
{
    if c.list_changed {
        c.list_changed = false;
        c.to_next = false;
        c.to_prev = false;
        return AfterTrack::Again;
    }
    if let Some(commands) = c.take_player_commands() {
        apply_commands(c, &commands, len);
        return AfterTrack::Again;
    }
    let idx: usize = match found {
        Some(idx) => idx,
        None => if c.track < len {
            c.track
        } else {
            len - 1
        },
    };
    if c.state == PlayerState::Stopped {
        return AfterTrack::Wait;
    }
    if c.to_next {
        c.to_next = false;
        c.track = step_forward(idx, len);
        return AfterTrack::Again;
    }
    if c.to_prev {
        c.to_prev = false;
        c.track = step_back(idx, len);
        return AfterTrack::Again;
    }
    let mode: PlayMode = current_play_mode(c.play_mode);
    let (next, start) = choose_next_track(mode, idx, len, shuffled);
    c.track = next;
    c.to_pos_ms = start as u32;
    AfterTrack::Again
}

/// Whatever was asked for, the player goes on inside the list.
pub proof fn law_track_stays_in_list(c: Controls, len: int, found: Option<usize>, shuffled: usize)
    requires
        0 < len <= usize::MAX,
        found matches Some(idx) ==> idx < len,
        shuffled < len,
        !c.list_changed,
        c.track < len,
    ensures
        after_track_spec(c, len, found, shuffled).0.track < len,
{
    law_next_and_prev_are_inverse(played_index(c, len, found), len);
}

/// A skip that is asked for while nothing plays makes the player play.
pub proof fn law_skip_wakes_a_resting_player(c: Controls, len: int)
    requires
        0 < len <= usize::MAX,
        c.track < len,
        rests(c),
        c.waiting_commands().len() == 0,
        c.to_next || c.to_prev,
    ensures
        ({
            let (after, step) = before_track_spec(c, len, None);
            &&& step == BeforeTrack::Again
            &&& after.list_changed
            &&& before_track_spec(after, len, None).1 is Play
        }),
{
    law_next_and_prev_are_inverse(c.track as int, len);
}

/// Where no list and no command came in while a song played, the song that follows is the
/// one that was asked for: the one after it in the list, or the one before it, the ends of
/// the list being neighbours. Of both requests the one for the next song is heard, and the
/// other one waits.
pub proof fn law_asked_for_neighbour_follows(
    c: Controls,
    len: int,
    found: Option<usize>,
    shuffled: usize,
)
    requires
        0 < len <= usize::MAX,
        !c.list_changed,
        c.waiting_commands().len() == 0,
        c.state != PlayerState::Stopped,
        found is Some,
        found->0 < len,
    ensures
        ({
            let (after, step) = after_track_spec(c, len, found, shuffled);
            let played = found->0 as int;
            &&& step == AfterTrack::Again
            &&& c.to_next ==> {
                &&& after.track < len
                &&& after.track == played + 1 || (after.track == 0 && played == len - 1)
                &&& !after.to_next && after.to_prev == c.to_prev
            }
            &&& !c.to_next && c.to_prev ==> {
                &&& after.track < len
                &&& after.track + 1 == played || (after.track == len - 1 && played == 0)
                &&& (after.track + 1) % len == played
                &&& !after.to_prev
            }
            &&& after.to_pos_ms == (if c.to_next || c.to_prev {
                c.to_pos_ms
            } else {
                0
            })
        }),
{
    law_next_and_prev_are_inverse(found->0 as int, len);
    let i = found->0 as int;
    if i + 1 < len {
        assert((i + 1) % len == i + 1) by (nonlinear_arith)
            requires
                0 <= i + 1 < len,
        ;
    } else {
        assert(len % len == 0) by (nonlinear_arith)
            requires
                len > 0,
        ;
    }
}

/// The song after the one before a song is that song, and the other way round: asking for
/// the next song and then for the previous one leads back.
pub proof fn law_next_then_previous_leads_back(c: Controls, d: Controls, len: int, place: usize)
    requires
        0 < len <= usize::MAX,
        place < len,
        !c.list_changed && !d.list_changed,
        c.waiting_commands().len() == 0 && d.waiting_commands().len() == 0,
        c.state != PlayerState::Stopped && d.state != PlayerState::Stopped,
        c.to_next,
        !d.to_next && d.to_prev,
    ensures
        ({
            let next = after_track_spec(c, len, Some(place), 0).0.track;
            let back = after_track_spec(d, len, Some(next), 0).0.track;
            let prev = after_track_spec(d, len, Some(place), 0).0.track;
            let forth = after_track_spec(c, len, Some(prev), 0).0.track;
            &&& back == place
            &&& forth == place
            &&& len > 1 ==> next != place && prev != place
        }),
{
    law_next_and_prev_are_inverse(place as int, len);
    let i = place as int;
    if i + 1 < len {
        assert((i + 1) % len == i + 1) by (nonlinear_arith)
            requires
                0 <= i + 1 < len,
        ;
    } else {
        assert(len % len == 0) by (nonlinear_arith)
            requires
                len > 0,
        ;
    }
}

/// Where nothing was asked for, the play mode decides: the same song again, the one that
/// was drawn, or the one after it in the list and the first one after the last; each of
/// them from its start.
pub proof fn law_play_mode_decides(
    c: Controls,
    len: int,
    found: Option<usize>,
    shuffled: usize,
)
    requires
        0 < len <= usize::MAX,
        !c.list_changed,
        c.waiting_commands().len() == 0,
        c.state != PlayerState::Stopped,
        !c.to_next && !c.to_prev,
        found is Some,
        found->0 < len,
    ensures
        ({
            let (after, step) = after_track_spec(c, len, found, shuffled);
            &&& step == AfterTrack::Again
            &&& after.to_pos_ms == 0
            &&& c.play_mode == 0 ==> after.track == found->0
            &&& c.play_mode == 1 ==> after.track == shuffled
            &&& c.play_mode >= 2 && found->0 + 1 < len ==> after.track == found->0 + 1
            &&& c.play_mode >= 2 && found->0 + 1 == len ==> after.track == 0
        }),
{
    let i = found->0 as int;
    if i + 1 < len {
        assert((i + 1) % len == i + 1) by (nonlinear_arith)
            requires
                0 <= i + 1 < len,
        ;
    } else {
        assert(len % len == 0) by (nonlinear_arith)
            requires
                len > 0,
        ;
    }
}

/// From song to song a list is played through in its order: after as many tracks as it
/// has songs, the sequential player is where it was, and it has been everywhere between.
pub proof fn law_list_is_played_through(len: int, start: int, n: nat)
    requires
        0 <= start < len,
    ensures
        tracks_later(start, len, n) == (start + n) % len,
        tracks_later(start, len, len as nat) == start,
    decreases n,
{
    lemma_tracks_later(start, len, n);
    lemma_tracks_later(start, len, len as nat);
    assert((start + len) % len == start) by (nonlinear_arith)
        requires
            0 <= start < len,
    ;
}

/// The place of a sequential player after `n` tracks.
pub open spec fn tracks_later(start: int, len: int, n: nat) -> int
    decreases n,
{
    if n == 0 {
        start
    } else {
        next_by_mode(PlayMode::Sequential, tracks_later(start, len, (n - 1) as nat), len, 0)
    }
}

proof fn lemma_tracks_later(start: int, len: int, n: nat)
    requires
        0 <= start < len,
    ensures
        tracks_later(start, len, n) == (start + n) % len,
    decreases n,
{
    if n == 0 {
        assert(start % len == start) by (nonlinear_arith)
            requires
                0 <= start < len,
        ;
    } else {
        lemma_tracks_later(start, len, (n - 1) as nat);
        let m = start + n - 1;
        vstd::arithmetic::div_mod::lemma_add_mod_noop(m, 1, len);
        if len > 1 {
            vstd::arithmetic::div_mod::lemma_small_mod(1, len as nat);
            assert((m % len + 1) % len == (m + 1) % len);
        } else {
            assert(len == 1);
            assert((m % 1 + 1) % 1 == 0 && (m + 1) % 1 == 0);
        }
    }
}

/// A song that the list no longer holds counts as the one at the place where the player
/// is, or as the last one where the list has become shorter.
pub proof fn law_lost_song_counts_where_it_stood(c: Controls, len: int, shuffled: usize)
    requires
        0 < len <= usize::MAX,
    ensures
        c.track < len ==> after_track_spec(c, len, None, shuffled) == after_track_spec(
            c,
            len,
            Some(c.track),
            shuffled,
        ),
        c.track >= len ==> after_track_spec(c, len, None, shuffled) == after_track_spec(
            c,
            len,
            Some((len - 1) as usize),
            shuffled,
        ),
{
}

/// A list that came in while a song played is played from where it says, and nothing that
/// was asked of the list before it counts any more.
pub proof fn law_new_list_is_played_from_where_it_says(
    c: Controls,
    len: int,
    found: Option<usize>,
    shuffled: usize,
)
    requires
        c.list_changed,
    ensures
        ({
            let (after, step) = after_track_spec(c, len, found, shuffled);
            &&& step == AfterTrack::Again
            &&& after.track == c.track && after.to_pos_ms == c.to_pos_ms
            &&& !after.list_changed && !after.to_next && !after.to_prev
            &&& after.commands == c.commands && after.has_commands == c.has_commands
            &&& after.list_id == c.list_id && after.state == c.state
            &&& after.play_mode == c.play_mode
        }),
{
}

/// Of the songs that were asked for by their places the last one plays, from its start,
/// and one behind the end of the list stands for the last song. Each is heard once.
pub proof fn law_last_switch_decides(
    c: Controls,
    len: int,
    found: Option<usize>,
    shuffled: usize,
    place: usize,
)
    requires
        0 < len <= usize::MAX,
        !c.list_changed,
        c.has_commands,
        c.commands.len() > 0,
        c.commands.last() == PlayerCommand::SwitchToIndex(place),
    ensures
        ({
            let (after, step) = after_track_spec(c, len, found, shuffled);
            &&& step == AfterTrack::Again
            &&& place < len ==> after.track == place
            &&& place >= len ==> after.track == len - 1
            &&& after.to_pos_ms == 0
            &&& !after.to_next && !after.to_prev
            &&& !after.has_commands && after.commands.len() == 0
        }),
        c.state == PlayerState::Stopped && c.track < len ==> {
            let (after, step) = before_track_spec(c, len, None);
            let (_, next) = before_track_spec(after, len, None);
            &&& step == BeforeTrack::Again
            &&& next == BeforeTrack::Play {
                idx: if place < len {
                    place
                } else {
                    (len - 1) as usize
                },
                start_ms: 0,
            }
        },
{
}

/// A player that has stopped stays with its song until something is asked of it.
pub proof fn law_stopped_player_stays(
    c: Controls,
    len: int,
    found: Option<usize>,
    shuffled: usize,
)
    requires
        0 < len <= usize::MAX,
        c.state == PlayerState::Stopped,
        !c.list_changed,
        c.waiting_commands().len() == 0,
        c.track < len,
    ensures
        after_track_spec(c, len, found, shuffled).1 == AfterTrack::Wait,
        after_track_spec(c, len, found, shuffled).0.track == c.track,
        after_track_spec(c, len, found, shuffled).0.to_next == c.to_next,
        !c.to_next && !c.to_prev && c.pending_retry == RetryReason::NoRetry ==> {
            let (after, step) = before_track_spec(c, len, None);
            step == BeforeTrack::Wait && after.track == c.track && after.to_pos_ms == c.to_pos_ms
        },
{
}

/// A player that runs plays the song at its place from the position that was set, which
/// then is the start again. A track that was asked for by its path is that song.
pub proof fn law_song_plays_from_its_position(c: Controls, len: int, pending: Option<usize>)
    requires
        0 < len <= usize::MAX,
        c.state != PlayerState::Stopped || c.list_changed,
        c.track < len,
        pending is Some ==> pending->0 < len,
    ensures
        ({
            let (after, step) = before_track_spec(c, len, pending);
            &&& step == BeforeTrack::Play {
                idx: if pending is Some {
                    pending->0
                } else {
                    c.track
                },
                start_ms: c.to_pos_ms as u64,
            }
            &&& after.to_pos_ms == 0 && !after.list_changed
            &&& after.to_next == c.to_next && after.to_prev == c.to_prev
            &&& after.pending_retry == c.pending_retry
        }),
{
}

/// A request for a retry makes a player that has stopped try its song again, at its start
/// for a restart, and is heard once. A place that the list does not have is the first one.
pub proof fn law_retry_wakes_a_resting_player(c: Controls, len: int)
    requires
        0 < len <= usize::MAX,
        c.state == PlayerState::Stopped,
        !c.list_changed,
        c.waiting_commands().len() == 0,
        !c.to_next && !c.to_prev,
    ensures
        ({
            let (after, step) = before_track_spec(c, len, None);
            &&& c.track < len && c.pending_retry != RetryReason::NoRetry ==> {
                &&& step == BeforeTrack::Play {
                    idx: c.track,
                    start_ms: if c.pending_retry == RetryReason::Restart {
                        0
                    } else {
                        c.to_pos_ms as u64
                    },
                }
                &&& after.pending_retry == RetryReason::NoRetry
            }
            &&& c.track >= len ==> step == BeforeTrack::Again && after.track == 0
        }),
{
}

/// A device that has changed or failed to start is given time to settle, one that failed
/// otherwise is left alone for a moment, and nothing else keeps the player waiting.
pub proof fn law_broken_device_is_not_tried_at_once(reason: RetryReason)
    ensures
        retry_pause_of(reason) is Nothing <==> {
            ||| reason == RetryReason::NoRetry
            ||| reason == RetryReason::Restart
            ||| reason == RetryReason::ModeChanged
            ||| reason == RetryReason::DeviceInUse
            ||| reason == RetryReason::PauseExclusiveRelease
            ||| reason == RetryReason::TrackOpenFailed
        },
        retry_pause_of(reason) is SettleDevice <==> {
            ||| reason == RetryReason::DefaultDeviceChanged
            ||| reason == RetryReason::DeviceInvalidated
            ||| reason == RetryReason::StartStreamFailed
        },
        retry_pause_of(reason) is SleepMs ==> retry_pause_of(reason)->SleepMs_0 == 80,
{
}

/// A draw that leaves out one place never gives that place, and gives every other one for
/// exactly one number.
pub proof fn law_left_out_place_is_not_drawn(pick: int, other: int, skipped: int, len: int)
    requires
        0 <= pick < len - 1,
        0 <= other < len - 1,
        0 <= skipped < len,
    ensures
        0 <= after_skipping(pick, skipped) < len,
        after_skipping(pick, skipped) != skipped,
        pick != other ==> after_skipping(pick, skipped) != after_skipping(other, skipped),
{
}

} // verus!
