//! The state that the player's threads share: what plays, what was asked for,
//! and why a track has to be opened again.

use vstd::prelude::*;

verus! {

/// What the player is doing.
#[derive(Clone, Copy, PartialEq, Eq, Structural, Debug)]
pub enum PlayerState {
    /// There is no playlist.
    Idle,
    Playing,
    Paused,
    /// There is a playlist, and nothing plays.
    Stopped,
    Error,
}

/// Why a track has to be opened again.
#[derive(Clone, Copy, PartialEq, Eq, Structural, Debug)]
pub enum RetryReason {
    NoRetry,
    Restart,
    ModeChanged,
    DefaultDeviceChanged,
    DeviceInvalidated,
    DeviceInUse,
    StartStreamFailed,
    ResumeStartStreamFailed,
    RenderWriteFailed,
    WasapiInitFailed,
    PauseExclusiveRelease,
    TrackOpenFailed,
}

/// How the next track is chosen.
#[derive(Clone, Copy, PartialEq, Eq, Structural, Debug)]
pub enum PlayMode {
    Single,
    Shuffle,
    Sequential,
}

/// A request to the player thread.
#[derive(Clone, Copy, PartialEq, Eq, Structural, Debug)]
pub enum PlayerCommand {
    SwitchToIndex(usize),
}

/// The number that stands for a state in messages.
pub open spec fn player_state_number(state: PlayerState) -> u8 {
    match state {
        PlayerState::Idle => 0,
        PlayerState::Playing => 1,
        PlayerState::Paused => 2,
        PlayerState::Stopped => 3,
        PlayerState::Error => 4,
    }
}

/// The state that a number stands for; any other number is `Idle`.
pub open spec fn player_state_of(n: u8) -> PlayerState {
    match n {
        1 => PlayerState::Playing,
        2 => PlayerState::Paused,
        3 => PlayerState::Stopped,
        4 => PlayerState::Error,
        _ => PlayerState::Idle,
    }
}

/// The number that stands for a reason.
pub open spec fn retry_reason_number(reason: RetryReason) -> u32 {
    match reason {
        RetryReason::NoRetry => 0,
        RetryReason::Restart => 1,
        RetryReason::ModeChanged => 2,
        RetryReason::DefaultDeviceChanged => 3,
        RetryReason::DeviceInvalidated => 4,
        RetryReason::DeviceInUse => 5,
        RetryReason::StartStreamFailed => 6,
        RetryReason::ResumeStartStreamFailed => 7,
        RetryReason::RenderWriteFailed => 8,
        RetryReason::WasapiInitFailed => 9,
        RetryReason::PauseExclusiveRelease => 10,
        RetryReason::TrackOpenFailed => 11,
    }
}

/// The reason that a number stands for; any other number is `NoRetry`.
pub open spec fn retry_reason_of(n: u32) -> RetryReason {
    match n {
        1 => RetryReason::Restart,
        2 => RetryReason::ModeChanged,
        3 => RetryReason::DefaultDeviceChanged,
        4 => RetryReason::DeviceInvalidated,
        5 => RetryReason::DeviceInUse,
        6 => RetryReason::StartStreamFailed,
        7 => RetryReason::ResumeStartStreamFailed,
        8 => RetryReason::RenderWriteFailed,
        9 => RetryReason::WasapiInitFailed,
        10 => RetryReason::PauseExclusiveRelease,
        11 => RetryReason::TrackOpenFailed,
        _ => RetryReason::NoRetry,
    }
}

/// How urgent a reason is: the greater number goes first.
pub open spec fn retry_priority_of(reason: RetryReason) -> u32 {
    match reason {
        RetryReason::Restart => 100,
        RetryReason::ModeChanged => 90,
        RetryReason::DeviceInvalidated => 80,
        RetryReason::StartStreamFailed => 75,
        RetryReason::DefaultDeviceChanged => 70,
        RetryReason::DeviceInUse => 60,
        RetryReason::ResumeStartStreamFailed => 50,
        RetryReason::RenderWriteFailed => 40,
        RetryReason::WasapiInitFailed => 30,
        RetryReason::PauseExclusiveRelease => 20,
        RetryReason::TrackOpenFailed => 10,
        RetryReason::NoRetry => 0,
    }
}

/// The mode that a number stands for; any other number is `Sequential`.
pub open spec fn play_mode_of(n: usize) -> PlayMode {
    if n == 0 {
        PlayMode::Single
    } else if n == 1 {
        PlayMode::Shuffle
    } else {
        PlayMode::Sequential
    }
}

/// The numbers stand for the states and the reasons without loss.
pub proof fn law_numbers_round_trip(state: PlayerState, reason: RetryReason)
    ensures
        player_state_of(player_state_number(state)) == state,
        retry_reason_of(retry_reason_number(reason)) == reason,
{
}

/// No two reasons are equally urgent.
pub proof fn law_priorities_are_distinct(a: RetryReason, b: RetryReason)
    ensures
        retry_priority_of(a) == retry_priority_of(b) <==> a == b,
{
}

/// The number that stands for a state.
pub fn player_state_to_u8(state: PlayerState) -> (r: u8)
    ensures
        r == player_state_number(state),
{
    match state {
        PlayerState::Idle => 0,
        PlayerState::Playing => 1,
        PlayerState::Paused => 2,
        PlayerState::Stopped => 3,
        PlayerState::Error => 4,
    }
}

/// The state that a number stands for.
pub fn player_state_from_u8(n: u8) -> (r: PlayerState)
    ensures
        r == player_state_of(n),
{
    match n {
        1 => PlayerState::Playing,
        2 => PlayerState::Paused,
        3 => PlayerState::Stopped,
        4 => PlayerState::Error,
        _ => PlayerState::Idle,
    }
}

/// The number that stands for a reason.
pub fn retry_reason_to_u32(reason: RetryReason) -> (r: u32)
    ensures
        r == retry_reason_number(reason),
{
    match reason {
        RetryReason::NoRetry => 0,
        RetryReason::Restart => 1,
        RetryReason::ModeChanged => 2,
        RetryReason::DefaultDeviceChanged => 3,
        RetryReason::DeviceInvalidated => 4,
        RetryReason::DeviceInUse => 5,
        RetryReason::StartStreamFailed => 6,
        RetryReason::ResumeStartStreamFailed => 7,
        RetryReason::RenderWriteFailed => 8,
        RetryReason::WasapiInitFailed => 9,
        RetryReason::PauseExclusiveRelease => 10,
        RetryReason::TrackOpenFailed => 11,
    }
}

/// The reason that a number stands for.
pub fn retry_reason_from_u32(v: u32) -> (r: RetryReason)
    ensures
        r == retry_reason_of(v),
{
    match v {
        1 => RetryReason::Restart,
        2 => RetryReason::ModeChanged,
        3 => RetryReason::DefaultDeviceChanged,
        4 => RetryReason::DeviceInvalidated,
        5 => RetryReason::DeviceInUse,
        6 => RetryReason::StartStreamFailed,
        7 => RetryReason::ResumeStartStreamFailed,
        8 => RetryReason::RenderWriteFailed,
        9 => RetryReason::WasapiInitFailed,
        10 => RetryReason::PauseExclusiveRelease,
        11 => RetryReason::TrackOpenFailed,
        _ => RetryReason::NoRetry,
    }
}

/// How urgent a reason is.
pub fn retry_priority(reason: RetryReason) -> (r: u32)
    ensures
        r == retry_priority_of(reason),
{
    match reason {
        RetryReason::Restart => 100,
        RetryReason::ModeChanged => 90,
        RetryReason::DeviceInvalidated => 80,
        RetryReason::StartStreamFailed => 75,
        RetryReason::DefaultDeviceChanged => 70,
        RetryReason::DeviceInUse => 60,
        RetryReason::ResumeStartStreamFailed => 50,
        RetryReason::RenderWriteFailed => 40,
        RetryReason::WasapiInitFailed => 30,
        RetryReason::PauseExclusiveRelease => 20,
        RetryReason::TrackOpenFailed => 10,
        RetryReason::NoRetry => 0,
    }
}

/// What the threads of the player tell each other.
pub struct PlayerControls {
    /// The place of the current track in the playlist.
    pub track: usize,
    /// Seconds to skip, forwards or backwards.
    pub to_seek: i32,
    pub to_next: bool,
    pub to_prev: bool,
    /// The volume in percent.
    pub to_volume: u32,
    /// Where the next track starts, in milliseconds.
    pub to_pos_ms: u32,
    /// The active playlist; zero is none.
    pub list_id: usize,
    pub list_changed: bool,
    /// The play mode as a number.
    pub play_mode: usize,
    pub commands: Vec<PlayerCommand>,
    pub has_commands: bool,
    pub state: PlayerState,
    pub pending_retry: RetryReason,
    pub last_retry: RetryReason,
}

/// The controls with the queued commands taken by view.
#[verifier::ext_equal]
pub struct Controls {
    pub track: usize,
    pub to_seek: i32,
    pub to_next: bool,
    pub to_prev: bool,
    pub to_volume: u32,
    pub to_pos_ms: u32,
    pub list_id: usize,
    pub list_changed: bool,
    pub play_mode: usize,
    pub commands: Seq<PlayerCommand>,
    pub has_commands: bool,
    pub state: PlayerState,
    pub pending_retry: RetryReason,
    pub last_retry: RetryReason,
}

impl View for PlayerControls {
    type V = Controls;

    open spec fn view(&self) -> Controls {
        Controls {
            track: self.track,
            to_seek: self.to_seek,
            to_next: self.to_next,
            to_prev: self.to_prev,
            to_volume: self.to_volume,
            to_pos_ms: self.to_pos_ms,
            list_id: self.list_id,
            list_changed: self.list_changed,
            play_mode: self.play_mode,
            commands: self.commands@,
            has_commands: self.has_commands,
            state: self.state,
            pending_retry: self.pending_retry,
            last_retry: self.last_retry,
        }
    }
}

impl Controls {
    /// The controls of a player that has just started.
    pub open spec fn start() -> Controls {
        Controls {
            track: 0,
            to_seek: 0,
            to_next: false,
            to_prev: false,
            to_volume: 100,
            to_pos_ms: 0,
            list_id: 0,
            list_changed: false,
            play_mode: 2,
            commands: Seq::empty(),
            has_commands: false,
            state: PlayerState::Idle,
            pending_retry: RetryReason::NoRetry,
            last_retry: RetryReason::NoRetry,
        }
    }

    /// Whether the current track has to stop: another one was asked for, or the
    /// playlist changed.
    pub open spec fn aborts(self) -> bool {
        self.to_next || self.to_prev || self.has_commands || self.list_changed
    }

    /// The commands that wait for the player thread.
    pub open spec fn waiting_commands(self) -> Seq<PlayerCommand> {
        if self.has_commands {
            self.commands
        } else {
            Seq::empty()
        }
    }

    /// The controls when the commands that wait have been taken.
    pub open spec fn commands_taken(self) -> Controls {
        Controls {
            has_commands: false,
            commands: if self.has_commands {
                Seq::empty()
            } else {
                self.commands
            },
            ..self
        }
    }

    /// Whether a request gets the place of the one that waits.
    pub open spec fn accepts_retry(self, reason: RetryReason) -> bool {
        reason != RetryReason::NoRetry && (self.pending_retry == RetryReason::NoRetry
            || retry_priority_of(self.pending_retry) < retry_priority_of(reason))
    }

    /// The controls after a request for a retry.
    pub open spec fn retry_requested(self, reason: RetryReason) -> Controls {
        Controls {
            pending_retry: if self.accepts_retry(reason) {
                reason
            } else {
                self.pending_retry
            },
            ..self
        }
    }

    /// The controls when a playlist of `len` songs has become the active one.
    pub open spec fn activated(
        self,
        id: usize,
        len: usize,
        play_mode: usize,
        start_idx: usize,
        start_ms: u64,
    ) -> Controls {
        Controls {
            play_mode,
            list_id: id,
            track: if start_idx < len {
                start_idx
            } else {
                (len - 1) as usize
            },
            to_pos_ms: if start_ms > u32::MAX {
                u32::MAX
            } else {
                start_ms as u32
            },
            list_changed: true,
            to_next: false,
            to_prev: false,
            ..self
        }
    }
}

impl PlayerControls {
    /// The controls of a player that has just started.
    pub fn new() -> (r: PlayerControls)
        ensures
            r@ == Controls::start(),
    {
        PlayerControls {
            track: 0,
            to_seek: 0,
            to_next: false,
            to_prev: false,
            to_volume: 100,
            to_pos_ms: 0,
            list_id: 0,
            list_changed: false,
            play_mode: 2,
            commands: Vec::new(),
            has_commands: false,
            state: PlayerState::Idle,
            pending_retry: RetryReason::NoRetry,
            last_retry: RetryReason::NoRetry,
        }
    }

    /// Whether the current track has to stop.
    pub fn should_abort_playback(&self) -> (r: bool)
        ensures
            r == self@.aborts(),
    {
        self.to_next || self.to_prev || self.has_commands || self.list_changed
    }

    /// Leaves a command for the player thread.
    pub fn push_command(&mut self, command: PlayerCommand)
        ensures
            final(self)@ == (Controls {
                commands: old(self)@.commands.push(command),
                has_commands: true,
                ..old(self)@
            }),
    {
        self.commands.push(command);
        self.has_commands = true;
    }

    /// Takes the commands that wait, in the order in which they came.
    pub fn take_player_commands(&mut self) -> (r: Option<Vec<PlayerCommand>>)
        ensures
            r is Some <==> old(self)@.waiting_commands().len() > 0,
            r matches Some(commands) ==> commands@ == old(self)@.waiting_commands(),
            final(self)@ == old(self)@.commands_taken(),
    {
        if !self.has_commands {
            return None;
        }
        let mut taken: Vec<PlayerCommand> = Vec::new();
        taken.append(&mut self.commands);
        self.has_commands = false;
        if taken.len() == 0 {
            None
        } else {
            Some(taken)
        }
    }

    /// The state.
    pub fn get_player_state(&self) -> (r: PlayerState)
        ensures
            r == self@.state,
    {
        self.state
    }

    /// Sets the state, and says whether it changed.
    pub fn set_player_state(&mut self, state: PlayerState) -> (changed: bool)
        ensures
            changed == (old(self).state != state),
            final(self)@ == (Controls { state, ..old(self)@ }),
    {
        let changed: bool = self.state != state;
        self.state = state;
        changed
    }

    /// Asks for the track to be opened again. A more urgent request stays. The
    /// result says whether this is the first request.
    pub fn request_playback_retry(&mut self, reason: RetryReason) -> (first: bool)
        ensures
            first == (reason != RetryReason::NoRetry && old(self).pending_retry
                == RetryReason::NoRetry),
            final(self)@ == old(self)@.retry_requested(reason),
    {
        if reason == RetryReason::NoRetry {
            return false;
        }
        if self.pending_retry != RetryReason::NoRetry {
            if retry_priority(self.pending_retry) >= retry_priority(reason) {
                return false;
            }
            self.pending_retry = reason;
            return false;
        }
        self.pending_retry = reason;
        true
    }

    /// Takes the request that waits.
    pub fn take_playback_retry_request(&mut self) -> (r: RetryReason)
        ensures
            r == old(self).pending_retry,
            final(self)@ == (Controls { pending_retry: RetryReason::NoRetry, ..old(self)@ }),
    {
        let r: RetryReason = self.pending_retry;
        self.pending_retry = RetryReason::NoRetry;
        r
    }

    /// Drops the request that waits if it is this one.
    pub fn clear_playback_retry_request_if(&mut self, reason: RetryReason)
        ensures
            final(self)@ == (Controls {
                pending_retry: if old(self).pending_retry == reason {
                    RetryReason::NoRetry
                } else {
                    old(self).pending_retry
                },
                ..old(self)@
            }),
    {
        if self.pending_retry == reason {
            self.pending_retry = RetryReason::NoRetry;
        }
    }

    /// Records why a track ended.
    pub fn set_last_retry_reason(&mut self, reason: RetryReason)
        ensures
            final(self)@ == (Controls { last_retry: reason, ..old(self)@ }),
    {
        self.last_retry = reason;
    }

    /// Takes the record of why the last track ended.
    pub fn take_last_retry_reason(&mut self) -> (r: RetryReason)
        ensures
            r == old(self).last_retry,
            final(self)@ == (Controls { last_retry: RetryReason::NoRetry, ..old(self)@ }),
    {
        let r: RetryReason = self.last_retry;
        self.last_retry = RetryReason::NoRetry;
        r
    }

    /// Seconds to skip after a request for `delta` more, wrapped to 32 bits.
    pub fn add_seek(&mut self, delta: i32)
        ensures
            final(self)@ == (Controls {
                to_seek: old(self).to_seek.wrapping_add(delta),
                ..old(self)@
            }),
    {
        self.to_seek = self.to_seek.wrapping_add(delta);
    }

    /// Makes a playlist of `len` songs the active one, from song `start_idx` at
    /// `start_ms` on. An empty playlist is refused.
    pub fn set_active_playlist_with_resume(
        &mut self,
        id: usize,
        len: usize,
        play_mode: usize,
        start_idx: usize,
        start_ms: u64,
    ) -> (r: bool)
        ensures
            r == (len > 0),
            !r ==> final(self)@ == old(self)@,
            r ==> final(self)@ == old(self)@.activated(id, len, play_mode, start_idx, start_ms),
    {
        if len == 0 {
            return false;
        }
        self.play_mode = play_mode;
        self.list_id = id;
        self.track = if start_idx < len {
            start_idx
        } else {
            len - 1
        };
        self.to_pos_ms = if start_ms > u32::MAX as u64 {
            u32::MAX
        } else {
            start_ms as u32
        };
        self.list_changed = true;
        self.to_next = false;
        self.to_prev = false;
        true
    }

    /// Makes a playlist the active one, from the start of song `start_idx` on.
    pub fn set_active_playlist(
        &mut self,
        id: usize,
        len: usize,
        play_mode: usize,
        start_idx: usize,
    ) -> (r: bool)
        ensures
            r == (len > 0),
            !r ==> final(self)@ == old(self)@,
            r ==> final(self)@ == old(self)@.activated(id, len, play_mode, start_idx, 0),
    {
        self.set_active_playlist_with_resume(id, len, play_mode, start_idx, 0)
    }
}

/// Of any requests that come in, the most urgent one is what waits afterwards.
pub proof fn law_most_urgent_request_waits(c: Controls, reason: RetryReason)
    ensures
        ({
            let after = c.retry_requested(reason).pending_retry;
            &&& retry_priority_of(after) >= retry_priority_of(c.pending_retry)
            &&& retry_priority_of(after) >= retry_priority_of(reason)
            &&& after == c.pending_retry || after == reason
        }),
{
}

/// A more urgent request takes the place of one that waits, and a less urgent one does not;
/// the first of two that are equally urgent stays. No request is none.
pub proof fn law_urgent_request_takes_the_place(c: Controls, reason: RetryReason)
    ensures
        ({
            let after = c.retry_requested(reason);
            &&& reason == RetryReason::NoRetry ==> after == c
            &&& c.pending_retry == RetryReason::NoRetry ==> after.pending_retry == reason
            &&& reason == RetryReason::Restart ==> after.pending_retry == RetryReason::Restart
            &&& c.pending_retry == RetryReason::Restart ==> after == c
            &&& reason == RetryReason::ModeChanged && c.pending_retry != RetryReason::Restart
                ==> after.pending_retry == RetryReason::ModeChanged
            &&& c.pending_retry == RetryReason::ModeChanged && reason
                == RetryReason::DefaultDeviceChanged ==> after == c
            &&& c.pending_retry == RetryReason::DefaultDeviceChanged && reason
                == RetryReason::DeviceInvalidated ==> after.pending_retry
                == RetryReason::DeviceInvalidated
            &&& after.last_retry == c.last_retry && after.state == c.state && after.track == c.track
        }),
{
}

/// A list that becomes the active one is played from the song and the position that were
/// asked for, or from its last song where it has no such place; nothing that was asked of
/// the list before it counts.
pub proof fn law_active_list_is_played_from_where_asked(
    c: Controls,
    id: usize,
    len: usize,
    play_mode: usize,
    start_idx: usize,
    start_ms: u64,
)
    requires
        len > 0,
    ensures
        ({
            let after = c.activated(id, len, play_mode, start_idx, start_ms);
            &&& after.list_id == id && after.play_mode == play_mode
            &&& start_idx < len ==> after.track == start_idx
            &&& start_idx >= len ==> after.track == len - 1
            &&& start_ms <= u32::MAX ==> after.to_pos_ms == start_ms
            &&& start_ms > u32::MAX ==> after.to_pos_ms == u32::MAX
            &&& after.list_changed && !after.to_next && !after.to_prev
            &&& after.to_volume == c.to_volume && after.state == c.state
        }),
{
}

/// The current track has to be left for another song, a command or a new list, and for
/// nothing else.
pub proof fn law_track_is_left_for_another(c: Controls)
    ensures
        c.to_next || c.to_prev || c.has_commands || c.list_changed ==> c.aborts(),
        !c.to_next && !c.to_prev && !c.has_commands && !c.list_changed ==> !c.aborts(),
{
}

/// Commands that wait are heard once, all of them and in their order.
pub proof fn law_commands_are_heard_once(c: Controls)
    ensures
        c.has_commands ==> c.waiting_commands() == c.commands,
        c.commands_taken().waiting_commands().len() == 0,
        !c.commands_taken().has_commands,
        c.commands_taken().track == c.track && c.commands_taken().to_next == c.to_next,
        !c.has_commands ==> c.waiting_commands().len() == 0,
{
}

/// The modes that numbers stand for.
pub proof fn law_modes_have_their_numbers(n: usize)
    ensures
        play_mode_of(0) == PlayMode::Single,
        play_mode_of(1) == PlayMode::Shuffle,
        n >= 2 ==> play_mode_of(n) == PlayMode::Sequential,
        player_state_number(PlayerState::Idle) == 0,
        player_state_number(PlayerState::Playing) == 1,
        player_state_number(PlayerState::Paused) == 2,
        player_state_number(PlayerState::Stopped) == 3,
        player_state_number(PlayerState::Error) == 4,
        Controls::start().state == PlayerState::Idle,
        Controls::start().to_volume == 100,
        play_mode_of(Controls::start().play_mode) == PlayMode::Sequential,
{
}

} // verus!
