//! The messages that drive the player: keys, hot keys, buttons and the reports
//! of its threads.

use crate::playback::{current_position_ms, position_ms};
use crate::player_state::{
    player_state_from_u8, player_state_of, Controls, PlayerCommand, PlayerControls, PlayerState,
    RetryReason,
};
use vstd::prelude::*;

verus! {

pub const WM_DESTROY: u32 = 0x0002;

pub const WM_HOTKEY: u32 = 0x0312;

pub const WM_APPCOMMAND: u32 = 0x0319;

pub const WM_LBUTTONUP: u32 = 0x0202;

pub const WM_PLAY_PAUSE: u32 = 0x0401;

pub const WM_RESTART: u32 = 0x0402;

pub const WM_SEEK_FWD: u32 = 0x0403;

pub const WM_SEEK_BWD: u32 = 0x0404;

pub const WM_NEXT_TRACK: u32 = 0x0405;

pub const WM_PREV_TRACK: u32 = 0x0406;

pub const WM_VOL_UP: u32 = 0x0407;

pub const WM_VOL_DOWN: u32 = 0x0408;

pub const WM_TOGGLE_EXCLUSIVE: u32 = 0x0409;

pub const WM_DEVICE_IN_USE: u32 = 0x040a;

pub const WM_PROGRESS: u32 = 0x040b;

pub const WM_PAUSE: u32 = 0x040c;

pub const WM_RESUME: u32 = 0x040d;

pub const WM_SMTC_STATUS: u32 = 0x040e;

pub const WM_RANDOM_NEXT_TRACK: u32 = 0x040f;

pub const WM_TOGGLE_WINDOW: u32 = 0x0410;

pub const WM_TRAYICON: u32 = 0x0464;

/// A message to the player.
#[derive(Clone, Copy, PartialEq, Eq, Structural)]
pub enum PlayerMessage {
    PlayPause,
    Pause,
    Resume,
    Restart,
    /// Seconds to skip; zero stands for the usual number.
    SeekForward(i64),
    SeekBackward(i64),
    NextTrack,
    PrevTrack,
    RandomNextTrack,
    VolumeUp,
    VolumeDown,
    ToggleExclusive,
    DeviceInUse,
    /// How far the song has got, and how long it is, in milliseconds.
    Progress { position: u64, total: u64 },
    StateChanged(u8),
    /// A media key.
    AppCommand(u32),
    Hotkey(u32),
    /// A mouse event on the icon in the tray.
    Tray(u32),
    ToggleWindow,
    Destroy,
    /// The taskbar was made anew, and the icon has to be put there again.
    TaskbarCreated,
    /// Nothing that the player answers.
    Other,
}

/// What the numbers of a message stand for. `taskbar_created` is the number that
/// the system gave to that message.
pub open spec fn player_message_of(
    msg: u32,
    wparam: usize,
    lparam: i64,
    taskbar_created: u32,
    has_tray: bool,
) -> PlayerMessage {
    if msg == WM_PLAY_PAUSE {
        PlayerMessage::PlayPause
    } else if msg == WM_PAUSE {
        PlayerMessage::Pause
    } else if msg == WM_RESUME {
        PlayerMessage::Resume
    } else if msg == WM_RESTART {
        PlayerMessage::Restart
    } else if msg == WM_SEEK_FWD {
        PlayerMessage::SeekForward(lparam)
    } else if msg == WM_SEEK_BWD {
        PlayerMessage::SeekBackward(lparam)
    } else if msg == WM_NEXT_TRACK {
        PlayerMessage::NextTrack
    } else if msg == WM_PREV_TRACK {
        PlayerMessage::PrevTrack
    } else if msg == WM_RANDOM_NEXT_TRACK {
        PlayerMessage::RandomNextTrack
    } else if msg == WM_VOL_UP {
        PlayerMessage::VolumeUp
    } else if msg == WM_VOL_DOWN {
        PlayerMessage::VolumeDown
    } else if msg == WM_TOGGLE_EXCLUSIVE {
        PlayerMessage::ToggleExclusive
    } else if msg == WM_DEVICE_IN_USE {
        PlayerMessage::DeviceInUse
    } else if msg == WM_PROGRESS {
        PlayerMessage::Progress {
            position: wparam as u64,
            total: if lparam > 0 {
                lparam as u64
            } else {
                0
            },
        }
    } else if msg == WM_SMTC_STATUS {
        PlayerMessage::StateChanged((wparam % 0x100) as u8)
    } else if msg == WM_APPCOMMAND {
        PlayerMessage::AppCommand(((lparam >> 16) & 0xffff) as u32)
    } else if msg == WM_HOTKEY {
        PlayerMessage::Hotkey((wparam as u64 % 0x1_0000_0000) as u32)
    } else if msg == WM_TRAYICON {
        PlayerMessage::Tray((lparam & 0xffff) as u32)
    } else if msg == WM_TOGGLE_WINDOW {
        PlayerMessage::ToggleWindow
    } else if msg == WM_DESTROY {
        PlayerMessage::Destroy
    } else if msg == taskbar_created && has_tray {
        PlayerMessage::TaskbarCreated
    } else {
        PlayerMessage::Other
    }
}

/// What the numbers of a message stand for.
pub fn player_message(
    msg: u32,
    wparam: usize,
    lparam: i64,
    taskbar_created: u32,
    has_tray: bool,
) -> (r: PlayerMessage)
    ensures
        r == player_message_of(msg, wparam, lparam, taskbar_created, has_tray),
{
    match msg {
        WM_PLAY_PAUSE => PlayerMessage::PlayPause,
        WM_PAUSE => PlayerMessage::Pause,
        WM_RESUME => PlayerMessage::Resume,
        WM_RESTART => PlayerMessage::Restart,
        WM_SEEK_FWD => PlayerMessage::SeekForward(lparam),
        WM_SEEK_BWD => PlayerMessage::SeekBackward(lparam),
        WM_NEXT_TRACK => PlayerMessage::NextTrack,
        WM_PREV_TRACK => PlayerMessage::PrevTrack,
        WM_RANDOM_NEXT_TRACK => PlayerMessage::RandomNextTrack,
        WM_VOL_UP => PlayerMessage::VolumeUp,
        WM_VOL_DOWN => PlayerMessage::VolumeDown,
        WM_TOGGLE_EXCLUSIVE => PlayerMessage::ToggleExclusive,
        WM_DEVICE_IN_USE => PlayerMessage::DeviceInUse,
        WM_PROGRESS => PlayerMessage::Progress {
            position: wparam as u64,
            total: if lparam > 0 {
                lparam as u64
            } else {
                0
            },
        },
        WM_SMTC_STATUS => PlayerMessage::StateChanged((wparam % 0x100) as u8),
        WM_APPCOMMAND => PlayerMessage::AppCommand(((lparam >> 16) & 0xffff) as u32),
        WM_HOTKEY => PlayerMessage::Hotkey((wparam as u64 % 0x1_0000_0000) as u32),
        WM_TRAYICON => PlayerMessage::Tray((lparam & 0xffff) as u32),
        WM_TOGGLE_WINDOW => PlayerMessage::ToggleWindow,
        WM_DESTROY => PlayerMessage::Destroy,
        _ => if msg == taskbar_created && has_tray {
            PlayerMessage::TaskbarCreated
        } else {
            PlayerMessage::Other
        },
    }
}

/// The player as its messages see it.
pub struct PlayerDesk {
    pub controls: PlayerControls,
    /// Whether playing is held back.
    pub paused: bool,
    /// Whether the device is held alone at present.
    pub exclusive: bool,
    /// Whether the device is to be held alone.
    pub def_exclusive: bool,
    pub window_visible: bool,
    /// When the progress was saved last.
    pub last_save: u64,
}

/// The player with its controls taken by view.
#[verifier::ext_equal]
pub struct Desk {
    pub controls: Controls,
    pub paused: bool,
    pub exclusive: bool,
    pub def_exclusive: bool,
    pub window_visible: bool,
    pub last_save: u64,
}

impl View for PlayerDesk {
    type V = Desk;

    open spec fn view(&self) -> Desk {
        Desk {
            controls: self.controls@,
            paused: self.paused,
            exclusive: self.exclusive,
            def_exclusive: self.def_exclusive,
            window_visible: self.window_visible,
            last_save: self.last_save,
        }
    }
}

/// What is shown of the progress.
#[derive(Clone, Copy, PartialEq, Eq, Structural)]
pub struct ProgressShown {
    /// The place of the bar, in thousandths.
    pub bar: u32,
    /// Whether the taskbar shows it too, and what: a part of a whole.
    pub on_taskbar: bool,
    pub part: u64,
    pub whole: u64,
}

/// What follows from a message.
#[derive(Clone, Copy, PartialEq, Eq, Structural)]
pub struct Reply {
    /// What the message is answered.
    pub result: i64,
    /// Whether the system answers it instead.
    pub by_system: bool,
    /// Whether the player stops waiting.
    pub wakes_player: bool,
    /// What other programs are told of the device: that it is claimed, or that it
    /// is free.
    pub claims_device: bool,
    pub frees_device: bool,
    /// Another message to the player.
    pub posts: Option<u32>,
    /// The volume that is shown now.
    pub volume: Option<u32>,
    /// What is saved of whether the player plays.
    pub saves_playing: Option<bool>,
    pub progress: Option<ProgressShown>,
    /// The state that is shown now.
    pub state: Option<PlayerState>,
    pub toggles_window: bool,
    pub renews_icon: bool,
    /// Whether the progress is saved and the program ends.
    pub quits: bool,
}

/// An answer of zero with nothing else.
pub open spec fn plain_reply() -> Reply {
    Reply {
        result: 0,
        by_system: false,
        wakes_player: false,
        claims_device: false,
        frees_device: false,
        posts: None,
        volume: None,
        saves_playing: None,
        progress: None,
        state: None,
        toggles_window: false,
        renews_icon: false,
        quits: false,
    }
}

fn no_reply() -> (r: Reply)
    ensures
        r == plain_reply(),
{
    Reply {
        result: 0,
        by_system: false,
        wakes_player: false,
        claims_device: false,
        frees_device: false,
        posts: None,
        volume: None,
        saves_playing: None,
        progress: None,
        state: None,
        toggles_window: false,
        renews_icon: false,
        quits: false,
    }
}

/// The seconds of a skip: the usual number where none is told, a hundred at most.
pub open spec fn skip_seconds(lparam: i64) -> i32 {
    if lparam == 0 {
        5
    } else if lparam as i32 > 100 {
        100
    } else {
        lparam as i32
    }
}

pub fn seconds_of(lparam: i64) -> (r: i32)
    ensures
        r == skip_seconds(lparam),
{
    if lparam == 0 {
        5
    } else {
        let n: i32 = lparam as i32;
        if n > 100 {
            100
        } else {
            n
        }
    }
}

/// The message that a media key stands for.
pub open spec fn app_command_message(command: u32) -> Option<u32> {
    if command == 14 {
        Some(WM_PLAY_PAUSE)
    } else if command == 47 {
        Some(WM_PAUSE)
    } else if command == 46 {
        Some(WM_RESUME)
    } else if command == 11 {
        Some(WM_NEXT_TRACK)
    } else if command == 12 {
        Some(WM_PREV_TRACK)
    } else {
        None
    }
}

fn app_command(command: u32) -> (r: Option<u32>)
    ensures
        r == app_command_message(command),
{
    match command {
        14 => Some(WM_PLAY_PAUSE),
        47 => Some(WM_PAUSE),
        46 => Some(WM_RESUME),
        11 => Some(WM_NEXT_TRACK),
        12 => Some(WM_PREV_TRACK),
        _ => None,
    }
}

/// The message that a hot key stands for.
pub open spec fn hotkey_message(key: u32) -> Option<u32> {
    if 1 <= key <= 9 {
        Some((WM_PLAY_PAUSE + (key - 1)) as u32)
    } else {
        None
    }
}

fn hotkey(key: u32) -> (r: Option<u32>)
    ensures
        r == hotkey_message(key),
{
    match key {
        1 => Some(WM_PLAY_PAUSE),
        2 => Some(WM_RESTART),
        3 => Some(WM_SEEK_FWD),
        4 => Some(WM_SEEK_BWD),
        5 => Some(WM_NEXT_TRACK),
        6 => Some(WM_PREV_TRACK),
        7 => Some(WM_VOL_UP),
        8 => Some(WM_VOL_DOWN),
        9 => Some(WM_TOGGLE_EXCLUSIVE),
        _ => None,
    }
}

/// The place of the bar for a position, in thousandths.
pub open spec fn bar_place(position: int, total: int) -> int {
    if total <= 0 {
        0
    } else if position * 1000 / total > 1000 {
        1000
    } else {
        position * 1000 / total
    }
}

/// The place of the bar for a position.
pub fn progress_bar(position: u64, total: u64) -> (r: u32)
    requires
        position * 1000 <= u64::MAX,
    ensures
        r == bar_place(position as int, total as int),
        r <= 1000,
{
    if total == 0 {
        return 0;
    }
    let n: u64 = position * 1000 / total;
    if n > 1000 {
        1000
    } else {
        n as u32
    }
}

/// The mark that the taskbar has for a state.
pub open spec fn taskbar_flag_of(state: PlayerState) -> i32 {
    match state {
        PlayerState::Playing => 2,
        PlayerState::Paused => 8,
        PlayerState::Error => 4,
        PlayerState::Stopped => 0,
        PlayerState::Idle => 0,
    }
}

/// The mark that the taskbar has for a state.
pub fn taskbar_flag(state: PlayerState) -> (r: i32)
    ensures
        r == taskbar_flag_of(state),
{
    match state {
        PlayerState::Playing => 2,
        PlayerState::Paused => 8,
        PlayerState::Error => 4,
        PlayerState::Stopped => 0,
        PlayerState::Idle => 0,
    }
}

impl Desk {
    /// The player goes on, and is woken; other programs are told that the device
    /// is claimed where it had been paused.
    pub open spec fn going_on(self, reply: Reply) -> (Desk, Reply) {
        (
            Desk { paused: false, ..self },
            Reply { wakes_player: true, claims_device: self.paused && self.exclusive, ..reply },
        )
    }

    /// The player after a message, and what follows from it. `len` is the length
    /// of the active playlist, `pick` a song of it picked at random.
    #[verifier::opaque]
    pub open spec fn handled(self, message: PlayerMessage, len: int, pick: usize) -> (Desk, Reply) {
        let plain = plain_reply();
        match message {
            PlayerMessage::PlayPause => if self.controls.state == PlayerState::Playing
                || self.controls.state == PlayerState::Paused {
                (
                    Desk { paused: !self.paused, ..self },
                    Reply {
                        saves_playing: Some(self.paused),
                        frees_device: self.exclusive && !self.paused,
                        claims_device: self.exclusive && self.paused,
                        ..plain
                    },
                )
            } else {
                (self, plain)
            },
            PlayerMessage::Pause => if self.controls.state == PlayerState::Playing && !self.paused {
                (Desk { paused: true, ..self }, Reply { frees_device: self.exclusive, ..plain })
            } else {
                (self, plain)
            },
            PlayerMessage::Resume => if self.controls.state == PlayerState::Paused && self.paused {
                (Desk { paused: false, ..self }, Reply { claims_device: self.exclusive, ..plain })
            } else {
                (self, plain)
            },
            PlayerMessage::Restart => (
                Desk { controls: self.controls.retry_requested(RetryReason::Restart), ..self },
                Reply {
                    wakes_player: self.controls.retry_requested(RetryReason::Restart)
                        != self.controls,
                    ..plain
                },
            ),
            PlayerMessage::SeekForward(n) => (
                Desk {
                    controls: Controls {
                        to_seek: self.controls.to_seek.wrapping_add(skip_seconds(n)),
                        ..self.controls
                    },
                    ..self
                },
                plain,
            ),
            PlayerMessage::SeekBackward(n) => (
                Desk {
                    controls: Controls {
                        to_seek: self.controls.to_seek.wrapping_sub(skip_seconds(n)),
                        ..self.controls
                    },
                    ..self
                },
                plain,
            ),
            PlayerMessage::NextTrack => (Desk {
                controls: Controls { to_next: true, ..self.controls },
                ..self
            }).going_on(plain),
            PlayerMessage::PrevTrack => (Desk {
                controls: Controls { to_prev: true, ..self.controls },
                ..self
            }).going_on(plain),
            PlayerMessage::RandomNextTrack => if len <= 1 {
                (self, plain)
            } else {
                (Desk {
                    controls: Controls {
                        commands: self.controls.commands.push(PlayerCommand::SwitchToIndex(pick)),
                        has_commands: true,
                        ..self.controls
                    },
                    ..self
                }).going_on(plain)
            },
            PlayerMessage::VolumeUp => self.with_volume(
                if self.controls.to_volume + 5 > 100 {
                    100
                } else {
                    (self.controls.to_volume + 5) as u32
                },
            ),
            PlayerMessage::VolumeDown => self.with_volume(
                if self.controls.to_volume < 5 {
                    0
                } else {
                    (self.controls.to_volume - 5) as u32
                },
            ),
            PlayerMessage::ToggleExclusive => (
                Desk {
                    controls: self.controls.retry_requested(RetryReason::ModeChanged),
                    exclusive: !self.def_exclusive,
                    def_exclusive: !self.def_exclusive,
                    ..self
                },
                Reply {
                    wakes_player: self.controls.retry_requested(RetryReason::ModeChanged)
                        != self.controls,
                    frees_device: self.def_exclusive,
                    claims_device: !self.def_exclusive,
                    ..plain
                },
            ),
            PlayerMessage::DeviceInUse => (self, plain),
            PlayerMessage::Progress { position, total } => (
                self,
                Reply {
                    progress: Some(
                        ProgressShown {
                            bar: bar_place(position as int, total as int) as u32,
                            on_taskbar: self.window_visible,
                            part: if position == 0 {
                                1
                            } else {
                                position
                            },
                            whole: if position == 0 {
                                1000
                            } else {
                                total
                            },
                        },
                    ),
                    ..plain
                },
            ),
            PlayerMessage::StateChanged(n) => (
                self,
                Reply { state: Some(player_state_of(n)), ..plain },
            ),
            PlayerMessage::AppCommand(command) => match app_command_message(command) {
                Some(m) => (self, Reply { posts: Some(m), result: 1, ..plain }),
                None => (self, Reply { by_system: true, ..plain }),
            },
            PlayerMessage::Hotkey(key) => (self, Reply { posts: hotkey_message(key), ..plain }),
            PlayerMessage::Tray(event) => (
                self,
                Reply {
                    posts: if event == WM_LBUTTONUP {
                        Some(WM_TOGGLE_WINDOW)
                    } else {
                        None
                    },
                    ..plain
                },
            ),
            PlayerMessage::ToggleWindow => (self, Reply { toggles_window: true, ..plain }),
            PlayerMessage::Destroy => (
                self,
                Reply {
                    quits: true,
                    saves_playing: Some(self.controls.state == PlayerState::Playing),
                    ..plain
                },
            ),
            PlayerMessage::TaskbarCreated => (self, Reply { renews_icon: true, ..plain }),
            PlayerMessage::Other => (self, Reply { by_system: true, ..plain }),
        }
    }

    /// The player at another volume, which is shown where it changed.
    pub open spec fn with_volume(self, volume: u32) -> (Desk, Reply) {
        (
            Desk { controls: Controls { to_volume: volume, ..self.controls }, ..self },
            Reply {
                volume: if volume != self.controls.to_volume {
                    Some(volume)
                } else {
                    None
                },
                ..plain_reply()
            },
        )
    }
}

impl PlayerDesk {
    /// Lets the player go on where it was paused, and wakes it in any case. The
    /// result says whether the device has to be claimed.
    pub fn resume_if_paused(&mut self) -> (claims: bool)
        ensures
            final(self)@ == (Desk { paused: false, ..old(self)@ }),
            claims == (old(self).paused && old(self).exclusive),
    {
        let claims: bool = self.paused && self.exclusive;
        self.paused = false;
        claims
    }

    fn going_on(&mut self) -> (r: Reply)
        ensures
            (final(self)@, r) == old(self)@.going_on(plain_reply()),
    {
        let claims: bool = self.resume_if_paused();
        let mut r = no_reply();
        r.wakes_player = true;
        r.claims_device = claims;
        r
    }

    fn set_volume(&mut self, volume: u32) -> (r: Reply)
        ensures
            (final(self)@, r) == old(self)@.with_volume(volume),
    {
        let mut r = no_reply();
        if volume != self.controls.to_volume {
            self.controls.to_volume = volume;
            r.volume = Some(volume);
        }
        assert(self@ =~= old(self)@.with_volume(volume).0);
        r
    }

    fn hold(&mut self, message: PlayerMessage, Ghost(len): Ghost<int>, Ghost(pick): Ghost<usize>) -> (r: Reply)
        requires
            message == PlayerMessage::PlayPause || message == PlayerMessage::Pause || message
                == PlayerMessage::Resume,
        ensures
            (final(self)@, r) == old(self)@.handled(message, len, pick),
    {
        reveal(Desk::handled);
        let mut r = no_reply();
        let state: PlayerState = self.controls.state;
        let was_paused: bool = self.paused;
        let applies: bool = match message {
            PlayerMessage::PlayPause => state == PlayerState::Playing || state
                == PlayerState::Paused,
            PlayerMessage::Pause => state == PlayerState::Playing && !was_paused,
            _ => state == PlayerState::Paused && was_paused,
        };
        if applies {
            self.paused = !was_paused;
            r.frees_device = self.exclusive && !was_paused;
            r.claims_device = self.exclusive && was_paused;
            if message == PlayerMessage::PlayPause {
                r.saves_playing = Some(was_paused);
            }
        }
        assert(self@ =~= old(self)@.handled(message, len, pick).0);
        r
    }

    fn retry(&mut self, reason: RetryReason) -> (r: bool)
        ensures
            final(self)@ == (Desk {
                controls: old(self)@.controls.retry_requested(reason),
                ..old(self)@
            }),
            r == (old(self)@.controls.retry_requested(reason) != old(self)@.controls),
    {
        let before: RetryReason = self.controls.pending_retry;
        let ghost was = self.controls@;
        self.controls.request_playback_retry(reason);
        assert(self.controls@ != was <==> self.controls.pending_retry != before) by {
            if self.controls.pending_retry == before {
                assert(self.controls@ =~= was);
            }
        }
        self.controls.pending_retry != before
    }

    fn open_again(
        &mut self,
        message: PlayerMessage,
        Ghost(len): Ghost<int>,
        Ghost(pick): Ghost<usize>,
    ) -> (r: Reply)
        requires
            message is Restart || message is ToggleExclusive,
        ensures
            (final(self)@, r) == old(self)@.handled(message, len, pick),
    {
        reveal(Desk::handled);
        let mut r = no_reply();
        if message == PlayerMessage::Restart {
            r.wakes_player = self.retry(RetryReason::Restart);
        } else {
            let was_exclusive: bool = self.def_exclusive;
            r.wakes_player = self.retry(RetryReason::ModeChanged);
            self.def_exclusive = !was_exclusive;
            self.exclusive = !was_exclusive;
            r.frees_device = was_exclusive;
            r.claims_device = !was_exclusive;
        }
        assert(self@ =~= old(self)@.handled(message, len, pick).0);
        r
    }

    fn skip(&mut self, message: PlayerMessage, len: usize, pick: usize) -> (r: Reply)
        requires
            message is NextTrack || message is PrevTrack || message is RandomNextTrack,
        ensures
            (final(self)@, r) == old(self)@.handled(message, len as int, pick),
    {
        reveal(Desk::handled);
        match message {
            PlayerMessage::NextTrack => {
                self.controls.to_next = true;
            },
            PlayerMessage::PrevTrack => {
                self.controls.to_prev = true;
            },
            _ => {
                if len <= 1 {
                    return no_reply();
                }
                self.controls.push_command(PlayerCommand::SwitchToIndex(pick));
            },
        }
        let r = self.going_on();
        assert(self@ =~= old(self)@.handled(message, len as int, pick).0);
        r
    }

    fn adjust(
        &mut self,
        message: PlayerMessage,
        Ghost(len): Ghost<int>,
        Ghost(pick): Ghost<usize>,
    ) -> (r: Reply)
        requires
            message is SeekForward || message is SeekBackward || message is VolumeUp || message
                is VolumeDown,
            message == PlayerMessage::VolumeUp ==> old(self).controls.to_volume <= u32::MAX - 5,
        ensures
            (final(self)@, r) == old(self)@.handled(message, len, pick),
    {
        reveal(Desk::handled);
        let volume: u32 = self.controls.to_volume;
        match message {
            PlayerMessage::SeekForward(n) => {
                self.controls.to_seek = self.controls.to_seek.wrapping_add(seconds_of(n));
                assert(self@ =~= old(self)@.handled(message, len, pick).0);
                no_reply()
            },
            PlayerMessage::SeekBackward(n) => {
                self.controls.to_seek = self.controls.to_seek.wrapping_sub(seconds_of(n));
                assert(self@ =~= old(self)@.handled(message, len, pick).0);
                no_reply()
            },
            PlayerMessage::VolumeUp => {
                let wanted: u32 = volume + 5;
                self.set_volume(
                    if wanted > 100 {
                        100
                    } else {
                        wanted
                    },
                )
            },
            _ => self.set_volume(
                if volume < 5 {
                    0
                } else {
                    volume - 5
                },
            ),
        }
    }

    fn report(&self, message: PlayerMessage, Ghost(len): Ghost<int>, Ghost(pick): Ghost<usize>) -> (r: Reply)
        requires
            message matches PlayerMessage::Progress { position, total } ==> position * 1000
                <= u64::MAX,
            message is DeviceInUse || message is Progress || message is StateChanged || message
                is AppCommand || message is Hotkey || message is Tray || message is ToggleWindow
                || message is Destroy || message is TaskbarCreated || message is Other,
        ensures
            (self@, r) == self@.handled(message, len, pick),
    {
        reveal(Desk::handled);
        let mut r = no_reply();
        match message {
            PlayerMessage::Progress { position, total } => {
                r.progress = Some(
                    ProgressShown {
                        bar: progress_bar(position, total),
                        on_taskbar: self.window_visible,
                        part: if position == 0 {
                            1
                        } else {
                            position
                        },
                        whole: if position == 0 {
                            1000
                        } else {
                            total
                        },
                    },
                );
            },
            PlayerMessage::StateChanged(n) => {
                r.state = Some(player_state_from_u8(n));
            },
            PlayerMessage::AppCommand(command) => {
                match app_command(command) {
                    Some(m) => {
                        r.posts = Some(m);
                        r.result = 1;
                    },
                    None => {
                        r.by_system = true;
                    },
                }
            },
            PlayerMessage::Hotkey(key) => {
                r.posts = hotkey(key);
            },
            PlayerMessage::Tray(event) => {
                if event == WM_LBUTTONUP {
                    r.posts = Some(WM_TOGGLE_WINDOW);
                }
            },
            PlayerMessage::ToggleWindow => {
                r.toggles_window = true;
            },
            PlayerMessage::Destroy => {
                r.quits = true;
                r.saves_playing = Some(self.controls.state == PlayerState::Playing);
            },
            PlayerMessage::TaskbarCreated => {
                r.renews_icon = true;
            },
            PlayerMessage::Other => {
                r.by_system = true;
            },
            _ => {},
        }
        r
    }

    /// Handles a message. `len` is the length of the active playlist, `pick` a
    /// song of it picked at random.
    pub fn handle(&mut self, message: PlayerMessage, len: usize, pick: usize) -> (r: Reply)
        requires
            message == PlayerMessage::VolumeUp ==> old(self).controls.to_volume <= u32::MAX - 5,
            message matches PlayerMessage::Progress { position, total } ==> position * 1000
                <= u64::MAX,
        ensures
            (final(self)@, r) == old(self)@.handled(message, len as int, pick),
    {
        match message {
            PlayerMessage::PlayPause | PlayerMessage::Pause | PlayerMessage::Resume => self.hold(
                message,
                Ghost(len as int),
                Ghost(pick),
            ),
            PlayerMessage::Restart | PlayerMessage::ToggleExclusive => self.open_again(
                message,
                Ghost(len as int),
                Ghost(pick),
            ),
            PlayerMessage::NextTrack | PlayerMessage::PrevTrack
            | PlayerMessage::RandomNextTrack => self.skip(message, len, pick),
            PlayerMessage::SeekForward(_) | PlayerMessage::SeekBackward(_)
            | PlayerMessage::VolumeUp | PlayerMessage::VolumeDown => self.adjust(
                message,
                Ghost(len as int),
                Ghost(pick),
            ),
            _ => self.report(message, Ghost(len as int), Ghost(pick)),
        }
    }

    /// Whether the progress is saved now: not more often than every five seconds,
    /// and only where a song of a playlist plays.
    pub fn save_due(&mut self, now: u64, playlist_id: usize, track_path: &str) -> (r: bool)
        requires
            old(self).last_save <= now,
        ensures
            r == (now - old(self).last_save > 5000 && playlist_id > 0 && track_path@.len() > 0),
            final(self)@ == (Desk {
                last_save: if r {
                    now
                } else {
                    old(self).last_save
                },
                ..old(self)@
            }),
    {
        let due: bool = now - self.last_save > 5000 && playlist_id > 0 && !track_path.is_empty();
        if due {
            self.last_save = now;
        }
        due
    }
}

/// The progress that is saved: what was played, as far as it can be told, else
/// what was reported.
pub fn progress_to_save(
    samples: u64,
    sample_rate: usize,
    channels: usize,
    reported: u64,
) -> (r: u64)
    requires
        sample_rate > 0 && channels > 0 ==> samples * 1000 <= u64::MAX && sample_rate * channels
            <= u64::MAX,
    ensures
        r == (if sample_rate > 0 && channels > 0 {
            position_ms(samples as int, sample_rate as int, channels as int)
        } else {
            reported as int
        }),
{
    if sample_rate > 0 && channels > 0 {
        assert(sample_rate * channels > 0) by (nonlinear_arith)
            requires
                sample_rate > 0,
                channels > 0,
        ;
        current_position_ms(samples, sample_rate, channels)
    } else {
        reported
    }
}

/// Pausing and going on undo each other, and tell other programs of the device
/// both times.
pub proof fn law_play_pause_is_undone(d: Desk, len: int, pick: usize)
    requires
        d.controls.state == PlayerState::Playing || d.controls.state == PlayerState::Paused,
    ensures
        ({
            let (once, first) = d.handled(PlayerMessage::PlayPause, len, pick);
            let (twice, second) = once.handled(PlayerMessage::PlayPause, len, pick);
            &&& twice == d
            &&& once.paused != d.paused
            &&& first.saves_playing == Some(d.paused) && second.saves_playing == Some(!d.paused)
            &&& d.exclusive ==> first.frees_device == second.claims_device && first.claims_device
                == second.frees_device && first.frees_device != first.claims_device
        }),
{
    reveal(Desk::handled);
}

/// The volume stays between zero and a hundred, whatever keys are pressed.
pub proof fn law_volume_stays_in_range(d: Desk, message: PlayerMessage, len: int, pick: usize)
    requires
        d.controls.to_volume <= 100,
    ensures
        d.handled(message, len, pick).0.controls.to_volume <= 100,
{
    reveal(Desk::handled);
}

/// A song that is asked for plays, even where the player was paused.
pub proof fn law_skipping_ends_a_pause(d: Desk, message: PlayerMessage, len: int, pick: usize)
    requires
        message == PlayerMessage::NextTrack || message == PlayerMessage::PrevTrack || (message
            == PlayerMessage::RandomNextTrack && len > 1),
    ensures
        ({
            let (after, reply) = d.handled(message, len, pick);
            !after.paused && reply.wakes_player
        }),
{
    reveal(Desk::handled);
}

/// Other programs are told of the device only by a player that holds it alone, or
/// that starts or ends to do so.
pub proof fn law_shared_device_is_not_announced(d: Desk, message: PlayerMessage, len: int, pick: usize)
    requires
        !d.exclusive,
        message != PlayerMessage::ToggleExclusive,
    ensures
        !d.handled(message, len, pick).1.claims_device,
        !d.handled(message, len, pick).1.frees_device,
{
    reveal(Desk::handled);
}

/// What is done where the window is to be shown or hidden.
#[derive(Clone, Copy, PartialEq, Eq, Debug)]
pub struct Toggle {
    pub shows: bool,
    /// What the bar in the task list is told: the state, and how far the track is.
    pub flag: Option<i32>,
    pub progress: Option<(u64, u64)>,
}

/// Shows a window that is hidden, and hides one that is shown. One that is shown
/// tells the task list what it missed while it was hidden.
pub fn toggle_visibility(
    visible: bool,
    state: PlayerState,
    total_ms: u64,
    samples: u64,
    sample_rate: usize,
    channels: usize,
) -> (r: Toggle)
    requires
        !visible && total_ms > 0 && sample_rate > 0 && channels > 0 ==> samples * 1000 <= u64::MAX
            && sample_rate * channels <= u64::MAX,
    ensures
        r.shows == !visible,
        visible ==> r.flag is None && r.progress is None,
        !visible ==> r.flag == Some(taskbar_flag_of(state)),
        !visible ==> r.progress == (if total_ms > 0 && sample_rate > 0 && channels > 0 {
            Some(
                (
                    position_ms(samples as int, sample_rate as int, channels as int) as u64,
                    total_ms,
                ),
            )
        } else {
            None
        }),
{
    if visible {
        return Toggle { shows: false, flag: None, progress: None };
    }
    let progress: Option<(u64, u64)> = if total_ms > 0 && sample_rate > 0 && channels > 0 {
        assert(sample_rate * channels > 0) by (nonlinear_arith)
            requires
                sample_rate > 0,
                channels > 0,
        ;
        Some((current_position_ms(samples, sample_rate, channels), total_ms))
    } else {
        None
    };
    Toggle { shows: true, flag: Some(taskbar_flag(state)), progress }
}

/// What a message to the player's window does to the player.
pub open spec fn told(d: Desk, msg: u32, wparam: usize, lparam: i64, len: int, pick: usize) -> (
    Desk,
    Reply,
) {
    d.handled(player_message_of(msg, wparam, lparam, 0, false), len, pick)
}

/// The messages that ask for another song ask for the next one, the previous one and the
/// drawn one; each of them ends a pause and wakes the player, and changes nothing else.
pub proof fn law_song_messages_ask_for_their_song(d: Desk, len: int, pick: usize)
    ensures
        ({
            let (after, reply) = told(d, 0x0405, 0, 0, len, pick);
            &&& after.controls == Controls { to_next: true, ..d.controls }
            &&& !after.paused && reply.wakes_player
        }),
        ({
            let (after, reply) = told(d, 0x0406, 0, 0, len, pick);
            &&& after.controls == Controls { to_prev: true, ..d.controls }
            &&& !after.paused && reply.wakes_player
        }),
        len > 1 ==> {
            let (after, reply) = told(d, 0x040f, 0, 0, len, pick);
            &&& after.controls.has_commands
            &&& after.controls.commands == d.controls.commands.push(
                PlayerCommand::SwitchToIndex(pick),
            )
            &&& after.controls.to_next == d.controls.to_next
            &&& !after.paused && reply.wakes_player
        },
        len <= 1 ==> told(d, 0x040f, 0, 0, len, pick).0 == d,
{
    reveal(Desk::handled);
}

/// A message to skip moves the player by its seconds, forwards or backwards: five where it
/// names none, and a hundred at most. The two undo each other.
pub proof fn law_skip_messages_add_up(d: Desk, seconds: i64, len: int, pick: usize)
    requires
        -1000000 <= d.controls.to_seek <= 1000000,
        -1000000 <= seconds <= 1000000,
    ensures
        ({
            let by = if seconds == 0 {
                5
            } else if seconds > 100 {
                100
            } else {
                seconds as int
            };
            let (ahead, _) = told(d, 0x0403, 0, seconds, len, pick);
            let (back, _) = told(d, 0x0404, 0, seconds, len, pick);
            &&& ahead.controls.to_seek == d.controls.to_seek + by
            &&& back.controls.to_seek == d.controls.to_seek - by
            &&& told(ahead, 0x0404, 0, seconds, len, pick).0 == d
            &&& told(back, 0x0403, 0, seconds, len, pick).0 == d
        }),
{
    reveal(Desk::handled);
}

/// The volume goes up and down by five, to a hundred and to nothing; what changed is told.
pub proof fn law_volume_messages_step_by_five(d: Desk, len: int, pick: usize)
    requires
        d.controls.to_volume <= 100,
    ensures
        ({
            let (up, loud) = told(d, 0x0407, 0, 0, len, pick);
            let (down, low) = told(d, 0x0408, 0, 0, len, pick);
            let v = d.controls.to_volume;
            &&& v <= 95 ==> up.controls.to_volume == v + 5
            &&& v > 95 ==> up.controls.to_volume == 100
            &&& v >= 5 ==> down.controls.to_volume == v - 5
            &&& v < 5 ==> down.controls.to_volume == 0
            &&& loud.volume == (if v == 100 {
                None
            } else {
                Some(up.controls.to_volume)
            })
            &&& low.volume == (if v == 0 {
                None
            } else {
                Some(down.controls.to_volume)
            })
            &&& v <= 95 ==> told(up, 0x0408, 0, 0, len, pick).0 == d
        }),
{
    reveal(Desk::handled);
}

/// A pause holds a player that plays, and an end of it lets one go on that was held; a
/// device that the player has for itself is given back and claimed again with them.
pub proof fn law_pause_messages_hold_and_release(d: Desk, len: int, pick: usize)
    ensures
        ({
            let (held, reply) = told(d, 0x040c, 0, 0, len, pick);
            &&& d.controls.state == PlayerState::Playing && !d.paused ==> held == Desk {
                paused: true,
                ..d
            } && reply.frees_device == d.exclusive && !reply.claims_device
            &&& !(d.controls.state == PlayerState::Playing && !d.paused) ==> held == d
                && !reply.frees_device
        }),
        ({
            let (free, reply) = told(d, 0x040d, 0, 0, len, pick);
            &&& d.controls.state == PlayerState::Paused && d.paused ==> free == Desk {
                paused: false,
                ..d
            } && reply.claims_device == d.exclusive && !reply.frees_device
            &&& !(d.controls.state == PlayerState::Paused && d.paused) ==> free == d
                && !reply.claims_device
        }),
        ({
            let (turned, reply) = told(d, 0x0401, 0, 0, len, pick);
            &&& d.controls.state == PlayerState::Playing || d.controls.state == PlayerState::Paused
                ==> turned == Desk { paused: !d.paused, ..d }
            &&& !(d.controls.state == PlayerState::Playing || d.controls.state
                == PlayerState::Paused) ==> turned == d
        }),
{
    reveal(Desk::handled);
}

/// A restart asks for the track to be opened again from its start, and a change of the mode
/// for it to be opened again in the other one; each wakes the player where it is heard.
pub proof fn law_restart_and_mode_reopen_the_track(d: Desk, len: int, pick: usize)
    requires
        d.controls.pending_retry == RetryReason::NoRetry,
    ensures
        ({
            let (after, reply) = told(d, 0x0402, 0, 0, len, pick);
            &&& after.controls == Controls { pending_retry: RetryReason::Restart, ..d.controls }
            &&& after.paused == d.paused && reply.wakes_player
        }),
        ({
            let (after, reply) = told(d, 0x0409, 0, 0, len, pick);
            &&& after.controls == Controls { pending_retry: RetryReason::ModeChanged, ..d.controls }
            &&& after.def_exclusive == !d.def_exclusive && after.exclusive == !d.def_exclusive
            &&& reply.wakes_player
            &&& reply.frees_device == d.def_exclusive && reply.claims_device == !d.def_exclusive
        }),
{
    reveal(Desk::handled);
}

/// The progress of a track is shown as so many thousandths of it, and never as more than the
/// whole.
pub proof fn law_bar_shows_thousandths(position: int, total: int)
    requires
        position >= 0,
    ensures
        total <= 0 ==> bar_place(position, total) == 0,
        0 <= position <= total && total > 0 ==> bar_place(position, total) * total <= position * 1000
            < (bar_place(position, total) + 1) * total,
        position > total && total > 0 ==> bar_place(position, total) == 1000,
{
    if total > 0 {
        let n = position * 1000;
        let q = n / total;
        assert(q * total <= n < (q + 1) * total) by (nonlinear_arith)
            requires
                q == n / total,
                total > 0,
        ;
        if position <= total {
            assert(q <= 1000) by (nonlinear_arith)
                requires
                    q * total <= position * 1000,
                    position <= total,
                    total > 0,
            ;
        } else {
            assert(q >= 1000) by (nonlinear_arith)
                requires
                    (q + 1) * total > position * 1000,
                    position > total,
                    total > 0,
            ;
        }
    }
}

/// A report of progress shows it on the bar, and on the task bar where the window is shown;
/// the start of a track shows there as a thousandth.
pub proof fn law_progress_is_shown(d: Desk, position: usize, total: i64, len: int, pick: usize)
    requires
        total >= 0,
        position <= total,
    ensures
        ({
            let (after, reply) = told(d, 0x040b, position, total, len, pick);
            let shown = reply.progress->0;
            &&& after == d
            &&& reply.progress is Some
            &&& total > 0 ==> shown.bar * total <= position * 1000 < (shown.bar + 1) * total
            &&& shown.on_taskbar == d.window_visible
            &&& position > 0 ==> shown.part == position && shown.whole == total
            &&& position == 0 ==> shown.part == 1 && shown.whole == 1000
        }),
{
    reveal(Desk::handled);
    law_bar_shows_thousandths(position as int, total as int);
    if total > 0 {
        assert(bar_place(position as int, total as int) <= 1000) by {
            assert(bar_place(position as int, total as int) <= 1000);
        }
        let n = position * 1000;
        assert(n / total as int >= 0) by (nonlinear_arith)
            requires
                n >= 0,
                total > 0,
        ;
    }
}

/// The nine hot keys stand for the nine first messages, in their order, and any other key
/// for none.
pub proof fn law_hot_keys_stand_for_their_messages(key: u32)
    ensures
        hotkey_message(1) == Some(WM_PLAY_PAUSE),
        hotkey_message(2) == Some(WM_RESTART),
        hotkey_message(3) == Some(WM_SEEK_FWD),
        hotkey_message(4) == Some(WM_SEEK_BWD),
        hotkey_message(5) == Some(WM_NEXT_TRACK),
        hotkey_message(6) == Some(WM_PREV_TRACK),
        hotkey_message(7) == Some(WM_VOL_UP),
        hotkey_message(8) == Some(WM_VOL_DOWN),
        hotkey_message(9) == Some(WM_TOGGLE_EXCLUSIVE),
        key == 0 || key > 9 ==> hotkey_message(key) is None,
{
}

/// The media keys of a keyboard play, pause and go to another song; any other command is
/// left to the system.
pub proof fn law_media_keys(d: Desk, command: u32, len: int, pick: usize)
    ensures
        app_command_message(14) == Some(WM_PLAY_PAUSE),
        app_command_message(46) == Some(WM_RESUME),
        app_command_message(47) == Some(WM_PAUSE),
        app_command_message(11) == Some(WM_NEXT_TRACK),
        app_command_message(12) == Some(WM_PREV_TRACK),
        app_command_message(command) is Some <==> command == 14 || command == 46 || command == 47
            || command == 11 || command == 12,
        ({
            let (after, reply) = d.handled(PlayerMessage::AppCommand(command), len, pick);
            &&& after == d
            &&& reply.posts == app_command_message(command)
            &&& reply.result == (if reply.posts is Some {
                1i64
            } else {
                0
            })
            &&& reply.by_system == (reply.posts is None)
        }),
{
    reveal(Desk::handled);
}

/// A player that is closed quits, and remembers whether it was playing; a state that it is
/// told of is shown.
pub proof fn law_closed_player_remembers_whether_it_played(d: Desk, n: u8, len: int, pick: usize)
    ensures
        ({
            let (after, reply) = told(d, 0x0002, 0, 0, len, pick);
            after == d && reply.quits && reply.saves_playing == Some(
                d.controls.state == PlayerState::Playing,
            )
        }),
        ({
            let (after, reply) = told(d, 0x040e, n as usize, 0, len, pick);
            after == d && !reply.quits && reply.state == Some(player_state_of(n))
        }),
        told(d, 0x0410, 0, 0, len, pick).1.toggles_window,
{
    reveal(Desk::handled);
}

/// The task bar shows a player that plays, one that is paused and one that failed, each in
/// its own way, and nothing otherwise.
pub proof fn law_task_bar_shows_the_state(a: PlayerState, b: PlayerState)
    ensures
        taskbar_flag_of(PlayerState::Playing) == 2,
        taskbar_flag_of(PlayerState::Paused) == 8,
        taskbar_flag_of(PlayerState::Error) == 4,
        taskbar_flag_of(a) == 0 <==> a == PlayerState::Idle || a == PlayerState::Stopped,
        taskbar_flag_of(a) == taskbar_flag_of(b) && taskbar_flag_of(a) != 0 ==> a == b,
{
}

/// A click on the icon of the player shows or hides its window, the icon comes back where the
/// task bar does, and what is not for the player is left to the system.
pub proof fn law_icon_and_other_messages(d: Desk, len: int, pick: usize, msg: u32)
    ensures
        d.handled(PlayerMessage::Tray(0x0202), len, pick).1.posts == Some(WM_TOGGLE_WINDOW),
        d.handled(PlayerMessage::Tray(0x0200), len, pick).1.posts is None,
        d.handled(PlayerMessage::TaskbarCreated, len, pick).1.renews_icon,
        d.handled(PlayerMessage::Other, len, pick).1.by_system,
        d.handled(PlayerMessage::Other, len, pick).0 == d,
        d.handled(PlayerMessage::DeviceInUse, len, pick).0 == d,
        msg >= 0x8000 ==> player_message_of(msg, 0, 0, msg, true) == PlayerMessage::TaskbarCreated
            && player_message_of(msg, 0, 0, msg, false) == PlayerMessage::Other,
{
    reveal(Desk::handled);
}

} // verus!
