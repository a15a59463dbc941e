//! The messages of the window: what they mean, and what the window does on them.

use crate::layout::Drag;
use crate::player_messages::{
    seconds_of, skip_seconds, WM_DESTROY, WM_LBUTTONUP, WM_NEXT_TRACK, WM_PAUSE, WM_PREV_TRACK,
    WM_RANDOM_NEXT_TRACK, WM_RESTART, WM_RESUME, WM_SEEK_BWD, WM_SEEK_FWD, WM_TOGGLE_WINDOW,
};
use crate::player_state::{Controls, PlayerControls};
use crate::song::text_views;
use crate::tabs::PlayingMark;
use crate::text::{join, joined_by};
use vstd::prelude::*;

verus! {

pub const WM_CREATE: u32 = 0x0001;

pub const WM_MOVE: u32 = 0x0003;

pub const WM_SIZE: u32 = 0x0005;

pub const WM_CLOSE: u32 = 0x0010;

pub const WM_SETCURSOR: u32 = 0x0020;

pub const WM_DRAWITEM: u32 = 0x002b;

pub const WM_COPYDATA: u32 = 0x004a;

pub const WM_NOTIFY: u32 = 0x004e;

pub const WM_COMMAND: u32 = 0x0111;

pub const WM_TIMER: u32 = 0x0113;

pub const WM_HSCROLL: u32 = 0x0114;

pub const WM_MOUSEMOVE: u32 = 0x0200;

pub const WM_LBUTTONDOWN: u32 = 0x0201;

pub const WM_EXITSIZEMOVE: u32 = 0x0232;

pub const WM_UI_PLAYLIST_UPDATE: u32 = 0x04ca;

pub const WM_UI_PLAYLIST_SELECT: u32 = 0x04cb;

pub const WM_UI_NOW_PLAYING: u32 = 0x04cc;

pub const WM_UI_TAB_SYNC: u32 = 0x04cd;

pub const WM_UI_VOLUME_SYNC: u32 = 0x04cf;

pub const WM_UI_PLAY_STATE: u32 = 0x04d0;

pub const WM_UI_LOG_FLUSH: u32 = 0x04d1;

pub const WM_UI_COVER_CLEAR: u32 = 0x04d2;

pub const WM_UI_DELETE_TAB: u32 = 40000;

pub const WM_UI_CHOOSE_TAB: u32 = 40001;

pub const WM_UI_DELETE_ITEM: u32 = 40003;

pub const WM_UI_PLAY_ITEM: u32 = 40004;

pub const WM_UI_TREE_TO_PLAYLIST: u32 = 40005;

pub const WM_UI_TREE_REFRESH: u32 = 40006;

pub const WM_UI_SORT: u32 = 40007;

pub const WM_UI_SHOWN_PLAYLIST: u32 = 40008;

pub const WM_UI_RELOAD_PLAYLIST: u32 = 40009;

pub const WM_UI_PLAY_PAUSE: u32 = 40010;

pub const WM_UI_COVER_SET: u32 = 40011;

pub const WM_UI_PLAY_MODE_SINGLE: u32 = 40012;

/// The timer that saves the place of the window a moment after it moved.
pub const ID_SAVE_TIMER: usize = 999;

pub const ID_BTN_RESTART: i64 = 1003;

pub const ID_TAB: usize = 1004;

pub const ID_TREEVIEW: usize = 1006;

pub const ID_BTN_PREV: i64 = 1007;

pub const ID_BTN_PLAY: i64 = 1008;

pub const ID_BTN_PAUSE: i64 = 1009;

pub const ID_BTN_NEXT: i64 = 1010;

pub const ID_BTN_RANDOM: i64 = 1011;

pub const ID_SPLIT_LR: i64 = 1013;

pub const ID_SPLIT_LIST_LOG: i64 = 1014;

pub const ID_SPLIT_COVER_TREE: i64 = 1016;

/// A message to the window.
#[derive(Clone, Copy, PartialEq, Eq, Structural)]
pub enum UiMessage {
    Create,
    Size,
    Moved,
    Timer(usize),
    Close,
    Destroy,
    PlaylistUpdate { list: usize, has_songs: bool },
    PlaylistSelect { list: usize, item: i32 },
    TabSync(usize),
    SeekForward(i64),
    SeekBackward(i64),
    NowPlaying { list: usize, item: i32 },
    DrawItem { control: i64, has_item: bool },
    MouseMove { x: i16, y: i16 },
    SetCursor,
    ButtonUp,
    Command(i64),
    /// A slider moved: its window, and how.
    HScroll { control: i64, code: u32 },
    VolumeSync(i32),
    PlayState(bool),
    LogFlush,
    CoverSet(bool),
    CoverClear,
    Notify,
    SizeMoveEnded,
    DeleteTab(usize),
    ChooseTab(usize),
    DeleteItem { list: usize, place: i64 },
    PlayItem { list: usize, place: i64 },
    TreeToPlaylist(i64),
    CopyData,
    Sort { list: usize, mode: i64 },
    ToggleWindow,
    TreeRefresh,
    ShownPlaylist,
    ReloadPlaylist(usize),
    PlayPause,
    SingleMode,
    Other,
}

/// What the numbers of a message of the system stand for.
pub open spec fn system_message_of(msg: u32, wparam: usize, lparam: i64) -> UiMessage {
    if msg == WM_CREATE {
        UiMessage::Create
    } else if msg == WM_SIZE {
        UiMessage::Size
    } else if msg == WM_MOVE {
        UiMessage::Moved
    } else if msg == WM_TIMER {
        UiMessage::Timer(wparam)
    } else if msg == WM_CLOSE {
        UiMessage::Close
    } else if msg == WM_DESTROY {
        UiMessage::Destroy
    } else if msg == WM_DRAWITEM {
        UiMessage::DrawItem { control: wparam as i64, has_item: lparam != 0 }
    } else if msg == WM_MOUSEMOVE {
        UiMessage::MouseMove {
            x: (lparam & 0xffff) as i16,
            y: ((lparam >> 16) & 0xffff) as i16,
        }
    } else if msg == WM_SETCURSOR {
        UiMessage::SetCursor
    } else if msg == WM_LBUTTONUP {
        UiMessage::ButtonUp
    } else if msg == WM_COMMAND {
        UiMessage::Command((wparam & 0xffff) as i64)
    } else if msg == WM_HSCROLL {
        UiMessage::HScroll { control: lparam, code: (wparam & 0xffff) as u32 }
    } else if msg == WM_NOTIFY {
        UiMessage::Notify
    } else if msg == WM_EXITSIZEMOVE {
        UiMessage::SizeMoveEnded
    } else if msg == WM_COPYDATA {
        UiMessage::CopyData
    } else {
        UiMessage::Other
    }
}

/// What the numbers of a message of the player's own stand for.
pub open spec fn own_message_of(msg: u32, wparam: usize, lparam: i64) -> UiMessage {
    if msg == WM_UI_PLAYLIST_UPDATE {
        UiMessage::PlaylistUpdate { list: wparam, has_songs: lparam != 0 }
    } else if msg == WM_UI_PLAYLIST_SELECT {
        UiMessage::PlaylistSelect { list: wparam, item: lparam as i32 }
    } else if msg == WM_UI_TAB_SYNC {
        UiMessage::TabSync(wparam)
    } else if msg == WM_SEEK_FWD {
        UiMessage::SeekForward(lparam)
    } else if msg == WM_SEEK_BWD {
        UiMessage::SeekBackward(lparam)
    } else if msg == WM_UI_NOW_PLAYING {
        UiMessage::NowPlaying { list: wparam, item: lparam as i32 }
    } else if msg == WM_UI_VOLUME_SYNC {
        UiMessage::VolumeSync(wparam as i32)
    } else if msg == WM_UI_PLAY_STATE {
        UiMessage::PlayState(wparam != 0)
    } else if msg == WM_UI_LOG_FLUSH {
        UiMessage::LogFlush
    } else if msg == WM_UI_COVER_SET {
        UiMessage::CoverSet(lparam != 0)
    } else if msg == WM_UI_COVER_CLEAR {
        UiMessage::CoverClear
    } else if msg == WM_UI_DELETE_TAB {
        UiMessage::DeleteTab(wparam)
    } else if msg == WM_UI_CHOOSE_TAB {
        UiMessage::ChooseTab(wparam)
    } else if msg == WM_UI_DELETE_ITEM {
        UiMessage::DeleteItem { list: wparam, place: lparam }
    } else if msg == WM_UI_PLAY_ITEM {
        UiMessage::PlayItem { list: wparam, place: lparam }
    } else if msg == WM_UI_TREE_TO_PLAYLIST {
        UiMessage::TreeToPlaylist(lparam)
    } else if msg == WM_UI_SORT {
        UiMessage::Sort { list: wparam, mode: lparam }
    } else if msg == WM_TOGGLE_WINDOW {
        UiMessage::ToggleWindow
    } else if msg == WM_UI_TREE_REFRESH {
        UiMessage::TreeRefresh
    } else if msg == WM_UI_SHOWN_PLAYLIST {
        UiMessage::ShownPlaylist
    } else if msg == WM_UI_RELOAD_PLAYLIST {
        UiMessage::ReloadPlaylist(wparam)
    } else if msg == WM_UI_PLAY_PAUSE {
        UiMessage::PlayPause
    } else if msg == WM_UI_PLAY_MODE_SINGLE {
        UiMessage::SingleMode
    } else {
        UiMessage::Other
    }
}

/// What the numbers of a message stand for. From `WM_USER` on they are the
/// player's own.
pub open spec fn ui_message_of(msg: u32, wparam: usize, lparam: i64) -> UiMessage {
    if msg < 0x0400 {
        system_message_of(msg, wparam, lparam)
    } else {
        own_message_of(msg, wparam, lparam)
    }
}

fn system_message(msg: u32, wparam: usize, lparam: i64) -> (r: UiMessage)
    ensures
        r == system_message_of(msg, wparam, lparam),
{
    match msg {
        WM_CREATE => UiMessage::Create,
        WM_SIZE => UiMessage::Size,
        WM_MOVE => UiMessage::Moved,
        WM_TIMER => UiMessage::Timer(wparam),
        WM_CLOSE => UiMessage::Close,
        WM_DESTROY => UiMessage::Destroy,
        WM_DRAWITEM => UiMessage::DrawItem { control: wparam as i64, has_item: lparam != 0 },
        WM_MOUSEMOVE => UiMessage::MouseMove {
            x: (lparam & 0xffff) as i16,
            y: ((lparam >> 16) & 0xffff) as i16,
        },
        WM_SETCURSOR => UiMessage::SetCursor,
        WM_LBUTTONUP => UiMessage::ButtonUp,
        WM_COMMAND => UiMessage::Command((wparam & 0xffff) as i64),
        WM_HSCROLL => UiMessage::HScroll { control: lparam, code: (wparam & 0xffff) as u32 },
        WM_NOTIFY => UiMessage::Notify,
        WM_EXITSIZEMOVE => UiMessage::SizeMoveEnded,
        WM_COPYDATA => UiMessage::CopyData,
        _ => UiMessage::Other,
    }
}

fn own_message(msg: u32, wparam: usize, lparam: i64) -> (r: UiMessage)
    ensures
        r == own_message_of(msg, wparam, lparam),
{
    match msg {
        WM_UI_PLAYLIST_UPDATE => UiMessage::PlaylistUpdate { list: wparam, has_songs: lparam != 0 },
        WM_UI_PLAYLIST_SELECT => UiMessage::PlaylistSelect { list: wparam, item: lparam as i32 },
        WM_UI_TAB_SYNC => UiMessage::TabSync(wparam),
        WM_SEEK_FWD => UiMessage::SeekForward(lparam),
        WM_SEEK_BWD => UiMessage::SeekBackward(lparam),
        WM_UI_NOW_PLAYING => UiMessage::NowPlaying { list: wparam, item: lparam as i32 },
        WM_UI_VOLUME_SYNC => UiMessage::VolumeSync(wparam as i32),
        WM_UI_PLAY_STATE => UiMessage::PlayState(wparam != 0),
        WM_UI_LOG_FLUSH => UiMessage::LogFlush,
        WM_UI_COVER_SET => UiMessage::CoverSet(lparam != 0),
        WM_UI_COVER_CLEAR => UiMessage::CoverClear,
        WM_UI_DELETE_TAB => UiMessage::DeleteTab(wparam),
        WM_UI_CHOOSE_TAB => UiMessage::ChooseTab(wparam),
        WM_UI_DELETE_ITEM => UiMessage::DeleteItem { list: wparam, place: lparam },
        WM_UI_PLAY_ITEM => UiMessage::PlayItem { list: wparam, place: lparam },
        WM_UI_TREE_TO_PLAYLIST => UiMessage::TreeToPlaylist(lparam),
        WM_UI_SORT => UiMessage::Sort { list: wparam, mode: lparam },
        WM_TOGGLE_WINDOW => UiMessage::ToggleWindow,
        WM_UI_TREE_REFRESH => UiMessage::TreeRefresh,
        WM_UI_SHOWN_PLAYLIST => UiMessage::ShownPlaylist,
        WM_UI_RELOAD_PLAYLIST => UiMessage::ReloadPlaylist(wparam),
        WM_UI_PLAY_PAUSE => UiMessage::PlayPause,
        WM_UI_PLAY_MODE_SINGLE => UiMessage::SingleMode,
        _ => UiMessage::Other,
    }
}

/// What the numbers of a message stand for.
pub fn ui_message(msg: u32, wparam: usize, lparam: i64) -> (r: UiMessage)
    ensures
        r == ui_message_of(msg, wparam, lparam),
{
    if msg < 0x0400 {
        system_message(msg, wparam, lparam)
    } else {
        own_message(msg, wparam, lparam)
    }
}

/// A cursor that shows how a divider moves.
#[derive(Clone, Copy, PartialEq, Eq, Structural)]
pub enum CursorShape {
    LeftRight,
    UpDown,
}

/// What the window remembers.
#[derive(Clone, Copy, PartialEq, Eq, Structural)]
pub struct UiDesk {
    pub drag: Drag,
    pub mark: PlayingMark,
    /// Whether the progress is drawn as that of a player that plays.
    pub toolbar_playing: bool,
    pub visible: bool,
}

/// What the window does on a message.
#[derive(Clone, Copy, PartialEq, Eq, Structural)]
pub enum UiAction {
    /// Nothing more than to answer.
    Answer(i64),
    /// The system handles the message.
    BySystem,
    Build,
    /// Lays out its parts, and saves its place a moment later.
    Arrange,
    SaveLater,
    SaveNow,
    HideAndClose,
    TearDown,
    ShowSongs(usize),
    SelectSong { list: usize, item: i32 },
    ShowTab(usize),
    /// Draws two songs anew: the one that was marked, and the one that is.
    Redraw { old: Option<PlayingMark>, new: Option<PlayingMark> },
    PaintSplitter,
    DragTo { x: i16, y: i16, cursor: CursorShape },
    ShowCursor(CursorShape),
    EndDrag,
    /// Sends a message to the player, and puts the focus back on the list.
    Post(u32),
    /// Reads the slider; it moved in this way.
    ReadSlider(u32),
    SetSlider(i32),
    RedrawProgress,
    FlushLog,
    ShowCover,
    ClearCover,
    HandleNotice,
    DeleteTab(usize),
    ChooseTab(usize),
    DeleteItem { list: usize, place: usize },
    PlayItem { list: usize, place: usize },
    TreeToPlaylist(i64),
    HandleCopyData,
    Sort { list: usize, mode: i64 },
    ToggleWindow,
    RebuildTree,
    TellShownPlaylist,
    ReloadPlaylist(usize),
    PlayPause,
    /// Saves the play mode of a playlist.
    SaveSingleMode(usize),
}

/// The cursor of a divider that is dragged.
pub open spec fn drag_cursor(drag: Drag) -> Option<CursorShape> {
    match drag {
        Drag::NoDrag => None,
        Drag::LeftRight => Some(CursorShape::LeftRight),
        Drag::ListLog => Some(CursorShape::UpDown),
        Drag::CoverTree => Some(CursorShape::UpDown),
    }
}

fn cursor_of(drag: Drag) -> (r: Option<CursorShape>)
    ensures
        r == drag_cursor(drag),
{
    match drag {
        Drag::NoDrag => None,
        Drag::LeftRight => Some(CursorShape::LeftRight),
        Drag::ListLog => Some(CursorShape::UpDown),
        Drag::CoverTree => Some(CursorShape::UpDown),
    }
}

/// The message that a button sends.
pub open spec fn button_message(control: i64) -> Option<u32> {
    if control == ID_BTN_RESTART {
        Some(WM_RESTART)
    } else if control == ID_BTN_PREV {
        Some(WM_PREV_TRACK)
    } else if control == ID_BTN_PLAY {
        Some(WM_RESUME)
    } else if control == ID_BTN_PAUSE {
        Some(WM_PAUSE)
    } else if control == ID_BTN_NEXT {
        Some(WM_NEXT_TRACK)
    } else if control == ID_BTN_RANDOM {
        Some(WM_RANDOM_NEXT_TRACK)
    } else {
        None
    }
}

fn message_of_button(control: i64) -> (r: Option<u32>)
    ensures
        r == button_message(control),
{
    match control {
        ID_BTN_RESTART => Some(WM_RESTART),
        ID_BTN_PREV => Some(WM_PREV_TRACK),
        ID_BTN_PLAY => Some(WM_RESUME),
        ID_BTN_PAUSE => Some(WM_PAUSE),
        ID_BTN_NEXT => Some(WM_NEXT_TRACK),
        ID_BTN_RANDOM => Some(WM_RANDOM_NEXT_TRACK),
        _ => None,
    }
}

/// What has to be drawn anew when another song is marked.
pub open spec fn redrawn(old: PlayingMark, new: PlayingMark) -> UiAction {
    UiAction::Redraw {
        old: if old.place >= 0 && old != new {
            Some(old)
        } else {
            None
        },
        new: if new.place >= 0 {
            Some(new)
        } else {
            None
        },
    }
}

/// A number between zero and a hundred.
pub open spec fn percent(n: int) -> int {
    if n < 0 {
        0
    } else if n > 100 {
        100
    } else {
        n
    }
}

/// What the window does on a message that leaves what it remembers alone.
/// `slider` is the window of the volume, zero where there is none.
pub open spec fn plain_action(d: UiDesk, slider: i64, message: UiMessage) -> UiAction {
    match message {
        UiMessage::Create => UiAction::Build,
        UiMessage::Size => UiAction::Arrange,
        UiMessage::Moved => UiAction::SaveLater,
        UiMessage::Timer(id) => if id == ID_SAVE_TIMER {
            UiAction::SaveNow
        } else {
            UiAction::Answer(0)
        },
        UiMessage::Destroy => UiAction::TearDown,
        UiMessage::PlaylistUpdate { list, has_songs } => if has_songs {
            UiAction::ShowSongs(list)
        } else {
            UiAction::Answer(0)
        },
        UiMessage::PlaylistSelect { list, item } => UiAction::SelectSong { list, item },
        UiMessage::TabSync(list) => UiAction::ShowTab(list),
        UiMessage::DrawItem { control, has_item } => if has_item && (control == ID_SPLIT_LR
            || control == ID_SPLIT_LIST_LOG || control == ID_SPLIT_COVER_TREE) {
            UiAction::PaintSplitter
        } else {
            UiAction::Answer(0)
        },
        UiMessage::MouseMove { x, y } => match drag_cursor(d.drag) {
            Some(cursor) => UiAction::DragTo { x, y, cursor },
            None => UiAction::BySystem,
        },
        UiMessage::SetCursor => match drag_cursor(d.drag) {
            Some(cursor) => UiAction::ShowCursor(cursor),
            None => UiAction::BySystem,
        },
        UiMessage::Command(control) => match button_message(control) {
            Some(m) => UiAction::Post(m),
            None => UiAction::BySystem,
        },
        UiMessage::HScroll { control, code } => if control == slider && slider != 0 {
            UiAction::ReadSlider(code)
        } else {
            UiAction::BySystem
        },
        UiMessage::VolumeSync(n) => if slider != 0 {
            UiAction::SetSlider(percent(n as int) as i32)
        } else {
            UiAction::Answer(0)
        },
        UiMessage::LogFlush => UiAction::FlushLog,
        UiMessage::CoverSet(has_cover) => if has_cover {
            UiAction::ShowCover
        } else {
            UiAction::Answer(0)
        },
        UiMessage::CoverClear => UiAction::ClearCover,
        UiMessage::Notify => UiAction::HandleNotice,
        UiMessage::SizeMoveEnded => UiAction::SaveNow,
        UiMessage::DeleteTab(i) => UiAction::DeleteTab(i),
        UiMessage::ChooseTab(i) => UiAction::ChooseTab(i),
        UiMessage::DeleteItem { list, place } => if place < 0 {
            UiAction::Answer(0)
        } else {
            UiAction::DeleteItem { list, place: place as usize }
        },
        UiMessage::PlayItem { list, place } => if place < 0 {
            UiAction::Answer(0)
        } else {
            UiAction::PlayItem { list, place: place as usize }
        },
        UiMessage::TreeToPlaylist(item) => if item != 0 {
            UiAction::TreeToPlaylist(item)
        } else {
            UiAction::Answer(0)
        },
        UiMessage::CopyData => UiAction::HandleCopyData,
        UiMessage::Sort { list, mode } => UiAction::Sort { list, mode },
        UiMessage::ToggleWindow => UiAction::ToggleWindow,
        UiMessage::TreeRefresh => UiAction::RebuildTree,
        UiMessage::ShownPlaylist => UiAction::TellShownPlaylist,
        UiMessage::ReloadPlaylist(list) => UiAction::ReloadPlaylist(list),
        UiMessage::PlayPause => UiAction::PlayPause,
        _ => UiAction::BySystem,
    }
}

/// The window and the controls after a message, and what the window does on it.
pub open spec fn ui_handled(d: UiDesk, c: Controls, slider: i64, message: UiMessage) -> (
    UiDesk,
    Controls,
    UiAction,
) {
    match message {
        UiMessage::Close => (UiDesk { visible: false, ..d }, c, UiAction::HideAndClose),
        UiMessage::SeekForward(n) => (
            d,
            Controls { to_seek: c.to_seek.wrapping_add(skip_seconds(n)), ..c },
            UiAction::Answer(0),
        ),
        UiMessage::SeekBackward(n) => (
            d,
            Controls { to_seek: c.to_seek.wrapping_sub(skip_seconds(n)), ..c },
            UiAction::Answer(0),
        ),
        UiMessage::NowPlaying { list, item } => {
            let mark = PlayingMark { list_id: list, place: item };
            (UiDesk { mark, ..d }, c, redrawn(d.mark, mark))
        },
        UiMessage::ButtonUp => if d.drag == Drag::NoDrag {
            (d, c, UiAction::BySystem)
        } else {
            (UiDesk { drag: Drag::NoDrag, ..d }, c, UiAction::EndDrag)
        },
        UiMessage::PlayState(playing) => (
            UiDesk { toolbar_playing: playing, ..d },
            c,
            if playing != d.toolbar_playing {
                UiAction::RedrawProgress
            } else {
                UiAction::Answer(0)
            },
        ),
        UiMessage::SingleMode => if c.list_id != 0 && c.play_mode != 0 {
            (d, Controls { play_mode: 0, ..c }, UiAction::SaveSingleMode(c.list_id))
        } else {
            (d, c, UiAction::Answer(0))
        },
        _ => (d, c, plain_action(d, slider, message)),
    }
}

fn plainly(d: &UiDesk, slider: i64, message: UiMessage) -> (r: UiAction)
    ensures
        r == plain_action(*d, slider, message),
{
    match message {
        UiMessage::Create => UiAction::Build,
        UiMessage::Size => UiAction::Arrange,
        UiMessage::Moved => UiAction::SaveLater,
        UiMessage::Timer(id) => if id == ID_SAVE_TIMER {
            UiAction::SaveNow
        } else {
            UiAction::Answer(0)
        },
        UiMessage::Destroy => UiAction::TearDown,
        UiMessage::PlaylistUpdate { list, has_songs } => if has_songs {
            UiAction::ShowSongs(list)
        } else {
            UiAction::Answer(0)
        },
        UiMessage::PlaylistSelect { list, item } => UiAction::SelectSong { list, item },
        UiMessage::TabSync(list) => UiAction::ShowTab(list),
        UiMessage::DrawItem { control, has_item } => if has_item && (control == ID_SPLIT_LR
            || control == ID_SPLIT_LIST_LOG || control == ID_SPLIT_COVER_TREE) {
            UiAction::PaintSplitter
        } else {
            UiAction::Answer(0)
        },
        UiMessage::MouseMove { x, y } => match cursor_of(d.drag) {
            Some(cursor) => UiAction::DragTo { x, y, cursor },
            None => UiAction::BySystem,
        },
        UiMessage::SetCursor => match cursor_of(d.drag) {
            Some(cursor) => UiAction::ShowCursor(cursor),
            None => UiAction::BySystem,
        },
        UiMessage::Command(control) => match message_of_button(control) {
            Some(m) => UiAction::Post(m),
            None => UiAction::BySystem,
        },
        UiMessage::HScroll { control, code } => if control == slider && slider != 0 {
            UiAction::ReadSlider(code)
        } else {
            UiAction::BySystem
        },
        UiMessage::VolumeSync(n) => if slider != 0 {
            UiAction::SetSlider(
                if n < 0 {
                    0
                } else if n > 100 {
                    100
                } else {
                    n
                },
            )
        } else {
            UiAction::Answer(0)
        },
        UiMessage::LogFlush => UiAction::FlushLog,
        UiMessage::CoverSet(has_cover) => if has_cover {
            UiAction::ShowCover
        } else {
            UiAction::Answer(0)
        },
        UiMessage::CoverClear => UiAction::ClearCover,
        UiMessage::Notify => UiAction::HandleNotice,
        UiMessage::SizeMoveEnded => UiAction::SaveNow,
        UiMessage::DeleteTab(i) => UiAction::DeleteTab(i),
        UiMessage::ChooseTab(i) => UiAction::ChooseTab(i),
        UiMessage::DeleteItem { list, place } => if place < 0 {
            UiAction::Answer(0)
        } else {
            UiAction::DeleteItem { list, place: place as usize }
        },
        UiMessage::PlayItem { list, place } => if place < 0 {
            UiAction::Answer(0)
        } else {
            UiAction::PlayItem { list, place: place as usize }
        },
        UiMessage::TreeToPlaylist(item) => if item != 0 {
            UiAction::TreeToPlaylist(item)
        } else {
            UiAction::Answer(0)
        },
        UiMessage::CopyData => UiAction::HandleCopyData,
        UiMessage::Sort { list, mode } => UiAction::Sort { list, mode },
        UiMessage::ToggleWindow => UiAction::ToggleWindow,
        UiMessage::TreeRefresh => UiAction::RebuildTree,
        UiMessage::ShownPlaylist => UiAction::TellShownPlaylist,
        UiMessage::ReloadPlaylist(list) => UiAction::ReloadPlaylist(list),
        UiMessage::PlayPause => UiAction::PlayPause,
        _ => UiAction::BySystem,
    }
}

impl UiDesk {
    /// Handles a message. `slider` is the window of the volume.
    pub fn handle(&mut self, controls: &mut PlayerControls, slider: i64, message: UiMessage) -> (r:
        UiAction)
        ensures
            (*final(self), final(controls)@, r) == ui_handled(
                *old(self),
                old(controls)@,
                slider,
                message,
            ),
    {
        match message {
            UiMessage::Close => {
                self.visible = false;
                UiAction::HideAndClose
            },
            UiMessage::SeekForward(n) => {
                controls.to_seek = controls.to_seek.wrapping_add(seconds_of(n));
                UiAction::Answer(0)
            },
            UiMessage::SeekBackward(n) => {
                controls.to_seek = controls.to_seek.wrapping_sub(seconds_of(n));
                UiAction::Answer(0)
            },
            UiMessage::NowPlaying { list, item } => {
                let old_mark: PlayingMark = self.mark;
                let mark = PlayingMark { list_id: list, place: item };
                self.mark = mark;
                UiAction::Redraw {
                    old: if old_mark.place >= 0 && old_mark != mark {
                        Some(old_mark)
                    } else {
                        None
                    },
                    new: if item >= 0 {
                        Some(mark)
                    } else {
                        None
                    },
                }
            },
            UiMessage::ButtonUp => {
                if self.drag == Drag::NoDrag {
                    UiAction::BySystem
                } else {
                    self.drag = Drag::NoDrag;
                    UiAction::EndDrag
                }
            },
            UiMessage::PlayState(playing) => {
                let changed: bool = playing != self.toolbar_playing;
                self.toolbar_playing = playing;
                if changed {
                    UiAction::RedrawProgress
                } else {
                    UiAction::Answer(0)
                }
            },
            UiMessage::SingleMode => {
                if controls.list_id != 0 && controls.play_mode != 0 {
                    controls.play_mode = 0;
                    UiAction::SaveSingleMode(controls.list_id)
                } else {
                    UiAction::Answer(0)
                }
            },
            _ => plainly(self, slider, message),
        }
    }

    /// Starts to drag a divider on a press of the button, and shows how it moves.
    /// `None` leaves the message to the system.
    pub fn splitter(&mut self, drag: Drag, msg: u32) -> (r: Option<(i64, CursorShape)>)
        requires
            drag != Drag::NoDrag,
        ensures
            *final(self) == (if msg == WM_LBUTTONDOWN {
                UiDesk { drag, ..*old(self) }
            } else {
                *old(self)
            }),
            r is Some <==> msg == WM_LBUTTONDOWN || msg == WM_SETCURSOR,
            r matches Some((answer, cursor)) ==> answer == (if msg == WM_LBUTTONDOWN {
                0int
            } else {
                1
            }) && Some(cursor) == drag_cursor(drag),
    {
        let cursor: CursorShape = match drag {
            Drag::LeftRight => CursorShape::LeftRight,
            _ => CursorShape::UpDown,
        };
        if msg == WM_LBUTTONDOWN {
            self.drag = drag;
            Some((0, cursor))
        } else if msg == WM_SETCURSOR {
            Some((1, cursor))
        } else {
            None
        }
    }
}

/// The way in which a slider moves last.
pub const TB_ENDTRACK: u32 = 8;

/// Takes over the volume from the slider. The result is the volume to be saved,
/// once the slider has come to rest at another place.
pub fn volume_moved(controls: &mut PlayerControls, position: i32, code: u32) -> (r: Option<u32>)
    ensures
        final(controls)@ == (Controls { to_volume: percent(position as int) as u32, ..old(controls)@ }),
        r == (if code == TB_ENDTRACK && old(controls).to_volume != percent(position as int) {
            Some(percent(position as int) as u32)
        } else {
            None
        }),
{
    let volume: u32 = if position < 0 {
        0
    } else if position > 100 {
        100
    } else {
        position as u32
    };
    let before: u32 = controls.to_volume;
    controls.to_volume = volume;
    if code == TB_ENDTRACK && before != volume {
        Some(volume)
    } else {
        None
    }
}

/// What a notice of a part of the window is about.
#[derive(Clone, Copy, PartialEq, Eq, Structural)]
pub enum NoticeKind {
    TabChanged,
    /// An item of the tree opens or closes.
    TreeExpands,
    ColumnSized,
    Draws,
    NeedsText,
    ColumnClicked,
    DoubleClicked,
    Other,
}

pub const TCN_SELCHANGE: i32 = -551;

pub const TVN_ITEMEXPANDINGW: i32 = -454;

pub const HDN_ENDTRACKA: i32 = -307;

pub const HDN_ENDTRACKW: i32 = -327;

pub const NM_CUSTOMDRAW: i32 = -12;

pub const NM_DBLCLK: i32 = -3;

pub const LVN_GETDISPINFOW: i32 = -177;

pub const LVN_COLUMNCLICK: i32 = -108;

/// What an item of the tree does where it opens.
pub const TVE_EXPAND: u32 = 0x0002;

/// The directory whose entries are put into the tree where one of its items moves: that
/// of an item which opens, and whose entries are not there yet but for the one that
/// stands for them. `parts` are the names on the way to it.
pub open spec fn dir_to_load(
    tree: i64,
    action: u32,
    item: i64,
    first_child: i64,
    child_stands_in: bool,
    parts: Seq<Seq<char>>,
) -> Option<Seq<char>> {
    if tree != 0 && action == TVE_EXPAND && item != 0 && first_child != 0 && child_stands_in
        && parts.len() > 0 {
        Some(joined_by(parts, '\\'))
    } else {
        None
    }
}

/// The directory whose entries are put into the tree where one of its items moves;
/// `None` where none are.
pub fn ui_tree_on_item_expanding(
    tree: i64,
    action: u32,
    item: i64,
    first_child: i64,
    child_stands_in: bool,
    parts: &Vec<String>,
) -> (r: Option<String>)
    ensures
        r is Some <==> dir_to_load(
            tree,
            action,
            item,
            first_child,
            child_stands_in,
            text_views(parts@),
        ) is Some,
        r matches Some(dir) ==> dir_to_load(
            tree,
            action,
            item,
            first_child,
            child_stands_in,
            text_views(parts@),
        ) == Some(dir@),
{
    if tree == 0 || action != TVE_EXPAND || item == 0 || first_child == 0 || !child_stands_in
        || parts.len() == 0 {
        return None;
    }
    Some(join(parts, '\\'))
}

/// What the numbers of a notice stand for.
pub fn notice_kind(id_from: usize, code: i32) -> (r: NoticeKind)
    ensures
        r == (if id_from == ID_TAB && code == TCN_SELCHANGE {
            NoticeKind::TabChanged
        } else if id_from == ID_TREEVIEW && code == TVN_ITEMEXPANDINGW {
            NoticeKind::TreeExpands
        } else if code == HDN_ENDTRACKW || code == HDN_ENDTRACKA {
            NoticeKind::ColumnSized
        } else if code == NM_CUSTOMDRAW {
            NoticeKind::Draws
        } else if code == LVN_GETDISPINFOW {
            NoticeKind::NeedsText
        } else if code == LVN_COLUMNCLICK {
            NoticeKind::ColumnClicked
        } else if code == NM_DBLCLK {
            NoticeKind::DoubleClicked
        } else {
            NoticeKind::Other
        }),
{
    if id_from == ID_TAB && code == TCN_SELCHANGE {
        NoticeKind::TabChanged
    } else if id_from == ID_TREEVIEW && code == TVN_ITEMEXPANDINGW {
        NoticeKind::TreeExpands
    } else if code == HDN_ENDTRACKW || code == HDN_ENDTRACKA {
        NoticeKind::ColumnSized
    } else if code == NM_CUSTOMDRAW {
        NoticeKind::Draws
    } else if code == LVN_GETDISPINFOW {
        NoticeKind::NeedsText
    } else if code == LVN_COLUMNCLICK {
        NoticeKind::ColumnClicked
    } else if code == NM_DBLCLK {
        NoticeKind::DoubleClicked
    } else {
        NoticeKind::Other
    }
}

pub const CDDS_PREPAINT: u32 = 0x0000_0001;

pub const CDDS_ITEMPREPAINT: u32 = 0x0001_0001;

/// The stage at which a cell of an item is drawn.
pub const CDDS_SUBITEM_PREPAINT: u32 = 0x0003_0001;

pub const CDRF_NEWFONT: i64 = 0x02;

pub const CDRF_NOTIFYITEMDRAW: i64 = 0x20;

/// The answer to a stage of drawing a list, and whether the cell gets the colours
/// of the song that plays. `list` is the playlist that the list shows.
pub open spec fn draw_answer(stage: u32, list: Option<usize>, item: int, mark: PlayingMark) -> (
    i64,
    bool,
) {
    let marked = list == Some(mark.list_id) && mark.place >= 0 && item == mark.place;
    if list is None {
        (0, false)
    } else if stage == CDDS_PREPAINT {
        (CDRF_NOTIFYITEMDRAW, false)
    } else if stage == CDDS_ITEMPREPAINT {
        (
            if marked {
                CDRF_NOTIFYITEMDRAW
            } else {
                0
            },
            false,
        )
    } else if stage == CDDS_SUBITEM_PREPAINT && marked {
        (CDRF_NEWFONT, true)
    } else {
        (0, false)
    }
}

/// The answer to a stage of drawing a list.
pub fn draw_reply(stage: u32, list: Option<usize>, item: i32, mark: PlayingMark) -> (r: (i64, bool))
    ensures
        r == draw_answer(stage, list, item as int, mark),
{
    let marked: bool = match list {
        Some(id) => id == mark.list_id && mark.place >= 0 && item == mark.place,
        None => return (0, false),
    };
    if stage == CDDS_PREPAINT {
        (CDRF_NOTIFYITEMDRAW, false)
    } else if stage == CDDS_ITEMPREPAINT {
        (
            if marked {
                CDRF_NOTIFYITEMDRAW
            } else {
                0
            },
            false,
        )
    } else if stage == CDDS_SUBITEM_PREPAINT && marked {
        (CDRF_NEWFONT, true)
    } else {
        (0, false)
    }
}

/// Only the song that plays is drawn in its own colours.
pub proof fn law_only_the_playing_song_is_marked(
    stage: u32,
    list: Option<usize>,
    item: int,
    mark: PlayingMark,
)
    ensures
        draw_answer(stage, list, item, mark).1 ==> list == Some(mark.list_id) && item == mark.place,
{
}

/// Whether a part of the window could not be made: one of the parts, or the list
/// of a playlist, or there is no playlist at all.
pub fn window_is_incomplete(parts: &Vec<i64>, lists: &Vec<i64>) -> (r: bool)
    ensures
        r == (lists@.len() == 0 || parts@.contains(0) || lists@.contains(0)),
{
    if lists.len() == 0 {
        return true;
    }
    has_zero(parts) || has_zero(lists)
}

fn has_zero(handles: &Vec<i64>) -> (r: bool)
    ensures
        r == handles@.contains(0),
{
    let mut i: usize = 0;
    while i < handles.len()
        invariant
            i <= handles@.len(),
            forall|k: int| 0 <= k < i ==> #[trigger] handles@[k] != 0,
        decreases handles@.len() - i,
    {
        if handles[i] == 0 {
            return true;
        }
        i += 1;
    }
    false
}

/// Where a click on the progress seeks to, and what else it sets. `seek_ms` is
/// the position under the pointer.
pub struct SeekClick {
    /// The place of the bar, in thousandths.
    pub bar: u32,
    /// How many samples count as played from now on, where that can be told.
    pub samples: Option<u64>,
    /// Whether the decoder seeks at once: while playing is held back nobody else
    /// passes the request on.
    pub at_once: bool,
}

/// The samples up to a position that was clicked, where the track tells its rate.
pub open spec fn clicked_samples(seek_ms: int, sample_rate: int, channels: int) -> Option<u64> {
    if sample_rate > 0 && channels > 0 {
        Some((seek_ms * sample_rate * channels / 1000) as u64)
    } else {
        None
    }
}

/// What a click on the progress sets; nothing while the length is not known.
pub fn seek_click(
    seek_ms: u64,
    total_ms: u64,
    sample_rate: u64,
    channels: u64,
    paused: bool,
) -> (r: Option<SeekClick>)
    requires
        seek_ms * 1000 <= u64::MAX,
        seek_ms * sample_rate <= u64::MAX,
        seek_ms * sample_rate * channels <= u64::MAX,
    ensures
        r is Some <==> total_ms > 0,
        r matches Some(click) ==> {
            &&& click.bar == crate::player_messages::bar_place(seek_ms as int, total_ms as int)
            &&& click.at_once == paused
            &&& click.samples == clicked_samples(
                seek_ms as int,
                sample_rate as int,
                channels as int,
            )
        },
{
    if total_ms == 0 {
        return None;
    }
    let samples: Option<u64> = if sample_rate > 0 && channels > 0 {
        Some(seek_ms * sample_rate * channels / 1000)
    } else {
        None
    };
    Some(
        SeekClick {
            bar: crate::player_messages::progress_bar(seek_ms, total_ms),
            samples,
            at_once: paused,
        },
    )
}

/// The height of the bar that shows the progress.
pub const PROGRESS_HEIGHT: i32 = 12;

/// The bar that shows the progress, in an area of the given size: its top and its
/// height, and the width of the part that is filled.
pub fn progress_bar_area(width: i32, height: i32, position: i32) -> (r: (i32, i32, i32))
    requires
        0 <= width,
        0 <= height,
    ensures
        r.1 == (if height < PROGRESS_HEIGHT {
            height
        } else {
            PROGRESS_HEIGHT
        }),
        r.0 == (height - r.1) / 2,
        r.2 == width * (if position < 0 {
            0
        } else if position > 1000 {
            1000
        } else {
            position as int
        }) / 1000,
        0 <= r.0 && r.0 + r.1 <= height,
        0 <= r.2 <= width,
{
    let bar_h: i32 = if height < PROGRESS_HEIGHT {
        height
    } else {
        PROGRESS_HEIGHT
    };
    let place: i64 = if position < 0 {
        0
    } else if position > 1000 {
        1000
    } else {
        position as i64
    };
    assert(0 <= width * place <= width * 1000) by (nonlinear_arith)
        requires
            0 <= width,
            0 <= place <= 1000,
    ;
    let fill: i64 = width as i64 * place / 1000;
    ((height - bar_h) / 2, bar_h, fill as i32)
}

/// What a message to the main window does.
pub open spec fn ui_told(
    d: UiDesk,
    c: Controls,
    slider: i64,
    msg: u32,
    wparam: usize,
    lparam: i64,
) -> (UiDesk, Controls, UiAction) {
    ui_handled(d, c, slider, ui_message_of(msg, wparam, lparam))
}

/// A button of the window sends the player the message that it stands for, and changes
/// nothing itself.
pub proof fn law_buttons_send_their_messages(d: UiDesk, c: Controls, slider: i64)
    ensures
        ui_handled(d, c, slider, UiMessage::Command(1003)) == (d, c, UiAction::Post(WM_RESTART)),
        ui_handled(d, c, slider, UiMessage::Command(1007)) == (d, c, UiAction::Post(WM_PREV_TRACK)),
        ui_handled(d, c, slider, UiMessage::Command(1008)) == (d, c, UiAction::Post(WM_RESUME)),
        ui_handled(d, c, slider, UiMessage::Command(1009)) == (d, c, UiAction::Post(WM_PAUSE)),
        ui_handled(d, c, slider, UiMessage::Command(1010)) == (d, c, UiAction::Post(WM_NEXT_TRACK)),
        ui_handled(d, c, slider, UiMessage::Command(1011)) == (
            d,
            c,
            UiAction::Post(WM_RANDOM_NEXT_TRACK),
        ),
        forall|control: i64|
            control != 1003 && !(1007 <= control <= 1011) ==> (#[trigger] button_message(control)) is None,
{
}

/// A skip that is asked for in the window moves the player as one that is asked for outside:
/// forwards and backwards by the same seconds.
pub proof fn law_window_skips_undo_each_other(d: UiDesk, c: Controls, slider: i64, seconds: i64)
    requires
        0 < seconds <= 100,
        -1000000 <= c.to_seek <= 1000000,
    ensures
        ({
            let (_, ahead, _) = ui_told(d, c, slider, 0x0403, 0, seconds);
            let (_, back, _) = ui_told(d, c, slider, 0x0404, 0, seconds);
            &&& ahead == Controls { to_seek: (c.to_seek + seconds) as i32, ..c }
            &&& back == Controls { to_seek: (c.to_seek - seconds) as i32, ..c }
            &&& ui_told(d, ahead, slider, 0x0404, 0, seconds).1 == c
        }),
{
}

/// A song that starts to play gets the mark: the song that had it is drawn again, unless it
/// is the same one, and so is the new one.
pub proof fn law_mark_moves_to_the_playing_song(
    d: UiDesk,
    c: Controls,
    slider: i64,
    list: usize,
    item: i32,
)
    requires
        item >= 0,
    ensures
        ({
            let (after, controls, action) = ui_told(d, c, slider, 0x04cc, list, item as i64);
            let mark = PlayingMark { list_id: list, place: item };
            &&& after.mark == mark && controls == c
            &&& after.drag == d.drag && after.visible == d.visible && after.toolbar_playing
                == d.toolbar_playing
            &&& action is Redraw && action->new == Some(mark)
            &&& d.mark.place >= 0 && d.mark != mark ==> action->old == Some(d.mark)
            &&& d.mark == mark ==> action->old is None
        }),
{
}

/// A splitter that is dragged follows the mouse until the button comes up; without one the
/// mouse is left to the system.
pub proof fn law_drag_lasts_until_the_button_is_up(
    d: UiDesk,
    c: Controls,
    slider: i64,
    x: i16,
    y: i16,
)
    ensures
        ({
            let (after, controls, action) = ui_handled(d, c, slider, UiMessage::MouseMove { x, y });
            &&& after == d && controls == c
            &&& d.drag == Drag::NoDrag ==> action == UiAction::BySystem
            &&& d.drag == Drag::LeftRight ==> action == UiAction::DragTo {
                x,
                y,
                cursor: CursorShape::LeftRight,
            }
            &&& d.drag == Drag::ListLog || d.drag == Drag::CoverTree ==> action == UiAction::DragTo {
                x,
                y,
                cursor: CursorShape::UpDown,
            }
        }),
        ({
            let (after, controls, action) = ui_handled(d, c, slider, UiMessage::ButtonUp);
            &&& after.drag == Drag::NoDrag && controls == c
            &&& action == (if d.drag == Drag::NoDrag {
                UiAction::BySystem
            } else {
                UiAction::EndDrag
            })
        }),
{
}

/// The volume of the slider is a share of a hundred.
pub proof fn law_slider_is_a_share_of_a_hundred(d: UiDesk, c: Controls, slider: i64, n: i32)
    requires
        slider != 0,
    ensures
        0 <= percent(n as int) <= 100,
        0 <= n <= 100 ==> percent(n as int) == n,
        n < 0 ==> percent(n as int) == 0,
        n > 100 ==> percent(n as int) == 100,
        ui_handled(d, c, slider, UiMessage::VolumeSync(n)) == (
            d,
            c,
            UiAction::SetSlider(percent(n as int) as i32),
        ),
{
}

/// What others ask of the window by its messages: to show, play and delete the songs and
/// tabs that they name.
pub proof fn law_named_songs_and_tabs(
    d: UiDesk,
    c: Controls,
    slider: i64,
    list: usize,
    place: i64,
)
    requires
        0 <= place <= 0x7fff_ffff,
    ensures
        ui_told(d, c, slider, 40003, list, place) == (
            d,
            c,
            UiAction::DeleteItem { list, place: place as usize },
        ),
        ui_told(d, c, slider, 40004, list, place) == (
            d,
            c,
            UiAction::PlayItem { list, place: place as usize },
        ),
        ui_told(d, c, slider, 40000, list, place) == (d, c, UiAction::DeleteTab(list)),
        ui_told(d, c, slider, 40001, list, place) == (d, c, UiAction::ChooseTab(list)),
        ui_told(d, c, slider, 40007, list, place) == (d, c, UiAction::Sort { list, mode: place }),
        ui_told(d, c, slider, 40009, list, place) == (d, c, UiAction::ReloadPlaylist(list)),
        ui_told(d, c, slider, 0x04cb, list, place) == (
            d,
            c,
            UiAction::SelectSong { list, item: place as i32 },
        ),
        ui_told(d, c, slider, 0x04cd, list, place) == (d, c, UiAction::ShowTab(list)),
{
}

/// A place before the first one is no place: nothing is played or deleted.
pub proof fn law_no_place_no_song(d: UiDesk, c: Controls, slider: i64, list: usize, place: i64)
    requires
        place < 0,
    ensures
        ui_told(d, c, slider, 40003, list, place) == (d, c, UiAction::Answer(0)),
        ui_told(d, c, slider, 40004, list, place) == (d, c, UiAction::Answer(0)),
{
}

/// The mode of one song over and over is set for a list that is there and has another mode.
pub proof fn law_single_mode_is_set(d: UiDesk, c: Controls, slider: i64)
    ensures
        ({
            let (after, controls, action) = ui_told(d, c, slider, 40012, 0, 0);
            &&& after == d
            &&& c.list_id != 0 && c.play_mode != 0 ==> controls == Controls { play_mode: 0, ..c }
                && action == UiAction::SaveSingleMode(c.list_id)
            &&& c.list_id == 0 || c.play_mode == 0 ==> controls == c
        }),
{
}

/// A window that closes is hidden, and one that was moved or sized is saved.
pub proof fn law_window_is_saved(d: UiDesk, c: Controls, slider: i64)
    ensures
        !ui_told(d, c, slider, 0x0010, 0, 0).0.visible,
        ui_told(d, c, slider, 0x0010, 0, 0).2 == UiAction::HideAndClose,
        ui_told(d, c, slider, 0x0003, 0, 0).2 == UiAction::SaveLater,
        ui_told(d, c, slider, 0x0232, 0, 0).2 == UiAction::SaveNow,
        ui_told(d, c, slider, 0x0113, 999, 0).2 == UiAction::SaveNow,
        ui_told(d, c, slider, 0x0005, 0, 0).2 == UiAction::Arrange,
{
}

/// The song that plays is drawn in a font of its own, once its row asks for its cells.
pub proof fn law_playing_song_is_drawn_in_its_own_font(list: usize, item: int, mark: PlayingMark)
    ensures
        draw_answer(1, Some(list), item, mark) == (0x20i64, false),
        list == mark.list_id && item == mark.place && item >= 0 ==> draw_answer(
            0x1_0001,
            Some(list),
            item,
            mark,
        ) == (0x20i64, false) && draw_answer(0x3_0001, Some(list), item, mark) == (0x02i64, true),
        list != mark.list_id || item != mark.place ==> draw_answer(
            0x1_0001,
            Some(list),
            item,
            mark,
        ) == (0i64, false) && draw_answer(0x3_0001, Some(list), item, mark) == (0i64, false),
{
}

/// A directory of the tree is loaded when it is opened for the first time, and is named by
/// the names on the way to it, parted by backslashes.
pub proof fn law_opened_directory_is_loaded(tree: i64, item: i64, child: i64, parts: Seq<Seq<char>>)
    requires
        tree != 0,
        item != 0,
        child != 0,
        parts.len() > 0,
    ensures
        dir_to_load(tree, 2, item, child, true, parts) is Some,
        dir_to_load(tree, 1, item, child, true, parts) is None,
        dir_to_load(tree, 2, item, child, false, parts) is None,
        parts.len() == 1 ==> dir_to_load(tree, 2, item, child, true, parts) == Some(parts[0]),
        forall|name: Seq<char>|
            #![trigger parts.push(name)]
            dir_to_load(tree, 2, item, child, true, parts.push(name)) == Some(
                dir_to_load(tree, 2, item, child, true, parts)->0 + seq!['\\'] + name,
            ),
{
    assert forall|name: Seq<char>|
        #![trigger parts.push(name)]
        dir_to_load(tree, 2, item, child, true, parts.push(name)) == Some(
            dir_to_load(tree, 2, item, child, true, parts)->0 + seq!['\\'] + name,
        ) by {
        assert(parts.push(name).drop_last() =~= parts);
        assert(joined_by(parts.push(name), '\\') =~= joined_by(parts, '\\') + seq!['\\'] + name);
    }
}

/// What else the window does for its messages: it builds itself, shows songs, covers and log
/// lines, follows the tree, and asks the player to play or pause.
pub proof fn law_window_follows_its_messages(
    d: UiDesk,
    c: Controls,
    slider: i64,
    wparam: usize,
    lparam: i64,
)
    requires
        lparam != 0,
    ensures
        ui_told(d, c, slider, 0x0001, wparam, lparam) == (d, c, UiAction::Build),
        ui_told(d, c, slider, 0x0002, wparam, lparam) == (d, c, UiAction::TearDown),
        ui_told(d, c, slider, 0x04ca, wparam, lparam) == (d, c, UiAction::ShowSongs(wparam)),
        ui_told(d, c, slider, 0x04d1, wparam, lparam) == (d, c, UiAction::FlushLog),
        ui_told(d, c, slider, 40011, wparam, lparam) == (d, c, UiAction::ShowCover),
        ui_told(d, c, slider, 40011, wparam, 0) == (d, c, UiAction::Answer(0)),
        ui_told(d, c, slider, 0x04d2, wparam, lparam) == (d, c, UiAction::ClearCover),
        ui_told(d, c, slider, 0x004e, wparam, lparam) == (d, c, UiAction::HandleNotice),
        ui_told(d, c, slider, 0x004a, wparam, lparam) == (d, c, UiAction::HandleCopyData),
        ui_told(d, c, slider, 40005, wparam, lparam) == (d, c, UiAction::TreeToPlaylist(lparam)),
        ui_told(d, c, slider, 40006, wparam, lparam) == (d, c, UiAction::RebuildTree),
        ui_told(d, c, slider, 40008, wparam, lparam) == (d, c, UiAction::TellShownPlaylist),
        ui_told(d, c, slider, 40010, wparam, lparam) == (d, c, UiAction::PlayPause),
        ui_told(d, c, slider, 0x0410, wparam, lparam) == (d, c, UiAction::ToggleWindow),
        lparam == slider ==> ui_told(d, c, slider, 0x0114, 8, lparam) == (
            d,
            c,
            UiAction::ReadSlider(8),
        ),
        lparam != slider ==> ui_told(d, c, slider, 0x0114, 8, lparam).2 == UiAction::BySystem,
        ui_told(d, c, slider, 0x0399, wparam, lparam) == (d, c, UiAction::BySystem),
{
    assert(8usize & 0xffff == 8) by (bit_vector);
}

/// The window shows whether the player plays, and draws that anew where it changed.
pub proof fn law_window_shows_whether_it_plays(d: UiDesk, c: Controls, slider: i64, playing: bool)
    ensures
        ({
            let (after, controls, action) = ui_handled(d, c, slider, UiMessage::PlayState(playing));
            &&& after == UiDesk { toolbar_playing: playing, ..d } && controls == c
            &&& playing != d.toolbar_playing ==> action == UiAction::RedrawProgress
            &&& playing == d.toolbar_playing ==> action == UiAction::Answer(0)
        }),
        ui_told(d, c, slider, 0x04d0, 1, 0) == ui_handled(d, c, slider, UiMessage::PlayState(true)),
        ui_told(d, c, slider, 0x04d0, 0, 0) == ui_handled(d, c, slider, UiMessage::PlayState(false)),
{
}

/// The samples up to a click are those of its milliseconds, and not one of the next.
pub proof fn law_click_counts_the_samples_up_to_it(seek_ms: int, sample_rate: int, channels: int)
    requires
        0 <= seek_ms,
        0 < sample_rate,
        0 < channels,
        seek_ms * sample_rate * channels <= u64::MAX,
    ensures
        clicked_samples(seek_ms, sample_rate, channels) is Some,
        clicked_samples(seek_ms, sample_rate, channels)->0 * 1000 <= seek_ms * sample_rate
            * channels,
        seek_ms * sample_rate * channels < (clicked_samples(seek_ms, sample_rate, channels)->0 + 1)
            * 1000,
{
    assert(seek_ms * sample_rate * channels >= 0) by (nonlinear_arith)
        requires
            seek_ms >= 0,
            sample_rate > 0,
            channels > 0,
    ;
}

} // verus!
