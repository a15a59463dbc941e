//! What the player keeps of a session, and what the next one takes up of it.

use crate::path::{normalize_path_key, path_key};
use crate::playback::{current_position_ms, position_ms};
use crate::player_state::{Controls, PlayerControls, PlayerState};
use crate::playlist_store::{
    item_views, load_playlist_items, songs_of, stored_size, ItemRow, PLAYLIST_ID_USER,
};
use crate::playlist::PendingTracks;
use crate::song::{find_by_key, first_with_key, law_first_with_key, song_views, Song, SongInfo};
use crate::tabs::{tab_choice, tab_choice_of, PlaylistView, TabChoice};
use crate::text::{trim, trimmed};
use vstd::prelude::*;

verus! {

/// A number kept between zero and a thousand.
pub open spec fn per_mille(n: int) -> int {
    if n < 0 {
        0
    } else if n > 1000 {
        1000
    } else {
        n
    }
}

fn clamp_per_mille(n: i64) -> (r: u32)
    ensures
        r == per_mille(n as int),
{
    if n < 0 {
        0
    } else if n > 1000 {
        1000
    } else {
        n as u32
    }
}

/// The settings of the window as the database holds them.
pub struct UiRow {
    pub volume: i64,
    pub win_visible: i64,
    /// Left, top, width and height.
    pub win_rect: [i64; 4],
    pub split_lr: i64,
    pub split_list_log: i64,
    pub split_cover_tree: i64,
    pub list_cols: [i64; 5],
}

/// The settings of the window.
pub struct UiConfig {
    pub volume: u32,
    pub win_visible: bool,
    /// Left, top, width and height, where a place was saved.
    pub win_rect: Option<[i32; 4]>,
    /// How much of the window the left side takes, in thousandths.
    pub ui_split_lr: u32,
    pub ui_split_list_log: u32,
    pub ui_split_cover_tree: u32,
    pub ui_list_col_ratios: [u32; 5],
}

/// The place of a window that was saved; one without an extent is none.
pub open spec fn saved_rect(rect: [i64; 4]) -> Option<Seq<i32>> {
    if rect@[2] as i32 > 0 && rect@[3] as i32 > 0 {
        Some(seq![rect@[0] as i32, rect@[1] as i32, rect@[2] as i32, rect@[3] as i32])
    } else {
        None
    }
}

fn restored_rect(rect: [i64; 4]) -> (r: Option<[i32; 4]>)
    ensures
        match r {
            Some(place) => saved_rect(rect) == Some(place@),
            None => saved_rect(rect) is None,
        },
{
    let (x, y, w, h): (i32, i32, i32, i32) = (
        rect[0] as i32,
        rect[1] as i32,
        rect[2] as i32,
        rect[3] as i32,
    );
    if w > 0 && h > 0 {
        let place: [i32; 4] = [x, y, w, h];
        assert(place@ =~= saved_rect(rect)->0);
        Some(place)
    } else {
        None
    }
}

/// The settings of the window that a row holds.
pub fn restore_ui_config(row: &UiRow) -> (r: UiConfig)
    ensures
        r.volume == row.volume as u32,
        r.win_visible == (row.win_visible != 0),
        match r.win_rect {
            Some(place) => saved_rect(row.win_rect) == Some(place@),
            None => saved_rect(row.win_rect) is None,
        },
        r.ui_split_lr == per_mille(row.split_lr as int),
        r.ui_split_list_log == per_mille(row.split_list_log as int),
        r.ui_split_cover_tree == per_mille(row.split_cover_tree as int),
        forall|i: int|
            0 <= i < 5 ==> #[trigger] r.ui_list_col_ratios@[i] == per_mille(row.list_cols@[i] as int),
{
    let cols: [u32; 5] = [
        clamp_per_mille(row.list_cols[0]),
        clamp_per_mille(row.list_cols[1]),
        clamp_per_mille(row.list_cols[2]),
        clamp_per_mille(row.list_cols[3]),
        clamp_per_mille(row.list_cols[4]),
    ];
    UiConfig {
        volume: row.volume as u32,
        win_visible: row.win_visible != 0,
        win_rect: restored_rect(row.win_rect),
        ui_split_lr: clamp_per_mille(row.split_lr),
        ui_split_list_log: clamp_per_mille(row.split_list_log),
        ui_split_cover_tree: clamp_per_mille(row.split_cover_tree),
        ui_list_col_ratios: cols,
    }
}

/// The least width of the window.
pub const MIN_WINDOW_W: i32 = 150;

/// The least height of the window.
pub const MIN_WINDOW_H: i32 = 100;

fn at_least(n: i32, least: i32) -> (r: i32)
    ensures
        r == (if n < least {
            least
        } else {
            n
        }),
{
    if n < least {
        least
    } else {
        n
    }
}

/// Where the window is put: not left of or above the screen, and not too small.
pub fn window_place(rect: [i32; 4]) -> (r: [i32; 4])
    ensures
        r@[0] == (if rect@[0] < 0 {
            0
        } else {
            rect@[0] as int
        }),
        r@[1] == (if rect@[1] < 0 {
            0
        } else {
            rect@[1] as int
        }),
        r@[2] == (if rect@[2] < MIN_WINDOW_W {
            MIN_WINDOW_W as int
        } else {
            rect@[2] as int
        }),
        r@[3] == (if rect@[3] < MIN_WINDOW_H {
            MIN_WINDOW_H as int
        } else {
            rect@[3] as int
        }),
{
    [
        at_least(rect[0], 0),
        at_least(rect[1], 0),
        at_least(rect[2], MIN_WINDOW_W),
        at_least(rect[3], MIN_WINDOW_H),
    ]
}

/// Whether the window is shown at the start. Without saved settings it is, but
/// for a start in the background.
pub fn shows_window(config: Option<&UiConfig>, background: bool) -> (r: bool)
    ensures
        r == (!background && (config matches Some(c) ==> c.win_visible)),
{
    match config {
        Some(c) => c.win_visible && !background,
        None => !background,
    }
}

/// What was playing, as the database holds it.
pub struct StateRow {
    pub playlist_id: i64,
    pub track_idx: i64,
    pub track_path: String,
    pub progress_ms: i64,
    pub play_mode: i64,
    pub volume: i64,
    pub is_playing: i64,
    pub win_visible: i64,
    pub win_rect: [i64; 4],
}

/// What was playing.
pub struct PlaybackState {
    pub playlist_id: usize,
    pub track_idx: usize,
    pub track_path: String,
    pub progress_ms: u64,
    pub play_mode: usize,
    pub volume: u32,
    pub songs: Vec<SongInfo>,
    pub is_playing: bool,
    pub win_visible: bool,
    pub win_rect: Option<[i32; 4]>,
}

/// The playlist that a saved number stands for; one that stands for none is that
/// of the user.
pub fn restored_playlist_id(saved: i64) -> (r: i64)
    ensures
        r == (if saved < 1 {
            1
        } else {
            saved as int
        }),
{
    if saved < PLAYLIST_ID_USER as i64 {
        PLAYLIST_ID_USER as i64
    } else {
        saved
    }
}

/// What was playing, from the row and the songs of its playlist; nothing where
/// the playlist is empty.
pub fn restore_state(row: StateRow, items: Vec<ItemRow>) -> (r: Option<PlaybackState>)
    ensures
        r is Some <==> songs_of(item_views(items@)).len() > 0,
        r matches Some(s) ==> {
            &&& s.playlist_id == (if row.playlist_id < 1 {
                1usize
            } else {
                row.playlist_id as usize
            })
            &&& s.track_idx == row.track_idx as usize
            &&& s.track_path@ == row.track_path@
            &&& s.progress_ms == (if row.progress_ms < 0 {
                0
            } else {
                row.progress_ms as int
            })
            &&& s.play_mode == row.play_mode as usize
            &&& s.volume == row.volume as u32
            &&& song_views(s.songs@) == songs_of(item_views(items@))
            &&& s.is_playing == (row.is_playing != 0)
            &&& s.win_visible == (row.win_visible != 0)
            &&& match s.win_rect {
                Some(place) => saved_rect(row.win_rect) == Some(place@),
                None => saved_rect(row.win_rect) is None,
            }
        },
{
    let playlist_id: i64 = restored_playlist_id(row.playlist_id);
    let songs = load_playlist_items(items);
    assert(song_views(songs@).len() == songs@.len());
    if songs.len() == 0 {
        return None;
    }
    Some(
        PlaybackState {
            playlist_id: playlist_id as usize,
            track_idx: row.track_idx as usize,
            track_path: row.track_path,
            progress_ms: if row.progress_ms < 0 {
                0
            } else {
                row.progress_ms as u64
            },
            play_mode: row.play_mode as usize,
            volume: row.volume as u32,
            songs,
            is_playing: row.is_playing != 0,
            win_visible: row.win_visible != 0,
            win_rect: restored_rect(row.win_rect),
        },
    )
}

/// Where playing is taken up again: at the song that was saved, wherever it now
/// stands, or at the start where it is gone. Without a path the place counts.
pub open spec fn restored_place(
    songs: Seq<Song>,
    track_idx: int,
    track_path: Seq<char>,
    progress_ms: int,
) -> (int, int) {
    if trimmed(track_path).len() > 0 {
        match first_with_key(songs, path_key(track_path)) {
            Some(i) => (i, progress_ms),
            None => (0, 0),
        }
    } else if track_idx < songs.len() {
        (track_idx, progress_ms)
    } else {
        (songs.len() - 1, progress_ms)
    }
}

/// A position as the player is told it.
pub open spec fn as_position(ms: int) -> u32 {
    if ms <= u32::MAX {
        ms as u32
    } else {
        u32::MAX
    }
}

/// The controls of a session that takes up a saved one.
pub open spec fn taken_up(
    c: Controls,
    list_id: usize,
    volume: u32,
    play_mode: usize,
    place: (int, int),
    plays: bool,
) -> Controls {
    Controls {
        play_mode,
        to_volume: volume,
        list_id,
        track: place.0 as usize,
        to_pos_ms: as_position(place.1),
        list_changed: true,
        state: if plays {
            c.state
        } else {
            PlayerState::Paused
        },
        ..c
    }
}

impl PlayerControls {
    /// Takes up what was playing. `play_mode` is that of the playlist. In the
    /// background, and where playing had been paused, the player stays paused.
    /// The result says whether it plays.
    pub fn restore_playback(
        &mut self,
        state: &PlaybackState,
        play_mode: usize,
        background: bool,
    ) -> (plays: bool)
        requires
            state.songs@.len() > 0,
        ensures
            plays == (state.is_playing && !background),
            final(self)@ == taken_up(
                old(self)@,
                state.playlist_id,
                state.volume,
                play_mode,
                restored_place(
                    song_views(state.songs@),
                    state.track_idx as int,
                    state.track_path@,
                    state.progress_ms as int,
                ),
                plays,
            ),
    {
        let n: usize = state.songs.len();
        assert(song_views(state.songs@).len() == n);
        let mut track: usize = if state.track_idx < n {
            state.track_idx
        } else {
            n - 1
        };
        let mut resume_ms: u64 = state.progress_ms;
        let inner = trim(state.track_path.as_str());
        if !inner.as_str().is_empty() {
            let key = normalize_path_key(state.track_path.as_str());
            match find_by_key(&state.songs, key.as_str()) {
                Some(i) => {
                    track = i;
                },
                None => {
                    track = 0;
                    resume_ms = 0;
                },
            }
        }
        self.play_mode = play_mode;
        self.to_volume = state.volume;
        self.list_id = state.playlist_id;
        self.track = track;
        self.to_pos_ms = if resume_ms <= u32::MAX as u64 {
            resume_ms as u32
        } else {
            u32::MAX
        };
        self.list_changed = true;
        let plays: bool = state.is_playing && !background;
        if !plays {
            self.state = PlayerState::Paused;
        }
        plays
    }
}

/// Whatever was saved, playing is taken up at a song of the playlist.
pub proof fn law_restored_place_is_in_the_playlist(
    songs: Seq<Song>,
    track_idx: int,
    track_path: Seq<char>,
    progress_ms: int,
)
    requires
        songs.len() > 0,
        track_idx >= 0,
    ensures
        0 <= restored_place(songs, track_idx, track_path, progress_ms).0 < songs.len(),
{
    crate::song::law_first_with_key(songs, path_key(track_path));
}

/// A song that was playing is found again, however the playlist was sorted
/// meanwhile.
pub proof fn law_playing_song_is_found_again(
    songs: Seq<Song>,
    place: int,
    track_idx: int,
    progress_ms: int,
)
    requires
        0 <= place < songs.len(),
        trimmed(songs[place].path).len() > 0,
    ensures
        ({
            let (track, ms) = restored_place(songs, track_idx, songs[place].path, progress_ms);
            &&& 0 <= track <= place
            &&& path_key(songs[track].path) == path_key(songs[place].path)
            &&& ms == progress_ms
        }),
{
    crate::song::law_first_with_key(songs, path_key(songs[place].path));
}

/// What is saved of the song that plays.
pub struct SavedProgress {
    pub track_idx: i32,
    pub track_path: String,
    pub progress_ms: i64,
    /// Whether the playlist remembers the song too.
    pub with_playlist: bool,
}

/// What is saved of the song that plays, in the playlist `playlist_id`.
pub fn saved_progress(
    playlist_id: i64,
    track_idx: usize,
    track_path: Option<&str>,
    progress_ms: u64,
) -> (r: SavedProgress)
    ensures
        r.track_idx == track_idx as i32,
        r.track_path@ == (match track_path {
            Some(path) => trimmed(path@),
            None => Seq::empty(),
        }),
        r.progress_ms == stored_size(progress_ms),
        r.with_playlist == (playlist_id > 0 && r.track_path@.len() > 0),
{
    let path: String = match track_path {
        Some(path) => trim(path),
        None => String::new(),
    };
    let with_playlist: bool = playlist_id > 0 && !path.as_str().is_empty();
    SavedProgress {
        track_idx: track_idx as i32,
        track_path: path,
        progress_ms: if progress_ms <= i64::MAX as u64 {
            progress_ms as i64
        } else {
            i64::MAX
        },
        with_playlist,
    }
}

/// The song and the position that a playlist remembers, if it does.
pub fn resume_from_row(path: String, progress_ms: i64) -> (r: Option<(String, u64)>)
    ensures
        r is Some <==> trimmed(path@).len() > 0,
        r matches Some((p, ms)) ==> p@ == path@ && ms == (if progress_ms < 0 {
            0
        } else {
            progress_ms as int
        }),
{
    let inner = trim(path.as_str());
    if inner.as_str().is_empty() {
        return None;
    }
    Some(
        (
            path,
            if progress_ms < 0 {
                0
            } else {
                progress_ms as u64
            },
        ),
    )
}

/// Where a playlist starts: at the song that it remembers, if it still has it.
pub open spec fn resume_place(songs: Seq<Song>, path: Seq<char>, ms: int) -> Option<(int, int)> {
    if trimmed(path).len() == 0 {
        None
    } else {
        match first_with_key(songs, path_key(trimmed(path))) {
            Some(i) => Some((i, ms)),
            None => None,
        }
    }
}

/// Where a playlist starts again, if it remembers a song that it still has.
pub fn find_resume(songs: &Vec<SongInfo>, resume: &Option<(String, u64)>) -> (r: Option<
    (usize, u64, String),
>)
    ensures
        match resume {
            Some((path, ms)) => match r {
                Some((i, at, p)) => resume_place(song_views(songs@), path@, *ms as int) == Some(
                    (i as int, at as int),
                ) && p@ == trimmed(path@) && i < songs@.len(),
                None => resume_place(song_views(songs@), path@, *ms as int) is None,
            },
            None => r is None,
        },
{
    match resume {
        Some((path, ms)) => {
            let inner = trim(path.as_str());
            if inner.as_str().is_empty() {
                return None;
            }
            let key = normalize_path_key(inner.as_str());
            match find_by_key(songs, key.as_str()) {
                Some(i) => Some((i, *ms, inner)),
                None => None,
            }
        },
        None => None,
    }
}

/// How far the song that plays has got, in milliseconds, and at which place it
/// stands; nothing where no song plays.
pub fn current_progress(
    playlist_id: usize,
    track_path: &str,
    songs: Option<&Vec<SongInfo>>,
    samples: u64,
    sample_rate: usize,
    channels: usize,
) -> (r: Option<(usize, u64)>)
    requires
        sample_rate != 0 && channels != 0 ==> samples * 1000 <= u64::MAX && sample_rate * channels
            <= u64::MAX,
    ensures
        r is Some <==> playlist_id != 0 && track_path@.len() > 0 && sample_rate != 0 && channels
            != 0,
        r matches Some((place, ms)) ==> {
            &&& ms == position_ms(samples as int, sample_rate as int, channels as int)
            &&& place == (match songs {
                Some(list) => match first_with_key(song_views(list@), path_key(track_path@)) {
                    Some(i) => i,
                    None => 0,
                },
                None => 0,
            })
        },
{
    if playlist_id == 0 || track_path.is_empty() || sample_rate == 0 || channels == 0 {
        return None;
    }
    assert(sample_rate * channels > 0) by (nonlinear_arith)
        requires
            sample_rate > 0,
            channels > 0,
    ;
    let ms: u64 = current_position_ms(samples, sample_rate, channels);
    let place: usize = match songs {
        Some(list) => {
            let key = normalize_path_key(track_path);
            match find_by_key(list, key.as_str()) {
                Some(i) => i,
                None => 0,
            }
        },
        None => 0,
    };
    Some((place, ms))
}

/// What came of the choice of a tab.
#[derive(Clone, Copy, PartialEq, Eq, Structural, Debug)]
pub enum TabOutcome {
    /// There is no such tab, or its playlist is empty.
    Refused,
    /// Its playlist plays already.
    Playing,
    /// Its playlist goes on.
    Resumed,
    /// Its playlist starts, at the song that it remembers.
    Started,
}

/// Where a playlist starts: the place, the position, and the song that it remembers.
pub open spec fn start_of(songs: Seq<Song>, resume: Option<(String, u64)>) -> (
    int,
    int,
    Option<Seq<char>>,
) {
    match resume {
        Some((path, ms)) => match resume_place(songs, path@, ms as int) {
            Some((i, at)) => (i, at, Some(trimmed(path@))),
            None => (0, 0, None),
        },
        None => (0, 0, None),
    }
}

/// Plays the playlist of a tab: one that plays already is left alone, one that is
/// paused goes on, any other starts at the song that it remembers, or at the first.
pub fn ui_tab_id_to_pl(
    tabs: &Vec<PlaylistView>,
    tab_idx: usize,
    controls: &mut PlayerControls,
    pending: &mut PendingTracks,
    songs: &Vec<SongInfo>,
    resume: &Option<(String, u64)>,
    play_mode: usize,
) -> (r: TabOutcome)
    ensures
        ({
            let choice = tab_choice_of(
                tabs@,
                tab_idx as int,
                old(controls).list_id,
                old(controls).state,
            );
            r == (match choice {
                TabChoice::Unknown => TabOutcome::Refused,
                TabChoice::Playing => TabOutcome::Playing,
                TabChoice::Resume => TabOutcome::Resumed,
                _ => if songs@.len() == 0 {
                    TabOutcome::Refused
                } else {
                    TabOutcome::Started
                },
            })
        }),
        r != TabOutcome::Started ==> final(controls)@ == old(controls)@ && final(pending)@ == old(
            pending,
        )@,
        r == TabOutcome::Started ==> ({
            let id = tabs@[tab_idx as int].playlist_id;
            let (place, ms, path) = start_of(song_views(songs@), *resume);
            &&& 0 <= place < songs@.len()
            &&& final(controls)@ == old(controls)@.activated(
                id,
                songs@.len() as usize,
                play_mode,
                place as usize,
                ms as u64,
            )
            &&& final(pending)@ == (match path {
                Some(p) => old(pending)@.insert(id, path_key(p)),
                None => old(pending)@,
            })
        }),
{
    match tab_choice(tabs, tab_idx, controls.list_id, controls.state) {
        TabChoice::Unknown => return TabOutcome::Refused,
        TabChoice::Playing => return TabOutcome::Playing,
        TabChoice::Resume => return TabOutcome::Resumed,
        _ => {},
    }
    let len: usize = songs.len();
    if len == 0 {
        return TabOutcome::Refused;
    }
    let id: usize = tabs[tab_idx].playlist_id;
    match find_resume(songs, resume) {
        Some((place, ms, path)) => {
            pending.set_pending_track_by_path(id, path.as_str());
            controls.set_active_playlist_with_resume(id, len, play_mode, place, ms);
        },
        None => {
            controls.set_active_playlist_with_resume(id, len, play_mode, 0, 0);
        },
    }
    TabOutcome::Started
}

/// A playlist that is left and chosen again starts at the song that was saved of it.
pub proof fn law_playlist_resumes_where_it_was_left(songs: Seq<Song>, place: int, saved: (String, u64))
    requires
        0 <= place < songs.len(),
        saved.0@ == songs[place].path,
        trimmed(saved.0@) == saved.0@,
        saved.0@.len() > 0,
        forall|i: int| 0 <= i < place ==> path_key(#[trigger] songs[i].path) != path_key(saved.0@),
    ensures
        start_of(songs, Some(saved)) == (place, saved.1 as int, Some(saved.0@)),
{
    crate::song::law_first_with_key(songs, path_key(saved.0@));
    let found = first_with_key(songs, path_key(saved.0@));
    assert(path_key(songs[place].path) == path_key(saved.0@));
}

/// A saved song that its list no longer holds is replaced by the first one, from its start;
/// without a saved path the saved place counts, or the last song where the list is shorter.
pub proof fn law_lost_song_starts_the_list(
    songs: Seq<Song>,
    track_idx: int,
    track_path: Seq<char>,
    progress_ms: int,
)
    requires
        songs.len() > 0,
        track_idx >= 0,
    ensures
        trimmed(track_path).len() > 0 && (forall|k: int|
            0 <= k < songs.len() ==> path_key(#[trigger] songs[k].path) != path_key(track_path))
            ==> restored_place(songs, track_idx, track_path, progress_ms) == (0int, 0int),
        trimmed(track_path).len() == 0 && track_idx < songs.len() ==> restored_place(
            songs,
            track_idx,
            track_path,
            progress_ms,
        ) == (track_idx, progress_ms),
        trimmed(track_path).len() == 0 && track_idx >= songs.len() ==> restored_place(
            songs,
            track_idx,
            track_path,
            progress_ms,
        ) == (songs.len() - 1, progress_ms),
{
    law_first_with_key(songs, path_key(track_path));
}

/// A list that was left at a song which it no longer holds is started from its first song,
/// as is one that was never left.
pub proof fn law_list_without_the_song_starts_anew(songs: Seq<Song>, saved: (String, u64))
    requires
        forall|k: int|
            0 <= k < songs.len() ==> path_key(#[trigger] songs[k].path) != path_key(
                trimmed(saved.0@),
            ),
    ensures
        start_of(songs, Some(saved)) == (0int, 0int, None::<Seq<char>>),
        start_of(songs, None) == (0int, 0int, None::<Seq<char>>),
{
    law_first_with_key(songs, path_key(trimmed(saved.0@)));
}

/// A share is kept between nothing and a thousand, and a position inside 32 bits.
pub proof fn law_shares_and_positions_are_kept_in_range(n: int)
    ensures
        0 <= per_mille(n) <= 1000,
        0 <= n <= 1000 ==> per_mille(n) == n,
        n < 0 ==> per_mille(n) == 0,
        n > 1000 ==> per_mille(n) == 1000,
        0 <= n <= u32::MAX ==> as_position(n) == n,
        n > u32::MAX ==> as_position(n) == u32::MAX,
{
}

/// A saved window counts where it has a width and a height, and is then where it was.
pub proof fn law_saved_window_is_where_it_was(rect: [i64; 4])
    requires
        forall|i: int| 0 <= i < 4 ==> i32::MIN <= #[trigger] rect@[i] <= i32::MAX,
    ensures
        saved_rect(rect) is Some <==> rect@[2] > 0 && rect@[3] > 0,
        saved_rect(rect) is Some ==> forall|i: int|
            0 <= i < 4 ==> #[trigger] saved_rect(rect)->0[i] == rect@[i],
{
}

/// A saved session is taken up where it was left: the same list in the same mode, the song
/// that played and its position, and the volume; it waits in a pause unless it was playing.
pub proof fn law_session_is_taken_up_where_it_was_left(
    c: Controls,
    list_id: usize,
    volume: u32,
    play_mode: usize,
    songs: Seq<Song>,
    place: int,
    progress_ms: u32,
    plays: bool,
)
    requires
        0 <= place < songs.len() <= usize::MAX,
        trimmed(songs[place].path).len() > 0,
        forall|k: int|
            0 <= k < songs.len() && k != place ==> path_key(#[trigger] songs[k].path) != path_key(
                songs[place].path,
            ),
    ensures
        ({
            let after = taken_up(
                c,
                list_id,
                volume,
                play_mode,
                restored_place(songs, 0, songs[place].path, progress_ms as int),
                plays,
            );
            &&& after.list_id == list_id && after.play_mode == play_mode
            &&& after.track == place && after.to_pos_ms == progress_ms
            &&& after.to_volume == volume
            &&& after.list_changed
            &&& plays ==> after.state == c.state
            &&& !plays ==> after.state == PlayerState::Paused
        }),
{
    law_first_with_key(songs, path_key(songs[place].path));
}

} // verus!
