//! The tabs of the playlists: choosing, deleting and clearing them.

use crate::player_state::{Controls, PlayerCommand, PlayerControls, PlayerState};
use crate::playlist_store::{PLAYLIST_ID_DEFAULT, PLAYLIST_ID_USER};
use crate::text::{concat, decimal, decimal_string, trim, trimmed};
use vstd::prelude::*;

verus! {

/// A tab.
pub struct PlaylistView {
    pub playlist_id: usize,
    pub name: String,
    /// The window of the list, and that of its header.
    pub hlist: i64,
    pub hheader: i64,
    pub cols_inited: bool,
    pub cols_last_total_w: i32,
    /// The column by which the list is sorted; a negative number is none.
    pub sort_col: i32,
    pub sort_asc: bool,
}

/// The playlists of some tabs.
pub open spec fn tab_ids(tabs: Seq<PlaylistView>) -> Seq<usize> {
    tabs.map_values(|t: PlaylistView| t.playlist_id)
}

/// The first place of a number, if it is there.
pub open spec fn first_place<T>(s: Seq<T>, x: T) -> Option<int>
    decreases s.len(),
{
    if s.len() == 0 {
        None
    } else {
        match first_place(s.drop_last(), x) {
            Some(i) => Some(i),
            None => if s.last() == x {
                Some(s.len() - 1)
            } else {
                None
            },
        }
    }
}

pub proof fn lemma_first_place<T>(s: Seq<T>, x: T, i: int)
    requires
        0 <= i < s.len(),
        s[i] == x,
        forall|k: int| 0 <= k < i ==> #[trigger] s[k] != x,
    ensures
        first_place(s, x) == Some(i),
    decreases s.len(),
{
    if i < s.len() - 1 {
        lemma_first_place(s.drop_last(), x, i);
    } else {
        lemma_no_place(s.drop_last(), x);
    }
}

pub proof fn lemma_no_place<T>(s: Seq<T>, x: T)
    requires
        forall|k: int| 0 <= k < s.len() ==> #[trigger] s[k] != x,
    ensures
        first_place(s, x) is None,
    decreases s.len(),
{
    if s.len() > 0 {
        lemma_no_place(s.drop_last(), x);
    }
}

/// The tab of a playlist.
pub fn find_playlist_view(tabs: &Vec<PlaylistView>, playlist_id: usize) -> (r: Option<usize>)
    ensures
        match r {
            Some(i) => first_place(tab_ids(tabs@), playlist_id) == Some(i as int) && i < tabs@.len(),
            None => first_place(tab_ids(tabs@), playlist_id) is None,
        },
{
    let ghost ids = tab_ids(tabs@);
    let mut i: usize = 0;
    while i < tabs.len()
        invariant
            i <= tabs@.len(),
            ids == tab_ids(tabs@),
            forall|k: int| 0 <= k < i ==> #[trigger] ids[k] != playlist_id,
        decreases tabs@.len() - i,
    {
        assert(ids[i as int] == tabs@[i as int].playlist_id);
        if tabs[i].playlist_id == playlist_id {
            proof {
                lemma_first_place(ids, playlist_id, i as int);
            }
            return Some(i);
        }
        i += 1;
    }
    proof {
        lemma_no_place(ids, playlist_id);
    }
    None
}

/// The windows of the lists of some tabs.
pub open spec fn tab_lists(tabs: Seq<PlaylistView>) -> Seq<i64> {
    tabs.map_values(|t: PlaylistView| t.hlist)
}

/// The playlist that a list shows.
pub fn find_playlist_id_by_hlist(tabs: &Vec<PlaylistView>, hlist: i64) -> (r: Option<usize>)
    ensures
        match first_place(tab_lists(tabs@), hlist) {
            Some(i) => r == Some(tabs@[i].playlist_id),
            None => r is None,
        },
{
    let ghost lists = tab_lists(tabs@);
    let mut i: usize = 0;
    while i < tabs.len()
        invariant
            i <= tabs@.len(),
            lists == tab_lists(tabs@),
            forall|k: int| 0 <= k < i ==> #[trigger] lists[k] != hlist,
        decreases tabs@.len() - i,
    {
        assert(lists[i as int] == tabs@[i as int].hlist);
        if tabs[i].hlist == hlist {
            proof {
                lemma_first_place(lists, hlist, i as int);
            }
            return Some(tabs[i].playlist_id);
        }
        i += 1;
    }
    proof {
        lemma_no_place(lists, hlist);
    }
    None
}

/// The window of the list of a playlist; zero where it has no tab.
pub fn listview_of(tabs: &Vec<PlaylistView>, playlist_id: usize) -> (r: i64)
    ensures
        r == (match first_place(tab_ids(tabs@), playlist_id) {
            Some(i) => tabs@[i].hlist,
            None => 0,
        }),
{
    match find_playlist_view(tabs, playlist_id) {
        Some(i) => tabs[i].hlist,
        None => 0,
    }
}

/// The name that stands for a playlist without one.
pub open spec fn number_name(playlist_id: usize) -> Seq<char> {
    "playlist "@ + decimal(playlist_id as nat)
}

fn number_name_of(playlist_id: usize) -> (r: String)
    ensures
        r@ == number_name(playlist_id),
{
    let number = decimal_string(playlist_id as u128);
    concat("playlist ", number.as_str())
}

/// The name on a tab.
pub fn tab_name(playlist_id: usize, name: &str) -> (r: String)
    ensures
        r@ == (if trimmed(name@).len() == 0 {
            number_name(playlist_id)
        } else {
            name@
        }),
{
    let inner = trim(name);
    if inner.as_str().is_empty() {
        number_name_of(playlist_id)
    } else {
        name.to_owned()
    }
}

/// The name that the database has for a playlist, the first one that is there.
pub open spec fn name_in(playlists: Seq<(usize, String)>, playlist_id: usize) -> Option<Seq<char>> {
    match first_place(playlists.map_values(|p: (usize, String)| p.0), playlist_id) {
        Some(i) => Some(playlists[i].1@),
        None => None,
    }
}

fn find_name(playlists: &Vec<(usize, String)>, playlist_id: usize) -> (r: Option<String>)
    ensures
        match r {
            Some(name) => name_in(playlists@, playlist_id) == Some(name@),
            None => name_in(playlists@, playlist_id) is None,
        },
{
    let ghost ids = playlists@.map_values(|p: (usize, String)| p.0);
    let mut i: usize = 0;
    while i < playlists.len()
        invariant
            i <= playlists@.len(),
            ids == playlists@.map_values(|p: (usize, String)| p.0),
            forall|k: int| 0 <= k < i ==> #[trigger] ids[k] != playlist_id,
        decreases playlists@.len() - i,
    {
        assert(ids[i as int] == playlists@[i as int].0);
        if playlists[i].0 == playlist_id {
            proof {
                lemma_first_place(ids, playlist_id, i as int);
            }
            return Some(playlists[i].1.clone());
        }
        i += 1;
    }
    proof {
        lemma_no_place(ids, playlist_id);
    }
    None
}

/// The name of a playlist: that of its tab, else that in the database, else one
/// made of its number.
pub fn playlist_name_by_id(
    tabs: &Vec<PlaylistView>,
    playlists: &Vec<(usize, String)>,
    playlist_id: usize,
) -> (r: String)
    ensures
        r@ == (if playlist_id == 0 {
            "(none)"@
        } else {
            match first_place(tab_ids(tabs@), playlist_id) {
                Some(i) => tabs@[i].name@,
                None => match name_in(playlists@, playlist_id) {
                    Some(name) => name,
                    None => number_name(playlist_id),
                },
            }
        }),
{
    if playlist_id == 0 {
        return "(none)".to_owned();
    }
    match find_playlist_view(tabs, playlist_id) {
        Some(i) => tabs[i].name.clone(),
        None => match find_name(playlists, playlist_id) {
            Some(name) => name,
            None => number_name_of(playlist_id),
        },
    }
}

/// The name of a play mode.
pub fn play_mode_to_str(mode: usize) -> (r: &'static str)
    ensures
        r@ == (if mode == 0 {
            "单曲"@
        } else if mode == 1 {
            "随机"@
        } else {
            "顺序"@
        }),
{
    match mode {
        0 => "单曲",
        1 => "随机",
        _ => "顺序",
    }
}

/// What the choice of a tab asks for.
#[derive(Clone, Copy, PartialEq, Eq, Structural)]
pub enum TabChoice {
    /// There is no such tab.
    Unknown,
    /// Its playlist plays already.
    Playing,
    /// Its playlist is paused, and goes on.
    Resume,
    /// Its playlist is the active one, but nothing plays: it starts again.
    StartAgain,
    /// Another playlist becomes active; the progress of the old one is saved
    /// before.
    Switch,
}

/// What the choice of tab `tab_idx` asks for.
pub open spec fn tab_choice_of(
    tabs: Seq<PlaylistView>,
    tab_idx: int,
    active: usize,
    state: PlayerState,
) -> TabChoice {
    if tab_idx >= tabs.len() {
        TabChoice::Unknown
    } else if tabs[tab_idx].playlist_id != active {
        TabChoice::Switch
    } else if state == PlayerState::Playing {
        TabChoice::Playing
    } else if state == PlayerState::Paused {
        TabChoice::Resume
    } else {
        TabChoice::StartAgain
    }
}

/// What the choice of tab `tab_idx` asks for.
pub fn tab_choice(
    tabs: &Vec<PlaylistView>,
    tab_idx: usize,
    active: usize,
    state: PlayerState,
) -> (r: TabChoice)
    ensures
        r == tab_choice_of(tabs@, tab_idx as int, active, state),
{
    if tab_idx >= tabs.len() {
        TabChoice::Unknown
    } else if tabs[tab_idx].playlist_id != active {
        TabChoice::Switch
    } else {
        match state {
            PlayerState::Playing => TabChoice::Playing,
            PlayerState::Paused => TabChoice::Resume,
            _ => TabChoice::StartAgain,
        }
    }
}

/// What the deletion of a tab asks for.
#[derive(Clone, Copy, PartialEq, Eq, Structural)]
pub enum TabDeletion {
    /// There is no such tab, or its playlist stays.
    Refused,
    /// The playlist of the user is emptied instead.
    Clear,
    /// The playlist goes, and its tab with it.
    Delete(usize),
}

/// What the deletion of tab `tab_idx` asks for.
pub fn tab_deletion(tabs: &Vec<PlaylistView>, tab_idx: usize) -> (r: TabDeletion)
    ensures
        r == (if tab_idx >= tabs@.len() || tabs@[tab_idx as int].playlist_id == PLAYLIST_ID_DEFAULT {
            TabDeletion::Refused
        } else if tabs@[tab_idx as int].playlist_id == PLAYLIST_ID_USER {
            TabDeletion::Clear
        } else {
            TabDeletion::Delete(tabs@[tab_idx as int].playlist_id)
        }),
{
    if tab_idx >= tabs.len() {
        return TabDeletion::Refused;
    }
    let id: usize = tabs[tab_idx].playlist_id;
    if id == PLAYLIST_ID_DEFAULT {
        TabDeletion::Refused
    } else if id == PLAYLIST_ID_USER {
        TabDeletion::Clear
    } else {
        TabDeletion::Delete(id)
    }
}

/// The selected tab after tab `tab_idx` went and `left` tabs are left.
pub open spec fn selected_tab(cur_sel: int, tab_idx: int, left: int) -> int {
    let moved = if cur_sel >= 0 && tab_idx < cur_sel {
        cur_sel - 1
    } else {
        cur_sel
    };
    if moved < 0 {
        0
    } else if moved > left - 1 {
        left - 1
    } else {
        moved
    }
}

/// The tab that is selected after tab `tab_idx` went; `None` where no tab is
/// left.
pub fn tab_after_deletion(cur_sel: i32, tab_idx: usize, left: usize) -> (r: Option<usize>)
    ensures
        r is Some <==> left > 0,
        r matches Some(sel) ==> sel == selected_tab(cur_sel as int, tab_idx as int, left as int),
{
    if left == 0 {
        return None;
    }
    if cur_sel < 0 {
        return Some(0);
    }
    let cur: usize = cur_sel as usize;
    let moved: usize = if tab_idx < cur {
        cur - 1
    } else {
        cur
    };
    if moved > left - 1 {
        Some(left - 1)
    } else {
        Some(moved)
    }
}

/// The selected tab stays selected when another one goes.
pub proof fn law_selected_tab_stays<T>(tabs: Seq<T>, cur_sel: int, tab_idx: int)
    requires
        0 <= cur_sel < tabs.len(),
        0 <= tab_idx < tabs.len(),
        tab_idx != cur_sel,
    ensures
        tabs.remove(tab_idx)[selected_tab(cur_sel, tab_idx, tabs.len() - 1)] == tabs[cur_sel],
{
}

/// The tab that is shown for a choice; a choice beyond the tabs is the first.
pub fn shown_tab(sel: i32, tabs: usize) -> (r: Option<usize>)
    ensures
        r is Some <==> tabs > 0,
        r matches Some(i) ==> i == (if sel > 0 && sel < tabs {
            sel as int
        } else {
            0
        }),
{
    if tabs == 0 {
        return None;
    }
    let wanted: usize = if sel > 0 {
        sel as usize
    } else {
        0
    };
    if wanted >= tabs {
        Some(0)
    } else {
        Some(wanted)
    }
}

/// Which song of which playlist the window marks as the one that plays. A
/// negative place marks none.
#[derive(Clone, Copy, PartialEq, Eq, Structural)]
pub struct PlayingMark {
    pub list_id: usize,
    pub place: i32,
}

/// The controls when a playlist was deleted: where it was the active one, the list of the
/// user becomes that.
pub open spec fn list_deleted(c: Controls, li_id: usize, user_mode: usize) -> Controls {
    if c.list_id == li_id {
        Controls {
            play_mode: user_mode,
            list_id: PLAYLIST_ID_USER,
            track: 0,
            list_changed: true,
            to_next: false,
            to_prev: false,
            ..c
        }
    } else {
        c
    }
}

/// The controls when a playlist was emptied: where it was the active one, nothing plays.
pub open spec fn list_cleared(c: Controls, li_id: usize) -> Controls {
    if c.list_id == li_id {
        Controls {
            track: 0,
            to_pos_ms: 0,
            list_changed: true,
            to_next: false,
            to_prev: false,
            state: PlayerState::Idle,
            ..c
        }
    } else {
        c
    }
}

/// What a double click on the song at `clicked` of the list `target` asks for.
pub open spec fn play_choice_of(c: Controls, target: usize, clicked: usize) -> PlayChoice {
    if target != c.list_id {
        PlayChoice::Activate(clicked)
    } else if clicked == c.track {
        PlayChoice::Restart
    } else {
        PlayChoice::SwitchTo(clicked)
    }
}

/// The controls after a choice to play.
pub open spec fn play_chosen(c: Controls, choice: PlayChoice) -> Controls {
    match choice {
        PlayChoice::SwitchTo(i) => Controls {
            commands: c.commands.push(PlayerCommand::SwitchToIndex(i)),
            has_commands: true,
            ..c
        },
        _ => c,
    }
}

impl PlayerControls {
    /// Leaves a playlist that was deleted. Where it was the active one, that of
    /// the user takes its place, with its own play mode.
    pub fn playlist_deleted(&mut self, mark: PlayingMark, li_id: usize, user_mode: usize) -> (r: (
        bool,
        PlayingMark,
    ))
        ensures
            r.0 == (old(self).list_id == li_id),
            r.1 == (if old(self).list_id == li_id || mark.list_id == li_id {
                PlayingMark { list_id: PLAYLIST_ID_USER, place: (-1) as i32 }
            } else {
                mark
            }),
            final(self)@ == list_deleted(old(self)@, li_id, user_mode),
    {
        let none = PlayingMark { list_id: PLAYLIST_ID_USER, place: -1 };
        if self.list_id == li_id {
            self.play_mode = user_mode;
            self.list_id = PLAYLIST_ID_USER;
            self.track = 0;
            self.list_changed = true;
            self.to_next = false;
            self.to_prev = false;
            (true, none)
        } else if mark.list_id == li_id {
            (false, none)
        } else {
            (false, mark)
        }
    }

    /// Stops a playlist that was emptied, where it was the active one.
    pub fn playlist_cleared(&mut self, mark: PlayingMark, li_id: usize) -> (r: (bool, PlayingMark))
        ensures
            r.0 == (old(self).list_id == li_id),
            r.1 == (if old(self).list_id == li_id || mark.list_id == li_id {
                PlayingMark { list_id: li_id, place: (-1) as i32 }
            } else {
                mark
            }),
            final(self)@ == list_cleared(old(self)@, li_id),
    {
        let none = PlayingMark { list_id: li_id, place: -1 };
        if self.list_id == li_id {
            self.track = 0;
            self.to_pos_ms = 0;
            self.list_changed = true;
            self.to_next = false;
            self.to_prev = false;
            self.state = PlayerState::Idle;
            (true, none)
        } else if mark.list_id == li_id {
            (false, none)
        } else {
            (false, mark)
        }
    }
}

/// What a double click on a song asks for.
#[derive(Clone, Copy, PartialEq, Eq, Structural)]
pub enum PlayChoice {
    /// The song that plays starts again.
    Restart,
    /// Another song of the active playlist.
    SwitchTo(usize),
    /// A song of another playlist.
    Activate(usize),
}

/// What a double click on song `clicked` of `target` asks for, and whether the
/// tab of the active playlist has to be shown. `shown` is the playlist of the
/// tab that is shown.
pub fn pl_id_to_play(controls: &mut PlayerControls, shown: usize, target: usize, clicked: usize) -> (r: (
    PlayChoice,
    bool,
))
    ensures
        r.0 == play_choice_of(old(controls)@, target, clicked),
        r.1 == (target == old(controls).list_id && shown != target),
        final(controls)@ == play_chosen(old(controls)@, r.0),
{
    if target != controls.list_id {
        return (PlayChoice::Activate(clicked), false);
    }
    let shows: bool = shown != target;
    if clicked == controls.track {
        (PlayChoice::Restart, shows)
    } else {
        controls.push_command(PlayerCommand::SwitchToIndex(clicked));
        (PlayChoice::SwitchTo(clicked), shows)
    }
}

/// The place of the song that is marked as the one that plays, after its playlist
/// was read again with `len` songs.
pub fn refreshed_mark(mark: PlayingMark, pl_id: usize, len: usize) -> (r: Option<usize>)
    ensures
        r is Some <==> mark.list_id == pl_id && mark.place >= 0 && len > 0,
        r matches Some(i) ==> i == (if mark.place < len {
            mark.place as int
        } else {
            len - 1
        }),
{
    if mark.list_id != pl_id || mark.place < 0 || len == 0 {
        return None;
    }
    let place: usize = mark.place as usize;
    if place < len {
        Some(place)
    } else {
        Some(len - 1)
    }
}

/// The first place of something is a place of it, and no earlier one is.
pub proof fn law_first_place<T>(s: Seq<T>, x: T)
    ensures
        match first_place(s, x) {
            Some(i) => 0 <= i < s.len() && s[i] == x && forall|k: int| 0 <= k < i ==> #[trigger] s[k] != x,
            None => !s.contains(x),
        },
    decreases s.len(),
{
    if s.len() > 0 {
        let front = s.drop_last();
        law_first_place(front, x);
        match first_place(front, x) {
            Some(i) => {
                assert(s[i] == front[i]);
                assert forall|k: int| 0 <= k < i implies #[trigger] s[k] != x by {
                    assert(s[k] == front[k]);
                }
            },
            None => {
                assert forall|k: int| 0 <= k < front.len() implies #[trigger] s[k] != x by {
                    assert(front[k] == s[k]);
                    assert(front.contains(front[k]));
                }
            },
        }
    }
}

/// A tab that is chosen plays its list: it goes on with the list that plays, lets one that is
/// paused go on, starts one that has stopped, and switches to any other.
pub proof fn law_chosen_tab_plays(
    tabs: Seq<PlaylistView>,
    tab_idx: int,
    active: usize,
    state: PlayerState,
)
    requires
        0 <= tab_idx < tabs.len(),
    ensures
        ({
            let choice = tab_choice_of(tabs, tab_idx, active, state);
            let same = tabs[tab_idx].playlist_id == active;
            &&& choice == TabChoice::Switch <==> !same
            &&& choice == TabChoice::Playing <==> same && state == PlayerState::Playing
            &&& choice == TabChoice::Resume <==> same && state == PlayerState::Paused
            &&& choice != TabChoice::Unknown
        }),
        tab_choice_of(tabs, tabs.len() as int, active, state) == TabChoice::Unknown,
{
}

/// Where the tab that is shown is deleted, the one that takes its place is shown, or the last
/// one.
pub proof fn law_next_tab_is_shown(cur_sel: int, left: int)
    requires
        left > 0,
        0 <= cur_sel <= left,
    ensures
        cur_sel < left ==> selected_tab(cur_sel, cur_sel, left) == cur_sel,
        cur_sel == left ==> selected_tab(cur_sel, cur_sel, left) == left - 1,
{
}

/// The player leaves a list that was deleted or emptied, and goes on with any other; the list
/// of the user takes the place of a deleted one, from its first song.
pub proof fn law_player_leaves_a_list_that_goes(c: Controls, li_id: usize, user_mode: usize)
    ensures
        c.list_id != li_id ==> list_deleted(c, li_id, user_mode) == c && list_cleared(c, li_id) == c,
        c.list_id == li_id ==> {
            let (deleted, cleared) = (list_deleted(c, li_id, user_mode), list_cleared(c, li_id));
            &&& deleted.aborts() && cleared.aborts()
            &&& deleted.list_id == 1 && deleted.track == 0 && deleted.play_mode == user_mode
            &&& deleted.state == c.state
            &&& cleared.list_id == c.list_id && cleared.track == 0 && cleared.to_pos_ms == 0
            &&& cleared.state == PlayerState::Idle
            &&& !deleted.to_next && !deleted.to_prev && !cleared.to_next && !cleared.to_prev
        },
{
}

/// A song that is chosen plays: the one that plays already starts anew, another one of the
/// same list is switched to, and one of another list makes that list the active one.
pub proof fn law_chosen_song_plays(c: Controls, target: usize, clicked: usize)
    ensures
        ({
            let choice = play_choice_of(c, target, clicked);
            let after = play_chosen(c, choice);
            &&& target != c.list_id ==> choice == PlayChoice::Activate(clicked) && after == c
            &&& target == c.list_id && clicked == c.track ==> choice == PlayChoice::Restart && after
                == c
            &&& target == c.list_id && clicked != c.track ==> {
                &&& after.has_commands && after.aborts()
                &&& after.commands.last() == PlayerCommand::SwitchToIndex(clicked)
                &&& after.commands.drop_last() == c.commands
                &&& after.track == c.track
            }
        }),
{
    assert(c.commands.push(PlayerCommand::SwitchToIndex(clicked)).drop_last() =~= c.commands);
}

} // verus!
