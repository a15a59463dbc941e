//! Playlists in memory: deleting songs from the one that may be playing, and
//! finding a song again once a playlist has been read anew.

use crate::path::{normalize_path_key, path_key};
use crate::player_state::{Controls, PlayerControls, PlayerState};
use crate::song::{find_by_key, first_with_key, song_views, Song, SongInfo};
use std::collections::HashMap;
use vstd::prelude::*;

verus! {

broadcast use vstd::std_specs::hash::group_hash_axioms;

/// Whether the place `i` is one of `items`.
pub open spec fn is_dropped(items: Seq<usize>, i: int) -> bool {
    exists|k: int| 0 <= k < items.len() && #[trigger] items[k] == i
}

/// What is left of a sequence from place `from` on without the places `items`.
pub open spec fn kept_from<T>(s: Seq<T>, items: Seq<usize>, from: int) -> Seq<T>
    decreases s.len() - from,
{
    if from >= s.len() {
        seq![]
    } else if is_dropped(items, from) {
        kept_from(s, items, from + 1)
    } else {
        seq![s[from]] + kept_from(s, items, from + 1)
    }
}

/// What is left of a sequence without the places `items`.
pub open spec fn kept<T>(s: Seq<T>, items: Seq<usize>) -> Seq<T> {
    kept_from(s, items, 0)
}

/// Those of the first `n` places that are in `items`, the highest first.
pub open spec fn dropped_places(items: Seq<usize>, n: int) -> Seq<usize>
    decreases n,
{
    if n <= 0 {
        seq![]
    } else if is_dropped(items, n - 1) {
        seq![(n - 1) as usize] + dropped_places(items, n - 1)
    } else {
        dropped_places(items, n - 1)
    }
}

/// How many of the first `n` places are in `items`.
pub open spec fn dropped_before(items: Seq<usize>, n: int) -> int
    decreases n,
{
    if n <= 0 {
        0
    } else if is_dropped(items, n - 1) {
        dropped_before(items, n - 1) + 1
    } else {
        dropped_before(items, n - 1)
    }
}

/// Whether `i` is one of `items`.
pub fn holds(items: &Vec<usize>, i: usize) -> (r: bool)
    ensures
        r == is_dropped(items@, i as int),
{
    let mut k: usize = 0;
    while k < items.len()
        invariant
            k <= items@.len(),
            forall|j: int| 0 <= j < k ==> #[trigger] items@[j] != i,
        decreases items@.len() - k,
    {
        if items[k] == i {
            return true;
        }
        k += 1;
    }
    false
}

/// Takes the places `items` out of a list, and returns those that it had, the
/// highest first.
pub fn remove_places<T>(list: &mut Vec<T>, items: &Vec<usize>) -> (r: Vec<usize>)
    ensures
        final(list)@ == kept(old(list)@, items@),
        r@ == dropped_places(items@, old(list)@.len() as int),
{
    let ghost all = list@;
    let mut removed: Vec<usize> = Vec::new();
    let n: usize = list.len();
    let mut i: usize = n;
    assert(list@ =~= all.take(n as int) + kept_from(all, items@, n as int));
    assert(removed@ + dropped_places(items@, n as int) =~= dropped_places(items@, n as int));
    while i > 0
        invariant
            i <= n == all.len(),
            list@ == all.take(i as int) + kept_from(all, items@, i as int),
            removed@ + dropped_places(items@, i as int) == dropped_places(items@, n as int),
        decreases i,
    {
        let ghost tail = kept_from(all, items@, i as int);
        let ghost before = removed@;
        let ghost lower = dropped_places(items@, i - 1);
        i -= 1;
        if holds(items, i) {
            list.remove(i);
            assert(list@ =~= all.take(i as int) + tail);
            removed.push(i);
            assert(removed@ + lower =~= before + (seq![i] + lower));
        } else {
            assert(all.take(i + 1) + tail =~= all.take(i as int) + (seq![all[i as int]] + tail));
        }
    }
    assert(list@ =~= kept(all, items@));
    assert(removed@ =~= removed@ + dropped_places(items@, 0));
    removed
}

fn count_below(places: &Vec<usize>, limit: usize, Ghost(items): Ghost<Seq<usize>>, Ghost(n): Ghost<int>) -> (r: usize)
    requires
        places@ == dropped_places(items, n),
        n >= 0,
    ensures
        r == dropped_before(items, if limit < n {
            limit as int
        } else {
            n
        }),
{
    let mut r: usize = 0;
    let mut k: usize = 0;
    let m: usize = places.len();
    while k < m
        invariant
            m == places@.len(),
            k <= m,
            r <= k,
            r == below_in(places@.take(k as int), limit as int),
        decreases m - k,
    {
        proof {
            assert(places@.take(k + 1).drop_last() =~= places@.take(k as int));
        }
        if places[k] < limit {
            r += 1;
        }
        k += 1;
    }
    proof {
        assert(places@.take(m as int) =~= places@);
        lemma_below_in(items, n, limit as int);
    }
    r
}

/// How many of some numbers are below `limit`.
pub open spec fn below_in(places: Seq<usize>, limit: int) -> int
    decreases places.len(),
{
    if places.len() == 0 {
        0
    } else {
        below_in(places.drop_last(), limit) + (if places.last() < limit {
            1int
        } else {
            0
        })
    }
}

proof fn lemma_below_in_front(first: usize, rest: Seq<usize>, limit: int)
    ensures
        below_in(seq![first] + rest, limit) == below_in(rest, limit) + (if first < limit {
            1int
        } else {
            0
        }),
    decreases rest.len(),
{
    let all = seq![first] + rest;
    if rest.len() == 0 {
        assert(all.drop_last() =~= rest);
        assert(all.last() == first);
    } else {
        lemma_below_in_front(first, rest.drop_last(), limit);
        assert(all.drop_last() =~= seq![first] + rest.drop_last());
        assert(all.last() == rest.last());
    }
}

proof fn lemma_below_in(items: Seq<usize>, n: int, limit: int)
    requires
        n >= 0,
        limit >= 0,
    ensures
        below_in(dropped_places(items, n), limit) == dropped_before(items, if limit < n {
            limit
        } else {
            n
        }),
    decreases n,
{
    if n > 0 {
        lemma_below_in(items, n - 1, limit);
        if is_dropped(items, n - 1) {
            let k = choose|k: int| 0 <= k < items.len() && #[trigger] items[k] == n - 1;
            assert((n - 1) as usize == items[k]);
            lemma_below_in_front((n - 1) as usize, dropped_places(items, n - 1), limit);
        }
    }
}

/// What a deletion means for the song that plays.
#[derive(Clone, Copy, PartialEq, Eq, Structural)]
pub enum AfterDeletion {
    /// It keeps its place.
    Unchanged,
    /// It stands at another place now.
    Shifted(usize),
    /// It is gone, and the song at this place plays instead.
    Switched(usize),
    /// It is gone, and no song is left.
    Emptied,
}

/// What the deletion of `items` from a playlist of `n` songs means for the song
/// at place `current` that plays.
pub open spec fn after_deletion(items: Seq<usize>, n: int, current: int) -> AfterDeletion {
    let before = dropped_before(items, if current < n {
        current
    } else {
        n
    });
    let left = n - dropped_before(items, n);
    let place = current - before;
    if current < n && is_dropped(items, current) {
        if left == 0 {
            AfterDeletion::Emptied
        } else if place < left {
            AfterDeletion::Switched(place as usize)
        } else {
            AfterDeletion::Switched((left - 1) as usize)
        }
    } else if before > 0 {
        AfterDeletion::Shifted(place as usize)
    } else {
        AfterDeletion::Unchanged
    }
}

/// Where the selection stands after the deletion of `items` from a playlist of
/// `n` songs; `None` where it stays.
pub open spec fn selection_after(items: Seq<usize>, n: int, selected: int) -> Option<int> {
    let before = dropped_before(items, if selected < n {
        selected
    } else {
        n
    });
    let left = n - dropped_before(items, n);
    let place = selected - before;
    if left == 0 {
        None
    } else if before > 0 || (selected < n && is_dropped(items, selected)) || selected >= left {
        Some(if place < left {
            place
        } else {
            left - 1
        })
    } else {
        None
    }
}

proof fn lemma_dropped_before(items: Seq<usize>, m: int, n: int)
    requires
        0 <= m <= n,
    ensures
        0 <= dropped_before(items, m) <= m,
        dropped_before(items, m) <= dropped_before(items, n) <= dropped_before(items, m) + (n - m),
        dropped_places(items, n).len() == dropped_before(items, n),
    decreases n,
{
    if m < n {
        lemma_dropped_before(items, m, n - 1);
    } else if n > 0 {
        lemma_dropped_before(items, m - 1, n - 1);
    }
}

proof fn lemma_kept_len<T>(s: Seq<T>, items: Seq<usize>, from: int)
    requires
        0 <= from <= s.len(),
    ensures
        kept_from(s, items, from).len() == s.len() - from - (dropped_before(items, s.len() as int)
            - dropped_before(items, from)),
    decreases s.len() - from,
{
    if from < s.len() {
        lemma_kept_len(s, items, from + 1);
    }
}

proof fn lemma_kept_index<T>(s: Seq<T>, items: Seq<usize>, from: int, i: int)
    requires
        0 <= from <= i < s.len(),
        !is_dropped(items, i),
    ensures
        ({
            let k = i - from - (dropped_before(items, i) - dropped_before(items, from));
            0 <= k < kept_from(s, items, from).len() && kept_from(s, items, from)[k] == s[i]
        }),
    decreases i - from,
{
    if from < i {
        lemma_kept_index(s, items, from + 1, i);
    }
}

/// What is not deleted keeps its order: it moves towards the front by as many
/// places as were deleted before it.
pub proof fn law_what_is_kept_stays_in_order<T>(s: Seq<T>, items: Seq<usize>, i: int)
    requires
        0 <= i < s.len(),
        !is_dropped(items, i),
    ensures
        kept(s, items).len() == s.len() - dropped_before(items, s.len() as int),
        0 <= i - dropped_before(items, i) < kept(s, items).len(),
        kept(s, items)[i - dropped_before(items, i)] == s[i],
{
    lemma_kept_len(s, items, 0);
    lemma_kept_index(s, items, 0, i);
}

/// A song that plays and is not deleted goes on playing: the place that is noted
/// for it afterwards holds that very song.
pub proof fn law_deletion_keeps_the_playing_song<T>(s: Seq<T>, items: Seq<usize>, current: int)
    requires
        0 <= current < s.len() <= usize::MAX,
        !is_dropped(items, current),
    ensures
        match after_deletion(items, s.len() as int, current) {
            AfterDeletion::Unchanged => kept(s, items)[current] == s[current],
            AfterDeletion::Shifted(place) => kept(s, items)[place as int] == s[current],
            _ => false,
        },
{
    law_what_is_kept_stays_in_order(s, items, current);
    lemma_dropped_before(items, current, current);
}

/// Where the song that plays is deleted, another one of the list is taken, or
/// the list is empty.
pub proof fn law_deletion_of_the_playing_song<T>(s: Seq<T>, items: Seq<usize>, current: int)
    requires
        0 <= current < s.len() <= usize::MAX,
        is_dropped(items, current),
    ensures
        match after_deletion(items, s.len() as int, current) {
            AfterDeletion::Emptied => kept(s, items).len() == 0,
            AfterDeletion::Switched(place) => place < kept(s, items).len(),
            _ => false,
        },
{
    lemma_kept_len(s, items, 0);
    lemma_dropped_before(items, current, s.len() as int);
}

/// What a deletion did to a playlist.
pub struct Deletion {
    /// The places that were deleted, the highest first.
    pub removed: Vec<usize>,
    /// What it means for the song that plays.
    pub playing: AfterDeletion,
    /// Where the selection goes, if it has to move.
    pub selected: Option<usize>,
}

impl Controls {
    /// The controls after a deletion from the active playlist.
    pub open spec fn deleted(self, playing: AfterDeletion) -> Controls {
        match playing {
            AfterDeletion::Unchanged => self,
            AfterDeletion::Shifted(place) => Controls { track: place, ..self },
            AfterDeletion::Switched(place) => Controls {
                track: place,
                list_changed: true,
                ..self
            },
            AfterDeletion::Emptied => Controls {
                list_changed: true,
                to_next: false,
                to_prev: false,
                state: PlayerState::Idle,
                ..self
            },
        }
    }
}

fn playing_after(
    removed: &Vec<usize>,
    left: usize,
    current: usize,
    Ghost(items): Ghost<Seq<usize>>,
    Ghost(n): Ghost<int>,
) -> (r: AfterDeletion)
    requires
        removed@ == dropped_places(items, n),
        n >= 0,
        left == n - dropped_before(items, n),
    ensures
        r == after_deletion(items, n, current as int),
{
    let before: usize = count_below(removed, current, Ghost(items), Ghost(n));
    let gone: bool = holds(removed, current);
    proof {
        lemma_is_dropped_place(items, n, current as int);
        if current < n {
            lemma_dropped_before(items, current as int, n);
        } else {
            lemma_dropped_before(items, n, n);
        }
    }
    if gone {
        if left == 0 {
            AfterDeletion::Emptied
        } else {
            let place: usize = current - before;
            if place < left {
                AfterDeletion::Switched(place)
            } else {
                AfterDeletion::Switched(left - 1)
            }
        }
    } else if before > 0 {
        AfterDeletion::Shifted(current - before)
    } else {
        AfterDeletion::Unchanged
    }
}

proof fn lemma_is_dropped_place(items: Seq<usize>, n: int, i: int)
    requires
        0 <= n,
        0 <= i,
    ensures
        is_dropped(dropped_places(items, n), i) <==> i < n && is_dropped(items, i),
    decreases n,
{
    let places = dropped_places(items, n);
    if n > 0 {
        lemma_is_dropped_place(items, n - 1, i);
        let lower = dropped_places(items, n - 1);
        if is_dropped(items, n - 1) {
            let j = choose|j: int| 0 <= j < items.len() && #[trigger] items[j] == n - 1;
            assert((n - 1) as usize == items[j]);
            assert(places[0] == n - 1);
            if is_dropped(lower, i) {
                let k = choose|k: int| 0 <= k < lower.len() && #[trigger] lower[k] == i;
                assert(places[k + 1] == i);
            }
            if is_dropped(places, i) {
                let k = choose|k: int| 0 <= k < places.len() && #[trigger] places[k] == i;
                if k > 0 {
                    assert(lower[k - 1] == i);
                }
            }
        }
    }
}

fn selected_after(
    removed: &Vec<usize>,
    left: usize,
    selected: usize,
    Ghost(items): Ghost<Seq<usize>>,
    Ghost(n): Ghost<int>,
) -> (r: Option<usize>)
    requires
        removed@ == dropped_places(items, n),
        n >= 0,
        left == n - dropped_before(items, n),
    ensures
        match r {
            Some(place) => selection_after(items, n, selected as int) == Some(place as int),
            None => selection_after(items, n, selected as int) is None,
        },
{
    if left == 0 {
        return None;
    }
    let before: usize = count_below(removed, selected, Ghost(items), Ghost(n));
    let gone: bool = holds(removed, selected);
    proof {
        lemma_is_dropped_place(items, n, selected as int);
        if selected < n {
            lemma_dropped_before(items, selected as int, n);
        } else {
            lemma_dropped_before(items, n, n);
        }
    }
    if before > 0 || gone || selected >= left {
        let place: usize = selected - before;
        if place < left {
            Some(place)
        } else {
            Some(left - 1)
        }
    } else {
        None
    }
}

/// Deletes the places `items` from a playlist. `None` says that it has none of
/// them, and that nothing changed.
pub fn pl_del_item(
    songs: &mut Vec<SongInfo>,
    controls: &mut PlayerControls,
    pl_id: usize,
    items: &Vec<usize>,
    selected: Option<usize>,
) -> (r: Option<Deletion>)
    ensures
        song_views(final(songs)@) == kept(song_views(old(songs)@), items@),
        r is Some <==> dropped_before(items@, old(songs)@.len() as int) > 0,
        r is None ==> final(songs)@ == old(songs)@ && final(controls)@ == old(controls)@,
        r matches Some(d) ==> {
            let n = old(songs)@.len() as int;
            &&& d.removed@ == dropped_places(items@, n)
            &&& d.playing == (if pl_id == old(controls).list_id {
                after_deletion(items@, n, old(controls).track as int)
            } else {
                AfterDeletion::Unchanged
            })
            &&& final(controls)@ == old(controls)@.deleted(d.playing)
            &&& match selected {
                Some(sel) => match d.selected {
                    Some(place) => selection_after(items@, n, sel as int) == Some(place as int),
                    None => selection_after(items@, n, sel as int) is None,
                },
                None => d.selected is None,
            }
        },
{
    let ghost n = songs@.len() as int;
    let ghost all = songs@;
    let removed = remove_places(songs, items);
    proof {
        lemma_dropped_before(items@, n, n);
        lemma_kept_len(all, items@, 0);
        lemma_kept_views(all, items@, 0);
        if removed@.len() == 0 {
            lemma_nothing_dropped(all, items@, 0);
            assert(all.skip(0) =~= all);
        }
    }
    if removed.len() == 0 {
        return None;
    }
    let left: usize = songs.len();
    let playing: AfterDeletion = if pl_id == controls.list_id {
        playing_after(&removed, left, controls.track, Ghost(items@), Ghost(n))
    } else {
        AfterDeletion::Unchanged
    };
    match playing {
        AfterDeletion::Unchanged => {},
        AfterDeletion::Shifted(place) => {
            controls.track = place;
        },
        AfterDeletion::Switched(place) => {
            controls.track = place;
            controls.list_changed = true;
        },
        AfterDeletion::Emptied => {
            controls.list_changed = true;
            controls.to_next = false;
            controls.to_prev = false;
            controls.state = PlayerState::Idle;
        },
    }
    let moved: Option<usize> = match selected {
        Some(sel) => selected_after(&removed, left, sel, Ghost(items@), Ghost(n)),
        None => None,
    };
    Some(Deletion { removed, playing, selected: moved })
}

proof fn lemma_kept_views(songs: Seq<SongInfo>, items: Seq<usize>, from: int)
    requires
        0 <= from <= songs.len(),
    ensures
        song_views(kept_from(songs, items, from)) == kept_from(song_views(songs), items, from),
    decreases songs.len() - from,
{
    if from < songs.len() {
        lemma_kept_views(songs, items, from + 1);
        let rest = kept_from(songs, items, from + 1);
        if !is_dropped(items, from) {
            assert(song_views(seq![songs[from]] + rest) =~= seq![songs[from]@] + song_views(rest));
        }
    } else {
        assert(song_views(kept_from(songs, items, from)) =~= seq![]);
    }
}

proof fn lemma_nothing_dropped<T>(s: Seq<T>, items: Seq<usize>, from: int)
    requires
        0 <= from <= s.len(),
        dropped_before(items, s.len() as int) == 0,
    ensures
        kept_from(s, items, from) == s.skip(from),
    decreases s.len() - from,
{
    if from < s.len() {
        lemma_nothing_dropped(s, items, from + 1);
        lemma_dropped_before(items, from + 1, s.len() as int);
        lemma_dropped_before(items, from, from);
        assert(seq![s[from]] + s.skip(from + 1) =~= s.skip(from));
    } else {
        assert(s.skip(from) =~= seq![]);
    }
}

/// The songs that are to play once their playlists have been read, by path key.
pub struct PendingTracks {
    pub by_list: HashMap<usize, String>,
}

impl View for PendingTracks {
    type V = Map<usize, Seq<char>>;

    open spec fn view(&self) -> Map<usize, Seq<char>> {
        self.by_list@.map_values(|key: String| key@)
    }
}

impl PendingTracks {
    /// No song waits.
    pub fn new() -> (r: PendingTracks)
        ensures
            r@ == Map::<usize, Seq<char>>::empty(),
    {
        let r = PendingTracks { by_list: HashMap::new() };
        assert(r@ =~= Map::<usize, Seq<char>>::empty());
        r
    }

    /// Notes the song that is to play once the playlist has been read.
    pub fn set_pending_track_by_path(&mut self, li_id: usize, path: &str)
        ensures
            final(self)@ == old(self)@.insert(li_id, path_key(path@)),
    {
        let key = normalize_path_key(path);
        self.by_list.insert(li_id, key);
        assert(self@ =~= old(self)@.insert(li_id, path_key(path@)));
    }

    /// The place of the song that waits for the playlist. It waits no longer once
    /// it has been found, and goes on waiting where it is not in the list.
    pub fn try_resolve_pending_track_index(
        &mut self,
        li_id: usize,
        playlist: &Vec<SongInfo>,
    ) -> (r: Option<usize>)
        ensures
            r is Some <==> old(self)@.dom().contains(li_id) && first_with_key(
                song_views(playlist@),
                old(self)@[li_id],
            ) is Some,
            r matches Some(i) ==> i < playlist@.len() && first_with_key(
                song_views(playlist@),
                old(self)@[li_id],
            ) == Some(i as int),
            final(self)@ == (if r is Some {
                old(self)@.remove(li_id)
            } else {
                old(self)@
            }),
    {
        let taken = self.by_list.remove(&li_id);
        match taken {
            Some(key) => {
                let found = find_by_key(playlist, key.as_str());
                if found.is_none() {
                    self.by_list.insert(li_id, key);
                    assert(self@ =~= old(self)@);
                } else {
                    assert(self@ =~= old(self)@.remove(li_id));
                }
                found
            },
            None => {
                assert(self@ =~= old(self)@);
                None
            },
        }
    }
}

/// The playlists that are held in memory, by number.
pub struct PlaylistPool {
    pub lists: HashMap<usize, Vec<SongInfo>>,
}

impl View for PlaylistPool {
    type V = Map<usize, Seq<Song>>;

    open spec fn view(&self) -> Map<usize, Seq<Song>> {
        self.lists@.map_values(|songs: Vec<SongInfo>| song_views(songs@))
    }
}

impl PlaylistPool {
    /// No playlists.
    pub fn new() -> (r: PlaylistPool)
        ensures
            r@ == Map::<usize, Seq<Song>>::empty(),
    {
        let r = PlaylistPool { lists: HashMap::new() };
        assert(r@ =~= Map::<usize, Seq<Song>>::empty());
        r
    }

    /// Puts the songs of a playlist in place of those that it had.
    pub fn replace(&mut self, id: usize, songs: Vec<SongInfo>)
        ensures
            final(self)@ == old(self)@.insert(id, song_views(songs@)),
    {
        self.lists.insert(id, songs);
        assert(self@ =~= old(self)@.insert(id, song_views(songs@)));
    }

    /// Drops a playlist.
    pub fn forget(&mut self, id: usize)
        ensures
            final(self)@ == old(self)@.remove(id),
    {
        self.lists.remove(&id);
        assert(self@ =~= old(self)@.remove(id));
    }

    /// The playlist that plays: the active one, where it holds songs. `None` asks to
    /// wait until it does.
    pub fn get_active_playlist(&self, active: usize) -> (r: Option<&Vec<SongInfo>>)
        ensures
            r is Some <==> self@.contains_key(active) && self@[active].len() > 0,
            r matches Some(songs) ==> song_views(songs@) == self@[active],
    {
        match self.lists.get(&active) {
            Some(songs) => if songs.len() > 0 {
                Some(songs)
            } else {
                None
            },
            None => None,
        }
    }

    /// How many songs a playlist holds; `None` where it has to be read.
    pub fn playlist_len(&self, id: usize) -> (r: Option<usize>)
        ensures
            id == 0 ==> r == Some(0usize),
            id != 0 ==> (r is Some <==> self@.contains_key(id)),
            id != 0 ==> (r matches Some(n) ==> n == self@[id].len()),
    {
        if id == 0 {
            return Some(0);
        }
        match self.lists.get(&id) {
            Some(songs) => Some(songs.len()),
            None => None,
        }
    }
}

/// What is done to a playlist leaves the others as they are.
pub proof fn law_other_playlists_stay(
    pool: Map<usize, Seq<Song>>,
    id: usize,
    other: usize,
    songs: Seq<Song>,
)
    requires
        id != other,
    ensures
        pool.insert(id, songs)[id] == songs,
        pool.contains_key(other) ==> pool.insert(id, songs).contains_key(other) && pool.insert(
            id,
            songs,
        )[other] == pool[other],
        pool.remove(id).contains_key(other) == pool.contains_key(other),
{
}

/// A sequence after the places `items` were taken out one by one, each shifting
/// what stands behind it.
pub open spec fn taken_one_by_one<T>(s: Seq<T>, items: Seq<usize>) -> Seq<T>
    decreases items.len(),
{
    if items.len() == 0 {
        s
    } else {
        taken_one_by_one(s, items.drop_last()).remove(items.last() as int)
    }
}

/// Places that fall may be taken out one by one: what is left is what is left
/// without them all.
pub proof fn law_falling_places_go_one_by_one<T>(s: Seq<T>, items: Seq<usize>)
    requires
        forall|i: int, j: int|
            0 <= i < j < items.len() ==> #[trigger] items[i] > #[trigger] items[j],
        forall|i: int| 0 <= i < items.len() ==> (#[trigger] items[i]) < s.len(),
    ensures
        taken_one_by_one(s, items) == kept(s, items),
    decreases items.len(),
{
    if items.len() == 0 {
        lemma_kept_start(s, items, 0, s.len() as int);
        assert(kept_from(s, items, s.len() as int) =~= seq![]);
        assert(kept(s, items) =~= s);
    } else {
        let front = items.drop_last();
        let p = items.last() as int;
        assert forall|i: int, j: int| 0 <= i < j < front.len() implies #[trigger] front[i]
            > #[trigger] front[j] by {
            assert(items[i] > items[j]);
        }
        assert forall|i: int| 0 <= i < front.len() implies (#[trigger] front[i]) < s.len() by {
            assert(items[i] < s.len());
        }
        law_falling_places_go_one_by_one(s, front);
        assert forall|k: int| 0 <= k <= p implies !is_dropped(front, k) by {
            if is_dropped(front, k) {
                let m = choose|m: int| 0 <= m < front.len() && #[trigger] front[m] == k;
                assert(items[m] > items[items.len() - 1]);
            }
        }
        assert forall|k: int| is_dropped(items, k) == (is_dropped(front, k) || k == p) by {
            if is_dropped(front, k) {
                let m = choose|m: int| 0 <= m < front.len() && #[trigger] front[m] == k;
                assert(items[m] == k);
            }
            if is_dropped(items, k) && k != p {
                let m = choose|m: int| 0 <= m < items.len() && #[trigger] items[m] == k;
                assert(front[m] == k);
            }
            if k == p {
                assert(items[items.len() - 1] == k);
            }
        }
        let tail = kept_from(s, front, p + 1);
        lemma_kept_start(s, front, 0, p + 1);
        lemma_kept_start(s, items, 0, p);
        lemma_kept_same(s, front, items, p + 1);
        assert(kept_from(s, items, p) == tail);
        assert(s[items[items.len() - 1] as int] == s[p]);
        assert(kept(s, front) =~= s.take(p + 1) + tail);
        assert((s.take(p + 1) + tail).remove(p) =~= s.take(p) + tail);
    }
}

proof fn lemma_kept_start<T>(s: Seq<T>, items: Seq<usize>, from: int, to: int)
    requires
        0 <= from <= to <= s.len(),
        forall|k: int| from <= k < to ==> !#[trigger] is_dropped(items, k),
    ensures
        kept_from(s, items, from) == s.subrange(from, to) + kept_from(s, items, to),
    decreases to - from,
{
    if from < to {
        lemma_kept_start(s, items, from + 1, to);
        assert(!is_dropped(items, from));
        assert(s.subrange(from, to) =~= seq![s[from]] + s.subrange(from + 1, to));
    }
    assert(kept_from(s, items, from) =~= s.subrange(from, to) + kept_from(s, items, to));
}

proof fn lemma_kept_same<T>(s: Seq<T>, a: Seq<usize>, b: Seq<usize>, from: int)
    requires
        forall|k: int| from <= k ==> #[trigger] is_dropped(a, k) == is_dropped(b, k),
    ensures
        kept_from(s, a, from) == kept_from(s, b, from),
    decreases s.len() - from,
{
    if from < s.len() {
        assert(is_dropped(a, from) == is_dropped(b, from));
        lemma_kept_same(s, a, b, from + 1);
    }
}

/// The places that are reported as deleted are those that were asked for and there, each
/// once, the highest first.
pub proof fn law_deleted_places_fall(items: Seq<usize>, n: int)
    requires
        0 <= n <= usize::MAX,
    ensures
        forall|i: int| 0 <= i < n && is_dropped(items, i) ==> dropped_places(items, n).contains(
            #[trigger] (i as usize),
        ),
        forall|k: int|
            0 <= k < dropped_places(items, n).len() ==> (#[trigger] dropped_places(items, n)[k]) < n
                && is_dropped(items, dropped_places(items, n)[k] as int),
        forall|j: int, k: int|
            0 <= j < k < dropped_places(items, n).len() ==> #[trigger] dropped_places(items, n)[j]
                > #[trigger] dropped_places(items, n)[k],
    decreases n,
{
    if n > 0 {
        law_deleted_places_fall(items, n - 1);
        let (all, rest) = (dropped_places(items, n), dropped_places(items, n - 1));
        if is_dropped(items, n - 1) {
            assert(all =~= seq![(n - 1) as usize] + rest);
            assert(all[0] == n - 1);
            assert forall|k: int| 0 <= k < all.len() implies (#[trigger] all[k]) < n && is_dropped(
                items,
                all[k] as int,
            ) by {
                if k > 0 {
                    assert(all[k] == rest[k - 1]);
                }
            }
            assert forall|j: int, k: int| 0 <= j < k < all.len() implies #[trigger] all[j]
                > #[trigger] all[k] by {
                assert(all[k] == rest[k - 1]);
                if j > 0 {
                    assert(all[j] == rest[j - 1]);
                }
            }
            assert forall|i: int| 0 <= i < n && is_dropped(items, i) implies all.contains(
                #[trigger] (i as usize),
            ) by {
                if i < n - 1 {
                    assert(rest.contains(i as usize));
                    let k = choose|k: int| 0 <= k < rest.len() && rest[k] == i as usize;
                    assert(all[k + 1] == i as usize);
                }
            }
        }
    }
}

/// What is left of a list are the songs that were not asked for, and only those, in their
/// order: the list is as long as it was, less the places that are reported.
pub proof fn law_only_the_asked_for_are_deleted<T>(s: Seq<T>, items: Seq<usize>, i: int, j: int)
    requires
        0 <= i < j < s.len(),
        !is_dropped(items, i),
        !is_dropped(items, j),
    ensures
        kept(s, items).contains(s[i]),
        i - dropped_before(items, i) < j - dropped_before(items, j),
        kept(s, items).len() + dropped_places(items, s.len() as int).len() == s.len(),
{
    law_what_is_kept_stays_in_order(s, items, i);
    lemma_dropped_between(items, i, j);
    lemma_dropped_places_len(items, s.len() as int);
    assert(kept(s, items)[i - dropped_before(items, i)] == s[i]);
}

proof fn lemma_dropped_between(items: Seq<usize>, i: int, j: int)
    requires
        0 <= i < j,
        !is_dropped(items, i),
    ensures
        dropped_before(items, j) - dropped_before(items, i) <= j - i - 1,
    decreases j,
{
    if j > i + 1 {
        lemma_dropped_between(items, i, j - 1);
    }
}

proof fn lemma_dropped_places_len(items: Seq<usize>, n: int)
    ensures
        n >= 0 ==> dropped_places(items, n).len() == dropped_before(items, n),
    decreases n,
{
    if n > 0 {
        lemma_dropped_places_len(items, n - 1);
    }
}

/// A selected song that is kept stays selected: where the selection moves, it moves to the
/// new place of that song, and where it does not, the song is where it was.
pub proof fn law_selected_song_stays_selected<T>(s: Seq<T>, items: Seq<usize>, selected: int)
    requires
        0 <= selected < s.len(),
        !is_dropped(items, selected),
    ensures
        match selection_after(items, s.len() as int, selected) {
            Some(place) => 0 <= place < kept(s, items).len() && kept(s, items)[place] == s[selected],
            None => kept(s, items)[selected] == s[selected],
        },
{
    law_what_is_kept_stays_in_order(s, items, selected);
    lemma_dropped_before(items, selected, selected);
}

/// Where the selected song is deleted, the selection goes to the song that takes its place,
/// or to the last one; an empty list has none.
pub proof fn law_selection_goes_to_the_next<T>(s: Seq<T>, items: Seq<usize>, selected: int)
    requires
        0 <= selected < s.len(),
        is_dropped(items, selected),
    ensures
        kept(s, items).len() == 0 ==> selection_after(items, s.len() as int, selected) is None,
        kept(s, items).len() > 0 ==> {
            let place = selected - dropped_before(items, selected);
            selection_after(items, s.len() as int, selected) == Some(
                if place < kept(s, items).len() {
                    place
                } else {
                    kept(s, items).len() - 1
                },
            )
        },
{
    lemma_kept_len(s, items, 0);
    lemma_dropped_before(items, selected, s.len() as int);
}

/// The song that plays in the place of a deleted one is the next one that is kept, or the
/// last one of the list.
pub proof fn law_next_kept_song_plays<T>(s: Seq<T>, items: Seq<usize>, current: int, next: int)
    requires
        0 <= current < next < s.len() <= usize::MAX,
        is_dropped(items, current),
        !is_dropped(items, next),
        forall|k: int| current <= k < next ==> #[trigger] is_dropped(items, k),
    ensures
        after_deletion(items, s.len() as int, current) is Switched,
        kept(s, items)[after_deletion(items, s.len() as int, current)->Switched_0 as int] == s[next],
{
    law_what_is_kept_stays_in_order(s, items, next);
    lemma_all_dropped(items, current, next);
    lemma_dropped_before(items, current, s.len() as int);
    lemma_kept_len(s, items, 0);
}

proof fn lemma_all_dropped(items: Seq<usize>, from: int, to: int)
    requires
        0 <= from <= to,
        forall|k: int| from <= k < to ==> #[trigger] is_dropped(items, k),
    ensures
        dropped_before(items, to) == dropped_before(items, from) + to - from,
    decreases to,
{
    if to > from {
        lemma_all_dropped(items, from, to - 1);
        assert(is_dropped(items, to - 1));
    }
}

/// The player follows a deletion: it goes on with a song that is kept, starts anew where the
/// song it plays was deleted, and is idle where nothing is left.
pub proof fn law_player_follows_a_deletion(c: Controls, place: usize)
    ensures
        c.deleted(AfterDeletion::Unchanged) == c,
        ({
            let d = c.deleted(AfterDeletion::Shifted(place));
            d.track == place && d.list_changed == c.list_changed && d.state == c.state && d.to_next
                == c.to_next && d.to_prev == c.to_prev && d.to_pos_ms == c.to_pos_ms
        }),
        ({
            let d = c.deleted(AfterDeletion::Switched(place));
            d.track == place && d.list_changed && d.state == c.state && d.to_next == c.to_next
        }),
        ({
            let d = c.deleted(AfterDeletion::Emptied);
            d.state == PlayerState::Idle && d.list_changed && !d.to_next && !d.to_prev
                && d.list_id == c.list_id
        }),
{
}

} // verus!
