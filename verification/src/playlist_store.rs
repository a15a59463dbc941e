//! Playlists in the database: the rows of their songs, their identifiers, and
//! what of the last session is taken up again.

use crate::path::{normalize_path_key, path_key};
use crate::playlist_request::PLAYLIST_NAME_USER;
use crate::song::{format_time, song_views, time_text, Song, SongInfo};
use crate::tags::{genre_end, genres_from, genres_of, parts_genres, split_genres};
use crate::text::{concat, decimal, decimal_string, join, joined_by, same_text, trim, trimmed};
use vstd::prelude::*;

verus! {

/// The playlist that the user fills.
pub const PLAYLIST_ID_USER: usize = 1;

/// The playlist that holds the whole library.
pub const PLAYLIST_ID_DEFAULT: usize = 2;

/// The name of the playlist that holds the whole library.
pub const PLAYLIST_NAME_DEFAULT: &'static str = "默认";

/// A song of a playlist as the database holds it.
pub struct ItemRow {
    pub path: String,
    pub file_size: i64,
    pub title: String,
    pub author: String,
    pub album_artist: String,
    pub album: String,
    pub track_number: i64,
    pub album_track_count: i64,
    pub genres: String,
    pub duration_ms: i64,
    pub duration_text: String,
    pub codec: String,
    pub has_cover: bool,
}

/// A row with its texts taken by view.
#[verifier::ext_equal]
pub struct Item {
    pub path: Seq<char>,
    pub file_size: i64,
    pub title: Seq<char>,
    pub author: Seq<char>,
    pub album_artist: Seq<char>,
    pub album: Seq<char>,
    pub track_number: i64,
    pub album_track_count: i64,
    pub genres: Seq<char>,
    pub duration_ms: i64,
    pub duration_text: Seq<char>,
    pub codec: Seq<char>,
    pub has_cover: bool,
}

impl View for ItemRow {
    type V = Item;

    open spec fn view(&self) -> Item {
        Item {
            path: self.path@,
            file_size: self.file_size,
            title: self.title@,
            author: self.author@,
            album_artist: self.album_artist@,
            album: self.album@,
            track_number: self.track_number,
            album_track_count: self.album_track_count,
            genres: self.genres@,
            duration_ms: self.duration_ms,
            duration_text: self.duration_text@,
            codec: self.codec@,
            has_cover: self.has_cover,
        }
    }
}

/// The text for a length: the one that is there, or one that is made where the
/// length is known.
pub open spec fn length_text(text: Seq<char>, ms: nat) -> Seq<char> {
    if text.len() > 0 {
        text
    } else if ms > 0 {
        time_text(ms)
    } else {
        Seq::empty()
    }
}

/// A size as the database holds it: at most the highest signed number.
pub open spec fn stored_size(n: u64) -> i64 {
    if n <= i64::MAX {
        n as i64
    } else {
        i64::MAX
    }
}

/// The row of a song.
pub open spec fn item_of(song: Song) -> Item {
    Item {
        path: song.path,
        file_size: stored_size(song.file_size),
        title: song.title,
        author: song.author,
        album_artist: song.album_artist,
        album: song.album,
        track_number: (song.track_number as i32) as i64,
        album_track_count: (song.album_track_count as i32) as i64,
        genres: joined_by(song.genres, ';'),
        duration_ms: song.duration_ms as i64,
        duration_text: length_text(song.duration_text, song.duration_ms as nat),
        codec: song.codec,
        has_cover: song.has_cover,
    }
}

/// The song of a row; a row without a path is none.
pub open spec fn song_of(item: Item) -> Option<Song> {
    if item.path.len() == 0 {
        None
    } else {
        let duration_ms = item.duration_ms as u64;
        Some(
            Song {
                file_size: if item.file_size < 0 {
                    0
                } else {
                    item.file_size as u64
                },
                title: item.title,
                author: item.author,
                album_artist: if item.album_artist.len() == 0 {
                    item.author
                } else {
                    item.album_artist
                },
                album: item.album,
                track_number: item.track_number as u32,
                album_track_count: item.album_track_count as u32,
                genres: genres_of(item.genres),
                duration_ms,
                duration_text: if duration_ms > 0 {
                    length_text(item.duration_text, duration_ms as nat)
                } else {
                    Seq::empty()
                },
                codec: item.codec,
                has_cover: item.has_cover,
                ..Song::at(item.path)
            },
        )
    }
}

/// The row of a song.
pub fn item_row(song: &SongInfo) -> (r: ItemRow)
    ensures
        r@ == item_of(song@),
{
    let duration_text: String = if !song.duration_text.as_str().is_empty() {
        song.duration_text.clone()
    } else if song.duration_ms > 0 {
        format_time(song.duration_ms)
    } else {
        String::new()
    };
    let file_size: i64 = if song.file_size <= i64::MAX as u64 {
        song.file_size as i64
    } else {
        i64::MAX
    };
    let r = ItemRow {
        path: song.path.clone(),
        file_size,
        title: song.title.clone(),
        author: song.author.clone(),
        album_artist: song.album_artist.clone(),
        album: song.album.clone(),
        track_number: (song.track_number as i32) as i64,
        album_track_count: (song.album_track_count as i32) as i64,
        genres: join(&song.genres, ';'),
        duration_ms: song.duration_ms as i64,
        duration_text,
        codec: song.codec.clone(),
        has_cover: song.has_cover,
    };
    assert(r@ =~= item_of(song@));
    r
}

/// The song of a row.
pub fn song_from_item(row: ItemRow) -> (r: Option<SongInfo>)
    ensures
        r is Some <==> song_of(row@) is Some,
        r matches Some(song) ==> Some(song@) == song_of(row@),
{
    if row.path.as_str().is_empty() {
        return None;
    }
    let mut song = SongInfo::at(row.path.as_str());
    song.file_size = if row.file_size < 0 {
        0
    } else {
        row.file_size as u64
    };
    song.title = row.title;
    song.album_artist = if row.album_artist.as_str().is_empty() {
        row.author.clone()
    } else {
        row.album_artist
    };
    song.author = row.author;
    song.album = row.album;
    song.track_number = row.track_number as u32;
    song.album_track_count = row.album_track_count as u32;
    song.genres = split_genres(row.genres.as_str());
    song.duration_ms = row.duration_ms as u64;
    song.duration_text = if song.duration_ms > 0 {
        if !row.duration_text.as_str().is_empty() {
            row.duration_text
        } else {
            format_time(song.duration_ms)
        }
    } else {
        String::new()
    };
    song.codec = row.codec;
    song.has_cover = row.has_cover;
    assert(song_of(row@) is Some);
    assert(song@ =~= song_of(row@)->0);
    Some(song)
}

/// Whether a genre is read back from a row as it was written: it is not empty,
/// has no white space around it, and nothing in it parts genres.
pub open spec fn is_clean_genre(g: Seq<char>) -> bool {
    &&& g.len() > 0
    &&& trimmed(g) == g
    &&& forall|i: int| 0 <= i < g.len() ==> !parts_genres(#[trigger] g[i])
}

/// What a song becomes by being written and read.
pub open spec fn settled(song: Song) -> Song {
    Song {
        file_size: stored_size(song.file_size) as u64,
        album_artist: if song.album_artist.len() == 0 {
            song.author
        } else {
            song.album_artist
        },
        duration_text: if song.duration_ms > 0 {
            length_text(song.duration_text, song.duration_ms as nat)
        } else {
            Seq::empty()
        },
        ..song
    }
}

proof fn lemma_no_genre_end(s: Seq<char>, from: int)
    requires
        0 <= from <= s.len(),
        forall|i: int| from <= i < s.len() ==> !parts_genres(#[trigger] s[i]),
    ensures
        genre_end(s, from) == s.len(),
    decreases s.len() - from,
{
    if from < s.len() {
        lemma_no_genre_end(s, from + 1);
    }
}

proof fn lemma_genre_end_of_longer(s: Seq<char>, t: Seq<char>, from: int)
    requires
        0 <= from <= s.len(),
    ensures
        from <= genre_end(s, from) <= s.len(),
        genre_end(s.push(';') + t, from) == genre_end(s, from),
    decreases s.len() - from,
{
    let whole = s.push(';') + t;
    if from < s.len() {
        assert(whole[from] == s[from]);
        lemma_genre_end_of_longer(s, t, from + 1);
    } else {
        assert(whole[from] == ';');
    }
}

proof fn lemma_one_more_genre(s: Seq<char>, t: Seq<char>, from: int)
    requires
        0 <= from <= s.len(),
        is_clean_genre(t),
    ensures
        genres_from(s.push(';') + t, from) == genres_from(s, from) + seq![t],
    decreases s.len() - from,
{
    let whole = s.push(';') + t;
    let end = genre_end(s, from);
    lemma_genre_end_of_longer(s, t, from);
    assert(whole.subrange(from, end) =~= s.subrange(from, end));
    if end < s.len() {
        lemma_one_more_genre(s, t, end + 1);
        assert(genres_from(whole, from) =~= genres_from(s, from) + seq![t]);
    } else {
        let last = s.len() + 1;
        assert forall|i: int| last <= i < whole.len() implies !parts_genres(
            #[trigger] whole[i],
        ) by {
            assert(whole[i] == t[i - last]);
        }
        lemma_no_genre_end(whole, last as int);
        assert(whole.subrange(last as int, whole.len() as int) =~= t);
        assert(genres_from(whole, last as int) == seq![t]);
        assert(genres_from(whole, from) =~= genres_from(s, from) + seq![t]);
    }
}

/// Clean genres that were written into one text are read from it again.
pub proof fn law_genres_round_trip(genres: Seq<Seq<char>>)
    requires
        forall|i: int| 0 <= i < genres.len() ==> is_clean_genre(#[trigger] genres[i]),
    ensures
        genres_of(joined_by(genres, ';')) == genres,
    decreases genres.len(),
{
    if genres.len() == 0 {
        assert(trimmed(joined_by(genres, ';').subrange(0, 0)).len() == 0);
        assert(genres_of(joined_by(genres, ';')) =~= genres);
    } else if genres.len() == 1 {
        let t = genres[0];
        assert(is_clean_genre(t));
        lemma_no_genre_end(t, 0);
        assert(t.subrange(0, t.len() as int) =~= t);
        assert(genres_of(joined_by(genres, ';')) =~= genres);
    } else {
        let front = genres.drop_last();
        assert forall|i: int| 0 <= i < front.len() implies is_clean_genre(#[trigger] front[i]) by {
            assert(front[i] == genres[i]);
        }
        law_genres_round_trip(front);
        assert(is_clean_genre(genres.last()));
        lemma_one_more_genre(joined_by(front, ';'), genres.last(), 0);
        assert(front + seq![genres.last()] =~= genres);
    }
}

/// A song that was written to a playlist is read from it again: what was not
/// told of it is filled in, and nothing else changes.
pub proof fn law_stored_song_is_read_back(song: Song)
    requires
        song.path.len() > 0,
        forall|i: int| 0 <= i < song.genres.len() ==> is_clean_genre(#[trigger] song.genres[i]),
    ensures
        song_of(item_of(song)) == Some(settled(song)),
        settled(settled(song)) == settled(song),
{
    law_genres_round_trip(song.genres);
    let n = song.track_number;
    let m = song.album_track_count;
    let d = song.duration_ms;
    assert(((n as i32) as i64) as u32 == n) by (bit_vector);
    assert(((m as i32) as i64) as u32 == m) by (bit_vector);
    assert((d as i64) as u64 == d) by (bit_vector);
    if d > 0 {
        crate::song::law_time_text_length(d as nat);
        assert(length_text(song.duration_text, d as nat).len() > 0);
    }
    assert(song_of(item_of(song))->0 =~= settled(song));
    assert(settled(settled(song)) =~= settled(song));
}

/// The songs of some rows, without the rows that are none.
pub open spec fn songs_of(items: Seq<Item>) -> Seq<Song>
    decreases items.len(),
{
    if items.len() == 0 {
        seq![]
    } else {
        match song_of(items.last()) {
            Some(song) => songs_of(items.drop_last()).push(song),
            None => songs_of(items.drop_last()),
        }
    }
}

/// The rows by view.
pub open spec fn item_views(rows: Seq<ItemRow>) -> Seq<Item> {
    rows.map_values(|row: ItemRow| row@)
}

/// The songs of a playlist from its rows.
pub fn load_playlist_items(rows: Vec<ItemRow>) -> (r: Vec<SongInfo>)
    ensures
        song_views(r@) == songs_of(item_views(rows@)),
{
    let ghost views = item_views(rows@);
    let mut songs: Vec<SongInfo> = Vec::new();
    assert(song_views(songs@) =~= songs_of(views.take(0)));
    for row in it: rows
        invariant
            it.seq() == rows@,
            views == item_views(rows@),
            song_views(songs@) == songs_of(views.take(it.index() as int)),
    {
        let ghost i = it.index() as int;
        proof {
            assert(views.take(i + 1).drop_last() =~= views.take(i));
            assert(views.take(i + 1).last() == rows@[i]@);
        }
        let ghost before = songs@;
        match song_from_item(row) {
            Some(song) => {
                songs.push(song);
                assert(song_views(songs@) =~= song_views(before).push(song@));
            },
            None => {},
        }
    }
    assert(views.take(rows@.len() as int) =~= views);
    songs
}

/// The marks that say which songs were played at random, by path key.
pub open spec fn mark_views(marks: Seq<(String, i64)>) -> Seq<(Seq<char>, i64)> {
    marks.map_values(|m: (String, i64)| (m.0@, m.1))
}

/// The marks of some rows: those that are set, of the rows with a path.
pub open spec fn marks_of(rows: Seq<(Seq<char>, i64)>) -> Seq<(Seq<char>, i64)>
    decreases rows.len(),
{
    if rows.len() == 0 {
        seq![]
    } else {
        let front = marks_of(rows.drop_last());
        let (path, mark) = rows.last();
        if trimmed(path).len() > 0 && mark != 0 {
            front.push((path_key(path), mark))
        } else {
            front
        }
    }
}

/// The mark of a path key, the last one that is there; zero where there is none.
pub open spec fn mark_of(marks: Seq<(Seq<char>, i64)>, key: Seq<char>) -> i64
    decreases marks.len(),
{
    if marks.len() == 0 {
        0
    } else if marks.last().0 == key {
        marks.last().1
    } else {
        mark_of(marks.drop_last(), key)
    }
}

/// The marks that some rows hold, by path key.
pub fn collect_random_played(rows: &Vec<(String, i64)>) -> (r: Vec<(String, i64)>)
    ensures
        mark_views(r@) == marks_of(mark_views(rows@)),
{
    let ghost views = mark_views(rows@);
    let mut r: Vec<(String, i64)> = Vec::new();
    let mut i: usize = 0;
    while i < rows.len()
        invariant
            i <= rows@.len(),
            views == mark_views(rows@),
            mark_views(r@) == marks_of(views.take(i as int)),
        decreases rows@.len() - i,
    {
        proof {
            assert(views.take(i + 1).drop_last() =~= views.take(i as int));
            assert(views.take(i + 1).last() == (rows@[i as int].0@, rows@[i as int].1));
        }
        let inner = trim(rows[i].0.as_str());
        if !inner.as_str().is_empty() && rows[i].1 != 0 {
            let ghost before = r@;
            let key = normalize_path_key(rows[i].0.as_str());
            r.push((key, rows[i].1));
            assert(mark_views(r@) =~= mark_views(before).push((key@, rows@[i as int].1)));
        }
        i += 1;
    }
    assert(views.take(rows@.len() as int) =~= views);
    r
}

/// The mark of a song.
pub fn random_played_of(marks: &Vec<(String, i64)>, path: &str) -> (r: i64)
    ensures
        r == mark_of(mark_views(marks@), path_key(path@)),
{
    let key = normalize_path_key(path);
    let ghost views = mark_views(marks@);
    let mut i: usize = marks.len();
    assert(views.take(marks@.len() as int) =~= views);
    while i > 0
        invariant
            i <= marks@.len(),
            views == mark_views(marks@),
            key@ == path_key(path@),
            mark_of(views, key@) == mark_of(views.take(i as int), key@),
        decreases i,
    {
        proof {
            assert(views.take(i as int).drop_last() =~= views.take(i - 1));
            assert(views.take(i as int).last() == (marks@[i - 1].0@, marks@[i - 1].1));
        }
        i -= 1;
        if same_text(marks[i].0.as_str(), key.as_str()) {
            return marks[i].1;
        }
    }
    0
}

/// The rows that replace those of a playlist. A song that stays keeps its mark.
pub fn replacement_rows(songs: &Vec<SongInfo>, old_rows: &Vec<(String, i64)>) -> (r: Vec<
    (ItemRow, i64),
>)
    ensures
        r@.len() == songs@.len(),
        forall|i: int|
            0 <= i < songs@.len() ==> (#[trigger] r@[i]).0@ == item_of(songs@[i]@) && r@[i].1
                == mark_of(marks_of(mark_views(old_rows@)), path_key(songs@[i].path@)),
{
    let marks = collect_random_played(old_rows);
    let mut r: Vec<(ItemRow, i64)> = Vec::new();
    let mut i: usize = 0;
    while i < songs.len()
        invariant
            i <= songs@.len(),
            r@.len() == i,
            mark_views(marks@) == marks_of(mark_views(old_rows@)),
            forall|k: int|
                0 <= k < i ==> (#[trigger] r@[k]).0@ == item_of(songs@[k]@) && r@[k].1 == mark_of(
                    marks_of(mark_views(old_rows@)),
                    path_key(songs@[k].path@),
                ),
        decreases songs@.len() - i,
    {
        let row = item_row(&songs[i]);
        let mark: i64 = random_played_of(&marks, songs[i].path.as_str());
        r.push((row, mark));
        i += 1;
    }
    r
}

/// The place of the first song that is added behind those of a playlist, whose
/// highest place is `last`; minus one says that it has none.
pub fn append_start(last: Option<i64>) -> (r: usize)
    requires
        last matches Some(n) ==> n < i64::MAX && n + 1 <= usize::MAX,
    ensures
        r == (match last {
            Some(n) => if n + 1 < 0 {
                0
            } else {
                n + 1
            },
            None => 0,
        }),
{
    match last {
        Some(n) => if n < -1 {
            0
        } else {
            (n + 1) as usize
        },
        None => 0,
    }
}

/// The places that a random pick can take: those that are not marked, without
/// the current one.
pub open spec fn unplayed(played: Seq<bool>, current: int) -> Seq<int>
    decreases played.len(),
{
    if played.len() == 0 {
        seq![]
    } else {
        let front = unplayed(played.drop_last(), current);
        let i = played.len() - 1;
        if !played.last() && i != current {
            front.push(i)
        } else {
            front
        }
    }
}

/// No place is marked but this one.
pub open spec fn only_marked(len: nat, place: int) -> Seq<bool> {
    Seq::new(len, |i: int| i == place)
}

/// A pick from the places that are not marked. `draw` says which one.
pub open spec fn picked(played: Seq<bool>, current: int, draw: nat) -> Option<int> {
    let places = unplayed(played, current);
    if places.len() == 0 {
        None
    } else {
        Some(places[(draw % places.len()) as int])
    }
}

fn pick_unplayed(played: &Vec<bool>, current: usize, draw: u64) -> (r: Option<usize>)
    ensures
        match r {
            Some(i) => picked(played@, current as int, draw as nat) == Some(i as int),
            None => picked(played@, current as int, draw as nat) is None,
        },
{
    let mut places: Vec<usize> = Vec::new();
    let n: usize = played.len();
    let mut i: usize = 0;
    while i < n
        invariant
            n == played@.len(),
            i <= n,
            places@.len() <= i,
            places@.map_values(|p: usize| p as int) == unplayed(
                played@.take(i as int),
                current as int,
            ),
        decreases n - i,
    {
        assert(played@.take(i + 1).drop_last() =~= played@.take(i as int));
        if !played[i] && i != current {
            let ghost before = places@;
            places.push(i);
            assert(places@.map_values(|p: usize| p as int) =~= before.map_values(
                |p: usize| p as int,
            ).push(i as int));
        }
        i += 1;
    }
    assert(played@.take(n as int) =~= played@);
    let m: usize = places.len();
    if m == 0 {
        return None;
    }
    let k: usize = (draw % (m as u64)) as usize;
    assert(unplayed(played@, current as int)[k as int] == places@[k as int] as int);
    Some(places[k])
}

proof fn lemma_unplayed(played: Seq<bool>, current: int)
    ensures
        unplayed(played, current).len() <= played.len(),
        forall|k: int|
            0 <= k < unplayed(played, current).len() ==> {
                let i = #[trigger] unplayed(played, current)[k];
                0 <= i < played.len() && i != current && !played[i]
            },
        unplayed(played, current).len() == 0 <==> forall|i: int|
            0 <= i < played.len() && i != current ==> #[trigger] played[i],
    decreases played.len(),
{
    if played.len() > 0 {
        let shorter = played.drop_last();
        let front = unplayed(shorter, current);
        lemma_unplayed(shorter, current);
        assert forall|k: int| 0 <= k < unplayed(played, current).len() implies {
            let i = #[trigger] unplayed(played, current)[k];
            0 <= i < played.len() && i != current && !played[i]
        } by {
            if k < front.len() {
                assert(unplayed(played, current)[k] == front[k]);
                assert(played[front[k]] == shorter[front[k]]);
            }
        }
        if unplayed(played, current).len() == 0 {
            assert forall|i: int| 0 <= i < played.len() && i != current implies #[trigger] played[i] by {
                if i < shorter.len() {
                    assert(shorter[i]);
                }
            }
        }
        if forall|i: int| 0 <= i < played.len() && i != current ==> #[trigger] played[i] {
            assert forall|i: int| 0 <= i < shorter.len() && i != current implies #[trigger] shorter[i] by {
                assert(played[i]);
            }
            let last = played.len() - 1;
            assert(last != current ==> played[last]);
        }
    }
}

/// The marks and the pick after a random step from place `current`: the current
/// song is marked, an unmarked one is picked and marked. Where there is none
/// left, all marks but the current one are taken back first.
pub open spec fn shuffled(played: Seq<bool>, current: int, draw: nat) -> (Seq<bool>, Option<int>) {
    let noted = played.update(current, true);
    match picked(noted, current, draw) {
        Some(i) => (noted.update(i, true), Some(i)),
        None => {
            let fresh = only_marked(played.len(), current);
            match picked(fresh, current, draw) {
                Some(i) => (fresh.update(i, true), Some(i)),
                None => (fresh, None),
            }
        },
    }
}

/// The place to play after `current`, picked at random from those that were not
/// played yet.
pub fn random_next_playlist_idx(played: &mut Vec<bool>, current_idx: usize, draw: u64) -> (r: Option<
    usize,
>)
    ensures
        final(played)@.len() == old(played)@.len(),
        r is Some <==> old(played)@.len() > 1,
        r is None ==> final(played)@ == old(played)@,
        r matches Some(i) ==> {
            let cur = if current_idx < old(played)@.len() {
                current_idx as int
            } else {
                old(played)@.len() - 1
            };
            let (after, pick) = shuffled(old(played)@, cur, draw as nat);
            pick == Some(i as int) && final(played)@ == after && i < old(played)@.len() && i != cur
        },
{
    let n: usize = played.len();
    if n <= 1 {
        return None;
    }
    let cur: usize = if current_idx < n {
        current_idx
    } else {
        n - 1
    };
    let ghost before = played@;
    played.set(cur, true);
    let ghost noted = played@;
    proof {
        lemma_unplayed(noted, cur as int);
    }
    let mut pick: Option<usize> = pick_unplayed(played, cur, draw);
    if pick.is_none() {
        let mut i: usize = 0;
        while i < n
            invariant
                n == played@.len(),
                i <= n,
                cur < n,
                forall|k: int| 0 <= k < i ==> #[trigger] played@[k] == (k == cur),
            decreases n - i,
        {
            played.set(i, i == cur);
            i += 1;
        }
        assert(played@ =~= only_marked(before.len(), cur as int));
        proof {
            lemma_unplayed(played@, cur as int);
            let other: int = if cur == 0 {
                1
            } else {
                0
            };
            assert(!played@[other]);
        }
        pick = pick_unplayed(played, cur, draw);
    }
    match pick {
        Some(i) => {
            played.set(i, true);
            Some(i)
        },
        None => None,
    }
}

/// A random step never repeats the current song, and takes up a song that was
/// played before only when every other one was.
pub proof fn law_shuffle_plays_all_before_it_repeats(played: Seq<bool>, current: int, draw: nat)
    requires
        0 <= current < played.len(),
        played.len() > 1,
    ensures
        ({
            let (after, pick) = shuffled(played, current, draw);
            &&& pick is Some
            &&& 0 <= pick->0 < played.len()
            &&& pick->0 != current
            &&& after.len() == played.len()
            &&& after[current] && after[pick->0]
            &&& played[pick->0] ==> forall|i: int|
                0 <= i < played.len() && i != current ==> #[trigger] played[i]
        }),
{
    let noted = played.update(current, true);
    let fresh = only_marked(played.len(), current);
    lemma_unplayed(noted, current);
    lemma_unplayed(fresh, current);
    let other: int = if current == 0 {
        1
    } else {
        0
    };
    assert(!fresh[other]);
    match picked(noted, current, draw) {
        Some(i) => {
            let places = unplayed(noted, current);
            let k = (draw % places.len()) as int;
            assert(places[k] == i);
            assert(!noted[i]);
        },
        None => {
            assert forall|i: int| 0 <= i < played.len() && i != current implies #[trigger] played[i] by {
                assert(noted[i]);
            }
            let places = unplayed(fresh, current);
            let k = (draw % places.len()) as int;
            assert(!fresh[places[k]]);
        },
    }
}

/// The places of a song in the playlists, gathered by playlist.
pub open spec fn gathered(rows: Seq<(usize, usize)>) -> Seq<(usize, Seq<usize>)>
    decreases rows.len(),
{
    if rows.len() == 0 {
        seq![]
    } else {
        let front = gathered(rows.drop_last());
        let (list, place) = rows.last();
        if front.len() > 0 && front.last().0 == list {
            front.drop_last().push((list, front.last().1.push(place)))
        } else {
            front.push((list, seq![place]))
        }
    }
}

/// A gathered list by view.
pub open spec fn plan_views(plan: Seq<(usize, Vec<usize>)>) -> Seq<(usize, Seq<usize>)> {
    plan.map_values(|p: (usize, Vec<usize>)| (p.0, p.1@))
}

/// Whether rows come ordered by playlist, the highest place first.
pub open spec fn is_plan_order(rows: Seq<(usize, usize)>) -> bool {
    forall|i: int, j: int|
        0 <= i < j < rows.len() ==> (#[trigger] rows[i]).0 < (#[trigger] rows[j]).0 || (rows[i].0
            == rows[j].0 && rows[i].1 > rows[j].1)
}

/// Whether places fall from one to the next.
pub open spec fn falls(places: Seq<usize>) -> bool {
    forall|i: int, j: int| 0 <= i < j < places.len() ==> #[trigger] places[i] > #[trigger] places[j]
}

/// A plan names every playlist once, and the places in it fall, so that taking one
/// out moves none of those that are still to come.
pub proof fn law_plan_falls(rows: Seq<(usize, usize)>)
    requires
        is_plan_order(rows),
    ensures
        forall|i: int, j: int|
            0 <= i < j < gathered(rows).len() ==> (#[trigger] gathered(rows)[i]).0 < (
            #[trigger] gathered(rows)[j]).0,
        forall|i: int| 0 <= i < gathered(rows).len() ==> falls((#[trigger] gathered(rows)[i]).1),
        rows.len() > 0 ==> gathered(rows).len() > 0 && gathered(rows).last().0 == rows.last().0
            && gathered(rows).last().1.len() > 0 && gathered(rows).last().1.last()
            == rows.last().1,
    decreases rows.len(),
{
    if rows.len() > 0 {
        let front_rows = rows.drop_last();
        assert forall|i: int, j: int| 0 <= i < j < front_rows.len() implies (
        #[trigger] front_rows[i]).0 < (#[trigger] front_rows[j]).0 || (front_rows[i].0
            == front_rows[j].0 && front_rows[i].1 > front_rows[j].1) by {
            assert(rows[i].0 < rows[j].0 || (rows[i].0 == rows[j].0 && rows[i].1 > rows[j].1));
        }
        law_plan_falls(front_rows);
        let front = gathered(front_rows);
        let all = gathered(rows);
        let (list, place) = rows.last();
        if front_rows.len() > 0 {
            let before = rows[rows.len() - 2];
            assert(before == front_rows.last());
            assert(before.0 < list || (before.0 == list && before.1 > place)) by {
                assert(rows[rows.len() - 1] == (list, place));
            }
            if front.last().0 == list {
                let old_places = front.last().1;
                let places = old_places.push(place);
                assert(falls(front[front.len() - 1].1));
                assert(falls(places)) by {
                    assert forall|i: int, j: int| 0 <= i < j < places.len() implies
                        #[trigger] places[i] > #[trigger] places[j] by {
                        if j == places.len() - 1 {
                            assert(old_places[i] >= old_places.last());
                        } else {
                            assert(old_places[i] > old_places[j]);
                        }
                    }
                }
                assert(all =~= front.update(front.len() - 1, (list, places)));
                assert forall|i: int| 0 <= i < all.len() implies falls((#[trigger] all[i]).1) by {
                    if i < front.len() - 1 {
                        assert(falls(front[i].1));
                    }
                }
                assert forall|i: int, j: int| 0 <= i < j < all.len() implies (
                #[trigger] all[i]).0 < (#[trigger] all[j]).0 by {
                    assert(front[i].0 < front[j].0);
                }
            } else {
                assert(all =~= front.push((list, seq![place])));
                assert forall|i: int| 0 <= i < all.len() implies falls((#[trigger] all[i]).1) by {
                    if i < front.len() {
                        assert(falls(front[i].1));
                    }
                }
                assert forall|i: int, j: int| 0 <= i < j < all.len() implies (
                #[trigger] all[i]).0 < (#[trigger] all[j]).0 by {
                    if j < front.len() {
                        assert(front[i].0 < front[j].0);
                    } else if i < front.len() - 1 {
                        assert(front[i].0 < front[front.len() - 1].0);
                    }
                }
            }
        } else {
            assert(front =~= seq![]);
            assert(all =~= seq![(list, seq![place])]);
        }
    }
}

/// What has to be deleted, gathered by playlist. The rows come ordered by
/// playlist, the highest place first.
pub fn collect_delete_plan(rows: &Vec<(usize, usize)>) -> (r: Vec<(usize, Vec<usize>)>)
    ensures
        plan_views(r@) == gathered(rows@),
{
    let mut r: Vec<(usize, Vec<usize>)> = Vec::new();
    let mut i: usize = 0;
    while i < rows.len()
        invariant
            i <= rows@.len(),
            plan_views(r@) == gathered(rows@.take(i as int)),
        decreases rows@.len() - i,
    {
        assert(rows@.take(i + 1).drop_last() =~= rows@.take(i as int));
        let list: usize = rows[i].0;
        let place: usize = rows[i].1;
        let ghost before = plan_views(r@);
        let n: usize = r.len();
        assert(before.len() == n);
        if n > 0 && r[n - 1].0 == list {
            assert(before.last() == (list, r@[n - 1].1@));
            let (_, mut places) = r.pop().unwrap();
            assert(plan_views(r@) =~= before.drop_last());
            let ghost fewer = r@;
            places.push(place);
            r.push((list, places));
            assert(plan_views(r@) =~= plan_views(fewer).push((list, places@)));
        } else {
            let mut places: Vec<usize> = Vec::new();
            places.push(place);
            let ghost fewer = r@;
            r.push((list, places));
            assert(places@ =~= seq![place]);
            assert(plan_views(r@) =~= plan_views(fewer).push((list, places@)));
            if n > 0 {
                assert(before.last() == (fewer[n - 1].0, fewer[n - 1].1@));
            }
        }
        i += 1;
    }
    assert(rows@.take(rows@.len() as int) =~= rows@);
    r
}

/// The identifier of a new playlist, above `highest` and above those that are
/// built in.
pub fn next_playlist_id(highest: Option<i64>) -> (r: usize)
    requires
        highest matches Some(n) ==> n < i64::MAX && n < usize::MAX,
    ensures
        r == (match highest {
            Some(n) => if n >= 2 {
                n + 1
            } else {
                3
            },
            None => 3,
        }),
{
    match highest {
        Some(n) => if n >= 2 {
            (n + 1) as usize
        } else {
            3
        },
        None => 3,
    }
}

/// The play mode as it is kept: a number that stands for none is in order.
pub fn normalize_play_mode(play_mode: usize) -> (r: usize)
    ensures
        r == (if play_mode <= 2 {
            play_mode
        } else {
            2
        }),
{
    match play_mode {
        0 | 1 | 2 => play_mode,
        _ => 2,
    }
}

/// The playlist that a name stands for.
pub enum PlaylistTarget {
    BuiltIn(usize),
    /// A playlist that is looked up by its name, and made where there is none.
    Named(String),
}

/// The playlist that a name stands for; no name stands for that of the user.
pub fn playlist_target(name: Option<&str>) -> (r: PlaylistTarget)
    ensures
        ({
            let wanted = match name {
                Some(n) => trimmed(n@),
                None => trimmed(PLAYLIST_NAME_USER@),
            };
            match r {
                PlaylistTarget::BuiltIn(id) => {
                    ||| id == PLAYLIST_ID_USER && (wanted.len() == 0 || wanted == PLAYLIST_NAME_USER@)
                    ||| id == PLAYLIST_ID_DEFAULT && wanted == PLAYLIST_NAME_DEFAULT@ && wanted
                        != PLAYLIST_NAME_USER@ && wanted.len() > 0
                },
                PlaylistTarget::Named(n) => n@ == wanted && wanted.len() > 0 && wanted
                    != PLAYLIST_NAME_USER@ && wanted != PLAYLIST_NAME_DEFAULT@,
            }
        }),
{
    let wanted = match name {
        Some(n) => trim(n),
        None => trim(PLAYLIST_NAME_USER),
    };
    if wanted.as_str().is_empty() || same_text(wanted.as_str(), PLAYLIST_NAME_USER) {
        PlaylistTarget::BuiltIn(PLAYLIST_ID_USER)
    } else if same_text(wanted.as_str(), PLAYLIST_NAME_DEFAULT) {
        PlaylistTarget::BuiltIn(PLAYLIST_ID_DEFAULT)
    } else {
        PlaylistTarget::Named(wanted)
    }
}

/// Whether a playlist may be deleted: those that are built in stay.
pub fn may_delete_playlist(playlist_id: usize) -> (r: bool)
    ensures
        r == (playlist_id != PLAYLIST_ID_USER && playlist_id != PLAYLIST_ID_DEFAULT),
{
    playlist_id != PLAYLIST_ID_USER && playlist_id != PLAYLIST_ID_DEFAULT
}

/// The name of a playlist that is saved as `id`.
pub fn saved_playlist_name(name: Option<&str>, id: usize) -> (r: String)
    ensures
        r@ == (if name is Some && trimmed(name->0@).len() > 0 {
            trimmed(name->0@)
        } else {
            "playlist "@ + decimal(id as nat)
        }),
{
    if let Some(n) = name {
        let wanted = trim(n);
        if !wanted.as_str().is_empty() {
            return wanted;
        }
    }
    let number = decimal_string(id as u128);
    concat("playlist ", number.as_str())
}

/// A stored song has every text and number of the song, but for what a store cannot hold: a
/// size beyond 63 bits is the greatest one.
pub proof fn law_item_holds_the_song(song: Song)
    ensures
        ({
            let item = item_of(song);
            &&& item.path == song.path && item.title == song.title && item.author == song.author
            &&& item.album_artist == song.album_artist && item.album == song.album
            &&& item.codec == song.codec && item.has_cover == song.has_cover
            &&& song.file_size <= i64::MAX ==> item.file_size == song.file_size
            &&& song.file_size > i64::MAX ==> item.file_size == i64::MAX
            &&& song.duration_ms <= i64::MAX ==> item.duration_ms == song.duration_ms
            &&& song.track_number <= i32::MAX ==> item.track_number == song.track_number
            &&& song.album_track_count <= i32::MAX ==> item.album_track_count
                == song.album_track_count
            &&& song.duration_text.len() > 0 ==> item.duration_text == song.duration_text
            &&& song.duration_text.len() == 0 && song.duration_ms > 0 ==> item.duration_text
                == time_text(song.duration_ms as nat)
            &&& song.duration_text.len() == 0 && song.duration_ms == 0 ==> item.duration_text.len()
                == 0
        }),
{
}

/// A stored song that names no artist of its album has the artist of the song for it, and
/// one of unknown length has no text for it.
pub proof fn law_item_becomes_its_song(item: Item)
    requires
        item.path.len() > 0,
    ensures
        ({
            let song = song_of(item)->0;
            &&& song_of(item) is Some
            &&& song.path == item.path && song.title == item.title && song.author == item.author
            &&& song.album == item.album && song.codec == item.codec
            &&& song.has_cover == item.has_cover
            &&& item.album_artist.len() > 0 ==> song.album_artist == item.album_artist
            &&& item.album_artist.len() == 0 ==> song.album_artist == item.author
            &&& item.file_size >= 0 ==> song.file_size == item.file_size
            &&& item.file_size < 0 ==> song.file_size == 0
            &&& item.duration_ms >= 0 ==> song.duration_ms == item.duration_ms
            &&& item.duration_ms == 0 ==> song.duration_text.len() == 0
            &&& item.duration_ms > 0 && item.duration_text.len() > 0 ==> song.duration_text
                == item.duration_text
            &&& 0 <= item.track_number <= u32::MAX ==> song.track_number == item.track_number
            &&& 0 <= item.album_track_count <= u32::MAX ==> song.album_track_count
                == item.album_track_count
        }),
{
}

/// The songs of a stored list come in the order of its rows, each row with a path one.
pub proof fn law_stored_list_keeps_its_order(items: Seq<Item>, more: Seq<Item>)
    ensures
        songs_of(items + more) == songs_of(items) + songs_of(more),
        forall|item: Item|
            item.path.len() > 0 ==> songs_of(#[trigger] items.push(item)) == songs_of(items).push(
                song_of(item)->0,
            ),
        forall|item: Item|
            item.path.len() == 0 ==> songs_of(#[trigger] items.push(item)) == songs_of(items),
    decreases more.len(),
{
    if more.len() == 0 {
        assert(items + more =~= items);
        assert(songs_of(items) + songs_of(more) =~= songs_of(items));
    } else {
        law_stored_list_keeps_its_order(items, more.drop_last());
        assert((items + more).drop_last() =~= items + more.drop_last());
        assert(songs_of(items + more) =~= songs_of(items) + songs_of(more));
    }
    assert forall|item: Item| true implies (#[trigger] items.push(item)).drop_last() == items
        && items.push(item).last() == item by {
        assert(items.push(item).drop_last() =~= items);
    }
}

/// A song keeps the mark that it had in the list before it was replaced: the last one that
/// stands there under its path, whatever the case of that; without any it has none.
pub proof fn law_marks_are_kept(rows: Seq<(Seq<char>, i64)>, k: int)
    requires
        0 <= k < rows.len(),
        trimmed(rows[k].0).len() > 0,
        rows[k].1 != 0,
        forall|j: int|
            k < j < rows.len() ==> path_key((#[trigger] rows[j]).0) != path_key(rows[k].0),
    ensures
        mark_of(marks_of(rows), path_key(rows[k].0)) == rows[k].1,
    decreases rows.len(),
{
    let front = marks_of(rows.drop_last());
    let key = path_key(rows[k].0);
    if k == rows.len() - 1 {
        assert(marks_of(rows) == front.push((key, rows[k].1)));
    } else {
        let last = rows[rows.len() - 1];
        assert(path_key(last.0) != key);
        let rest = rows.drop_last();
        assert forall|j: int| k < j < rest.len() implies path_key((#[trigger] rest[j]).0)
            != path_key(rest[k].0) by {
            assert(rest[j] == rows[j]);
        }
        law_marks_are_kept(rest, k);
        if marks_of(rows) != front {
            assert(marks_of(rows).drop_last() =~= front);
        }
    }
}

/// A song that did not stand in the list has no mark.
pub proof fn law_new_song_has_no_mark(rows: Seq<(Seq<char>, i64)>, key: Seq<char>)
    requires
        forall|j: int| 0 <= j < rows.len() ==> path_key((#[trigger] rows[j]).0) != key,
    ensures
        mark_of(marks_of(rows), key) == 0,
    decreases rows.len(),
{
    if rows.len() > 0 {
        let rest = rows.drop_last();
        assert(path_key(rows[rows.len() - 1].0) != key);
        assert forall|j: int| 0 <= j < rest.len() implies path_key((#[trigger] rest[j]).0)
            != key by {
            assert(rest[j] == rows[j]);
        }
        law_new_song_has_no_mark(rest, key);
        let front = marks_of(rest);
        if marks_of(rows) != front {
            assert(marks_of(rows).drop_last() =~= front);
        }
    }
}

/// The songs that can be drawn are those that were not played and do not play, in their
/// order, each once.
pub proof fn law_unplayed_songs_can_be_drawn(played: Seq<bool>, current: int, i: int)
    requires
        0 <= i < played.len(),
    ensures
        unplayed(played, current).contains(i) <==> !played[i] && i != current,
        forall|j: int, k: int|
            0 <= j < k < unplayed(played, current).len() ==> #[trigger] unplayed(played, current)[j]
                < #[trigger] unplayed(played, current)[k],
    decreases played.len(),
{
    lemma_unplayed_rise(played, current);
    let front = unplayed(played.drop_last(), current);
    let all = unplayed(played, current);
    let n = played.len() - 1;
    lemma_unplayed_rise(played.drop_last(), current);
    if i < n {
        law_unplayed_songs_can_be_drawn(played.drop_last(), current, i);
        if front.contains(i) {
            let k = choose|k: int| 0 <= k < front.len() && front[k] == i;
            assert(all[k] == i);
        }
        if all.contains(i) {
            let k = choose|k: int| 0 <= k < all.len() && all[k] == i;
            assert(k < front.len());
            assert(front[k] == i);
        }
    } else {
        if !played[i] && i != current {
            assert(all[all.len() - 1] == i);
        }
        if all.contains(i) && (played[i] || i == current) {
            let k = choose|k: int| 0 <= k < front.len() && front[k] == i;
            assert(front[k] < n);
        }
    }
}

proof fn lemma_unplayed_rise(played: Seq<bool>, current: int)
    ensures
        forall|k: int|
            0 <= k < unplayed(played, current).len() ==> 0 <= (#[trigger] unplayed(
                played,
                current,
            )[k]) < played.len(),
        forall|j: int, k: int|
            0 <= j < k < unplayed(played, current).len() ==> #[trigger] unplayed(played, current)[j]
                < #[trigger] unplayed(played, current)[k],
    decreases played.len(),
{
    if played.len() > 0 {
        let rest = played.drop_last();
        lemma_unplayed_rise(rest, current);
        let (front, all) = (unplayed(rest, current), unplayed(played, current));
        assert forall|k: int| 0 <= k < all.len() implies 0 <= (#[trigger] all[k])
            < played.len() by {
            if k < front.len() {
                assert(all[k] == front[k]);
            }
        }
        assert forall|j: int, k: int| 0 <= j < k < all.len() implies #[trigger] all[j]
            < #[trigger] all[k] by {
            assert(all[j] == front[j]);
            if k < front.len() {
                assert(all[k] == front[k]);
            }
        }
    }
}

/// Drawing a song marks it and the one that plays, and leaves every other mark, until all
/// have been played: then the round starts anew with those two.
pub proof fn law_draw_marks_the_song(played: Seq<bool>, current: int, draw: nat, i: int)
    requires
        0 <= current < played.len(),
        played.len() > 1,
        0 <= i < played.len(),
        i != current,
        i != shuffled(played, current, draw).1->0,
    ensures
        (exists|k: int| 0 <= k < played.len() && k != current && !#[trigger] played[k])
            ==> shuffled(played, current, draw).0[i] == played[i],
        (forall|k: int| 0 <= k < played.len() && k != current ==> #[trigger] played[k])
            ==> !shuffled(played, current, draw).0[i],
{
    let noted = played.update(current, true);
    let places = unplayed(noted, current);
    lemma_unplayed_rise(noted, current);
    if exists|k: int| 0 <= k < played.len() && k != current && !#[trigger] played[k] {
        let k = choose|k: int| 0 <= k < played.len() && k != current && !#[trigger] played[k];
        assert(!noted[k]);
        law_unplayed_songs_can_be_drawn(noted, current, k);
        assert(places.len() > 0);
        let at = (draw % places.len()) as int;
        assert(0 <= places[at] < played.len());
    } else {
        if places.len() > 0 {
            let m = places[0];
            assert(places.contains(m));
            law_unplayed_songs_can_be_drawn(noted, current, m);
            assert(!noted[m] && m != current);
            assert(!played[m]);
        }
        let fresh = only_marked(played.len(), current);
        lemma_unplayed_rise(fresh, current);
        let other = unplayed(fresh, current);
        if other.len() > 0 {
            let at = (draw % other.len()) as int;
            assert(0 <= other[at] < played.len());
        }
    }
}

/// A plan of deletions has every row once, under its list and in the order of the rows.
pub proof fn law_plan_holds_every_row(rows: Seq<(usize, usize)>)
    ensures
        plan_rows(gathered(rows)) == rows,
        forall|i: int| 0 <= i < gathered(rows).len() ==> (#[trigger] gathered(rows)[i]).1.len() > 0,
    decreases rows.len(),
{
    if rows.len() > 0 {
        let front = gathered(rows.drop_last());
        law_plan_holds_every_row(rows.drop_last());
        let (list, place) = rows.last();
        let all = gathered(rows);
        assert(rows =~= rows.drop_last().push((list, place)));
        if front.len() > 0 && front.last().0 == list {
            let places = front.last().1;
            assert(all.drop_last() =~= front.drop_last());
            assert(plan_rows(all) =~= plan_rows(front).push((list, place))) by {
                assert(list_rows(list, places.push(place)) =~= list_rows(list, places).push(
                    (list, place),
                ));
            }
        } else {
            assert(all.drop_last() =~= front);
            assert(list_rows(list, seq![place]) =~= seq![(list, place)]);
            assert(plan_rows(all) =~= plan_rows(front).push((list, place)));
        }
    }
}

/// The rows of a list in a plan.
pub open spec fn list_rows(list: usize, places: Seq<usize>) -> Seq<(usize, usize)> {
    places.map_values(|p: usize| (list, p))
}

/// The rows of a plan.
pub open spec fn plan_rows(plan: Seq<(usize, Seq<usize>)>) -> Seq<(usize, usize)>
    decreases plan.len(),
{
    if plan.len() == 0 {
        seq![]
    } else {
        plan_rows(plan.drop_last()) + list_rows(plan.last().0, plan.last().1)
    }
}

} // verus!
