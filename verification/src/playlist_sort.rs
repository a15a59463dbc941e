//! Sorting a playlist by a column.

use crate::path::{
    byte_order, cmp_ascii_case_insensitive, folded_order, law_byte_order_is_total, lower_bytes,
    opposite, order_text, place, reversed, text_order,
};
use crate::player_state::{Controls, PlayerControls};
use crate::song::{find_by_key, first_with_key, song_views, Song, SongInfo};
use crate::tabs::{PlayingMark, PlaylistView};
use crate::text::{law_trim_is_idempotent, slice_text, to_chars, trim, trimmed};
use std::cmp::Ordering;
use vstd::prelude::*;
use vstd::utf8::encode_utf8;

verus! {

/// What a playlist is sorted by.
#[derive(Clone, Copy, PartialEq, Eq, Structural)]
pub enum SongKey {
    Title,
    Duration,
    Author,
    Album,
    /// The path without regard to case.
    Path,
    FileSize,
    /// The path without regard to case, and among equal ones with regard to it.
    ExactPath,
}

/// Where the last part of a path starts.
pub open spec fn name_start(path: Seq<char>, end: int) -> int
    decreases end,
{
    if end <= 0 {
        0
    } else if path[end - 1] == '\\' || path[end - 1] == '/' {
        end
    } else {
        name_start(path, end - 1)
    }
}

/// The last part of a path.
pub open spec fn last_part(path: Seq<char>) -> Seq<char> {
    path.skip(name_start(path, path.len() as int))
}

/// The last part of a path.
pub fn ui_playlist_filename(path: &str) -> (r: String)
    ensures
        r@ == last_part(path@),
{
    let chars = to_chars(path);
    let n: usize = chars.len();
    let mut start: usize = n;
    while start > 0 && chars[start - 1] != '\\' && chars[start - 1] != '/'
        invariant
            chars@ == path@,
            n == path@.len(),
            start <= n,
            name_start(path@, n as int) == name_start(path@, start as int),
        decreases start,
    {
        start -= 1;
    }
    let r = slice_text(&chars, start, n);
    assert(r@ =~= last_part(path@));
    r
}

/// The text by which a song is sorted under its title.
pub open spec fn sort_title(song: Song) -> Seq<char> {
    if trimmed(song.title).len() > 0 {
        trimmed(song.title)
    } else {
        last_part(song.path)
    }
}

/// The text by which a song is sorted under its title: the title, or the name of
/// the file.
pub fn ui_playlist_title_for_sort(song: &SongInfo) -> (r: String)
    ensures
        r@ == sort_title(song@),
{
    let title = trim(song.title.as_str());
    if !title.as_str().is_empty() {
        title
    } else {
        ui_playlist_filename(song.path.as_str())
    }
}

/// The order of two cells: without the white space around them and without
/// regard to case, and empty ones last.
pub open spec fn cell_order(a: Seq<char>, b: Seq<char>) -> Ordering {
    let (x, y) = (trimmed(a), trimmed(b));
    if x.len() > 0 && y.len() == 0 {
        Ordering::Less
    } else if x.len() == 0 && y.len() > 0 {
        Ordering::Greater
    } else if x.len() == 0 {
        Ordering::Equal
    } else {
        folded_order(x, y)
    }
}

/// The order of two numbers, of which zero stands for one that is not known and
/// comes last.
pub open spec fn number_order(a: u64, b: u64) -> Ordering {
    let x = if a == 0 {
        u64::MAX
    } else {
        a
    };
    let y = if b == 0 {
        u64::MAX
    } else {
        b
    };
    if x < y {
        Ordering::Less
    } else if x > y {
        Ordering::Greater
    } else {
        Ordering::Equal
    }
}

/// The order of two cells.
pub fn ui_playlist_cmp_text(a: &str, b: &str) -> (r: Ordering)
    ensures
        r == cell_order(a@, b@),
{
    let x = trim(a);
    let y = trim(b);
    let x_empty: bool = x.as_str().is_empty();
    let y_empty: bool = y.as_str().is_empty();
    if x_empty != y_empty {
        return if y_empty {
            Ordering::Less
        } else {
            Ordering::Greater
        };
    }
    if x_empty {
        return Ordering::Equal;
    }
    cmp_ascii_case_insensitive(x.as_str(), y.as_str())
}

/// The order of two lengths.
pub fn ui_playlist_cmp_duration(a: u64, b: u64) -> (r: Ordering)
    ensures
        r == number_order(a, b),
{
    let x: u64 = if a == 0 {
        u64::MAX
    } else {
        a
    };
    let y: u64 = if b == 0 {
        u64::MAX
    } else {
        b
    };
    if x < y {
        Ordering::Less
    } else if x > y {
        Ordering::Greater
    } else {
        Ordering::Equal
    }
}

/// The order of two sizes.
pub fn ui_cmp_file_size(a: u64, b: u64) -> (r: Ordering)
    ensures
        r == number_order(a, b),
{
    ui_playlist_cmp_duration(a, b)
}

/// The first order, or the second one where the first leaves it open.
pub open spec fn either_order(first: Ordering, second: Ordering) -> Ordering {
    if first == Ordering::Equal {
        second
    } else {
        first
    }
}

/// The order of two songs.
pub open spec fn song_order(key: SongKey, a: Song, b: Song) -> Ordering {
    match key {
        SongKey::Title => either_order(
            cell_order(sort_title(a), sort_title(b)),
            cell_order(a.path, b.path),
        ),
        SongKey::Duration => either_order(
            number_order(a.duration_ms, b.duration_ms),
            cell_order(a.path, b.path),
        ),
        SongKey::Author => either_order(cell_order(a.author, b.author), cell_order(a.path, b.path)),
        SongKey::Album => either_order(cell_order(a.album, b.album), cell_order(a.path, b.path)),
        SongKey::Path => cell_order(a.path, b.path),
        SongKey::FileSize => either_order(
            number_order(a.file_size, b.file_size),
            cell_order(a.path, b.path),
        ),
        SongKey::ExactPath => either_order(cell_order(a.path, b.path), text_order(a.path, b.path)),
    }
}

fn compared(first: Ordering, a: &SongInfo, b: &SongInfo) -> (r: Ordering)
    ensures
        r == either_order(first, cell_order(a.path@, b.path@)),
{
    match first {
        Ordering::Equal => ui_playlist_cmp_text(a.path.as_str(), b.path.as_str()),
        _ => first,
    }
}

/// What a column is sorted by.
pub open spec fn key_of_column(col: i32) -> SongKey {
    if col == 1 {
        SongKey::Title
    } else if col == 2 {
        SongKey::Duration
    } else if col == 3 {
        SongKey::Author
    } else if col == 4 {
        SongKey::Album
    } else {
        SongKey::Path
    }
}

/// What a column is sorted by.
pub fn column_key(col: i32) -> (r: SongKey)
    ensures
        r == key_of_column(col),
{
    match col {
        1 => SongKey::Title,
        2 => SongKey::Duration,
        3 => SongKey::Author,
        4 => SongKey::Album,
        _ => SongKey::Path,
    }
}

/// The order of two songs.
pub fn order_songs(key: SongKey, a: &SongInfo, b: &SongInfo) -> (r: Ordering)
    ensures
        r == song_order(key, a@, b@),
{
    match key {
        SongKey::Title => {
            let x = ui_playlist_title_for_sort(a);
            let y = ui_playlist_title_for_sort(b);
            compared(ui_playlist_cmp_text(x.as_str(), y.as_str()), a, b)
        },
        SongKey::Duration => compared(ui_playlist_cmp_duration(a.duration_ms, b.duration_ms), a, b),
        SongKey::Author => compared(
            ui_playlist_cmp_text(a.author.as_str(), b.author.as_str()),
            a,
            b,
        ),
        SongKey::Album => compared(ui_playlist_cmp_text(a.album.as_str(), b.album.as_str()), a, b),
        SongKey::Path => ui_playlist_cmp_text(a.path.as_str(), b.path.as_str()),
        SongKey::FileSize => compared(ui_cmp_file_size(a.file_size, b.file_size), a, b),
        SongKey::ExactPath => match ui_playlist_cmp_text(a.path.as_str(), b.path.as_str()) {
            Ordering::Equal => order_text(a.path.as_str(), b.path.as_str()),
            other => other,
        },
    }
}

/// The order of two songs under a column.
pub fn ui_playlist_sort_compare(col: i32, a: &SongInfo, b: &SongInfo) -> (r: Ordering)
    ensures
        r == song_order(key_of_column(col), a@, b@),
{
    order_songs(column_key(col), a, b)
}

/// Whether three orders fit together: exchanging the sides reverses an order, and
/// what does not come later than something else does not come later than what
/// that does not come later than.
pub open spec fn orders_agree(ab: Ordering, ba: Ordering, bc: Ordering, ac: Ordering) -> bool {
    &&& ba == reversed(ab)
    &&& ab != Ordering::Greater && bc != Ordering::Greater ==> ac != Ordering::Greater
    &&& ab == Ordering::Equal && bc == Ordering::Equal ==> ac == Ordering::Equal
    &&& ab == Ordering::Less && bc != Ordering::Greater ==> ac == Ordering::Less
    &&& ab != Ordering::Greater && bc == Ordering::Less ==> ac == Ordering::Less
}

proof fn lemma_bytes_fit(a: Seq<u8>, b: Seq<u8>, c: Seq<u8>)
    ensures
        orders_agree(byte_order(a, b), byte_order(b, a), byte_order(b, c), byte_order(a, c)),
{
    law_byte_order_is_total(a, b, c);
    law_byte_order_is_total(b, c, a);
    law_byte_order_is_total(a, c, b);
}

proof fn lemma_cells_fit(a: Seq<char>, b: Seq<char>, c: Seq<char>)
    ensures
        orders_agree(cell_order(a, b), cell_order(b, a), cell_order(b, c), cell_order(a, c)),
{
    let (x, y, z) = (trimmed(a), trimmed(b), trimmed(c));
    lemma_bytes_fit(
        lower_bytes(encode_utf8(x)),
        lower_bytes(encode_utf8(y)),
        lower_bytes(encode_utf8(z)),
    );
}

/// The order of songs is a total one, by whatever key: exchanging the sides
/// reverses it, and it is transitive.
pub proof fn law_song_order_is_total(key: SongKey, a: Song, b: Song, c: Song)
    ensures
        orders_agree(
            song_order(key, a, b),
            song_order(key, b, a),
            song_order(key, b, c),
            song_order(key, a, c),
        ),
        song_order(key, a, a) == Ordering::Equal,
{
    lemma_cells_fit(a.path, b.path, c.path);
    lemma_cells_fit(a.path, a.path, a.path);
    match key {
        SongKey::Title => {
            lemma_cells_fit(sort_title(a), sort_title(b), sort_title(c));
            lemma_cells_fit(sort_title(a), sort_title(a), sort_title(a));
        },
        SongKey::Author => {
            lemma_cells_fit(a.author, b.author, c.author);
            lemma_cells_fit(a.author, a.author, a.author);
        },
        SongKey::Album => {
            lemma_cells_fit(a.album, b.album, c.album);
            lemma_cells_fit(a.album, a.album, a.album);
        },
        SongKey::ExactPath => {
            lemma_bytes_fit(encode_utf8(a.path), encode_utf8(b.path), encode_utf8(c.path));
            lemma_bytes_fit(encode_utf8(a.path), encode_utf8(a.path), encode_utf8(a.path));
        },
        _ => {},
    }
}

/// Whether the song at place `i` of a list comes before that at place `j` once
/// the list is sorted. Songs that are equal keep their order.
pub open spec fn precedes(songs: Seq<Song>, key: SongKey, asc: bool, i: int, j: int) -> bool {
    let o = song_order(key, songs[i], songs[j]);
    let shown = if asc {
        o
    } else {
        reversed(o)
    };
    shown == Ordering::Less || (shown == Ordering::Equal && i < j)
}

proof fn lemma_precedes(songs: Seq<Song>, key: SongKey, asc: bool, i: int, j: int, k: int)
    ensures
        precedes(songs, key, asc, i, j) && precedes(songs, key, asc, j, k) ==> precedes(
            songs,
            key,
            asc,
            i,
            k,
        ),
        i != j ==> precedes(songs, key, asc, i, j) != precedes(songs, key, asc, j, i),
        !precedes(songs, key, asc, i, i),
{
    law_song_order_is_total(key, songs[i], songs[j], songs[k]);
    law_song_order_is_total(key, songs[k], songs[j], songs[i]);
    law_song_order_is_total(key, songs[j], songs[k], songs[i]);
    law_song_order_is_total(key, songs[i], songs[k], songs[j]);
}

/// Whether `places` are the places of a list in the order of a sorted one.
pub open spec fn is_sorting(songs: Seq<Song>, key: SongKey, asc: bool, places: Seq<int>) -> bool {
    &&& places.len() == songs.len()
    &&& forall|k: int| 0 <= k < places.len() ==> 0 <= #[trigger] places[k] < songs.len()
    &&& forall|i: int| 0 <= i < songs.len() ==> #[trigger] places.contains(i)
    &&& forall|a: int, b: int|
        0 <= a < b < places.len() ==> precedes(songs, key, asc, #[trigger] places[a], #[trigger] places[b])
}

/// The songs at some places of a list.
pub open spec fn at_places(songs: Seq<Song>, places: Seq<int>) -> Seq<Song> {
    places.map_values(|p: int| songs[p])
}

/// There is only one way to sort a list.
pub proof fn law_sorting_is_unique(
    songs: Seq<Song>,
    key: SongKey,
    asc: bool,
    p: Seq<int>,
    q: Seq<int>,
)
    requires
        is_sorting(songs, key, asc, p),
        is_sorting(songs, key, asc, q),
    ensures
        p == q,
{
    lemma_same_places(songs, key, asc, p, q, p.len() as int);
    assert(p.take(p.len() as int) =~= p && q.take(q.len() as int) =~= q);
}

proof fn lemma_same_places(
    songs: Seq<Song>,
    key: SongKey,
    asc: bool,
    p: Seq<int>,
    q: Seq<int>,
    n: int,
)
    requires
        is_sorting(songs, key, asc, p),
        is_sorting(songs, key, asc, q),
        0 <= n <= p.len(),
    ensures
        p.take(n) == q.take(n),
    decreases n,
{
    if n > 0 {
        let i = n - 1;
        lemma_same_places(songs, key, asc, p, q, i);
        assert forall|j: int| 0 <= j < i implies p[j] == q[j] by {
            assert(p.take(i)[j] == q.take(i)[j]);
        }
        assert(p[i] == q[i]) by {
            assert(q.contains(p[i]) && p.contains(q[i]));
            let m = choose|m: int| 0 <= m < q.len() && q[m] == p[i];
            let k = choose|k: int| 0 <= k < p.len() && p[k] == q[i];
            lemma_precedes(songs, key, asc, p[i], q[i], p[i]);
            if m < i {
                assert(p[m] == p[i]);
                assert(precedes(songs, key, asc, p[m], p[i]));
                lemma_precedes(songs, key, asc, p[i], p[i], p[i]);
            } else if k < i {
                assert(q[k] == q[i]);
                assert(precedes(songs, key, asc, q[k], q[i]));
                lemma_precedes(songs, key, asc, q[i], q[i], q[i]);
            } else if m > i && k > i {
                assert(precedes(songs, key, asc, q[i], q[m]));
                assert(precedes(songs, key, asc, p[i], p[k]));
            }
        }
        assert(p.take(n) =~= p.take(i).push(p[i]));
        assert(q.take(n) =~= q.take(i).push(q[i]));
    }
}

/// Whether one song comes before another.
fn comes_before(songs: &Vec<SongInfo>, key: SongKey, asc: bool, i: usize, j: usize) -> (r: bool)
    requires
        i < songs@.len(),
        j < songs@.len(),
    ensures
        r == precedes(song_views(songs@), key, asc, place(i), place(j)),
{
    let o: Ordering = order_songs(key, &songs[i], &songs[j]);
    let shown: Ordering = if asc {
        o
    } else {
        opposite(o)
    };
    match shown {
        Ordering::Less => true,
        Ordering::Equal => i < j,
        Ordering::Greater => false,
    }
}

/// Numbers as places.
pub open spec fn as_places(s: Seq<usize>) -> Seq<int> {
    s.map_values(|p: usize| p as int)
}

/// The first places of a list, in the order of a sorted one.
spec fn is_part_sorted(songs: Seq<Song>, key: SongKey, asc: bool, places: Seq<int>, n: int) -> bool {
    &&& places.len() == n
    &&& forall|k: int| 0 <= k < places.len() ==> 0 <= #[trigger] places[k] < n
    &&& forall|i: int| 0 <= i < n ==> #[trigger] places.contains(i)
    &&& forall|a: int, b: int|
        0 <= a < b < places.len() ==> precedes(songs, key, asc, #[trigger] places[a], #[trigger] places[b])
}

proof fn lemma_inserted(
    songs: Seq<Song>,
    key: SongKey,
    asc: bool,
    places: Seq<int>,
    n: int,
    at: int,
)
    requires
        is_part_sorted(songs, key, asc, places, n),
        0 <= n,
        0 <= at <= n,
        forall|k: int| 0 <= k < at ==> precedes(songs, key, asc, #[trigger] places[k], n),
        forall|k: int| at <= k < n ==> precedes(songs, key, asc, n, #[trigger] places[k]),
    ensures
        is_part_sorted(songs, key, asc, places.insert(at, n), n + 1),
{
    let after = places.insert(at, n);
    assert forall|i: int| 0 <= i < n + 1 implies #[trigger] after.contains(i) by {
        if i == n {
            assert(after[at] == n);
        } else {
            assert(places.contains(i));
            let k = choose|k: int| 0 <= k < places.len() && places[k] == i;
            if k < at {
                assert(after[k] == i);
            } else {
                assert(after[k + 1] == i);
            }
        }
    }
    assert forall|k: int| 0 <= k < after.len() implies 0 <= #[trigger] after[k] < n + 1 by {
        if k < at {
            assert(after[k] == places[k]);
        } else if k > at {
            assert(after[k] == places[k - 1]);
        }
    }
    assert forall|a: int, b: int| 0 <= a < b < after.len() implies precedes(
        songs,
        key,
        asc,
        #[trigger] after[a],
        #[trigger] after[b],
    ) by {
        if b < at {
            assert(after[a] == places[a] && after[b] == places[b]);
        } else if b == at {
            assert(after[a] == places[a]);
        } else if a < at {
            assert(after[a] == places[a] && after[b] == places[b - 1]);
        } else if a == at {
            assert(after[b] == places[b - 1]);
        } else {
            assert(after[a] == places[a - 1] && after[b] == places[b - 1]);
        }
    }
}

/// The place among sorted ones at which the next song of a list goes.
fn place_for_next(songs: &Vec<SongInfo>, key: SongKey, asc: bool, places: &Vec<usize>, i: usize) -> (r:
    usize)
    requires
        i < songs@.len(),
        is_part_sorted(song_views(songs@), key, asc, as_places(places@), i as int),
    ensures
        r <= i,
        forall|k: int|
            0 <= k < r ==> precedes(
                song_views(songs@),
                key,
                asc,
                #[trigger] as_places(places@)[k],
                i as int,
            ),
        forall|k: int|
            r <= k < i ==> precedes(
                song_views(songs@),
                key,
                asc,
                i as int,
                #[trigger] as_places(places@)[k],
            ),
{
    let ghost views = song_views(songs@);
    let ghost ps = as_places(places@);
    let mut low: usize = 0;
    let mut high: usize = i;
    while low < high
        invariant
            low <= high <= i < songs@.len(),
            views == song_views(songs@),
            ps == as_places(places@),
            is_part_sorted(views, key, asc, ps, i as int),
            forall|k: int| 0 <= k < low ==> precedes(views, key, asc, #[trigger] ps[k], i as int),
            forall|k: int| high <= k < i ==> precedes(views, key, asc, i as int, #[trigger] ps[k]),
        decreases high - low,
    {
        let mid: usize = low + (high - low) / 2;
        assert(ps[mid as int] == places@[mid as int] as int);
        let earlier: bool = comes_before(songs, key, asc, places[mid], i);
        proof {
            let m = ps[mid as int];
            lemma_precedes(views, key, asc, m, i as int, m);
            if earlier {
                assert forall|k: int| 0 <= k < mid + 1 implies precedes(
                    views,
                    key,
                    asc,
                    #[trigger] ps[k],
                    i as int,
                ) by {
                    if k < mid {
                        assert(precedes(views, key, asc, ps[k], ps[mid as int]));
                        lemma_precedes(views, key, asc, ps[k], m, i as int);
                    }
                }
            } else {
                assert forall|k: int| mid <= k < i implies precedes(
                    views,
                    key,
                    asc,
                    i as int,
                    #[trigger] ps[k],
                ) by {
                    if k > mid {
                        assert(precedes(views, key, asc, ps[mid as int], ps[k]));
                        lemma_precedes(views, key, asc, i as int, m, ps[k]);
                    }
                }
            }
        }
        if earlier {
            low = mid + 1;
        } else {
            high = mid;
        }
    }
    low
}

/// The places of a list in the order of a sorted one.
pub fn sorted_places(songs: &Vec<SongInfo>, key: SongKey, asc: bool) -> (r: Vec<usize>)
    ensures
        is_sorting(song_views(songs@), key, asc, as_places(r@)),
{
    let n: usize = songs.len();
    let mut places: Vec<usize> = Vec::new();
    let mut i: usize = 0;
    while i < n
        invariant
            n == songs@.len(),
            i <= n,
            is_part_sorted(song_views(songs@), key, asc, as_places(places@), i as int),
        decreases n - i,
    {
        let at: usize = place_for_next(songs, key, asc, &places, i);
        proof {
            lemma_inserted(
                song_views(songs@),
                key,
                asc,
                as_places(places@),
                i as int,
                at as int,
            );
            assert(as_places(places@.insert(at as int, i)) =~= as_places(places@).insert(
                at as int,
                i as int,
            ));
        }
        places.insert(at, i);
        i += 1;
    }
    places
}

/// Sorts a list.
pub fn sort_songs(songs: &mut Vec<SongInfo>, key: SongKey, asc: bool)
    ensures
        exists|places: Seq<int>| #[trigger]
            is_sorting(song_views(old(songs)@), key, asc, places) && song_views(final(songs)@)
                == at_places(song_views(old(songs)@), places),
{
    let places = sorted_places(songs, key, asc);
    let ghost views = song_views(songs@);
    let ghost ps = as_places(places@);
    let mut r: Vec<SongInfo> = Vec::new();
    let mut i: usize = 0;
    while i < places.len()
        invariant
            i <= places@.len(),
            views == song_views(songs@),
            ps == as_places(places@),
            is_sorting(views, key, asc, ps),
            song_views(r@) == at_places(views, ps).take(i as int),
        decreases places@.len() - i,
    {
        assert(0 <= ps[i as int] < views.len());
        let copy = songs[places[i]].copy();
        let ghost before = r@;
        r.push(copy);
        assert(song_views(r@) =~= song_views(before).push(views[ps[i as int]]));
        assert(at_places(views, ps).take(i + 1) =~= at_places(views, ps).take(i as int).push(
            views[ps[i as int]],
        ));
        i += 1;
    }
    assert(at_places(views, ps).take(places@.len() as int) =~= at_places(views, ps));
    *songs = r;
    assert(is_sorting(views, key, asc, ps) && song_views(songs@) == at_places(views, ps));
}

/// Sorts a playlist. The result is the place of the song that plays, where it
/// plays from this playlist; the mark of the window goes with it. A list of less
/// than two songs is left alone.
pub fn sort_playlist(
    songs: &mut Vec<SongInfo>,
    controls: &mut PlayerControls,
    mark: &mut PlayingMark,
    li_id: usize,
    key: SongKey,
    asc: bool,
    playing_key: &str,
) -> (r: Option<usize>)
    ensures
        old(songs)@.len() <= 1 ==> r is None && final(songs)@ == old(songs)@,
        old(songs)@.len() > 1 ==> exists|places: Seq<int>| #[trigger]
            is_sorting(song_views(old(songs)@), key, asc, places) && song_views(final(songs)@)
                == at_places(song_views(old(songs)@), places),
        r is Some <==> old(songs)@.len() > 1 && li_id == old(controls).list_id && playing_key@.len()
            > 0 && first_with_key(song_views(final(songs)@), playing_key@) is Some,
        r is None ==> final(controls)@ == old(controls)@ && *final(mark) == *old(mark),
        r matches Some(i) ==> {
            &&& first_with_key(song_views(final(songs)@), playing_key@) == Some(i as int)
            &&& final(controls)@ == (Controls { track: i, ..old(controls)@ })
            &&& *final(mark) == (PlayingMark { list_id: li_id, place: i as i32 })
        },
{
    if songs.len() <= 1 {
        return None;
    }
    sort_songs(songs, key, asc);
    if li_id != controls.list_id || playing_key.is_empty() {
        return None;
    }
    match find_by_key(songs, playing_key) {
        Some(i) => {
            controls.track = i;
            *mark = PlayingMark { list_id: li_id, place: i as i32 };
            Some(i)
        },
        None => None,
    }
}

/// What the last column shows and sorts by.
#[derive(Clone, Copy, PartialEq, Eq, Structural)]
pub enum InfoMode {
    Nothing,
    FileSize,
    Path,
}

/// The last column.
pub const INFO_COLUMN: i32 = 5;

/// The mode that a number stands for.
pub fn info_mode(sort_id: i64) -> (r: InfoMode)
    ensures
        r == (if sort_id == 1 {
            InfoMode::FileSize
        } else if sort_id == 2 {
            InfoMode::Path
        } else {
            InfoMode::Nothing
        }),
{
    match sort_id {
        1 => InfoMode::FileSize,
        2 => InfoMode::Path,
        _ => InfoMode::Nothing,
    }
}

/// What the last column sorts by in a mode.
pub open spec fn info_key(mode: InfoMode) -> Option<SongKey> {
    match mode {
        InfoMode::Nothing => None,
        InfoMode::FileSize => Some(SongKey::FileSize),
        InfoMode::Path => Some(SongKey::ExactPath),
    }
}

/// The view after a click on the head of a column, and what is asked for.
pub open spec fn clicked(view: PlaylistView, col: i32, mode: InfoMode) -> (
    PlaylistView,
    Option<(SongKey, bool)>,
) {
    let key = if col == INFO_COLUMN {
        info_key(mode)
    } else {
        Some(key_of_column(col))
    };
    let asc = view.sort_col != col || !view.sort_asc;
    if col < 0 || key is None {
        (view, None)
    } else {
        (PlaylistView { sort_col: col, sort_asc: asc, ..view }, Some((key->0, asc)))
    }
}

/// What a click on the head of a column asks for: to sort by a key, upwards or
/// not; `None` where the column does not sort. A second click on the same column
/// turns the order round.
pub fn column_clicked(view: &mut PlaylistView, col: i32, mode: InfoMode) -> (r: Option<
    (SongKey, bool),
>)
    ensures
        (*final(view), r) == clicked(*old(view), col, mode),
        r is None <==> col < 0 || (col == INFO_COLUMN && mode == InfoMode::Nothing),
        r is None ==> *final(view) == *old(view),
        r matches Some((key, asc)) ==> {
            &&& asc == (old(view).sort_col != col || !old(view).sort_asc)
            &&& *final(view) == (PlaylistView { sort_col: col, sort_asc: asc, ..*old(view) })
            &&& Some(key) == (if col == INFO_COLUMN {
                info_key(mode)
            } else {
                Some(key_of_column(col))
            })
        },
{
    if col < 0 {
        return None;
    }
    let key: SongKey = if col == INFO_COLUMN {
        match mode {
            InfoMode::Nothing => return None,
            InfoMode::FileSize => SongKey::FileSize,
            InfoMode::Path => SongKey::ExactPath,
        }
    } else {
        column_key(col)
    };
    let asc: bool = view.sort_col != col || !view.sort_asc;
    view.sort_col = col;
    view.sort_asc = asc;
    Some((key, asc))
}

/// What a request to sort by a number asks for: the mode of the last column, and
/// the key to sort by upwards. The tab takes it for a click on the last column.
pub fn sort_requested(view: Option<&mut PlaylistView>, sort_id: i64) -> (r: (InfoMode, Option<SongKey>))
    ensures
        r.0 == (if sort_id == 1 {
            InfoMode::FileSize
        } else if sort_id == 2 {
            InfoMode::Path
        } else {
            InfoMode::Nothing
        }),
        r.1 == info_key(r.0),
        view matches Some(v) ==> *final(v) == (if r.0 == InfoMode::Nothing {
            *v
        } else {
            PlaylistView { sort_col: INFO_COLUMN, sort_asc: true, ..*v }
        }),
{
    let mode: InfoMode = info_mode(sort_id);
    match mode {
        InfoMode::Nothing => (mode, None),
        InfoMode::FileSize => {
            if let Some(v) = view {
                v.sort_col = INFO_COLUMN;
                v.sort_asc = true;
            }
            (mode, Some(SongKey::FileSize))
        },
        InfoMode::Path => {
            if let Some(v) = view {
                v.sort_col = INFO_COLUMN;
                v.sort_asc = true;
            }
            (mode, Some(SongKey::ExactPath))
        },
    }
}

/// Sorting upwards and then downwards turns the order of two songs round, unless
/// they are equal: those keep their order both times.
pub proof fn law_equal_songs_keep_their_order(songs: Seq<Song>, key: SongKey, i: int, j: int)
    requires
        0 <= i < j < songs.len(),
    ensures
        song_order(key, songs[i], songs[j]) == Ordering::Equal ==> precedes(songs, key, true, i, j)
            && precedes(songs, key, false, i, j),
        song_order(key, songs[i], songs[j]) != Ordering::Equal ==> precedes(songs, key, true, i, j)
            != precedes(songs, key, false, i, j),
{
}

/// Whether the known numbers of a list never fall, and the unknown ones, which are zero,
/// stand behind all of them.
pub open spec fn numbers_rise(x: u64, y: u64) -> bool {
    (y != 0 ==> x != 0) && (x != 0 && y != 0 ==> x <= y)
}

/// Whether the first of two rows of bytes does not come after the second one in a
/// dictionary.
pub open spec fn bytes_rise(x: Seq<u8>, y: Seq<u8>) -> bool {
    x.is_prefix_of(y) || exists|i: int|
        0 <= i < x.len() && i < y.len() && x[i] < y[i] && #[trigger] x.take(i) == y.take(i)
}

/// Whether two cells of a column stand in rising order: filled ones before empty ones, and
/// among filled ones as in a dictionary without regard to the case of ASCII letters.
pub open spec fn cells_rise(a: Seq<char>, b: Seq<char>) -> bool {
    let (x, y) = (trimmed(a), trimmed(b));
    &&& y.len() > 0 ==> x.len() > 0
    &&& x.len() > 0 && y.len() > 0 ==> bytes_rise(
        lower_bytes(encode_utf8(x)),
        lower_bytes(encode_utf8(y)),
    )
}

proof fn lemma_bytes_rise(x: Seq<u8>, y: Seq<u8>)
    ensures
        byte_order(x, y) != Ordering::Greater ==> bytes_rise(x, y),
    decreases x.len(),
{
    reveal_with_fuel(byte_order, 2);
    if byte_order(x, y) != Ordering::Greater {
        if x.len() == 0 {
            assert(x.is_prefix_of(y));
        } else if x[0] < y[0] {
            assert(x.take(0) == y.take(0));
        } else {
            lemma_bytes_rise(x.drop_first(), y.drop_first());
            let (p, q) = (x.drop_first(), y.drop_first());
            if p.is_prefix_of(q) {
                assert forall|i: int| 0 <= i < x.len() implies x[i] == y[i] by {
                    if i > 0 {
                        assert(p[i - 1] == q[i - 1]);
                    }
                }
                assert(x.is_prefix_of(y));
            } else {
                let i = choose|i: int|
                    0 <= i < p.len() && i < q.len() && p[i] < q[i] && #[trigger] p.take(i)
                        == q.take(i);
                assert(x[i + 1] < y[i + 1]);
                assert forall|j: int| 0 <= j < i + 1 implies x[j] == y[j] by {
                    if j > 0 {
                        assert(p.take(i)[j - 1] == q.take(i)[j - 1]);
                    }
                }
                assert(x.take(i + 1) =~= y.take(i + 1));
            }
        }
    }
}

proof fn lemma_cells_rise(a: Seq<char>, b: Seq<char>)
    ensures
        cell_order(a, b) != Ordering::Greater ==> cells_rise(a, b),
{
    lemma_bytes_rise(lower_bytes(encode_utf8(trimmed(a))), lower_bytes(encode_utf8(trimmed(b))));
}

/// In a list that was sorted upwards each song stands in rising order to every song behind
/// it, in what the list was sorted by; downwards, in falling order. Lengths and sizes that
/// are not known stand behind the known ones.
pub proof fn law_sorted_column_rises(
    songs: Seq<Song>,
    key: SongKey,
    asc: bool,
    places: Seq<int>,
    i: int,
    j: int,
)
    requires
        is_sorting(songs, key, asc, places),
        0 <= i < j < songs.len(),
        forall|k: int|
            0 <= k < songs.len() ==> (#[trigger] songs[k]).duration_ms < u64::MAX
                && songs[k].file_size < u64::MAX,
    ensures
        ({
            let sorted = at_places(songs, places);
            let (a, b) = if asc {
                (sorted[i], sorted[j])
            } else {
                (sorted[j], sorted[i])
            };
            &&& key == SongKey::Duration ==> numbers_rise(a.duration_ms, b.duration_ms)
            &&& key == SongKey::FileSize ==> numbers_rise(a.file_size, b.file_size)
            &&& key == SongKey::Author ==> cells_rise(a.author, b.author)
            &&& key == SongKey::Album ==> cells_rise(a.album, b.album)
            &&& key == SongKey::Path ==> cells_rise(a.path, b.path)
            &&& key == SongKey::ExactPath ==> cells_rise(a.path, b.path)
            &&& key == SongKey::Title && trimmed(a.title).len() > 0 && trimmed(b.title).len() > 0
                ==> cells_rise(a.title, b.title)
            &&& key == SongKey::Title && trimmed(a.title).len() > 0 && trimmed(b.title).len() == 0
                ==> cells_rise(a.title, last_part(b.path))
            &&& key == SongKey::Title && trimmed(a.title).len() == 0 && trimmed(b.title).len() > 0
                ==> cells_rise(last_part(a.path), b.title)
            &&& key == SongKey::Title && trimmed(a.title).len() == 0 && trimmed(b.title).len() == 0
                ==> cells_rise(last_part(a.path), last_part(b.path))
        }),
{
    let sorted = at_places(songs, places);
    assert(sorted[i] == songs[places[i]] && sorted[j] == songs[places[j]]);
    assert(precedes(songs, key, asc, places[i], places[j]));
    let (a, b) = if asc {
        (sorted[i], sorted[j])
    } else {
        (sorted[j], sorted[i])
    };
    assert(song_order(key, a, b) != Ordering::Greater) by {
        law_song_order_is_total(key, a, b, a);
    }
    lemma_cells_rise(a.author, b.author);
    lemma_cells_rise(a.album, b.album);
    lemma_cells_rise(a.path, b.path);
    lemma_cells_rise(sort_title(a), sort_title(b));
    law_trim_is_idempotent(a.title);
    law_trim_is_idempotent(b.title);
}

/// Among songs that are alike in what the list was sorted by, the paths rise; those of one
/// path keep their order.
pub proof fn law_paths_rise_among_equals(
    songs: Seq<Song>,
    key: SongKey,
    places: Seq<int>,
    i: int,
    j: int,
)
    requires
        is_sorting(songs, key, true, places),
        0 <= i < j < songs.len(),
    ensures
        ({
            let sorted = at_places(songs, places);
            let (a, b) = (sorted[i], sorted[j]);
            let alike = match key {
                SongKey::Duration => a.duration_ms == b.duration_ms,
                SongKey::FileSize => a.file_size == b.file_size,
                SongKey::Author => a.author == b.author,
                SongKey::Album => a.album == b.album,
                SongKey::Title => a.title == b.title && trimmed(a.title).len() > 0,
                _ => true,
            };
            &&& alike ==> cells_rise(a.path, b.path)
            &&& alike && a.path == b.path ==> places[i] < places[j]
        }),
{
    let sorted = at_places(songs, places);
    let (a, b) = (sorted[i], sorted[j]);
    assert(a == songs[places[i]] && b == songs[places[j]]);
    assert(precedes(songs, key, true, places[i], places[j]));
    lemma_cells_rise(a.path, b.path);
    lemma_cells_fit(a.author, a.author, a.author);
    lemma_cells_fit(a.album, a.album, a.album);
    lemma_cells_fit(a.path, a.path, a.path);
    lemma_cells_fit(sort_title(a), sort_title(a), sort_title(a));
    lemma_bytes_fit(encode_utf8(a.path), encode_utf8(a.path), encode_utf8(a.path));
}

/// Sorting keeps every song, and each as often as it was there: the sorted list has the
/// songs of the list, each from a place of its own.
pub proof fn law_sorting_keeps_the_songs(
    songs: Seq<Song>,
    key: SongKey,
    asc: bool,
    places: Seq<int>,
)
    requires
        is_sorting(songs, key, asc, places),
    ensures
        at_places(songs, places).len() == songs.len(),
        forall|k: int|
            0 <= k < songs.len() ==> 0 <= #[trigger] places[k] < songs.len() && at_places(
                songs,
                places,
            )[k] == songs[places[k]],
        forall|i: int, j: int|
            0 <= i < j < songs.len() ==> #[trigger] places[i] != #[trigger] places[j],
        forall|k: int| 0 <= k < songs.len() ==> at_places(songs, places).contains(#[trigger] songs[k]),
{
    assert forall|i: int, j: int| 0 <= i < j < songs.len() implies #[trigger] places[i]
        != #[trigger] places[j] by {
        lemma_precedes(songs, key, asc, places[i], places[j], places[i]);
    }
    assert forall|k: int| 0 <= k < songs.len() implies at_places(songs, places).contains(
        #[trigger] songs[k],
    ) by {
        assert(places.contains(k));
        let m = choose|m: int| 0 <= m < places.len() && places[m] == k;
        assert(at_places(songs, places)[m] == songs[k]);
    }
}

/// The columns of a list show, and sort by, the title, the length, the artist and the
/// album, in this order; any other column sorts by the path, and the last one by what it
/// shows.
pub proof fn law_columns_sort_by_what_they_show(col: i32)
    ensures
        key_of_column(1) == SongKey::Title,
        key_of_column(2) == SongKey::Duration,
        key_of_column(3) == SongKey::Author,
        key_of_column(4) == SongKey::Album,
        col < 1 || col > 4 ==> key_of_column(col) == SongKey::Path,
        info_key(InfoMode::FileSize) == Some(SongKey::FileSize),
        info_key(InfoMode::Path) == Some(SongKey::ExactPath),
        info_key(InfoMode::Nothing) is None,
{
}

/// The name of a file is what stands behind the last separator of its path.
pub proof fn law_last_part_is_behind_the_separators(path: Seq<char>)
    ensures
        forall|i: int|
            0 <= i < last_part(path).len() ==> (#[trigger] last_part(path)[i]) != '\\'
                && last_part(path)[i] != '/',
        last_part(path).len() <= path.len(),
        path.skip(path.len() - last_part(path).len()) == last_part(path),
        last_part(path).len() < path.len() ==> {
            let c = path[path.len() - last_part(path).len() - 1];
            c == '\\' || c == '/'
        },
{
    lemma_name_start(path, path.len() as int);
    let start = name_start(path, path.len() as int);
    assert(path.skip(path.len() - last_part(path).len()) =~= last_part(path));
}

proof fn lemma_name_start(path: Seq<char>, end: int)
    requires
        0 <= end <= path.len(),
    ensures
        0 <= name_start(path, end) <= end,
        name_start(path, end) > 0 ==> path[name_start(path, end) - 1] == '\\' || path[name_start(
            path,
            end,
        ) - 1] == '/',
        forall|i: int|
            name_start(path, end) <= i < end ==> (#[trigger] path[i]) != '\\' && path[i] != '/',
    decreases end,
{
    if end > 0 && !(path[end - 1] == '\\' || path[end - 1] == '/') {
        lemma_name_start(path, end - 1);
    }
}

/// Paths that differ in case alone stand in the order of their bytes where the case counts.
pub proof fn law_case_decides_among_equal_paths(
    songs: Seq<Song>,
    places: Seq<int>,
    i: int,
    j: int,
)
    requires
        is_sorting(songs, SongKey::ExactPath, true, places),
        0 <= i < j < songs.len(),
        cell_order(
            at_places(songs, places)[i].path,
            at_places(songs, places)[j].path,
        ) == Ordering::Equal,
    ensures
        bytes_rise(
            encode_utf8(at_places(songs, places)[i].path),
            encode_utf8(at_places(songs, places)[j].path),
        ),
{
    let sorted = at_places(songs, places);
    assert(sorted[i] == songs[places[i]] && sorted[j] == songs[places[j]]);
    assert(precedes(songs, SongKey::ExactPath, true, places[i], places[j]));
    lemma_bytes_rise(encode_utf8(sorted[i].path), encode_utf8(sorted[j].path));
}

/// A first click on the head of a column sorts upwards by it, a second one downwards, and a
/// third one upwards again; nothing else of the view changes.
pub proof fn law_clicks_turn_the_order_round(view: PlaylistView, col: i32, mode: InfoMode)
    requires
        0 <= col < 5,
        view.sort_col != col,
    ensures
        ({
            let (once, first) = clicked(view, col, mode);
            let (twice, second) = clicked(once, col, mode);
            let (_, third) = clicked(twice, col, mode);
            &&& first is Some && second is Some && third is Some
            &&& (first->0).1 && !(second->0).1 && (third->0).1
            &&& (first->0).0 == (second->0).0
            &&& col == 2 ==> (first->0).0 == SongKey::Duration
            &&& col == 3 ==> (first->0).0 == SongKey::Author
            &&& once.sort_col == col && once.sort_asc && twice.sort_col == col && !twice.sort_asc
            &&& once.playlist_id == view.playlist_id && once.hlist == view.hlist
        }),
{
}

/// The last column sorts by what it shows, and not at all where it shows nothing; a place
/// before the first column is no column.
pub proof fn law_last_column_sorts_by_what_it_shows(view: PlaylistView)
    ensures
        clicked(view, 5, InfoMode::Nothing) == (view, None::<(SongKey, bool)>),
        clicked(view, 5, InfoMode::FileSize).1 is Some && (clicked(
            view,
            5,
            InfoMode::FileSize,
        ).1->0).0 == SongKey::FileSize,
        clicked(view, 5, InfoMode::Path).1 is Some && (clicked(view, 5, InfoMode::Path).1->0).0
            == SongKey::ExactPath,
        clicked(view, (-1) as i32, InfoMode::Path) == (view, None::<(SongKey, bool)>),
{
}

} // verus!
