//! The tags of a song: reading numbers and genres from them, filling in what a
//! file does not tell, and the song that comes out.

use crate::path::{
    file_name_of, file_stem, is_less, law_byte_order_is_total, lower_extension, lower_extension_of,
    order_text, stem_of_name, text_order,
};
use crate::song::{
    Song, SongInfo, album_name_from_parent_dir, album_of_dir, album_or_dir, album_or_parent_dir,
    text_views,
};
use crate::text::{
    count_digits, decimal, digits_value, find, find_from, is_digit, is_white_space,
    law_decimal_round_trips, law_text_is_parted_at_the_first_place, law_tight_text_is_not_trimmed,
    law_trim_is_idempotent, law_white_space, leading_digits, lemma_find_from, lower, lower_char,
    occurs_at, parse_digits, same_text, slice_text, split_once, split_once_at, to_chars, to_lower,
    trim, trimmed,
};
use std::cmp::Ordering;
use vstd::prelude::*;

verus! {

/// What a tag tells.
#[derive(Clone, Copy, PartialEq, Eq, Structural, Debug)]
pub enum TagKind {
    Title,
    Artist,
    Author,
    AlbumArtist,
    Album,
    TrackNumber,
    TrackTotal,
    Genre,
    Other,
}

/// A tag of a file.
pub struct TagItem {
    /// What it tells, where the reader knows it.
    pub kind: Option<TagKind>,
    pub key: String,
    pub value: String,
}

/// The name of a kind of tag.
pub open spec fn tag_name(kind: TagKind) -> Seq<char> {
    match kind {
        TagKind::Title => "TrackTitle"@,
        TagKind::Artist => "Artist"@,
        TagKind::Author => "Author"@,
        TagKind::AlbumArtist => "AlbumArtist"@,
        TagKind::Album => "Album"@,
        TagKind::TrackNumber => "TrackNumber"@,
        TagKind::TrackTotal => "TrackTotal"@,
        TagKind::Genre => "Genre"@,
        TagKind::Other => "Other"@,
    }
}

/// The name of a kind of tag.
pub fn standard_tag_name(kind: TagKind) -> (r: &'static str)
    ensures
        r@ == tag_name(kind),
{
    match kind {
        TagKind::Title => "TrackTitle",
        TagKind::Artist => "Artist",
        TagKind::Author => "Author",
        TagKind::AlbumArtist => "AlbumArtist",
        TagKind::Album => "Album",
        TagKind::TrackNumber => "TrackNumber",
        TagKind::TrackTotal => "TrackTotal",
        TagKind::Genre => "Genre",
        TagKind::Other => "Other",
    }
}

/// How a tag is named in log lines.
pub fn tag_display_key(tag: &TagItem) -> (r: String)
    ensures
        r@ == (match tag.kind {
            Some(kind) => tag_name(kind) + seq![' ', '('] + tag.key@ + seq![')'],
            None => tag.key@,
        }),
{
    match tag.kind {
        Some(kind) => {
            let mut r = standard_tag_name(kind).to_owned();
            r.push(' ');
            r.push('(');
            assert(r@ =~= tag_name(kind) + seq![' ', '(']);
            r.append(tag.key.as_str());
            r.push(')');
            assert(r@ =~= tag_name(kind) + seq![' ', '('] + tag.key@ + seq![')']);
            r
        },
        None => tag.key.clone(),
    }
}

/// The number that a text starts with, white space aside.
pub open spec fn first_number(s: Seq<char>) -> Option<u32> {
    let t = trimmed(s);
    let n = leading_digits(t) as int;
    if n == 0 || digits_value(t.take(n)) > u32::MAX {
        None
    } else {
        Some(digits_value(t.take(n)) as u32)
    }
}

/// The number that a text starts with, white space aside.
pub fn parse_first_u32(s: &str) -> (r: Option<u32>)
    ensures
        r == first_number(s@),
{
    let trimmed_text = trim(s);
    let chars = to_chars(trimmed_text.as_str());
    let total: usize = chars.len();
    let n: usize = count_digits(&chars, 0, total);
    assert(chars@.subrange(0, total as int) =~= chars@);
    assert(chars@.subrange(0, n as int) =~= chars@.take(n as int));
    if n == 0 {
        return None;
    }
    match parse_digits(&chars, 0, n, u32::MAX as u64) {
        Some(v) => Some(v as u32),
        None => None,
    }
}

/// Two numbers with a slash between them; either may be missing.
pub open spec fn number_pair(s: Seq<char>) -> (Option<u32>, Option<u32>) {
    let t = trimmed(s);
    let slash = find_from(t, '/', 0);
    if slash == t.len() {
        (first_number(t), None)
    } else {
        (first_number(t.take(slash)), first_number(t.skip(slash + 1)))
    }
}

/// Two numbers with a slash between them; either may be missing.
pub fn parse_u32_pair_slash(s: &str) -> (r: (Option<u32>, Option<u32>))
    ensures
        r == number_pair(s@),
{
    let t = trim(s);
    let chars = to_chars(t.as_str());
    let n: usize = chars.len();
    match find(&chars, '/', 0) {
        Some(slash) => {
            let a = slice_text(&chars, 0, slash);
            let b = slice_text(&chars, slash + 1, n);
            assert(a@ =~= t@.take(slash as int));
            assert(b@ =~= t@.skip(slash + 1));
            (parse_first_u32(a.as_str()), parse_first_u32(b.as_str()))
        },
        None => (parse_first_u32(t.as_str()), None),
    }
}

/// Whether `c` parts genres.
pub open spec fn parts_genres(c: char) -> bool {
    c == ';' || c == ',' || c == '/' || c == '\\' || c == '|'
}

/// The first place at or after `from` where genres are parted, or the length.
pub open spec fn genre_end(s: Seq<char>, from: int) -> int
    decreases s.len() - from,
{
    if from >= s.len() {
        s.len() as int
    } else if parts_genres(s[from]) {
        from
    } else {
        genre_end(s, from + 1)
    }
}

proof fn lemma_genre_end(s: Seq<char>, from: int)
    requires
        0 <= from <= s.len(),
    ensures
        from <= genre_end(s, from) <= s.len(),
    decreases s.len() - from,
{
    if from < s.len() && !parts_genres(s[from]) {
        lemma_genre_end(s, from + 1);
    }
}

/// A piece of a list of genres; an empty one is none.
pub open spec fn genre_piece(piece: Seq<char>) -> Seq<Seq<char>> {
    if trimmed(piece).len() == 0 {
        seq![]
    } else {
        seq![trimmed(piece)]
    }
}

/// The genres from `from` on.
pub open spec fn genres_from(s: Seq<char>, from: int) -> Seq<Seq<char>>
    decreases s.len() + 1 - from,
{
    if from < 0 || from > s.len() {
        seq![]
    } else {
        let end = genre_end(s, from);
        if end < from || end >= s.len() {
            genre_piece(s.subrange(from, s.len() as int))
        } else {
            genre_piece(s.subrange(from, end)) + genres_from(s, end + 1)
        }
    }
}

/// The genres of a text: its pieces between semicolons, commas, slashes and
/// bars, trimmed, without the empty ones.
pub open spec fn genres_of(s: Seq<char>) -> Seq<Seq<char>> {
    genres_from(s, 0)
}

/// The genres of a text.
pub fn split_genres(s: &str) -> (r: Vec<String>)
    ensures
        text_views(r@) == genres_of(s@),
{
    let chars = to_chars(s);
    let n: usize = chars.len();
    let mut r: Vec<String> = Vec::new();
    let mut from: usize = 0;
    let mut done: bool = false;
    assert(text_views(r@) + genres_from(s@, 0) =~= genres_from(s@, 0));
    while !done
        invariant
            chars@ == s@,
            n == s@.len(),
            !done ==> from <= n,
            !done ==> text_views(r@) + genres_from(s@, from as int) == genres_of(s@),
            done ==> text_views(r@) == genres_of(s@),
        decreases (if done {
            0int
        } else {
            n + 1 - from
        }),
    {
        let mut end: usize = from;
        while end < n && !(chars[end] == ';' || chars[end] == ',' || chars[end] == '/' || chars[end]
            == '\\' || chars[end] == '|')
            invariant
                chars@ == s@,
                n == s@.len(),
                from <= end <= n,
                genre_end(s@, from as int) == genre_end(s@, end as int),
            decreases n - end,
        {
            end += 1;
        }
        let piece = slice_text(&chars, from, end);
        let genre = trim(piece.as_str());
        let ghost before = text_views(r@);
        let ghost rest = if end < n {
            genres_from(s@, end + 1)
        } else {
            seq![]
        };
        assert(genres_from(s@, from as int) =~= genre_piece(piece@) + rest);
        if !genre.as_str().is_empty() {
            r.push(genre);
            assert(text_views(r@) =~= before.push(genre@));
        }
        assert(text_views(r@) =~= before + genre_piece(piece@));
        assert(text_views(r@) + rest =~= before + (genre_piece(piece@) + rest));
        if end < n {
            from = end + 1;
        } else {
            done = true;
        }
    }
    r
}

/// The texts in their order, each of them once.
pub open spec fn is_sorted_set(sorted: Seq<Seq<char>>, texts: Seq<Seq<char>>) -> bool {
    &&& forall|i: int, j: int|
        0 <= i < j < sorted.len() ==> text_order(#[trigger] sorted[i], #[trigger] sorted[j])
            == Ordering::Less
    &&& forall|t: Seq<char>| #[trigger] texts.contains(t) <==> sorted.contains(t)
}

/// The place before which a text belongs in a sorted list.
fn insertion_place(sorted: &Vec<String>, t: &str) -> (r: usize)
    requires
        forall|i: int, j: int|
            0 <= i < j < sorted@.len() ==> text_order(
                #[trigger] text_views(sorted@)[i],
                #[trigger] text_views(sorted@)[j],
            ) == Ordering::Less,
    ensures
        r <= sorted@.len(),
        forall|i: int|
            0 <= i < r ==> text_order(#[trigger] text_views(sorted@)[i], t@) == Ordering::Less,
        forall|i: int|
            r <= i < sorted@.len() ==> text_order(#[trigger] text_views(sorted@)[i], t@)
                != Ordering::Less,
{
    let mut at: usize = 0;
    while at < sorted.len() && is_less(order_text(sorted[at].as_str(), t))
        invariant
            at <= sorted@.len(),
            forall|i: int|
                0 <= i < at ==> text_order(#[trigger] text_views(sorted@)[i], t@) == Ordering::Less,
        decreases sorted@.len() - at,
    {
        at += 1;
    }
    proof {
        let views = text_views(sorted@);
        assert forall|i: int| at <= i < sorted@.len() implies text_order(#[trigger] views[i], t@)
            != Ordering::Less by {
            let first = crate::path::place(at);
            assert(views[first] == sorted@[first]@);
            if i > first && text_order(views[i], t@) == Ordering::Less {
                lemma_text_order_transitive(views[first], views[i], t@);
            }
        }
    }
    at
}

proof fn lemma_text_order_transitive(a: Seq<char>, b: Seq<char>, c: Seq<char>)
    ensures
        text_order(a, b) == Ordering::Less && text_order(b, c) == Ordering::Less ==> text_order(
            a,
            c,
        ) == Ordering::Less,
        text_order(b, a) == crate::path::reversed(text_order(a, b)),
        text_order(a, b) == Ordering::Equal <==> a == b,
{
    law_byte_order_is_total(
        vstd::utf8::encode_utf8(a),
        vstd::utf8::encode_utf8(b),
        vstd::utf8::encode_utf8(c),
    );
    vstd::utf8::encode_utf8_decode_utf8(a);
    vstd::utf8::encode_utf8_decode_utf8(b);
}

/// Puts a text into a sorted list that does not hold it.
fn insert_sorted(sorted: &mut Vec<String>, t: String, Ghost(texts): Ghost<Seq<Seq<char>>>)
    requires
        is_sorted_set(text_views(old(sorted)@), texts),
    ensures
        is_sorted_set(text_views(final(sorted)@), texts.push(t@)),
{
    let ghost before = text_views(sorted@);
    let ghost all = texts.push(t@);
    let at: usize = insertion_place(sorted, t.as_str());
    let ghost p = crate::path::place(at);
    proof {
        assert forall|x: Seq<char>| all.contains(x) <==> texts.contains(x) || x == t@ by {
            lemma_push_contains(texts, t@, x);
        }
    }
    if at < sorted.len() && same_text(sorted[at].as_str(), t.as_str()) {
        proof {
            assert(before[p] == t@);
            assert(before.contains(t@));
            assert forall|x: Seq<char>| #[trigger] all.contains(x) <==> before.contains(x) by {
                assert(all.contains(x) <==> texts.contains(x) || x == t@);
            }
        }
        return;
    }
    let ghost value = t@;
    sorted.insert(at, t);
    proof {
        let after = text_views(sorted@);
        assert(after =~= before.insert(p, value));
        assert forall|i: int, j: int| 0 <= i < j < after.len() implies text_order(
            #[trigger] after[i],
            #[trigger] after[j],
        ) == Ordering::Less by {
            if i < p && j == p {
                assert(after[i] == before[i]);
            } else if i == p {
                assert(after[j] == before[j - 1]);
                lemma_text_order_transitive(before[j - 1], value, value);
                if before[j - 1] == value {
                    if j - 1 > p {
                        lemma_text_order_transitive(before[p], value, value);
                        assert(text_order(before[p], before[j - 1]) == Ordering::Less);
                    }
                }
            } else {
                let bi = if i < p {
                    i
                } else {
                    i - 1
                };
                let bj = if j < p {
                    j
                } else {
                    j - 1
                };
                assert(after[i] == before[bi] && after[j] == before[bj]);
            }
        }
        assert forall|x: Seq<char>| #[trigger] all.contains(x) <==> after.contains(x) by {
            assert(all.contains(x) <==> texts.contains(x) || x == value);
            lemma_insert_contains(before, p, value, x);
        }
    }
}

proof fn lemma_push_contains<T>(s: Seq<T>, v: T, x: T)
    ensures
        s.push(v).contains(x) <==> s.contains(x) || x == v,
{
    if s.push(v).contains(x) {
        let i = choose|i: int| 0 <= i < s.push(v).len() && s.push(v)[i] == x;
        if i < s.len() {
            assert(s[i] == x);
        }
    }
    if s.contains(x) {
        let i = choose|i: int| 0 <= i < s.len() && s[i] == x;
        assert(s.push(v)[i] == x);
    }
    assert(s.push(v)[s.len() as int] == v);
}

proof fn lemma_insert_contains<T>(s: Seq<T>, at: int, v: T, x: T)
    requires
        0 <= at <= s.len(),
    ensures
        s.insert(at, v).contains(x) <==> s.contains(x) || x == v,
{
    let t = s.insert(at, v);
    if t.contains(x) {
        let i = choose|i: int| 0 <= i < t.len() && t[i] == x;
        if i < at {
            assert(s[i] == x);
        } else if i > at {
            assert(s[i - 1] == x);
        }
    }
    if s.contains(x) {
        let i = choose|i: int| 0 <= i < s.len() && s[i] == x;
        if i < at {
            assert(t[i] == x);
        } else {
            assert(t[i + 1] == x);
        }
    }
    assert(t[at] == v);
}

/// The texts in their order, each of them once.
pub fn sorted_set(texts: Vec<String>) -> (r: Vec<String>)
    ensures
        is_sorted_set(text_views(r@), text_views(texts@)),
{
    let mut r: Vec<String> = Vec::new();
    let ghost all = text_views(texts@);
    let ghost mut done: int = 0;
    let mut i: usize = 0;
    while i < texts.len()
        invariant
            i <= texts@.len(),
            done == i,
            all == text_views(texts@),
            is_sorted_set(text_views(r@), all.take(done)),
        decreases texts@.len() - i,
    {
        let t: String = texts[i].clone();
        assert(t@ == all[done]);
        insert_sorted(&mut r, t, Ghost(all.take(done)));
        i += 1;
        proof {
            assert(all.take(done + 1) =~= all.take(done).push(all[done]));
            done = done + 1;
        }
    }
    assert(all.take(done) =~= all);
    r
}

/// What the tags of a file have told so far.
#[verifier::ext_equal]
pub struct TagFacts {
    pub title: Seq<char>,
    pub author: Seq<char>,
    pub album_artist: Seq<char>,
    pub album: Seq<char>,
    pub track_number: u32,
    pub track_total: Option<u32>,
    pub genres: Seq<Seq<char>>,
}

/// The first text that was told counts.
pub open spec fn first_told(told: Seq<char>, value: Seq<char>) -> Seq<char> {
    if told.len() == 0 {
        value
    } else {
        told
    }
}

impl TagFacts {
    /// Before any tag.
    pub open spec fn none() -> TagFacts {
        TagFacts {
            title: Seq::empty(),
            author: Seq::empty(),
            album_artist: Seq::empty(),
            album: Seq::empty(),
            track_number: 0,
            track_total: None,
            genres: Seq::empty(),
        }
    }

    /// After one more tag, of which the value is trimmed and counts only where
    /// something is left.
    pub open spec fn with(self, kind: TagKind, value: Seq<char>) -> TagFacts {
        let v = trimmed(value);
        if v.len() == 0 {
            self
        } else {
            match kind {
                TagKind::Title => TagFacts { title: first_told(self.title, v), ..self },
                TagKind::Artist | TagKind::Author => TagFacts {
                    author: first_told(self.author, v),
                    ..self
                },
                TagKind::AlbumArtist => TagFacts {
                    album_artist: first_told(self.album_artist, v),
                    ..self
                },
                TagKind::Album => TagFacts { album: first_told(self.album, v), ..self },
                TagKind::TrackNumber => if self.track_number != 0 {
                    self
                } else {
                    TagFacts {
                        track_number: match number_pair(v).0 {
                            Some(n) => n,
                            None => 0,
                        },
                        track_total: match number_pair(v).1 {
                            Some(total) => Some(total),
                            None => self.track_total,
                        },
                        ..self
                    }
                },
                TagKind::TrackTotal => TagFacts {
                    track_total: match self.track_total {
                        Some(total) => Some(total),
                        None => first_number(v),
                    },
                    ..self
                },
                TagKind::Genre => TagFacts { genres: self.genres + genres_of(v), ..self },
                TagKind::Other => self,
            }
        }
    }
}

/// The facts as they are gathered.
struct Gathered {
    title: String,
    author: String,
    album_artist: String,
    album: String,
    track_number: u32,
    track_total: Option<u32>,
    genres: Vec<String>,
}

impl Gathered {
    spec fn facts(self) -> TagFacts {
        TagFacts {
            title: self.title@,
            author: self.author@,
            album_artist: self.album_artist@,
            album: self.album@,
            track_number: self.track_number,
            track_total: self.track_total,
            genres: text_views(self.genres@),
        }
    }

    fn new() -> (r: Gathered)
        ensures
            r.facts() == TagFacts::none(),
    {
        let r = Gathered {
            title: String::new(),
            author: String::new(),
            album_artist: String::new(),
            album: String::new(),
            track_number: 0,
            track_total: None,
            genres: Vec::new(),
        };
        assert(r.facts() =~= TagFacts::none());
        r
    }

    fn add_tag(&mut self, kind: TagKind, value: &str)
        ensures
            final(self).facts() == old(self).facts().with(kind, value@),
    {
        let v = trim(value);
        if v.as_str().is_empty() {
            return;
        }
        match kind {
            TagKind::Title => {
                if self.title.as_str().is_empty() {
                    self.title = v;
                }
            },
            TagKind::Artist | TagKind::Author => {
                if self.author.as_str().is_empty() {
                    self.author = v;
                }
            },
            TagKind::AlbumArtist => {
                if self.album_artist.as_str().is_empty() {
                    self.album_artist = v;
                }
            },
            TagKind::Album => {
                if self.album.as_str().is_empty() {
                    self.album = v;
                }
            },
            TagKind::TrackNumber => {
                if self.track_number == 0 {
                    let (n, total) = parse_u32_pair_slash(v.as_str());
                    if let Some(n) = n {
                        self.track_number = n;
                    }
                    if total.is_some() {
                        self.track_total = total;
                    }
                }
            },
            TagKind::TrackTotal => {
                if self.track_total.is_none() {
                    self.track_total = parse_first_u32(v.as_str());
                }
            },
            TagKind::Genre => {
                let mut more = split_genres(v.as_str());
                let ghost (a, b) = (self.genres@, more@);
                self.genres.append(&mut more);
                assert(text_views(self.genres@) =~= text_views(a) + text_views(b));
            },
            TagKind::Other => {},
        }
    }
}

/// What all the tags of a file tell.
pub open spec fn facts_of(tags: Seq<(TagKind, Seq<char>)>) -> TagFacts
    decreases tags.len(),
{
    if tags.len() == 0 {
        TagFacts::none()
    } else {
        facts_of(tags.drop_last()).with(tags.last().0, tags.last().1)
    }
}

/// Whether a text parts the author from the title.
pub open spec fn title_separators() -> Seq<Seq<char>> {
    seq![" - "@, "-"@, "－"@, "–"@, "—"@, "_"@]
}

/// The author and the title at a separator, where both are there.
pub open spec fn parted_at(stem: Seq<char>, separator: Seq<char>) -> Option<
    (Seq<char>, Seq<char>),
> {
    match split_once_at(stem, separator) {
        Some((a, b)) => if trimmed(a).len() > 0 && trimmed(b).len() > 0 {
            Some((trimmed(a), trimmed(b)))
        } else {
            None
        },
        None => None,
    }
}

/// The author and the title at the first of the separators that parts them.
pub open spec fn parted_by(stem: Seq<char>, separators: Seq<Seq<char>>) -> Option<
    (Seq<char>, Seq<char>),
>
    decreases separators.len(),
{
    if separators.len() == 0 {
        None
    } else if parted_at(stem, separators[0]) is Some {
        parted_at(stem, separators[0])
    } else {
        parted_by(stem, separators.drop_first())
    }
}

/// The author and the title that a path tells: the two parts of the file's name,
/// or the name as a title.
pub open spec fn author_and_title(path: Seq<char>) -> (Seq<char>, Seq<char>) {
    let stem = trimmed(
        match file_name_of(path) {
            Some(name) => stem_of_name(name),
            None => path,
        },
    );
    if stem.len() == 0 {
        (Seq::empty(), path)
    } else {
        match parted_by(stem, title_separators()) {
            Some(pair) => pair,
            None => (Seq::empty(), stem),
        }
    }
}

fn part_at(stem: &str, separator: &str) -> (r: Option<(String, String)>)
    ensures
        r is Some <==> parted_at(stem@, separator@) is Some,
        r matches Some((a, b)) ==> parted_at(stem@, separator@) == Some((a@, b@)),
{
    match split_once(stem, separator) {
        Some((a, b)) => {
            let a = trim(a.as_str());
            let b = trim(b.as_str());
            if a.as_str().is_empty() || b.as_str().is_empty() {
                None
            } else {
                Some((a, b))
            }
        },
        None => None,
    }
}

/// The author and the title that a path tells.
pub fn parse_author_title_from_path(path: &str) -> (r: (String, String))
    ensures
        (r.0@, r.1@) == author_and_title(path@),
{
    let stem = match file_stem(path) {
        Some(stem) => stem,
        None => path.to_owned(),
    };
    let stem = trim(stem.as_str());
    if stem.as_str().is_empty() {
        return (String::new(), path.to_owned());
    }
    let mut separators: Vec<&str> = Vec::new();
    separators.push(" - ");
    separators.push("-");
    separators.push("－");
    separators.push("–");
    separators.push("—");
    separators.push("_");
    let ghost all = title_separators();
    let mut i: usize = 0;
    assert(all.skip(0) =~= all);
    while i < separators.len()
        invariant
            i <= separators@.len(),
            separators@.len() == all.len(),
            forall|k: int| 0 <= k < all.len() ==> (#[trigger] separators@[k])@ == all[k],
            parted_by(stem@, all) == parted_by(stem@, all.skip(i as int)),
            stem@ == trimmed(
                match file_name_of(path@) {
                    Some(name) => stem_of_name(name),
                    None => path@,
                },
            ),
            stem@.len() > 0,
            all == title_separators(),
        decreases separators@.len() - i,
    {
        assert(all.skip(i as int)[0] == separators@[i as int]@);
        assert(all.skip(i as int).drop_first() =~= all.skip(i + 1));
        if let Some(pair) = part_at(stem.as_str(), separators[i]) {
            return pair;
        }
        i += 1;
    }
    assert(all.skip(all.len() as int).len() == 0);
    (String::new(), stem)
}

/// The song that the facts of its tags and its path tell.
pub open spec fn song_of_facts(path: Seq<char>, facts: TagFacts, fill_album_artist: bool) -> Song {
    let (author, title) = author_and_title(path);
    let song_author = first_told(facts.author, author);
    Song {
        title: first_told(facts.title, title),
        author: song_author,
        album_artist: if fill_album_artist {
            first_told(facts.album_artist, song_author)
        } else {
            facts.album_artist
        },
        album: album_or_dir(facts.album, path),
        track_number: facts.track_number,
        album_track_count: match facts.track_total {
            Some(total) => total,
            None => 0,
        },
        ..Song::at(path)
    }
}

/// Whether a song is what its facts tell, with the genres sorted.
pub open spec fn is_song_of_facts(
    song: Song,
    path: Seq<char>,
    facts: TagFacts,
    fill_album_artist: bool,
) -> bool {
    &&& song == Song { genres: song.genres, ..song_of_facts(path, facts, fill_album_artist) }
    &&& is_sorted_set(song.genres, facts.genres)
}

fn finish_song(path: &str, g: Gathered, fill_album_artist: bool) -> (r: SongInfo)
    ensures
        is_song_of_facts(r@, path@, g.facts(), fill_album_artist),
{
    let mut np = SongInfo::at(path);
    let Gathered { title, author, album_artist, album, track_number, track_total, genres } = g;
    let (path_author, path_title) = parse_author_title_from_path(path);
    np.author = if author.as_str().is_empty() {
        path_author
    } else {
        author
    };
    np.title = if title.as_str().is_empty() {
        path_title
    } else {
        title
    };
    np.album_artist = if fill_album_artist && album_artist.as_str().is_empty() {
        np.author.clone()
    } else {
        album_artist
    };
    np.album = album_or_parent_dir(album, path);
    np.track_number = track_number;
    np.album_track_count = match track_total {
        Some(total) => total,
        None => 0,
    };
    np.genres = sorted_set(genres);
    np
}

/// The kinds and values of some tags.
pub open spec fn item_views(tags: Seq<TagItem>) -> Seq<(TagKind, Seq<char>)> {
    tags.map_values(
        |t: TagItem|
            (
                match t.kind {
                    Some(kind) => kind,
                    None => TagKind::Other,
                },
                t.value@,
            ),
    )
}

fn gather(tags: &Vec<TagItem>) -> (r: Gathered)
    ensures
        r.facts() == facts_of(item_views(tags@)),
{
    let mut g = Gathered::new();
    let ghost views = item_views(tags@);
    let mut i: usize = 0;
    while i < tags.len()
        invariant
            i <= tags@.len(),
            views == item_views(tags@),
            g.facts() == facts_of(views.take(i as int)),
        decreases tags@.len() - i,
    {
        assert(views.take(i + 1).drop_last() =~= views.take(i as int));
        assert(views.take(i + 1).last() == views[i as int]);
        let kind: TagKind = match tags[i].kind {
            Some(kind) => kind,
            None => TagKind::Other,
        };
        g.add_tag(kind, tags[i].value.as_str());
        i += 1;
    }
    assert(views.take(tags@.len() as int) =~= views);
    g
}

/// The song that the tags of a file tell, where the reader knows their kinds.
pub fn fill_now_playing_from_symphonia_tags(path: &str, tags: &Vec<TagItem>) -> (r: SongInfo)
    ensures
        is_song_of_facts(r@, path@, facts_of(item_views(tags@)), false),
{
    let g = gather(tags);
    finish_song(path, g, false)
}

/// The four texts that some tags tell: the title, the author, the artist of the
/// album and the album.
pub fn gather_texts(tags: &Vec<TagItem>) -> (r: (String, String, String, String))
    ensures
        r.0@ == facts_of(item_views(tags@)).title,
        r.1@ == facts_of(item_views(tags@)).author,
        r.2@ == facts_of(item_views(tags@)).album_artist,
        r.3@ == facts_of(item_views(tags@)).album,
{
    let g = gather(tags);
    (g.title, g.author, g.album_artist, g.album)
}

/// The kind of a tag by its name.
pub open spec fn kind_of_key(key: Seq<char>) -> TagKind {
    let k = lower(trimmed(key));
    if k == "title"@ {
        TagKind::Title
    } else if k == "artist"@ || k == "author"@ {
        TagKind::Artist
    } else if k == "album_artist"@ || k == "albumartist"@ {
        TagKind::AlbumArtist
    } else if k == "album"@ {
        TagKind::Album
    } else if k == "track"@ || k == "tracknumber"@ {
        TagKind::TrackNumber
    } else if k == "genre"@ {
        TagKind::Genre
    } else {
        TagKind::Other
    }
}

/// The kind of a tag by its name.
pub fn tag_kind_by_key(key: &str) -> (r: TagKind)
    ensures
        r == kind_of_key(key@),
{
    let trimmed_key = trim(key);
    let k = to_lower(trimmed_key.as_str());
    let k = k.as_str();
    if same_text(k, "title") {
        TagKind::Title
    } else if same_text(k, "artist") || same_text(k, "author") {
        TagKind::Artist
    } else if same_text(k, "album_artist") || same_text(k, "albumartist") {
        TagKind::AlbumArtist
    } else if same_text(k, "album") {
        TagKind::Album
    } else if same_text(k, "track") || same_text(k, "tracknumber") {
        TagKind::TrackNumber
    } else if same_text(k, "genre") {
        TagKind::Genre
    } else {
        TagKind::Other
    }
}

/// The kinds and values of some named tags.
pub open spec fn named_views(tags: Seq<(String, String)>) -> Seq<(TagKind, Seq<char>)> {
    tags.map_values(|t: (String, String)| (kind_of_key(t.0@), t.1@))
}

/// The song that the named tags of a file tell.
pub fn fill_now_playing_from_ffmpeg_tags(path: &str, tags: &Vec<(String, String)>) -> (r: SongInfo)
    ensures
        is_song_of_facts(r@, path@, facts_of(named_views(tags@)), true),
{
    let mut g = Gathered::new();
    let ghost views = named_views(tags@);
    let mut i: usize = 0;
    while i < tags.len()
        invariant
            i <= tags@.len(),
            views == named_views(tags@),
            g.facts() == facts_of(views.take(i as int)),
        decreases tags@.len() - i,
    {
        assert(views.take(i + 1).drop_last() =~= views.take(i as int));
        assert(views.take(i + 1).last() == views[i as int]);
        let kind: TagKind = tag_kind_by_key(tags[i].0.as_str());
        g.add_tag(kind, tags[i].1.as_str());
        i += 1;
    }
    assert(views.take(tags@.len() as int) =~= views);
    finish_song(path, g, true)
}

/// A tag that comes later changes no text that an earlier one told.
pub proof fn law_first_tag_wins(facts: TagFacts, kind: TagKind, value: Seq<char>)
    ensures
        facts.title.len() > 0 ==> facts.with(kind, value).title == facts.title,
        facts.author.len() > 0 ==> facts.with(kind, value).author == facts.author,
        facts.album_artist.len() > 0 ==> facts.with(kind, value).album_artist == facts.album_artist,
        facts.album.len() > 0 ==> facts.with(kind, value).album == facts.album,
        facts.track_number != 0 ==> facts.with(kind, value).track_number == facts.track_number,
        facts.genres.is_prefix_of(facts.with(kind, value).genres),
{
    if kind == TagKind::Genre {
        let more = genres_of(trimmed(value));
        assert(facts.genres =~= (facts.genres + more).subrange(0, facts.genres.len() as int));
    }
}

/// Fills in what a song lacks from its path, white space counting as nothing.
pub open spec fn with_fallbacks(song: Song) -> Song {
    let (author, title) = author_and_title(song.path);
    let song_author = if trimmed(song.author).len() == 0 {
        author
    } else {
        song.author
    };
    Song {
        author: song_author,
        title: if trimmed(song.title).len() == 0 {
            title
        } else {
            song.title
        },
        album_artist: if trimmed(song.album_artist).len() == 0 && trimmed(song_author).len() > 0 {
            song_author
        } else {
            song.album_artist
        },
        album: if trimmed(song.album).len() == 0 && album_of_dir(song.path) is Some {
            album_of_dir(song.path)->0
        } else {
            song.album
        },
        ..song
    }
}

fn is_blank(s: &str) -> (r: bool)
    ensures
        r == (trimmed(s@).len() == 0),
{
    let t = trim(s);
    t.as_str().is_empty()
}

/// Fills in what a song lacks from its path.
pub fn smtc_fill_now_playing_fallbacks(np: &mut SongInfo)
    ensures
        final(np)@ == with_fallbacks(old(np)@),
{
    let (author, title) = parse_author_title_from_path(np.path.as_str());
    if is_blank(np.author.as_str()) {
        np.author = author;
    }
    if is_blank(np.title.as_str()) {
        np.title = title;
    }
    if is_blank(np.album_artist.as_str()) && !is_blank(np.author.as_str()) {
        np.album_artist = np.author.clone();
    }
    if is_blank(np.album.as_str()) {
        if let Some(name) = album_name_from_parent_dir(np.path.as_str()) {
            np.album = name;
        }
    }
}

/// What a probe of a file tells.
pub struct ProbeMediaInfo {
    pub duration_ms: u64,
    pub codec_name: String,
    pub tags: Vec<(String, String)>,
    pub has_cover: bool,
}

/// The probe that counts, of the two that were made. The general reader is asked
/// for all but MP3 files, and for those where the first reader failed or found
/// no length; then only what the first one did not tell is taken from it.
pub fn probe_media_info_prefer_symphonia(
    path: &str,
    symphonia: Option<ProbeMediaInfo>,
    general: Option<ProbeMediaInfo>,
) -> (r: Option<ProbeMediaInfo>)
    ensures
        !(lower_extension_of(path@) == "mp3"@ && symphonia is Some) ==> r == general,
        lower_extension_of(path@) == "mp3"@ && symphonia is Some ==> {
            let s = symphonia->0;
            &&& r is Some
            &&& r->0.has_cover == s.has_cover
            &&& s.duration_ms > 0 || general is None ==> r == symphonia
            &&& s.duration_ms == 0 && general is Some ==> {
                &&& r->0.duration_ms == general->0.duration_ms
                &&& r->0.codec_name == (if s.codec_name@.len() == 0 {
                    general->0.codec_name
                } else {
                    s.codec_name
                })
                &&& r->0.tags == (if s.tags@.len() == 0 {
                    general->0.tags
                } else {
                    s.tags
                })
            }
        },
{
    let ext = lower_extension(path);
    if !same_text(ext.as_str(), "mp3") {
        return general;
    }
    let mut info = match symphonia {
        Some(info) => info,
        None => return general,
    };
    if info.duration_ms > 0 {
        return Some(info);
    }
    if let Some(g) = general {
        info.duration_ms = g.duration_ms;
        if info.codec_name.as_str().is_empty() {
            info.codec_name = g.codec_name;
        }
        if info.tags.len() == 0 {
            info.tags = g.tags;
        }
    }
    Some(info)
}

/// A tag tells one thing, and only where it was not told before: the text without the space
/// around it, and nothing of an empty one.
pub proof fn law_tag_tells_one_thing(facts: TagFacts, value: Seq<char>)
    requires
        trimmed(value).len() > 0,
    ensures
        facts.title.len() == 0 ==> facts.with(TagKind::Title, value) == (TagFacts {
            title: trimmed(value),
            ..facts
        }),
        facts.author.len() == 0 ==> facts.with(TagKind::Artist, value) == (TagFacts {
            author: trimmed(value),
            ..facts
        }) && facts.with(TagKind::Author, value) == (TagFacts { author: trimmed(value), ..facts }),
        facts.album_artist.len() == 0 ==> facts.with(TagKind::AlbumArtist, value) == (TagFacts {
            album_artist: trimmed(value),
            ..facts
        }),
        facts.album.len() == 0 ==> facts.with(TagKind::Album, value) == (TagFacts {
            album: trimmed(value),
            ..facts
        }),
        facts.with(TagKind::Genre, value) == (TagFacts {
            genres: facts.genres + genres_of(trimmed(value)),
            ..facts
        }),
        facts.with(TagKind::Other, value) == facts,
        forall|blank: Seq<char>, kind: TagKind|
            trimmed(blank).len() == 0 ==> #[trigger] facts.with(kind, blank) == facts,
{
}

/// Of several tags of one kind the first one that is not empty is told.
pub proof fn law_first_filled_tag_is_told(tags: Seq<(TagKind, Seq<char>)>, k: int)
    requires
        0 <= k < tags.len(),
        trimmed(tags[k].1).len() > 0,
        forall|j: int|
            0 <= j < k ==> (#[trigger] tags[j]).0 != tags[k].0 || trimmed(tags[j].1).len() == 0,
    ensures
        tags[k].0 == TagKind::Title ==> facts_of(tags).title == trimmed(tags[k].1),
        tags[k].0 == TagKind::Album ==> facts_of(tags).album == trimmed(tags[k].1),
        tags[k].0 == TagKind::AlbumArtist ==> facts_of(tags).album_artist == trimmed(tags[k].1),
        tags[k].0 == TagKind::Artist && (forall|j: int|
            0 <= j < k ==> (#[trigger] tags[j]).0 != TagKind::Author) ==> facts_of(tags).author
            == trimmed(tags[k].1),
    decreases tags.len(),
{
    let front = tags.drop_last();
    if k < front.len() {
        assert(front[k] == tags[k]);
        assert forall|j: int| 0 <= j < k implies (#[trigger] front[j]).0 != front[k].0 || trimmed(
            front[j].1,
        ).len() == 0 by {
            assert(front[j] == tags[j]);
        }
        if forall|j: int| 0 <= j < k ==> (#[trigger] tags[j]).0 != TagKind::Author {
            assert forall|j: int| 0 <= j < k implies (#[trigger] front[j]).0 != TagKind::Author by {
                assert(front[j] == tags[j]);
            }
        }
        law_first_filled_tag_is_told(front, k);
        law_first_tag_wins(facts_of(front), tags.last().0, tags.last().1);
    } else {
        assert forall|j: int| 0 <= j < front.len() implies (#[trigger] front[j]).0 != tags[k].0
            || trimmed(front[j].1).len() == 0 by {
            assert(front[j] == tags[j]);
        }
        if tags[k].0 == TagKind::Artist && (forall|j: int|
            0 <= j < k ==> (#[trigger] tags[j]).0 != TagKind::Author) {
            assert forall|j: int| 0 <= j < front.len() implies (#[trigger] front[j]).0
                != TagKind::Author by {
                assert(front[j] == tags[j]);
            }
        }
        lemma_nothing_told(front, tags[k].0);
    }
}

proof fn lemma_nothing_told(tags: Seq<(TagKind, Seq<char>)>, kind: TagKind)
    requires
        forall|j: int|
            0 <= j < tags.len() ==> (#[trigger] tags[j]).0 != kind || trimmed(tags[j].1).len() == 0,
    ensures
        kind == TagKind::Title ==> facts_of(tags).title.len() == 0,
        kind == TagKind::Album ==> facts_of(tags).album.len() == 0,
        kind == TagKind::AlbumArtist ==> facts_of(tags).album_artist.len() == 0,
        kind == TagKind::Artist && (forall|j: int|
            0 <= j < tags.len() ==> (#[trigger] tags[j]).0 != TagKind::Author) ==> facts_of(
            tags,
        ).author.len() == 0,
    decreases tags.len(),
{
    if tags.len() > 0 {
        let front = tags.drop_last();
        assert forall|j: int| 0 <= j < front.len() implies (#[trigger] front[j]).0 != kind
            || trimmed(front[j].1).len() == 0 by {
            assert(front[j] == tags[j]);
        }
        if forall|j: int| 0 <= j < tags.len() ==> (#[trigger] tags[j]).0 != TagKind::Author {
            assert forall|j: int| 0 <= j < front.len() implies (#[trigger] front[j]).0
                != TagKind::Author by {
                assert(front[j] == tags[j]);
            }
        }
        lemma_nothing_told(front, kind);
        assert(tags[tags.len() - 1] == tags.last());
    }
}

/// A number at the start of a tag is read, up to 32 bits, whatever stands behind it.
pub proof fn law_number_at_the_start_is_read(n: nat, rest: Seq<char>)
    requires
        rest.len() > 0 ==> !is_digit(rest[0]) && !is_white_space(rest.last()),
    ensures
        n <= u32::MAX ==> first_number(decimal(n) + rest) == Some(n as u32),
        n > u32::MAX ==> first_number(decimal(n) + rest) is None,
        rest.len() > 0 && !is_white_space(rest[0]) ==> first_number(rest) is None,
{
    law_decimal_round_trips(n);
    let d = decimal(n);
    let s = d + rest;
    assert(is_digit(d[0]) && is_digit(d.last())) by {
        assert(is_digit(d[0]));
        assert(is_digit(d[d.len() - 1]));
    }
    assert(s[0] == d[0]);
    assert(s.last() == (if rest.len() > 0 {
        rest.last()
    } else {
        d.last()
    }));
    law_white_space(d[0]);
    law_white_space(d.last());
    law_tight_text_is_not_trimmed(s);
    assert(trimmed(s) == s);
    lemma_digits_then(d, rest);
    assert(s.take(d.len() as int) =~= d);
    if rest.len() > 0 && !is_white_space(rest[0]) {
        law_tight_text_is_not_trimmed(rest);
        assert(leading_digits(rest) == 0);
    }
}

proof fn lemma_digits_then(d: Seq<char>, rest: Seq<char>)
    requires
        forall|i: int| 0 <= i < d.len() ==> is_digit(#[trigger] d[i]),
        rest.len() > 0 ==> !is_digit(rest[0]),
    ensures
        leading_digits(d + rest) == d.len(),
    decreases d.len(),
{
    if d.len() > 0 {
        assert(is_digit(d[0]));
        let tail = d.drop_first();
        assert forall|i: int| 0 <= i < tail.len() implies is_digit(#[trigger] tail[i]) by {
            assert(is_digit(d[i + 1]));
        }
        lemma_digits_then(tail, rest);
        assert((d + rest).drop_first() =~= tail + rest);
    } else {
        assert(d + rest =~= rest);
    }
}

/// Two numbers with a slash between them are the number of a track and how many there are.
pub proof fn law_pair_of_numbers_is_read(n: nat, total: nat)
    requires
        n <= u32::MAX,
        total <= u32::MAX,
    ensures
        number_pair(decimal(n) + seq!['/'] + decimal(total)) == (
            Some(n as u32),
            Some(total as u32),
        ),
        number_pair(decimal(n)) == (Some(n as u32), None::<u32>),
        ({
            let facts = TagFacts::none().with(
                TagKind::TrackNumber,
                decimal(n) + seq!['/'] + decimal(total),
            );
            n > 0 ==> facts.track_number == n && facts.track_total == Some(total as u32)
        }),
{
    law_decimal_round_trips(n);
    law_decimal_round_trips(total);
    let (a, b) = (decimal(n), decimal(total));
    let s = a + seq!['/'] + b;
    assert(is_digit(a[0]) && is_digit(a[a.len() - 1]) && is_digit(b[0]) && is_digit(b[b.len() - 1]));
    law_white_space(a[0]);
    law_white_space(a.last());
    law_white_space(b.last());
    assert(s[0] == a[0] && s.last() == b.last());
    law_tight_text_is_not_trimmed(s);
    law_tight_text_is_not_trimmed(a);
    lemma_find_from(s, '/', 0);
    lemma_find_from(a, '/', 0);
    let at = find_from(s, '/', 0);
    assert(s[a.len() as int] == '/');
    assert(at == a.len()) by {
        if at < a.len() {
            assert(is_digit(a[at]));
            assert(s[at] == a[at]);
        }
    }
    let none = find_from(a, '/', 0);
    assert(none == a.len()) by {
        if none < a.len() {
            assert(is_digit(a[none]));
        }
    }
    assert(s.take(at) =~= a);
    assert(s.skip(at + 1) =~= b);
    let blank = Seq::<char>::empty();
    law_number_at_the_start_is_read(n, blank);
    law_number_at_the_start_is_read(total, blank);
    assert(a + blank =~= a);
    assert(b + blank =~= b);
}

/// Genres are parted at semicolons, commas, slashes, backslashes and bars, and each is told
/// without the space around it; empty ones are left out.
pub proof fn law_genres_are_parted(first: Seq<char>, mark: char, rest: Seq<char>)
    requires
        mark == ';' || mark == ',' || mark == '/' || mark == '\\' || mark == '|',
        forall|i: int|
            0 <= i < first.len() ==> #[trigger] first[i] != ';' && first[i] != ',' && first[i] != '/'
                && first[i] != '\\' && first[i] != '|',
    ensures
        trimmed(first).len() > 0 ==> genres_of(first.push(mark) + rest) == seq![trimmed(first)]
            + genres_of(rest),
        trimmed(first).len() == 0 ==> genres_of(first.push(mark) + rest) == genres_of(rest),
        trimmed(first).len() > 0 ==> genres_of(first) == seq![trimmed(first)],
        trimmed(first).len() == 0 ==> genres_of(first).len() == 0,
{
    let s = first.push(mark) + rest;
    let n = first.len() as int;
    assert forall|i: int| 0 <= i < n implies !parts_genres(#[trigger] s[i]) by {
        assert(s[i] == first[i]);
    }
    assert(s[n] == mark);
    lemma_genre_end_at(s, 0, n);
    lemma_genre_end_at(first, 0, n);
    assert(s.subrange(0, n) =~= first);
    assert(first.subrange(0, n) =~= first);
    lemma_genres_shift(first.push(mark), rest, 0);
    assert(genre_piece(first) + genres_of(rest) =~= genres_of(s));
    assert(Seq::<Seq<char>>::empty() + genres_of(rest) =~= genres_of(rest));
}

proof fn lemma_genre_end_at(s: Seq<char>, from: int, end: int)
    requires
        0 <= from <= end <= s.len(),
        forall|i: int| from <= i < end ==> !parts_genres(#[trigger] s[i]),
        end < s.len() ==> parts_genres(s[end]),
    ensures
        genre_end(s, from) == end,
    decreases end - from,
{
    if from < end {
        assert(!parts_genres(s[from]));
        lemma_genre_end_at(s, from + 1, end);
    }
}

proof fn lemma_genre_end_shift(front: Seq<char>, rest: Seq<char>, from: int)
    requires
        0 <= from <= rest.len(),
    ensures
        genre_end(front + rest, front.len() + from) == front.len() + genre_end(rest, from),
    decreases rest.len() - from,
{
    if from < rest.len() {
        assert((front + rest)[front.len() + from] == rest[from]);
        if !parts_genres(rest[from]) {
            lemma_genre_end_shift(front, rest, from + 1);
        }
    }
}

proof fn lemma_genres_shift(front: Seq<char>, rest: Seq<char>, from: int)
    requires
        0 <= from <= rest.len(),
    ensures
        genres_from(front + rest, front.len() + from) == genres_from(rest, from),
    decreases rest.len() - from,
{
    let all = front + rest;
    let n = front.len() as int;
    lemma_genre_end_shift(front, rest, from);
    lemma_genre_end(rest, from);
    let end = genre_end(rest, from);
    if end >= rest.len() {
        assert(all.subrange(n + from, all.len() as int) =~= rest.subrange(
            from,
            rest.len() as int,
        ));
    } else {
        assert(all.subrange(n + from, n + end) =~= rest.subrange(from, end));
        lemma_genres_shift(front, rest, end + 1);
    }
}

/// A file whose name has two parts with a dash between spaces is by its first part and has
/// its second one for a title; one whose name has no parts has the name for a title.
pub proof fn law_name_tells_author_and_title(
    path: Seq<char>,
    name: Seq<char>,
    author: Seq<char>,
    title: Seq<char>,
)
    requires
        file_name_of(path) == Some(name),
        trimmed(author).len() > 0,
        trimmed(title).len() > 0,
    ensures
        trimmed(stem_of_name(name)) == author + seq![' ', '-', ' '] + title && !author.contains('-')
            ==> author_and_title(path) == (trimmed(author), trimmed(title)),
        trimmed(stem_of_name(name)) == title && !title.contains('-') && !title.contains('_')
            && !title.contains('－') && !title.contains('–') && !title.contains('—')
            ==> author_and_title(path) == (Seq::<char>::empty(), title),
{
    reveal_strlit(" - ");
    assert(" - "@ =~= seq![' ', '-', ' ']);
    let stem = trimmed(stem_of_name(name));
    if stem == author + seq![' ', '-', ' '] + title && !author.contains('-') {
        law_text_is_parted_at_the_first_place(stem, " - "@);
        let n = author.len() as int;
        assert(stem.subrange(n, n + 3) =~= " - "@);
        assert(occurs_at(stem, " - "@, n));
        let (a, b) = split_once_at(stem, " - "@)->0;
        assert(a.len() >= n) by {
            if a.len() < n {
                let m = a.len() as int;
                assert(stem[m + 1] == (a + " - "@ + b)[m + 1]);
                assert(stem[m + 1] == '-');
                if m + 1 < n {
                    assert(author[m + 1] == '-');
                } else {
                    assert(stem[n] == ' ');
                }
            }
        }
        assert(a.len() == n);
        assert(a =~= author) by {
            assert forall|i: int| 0 <= i < n implies a[i] == author[i] by {
                assert(stem[i] == (a + " - "@ + b)[i]);
            }
        }
        assert(b =~= title) by {
            assert forall|i: int| 0 <= i < b.len() implies b[i] == title[i] by {
                assert(stem[n + 3 + i] == (a + " - "@ + b)[n + 3 + i]);
            }
        }
        assert(title_separators()[0] == " - "@);
    }
    if stem == title && !title.contains('-') && !title.contains('_') && !title.contains('－')
        && !title.contains('–') && !title.contains('—') {
        reveal_strlit("-");
        reveal_strlit("－");
        reveal_strlit("–");
        reveal_strlit("—");
        reveal_strlit("_");
        lemma_not_parted(stem, " - "@, 1, '-');
        lemma_not_parted(stem, "-"@, 0, '-');
        lemma_not_parted(stem, "－"@, 0, '－');
        lemma_not_parted(stem, "–"@, 0, '–');
        lemma_not_parted(stem, "—"@, 0, '—');
        lemma_not_parted(stem, "_"@, 0, '_');
        reveal_with_fuel(parted_by, 7);
        let all = title_separators();
        assert(all.drop_first()[0] == all[1]);
        assert(all.drop_first().drop_first()[0] == all[2]);
        assert(all.drop_first().drop_first().drop_first()[0] == all[3]);
        assert(all.drop_first().drop_first().drop_first().drop_first()[0] == all[4]);
        assert(all.drop_first().drop_first().drop_first().drop_first().drop_first()[0] == all[5]);
        assert(parted_by(stem, all) is None);
    }
}

proof fn lemma_not_parted(s: Seq<char>, part: Seq<char>, k: int, c: char)
    requires
        0 <= k < part.len(),
        part[k] == c,
        !s.contains(c),
    ensures
        parted_at(s, part) is None,
{
    law_text_is_parted_at_the_first_place(s, part);
    if split_once_at(s, part) is Some {
        let (a, b) = split_once_at(s, part)->0;
        assert((a + part + b)[a.len() + k] == c);
        assert(s[a.len() + k] == c);
    }
}

/// What the tags of a file tell comes before what its name tells; the artist of the album is
/// the artist where that is asked for and nothing else is told.
pub proof fn law_tags_come_before_the_name(
    path: Seq<char>,
    facts: TagFacts,
    fill_album_artist: bool,
)
    ensures
        ({
            let song = song_of_facts(path, facts, fill_album_artist);
            &&& song.path == path
            &&& facts.title.len() > 0 ==> song.title == facts.title
            &&& facts.title.len() == 0 ==> song.title == author_and_title(path).1
            &&& facts.author.len() > 0 ==> song.author == facts.author
            &&& facts.author.len() == 0 ==> song.author == author_and_title(path).0
            &&& facts.album.len() > 0 ==> song.album == facts.album
            &&& facts.album_artist.len() > 0 ==> song.album_artist == facts.album_artist
            &&& facts.album_artist.len() == 0 ==> song.album_artist == (if fill_album_artist {
                song.author
            } else {
                Seq::empty()
            })
            &&& song.track_number == facts.track_number
            &&& facts.track_total is Some ==> song.album_track_count == facts.track_total->0
        }),
{
}

/// The names of tags are known whatever their case and the space around them.
pub proof fn law_names_of_tags(key: Seq<char>)
    ensures
        kind_of_key("title"@) == TagKind::Title,
        kind_of_key("artist"@) == TagKind::Artist,
        kind_of_key("author"@) == TagKind::Artist,
        kind_of_key("album"@) == TagKind::Album,
        kind_of_key("album_artist"@) == TagKind::AlbumArtist,
        kind_of_key("track"@) == TagKind::TrackNumber,
        kind_of_key("genre"@) == TagKind::Genre,
        kind_of_key("comment"@) == TagKind::Other,
        kind_of_key(trimmed(key)) == kind_of_key(key),
{
    law_trim_is_idempotent(key);
    reveal_strlit("title");
    reveal_strlit("artist");
    reveal_strlit("author");
    reveal_strlit("album");
    reveal_strlit("album_artist");
    reveal_strlit("albumartist");
    reveal_strlit("track");
    reveal_strlit("tracknumber");
    reveal_strlit("genre");
    reveal_strlit("comment");
    lemma_plain_name("title"@);
    lemma_plain_name("artist"@);
    lemma_plain_name("author"@);
    lemma_plain_name("album"@);
    lemma_plain_name("album_artist"@);
    lemma_plain_name("track"@);
    lemma_plain_name("genre"@);
    lemma_plain_name("comment"@);
    assert("title"@[0] == 't' && "title"@[1] == 'i' && "album"@[0] == 'a' && "track"@[1] == 'r'
        && "genre"@[0] == 'g' && "artist"@[1] == 'r' && "author"@[1] == 'u');
    assert("title"@.len() == 5 && "artist"@.len() == 6 && "author"@.len() == 6 && "album"@.len()
        == 5 && "album_artist"@.len() == 12 && "albumartist"@.len() == 11 && "track"@.len() == 5
        && "tracknumber"@.len() == 11 && "genre"@.len() == 5 && "comment"@.len() == 7);
}

spec fn is_plain(c: char) -> bool {
    ('a' <= c && c <= 'z') || c == '_'
}

proof fn lemma_plain_char(c: char)
    requires
        is_plain(c),
    ensures
        !is_white_space(c),
        lower_char(c) == c,
{
}

proof fn lemma_plain_name(s: Seq<char>)
    requires
        s.len() > 0,
        forall|i: int| 0 <= i < s.len() ==> is_plain(#[trigger] s[i]),
    ensures
        lower(trimmed(s)) == s,
{
    lemma_plain_char(s[0]);
    lemma_plain_char(s[s.len() - 1]);
    law_tight_text_is_not_trimmed(s);
    assert(trimmed(s) == s);
    assert forall|i: int| 0 <= i < s.len() implies lower_char(#[trigger] s[i]) == s[i] by {
        lemma_plain_char(s[i]);
    }
    assert(lower(s) =~= s);
}

/// What a song is missing is filled from its path, and what it has stays.
pub proof fn law_missing_facts_are_filled(song: Song)
    ensures
        ({
            let r = with_fallbacks(song);
            let (author, title) = author_and_title(song.path);
            &&& r.path == song.path && r.duration_ms == song.duration_ms && r.codec == song.codec
            &&& trimmed(song.title).len() > 0 ==> r.title == song.title
            &&& trimmed(song.title).len() == 0 ==> r.title == title
            &&& trimmed(song.author).len() > 0 ==> r.author == song.author
            &&& trimmed(song.author).len() == 0 ==> r.author == author
            &&& trimmed(song.album_artist).len() > 0 ==> r.album_artist == song.album_artist
            &&& trimmed(song.album_artist).len() == 0 && trimmed(r.author).len() > 0
                ==> r.album_artist == r.author
            &&& trimmed(song.album).len() > 0 ==> r.album == song.album
            &&& trimmed(song.album).len() == 0 && album_of_dir(song.path) is Some ==> r.album
                == album_of_dir(song.path)->0
        }),
{
}

/// The genres of a song are told in the order of their bytes, each once, and all of them.
pub proof fn law_genres_are_told_in_order(sorted: Seq<Seq<char>>, texts: Seq<Seq<char>>)
    requires
        is_sorted_set(sorted, texts),
    ensures
        forall|i: int, j: int|
            0 <= i < j < sorted.len() ==> text_order(#[trigger] sorted[i], #[trigger] sorted[j])
                == Ordering::Less,
        sorted.no_duplicates(),
        forall|t: Seq<char>| #[trigger] sorted.contains(t) <==> texts.contains(t),
{
    assert forall|i: int, j: int| 0 <= i < sorted.len() && 0 <= j < sorted.len() && i
        != j implies sorted[i] != sorted[j] by {
        let (a, b) = if i < j {
            (sorted[i], sorted[j])
        } else {
            (sorted[j], sorted[i])
        };
        assert(text_order(a, b) == Ordering::Less);
        let x = vstd::utf8::encode_utf8(a);
        law_byte_order_is_total(x, x, x);
    }
    assert forall|t: Seq<char>| #[trigger] sorted.contains(t) <==> texts.contains(t) by {
        assert(texts.contains(t) <==> sorted.contains(t));
    }
}

/// A slash without a number before it tells only how many tracks there are.
pub proof fn law_slash_alone_tells_the_total(total: nat)
    requires
        total <= u32::MAX,
    ensures
        number_pair(seq!['/'] + decimal(total)) == (None::<u32>, Some(total as u32)),
{
    law_decimal_round_trips(total);
    let b = decimal(total);
    let s = seq!['/'] + b;
    assert(is_digit(b[b.len() - 1]));
    law_white_space(b.last());
    assert(s[0] == '/' && s.last() == b.last());
    law_tight_text_is_not_trimmed(s);
    assert(find_from(s, '/', 0) == 0);
    assert(s.take(0) =~= Seq::<char>::empty());
    assert(s.skip(1) =~= b);
    let blank = Seq::<char>::empty();
    law_number_at_the_start_is_read(total, blank);
    assert(b + blank =~= b);
    assert(trimmed(blank) =~= blank);
}

} // verus!
