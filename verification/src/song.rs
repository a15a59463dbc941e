//! What is known of a song, and how it is shown.

use crate::path::{lower_extension_of, path_key, normalize_path_key, parent_name, parent_name_of};
use crate::text::{
    decimal, digit_char, digits_value, from_chars, join, joined_by, law_decimal_round_trips,
    push_decimal, same_text, trim, trimmed,
};
use vstd::prelude::*;

verus! {

/// What is known of a song.
pub struct SongInfo {
    pub path: String,
    pub file_size: u64,
    pub codec: String,
    pub has_cover: bool,
    pub duration_ms: u64,
    pub duration_text: String,
    pub author: String,
    pub title: String,
    pub album_artist: String,
    pub album: String,
    pub track_number: u32,
    pub album_track_count: u32,
    pub genres: Vec<String>,
}

/// What is known of a song, with its texts taken by view.
#[verifier::ext_equal]
pub struct Song {
    pub path: Seq<char>,
    pub file_size: u64,
    pub codec: Seq<char>,
    pub has_cover: bool,
    pub duration_ms: u64,
    pub duration_text: Seq<char>,
    pub author: Seq<char>,
    pub title: Seq<char>,
    pub album_artist: Seq<char>,
    pub album: Seq<char>,
    pub track_number: u32,
    pub album_track_count: u32,
    pub genres: Seq<Seq<char>>,
}

/// The views of some texts.
pub open spec fn text_views(texts: Seq<String>) -> Seq<Seq<char>> {
    texts.map_values(|t: String| t@)
}

impl View for SongInfo {
    type V = Song;

    open spec fn view(&self) -> Song {
        Song {
            path: self.path@,
            file_size: self.file_size,
            codec: self.codec@,
            has_cover: self.has_cover,
            duration_ms: self.duration_ms,
            duration_text: self.duration_text@,
            author: self.author@,
            title: self.title@,
            album_artist: self.album_artist@,
            album: self.album@,
            track_number: self.track_number,
            album_track_count: self.album_track_count,
            genres: text_views(self.genres@),
        }
    }
}

/// The songs of a list.
pub open spec fn song_views(songs: Seq<SongInfo>) -> Seq<Song> {
    songs.map_values(|s: SongInfo| s@)
}

impl Song {
    /// A song of which only the path is known.
    pub open spec fn at(path: Seq<char>) -> Song {
        Song {
            path,
            file_size: 0,
            codec: Seq::empty(),
            has_cover: false,
            duration_ms: 0,
            duration_text: Seq::empty(),
            author: Seq::empty(),
            title: Seq::empty(),
            album_artist: Seq::empty(),
            album: Seq::empty(),
            track_number: 0,
            album_track_count: 0,
            genres: Seq::empty(),
        }
    }
}

/// Copies a list of texts.
pub fn copy_texts(texts: &Vec<String>) -> (r: Vec<String>)
    ensures
        text_views(r@) == text_views(texts@),
{
    let mut r: Vec<String> = Vec::new();
    let mut i: usize = 0;
    while i < texts.len()
        invariant
            i <= texts@.len(),
            text_views(r@) == text_views(texts@).take(i as int),
        decreases texts@.len() - i,
    {
        let copy: String = texts[i].clone();
        let ghost before = r@;
        r.push(copy);
        assert(text_views(r@) =~= text_views(before).push(copy@));
        assert(text_views(texts@).take(i + 1) =~= text_views(texts@).take(i as int).push(
            texts@[i as int]@,
        ));
        i += 1;
    }
    assert(text_views(texts@).take(texts@.len() as int) =~= text_views(texts@));
    r
}

impl SongInfo {
    /// A song of which only the path is known.
    pub fn at(path: &str) -> (r: SongInfo)
        ensures
            r@ == Song::at(path@),
    {
        let r = SongInfo {
            path: path.to_owned(),
            file_size: 0,
            codec: String::new(),
            has_cover: false,
            duration_ms: 0,
            duration_text: String::new(),
            author: String::new(),
            title: String::new(),
            album_artist: String::new(),
            album: String::new(),
            track_number: 0,
            album_track_count: 0,
            genres: Vec::new(),
        };
        assert(r@ =~= Song::at(path@));
        r
    }

    /// Another copy of the song.
    pub fn copy(&self) -> (r: SongInfo)
        ensures
            r@ == self@,
    {
        SongInfo {
            path: self.path.clone(),
            file_size: self.file_size,
            codec: self.codec.clone(),
            has_cover: self.has_cover,
            duration_ms: self.duration_ms,
            duration_text: self.duration_text.clone(),
            author: self.author.clone(),
            title: self.title.clone(),
            album_artist: self.album_artist.clone(),
            album: self.album.clone(),
            track_number: self.track_number,
            album_track_count: self.album_track_count,
            genres: copy_texts(&self.genres),
        }
    }
}

/// A number below a hundred, with two digits.
pub open spec fn two_digits(n: nat) -> Seq<char> {
    seq![digit_char(n / 10), digit_char(n % 10)]
}

/// A length of time as text: minutes and seconds, behind the hours where there
/// are any; each has two digits, and hours from a hundred on have as many as they
/// need.
pub open spec fn time_text(ms: nat) -> Seq<char> {
    let secs = ms / 1000;
    let tail = two_digits(secs % 3600 / 60) + seq![':'] + two_digits(secs % 60);
    let hours = secs / 3600;
    if hours == 0 {
        tail
    } else {
        (if hours < 100 {
            two_digits(hours)
        } else {
            decimal(hours)
        }) + seq![':'] + tail
    }
}

fn push_two_digits(out: &mut Vec<char>, n: u64)
    requires
        n < 100,
    ensures
        final(out)@ == old(out)@ + two_digits(n as nat),
{
    out.push((48u8 + (n / 10) as u8) as char);
    out.push((48u8 + (n % 10) as u8) as char);
    assert(out@ =~= old(out)@ + two_digits(n as nat));
}

/// A length of time as text: `MM:SS`, or `HH:MM:SS` from an hour on.
pub fn format_time(ms: u64) -> (r: String)
    ensures
        r@ == time_text(ms as nat),
{
    let total_secs: u64 = ms / 1000;
    let hours: u64 = total_secs / 3600;
    let mins: u64 = (total_secs % 3600) / 60;
    let secs: u64 = total_secs % 60;
    let mut out: Vec<char> = Vec::new();
    if hours > 0 {
        if hours < 100 {
            push_two_digits(&mut out, hours);
        } else {
            push_decimal(&mut out, hours as u128);
        }
        out.push(':');
    }
    push_two_digits(&mut out, mins);
    out.push(':');
    push_two_digits(&mut out, secs);
    assert(out@ =~= time_text(ms as nat));
    from_chars(out.as_slice())
}

/// A length of time below an hour takes five characters, one below a hundred hours
/// eight, and a longer one more.
pub proof fn law_time_text_length(ms: nat)
    ensures
        ms < 3_600_000 <==> time_text(ms).len() == 5,
        3_600_000 <= ms < 360_000_000 <==> time_text(ms).len() == 8,
        ms >= 360_000_000 ==> time_text(ms).len() > 8,
{
    let hours = ms / 1000 / 3600;
    if hours >= 100 {
        reveal_with_fuel(decimal, 3);
        lemma_decimal_is_not_empty(hours / 100);
    }
}

proof fn lemma_decimal_is_not_empty(n: nat)
    ensures
        decimal(n).len() > 0,
{
}

/// The place of the first song with a path key.
pub open spec fn first_with_key(songs: Seq<Song>, key: Seq<char>) -> Option<int>
    decreases songs.len(),
{
    if songs.len() == 0 {
        None
    } else {
        match first_with_key(songs.drop_last(), key) {
            Some(i) => Some(i),
            None => if path_key(songs.last().path) == key {
                Some(songs.len() - 1)
            } else {
                None
            },
        }
    }
}

/// The place of the first song of a list whose path has the key `key`.
pub fn find_by_key(songs: &Vec<SongInfo>, key: &str) -> (r: Option<usize>)
    ensures
        match r {
            Some(i) => first_with_key(song_views(songs@), key@) == Some(i as int) && i
                < songs@.len(),
            None => first_with_key(song_views(songs@), key@) is None,
        },
{
    let mut i: usize = 0;
    while i < songs.len()
        invariant
            i <= songs@.len(),
            first_with_key(song_views(songs@).take(i as int), key@) is None,
        decreases songs@.len() - i,
    {
        let here = normalize_path_key(songs[i].path.as_str());
        proof {
            let views = song_views(songs@);
            assert(views.take(i + 1).drop_last() =~= views.take(i as int));
            assert(views.take(i + 1).last() == songs@[i as int]@);
        }
        if same_text(here.as_str(), key) {
            proof {
                lemma_first_with_key_extends(song_views(songs@), key@, (i + 1) as int);
            }
            return Some(i);
        }
        i += 1;
    }
    assert(song_views(songs@).take(songs@.len() as int) =~= song_views(songs@));
    None
}

proof fn lemma_first_with_key_extends(songs: Seq<Song>, key: Seq<char>, n: int)
    requires
        0 <= n <= songs.len(),
        first_with_key(songs.take(n), key) is Some,
    ensures
        first_with_key(songs, key) == first_with_key(songs.take(n), key),
    decreases songs.len() - n,
{
    if n < songs.len() {
        assert(songs.take(n + 1).drop_last() =~= songs.take(n));
        lemma_first_with_key_extends(songs, key, n + 1);
    } else {
        assert(songs.take(n) =~= songs);
    }
}

/// What is found has the key, and nothing before it has.
pub proof fn law_first_with_key(songs: Seq<Song>, key: Seq<char>)
    ensures
        match first_with_key(songs, key) {
            Some(i) => 0 <= i < songs.len() && path_key(songs[i].path) == key && forall|k: int|
                0 <= k < i ==> path_key(#[trigger] songs[k].path) != key,
            None => forall|k: int| 0 <= k < songs.len() ==> path_key(#[trigger] songs[k].path) != key,
        },
    decreases songs.len(),
{
    if songs.len() > 0 {
        law_first_with_key(songs.drop_last(), key);
        let front = songs.drop_last();
        match first_with_key(songs, key) {
            Some(i) => {
                assert forall|k: int| 0 <= k < i implies path_key(#[trigger] songs[k].path)
                    != key by {
                    assert(front[k] == songs[k]);
                }
                if i < front.len() {
                    assert(front[i] == songs[i]);
                }
            },
            None => {
                assert forall|k: int| 0 <= k < songs.len() implies path_key(#[trigger] songs[k].path)
                    != key by {
                    if k < front.len() {
                        assert(front[k] == songs[k]);
                    }
                }
            },
        }
    }
}

/// The name of the directory that a song stands in, as the name of its album.
pub open spec fn album_of_dir(path: Seq<char>) -> Option<Seq<char>> {
    match parent_name_of(path) {
        Some(name) => if trimmed(name).len() == 0 {
            None
        } else {
            Some(trimmed(name))
        },
        None => None,
    }
}

/// The name of the directory that a song stands in, as the name of its album.
pub fn album_name_from_parent_dir(path: &str) -> (r: Option<String>)
    ensures
        r is Some <==> album_of_dir(path@) is Some,
        r matches Some(name) ==> Some(name@) == album_of_dir(path@),
{
    let name = match parent_name(path) {
        Some(name) => name,
        None => return None,
    };
    let name = trim(name.as_str());
    if name.as_str().is_empty() {
        None
    } else {
        Some(name)
    }
}

/// The album of a song, or that of its directory where it has none.
pub open spec fn album_or_dir(album: Seq<char>, path: Seq<char>) -> Seq<char> {
    if album.len() == 0 && album_of_dir(path) is Some {
        album_of_dir(path)->0
    } else {
        album
    }
}

/// The album of a song, or that of its directory where it has none.
pub fn album_or_parent_dir(album: String, path: &str) -> (r: String)
    ensures
        r@ == album_or_dir(album@, path@),
{
    if album.as_str().is_empty() {
        if let Some(name) = album_name_from_parent_dir(path) {
            return name;
        }
    }
    album
}

/// A row of the song table.
pub struct SongRow {
    pub dir: String,
    pub name: String,
    pub size: i64,
    pub title: String,
    pub artist: String,
    pub album: String,
    pub duration_ms: i64,
    pub duration_text: String,
    pub codec: String,
    pub has_cover: bool,
}

/// The lowest 64 bits of a number, without a sign.
pub open spec fn as_unsigned(n: i64) -> u64 {
    if n < 0 {
        (n + 0x1_0000_0000_0000_0000) as u64
    } else {
        n as u64
    }
}

fn unsigned(n: i64) -> (r: u64)
    ensures
        r == as_unsigned(n),
{
    if n < 0 {
        (n as i128 + 0x1_0000_0000_0000_0000) as u64
    } else {
        n as u64
    }
}

/// The song of a row. The directory stands in for a missing album, the artist
/// for the artist of the album, and a missing text for the length is made.
pub open spec fn row_song(row: SongRow) -> Option<Song> {
    if row.dir@.len() == 0 || row.name@.len() == 0 {
        None
    } else {
        let path = row.dir@.push('\\') + row.name@;
        let duration_ms = as_unsigned(row.duration_ms);
        Some(
            Song {
                file_size: if row.size < 0 {
                    0
                } else {
                    row.size as u64
                },
                title: row.title@,
                author: row.artist@,
                album_artist: row.artist@,
                album: album_or_dir(row.album@, path),
                duration_ms,
                duration_text: if row.duration_text@.len() == 0 && duration_ms > 0 {
                    time_text(duration_ms as nat)
                } else {
                    row.duration_text@
                },
                codec: row.codec@,
                has_cover: row.has_cover,
                ..Song::at(path)
            },
        )
    }
}

/// The song of a row; a row without a directory or a name is none.
pub fn song_from_row(row: SongRow) -> (r: Option<SongInfo>)
    ensures
        r is Some <==> row_song(row) is Some,
        r matches Some(song) ==> Some(song@) == row_song(row),
{
    if row.dir.as_str().is_empty() || row.name.as_str().is_empty() {
        return None;
    }
    let path = crate::path::join_dir_name(row.dir.as_str(), row.name.as_str());
    let mut song = SongInfo::at(path.as_str());
    song.file_size = if row.size < 0 {
        0
    } else {
        row.size as u64
    };
    song.title = row.title;
    song.album_artist = row.artist.clone();
    song.author = row.artist;
    song.album = album_or_parent_dir(row.album, path.as_str());
    song.duration_ms = unsigned(row.duration_ms);
    song.duration_text = if row.duration_text.as_str().is_empty() && song.duration_ms > 0 {
        format_time(song.duration_ms)
    } else {
        row.duration_text
    };
    song.codec = row.codec;
    song.has_cover = row.has_cover;
    Some(song)
}

/// The endings of the files that are played.
pub open spec fn is_media_ext(ext: Seq<char>) -> bool {
    ||| ext == "mp3"@
    ||| ext == "flac"@
    ||| ext == "wav"@
    ||| ext == "m4a"@
    ||| ext == "aac"@
    ||| ext == "ogg"@
    ||| ext == "wma"@
    ||| ext == "opus"@
    ||| ext == "ape"@
    ||| ext == "alac"@
    ||| ext == "tta"@
    ||| ext == "dsd"@
    ||| ext == "dsf"@
    ||| ext == "dff"@
    ||| ext == "aiff"@
    ||| ext == "aif"@
    ||| ext == "wv"@
    ||| ext == "mka"@
    ||| ext == "mp2"@
    ||| ext == "ac3"@
    ||| ext == "dts"@
}

/// Whether files with this ending, in lower case, are played.
pub fn is_supported_media_ext(ext: &str) -> (r: bool)
    ensures
        r == is_media_ext(ext@),
{
    same_text(ext, "mp3") || same_text(ext, "flac") || same_text(ext, "wav") || same_text(
        ext,
        "m4a",
    ) || same_text(ext, "aac") || same_text(ext, "ogg") || same_text(ext, "wma") || same_text(
        ext,
        "opus",
    ) || same_text(ext, "ape") || same_text(ext, "alac") || same_text(ext, "tta") || same_text(
        ext,
        "dsd",
    ) || same_text(ext, "dsf") || same_text(ext, "dff") || same_text(ext, "aiff") || same_text(
        ext,
        "aif",
    ) || same_text(ext, "wv") || same_text(ext, "mka") || same_text(ext, "mp2") || same_text(
        ext,
        "ac3",
    ) || same_text(ext, "dts")
}

/// What a decoder is tried for a file.
#[derive(Clone, Copy, PartialEq, Eq, Structural, Debug)]
pub enum DecoderKind {
    MonkeysAudio,
    Symphonia,
    FFmpeg,
}

/// The decoders for an ending, in the order in which they are tried: the one
/// that it is registered with, and the general one behind it.
pub open spec fn decoder_order(ext: Seq<char>) -> Seq<DecoderKind> {
    if ext == "ape"@ {
        seq![DecoderKind::MonkeysAudio, DecoderKind::FFmpeg]
    } else if ext == "mp3"@ || ext == "flac"@ || ext == "wav"@ || ext == "ogg"@ || ext == "m4a"@
        || ext == "aac"@ || ext == "aiff"@ {
        seq![DecoderKind::Symphonia, DecoderKind::FFmpeg]
    } else {
        seq![DecoderKind::FFmpeg]
    }
}

/// The decoders for a file, in the order in which they are tried.
pub fn decoders_for(path: &str) -> (r: Vec<DecoderKind>)
    ensures
        r@ == decoder_order(lower_extension_of(path@)),
{
    let ext = crate::path::lower_extension(path);
    let ext = ext.as_str();
    let mut r: Vec<DecoderKind> = Vec::new();
    if same_text(ext, "ape") {
        r.push(DecoderKind::MonkeysAudio);
    } else if same_text(ext, "mp3") || same_text(ext, "flac") || same_text(ext, "wav") || same_text(
        ext,
        "ogg",
    ) || same_text(ext, "m4a") || same_text(ext, "aac") || same_text(ext, "aiff") {
        r.push(DecoderKind::Symphonia);
    }
    r.push(DecoderKind::FFmpeg);
    assert(r@ =~= decoder_order(ext@));
    r
}

/// The general decoder is always tried, last and once.
pub proof fn law_general_decoder_is_last(ext: Seq<char>)
    ensures
        decoder_order(ext).len() > 0,
        decoder_order(ext).last() == DecoderKind::FFmpeg,
        decoder_order(ext).no_duplicates(),
{
}

/// The name of a decoder.
pub open spec fn decoder_name_of(kind: DecoderKind) -> Seq<char> {
    match kind {
        DecoderKind::MonkeysAudio => "Monkey's Audio"@,
        DecoderKind::Symphonia => "Symphonia"@,
        DecoderKind::FFmpeg => "FFmpeg"@,
    }
}

/// The name of a decoder.
pub fn decoder_name(kind: DecoderKind) -> (r: &'static str)
    ensures
        r@ == decoder_name_of(kind),
{
    match kind {
        DecoderKind::MonkeysAudio => "Monkey's Audio",
        DecoderKind::Symphonia => "Symphonia",
        DecoderKind::FFmpeg => "FFmpeg",
    }
}

/// The line for a decoder that failed.
pub open spec fn failure_line(kind: DecoderKind, error: Seq<char>) -> Seq<char> {
    decoder_name_of(kind) + ": "@ + error
}

/// The lines for the decoders that failed.
pub open spec fn failure_lines(errors: Seq<(DecoderKind, String)>) -> Seq<Seq<char>> {
    errors.map_values(|e: (DecoderKind, String)| failure_line(e.0, e.1@))
}

/// What is told where no decoder takes a file: the decoders that were tried, in their
/// order, with what each said.
pub fn decoder_failure(path: &str, errors: &Vec<(DecoderKind, String)>) -> (r: String)
    ensures
        r@ == "解码器初始化失败: "@ + path@ + "\n"@ + joined_by(failure_lines(errors@), '\n'),
{
    let ghost views = failure_lines(errors@);
    let mut lines: Vec<String> = Vec::new();
    let mut i: usize = 0;
    while i < errors.len()
        invariant
            i <= errors@.len(),
            views == failure_lines(errors@),
            text_views(lines@) == views.take(i as int),
        decreases errors@.len() - i,
    {
        let mut line: String = decoder_name(errors[i].0).to_owned();
        line.append(": ");
        line.append(errors[i].1.as_str());
        assert(line@ == views[i as int]);
        let ghost before = lines@;
        lines.push(line);
        i += 1;
        assert(text_views(lines@) =~= text_views(before).push(line@));
        assert(views.take(i as int) =~= views.take(i - 1).push(line@));
    }
    assert(lines@.map_values(|t: String| t@) =~= views);
    let mut r: String = "解码器初始化失败: ".to_owned();
    r.append(path);
    r.append("\n");
    let rest = join(&lines, '\n');
    r.append(rest.as_str());
    r
}

/// The text of a length of time tells its seconds, its minutes and its hours, each behind a
/// colon from the end on, two digits each; the hours are left out where there are none.
pub proof fn law_time_text_tells_the_time(ms: nat)
    ensures
        ({
            let text = time_text(ms);
            let n = text.len() as int;
            let (hours, minutes, seconds) = (ms / 3_600_000, ms / 60_000 % 60, ms / 1000 % 60);
            &&& n >= 5
            &&& digits_value(text.subrange(n - 2, n)) == seconds
            &&& text[n - 3] == ':'
            &&& digits_value(text.subrange(n - 5, n - 3)) == minutes
            &&& hours == 0 ==> n == 5
            &&& hours > 0 ==> n >= 8 && text[n - 6] == ':' && digits_value(text.take(n - 6)) == hours
        }),
{
    let secs = ms / 1000;
    let (h, m, s) = (secs / 3600, secs % 3600 / 60, secs % 60);
    assert(ms / 3_600_000 == h && ms / 60_000 % 60 == m && ms / 1000 % 60 == s);
    let text = time_text(ms);
    let n = text.len() as int;
    lemma_two_digits(m);
    lemma_two_digits(s);
    lemma_decimal_is_not_empty(h);
    assert(text.subrange(n - 2, n) =~= two_digits(s));
    assert(text.subrange(n - 5, n - 3) =~= two_digits(m));
    if h > 0 {
        law_decimal_round_trips(h);
        if h < 100 {
            lemma_two_digits(h);
            assert(text.take(n - 6) =~= two_digits(h));
        } else {
            assert(text.take(n - 6) =~= decimal(h));
            law_time_text_length(ms);
        }
    }
}

proof fn lemma_two_digits(n: nat)
    requires
        n < 100,
    ensures
        digits_value(two_digits(n)) == n,
        two_digits(n).len() == 2,
{
    let t = two_digits(n);
    reveal_with_fuel(digits_value, 3);
    assert(t.drop_last() =~= seq![digit_char(n / 10)]);
    assert(t.drop_last().drop_last() =~= Seq::<char>::empty());
    assert(t.last() == digit_char(n % 10));
    assert(t.drop_last().last() == digit_char(n / 10));
}

/// A song of the library is what its row says: its path is its directory and its name, and
/// each text and number is its own. What is missing is made: the album is the name of the
/// directory, the text of the length is made of the length.
pub proof fn law_row_becomes_its_song(row: SongRow)
    requires
        row.dir@.len() > 0,
        row.name@.len() > 0,
        row.duration_ms >= 0,
    ensures
        ({
            let song = row_song(row)->0;
            &&& row_song(row) is Some
            &&& song.path == row.dir@ + seq!['\\'] + row.name@
            &&& song.title == row.title@ && song.author == row.artist@
            &&& song.album_artist == row.artist@
            &&& row.album@.len() > 0 ==> song.album == row.album@
            &&& row.album@.len() == 0 && parent_name_of(song.path) is Some && trimmed(
                parent_name_of(song.path)->0,
            ).len() > 0 ==> song.album == trimmed(parent_name_of(song.path)->0)
            &&& song.duration_ms == row.duration_ms
            &&& row.duration_text@.len() > 0 ==> song.duration_text == row.duration_text@
            &&& row.duration_text@.len() == 0 && row.duration_ms > 0 ==> song.duration_text
                == time_text(row.duration_ms as nat)
            &&& row.size >= 0 ==> song.file_size == row.size
            &&& row.size < 0 ==> song.file_size == 0
            &&& song.codec == row.codec@ && song.has_cover == row.has_cover
        }),
{
    assert(row.dir@.push('\\') + row.name@ =~= row.dir@ + seq!['\\'] + row.name@);
}

/// A row without a directory or without a name is no song.
pub proof fn law_row_without_a_path_is_no_song(row: SongRow)
    ensures
        row_song(row) is None <==> row.dir@.len() == 0 || row.name@.len() == 0,
{
}

/// The usual endings are played by the library that comes with the player, that of Monkey's
/// Audio by its own, and every other one by the general decoder alone.
pub proof fn law_endings_have_their_decoders(ext: Seq<char>)
    ensures
        decoder_order("ape"@)[0] == DecoderKind::MonkeysAudio,
        ext == "mp3"@ || ext == "flac"@ || ext == "wav"@ || ext == "ogg"@ || ext == "m4a"@ || ext
            == "aac"@ || ext == "aiff"@ ==> decoder_order(ext)[0] == DecoderKind::Symphonia,
        decoder_order(ext).len() == 2 ==> is_media_ext(ext),
        decoder_order(ext).contains(DecoderKind::MonkeysAudio) ==> ext == "ape"@,
{
    reveal_strlit("ape");
    reveal_strlit("mp3");
    reveal_strlit("flac");
    reveal_strlit("wav");
    reveal_strlit("ogg");
    reveal_strlit("m4a");
    reveal_strlit("aac");
    reveal_strlit("aiff");
    assert("ape"@[0] == 'a' && "ape"@[1] == 'p');
    assert("aac"@[1] == 'a' && "aiff"@[1] == 'i');
    assert("mp3"@[0] == 'm' && "flac"@[0] == 'f' && "wav"@[0] == 'w' && "ogg"@[0] == 'o'
        && "m4a"@[0] == 'm');
}

/// The endings that are played.
pub proof fn law_played_endings(ext: Seq<char>)
    ensures
        is_media_ext("mp3"@) && is_media_ext("flac"@) && is_media_ext("wav"@) && is_media_ext(
            "m4a"@,
        ) && is_media_ext("aac"@) && is_media_ext("ogg"@) && is_media_ext("wma"@),
        is_media_ext("opus"@) && is_media_ext("ape"@) && is_media_ext("alac"@) && is_media_ext(
            "tta"@,
        ) && is_media_ext("dsd"@) && is_media_ext("dsf"@) && is_media_ext("dff"@),
        is_media_ext("aiff"@) && is_media_ext("aif"@) && is_media_ext("wv"@) && is_media_ext("mka"@)
            && is_media_ext("mp2"@) && is_media_ext("ac3"@) && is_media_ext("dts"@),
        is_media_ext(ext) ==> 2 <= ext.len() <= 4,
        ext.len() == 3 && ext[0] == 't' && ext[1] == 'x' ==> !is_media_ext(ext),
{
    reveal_strlit("mp3");
    reveal_strlit("flac");
    reveal_strlit("wav");
    reveal_strlit("m4a");
    reveal_strlit("aac");
    reveal_strlit("ogg");
    reveal_strlit("wma");
    reveal_strlit("opus");
    reveal_strlit("ape");
    reveal_strlit("alac");
    reveal_strlit("tta");
    reveal_strlit("dsd");
    reveal_strlit("dsf");
    reveal_strlit("dff");
    reveal_strlit("aiff");
    reveal_strlit("aif");
    reveal_strlit("wv");
    reveal_strlit("mka");
    reveal_strlit("mp2");
    reveal_strlit("ac3");
    reveal_strlit("dts");
}

} // verus!
