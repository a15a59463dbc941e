//! The facts of a song put together from what several readers found in its file.

use crate::path::{file_name, file_name_of, lower_extension, lower_extension_of};
use crate::song::{
    Song, SongInfo, album_or_dir, album_or_parent_dir, format_time, text_views, time_text,
};
use crate::tags::{
    ProbeMediaInfo, TagFacts, TagItem, TagKind, author_and_title, facts_of,
    fill_now_playing_from_ffmpeg_tags, fill_now_playing_from_symphonia_tags, first_told,
    is_song_of_facts, item_views, kind_of_key, named_views, parse_author_title_from_path,
    tag_kind_by_key,
};
use crate::text::{
    last_place, lemma_last_place, lower, replace_char, replaced, rfind, same_text, slice_text,
    to_chars, to_lower, trim, trimmed,
};
use vstd::prelude::*;

verus! {

/// What a decoder tells of a file.
pub struct DecoderFacts {
    pub duration_ms: Option<u64>,
    pub codec_name: String,
}

/// The length and the codec of a song from its probe, from a decoder where the
/// probe found no length, and from the ending of its file.
pub open spec fn length_and_codec(
    path: Seq<char>,
    probed_ms: u64,
    probed_codec: Seq<char>,
    decoder: Option<(Option<u64>, Seq<char>)>,
) -> (u64, Seq<char>) {
    let asked = if probed_ms == 0 {
        decoder
    } else {
        None
    };
    let ms = match asked {
        Some((Some(ms), _)) => ms,
        _ => probed_ms,
    };
    let codec = match asked {
        Some((_, codec)) => codec,
        None => Seq::empty(),
    };
    let codec = first_told(codec, probed_codec);
    (ms, first_told(codec, lower_extension_of(path)))
}

/// The song with the length, the codec and the size filled in, and with the
/// author as the artist of the album where none is told.
pub open spec fn completed_song(
    song: Song,
    file_size: u64,
    ms: u64,
    codec: Seq<char>,
) -> Song {
    Song {
        album_artist: first_told(song.album_artist, song.author),
        album: album_or_dir(song.album, song.path),
        duration_ms: ms,
        duration_text: if ms > 0 {
            time_text(ms as nat)
        } else {
            Seq::empty()
        },
        codec,
        file_size,
        ..song
    }
}

/// A decoder's facts, with the name taken by view.
pub open spec fn decoder_view(decoder: Option<DecoderFacts>) -> Option<(Option<u64>, Seq<char>)> {
    match decoder {
        Some(d) => Some((d.duration_ms, d.codec_name@)),
        None => None,
    }
}

/// Whether `base` is the song that the tags tell: those of the probe, else those
/// of the other reader, else what the path tells.
pub open spec fn is_tagged_song(
    base: Song,
    path: Seq<char>,
    probe_tags: Seq<(String, String)>,
    other_tags: Option<Seq<TagItem>>,
) -> bool {
    if probe_tags.len() > 0 {
        is_song_of_facts(base, path, facts_of(named_views(probe_tags)), true)
    } else {
        match other_tags {
            Some(tags) => is_song_of_facts(base, path, facts_of(item_views(tags)), false),
            None => base == Song {
                author: author_and_title(path).0,
                title: author_and_title(path).1,
                ..Song::at(path)
            },
        }
    }
}

/// The tags of a probe; none where it failed.
pub open spec fn told_tags(probe: Option<ProbeMediaInfo>) -> Seq<(String, String)> {
    match probe {
        Some(p) => p.tags@,
        None => Seq::empty(),
    }
}

/// The length that a probe found.
pub open spec fn told_ms(probe: Option<ProbeMediaInfo>) -> u64 {
    match probe {
        Some(p) => p.duration_ms,
        None => 0,
    }
}

/// The codec that a probe found.
pub open spec fn told_codec(probe: Option<ProbeMediaInfo>) -> Seq<char> {
    match probe {
        Some(p) => p.codec_name@,
        None => Seq::empty(),
    }
}

/// The tags that a reader found, where it found any.
pub open spec fn tag_items(tags: Option<Vec<TagItem>>) -> Option<Seq<TagItem>> {
    match tags {
        Some(tags) => Some(tags@),
        None => None,
    }
}

/// Puts a song together. `probe` is what the general reader found, `other_tags`
/// what the other one found, and `decoder` what a decoder tells, which is asked
/// for only where the probe found no length.
pub fn collect_song_info(
    path: &str,
    file_size: u64,
    probe: Option<ProbeMediaInfo>,
    other_tags: Option<Vec<TagItem>>,
    decoder: Option<DecoderFacts>,
) -> (r: SongInfo)
    ensures
        exists|base: Song|
            #[trigger] is_tagged_song(base, path@, told_tags(probe), tag_items(other_tags)) && r@
                == completed_song(
                base,
                file_size,
                length_and_codec(
                    path@,
                    told_ms(probe),
                    told_codec(probe),
                    decoder_view(decoder),
                ).0,
                length_and_codec(
                    path@,
                    told_ms(probe),
                    told_codec(probe),
                    decoder_view(decoder),
                ).1,
            ),
{
    let ghost expected = (told_tags(probe), told_ms(probe), told_codec(probe));
    let ghost asked = decoder_view(decoder);
    let mut probed_ms: u64 = 0;
    let mut probed_codec = String::new();
    let mut probe_tags: Vec<(String, String)> = Vec::new();
    if let Some(p) = probe {
        probed_ms = p.duration_ms;
        probed_codec = p.codec_name;
        probe_tags = p.tags;
    }
    let ghost told = probe_tags@;
    assert(told =~= expected.0 && probed_ms == expected.1 && probed_codec@ =~= expected.2);
    let ghost other = tag_items(other_tags);
    let mut s: SongInfo;
    if probe_tags.len() > 0 {
        s = fill_now_playing_from_ffmpeg_tags(path, &probe_tags);
    } else {
        match &other_tags {
            Some(tags) => {
                s = fill_now_playing_from_symphonia_tags(path, tags);
            },
            None => {
                let (author, title) = parse_author_title_from_path(path);
                s = SongInfo::at(path);
                s.author = author;
                s.title = title;
            },
        }
    }
    let ghost base = s@;
    assert(is_tagged_song(base, path@, told, other));
    if s.album_artist.as_str().is_empty() {
        s.album_artist = s.author.clone();
    }
    s.album = album_or_parent_dir(s.album, path);
    let mut codec = String::new();
    s.duration_ms = probed_ms;
    if s.duration_ms == 0 {
        if let Some(d) = decoder {
            if let Some(ms) = d.duration_ms {
                s.duration_ms = ms;
            }
            codec = d.codec_name;
        }
    }
    if codec.as_str().is_empty() {
        codec = probed_codec;
        if codec.as_str().is_empty() {
            codec = lower_extension(path);
        }
    }
    s.codec = codec;
    if s.duration_ms > 0 {
        s.duration_text = format_time(s.duration_ms);
    }
    s.file_size = file_size;
    proof {
        let (ms, name) = length_and_codec(path@, expected.1, expected.2, asked);
        assert(s.codec@ =~= name);
        assert(s@ =~= completed_song(base, file_size, ms, name));
    }
    s
}

/// Texts of which the last that was told counts.
#[verifier::ext_equal]
pub struct LastTold {
    pub title: Seq<char>,
    pub author: Seq<char>,
    pub album_artist: Seq<char>,
    pub album: Seq<char>,
}

impl LastTold {
    /// After one more tag.
    pub open spec fn with(self, kind: TagKind, value: Seq<char>) -> LastTold {
        match kind {
            TagKind::Title => LastTold { title: value, ..self },
            TagKind::Artist => LastTold { author: value, ..self },
            TagKind::AlbumArtist => LastTold { album_artist: value, ..self },
            TagKind::Album => LastTold { album: value, ..self },
            _ => self,
        }
    }
}

/// What some named tags tell last, values trimmed and empty ones left out.
pub open spec fn last_told(tags: Seq<(String, String)>) -> LastTold
    decreases tags.len(),
{
    if tags.len() == 0 {
        LastTold {
            title: Seq::empty(),
            author: Seq::empty(),
            album_artist: Seq::empty(),
            album: Seq::empty(),
        }
    } else {
        let front = last_told(tags.drop_last());
        let value = trimmed(tags.last().1@);
        if value.len() == 0 {
            front
        } else {
            front.with(kind_of_key(tags.last().0@), value)
        }
    }
}

/// A file name without what follows its last dot.
pub open spec fn name_before_dot(name: Seq<char>) -> Seq<char> {
    let dot = last_place(name, '.');
    if dot < 0 {
        name
    } else {
        name.take(dot)
    }
}

/// A file name without what follows its last dot.
pub fn title_from_name(name: &str) -> (r: String)
    ensures
        r@ == name_before_dot(name@),
{
    let chars = to_chars(name);
    proof {
        lemma_last_place(name@, '.');
    }
    match rfind(&chars, '.') {
        Some(dot) => {
            let r = slice_text(&chars, 0, dot);
            assert(r@ =~= name@.take(dot as int));
            r
        },
        None => name.to_owned(),
    }
}

/// The song of a file as a scan of the library records it.
pub open spec fn scanned_song(
    path: Seq<char>,
    file_size: u64,
    probe: Option<ProbeMediaInfo>,
) -> Song {
    let told = last_told(told_tags(probe));
    let ms = told_ms(probe);
    let name = match file_name_of(path) {
        Some(name) => name,
        None => path,
    };
    Song {
        file_size,
        has_cover: match probe {
            Some(p) => p.has_cover,
            None => false,
        },
        duration_ms: ms,
        duration_text: if ms > 0 {
            time_text(ms as nat)
        } else {
            Seq::empty()
        },
        codec: match probe {
            Some(p) => first_told(p.codec_name@, lower_extension_of(path)),
            None => Seq::empty(),
        },
        title: first_told(told.title, name_before_dot(name)),
        author: told.author,
        album_artist: first_told(told.album_artist, told.author),
        album: album_or_dir(told.album, path),
        ..Song::at(path)
    }
}

/// The song of a file as a scan of the library records it.
pub fn collect_song_info_scan_style(
    path: &str,
    file_size: u64,
    probe: Option<ProbeMediaInfo>,
) -> (r: SongInfo)
    ensures
        r@ == scanned_song(path@, file_size, probe),
{
    let mut s = SongInfo::at(path);
    s.file_size = file_size;
    if let Some(info) = probe {
        s.has_cover = info.has_cover;
        s.duration_ms = info.duration_ms;
        if s.duration_ms > 0 {
            s.duration_text = format_time(s.duration_ms);
        }
        s.codec = info.codec_name;
        if s.codec.as_str().is_empty() {
            s.codec = lower_extension(path);
        }
        let tags = info.tags;
        let ghost start = s@;
        let mut i: usize = 0;
        while i < tags.len()
            invariant
                i <= tags@.len(),
                s@ == (Song {
                    title: last_told(tags@.take(i as int)).title,
                    author: last_told(tags@.take(i as int)).author,
                    album_artist: last_told(tags@.take(i as int)).album_artist,
                    album: last_told(tags@.take(i as int)).album,
                    ..start
                }),
            decreases tags@.len() - i,
        {
            assert(tags@.take(i + 1).drop_last() =~= tags@.take(i as int));
            let v = trim(tags[i].1.as_str());
            if !v.as_str().is_empty() {
                match tag_kind_by_key(tags[i].0.as_str()) {
                    TagKind::Title => s.title = v,
                    TagKind::Artist => s.author = v,
                    TagKind::AlbumArtist => s.album_artist = v,
                    TagKind::Album => s.album = v,
                    _ => {},
                }
            }
            i += 1;
        }
        assert(tags@.take(tags@.len() as int) =~= tags@);
    }
    if s.title.as_str().is_empty() {
        let name = match file_name(path) {
            Some(name) => name,
            None => path.to_owned(),
        };
        s.title = title_from_name(name.as_str());
    }
    s.album = album_or_parent_dir(s.album, path);
    if s.album_artist.as_str().is_empty() {
        s.album_artist = s.author.clone();
    }
    s
}

/// A path of a playlist as it is kept; an empty line is none.
pub open spec fn playlist_path(line: Seq<char>) -> Seq<Seq<char>> {
    if trimmed(line).len() == 0 {
        seq![]
    } else {
        seq![replaced(trimmed(line), '/', '\\')]
    }
}

/// The paths of a playlist as they are kept.
pub open spec fn playlist_paths_of(lines: Seq<Seq<char>>) -> Seq<Seq<char>>
    decreases lines.len(),
{
    if lines.len() == 0 {
        seq![]
    } else {
        playlist_paths_of(lines.drop_last()) + playlist_path(lines.last())
    }
}

/// The paths of the songs that a playlist names: trimmed, with backslashes, and
/// without the empty ones.
pub fn playlist_paths(lines: &Vec<String>) -> (r: Vec<String>)
    ensures
        text_views(r@) == playlist_paths_of(text_views(lines@)),
{
    let mut r: Vec<String> = Vec::new();
    let ghost views = text_views(lines@);
    let mut i: usize = 0;
    assert(text_views(r@) =~= playlist_paths_of(views.take(0)));
    while i < lines.len()
        invariant
            i <= lines@.len(),
            views == text_views(lines@),
            text_views(r@) == playlist_paths_of(views.take(i as int)),
        decreases lines@.len() - i,
    {
        assert(views.take(i + 1).drop_last() =~= views.take(i as int));
        assert(views.take(i + 1).last() == lines@[i as int]@);
        let line = trim(lines[i].as_str());
        let ghost before = text_views(r@);
        if !line.as_str().is_empty() {
            let fixed = replace_char(line.as_str(), '/', '\\');
            r.push(fixed);
            assert(text_views(r@) =~= before.push(fixed@));
        }
        assert(text_views(r@) =~= before + playlist_path(lines@[i as int]@));
        i += 1;
    }
    assert(views.take(lines@.len() as int) =~= views);
    r
}

/// Plain texts of which the last that a row of the song table is told counts.
pub open spec fn row_texts(tags: Seq<(String, String)>) -> LastTold
    decreases tags.len(),
{
    if tags.len() == 0 {
        last_told(Seq::empty())
    } else {
        let front = row_texts(tags.drop_last());
        let key = lower(tags.last().0@);
        let value = tags.last().1@;
        if key == "title"@ {
            LastTold { title: value, ..front }
        } else if key == "artist"@ || key == "author"@ {
            LastTold { author: value, ..front }
        } else if key == "album"@ {
            LastTold { album: value, ..front }
        } else {
            front
        }
    }
}

/// The texts of a row of the song table.
pub struct SongRowTexts {
    pub title: String,
    pub artist: String,
    pub album: String,
    pub duration_text: String,
}

/// The texts of the row for the file `name` in `dir`: the tags as they are told
/// last, the name of the file as a title and that of the directory as an album
/// where there is none.
pub fn song_row_texts(dir: &str, name: &str, info: &ProbeMediaInfo) -> (r: SongRowTexts)
    ensures
        r.title@ == first_told(row_texts(info.tags@).title, name_before_dot(name@)),
        r.artist@ == row_texts(info.tags@).author,
        r.album@ == (if row_texts(info.tags@).album.len() == 0 && file_name_of(dir@) is Some {
            trimmed(file_name_of(dir@)->0)
        } else {
            row_texts(info.tags@).album
        }),
        r.duration_text@ == (if info.duration_ms > 0 {
            time_text(info.duration_ms as nat)
        } else {
            Seq::empty()
        }),
{
    let mut title = String::new();
    let mut artist = String::new();
    let mut album = String::new();
    let mut i: usize = 0;
    while i < info.tags.len()
        invariant
            i <= info.tags@.len(),
            title@ == row_texts(info.tags@.take(i as int)).title,
            artist@ == row_texts(info.tags@.take(i as int)).author,
            album@ == row_texts(info.tags@.take(i as int)).album,
        decreases info.tags@.len() - i,
    {
        assert(info.tags@.take(i + 1).drop_last() =~= info.tags@.take(i as int));
        let key = to_lower(info.tags[i].0.as_str());
        let key = key.as_str();
        if same_text(key, "title") {
            title = info.tags[i].1.clone();
        } else if same_text(key, "artist") || same_text(key, "author") {
            artist = info.tags[i].1.clone();
        } else if same_text(key, "album") {
            album = info.tags[i].1.clone();
        }
        i += 1;
    }
    assert(info.tags@.take(info.tags@.len() as int) =~= info.tags@);
    if title.as_str().is_empty() {
        title = title_from_name(name);
    }
    if album.as_str().is_empty() {
        if let Some(dir_name) = file_name(dir) {
            album = trim(dir_name.as_str());
        }
    }
    let duration_text = if info.duration_ms > 0 {
        format_time(info.duration_ms)
    } else {
        String::new()
    };
    SongRowTexts { title, artist, album, duration_text }
}

/// A named tag for a text, where there is one.
pub open spec fn named_tag(name: Seq<char>, value: Seq<char>) -> Seq<(Seq<char>, Seq<char>)> {
    if value.len() == 0 {
        seq![]
    } else {
        seq![(name, value)]
    }
}

/// The named tags of some facts.
pub open spec fn named_tags(facts: TagFacts) -> Seq<(Seq<char>, Seq<char>)> {
    named_tag("title"@, facts.title) + named_tag("artist"@, facts.author) + named_tag(
        "album_artist"@,
        facts.album_artist,
    ) + named_tag("album"@, facts.album)
}

/// The views of some named tags.
pub open spec fn pair_views(tags: Seq<(String, String)>) -> Seq<(Seq<char>, Seq<char>)> {
    tags.map_values(|t: (String, String)| (t.0@, t.1@))
}

fn push_named(out: &mut Vec<(String, String)>, name: &str, value: String)
    ensures
        pair_views(final(out)@) == pair_views(old(out)@) + named_tag(name@, value@),
{
    if !value.as_str().is_empty() {
        let ghost v = value@;
        out.push((name.to_owned(), value));
        assert(pair_views(out@) =~= pair_views(old(out)@).push((name@, v)));
    }
    assert(pair_views(out@) =~= pair_views(old(out)@) + named_tag(name@, value@));
}

/// The tags that a probe hands on: the title, the artist, the artist of the
/// album and the album, each as it is told first.
pub fn probe_tags(tags: &Vec<TagItem>) -> (r: Vec<(String, String)>)
    ensures
        pair_views(r@) == named_tags(facts_of(item_views(tags@))),
{
    let facts = crate::tags::gather_texts(tags);
    let (title, author, album_artist, album) = facts;
    let mut r: Vec<(String, String)> = Vec::new();
    push_named(&mut r, "title", title);
    push_named(&mut r, "artist", author);
    push_named(&mut r, "album_artist", album_artist);
    push_named(&mut r, "album", album);
    assert(pair_views(r@) =~= named_tags(facts_of(item_views(tags@))));
    r
}

/// The length of a file is what a first look tells, else what its decoder tells; its codec is
/// what the decoder tells where it was asked, else what the first look tells, else its
/// ending.
pub proof fn law_decoder_is_asked_for_a_missing_length(
    path: Seq<char>,
    probed_ms: u64,
    probed_codec: Seq<char>,
    ms: u64,
    codec: Seq<char>,
)
    ensures
        probed_ms > 0 ==> length_and_codec(path, probed_ms, probed_codec, Some((Some(ms), codec))).0
            == probed_ms,
        length_and_codec(path, 0, probed_codec, Some((Some(ms), codec))).0 == ms,
        length_and_codec(path, 0, probed_codec, Some((None, codec))).0 == 0,
        length_and_codec(path, 0, probed_codec, None).0 == 0,
        probed_ms > 0 && probed_codec.len() > 0 ==> length_and_codec(
            path,
            probed_ms,
            probed_codec,
            Some((Some(ms), codec)),
        ).1 == probed_codec,
        codec.len() > 0 ==> length_and_codec(path, 0, probed_codec, Some((Some(ms), codec))).1
            == codec,
        codec.len() == 0 && probed_codec.len() > 0 ==> length_and_codec(
            path,
            0,
            probed_codec,
            Some((Some(ms), codec)),
        ).1 == probed_codec,
        length_and_codec(path, probed_ms, Seq::empty(), None).1 == lower_extension_of(path),
{
}

/// A song is completed by its length, its size and its codec; the artist stands in for the
/// artist of the album, and nothing else is changed.
pub proof fn law_song_is_completed(song: Song, file_size: u64, ms: u64, codec: Seq<char>)
    ensures
        ({
            let r = completed_song(song, file_size, ms, codec);
            &&& r.path == song.path && r.title == song.title && r.author == song.author
            &&& r.duration_ms == ms && r.file_size == file_size && r.codec == codec
            &&& ms > 0 ==> r.duration_text == time_text(ms as nat)
            &&& ms == 0 ==> r.duration_text.len() == 0
            &&& song.album_artist.len() > 0 ==> r.album_artist == song.album_artist
            &&& song.album_artist.len() == 0 ==> r.album_artist == song.author
            &&& song.album.len() > 0 ==> r.album == song.album
            &&& r.genres == song.genres && r.track_number == song.track_number
            &&& r.has_cover == song.has_cover
        }),
{
}

/// Of several tags of one kind the last one that is not empty is taken by a scan.
pub proof fn law_last_filled_tag_is_scanned(tags: Seq<(String, String)>, k: int)
    requires
        0 <= k < tags.len(),
        trimmed(tags[k].1@).len() > 0,
        forall|j: int|
            k < j < tags.len() ==> kind_of_key((#[trigger] tags[j]).0@) != kind_of_key(tags[k].0@)
                || trimmed(tags[j].1@).len() == 0,
    ensures
        kind_of_key(tags[k].0@) == TagKind::Title ==> last_told(tags).title == trimmed(tags[k].1@),
        kind_of_key(tags[k].0@) == TagKind::Artist ==> last_told(tags).author == trimmed(
            tags[k].1@,
        ),
        kind_of_key(tags[k].0@) == TagKind::AlbumArtist ==> last_told(tags).album_artist
            == trimmed(tags[k].1@),
        kind_of_key(tags[k].0@) == TagKind::Album ==> last_told(tags).album == trimmed(tags[k].1@),
    decreases tags.len(),
{
    if k < tags.len() - 1 {
        let front = tags.drop_last();
        assert forall|j: int| k < j < front.len() implies kind_of_key((#[trigger] front[j]).0@)
            != kind_of_key(front[k].0@) || trimmed(front[j].1@).len() == 0 by {
            assert(front[j] == tags[j]);
        }
        law_last_filled_tag_is_scanned(front, k);
        let last = tags[tags.len() - 1];
        assert(kind_of_key(last.0@) != kind_of_key(tags[k].0@) || trimmed(last.1@).len() == 0);
    }
}

/// A file that is scanned has the texts of its tags; the name of the file up to its last dot
/// stands in for a title, the artist for that of the album, the directory for the album.
pub proof fn law_scanned_song_has_its_tags(
    path: Seq<char>,
    file_size: u64,
    probe: ProbeMediaInfo,
    name: Seq<char>,
)
    requires
        file_name_of(path) == Some(name),
    ensures
        ({
            let song = scanned_song(path, file_size, Some(probe));
            let told = last_told(probe.tags@);
            &&& song.path == path && song.file_size == file_size
            &&& song.has_cover == probe.has_cover && song.duration_ms == probe.duration_ms
            &&& probe.duration_ms > 0 ==> song.duration_text == time_text(probe.duration_ms as nat)
            &&& told.title.len() > 0 ==> song.title == told.title
            &&& told.title.len() == 0 && !name.contains('.') ==> song.title == name
            &&& told.title.len() == 0 && name.contains('.') ==> song.title.len() < name.len()
                && name[song.title.len() as int] == '.' && name.take(song.title.len() as int)
                == song.title && !name.skip(song.title.len() as int + 1).contains('.')
            &&& song.author == told.author
            &&& told.album_artist.len() > 0 ==> song.album_artist == told.album_artist
            &&& told.album_artist.len() == 0 ==> song.album_artist == told.author
            &&& told.album.len() > 0 ==> song.album == told.album
            &&& probe.codec_name@.len() > 0 ==> song.codec == probe.codec_name@
        }),
        ({
            let song = scanned_song(path, file_size, None);
            song.duration_ms == 0 && song.codec.len() == 0 && !song.has_cover && song.file_size
                == file_size
        }),
{
    lemma_last_place(name, '.');
    let dot = last_place(name, '.');
    if name.contains('.') {
        let i = choose|i: int| 0 <= i < name.len() && name[i] == '.';
        assert(dot >= i);
        let rest = name.skip(dot + 1);
        assert forall|k: int| 0 <= k < rest.len() implies rest[k] != '.' by {
            assert(name[dot + 1 + k] != '.');
        }
    }
}

/// The lines of a playlist file are its paths, without the space around them and with
/// backslashes, in their order; empty lines are left out.
pub proof fn law_playlist_lines_are_paths(lines: Seq<Seq<char>>, line: Seq<char>)
    ensures
        playlist_paths_of(Seq::empty()).len() == 0,
        trimmed(line).len() == 0 ==> playlist_paths_of(lines.push(line)) == playlist_paths_of(
            lines,
        ),
        trimmed(line).len() > 0 ==> playlist_paths_of(lines.push(line)) == playlist_paths_of(
            lines,
        ).push(replaced(trimmed(line), '/', '\\')),
{
    assert(lines.push(line).drop_last() =~= lines);
    assert(playlist_paths_of(lines) + Seq::<Seq<char>>::empty() =~= playlist_paths_of(lines));
    let path = replaced(trimmed(line), '/', '\\');
    assert(playlist_paths_of(lines) + seq![path] =~= playlist_paths_of(lines).push(path));
}

/// The texts of a row are those of the last tag of each name, whatever its case.
pub proof fn law_row_has_the_last_texts(tags: Seq<(String, String)>, last: (String, String))
    ensures
        lower(last.0@) == "title"@ ==> row_texts(tags.push(last)) == (LastTold {
            title: last.1@,
            ..row_texts(tags)
        }),
        lower(last.0@) == "artist"@ || lower(last.0@) == "author"@ ==> row_texts(tags.push(last))
            == (LastTold { author: last.1@, ..row_texts(tags) }),
        lower(last.0@) == "album"@ ==> row_texts(tags.push(last)) == (LastTold {
            album: last.1@,
            ..row_texts(tags)
        }),
        lower(last.0@) == "comment"@ ==> row_texts(tags.push(last)) == row_texts(tags),
{
    assert(tags.push(last).drop_last() =~= tags);
    reveal_strlit("title");
    reveal_strlit("artist");
    reveal_strlit("author");
    reveal_strlit("album");
    reveal_strlit("comment");
    assert("title"@[0] == 't' && "album"@[0] == 'a');
    assert("title"@.len() == 5 && "artist"@.len() == 6 && "author"@.len() == 6 && "album"@.len()
        == 5 && "comment"@.len() == 7);
}

/// What the tags of a file tell is named again: title, artist, artist of the album and album,
/// in this order, each where it was told.
pub proof fn law_told_facts_are_named(facts: TagFacts)
    ensures
        facts.title.len() > 0 ==> named_tags(facts)[0] == ("title"@, facts.title),
        facts.album.len() > 0 ==> named_tags(facts).last() == ("album"@, facts.album),
        facts.title.len() > 0 && facts.author.len() > 0 && facts.album_artist.len() > 0
            && facts.album.len() > 0 ==> named_tags(facts) == seq![
            ("title"@, facts.title),
            ("artist"@, facts.author),
            ("album_artist"@, facts.album_artist),
            ("album"@, facts.album),
        ],
        facts.title.len() == 0 && facts.author.len() == 0 && facts.album_artist.len() == 0
            && facts.album.len() == 0 ==> named_tags(facts).len() == 0,
        facts.title.len() == 0 && facts.author.len() > 0 ==> named_tags(facts)[0] == (
            "artist"@,
            facts.author,
        ),
{
    if facts.title.len() > 0 && facts.author.len() > 0 && facts.album_artist.len() > 0
        && facts.album.len() > 0 {
        assert(named_tags(facts) =~= seq![
            ("title"@, facts.title),
            ("artist"@, facts.author),
            ("album_artist"@, facts.album_artist),
            ("album"@, facts.album),
        ]);
    }
}

} // verus!
