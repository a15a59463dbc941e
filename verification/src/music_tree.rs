//! The tree of the music library: which folders and files stand at which level,
//! and what a click on them plays.

use crate::library::ScanRoot;
use crate::path::{
    joined, normalize_path_key, path_key, ui_join_root_rel, utf8_len, utf8_len_exceeds,
};
use crate::song::{song_views, text_views, Song, SongInfo};
use crate::text::{
    find, find_from, join, joined_by, lemma_find_from, lower, occurs_at, pieces, pieces_from,
    replace_char, replaced, same_text, slice_text, split, stands_at, to_chars, to_lower,
    to_lower_char, trim, trimmed,
};
use crate::text_sort::{is_in_order, sort_texts, TextOrder};
use vstd::prelude::*;

verus! {

/// A song as the library lists it: its directory and its name.
pub struct SongPlace {
    pub dir: String,
    pub name: String,
}

/// Whether a path lies under the directory with the key `key`, or is it.
pub open spec fn lies_under(path: Seq<char>, key: Seq<char>) -> bool {
    &&& 0 < key.len() <= path.len()
    &&& lower(path).take(key.len() as int) == key
    &&& path.len() == key.len() || path[key.len() as int] == '\\'
}

/// The place of the longest root that a path lies under, the first of equal
/// ones.
pub open spec fn best_root(roots: Seq<ScanRoot>, path: Seq<char>) -> Option<int>
    decreases roots.len(),
{
    if roots.len() == 0 {
        None
    } else {
        let front = best_root(roots.drop_last(), path);
        let last = roots.last();
        if lies_under(path, last.key@) && (match front {
            Some(i) => last.key@.len() > roots[i].key@.len(),
            None => true,
        }) {
            Some(roots.len() - 1)
        } else {
            front
        }
    }
}

/// A path without the root that it lies under, and without the separator behind
/// it. A path that is a root, or that lies under none, stays.
pub open spec fn below_root(roots: Seq<ScanRoot>, path: Seq<char>) -> Seq<char> {
    match best_root(roots, path) {
        Some(i) => {
            let n = roots[i].key@.len() as int;
            let cut = if n < path.len() && path[n] == '\\' {
                n + 1
            } else {
                n
            };
            if cut < path.len() {
                path.skip(cut)
            } else {
                path
            }
        },
        None => path,
    }
}

/// The way of a song below its root.
pub open spec fn relative_path(roots: Seq<ScanRoot>, dir: Seq<char>, name: Seq<char>) -> Seq<char> {
    below_root(roots, replaced(dir.push('\\') + name, '/', '\\'))
}

fn is_under(path: &Vec<char>, key: &Vec<char>) -> (r: bool)
    ensures
        r == lies_under(path@, key@),
{
    let n: usize = key.len();
    if n == 0 || path.len() < n {
        return false;
    }
    let mut i: usize = 0;
    while i < n
        invariant
            n == key@.len(),
            n <= path@.len(),
            i <= n,
            forall|k: int| 0 <= k < i ==> lower(path@)[k] == #[trigger] key@[k],
        decreases n - i,
    {
        if to_lower_char(path[i]) != key[i] {
            assert(lower(path@).take(n as int)[i as int] != key@[i as int]);
            return false;
        }
        i += 1;
    }
    assert(lower(path@).take(n as int) =~= key@);
    path.len() == n || path[n] == '\\'
}

proof fn lemma_best_root(roots: Seq<ScanRoot>, path: Seq<char>)
    ensures
        match best_root(roots, path) {
            Some(i) => 0 <= i < roots.len() && lies_under(path, roots[i].key@),
            None => true,
        },
    decreases roots.len(),
{
    if roots.len() > 0 {
        lemma_best_root(roots.drop_last(), path);
    }
}

/// The way of a song below its root.
pub fn music_tree_relative_path(roots: &Vec<ScanRoot>, dir: &str, name: &str) -> (r: String)
    ensures
        r@ == relative_path(roots@, dir@, name@),
{
    let mut full: String = dir.to_owned();
    full.push('\\');
    full.append(name);
    let fixed = replace_char(full.as_str(), '/', '\\');
    let path = to_chars(fixed.as_str());
    let m: usize = path.len();
    let mut best: Option<usize> = None;
    let mut best_len: usize = 0;
    let mut i: usize = 0;
    while i < roots.len()
        invariant
            i <= roots@.len(),
            path@ == fixed@,
            m == path@.len(),
            match best {
                Some(k) => best_root(roots@.take(i as int), path@) == Some(k as int) && best_len
                    == roots@[k as int].key@.len() && k < i,
                None => best_root(roots@.take(i as int), path@) is None && best_len == 0,
            },
            best is Some ==> 0 < best_len <= m,
        decreases roots@.len() - i,
    {
        proof {
            assert(roots@.take(i + 1).drop_last() =~= roots@.take(i as int));
            assert(roots@.take(i + 1).last() == roots@[i as int]);
        }
        let key = to_chars(roots[i].key.as_str());
        if is_under(&path, &key) && key.len() > best_len {
            best = Some(i);
            best_len = key.len();
        }
        i += 1;
    }
    assert(roots@.take(roots@.len() as int) =~= roots@);
    if best.is_some() {
        let cut: usize = if best_len < m && path[best_len] == '\\' {
            best_len + 1
        } else {
            best_len
        };
        if cut < m {
            let r = slice_text(&path, cut, m);
            assert(r@ =~= path@.skip(cut as int));
            return r;
        }
    }
    fixed
}

/// The names that stand at one level of the tree.
pub struct TreeLevel {
    pub folders: Vec<String>,
    pub files: Vec<String>,
}

/// Names without those that differ from an earlier one only in case.
pub open spec fn distinct_names(names: Seq<Seq<char>>) -> Seq<Seq<char>>
    decreases names.len(),
{
    if names.len() == 0 {
        seq![]
    } else {
        let front = distinct_names(names.drop_last());
        if has_name(front, names.last()) {
            front
        } else {
            front.push(names.last())
        }
    }
}

/// Whether a name is among some, without regard to case.
pub open spec fn has_name(names: Seq<Seq<char>>, name: Seq<char>) -> bool {
    exists|i: int| 0 <= i < names.len() && lower(#[trigger] names[i]) == lower(name)
}

fn holds_name(names: &Vec<String>, name: &str) -> (r: bool)
    ensures
        r == has_name(text_views(names@), name@),
{
    let wanted = to_lower(name);
    let ghost views = text_views(names@);
    let mut i: usize = 0;
    while i < names.len()
        invariant
            i <= names@.len(),
            views == text_views(names@),
            wanted@ == lower(name@),
            forall|k: int| 0 <= k < i ==> lower(#[trigger] views[k]) != lower(name@),
        decreases names@.len() - i,
    {
        assert(views[i as int] == names@[i as int]@);
        let here = to_lower(names[i].as_str());
        if same_text(here.as_str(), wanted.as_str()) {
            assert(lower(views[i as int]) == lower(name@));
            return true;
        }
        i += 1;
    }
    false
}

fn add_name(names: &mut Vec<String>, name: String, Ghost(all): Ghost<Seq<Seq<char>>>)
    requires
        text_views(old(names)@) == distinct_names(all),
    ensures
        text_views(final(names)@) == distinct_names(all.push(name@)),
{
    assert(all.push(name@).drop_last() =~= all);
    if !holds_name(names, name.as_str()) {
        let ghost before = names@;
        names.push(name);
        assert(text_views(names@) =~= text_views(before).push(name@));
    }
}

/// What a song adds to the level below `rel_dir`: the name of a folder or of a
/// file, if it lies there.
pub open spec fn child_of(rel: Seq<char>, rel_dir: Seq<char>) -> Option<(bool, Seq<char>)> {
    let prefix = if rel_dir.len() == 0 {
        Seq::empty()
    } else {
        rel_dir.push('\\')
    };
    if !occurs_at(rel, prefix, 0) {
        None
    } else {
        let rest = rel.skip(prefix.len() as int);
        let at = find_from(rest, '\\', 0);
        if rest.len() == 0 {
            None
        } else if at < rest.len() {
            Some((true, rest.take(at)))
        } else {
            Some((false, rest))
        }
    }
}

/// What a song adds to the first level: the first part of its way that is not
/// empty, a folder where another such part follows.
pub open spec fn top_of(rel: Seq<char>) -> Option<(bool, Seq<char>)> {
    let parts = non_empty(pieces(rel, '\\'));
    if parts.len() == 0 {
        None
    } else {
        Some((parts.len() > 1, parts[0]))
    }
}

/// The texts that are not empty.
pub open spec fn non_empty(texts: Seq<Seq<char>>) -> Seq<Seq<char>>
    decreases texts.len(),
{
    if texts.len() == 0 {
        seq![]
    } else if texts.last().len() == 0 {
        non_empty(texts.drop_last())
    } else {
        non_empty(texts.drop_last()).push(texts.last())
    }
}

/// What a song adds to a level; `None` for the first one.
pub open spec fn added_by(roots: Seq<ScanRoot>, rel_dir: Option<Seq<char>>, song: SongPlace) -> Option<
    (bool, Seq<char>),
> {
    if song.dir@.len() == 0 || song.name@.len() == 0 {
        None
    } else {
        let rel = relative_path(roots, song.dir@, song.name@);
        match rel_dir {
            Some(dir) => child_of(rel, dir),
            None => top_of(rel),
        }
    }
}

/// The names of the folders, or of the files, that some songs add to a level.
pub open spec fn names_added(
    roots: Seq<ScanRoot>,
    rel_dir: Option<Seq<char>>,
    songs: Seq<SongPlace>,
    folders: bool,
) -> Seq<Seq<char>>
    decreases songs.len(),
{
    if songs.len() == 0 {
        seq![]
    } else {
        let front = names_added(roots, rel_dir, songs.drop_last(), folders);
        match added_by(roots, rel_dir, songs.last()) {
            Some((is_folder, name)) => if is_folder == folders {
                front.push(name)
            } else {
                front
            },
            None => front,
        }
    }
}

fn child(rel: &str, rel_dir: &str) -> (r: Option<(bool, String)>)
    ensures
        match r {
            Some((folder, name)) => child_of(rel@, rel_dir@) == Some((folder, name@)),
            None => child_of(rel@, rel_dir@) is None,
        },
{
    let way = to_chars(rel);
    let n: usize = way.len();
    let mut prefix = to_chars(rel_dir);
    let ghost dir = prefix@;
    if prefix.len() > 0 {
        prefix.push('\\');
    }
    let ghost wanted = if dir.len() == 0 {
        Seq::empty()
    } else {
        dir.push('\\')
    };
    assert(prefix@ =~= wanted);
    if !stands_at(&way, &prefix, 0) {
        return None;
    }
    let from: usize = prefix.len();
    let ghost rest = rel@.skip(from as int);
    if from == n {
        return None;
    }
    let tail = slice_text(&way, from, n);
    assert(tail@ =~= rest);
    let tail_chars = to_chars(tail.as_str());
    proof {
        lemma_find_from(rest, '\\', 0);
    }
    match find(&tail_chars, '\\', 0) {
        Some(at) => {
            let name = slice_text(&tail_chars, 0, at);
            assert(name@ =~= rest.take(at as int));
            Some((true, name))
        },
        None => Some((false, tail)),
    }
}

fn without_empty(texts: &Vec<String>) -> (r: Vec<String>)
    ensures
        text_views(r@) == non_empty(text_views(texts@)),
{
    let ghost views = text_views(texts@);
    let mut r: Vec<String> = Vec::new();
    let mut i: usize = 0;
    assert(text_views(r@) =~= non_empty(views.take(0)));
    while i < texts.len()
        invariant
            i <= texts@.len(),
            views == text_views(texts@),
            text_views(r@) == non_empty(views.take(i as int)),
        decreases texts@.len() - i,
    {
        proof {
            assert(views.take(i + 1).drop_last() =~= views.take(i as int));
            assert(views.take(i + 1).last() == texts@[i as int]@);
        }
        if !texts[i].as_str().is_empty() {
            let t: String = texts[i].clone();
            let ghost before = r@;
            r.push(t);
            assert(text_views(r@) =~= text_views(before).push(t@));
        }
        i += 1;
    }
    assert(views.take(texts@.len() as int) =~= views);
    r
}

fn top(rel: &str) -> (r: Option<(bool, String)>)
    ensures
        match r {
            Some((folder, name)) => top_of(rel@) == Some((folder, name@)),
            None => top_of(rel@) is None,
        },
{
    let all = split(rel, '\\');
    assert(text_views(all@) =~= pieces(rel@, '\\'));
    let parts = without_empty(&all);
    let ghost views = text_views(parts@);
    assert(views.len() == parts@.len());
    if parts.len() == 0 {
        return None;
    }
    assert(views[0] == parts@[0]@);
    Some((parts.len() > 1, parts[0].clone()))
}

/// The level of the tree below `rel_dir`, or the first one, as some songs make
/// it: each name once, folders and files in their order.
pub fn tree_level(roots: &Vec<ScanRoot>, rel_dir: Option<&str>, songs: &Vec<SongPlace>) -> (r: TreeLevel)
    ensures
        ({
            let dir = match rel_dir {
                Some(d) => Some(d@),
                None => None,
            };
            let folders = distinct_names(names_added(roots@, dir, songs@, true));
            let files = distinct_names(names_added(roots@, dir, songs@, false));
            &&& is_in_order(TextOrder::Folded, text_views(r.folders@))
            &&& text_views(r.folders@).to_multiset() == folders.to_multiset()
            &&& is_in_order(TextOrder::Folded, text_views(r.files@))
            &&& text_views(r.files@).to_multiset() == files.to_multiset()
        }),
{
    let ghost dir = match rel_dir {
        Some(d) => Some(d@),
        None => None,
    };
    let mut folders: Vec<String> = Vec::new();
    let mut files: Vec<String> = Vec::new();
    let mut i: usize = 0;
    assert(text_views(folders@) =~= distinct_names(names_added(roots@, dir, songs@.take(0), true)));
    assert(text_views(files@) =~= distinct_names(names_added(roots@, dir, songs@.take(0), false)));
    while i < songs.len()
        invariant
            i <= songs@.len(),
            dir == (match rel_dir {
                Some(d) => Some(d@),
                None => None,
            }),
            text_views(folders@) == distinct_names(
                names_added(roots@, dir, songs@.take(i as int), true),
            ),
            text_views(files@) == distinct_names(
                names_added(roots@, dir, songs@.take(i as int), false),
            ),
        decreases songs@.len() - i,
    {
        proof {
            assert(songs@.take(i + 1).drop_last() =~= songs@.take(i as int));
            assert(songs@.take(i + 1).last() == songs@[i as int]);
        }
        let song = &songs[i];
        if !song.dir.as_str().is_empty() && !song.name.as_str().is_empty() {
            let rel = music_tree_relative_path(roots, song.dir.as_str(), song.name.as_str());
            let found = match rel_dir {
                Some(d) => child(rel.as_str(), d),
                None => top(rel.as_str()),
            };
            if let Some((folder, name)) = found {
                if folder {
                    add_name(
                        &mut folders,
                        name,
                        Ghost(names_added(roots@, dir, songs@.take(i as int), true)),
                    );
                } else {
                    add_name(
                        &mut files,
                        name,
                        Ghost(names_added(roots@, dir, songs@.take(i as int), false)),
                    );
                }
            }
        }
        i += 1;
    }
    assert(songs@.take(songs@.len() as int) =~= songs@);
    TreeLevel {
        folders: sort_texts(TextOrder::Folded, folders),
        files: sort_texts(TextOrder::Folded, files),
    }
}

/// The keys by which the songs of a folder are looked up below a root: that of
/// the folder, and that of everything inside it.
pub fn folder_keys(root: &str, rel_dir: &str) -> (r: (String, String))
    ensures
        r.0@ == path_key(joined(root@, rel_dir@)),
        r.1@ == (if r.0@.len() > 0 && r.0@.last() == '\\' {
            r.0@
        } else {
            r.0@.push('\\')
        }),
{
    let dir = ui_join_root_rel(root, rel_dir);
    let base = normalize_path_key(dir.as_str());
    let chars = to_chars(base.as_str());
    let n: usize = chars.len();
    let mut prefix: String = base.clone();
    if !(n > 0 && chars[n - 1] == '\\') {
        prefix.push('\\');
    }
    (base, prefix)
}

/// The way to an item, from the texts of the item and of those above it: the
/// outermost first, without empty ones.
pub open spec fn way_to(texts: Seq<Seq<char>>) -> Seq<Seq<char>> {
    non_empty(texts.reverse())
}

/// The way to an item. The texts come from the item upwards.
pub fn tree_item_path_parts(texts: &Vec<String>) -> (r: Vec<String>)
    ensures
        text_views(r@) == way_to(text_views(texts@)),
{
    let n: usize = texts.len();
    let mut turned: Vec<String> = Vec::new();
    let ghost views = text_views(texts@);
    let mut i: usize = 0;
    while i < n
        invariant
            n == texts@.len(),
            views == text_views(texts@),
            i <= n,
            text_views(turned@) == views.reverse().take(i as int),
        decreases n - i,
    {
        let t: String = texts[n - 1 - i].clone();
        let ghost before = turned@;
        turned.push(t);
        assert(text_views(turned@) =~= text_views(before).push(t@));
        assert(views.reverse().take(i + 1) =~= views.reverse().take(i as int).push(
            views.reverse()[i as int],
        ));
        assert(views.reverse()[i as int] == views[n - 1 - i]);
        i += 1;
    }
    assert(views.reverse().take(n as int) =~= views.reverse());
    without_empty(&turned)
}

/// What an item of the tree plays.
pub enum TreePlay {
    /// It has no name.
    Nothing,
    /// The songs of a folder become the playlist with its name.
    Folder { name: String, way: String },
    /// A file is added to the playlist of the user.
    File(String),
}

/// What the item at the end of a way plays.
pub fn tree_play(parts: &Vec<String>, is_folder: bool) -> (r: TreePlay)
    ensures
        ({
            let views = text_views(parts@);
            let way = joined_by(views, '\\');
            match r {
                TreePlay::Nothing => views.len() == 0 || views.last().len() == 0 || way.len() == 0,
                TreePlay::Folder { name, way: w } => is_folder && views.len() > 0 && name@
                    == views.last() && w@ == way && name@.len() > 0,
                TreePlay::File(w) => !is_folder && views.len() > 0 && views.last().len() > 0 && w@
                    == way,
            }
        }),
{
    let n: usize = parts.len();
    if n == 0 {
        return TreePlay::Nothing;
    }
    assert(text_views(parts@).last() == parts@[n - 1]@);
    let name: String = parts[n - 1].clone();
    let way = join(parts, '\\');
    if name.as_str().is_empty() || way.as_str().is_empty() {
        TreePlay::Nothing
    } else if is_folder {
        TreePlay::Folder { name, way }
    } else {
        TreePlay::File(way)
    }
}

/// Songs without those whose path was there before.
pub open spec fn distinct_songs(songs: Seq<Song>) -> Seq<Song>
    decreases songs.len(),
{
    if songs.len() == 0 {
        seq![]
    } else {
        let front = distinct_songs(songs.drop_last());
        if has_song(front, path_key(songs.last().path)) {
            front
        } else {
            front.push(songs.last())
        }
    }
}

/// Whether a song with this path key is among some.
pub open spec fn has_song(songs: Seq<Song>, key: Seq<char>) -> bool {
    exists|i: int| 0 <= i < songs.len() && path_key(#[trigger] songs[i].path) == key
}

fn holds_song(songs: &Vec<SongInfo>, key: &str) -> (r: bool)
    ensures
        r == has_song(song_views(songs@), key@),
{
    match crate::song::find_by_key(songs, key) {
        Some(i) => {
            proof {
                crate::song::law_first_with_key(song_views(songs@), key@);
            }
            true
        },
        None => {
            proof {
                crate::song::law_first_with_key(song_views(songs@), key@);
            }
            false
        },
    }
}

/// The songs of a folder, from what was found below each root: each of them once.
pub fn collect_folder_songs(found: Vec<SongInfo>) -> (r: Vec<SongInfo>)
    ensures
        song_views(r@) == distinct_songs(song_views(found@)),
{
    let ghost views = song_views(found@);
    let mut r: Vec<SongInfo> = Vec::new();
    let mut i: usize = 0;
    assert(song_views(r@) =~= distinct_songs(views.take(0)));
    while i < found.len()
        invariant
            i <= found@.len(),
            views == song_views(found@),
            song_views(r@) == distinct_songs(views.take(i as int)),
        decreases found@.len() - i,
    {
        proof {
            assert(views.take(i + 1).drop_last() =~= views.take(i as int));
            assert(views.take(i + 1).last() == found@[i as int]@);
        }
        let key = normalize_path_key(found[i].path.as_str());
        if !holds_song(&r, key.as_str()) {
            let copy = found[i].copy();
            let ghost before = r@;
            r.push(copy);
            assert(song_views(r@) =~= song_views(before).push(copy@));
        }
        i += 1;
    }
    assert(views.take(found@.len() as int) =~= views);
    r
}

/// The name of the playlist for a folder: its own, or that of the album of its
/// first song where its own is long and the other is not.
pub open spec fn folder_playlist(name: Seq<char>, album: Seq<char>) -> Seq<char> {
    if utf8_len(name) > 30 && utf8_len(album) < 30 {
        album
    } else {
        trimmed(name)
    }
}

/// The name of the playlist for a folder with songs; `None` where it would have
/// none.
pub fn folder_playlist_name(name: &str, songs: &Vec<SongInfo>) -> (r: Option<String>)
    ensures
        r is Some <==> songs@.len() > 0 && folder_playlist(name@, songs@[0].album@).len() > 0,
        r matches Some(n) ==> n@ == folder_playlist(name@, songs@[0].album@),
{
    if songs.len() == 0 {
        return None;
    }
    let own = to_chars(name);
    let album = to_chars(songs[0].album.as_str());
    let chosen: String = if utf8_len_exceeds(&own, 30) && !utf8_len_exceeds(&album, 29) {
        songs[0].album.clone()
    } else {
        trim(name)
    };
    if chosen.as_str().is_empty() {
        None
    } else {
        Some(chosen)
    }
}

/// The path of a file of the tree that the library does not know: below the first
/// root.
pub fn fallback_path(roots: &Vec<ScanRoot>, rel_file: &str) -> (r: String)
    ensures
        r@ == joined(
            if roots@.len() > 0 {
                roots@[0].path@
            } else {
                Seq::empty()
            },
            rel_file@,
        ),
{
    if roots.len() > 0 {
        ui_join_root_rel(roots[0].path.as_str(), rel_file)
    } else {
        proof {
            reveal_strlit("");
        }
        assert(""@ =~= Seq::<char>::empty());
        ui_join_root_rel("", rel_file)
    }
}

/// The root that is cut off a path is the longest one that it lies under.
pub proof fn law_best_root_is_longest(roots: Seq<ScanRoot>, path: Seq<char>, k: int)
    requires
        0 <= k < roots.len(),
        lies_under(path, roots[k].key@),
    ensures
        best_root(roots, path) is Some,
        0 <= best_root(roots, path)->0 < roots.len(),
        lies_under(path, roots[best_root(roots, path)->0].key@),
        roots[best_root(roots, path)->0].key@.len() >= roots[k].key@.len(),
    decreases roots.len(),
{
    lemma_best_root(roots, path);
    lemma_best_root(roots.drop_last(), path);
    if k < roots.len() - 1 {
        assert(roots.drop_last()[k] == roots[k]);
        law_best_root_is_longest(roots.drop_last(), path, k);
    }
}

/// What is told of a song in the tree is told of it once: names that differ only
/// in case stand there once.
pub proof fn law_names_are_distinct(names: Seq<Seq<char>>)
    ensures
        forall|i: int, j: int|
            0 <= i < j < distinct_names(names).len() ==> lower(#[trigger] distinct_names(names)[i])
                != lower(#[trigger] distinct_names(names)[j]),
        forall|i: int| 0 <= i < names.len() ==> has_name(distinct_names(names), #[trigger] names[i]),
    decreases names.len(),
{
    if names.len() > 0 {
        let shorter = names.drop_last();
        let front = distinct_names(shorter);
        let all = distinct_names(names);
        law_names_are_distinct(shorter);
        assert forall|i: int, j: int| 0 <= i < j < all.len() implies lower(#[trigger] all[i])
            != lower(#[trigger] all[j]) by {
            if j < front.len() {
                assert(all[i] == front[i] && all[j] == front[j]);
            } else {
                assert(all[i] == front[i]);
            }
        }
        assert forall|i: int| 0 <= i < names.len() implies has_name(all, #[trigger] names[i]) by {
            if i < shorter.len() {
                assert(shorter[i] == names[i]);
                assert(has_name(front, shorter[i]));
                let k = choose|k: int|
                    0 <= k < front.len() && lower(#[trigger] front[k]) == lower(names[i]);
                assert(all[k] == front[k]);
            } else if !has_name(front, names.last()) {
                assert(all[front.len() as int] == names.last());
            }
        }
    }
}

/// A song below a root is shown by its path below that root; one below none by its whole path.
pub proof fn law_song_is_shown_below_its_root(roots: Seq<ScanRoot>, path: Seq<char>)
    ensures
        best_root(roots, path) is None ==> below_root(roots, path) == path,
        best_root(roots, path) is Some && path.len() > roots[best_root(roots, path)->0].key@.len()
            + 1 && path[roots[best_root(roots, path)->0].key@.len() as int] == '\\' ==> path
            == path.take(roots[best_root(roots, path)->0].key@.len() as int) + seq!['\\']
            + below_root(roots, path),
        (forall|k: int| 0 <= k < roots.len() ==> !lies_under(path, (#[trigger] roots[k]).key@))
            ==> best_root(roots, path) is None,
{
    lemma_no_root(roots, path);
    if best_root(roots, path) is Some {
        let n = roots[best_root(roots, path)->0].key@.len() as int;
        if path.len() > n + 1 && path[n] == '\\' {
            assert(path =~= path.take(n) + seq!['\\'] + path.skip(n + 1));
        }
    }
}

proof fn lemma_no_root(roots: Seq<ScanRoot>, path: Seq<char>)
    ensures
        (forall|k: int| 0 <= k < roots.len() ==> !lies_under(path, (#[trigger] roots[k]).key@))
            ==> best_root(roots, path) is None,
    decreases roots.len(),
{
    if roots.len() > 0 && (forall|k: int|
        0 <= k < roots.len() ==> !lies_under(path, (#[trigger] roots[k]).key@)) {
        let front = roots.drop_last();
        assert forall|k: int| 0 <= k < front.len() implies !lies_under(
            path,
            (#[trigger] front[k]).key@,
        ) by {
            assert(front[k] == roots[k]);
        }
        lemma_no_root(front, path);
        assert(!lies_under(path, roots[roots.len() - 1].key@));
    }
}

/// A directory of the tree shows what stands directly below it: the files of it by their
/// names, and the next directory on the way to the others.
pub proof fn law_directory_shows_what_is_below(
    dir: Seq<char>,
    name: Seq<char>,
    rest: Seq<char>,
)
    requires
        dir.len() > 0,
        name.len() > 0,
        !name.contains('\\'),
    ensures
        child_of(dir + seq!['\\'] + name, dir) == Some((false, name)),
        child_of(dir + seq!['\\'] + name + seq!['\\'] + rest, dir) == Some((true, name)),
        child_of(name, Seq::empty()) == Some((false, name)),
        child_of(dir + seq!['\\'], dir) is None,
{
    let prefix = dir.push('\\');
    let file = dir + seq!['\\'] + name;
    let deep = file + seq!['\\'] + rest;
    assert(file.subrange(0, prefix.len() as int) =~= prefix);
    assert(deep.subrange(0, prefix.len() as int) =~= prefix);
    assert(file.skip(prefix.len() as int) =~= name);
    let below = name + seq!['\\'] + rest;
    assert(deep.skip(prefix.len() as int) =~= below);
    lemma_find_from(name, '\\', 0);
    lemma_find_from(below, '\\', 0);
    let none = find_from(name, '\\', 0);
    assert(none == name.len()) by {
        if none < name.len() {
            assert(name[none] == '\\');
        }
    }
    let at = find_from(below, '\\', 0);
    assert(below[name.len() as int] == '\\');
    assert(at == name.len()) by {
        if at < name.len() {
            assert(name[at] == '\\');
        }
    }
    assert(below.take(at) =~= name);
    assert(name.subrange(0, 0) =~= Seq::<char>::empty());
    assert(name.skip(0) =~= name);
    let bare = dir + seq!['\\'];
    assert(bare.subrange(0, prefix.len() as int) =~= prefix);
    assert(bare.skip(prefix.len() as int).len() == 0);
}

/// The songs of a folder are listed in the order in which they were found, each path once and
/// at its first place.
pub proof fn law_songs_of_a_folder_are_distinct(songs: Seq<Song>, i: int)
    requires
        0 <= i < songs.len(),
    ensures
        has_song(distinct_songs(songs), path_key(songs[i].path)),
        forall|a: int, b: int|
            0 <= a < b < distinct_songs(songs).len() ==> path_key(
                #[trigger] distinct_songs(songs)[a].path,
            ) != path_key(#[trigger] distinct_songs(songs)[b].path),
        distinct_songs(songs)[0] == songs[0],
    decreases songs.len(),
{
    lemma_distinct_songs(songs);
    let front = distinct_songs(songs.drop_last());
    let all = distinct_songs(songs);
    let key = path_key(songs[i].path);
    if i < songs.len() - 1 {
        law_songs_of_a_folder_are_distinct(songs.drop_last(), i);
        let k = choose|k: int| 0 <= k < front.len() && path_key(#[trigger] front[k].path) == key;
        assert(all[k] == front[k]);
        assert(songs.drop_last()[0] == songs[0]);
        assert(all[0] == front[0]);
    } else {
        if !has_song(front, key) {
            assert(path_key(all[front.len() as int].path) == key);
        }
        if i > 0 {
            law_songs_of_a_folder_are_distinct(songs.drop_last(), 0);
            let k = choose|k: int|
                0 <= k < front.len() && path_key(#[trigger] front[k].path) == path_key(
                    songs.drop_last()[0].path,
                );
            assert(all[0] == front[0]);
        } else {
            reveal_with_fuel(distinct_songs, 2);
            assert(front.len() == 0);
        }
    }
}

proof fn lemma_distinct_songs(songs: Seq<Song>)
    ensures
        forall|a: int, b: int|
            0 <= a < b < distinct_songs(songs).len() ==> path_key(
                #[trigger] distinct_songs(songs)[a].path,
            ) != path_key(#[trigger] distinct_songs(songs)[b].path),
    decreases songs.len(),
{
    if songs.len() > 0 {
        lemma_distinct_songs(songs.drop_last());
        let front = distinct_songs(songs.drop_last());
        let all = distinct_songs(songs);
        if all != front {
            assert forall|a: int, b: int| 0 <= a < b < all.len() implies path_key(
                #[trigger] all[a].path,
            ) != path_key(#[trigger] all[b].path) by {
                assert(all[a] == front[a]);
                if b < front.len() {
                    assert(all[b] == front[b]);
                } else {
                    assert(path_key(front[a].path) != path_key(songs.last().path));
                }
            }
        }
    }
}

/// A list that is made of a folder has its name, unless that is long and the album of the
/// songs is not.
pub proof fn law_list_is_named_by_the_folder(name: Seq<char>, album: Seq<char>)
    ensures
        utf8_len(name) <= 30 ==> folder_playlist(name, album) == trimmed(name),
        utf8_len(name) > 30 && utf8_len(album) >= 30 ==> folder_playlist(name, album) == trimmed(
            name,
        ),
        utf8_len(name) > 30 && utf8_len(album) < 30 ==> folder_playlist(name, album) == album,
{
}

/// The way to an item of the tree starts at the top: the names of the items above it, the
/// nearest of which comes first in `texts`, turned round and without empty ones.
pub proof fn law_way_starts_at_the_top(texts: Seq<Seq<char>>)
    requires
        forall|i: int| 0 <= i < texts.len() ==> (#[trigger] texts[i]).len() > 0,
    ensures
        way_to(texts).len() == texts.len(),
        forall|i: int| 0 <= i < texts.len() ==> #[trigger] way_to(texts)[i] == texts[texts.len() - 1
            - i],
{
    let turned = texts.reverse();
    assert forall|i: int| 0 <= i < turned.len() implies (#[trigger] turned[i]).len() > 0 by {
        assert(turned[i] == texts[texts.len() - 1 - i]);
    }
    lemma_all_filled(turned);
}

proof fn lemma_all_filled(texts: Seq<Seq<char>>)
    requires
        forall|i: int| 0 <= i < texts.len() ==> (#[trigger] texts[i]).len() > 0,
    ensures
        non_empty(texts) == texts,
    decreases texts.len(),
{
    if texts.len() > 0 {
        let front = texts.drop_last();
        assert forall|i: int| 0 <= i < front.len() implies (#[trigger] front[i]).len() > 0 by {
            assert(front[i] == texts[i]);
        }
        lemma_all_filled(front);
        assert(texts[texts.len() - 1].len() > 0);
        assert(front.push(texts.last()) =~= texts);
    } else {
        assert(non_empty(texts) =~= texts);
    }
}

/// At the top of the tree stands the first name of the path of a song: a folder where more
/// follows it, and else the song itself.
pub proof fn law_top_is_the_first_name(name: Seq<char>, rest: Seq<char>)
    requires
        name.len() > 0,
        rest.len() > 0,
        !name.contains('\\'),
        !rest.contains('\\'),
    ensures
        top_of(name) == Some((false, name)),
        top_of(name + seq!['\\'] + rest) == Some((true, name)),
{
    lemma_one_piece(name);
    lemma_one_piece(rest);
    let all = name + seq!['\\'] + rest;
    let n = name.len() as int;
    lemma_find_from(all, '\\', 0);
    let at = find_from(all, '\\', 0);
    assert(all[n] == '\\');
    assert(at == n) by {
        if at < n {
            assert(name[at] == '\\');
        }
    }
    lemma_find_from(all, '\\', n + 1);
    let end = find_from(all, '\\', n + 1);
    assert(end == all.len()) by {
        if end < all.len() {
            assert(rest[end - n - 1] == '\\');
        }
    }
    assert(all.subrange(0, n) =~= name);
    assert(all.subrange(n + 1, all.len() as int) =~= rest);
    assert(pieces_from(all, '\\', n + 1) =~= seq![rest]);
    assert(pieces(all, '\\') =~= seq![name, rest]);
    lemma_all_filled(seq![name, rest]);
    lemma_all_filled(seq![name]);
}

proof fn lemma_one_piece(name: Seq<char>)
    requires
        !name.contains('\\'),
    ensures
        pieces(name, '\\') == seq![name],
{
    lemma_find_from(name, '\\', 0);
    let at = find_from(name, '\\', 0);
    assert(at == name.len()) by {
        if at < name.len() {
            assert(name[at] == '\\');
        }
    }
    assert(name.subrange(0, name.len() as int) =~= name);
    assert(pieces(name, '\\') =~= seq![name]);
}

/// A level of the tree gets the folder or the file that each song adds to it, in the order of
/// the songs, and nothing of a song that is not below it.
pub proof fn law_songs_add_to_their_level(
    roots: Seq<ScanRoot>,
    rel_dir: Option<Seq<char>>,
    songs: Seq<SongPlace>,
    song: SongPlace,
)
    ensures
        ({
            let added = added_by(roots, rel_dir, song);
            let more = songs.push(song);
            &&& added is None ==> names_added(roots, rel_dir, more, true) == names_added(
                roots,
                rel_dir,
                songs,
                true,
            ) && names_added(roots, rel_dir, more, false) == names_added(
                roots,
                rel_dir,
                songs,
                false,
            )
            &&& added is Some ==> names_added(roots, rel_dir, more, (added->0).0) == names_added(
                roots,
                rel_dir,
                songs,
                (added->0).0,
            ).push((added->0).1) && names_added(roots, rel_dir, more, !(added->0).0) == names_added(
                roots,
                rel_dir,
                songs,
                !(added->0).0,
            )
        }),
        song.dir@.len() == 0 || song.name@.len() == 0 ==> added_by(roots, rel_dir, song) is None,
{
    assert(songs.push(song).drop_last() =~= songs);
}

} // verus!
