//! The songs of a directory: which of its files are played, in which order, and
//! which comes next.

use crate::path::{normalize_path_key, path_key};
use crate::player_state::{Controls, PlayerControls};
use crate::song::{is_media_ext, is_supported_media_ext, text_views};
use crate::text::{
    from_chars, last_place, lemma_last_place, lower_char, replace_char, replaced, rfind, same_text,
    slice_text, to_chars, to_lower_char,
};
use crate::text_sort::{is_in_order, sort_texts, TextOrder};
use vstd::prelude::*;

verus! {

/// A file or a directory that was found in a directory.
pub struct DirEntry {
    pub name: String,
    pub is_dir: bool,
    pub size: u64,
}

/// A character in lower case, where that is an ASCII letter: also the Kelvin
/// sign, whose lower case is a `k`.
pub open spec fn fold_char(c: char) -> char {
    if c == '\u{212a}' {
        'k'
    } else {
        lower_char(c)
    }
}

/// Whether the ending of a name is that of a file that is played.
pub open spec fn is_media_name(name: Seq<char>) -> bool {
    let dot = last_place(name, '.');
    dot >= 0 && is_media_ext(name.skip(dot + 1).map_values(|c: char| fold_char(c)))
}

/// Whether an entry of a directory is played: a file that is not empty, with the
/// ending of a media file.
pub open spec fn is_played(entry: DirEntry) -> bool {
    !entry.is_dir && entry.size != 0 && is_media_name(entry.name@)
}

/// Whether the ending of a name is that of a file that is played.
pub fn has_media_name(name: &str) -> (r: bool)
    ensures
        r == is_media_name(name@),
{
    let chars = to_chars(name);
    let n: usize = chars.len();
    match rfind(&chars, '.') {
        Some(dot) => {
            proof {
                lemma_last_place(name@, '.');
            }
            let mut folded: Vec<char> = Vec::new();
            let ghost tail = name@.skip(dot + 1).map_values(|c: char| fold_char(c));
            let mut i: usize = dot + 1;
            while i < n
                invariant
                    chars@ == name@,
                    n == name@.len(),
                    dot < n,
                    dot + 1 <= i <= n,
                    tail == name@.skip(dot + 1).map_values(|c: char| fold_char(c)),
                    folded@ == tail.take(i - (dot + 1)),
                decreases n - i,
            {
                let c: char = if chars[i] == '\u{212a}' {
                    'k'
                } else {
                    to_lower_char(chars[i])
                };
                folded.push(c);
                i += 1;
                assert(folded@ =~= tail.take(i - (dot + 1)));
            }
            assert(folded@ =~= tail);
            let ext = from_chars(folded.as_slice());
            is_supported_media_ext(ext.as_str())
        },
        None => false,
    }
}

/// Whether an entry of a directory is played.
pub fn plays_entry(entry: &DirEntry) -> (r: bool)
    ensures
        r == is_played(*entry),
{
    !entry.is_dir && entry.size != 0 && has_media_name(entry.name.as_str())
}

/// The path of a file in a directory.
pub open spec fn in_dir(dir: Seq<char>, name: Seq<char>) -> Seq<char> {
    dir.push('\\') + name
}

/// The paths of the files of a directory that are played, in the order in which
/// they were found.
pub open spec fn played_files(dir: Seq<char>, entries: Seq<DirEntry>) -> Seq<Seq<char>>
    decreases entries.len(),
{
    if entries.len() == 0 {
        seq![]
    } else {
        let front = played_files(dir, entries.drop_last());
        if is_played(entries.last()) {
            front.push(in_dir(dir, entries.last().name@))
        } else {
            front
        }
    }
}

fn full_path(dir: &str, name: &str) -> (r: String)
    ensures
        r@ == in_dir(dir@, name@),
{
    let mut r: String = dir.to_owned();
    r.push('\\');
    r.append(name);
    r
}

fn list_played(dir: &str, entries: &Vec<DirEntry>) -> (r: Vec<String>)
    ensures
        text_views(r@) == played_files(dir@, entries@),
{
    let mut r: Vec<String> = Vec::new();
    let mut i: usize = 0;
    assert(text_views(r@) =~= played_files(dir@, entries@.take(0)));
    while i < entries.len()
        invariant
            i <= entries@.len(),
            text_views(r@) == played_files(dir@, entries@.take(i as int)),
        decreases entries@.len() - i,
    {
        assert(entries@.take(i + 1).drop_last() =~= entries@.take(i as int));
        if plays_entry(&entries[i]) {
            let full = full_path(dir, entries[i].name.as_str());
            let ghost before = r@;
            r.push(full);
            assert(text_views(r@) =~= text_views(before).push(full@));
        }
        i += 1;
    }
    assert(entries@.take(entries@.len() as int) =~= entries@);
    r
}

/// The first place of a path key in a list of paths.
pub open spec fn first_path(files: Seq<Seq<char>>, key: Seq<char>) -> Option<int>
    decreases files.len(),
{
    if files.len() == 0 {
        None
    } else {
        match first_path(files.drop_last(), key) {
            Some(i) => Some(i),
            None => if path_key(files.last()) == key {
                Some(files.len() - 1)
            } else {
                None
            },
        }
    }
}

fn find_path(files: &Vec<String>, key: &str) -> (r: Option<usize>)
    ensures
        match r {
            Some(i) => first_path(text_views(files@), key@) == Some(i as int) && i < files@.len(),
            None => first_path(text_views(files@), key@) is None,
        },
{
    let ghost views = text_views(files@);
    let mut i: usize = 0;
    while i < files.len()
        invariant
            i <= files@.len(),
            views == text_views(files@),
            first_path(views.take(i as int), key@) is None,
        decreases files@.len() - i,
    {
        proof {
            assert(views.take(i + 1).drop_last() =~= views.take(i as int));
            assert(views.take(i + 1).last() == files@[i as int]@);
        }
        let here = normalize_path_key(files[i].as_str());
        if same_text(here.as_str(), key) {
            proof {
                lemma_first_path_extends(views, key@, i + 1);
            }
            return Some(i);
        }
        i += 1;
    }
    assert(views.take(files@.len() as int) =~= views);
    None
}

proof fn lemma_first_path_extends(files: Seq<Seq<char>>, key: Seq<char>, n: int)
    requires
        0 <= n <= files.len(),
        first_path(files.take(n), key) is Some,
    ensures
        first_path(files, key) == first_path(files.take(n), key),
    decreases files.len() - n,
{
    if n < files.len() {
        assert(files.take(n + 1).drop_last() =~= files.take(n));
        lemma_first_path_extends(files, key, n + 1);
    } else {
        assert(files.take(n) =~= files);
    }
}

/// The directory and the name of a path; `None` where it has no directory.
pub open spec fn dir_and_name(path: Seq<char>) -> Option<(Seq<char>, Seq<char>)> {
    let at = last_place(path, '\\');
    if at < 0 {
        None
    } else {
        Some((path.take(at), path.skip(at + 1)))
    }
}

/// The directory and the name of a path.
pub fn split_dir(path: &str) -> (r: Option<(String, String)>)
    ensures
        r is Some <==> dir_and_name(path@) is Some,
        r matches Some((dir, name)) ==> dir_and_name(path@) == Some((dir@, name@)),
{
    let chars = to_chars(path);
    let n: usize = chars.len();
    proof {
        lemma_last_place(path@, '\\');
    }
    match rfind(&chars, '\\') {
        Some(at) => {
            let dir = slice_text(&chars, 0, at);
            let name = slice_text(&chars, at + 1, n);
            assert(dir@ =~= path@.take(at as int));
            assert(name@ =~= path@.skip(at + 1));
            Some((dir, name))
        },
        None => None,
    }
}

/// The songs of the directory of a file, in their order, and the place of that
/// file among them; the file alone where the directory has none. `entries` is
/// what the directory holds, if it could be read.
pub fn collect_dir_playlist(path: &str, entries: Option<&Vec<DirEntry>>) -> (r: (Vec<String>, usize))
    ensures
        ({
            let path = replaced(path@, '/', '\\');
            let files = match (dir_and_name(path), entries) {
                (Some((dir, _)), Some(found)) => played_files(dir, found@),
                _ => seq![],
            };
            &&& files.len() == 0 ==> text_views(r.0@) == seq![path] && r.1 == 0
            &&& files.len() > 0 ==> {
                &&& is_in_order(TextOrder::Bytes, text_views(r.0@))
                &&& text_views(r.0@).to_multiset() == files.to_multiset()
                &&& r.1 == (match first_path(text_views(r.0@), path_key(path)) {
                    Some(i) => i,
                    None => 0,
                })
            }
        }),
        r.1 < r.0@.len(),
{
    let fixed = replace_char(path, '/', '\\');
    let ghost target = fixed@;
    if let Some((dir, _name)) = split_dir(fixed.as_str()) {
        if let Some(found) = entries {
            let files = list_played(dir.as_str(), found);
            if files.len() > 0 {
                let ghost views = text_views(files@);
                assert(views.len() == files@.len());
                let sorted = sort_texts(TextOrder::Bytes, files);
                proof {
                    text_views(sorted@).to_multiset_ensures();
                    views.to_multiset_ensures();
                    assert(text_views(sorted@).len() == views.len());
                    assert(text_views(sorted@).len() == sorted@.len());
                }
                let key = normalize_path_key(fixed.as_str());
                let pos: usize = match find_path(&sorted, key.as_str()) {
                    Some(i) => i,
                    None => 0,
                };
                return (sorted, pos);
            }
            assert(text_views(files@).len() == 0);
        }
    }
    let mut alone: Vec<String> = Vec::new();
    alone.push(fixed);
    assert(text_views(alone@) =~= seq![target]);
    (alone, 0)
}

impl PlayerControls {
    /// Takes over the songs of a directory into a playlist. The result says
    /// whether it is the active one; only then the place changes.
    pub fn dir_loaded(&mut self, li_id: usize, pos: usize) -> (active: bool)
        ensures
            active == (old(self).list_id == li_id),
            final(self)@ == (if active {
                Controls { track: pos, ..old(self)@ }
            } else {
                old(self)@
            }),
    {
        let active: bool = self.list_id == li_id;
        if active {
            self.track = pos;
        }
        active
    }
}

/// The names of the entries of a directory that are played.
pub open spec fn played_names(entries: Seq<DirEntry>) -> Seq<Seq<char>>
    decreases entries.len(),
{
    if entries.len() == 0 {
        seq![]
    } else {
        let front = played_names(entries.drop_last());
        if is_played(entries.last()) {
            front.push(entries.last().name@)
        } else {
            front
        }
    }
}

/// The first place of a name in a list.
pub open spec fn name_place(names: Seq<Seq<char>>, name: Seq<char>, from: int) -> int
    decreases names.len() - from,
{
    if from < 0 || from >= names.len() {
        names.len() as int
    } else if names[from] == name {
        from
    } else {
        name_place(names, name, from + 1)
    }
}

/// The file that comes after another one in a directory: the next one, and after
/// the last, or where it is not there, the first. Where nothing is played it is
/// the file itself.
pub open spec fn next_in_dir(path: Seq<char>, entries: Option<Seq<DirEntry>>) -> Seq<char> {
    match (dir_and_name(path), entries) {
        (Some((dir, name)), Some(found)) => {
            let names = played_names(found);
            let at = name_place(names, name, 0);
            if names.len() == 0 {
                path
            } else if at + 1 < names.len() {
                in_dir(dir, names[at + 1])
            } else {
                in_dir(dir, names[0])
            }
        },
        _ => path,
    }
}

/// The file that comes before another one in a directory; where it is not there,
/// the last one. Before the first, and where nothing is played, it is the file
/// itself.
pub open spec fn prev_in_dir(path: Seq<char>, entries: Option<Seq<DirEntry>>) -> Seq<char> {
    match (dir_and_name(path), entries) {
        (Some((dir, name)), Some(found)) => {
            let names = played_names(found);
            let at = name_place(names, name, 0);
            if at == 0 {
                path
            } else {
                in_dir(dir, names[at - 1])
            }
        },
        _ => path,
    }
}

fn list_names(entries: &Vec<DirEntry>) -> (r: Vec<String>)
    ensures
        text_views(r@) == played_names(entries@),
{
    let mut r: Vec<String> = Vec::new();
    let mut i: usize = 0;
    assert(text_views(r@) =~= played_names(entries@.take(0)));
    while i < entries.len()
        invariant
            i <= entries@.len(),
            text_views(r@) == played_names(entries@.take(i as int)),
        decreases entries@.len() - i,
    {
        assert(entries@.take(i + 1).drop_last() =~= entries@.take(i as int));
        if plays_entry(&entries[i]) {
            let name: String = entries[i].name.clone();
            let ghost before = r@;
            r.push(name);
            assert(text_views(r@) =~= text_views(before).push(name@));
        }
        i += 1;
    }
    assert(entries@.take(entries@.len() as int) =~= entries@);
    r
}

fn find_name(names: &Vec<String>, name: &str) -> (r: usize)
    ensures
        r == name_place(text_views(names@), name@, 0),
        r <= names@.len(),
{
    let n: usize = names.len();
    let ghost views = text_views(names@);
    let mut i: usize = 0;
    while i < n
        invariant
            n == names@.len(),
            views == text_views(names@),
            i <= n,
            name_place(views, name@, 0) == name_place(views, name@, i as int),
        decreases n - i,
    {
        assert(views[i as int] == names@[i as int]@);
        if same_text(names[i].as_str(), name) {
            return i;
        }
        i += 1;
    }
    n
}

/// The entries of a directory by view.
pub open spec fn found_entries(entries: Option<&Vec<DirEntry>>) -> Option<Seq<DirEntry>> {
    match entries {
        Some(e) => Some(e@),
        None => None,
    }
}

/// The file that comes after another one in a directory.
pub fn get_dir_next(path: &str, entries: Option<&Vec<DirEntry>>) -> (r: String)
    ensures
        r@ == next_in_dir(path@, found_entries(entries)),
{
    if let Some((dir, name)) = split_dir(path) {
        if let Some(found) = entries {
            let names = list_names(found);
            let n: usize = names.len();
            let ghost views = text_views(names@);
            assert(views.len() == n);
            if n == 0 {
                return path.to_owned();
            }
            let at: usize = find_name(&names, name.as_str());
            let next: usize = if at < n && at + 1 < n {
                at + 1
            } else {
                0
            };
            assert(views[next as int] == names@[next as int]@);
            return full_path(dir.as_str(), names[next].as_str());
        }
    }
    path.to_owned()
}

/// The file that comes before another one in a directory.
pub fn get_dir_prev(path: &str, entries: Option<&Vec<DirEntry>>) -> (r: String)
    ensures
        r@ == prev_in_dir(path@, found_entries(entries)),
{
    if let Some((dir, name)) = split_dir(path) {
        if let Some(found) = entries {
            let names = list_names(found);
            let ghost views = text_views(names@);
            let at: usize = find_name(&names, name.as_str());
            if at == 0 {
                return path.to_owned();
            }
            assert(views[at - 1] == names@[at - 1]@);
            return full_path(dir.as_str(), names[at - 1].as_str());
        }
    }
    path.to_owned()
}

/// How many units a name has in a buffer of the system: those before the first
/// zero.
pub fn get_dir_u16(m: &[u16; 260]) -> (r: usize)
    ensures
        r <= 260,
        r < 260 ==> m@[r as int] == 0,
        forall|i: int| 0 <= i < r ==> #[trigger] m@[i] != 0,
{
    let mut i: usize = 0;
    while i < 260
        invariant
            i <= 260,
            forall|k: int| 0 <= k < i ==> #[trigger] m@[k] != 0,
        decreases 260 - i,
    {
        if m[i] == 0 {
            return i;
        }
        i += 1;
    }
    260
}

proof fn lemma_name_place(names: Seq<Seq<char>>, name: Seq<char>, from: int)
    requires
        0 <= from <= names.len(),
    ensures
        from <= name_place(names, name, from) <= names.len(),
        name_place(names, name, from) < names.len() ==> names[name_place(names, name, from)] == name,
        forall|k: int|
            from <= k < name_place(names, name, from) ==> #[trigger] names[k] != name,
    decreases names.len() - from,
{
    if from < names.len() && names[from] != name {
        lemma_name_place(names, name, from + 1);
    }
}

proof fn lemma_place_found(names: Seq<Seq<char>>, i: int)
    requires
        0 <= i < names.len(),
        names.no_duplicates(),
    ensures
        name_place(names, names[i], 0) == i,
{
    lemma_name_place(names, names[i], 0);
    let at = name_place(names, names[i], 0);
    if at > i {
        assert(names[i] != names[i]);
    } else if at < i {
        assert(names[at] == names[i]);
    }
}

proof fn lemma_dir_and_name(dir: Seq<char>, name: Seq<char>)
    requires
        !name.contains('\\'),
    ensures
        dir_and_name(in_dir(dir, name)) == Some((dir, name)),
{
    let path = in_dir(dir, name);
    let at = dir.len() as int;
    lemma_last_place(path, '\\');
    let found = last_place(path, '\\');
    assert(path[at] == '\\');
    if found > at {
        assert(path[found] == name[found - at - 1]);
    }
    assert(found == at);
    assert(path.take(at) =~= dir);
    assert(path.skip(at + 1) =~= name);
}

/// Going on and going back undo each other in a directory, but for its ends.
pub proof fn law_next_and_prev_in_dir(dir: Seq<char>, entries: Seq<DirEntry>, i: int)
    requires
        played_names(entries).no_duplicates(),
        0 <= i,
        i + 1 < played_names(entries).len(),
        !played_names(entries)[i].contains('\\'),
        !played_names(entries)[i + 1].contains('\\'),
    ensures
        ({
            let names = played_names(entries);
            let here = in_dir(dir, names[i]);
            let there = in_dir(dir, names[i + 1]);
            next_in_dir(here, Some(entries)) == there && prev_in_dir(there, Some(entries)) == here
        }),
{
    let names = played_names(entries);
    lemma_place_found(names, i);
    lemma_place_found(names, i + 1);
    lemma_dir_and_name(dir, names[i]);
    lemma_dir_and_name(dir, names[i + 1]);
}

/// A file is played by its ending, whatever its case; one without an ending is not.
pub proof fn law_ending_decides(stem: Seq<char>, ext: Seq<char>)
    requires
        !ext.contains('.'),
    ensures
        is_media_name(stem + seq!['.'] + ext) <==> is_media_ext(
            ext.map_values(|c: char| fold_char(c)),
        ),
        !is_media_name(ext),
{
    let name = stem + seq!['.'] + ext;
    lemma_last_place(name, '.');
    let at = last_place(name, '.');
    assert(name[stem.len() as int] == '.');
    assert(at == stem.len()) by {
        if at > stem.len() {
            assert(ext[at - stem.len() - 1] == '.');
        }
    }
    assert(name.skip(at + 1) =~= ext);
    lemma_last_place(ext, '.');
}

/// The files of a directory that are played are those that are no directories, not empty and
/// of a known ending, in the order in which they were found, each under the directory.
pub proof fn law_played_files_are_listed(dir: Seq<char>, entries: Seq<DirEntry>, entry: DirEntry)
    ensures
        played_files(dir, Seq::empty()).len() == 0,
        !entry.is_dir && entry.size > 0 && is_media_name(entry.name@) ==> played_files(
            dir,
            entries.push(entry),
        ) == played_files(dir, entries).push(dir + seq!['\\'] + entry.name@) && played_names(
            entries.push(entry),
        ) == played_names(entries).push(entry.name@),
        entry.is_dir || entry.size == 0 || !is_media_name(entry.name@) ==> played_files(
            dir,
            entries.push(entry),
        ) == played_files(dir, entries) && played_names(entries.push(entry)) == played_names(
            entries,
        ),
{
    assert(entries.push(entry).drop_last() =~= entries);
    assert(in_dir(dir, entry.name@) =~= dir + seq!['\\'] + entry.name@);
}

/// A path is found in a list by its key, at its first place.
pub proof fn law_path_is_found_by_its_key(files: Seq<Seq<char>>, key: Seq<char>)
    ensures
        match first_path(files, key) {
            Some(i) => 0 <= i < files.len() && path_key(files[i]) == key && forall|k: int|
                0 <= k < i ==> path_key(#[trigger] files[k]) != key,
            None => forall|k: int| 0 <= k < files.len() ==> path_key(#[trigger] files[k]) != key,
        },
    decreases files.len(),
{
    if files.len() > 0 {
        let front = files.drop_last();
        law_path_is_found_by_its_key(front, key);
        match first_path(files, key) {
            Some(i) => {
                if i < front.len() {
                    assert(front[i] == files[i]);
                }
                assert forall|k: int| 0 <= k < i implies path_key(#[trigger] files[k]) != key by {
                    assert(front[k] == files[k]);
                }
            },
            None => {
                assert forall|k: int| 0 <= k < files.len() implies path_key(#[trigger] files[k])
                    != key by {
                    if k < front.len() {
                        assert(front[k] == files[k]);
                    }
                }
            },
        }
    }
}

/// The last file of a directory is followed by the first one, and the first one has none
/// before it: it stays.
pub proof fn law_ends_of_a_directory(dir: Seq<char>, entries: Seq<DirEntry>)
    requires
        played_names(entries).no_duplicates(),
        played_names(entries).len() > 0,
        !played_names(entries)[0].contains('\\'),
        !played_names(entries).last().contains('\\'),
    ensures
        next_in_dir(in_dir(dir, played_names(entries).last()), Some(entries)) == in_dir(
            dir,
            played_names(entries)[0],
        ),
        prev_in_dir(in_dir(dir, played_names(entries)[0]), Some(entries)) == in_dir(
            dir,
            played_names(entries)[0],
        ),
        forall|path: Seq<char>| #[trigger] next_in_dir(path, None) == path && prev_in_dir(path, None) == path,
{
    let names = played_names(entries);
    lemma_place_found(names, 0);
    lemma_place_found(names, names.len() - 1);
    lemma_dir_and_name(dir, names[0]);
    lemma_dir_and_name(dir, names.last());
}

} // verus!
