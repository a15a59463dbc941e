//! A walk through the directories below a root: which files are songs, and which
//! directories come next.

use crate::dir_playlist::{has_media_name, is_media_name};
use crate::library::dir_base;
use crate::path::{join_dir_name, normalize_path_key, path_key, utf8_len_exceeds};
use crate::text::{from_chars, push_all, same_text, to_chars};
use vstd::prelude::*;

verus! {

/// What a walk does with an entry of a directory.
pub enum DirStep {
    /// A song, in a directory as it is stored.
    Song(String),
    /// A directory, by the pattern that finds its entries.
    Folder(String),
    Skip,
}

/// What a walk does, with texts taken by view.
pub enum Walk {
    Song(Seq<char>),
    Folder(Seq<char>),
    Skip,
}

impl View for DirStep {
    type V = Walk;

    open spec fn view(&self) -> Walk {
        match self {
            DirStep::Song(dir) => Walk::Song(dir@),
            DirStep::Folder(pattern) => Walk::Folder(pattern@),
            DirStep::Skip => Walk::Skip,
        }
    }
}

/// What a walk does with an entry that `pattern`, a directory with a star behind
/// it, found: a directory is walked through, the directory itself and the one
/// above it aside.
pub open spec fn walk_of(pattern: Seq<char>, is_dir: bool, name: Seq<char>) -> Walk {
    let from = pattern.drop_last();
    if is_dir {
        if name == "."@ || name == ".."@ {
            Walk::Skip
        } else {
            Walk::Folder(from + name + "\\*"@)
        }
    } else if is_media_name(name) {
        Walk::Song(dir_base(from))
    } else {
        Walk::Skip
    }
}

/// What a walk does with an entry that `pattern` found.
pub fn walk_step(pattern: &str, is_dir: bool, name: &str) -> (r: DirStep)
    requires
        pattern@.len() > 0,
    ensures
        r@ == walk_of(pattern@, is_dir, name@),
{
    let mut from = to_chars(pattern);
    from.pop();
    assert(from@ =~= pattern@.drop_last());
    if is_dir {
        if same_text(name, ".") || same_text(name, "..") {
            return DirStep::Skip;
        }
        push_all(&mut from, name);
        push_all(&mut from, "\\*");
        return DirStep::Folder(from_chars(from.as_slice()));
    }
    if !has_media_name(name) {
        return DirStep::Skip;
    }
    if from.len() > 0 && from[from.len() - 1] == '\\' && utf8_len_exceeds(&from, 3) {
        from.pop();
        assert(from@ =~= dir_base(pattern@.drop_last()));
    }
    DirStep::Song(from_chars(from.as_slice()))
}

/// The pattern of a directory below a root is a pattern again, and the songs that
/// it finds are stored under the directory's own path.
pub proof fn law_songs_are_stored_by_directory(root: Seq<char>, dir: Seq<char>, song: Seq<char>)
    requires
        root.len() >= 3,
        root.last() == '\\',
        dir.len() > 0,
        dir != "."@,
        dir != ".."@,
        is_media_name(song),
    ensures
        walk_of(root.push('*'), true, dir) is Folder,
        walk_of(walk_of(root.push('*'), true, dir)->Folder_0, false, song) == Walk::Song(root + dir),
{
    reveal_strlit("\\*");
    let pattern = root.push('*').drop_last() + dir + "\\*"@;
    assert(root.push('*').drop_last() =~= root);
    let from = pattern.drop_last();
    assert(from =~= (root + dir).push('\\'));
    crate::path::lemma_utf8_len_bounds(from);
    assert(dir_base(from) =~= root + dir);
}

/// The pattern that finds the entries of a directory.
pub fn scan_pattern(path: &str) -> (r: String)
    ensures
        r@ == (if path@.len() > 0 && path@.last() == '\\' {
            path@.push('*')
        } else {
            path@.push('\\').push('*')
        }),
{
    let mut chars = to_chars(path);
    let n: usize = chars.len();
    if n == 0 || chars[n - 1] != '\\' {
        chars.push('\\');
    }
    chars.push('*');
    from_chars(chars.as_slice())
}

/// A record of the library whose file was not seen yet.
pub struct StalePath {
    pub key: String,
    pub dir: String,
    pub name: String,
}

/// A record, with texts taken by view.
#[verifier::ext_equal]
pub struct Stale {
    pub key: Seq<char>,
    pub dir: Seq<char>,
    pub name: Seq<char>,
}

impl View for StalePath {
    type V = Stale;

    open spec fn view(&self) -> Stale {
        Stale { key: self.key@, dir: self.dir@, name: self.name@ }
    }
}

/// The records that were not seen, by view.
pub open spec fn stale_views(paths: Seq<StalePath>) -> Seq<Stale> {
    paths.map_values(|p: StalePath| p@)
}

/// The key of a file in a directory.
pub open spec fn file_key(dir: Seq<char>, name: Seq<char>) -> Seq<char> {
    path_key(dir.push('\\') + name)
}

/// Whether one of some records has a key.
pub open spec fn has_key(s: Seq<Stale>, key: Seq<char>) -> bool {
    exists|i: int| 0 <= i < s.len() && #[trigger] s[i].key == key
}

/// A row of the library, with texts taken by view.
pub open spec fn row_views(rows: Seq<(String, String)>) -> Seq<(Seq<char>, Seq<char>)> {
    rows.map_values(|r: (String, String)| (r.0@, r.1@))
}

/// The records of some rows: the first of each key, without those that name no
/// file.
pub open spec fn recorded(rows: Seq<(Seq<char>, Seq<char>)>) -> Seq<Stale>
    decreases rows.len(),
{
    if rows.len() == 0 {
        seq![]
    } else {
        let front = recorded(rows.drop_last());
        let (dir, name) = rows.last();
        let key = file_key(dir, name);
        if dir.len() == 0 || name.len() == 0 || has_key(front, key) {
            front
        } else {
            front.push(Stale { key, dir, name })
        }
    }
}

/// The records without the one that has a key.
pub open spec fn without_key(s: Seq<Stale>, key: Seq<char>) -> Seq<Stale>
    decreases s.len(),
{
    if s.len() == 0 {
        seq![]
    } else if s.last().key == key {
        without_key(s.drop_last(), key)
    } else {
        without_key(s.drop_last(), key).push(s.last())
    }
}

/// The records whose files a scan has not seen yet.
pub struct StalePaths {
    pub paths: Vec<StalePath>,
}

impl View for StalePaths {
    type V = Seq<Stale>;

    open spec fn view(&self) -> Seq<Stale> {
        stale_views(self.paths@)
    }
}

impl StalePaths {
    fn holds_key(&self, key: &str) -> (r: bool)
        ensures
            r == has_key(self@, key@),
    {
        let mut i: usize = 0;
        while i < self.paths.len()
            invariant
                i <= self.paths@.len(),
                forall|j: int| 0 <= j < i ==> #[trigger] self@[j].key != key@,
            decreases self.paths@.len() - i,
        {
            assert(self@[i as int] == self.paths@[i as int]@);
            if same_text(self.paths[i].key.as_str(), key) {
                assert(self@[i as int].key == key@);
                return true;
            }
            i += 1;
        }
        false
    }

    /// The records of the library.
    pub fn music_db_collect_song_path_map(rows: &Vec<(String, String)>) -> (r: StalePaths)
        ensures
            r@ == recorded(row_views(rows@)),
    {
        let ghost views = row_views(rows@);
        let mut r = StalePaths { paths: Vec::new() };
        let mut i: usize = 0;
        assert(r@ =~= recorded(views.take(0)));
        while i < rows.len()
            invariant
                i <= rows@.len(),
                views == row_views(rows@),
                r@ == recorded(views.take(i as int)),
            decreases rows@.len() - i,
        {
            proof {
                assert(views.take(i + 1).drop_last() =~= views.take(i as int));
                assert(views.take(i + 1).last() == (rows@[i as int].0@, rows@[i as int].1@));
            }
            let dir = &rows[i].0;
            let name = &rows[i].1;
            if !dir.as_str().is_empty() && !name.as_str().is_empty() {
                let full = join_dir_name(dir.as_str(), name.as_str());
                let key = normalize_path_key(full.as_str());
                if !r.holds_key(key.as_str()) {
                    let ghost before = r.paths@;
                    r.paths.push(StalePath { key, dir: dir.clone(), name: name.clone() });
                    assert(r@ =~= stale_views(before).push(r.paths@.last()@));
                }
            }
            i += 1;
        }
        assert(views.take(rows@.len() as int) =~= views);
        r
    }

    /// Notes that the file of a record is there.
    pub fn seen(&mut self, dir: &str, name: &str)
        ensures
            final(self)@ == without_key(old(self)@, file_key(dir@, name@)),
    {
        let full = join_dir_name(dir, name);
        let key = normalize_path_key(full.as_str());
        let ghost all = self@;
        let mut old_paths: Vec<StalePath> = Vec::new();
        old_paths.append(&mut self.paths);
        assert(stale_views(old_paths@) =~= all);
        let mut kept: Vec<StalePath> = Vec::new();
        assert(stale_views(kept@) =~= without_key(all.take(0), key@));
        for path in it: old_paths
            invariant
                all == stale_views(it.seq()),
                stale_views(kept@) == without_key(all.take(it.index() as int), key@),
        {
            proof {
                let k = it.index() as int;
                assert(all.take(k + 1).drop_last() =~= all.take(k));
                assert(all.take(k + 1).last() == path@);
            }
            if !same_text(path.key.as_str(), key.as_str()) {
                let ghost before = kept@;
                kept.push(path);
                assert(stale_views(kept@) =~= stale_views(before).push(path@));
            }
        }
        assert(all.take(all.len() as int) =~= all);
        self.paths = kept;
    }
}

/// The record of a file that was seen is not taken for one whose file has gone; the
/// others are as before.
pub proof fn law_seen_file_is_not_stale(s: Seq<Stale>, key: Seq<char>)
    ensures
        !has_key(without_key(s, key), key),
        forall|other: Seq<char>|
            other != key ==> #[trigger] has_key(without_key(s, key), other) == has_key(s, other),
    decreases s.len(),
{
    if s.len() > 0 {
        let front = s.drop_last();
        law_seen_file_is_not_stale(front, key);
        let all = without_key(s, key);
        let kept = without_key(front, key);
        assert forall|k: Seq<char>| #[trigger] has_key(all, k) == (has_key(kept, k) || (
        s.last().key != key && s.last().key == k)) by {
            if has_key(all, k) {
                let i = choose|i: int| 0 <= i < all.len() && #[trigger] all[i].key == k;
                if i < kept.len() {
                    assert(kept[i].key == k);
                }
            }
            if has_key(kept, k) {
                let i = choose|i: int| 0 <= i < kept.len() && #[trigger] kept[i].key == k;
                assert(all[i].key == k);
            }
            if s.last().key != key && s.last().key == k {
                assert(all[all.len() - 1].key == k);
            }
        }
        assert forall|k: Seq<char>| #[trigger] has_key(s, k) == (has_key(front, k) || s.last().key
            == k) by {
            if has_key(s, k) {
                let i = choose|i: int| 0 <= i < s.len() && #[trigger] s[i].key == k;
                if i < front.len() {
                    assert(front[i].key == k);
                }
            }
            if has_key(front, k) {
                let i = choose|i: int| 0 <= i < front.len() && #[trigger] front[i].key == k;
                assert(s[i].key == k);
            }
            if s.last().key == k {
                assert(s[s.len() - 1].key == k);
            }
        }
    }
}

/// A walk through directories goes into each directory but for the two that stand for where
/// it is and where it came from, and takes each file that can be played with its directory.
pub proof fn law_walk_takes_songs_and_goes_below(from: Seq<char>, name: Seq<char>)
    requires
        from.len() > 0,
    ensures
        ({
            let pattern = from.push('*');
            &&& name != "."@ && name != ".."@ ==> walk_of(pattern, true, name) == Walk::Folder(
                from + name + seq!['\\', '*'],
            )
            &&& walk_of(pattern, true, "."@) == Walk::Skip
            &&& walk_of(pattern, true, ".."@) == Walk::Skip
            &&& !is_media_name(name) ==> walk_of(pattern, false, name) == Walk::Skip
            &&& is_media_name(name) && from.last() != '\\' ==> walk_of(pattern, false, name)
                == Walk::Song(from)
        }),
{
    assert(from.push('*').drop_last() =~= from);
    reveal_strlit("\\*");
    assert("\\*"@ =~= seq!['\\', '*']);
}

/// Every row of the library with a directory and a name is recorded, each file once, in the
/// order of the rows; others are not.
pub proof fn law_every_file_is_recorded(rows: Seq<(Seq<char>, Seq<char>)>, i: int)
    requires
        0 <= i < rows.len(),
    ensures
        rows[i].0.len() > 0 && rows[i].1.len() > 0 ==> has_key(
            recorded(rows),
            file_key(rows[i].0, rows[i].1),
        ),
        forall|a: int, b: int|
            0 <= a < b < recorded(rows).len() ==> (#[trigger] recorded(rows)[a]).key != (
            #[trigger] recorded(rows)[b]).key,
        forall|a: int|
            0 <= a < recorded(rows).len() ==> (#[trigger] recorded(rows)[a]).key == file_key(
                recorded(rows)[a].dir,
                recorded(rows)[a].name,
            ),
    decreases rows.len(),
{
    lemma_recorded(rows);
    let front = recorded(rows.drop_last());
    let all = recorded(rows);
    let key = file_key(rows[i].0, rows[i].1);
    if i < rows.len() - 1 {
        law_every_file_is_recorded(rows.drop_last(), i);
        if has_key(front, key) {
            let k = choose|k: int| 0 <= k < front.len() && #[trigger] front[k].key == key;
            assert(all[k].key == key);
        }
    } else if rows[i].0.len() > 0 && rows[i].1.len() > 0 {
        if has_key(front, key) {
            assert(all == front);
        } else {
            assert(all[front.len() as int].key == key);
        }
    }
}

proof fn lemma_recorded(rows: Seq<(Seq<char>, Seq<char>)>)
    ensures
        forall|a: int, b: int|
            0 <= a < b < recorded(rows).len() ==> (#[trigger] recorded(rows)[a]).key != (
            #[trigger] recorded(rows)[b]).key,
        forall|a: int|
            0 <= a < recorded(rows).len() ==> (#[trigger] recorded(rows)[a]).key == file_key(
                recorded(rows)[a].dir,
                recorded(rows)[a].name,
            ),
    decreases rows.len(),
{
    if rows.len() > 0 {
        lemma_recorded(rows.drop_last());
        let front = recorded(rows.drop_last());
        let all = recorded(rows);
        let (dir, name) = rows.last();
        let key = file_key(dir, name);
        if all != front {
            assert(all == front.push(Stale { key, dir, name }));
            assert forall|a: int, b: int| 0 <= a < b < all.len() implies (#[trigger] all[a]).key != (
            #[trigger] all[b]).key by {
                assert(all[a] == front[a]);
                if b == front.len() {
                    assert(front[a].key != key);
                } else {
                    assert(all[b] == front[b]);
                }
            }
            assert forall|a: int| 0 <= a < all.len() implies (#[trigger] all[a]).key == file_key(
                all[a].dir,
                all[a].name,
            ) by {
                if a < front.len() {
                    assert(all[a] == front[a]);
                }
            }
        }
    }
}

} // verus!
