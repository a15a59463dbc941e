//! The cover of a song: where it is looked for, and which one is shown.

use crate::path::{join_dir_name, normalize_path_key, path_key, split_at_last, split_path};
use crate::song::{text_views, SongInfo};
use crate::text::{
    concat, last_place, lemma_last_place, replace_char, replaced, same_text, trim, trimmed,
};
use vstd::prelude::*;

verus! {

/// What a picture in a file shows.
#[derive(Clone, Copy, PartialEq, Eq, Structural)]
pub enum PictureUse {
    FrontCover,
    Other,
    Untold,
}

/// How much a picture is wanted as a cover. An empty one is not.
pub open spec fn picture_score(picture: (PictureUse, usize)) -> int {
    if picture.1 == 0 {
        -1
    } else {
        match picture.0 {
            PictureUse::FrontCover => 2,
            PictureUse::Other => 1,
            PictureUse::Untold => 0,
        }
    }
}

/// The picture of a file that is taken as its cover: the first of those that are
/// wanted most.
pub open spec fn best_picture_of(pictures: Seq<(PictureUse, usize)>) -> Option<int>
    decreases pictures.len(),
{
    if pictures.len() == 0 {
        None
    } else {
        let front = best_picture_of(pictures.drop_last());
        let best = match front {
            Some(i) => picture_score(pictures[i]),
            None => -1,
        };
        if picture_score(pictures.last()) > best {
            Some(pictures.len() - 1)
        } else {
            front
        }
    }
}

fn score_of_picture(kind: PictureUse, size: usize) -> (r: i32)
    ensures
        r == picture_score((kind, size)),
        -1 <= r <= 2,
{
    if size == 0 {
        return -1;
    }
    match kind {
        PictureUse::FrontCover => 2,
        PictureUse::Other => 1,
        PictureUse::Untold => 0,
    }
}

/// The picture of a file that is taken as its cover. Of each picture what it
/// shows is told, and its size in bytes.
pub fn best_picture(pictures: &Vec<(PictureUse, usize)>) -> (r: Option<usize>)
    ensures
        match r {
            Some(i) => best_picture_of(pictures@) == Some(i as int) && i < pictures@.len()
                && pictures@[i as int].1 > 0,
            None => best_picture_of(pictures@) is None,
        },
{
    let mut best: Option<usize> = None;
    let mut best_score: i32 = -1;
    let mut i: usize = 0;
    while i < pictures.len()
        invariant
            i <= pictures@.len(),
            match best {
                Some(k) => best_picture_of(pictures@.take(i as int)) == Some(k as int) && k < i
                    && best_score == picture_score(pictures@[k as int]) && best_score >= 0,
                None => best_picture_of(pictures@.take(i as int)) is None && best_score == -1,
            },
        decreases pictures@.len() - i,
    {
        proof {
            assert(pictures@.take(i + 1).drop_last() =~= pictures@.take(i as int));
            assert(pictures@.take(i + 1).last() == pictures@[i as int]);
        }
        let score: i32 = score_of_picture(pictures[i].0, pictures[i].1);
        if score > best_score {
            best_score = score;
            best = Some(i);
        }
        i += 1;
    }
    assert(pictures@.take(pictures@.len() as int) =~= pictures@);
    best
}

/// A front cover is taken wherever a file has one.
pub proof fn law_front_cover_is_taken(pictures: Seq<(PictureUse, usize)>, k: int)
    requires
        0 <= k < pictures.len(),
        pictures[k].1 > 0,
    ensures
        best_picture_of(pictures) is Some,
        0 <= best_picture_of(pictures)->0 < pictures.len(),
        picture_score(pictures[best_picture_of(pictures)->0]) >= picture_score(pictures[k]),
        pictures[k].0 == PictureUse::FrontCover ==> pictures[best_picture_of(pictures)->0].0
            == PictureUse::FrontCover,
    decreases pictures.len(),
{
    let front = pictures.drop_last();
    lemma_best_picture(front);
    lemma_best_picture(pictures);
    if k < front.len() {
        assert(front[k] == pictures[k]);
        law_front_cover_is_taken(front, k);
    }
}

proof fn lemma_best_picture(pictures: Seq<(PictureUse, usize)>)
    ensures
        match best_picture_of(pictures) {
            Some(i) => 0 <= i < pictures.len() && picture_score(pictures[i]) >= 0,
            None => true,
        },
    decreases pictures.len(),
{
    if pictures.len() > 0 {
        lemma_best_picture(pictures.drop_last());
    }
}

/// The names of files that are taken as covers.
pub open spec fn cover_names() -> Seq<Seq<char>> {
    seq!["cover.jpg"@, "folder.jpg"@, "cover.png"@, "folder.png"@]
}

/// Where the cover of a song is looked for beside its file, in this order.
pub open spec fn cover_places(path: Seq<char>, album: Seq<char>) -> Seq<Seq<char>> {
    let dir = split_at_last(replaced(trimmed(path), '/', '\\')).0;
    let name = trimmed(album);
    if dir.len() == 0 {
        seq![]
    } else {
        let plain = cover_names().map_values(|n: Seq<char>| dir.push('\\') + n);
        if name.len() == 0 {
            plain
        } else {
            plain + seq![dir.push('\\') + (name + ".jpg"@), dir.push('\\') + (name + ".png"@)]
        }
    }
}

/// Where the cover of a song is looked for beside its file, in this order.
pub fn cover_candidates(info: &SongInfo) -> (r: Vec<String>)
    ensures
        text_views(r@) == cover_places(info.path@, info.album@),
{
    let path = trim(info.path.as_str());
    let fixed = replace_char(path.as_str(), '/', '\\');
    let (dir, _name) = split_path(fixed.as_str());
    let mut r: Vec<String> = Vec::new();
    if dir.as_str().is_empty() {
        assert(text_views(r@) =~= cover_places(info.path@, info.album@));
        return r;
    }
    r.push(join_dir_name(dir.as_str(), "cover.jpg"));
    r.push(join_dir_name(dir.as_str(), "folder.jpg"));
    r.push(join_dir_name(dir.as_str(), "cover.png"));
    r.push(join_dir_name(dir.as_str(), "folder.png"));
    let album = trim(info.album.as_str());
    if !album.as_str().is_empty() {
        let jpg = concat(album.as_str(), ".jpg");
        let png = concat(album.as_str(), ".png");
        r.push(join_dir_name(dir.as_str(), jpg.as_str()));
        r.push(join_dir_name(dir.as_str(), png.as_str()));
    }
    assert(text_views(r@) =~= cover_places(info.path@, info.album@));
    r
}

/// Which song the cover belongs to that is shown or looked for.
pub struct CoverRequests {
    pub last_key: String,
    /// The number of the last request.
    pub seq: u64,
}

impl CoverRequests {
    /// No cover was asked for yet.
    pub fn new() -> (r: CoverRequests)
        ensures
            r.last_key@.len() == 0,
            r.seq == 0,
    {
        CoverRequests { last_key: String::new(), seq: 0 }
    }

    /// Asks for the cover of another song. The result is the number of the
    /// request; there is none where the song is the same.
    pub fn track_changed(&mut self, path: &str) -> (r: Option<u64>)
        ensures
            r is Some <==> path_key(trimmed(path@)) != old(self).last_key@,
            r matches Some(n) ==> n == old(self).seq.wrapping_add(1) && final(self).seq == n
                && final(self).last_key@ == path_key(trimmed(path@)),
            r is None ==> final(self).seq == old(self).seq && final(self).last_key@ == old(
                self,
            ).last_key@,
    {
        let inner = trim(path);
        let key = normalize_path_key(inner.as_str());
        if same_text(key.as_str(), self.last_key.as_str()) {
            return None;
        }
        self.last_key = key;
        self.seq = self.seq.wrapping_add(1);
        Some(self.seq)
    }

    /// What is shown once a request was answered with a picture of so many bytes:
    /// `None` where the song changed meanwhile, else whether there is a cover.
    pub fn answered(&self, request: u64, size: Option<usize>) -> (r: Option<bool>)
        ensures
            r == (if request != self.seq {
                None
            } else {
                Some(size matches Some(n) && n > 0)
            }),
    {
        if request != self.seq {
            return None;
        }
        match size {
            Some(n) => Some(n > 0),
            None => Some(false),
        }
    }
}

/// A cover is looked for beside the song, under the usual names first and then under the name
/// of the album; a path without a directory has none.
pub proof fn law_cover_is_looked_for_beside_the_song(
    dir: Seq<char>,
    name: Seq<char>,
    album: Seq<char>,
)
    requires
        dir.len() > 0,
        !name.contains('\\'),
        !name.contains('/'),
        trimmed(dir + seq!['\\'] + name) == dir + seq!['\\'] + name,
        !dir.contains('/'),
    ensures
        ({
            let places = cover_places(dir + seq!['\\'] + name, album);
            &&& places[0] == dir + seq!['\\'] + "cover.jpg"@
            &&& places[1] == dir + seq!['\\'] + "folder.jpg"@
            &&& places[2] == dir + seq!['\\'] + "cover.png"@
            &&& places[3] == dir + seq!['\\'] + "folder.png"@
            &&& trimmed(album).len() == 0 ==> places.len() == 4
            &&& trimmed(album).len() > 0 ==> places.len() == 6 && places[4] == dir + seq!['\\']
                + trimmed(album) + ".jpg"@ && places[5] == dir + seq!['\\'] + trimmed(album)
                + ".png"@
        }),
{
    let path = dir + seq!['\\'] + name;
    let fixed = replaced(path, '/', '\\');
    assert(fixed =~= path) by {
        assert forall|i: int| 0 <= i < path.len() implies path[i] != '/' by {
            if i < dir.len() {
                assert(dir[i] == path[i]);
            } else if i > dir.len() {
                assert(name[i - dir.len() - 1] == path[i]);
            }
        }
    }
    lemma_last_place(path, '\\');
    let at = last_place(path, '\\');
    assert(path[dir.len() as int] == '\\');
    assert(at == dir.len()) by {
        if at > dir.len() {
            assert(name[at - dir.len() - 1] == '\\');
        }
    }
    assert(path.take(at) =~= dir);
    let places = cover_places(path, album);
    assert(dir.push('\\') + "cover.jpg"@ =~= dir + seq!['\\'] + "cover.jpg"@);
    assert(dir.push('\\') + "folder.jpg"@ =~= dir + seq!['\\'] + "folder.jpg"@);
    assert(dir.push('\\') + "cover.png"@ =~= dir + seq!['\\'] + "cover.png"@);
    assert(dir.push('\\') + "folder.png"@ =~= dir + seq!['\\'] + "folder.png"@);
    let a = trimmed(album);
    assert(dir.push('\\') + (a + ".jpg"@) =~= dir + seq!['\\'] + a + ".jpg"@);
    assert(dir.push('\\') + (a + ".png"@) =~= dir + seq!['\\'] + a + ".png"@);
}

/// Among pictures the front cover is preferred, then one of another use, then one of a use
/// that is not told; an empty one is none, and of equals the first is taken.
pub proof fn law_first_of_the_best_pictures(pictures: Seq<(PictureUse, usize)>)
    ensures
        ({
            let best = best_picture_of(pictures);
            &&& best is Some ==> 0 <= best->0 < pictures.len() && pictures[best->0].1 > 0
            &&& best is Some ==> forall|k: int|
                0 <= k < best->0 && (#[trigger] pictures[k]).1 > 0 ==> pictures[k].0
                    != pictures[best->0].0
            &&& best is None ==> forall|k: int|
                0 <= k < pictures.len() ==> (#[trigger] pictures[k]).1 == 0
        }),
        forall|a: usize, b: usize|
            a > 0 && b > 0 ==> picture_score((PictureUse::FrontCover, a)) > #[trigger] picture_score(
                (PictureUse::Other, b),
            ) && picture_score((PictureUse::Other, b)) > #[trigger] picture_score(
                (PictureUse::Untold, a),
            ),
    decreases pictures.len(),
{
    if pictures.len() > 0 {
        let front = pictures.drop_last();
        law_first_of_the_best_pictures(front);
        lemma_best_picture(front);
        let before = best_picture_of(front);
        let best = best_picture_of(pictures);
        assert(pictures.last() == pictures[pictures.len() - 1]);
        if before is Some {
            assert(front[before->0] == pictures[before->0]);
        }
        if best is Some {
            assert forall|k: int|
                0 <= k < best->0 && (#[trigger] pictures[k]).1 > 0 implies pictures[k].0
                != pictures[best->0].0 by {
                assert(front[k] == pictures[k]);
                if best->0 == front.len() {
                    law_front_cover_is_taken(front, k);
                }
            }
        } else {
            assert forall|k: int| 0 <= k < pictures.len() implies (#[trigger] pictures[k]).1
                == 0 by {
                if k < front.len() {
                    assert(front[k] == pictures[k]);
                }
            }
        }
    }
}

} // verus!
