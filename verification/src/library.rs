//! The music library: its configuration, the directories that it covers, and the
//! rules by which its records follow the files.

use crate::path::{
    fix_scan_root, join_dir_name, lemma_utf8_len_bounds, normalize_path_key, path_key, scan_root,
    utf8_len, utf8_len_exceeds,
};
use crate::text::{
    decimal, from_chars, i32_value, law_digits_stand_for_their_number,
    law_text_is_parted_at_the_first_place, occurs_at, parse_i32, pieces, same_text, slice_text,
    split, split_once, split_once_at, to_chars, trim, trimmed,
};
use vstd::prelude::*;

verus! {

/// What the configuration file sets.
pub struct Config {
    pub root_dir: Option<String>,
    pub ffm_dir: Option<String>,
    pub font_size: Option<i32>,
    pub load_tray: Option<bool>,
    pub def_exclusive: Option<bool>,
    pub pl_db_path: Option<String>,
}

/// What the configuration file sets, with its texts taken by view.
#[verifier::ext_equal]
pub struct Settings {
    pub root_dir: Option<Seq<char>>,
    pub ffm_dir: Option<Seq<char>>,
    pub font_size: Option<i32>,
    pub load_tray: Option<bool>,
    pub def_exclusive: Option<bool>,
    pub pl_db_path: Option<Seq<char>>,
}

/// A text, where there is one.
pub open spec fn optional_text(t: Option<String>) -> Option<Seq<char>> {
    match t {
        Some(t) => Some(t@),
        None => None,
    }
}

impl View for Config {
    type V = Settings;

    open spec fn view(&self) -> Settings {
        Settings {
            root_dir: optional_text(self.root_dir),
            ffm_dir: optional_text(self.ffm_dir),
            font_size: self.font_size,
            load_tray: self.load_tray,
            def_exclusive: self.def_exclusive,
            pl_db_path: optional_text(self.pl_db_path),
        }
    }
}

impl Settings {
    /// Nothing is set.
    pub open spec fn none() -> Settings {
        Settings {
            root_dir: None,
            ffm_dir: None,
            font_size: None,
            load_tray: None,
            def_exclusive: None,
            pl_db_path: None,
        }
    }

    /// After one more setting. A number that is none leaves the setting alone.
    pub open spec fn with(self, key: Seq<char>, value: Seq<char>) -> Settings {
        if key == "root_dir"@ {
            Settings { root_dir: Some(value), ..self }
        } else if key == "ffm_dir"@ {
            Settings { ffm_dir: Some(value), ..self }
        } else if key == "pl_db_path"@ {
            Settings { pl_db_path: Some(value), ..self }
        } else {
            match i32_value(value) {
                None => self,
                Some(n) => if key == "font_size"@ {
                    Settings { font_size: Some(n as i32), ..self }
                } else if key == "load_tray"@ {
                    Settings { load_tray: Some(n != 0), ..self }
                } else if key == "def_exclusive"@ {
                    Settings { def_exclusive: Some(n != 0), ..self }
                } else {
                    self
                },
            }
        }
    }

    /// After one more line of the file.
    pub open spec fn with_line(self, line: Seq<char>) -> Settings {
        match split_once_at(trimmed(line), seq!['=']) {
            Some((key, value)) => if trimmed(value).len() == 0 {
                self
            } else {
                self.with(trimmed(key), trimmed(value))
            },
            None => self,
        }
    }
}

/// What some lines set, one after the other.
pub open spec fn settings_of(lines: Seq<Seq<char>>) -> Settings
    decreases lines.len(),
{
    if lines.len() == 0 {
        Settings::none()
    } else {
        settings_of(lines.drop_last()).with_line(lines.last())
    }
}

/// The character that some editors put in front of a text.
pub const BYTE_ORDER_MARK: char = '\u{feff}';

/// The text without the byte order marks at its front.
pub open spec fn without_marks(s: Seq<char>) -> Seq<char>
    decreases s.len(),
{
    if s.len() > 0 && s[0] == BYTE_ORDER_MARK {
        without_marks(s.drop_first())
    } else {
        s
    }
}

fn strip_marks(s: &str) -> (r: String)
    ensures
        r@ == without_marks(s@),
{
    let chars = to_chars(s);
    let n: usize = chars.len();
    let mut from: usize = 0;
    assert(s@.skip(0) =~= s@);
    while from < n && chars[from] == BYTE_ORDER_MARK
        invariant
            chars@ == s@,
            n == s@.len(),
            from <= n,
            without_marks(s@) == without_marks(s@.skip(from as int)),
        decreases n - from,
    {
        assert(s@.skip(from as int).drop_first() =~= s@.skip(from + 1));
        from += 1;
    }
    let r = slice_text(&chars, from, n);
    assert(r@ =~= s@.skip(from as int));
    if from < n {
        assert(s@.skip(from as int)[0] == s@[from as int]);
    }
    r
}

impl Config {
    fn set(&mut self, key: &str, value: String)
        ensures
            final(self)@ == old(self)@.with(key@, value@),
    {
        if same_text(key, "root_dir") {
            self.root_dir = Some(value);
        } else if same_text(key, "ffm_dir") {
            self.ffm_dir = Some(value);
        } else if same_text(key, "pl_db_path") {
            self.pl_db_path = Some(value);
        } else if let Some(n) = parse_i32(value.as_str()) {
            if same_text(key, "font_size") {
                self.font_size = Some(n);
            } else if same_text(key, "load_tray") {
                self.load_tray = Some(n != 0);
            } else if same_text(key, "def_exclusive") {
                self.def_exclusive = Some(n != 0);
            }
        }
    }

    /// What the text of a configuration file sets: lines of a key, an equals
    /// sign and a value. Later lines win.
    pub fn parse(text: &str) -> (r: Config)
        ensures
            r@ == settings_of(pieces(without_marks(text@), '\n')),
    {
        let body = strip_marks(text);
        let lines = split(body.as_str(), '\n');
        let ghost views = pieces(body@, '\n');
        let mut r = Config {
            root_dir: None,
            ffm_dir: None,
            font_size: None,
            load_tray: None,
            def_exclusive: None,
            pl_db_path: None,
        };
        let mut i: usize = 0;
        while i < lines.len()
            invariant
                i <= lines@.len(),
                views =~= lines@.map_values(|t: String| t@),
                r@ == settings_of(views.take(i as int)),
            decreases lines@.len() - i,
        {
            assert(views.take(i + 1).drop_last() =~= views.take(i as int));
            assert(views.take(i + 1).last() == lines@[i as int]@);
            let line = trim(lines[i].as_str());
            proof {
                reveal_strlit("=");
                assert("="@ =~= seq!['=']);
            }
            if let Some((key, value)) = split_once(line.as_str(), "=") {
                let value = trim(value.as_str());
                if !value.as_str().is_empty() {
                    let key = trim(key.as_str());
                    r.set(key.as_str(), value);
                }
            }
            i += 1;
        }
        assert(views.take(lines@.len() as int) =~= views);
        r
    }
}

/// A directory that the library covers, and the key of its path.
pub struct ScanRoot {
    pub path: String,
    pub key: String,
}

/// The paths of some roots.
pub open spec fn root_paths(roots: Seq<ScanRoot>) -> Seq<Seq<char>> {
    roots.map_values(|r: ScanRoot| r.path@)
}

/// Whether a path with this key is among some paths.
pub open spec fn has_key(paths: Seq<Seq<char>>, key: Seq<char>) -> bool {
    exists|i: int| 0 <= i < paths.len() && path_key(#[trigger] paths[i]) == key
}

/// The roots among some texts: fixed, without the empty ones, and of those with
/// one key the first.
pub open spec fn scan_roots_of(texts: Seq<Seq<char>>) -> Seq<Seq<char>>
    decreases texts.len(),
{
    if texts.len() == 0 {
        seq![]
    } else {
        let front = scan_roots_of(texts.drop_last());
        let root = scan_root(texts.last());
        if root.len() == 0 || has_key(front, path_key(root)) {
            front
        } else {
            front.push(root)
        }
    }
}

/// Every root carries the key of its path.
pub open spec fn keyed(roots: Seq<ScanRoot>) -> bool {
    forall|i: int| 0 <= i < roots.len() ==> (#[trigger] roots[i]).key@ == path_key(roots[i].path@)
}

fn find_key(roots: &Vec<ScanRoot>, key: &str) -> (r: bool)
    requires
        keyed(roots@),
    ensures
        r == has_key(root_paths(roots@), key@),
{
    let mut i: usize = 0;
    while i < roots.len()
        invariant
            i <= roots@.len(),
            keyed(roots@),
            forall|k: int| 0 <= k < i ==> path_key(#[trigger] root_paths(roots@)[k]) != key@,
        decreases roots@.len() - i,
    {
        if same_text(roots[i].key.as_str(), key) {
            assert(path_key(root_paths(roots@)[i as int]) == key@);
            return true;
        }
        i += 1;
    }
    false
}

/// The roots that a setting names, parted by bars.
pub fn music_db_collect_scan_roots(root_dir: &str) -> (r: Vec<ScanRoot>)
    ensures
        root_paths(r@) == scan_roots_of(pieces(root_dir@, '|')),
        keyed(r@),
{
    let texts = split(root_dir, '|');
    let ghost views = pieces(root_dir@, '|');
    let mut r: Vec<ScanRoot> = Vec::new();
    let mut i: usize = 0;
    assert(root_paths(r@) =~= scan_roots_of(views.take(0)));
    while i < texts.len()
        invariant
            i <= texts@.len(),
            views =~= texts@.map_values(|t: String| t@),
            keyed(r@),
            root_paths(r@) == scan_roots_of(views.take(i as int)),
        decreases texts@.len() - i,
    {
        assert(views.take(i + 1).drop_last() =~= views.take(i as int));
        assert(views.take(i + 1).last() == texts@[i as int]@);
        let path = fix_scan_root(texts[i].as_str());
        if !path.as_str().is_empty() {
            let key = normalize_path_key(path.as_str());
            if !find_key(&r, key.as_str()) {
                let ghost before = r@;
                let ghost fixed = path@;
                r.push(ScanRoot { path, key });
                assert(root_paths(r@) =~= root_paths(before).push(fixed));
            }
        }
        i += 1;
    }
    assert(views.take(texts@.len() as int) =~= views);
    r
}

/// No two roots cover one directory.
pub proof fn law_scan_roots_are_distinct(texts: Seq<Seq<char>>)
    ensures
        forall|i: int, j: int|
            0 <= i < j < scan_roots_of(texts).len() ==> path_key(#[trigger] scan_roots_of(texts)[i])
                != path_key(#[trigger] scan_roots_of(texts)[j]),
        forall|i: int|
            0 <= i < scan_roots_of(texts).len() ==> (#[trigger] scan_roots_of(texts)[i]).len() > 0,
    decreases texts.len(),
{
    if texts.len() > 0 {
        law_scan_roots_are_distinct(texts.drop_last());
        let front = scan_roots_of(texts.drop_last());
        let root = scan_root(texts.last());
        if root.len() > 0 && !has_key(front, path_key(root)) {
            assert forall|i: int, j: int|
                0 <= i < j < scan_roots_of(texts).len() implies path_key(
                #[trigger] scan_roots_of(texts)[i],
            ) != path_key(#[trigger] scan_roots_of(texts)[j]) by {
                if j == front.len() {
                    assert(path_key(front[i]) != path_key(root));
                }
            }
        }
    }
}

/// A root that the library's database knows.
pub struct StoredRoot {
    pub id: i64,
    pub path: String,
}

/// What becomes of a root that is to be covered.
#[derive(PartialEq, Eq, Debug)]
pub enum RootStep {
    /// It is stored under this number.
    Keep(i64),
    /// It is stored under this number, and its path is written anew.
    Rename(i64),
    /// It has to be stored.
    Insert,
}

/// The stored roots as they count: their paths fixed.
pub open spec fn stored_views(stored: Seq<StoredRoot>) -> Seq<(i64, Seq<char>)> {
    stored.map_values(|s: StoredRoot| (s.id, scan_root(s.path@)))
}

/// Whether stored root `i` stays: it is to be covered, and none before it covers
/// the same directory.
pub open spec fn stays(stored: Seq<(i64, Seq<char>)>, wanted: Seq<Seq<char>>, i: int) -> bool {
    &&& stored[i].1.len() > 0
    &&& has_key(wanted, path_key(stored[i].1))
    &&& forall|k: int|
        0 <= k < i && (#[trigger] stored[k]).1.len() > 0 ==> path_key(stored[k].1) != path_key(
            stored[i].1,
        )
}

/// Whether stored root `i` has to go: its path is none of those to be covered,
/// or is covered twice. One without a path is passed over.
pub open spec fn goes(stored: Seq<(i64, Seq<char>)>, wanted: Seq<Seq<char>>, i: int) -> bool {
    stored[i].1.len() > 0 && !stays(stored, wanted, i)
}

/// Whether a number is that of a root that goes.
pub open spec fn goes_by_id(stored: Seq<(i64, Seq<char>)>, wanted: Seq<Seq<char>>, id: i64) -> bool {
    exists|k: int| 0 <= k < stored.len() && (#[trigger] stored[k]).0 == id && goes(stored, wanted, k)
}

/// Whether stored root `i` stands for a root to be covered.
pub open spec fn stands_for(
    stored: Seq<(i64, Seq<char>)>,
    wanted: Seq<Seq<char>>,
    i: int,
    root: Seq<char>,
) -> bool {
    stored[i].1.len() > 0 && path_key(stored[i].1) == path_key(root) && !goes_by_id(
        stored,
        wanted,
        stored[i].0,
    )
}

/// What becomes of a root to be covered.
pub open spec fn is_root_step(
    step: RootStep,
    stored: Seq<(i64, Seq<char>)>,
    wanted: Seq<Seq<char>>,
    root: Seq<char>,
) -> bool {
    match step {
        RootStep::Insert => forall|i: int|
            0 <= i < stored.len() ==> !#[trigger] stands_for(stored, wanted, i, root),
        RootStep::Keep(id) => exists|i: int| #[trigger]
            is_first_for(stored, wanted, i, root) && stored[i].0 == id && stored[i].1 == root,
        RootStep::Rename(id) => exists|i: int| #[trigger]
            is_first_for(stored, wanted, i, root) && stored[i].0 == id && stored[i].1 != root,
    }
}

/// Whether stored root `i` is the first that stands for a root to be covered.
pub open spec fn is_first_for(
    stored: Seq<(i64, Seq<char>)>,
    wanted: Seq<Seq<char>>,
    i: int,
    root: Seq<char>,
) -> bool {
    &&& 0 <= i < stored.len()
    &&& stands_for(stored, wanted, i, root)
    &&& forall|k: int| 0 <= k < i ==> !#[trigger] stands_for(stored, wanted, k, root)
}

struct FixedRoot {
    id: i64,
    path: String,
    key: String,
}

spec fn fixed_views(fixed: Seq<FixedRoot>) -> Seq<(i64, Seq<char>)> {
    fixed.map_values(|f: FixedRoot| (f.id, f.path@))
}

fn fix_stored(stored: &Vec<StoredRoot>) -> (r: Vec<FixedRoot>)
    ensures
        fixed_views(r@) == stored_views(stored@),
        forall|i: int| 0 <= i < r@.len() ==> (#[trigger] r@[i]).key@ == path_key(r@[i].path@),
{
    let mut r: Vec<FixedRoot> = Vec::new();
    let mut i: usize = 0;
    while i < stored.len()
        invariant
            i <= stored@.len(),
            fixed_views(r@) == stored_views(stored@).take(i as int),
            forall|k: int| 0 <= k < r@.len() ==> (#[trigger] r@[k]).key@ == path_key(r@[k].path@),
        decreases stored@.len() - i,
    {
        let path = fix_scan_root(stored[i].path.as_str());
        let key = normalize_path_key(path.as_str());
        let ghost before = r@;
        let ghost entry = (stored@[i as int].id, path@);
        r.push(FixedRoot { id: stored[i].id, path, key });
        assert(fixed_views(r@) =~= fixed_views(before).push(entry));
        assert(stored_views(stored@).take(i + 1) =~= stored_views(stored@).take(i as int).push(
            entry,
        ));
        i += 1;
    }
    assert(stored_views(stored@).take(stored@.len() as int) =~= stored_views(stored@));
    r
}

fn root_goes(fixed: &Vec<FixedRoot>, wanted: &Vec<ScanRoot>, i: usize) -> (r: bool)
    requires
        i < fixed@.len(),
        keyed(wanted@),
        forall|k: int|
            0 <= k < fixed@.len() ==> (#[trigger] fixed@[k]).key@ == path_key(fixed@[k].path@),
    ensures
        r == goes(fixed_views(fixed@), root_paths(wanted@), i as int),
{
    let ghost views = fixed_views(fixed@);
    if fixed[i].path.as_str().is_empty() {
        return false;
    }
    if !find_key(wanted, fixed[i].key.as_str()) {
        return true;
    }
    let mut k: usize = 0;
    while k < i
        invariant
            k <= i < fixed@.len(),
            views == fixed_views(fixed@),
            forall|j: int|
                0 <= j < fixed@.len() ==> (#[trigger] fixed@[j]).key@ == path_key(fixed@[j].path@),
            forall|j: int|
                0 <= j < k && (#[trigger] views[j]).1.len() > 0 ==> path_key(views[j].1)
                    != path_key(views[i as int].1),
            views[i as int].1.len() > 0,
        decreases i - k,
    {
        if !fixed[k].path.as_str().is_empty() && same_text(
            fixed[k].key.as_str(),
            fixed[i].key.as_str(),
        ) {
            assert(views[k as int].1.len() > 0 && path_key(views[k as int].1) == path_key(
                views[i as int].1,
            ));
            return true;
        }
        k += 1;
    }
    false
}

/// The places of the stored roots that have to go, in order.
fn going_roots(fixed: &Vec<FixedRoot>, wanted: &Vec<ScanRoot>) -> (r: Vec<bool>)
    requires
        keyed(wanted@),
        forall|k: int|
            0 <= k < fixed@.len() ==> (#[trigger] fixed@[k]).key@ == path_key(fixed@[k].path@),
    ensures
        r@.len() == fixed@.len(),
        forall|k: int|
            0 <= k < r@.len() ==> #[trigger] r@[k] == goes(
                fixed_views(fixed@),
                root_paths(wanted@),
                k,
            ),
{
    let mut r: Vec<bool> = Vec::new();
    let mut i: usize = 0;
    while i < fixed.len()
        invariant
            i <= fixed@.len(),
            keyed(wanted@),
            forall|k: int|
                0 <= k < fixed@.len() ==> (#[trigger] fixed@[k]).key@ == path_key(fixed@[k].path@),
            r@.len() == i,
            forall|k: int|
                0 <= k < i ==> #[trigger] r@[k] == goes(
                    fixed_views(fixed@),
                    root_paths(wanted@),
                    k,
                ),
        decreases fixed@.len() - i,
    {
        r.push(root_goes(fixed, wanted, i));
        i += 1;
    }
    r
}

fn id_goes(fixed: &Vec<FixedRoot>, going: &Vec<bool>, wanted: Ghost<Seq<Seq<char>>>, id: i64) -> (r:
    bool)
    requires
        going@.len() == fixed@.len(),
        forall|k: int|
            0 <= k < going@.len() ==> #[trigger] going@[k] == goes(
                fixed_views(fixed@),
                wanted@,
                k,
            ),
    ensures
        r == goes_by_id(fixed_views(fixed@), wanted@, id),
{
    let ghost views = fixed_views(fixed@);
    let mut k: usize = 0;
    while k < fixed.len()
        invariant
            k <= fixed@.len(),
            going@.len() == fixed@.len(),
            views == fixed_views(fixed@),
            forall|j: int|
                0 <= j < going@.len() ==> #[trigger] going@[j] == goes(views, wanted@, j),
            forall|j: int|
                0 <= j < k ==> !((#[trigger] views[j]).0 == id && goes(views, wanted@, j)),
        decreases fixed@.len() - k,
    {
        if going[k] && fixed[k].id == id {
            assert(views[k as int].0 == id && goes(views, wanted@, k as int));
            return true;
        }
        k += 1;
    }
    false
}

/// What has to be done so that the database holds the roots to be covered: the
/// roots to remove, and a step for each root to be covered, in order.
pub struct RootPlan {
    pub remove: Vec<StoredRoot>,
    pub steps: Vec<RootStep>,
}

/// The numbers and paths of the stored roots that have to go, in order.
pub open spec fn removed_roots(
    stored: Seq<(i64, Seq<char>)>,
    wanted: Seq<Seq<char>>,
    n: int,
) -> Seq<(i64, Seq<char>)>
    decreases n,
{
    if n <= 0 {
        seq![]
    } else if goes(stored, wanted, n - 1) {
        removed_roots(stored, wanted, n - 1).push(stored[n - 1])
    } else {
        removed_roots(stored, wanted, n - 1)
    }
}

/// The numbers and paths of some roots.
pub open spec fn root_pairs(roots: Seq<StoredRoot>) -> Seq<(i64, Seq<char>)> {
    roots.map_values(|s: StoredRoot| (s.id, s.path@))
}

/// Plans what has to be done so that the database holds the roots to be covered.
pub fn music_db_sync_roots(wanted: &Vec<ScanRoot>, stored: &Vec<StoredRoot>) -> (r: RootPlan)
    requires
        keyed(wanted@),
    ensures
        root_pairs(r.remove@) == removed_roots(
            stored_views(stored@),
            root_paths(wanted@),
            stored@.len() as int,
        ),
        r.steps@.len() == wanted@.len(),
        forall|i: int|
            0 <= i < wanted@.len() ==> is_root_step(
                #[trigger] r.steps@[i],
                stored_views(stored@),
                root_paths(wanted@),
                wanted@[i].path@,
            ),
{
    let fixed = fix_stored(stored);
    let going = going_roots(&fixed, wanted);
    let ghost views = fixed_views(fixed@);
    let ghost paths = root_paths(wanted@);
    assert(fixed@.len() == views.len() && stored_views(stored@).len() == stored@.len());
    let mut remove: Vec<StoredRoot> = Vec::new();
    let mut i: usize = 0;
    assert(root_pairs(remove@) =~= removed_roots(views, paths, 0));
    while i < fixed.len()
        invariant
            i <= fixed@.len(),
            going@.len() == fixed@.len(),
            views == fixed_views(fixed@),
            forall|k: int| 0 <= k < going@.len() ==> #[trigger] going@[k] == goes(views, paths, k),
            root_pairs(remove@) == removed_roots(views, paths, i as int),
        decreases fixed@.len() - i,
    {
        if going[i] {
            let ghost before = remove@;
            remove.push(StoredRoot { id: fixed[i].id, path: fixed[i].path.clone() });
            assert(root_pairs(remove@) =~= root_pairs(before).push(views[i as int]));
        }
        i += 1;
    }
    let mut steps: Vec<RootStep> = Vec::new();
    let mut w: usize = 0;
    while w < wanted.len()
        invariant
            w <= wanted@.len(),
            keyed(wanted@),
            going@.len() == fixed@.len(),
            views == fixed_views(fixed@),
            paths == root_paths(wanted@),
            forall|k: int|
                0 <= k < fixed@.len() ==> (#[trigger] fixed@[k]).key@ == path_key(fixed@[k].path@),
            forall|k: int| 0 <= k < going@.len() ==> #[trigger] going@[k] == goes(views, paths, k),
            steps@.len() == w,
            forall|k: int|
                0 <= k < w ==> is_root_step(#[trigger] steps@[k], views, paths, wanted@[k].path@),
        decreases wanted@.len() - w,
    {
        let step = root_step(&fixed, &going, &wanted[w], Ghost(paths));
        steps.push(step);
        w += 1;
    }
    RootPlan { remove, steps }
}

fn root_step(
    fixed: &Vec<FixedRoot>,
    going: &Vec<bool>,
    root: &ScanRoot,
    Ghost(paths): Ghost<Seq<Seq<char>>>,
) -> (r: RootStep)
    requires
        root.key@ == path_key(root.path@),
        going@.len() == fixed@.len(),
        forall|k: int|
            0 <= k < fixed@.len() ==> (#[trigger] fixed@[k]).key@ == path_key(fixed@[k].path@),
        forall|k: int|
            0 <= k < going@.len() ==> #[trigger] going@[k] == goes(fixed_views(fixed@), paths, k),
    ensures
        is_root_step(r, fixed_views(fixed@), paths, root.path@),
{
    let ghost views = fixed_views(fixed@);
    let mut i: usize = 0;
    while i < fixed.len()
        invariant
            i <= fixed@.len(),
            root.key@ == path_key(root.path@),
            going@.len() == fixed@.len(),
            views == fixed_views(fixed@),
            forall|k: int|
                0 <= k < fixed@.len() ==> (#[trigger] fixed@[k]).key@ == path_key(fixed@[k].path@),
            forall|k: int| 0 <= k < going@.len() ==> #[trigger] going@[k] == goes(views, paths, k),
            forall|k: int| 0 <= k < i ==> !#[trigger] stands_for(views, paths, k, root.path@),
        decreases fixed@.len() - i,
    {
        let id: i64 = fixed[i].id;
        let gone: bool = id_goes(fixed, going, Ghost(paths), id);
        if !fixed[i].path.as_str().is_empty() && same_text(
            fixed[i].key.as_str(),
            root.key.as_str(),
        ) && !gone {
            assert(is_first_for(views, paths, i as int, root.path@));
            if same_text(fixed[i].path.as_str(), root.path.as_str()) {
                return RootStep::Keep(id);
            }
            return RootStep::Rename(id);
        }
        i += 1;
    }
    RootStep::Insert
}

/// A root that is kept is one that was not removed.
pub proof fn law_kept_roots_are_not_removed(
    stored: Seq<(i64, Seq<char>)>,
    wanted: Seq<Seq<char>>,
    root: Seq<char>,
    id: i64,
)
    requires
        is_root_step(RootStep::Keep(id), stored, wanted, root) || is_root_step(
            RootStep::Rename(id),
            stored,
            wanted,
            root,
        ),
    ensures
        !goes_by_id(stored, wanted, id),
{
}

/// A directory without the backslash at its end, a drive aside.
pub open spec fn dir_base(path: Seq<char>) -> Seq<char> {
    if path.len() > 0 && path.last() == '\\' && utf8_len(path) > 3 {
        path.drop_last()
    } else {
        path
    }
}

/// What the paths below a directory start with.
pub open spec fn dir_prefix(path: Seq<char>) -> Seq<char> {
    let base = dir_base(path);
    if base.len() > 0 && base.last() == '\\' {
        base
    } else {
        base.push('\\')
    }
}

/// A directory as it is stored, and what the paths below it start with.
pub fn dir_patterns(path: &str) -> (r: (String, String))
    ensures
        r.0@ == dir_base(path@),
        r.1@ == dir_prefix(path@),
{
    let mut chars = to_chars(path);
    if chars.len() > 0 && chars[chars.len() - 1] == '\\' && utf8_len_exceeds(&chars, 3) {
        chars.pop();
        assert(chars@ =~= path@.drop_last());
    }
    let base = from_chars(chars.as_slice());
    if chars.len() == 0 || chars[chars.len() - 1] != '\\' {
        chars.push('\\');
    }
    let prefix = from_chars(chars.as_slice());
    (base, prefix)
}

/// What a scan does with a file.
#[derive(Clone, Copy, PartialEq, Eq, Structural, Debug)]
pub enum ScanStep {
    /// The record is up to date.
    Skip,
    /// The record is up to date but belongs to another root.
    SkipAndMove,
    /// The file has to be read.
    Probe,
}

/// What is recorded of a file: its time, its size and its root.
#[derive(Clone, Copy, PartialEq, Eq, Structural, Debug)]
pub struct FileRecord {
    pub mtime: u64,
    pub size: u64,
    pub root_id: i64,
}

/// What a scan does with a file.
pub open spec fn scan_step_of(
    record: Option<FileRecord>,
    mtime: u64,
    size: u64,
    root_id: i64,
) -> ScanStep {
    match record {
        Some(known) => if known.mtime != mtime || known.size != size {
            ScanStep::Probe
        } else if root_id > 0 && known.root_id != root_id {
            ScanStep::SkipAndMove
        } else {
            ScanStep::Skip
        },
        None => ScanStep::Probe,
    }
}

/// Decides what a scan of the root `root_id` does with a file.
pub fn scan_step(record: Option<FileRecord>, mtime: u64, size: u64, root_id: i64) -> (r: ScanStep)
    ensures
        r == scan_step_of(record, mtime, size, root_id),
{
    match record {
        Some(known) => {
            if known.mtime != mtime || known.size != size {
                return ScanStep::Probe;
            }
            if root_id > 0 && known.root_id != root_id {
                return ScanStep::SkipAndMove;
            }
            ScanStep::Skip
        },
        None => ScanStep::Probe,
    }
}

/// A file that has been scanned and has not changed is skipped the next time.
pub proof fn law_unchanged_file_is_skipped(mtime: u64, size: u64, root_id: i64)
    ensures
        scan_step_of(Some(FileRecord { mtime, size, root_id }), mtime, size, root_id)
            == ScanStep::Skip,
{
}

/// A 64-bit number from its halves.
pub fn filesize_to_u64(high: u32, low: u32) -> (r: u64)
    ensures
        r == high * 0x1_0000_0000 + low,
{
    high as u64 * 0x1_0000_0000 + low as u64
}

/// A time stamp of the file system from its halves.
pub fn filetime_to_u64(high: u32, low: u32) -> (r: u64)
    ensures
        r == high * 0x1_0000_0000 + low,
{
    filesize_to_u64(high, low)
}

/// The key of the file `name` in `dir`; without either there is none.
pub fn song_key(dir: &str, name: &str) -> (r: Option<String>)
    ensures
        r is Some <==> dir@.len() > 0 && name@.len() > 0,
        r matches Some(key) ==> key@ == path_key(dir@.push('\\') + name@),
{
    if dir.is_empty() || name.is_empty() {
        return None;
    }
    let full = join_dir_name(dir, name);
    Some(normalize_path_key(full.as_str()))
}

/// A line of the settings sets what it names to what stands behind its sign, without the
/// space around both; a line without a value or with an unknown name sets nothing.
pub proof fn law_setting_is_what_its_line_says(s: Settings, value: Seq<char>, n: nat)
    requires
        n <= i32::MAX,
    ensures
        s.with("root_dir"@, value) == (Settings { root_dir: Some(value), ..s }),
        s.with("ffm_dir"@, value) == (Settings { ffm_dir: Some(value), ..s }),
        s.with("pl_db_path"@, value) == (Settings { pl_db_path: Some(value), ..s }),
        s.with("font_size"@, decimal(n)) == (Settings { font_size: Some(n as i32), ..s }),
        s.with("load_tray"@, decimal(n)) == (Settings { load_tray: Some(n != 0), ..s }),
        s.with("def_exclusive"@, decimal(n)) == (Settings { def_exclusive: Some(n != 0), ..s }),
        s.with("font_size"@, Seq::empty()) == s,
        s.with("colour"@, value) == s,
{
    law_digits_stand_for_their_number(n);
    reveal_strlit("root_dir");
    reveal_strlit("ffm_dir");
    reveal_strlit("pl_db_path");
    reveal_strlit("font_size");
    reveal_strlit("load_tray");
    reveal_strlit("def_exclusive");
    reveal_strlit("colour");
    assert("root_dir"@.len() == 8 && "ffm_dir"@.len() == 7 && "pl_db_path"@.len() == 10
        && "font_size"@.len() == 9 && "load_tray"@.len() == 9 && "def_exclusive"@.len() == 13
        && "colour"@.len() == 6);
    assert("font_size"@[0] == 'f' && "load_tray"@[0] == 'l');
}

/// A line is a name, a sign and a value; later lines are heard over earlier ones.
pub proof fn law_lines_are_heard_in_order(
    lines: Seq<Seq<char>>,
    name: Seq<char>,
    value: Seq<char>,
)
    requires
        name.len() > 0,
        value.len() > 0,
        !name.contains('='),
        trimmed(name) == name,
        trimmed(value) == value,
        trimmed(name + seq!['='] + value) == name + seq!['='] + value,
    ensures
        settings_of(Seq::empty()) == Settings::none(),
        settings_of(lines.push(name + seq!['='] + value)) == settings_of(lines).with(name, value),
        forall|line: Seq<char>|
            !trimmed(line).contains('=') ==> settings_of(#[trigger] lines.push(line))
                == settings_of(lines),
{
    let line = name + seq!['='] + value;
    assert(lines.push(line).drop_last() =~= lines);
    law_text_is_parted_at_the_first_place(line, seq!['=']);
    let n = name.len() as int;
    assert(line.subrange(n, n + 1) =~= seq!['=']);
    assert(occurs_at(line, seq!['='], n));
    let (a, b) = split_once_at(line, seq!['='])->0;
    assert(a.len() == n) by {
        if a.len() < n {
            assert((a + seq!['='] + b)[a.len() as int] == '=');
            assert(name[a.len() as int] == '=');
        }
    }
    assert(a =~= name) by {
        assert forall|i: int| 0 <= i < n implies a[i] == name[i] by {
            assert(line[i] == (a + seq!['='] + b)[i]);
        }
    }
    assert(b =~= value) by {
        assert forall|i: int| 0 <= i < b.len() implies b[i] == value[i] by {
            assert(line[n + 1 + i] == (a + seq!['='] + b)[n + 1 + i]);
        }
    }
    assert forall|other: Seq<char>| !trimmed(other).contains('=') implies settings_of(
        #[trigger] lines.push(other),
    ) == settings_of(lines) by {
        assert(lines.push(other).drop_last() =~= lines);
        let t = trimmed(other);
        law_text_is_parted_at_the_first_place(t, seq!['=']);
        if split_once_at(t, seq!['=']) is Some {
            let (x, y) = split_once_at(t, seq!['='])->0;
            assert((x + seq!['='] + y)[x.len() as int] == '=');
            assert(t[x.len() as int] == '=');
        }
    }
}

/// The scan roots are those that were named, tidied, in their order and each once.
pub proof fn law_named_roots_are_scanned(texts: Seq<Seq<char>>, i: int)
    requires
        0 <= i < texts.len(),
    ensures
        scan_root(texts[i]).len() > 0 ==> has_key(
            scan_roots_of(texts),
            path_key(scan_root(texts[i])),
        ),
        texts.len() == 1 && scan_root(texts[0]).len() > 0 ==> scan_roots_of(texts) == seq![
            scan_root(texts[0]),
        ],
    decreases texts.len(),
{
    let front = scan_roots_of(texts.drop_last());
    let all = scan_roots_of(texts);
    let key = path_key(scan_root(texts[i]));
    if i < texts.len() - 1 {
        law_named_roots_are_scanned(texts.drop_last(), i);
        if has_key(front, key) {
            let k = choose|k: int| 0 <= k < front.len() && path_key(#[trigger] front[k]) == key;
            assert(all[k] == front[k]);
        }
    } else if scan_root(texts[i]).len() > 0 {
        if !has_key(front, key) {
            assert(path_key(all[front.len() as int]) == key);
        }
    }
    if texts.len() == 1 {
        reveal_with_fuel(scan_roots_of, 2);
        assert(front =~= Seq::<Seq<char>>::empty());
        assert(front.push(scan_root(texts[0])) =~= seq![scan_root(texts[0])]);
    }
}

/// A stored root that is still wanted stays, under its first number; one that is not wanted
/// any more goes.
pub proof fn law_unwanted_roots_go(
    stored: Seq<(i64, Seq<char>)>,
    wanted: Seq<Seq<char>>,
    i: int,
)
    requires
        0 <= i < stored.len(),
        stored[i].1.len() > 0,
    ensures
        !has_key(wanted, path_key(stored[i].1)) ==> removed_roots(
            stored,
            wanted,
            stored.len() as int,
        ).contains(stored[i]),
        has_key(wanted, path_key(stored[i].1)) && (forall|k: int|
            0 <= k < stored.len() && k != i ==> (#[trigger] stored[k]).0 != stored[i].0
                && path_key(stored[k].1) != path_key(stored[i].1)) ==> !removed_roots(
            stored,
            wanted,
            stored.len() as int,
        ).contains(stored[i]),
{
    lemma_removed_roots(stored, wanted, stored.len() as int);
    let gone = removed_roots(stored, wanted, stored.len() as int);
    if !has_key(wanted, path_key(stored[i].1)) {
        assert(goes(stored, wanted, i));
    }
    if has_key(wanted, path_key(stored[i].1)) && (forall|k: int|
        0 <= k < stored.len() && k != i ==> (#[trigger] stored[k]).0 != stored[i].0 && path_key(
            stored[k].1,
        ) != path_key(stored[i].1)) {
        assert(stays(stored, wanted, i));
        if gone.contains(stored[i]) {
            let m = choose|m: int| 0 <= m < gone.len() && gone[m] == stored[i];
            assert(is_going(stored, wanted, stored.len() as int, gone[m]));
        }
    }
}

spec fn is_going(
    stored: Seq<(i64, Seq<char>)>,
    wanted: Seq<Seq<char>>,
    n: int,
    root: (i64, Seq<char>),
) -> bool {
    exists|k: int| 0 <= k < n && goes(stored, wanted, k) && #[trigger] stored[k] == root
}

proof fn lemma_removed_roots(stored: Seq<(i64, Seq<char>)>, wanted: Seq<Seq<char>>, n: int)
    requires
        0 <= n <= stored.len(),
    ensures
        forall|i: int|
            0 <= i < n && goes(stored, wanted, i) ==> removed_roots(stored, wanted, n).contains(
                #[trigger] stored[i],
            ),
        forall|m: int|
            0 <= m < removed_roots(stored, wanted, n).len() ==> is_going(
                stored,
                wanted,
                n,
                #[trigger] removed_roots(stored, wanted, n)[m],
            ),
    decreases n,
{
    if n > 0 {
        lemma_removed_roots(stored, wanted, n - 1);
        let front = removed_roots(stored, wanted, n - 1);
        let all = removed_roots(stored, wanted, n);
        assert forall|i: int| 0 <= i < n && goes(stored, wanted, i) implies all.contains(
            #[trigger] stored[i],
        ) by {
            if i < n - 1 {
                assert(front.contains(stored[i]));
                let m = choose|m: int| 0 <= m < front.len() && front[m] == stored[i];
                assert(all[m] == stored[i]);
            } else {
                assert(all[front.len() as int] == stored[i]);
            }
        }
        assert forall|m: int| 0 <= m < all.len() implies is_going(
            stored,
            wanted,
            n,
            #[trigger] all[m],
        ) by {
            if m < front.len() {
                assert(all[m] == front[m]);
                assert(is_going(stored, wanted, n - 1, front[m]));
            } else {
                assert(stored[n - 1] == all[m]);
            }
        }
    }
}

/// A file is looked into where it is new or has changed; one that is known is only moved
/// where it stands below another root.
pub proof fn law_changed_file_is_looked_into(
    record: FileRecord,
    mtime: u64,
    size: u64,
    root_id: i64,
)
    ensures
        scan_step_of(None, mtime, size, root_id) == ScanStep::Probe,
        record.mtime != mtime || record.size != size ==> scan_step_of(
            Some(record),
            mtime,
            size,
            root_id,
        ) == ScanStep::Probe,
        record.mtime == mtime && record.size == size && root_id > 0 && record.root_id != root_id
            ==> scan_step_of(Some(record), mtime, size, root_id) == ScanStep::SkipAndMove,
        record.mtime == mtime && record.size == size && (root_id <= 0 || record.root_id == root_id)
            ==> scan_step_of(Some(record), mtime, size, root_id) == ScanStep::Skip,
{
}

/// What is below a directory starts with the directory and one backslash.
pub proof fn law_prefix_of_a_directory(path: Seq<char>)
    requires
        path.len() > 3,
    ensures
        path.last() != '\\' ==> dir_base(path) == path && dir_prefix(path) == path.push('\\'),
        path.last() == '\\' && path[path.len() - 2] != '\\' ==> dir_prefix(path) == path && dir_base(
            path,
        ) == path.drop_last(),
{
    lemma_utf8_len_bounds(path);
    if path.last() == '\\' {
        assert(path.drop_last().push('\\') =~= path);
    }
}

/// What becomes of a wanted root: it is made where no stored root stands for it that stays;
/// else that one is kept, and renamed where it is written otherwise.
pub proof fn law_wanted_root_is_kept_or_made(
    stored: Seq<(i64, Seq<char>)>,
    wanted: Seq<Seq<char>>,
    root: Seq<char>,
    step: RootStep,
    i: int,
)
    requires
        is_root_step(step, stored, wanted, root),
        0 <= i < stored.len(),
    ensures
        step is Insert && stored[i].1.len() > 0 && path_key(stored[i].1) == path_key(root)
            ==> goes_by_id(stored, wanted, stored[i].0),
        step matches RootStep::Keep(id) ==> exists|k: int|
            0 <= k < stored.len() && (#[trigger] stored[k]) == (id, root),
        step matches RootStep::Rename(id) ==> exists|k: int|
            0 <= k < stored.len() && (#[trigger] stored[k]).0 == id && path_key(stored[k].1)
                == path_key(root) && stored[k].1 != root,
{
    if step is Insert {
        assert(!stands_for(stored, wanted, i, root));
    }
}

} // verus!
