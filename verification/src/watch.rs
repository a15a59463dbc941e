//! Watching the library's directories: what the system reports, what waits to be
//! scanned, and when it is tried again.

use crate::path::{normalize_path_key, path_key};
use crate::pcm::{le_value, pow256, read_le};
use crate::song::{is_media_ext, is_supported_media_ext, text_views};
use crate::text::{
    last_place, lemma_last_place, lower, occurs_at, rfind, same_text, slice_text, starts_with,
    to_chars, to_lower,
};
use crate::utf16::{decode_lossy, decoded};
use vstd::prelude::*;

verus! {

/// The kinds of changes that the system reports.
pub const FILE_ACTION_ADDED: u32 = 1;

pub const FILE_ACTION_REMOVED: u32 = 2;

pub const FILE_ACTION_MODIFIED: u32 = 3;

pub const FILE_ACTION_RENAMED_OLD_NAME: u32 = 4;

pub const FILE_ACTION_RENAMED_NEW_NAME: u32 = 5;

/// How long a change is left to settle.
pub const DEBOUNCE_MS: u64 = 250;

/// How long after a failure a file is tried again.
pub const RETRY_DELAY_MS: u64 = 250;

/// How often a file is tried again.
pub const RETRY_LIMIT: u8 = 12;

/// The time-out that stands for none.
pub const NO_TIMEOUT: u32 = 0xFFFF_FFFF;

/// A path that waits to be scanned.
pub struct PendingScan {
    pub key: String,
    pub full_path: String,
    pub root_id: i64,
    pub last_action: u32,
    pub due_tick: u64,
    pub retries: u8,
}

/// A path that waits to be scanned, with its texts taken by view.
pub struct Pending {
    pub key: Seq<char>,
    pub full_path: Seq<char>,
    pub root_id: i64,
    pub last_action: u32,
    pub due_tick: u64,
    pub retries: u8,
}

impl View for PendingScan {
    type V = Pending;

    open spec fn view(&self) -> Pending {
        Pending {
            key: self.key@,
            full_path: self.full_path@,
            root_id: self.root_id,
            last_action: self.last_action,
            due_tick: self.due_tick,
            retries: self.retries,
        }
    }
}

/// The views of what waits.
pub open spec fn pending_views(entries: Seq<PendingScan>) -> Seq<Pending> {
    entries.map_values(|p: PendingScan| p@)
}

/// The place of the entry with a key, or the length.
pub open spec fn place_of_key(entries: Seq<Pending>, key: Seq<char>) -> int
    decreases entries.len(),
{
    if entries.len() == 0 {
        0
    } else if entries[0].key == key {
        0
    } else {
        1 + place_of_key(entries.drop_first(), key)
    }
}

/// No two entries have one key.
pub open spec fn distinct_keys(entries: Seq<Pending>) -> bool {
    forall|i: int, j: int|
        0 <= i < j < entries.len() ==> (#[trigger] entries[i]).key != (#[trigger] entries[j]).key
}

/// The action that stays of two: that a file is new outlasts any later change.
pub open spec fn merged_action(prev: u32, new_action: u32) -> u32 {
    if prev == FILE_ACTION_ADDED || prev == FILE_ACTION_RENAMED_NEW_NAME {
        prev
    } else {
        new_action
    }
}

/// The action that stays of two.
pub fn merge_watch_action(prev: u32, new_action: u32) -> (r: u32)
    ensures
        r == merged_action(prev, new_action),
{
    if prev == FILE_ACTION_ADDED || prev == FILE_ACTION_RENAMED_NEW_NAME {
        prev
    } else {
        new_action
    }
}

/// The entries after a change: the entry of the path starts to wait anew.
pub open spec fn with_change(
    entries: Seq<Pending>,
    full_path: Seq<char>,
    root_id: i64,
    action: u32,
    due_tick: u64,
) -> Seq<Pending> {
    let key = path_key(full_path);
    let at = place_of_key(entries, key);
    if at < entries.len() {
        entries.update(
            at,
            Pending {
                full_path,
                root_id,
                last_action: merged_action(entries[at].last_action, action),
                due_tick,
                ..entries[at]
            },
        )
    } else {
        entries.push(
            Pending { key, full_path, root_id, last_action: action, due_tick, retries: 0 },
        )
    }
}

/// Whether an entry is of a path or of something below it.
pub open spec fn is_at_or_below(entry: Pending, key: Seq<char>) -> bool {
    entry.key == key || occurs_at(entry.key, key.push('\\'), 0)
}

/// The entries after a path has gone.
pub open spec fn without_path(entries: Seq<Pending>, full_path: Seq<char>) -> Seq<Pending> {
    entries.filter(|p: Pending| !is_at_or_below(p, path_key(full_path)))
}

/// What follows the last dot of a name, in lower case.
pub open spec fn ending_of(name: Seq<char>) -> Seq<char> {
    let dot = last_place(name, '.');
    if dot < 0 {
        Seq::empty()
    } else {
        lower(name.skip(dot + 1))
    }
}

/// What follows the last dot of a name, in lower case.
pub fn lower_ending(name: &str) -> (r: String)
    ensures
        r@ == ending_of(name@),
{
    let chars = to_chars(name);
    let n: usize = chars.len();
    proof {
        lemma_last_place(name@, '.');
    }
    match rfind(&chars, '.') {
        Some(dot) => {
            let tail = slice_text(&chars, dot + 1, n);
            assert(tail@ =~= name@.skip(dot + 1));
            to_lower(tail.as_str())
        },
        None => String::new(),
    }
}

/// What a report means.
#[derive(Clone, Copy, PartialEq, Eq, Structural, Debug)]
pub enum ReportStep {
    /// The path is scanned once it has settled.
    Queue,
    /// The path and what was below it have gone.
    Remove,
    Ignore,
}

/// What a report means. Directories change whenever something in them does, so
/// a mere modification counts for media files only.
pub open spec fn report_step_of(action: u32, name: Seq<char>) -> ReportStep {
    if action == FILE_ACTION_ADDED || action == FILE_ACTION_RENAMED_NEW_NAME || (action
        == FILE_ACTION_MODIFIED && is_media_ext(ending_of(name))) {
        ReportStep::Queue
    } else if action == FILE_ACTION_REMOVED || action == FILE_ACTION_RENAMED_OLD_NAME {
        ReportStep::Remove
    } else {
        ReportStep::Ignore
    }
}

/// What a report means.
pub fn report_step(action: u32, name: &str) -> (r: ReportStep)
    ensures
        r == report_step_of(action, name@),
{
    if action == FILE_ACTION_ADDED || action == FILE_ACTION_RENAMED_NEW_NAME {
        return ReportStep::Queue;
    }
    if action == FILE_ACTION_MODIFIED {
        let ext = lower_ending(name);
        if is_supported_media_ext(ext.as_str()) {
            return ReportStep::Queue;
        }
        return ReportStep::Ignore;
    }
    if action == FILE_ACTION_REMOVED || action == FILE_ACTION_RENAMED_OLD_NAME {
        return ReportStep::Remove;
    }
    ReportStep::Ignore
}

/// What is done with an entry whose time has come.
#[derive(Clone, Copy, PartialEq, Eq, Structural, Debug)]
pub enum DueStep {
    /// The path is not there yet: it waits again.
    Retry,
    /// The path is still not there: it is dropped.
    GiveUp,
    ScanDirectory,
    ScanFile,
    Ignore,
}

/// What a path is on disk.
#[derive(Clone, Copy, PartialEq, Eq, Structural, Debug)]
pub enum OnDisk {
    Missing,
    Directory,
    File,
}

/// What is done with an entry whose time has come.
pub open spec fn due_step_of(p: Pending, on_disk: OnDisk) -> DueStep {
    match on_disk {
        OnDisk::Missing => if p.retries < RETRY_LIMIT {
            DueStep::Retry
        } else {
            DueStep::GiveUp
        },
        OnDisk::Directory => if p.last_action != FILE_ACTION_MODIFIED {
            DueStep::ScanDirectory
        } else {
            DueStep::Ignore
        },
        OnDisk::File => if is_media_ext(ending_of(p.full_path)) {
            DueStep::ScanFile
        } else {
            DueStep::Ignore
        },
    }
}

/// The entry when it has failed and waits again.
pub open spec fn retried(p: Pending, now: u64) -> Pending {
    Pending {
        retries: (p.retries + 1) as u8,
        due_tick: (now + RETRY_DELAY_MS) as u64,
        ..p
    }
}

impl PendingScan {
    /// Decides what is done with an entry whose time has come.
    pub fn due_step(&self, on_disk: OnDisk) -> (r: DueStep)
        ensures
            r == due_step_of(self@, on_disk),
    {
        match on_disk {
            OnDisk::Missing => if self.retries < RETRY_LIMIT {
                DueStep::Retry
            } else {
                DueStep::GiveUp
            },
            OnDisk::Directory => if self.last_action != FILE_ACTION_MODIFIED {
                DueStep::ScanDirectory
            } else {
                DueStep::Ignore
            },
            OnDisk::File => {
                let ext = lower_ending(self.full_path.as_str());
                if is_supported_media_ext(ext.as_str()) {
                    DueStep::ScanFile
                } else {
                    DueStep::Ignore
                }
            },
        }
    }
}

/// The earliest time among some entries.
pub open spec fn earliest(entries: Seq<Pending>) -> Option<u64>
    decreases entries.len(),
{
    if entries.len() == 0 {
        None
    } else {
        match earliest(entries.drop_last()) {
            Some(t) => if entries.last().due_tick < t {
                Some(entries.last().due_tick)
            } else {
                Some(t)
            },
            None => Some(entries.last().due_tick),
        }
    }
}

/// How long to wait for reports before the next entry is due.
pub open spec fn timeout_of(entries: Seq<Pending>, now: u64) -> u32 {
    match earliest(entries) {
        None => NO_TIMEOUT,
        Some(due) => if due <= now {
            0
        } else if due - now > NO_TIMEOUT {
            NO_TIMEOUT
        } else {
            (due - now) as u32
        },
    }
}

/// The paths that wait to be scanned.
pub struct Watcher {
    pub pending: Vec<PendingScan>,
}

impl Watcher {
    /// What waits.
    pub open spec fn waiting(self) -> Seq<Pending> {
        pending_views(self.pending@)
    }

    /// No path waits twice.
    pub open spec fn wf(self) -> bool {
        distinct_keys(self.waiting())
    }

    /// Nothing waits yet.
    pub fn new() -> (r: Watcher)
        ensures
            r.waiting() == Seq::<Pending>::empty(),
            r.wf(),
    {
        let r = Watcher { pending: Vec::new() };
        assert(r.waiting() =~= Seq::<Pending>::empty());
        r
    }

    fn find(&self, key: &str) -> (r: usize)
        ensures
            r == place_of_key(self.waiting(), key@),
            r <= self.pending@.len(),
            r < self.pending@.len() ==> self.waiting()[r as int].key == key@,
            forall|i: int| 0 <= i < r ==> (#[trigger] self.waiting()[i]).key != key@,
    {
        let ghost all = self.waiting();
        let mut i: usize = 0;
        assert(all.skip(0) =~= all);
        while i < self.pending.len()
            invariant
                i <= self.pending@.len(),
                all == self.waiting(),
                place_of_key(all, key@) == i + place_of_key(all.skip(i as int), key@),
                forall|k: int| 0 <= k < i ==> (#[trigger] all[k]).key != key@,
            decreases self.pending@.len() - i,
        {
            assert(all.skip(i as int)[0] == all[i as int]);
            assert(all.skip(i as int).drop_first() =~= all.skip(i + 1));
            if same_text(self.pending[i].key.as_str(), key) {
                return i;
            }
            i += 1;
        }
        i
    }

    /// A path has changed: it is scanned once it has settled.
    pub fn queue(&mut self, full_path: String, root_id: i64, action: u32, now: u64)
        requires
            old(self).wf(),
            now + DEBOUNCE_MS <= u64::MAX,
        ensures
            final(self).wf(),
            final(self).waiting() == with_change(
                old(self).waiting(),
                full_path@,
                root_id,
                action,
                (now + DEBOUNCE_MS) as u64,
            ),
    {
        let key = normalize_path_key(full_path.as_str());
        let due_tick: u64 = now + DEBOUNCE_MS;
        let ghost before = self.waiting();
        let ghost path = full_path@;
        let i: usize = self.find(key.as_str());
        if i < self.pending.len() {
            let last_action: u32 = merge_watch_action(self.pending[i].last_action, action);
            let retries: u8 = self.pending[i].retries;
            let entry = PendingScan { key, full_path, root_id, last_action, due_tick, retries };
            let ghost view = entry@;
            self.pending.set(i, entry);
            assert(self.waiting() =~= before.update(i as int, view));
        } else {
            let entry = PendingScan {
                key,
                full_path,
                root_id,
                last_action: action,
                due_tick,
                retries: 0,
            };
            let ghost view = entry@;
            self.pending.push(entry);
            assert(self.waiting() =~= before.push(view));
        }
    }

    /// A path has gone: neither it nor anything below it waits any more.
    pub fn forget(&mut self, full_path: &str)
        requires
            old(self).wf(),
        ensures
            final(self).wf(),
            final(self).waiting() == without_path(old(self).waiting(), full_path@),
    {
        let key = normalize_path_key(full_path);
        let mut below = key.clone();
        below.push('\\');
        let ghost all = self.waiting();
        let ghost keep = |p: Pending| !is_at_or_below(p, key@);
        let mut kept: Vec<PendingScan> = Vec::new();
        let mut rest: Vec<PendingScan> = Vec::new();
        rest.append(&mut self.pending);
        let ghost mut done: int = 0;
        assert(pending_views(rest@) =~= all.skip(0));
        assert(pending_views(kept@) =~= all.take(0).filter(keep)) by {
            reveal(Seq::filter);
        }
        while rest.len() > 0
            invariant
                0 <= done <= all.len(),
                below@ == key@.push('\\'),
                keep == (|p: Pending| !is_at_or_below(p, key@)),
                pending_views(rest@) == all.skip(done),
                pending_views(kept@) == all.take(done).filter(keep),
                self.pending@.len() == 0,
            decreases rest@.len(),
        {
            let ghost before = rest@;
            let p = rest.remove(0);
            proof {
                assert(pending_views(before) == all.skip(done));
                assert(pending_views(before).len() == before.len());
                assert(p@ == all.skip(done)[0]);
                assert(p@ == all[done]);
                assert(pending_views(rest@) =~= pending_views(before).drop_first());
                assert(all.skip(done).drop_first() =~= all.skip(done + 1));
                lemma_filter_step(all, keep, done);
            }
            let gone: bool = same_text(p.key.as_str(), key.as_str()) || starts_with(
                p.key.as_str(),
                below.as_str(),
            );
            if !gone {
                let ghost kept_before = kept@;
                let ghost view = p@;
                kept.push(p);
                assert(pending_views(kept@) =~= pending_views(kept_before).push(view));
            }
            proof {
                done = done + 1;
            }
        }
        proof {
            assert(all.skip(done).len() == 0);
            assert(all.take(done) =~= all);
            lemma_filter_keeps_distinct(all, keep);
        }
        self.pending = kept;
    }

    /// How long to wait for reports before the next entry is due.
    pub fn timeout_ms(&self, now: u64) -> (r: u32)
        ensures
            r == timeout_of(self.waiting(), now),
    {
        let ghost all = self.waiting();
        let mut next: Option<u64> = None;
        let mut i: usize = 0;
        while i < self.pending.len()
            invariant
                i <= self.pending@.len(),
                all == self.waiting(),
                next == earliest(all.take(i as int)),
            decreases self.pending@.len() - i,
        {
            assert(all.take(i + 1).drop_last() =~= all.take(i as int));
            assert(all.take(i + 1).last() == self.pending@[i as int]@);
            let due: u64 = self.pending[i].due_tick;
            next = match next {
                Some(t) => if due < t {
                    Some(due)
                } else {
                    Some(t)
                },
                None => Some(due),
            };
            i += 1;
        }
        assert(all.take(self.pending@.len() as int) =~= all);
        match next {
            None => NO_TIMEOUT,
            Some(due) => if due <= now {
                0
            } else if due - now > NO_TIMEOUT as u64 {
                NO_TIMEOUT
            } else {
                (due - now) as u32
            },
        }
    }

    /// Takes out the entries whose time has come.
    pub fn take_due(&mut self, now: u64) -> (r: Vec<PendingScan>)
        requires
            old(self).wf(),
        ensures
            final(self).wf(),
            final(self).waiting() == old(self).waiting().filter(|p: Pending| p.due_tick > now),
            pending_views(r@) == old(self).waiting().filter(|p: Pending| p.due_tick <= now),
    {
        let ghost all = self.waiting();
        let ghost later = |p: Pending| p.due_tick > now;
        let ghost due = |p: Pending| p.due_tick <= now;
        let mut kept: Vec<PendingScan> = Vec::new();
        let mut taken: Vec<PendingScan> = Vec::new();
        let mut rest: Vec<PendingScan> = Vec::new();
        rest.append(&mut self.pending);
        let ghost mut done: int = 0;
        assert(pending_views(rest@) =~= all.skip(0));
        assert(pending_views(kept@) =~= all.take(0).filter(later)) by {
            reveal(Seq::filter);
        }
        assert(pending_views(taken@) =~= all.take(0).filter(due)) by {
            reveal(Seq::filter);
        }
        while rest.len() > 0
            invariant
                0 <= done <= all.len(),
                later == (|p: Pending| p.due_tick > now),
                due == (|p: Pending| p.due_tick <= now),
                pending_views(rest@) == all.skip(done),
                pending_views(kept@) == all.take(done).filter(later),
                pending_views(taken@) == all.take(done).filter(due),
                self.pending@.len() == 0,
            decreases rest@.len(),
        {
            let ghost before = rest@;
            let p = rest.remove(0);
            proof {
                assert(pending_views(before) == all.skip(done));
                assert(pending_views(before).len() == before.len());
                assert(p@ == all.skip(done)[0]);
                assert(p@ == all[done]);
                assert(pending_views(rest@) =~= pending_views(before).drop_first());
                assert(all.skip(done).drop_first() =~= all.skip(done + 1));
                lemma_filter_step(all, later, done);
                lemma_filter_step(all, due, done);
            }
            let ghost view = p@;
            if p.due_tick <= now {
                let ghost taken_before = taken@;
                taken.push(p);
                assert(pending_views(taken@) =~= pending_views(taken_before).push(view));
            } else {
                let ghost kept_before = kept@;
                kept.push(p);
                assert(pending_views(kept@) =~= pending_views(kept_before).push(view));
            }
            proof {
                done = done + 1;
            }
        }
        proof {
            assert(all.skip(done).len() == 0);
            assert(all.take(done) =~= all);
            lemma_filter_keeps_distinct(all, later);
        }
        self.pending = kept;
        taken
    }

    /// An entry that was taken out has failed: it waits again, in place of any
    /// entry of the same path.
    pub fn retry(&mut self, p: PendingScan, now: u64)
        requires
            old(self).wf(),
            now + RETRY_DELAY_MS <= u64::MAX,
            p.retries < RETRY_LIMIT,
        ensures
            final(self).wf(),
            ({
                let all = old(self).waiting();
                let at = place_of_key(all, p@.key);
                final(self).waiting() == if at < all.len() {
                    all.update(at, retried(p@, now))
                } else {
                    all.push(retried(p@, now))
                }
            }),
    {
        let ghost before = self.waiting();
        let ghost view = retried(p@, now);
        let i: usize = self.find(p.key.as_str());
        let mut entry = p;
        entry.retries = entry.retries + 1;
        entry.due_tick = now + RETRY_DELAY_MS;
        assert(entry@ == view);
        if i < self.pending.len() {
            self.pending.set(i, entry);
            assert(self.waiting() =~= before.update(i as int, view));
        } else {
            self.pending.push(entry);
            assert(self.waiting() =~= before.push(view));
        }
    }
}

proof fn lemma_filter_step(s: Seq<Pending>, keep: spec_fn(Pending) -> bool, i: int)
    requires
        0 <= i < s.len(),
    ensures
        s.take(i + 1).filter(keep) == (if keep(s[i]) {
            s.take(i).filter(keep).push(s[i])
        } else {
            s.take(i).filter(keep)
        }),
{
    reveal(Seq::filter);
    assert(s.take(i + 1).drop_last() =~= s.take(i));
    assert(s.take(i + 1).last() == s[i]);
}

/// What passes a filter stood in the list that was filtered.
proof fn lemma_filter_members(s: Seq<Pending>, keep: spec_fn(Pending) -> bool, i: int)
    requires
        0 <= i < s.filter(keep).len(),
    ensures
        keep(s.filter(keep)[i]),
        exists|k: int| 0 <= k < s.len() && s[k] == s.filter(keep)[i],
    decreases s.len(),
{
    reveal(Seq::filter);
    if s.len() > 0 {
        let front = s.drop_last();
        if i < front.filter(keep).len() {
            lemma_filter_members(front, keep, i);
            let k = choose|k: int| 0 <= k < front.len() && front[k] == front.filter(keep)[i];
            assert(s[k] == s.filter(keep)[i]);
        } else {
            assert(s[s.len() - 1] == s.filter(keep)[i]);
        }
    }
}

proof fn lemma_filter_keeps_distinct(s: Seq<Pending>, keep: spec_fn(Pending) -> bool)
    requires
        distinct_keys(s),
    ensures
        distinct_keys(s.filter(keep)),
    decreases s.len(),
{
    reveal(Seq::filter);
    if s.len() > 0 {
        let front = s.drop_last();
        lemma_filter_keeps_distinct(front, keep);
        let f = s.filter(keep);
        assert forall|i: int, j: int| 0 <= i < j < f.len() implies (#[trigger] f[i]).key != (
        #[trigger] f[j]).key by {
            if j == front.filter(keep).len() {
                lemma_filter_members(front, keep, i);
                let k = choose|k: int| 0 <= k < front.len() && front[k] == front.filter(keep)[i];
                assert(s[k].key != s[s.len() - 1].key);
            }
        }
    }
}

/// A path that has gone is not scanned, whatever was reported of it before.
pub proof fn law_removed_path_does_not_wait(entries: Seq<Pending>, full_path: Seq<char>, i: int)
    requires
        0 <= i < without_path(entries, full_path).len(),
    ensures
        without_path(entries, full_path)[i].key != path_key(full_path),
        !occurs_at(without_path(entries, full_path)[i].key, path_key(full_path).push('\\'), 0),
{
    lemma_filter_members(entries, |p: Pending| !is_at_or_below(p, path_key(full_path)), i);
}

/// That a file is new is not forgotten when it changes before it is scanned.
pub proof fn law_new_file_stays_new(prev: u32, later: u32)
    requires
        prev == FILE_ACTION_ADDED || prev == FILE_ACTION_RENAMED_NEW_NAME,
    ensures
        merged_action(prev, later) == prev,
{
}

/// A path is tried at most so often and no more: each retry counts.
pub proof fn law_retries_are_bounded(p: Pending, now: u64)
    requires
        due_step_of(p, OnDisk::Missing) == DueStep::Retry,
    ensures
        p.retries < retried(p, now).retries <= RETRY_LIMIT,
{
}

/// What the system reports: the kind of a change and the name it happened to,
/// as code units.
pub struct Report {
    pub action: u32,
    pub name: Vec<u16>,
}

/// A report with its name taken by view.
pub struct ReportView {
    pub action: u32,
    pub name: Seq<u16>,
}

impl View for Report {
    type V = ReportView;

    open spec fn view(&self) -> ReportView {
        ReportView { action: self.action, name: self.name@ }
    }
}

/// The units of a name whose first byte stands at `at`.
pub open spec fn name_units(buf: Seq<u8>, at: int, count: nat) -> Seq<u16> {
    Seq::new(count, |k: int| le_value(buf, at + 2 * k, 2) as u16)
}

/// The units of the name of the report at `pos`.
pub open spec fn name_count(buf: Seq<u8>, pos: int) -> int {
    le_value(buf, pos + 8, 4) / 2
}

/// Whether a whole report stands at `pos`: the distance to the next one, the
/// action, the length of the name in bytes, and the name.
pub open spec fn report_fits(buf: Seq<u8>, pos: int) -> bool {
    0 <= pos && pos + 12 <= buf.len() && pos + 12 + 2 * name_count(buf, pos) <= buf.len()
}

/// The report at `pos`.
pub open spec fn report_at(buf: Seq<u8>, pos: int) -> ReportView {
    ReportView {
        action: le_value(buf, pos + 4, 4) as u32,
        name: name_units(buf, pos + 12, name_count(buf, pos) as nat),
    }
}

/// The reports from `pos` on, each telling where the next one stands; `None`
/// where one does not fit.
pub open spec fn reports_from(buf: Seq<u8>, pos: int) -> Option<Seq<ReportView>>
    decreases buf.len() - pos,
{
    if !report_fits(buf, pos) {
        None
    } else {
        let next = le_value(buf, pos, 4);
        if next <= 0 {
            Some(seq![report_at(buf, pos)])
        } else if pos + next > buf.len() {
            None
        } else {
            match reports_from(buf, pos + next) {
                Some(rest) => Some(seq![report_at(buf, pos)] + rest),
                None => None,
            }
        }
    }
}

/// The views of some reports.
pub open spec fn report_views(reports: Seq<Report>) -> Seq<ReportView> {
    reports.map_values(|r: Report| r@)
}

fn read_u32(buf: &[u8], at: usize) -> (r: u32)
    requires
        at + 4 <= buf@.len(),
    ensures
        r == le_value(buf@, at as int, 4),
{
    let v: u64 = read_le(buf, at, 4);
    proof {
        reveal_with_fuel(pow256, 5);
    }
    v as u32
}

fn read_name(buf: &[u8], at: usize, count: usize) -> (r: Vec<u16>)
    requires
        at + 2 * count <= buf@.len(),
    ensures
        r@ == name_units(buf@, at as int, count as nat),
{
    let mut r: Vec<u16> = Vec::new();
    let mut k: usize = 0;
    let n: usize = buf.len();
    while k < count
        invariant
            n == buf@.len(),
            at + 2 * count <= n,
            k <= count,
            r@ == name_units(buf@, at as int, k as nat),
        decreases count - k,
    {
        let v: u64 = read_le(buf, at + 2 * k, 2);
        proof {
            reveal_with_fuel(pow256, 3);
        }
        r.push(v as u16);
        k += 1;
        assert(r@ =~= name_units(buf@, at as int, k as nat));
    }
    r
}

/// The reports in a buffer that the system has filled; `None` where a report
/// does not fit into it.
pub fn parse_reports(buf: &[u8]) -> (r: Option<Vec<Report>>)
    ensures
        r is Some <==> reports_from(buf@, 0) is Some,
        r matches Some(reports) ==> Some(report_views(reports@)) == reports_from(buf@, 0),
{
    let n: usize = buf.len();
    let mut out: Vec<Report> = Vec::new();
    let mut pos: usize = 0;
    let ghost whole = reports_from(buf@, 0);
    loop
        invariant
            n == buf@.len(),
            whole == reports_from(buf@, 0),
            match reports_from(buf@, pos as int) {
                Some(rest) => whole is Some && whole->0 =~= report_views(out@) + rest,
                None => whole is None,
            },
        decreases (if pos <= n {
            n + 1 - pos
        } else {
            0
        }),
    {
        if pos > n || n - pos < 12 {
            return None;
        }
        let next: u32 = read_u32(buf, pos);
        let action: u32 = read_u32(buf, pos + 4);
        let count: usize = (read_u32(buf, pos + 8) / 2) as usize;
        if count > (n - pos - 12) / 2 {
            return None;
        }
        let name = read_name(buf, pos + 12, count);
        let ghost before = report_views(out@);
        let ghost here = report_at(buf@, pos as int);
        let report = Report { action, name };
        assert(report@.name =~= here.name);
        out.push(report);
        assert(report_views(out@) =~= before.push(here));
        if next == 0 {
            assert(report_views(out@) =~= before + seq![here]);
            return Some(out);
        }
        proof {
            match reports_from(buf@, pos + next) {
                Some(rest) => {
                    assert(before + (seq![here] + rest) =~= before.push(here) + rest);
                },
                None => {},
            }
        }
        if next as usize > n - pos {
            assert(!report_fits(buf@, pos + next));
            return None;
        }
        pos = pos + next as usize;
    }
}

/// The path that a report is about, below the directory that is watched.
pub open spec fn reported_path(scan_root: Seq<char>, report: ReportView) -> Seq<char> {
    scan_root.push('\\') + decoded(report.name)
}

/// What waits after a report.
pub open spec fn after_report(
    entries: Seq<Pending>,
    scan_root: Seq<char>,
    root_id: i64,
    report: ReportView,
    now: u64,
) -> Seq<Pending> {
    let path = reported_path(scan_root, report);
    match report_step_of(report.action, decoded(report.name)) {
        ReportStep::Queue => with_change(
            entries,
            path,
            root_id,
            report.action,
            (now + DEBOUNCE_MS) as u64,
        ),
        ReportStep::Remove => without_path(entries, path),
        ReportStep::Ignore => entries,
    }
}

/// The path whose records go after a report; `None` where none do.
pub open spec fn removed_by(scan_root: Seq<char>, report: ReportView) -> Option<Seq<char>> {
    if report_step_of(report.action, decoded(report.name)) == ReportStep::Remove {
        Some(reported_path(scan_root, report))
    } else {
        None
    }
}

/// What waits after some reports, taken in their order.
pub open spec fn after_reports(
    entries: Seq<Pending>,
    scan_root: Seq<char>,
    root_id: i64,
    reports: Seq<ReportView>,
    now: u64,
) -> Seq<Pending>
    decreases reports.len(),
{
    if reports.len() == 0 {
        entries
    } else {
        after_report(
            after_reports(entries, scan_root, root_id, reports.drop_last(), now),
            scan_root,
            root_id,
            reports.last(),
            now,
        )
    }
}

/// The paths whose records go after some reports, in their order.
pub open spec fn all_removed(scan_root: Seq<char>, reports: Seq<ReportView>) -> Seq<Seq<char>>
    decreases reports.len(),
{
    if reports.len() == 0 {
        seq![]
    } else {
        let front = all_removed(scan_root, reports.drop_last());
        match removed_by(scan_root, reports.last()) {
            Some(path) => front.push(path),
            None => front,
        }
    }
}

impl Watcher {
    /// Takes a report about the directory `scan_root`. The result is the path whose
    /// records go.
    pub fn take_report(
        &mut self,
        scan_root: &str,
        root_id: i64,
        report: &Report,
        now: u64,
    ) -> (r: Option<String>)
        requires
            old(self).wf(),
            now + DEBOUNCE_MS <= u64::MAX,
        ensures
            final(self).wf(),
            final(self).waiting() == after_report(
                old(self).waiting(),
                scan_root@,
                root_id,
                report@,
                now,
            ),
            r is Some <==> removed_by(scan_root@, report@) is Some,
            r matches Some(path) ==> removed_by(scan_root@, report@) == Some(path@),
    {
        let name = decode_lossy(report.name.as_slice());
        let mut path: String = scan_root.to_owned();
        path.push('\\');
        path.append(name.as_str());
        match report_step(report.action, name.as_str()) {
            ReportStep::Queue => {
                self.queue(path, root_id, report.action, now);
                None
            },
            ReportStep::Remove => {
                self.forget(path.as_str());
                Some(path)
            },
            ReportStep::Ignore => None,
        }
    }

    /// Takes what the system wrote about the directory `scan_root`, in its order. The
    /// result holds the paths whose records go; `None` where the bytes are no reports.
    pub fn take_reports(
        &mut self,
        scan_root: &str,
        root_id: i64,
        buf: &[u8],
        now: u64,
    ) -> (r: Option<Vec<String>>)
        requires
            old(self).wf(),
            now + DEBOUNCE_MS <= u64::MAX,
        ensures
            final(self).wf(),
            r is Some <==> reports_from(buf@, 0) is Some,
            r is None ==> final(self).waiting() == old(self).waiting(),
            r matches Some(gone) ==> {
                let reports = reports_from(buf@, 0)->0;
                &&& final(self).waiting() == after_reports(
                    old(self).waiting(),
                    scan_root@,
                    root_id,
                    reports,
                    now,
                )
                &&& text_views(gone@) == all_removed(scan_root@, reports)
            },
    {
        let reports = match parse_reports(buf) {
            Some(reports) => reports,
            None => return None,
        };
        let ghost views = report_views(reports@);
        let mut gone: Vec<String> = Vec::new();
        let mut i: usize = 0;
        assert(views.take(0) =~= seq![]);
        while i < reports.len()
            invariant
                i <= reports@.len(),
                views == report_views(reports@),
                self.wf(),
                now + DEBOUNCE_MS <= u64::MAX,
                self.waiting() == after_reports(
                    old(self).waiting(),
                    scan_root@,
                    root_id,
                    views.take(i as int),
                    now,
                ),
                text_views(gone@) == all_removed(scan_root@, views.take(i as int)),
            decreases reports@.len() - i,
        {
            proof {
                assert(views.take(i + 1).drop_last() =~= views.take(i as int));
                assert(views.take(i + 1).last() == reports@[i as int]@);
            }
            match self.take_report(scan_root, root_id, &reports[i], now) {
                Some(path) => {
                    let ghost before = gone@;
                    gone.push(path);
                    assert(text_views(gone@) =~= text_views(before).push(path@));
                },
                None => {},
            }
            i += 1;
        }
        assert(views.take(reports@.len() as int) =~= views);
        Some(gone)
    }

    /// Notes that a scan failed: the path is tried again, unless it was often enough.
    /// The result says whether it is.
    pub fn scan_failed(&mut self, p: PendingScan, now: u64) -> (again: bool)
        requires
            old(self).wf(),
            now + RETRY_DELAY_MS <= u64::MAX,
        ensures
            final(self).wf(),
            again == (p.retries < RETRY_LIMIT),
            !again ==> final(self).waiting() == old(self).waiting(),
            again ==> ({
                let all = old(self).waiting();
                let at = place_of_key(all, p@.key);
                final(self).waiting() == if at < all.len() {
                    all.update(at, retried(p@, now))
                } else {
                    all.push(retried(p@, now))
                }
            }),
    {
        if p.retries >= RETRY_LIMIT {
            return false;
        }
        self.retry(p, now);
        true
    }
}

/// What was reported of a path before it went is forgotten, also within one batch.
pub proof fn law_last_report_decides(
    entries: Seq<Pending>,
    scan_root: Seq<char>,
    root_id: i64,
    reports: Seq<ReportView>,
    now: u64,
    i: int,
)
    requires
        reports.len() > 0,
        removed_by(scan_root, reports.last()) is Some,
        0 <= i < after_reports(entries, scan_root, root_id, reports, now).len(),
    ensures
        after_reports(entries, scan_root, root_id, reports, now)[i].key != path_key(
            reported_path(scan_root, reports.last()),
        ),
{
    law_removed_path_does_not_wait(
        after_reports(entries, scan_root, root_id, reports.drop_last(), now),
        reported_path(scan_root, reports.last()),
        i,
    );
}

/// A path that is reported waits once: it is new or takes the place of its last report, with
/// the time at which it is due, and every other path waits as before.
pub proof fn law_reported_path_waits_once(
    entries: Seq<Pending>,
    full_path: Seq<char>,
    root_id: i64,
    action: u32,
    due_tick: u64,
    k: int,
)
    requires
        distinct_keys(entries),
        0 <= k < entries.len(),
    ensures
        ({
            let after = with_change(entries, full_path, root_id, action, due_tick);
            &&& entries[k].key != path_key(full_path) ==> after[k] == entries[k]
            &&& entries[k].key == path_key(full_path) ==> after.len() == entries.len()
                && after[k].full_path == full_path && after[k].root_id == root_id && after[k].due_tick
                == due_tick && after[k].key == entries[k].key && after[k].retries
                == entries[k].retries
            &&& (forall|j: int|
                0 <= j < entries.len() ==> (#[trigger] entries[j]).key != path_key(full_path))
                ==> after == entries.push(
                Pending {
                    key: path_key(full_path),
                    full_path,
                    root_id,
                    last_action: action,
                    due_tick,
                    retries: 0,
                },
            )
        }),
{
    let key = path_key(full_path);
    lemma_place(entries, key);
    let at = place_of_key(entries, key);
    if entries[k].key == key {
        if at < k {
            assert(entries[at].key != entries[k].key);
        }
    }
}

proof fn lemma_place(entries: Seq<Pending>, key: Seq<char>)
    ensures
        0 <= place_of_key(entries, key) <= entries.len(),
        place_of_key(entries, key) < entries.len() ==> entries[place_of_key(entries, key)].key
            == key,
        forall|j: int| 0 <= j < place_of_key(entries, key) ==> (#[trigger] entries[j]).key != key,
    decreases entries.len(),
{
    if entries.len() > 0 && entries[0].key != key {
        let rest = entries.drop_first();
        lemma_place(rest, key);
        assert forall|j: int| 0 <= j < place_of_key(entries, key) implies (#[trigger] entries[j]).key
            != key by {
            if j > 0 {
                assert(rest[j - 1] == entries[j]);
            }
        }
    }
}

/// What is reported of a file: one that is new or has a new name waits, as does a song that
/// was changed; one that is gone or has lost its name is removed; nothing else counts.
pub proof fn law_reports_are_told_apart(name: Seq<char>, action: u32)
    ensures
        report_step_of(1, name) == ReportStep::Queue,
        report_step_of(5, name) == ReportStep::Queue,
        report_step_of(2, name) == ReportStep::Remove,
        report_step_of(4, name) == ReportStep::Remove,
        report_step_of(3, name) == (if is_media_ext(ending_of(name)) {
            ReportStep::Queue
        } else {
            ReportStep::Ignore
        }),
        action == 0 || action > 5 ==> report_step_of(action, name) == ReportStep::Ignore,
{
}

/// A later change of a path that was there counts; of one that is new it does not.
pub proof fn law_later_change_counts(prev: u32, later: u32)
    ensures
        prev != 1 && prev != 5 ==> merged_action(prev, later) == later,
        merged_action(1, later) == 1,
        merged_action(5, later) == 5,
{
}

/// A path that is due is looked for: a song is scanned, a directory is too unless it was only
/// changed, and what is missing is looked for twelve times more before it is given up.
pub proof fn law_due_path_is_looked_for(p: Pending, now: u64)
    requires
        now <= u64::MAX - 250,
    ensures
        due_step_of(p, OnDisk::Missing) == (if p.retries < 12 {
            DueStep::Retry
        } else {
            DueStep::GiveUp
        }),
        due_step_of(p, OnDisk::Directory) == (if p.last_action == 3 {
            DueStep::Ignore
        } else {
            DueStep::ScanDirectory
        }),
        due_step_of(p, OnDisk::File) == (if is_media_ext(ending_of(p.full_path)) {
            DueStep::ScanFile
        } else {
            DueStep::Ignore
        }),
        p.retries < 255 ==> retried(p, now).due_tick == now + 250 && retried(p, now).retries
            == p.retries + 1 && retried(p, now).key == p.key && retried(p, now).full_path
            == p.full_path && retried(p, now).last_action == p.last_action,
{
}

/// The next path is due at the earliest time that any is, and the watcher waits until then and
/// not longer: no time at all where one is due, and without end where none waits.
pub proof fn law_watcher_wakes_for_the_earliest(entries: Seq<Pending>, now: u64, k: int)
    requires
        0 <= k < entries.len(),
    ensures
        earliest(entries) is Some,
        earliest(entries)->0 <= entries[k].due_tick,
        exists|j: int|
            0 <= j < entries.len() && (#[trigger] entries[j]).due_tick == earliest(entries)->0,
        entries[k].due_tick <= now ==> timeout_of(entries, now) == 0,
        now + timeout_of(entries, now) <= entries[k].due_tick || entries[k].due_tick <= now,
        timeout_of(Seq::empty(), now) == 0xffff_ffff,
    decreases entries.len(),
{
    let front = entries.drop_last();
    if front.len() > 0 {
        law_watcher_wakes_for_the_earliest(
            front,
            now,
            if k < front.len() {
                k
            } else {
                0
            },
        );
        let j = choose|j: int|
            0 <= j < front.len() && (#[trigger] front[j]).due_tick == earliest(front)->0;
        assert(entries[j] == front[j]);
        if k < front.len() {
            assert(front[k] == entries[k]);
        }
    }
    assert(entries[entries.len() - 1] == entries.last());
}

/// The ending of a name is what stands behind its last dot, in lower case.
pub proof fn law_ending_is_behind_the_last_dot(stem: Seq<char>, ext: Seq<char>)
    requires
        !ext.contains('.'),
    ensures
        ending_of(stem + seq!['.'] + ext) == lower(ext),
        ending_of(ext).len() == 0,
{
    let name = stem + seq!['.'] + ext;
    lemma_last_place(name, '.');
    let at = last_place(name, '.');
    assert(name[stem.len() as int] == '.');
    assert(at == stem.len()) by {
        if at > stem.len() {
            assert(ext[at - stem.len() - 1] == '.');
        }
    }
    assert(name.skip(at + 1) =~= ext);
    lemma_last_place(ext, '.');
}

/// Reports are read one after the other: each tells what happened to a name, which follows it,
/// and where the next report is.
pub proof fn law_report_is_read(buf: Seq<u8>, pos: int, k: int)
    requires
        report_fits(buf, pos),
        0 <= k < report_at(buf, pos).name.len(),
    ensures
        ({
            let report = report_at(buf, pos);
            &&& report.action == buf[pos + 4] + 0x100 * buf[pos + 5] + 0x1_0000 * buf[pos + 6]
                + 0x100_0000 * buf[pos + 7]
            &&& report.name[k] == buf[pos + 12 + 2 * k] + 0x100 * buf[pos + 13 + 2 * k]
            &&& report.name.len() * 2 <= buf[pos + 8] + 0x100 * buf[pos + 9] + 0x1_0000 * buf[pos
                + 10] + 0x100_0000 * buf[pos + 11] < report.name.len() * 2 + 2
        }),
        buf[pos] == 0 && buf[pos + 1] == 0 && buf[pos + 2] == 0 && buf[pos + 3] == 0 ==> reports_from(
            buf,
            pos,
        ) == Some(seq![report_at(buf, pos)]),
{
    reveal_with_fuel(le_value, 5);
}

/// A file that is reported stands below the root that is watched.
pub proof fn law_reported_file_is_below_the_root(
    entries: Seq<Pending>,
    scan_root: Seq<char>,
    root_id: i64,
    report: ReportView,
    now: u64,
)
    ensures
        reported_path(scan_root, report) == scan_root + seq!['\\'] + decoded(report.name),
        report.action == 2 || report.action == 4 ==> removed_by(scan_root, report) == Some(
            scan_root + seq!['\\'] + decoded(report.name),
        ),
        report.action == 1 ==> removed_by(scan_root, report) is None,
        report.action == 0 ==> after_report(entries, scan_root, root_id, report, now) == entries,
{
    assert(scan_root.push('\\') + decoded(report.name) =~= scan_root + seq!['\\'] + decoded(
        report.name,
    ));
}

/// Where a path is removed, every path that is neither it nor below it goes on waiting.
pub proof fn law_other_paths_go_on_waiting(entries: Seq<Pending>, full_path: Seq<char>, i: int)
    requires
        0 <= i < entries.len(),
        entries[i].key != path_key(full_path),
        !occurs_at(entries[i].key, path_key(full_path).push('\\'), 0),
    ensures
        without_path(entries, full_path).contains(entries[i]),
{
    lemma_filter_contains(entries, |p: Pending| !is_at_or_below(p, path_key(full_path)), i);
}

proof fn lemma_filter_contains(s: Seq<Pending>, keep: spec_fn(Pending) -> bool, i: int)
    requires
        0 <= i < s.len(),
        keep(s[i]),
    ensures
        s.filter(keep).contains(s[i]),
    decreases s.len(),
{
    reveal(Seq::filter);
    let front = s.drop_last();
    if i < front.len() {
        lemma_filter_contains(front, keep, i);
        let k = choose|k: int| 0 <= k < front.filter(keep).len() && front.filter(keep)[k] == s[i];
        assert(s.filter(keep)[k] == s[i]);
    } else {
        assert(s.filter(keep)[s.filter(keep).len() - 1] == s[i]);
    }
}

} // verus!
