//! The lines of the log that wait to be shown, and how the log is kept short.

use crate::song::text_views;
use vstd::prelude::*;

verus! {

/// How many lines wait at most.
pub const QUEUE_MAX: usize = 4096;

/// How many lines the log shows at most, and how many are dropped at once where
/// there are more.
pub const MAX_LINES: i64 = 1000;

pub const TRIM_LINES: usize = 500;

/// The lines that wait.
pub struct LogQueue {
    pub lines: Vec<String>,
    /// Whether the window was told that there are any.
    pub flush_posted: bool,
}

/// The lines after one more came in: where there are too many, the oldest go.
pub open spec fn enqueued(lines: Seq<Seq<char>>, line: Seq<char>) -> Seq<Seq<char>> {
    if lines.len() >= QUEUE_MAX {
        lines.skip(lines.len() - QUEUE_MAX + 1).push(line)
    } else {
        lines.push(line)
    }
}

impl LogQueue {
    /// No line waits.
    pub fn new() -> (r: LogQueue)
        ensures
            text_views(r.lines@) == Seq::<Seq<char>>::empty(),
            !r.flush_posted,
    {
        let r = LogQueue { lines: Vec::new(), flush_posted: false };
        assert(text_views(r.lines@) =~= Seq::<Seq<char>>::empty());
        r
    }

    /// Takes in a line. The result says whether the window has to be told.
    pub fn log_enqueue(&mut self, text: String) -> (tell: bool)
        ensures
            text_views(final(self).lines@) == enqueued(text_views(old(self).lines@), text@),
            tell == !old(self).flush_posted,
            final(self).flush_posted,
    {
        let ghost all = text_views(self.lines@);
        let ghost mut dropped: int = 0;
        assert(all.skip(0) =~= all);
        while self.lines.len() >= QUEUE_MAX
            invariant
                all == text_views(old(self).lines@),
                self.flush_posted == old(self).flush_posted,
                0 <= dropped <= all.len(),
                text_views(self.lines@) == all.skip(dropped),
                dropped > 0 ==> dropped <= all.len() - QUEUE_MAX + 1,
            decreases self.lines@.len(),
        {
            let ghost before = text_views(self.lines@);
            assert(before.len() == self.lines@.len());
            self.lines.remove(0);
            assert(text_views(self.lines@) =~= before.skip(1));
            assert(before.skip(1) =~= all.skip(dropped + 1));
            proof {
                dropped = dropped + 1;
            }
        }
        let ghost before = text_views(self.lines@);
        assert(before.len() == self.lines@.len());
        self.lines.push(text);
        assert(text_views(self.lines@) =~= before.push(text@));
        self.request_flush()
    }

    /// Notes that the window is told. The result says whether it was not yet.
    pub fn request_flush(&mut self) -> (tell: bool)
        ensures
            final(self).lines@ == old(self).lines@,
            final(self).flush_posted,
            tell == !old(self).flush_posted,
    {
        let tell: bool = !self.flush_posted;
        self.flush_posted = true;
        tell
    }

    /// Takes the lines that wait; `None` where there are none.
    pub fn take_lines(&mut self) -> (r: Option<Vec<String>>)
        ensures
            r is Some <==> old(self).lines@.len() > 0,
            r matches Some(lines) ==> lines@ == old(self).lines@,
            final(self).lines@.len() == 0,
            final(self).flush_posted == (old(self).flush_posted && r is Some),
    {
        if self.lines.len() == 0 {
            self.flush_posted = false;
            return None;
        }
        let mut lines: Vec<String> = Vec::new();
        lines.append(&mut self.lines);
        assert(lines@ =~= old(self).lines@);
        Some(lines)
    }

    /// Notes that the lines were shown. The result says whether more came in
    /// meanwhile, and the window has to be told again.
    pub fn flushed(&mut self) -> (tell: bool)
        ensures
            final(self).lines@ == old(self).lines@,
            tell == (old(self).lines@.len() > 0),
            final(self).flush_posted == tell,
    {
        let tell: bool = self.lines.len() > 0;
        self.flush_posted = tell;
        tell
    }
}

/// The text of some lines, each with the end of a line.
pub open spec fn lines_text(lines: Seq<Seq<char>>) -> Seq<char>
    decreases lines.len(),
{
    if lines.len() == 0 {
        seq![]
    } else {
        lines_text(lines.drop_last()) + lines.last() + seq!['\r', '\n']
    }
}

/// The text of some lines.
pub fn combined_text(lines: &Vec<String>) -> (r: String)
    ensures
        r@ == lines_text(text_views(lines@)),
{
    let ghost views = text_views(lines@);
    let mut r = String::new();
    let mut i: usize = 0;
    while i < lines.len()
        invariant
            i <= lines@.len(),
            views == text_views(lines@),
            r@ == lines_text(views.take(i as int)),
        decreases lines@.len() - i,
    {
        proof {
            assert(views.take(i + 1).drop_last() =~= views.take(i as int));
            assert(views.take(i + 1).last() == lines@[i as int]@);
        }
        r.append(lines[i].as_str());
        r.push('\r');
        r.push('\n');
        assert(r@ =~= lines_text(views.take(i + 1)));
        i += 1;
    }
    assert(views.take(lines@.len() as int) =~= views);
    r
}

/// How much of the log is dropped from its start, where it is too long. `cut` is
/// where the line starts that comes first then.
pub fn trim_step(line_count: i64, cut: i64) -> (r: Option<i64>)
    ensures
        r == (if line_count > MAX_LINES && cut > 0 {
            Some(cut)
        } else {
            None
        }),
{
    if line_count <= MAX_LINES || cut <= 0 {
        None
    } else {
        Some(cut)
    }
}

/// Where the selection of the log goes after so many characters were dropped from
/// its start; `None` where the caret stood at the end, and goes to the new end.
pub fn selection_after_append(sel_start: u32, sel_end: u32, len_before: u32, removed: i64) -> (r: Option<
    (i64, i64),
>)
    requires
        0 <= removed,
    ensures
        r is None <==> sel_start == sel_end && sel_end == len_before,
        r matches Some((start, end)) ==> start == (if sel_start < removed {
            0
        } else {
            sel_start - removed
        }) && end == (if sel_end < removed {
            0
        } else {
            sel_end - removed
        }),
{
    if sel_start == sel_end && sel_end == len_before {
        return None;
    }
    let start: i64 = if (sel_start as i64) < removed {
        0
    } else {
        sel_start as i64 - removed
    };
    let end: i64 = if (sel_end as i64) < removed {
        0
    } else {
        sel_end as i64 - removed
    };
    Some((start, end))
}

/// However many lines come in, no more than the limit wait, and the newest one
/// is among them.
pub proof fn law_queue_is_bounded(lines: Seq<Seq<char>>, line: Seq<char>)
    ensures
        lines.len() <= QUEUE_MAX ==> enqueued(lines, line).len() <= QUEUE_MAX,
        enqueued(lines, line).last() == line,
{
}

/// A line of the log comes behind the others; where the queue is full, the oldest go.
pub proof fn law_oldest_lines_go(lines: Seq<Seq<char>>, line: Seq<char>)
    ensures
        lines.len() < 4096 ==> enqueued(lines, line) == lines.push(line),
        lines.len() == 4096 ==> enqueued(lines, line) == lines.drop_first().push(line),
{
    if lines.len() == 4096 {
        assert(lines.skip(1) =~= lines.drop_first());
    }
}

/// The lines of the log are written in their order, each with its end.
pub proof fn law_lines_are_written_in_order(lines: Seq<Seq<char>>, line: Seq<char>)
    ensures
        lines_text(Seq::empty()).len() == 0,
        lines_text(lines.push(line)) == lines_text(lines) + line + seq!['\r', '\n'],
{
    assert(lines.push(line).drop_last() =~= lines);
}

} // verus!
