//! Markdown as plain display text.
//!
//! The CommonMark parser turns the source into a stream of events; the renderer
//! here folds that stream into lines of text.

use crate::text::{decimal, from_chars, push_all, push_decimal};
use pulldown_cmark::{Event, Options, Parser, Tag, TagEnd};
use pulldown_cmark::Event::{HardBreak, SoftBreak};
use vstd::prelude::*;

verus! {

/// The block elements that shape the display text.
#[derive(Clone, Copy, PartialEq, Eq, Structural)]
pub enum Block {
    /// A heading of the given level.
    Heading(u8),
    Paragraph,
    BlockQuote,
    CodeBlock,
    List,
    Item,
    /// Any element that the display text ignores.
    Other,
}

/// What the parser reports, as far as the display text depends on it.
pub enum DisplayEvent {
    /// A list opens; an ordered list brings its first number.
    ListStart(Option<u64>),
    /// An element other than a list opens.
    Start(Block),
    /// An element closes.
    End(Block),
    Text(String),
    Code(String),
    Html(String),
    InlineHtml(String),
    FootnoteReference(String),
    SoftBreak,
    HardBreak,
    Rule,
    Other,
}

/// An event with its text taken by view.
pub enum DisplayEventView {
    ListStart(Option<u64>),
    Start(Block),
    End(Block),
    Text(Seq<char>),
    Code(Seq<char>),
    Html(Seq<char>),
    InlineHtml(Seq<char>),
    FootnoteReference(Seq<char>),
    SoftBreak,
    HardBreak,
    Rule,
    Other,
}

impl View for DisplayEvent {
    type V = DisplayEventView;

    open spec fn view(&self) -> DisplayEventView {
        match self {
            DisplayEvent::ListStart(start) => DisplayEventView::ListStart(*start),
            DisplayEvent::Start(block) => DisplayEventView::Start(*block),
            DisplayEvent::End(block) => DisplayEventView::End(*block),
            DisplayEvent::Text(t) => DisplayEventView::Text(t@),
            DisplayEvent::Code(t) => DisplayEventView::Code(t@),
            DisplayEvent::Html(t) => DisplayEventView::Html(t@),
            DisplayEvent::InlineHtml(t) => DisplayEventView::InlineHtml(t@),
            DisplayEvent::FootnoteReference(t) => DisplayEventView::FootnoteReference(t@),
            DisplayEvent::SoftBreak => DisplayEventView::SoftBreak,
            DisplayEvent::HardBreak => DisplayEventView::HardBreak,
            DisplayEvent::Rule => DisplayEventView::Rule,
            DisplayEvent::Other => DisplayEventView::Other,
        }
    }
}

/// The views of a stream of events.
pub open spec fn event_views(events: Seq<DisplayEvent>) -> Seq<DisplayEventView> {
    events.map_values(|e: DisplayEvent| e@)
}

/// `pulldown_cmark::TagEnd`, the closing tag of an element, carried as it is.
#[verifier::external_type_specification]
#[verifier::external_body]
pub struct ExTagEnd(pulldown_cmark::TagEnd);

/// What the CommonMark parser reports for a source text, with every option on.
pub uninterp spec fn parsed_events(markdown: Seq<char>) -> Seq<DisplayEventView>;

/// Tells the variants of `pulldown_cmark::TagEnd` apart. Nothing is claimed of the result.
#[verifier::external_body]
fn block_of(tag: TagEnd) -> (r: Block) {
    match tag {
        TagEnd::Heading(level) => Block::Heading(level as u8),
        TagEnd::Paragraph => Block::Paragraph,
        TagEnd::BlockQuote(_) => Block::BlockQuote,
        TagEnd::CodeBlock => Block::CodeBlock,
        TagEnd::List(_) => Block::List,
        TagEnd::Item => Block::Item,
        _ => Block::Other,
    }
}

/// Runs `pulldown_cmark::Parser::new_ext` with `Options::all()` to its end and
/// converts each event. The events are those that `parsed_events` names.
#[verifier::external_body]
fn parse_events(markdown: &str) -> (r: Vec<DisplayEvent>)
    ensures
        event_views(r@) == parsed_events(markdown@),
{
    Parser::new_ext(markdown, Options::all()).map(|event| match event {
        Event::Start(Tag::List(start)) => DisplayEvent::ListStart(start),
        Event::Start(tag) => DisplayEvent::Start(block_of(tag.to_end())),
        Event::End(tag) => DisplayEvent::End(block_of(tag)),
        Event::Text(t) => DisplayEvent::Text(t.into_string()),
        Event::Code(t) => DisplayEvent::Code(t.into_string()),
        Event::Html(t) => DisplayEvent::Html(t.into_string()),
        Event::InlineHtml(t) => DisplayEvent::InlineHtml(t.into_string()),
        Event::FootnoteReference(t) => DisplayEvent::FootnoteReference(t.into_string()),
        SoftBreak => DisplayEvent::SoftBreak,
        HardBreak => DisplayEvent::HardBreak,
        Event::Rule => DisplayEvent::Rule,
        _ => DisplayEvent::Other,
    }).collect()
}

/// The state of the renderer: the text so far, the open lists with the number
/// that the next item of each ordered list gets, and whether the next piece of
/// text has to start on a line of its own.
pub struct RenderState {
    pub out: Seq<char>,
    pub lists: Seq<Option<nat>>,
    pub pending_line_start: bool,
}

/// The text with a line break at its end, unless it is empty or has one.
pub open spec fn at_line_start(out: Seq<char>) -> Seq<char> {
    if out.len() == 0 || out.last() == '\n' {
        out
    } else {
        out.push('\n')
    }
}

/// The text with a line break at its end.
pub open spec fn at_line_end(out: Seq<char>) -> Seq<char> {
    if out.len() > 0 && out.last() == '\n' {
        out
    } else {
        out.push('\n')
    }
}

/// The text followed by an empty line, unless it is empty or ends in one.
pub open spec fn at_blank_line(out: Seq<char>) -> Seq<char> {
    if out.len() == 0 {
        out
    } else if out.len() >= 2 && out.last() == '\n' && out[out.len() - 2] == '\n' {
        out
    } else {
        at_line_end(out).push('\n')
    }
}

/// `n` number signs.
pub open spec fn number_signs(n: nat) -> Seq<char> {
    Seq::new(n, |i: int| '#')
}

/// The line that stands for a thematic break.
pub open spec fn rule_line() -> Seq<char> {
    Seq::new(8, |i: int| '─')
}

/// What a list item starts with: its number, or a bullet.
pub open spec fn item_marker(list: Option<nat>) -> Seq<char> {
    match list {
        Some(number) => decimal(number) + seq!['.', ' '],
        None => seq!['•', ' '],
    }
}

/// The list after one more item.
pub open spec fn next_item(list: Option<nat>) -> Option<nat> {
    match list {
        Some(number) => Some(number + 1),
        None => None,
    }
}

/// The state after a piece of running text.
pub open spec fn with_text(s: RenderState, text: Seq<char>) -> RenderState {
    RenderState {
        out: (if s.pending_line_start {
            at_line_start(s.out)
        } else {
            s.out
        }) + text,
        pending_line_start: false,
        ..s
    }
}

/// The state after one event.
pub open spec fn step(s: RenderState, event: DisplayEventView) -> RenderState {
    match event {
        DisplayEventView::ListStart(start) => RenderState {
            out: at_blank_line(s.out),
            lists: s.lists.push(
                match start {
                    Some(n) => Some(n as nat),
                    None => None,
                },
            ),
            pending_line_start: true,
        },
        DisplayEventView::Start(Block::Heading(level)) => RenderState {
            out: at_blank_line(s.out) + number_signs(level as nat) + seq![' '],
            pending_line_start: false,
            ..s
        },
        DisplayEventView::Start(Block::Paragraph) | DisplayEventView::Start(
            Block::BlockQuote,
        ) | DisplayEventView::Start(Block::CodeBlock) => RenderState {
            out: at_blank_line(s.out),
            pending_line_start: true,
            ..s
        },
        DisplayEventView::Start(Block::Item) => if s.lists.len() > 0 {
            RenderState {
                out: at_line_start(s.out) + item_marker(s.lists.last()),
                lists: s.lists.drop_last().push(next_item(s.lists.last())),
                pending_line_start: false,
            }
        } else {
            RenderState { out: at_line_start(s.out), pending_line_start: false, ..s }
        },
        DisplayEventView::Start(_) => s,
        DisplayEventView::End(Block::Other) => s,
        DisplayEventView::End(block) => RenderState {
            out: at_line_end(s.out),
            lists: if block is List && s.lists.len() > 0 {
                s.lists.drop_last()
            } else {
                s.lists
            },
            pending_line_start: true,
        },
        DisplayEventView::Text(t) => with_text(s, t),
        DisplayEventView::Code(t) => with_text(s, t),
        DisplayEventView::Html(t) => with_text(s, t),
        DisplayEventView::InlineHtml(t) => with_text(s, t),
        DisplayEventView::FootnoteReference(t) => RenderState {
            out: s.out.push('[') + t + seq![']'],
            pending_line_start: false,
            ..s
        },
        DisplayEventView::SoftBreak | DisplayEventView::HardBreak => RenderState {
            out: at_line_end(s.out),
            pending_line_start: true,
            ..s
        },
        DisplayEventView::Rule => RenderState {
            out: at_line_end(at_blank_line(s.out) + rule_line()),
            pending_line_start: true,
            ..s
        },
        DisplayEventView::Other => s,
    }
}

/// The state before the first event.
pub open spec fn start_state() -> RenderState {
    RenderState { out: Seq::empty(), lists: Seq::empty(), pending_line_start: true }
}

/// The state after all the events.
pub open spec fn run(events: Seq<DisplayEventView>) -> RenderState
    decreases events.len(),
{
    if events.len() == 0 {
        start_state()
    } else {
        step(run(events.drop_last()), events.last())
    }
}

/// Whether `c` ends a line.
pub open spec fn is_line_break(c: char) -> bool {
    c == '\r' || c == '\n'
}

/// The text without the line breaks at its front.
pub open spec fn without_leading_breaks(s: Seq<char>) -> Seq<char>
    decreases s.len(),
{
    if s.len() > 0 && is_line_break(s[0]) {
        without_leading_breaks(s.drop_first())
    } else {
        s
    }
}

/// The text without the line breaks at its end.
pub open spec fn without_trailing_breaks(s: Seq<char>) -> Seq<char>
    decreases s.len(),
{
    if s.len() > 0 && is_line_break(s.last()) {
        without_trailing_breaks(s.drop_last())
    } else {
        s
    }
}

/// The display text of a stream of events.
pub open spec fn display_text(events: Seq<DisplayEventView>) -> Seq<char> {
    without_trailing_breaks(without_leading_breaks(run(events).out))
}

/// Puts a line break at the end of `out`, unless it is empty or has one.
pub fn ensure_line_start(out: &mut Vec<char>)
    ensures
        final(out)@ == at_line_start(old(out)@),
{
    if out.len() == 0 || out[out.len() - 1] == '\n' {
        return;
    }
    out.push('\n');
}

/// Puts a line break at the end of `out`, unless it has one.
pub fn ensure_line_end(out: &mut Vec<char>)
    ensures
        final(out)@ == at_line_end(old(out)@),
{
    if out.len() == 0 || out[out.len() - 1] != '\n' {
        out.push('\n');
    }
}

/// Puts an empty line at the end of `out`, unless it is empty or ends in one.
pub fn ensure_blank_line(out: &mut Vec<char>)
    ensures
        final(out)@ == at_blank_line(old(out)@),
{
    let n: usize = out.len();
    if n == 0 {
        return;
    }
    if n >= 2 && out[n - 1] == '\n' && out[n - 2] == '\n' {
        return;
    }
    ensure_line_end(out);
    out.push('\n');
}

/// Appends the number signs and the space that a heading starts with.
pub fn push_heading_prefix(out: &mut Vec<char>, level: u8)
    ensures
        final(out)@ == old(out)@ + number_signs(level as nat) + seq![' '],
{
    let mut i: u8 = 0;
    while i < level
        invariant
            i <= level,
            out@ == old(out)@ + number_signs(i as nat),
        decreases level - i,
    {
        out.push('#');
        i += 1;
        assert(out@ =~= old(out)@ + number_signs(i as nat));
    }
    out.push(' ');
    assert(out@ =~= old(out)@ + number_signs(level as nat) + seq![' ']);
}

/// The executable counterpart of `RenderState`.
struct Renderer {
    out: Vec<char>,
    lists: Vec<Option<u128>>,
    pending_line_start: bool,
}

impl Renderer {
    spec fn state(self) -> RenderState {
        RenderState {
            out: self.out@,
            lists: self.lists@.map_values(
                |l: Option<u128>|
                    match l {
                        Some(n) => Some(n as nat),
                        None => None::<nat>,
                    },
            ),
            pending_line_start: self.pending_line_start,
        }
    }

    /// No item number has grown by more than the events seen.
    spec fn bounded(self, seen: nat) -> bool {
        forall|i: int|
            #![trigger self.lists@[i]]
            0 <= i < self.lists@.len() ==> match self.lists@[i] {
                Some(n) => n <= u64::MAX + seen,
                None => true,
            }
    }

    fn text(&mut self, t: &str)
        ensures
            final(self).state() == with_text(old(self).state(), t@),
            final(self).lists == old(self).lists,
    {
        if self.pending_line_start {
            ensure_line_start(&mut self.out);
        }
        push_all(&mut self.out, t);
        self.pending_line_start = false;
    }

    fn apply(&mut self, event: &DisplayEvent, Ghost(seen): Ghost<nat>)
        requires
            old(self).bounded(seen),
            seen <= usize::MAX,
        ensures
            final(self).state() == step(old(self).state(), event@),
            final(self).bounded(seen + 1),
    {
        match event {
            DisplayEvent::ListStart(start) => {
                ensure_blank_line(&mut self.out);
                let first: Option<u128> = match start {
                    Some(n) => Some(*n as u128),
                    None => None,
                };
                self.lists.push(first);
                self.pending_line_start = true;
                assert(self.state().lists =~= step(old(self).state(), event@).lists);
            },
            DisplayEvent::Start(Block::Heading(level)) => {
                ensure_blank_line(&mut self.out);
                push_heading_prefix(&mut self.out, *level);
                self.pending_line_start = false;
            },
            DisplayEvent::Start(Block::Paragraph)
            | DisplayEvent::Start(Block::BlockQuote)
            | DisplayEvent::Start(Block::CodeBlock) => {
                ensure_blank_line(&mut self.out);
                self.pending_line_start = true;
            },
            DisplayEvent::Start(Block::Item) => {
                ensure_line_start(&mut self.out);
                match self.lists.pop() {
                    Some(Some(number)) => {
                        push_decimal(&mut self.out, number);
                        self.out.push('.');
                        self.out.push(' ');
                        self.lists.push(Some(number + 1));
                    },
                    Some(None) => {
                        self.out.push('•');
                        self.out.push(' ');
                        self.lists.push(None);
                    },
                    None => {},
                }
                self.pending_line_start = false;
                assert(self.state().out =~= step(old(self).state(), event@).out);
                assert(self.state().lists =~= step(old(self).state(), event@).lists);
            },
            DisplayEvent::Start(_) => {},
            DisplayEvent::End(Block::Other) => {},
            DisplayEvent::End(block) => {
                if let Block::List = block {
                    self.lists.pop();
                }
                ensure_line_end(&mut self.out);
                self.pending_line_start = true;
                assert(self.state().lists =~= step(old(self).state(), event@).lists);
            },
            DisplayEvent::Text(t) => self.text(t.as_str()),
            DisplayEvent::Code(t) => self.text(t.as_str()),
            DisplayEvent::Html(t) => self.text(t.as_str()),
            DisplayEvent::InlineHtml(t) => self.text(t.as_str()),
            DisplayEvent::FootnoteReference(t) => {
                self.out.push('[');
                push_all(&mut self.out, t.as_str());
                self.out.push(']');
                self.pending_line_start = false;
                assert(self.state().out =~= step(old(self).state(), event@).out);
            },
            DisplayEvent::SoftBreak | DisplayEvent::HardBreak => {
                ensure_line_end(&mut self.out);
                self.pending_line_start = true;
            },
            DisplayEvent::Rule => {
                ensure_blank_line(&mut self.out);
                let ghost before = self.out@;
                push_all(&mut self.out, "────────");
                proof {
                    reveal_strlit("────────");
                    assert("────────"@ =~= rule_line());
                }
                ensure_line_end(&mut self.out);
                self.pending_line_start = true;
            },
            DisplayEvent::Other => {},
        }
    }
}

/// The text of `chars` without the line breaks around it.
fn trim_line_breaks(chars: &Vec<char>) -> (r: String)
    ensures
        r@ == without_trailing_breaks(without_leading_breaks(chars@)),
{
    let mut from: usize = 0;
    assert(chars@.subrange(0, chars@.len() as int) =~= chars@);
    while from < chars.len() && (chars[from] == '\r' || chars[from] == '\n')
        invariant
            from <= chars@.len(),
            without_leading_breaks(chars@) == without_leading_breaks(
                chars@.subrange(from as int, chars@.len() as int),
            ),
        decreases chars@.len() - from,
    {
        assert(chars@.subrange(from as int, chars@.len() as int).drop_first() =~= chars@.subrange(
            from + 1,
            chars@.len() as int,
        ));
        from += 1;
    }
    let ghost front = chars@.subrange(from as int, chars@.len() as int);
    assert(without_leading_breaks(front) == front);
    let mut to: usize = chars.len();
    assert(chars@.subrange(from as int, to as int) =~= front);
    while to > from && (chars[to - 1] == '\r' || chars[to - 1] == '\n')
        invariant
            from <= to <= chars@.len(),
            without_trailing_breaks(front) == without_trailing_breaks(
                chars@.subrange(from as int, to as int),
            ),
        decreases to - from,
    {
        assert(chars@.subrange(from as int, to as int).drop_last() =~= chars@.subrange(
            from as int,
            to - 1,
        ));
        to -= 1;
    }
    from_chars(vstd::slice::slice_subrange(chars.as_slice(), from, to))
}

/// The display text of a stream of parser events.
pub fn render_display_text(events: &Vec<DisplayEvent>) -> (r: String)
    ensures
        r@ == display_text(event_views(events@)),
{
    let mut renderer = Renderer { out: Vec::new(), lists: Vec::new(), pending_line_start: true };
    let mut i: usize = 0;
    assert(renderer.state().out =~= start_state().out);
    assert(renderer.state().lists =~= start_state().lists);
    while i < events.len()
        invariant
            i <= events@.len(),
            renderer.state() == run(event_views(events@).take(i as int)),
            renderer.bounded(i as nat),
        decreases events@.len() - i,
    {
        proof {
            let views = event_views(events@);
            assert(views.take(i + 1).drop_last() =~= views.take(i as int));
            assert(views.take(i + 1).last() == events@[i as int]@);
        }
        renderer.apply(&events[i], Ghost(i as nat));
        i += 1;
    }
    assert(event_views(events@).take(events@.len() as int) =~= event_views(events@));
    trim_line_breaks(&renderer.out)
}

/// Renders Markdown source as plain display text.
pub fn markdown_to_display_text(markdown: &str) -> (r: String)
    ensures
        r@ == display_text(parsed_events(markdown@)),
{
    let events = parse_events(markdown);
    render_display_text(&events)
}

proof fn lemma_trailing_keeps_front(s: Seq<char>)
    ensures
        without_trailing_breaks(s).is_prefix_of(s),
        without_trailing_breaks(s).len() > 0 ==> !is_line_break(without_trailing_breaks(s).last()),
    decreases s.len(),
{
    if s.len() > 0 && is_line_break(s.last()) {
        lemma_trailing_keeps_front(s.drop_last());
    }
}

proof fn lemma_leading_front(s: Seq<char>)
    ensures
        without_leading_breaks(s).len() > 0 ==> !is_line_break(without_leading_breaks(s)[0]),
    decreases s.len(),
{
    if s.len() > 0 && is_line_break(s[0]) {
        lemma_leading_front(s.drop_first());
    }
}

/// The display text neither starts nor ends with a line break.
pub proof fn law_no_outer_line_breaks(events: Seq<DisplayEventView>)
    ensures
        display_text(events).len() > 0 ==> !is_line_break(display_text(events)[0])
            && !is_line_break(display_text(events).last()),
{
    let front = without_leading_breaks(run(events).out);
    lemma_leading_front(run(events).out);
    lemma_trailing_keeps_front(front);
}

/// An event never takes back text that earlier events produced.
pub proof fn law_events_only_append(events: Seq<DisplayEventView>, event: DisplayEventView)
    ensures
        run(events).out.is_prefix_of(run(events.push(event)).out),
{
    assert(events.push(event).drop_last() =~= events);
}

/// A piece of text stands in the output as it came, behind everything before it.
pub proof fn law_text_is_kept(events: Seq<DisplayEventView>, text: Seq<char>)
    ensures
        run(events.push(DisplayEventView::Text(text))).out.len() >= text.len(),
        run(events.push(DisplayEventView::Text(text))).out.subrange(
            run(events.push(DisplayEventView::Text(text))).out.len() - text.len(),
            run(events.push(DisplayEventView::Text(text))).out.len() as int,
        ) == text,
{
    let all = events.push(DisplayEventView::Text(text));
    assert(all.drop_last() =~= events);
    let out = run(all).out;
    assert(out.subrange(out.len() - text.len(), out.len() as int) =~= text);
}

/// An opened list changes nothing of the lists around it once it is closed.
pub proof fn law_list_closes_to_what_it_opened_on(events: Seq<DisplayEventView>, start: Option<u64>)
    ensures
        run(
            events.push(DisplayEventView::ListStart(start)).push(DisplayEventView::End(Block::List)),
        ).lists == run(events).lists,
{
    let opened = events.push(DisplayEventView::ListStart(start));
    assert(opened.drop_last() =~= events);
    assert(opened.push(DisplayEventView::End(Block::List)).drop_last() =~= opened);
    assert(run(opened).lists.drop_last() =~= run(events).lists);
}

/// What the last of some events adds to the text, over what those before it made.
pub open spec fn added(events: Seq<DisplayEventView>, event: DisplayEventView) -> Seq<char> {
    run(events.push(event)).out.skip(run(events).out.len() as int)
}

/// After a break inside a paragraph the text ends in a line break, and not in one more
/// than it had: a text behind it starts on a line of its own.
pub proof fn law_break_ends_the_line(
    events: Seq<DisplayEventView>,
    event: DisplayEventView,
    text: Seq<char>,
)
    requires
        event == DisplayEventView::SoftBreak || event == DisplayEventView::HardBreak,
    ensures
        run(events.push(event)).out.len() > 0,
        run(events.push(event)).out.last() == '\n',
        run(events).out.len() > 0 && run(events).out.last() == '\n' ==> run(events.push(event)).out
            == run(events).out,
        !(run(events).out.len() > 0 && run(events).out.last() == '\n') ==> run(
            events.push(event),
        ).out == run(events).out.push('\n'),
        run(events.push(event).push(DisplayEventView::Text(text))).out == run(
            events.push(event),
        ).out + text,
{
    let broken = events.push(event);
    assert(broken.drop_last() =~= events);
    assert(broken.push(DisplayEventView::Text(text)).drop_last() =~= broken);
}

/// Every kind of text goes into the output as it came, at the end of what is there,
/// whether it is running text, code or HTML: directly behind other text, and on a line of
/// its own where a block has just opened or closed.
pub proof fn law_texts_stand_side_by_side(
    events: Seq<DisplayEventView>,
    first: Seq<char>,
    event: DisplayEventView,
    second: Seq<char>,
)
    requires
        event == DisplayEventView::Text(second) || event == DisplayEventView::Code(second)
            || event == DisplayEventView::Html(second) || event == DisplayEventView::InlineHtml(
            second,
        ),
    ensures
        run(events.push(DisplayEventView::Text(first)).push(event)).out == run(
            events.push(DisplayEventView::Text(first)),
        ).out + second,
        run(seq![event]).out == second,
{
    let one = events.push(DisplayEventView::Text(first));
    assert(one.drop_last() =~= events);
    assert(one.push(event).drop_last() =~= one);
    reveal_with_fuel(run, 3);
    assert(seq![event].drop_last() =~= Seq::empty());
    assert(run(seq![event]).out =~= second);
}

/// A footnote is a reference in square brackets behind the text.
pub proof fn law_footnote_stands_in_brackets(events: Seq<DisplayEventView>, name: Seq<char>)
    ensures
        added(events, DisplayEventView::FootnoteReference(name)) == seq!['['] + name + seq![']'],
{
    let all = events.push(DisplayEventView::FootnoteReference(name));
    assert(all.drop_last() =~= events);
    assert(added(events, DisplayEventView::FootnoteReference(name)) =~= seq!['['] + name
        + seq![']']);
}

/// Whether a text ends with an empty line: one that something can start behind.
pub open spec fn ends_blank(s: Seq<char>) -> bool {
    s.len() >= 2 && s[s.len() - 1] == '\n' && s[s.len() - 2] == '\n'
}

/// A paragraph, a quotation, a block of code, a list and a heading are parted from what
/// stands before them by an empty line, unless nothing does; and by no more than that.
pub proof fn law_blocks_are_parted(
    events: Seq<DisplayEventView>,
    event: DisplayEventView,
    text: Seq<char>,
)
    requires
        event is ListStart || event == DisplayEventView::Start(Block::Paragraph) || event
            == DisplayEventView::Start(Block::BlockQuote) || event == DisplayEventView::Start(
            Block::CodeBlock,
        ),
    ensures
        ({
            let before = run(events).out;
            let after = run(events.push(event)).out;
            &&& before.len() == 0 ==> after == before
            &&& before.len() > 0 ==> ends_blank(after)
            &&& ends_blank(before) ==> after == before
            &&& after.len() <= before.len() + 2
            &&& forall|i: int| before.len() <= i < after.len() ==> #[trigger] after[i] == '\n'
            &&& before.len() > 0 && before.last() == '\n' ==> after.len() <= before.len() + 1
            &&& run(events.push(event).push(DisplayEventView::Text(text))).out == after + text
        }),
{
    let opened = events.push(event);
    assert(opened.drop_last() =~= events);
    assert(opened.push(DisplayEventView::Text(text)).drop_last() =~= opened);
    assert(run(opened.push(DisplayEventView::Text(text))).out =~= run(opened).out + text);
}

/// A heading of some level starts behind an empty line with that many number signs and a
/// space, and its text follows on that line.
pub proof fn law_heading_shows_its_level(
    events: Seq<DisplayEventView>,
    level: u8,
    text: Seq<char>,
)
    ensures
        ({
            let before = run(events).out;
            let opened = events.push(DisplayEventView::Start(Block::Heading(level)));
            let after = run(opened).out;
            let at = after.len() - level - 1;
            &&& at >= before.len()
            &&& forall|i: int| at <= i < at + level ==> #[trigger] after[i] == '#'
            &&& after.last() == ' '
            &&& before.len() == 0 ==> at == 0
            &&& before.len() > 0 ==> ends_blank(after.take(at))
            &&& run(opened.push(DisplayEventView::Text(text))).out == after + text
        }),
{
    let opened = events.push(DisplayEventView::Start(Block::Heading(level)));
    assert(opened.drop_last() =~= events);
    assert(opened.push(DisplayEventView::Text(text)).drop_last() =~= opened);
    let after = run(opened).out;
    assert(after.take(after.len() - level - 1) =~= at_blank_line(run(events).out));
}

/// The items of a list start on lines of their own: those of an ordered list with their
/// numbers, which rise by one from the first one of the list, and those of any other list
/// with a bullet.
pub proof fn law_items_are_numbered(
    events: Seq<DisplayEventView>,
    lists: Seq<Option<nat>>,
    list: Option<nat>,
    text: Seq<char>,
)
    requires
        run(events).lists == lists.push(list),
    ensures
        ({
            let item = events.push(DisplayEventView::Start(Block::Item));
            let before = run(events).out;
            let after = run(item).out;
            &&& list is Some ==> run(item).lists == lists.push(Some((list->0 + 1) as nat))
            &&& list is None ==> run(item).lists == lists.push(None)
            &&& before.len() == 0 || before.last() == '\n' ==> after == before + (match list {
                Some(n) => decimal(n) + seq!['.', ' '],
                None => seq!['•', ' '],
            })
            &&& before.len() > 0 && before.last() != '\n' ==> after == before.push('\n') + (
            match list {
                Some(n) => decimal(n) + seq!['.', ' '],
                None => seq!['•', ' '],
            })
            &&& run(item.push(DisplayEventView::Text(text))).out == after + text
        }),
{
    let item = events.push(DisplayEventView::Start(Block::Item));
    assert(item.drop_last() =~= events);
    assert(item.push(DisplayEventView::Text(text)).drop_last() =~= item);
    assert(lists.push(list).drop_last() =~= lists);
}

/// A list counts from the number that it opens with, and inside the lists around it.
pub proof fn law_list_opens_with_its_number(events: Seq<DisplayEventView>, start: Option<u64>)
    ensures
        ({
            let lists = run(events.push(DisplayEventView::ListStart(start))).lists;
            &&& lists.len() == run(events).lists.len() + 1
            &&& lists.drop_last() == run(events).lists
            &&& start is Some ==> lists.last() == Some(start->0 as nat)
            &&& start is None ==> lists.last() is None
        }),
{
    let opened = events.push(DisplayEventView::ListStart(start));
    assert(opened.drop_last() =~= events);
    assert(run(opened).lists.drop_last() =~= run(events).lists);
}

/// A block that closes ends its line, and a list that closes is the last one that opened.
pub proof fn law_blocks_end_their_line(
    events: Seq<DisplayEventView>,
    block: Block,
    text: Seq<char>,
)
    requires
        block != Block::Other,
    ensures
        ({
            let before = run(events).out;
            let closed = events.push(DisplayEventView::End(block));
            let after = run(closed).out;
            &&& after.len() > 0 && after.last() == '\n'
            &&& before.len() > 0 && before.last() == '\n' ==> after == before
            &&& !(before.len() > 0 && before.last() == '\n') ==> after == before.push('\n')
            &&& block != Block::List ==> run(closed).lists == run(events).lists
            &&& block == Block::List && run(events).lists.len() > 0 ==> run(closed).lists == run(
                events,
            ).lists.drop_last()
            &&& run(closed.push(DisplayEventView::Text(text))).out == after + text
        }),
{
    let closed = events.push(DisplayEventView::End(block));
    assert(closed.drop_last() =~= events);
    assert(closed.push(DisplayEventView::Text(text)).drop_last() =~= closed);
}

/// A thematic break is a line of eight strokes behind an empty line.
pub proof fn law_rule_is_a_line(events: Seq<DisplayEventView>)
    ensures
        ({
            let before = run(events).out;
            let after = run(events.push(DisplayEventView::Rule)).out;
            let at = after.len() - 9;
            &&& at >= before.len()
            &&& forall|i: int| at <= i < at + 8 ==> #[trigger] after[i] == '─'
            &&& after.last() == '\n'
            &&& before.len() == 0 ==> at == 0
            &&& before.len() > 0 ==> ends_blank(after.take(at))
        }),
{
    let all = events.push(DisplayEventView::Rule);
    assert(all.drop_last() =~= events);
    let before = run(events).out;
    let after = run(all).out;
    let line = at_blank_line(before) + rule_line();
    assert(line.last() == '─');
    assert(after == line.push('\n'));
    assert(after.take(after.len() - 9) =~= at_blank_line(before));
}

/// What is no part of the display text leaves no trace in it.
pub proof fn law_other_events_leave_no_trace(
    events: Seq<DisplayEventView>,
    event: DisplayEventView,
)
    requires
        event is Other || event == DisplayEventView::Start(Block::Other) || event
            == DisplayEventView::End(Block::Other),
    ensures
        run(events.push(event)) == run(events),
{
    assert(events.push(event).drop_last() =~= events);
}

/// Whether `part` stands in `all` at `at`, with nothing but line breaks around it.
pub open spec fn stands_alone(all: Seq<char>, part: Seq<char>, at: int) -> bool {
    &&& 0 <= at && at + part.len() <= all.len()
    &&& part == all.subrange(at, at + part.len())
    &&& forall|i: int|
        0 <= i < at || at + part.len() <= i < all.len() ==> #[trigger] all[i] == '\n' || all[i]
            == '\r'
}

/// The display text is the text of the events without the line breaks around it: nothing
/// else is taken away.
pub proof fn law_only_outer_breaks_are_taken_away(events: Seq<DisplayEventView>)
    ensures
        exists|at: int| #[trigger] stands_alone(run(events).out, display_text(events), at),
{
    let all = run(events).out;
    let front = without_leading_breaks(all);
    lemma_leading_cut(all);
    lemma_trailing_cut(front);
    let from = all.len() - front.len();
    let shown = display_text(events);
    assert(shown =~= all.subrange(from, from + shown.len()));
    assert forall|i: int| 0 <= i < from || from + shown.len() <= i < all.len() implies #[trigger] all[i]
        == '\n' || all[i] == '\r' by {
        if i >= from {
            assert(front[i - from] == all[i]);
        }
    }
    assert(stands_alone(all, shown, from));
}

proof fn lemma_leading_cut(s: Seq<char>)
    ensures
        without_leading_breaks(s).len() <= s.len(),
        without_leading_breaks(s) == s.skip(s.len() - without_leading_breaks(s).len()),
        forall|i: int|
            0 <= i < s.len() - without_leading_breaks(s).len() ==> is_line_break(#[trigger] s[i]),
    decreases s.len(),
{
    if s.len() > 0 && is_line_break(s[0]) {
        let rest = s.drop_first();
        lemma_leading_cut(rest);
        let n = without_leading_breaks(rest).len();
        assert(s.skip(s.len() - n) =~= rest.skip(rest.len() - n));
        assert forall|i: int| 0 <= i < s.len() - n implies is_line_break(#[trigger] s[i]) by {
            if i > 0 {
                assert(rest[i - 1] == s[i]);
            }
        }
    } else {
        assert(s.skip(0) =~= s);
    }
}

proof fn lemma_trailing_cut(s: Seq<char>)
    ensures
        without_trailing_breaks(s).len() <= s.len(),
        without_trailing_breaks(s) == s.take(without_trailing_breaks(s).len() as int),
        forall|i: int|
            without_trailing_breaks(s).len() <= i < s.len() ==> is_line_break(#[trigger] s[i]),
    decreases s.len(),
{
    if s.len() > 0 && is_line_break(s.last()) {
        let rest = s.drop_last();
        lemma_trailing_cut(rest);
        let n = without_trailing_breaks(rest).len() as int;
        assert(s.take(n) =~= rest.take(n));
        assert forall|i: int| n <= i < s.len() implies is_line_break(#[trigger] s[i]) by {
            if i < s.len() - 1 {
                assert(rest[i] == s[i]);
            }
        }
    } else {
        assert(s.take(s.len() as int) =~= s);
    }
}

} // verus!
