//! What the program round a control may set: its keys, its parameters, and the
//! events that it wants to hear of.

use crate::control::VTM_NOTIFY_EVENT;
use crate::song::text_views;
use crate::text::{
    concat, find_from, lemma_find_from, pieces, pieces_from, replace_char, replaced, same_text,
    split,
};
use vstd::prelude::*;

verus! {

/// A text with the signs that may stand between names made one.
pub open spec fn one_separator(s: Seq<char>) -> Seq<char> {
    replaced(replaced(replaced(s, ';', '|'), ',', '|'), '\n', '|')
}

/// The texts of a list that are not empty.
pub open spec fn not_empty(parts: Seq<Seq<char>>) -> Seq<Seq<char>>
    decreases parts.len(),
{
    if parts.len() == 0 {
        seq![]
    } else if parts.last().len() == 0 {
        not_empty(parts.drop_last())
    } else {
        not_empty(parts.drop_last()).push(parts.last())
    }
}

/// The names in a list, with `|`, `;`, `,` or an end of line between them.
pub open spec fn names_of(s: Seq<char>) -> Seq<Seq<char>> {
    not_empty(pieces(one_separator(s), '|'))
}

/// The names in a list.
pub fn split_names(s: &str) -> (r: Vec<String>)
    ensures
        text_views(r@) == names_of(s@),
{
    let once = replace_char(s, ';', '|');
    let twice = replace_char(once.as_str(), ',', '|');
    let text = replace_char(twice.as_str(), '\n', '|');
    let parts = split(text.as_str(), '|');
    let ghost views = pieces(one_separator(s@), '|');
    assert(text_views(parts@) == views);
    let mut r: Vec<String> = Vec::new();
    let mut i: usize = 0;
    assert(views.take(0) =~= seq![]);
    while i < parts.len()
        invariant
            i <= parts@.len(),
            text_views(parts@) == views,
            text_views(r@) == not_empty(views.take(i as int)),
        decreases parts@.len() - i,
    {
        proof {
            assert(views.take(i + 1).drop_last() =~= views.take(i as int));
            assert(views.take(i + 1).last() == parts@[i as int]@);
        }
        if parts[i].as_str().unicode_len() > 0 {
            let ghost before = r@;
            r.push(parts[i].clone());
            assert(text_views(r@) =~= text_views(before).push(parts@[i as int]@));
        }
        i += 1;
    }
    assert(views.take(parts@.len() as int) =~= views);
    r
}

/// No name in a list is empty.
pub proof fn law_names_are_not_empty(s: Seq<char>)
    ensures
        forall|i: int| 0 <= i < names_of(s).len() ==> names_of(s)[i].len() > 0,
{
    lemma_not_empty(pieces(one_separator(s), '|'));
}

proof fn lemma_not_empty(parts: Seq<Seq<char>>)
    ensures
        forall|i: int| 0 <= i < not_empty(parts).len() ==> not_empty(parts)[i].len() > 0,
    decreases parts.len(),
{
    if parts.len() > 0 {
        let front = not_empty(parts.drop_last());
        lemma_not_empty(parts.drop_last());
        assert forall|i: int| 0 <= i < not_empty(parts).len() implies not_empty(parts)[i].len()
            > 0 by {
            if i < front.len() {
                assert(not_empty(parts)[i] == front[i]);
            }
        }
    }
}

/// Texts by name.
pub struct TextTable {
    pub entries: Vec<(String, String)>,
}

/// The texts of a table by name.
pub open spec fn table_of(entries: Seq<(String, String)>) -> Map<Seq<char>, Seq<char>>
    decreases entries.len(),
{
    if entries.len() == 0 {
        Map::empty()
    } else {
        table_of(entries.drop_last()).insert(entries.last().0@, entries.last().1@)
    }
}

impl View for TextTable {
    type V = Map<Seq<char>, Seq<char>>;

    open spec fn view(&self) -> Map<Seq<char>, Seq<char>> {
        table_of(self.entries@)
    }
}

impl TextTable {
    /// Every name stands in the table once.
    pub open spec fn wf(&self) -> bool {
        distinct_names(self.entries@)
    }

    /// A table without a text.
    pub fn new() -> (r: TextTable)
        ensures
            r.wf(),
            r@ == Map::<Seq<char>, Seq<char>>::empty(),
    {
        TextTable { entries: Vec::new() }
    }

    fn place(&self, name: &str) -> (r: Option<usize>)
        ensures
            r matches Some(i) ==> i < self.entries@.len() && self.entries@[i as int].0@ == name@,
            r is None ==> forall|i: int|
                0 <= i < self.entries@.len() ==> #[trigger] self.entries@[i].0@ != name@,
    {
        let mut i: usize = 0;
        while i < self.entries.len()
            invariant
                i <= self.entries@.len(),
                forall|j: int| 0 <= j < i ==> #[trigger] self.entries@[j].0@ != name@,
            decreases self.entries@.len() - i,
        {
            if same_text(self.entries[i].0.as_str(), name) {
                return Some(i);
            }
            i += 1;
        }
        None
    }

    /// Sets the text of a name.
    pub fn set(&mut self, name: &str, value: &str)
        requires
            old(self).wf(),
        ensures
            final(self).wf(),
            final(self)@ == old(self)@.insert(name@, value@),
    {
        match self.place(name) {
            Some(i) => {
                let entry = (name.to_owned(), value.to_owned());
                proof {
                    lemma_replaced_entry(self.entries@, i as int, entry);
                }
                self.entries.set(i, entry);
            },
            None => {
                let ghost before = self.entries@;
                self.entries.push((name.to_owned(), value.to_owned()));
                assert(self.entries@.drop_last() =~= before);
            },
        }
    }

    /// The text of a name.
    pub fn get(&self, name: &str) -> (r: Option<&str>)
        requires
            self.wf(),
        ensures
            r is Some <==> self@.contains_key(name@),
            r matches Some(t) ==> t@ == self@[name@],
    {
        match self.place(name) {
            Some(i) => {
                proof {
                    lemma_entry(self.entries@, i as int);
                }
                Some(self.entries[i].1.as_str())
            },
            None => {
                proof {
                    lemma_no_entry(self.entries@, name@);
                }
                None
            },
        }
    }

    /// Takes every text out.
    pub fn clear(&mut self)
        ensures
            final(self).wf(),
            final(self)@ == Map::<Seq<char>, Seq<char>>::empty(),
    {
        self.entries = Vec::new();
    }
}

/// Whether every name of some entries stands there once.
pub open spec fn distinct_names(entries: Seq<(String, String)>) -> bool {
    forall|i: int, j: int|
        0 <= i < j < entries.len() ==> #[trigger] entries[i].0@ != #[trigger] entries[j].0@
}

proof fn lemma_entry(entries: Seq<(String, String)>, i: int)
    requires
        distinct_names(entries),
        0 <= i < entries.len(),
    ensures
        table_of(entries).contains_key(entries[i].0@),
        table_of(entries)[entries[i].0@] == entries[i].1@,
    decreases entries.len(),
{
    if i < entries.len() - 1 {
        lemma_entry(entries.drop_last(), i);
        assert(entries[i].0@ != entries[entries.len() - 1].0@);
    }
}

proof fn lemma_replaced_entry(entries: Seq<(String, String)>, i: int, entry: (String, String))
    requires
        distinct_names(entries),
        0 <= i < entries.len(),
        entry.0@ == entries[i].0@,
    ensures
        distinct_names(entries.update(i, entry)),
        table_of(entries.update(i, entry)) == table_of(entries).insert(entry.0@, entry.1@),
    decreases entries.len(),
{
    let after = entries.update(i, entry);
    assert forall|a: int, b: int| 0 <= a < b < after.len() implies #[trigger] after[a].0@
        != #[trigger] after[b].0@ by {
        assert(entries[a].0@ != entries[b].0@);
    }
    let front = entries.drop_last();
    if i < entries.len() - 1 {
        assert(after.drop_last() =~= front.update(i, entry));
        assert forall|a: int, b: int| 0 <= a < b < front.len() implies #[trigger] front[a].0@
            != #[trigger] front[b].0@ by {
            assert(entries[a].0@ != entries[b].0@);
        }
        lemma_replaced_entry(front, i, entry);
        assert(entries[i].0@ != entries[entries.len() - 1].0@);
        assert(table_of(after) =~= table_of(entries).insert(entry.0@, entry.1@));
    } else {
        assert(after.drop_last() =~= front);
        assert(table_of(after) =~= table_of(entries).insert(entry.0@, entry.1@));
    }
}

proof fn lemma_no_entry(entries: Seq<(String, String)>, name: Seq<char>)
    requires
        forall|i: int| 0 <= i < entries.len() ==> #[trigger] entries[i].0@ != name,
    ensures
        !table_of(entries).contains_key(name),
    decreases entries.len(),
{
    if entries.len() > 0 {
        assert(entries[entries.len() - 1].0@ != name);
        assert forall|i: int| 0 <= i < entries.len() - 1 implies #[trigger] entries.drop_last()[i].0@
            != name by {
            assert(entries[i].0@ != name);
        }
        lemma_no_entry(entries.drop_last(), name);
    }
}

/// The number by which the other program is told of an event; `None` for a name
/// that is none.
pub open spec fn event_code_of(name: Seq<char>) -> Option<i64> {
    if name == "save"@ {
        Some(1)
    } else if name == "change"@ {
        Some(2)
    } else if name == "save_as"@ {
        Some(3)
    } else {
        None
    }
}

/// The number by which the other program is told of an event.
pub fn event_code(name: &str) -> (r: Option<i64>)
    ensures
        r == event_code_of(name@),
{
    if same_text(name, "save") {
        Some(1)
    } else if same_text(name, "change") {
        Some(2)
    } else if same_text(name, "save_as") {
        Some(3)
    } else {
        None
    }
}

/// The events that the other program wants to hear of.
pub struct EventRegistration {
    pub names: Vec<String>,
    pub notify_hwnd: i64,
    pub message: u32,
    /// The last event that it was told of, with the sign behind it.
    pub last: String,
}

/// The events, with texts taken by view.
#[verifier::ext_equal]
pub struct Registration {
    pub names: Seq<Seq<char>>,
    pub notify_hwnd: i64,
    pub message: u32,
    pub last: Seq<char>,
}

impl View for EventRegistration {
    type V = Registration;

    open spec fn view(&self) -> Registration {
        Registration {
            names: text_views(self.names@),
            notify_hwnd: self.notify_hwnd,
            message: self.message,
            last: self.last@,
        }
    }
}

/// A message to the other program: its window, the message and the event.
#[derive(Clone, Copy, PartialEq, Eq, Structural)]
pub struct Notification {
    pub notify_hwnd: i64,
    pub message: u32,
    pub code: i64,
}

impl Registration {
    /// What the other program is told of an event; `None` where it did not ask.
    pub open spec fn notification(self, event: Seq<char>) -> Option<Notification> {
        if self.notify_hwnd != 0 && self.names.contains(event) && event_code_of(event) is Some {
            Some(
                Notification {
                    notify_hwnd: self.notify_hwnd,
                    message: self.message,
                    code: event_code_of(event)->0,
                },
            )
        } else {
            None
        }
    }

    /// The events after the other program was told of one.
    pub open spec fn notified(self, event: Seq<char>) -> Registration {
        if self.notification(event) is Some {
            Registration { last: event.push('|'), ..self }
        } else {
            self
        }
    }
}

/// Names, each with the sign behind it.
pub open spec fn names_text_of(names: Seq<Seq<char>>) -> Seq<char>
    decreases names.len(),
{
    if names.len() == 0 {
        seq![]
    } else {
        (names_text_of(names.drop_last()) + names.last()).push('|')
    }
}

impl EventRegistration {
    /// No events.
    pub fn new() -> (r: EventRegistration)
        ensures
            r@ == (Registration {
                names: Seq::empty(),
                notify_hwnd: 0,
                message: VTM_NOTIFY_EVENT,
                last: Seq::empty(),
            }),
    {
        let r = EventRegistration {
            names: Vec::new(),
            notify_hwnd: 0,
            message: VTM_NOTIFY_EVENT,
            last: String::new(),
        };
        assert(r@.names =~= Seq::empty());
        assert(r@.last =~= Seq::empty());
        r
    }

    /// Notes what the other program wants to hear of; the message is the usual one
    /// where it names none.
    pub fn register(&mut self, notify_hwnd: i64, message_id: u32, event_names: &str)
        ensures
            final(self)@ == (Registration {
                names: names_of(event_names@),
                notify_hwnd,
                message: if message_id == 0 {
                    VTM_NOTIFY_EVENT
                } else {
                    message_id
                },
                last: old(self)@.last,
            }),
    {
        self.names = split_names(event_names);
        self.notify_hwnd = notify_hwnd;
        self.message = if message_id == 0 {
            VTM_NOTIFY_EVENT
        } else {
            message_id
        };
    }

    /// The names of the events, each with the sign behind it.
    pub fn names_text(&self) -> (r: String)
        ensures
            r@ == names_text_of(self@.names),
    {
        let ghost views = text_views(self.names@);
        let mut r = String::new();
        let mut i: usize = 0;
        assert(r@ =~= names_text_of(views.take(0)));
        while i < self.names.len()
            invariant
                i <= self.names@.len(),
                views == text_views(self.names@),
                r@ == names_text_of(views.take(i as int)),
            decreases self.names@.len() - i,
        {
            proof {
                assert(views.take(i + 1).drop_last() =~= views.take(i as int));
                assert(views.take(i + 1).last() == self.names@[i as int]@);
            }
            r.append(self.names[i].as_str());
            r.push('|');
            i += 1;
        }
        assert(views.take(self.names@.len() as int) =~= views);
        r
    }

    /// Tells the other program of an event.
    pub fn notify(&mut self, event: &str) -> (r: Option<Notification>)
        ensures
            r == old(self)@.notification(event@),
            final(self)@ == old(self)@.notified(event@),
    {
        let code = event_code(event);
        let asked: bool = self.asks_for(event);
        match code {
            Some(code) => if self.notify_hwnd != 0 && asked {
                self.last = concat(event, "|");
                proof {
                    reveal_strlit("|");
                    assert("|"@ =~= seq!['|']);
                    assert(self.last@ =~= event@.push('|'));
                }
                Some(Notification { notify_hwnd: self.notify_hwnd, message: self.message, code })
            } else {
                None
            },
            None => None,
        }
    }

    fn asks_for(&self, event: &str) -> (r: bool)
        ensures
            r == self@.names.contains(event@),
    {
        let mut i: usize = 0;
        while i < self.names.len()
            invariant
                i <= self.names@.len(),
                forall|j: int| 0 <= j < i ==> self@.names[j] != event@,
            decreases self.names@.len() - i,
        {
            assert(self@.names[i as int] == self.names@[i as int]@);
            if same_text(self.names[i].as_str(), event) {
                return true;
            }
            i += 1;
        }
        false
    }
}

/// The last event that the other program was told of is one that it asked for.
pub proof fn law_last_event_was_asked_for(r: Registration, event: Seq<char>)
    requires
        r.notified(event).last != r.last,
    ensures
        r.names.contains(event),
        r.notified(event).last == event.push('|'),
{
}

/// Whether a command of the editor may get keys of the other program's own: one
/// that edits, or one that the other program hears of.
pub open spec fn takes_keys_of(command: Seq<char>) -> bool {
    takes_keys_to_edit(command) || takes_keys_to_move(command) || command == "save_document"@
        || command == "save_document_as"@
}

/// Whether a command changes the text.
pub open spec fn takes_keys_to_edit(command: Seq<char>) -> bool {
    command == "newline"@ || command == "delete_back"@ || command == "delete"@ || command
        == "word_delete_back"@ || command == "word_delete_forward"@ || command == "copy"@ || command
        == "cut"@ || command == "paste"@ || command == "undo"@ || command == "bold_selection"@
        || command == "italic_selection"@ || command == "underline_selection"@ || command
        == "code_selection"@ || command == "indent_block"@ || command == "outdent_block"@
        || command == "exit_code_block"@
}

/// Whether a command moves in the text or selects.
pub open spec fn takes_keys_to_move(command: Seq<char>) -> bool {
    command == "focus_prev"@ || command == "focus_next"@ || command == "move_left"@ || command
        == "move_right"@ || command == "word_move_left"@ || command == "word_move_right"@ || command
        == "home"@ || command == "end"@ || command == "block_up"@ || command == "block_down"@
        || command == "select_left"@ || command == "select_right"@ || command
        == "word_select_left"@ || command == "word_select_right"@ || command == "select_home"@
        || command == "select_end"@ || command == "select_all"@
}

/// Whether a command of the editor may get keys of the other program's own.
pub fn takes_keys(command: &str) -> (r: bool)
    ensures
        r == takes_keys_of(command@),
{
    let edits: bool = same_text(command, "newline") || same_text(command, "delete_back")
        || same_text(command, "delete") || same_text(command, "word_delete_back") || same_text(
        command,
        "word_delete_forward",
    ) || same_text(command, "copy") || same_text(command, "cut") || same_text(command, "paste")
        || same_text(command, "undo") || same_text(command, "bold_selection") || same_text(
        command,
        "italic_selection",
    ) || same_text(command, "underline_selection") || same_text(command, "code_selection")
        || same_text(command, "indent_block") || same_text(command, "outdent_block") || same_text(
        command,
        "exit_code_block",
    );
    let moves: bool = same_text(command, "focus_prev") || same_text(command, "focus_next")
        || same_text(command, "move_left") || same_text(command, "move_right") || same_text(
        command,
        "word_move_left",
    ) || same_text(command, "word_move_right") || same_text(command, "home") || same_text(
        command,
        "end",
    ) || same_text(command, "block_up") || same_text(command, "block_down") || same_text(
        command,
        "select_left",
    ) || same_text(command, "select_right") || same_text(command, "word_select_left")
        || same_text(command, "word_select_right") || same_text(command, "select_home")
        || same_text(command, "select_end") || same_text(command, "select_all");
    edits || moves || same_text(command, "save_document") || same_text(command, "save_document_as")
}

/// The keys that the other program gave to commands of the editor.
pub struct KeyBindings {
    pub table: TextTable,
}

impl KeyBindings {
    /// Only commands that may have keys have some.
    pub open spec fn wf(&self) -> bool {
        &&& self.table.wf()
        &&& forall|command: Seq<char>| #[trigger]
            self.table@.contains_key(command) ==> takes_keys_of(command)
    }

    /// No keys of its own.
    pub fn new() -> (r: KeyBindings)
        ensures
            r.wf(),
            r.table@ == Map::<Seq<char>, Seq<char>>::empty(),
    {
        KeyBindings { table: TextTable::new() }
    }

    /// Gives keys to a command. A command that may have none is refused.
    pub fn set(&mut self, command: &str, keys: &str) -> (r: bool)
        requires
            old(self).wf(),
        ensures
            final(self).wf(),
            r == takes_keys_of(command@),
            r ==> final(self).table@ == old(self).table@.insert(command@, keys@),
            !r ==> final(self).table@ == old(self).table@,
    {
        if !takes_keys(command) {
            return false;
        }
        self.table.set(command, keys);
        true
    }

    /// The keys of a command.
    pub fn keys_of(&self, command: &str) -> (r: Vec<String>)
        requires
            self.wf(),
        ensures
            self.table@.contains_key(command@) ==> text_views(r@) == names_of(
                self.table@[command@],
            ),
            !self.table@.contains_key(command@) ==> r@.len() == 0,
    {
        match self.table.get(command) {
            Some(keys) => split_names(keys),
            None => Vec::new(),
        }
    }

    /// Takes all of its own keys back.
    pub fn reset(&mut self)
        ensures
            final(self).wf(),
            final(self).table@ == Map::<Seq<char>, Seq<char>>::empty(),
    {
        self.table.clear();
    }
}

/// Names are parted by bars, semicolons, commas and line breaks alike, and none of them is
/// in a name.
pub proof fn law_names_are_parted(s: Seq<char>, i: int)
    requires
        0 <= i < s.len(),
    ensures
        one_separator(s).len() == s.len(),
        s[i] == '|' || s[i] == ';' || s[i] == ',' || s[i] == '\n' ==> one_separator(s)[i] == '|',
        s[i] != '|' && s[i] != ';' && s[i] != ',' && s[i] != '\n' ==> one_separator(s)[i] == s[i],
{
}

/// A name is named alone, and with a mark behind it.
pub proof fn law_single_name_is_named(name: Seq<char>, mark: char)
    requires
        name.len() > 0,
        mark == '|' || mark == ';' || mark == ',' || mark == '\n',
        forall|i: int|
            0 <= i < name.len() ==> #[trigger] name[i] != '|' && name[i] != ';' && name[i] != ','
                && name[i] != '\n',
    ensures
        names_of(name) == seq![name],
        names_of(name.push(mark)) == seq![name],
{
    let one = one_separator(name);
    assert(one =~= name);
    lemma_no_mark(name);
    let two = one_separator(name.push(mark));
    assert(two =~= name.push('|'));
    lemma_find_from(two, '|', 0);
    let at = find_from(two, '|', 0);
    assert(two[name.len() as int] == '|');
    assert(at == name.len()) by {
        if at < name.len() {
            assert(two[at] == name[at]);
        }
    }
    assert(two.subrange(0, at) =~= name);
    let tail = pieces_from(two, '|', at + 1);
    lemma_find_from(two, '|', at + 1);
    assert(tail =~= seq![two.subrange(at + 1, two.len() as int)]);
    let all = pieces(two, '|');
    assert(all =~= seq![name, Seq::<char>::empty()]) by {
        assert(two.subrange(at + 1, two.len() as int) =~= Seq::<char>::empty());
    }
    reveal_with_fuel(not_empty, 3);
    assert(all.drop_last() =~= seq![name]);
    assert(seq![name].drop_last() =~= Seq::<Seq<char>>::empty());
    assert(not_empty(seq![name]) =~= seq![name]);
}

proof fn lemma_no_mark(name: Seq<char>)
    requires
        name.len() > 0,
        forall|i: int| 0 <= i < name.len() ==> #[trigger] name[i] != '|',
    ensures
        not_empty(pieces(name, '|')) == seq![name],
{
    lemma_find_from(name, '|', 0);
    let at = find_from(name, '|', 0);
    assert(at == name.len()) by {
        if at < name.len() {
            assert(name[at] == '|');
        }
    }
    assert(name.subrange(0, name.len() as int) =~= name);
    assert(pieces(name, '|') =~= seq![name]);
    reveal_with_fuel(not_empty, 2);
    assert(seq![name].drop_last() =~= Seq::<Seq<char>>::empty());
    assert(not_empty(seq![name]) =~= seq![name]);
}

/// A table gives back what was set last for a name, and leaves other names alone.
pub proof fn law_table_gives_back_what_was_set(
    entries: Seq<(String, String)>,
    last: (String, String),
    other: Seq<char>,
)
    ensures
        table_of(entries.push(last)).contains_key(last.0@),
        table_of(entries.push(last))[last.0@] == last.1@,
        other != last.0@ ==> table_of(entries.push(last)).contains_key(other) == table_of(
            entries,
        ).contains_key(other),
        other != last.0@ && table_of(entries).contains_key(other) ==> table_of(
            entries.push(last),
        )[other] == table_of(entries)[other],
{
    assert(entries.push(last).drop_last() =~= entries);
}

/// A window is told of an event by its number where it asked for it: of a save, a change and
/// a save under another name.
pub proof fn law_asked_for_events_are_told(r: Registration, event: Seq<char>)
    ensures
        event_code_of("save"@) == Some(1i64),
        event_code_of("change"@) == Some(2i64),
        event_code_of("save_as"@) == Some(3i64),
        r.notify_hwnd == 0 ==> r.notification(event) is None,
        !r.names.contains(event) ==> r.notification(event) is None,
        event_code_of(event) is None ==> r.notification(event) is None,
        r.notify_hwnd != 0 && r.names.contains(event) && event_code_of(event) is Some
            ==> r.notification(event) == Some(
            Notification {
                notify_hwnd: r.notify_hwnd,
                message: r.message,
                code: event_code_of(event)->0,
            },
        ),
        r.notification(event) is None ==> r.notified(event) == r,
{
    reveal_strlit("save");
    reveal_strlit("change");
    reveal_strlit("save_as");
    assert("save"@.len() == 4 && "change"@.len() == 6 && "save_as"@.len() == 7);
}

/// The names of events are told one behind the other, each with a bar.
pub proof fn law_names_are_told_with_bars(names: Seq<Seq<char>>, name: Seq<char>)
    ensures
        names_text_of(Seq::empty()).len() == 0,
        names_text_of(names.push(name)) == names_text_of(names) + name + seq!['|'],
{
    assert(names.push(name).drop_last() =~= names);
    assert((names_text_of(names) + name).push('|') =~= names_text_of(names) + name + seq!['|']);
}

} // verus!
