//! The properties of a control, by name: what another program may read of it, and
//! what it may set.

use crate::control::{
    command_if, command_view, document_view, text_or, Command, Control, ControlCommand,
    ControlState, DEFAULT_LANGUAGE, DEFAULT_THEME, VTM_NOTIFY_EVENT,
};
use crate::control_host::{
    names_of, names_text_of, split_names, takes_keys_of, EventRegistration, KeyBindings,
    Registration, TextTable,
};
use crate::markdown_display::{display_text, markdown_to_display_text, parsed_events};
use crate::pipe_commands::{signed_decimal, signed_text};
use crate::playlist_request::{law_unsigned_reads_decimals, parse_unsigned, unsigned_value};
use crate::text::{
    decimal, decimal_string, is_digit, join, joined_by, law_decimal_round_trips,
    law_text_is_parted_at_the_first_place, occurs_at, same_text, slice_text, split_once,
    split_once_at, starts_with, to_chars,
};
use crate::utf16::units;
use vstd::prelude::*;

verus! {

/// What a name stands for.
pub enum Property {
    Markdown,
    Length,
    DisplayText,
    Html,
    Theme,
    Language,
    /// A parameter of the theme.
    Parameter(String),
    Background,
    Visible,
    ChildWindow,
    Initialized,
    Caret,
    HiddenCaret,
    /// The keys of a command.
    Keys(String),
    EventNames,
    LastEvent,
    EventMessage,
    NotifyWindow,
    /// A text that the other program keeps with the control.
    Custom(String),
}

/// What a name stands for, with texts taken by view.
pub enum Meaning {
    Markdown,
    Length,
    DisplayText,
    Html,
    Theme,
    Language,
    Parameter(Seq<char>),
    Background,
    Visible,
    ChildWindow,
    Initialized,
    Caret,
    HiddenCaret,
    Keys(Seq<char>),
    EventNames,
    LastEvent,
    EventMessage,
    NotifyWindow,
    Custom(Seq<char>),
}

impl View for Property {
    type V = Meaning;

    open spec fn view(&self) -> Meaning {
        match self {
            Property::Markdown => Meaning::Markdown,
            Property::Length => Meaning::Length,
            Property::DisplayText => Meaning::DisplayText,
            Property::Html => Meaning::Html,
            Property::Theme => Meaning::Theme,
            Property::Language => Meaning::Language,
            Property::Parameter(name) => Meaning::Parameter(name@),
            Property::Background => Meaning::Background,
            Property::Visible => Meaning::Visible,
            Property::ChildWindow => Meaning::ChildWindow,
            Property::Initialized => Meaning::Initialized,
            Property::Caret => Meaning::Caret,
            Property::HiddenCaret => Meaning::HiddenCaret,
            Property::Keys(command) => Meaning::Keys(command@),
            Property::EventNames => Meaning::EventNames,
            Property::LastEvent => Meaning::LastEvent,
            Property::EventMessage => Meaning::EventMessage,
            Property::NotifyWindow => Meaning::NotifyWindow,
            Property::Custom(name) => Meaning::Custom(name@),
        }
    }
}

/// What a name stands for, where it is one of those that stand for themselves.
pub open spec fn plain_meaning(name: Seq<char>) -> Option<Meaning> {
    if name == "document.markdown"@ || name == "markdown"@ {
        Some(Meaning::Markdown)
    } else if name == "document.length"@ || name == "markdown.length"@ {
        Some(Meaning::Length)
    } else if name == "document.display_text"@ {
        Some(Meaning::DisplayText)
    } else if name == "document.html"@ {
        Some(Meaning::Html)
    } else if name == "theme.id"@ || name == "control.theme"@ {
        Some(Meaning::Theme)
    } else if name == "language.id"@ || name == "control.language"@ {
        Some(Meaning::Language)
    } else if name == "control.background_color"@ || name == "background_color"@ {
        Some(Meaning::Background)
    } else if name == "control.visible"@ {
        Some(Meaning::Visible)
    } else if name == "control.child_hwnd"@ {
        Some(Meaning::ChildWindow)
    } else if name == "control.initialized"@ {
        Some(Meaning::Initialized)
    } else if name == "editor.caret"@ || name == "caret.position"@ {
        Some(Meaning::Caret)
    } else if name == "editor.hide_caret"@ || name == "caret.hidden"@ {
        Some(Meaning::HiddenCaret)
    } else if name == "event.names"@ {
        Some(Meaning::EventNames)
    } else if name == "event.last"@ {
        Some(Meaning::LastEvent)
    } else if name == "event.message"@ {
        Some(Meaning::EventMessage)
    } else if name == "event.notify_hwnd"@ {
        Some(Meaning::NotifyWindow)
    } else {
        None
    }
}

/// Whether a theme has a parameter of this name.
pub open spec fn is_parameter(name: Seq<char>) -> bool {
    name == "editor_background"@ || name == "font_family"@ || name == "text_font_family"@ || name
        == "font_size"@ || name == "text_size"@ || name == "text_line_height"@ || name
        == "line_height"@ || name == "line_spacing"@ || name == "h1_size"@ || name == "h2_size"@
        || name == "h3_size"@ || name == "code_size"@ || name == "block_gap"@ || name
        == "paragraph_spacing"@ || name == "editor_padding"@ || name == "block_padding_x"@ || name
        == "block_padding_y"@ || name == "cursor_width"@
}

/// Whether a theme has a parameter of this name.
pub fn names_parameter(name: &str) -> (r: bool)
    ensures
        r == is_parameter(name@),
{
    same_text(name, "editor_background") || same_text(name, "font_family") || same_text(
        name,
        "text_font_family",
    ) || same_text(name, "font_size") || same_text(name, "text_size") || same_text(
        name,
        "text_line_height",
    ) || same_text(name, "line_height") || same_text(name, "line_spacing") || same_text(
        name,
        "h1_size",
    ) || same_text(name, "h2_size") || same_text(name, "h3_size") || same_text(name, "code_size")
        || same_text(name, "block_gap") || same_text(name, "paragraph_spacing") || same_text(
        name,
        "editor_padding",
    ) || same_text(name, "block_padding_x") || same_text(name, "block_padding_y") || same_text(
        name,
        "cursor_width",
    )
}

/// The parameter of a theme that a name stands for.
pub open spec fn parameter_in(name: Seq<char>) -> Option<Seq<char>> {
    let long = name.skip("theme.parameter."@.len() as int);
    let short = name.skip("theme."@.len() as int);
    if occurs_at(name, "theme.parameter."@, 0) && is_parameter(long) {
        Some(long)
    } else if occurs_at(name, "theme."@, 0) && is_parameter(short) {
        Some(short)
    } else {
        None
    }
}

/// What a name stands for. A name that is not known is a text of the other program.
pub open spec fn meaning_of(name: Seq<char>) -> Meaning {
    match plain_meaning(name) {
        Some(m) => m,
        None => match parameter_in(name) {
            Some(parameter) => Meaning::Parameter(parameter),
            None => if occurs_at(name, "editor.keybinding."@, 0) {
                Meaning::Keys(name.skip("editor.keybinding."@.len() as int))
            } else {
                Meaning::Custom(name)
            },
        },
    }
}

fn plain_property(name: &str) -> (r: Option<Property>)
    ensures
        r is Some <==> plain_meaning(name@) is Some,
        r matches Some(p) ==> Some(p@) == plain_meaning(name@),
{
    if same_text(name, "document.markdown") || same_text(name, "markdown") {
        Some(Property::Markdown)
    } else if same_text(name, "document.length") || same_text(name, "markdown.length") {
        Some(Property::Length)
    } else if same_text(name, "document.display_text") {
        Some(Property::DisplayText)
    } else if same_text(name, "document.html") {
        Some(Property::Html)
    } else if same_text(name, "theme.id") || same_text(name, "control.theme") {
        Some(Property::Theme)
    } else if same_text(name, "language.id") || same_text(name, "control.language") {
        Some(Property::Language)
    } else if same_text(name, "control.background_color") || same_text(name, "background_color") {
        Some(Property::Background)
    } else if same_text(name, "control.visible") {
        Some(Property::Visible)
    } else if same_text(name, "control.child_hwnd") {
        Some(Property::ChildWindow)
    } else if same_text(name, "control.initialized") {
        Some(Property::Initialized)
    } else if same_text(name, "editor.caret") || same_text(name, "caret.position") {
        Some(Property::Caret)
    } else if same_text(name, "editor.hide_caret") || same_text(name, "caret.hidden") {
        Some(Property::HiddenCaret)
    } else if same_text(name, "event.names") {
        Some(Property::EventNames)
    } else if same_text(name, "event.last") {
        Some(Property::LastEvent)
    } else if same_text(name, "event.message") {
        Some(Property::EventMessage)
    } else if same_text(name, "event.notify_hwnd") {
        Some(Property::NotifyWindow)
    } else {
        None
    }
}

/// The text behind a start that it has.
fn behind(name: &str, start: &str) -> (r: String)
    requires
        start@.len() <= name@.len(),
    ensures
        r@ == name@.skip(start@.len() as int),
{
    let chars = to_chars(name);
    let first = to_chars(start);
    let r = slice_text(&chars, first.len(), chars.len());
    assert(r@ =~= name@.skip(start@.len() as int));
    r
}

/// What a name stands for.
pub fn property_of(name: &str) -> (r: Property)
    ensures
        r@ == meaning_of(name@),
{
    if let Some(p) = plain_property(name) {
        return p;
    }
    if starts_with(name, "theme.parameter.") {
        let parameter = behind(name, "theme.parameter.");
        if names_parameter(parameter.as_str()) {
            return Property::Parameter(parameter);
        }
    }
    if starts_with(name, "theme.") {
        let parameter = behind(name, "theme.");
        if names_parameter(parameter.as_str()) {
            return Property::Parameter(parameter);
        }
    }
    if starts_with(name, "editor.keybinding.") {
        Property::Keys(behind(name, "editor.keybinding."))
    } else {
        Property::Custom(name.to_owned())
    }
}

/// The value of a hexadecimal digit; `None` for another character.
pub open spec fn hex_digit(c: char) -> Option<int> {
    if '0' <= c <= '9' {
        Some(c as int - '0' as int)
    } else if 'a' <= c <= 'f' {
        Some(c as int - 'a' as int + 10)
    } else if 'A' <= c <= 'F' {
        Some(c as int - 'A' as int + 10)
    } else {
        None
    }
}

/// The number that hexadecimal digits stand for.
pub open spec fn hex_value(s: Seq<char>) -> Option<int>
    decreases s.len(),
{
    if s.len() == 0 {
        Some(0)
    } else {
        match (hex_value(s.drop_last()), hex_digit(s.last())) {
            (Some(n), Some(d)) => Some(16 * n + d),
            _ => None,
        }
    }
}

/// A colour in six digits, with or without the sign for them.
pub open spec fn color_of(s: Seq<char>) -> Option<int> {
    let digits = if s.len() >= 2 && s[0] == '0' && s[1] == 'x' {
        s.skip(2)
    } else {
        s
    };
    if digits.len() == 6 {
        hex_value(digits)
    } else {
        None
    }
}

fn hex_digit_of(c: char) -> (r: Option<u32>)
    ensures
        r is Some <==> hex_digit(c) is Some,
        r matches Some(d) ==> hex_digit(c) == Some(d as int) && d < 16,
{
    if '0' <= c && c <= '9' {
        Some(c as u32 - '0' as u32)
    } else if 'a' <= c && c <= 'f' {
        Some(c as u32 - 'a' as u32 + 10)
    } else if 'A' <= c && c <= 'F' {
        Some(c as u32 - 'A' as u32 + 10)
    } else {
        None
    }
}

/// The colour that a text stands for.
pub fn parse_color(s: &str) -> (r: Option<u32>)
    ensures
        r is Some <==> color_of(s@) is Some,
        r matches Some(n) ==> color_of(s@) == Some(n as int) && n < 0x100_0000,
{
    let chars = to_chars(s);
    let n: usize = chars.len();
    let from: usize = if n >= 2 && chars[0] == '0' && chars[1] == 'x' {
        2
    } else {
        0
    };
    let ghost digits = s@.skip(from as int);
    assert(from == 0 ==> digits =~= s@);
    if n - from != 6 {
        return None;
    }
    assert(color_of(s@) == hex_value(digits));
    let mut value: u32 = 0;
    let mut i: usize = 0;
    while i < 6
        invariant
            i <= 6,
            color_of(s@) == hex_value(digits),
            chars@ == s@,
            n == from + 6 == s@.len(),
            digits == s@.skip(from as int),
            hex_value(digits.take(i as int)) == Some(value as int),
            i == 0 ==> value == 0,
            i == 1 ==> value < 0x10,
            i == 2 ==> value < 0x100,
            i == 3 ==> value < 0x1000,
            i == 4 ==> value < 0x1_0000,
            i == 5 ==> value < 0x10_0000,
            i == 6 ==> value < 0x100_0000,
        decreases 6 - i,
    {
        proof {
            assert(digits.take(i + 1).drop_last() =~= digits.take(i as int));
            assert(digits.take(i + 1).last() == chars@[from + i]);
        }
        match hex_digit_of(chars[from + i]) {
            Some(d) => {
                value = 16 * value + d;
            },
            None => {
                proof {
                    lemma_hex_prefix(digits, i + 1);
                }
                return None;
            },
        }
        i += 1;
    }
    assert(digits.take(6) =~= digits);
    Some(value)
}

proof fn lemma_hex_prefix(s: Seq<char>, n: int)
    requires
        0 <= n <= s.len(),
        hex_value(s.take(n)) is None,
    ensures
        hex_value(s) is None,
    decreases s.len() - n,
{
    if n < s.len() {
        assert(s.take(n + 1).drop_last() =~= s.take(n));
        lemma_hex_prefix(s, n + 1);
    } else {
        assert(s.take(n) =~= s);
    }
}

/// The digit for a number below sixteen.
pub open spec fn hex_char(d: int) -> char {
    if d < 10 {
        ('0' as int + d) as char
    } else {
        ('A' as int + d - 10) as char
    }
}

/// The lowest `width` hexadecimal digits of a number.
pub open spec fn hex_text(n: int, width: nat) -> Seq<char>
    decreases width,
{
    if width == 0 {
        seq![]
    } else {
        hex_text(n / 16, (width - 1) as nat).push(hex_char(n % 16))
    }
}

fn hex_char_of(d: u32) -> (r: char)
    requires
        d < 16,
    ensures
        r == hex_char(d as int),
{
    if d < 10 {
        (48 + d as u8) as char
    } else {
        (55 + d as u8) as char
    }
}

/// A colour in six digits.
pub fn color_text(color: u32) -> (r: String)
    ensures
        r@ == hex_text(color as int, 6),
{
    let mut r = String::new();
    r.push(hex_char_of(color / 0x10_0000 % 16));
    r.push(hex_char_of(color / 0x1_0000 % 16));
    r.push(hex_char_of(color / 0x1000 % 16));
    r.push(hex_char_of(color / 0x100 % 16));
    r.push(hex_char_of(color / 0x10 % 16));
    r.push(hex_char_of(color % 16));
    proof {
        reveal_with_fuel(hex_text, 7);
        let n = color as int;
        assert(n / 16 / 16 == n / 0x100);
        assert(n / 0x100 / 16 == n / 0x1000);
        assert(n / 0x1000 / 16 == n / 0x1_0000);
        assert(n / 0x1_0000 / 16 == n / 0x10_0000);
        assert(r@ =~= hex_text(n, 6));
    }
    r
}

/// A control, and what another program has set of it.
pub struct ControlHost {
    pub control: ControlState,
    pub parameters: TextTable,
    pub custom: TextTable,
    pub keys: KeyBindings,
    pub events: EventRegistration,
    pub caret_hidden: bool,
}

/// A control and what was set of it, with texts taken by view.
#[verifier::ext_equal]
pub struct Host {
    pub control: Control,
    pub parameters: Map<Seq<char>, Seq<char>>,
    pub custom: Map<Seq<char>, Seq<char>>,
    pub keys: Map<Seq<char>, Seq<char>>,
    pub events: Registration,
    pub caret_hidden: bool,
}

impl View for ControlHost {
    type V = Host;

    open spec fn view(&self) -> Host {
        Host {
            control: self.control@,
            parameters: self.parameters@,
            custom: self.custom@,
            keys: self.keys.table@,
            events: self.events@,
            caret_hidden: self.caret_hidden,
        }
    }
}

/// What a property is.
pub enum PropertyValue {
    Text(String),
    /// The text of the control as HTML, which the editor renders.
    Rendered,
    /// It cannot be read.
    Refused,
}

/// What a property is, with its text taken by view.
pub enum Value {
    Text(Seq<char>),
    Rendered,
    Refused,
}

impl View for PropertyValue {
    type V = Value;

    open spec fn view(&self) -> Value {
        match self {
            PropertyValue::Text(t) => Value::Text(t@),
            PropertyValue::Rendered => Value::Rendered,
            PropertyValue::Refused => Value::Refused,
        }
    }
}

/// What is done where a property is set.
pub enum PropertyAction {
    Done,
    /// It cannot be set, or not to this.
    Refused,
    Tell(ControlCommand),
    Show(bool),
    PlaceCaret(u32, u32),
    HideCaret(bool),
    /// The keys of the editor are put up again.
    RenewKeys,
}

/// What is done, with texts taken by view.
pub enum Reaction {
    Done,
    Refused,
    Tell(Command),
    Show(bool),
    PlaceCaret(u32, u32),
    HideCaret(bool),
    RenewKeys,
}

impl View for PropertyAction {
    type V = Reaction;

    open spec fn view(&self) -> Reaction {
        match self {
            PropertyAction::Done => Reaction::Done,
            PropertyAction::Refused => Reaction::Refused,
            PropertyAction::Tell(c) => Reaction::Tell(c@),
            PropertyAction::Show(b) => Reaction::Show(*b),
            PropertyAction::PlaceCaret(line, column) => Reaction::PlaceCaret(*line, *column),
            PropertyAction::HideCaret(b) => Reaction::HideCaret(*b),
            PropertyAction::RenewKeys => Reaction::RenewKeys,
        }
    }
}

/// The text of a name, or an empty one.
pub open spec fn looked_up(table: Map<Seq<char>, Seq<char>>, name: Seq<char>) -> Seq<char> {
    if table.contains_key(name) {
        table[name]
    } else {
        Seq::empty()
    }
}

/// Yes or no, as a property tells it.
pub open spec fn flag_text(flag: bool) -> Seq<char> {
    if flag {
        "1"@
    } else {
        "0"@
    }
}

/// A command, or nothing to be done where there is none.
pub open spec fn told(command: Option<Command>) -> Reaction {
    match command {
        Some(c) => Reaction::Tell(c),
        None => Reaction::Done,
    }
}

/// The line and the column that a text names, with a comma between them.
pub open spec fn caret_of(value: Seq<char>) -> Option<(int, int)> {
    match split_once_at(value, ","@) {
        Some((line, column)) => match (
            unsigned_value(line, u32::MAX as int),
            unsigned_value(column, u32::MAX as int),
        ) {
            (Some(l), Some(c)) => Some((l, c)),
            _ => None,
        },
        None => None,
    }
}

impl Host {
    /// What a property is. `document` is what the editor inside told when it was asked
    /// for its document.
    pub open spec fn value_of(self, m: Meaning, document: Option<Seq<char>>) -> Value {
        let text = self.control.current(document);
        match m {
            Meaning::Markdown => Value::Text(text),
            Meaning::Length => Value::Text(decimal(units(text).len())),
            Meaning::DisplayText => Value::Text(display_text(parsed_events(text))),
            Meaning::Html => Value::Rendered,
            Meaning::Theme => Value::Text(self.control.theme_id),
            Meaning::Language => Value::Text(self.control.language_id),
            Meaning::Parameter(name) => Value::Text(looked_up(self.parameters, name)),
            Meaning::Background => Value::Text(hex_text(self.control.background as int, 6)),
            Meaning::Visible => Value::Refused,
            Meaning::ChildWindow => Value::Text(signed_decimal(self.control.child_hwnd as int)),
            Meaning::Initialized => Value::Text(flag_text(self.control.initialized)),
            Meaning::Caret => Value::Refused,
            Meaning::HiddenCaret => Value::Text(flag_text(self.caret_hidden)),
            Meaning::Keys(command) => Value::Text(
                joined_by(names_of(looked_up(self.keys, command)), '|'),
            ),
            Meaning::EventNames => Value::Text(names_text_of(self.events.names)),
            Meaning::LastEvent => Value::Text(self.events.last),
            Meaning::EventMessage => Value::Text(decimal(self.events.message as nat)),
            Meaning::NotifyWindow => Value::Text(signed_decimal(self.events.notify_hwnd as int)),
            Meaning::Custom(name) => Value::Text(looked_up(self.custom, name)),
        }
    }

    /// The control after a property was set to a text, and what is done.
    pub open spec fn with_value(self, m: Meaning, value: Seq<char>) -> (Host, Reaction) {
        match m {
            Meaning::Markdown => (
                Host { control: Control { source: value, ..self.control }, ..self },
                told(command_if(self.control.initialized, Command::SetMarkdown(value))),
            ),
            Meaning::Theme => {
                let id = text_or(value, DEFAULT_THEME@);
                (
                    Host { control: Control { theme_id: id, ..self.control }, ..self },
                    told(command_if(self.control.initialized, Command::SetTheme(id))),
                )
            },
            Meaning::Language => {
                let id = text_or(value, DEFAULT_LANGUAGE@);
                (
                    Host { control: Control { language_id: id, ..self.control }, ..self },
                    told(command_if(self.control.initialized, Command::SetLanguage(id))),
                )
            },
            Meaning::Parameter(name) => (
                Host { parameters: self.parameters.insert(name, value), ..self },
                Reaction::Done,
            ),
            Meaning::Background => match color_of(value) {
                Some(color) => (
                    Host {
                        control: Control { background: color as u32, ..self.control },
                        ..self
                    },
                    Reaction::Done,
                ),
                None => (self, Reaction::Refused),
            },
            Meaning::Visible => {
                let visible = value == "1"@ || value == "true"@ || value == "show"@;
                (
                    Host { control: Control { visible, ..self.control }, ..self },
                    Reaction::Show(visible),
                )
            },
            Meaning::Caret => match caret_of(value) {
                Some((line, column)) => (
                    Host { caret_hidden: false, ..self },
                    Reaction::PlaceCaret(line as u32, column as u32),
                ),
                None => (self, Reaction::Refused),
            },
            Meaning::HiddenCaret => {
                let hidden = value == "1"@ || value == "true"@;
                (Host { caret_hidden: hidden, ..self }, Reaction::HideCaret(hidden))
            },
            Meaning::Keys(command) => if takes_keys_of(command) {
                (Host { keys: self.keys.insert(command, value), ..self }, Reaction::RenewKeys)
            } else {
                (self, Reaction::Refused)
            },
            Meaning::EventNames => (
                Host {
                    events: Registration { names: names_of(value), ..self.events },
                    ..self
                },
                Reaction::Done,
            ),
            Meaning::EventMessage => match unsigned_value(value, u32::MAX as int) {
                Some(n) => (
                    Host {
                        events: Registration {
                            message: if n == 0 {
                                VTM_NOTIFY_EVENT
                            } else {
                                n as u32
                            },
                            ..self.events
                        },
                        ..self
                    },
                    Reaction::Done,
                ),
                None => (self, Reaction::Refused),
            },
            Meaning::NotifyWindow => match unsigned_value(value, i64::MAX as int) {
                Some(n) => (
                    Host { events: Registration { notify_hwnd: n as i64, ..self.events }, ..self },
                    Reaction::Done,
                ),
                None => (self, Reaction::Refused),
            },
            Meaning::Custom(name) => (
                Host { custom: self.custom.insert(name, value), ..self },
                Reaction::Done,
            ),
            _ => (self, Reaction::Refused),
        }
    }
}

fn owned_or_empty(text: Option<&str>) -> (r: String)
    ensures
        text matches Some(t) ==> r@ == t@,
        text is None ==> r@ == Seq::<char>::empty(),
{
    match text {
        Some(t) => t.to_owned(),
        None => {
            let r = String::new();
            assert(r@ =~= Seq::empty());
            r
        },
    }
}

fn flag_string(flag: bool) -> (r: String)
    ensures
        r@ == flag_text(flag),
{
    if flag {
        "1".to_owned()
    } else {
        "0".to_owned()
    }
}

fn told_action(command: Option<ControlCommand>) -> (r: PropertyAction)
    ensures
        r@ == told(command_view(command)),
{
    match command {
        Some(c) => PropertyAction::Tell(c),
        None => PropertyAction::Done,
    }
}

/// The line and the column that a text names.
pub fn parse_caret(value: &str) -> (r: Option<(u32, u32)>)
    ensures
        r is Some <==> caret_of(value@) is Some,
        r matches Some((line, column)) ==> caret_of(value@) == Some((line as int, column as int)),
{
    match split_once(value, ",") {
        Some((line, column)) => match (
            parse_unsigned(line.as_str(), u32::MAX as u64),
            parse_unsigned(column.as_str(), u32::MAX as u64),
        ) {
            (Some(l), Some(c)) => Some((l as u32, c as u32)),
            _ => None,
        },
        None => None,
    }
}

impl ControlHost {
    /// The tables hold every name once, and only commands that may have keys have
    /// some.
    pub open spec fn wf(&self) -> bool {
        self.parameters.wf() && self.custom.wf() && self.keys.wf()
    }

    /// A control of which nothing was set.
    pub fn new() -> (r: ControlHost)
        ensures
            r.wf(),
            r@.control == Control::fresh(),
            r@.parameters == Map::<Seq<char>, Seq<char>>::empty(),
            r@.custom == Map::<Seq<char>, Seq<char>>::empty(),
            r@.keys == Map::<Seq<char>, Seq<char>>::empty(),
            r@.events.names == Seq::<Seq<char>>::empty(),
            r@.events.message == VTM_NOTIFY_EVENT,
            r@.events.notify_hwnd == 0,
            r@.events.last == Seq::<char>::empty(),
            r@.caret_hidden,
    {
        ControlHost {
            control: ControlState::new(),
            parameters: TextTable::new(),
            custom: TextTable::new(),
            keys: KeyBindings::new(),
            events: EventRegistration::new(),
            caret_hidden: true,
        }
    }

    fn value(&self, property: Property, document: Option<&str>) -> (r: PropertyValue)
        requires
            self.wf(),
        ensures
            r@ == self@.value_of(property@, document_view(document)),
    {
        match property {
            Property::Markdown => PropertyValue::Text(
                self.control.current_text(document).to_owned(),
            ),
            Property::Length => PropertyValue::Text(
                decimal_string(self.control.markdown_length(document) as u128),
            ),
            Property::DisplayText => PropertyValue::Text(
                markdown_to_display_text(self.control.current_text(document)),
            ),
            Property::Html => PropertyValue::Rendered,
            Property::Theme => PropertyValue::Text(self.control.theme_id.clone()),
            Property::Language => PropertyValue::Text(self.control.language_id.clone()),
            Property::Parameter(name) => PropertyValue::Text(
                owned_or_empty(self.parameters.get(name.as_str())),
            ),
            Property::Background => PropertyValue::Text(color_text(self.control.background)),
            Property::Visible => PropertyValue::Refused,
            Property::ChildWindow => PropertyValue::Text(signed_text(self.control.child_hwnd)),
            Property::Initialized => PropertyValue::Text(flag_string(self.control.initialized)),
            Property::Caret => PropertyValue::Refused,
            Property::HiddenCaret => PropertyValue::Text(flag_string(self.caret_hidden)),
            Property::Keys(command) => {
                let text = owned_or_empty(self.keys.table.get(command.as_str()));
                let names = split_names(text.as_str());
                PropertyValue::Text(join(&names, '|'))
            },
            Property::EventNames => PropertyValue::Text(self.events.names_text()),
            Property::LastEvent => PropertyValue::Text(self.events.last.clone()),
            Property::EventMessage => PropertyValue::Text(
                decimal_string(self.events.message as u128),
            ),
            Property::NotifyWindow => PropertyValue::Text(signed_text(self.events.notify_hwnd)),
            Property::Custom(name) => PropertyValue::Text(
                owned_or_empty(self.custom.get(name.as_str())),
            ),
        }
    }

    /// What the property of a name is. `document` is what the editor inside told when it
    /// was asked for its document.
    pub fn get_property(&self, name: &str, document: Option<&str>) -> (r: PropertyValue)
        requires
            self.wf(),
        ensures
            r@ == self@.value_of(meaning_of(name@), document_view(document)),
    {
        self.value(property_of(name), document)
    }

    fn set_event(&mut self, property: Property, value: &str) -> (r: PropertyAction)
        requires
            old(self).wf(),
            property is EventNames || property is EventMessage || property is NotifyWindow,
        ensures
            final(self).wf(),
            (final(self)@, r@) == old(self)@.with_value(property@, value@),
    {
        match property {
            Property::EventNames => {
                self.events.names = split_names(value);
                PropertyAction::Done
            },
            Property::EventMessage => match parse_unsigned(value, u32::MAX as u64) {
                Some(n) => {
                    self.events.message = if n == 0 {
                        VTM_NOTIFY_EVENT
                    } else {
                        n as u32
                    };
                    PropertyAction::Done
                },
                None => PropertyAction::Refused,
            },
            _ => match parse_unsigned(value, i64::MAX as u64) {
                Some(n) => {
                    self.events.notify_hwnd = n as i64;
                    PropertyAction::Done
                },
                None => PropertyAction::Refused,
            },
        }
    }

    fn set_value(&mut self, property: Property, value: &str) -> (r: PropertyAction)
        requires
            old(self).wf(),
        ensures
            final(self).wf(),
            (final(self)@, r@) == old(self)@.with_value(property@, value@),
    {
        match property {
            Property::Markdown => {
                let command = self.control.set_markdown(value.to_owned());
                told_action(command)
            },
            Property::Theme => {
                let command = self.control.set_theme(value);
                told_action(command)
            },
            Property::Language => {
                let command = self.control.set_language(value);
                told_action(command)
            },
            Property::Parameter(name) => {
                self.parameters.set(name.as_str(), value);
                PropertyAction::Done
            },
            Property::Background => match parse_color(value) {
                Some(color) => {
                    self.control.background = color;
                    PropertyAction::Done
                },
                None => PropertyAction::Refused,
            },
            Property::Visible => {
                let visible: bool = same_text(value, "1") || same_text(value, "true")
                    || same_text(value, "show");
                self.control.show(visible);
                PropertyAction::Show(visible)
            },
            Property::Caret => match parse_caret(value) {
                Some((line, column)) => {
                    self.caret_hidden = false;
                    PropertyAction::PlaceCaret(line, column)
                },
                None => PropertyAction::Refused,
            },
            Property::HiddenCaret => {
                let hidden: bool = same_text(value, "1") || same_text(value, "true");
                self.caret_hidden = hidden;
                PropertyAction::HideCaret(hidden)
            },
            Property::Keys(command) => if self.keys.set(command.as_str(), value) {
                PropertyAction::RenewKeys
            } else {
                PropertyAction::Refused
            },
            Property::EventNames => self.set_event(Property::EventNames, value),
            Property::EventMessage => self.set_event(Property::EventMessage, value),
            Property::NotifyWindow => self.set_event(Property::NotifyWindow, value),
            Property::Custom(name) => {
                self.custom.set(name.as_str(), value);
                PropertyAction::Done
            },
            _ => PropertyAction::Refused,
        }
    }

    /// Sets the property of a name.
    pub fn set_property(&mut self, name: &str, value: &str) -> (r: PropertyAction)
        requires
            old(self).wf(),
        ensures
            final(self).wf(),
            (final(self)@, r@) == old(self)@.with_value(meaning_of(name@), value@),
    {
        let property = property_of(name);
        self.set_value(property, value)
    }
}

/// A text that was set is read back: a parameter of the theme, what the other program
/// keeps, a theme or a language that is not empty, and the text of a control that was
/// not started, or whose editor holds what it was told.
pub proof fn law_property_is_read_back(
    host: Host,
    m: Meaning,
    value: Seq<char>,
    document: Option<Seq<char>>,
)
    requires
        m is Markdown || m is Parameter || m is Custom || ((m is Theme || m is Language)
            && value.len() > 0),
        m is Markdown && host.control.initialized && document is Some ==> document->0 == value,
    ensures
        host.with_value(m, value).0.value_of(m, document) == Value::Text(value),
{
}

/// Once a control was started, its properties tell the document of the editor inside,
/// which holds what the user typed; before that they tell the text that was set.
pub proof fn law_document_properties_follow_the_editor(host: Host, document: Seq<char>)
    ensures
        ({
            let text = if host.control.initialized {
                document
            } else {
                host.control.source
            };
            &&& host.value_of(Meaning::Markdown, Some(document)) == Value::Text(text)
            &&& host.value_of(Meaning::Length, Some(document)) == Value::Text(
                decimal(units(text).len()),
            )
            &&& host.value_of(Meaning::DisplayText, Some(document)) == Value::Text(
                display_text(parsed_events(text)),
            )
        }),
{
}

/// What is refused changes nothing.
pub proof fn law_refused_property_changes_nothing(host: Host, m: Meaning, value: Seq<char>)
    requires
        host.with_value(m, value).1 is Refused,
    ensures
        host.with_value(m, value).0 == host,
{
}

/// A colour that was written is read again.
pub proof fn law_color_round_trips(color: int)
    requires
        0 <= color < 0x100_0000,
    ensures
        color_of(hex_text(color, 6)) == Some(color),
{
    reveal_with_fuel(pow16, 7);
    lemma_hex_round_trips(color, 6);
    lemma_hex_chars(color, 6);
    let s = hex_text(color, 6);
    assert(s[1] != 'x') by {
        lemma_hex_chars(color, 6);
        assert(hex_digit(s[1]) is Some);
    }
}

/// Two to the power of four times `width`.
pub open spec fn pow16(width: nat) -> int
    decreases width,
{
    if width == 0 {
        1
    } else {
        16 * pow16((width - 1) as nat)
    }
}

proof fn lemma_hex_char(d: int)
    requires
        0 <= d < 16,
    ensures
        hex_digit(hex_char(d)) == Some(d),
{
}

proof fn lemma_hex_chars(n: int, width: nat)
    requires
        0 <= n,
    ensures
        hex_text(n, width).len() == width,
        forall|i: int| 0 <= i < width ==> hex_digit(#[trigger] hex_text(n, width)[i]) is Some,
    decreases width,
{
    if width > 0 {
        let front = hex_text(n / 16, (width - 1) as nat);
        lemma_hex_chars(n / 16, (width - 1) as nat);
        lemma_hex_char(n % 16);
        assert forall|i: int| 0 <= i < width implies hex_digit(
            #[trigger] hex_text(n, width)[i],
        ) is Some by {
            if i < width - 1 {
                assert(hex_text(n, width)[i] == front[i]);
            }
        }
    }
}

proof fn lemma_hex_round_trips(n: int, width: nat)
    requires
        0 <= n < pow16(width),
    ensures
        hex_value(hex_text(n, width)) == Some(n),
    decreases width,
{
    if width > 0 {
        lemma_hex_round_trips(n / 16, (width - 1) as nat);
        lemma_hex_char(n % 16);
        let s = hex_text(n, width);
        assert(s.drop_last() =~= hex_text(n / 16, (width - 1) as nat));
    }
}

/// The names of the properties of the document, of the control, of its caret and its events.
pub proof fn law_properties_have_their_names()
    ensures
        meaning_of("document.markdown"@) == Meaning::Markdown,
        meaning_of("markdown"@) == Meaning::Markdown,
        meaning_of("theme.id"@) == Meaning::Theme,
        meaning_of("language.id"@) == Meaning::Language,
        meaning_of("control.background_color"@) == Meaning::Background,
        meaning_of("control.visible"@) == Meaning::Visible,
        meaning_of("editor.caret"@) == Meaning::Caret,
        meaning_of("event.names"@) == Meaning::EventNames,
        meaning_of("event.message"@) == Meaning::EventMessage,
{
    reveal_strlit("document.markdown");
    reveal_strlit("markdown");
    reveal_strlit("document.length");
    reveal_strlit("markdown.length");
    reveal_strlit("document.display_text");
    reveal_strlit("document.html");
    reveal_strlit("theme.id");
    reveal_strlit("control.theme");
    reveal_strlit("language.id");
    reveal_strlit("control.language");
    reveal_strlit("control.background_color");
    reveal_strlit("background_color");
    reveal_strlit("control.visible");
    reveal_strlit("control.child_hwnd");
    reveal_strlit("control.initialized");
    reveal_strlit("editor.caret");
    reveal_strlit("caret.position");
    reveal_strlit("editor.hide_caret");
    reveal_strlit("caret.hidden");
    reveal_strlit("event.names");
    reveal_strlit("event.last");
    reveal_strlit("event.message");
    assert("theme.id"@.len() == 8 && "markdown"@.len() == 8 && "theme.id"@[0] == 't'
        && "markdown"@[0] == 'm');
    assert("language.id"@.len() == 11 && "event.names"@.len() == 11 && "language.id"@[0] == 'l'
        && "event.names"@[0] == 'e');
    assert("control.background_color"@.len() == 24 && "control.visible"@.len() == 15
        && "control.visible"@[0] == 'c' && "document.length"@.len() == 15 && "document.length"@[0]
        == 'd' && "markdown.length"@.len() == 15 && "markdown.length"@[0] == 'm');
    assert("editor.caret"@.len() == 12 && "caret.hidden"@.len() == 12 && "editor.caret"@[0] == 'e'
        && "caret.hidden"@[0] == 'c');
    assert("event.message"@.len() == 13 && "document.html"@.len() == 13 && "document.html"@[0]
        == 'd' && "control.theme"@.len() == 13 && "control.theme"@[0] == 'c' && "event.message"@[0]
        == 'e');
    assert("document.markdown"@.len() == 17 && "document.display_text"@.len() == 21
        && "control.language"@.len() == 16 && "background_color"@.len() == 16
        && "control.child_hwnd"@.len() == 18 && "control.initialized"@.len() == 19
        && "caret.position"@.len() == 14 && "editor.hide_caret"@.len() == 17
        && "editor.hide_caret"@[0] == 'e' && "document.markdown"@[0] == 'd'
        && "event.last"@.len() == 10);
}

/// A property changes what it stands for, and tells the editor where that was started; what
/// it does not stand for stays.
pub proof fn law_property_changes_what_it_stands_for(host: Host, value: Seq<char>)
    ensures
        ({
            let (after, reaction) = host.with_value(Meaning::Markdown, value);
            &&& after.control == Control { source: value, ..host.control }
            &&& after.parameters == host.parameters && after.keys == host.keys && after.events
                == host.events && after.custom == host.custom
            &&& host.control.initialized ==> reaction == Reaction::Tell(Command::SetMarkdown(value))
            &&& !host.control.initialized ==> reaction == Reaction::Done
        }),
        ({
            let (after, reaction) = host.with_value(Meaning::Theme, value);
            let id = if value.len() > 0 {
                value
            } else {
                "velotype-light"@
            };
            &&& after.control == Control { theme_id: id, ..host.control }
            &&& host.control.initialized ==> reaction == Reaction::Tell(Command::SetTheme(id))
        }),
        ({
            let (after, reaction) = host.with_value(Meaning::Language, value);
            let id = if value.len() > 0 {
                value
            } else {
                "en-US"@
            };
            &&& after.control == Control { language_id: id, ..host.control }
            &&& host.control.initialized ==> reaction == Reaction::Tell(Command::SetLanguage(id))
        }),
        host.with_value(Meaning::Length, value) == (host, Reaction::Refused),
        host.with_value(Meaning::DisplayText, value) == (host, Reaction::Refused),
        host.with_value(Meaning::Initialized, value) == (host, Reaction::Refused),
{
}

/// A parameter, a property of one's own and the keys of a command are kept by their names,
/// and others stay; keys are taken for known commands only.
pub proof fn law_named_values_are_kept(
    host: Host,
    name: Seq<char>,
    value: Seq<char>,
    other: Seq<char>,
    document: Option<Seq<char>>,
)
    requires
        other != name,
    ensures
        ({
            let (after, _) = host.with_value(Meaning::Parameter(name), value);
            &&& after.value_of(Meaning::Parameter(name), document) == Value::Text(value)
            &&& after.value_of(Meaning::Parameter(other), document) == host.value_of(
                Meaning::Parameter(other),
                document,
            )
            &&& after.control == host.control
        }),
        ({
            let (after, _) = host.with_value(Meaning::Custom(name), value);
            &&& after.value_of(Meaning::Custom(name), document) == Value::Text(value)
            &&& after.value_of(Meaning::Custom(other), document) == host.value_of(
                Meaning::Custom(other),
                document,
            )
        }),
        ({
            let (after, reaction) = host.with_value(Meaning::Keys(name), value);
            &&& takes_keys_of(name) ==> after.keys[name] == value && reaction == Reaction::RenewKeys
            &&& !takes_keys_of(name) ==> after == host && reaction == Reaction::Refused
        }),
{
}

/// A colour is kept where it is one, the control is shown and hidden by the words for it, and
/// the caret is placed where a line and a column are given.
pub proof fn law_colour_caret_and_sight(host: Host, color: int, line: nat, column: nat)
    requires
        0 <= color < 0x100_0000,
        line <= u32::MAX,
        column <= u32::MAX,
    ensures
        host.with_value(Meaning::Background, hex_text(color, 6)).0.control.background == color,
        host.with_value(Meaning::Background, Seq::empty()) == (host, Reaction::Refused),
        host.with_value(Meaning::Visible, "1"@).0.control.visible,
        host.with_value(Meaning::Visible, "1"@).1 == Reaction::Show(true),
        host.with_value(Meaning::Visible, "true"@).0.control.visible,
        !host.with_value(Meaning::Visible, "0"@).0.control.visible,
        host.with_value(Meaning::HiddenCaret, "1"@).0.caret_hidden,
        !host.with_value(Meaning::HiddenCaret, "0"@).0.caret_hidden,
        ({
            let (after, reaction) = host.with_value(
                Meaning::Caret,
                decimal(line) + seq![','] + decimal(column),
            );
            !after.caret_hidden && reaction == Reaction::PlaceCaret(line as u32, column as u32)
        }),
{
    law_color_round_trips(color);
    reveal_strlit("0");
    reveal_strlit("1");
    reveal_strlit("true");
    reveal_strlit("show");
    reveal_strlit(",");
    assert("0"@[0] == '0' && "1"@[0] == '1');
    assert("0"@.len() == 1 && "true"@.len() == 4 && "show"@.len() == 4);
    assert(color_of(Seq::<char>::empty()) is None);
    let (a, b) = (decimal(line), decimal(column));
    let text = a + seq![','] + b;
    assert(","@ =~= seq![',']);
    law_text_is_parted_at_the_first_place(text, ","@);
    law_decimal_round_trips(line);
    let n = a.len() as int;
    assert(text.subrange(n, n + 1) =~= ","@);
    assert(occurs_at(text, ","@, n));
    let (x, y) = split_once_at(text, ","@)->0;
    assert(x.len() == n) by {
        if x.len() < n {
            assert((x + ","@ + y)[x.len() as int] == ',');
            assert(is_digit(a[x.len() as int]));
        }
    }
    assert(x =~= a) by {
        assert forall|i: int| 0 <= i < n implies x[i] == a[i] by {
            assert(text[i] == (x + ","@ + y)[i]);
        }
    }
    assert(y =~= b) by {
        assert forall|i: int| 0 <= i < y.len() implies y[i] == b[i] by {
            assert(text[n + 1 + i] == (x + ","@ + y)[n + 1 + i]);
        }
    }
    law_unsigned_reads_decimals(line, u32::MAX as int);
    law_unsigned_reads_decimals(column, u32::MAX as int);
}

/// The events that are asked for, the message and the window that they are told by are kept
/// as they are given; no message is the usual one.
pub proof fn law_events_are_kept(host: Host, names: Seq<char>, n: nat)
    requires
        n <= u32::MAX,
    ensures
        host.with_value(Meaning::EventNames, names).0.events.names == names_of(names),
        n > 0 ==> host.with_value(Meaning::EventMessage, decimal(n)).0.events.message == n,
        host.with_value(Meaning::EventMessage, decimal(0)).0.events.message == 0x0441,
        host.with_value(Meaning::NotifyWindow, decimal(n)).0.events.notify_hwnd == n,
        host.with_value(Meaning::NotifyWindow, decimal(n)).0.events.names == host.events.names,
{
    law_unsigned_reads_decimals(n, u32::MAX as int);
    law_unsigned_reads_decimals(n, i64::MAX as int);
    law_unsigned_reads_decimals(0, u32::MAX as int);
}

/// A colour is read from six digits of base sixteen, the most significant one first, of either
/// case and behind the usual sign or without it; nothing else is one.
pub proof fn law_colour_is_read_from_six_digits(s: Seq<char>, c: char)
    ensures
        s.len() == 6 && s[1] != 'x' ==> color_of(s) == hex_value(s) && color_of(
            seq!['0', 'x'] + s,
        ) == hex_value(s),
        hex_digit(c) is Some && hex_value(s) is Some ==> hex_value(s.push(c)) == Some(
            16 * hex_value(s)->0 + hex_digit(c)->0,
        ),
        hex_digit(c) is None ==> hex_value(s.push(c)) is None,
        s.len() < 6 ==> color_of(s) is None,
        hex_digit('0') == Some(0int) && hex_digit('9') == Some(9int),
        hex_digit('a') == Some(10int) && hex_digit('F') == Some(15int),
        hex_digit('g') is None,
{
    assert(s.push(c).drop_last() =~= s);
    if s.len() == 6 {
        assert((seq!['0', 'x'] + s).skip(2) =~= s);
    }
}

/// What the properties tell of the control, its keys, its caret and its events.
pub proof fn law_properties_tell_what_is_kept(host: Host, command: Seq<char>, document: Option<Seq<char>>)
    ensures
        host.value_of(Meaning::Theme, document) == Value::Text(host.control.theme_id),
        host.value_of(Meaning::Language, document) == Value::Text(host.control.language_id),
        host.value_of(Meaning::Background, document) == Value::Text(
            hex_text(host.control.background as int, 6),
        ),
        host.control.initialized ==> host.value_of(Meaning::Initialized, document) == Value::Text(
            "1"@,
        ),
        !host.control.initialized ==> host.value_of(Meaning::Initialized, document) == Value::Text(
            "0"@,
        ),
        host.caret_hidden ==> host.value_of(Meaning::HiddenCaret, document) == Value::Text("1"@),
        host.keys.contains_key(command) ==> host.value_of(Meaning::Keys(command), document)
            == Value::Text(joined_by(names_of(host.keys[command]), '|')),
        host.value_of(Meaning::EventMessage, document) == Value::Text(
            decimal(host.events.message as nat),
        ),
        host.value_of(Meaning::LastEvent, document) == Value::Text(host.events.last),
        host.value_of(Meaning::EventNames, document) == Value::Text(
            names_text_of(host.events.names),
        ),
        host.value_of(Meaning::Visible, document) == Value::Refused,
        host.value_of(Meaning::Caret, document) == Value::Refused,
        host.value_of(Meaning::Html, document) == Value::Rendered,
{
}

} // verus!
