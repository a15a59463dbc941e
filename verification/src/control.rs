//! The editor as a control in the window of another program: its messages, its
//! text, and what it tells the other program.

use crate::text::concat;
use crate::utf16::{
    char_units, decode_lossy, decoded, encode, is_high, is_low, pair_char, terminated_len,
    to_wstring, units, utf16_len,
};
use vstd::prelude::*;

verus! {

pub const WM_CREATE: u32 = 0x0001;

pub const WM_DESTROY: u32 = 0x0002;

pub const WM_SIZE: u32 = 0x0005;

pub const WM_SETTEXT: u32 = 0x000c;

pub const WM_GETTEXT: u32 = 0x000d;

pub const WM_GETTEXTLENGTH: u32 = 0x000e;

pub const WM_PAINT: u32 = 0x000f;

pub const WM_ERASEBKGND: u32 = 0x0014;

pub const WM_NCCREATE: u32 = 0x0081;

pub const WM_NCDESTROY: u32 = 0x0082;

pub const VTM_SETMARKDOWN: u32 = 0x0401;

pub const VTM_GETMARKDOWNLENGTH: u32 = 0x0402;

pub const VTM_GETMARKDOWN: u32 = 0x0403;

pub const VTM_INITIALIZE: u32 = 0x0404;

pub const VTM_SHOW: u32 = 0x0405;

pub const VTM_SETTHEME: u32 = 0x0406;

pub const VTM_SETLANGUAGE: u32 = 0x0407;

pub const VTM_CHILD_READY: u32 = 0x0440;

pub const VTM_NOTIFY_EVENT: u32 = 0x0441;

/// The theme and the language of a control that was told none.
pub const DEFAULT_THEME: &'static str = "velotype-light";

pub const DEFAULT_LANGUAGE: &'static str = "en-US";

/// The class of the control's window.
pub const DEFAULT_CLASS: &'static str = "Velotype";

/// The colour behind the control before it draws itself.
pub const DEFAULT_BACKGROUND: u32 = 0x00f0_f0f0;

/// A message to the control.
#[derive(Clone, Copy, PartialEq, Eq, Structural)]
pub enum ControlMessage {
    NcCreate,
    Create,
    ChildReady(i64),
    SetMarkdown,
    GetTextLength,
    GetMarkdownLength,
    GetText,
    GetMarkdown,
    Initialize,
    Show(bool),
    SetTheme,
    SetLanguage,
    EraseBackground,
    Size,
    Paint,
    Destroy,
    NcDestroy,
    Other,
}

/// What the number of a message stands for.
pub open spec fn control_message_of(message: u32, w_param: usize) -> ControlMessage {
    if message == WM_NCCREATE {
        ControlMessage::NcCreate
    } else if message == WM_CREATE {
        ControlMessage::Create
    } else if message == VTM_CHILD_READY {
        ControlMessage::ChildReady(w_param as i64)
    } else if message == WM_SETTEXT || message == VTM_SETMARKDOWN {
        ControlMessage::SetMarkdown
    } else if message == WM_GETTEXTLENGTH {
        ControlMessage::GetTextLength
    } else if message == VTM_GETMARKDOWNLENGTH {
        ControlMessage::GetMarkdownLength
    } else if message == WM_GETTEXT {
        ControlMessage::GetText
    } else if message == VTM_GETMARKDOWN {
        ControlMessage::GetMarkdown
    } else if message == VTM_INITIALIZE {
        ControlMessage::Initialize
    } else if message == VTM_SHOW {
        ControlMessage::Show(w_param != 0)
    } else if message == VTM_SETTHEME {
        ControlMessage::SetTheme
    } else if message == VTM_SETLANGUAGE {
        ControlMessage::SetLanguage
    } else if message == WM_ERASEBKGND {
        ControlMessage::EraseBackground
    } else if message == WM_SIZE {
        ControlMessage::Size
    } else if message == WM_PAINT {
        ControlMessage::Paint
    } else if message == WM_DESTROY {
        ControlMessage::Destroy
    } else if message == WM_NCDESTROY {
        ControlMessage::NcDestroy
    } else {
        ControlMessage::Other
    }
}

/// What the number of a message stands for.
pub fn control_message(message: u32, w_param: usize) -> (r: ControlMessage)
    ensures
        r == control_message_of(message, w_param),
{
    match message {
        WM_NCCREATE => ControlMessage::NcCreate,
        WM_CREATE => ControlMessage::Create,
        VTM_CHILD_READY => ControlMessage::ChildReady(w_param as i64),
        WM_SETTEXT | VTM_SETMARKDOWN => ControlMessage::SetMarkdown,
        WM_GETTEXTLENGTH => ControlMessage::GetTextLength,
        VTM_GETMARKDOWNLENGTH => ControlMessage::GetMarkdownLength,
        WM_GETTEXT => ControlMessage::GetText,
        VTM_GETMARKDOWN => ControlMessage::GetMarkdown,
        VTM_INITIALIZE => ControlMessage::Initialize,
        VTM_SHOW => ControlMessage::Show(w_param != 0),
        VTM_SETTHEME => ControlMessage::SetTheme,
        VTM_SETLANGUAGE => ControlMessage::SetLanguage,
        WM_ERASEBKGND => ControlMessage::EraseBackground,
        WM_SIZE => ControlMessage::Size,
        WM_PAINT => ControlMessage::Paint,
        WM_DESTROY => ControlMessage::Destroy,
        WM_NCDESTROY => ControlMessage::NcDestroy,
        _ => ControlMessage::Other,
    }
}

/// A text, or another one where it is empty.
pub open spec fn text_or(text: Seq<char>, other: Seq<char>) -> Seq<char> {
    if text.len() == 0 {
        other
    } else {
        text
    }
}

/// What the control asks of the editor inside it.
pub enum ControlCommand {
    SetMarkdown(String),
    SetTheme(String),
    SetLanguage(String),
    Close,
}

/// What the control asks of the editor, with its text taken by view.
pub enum Command {
    SetMarkdown(Seq<char>),
    SetTheme(Seq<char>),
    SetLanguage(Seq<char>),
    Close,
}

impl View for ControlCommand {
    type V = Command;

    open spec fn view(&self) -> Command {
        match self {
            ControlCommand::SetMarkdown(s) => Command::SetMarkdown(s@),
            ControlCommand::SetTheme(s) => Command::SetTheme(s@),
            ControlCommand::SetLanguage(s) => Command::SetLanguage(s@),
            ControlCommand::Close => Command::Close,
        }
    }
}

/// A command that may be missing, taken by view.
pub open spec fn command_view(command: Option<ControlCommand>) -> Option<Command> {
    match command {
        Some(c) => Some(c@),
        None => None,
    }
}

/// A command, where the editor inside was started.
pub open spec fn command_if(initialized: bool, command: Command) -> Option<Command> {
    if initialized {
        Some(command)
    } else {
        None
    }
}

/// The control.
pub struct ControlState {
    /// The text that it shows.
    pub source: String,
    pub theme_id: String,
    pub language_id: String,
    /// Whether the editor inside it was started.
    pub initialized: bool,
    /// The window of the editor inside it; zero until it is there.
    pub child_hwnd: i64,
    pub visible: bool,
    pub background: u32,
}

/// The control with its texts taken by view.
#[verifier::ext_equal]
pub struct Control {
    pub source: Seq<char>,
    pub theme_id: Seq<char>,
    pub language_id: Seq<char>,
    pub initialized: bool,
    pub child_hwnd: i64,
    pub visible: bool,
    pub background: u32,
}

impl View for ControlState {
    type V = Control;

    open spec fn view(&self) -> Control {
        Control {
            source: self.source@,
            theme_id: self.theme_id@,
            language_id: self.language_id@,
            initialized: self.initialized,
            child_hwnd: self.child_hwnd,
            visible: self.visible,
            background: self.background,
        }
    }
}

/// A text that may be missing, taken by view.
pub open spec fn text_view(text: Option<String>) -> Option<Seq<char>> {
    match text {
        Some(t) => Some(t@),
        None => None,
    }
}

/// The document of the editor inside, by view; `None` where it was not told.
pub open spec fn document_view(document: Option<&str>) -> Option<Seq<char>> {
    match document {
        Some(text) => Some(text@),
        None => None,
    }
}

impl Control {
    /// A control without a text.
    pub open spec fn fresh() -> Control {
        Control {
            source: Seq::empty(),
            theme_id: DEFAULT_THEME@,
            language_id: DEFAULT_LANGUAGE@,
            initialized: false,
            child_hwnd: 0,
            visible: false,
            background: DEFAULT_BACKGROUND,
        }
    }

    /// The text of the control: the document of the editor inside, once it was
    /// started and has told it, else the text that was set.
    pub open spec fn current(self, document: Option<Seq<char>>) -> Seq<char> {
        match document {
            Some(text) => if self.initialized {
                text
            } else {
                self.source
            },
            None => self.source,
        }
    }

    /// The control, started with a text.
    pub open spec fn started(self, markdown: Option<Seq<char>>) -> Control {
        match markdown {
            Some(m) => if self.initialized && m.len() == 0 {
                self
            } else {
                Control { initialized: true, source: m, ..self }
            },
            None => Control { initialized: true, ..self },
        }
    }

    /// What is asked of the editor where the control is started again.
    pub open spec fn start_command(self, markdown: Option<Seq<char>>) -> Option<Command> {
        match markdown {
            Some(m) => if self.initialized && m.len() > 0 {
                Some(Command::SetMarkdown(m))
            } else {
                None
            },
            None => None,
        }
    }
}

/// What is copied of some units into a buffer: as many as fit before the zero that
/// ends them.
pub open spec fn copied_units(value: Seq<u16>, capacity: int) -> Seq<u16> {
    let n = terminated_len(value);
    value.take(
        if n < capacity - 1 {
            n
        } else {
            capacity - 1
        },
    ).push(0)
}

/// Copies units into a buffer of `capacity` units. The result is what is written,
/// and how many units of it are text. Without a buffer nothing is written.
pub fn copy_utf16(value: &[u16], capacity: usize, has_target: bool) -> (r: (Vec<u16>, usize))
    ensures
        !has_target || capacity == 0 ==> r.0@.len() == 0 && r.1 == 0,
        has_target && capacity > 0 ==> r.0@ == copied_units(value@, capacity as int) && r.1
            == r.0@.len() - 1,
{
    let mut out: Vec<u16> = Vec::new();
    if !has_target || capacity == 0 {
        return (out, 0);
    }
    let count: usize = utf16_len(value);
    let n: usize = if count < capacity - 1 {
        count
    } else {
        capacity - 1
    };
    let mut i: usize = 0;
    while i < n
        invariant
            n <= value@.len(),
            i <= n,
            out@ == value@.take(i as int),
        decreases n - i,
    {
        out.push(value[i]);
        i += 1;
        assert(out@ =~= value@.take(i as int));
    }
    out.push(0);
    (out, n)
}

/// The text that units stand for, up to the zero that ends them.
pub open spec fn read_wide_of(value: Seq<u16>) -> Seq<char> {
    decoded(value.take(terminated_len(value)))
}

/// The text that units stand for, up to the zero that ends them.
pub fn read_wide(value: &[u16]) -> (r: String)
    ensures
        r@ == read_wide_of(value@),
{
    let n: usize = utf16_len(value);
    let part = vstd::slice::slice_subrange(value, 0, n);
    assert(part@ =~= value@.take(n as int));
    decode_lossy(part)
}

impl ControlState {
    /// A control without a text.
    pub fn new() -> (r: ControlState)
        ensures
            r@ == Control::fresh(),
    {
        let r = ControlState {
            source: String::new(),
            theme_id: DEFAULT_THEME.to_owned(),
            language_id: DEFAULT_LANGUAGE.to_owned(),
            initialized: false,
            child_hwnd: 0,
            visible: false,
            background: DEFAULT_BACKGROUND,
        };
        assert(r.source@ =~= Seq::empty());
        r
    }

    /// Sets the text. The editor inside is told, once it was started.
    pub fn set_markdown(&mut self, markdown: String) -> (r: Option<ControlCommand>)
        ensures
            final(self)@ == (Control { source: markdown@, ..old(self)@ }),
            command_view(r) == command_if(
                old(self).initialized,
                Command::SetMarkdown(markdown@),
            ),
    {
        let command: Option<ControlCommand> = if self.initialized {
            Some(ControlCommand::SetMarkdown(markdown.clone()))
        } else {
            None
        };
        self.source = markdown;
        command
    }

    /// Starts the editor inside with a text. A control that was started already
    /// takes a text that is not empty as a new one. The first result says whether
    /// the editor has to be started.
    pub fn initialize(&mut self, markdown: Option<String>) -> (r: (bool, Option<ControlCommand>))
        ensures
            r.0 == !old(self).initialized,
            final(self)@ == old(self)@.started(text_view(markdown)),
            command_view(r.1) == old(self)@.start_command(text_view(markdown)),
    {
        if !self.initialized {
            self.initialized = true;
            if let Some(m) = markdown {
                self.source = m;
            }
            return (true, None);
        }
        match markdown {
            Some(m) => if m.as_str().is_empty() {
                (false, None)
            } else {
                let command = self.set_markdown(m);
                (false, command)
            },
            None => (false, None),
        }
    }

    /// Notes that the editor inside could not be started.
    pub fn start_failed(&mut self)
        ensures
            final(self)@ == (Control { initialized: false, ..old(self)@ }),
    {
        self.initialized = false;
    }

    /// Notes the window of the editor inside.
    pub fn child_ready(&mut self, child_hwnd: i64)
        ensures
            final(self)@ == (Control { child_hwnd, ..old(self)@ }),
    {
        self.child_hwnd = child_hwnd;
    }

    /// Shows or hides the control.
    pub fn show(&mut self, visible: bool)
        ensures
            final(self)@ == (Control { visible, ..old(self)@ }),
    {
        self.visible = visible;
    }

    /// Sets the theme; an empty name is the usual one.
    pub fn set_theme(&mut self, theme_id: &str) -> (r: Option<ControlCommand>)
        ensures
            final(self)@ == (Control {
                theme_id: text_or(theme_id@, DEFAULT_THEME@),
                ..old(self)@
            }),
            command_view(r) == command_if(
                old(self).initialized,
                Command::SetTheme(text_or(theme_id@, DEFAULT_THEME@)),
            ),
    {
        let id: String = if theme_id.is_empty() {
            DEFAULT_THEME.to_owned()
        } else {
            theme_id.to_owned()
        };
        self.theme_id = id.clone();
        if self.initialized {
            Some(ControlCommand::SetTheme(id))
        } else {
            None
        }
    }

    /// Sets the language; an empty name is the usual one.
    pub fn set_language(&mut self, language_id: &str) -> (r: Option<ControlCommand>)
        ensures
            final(self)@ == (Control {
                language_id: text_or(language_id@, DEFAULT_LANGUAGE@),
                ..old(self)@
            }),
            command_view(r) == command_if(
                old(self).initialized,
                Command::SetLanguage(text_or(language_id@, DEFAULT_LANGUAGE@)),
            ),
    {
        let id: String = if language_id.is_empty() {
            DEFAULT_LANGUAGE.to_owned()
        } else {
            language_id.to_owned()
        };
        self.language_id = id.clone();
        if self.initialized {
            Some(ControlCommand::SetLanguage(id))
        } else {
            None
        }
    }

    /// The text of the control: the document of the editor inside, once it was
    /// started and has told it, else the text that was set.
    pub fn current_text<'a>(&'a self, document: Option<&'a str>) -> (r: &'a str)
        ensures
            r@ == self@.current(document_view(document)),
    {
        match document {
            Some(text) => if self.initialized {
                text
            } else {
                self.source.as_str()
            },
            None => self.source.as_str(),
        }
    }

    /// The length of the text in units, without the zero that ends it.
    pub fn markdown_length(&self, document: Option<&str>) -> (r: usize)
        ensures
            r == units(self@.current(document_view(document))).len(),
    {
        encode(self.current_text(document)).len()
    }

    /// The length of the text as the system counts it: up to the first zero.
    pub fn text_length(&self, document: Option<&str>) -> (r: usize)
        ensures
            r == terminated_len(units(self@.current(document_view(document))).push(0)),
    {
        let wide = to_wstring(self.current_text(document));
        utf16_len(wide.as_slice())
    }

    /// Copies the text into a buffer of `capacity` units.
    pub fn get_text(&self, document: Option<&str>, capacity: usize, has_target: bool) -> (r: (
        Vec<u16>,
        usize,
    ))
        ensures
            !has_target || capacity == 0 ==> r.0@.len() == 0 && r.1 == 0,
            has_target && capacity > 0 ==> r.0@ == copied_units(
                units(self@.current(document_view(document))).push(0),
                capacity as int,
            ) && r.1 == r.0@.len() - 1,
    {
        let wide = to_wstring(self.current_text(document));
        copy_utf16(wide.as_slice(), capacity, has_target)
    }

    /// Copies the text into a buffer of `capacity` units. The second result is how
    /// many units the whole text takes, without the zero that ends it.
    pub fn get_markdown(&self, document: Option<&str>, capacity: usize, has_target: bool) -> (r: (
        Vec<u16>,
        usize,
    ))
        ensures
            !has_target || capacity == 0 ==> r.0@.len() == 0,
            has_target && capacity > 0 ==> r.0@ == copied_units(
                units(self@.current(document_view(document))).push(0),
                capacity as int,
            ),
            r.1 == units(self@.current(document_view(document))).len(),
    {
        let (written, _count) = self.get_text(document, capacity, has_target);
        (written, self.markdown_length(document))
    }

    /// What is asked of the editor inside when the control goes.
    pub fn close(&self) -> (r: Option<ControlCommand>)
        ensures
            command_view(r) == command_if(self.initialized, Command::Close),
    {
        if self.initialized {
            Some(ControlCommand::Close)
        } else {
            None
        }
    }
}

/// The size of the editor inside a control: at least one in each direction. `None`
/// while it is not there.
pub fn child_size(child_hwnd: i64, width: i32, height: i32) -> (r: Option<(i32, i32)>)
    ensures
        r == (if child_hwnd == 0 {
            None
        } else {
            Some((at_least_one(width), at_least_one(height)))
        }),
{
    if child_hwnd == 0 {
        return None;
    }
    let w: i32 = if width < 1 {
        1
    } else {
        width
    };
    let h: i32 = if height < 1 {
        1
    } else {
        height
    };
    Some((w, h))
}

/// An extent, at least one.
pub open spec fn at_least_one(n: i32) -> i32 {
    if n < 1 {
        1
    } else {
        n
    }
}

pub const WS_VISIBLE: u32 = 0x1000_0000;

/// A child that is clipped against its own children and against its neighbours.
pub const CHILD_STYLE: u32 = 0x4600_0000;

pub const CREATE_VISIBLE: u32 = 0x01;

pub const CREATE_INITIALIZE: u32 = 0x02;

pub const CREATE_FOCUS: u32 = 0x04;

pub const CREATE_RESIZABLE: u32 = 0x08;

/// How a control is made.
#[derive(Clone, Copy, PartialEq, Eq, Structural)]
pub struct CreatePlan {
    pub style: u32,
    pub initialize: bool,
    pub focus: bool,
    pub resizable: bool,
}

/// How a control is made for a style and some flags; without a style it is a plain
/// child.
pub open spec fn create_plan_of(style: u32, flags: u32) -> CreatePlan {
    CreatePlan {
        style: (if style == 0 {
            CHILD_STYLE
        } else {
            style
        }) | (if (flags & CREATE_VISIBLE) != 0 {
            WS_VISIBLE
        } else {
            0
        }),
        initialize: (flags & CREATE_INITIALIZE) != 0,
        focus: (flags & CREATE_FOCUS) != 0,
        resizable: (flags & CREATE_RESIZABLE) != 0,
    }
}

/// How a control is made for a style and some flags; without a style it is a plain
/// child.
pub fn create_plan(style: u32, flags: u32) -> (r: CreatePlan)
    ensures
        r == create_plan_of(style, flags),
{
    let base: u32 = if style == 0 {
        CHILD_STYLE
    } else {
        style
    };
    let shown: u32 = if (flags & CREATE_VISIBLE) != 0 {
        WS_VISIBLE
    } else {
        0
    };
    CreatePlan {
        style: base | shown,
        initialize: (flags & CREATE_INITIALIZE) != 0,
        focus: (flags & CREATE_FOCUS) != 0,
        resizable: (flags & CREATE_RESIZABLE) != 0,
    }
}

/// The classes of the windows for a name: that of the control, and the two of the
/// editor inside it. An empty name is refused.
pub fn class_names(name: &str) -> (r: Option<(String, String, String)>)
    ensures
        r is Some <==> name@.len() > 0,
        r matches Some((outer, inner, platform)) ==> outer@ == name@ && inner@ == name@
            + "::Window"@ && platform@ == name@ + "::PlatformWindow"@,
{
    if name.is_empty() {
        return None;
    }
    Some((name.to_owned(), concat(name, "::Window"), concat(name, "::PlatformWindow")))
}

/// What is to be done for a message.
pub enum ControlAction {
    Nothing,
    /// Ask this of the editor inside.
    Tell(ControlCommand),
    /// Start the editor inside with the text of the control.
    Start,
    /// Give the window of the editor the size of the control.
    Resize(i64),
    /// Show or hide the control.
    Show(bool),
    /// Say that the window needs no drawing.
    Validate,
    /// End the program.
    Quit,
    /// Leave the message to the system, after the editor was asked to close.
    Default(Option<ControlCommand>),
}

/// What is to be done, with texts taken by view.
pub enum Action {
    Nothing,
    Tell(Command),
    Start,
    Resize(i64),
    Show(bool),
    Validate,
    Quit,
    Default(Option<Command>),
}

impl View for ControlAction {
    type V = Action;

    open spec fn view(&self) -> Action {
        match self {
            ControlAction::Nothing => Action::Nothing,
            ControlAction::Tell(c) => Action::Tell(c@),
            ControlAction::Start => Action::Start,
            ControlAction::Resize(w) => Action::Resize(*w),
            ControlAction::Show(b) => Action::Show(*b),
            ControlAction::Validate => Action::Validate,
            ControlAction::Quit => Action::Quit,
            ControlAction::Default(c) => Action::Default(command_view(*c)),
        }
    }
}

/// What a message is answered.
pub struct ControlReply {
    /// The number that is handed back; not for a message that is left to the system.
    pub result: usize,
    /// What is written to the buffer of the sender.
    pub written: Vec<u16>,
    pub action: ControlAction,
}

/// What a message is answered, taken by view.
#[verifier::ext_equal]
pub struct Answer {
    pub result: int,
    pub written: Seq<u16>,
    pub action: Action,
}

impl View for ControlReply {
    type V = Answer;

    open spec fn view(&self) -> Answer {
        Answer { result: self.result as int, written: self.written@, action: self.action@ }
    }
}

/// What comes with a message.
#[derive(Clone, Copy)]
pub struct ControlInput<'a> {
    /// The text that the sender hands over, up to any place behind its zero.
    pub text: Option<&'a [u16]>,
    /// What the editor inside told when it was asked for its document.
    pub document: Option<&'a str>,
    /// How many units the buffer of the sender holds.
    pub capacity: usize,
    /// Whether the sender has a buffer.
    pub has_target: bool,
    /// Whether a control is started as it is made.
    pub start_now: bool,
    /// Whether the control has no window round it.
    pub standalone: bool,
}

/// A control that may be missing, taken by view.
pub open spec fn control_view(state: Option<ControlState>) -> Option<Control> {
    match state {
        Some(s) => Some(s@),
        None => None,
    }
}

/// The text that comes with a message; `None` without one.
pub open spec fn input_text(text: Option<&[u16]>) -> Option<Seq<char>> {
    match text {
        Some(t) => Some(read_wide_of(t@)),
        None => None,
    }
}

/// A text, or an empty one where it is missing.
pub open spec fn or_empty(text: Option<Seq<char>>) -> Seq<char> {
    match text {
        Some(t) => t,
        None => Seq::empty(),
    }
}

/// An answer that writes nothing.
pub open spec fn plain_answer(result: int, action: Action) -> Answer {
    Answer { result, written: Seq::empty(), action }
}

/// The answer to a request for a text.
pub open spec fn text_answer(source: Seq<char>, capacity: int, has_target: bool) -> Answer {
    if !has_target || capacity == 0 {
        plain_answer(0, Action::Nothing)
    } else {
        let written = copied_units(units(source).push(0), capacity);
        Answer { result: written.len() - 1, written, action: Action::Nothing }
    }
}

/// A command as an action.
pub open spec fn tell(command: Option<Command>) -> Action {
    match command {
        Some(c) => Action::Tell(c),
        None => Action::Nothing,
    }
}

/// The answer of a control, and what becomes of it.
pub open spec fn answer_of(
    s: Control,
    message: ControlMessage,
    input: ControlInput,
) -> (Option<Control>, Answer) {
    let text = input_text(input.text);
    let current = s.current(document_view(input.document));
    match message {
        ControlMessage::NcCreate => (Some(Control::fresh()), plain_answer(1, Action::Nothing)),
        ControlMessage::Create => (
            Some(Control { source: or_empty(text), initialized: input.start_now, ..s }),
            plain_answer(
                0,
                if input.start_now {
                    Action::Start
                } else {
                    Action::Nothing
                },
            ),
        ),
        ControlMessage::ChildReady(child_hwnd) => (
            Some(Control { child_hwnd, ..s }),
            plain_answer(0, Action::Resize(child_hwnd)),
        ),
        ControlMessage::SetMarkdown => (
            Some(Control { source: or_empty(text), ..s }),
            plain_answer(
                1,
                tell(command_if(s.initialized, Command::SetMarkdown(or_empty(text)))),
            ),
        ),
        ControlMessage::GetTextLength => (
            Some(s),
            plain_answer(terminated_len(units(current).push(0)), Action::Nothing),
        ),
        ControlMessage::GetMarkdownLength => (
            Some(s),
            plain_answer(units(current).len() as int, Action::Nothing),
        ),
        ControlMessage::GetText | ControlMessage::GetMarkdown => (
            Some(s),
            text_answer(current, input.capacity as int, input.has_target),
        ),
        ControlMessage::Initialize => (
            Some(s.started(text)),
            plain_answer(
                1,
                if s.initialized {
                    tell(s.start_command(text))
                } else {
                    Action::Start
                },
            ),
        ),
        ControlMessage::Show(visible) => (
            Some(Control { visible, ..s }),
            plain_answer(1, Action::Show(visible)),
        ),
        ControlMessage::SetTheme => {
            let id = text_or(or_empty(text), DEFAULT_THEME@);
            (
                Some(Control { theme_id: id, ..s }),
                plain_answer(1, tell(command_if(s.initialized, Command::SetTheme(id)))),
            )
        },
        ControlMessage::SetLanguage => {
            let id = text_or(or_empty(text), DEFAULT_LANGUAGE@);
            (
                Some(Control { language_id: id, ..s }),
                plain_answer(1, tell(command_if(s.initialized, Command::SetLanguage(id)))),
            )
        },
        ControlMessage::EraseBackground => (Some(s), plain_answer(1, Action::Nothing)),
        ControlMessage::Size => (Some(s), plain_answer(0, Action::Resize(s.child_hwnd))),
        ControlMessage::Paint => (Some(s), plain_answer(0, Action::Validate)),
        ControlMessage::Destroy => (
            Some(s),
            plain_answer(
                0,
                if input.standalone {
                    Action::Quit
                } else {
                    Action::Nothing
                },
            ),
        ),
        ControlMessage::NcDestroy => (
            None,
            plain_answer(0, Action::Default(command_if(s.initialized, Command::Close))),
        ),
        ControlMessage::Other => (Some(s), plain_answer(0, Action::Default(None))),
    }
}

/// The answer where the control is not there.
pub open spec fn answer_without(message: ControlMessage, input: ControlInput) -> (
    Option<Control>,
    Answer,
) {
    match message {
        ControlMessage::NcCreate => (Some(Control::fresh()), plain_answer(1, Action::Nothing)),
        ControlMessage::SetMarkdown | ControlMessage::EraseBackground => (
            None,
            plain_answer(1, Action::Nothing),
        ),
        ControlMessage::GetMarkdown => (
            None,
            text_answer(Seq::empty(), input.capacity as int, input.has_target),
        ),
        ControlMessage::Paint => (None, plain_answer(0, Action::Validate)),
        ControlMessage::NcDestroy | ControlMessage::Other => (
            None,
            plain_answer(0, Action::Default(None)),
        ),
        _ => (None, plain_answer(0, Action::Nothing)),
    }
}

fn plain_reply(result: usize, action: ControlAction) -> (r: ControlReply)
    ensures
        r@ == plain_answer(result as int, action@),
{
    let written: Vec<u16> = Vec::new();
    assert(written@ =~= Seq::empty());
    ControlReply { result, written, action }
}

fn tell_reply(result: usize, command: Option<ControlCommand>) -> (r: ControlReply)
    ensures
        r@ == plain_answer(result as int, tell(command_view(command))),
{
    match command {
        Some(c) => plain_reply(result, ControlAction::Tell(c)),
        None => plain_reply(result, ControlAction::Nothing),
    }
}

fn text_reply(state: &ControlState, input: &ControlInput) -> (r: ControlReply)
    ensures
        r@ == text_answer(
            state@.current(document_view(input.document)),
            input.capacity as int,
            input.has_target,
        ),
{
    let (written, result) = state.get_text(input.document, input.capacity, input.has_target);
    assert(written@.len() == 0 ==> written@ =~= Seq::empty());
    ControlReply { result, written, action: ControlAction::Nothing }
}

fn read_input(text: Option<&[u16]>) -> (r: Option<String>)
    ensures
        text_view(r) == input_text(text),
{
    match text {
        Some(t) => Some(read_wide(t)),
        None => None,
    }
}

fn read_input_or_empty(text: Option<&[u16]>) -> (r: String)
    ensures
        r@ == or_empty(input_text(text)),
{
    match text {
        Some(t) => read_wide(t),
        None => {
            let r = String::new();
            assert(r@ =~= Seq::empty());
            r
        },
    }
}

impl ControlState {
    fn answer(&mut self, message: ControlMessage, input: ControlInput) -> (r: ControlReply)
        requires
            message != ControlMessage::NcDestroy,
        ensures
            Some(final(self)@) == answer_of(old(self)@, message, input).0,
            r@ == answer_of(old(self)@, message, input).1,
    {
        match message {
            ControlMessage::NcCreate => {
                *self = ControlState::new();
                plain_reply(1, ControlAction::Nothing)
            },
            ControlMessage::Create => {
                self.source = read_input_or_empty(input.text);
                self.initialized = input.start_now;
                plain_reply(
                    0,
                    if input.start_now {
                        ControlAction::Start
                    } else {
                        ControlAction::Nothing
                    },
                )
            },
            ControlMessage::ChildReady(child_hwnd) => {
                self.child_ready(child_hwnd);
                plain_reply(0, ControlAction::Resize(child_hwnd))
            },
            ControlMessage::SetMarkdown => {
                let command = self.set_markdown(read_input_or_empty(input.text));
                tell_reply(1, command)
            },
            ControlMessage::GetTextLength => {
                plain_reply(self.text_length(input.document), ControlAction::Nothing)
            },
            ControlMessage::GetMarkdownLength => {
                plain_reply(self.markdown_length(input.document), ControlAction::Nothing)
            },
            ControlMessage::GetText | ControlMessage::GetMarkdown => text_reply(self, &input),
            ControlMessage::Initialize => {
                let (start, command) = self.initialize(read_input(input.text));
                if start {
                    plain_reply(1, ControlAction::Start)
                } else {
                    tell_reply(1, command)
                }
            },
            ControlMessage::Show(visible) => {
                self.show(visible);
                plain_reply(1, ControlAction::Show(visible))
            },
            ControlMessage::SetTheme => {
                let command = self.set_theme(read_input_or_empty(input.text).as_str());
                tell_reply(1, command)
            },
            ControlMessage::SetLanguage => {
                let command = self.set_language(read_input_or_empty(input.text).as_str());
                tell_reply(1, command)
            },
            ControlMessage::EraseBackground => plain_reply(1, ControlAction::Nothing),
            ControlMessage::Size => plain_reply(0, ControlAction::Resize(self.child_hwnd)),
            ControlMessage::Paint => plain_reply(0, ControlAction::Validate),
            ControlMessage::Destroy => plain_reply(
                0,
                if input.standalone {
                    ControlAction::Quit
                } else {
                    ControlAction::Nothing
                },
            ),
            ControlMessage::NcDestroy | ControlMessage::Other => plain_reply(
                0,
                ControlAction::Default(None),
            ),
        }
    }
}

/// Answers a message to the control. The control is there from the message that
/// makes it to the one that ends it.
pub fn control_wnd_proc(
    state: &mut Option<ControlState>,
    message: ControlMessage,
    input: ControlInput,
) -> (r: ControlReply)
    ensures
        *old(state) is Some ==> (control_view(*final(state)), r@) == answer_of(
            (*old(state))->0@,
            message,
            input,
        ),
        *old(state) is None ==> (control_view(*final(state)), r@) == answer_without(
            message,
            input,
        ),
{
    match state.take() {
        Some(mut control) => {
            if let ControlMessage::NcDestroy = message {
                let command = control.close();
                return plain_reply(0, ControlAction::Default(command));
            }
            let reply = control.answer(message, input);
            *state = Some(control);
            reply
        },
        None => match message {
            ControlMessage::NcCreate => {
                *state = Some(ControlState::new());
                plain_reply(1, ControlAction::Nothing)
            },
            ControlMessage::SetMarkdown | ControlMessage::EraseBackground => plain_reply(
                1,
                ControlAction::Nothing,
            ),
            ControlMessage::GetMarkdown => text_reply(&ControlState::new(), &input),
            ControlMessage::Paint => plain_reply(0, ControlAction::Validate),
            ControlMessage::NcDestroy | ControlMessage::Other => plain_reply(
                0,
                ControlAction::Default(None),
            ),
            _ => plain_reply(0, ControlAction::Nothing),
        },
    }
}

/// A text that was set by a message is what the next message gets, as long as the
/// editor inside, where it was started, holds what it was told.
pub proof fn law_set_text_is_got(s: Control, set: ControlInput, get: ControlInput)
    requires
        set.text is Some,
        s.initialized && get.document is Some ==> get.document->0@ == read_wide_of(set.text->0@),
        get.has_target,
        get.capacity > units(read_wide_of(set.text->0@)).len(),
    ensures
        ({
            let after = answer_of(s, ControlMessage::SetMarkdown, set).0->0;
            let got = answer_of(after, ControlMessage::GetMarkdown, get).1;
            &&& read_wide_of(got.written) == read_wide_of(set.text->0@)
            &&& got.result == units(read_wide_of(set.text->0@)).len()
        }),
{
    let u = set.text->0@;
    lemma_no_zero_before(u);
    lemma_no_zero_char(u.take(terminated_len(u)));
    law_markdown_is_read_back(read_wide_of(u), get.capacity as int);
}

/// A started control answers from the document of the editor inside, which holds what
/// the user typed, whatever text was set; one that was not started answers from the
/// text that was set, whatever comes with the message.
pub proof fn law_started_control_tells_the_document(s: Control, get: ControlInput)
    requires
        get.document is Some,
    ensures
        ({
            let text = if s.initialized {
                get.document->0@
            } else {
                s.source
            };
            let capacity = get.capacity as int;
            &&& answer_of(s, ControlMessage::GetMarkdownLength, get).1.result == units(text).len()
            &&& answer_of(s, ControlMessage::GetMarkdown, get).1 == text_answer(
                text,
                capacity,
                get.has_target,
            )
            &&& answer_of(s, ControlMessage::GetText, get).1 == text_answer(
                text,
                capacity,
                get.has_target,
            )
            &&& answer_of(s, ControlMessage::GetTextLength, get).1.result == terminated_len(
                units(text).push(0),
            )
        }),
{
}

/// The editor inside hears of a new text only once it was started.
pub proof fn law_commands_need_a_started_editor(
    s: Control,
    message: ControlMessage,
    input: ControlInput,
)
    requires
        !s.initialized,
    ensures
        !(answer_of(s, message, input).1.action is Tell),
{
}

/// The text that was set is read back whole, where the buffer has room for it.
pub proof fn law_markdown_is_read_back(source: Seq<char>, capacity: int)
    requires
        !source.contains('\0'),
        capacity > units(source).len(),
    ensures
        copied_units(units(source).push(0), capacity) == units(source).push(0),
        read_wide_of(copied_units(units(source).push(0), capacity)) == source,
{
    let wide = units(source).push(0);
    lemma_no_zero_unit(source);
    crate::utf16::law_terminator_marks_the_end(units(source));
    assert(terminated_len(wide) == units(source).len());
    assert(wide.take(units(source).len() as int) =~= units(source));
    crate::utf16::law_text_round_trips(source);
}

/// A buffer that is too small gets the start of the text, and is never filled
/// beyond its size.
pub proof fn law_small_buffer_gets_the_start(source: Seq<char>, capacity: int)
    requires
        0 < capacity,
    ensures
        copied_units(units(source).push(0), capacity).len() <= capacity,
        copied_units(units(source).push(0), capacity).last() == 0,
        copied_units(units(source).push(0), capacity).drop_last().is_prefix_of(units(source)),
{
    let wide = units(source).push(0);
    lemma_terminated_before_end(units(source));
    let n = terminated_len(wide);
    let m = if n < capacity - 1 {
        n
    } else {
        capacity - 1
    };
    assert(copied_units(wide, capacity).drop_last() =~= wide.take(m));
    assert(wide.take(m) =~= units(source).subrange(0, m));
}

proof fn lemma_no_zero_before(u: Seq<u16>)
    ensures
        0 <= terminated_len(u) <= u.len(),
        !u.take(terminated_len(u)).contains(0),
    decreases u.len(),
{
    if u.len() > 0 && u[0] != 0 {
        let rest = u.drop_first();
        lemma_no_zero_before(rest);
        let part = u.take(terminated_len(u));
        let rest_part = rest.take(terminated_len(rest));
        assert forall|i: int| 0 <= i < part.len() implies part[i] != 0 by {
            if i > 0 {
                assert(part[i] == rest_part[i - 1]);
                assert(rest_part.contains(rest_part[i - 1]));
            }
        }
    }
}

proof fn lemma_no_zero_char(u: Seq<u16>)
    requires
        !u.contains(0),
    ensures
        !decoded(u).contains('\0'),
    decreases u.len(),
{
    if u.len() > 0 {
        let pair = u.len() >= 2 && is_high(u[0]) && is_low(u[1]);
        let n: int = if pair {
            2
        } else {
            1
        };
        let rest = u.skip(n);
        assert forall|i: int| 0 <= i < rest.len() implies rest[i] != 0 by {
            assert(u.contains(u[i + n]));
        }
        lemma_no_zero_char(rest);
        assert(u.contains(u[0]));
        let d = decoded(u);
        assert(d[0] != '\0') by {
            lemma_first_char(u);
        }
        assert forall|i: int| 0 <= i < d.len() implies d[i] != '\0' by {
            if i > 0 {
                assert(d[i] == decoded(rest)[i - 1]);
                assert(decoded(rest).contains(decoded(rest)[i - 1]));
            }
        }
    }
}

proof fn lemma_first_char(u: Seq<u16>)
    requires
        u.len() > 0,
        u[0] != 0,
    ensures
        decoded(u)[0] != '\0',
{
    let a = u[0];
    if u.len() >= 2 && is_high(a) && is_low(u[1]) {
        let b = u[1];
        let n = (0x1_0000 + (a - 0xd800) * 0x400 + (b - 0xdc00)) as u32;
        assert(0x1_0000 <= n <= 0x10_ffff);
        assert(pair_char(a, b) as u32 == n);
    } else if !is_high(a) && !is_low(a) {
        assert((a as char) as u32 == a);
    }
}

proof fn lemma_unit_is_not_zero(c: char)
    requires
        c != '\0',
    ensures
        forall|i: int| 0 <= i < char_units(c).len() ==> char_units(c)[i] != 0,
{
    let n = c as u32;
    if n >= 0x1_0000 {
        assert(0 <= (n - 0x1_0000) / 0x400 < 0x400);
        assert(0 <= (n - 0x1_0000) % 0x400 < 0x400);
    }
}

proof fn lemma_no_zero_unit(source: Seq<char>)
    requires
        !source.contains('\0'),
    ensures
        !units(source).contains(0),
    decreases source.len(),
{
    if source.len() > 0 {
        let front = source.drop_last();
        assert forall|i: int| 0 <= i < front.len() implies front[i] != '\0' by {
            assert(source.contains(source[i]));
        }
        lemma_no_zero_unit(front);
        let c = source.last();
        assert(source.contains(c));
        let all = units(source);
        assert(all == units(front) + char_units(c));
        assert forall|i: int| 0 <= i < all.len() implies all[i] != 0 by {
            if i < units(front).len() {
                assert(units(front).contains(units(front)[i]));
            } else {
                lemma_unit_is_not_zero(c);
                assert(all[i] == char_units(c)[i - units(front).len()]);
            }
        }
    }
}

proof fn lemma_terminated_before_end(u: Seq<u16>)
    ensures
        0 <= terminated_len(u.push(0)) <= u.len(),
    decreases u.len(),
{
    if u.len() > 0 && u[0] != 0 {
        lemma_terminated_before_end(u.drop_first());
        assert(u.push(0).drop_first() =~= u.drop_first().push(0));
    }
}

/// What a message by its number does to a control.
pub open spec fn told_by_number(s: Control, message: u32, w_param: usize, input: ControlInput) -> (
    Option<Control>,
    Answer,
) {
    answer_of(s, control_message_of(message, w_param), input)
}

/// A message that sets something sets it to the text that came with it, and nothing else; the
/// editor is told of it once it was started. An empty theme or language is the usual one.
pub proof fn law_messages_set_what_they_name(s: Control, input: ControlInput)
    ensures
        ({
            let text = or_empty(input_text(input.text));
            let (after, answer) = told_by_number(s, 0x0401, 0, input);
            &&& told_by_number(s, 0x000c, 0, input) == (after, answer)
            &&& after == Some(Control { source: text, ..s })
            &&& answer.result == 1
            &&& s.initialized ==> answer.action == Action::Tell(Command::SetMarkdown(text))
            &&& !s.initialized ==> answer.action == Action::Nothing
        }),
        ({
            let text = or_empty(input_text(input.text));
            let (after, answer) = told_by_number(s, 0x0406, 0, input);
            let theme = if text.len() > 0 {
                text
            } else {
                "velotype-light"@
            };
            &&& after == Some(Control { theme_id: theme, ..s })
            &&& s.initialized ==> answer.action == Action::Tell(Command::SetTheme(theme))
        }),
        ({
            let text = or_empty(input_text(input.text));
            let (after, answer) = told_by_number(s, 0x0407, 0, input);
            let language = if text.len() > 0 {
                text
            } else {
                "en-US"@
            };
            &&& after == Some(Control { language_id: language, ..s })
            &&& s.initialized ==> answer.action == Action::Tell(Command::SetLanguage(language))
        }),
{
}

/// A control is started once: the first message starts the editor with the text that came
/// with it, or the one that was set; a later one sets the text, where it is not empty.
pub proof fn law_control_is_started_once(s: Control, input: ControlInput)
    ensures
        ({
            let (after, answer) = told_by_number(s, 0x0404, 0, input);
            let text = input_text(input.text);
            &&& answer.result == 1
            &&& after is Some && after->0.initialized
            &&& !s.initialized ==> answer.action == Action::Start
            &&& !s.initialized && text is Some ==> after->0.source == text->0
            &&& text is None ==> after->0.source == s.source
            &&& s.initialized && text is Some && text->0.len() > 0 ==> after->0.source == text->0
                && answer.action == Action::Tell(Command::SetMarkdown(text->0))
            &&& s.initialized && (text is None || text->0.len() == 0) ==> after->0 == s
                && answer.action == Action::Nothing
            &&& after->0.theme_id == s.theme_id && after->0.visible == s.visible
        }),
{
}

/// A control is shown and hidden as it is told, follows the size of its window, and keeps the
/// window of the editor that was told to it.
pub proof fn law_control_is_shown_and_sized(
    s: Control,
    show: usize,
    child: usize,
    input: ControlInput,
)
    requires
        child <= i64::MAX,
    ensures
        told_by_number(s, 0x0405, show, input) == (
            Some(Control { visible: show != 0, ..s }),
            plain_answer(1, Action::Show(show != 0)),
        ),
        told_by_number(s, 0x0440, child, input) == (
            Some(Control { child_hwnd: child as i64, ..s }),
            plain_answer(0, Action::Resize(child as i64)),
        ),
        told_by_number(s, 0x0005, 0, input) == (
            Some(s),
            plain_answer(0, Action::Resize(s.child_hwnd)),
        ),
        told_by_number(s, 0x000f, 0, input).1.action == Action::Validate,
        told_by_number(s, 0x0014, 0, input).1.result == 1,
{
}

/// A control that is made has the text that it was made with, and starts at once where that
/// was asked for; one that goes closes its editor, and quits the program where it stood alone.
pub proof fn law_control_comes_and_goes(s: Control, input: ControlInput)
    ensures
        ({
            let (after, answer) = told_by_number(s, 0x0001, 0, input);
            &&& after is Some && after->0.source == or_empty(input_text(input.text))
            &&& after->0.initialized == input.start_now && answer.result == 0
            &&& answer.action == (if input.start_now {
                Action::Start
            } else {
                Action::Nothing
            })
        }),
        ({
            let (after, answer) = told_by_number(s, 0x0002, 0, input);
            after == Some(s) && answer.result == 0 && answer.action == (if input.standalone {
                Action::Quit
            } else {
                Action::Nothing
            })
        }),
        ({
            let (after, answer) = told_by_number(s, 0x0082, 0, input);
            &&& after is None
            &&& s.initialized ==> answer.action == Action::Default(Some(Command::Close))
            &&& !s.initialized ==> answer.action == Action::Default(None)
        }),
        ({
            let (after, answer) = told_by_number(s, 0x0081, 0, input);
            &&& after is Some && answer.result == 1
            &&& after->0.source.len() == 0 && !after->0.initialized && !after->0.visible
            &&& after->0.theme_id == "velotype-light"@ && after->0.language_id == "en-US"@
        }),
{
}

/// The text of a control and its length go together: what is asked for by number is the whole
/// text with its end where the buffer holds it, and its length is told without the end.
pub proof fn law_text_and_length_go_together(s: Control, input: ControlInput)
    requires
        !s.current(document_view(input.document)).contains('\0'),
        input.has_target,
        input.capacity > units(s.current(document_view(input.document))).len(),
    ensures
        ({
            let text = s.current(document_view(input.document));
            let length = told_by_number(s, 0x0402, 0, input).1.result;
            let got = told_by_number(s, 0x0403, 0, input).1;
            &&& length == units(text).len()
            &&& got.written == units(text).push(0) && got.result == length
            &&& told_by_number(s, 0x000d, 0, input).1 == got
            &&& told_by_number(s, 0x000e, 0, input).1.result == length
            &&& told_by_number(s, 0x0403, 0, input).0 == Some(s)
        }),
{
    let text = s.current(document_view(input.document));
    law_markdown_is_read_back(text, input.capacity as int);
    lemma_length_without_end(text);
}

proof fn lemma_length_without_end(text: Seq<char>)
    requires
        !text.contains('\0'),
    ensures
        terminated_len(units(text).push(0)) == units(text).len(),
{
    let n = units(text).len() as int;
    law_markdown_is_read_back(text, n + 1);
    let u = units(text).push(0);
    let copied = copied_units(u, n + 1);
    assert(copied == u);
    lemma_terminated_len_bound(u, n);
    if terminated_len(u) < n {
        assert(copied.len() == terminated_len(u) + 1);
    }
}

proof fn lemma_terminated_len_bound(u: Seq<u16>, n: int)
    requires
        0 <= n < u.len(),
        u[n] == 0,
    ensures
        0 <= terminated_len(u) <= n,
    decreases u.len(),
{
    if u[0] != 0 {
        lemma_terminated_len_bound(u.drop_first(), n - 1);
    }
}

/// What is copied for a buffer is the start of the text, as much as the buffer holds, and its
/// end; it breaks off nowhere else.
pub proof fn law_buffer_is_filled(source: Seq<char>, capacity: int)
    requires
        !source.contains('\0'),
        0 < capacity <= units(source).len(),
    ensures
        copied_units(units(source).push(0), capacity) == units(source).take(capacity - 1).push(0),
{
    lemma_length_without_end(source);
    assert(units(source).push(0).take(capacity - 1) =~= units(source).take(capacity - 1));
}

/// The flags of a control that is made are heard one by one.
pub proof fn law_flags_are_heard_one_by_one(style: u32)
    requires
        style != 0,
    ensures
        create_plan_of(style, 0) == (CreatePlan {
            style,
            initialize: false,
            focus: false,
            resizable: false,
        }),
        create_plan_of(0, 0).style == 0x4600_0000,
        create_plan_of(style, 1) == (CreatePlan {
            style: style | 0x1000_0000,
            initialize: false,
            focus: false,
            resizable: false,
        }),
        create_plan_of(style, 2) == (CreatePlan {
            style,
            initialize: true,
            focus: false,
            resizable: false,
        }),
        create_plan_of(style, 4) == (CreatePlan {
            style,
            initialize: false,
            focus: true,
            resizable: false,
        }),
        create_plan_of(style, 8) == (CreatePlan {
            style,
            initialize: false,
            focus: false,
            resizable: true,
        }),
{
    assert(0u32 & 1 == 0 && 0u32 & 2 == 0 && 0u32 & 4 == 0 && 0u32 & 8 == 0) by (bit_vector);
    assert(1u32 & 1 == 1 && 1u32 & 2 == 0 && 1u32 & 4 == 0 && 1u32 & 8 == 0) by (bit_vector);
    assert(2u32 & 1 == 0 && 2u32 & 2 == 2 && 2u32 & 4 == 0 && 2u32 & 8 == 0) by (bit_vector);
    assert(4u32 & 1 == 0 && 4u32 & 2 == 0 && 4u32 & 4 == 4 && 4u32 & 8 == 0) by (bit_vector);
    assert(8u32 & 1 == 0 && 8u32 & 2 == 0 && 8u32 & 4 == 0 && 8u32 & 8 == 8) by (bit_vector);
    assert(style | 0 == style) by (bit_vector);
    assert(0x4600_0000u32 | 0 == 0x4600_0000) by (bit_vector);
}

} // verus!
