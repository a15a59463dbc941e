use velotype::control::{
    child_size, class_names, control_message, control_wnd_proc, copy_utf16, create_plan, read_wide,
    ControlAction, ControlCommand, ControlInput, ControlMessage, ControlState, CHILD_STYLE,
    CREATE_INITIALIZE, CREATE_VISIBLE, DEFAULT_LANGUAGE, DEFAULT_THEME, VTM_CHILD_READY,
    VTM_GETMARKDOWN, VTM_GETMARKDOWNLENGTH, VTM_NOTIFY_EVENT, VTM_SETMARKDOWN, WM_GETTEXTLENGTH,
    WM_SETTEXT, WS_VISIBLE,
};
use velotype::control_host::{
    event_code, split_names, takes_keys, EventRegistration, KeyBindings, TextTable,
};
use velotype::control_window::{
    class_is_registered, create_as_child_control, create_control, create_standalone_window,
    dll_main_result, ClassOwner, ClassStep, CreateParams, CW_USEDEFAULT, DLL_PROCESS_ATTACH,
    DLL_PROCESS_DETACH, ERROR_CLASS_ALREADY_EXISTS,
};

fn wide(s: &str) -> Vec<u16> {
    s.encode_utf16().chain(std::iter::once(0)).collect()
}

fn no_input<'a>() -> ControlInput<'a> {
    ControlInput {
        text: None,
        document: None,
        capacity: 0,
        has_target: false,
        start_now: false,
        standalone: false,
    }
}

fn with_text(text: &[u16]) -> ControlInput<'_> {
    ControlInput { text: Some(text), ..no_input() }
}

fn buffer<'a>(capacity: usize) -> ControlInput<'a> {
    ControlInput { capacity, has_target: true, ..no_input() }
}

fn made() -> Option<ControlState> {
    let mut state = None;
    let reply = control_wnd_proc(&mut state, ControlMessage::NcCreate, no_input());
    assert_eq!(reply.result, 1);
    state
}

#[test]
fn message_numbers() {
    assert!(control_message(WM_SETTEXT, 0) == ControlMessage::SetMarkdown);
    assert!(control_message(VTM_SETMARKDOWN, 0) == ControlMessage::SetMarkdown);
    assert!(control_message(VTM_GETMARKDOWN, 9) == ControlMessage::GetMarkdown);
    assert!(control_message(VTM_GETMARKDOWNLENGTH, 0) == ControlMessage::GetMarkdownLength);
    assert!(control_message(WM_GETTEXTLENGTH, 0) == ControlMessage::GetTextLength);
    assert!(control_message(VTM_CHILD_READY, 77) == ControlMessage::ChildReady(77));
    assert!(control_message(0xffff, 0) == ControlMessage::Other);
    assert_eq!(VTM_SETMARKDOWN, 0x401);
    assert_eq!(VTM_NOTIFY_EVENT, 0x400 + 65);
}

#[test]
fn markdown_that_was_set_is_read_back() {
    let mut state = made();
    let text = wide("# 标题 \u{1f3b5}");
    let reply = control_wnd_proc(&mut state, ControlMessage::SetMarkdown, with_text(&text));
    assert_eq!(reply.result, 1);
    assert!(matches!(reply.action, ControlAction::Nothing));
    let length = control_wnd_proc(&mut state, ControlMessage::GetMarkdownLength, no_input());
    assert_eq!(length.result, text.len() - 1);
    let got = control_wnd_proc(&mut state, ControlMessage::GetMarkdown, buffer(text.len()));
    assert_eq!(got.written, text);
    assert_eq!(read_wide(&got.written), "# 标题 \u{1f3b5}");
}

#[test]
fn small_buffer_gets_the_start() {
    let mut state = made();
    let text = wide("abcdef");
    control_wnd_proc(&mut state, ControlMessage::SetMarkdown, with_text(&text));
    let got = control_wnd_proc(&mut state, ControlMessage::GetText, buffer(4));
    assert_eq!(got.written, wide("abc"));
    assert_eq!(got.result, 3);
    let none = control_wnd_proc(&mut state, ControlMessage::GetText, buffer(0));
    assert_eq!(none.result, 0);
    assert!(none.written.is_empty());
}

#[test]
fn editor_is_told_once_it_was_started() {
    let mut state = made();
    let first = wide("one");
    let start = control_wnd_proc(&mut state, ControlMessage::Initialize, with_text(&first));
    assert!(matches!(start.action, ControlAction::Start));
    let second = wide("two");
    let set = control_wnd_proc(&mut state, ControlMessage::SetMarkdown, with_text(&second));
    match set.action {
        ControlAction::Tell(ControlCommand::SetMarkdown(s)) => assert_eq!(s, "two"),
        _ => panic!("the editor was not told"),
    }
    let empty = wide("");
    let again = control_wnd_proc(&mut state, ControlMessage::Initialize, with_text(&empty));
    assert_eq!(again.result, 1);
    assert!(matches!(again.action, ControlAction::Nothing));
    assert_eq!(state.as_ref().unwrap().source, "two");
    let gone = control_wnd_proc(&mut state, ControlMessage::NcDestroy, no_input());
    assert!(matches!(gone.action, ControlAction::Default(Some(ControlCommand::Close))));
    assert!(state.is_none());
}

#[test]
fn theme_and_language_fall_back() {
    let mut control = ControlState::new();
    assert_eq!(control.theme_id, DEFAULT_THEME);
    assert_eq!(control.language_id, DEFAULT_LANGUAGE);
    assert!(control.set_theme("velotype").is_none());
    assert_eq!(control.theme_id, "velotype");
    control.set_theme("");
    assert_eq!(control.theme_id, "velotype-light");
    control.set_language("zh-CN");
    assert_eq!(control.language_id, "zh-CN");
    control.set_language("");
    assert_eq!(control.language_id, "en-US");
}

#[test]
fn full_length_is_told_without_a_buffer() {
    let mut control = ControlState::new();
    control.set_markdown("hello".to_string());
    let (written, needed) = control.get_markdown(None, 0, false);
    assert!(written.is_empty());
    assert_eq!(needed, 5);
    let (written, needed) = control.get_markdown(None, 3, true);
    assert_eq!(written, wide("he"));
    assert_eq!(needed, 5);
}

#[test]
fn text_length_ends_at_a_zero() {
    let mut control = ControlState::new();
    control.set_markdown("ab\0cd".to_string());
    assert_eq!(control.text_length(None), 2);
    assert_eq!(control.markdown_length(None), 5);
}

#[test]
fn missing_control_answers() {
    let mut state = None;
    let text = wide("x");
    assert_eq!(
        control_wnd_proc(&mut state, ControlMessage::SetMarkdown, with_text(&text)).result,
        1
    );
    let got = control_wnd_proc(&mut state, ControlMessage::GetMarkdown, buffer(8));
    assert_eq!(got.written, vec![0u16]);
    assert!(state.is_none());
}

#[test]
fn units_are_copied_to_the_zero() {
    assert_eq!(copy_utf16(&[65, 66, 0, 67], 10, true), (vec![65, 66, 0], 2));
    assert_eq!(copy_utf16(&[65, 66], 10, false), (vec![], 0));
    assert_eq!(copy_utf16(&[65, 66], 2, true), (vec![65, 0], 1));
}

#[test]
fn half_a_pair_is_replaced() {
    assert_eq!(read_wide(&[0xd83c, 0x41, 0]), "\u{fffd}A");
}

#[test]
fn child_is_never_empty() {
    assert_eq!(child_size(0, 10, 10), None);
    assert_eq!(child_size(5, 0, -3), Some((1, 1)));
    assert_eq!(child_size(5, 20, 30), Some((20, 30)));
}

#[test]
fn creation_flags() {
    let plan = create_plan(0, CREATE_VISIBLE | CREATE_INITIALIZE);
    assert_eq!(plan.style, CHILD_STYLE | WS_VISIBLE);
    assert!(plan.initialize);
    assert!(!plan.focus && !plan.resizable);
    assert_eq!(create_plan(0x4000_0000, 0).style, 0x4000_0000);
}

#[test]
fn class_names_follow_the_outer_one() {
    let (outer, inner, platform) = class_names("Mine").unwrap();
    assert_eq!(outer, "Mine");
    assert_eq!(inner, "Mine::Window");
    assert_eq!(platform, "Mine::PlatformWindow");
    assert!(class_names("").is_none());
}

#[test]
fn names_are_split_at_every_separator() {
    assert_eq!(split_names("save|change|"), vec!["save", "change"]);
    assert_eq!(split_names("a;b,c\nd"), vec!["a", "b", "c", "d"]);
    assert!(split_names("|;,").is_empty());
}

#[test]
fn events_that_were_asked_for_are_told() {
    let mut events = EventRegistration::new();
    assert_eq!(events.message, VTM_NOTIFY_EVENT);
    events.register(9, 0, "save|change|");
    assert_eq!(events.names_text(), "save|change|");
    let told = events.notify("save").unwrap();
    assert_eq!((told.notify_hwnd, told.message, told.code), (9, VTM_NOTIFY_EVENT, 1));
    assert_eq!(events.last, "save|");
    assert!(events.notify("save_as").is_none());
    assert_eq!(events.last, "save|");
    assert_eq!(event_code("change"), Some(2));
    assert_eq!(event_code("save_as"), Some(3));
    assert_eq!(event_code("open"), None);
}

#[test]
fn keys_of_commands() {
    let mut keys = KeyBindings::new();
    assert!(keys.set("bold_selection", "ctrl-alt-b;ctrl-b"));
    assert_eq!(keys.keys_of("bold_selection"), vec!["ctrl-alt-b", "ctrl-b"]);
    assert!(!keys.set("open_file", "ctrl-o"));
    assert!(keys.keys_of("open_file").is_empty());
    assert!(takes_keys("save_document") && takes_keys("save_document_as"));
    assert!(!takes_keys("new_window"));
    keys.reset();
    assert!(keys.keys_of("bold_selection").is_empty());
}

#[test]
fn table_holds_the_last_text() {
    let mut table = TextTable::new();
    table.set("font_size", "17");
    table.set("line_height", "1.6");
    table.set("font_size", "18");
    assert_eq!(table.get("font_size"), Some("18"));
    assert_eq!(table.get("line_height"), Some("1.6"));
    assert_eq!(table.get("h1_size"), None);
    assert_eq!(table.entries.len(), 2);
}

#[test]
fn started_control_tells_the_document() {
    let mut state = made();
    let set = wide("set");
    control_wnd_proc(&mut state, ControlMessage::SetMarkdown, with_text(&set));
    let typed = ControlInput { document: Some("typed \u{1f3b5}"), ..buffer(20) };
    let got = control_wnd_proc(&mut state, ControlMessage::GetMarkdown, typed);
    assert_eq!(got.written, set);
    control_wnd_proc(&mut state, ControlMessage::Initialize, no_input());
    let got = control_wnd_proc(&mut state, ControlMessage::GetMarkdown, typed);
    assert_eq!(got.written, wide("typed \u{1f3b5}"));
    let got = control_wnd_proc(&mut state, ControlMessage::GetText, typed);
    assert_eq!(got.written, wide("typed \u{1f3b5}"));
    let length = control_wnd_proc(&mut state, ControlMessage::GetMarkdownLength, typed);
    assert_eq!(length.result, 8);
    let length = control_wnd_proc(&mut state, ControlMessage::GetTextLength, typed);
    assert_eq!(length.result, 8);
    assert_eq!(state.unwrap().get_markdown(Some("abc"), 0, false).1, 3);
}

#[test]
fn class_goes_with_the_library() {
    let mut owner = ClassOwner::new();
    assert!(owner.dll_main(7, DLL_PROCESS_DETACH) == ClassStep::Nothing);
    let step = owner.dll_main(7, DLL_PROCESS_ATTACH);
    assert!(step == ClassStep::Register(7));
    assert!(!dll_main_result(step, false));
    assert!(dll_main_result(step, true));
    assert!(dll_main_result(ClassStep::Nothing, false));
    assert!(owner.dll_main(7, 2) == ClassStep::Nothing);
    assert_eq!(owner.window_owner(3), 7);
    assert!(owner.dll_main(7, DLL_PROCESS_DETACH) == ClassStep::Unregister(7));
}

#[test]
fn class_is_registered_by_hand() {
    let mut owner = ClassOwner::new();
    assert_eq!(owner.unregister_classes(0), None);
    assert_eq!(owner.window_owner(3), 3);
    assert_eq!(owner.register_classes(0, 3), 3);
    assert_eq!(owner.unregister_classes(0), Some(3));
    assert_eq!(owner.register_classes(5, 3), 5);
    assert_eq!(owner.unregister_classes(9), Some(9));
    assert!(class_is_registered(1, 0));
    assert!(class_is_registered(0, ERROR_CLASS_ALREADY_EXISTS));
    assert!(!class_is_registered(0, 5));
}

#[test]
fn plain_child_is_shown_and_started() {
    let window = create_as_child_control(4, -2, 3, 0, 20, true).unwrap();
    assert_eq!((window.x, window.y, window.width, window.height), (-2, 3, 1, 20));
    assert_eq!(window.plan.style, CHILD_STYLE | WS_VISIBLE);
    assert!(window.plan.initialize && !window.plan.focus && !window.plan.resizable);
    assert!(create_as_child_control(0, 0, 0, 1, 1, true).is_none());
    assert!(create_as_child_control(4, 0, 0, 1, 1, false).is_none());
    let params = CreateParams {
        parent: 4,
        x: 0,
        y: 0,
        width: 10,
        height: -1,
        ex_style: 2,
        style: 0,
        control_id: 6,
        flags: 0,
    };
    let window = create_control(params, true).unwrap();
    assert_eq!((window.width, window.height, window.ex_style, window.control_id), (10, 1, 2, 6));
    assert!(!window.plan.initialize);
}

#[test]
fn standalone_window_is_shown() {
    let (window, title) = create_standalone_window(true).unwrap();
    assert_eq!(title, "Velotype.dll");
    assert_eq!((window.x, window.width, window.height), (CW_USEDEFAULT, 760, 520));
    assert_eq!(window.plan.style, 0x10cf_0000);
    assert!(window.plan.initialize);
    assert!(create_standalone_window(false).is_none());
}
