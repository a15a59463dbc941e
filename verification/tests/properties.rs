use velotype::control::{ControlCommand, VTM_NOTIFY_EVENT};
use velotype::control_properties::{
    color_text, names_parameter, parse_caret, parse_color, property_of, ControlHost, Property,
    PropertyAction, PropertyValue,
};

fn text(host: &ControlHost, name: &str) -> String {
    match host.get_property(name, None) {
        PropertyValue::Text(t) => t,
        _ => panic!("no text"),
    }
}

#[test]
fn names_of_properties() {
    assert!(matches!(property_of("markdown"), Property::Markdown));
    assert!(matches!(property_of("document.markdown"), Property::Markdown));
    assert!(matches!(property_of("theme.id"), Property::Theme));
    assert!(matches!(property_of("theme.font_size"), Property::Parameter(p) if p == "font_size"));
    assert!(
        matches!(property_of("theme.parameter.line_height"), Property::Parameter(p) if p == "line_height")
    );
    assert!(matches!(property_of("theme.what"), Property::Custom(n) if n == "theme.what"));
    assert!(
        matches!(property_of("editor.keybinding.undo"), Property::Keys(c) if c == "undo")
    );
    assert!(matches!(property_of("mine"), Property::Custom(n) if n == "mine"));
    assert!(names_parameter("cursor_width") && !names_parameter("width"));
}

#[test]
fn texts_are_read_back() {
    let mut host = ControlHost::new();
    for (name, value) in [
        ("document.markdown", "# a\n\nb"),
        ("theme.parameter.font_size", "17"),
        ("mine", "x"),
        ("theme.id", "velotype"),
        ("language.id", "zh-CN"),
    ] {
        assert!(matches!(host.set_property(name, value), PropertyAction::Done));
        assert_eq!(text(&host, name), value);
    }
    assert_eq!(text(&host, "document.length"), "6");
    assert_eq!(text(&host, "document.display_text"), "# a\n\nb");
    assert!(matches!(host.get_property("document.html", None), PropertyValue::Rendered));
    host.set_property("theme.id", "");
    assert_eq!(text(&host, "control.theme"), "velotype-light");
    assert_eq!(text(&host, "other"), "");
}

#[test]
fn started_editor_is_told() {
    let mut host = ControlHost::new();
    host.control.initialize(None);
    assert_eq!(text(&host, "control.initialized"), "1");
    match host.set_property("markdown", "z") {
        PropertyAction::Tell(ControlCommand::SetMarkdown(t)) => assert_eq!(t, "z"),
        _ => panic!("the editor was not told"),
    }
}

#[test]
fn what_cannot_be_set_is_refused() {
    let mut host = ControlHost::new();
    for name in [
        "document.length",
        "document.html",
        "control.child_hwnd",
        "control.initialized",
        "event.last",
        "editor.keybinding.open_file",
    ] {
        assert!(matches!(host.set_property(name, "1"), PropertyAction::Refused));
    }
    assert!(matches!(host.set_property("editor.caret", "1"), PropertyAction::Refused));
    assert!(matches!(host.set_property("event.message", "x"), PropertyAction::Refused));
    assert!(matches!(host.get_property("control.visible", None), PropertyValue::Refused));
    assert!(matches!(host.get_property("editor.caret", None), PropertyValue::Refused));
}

#[test]
fn colors_round_trip() {
    assert_eq!(parse_color("F0F0F0"), Some(0xf0f0f0));
    assert_eq!(parse_color("0x0a1B2c"), Some(0x0a1b2c));
    assert_eq!(parse_color("F0F0F"), None);
    assert_eq!(parse_color("F0F0G0"), None);
    assert_eq!(color_text(0x0a1b2c), "0A1B2C");
    assert_eq!(parse_color(&color_text(0x123456)), Some(0x123456));
    let mut host = ControlHost::new();
    assert_eq!(text(&host, "background_color"), "F0F0F0");
    host.set_property("control.background_color", "0x010203");
    assert_eq!(host.control.background, 0x010203);
}

#[test]
fn caret_and_window() {
    let mut host = ControlHost::new();
    assert_eq!(text(&host, "caret.hidden"), "1");
    assert!(matches!(host.set_property("editor.caret", "2,3"), PropertyAction::PlaceCaret(2, 3)));
    assert_eq!(text(&host, "caret.hidden"), "0");
    assert!(matches!(host.set_property("editor.hide_caret", "true"), PropertyAction::HideCaret(true)));
    assert!(matches!(host.set_property("control.visible", "show"), PropertyAction::Show(true)));
    assert!(matches!(host.set_property("control.visible", "no"), PropertyAction::Show(false)));
    assert_eq!(parse_caret("0,0"), Some((0, 0)));
    assert_eq!(parse_caret("0"), None);
    assert_eq!(parse_caret("4294967296,0"), None);
}

#[test]
fn keys_and_events() {
    let mut host = ControlHost::new();
    assert!(matches!(
        host.set_property("editor.keybinding.save_document", "ctrl-s;ctrl-w"),
        PropertyAction::RenewKeys
    ));
    assert_eq!(text(&host, "editor.keybinding.save_document"), "ctrl-s|ctrl-w");
    host.set_property("event.names", "save,change");
    assert_eq!(text(&host, "event.names"), "save|change|");
    assert_eq!(text(&host, "event.message"), VTM_NOTIFY_EVENT.to_string());
    host.set_property("event.message", "1234");
    assert_eq!(text(&host, "event.message"), "1234");
    host.set_property("event.message", "0");
    assert_eq!(host.events.message, VTM_NOTIFY_EVENT);
    host.set_property("event.notify_hwnd", "77");
    assert_eq!(host.events.notify_hwnd, 77);
    host.events.notify("save");
    assert_eq!(text(&host, "event.last"), "save|");
}

#[test]
fn document_of_the_editor_is_told() {
    let mut host = ControlHost::new();
    host.set_property("markdown", "old");
    let typed = Some("# new text");
    let read = |host: &ControlHost, name: &str| match host.get_property(name, typed) {
        PropertyValue::Text(t) => t,
        _ => panic!("no text"),
    };
    assert_eq!(read(&host, "document.markdown"), "old");
    assert_eq!(read(&host, "document.length"), "3");
    host.control.initialize(None);
    assert_eq!(read(&host, "document.markdown"), "# new text");
    assert_eq!(read(&host, "markdown.length"), "10");
    assert_eq!(read(&host, "document.display_text"), "# new text");
    assert_eq!(text(&host, "document.markdown"), "old");
}
