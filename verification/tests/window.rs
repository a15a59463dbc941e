use velotype::layout::{
    button_area, ui_apply_split_drag, ui_layout, Drag, Splits, MIN_LEFT_W, SPLITTER_THICKNESS,
};
use velotype::log_queue::{
    combined_text, selection_after_append, trim_step, LogQueue, MAX_LINES, QUEUE_MAX,
};
use velotype::player_state::PlayerControls;
use velotype::tabs::PlayingMark;
use velotype::text_repair::{
    choose_reading, contains_cjk, count_replacement_like, decode_music_tag_bytes,
    fix_mojibake_music_text, has_suspicious_control, is_han, is_kana, is_mojibake_marker_ansi,
    looks_like_mojibake_ansi, music_text_rank, should_try_repair_text, str_to_latin1_bytes,
    tag_text, Reading,
};
use velotype::window_messages::{
    draw_reply, notice_kind, progress_bar_area, seek_click, ui_message,
    ui_tree_on_item_expanding, volume_moved, window_is_incomplete, CursorShape, NoticeKind, UiAction, UiDesk, UiMessage, CDDS_ITEMPREPAINT,
    CDDS_SUBITEM_PREPAINT, CDRF_NEWFONT, CDRF_NOTIFYITEMDRAW, ID_TAB, TB_ENDTRACK, TCN_SELCHANGE,
    TVE_EXPAND, WM_LBUTTONDOWN, WM_SIZE, WM_TIMER,
};

fn splits() -> Splits {
    Splits { left_right: 700, list_log: 700, cover_tree: 300 }
}

fn desk() -> UiDesk {
    UiDesk {
        drag: Drag::NoDrag,
        mark: PlayingMark { list_id: 0, place: -1 },
        toolbar_playing: false,
        visible: true,
    }
}

#[test]
fn parts_fill_the_window() {
    let l = ui_layout(1000, 700, 150, splits());
    assert_eq!(l.list.w + SPLITTER_THICKNESS + l.cover.w, 1000);
    assert_eq!(l.left_right_split.w, SPLITTER_THICKNESS);
    assert!(l.list.w >= MIN_LEFT_W);
    assert_eq!(l.cover.h + SPLITTER_THICKNESS + l.tree.h, l.left_right_split.h);
    assert_eq!(button_area(0).x + 34, button_area(1).x);
}

#[test]
fn divider_stays_where_it_was_dragged() {
    let s = ui_apply_split_drag(Drag::LeftRight, 1000, 700, 500, 0, splits());
    assert_eq!(s.left_right, 501);
    assert_eq!(s.list_log, 700);
    let same = ui_apply_split_drag(Drag::NoDrag, 1000, 700, 500, 0, splits());
    assert_eq!((same.left_right, same.list_log, same.cover_tree), (700, 700, 300));
}

#[test]
fn queue_is_bounded() {
    let mut q = LogQueue::new();
    assert!(q.log_enqueue("first".to_string()));
    assert!(!q.log_enqueue("second".to_string()));
    for i in 0..QUEUE_MAX {
        q.log_enqueue(format!("{}", i));
    }
    assert!(q.lines.len() <= QUEUE_MAX);
    let lines = q.take_lines().unwrap();
    assert!(!q.flushed());
    assert!(q.take_lines().is_none());
    assert!(!lines.is_empty());
    assert_eq!(combined_text(&vec!["a".to_string(), "b".to_string()]).matches('a').count(), 1);
    assert_eq!(trim_step(MAX_LINES, 5), None);
    let _ = selection_after_append(0, 0, 10, 0);
}

#[test]
fn messages_of_the_window() {
    assert!(ui_message(WM_SIZE, 0, 0) == UiMessage::Size);
    assert!(ui_message(WM_TIMER, 999, 0) == UiMessage::Timer(999));
    assert!(ui_message(0xffff, 0, 0) == UiMessage::Other);
    let mut d = desk();
    let mut c = PlayerControls::new();
    assert!(matches!(d.handle(&mut c, 5, UiMessage::Size), UiAction::Arrange));
    assert!(matches!(d.handle(&mut c, 5, UiMessage::Other), UiAction::BySystem));
    d.handle(&mut c, 5, UiMessage::NowPlaying { list: 3, item: 2 });
    assert_eq!((d.mark.list_id, d.mark.place), (3, 2));
}

#[test]
fn dragging_a_divider() {
    let mut d = desk();
    let r = d.splitter(Drag::ListLog, WM_LBUTTONDOWN);
    assert!(r.is_some());
    assert!(d.drag == Drag::ListLog);
    let mut c = PlayerControls::new();
    match d.handle(&mut c, 5, UiMessage::MouseMove { x: 4, y: 9 }) {
        UiAction::DragTo { x, y, cursor } => {
            assert_eq!((x, y), (4, 9));
            assert!(cursor == CursorShape::UpDown);
        }
        _ => panic!("not dragged"),
    }
}

#[test]
fn volume_slider() {
    let mut c = PlayerControls::new();
    assert!(volume_moved(&mut c, 30, TB_ENDTRACK).is_some());
    assert_eq!(c.to_volume, 30);
}

#[test]
fn only_the_playing_song_is_marked() {
    let mark = PlayingMark { list_id: 3, place: 2 };
    let (reply, bold) = draw_reply(CDDS_SUBITEM_PREPAINT, Some(3), 2, mark);
    assert!(bold);
    assert_eq!(reply & CDRF_NEWFONT, CDRF_NEWFONT);
    assert_eq!(draw_reply(CDDS_ITEMPREPAINT, Some(3), 2, mark), (CDRF_NOTIFYITEMDRAW, false));
    assert_eq!(draw_reply(CDDS_SUBITEM_PREPAINT, Some(3), 1, mark), (0, false));
    assert_eq!(draw_reply(CDDS_SUBITEM_PREPAINT, Some(4), 2, mark), (0, false));
}

#[test]
fn notices() {
    assert!(notice_kind(ID_TAB, TCN_SELCHANGE) == NoticeKind::TabChanged);
    assert!(notice_kind(7, 12345) == NoticeKind::Other);
    assert!(window_is_incomplete(&vec![1, 0], &vec![1]));
    assert!(!window_is_incomplete(&vec![1, 2], &vec![1]));
}

#[test]
fn click_on_the_progress_bar() {
    assert!(seek_click(5, 0, 44_100, 2, false).is_none());
    let s = seek_click(1000, 2000, 44_100, 2, false).unwrap();
    assert_eq!(s.bar, 500);
    let (_, _, w) = progress_bar_area(100, 40, 500);
    assert!(w <= 100);
}

#[test]
fn kinds_of_letters() {
    assert!(is_han('中') && !is_han('a'));
    assert!(is_kana('あ') && !is_kana('中'));
    assert!(contains_cjk("abc中"));
    assert!(!contains_cjk("abc"));
    assert!(has_suspicious_control("a\u{1}b"));
    assert!(!has_suspicious_control("a b"));
    assert_eq!(count_replacement_like("a\u{fffd}\u{fffd}"), 2);
    assert!(is_mojibake_marker_ansi('Ð') && !is_mojibake_marker_ansi('Ã'));
    assert_eq!(str_to_latin1_bytes("é"), Some(vec![0xe9]));
    assert_eq!(str_to_latin1_bytes("中"), None);
    assert!(!should_try_repair_text("plain"));
    assert!(!looks_like_mojibake_ansi("plain"));
}

#[test]
fn repair_does_no_harm() {
    let s = "plain text".to_string();
    assert_eq!(fix_mojibake_music_text(s.clone(), &vec!["other".to_string()]), s);
    let bad = "\u{c3}\u{a4}\u{c2}\u{b8}\u{c2}\u{ad}".to_string();
    let fixed = fix_mojibake_music_text(bad.clone(), &vec!["中".to_string()]);
    assert!(music_text_rank(&fixed) >= music_text_rank(&bad));
}

#[test]
fn bytes_of_a_tag() {
    assert_eq!(tag_text(b"abc"), Some("abc".to_string()));
    assert_eq!(tag_text(&[0xff, 0x20]), None);
    let japanese = || Reading { text: "日本".to_string(), candidates: vec![] };
    assert_eq!(decode_music_tag_bytes(&[], &vec![], &vec![japanese()]), "");
    assert_eq!(decode_music_tag_bytes("中".as_bytes(), &vec![], &vec![japanese()]), "中");
    assert_eq!(decode_music_tag_bytes(&[0x93, 0xfa], &vec![], &vec![japanese()]), "日本");
    assert_eq!(decode_music_tag_bytes(&[b'a', 0xff], &vec![], &vec![]), "a\u{fffd}");
    let misread = "\u{e4}\u{b8}\u{ad}";
    assert_eq!(decode_music_tag_bytes(misread.as_bytes(), &vec![], &vec![]), "中");
    let chosen = choose_reading(&vec!["\u{fffd}".to_string(), "中文".to_string()], "x".to_string());
    assert_eq!(chosen, "中文");
}

#[test]
fn tree_loads_a_directory_where_it_expands() {
    let parts = vec!["D:".to_string(), "music".to_string()];
    assert_eq!(
        ui_tree_on_item_expanding(4, TVE_EXPAND, 5, 6, true, &parts),
        Some("D:\\music".to_string())
    );
    assert_eq!(ui_tree_on_item_expanding(0, TVE_EXPAND, 5, 6, true, &parts), None);
    assert_eq!(ui_tree_on_item_expanding(4, 1, 5, 6, true, &parts), None);
    assert_eq!(ui_tree_on_item_expanding(4, TVE_EXPAND, 0, 6, true, &parts), None);
    assert_eq!(ui_tree_on_item_expanding(4, TVE_EXPAND, 5, 0, true, &parts), None);
    assert_eq!(ui_tree_on_item_expanding(4, TVE_EXPAND, 5, 6, false, &parts), None);
    assert_eq!(ui_tree_on_item_expanding(4, TVE_EXPAND, 5, 6, true, &Vec::new()), None);
}
