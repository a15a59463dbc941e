use velotype::columns::{column_widths, default_ratios, ColumnRatios};
use velotype::dir_scan::{scan_pattern, StalePaths};
use velotype::library::music_db_collect_scan_roots;
use velotype::media_info::{collect_song_info, song_row_texts};
use velotype::music_tree::{collect_folder_songs, fallback_path};
use velotype::net::{option_number, TransferOption};
use velotype::now_playing::{device_settled, smtc_set_now_playing_from_path};
use velotype::output_format::{
    exclusive_probe_list, falls_back_to_shared, shared_plan, DeviceFormat, SampleFormat, SampleKind,
};
use velotype::pcm::{frame_values, scale_bits, FrameError, PcmKind};
use velotype::pcm_stereo::{frame_to_stereo, frame_words};
use velotype::pipe_commands::{
    answer_end, answer_start, pipe_get_header, pipe_get_list, pipe_get_tab, pipe_get_tree,
    pipe_music_call, point_in_window, PipeCall, PointKind, HTCAPTION,
};
use velotype::playback::{Playback, ReadStep, SeekStep};
use velotype::player_messages::PlayerDesk;
use velotype::player_state::{PlayerControls, PlayerState, RetryReason};
use velotype::playlist_request::serve_receive;
use velotype::playlist_sort::{
    column_clicked, sort_playlist, sort_requested, ui_playlist_sort_compare, InfoMode, SongKey,
    INFO_COLUMN,
};
use velotype::playlist_store::saved_playlist_name;
use velotype::playlist_view::ui_playlist_cell_text;
use velotype::song::{decoder_failure, decoder_name, DecoderKind, SongInfo};
use velotype::stream_time::{
    block_of_position, seek_targets, FirstTimestamp, Rational, NO_TIMESTAMP,
};
use velotype::tabs::{
    listview_of, pl_id_to_play, refreshed_mark, tab_choice, tab_name, PlayChoice, PlayingMark,
    PlaylistView, TabChoice,
};
use velotype::tags::{
    fill_now_playing_from_symphonia_tags, gather_texts, sorted_set, standard_tag_name,
    tag_display_key, tag_kind_by_key, ProbeMediaInfo, TagItem, TagKind,
};
use velotype::text_repair::{music_text_score, repair_step, RepairStep};

fn tab(id: usize, name: &str, hlist: i64) -> PlaylistView {
    PlaylistView {
        playlist_id: id,
        name: name.to_string(),
        hlist,
        hheader: hlist + 100,
        cols_inited: false,
        cols_last_total_w: 0,
        sort_col: -1,
        sort_asc: true,
    }
}

fn songs(paths: &[&str]) -> Vec<SongInfo> {
    paths.iter().map(|p| SongInfo::at(p)).collect()
}

fn pair(k: &str, v: &str) -> (String, String) {
    (k.to_string(), v.to_string())
}

#[test]
fn tabs_and_lists() {
    let tabs = vec![tab(1, "a", 11), tab(2, "b", 22)];
    assert_eq!(tab_name(7, "  "), "playlist 7");
    assert_eq!(tab_name(7, "x"), "x");
    assert_eq!(listview_of(&tabs, 2), 22);
    assert_eq!(listview_of(&tabs, 9), 0);
    assert!(tab_choice(&tabs, 9, 1, PlayerState::Playing) == TabChoice::Unknown);
    assert!(tab_choice(&tabs, 1, 1, PlayerState::Playing) == TabChoice::Switch);
    assert!(tab_choice(&tabs, 0, 1, PlayerState::Playing) == TabChoice::Playing);
    assert!(tab_choice(&tabs, 0, 1, PlayerState::Paused) == TabChoice::Resume);
    assert!(tab_choice(&tabs, 0, 1, PlayerState::Idle) == TabChoice::StartAgain);
    let mark = PlayingMark { list_id: 2, place: 9 };
    assert_eq!(refreshed_mark(mark, 2, 4), Some(3));
    assert_eq!(refreshed_mark(mark, 1, 4), None);
}

#[test]
fn song_that_was_clicked() {
    let mut c = PlayerControls::new();
    c.set_active_playlist_with_resume(2, 5, 1, 3, 700);
    assert_eq!((c.list_id, c.track, c.to_pos_ms, c.play_mode), (2, 3, 700, 1));
    assert!(matches!(pl_id_to_play(&mut c, 2, 2, 3).0, PlayChoice::Restart));
    assert!(matches!(pl_id_to_play(&mut c, 2, 2, 4).0, PlayChoice::SwitchTo(4)));
    assert_eq!(c.commands.len(), 1);
    assert!(matches!(pl_id_to_play(&mut c, 2, 1, 4).0, PlayChoice::Activate(4)));
    assert!(!c.set_active_playlist_with_resume(2, 0, 1, 3, 700));
    c.add_seek(5);
    c.add_seek(-2);
    assert_eq!(c.to_seek, 3);
}

#[test]
fn playlist_that_goes() {
    let mut c = PlayerControls::new();
    c.set_active_playlist(5, 3, 1, 2);
    let mark = PlayingMark { list_id: 5, place: 2 };
    let (active, mark) = c.playlist_deleted(mark, 5, 2);
    assert!(active);
    assert_eq!((mark.list_id, mark.place), (1, -1));
    assert_eq!((c.list_id, c.track, c.play_mode), (1, 0, 2));
    let (active, mark) = c.playlist_cleared(mark, 1);
    assert!(active);
    assert_eq!((mark.list_id, mark.place), (1, -1));
    assert!(!c.playlist_cleared(mark, 9).0);
    assert!(c.dir_loaded(1, 4));
    assert_eq!(c.track, 4);
    assert!(!c.dir_loaded(2, 0));
}

#[test]
fn answers_on_the_pipe() {
    let tabs = vec![tab(1, "a", 11), tab(2, "b", 22)];
    let mut a = answer_start(3);
    assert_eq!(a, vec![pair("ms_ui_pl_id", "3")]);
    pipe_get_tab(&mut a, &tabs, Some(1));
    assert_eq!(
        a[1..],
        [pair("ms_ui_tab_name", "b"), pair("ms_ui_tab_pl_id", "2"), pair("ms_ui_tab_id", "1")]
    );
    let mut a = answer_start(3);
    pipe_get_header(&mut a, &tabs, 122, Some(0));
    assert_eq!(a[1], pair("ms_ui_list_pl_id", "2"));
    assert_eq!(a[3], pair("ms_ui_list_col_name", "#"));
    let mut a = answer_start(3);
    pipe_get_list(&mut a, Some(2), Some(&songs(&["x", "y"])), 1);
    assert_eq!(a[3], pair("ms_ui_list_path", "y"));
    let mut a = answer_start(3);
    pipe_get_tree(&mut a, &vec!["p".to_string(), "q".to_string()], true, 77);
    assert!(a.contains(&pair("ms_ui_tree_path", "p\\q")));
    assert!(a.contains(&pair("ms_ui_tree_id", "77")));
    let mut a = answer_start(3);
    answer_end(&mut a, PointKind::NoPart, HTCAPTION);
    assert_eq!(a[1], pair("ms_ui_caption", "1"));
}

#[test]
fn calls_on_the_pipe() {
    let mut bytes = vec![0u8; 24];
    bytes[0..4].copy_from_slice(&(-5i32).to_le_bytes());
    bytes[4..8].copy_from_slice(&7i32.to_le_bytes());
    bytes[8..10].copy_from_slice(&3u16.to_le_bytes());
    bytes[16..24].copy_from_slice(&(-9i64).to_le_bytes());
    match pipe_music_call(&bytes) {
        PipeCall::Query(q) => assert_eq!((q.x, q.y, q.flag, q.hwnd), (-5, 7, 3, -9)),
        _ => panic!("no query"),
    }
    assert!(pipe_music_call(&[9, 0, 0, 0]) == PipeCall::Command(9));
    assert!(pipe_music_call(&[0, 0, 0, 0]) == PipeCall::Nothing);
    assert!(pipe_music_call(&[1, 2]) == PipeCall::Nothing);
    assert_eq!(point_in_window(10, 20, 3, 4), (7, 16));
}

#[test]
fn bytes_that_were_sent() {
    let r = serve_receive(b" a.mp3\nb.mp3 ", 13).unwrap();
    assert_eq!(r.files, vec!["a.mp3", "b.mp3"]);
    assert!(serve_receive(b"a.mp3", 6).is_none());
    assert!(serve_receive(&[0xff, 0xfe], 2).is_none());
}

#[test]
fn seeks_in_a_stream() {
    let tb = Rational { num: 1, den: 1000 };
    assert_eq!(seek_targets(50, tb, 7), (Some(57), 50_000));
    assert_eq!(seek_targets(-1, tb, 7), (Some(7), 0));
    assert_eq!(seek_targets(50, Rational { num: 0, den: 1 }, 7).0, None);
    assert_eq!(block_of_position(2000, 44_100), 88_200);
}

#[test]
fn first_time_stamp() {
    let mut f = FirstTimestamp::new(1);
    assert_eq!(f.take(Some((0, 5, 5))), None);
    assert_eq!(f.take(Some((1, NO_TIMESTAMP, 8))), Some(8));
    assert_eq!(f.take(Some((1, NO_TIMESTAMP, NO_TIMESTAMP))), Some(0));
    assert_eq!(f.take(None), Some(0));
    let mut f = FirstTimestamp::new(1);
    for _ in 0..255 {
        assert_eq!(f.take(Some((0, 5, 5))), None);
    }
    assert_eq!(f.take(Some((0, 5, 5))), Some(0));
}

#[test]
fn names_of_playlists() {
    assert_eq!(saved_playlist_name(Some(" a "), 4), "a");
    assert_eq!(saved_playlist_name(Some("  "), 4), "playlist 4");
    assert_eq!(saved_playlist_name(None, 4), "playlist 4");
}

#[test]
fn tags_and_their_names() {
    assert_eq!(standard_tag_name(TagKind::Title), "TrackTitle");
    let tag = TagItem {
        kind: Some(TagKind::Album),
        key: "TALB".to_string(),
        value: "x".to_string(),
    };
    assert_eq!(tag_display_key(&tag), "Album (TALB)");
    assert_eq!(tag_display_key(&TagItem { kind: None, ..tag }), "TALB");
    assert!(tag_kind_by_key("TITLE") == TagKind::Title);
    assert_eq!(
        sorted_set(vec!["b".to_string(), "a".to_string(), "b".to_string()]),
        vec!["a", "b"]
    );
    let tags = vec![TagItem {
        kind: Some(TagKind::Title),
        key: "TIT2".to_string(),
        value: " T ".to_string(),
    }];
    assert_eq!(fill_now_playing_from_symphonia_tags("C:\\a\\b.mp3", &tags).title, "T");
    let _ = gather_texts(&tags);
    let np = smtc_set_now_playing_from_path("C:\\Al\\Band - Song.mp3", None, None);
    assert_eq!((np.title.as_str(), np.author.as_str()), ("Song", "Band"));
}

#[test]
fn row_of_a_song() {
    let info = ProbeMediaInfo {
        duration_ms: 61_000,
        codec_name: "mp3".to_string(),
        tags: vec![],
        has_cover: false,
    };
    let row = song_row_texts("C:\\m\\Al", "Song.mp3", &info);
    assert_eq!(row.title, "Song");
    assert_eq!(row.album, "Al");
    assert_eq!(row.duration_text, "01:01");
    let s = collect_song_info("C:\\Al\\Band - Song.mp3", 3, None, None, None);
    assert_eq!((s.title.as_str(), s.author.as_str(), s.file_size), ("Song", "Band", 3));
}

#[test]
fn folder_without_copies() {
    let found = songs(&["C:\\a.mp3", "c:/A.MP3", "C:\\b.mp3"]);
    assert_eq!(collect_folder_songs(found).len(), 2);
    let roots = music_db_collect_scan_roots("D:\\m|E:\\x");
    assert_eq!(fallback_path(&roots, "a\\b.mp3"), "D:\\m\\a\\b.mp3");
}

#[test]
fn columns_after_a_change() {
    let mut c = ColumnRatios::new();
    assert_eq!(c.update_from_widths([0; 5]), None);
    assert_eq!(c.update_from_widths([100, 100, 100, 100, 100]), Some([200; 5]));
    assert_eq!(c.ui_get_playlist_col_ratios(), [200; 5]);
    let (widths, info) = column_widths(1000, &default_ratios());
    assert_eq!(info, 10);
    assert_eq!(widths.iter().sum::<i32>() + info, 1000);
}

#[test]
fn clicks_on_a_column() {
    let mut v = tab(1, "a", 11);
    assert!(matches!(
        column_clicked(&mut v, 1, InfoMode::Nothing),
        Some((SongKey::Title, true))
    ));
    assert!(matches!(
        column_clicked(&mut v, 1, InfoMode::Nothing),
        Some((SongKey::Title, false))
    ));
    assert!(column_clicked(&mut v, INFO_COLUMN, InfoMode::Nothing).is_none());
    let (mode, key) = sort_requested(Some(&mut v), 1);
    assert!(mode == InfoMode::FileSize);
    assert!(key == Some(SongKey::FileSize));
    assert_eq!(v.sort_col, INFO_COLUMN);
}

#[test]
fn sorted_playlist_keeps_its_song() {
    let mut list = songs(&["C:\\b.mp3", "C:\\a.mp3"]);
    let mut c = PlayerControls::new();
    c.set_active_playlist(4, 2, 2, 0);
    let mut mark = PlayingMark { list_id: 4, place: 0 };
    let at = sort_playlist(
        &mut list,
        &mut c,
        &mut mark,
        4,
        SongKey::ExactPath,
        true,
        "c:\\b.mp3",
    );
    assert_eq!(at, Some(1));
    assert_eq!(c.track, 1);
    assert_eq!(mark.place, 1);
    assert_eq!(
        ui_playlist_sort_compare(1, &list[0], &list[1]),
        std::cmp::Ordering::Less
    );
}

#[test]
fn cells_of_a_list() {
    let list = songs(&["C:\\a.mp3"]);
    let none = PlayingMark { list_id: 0, place: -1 };
    assert!(ui_playlist_cell_text(&list, 4, none, InfoMode::Nothing, 1, 0).is_none());
    assert_eq!(
        ui_playlist_cell_text(&list, 4, none, InfoMode::Nothing, 0, 0),
        Some("1".to_string())
    );
}

#[test]
fn formats_to_try() {
    let f = SampleFormat { store_bits: 16, valid_bits: 16, kind: SampleKind::Int };
    let list = exclusive_probe_list(&vec![44_100, 48_000], &vec![f]);
    assert_eq!(list.len(), 2);
    assert_eq!((list[0].0, list[1].0), (44_100, 48_000));
    let plan = shared_plan(44_100, None);
    assert!(!plan.exclusive);
    assert_eq!(plan.output_rate, 44_100);
    let device = DeviceFormat {
        rate: 44_100,
        channels: 2,
        store_bits: 16,
        valid_bits: 16,
        kind: Some(SampleKind::Int),
    };
    assert_eq!(device.effective_bits(), 16);
    assert!(!falls_back_to_shared(&device, Some(16), None));
}

#[test]
fn samples_of_a_frame() {
    assert_eq!(scale_bits(PcmKind::S16), Some(15));
    assert_eq!(scale_bits(PcmKind::F32), None);
    let plane = |bytes: &[u8]| Some(bytes.to_vec());
    let planar = vec![plane(&[1, 0, 2, 0]), plane(&[3, 0, 4, 0])];
    assert_eq!(frame_values(6, &planar, true, 2, 2).ok(), Some(vec![1, 3, 2, 4]));
    assert!(matches!(
        frame_values(6, &vec![plane(&[1, 0]); 9], false, 1, 9),
        Err(FrameError::PlanesMissing)
    ));
    assert_eq!(frame_words(6, &planar, 2, 2).ok(), Some(vec![1, 3, 2, 4]));
    assert!(matches!(
        frame_words(1, &vec![plane(&[1, 0])], 1, 1),
        Err(FrameError::NeedsTwoChannels)
    ));
    assert_eq!(frame_to_stereo(1, &vec![plane(&[7, 0])], 1, 1).ok(), Some(vec![7, 7]));
}

#[test]
fn seek_without_samples() {
    let mut p = Playback::new(48_000, 2, 60_000, 0, 240, 480);
    assert_eq!(p.underrun(), None);
    assert!(matches!(p.seek(10_000, 0), SeekStep::FadeOut));
    assert_eq!(p.underrun(), Some(10_000));
    assert!(matches!(p.before_read(false), ReadStep::Silence));
}

#[test]
fn device_that_settled() {
    let mut c = PlayerControls::new();
    c.request_playback_retry(RetryReason::DefaultDeviceChanged);
    device_settled(&mut c);
    assert!(c.pending_retry == RetryReason::NoRetry);
}

#[test]
fn paused_player_resumes() {
    let mut d = PlayerDesk {
        controls: PlayerControls::new(),
        paused: true,
        exclusive: false,
        def_exclusive: false,
        window_visible: true,
        last_save: 0,
    };
    d.resume_if_paused();
    assert!(!d.paused);
}

#[test]
fn options_of_a_transfer() {
    assert_eq!(option_number(&TransferOption::Url("x".to_string())), 10002);
    assert_eq!(option_number(&TransferOption::TimeoutMs(1)), 155);
    assert_eq!(option_number(&TransferOption::Gather), 20011);
}

#[test]
fn decoders_that_failed() {
    assert_eq!(decoder_name(DecoderKind::Symphonia), "Symphonia");
    let errors = vec![
        (DecoderKind::Symphonia, "a".to_string()),
        (DecoderKind::FFmpeg, "b".to_string()),
    ];
    assert_eq!(
        decoder_failure("x.mp3", &errors),
        "解码器初始化失败: x.mp3\nSymphonia: a\nFFmpeg: b"
    );
}

#[test]
fn files_that_have_gone() {
    let rows = vec![pair("C:\\M", "a.mp3"), pair("c:\\m", "A.mp3"), pair("C:\\M", "b.mp3"), pair("", "x")];
    let mut stale = StalePaths::music_db_collect_song_path_map(&rows);
    assert_eq!(stale.paths.len(), 2);
    stale.seen("c:\\m", "A.MP3");
    assert_eq!(stale.paths.len(), 1);
    assert_eq!(stale.paths[0].name, "b.mp3");
    assert_eq!(scan_pattern("C:\\m"), "C:\\m\\*");
    assert_eq!(scan_pattern("C:\\"), "C:\\*");
}

#[test]
fn score_of_a_text() {
    assert!(music_text_score("中文") > music_text_score("\u{fffd}\u{fffd}"));
    assert!(matches!(repair_step("plain"), RepairStep::Keep));
}
