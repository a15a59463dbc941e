use std::cmp::Ordering;
use velotype::cover::{best_picture, cover_candidates, CoverRequests, PictureUse};
use velotype::dir_playlist::{
    collect_dir_playlist, get_dir_next, get_dir_prev, get_dir_u16, has_media_name, plays_entry,
    split_dir, DirEntry,
};
use velotype::dir_scan::{walk_step, DirStep};
use velotype::library::{
    dir_patterns, filesize_to_u64, filetime_to_u64, music_db_collect_scan_roots,
    music_db_sync_roots, scan_step, song_key, Config, FileRecord, RootStep, ScanStep, StoredRoot,
};
use velotype::media_info::{collect_song_info_scan_style, playlist_paths, title_from_name};
use velotype::music_tree::{
    folder_keys, folder_playlist_name, music_tree_relative_path, tree_item_path_parts, tree_level,
    tree_play, SongPlace, TreePlay,
};
use velotype::playlist_sort::{
    column_key, info_mode, sort_songs, ui_cmp_file_size, ui_playlist_cmp_duration,
    ui_playlist_cmp_text, ui_playlist_filename, ui_playlist_title_for_sort, InfoMode, SongKey,
};
use velotype::playlist_view::{column_name, ui_format_file_size, ui_info_col_text};
use velotype::song::{
    album_name_from_parent_dir, decoders_for, find_by_key, format_time, is_supported_media_ext,
    song_from_row, DecoderKind, SongInfo, SongRow,
};
use velotype::tags::{
    fill_now_playing_from_ffmpeg_tags, parse_author_title_from_path, parse_first_u32,
    parse_u32_pair_slash, probe_media_info_prefer_symphonia, smtc_fill_now_playing_fallbacks,
    split_genres, ProbeMediaInfo,
};
use velotype::watch::{
    merge_watch_action, parse_reports, report_step, DueStep, OnDisk, ReportStep, Watcher,
    FILE_ACTION_ADDED, FILE_ACTION_MODIFIED, FILE_ACTION_REMOVED, NO_TIMEOUT, RETRY_LIMIT,
};

fn song(path: &str, title: &str) -> SongInfo {
    let mut s = SongInfo::at(path);
    s.title = title.to_string();
    s
}

fn entry(name: &str, size: u64) -> DirEntry {
    DirEntry { name: name.to_string(), is_dir: false, size }
}

fn texts(list: &[&str]) -> Vec<String> {
    list.iter().map(|s| s.to_string()).collect()
}

#[test]
fn times_as_text() {
    assert_eq!(format_time(0), "00:00");
    assert_eq!(format_time(61_999), "01:01");
    assert_eq!(format_time(3_600_000), "01:00:00");
    assert_eq!(format_time(3_661_000), "01:01:01");
    assert_eq!(format_time(360_000_000), "100:00:00");
    assert_eq!(format_time(45_296_000), "12:34:56");
}

#[test]
fn media_endings() {
    assert!(is_supported_media_ext("mp3"));
    assert!(is_supported_media_ext("flac"));
    assert!(!is_supported_media_ext("txt"));
    assert!(!is_supported_media_ext("MP3"));
    assert!(has_media_name("a.FLAC"));
    assert!(!has_media_name("mp3"));
}

#[test]
fn general_decoder_comes_last() {
    for path in ["a.mp3", "a.ape", "a.dts", "a"] {
        let kinds = decoders_for(path);
        assert!(matches!(kinds.last(), Some(DecoderKind::FFmpeg)));
    }
    assert!(matches!(decoders_for("x.APE")[0], DecoderKind::MonkeysAudio));
}

#[test]
fn first_song_with_a_key_is_found() {
    let songs = vec![song("C:\\a.mp3", ""), song("c:/A.MP3", "")];
    assert_eq!(find_by_key(&songs, "c:\\a.mp3"), Some(0));
    assert_eq!(find_by_key(&songs, "c:\\b.mp3"), None);
}

#[test]
fn album_is_the_directory() {
    assert_eq!(album_name_from_parent_dir("C:\\x\\Album\\a.mp3"), Some("Album".to_string()));
    assert_eq!(album_name_from_parent_dir("a.mp3"), None);
}

#[test]
fn row_of_the_database() {
    let row = SongRow {
        dir: "C:\\m".to_string(),
        name: "a.mp3".to_string(),
        size: 5,
        title: "T".to_string(),
        artist: "A".to_string(),
        album: "".to_string(),
        duration_ms: 1000,
        duration_text: "".to_string(),
        codec: "mp3".to_string(),
        has_cover: false,
    };
    let s = song_from_row(row).unwrap();
    assert_eq!(s.path, "C:\\m\\a.mp3");
    assert_eq!(s.title, "T");
    assert_eq!(s.author, "A");
    assert_eq!(s.file_size, 5);
}

#[test]
fn numbers_in_tags() {
    assert_eq!(parse_first_u32(" 12abc"), Some(12));
    assert_eq!(parse_first_u32("x"), None);
    assert_eq!(parse_first_u32("4294967296"), None);
    assert_eq!(parse_u32_pair_slash("3/12"), (Some(3), Some(12)));
    assert_eq!(parse_u32_pair_slash("3"), (Some(3), None));
    assert_eq!(split_genres("Rock; Pop/Jazz||"), vec!["Rock", "Pop", "Jazz"]);
}

#[test]
fn author_and_title_of_a_path() {
    assert_eq!(
        parse_author_title_from_path("C:\\m\\Band - Song.mp3"),
        ("Band".to_string(), "Song".to_string())
    );
    assert_eq!(
        parse_author_title_from_path("C:\\m\\Band_Song.mp3"),
        ("Band".to_string(), "Song".to_string())
    );
    assert_eq!(
        parse_author_title_from_path("C:\\m\\Song.mp3"),
        ("".to_string(), "Song".to_string())
    );
}

#[test]
fn first_tag_wins() {
    let tags = vec![
        ("title".to_string(), "One".to_string()),
        ("TITLE".to_string(), "Two".to_string()),
        ("artist".to_string(), "Band".to_string()),
    ];
    let s = fill_now_playing_from_ffmpeg_tags("C:\\m\\x.mp3", &tags);
    assert_eq!(s.title, "One");
    assert_eq!(s.author, "Band");
}

#[test]
fn missing_tags_come_from_the_path() {
    let mut np = SongInfo::at("C:\\Album\\Band - Song.mp3");
    smtc_fill_now_playing_fallbacks(&mut np);
    assert_eq!(np.title, "Song");
    assert_eq!(np.author, "Band");
    assert_eq!(np.album_artist, "Band");
    assert_eq!(np.album, "Album");
}

fn probe(duration_ms: u64, codec: &str) -> ProbeMediaInfo {
    ProbeMediaInfo { duration_ms, codec_name: codec.to_string(), tags: vec![], has_cover: false }
}

#[test]
fn second_probe_fills_the_gaps() {
    let r = probe_media_info_prefer_symphonia("a.mp3", Some(probe(0, "")), Some(probe(9, "mp3")))
        .unwrap();
    assert_eq!((r.duration_ms, r.codec_name.as_str()), (9, "mp3"));
    let r = probe_media_info_prefer_symphonia("a.mp3", Some(probe(5, "x")), Some(probe(9, "mp3")))
        .unwrap();
    assert_eq!((r.duration_ms, r.codec_name.as_str()), (5, "x"));
    let r = probe_media_info_prefer_symphonia("a.flac", Some(probe(5, "x")), None);
    assert!(r.is_none());
}

#[test]
fn song_of_a_scan() {
    let s = collect_song_info_scan_style("C:\\Album\\Song.mp3", 7, None);
    assert_eq!(s.path, "C:\\Album\\Song.mp3");
    assert_eq!(s.file_size, 7);
    assert_eq!(s.title, "Song");
    assert_eq!(s.album, "Album");
    assert_eq!(title_from_name("a.b.mp3"), "a.b");
    assert_eq!(playlist_paths(&texts(&[" C:/a.mp3 ", "", "b"])), vec!["C:\\a.mp3", "b"]);
}

#[test]
fn songs_of_a_directory() {
    let entries = vec![entry("b.mp3", 1), entry("c.txt", 1), entry("a.mp3", 1), entry("e.mp3", 0)];
    let (files, at) = collect_dir_playlist("C:\\m\\b.mp3", Some(&entries));
    assert_eq!(files, vec!["C:\\m\\a.mp3", "C:\\m\\b.mp3"]);
    assert_eq!(at, 1);
    assert!(plays_entry(&entries[0]));
    assert!(!plays_entry(&entries[3]));
    assert_eq!(split_dir("C:\\m\\b.mp3"), Some(("C:\\m".to_string(), "b.mp3".to_string())));
}

#[test]
fn next_and_previous_in_a_directory() {
    let entries = vec![entry("a.mp3", 1), entry("b.mp3", 1), entry("c.mp3", 1)];
    let next = get_dir_next("C:\\m\\a.mp3", Some(&entries));
    assert_eq!(next, "C:\\m\\b.mp3");
    assert_eq!(get_dir_prev(&next, Some(&entries)), "C:\\m\\a.mp3");
    assert_eq!(get_dir_prev("C:\\m\\a.mp3", Some(&entries)), "C:\\m\\a.mp3");
    assert_eq!(get_dir_next("C:\\m\\a.mp3", None), "C:\\m\\a.mp3");
}

#[test]
fn name_in_a_buffer() {
    let mut m = [0u16; 260];
    m[0] = 65;
    m[1] = 66;
    assert_eq!(get_dir_u16(&m), 2);
    assert_eq!(get_dir_u16(&[7u16; 260]), 260);
}

#[test]
fn walk_through_directories() {
    match walk_step("C:\\m\\*", true, "x") {
        DirStep::Folder(p) => assert_eq!(p, "C:\\m\\x\\*"),
        _ => panic!("not walked"),
    }
    match walk_step("C:\\m\\x\\*", false, "a.MP3") {
        DirStep::Song(dir) => assert_eq!(dir, "C:\\m\\x"),
        _ => panic!("no song"),
    }
    match walk_step("C:\\*", false, "a.mp3") {
        DirStep::Song(dir) => assert_eq!(dir, "C:\\"),
        _ => panic!("no song"),
    }
    assert!(matches!(walk_step("C:\\*", true, ".."), DirStep::Skip));
    assert!(matches!(walk_step("C:\\*", false, "a.txt"), DirStep::Skip));
}

#[test]
fn settings_of_the_program() {
    let c = Config::parse("\u{feff}root_dir = D:\\m\nfont_size=x\nload_tray=1\nnone\nserve_port=5\n");
    assert_eq!(c.root_dir, Some("D:\\m".to_string()));
    assert_eq!(c.font_size, None);
    assert_eq!(c.load_tray, Some(true));
    assert_eq!(c.def_exclusive, None);
}

#[test]
fn roots_are_distinct() {
    let roots = music_db_collect_scan_roots("D:\\m|d:/M/|E:\\x");
    let paths: Vec<&str> = roots.iter().map(|r| r.path.as_str()).collect();
    assert_eq!(paths, vec!["D:\\m", "E:\\x"]);
    let stored = vec![
        StoredRoot { id: 1, path: "d:\\m".to_string() },
        StoredRoot { id: 2, path: "F:\\gone".to_string() },
    ];
    let plan = music_db_sync_roots(&roots, &stored);
    assert_eq!(plan.remove.len(), 1);
    assert_eq!(plan.remove[0].id, 2);
    assert_eq!(plan.steps.len(), 2);
    assert!(matches!(plan.steps[1], RootStep::Insert));
}

#[test]
fn unchanged_file_is_skipped() {
    let known = FileRecord { mtime: 5, size: 6, root_id: 7 };
    assert!(scan_step(Some(known), 5, 6, 7) == ScanStep::Skip);
    assert!(scan_step(Some(known), 5, 6, 8) == ScanStep::SkipAndMove);
    assert!(scan_step(Some(known), 6, 6, 7) == ScanStep::Probe);
    assert!(scan_step(None, 5, 6, 7) == ScanStep::Probe);
    assert_eq!(filesize_to_u64(1, 2), 0x1_0000_0002);
    assert_eq!(filetime_to_u64(0, 9), 9);
    assert_eq!(song_key("C:/M", "A.mp3"), Some("c:\\m\\a.mp3".to_string()));
    assert_eq!(song_key("", "A.mp3"), None);
    assert_eq!(dir_patterns("C:\\m\\"), ("C:\\m".to_string(), "C:\\m\\".to_string()));
}

#[test]
fn pictures_of_a_track() {
    let list = vec![(PictureUse::Other, 100), (PictureUse::FrontCover, 10)];
    assert_eq!(best_picture(&list), Some(1));
    assert_eq!(best_picture(&vec![]), None);
    let mut s = SongInfo::at("C:/m/a.mp3");
    s.album = " Al ".to_string();
    assert_eq!(
        cover_candidates(&s),
        vec![
            "C:\\m\\cover.jpg",
            "C:\\m\\folder.jpg",
            "C:\\m\\cover.png",
            "C:\\m\\folder.png",
            "C:\\m\\Al.jpg",
            "C:\\m\\Al.png"
        ]
    );
    let mut requests = CoverRequests::new();
    let first = requests.track_changed("C:\\a.mp3").unwrap();
    assert!(requests.track_changed("C:\\a.mp3").is_none());
    let second = requests.track_changed("C:\\b.mp3").unwrap();
    assert_ne!(first, second);
    assert_eq!(requests.answered(first, Some(9)), None);
    assert_eq!(requests.answered(second, Some(9)), Some(true));
    assert_eq!(requests.answered(second, Some(0)), Some(false));
}

#[test]
fn longest_root_counts() {
    let roots = music_db_collect_scan_roots("D:\\m|D:\\m\\x");
    assert_eq!(music_tree_relative_path(&roots, "D:\\m\\x\\y", "a.mp3"), "y\\a.mp3");
    assert_eq!(music_tree_relative_path(&roots, "D:\\m\\z", "a.mp3"), "z\\a.mp3");
    assert_eq!(music_tree_relative_path(&roots, "E:\\q", "a.mp3"), "E:\\q\\a.mp3");
}

#[test]
fn level_of_the_tree() {
    let roots = music_db_collect_scan_roots("D:\\m");
    let places = vec![
        SongPlace { dir: "D:\\m\\x".to_string(), name: "a.mp3".to_string() },
        SongPlace { dir: "D:\\m\\x\\y".to_string(), name: "b.mp3".to_string() },
        SongPlace { dir: "D:\\m".to_string(), name: "c.mp3".to_string() },
    ];
    let top = tree_level(&roots, None, &places);
    assert_eq!(top.folders, vec!["x"]);
    assert_eq!(top.files, vec!["c.mp3"]);
    let below = tree_level(&roots, Some("x"), &places);
    assert_eq!(below.folders, vec!["y"]);
    assert_eq!(below.files, vec!["a.mp3"]);
    assert_eq!(folder_keys("D:\\m", "X").0, "d:\\m\\x");
    assert_eq!(tree_item_path_parts(&texts(&["b", "a"])), vec!["a", "b"]);
}

#[test]
fn tree_item_is_played() {
    assert!(matches!(tree_play(&vec![], true), TreePlay::Nothing));
    match tree_play(&texts(&["x", "y"]), true) {
        TreePlay::Folder { name, way } => {
            assert_eq!(name, "y");
            assert_eq!(way, "x\\y");
        }
        _ => panic!("no folder"),
    }
    match tree_play(&texts(&["x", "a.mp3"]), false) {
        TreePlay::File(way) => assert_eq!(way, "x\\a.mp3"),
        _ => panic!("no file"),
    }
    assert_eq!(folder_playlist_name("x", &vec![]), None);
}

#[test]
fn songs_are_sorted() {
    let mut songs = vec![song("C:\\2.mp3", "b"), song("C:\\1.mp3", "A"), song("C:\\3.mp3", "B")];
    sort_songs(&mut songs, SongKey::Title, true);
    let order: Vec<&str> = songs.iter().map(|s| s.path.as_str()).collect();
    assert_eq!(order, vec!["C:\\1.mp3", "C:\\2.mp3", "C:\\3.mp3"]);
    sort_songs(&mut songs, SongKey::ExactPath, false);
    assert_eq!(songs[0].path, "C:\\3.mp3");
}

#[test]
fn sort_keys() {
    assert_eq!(ui_playlist_filename("C:\\m\\a.mp3"), "a.mp3");
    assert_eq!(ui_playlist_title_for_sort(&song("C:\\m\\a.mp3", "")), "a.mp3");
    assert_eq!(ui_playlist_cmp_text("a", "B"), Ordering::Less);
    assert_eq!(ui_playlist_cmp_duration(1, 2), Ordering::Less);
    assert_eq!(ui_cmp_file_size(2, 1), Ordering::Greater);
    assert!(info_mode(1) == InfoMode::FileSize);
    assert!(column_key(1) == SongKey::Title);
}

#[test]
fn sizes_as_text() {
    assert_eq!(ui_format_file_size(0), "");
    assert_eq!(ui_format_file_size(1023), "1023 B");
    assert_eq!(ui_format_file_size(1024), "1.0 KB");
    assert_eq!(ui_format_file_size(1536), "1.5 KB");
    assert_eq!(ui_format_file_size(1 << 20), "1.00 MB");
    assert_eq!(ui_format_file_size(5 * (1 << 30) + (1 << 29)), "5.50 GB");
    for bytes in [1075u64, 1126, 1177, 52_428, 1_053_819, 1_610_612_735, 123_456_789_012, u64::MAX] {
        let b = bytes as f64;
        let want = if b >= 1073741824.0 {
            format!("{:.2} GB", b / 1073741824.0)
        } else if b >= 1048576.0 {
            format!("{:.2} MB", b / 1048576.0)
        } else {
            format!("{:.1} KB", b / 1024.0)
        };
        assert_eq!(ui_format_file_size(bytes), want);
    }
}

#[test]
fn info_column() {
    let mut s = song("C:\\m\\a.mp3", "t");
    s.file_size = 2048;
    assert_eq!(ui_info_col_text(InfoMode::FileSize, &s), "2.0 KB");
    assert_eq!(ui_info_col_text(InfoMode::Path, &s), "C:\\m\\a.mp3");
    assert_eq!(ui_info_col_text(InfoMode::Nothing, &s), "");
    assert!(!column_name(0).is_empty());
}

#[test]
fn new_file_stays_new() {
    assert_eq!(merge_watch_action(FILE_ACTION_ADDED, FILE_ACTION_MODIFIED), FILE_ACTION_ADDED);
    assert_eq!(merge_watch_action(FILE_ACTION_MODIFIED, FILE_ACTION_ADDED), FILE_ACTION_ADDED);
    assert_eq!(
        merge_watch_action(FILE_ACTION_MODIFIED, FILE_ACTION_MODIFIED),
        FILE_ACTION_MODIFIED
    );
}

#[test]
fn reports_of_the_watch() {
    assert!(matches!(report_step(FILE_ACTION_ADDED, "a.mp3"), ReportStep::Queue));
    assert!(matches!(report_step(FILE_ACTION_REMOVED, "a.mp3"), ReportStep::Remove));
    assert!(matches!(report_step(FILE_ACTION_MODIFIED, "a.txt"), ReportStep::Ignore));
    let mut buf: Vec<u8> = Vec::new();
    buf.extend_from_slice(&0u32.to_le_bytes());
    buf.extend_from_slice(&FILE_ACTION_ADDED.to_le_bytes());
    buf.extend_from_slice(&4u32.to_le_bytes());
    buf.extend_from_slice(&[65, 0, 66, 0]);
    let reports = parse_reports(&buf).unwrap();
    assert_eq!(reports.len(), 1);
    assert_eq!(reports[0].action, FILE_ACTION_ADDED);
    assert_eq!(reports[0].name, vec![65, 66]);
    buf.truncate(13);
    assert!(parse_reports(&buf).is_none());
}

#[test]
fn scans_wait_and_are_retried() {
    let mut w = Watcher::new();
    assert_eq!(w.timeout_ms(0), NO_TIMEOUT);
    w.queue("C:\\m\\a.mp3".to_string(), 1, FILE_ACTION_ADDED, 1000);
    assert_eq!(w.timeout_ms(1000), 250);
    assert!(w.take_due(1100).is_empty());
    let mut due = w.take_due(1250);
    assert_eq!(due.len(), 1);
    assert!(matches!(due[0].due_step(OnDisk::File), DueStep::ScanFile));
    assert!(matches!(due[0].due_step(OnDisk::Missing), DueStep::Retry));
    let mut p = due.pop().unwrap();
    p.retries = RETRY_LIMIT;
    assert!(matches!(p.due_step(OnDisk::Missing), DueStep::GiveUp));
    p.retries = 0;
    w.retry(p, 2000);
    assert_eq!(w.pending.len(), 1);
    w.forget("c:/M/A.mp3");
    assert!(w.pending.is_empty());
}

fn report_bytes(next: u32, action: u32, name: &str) -> Vec<u8> {
    let units: Vec<u16> = name.encode_utf16().collect();
    let mut buf: Vec<u8> = Vec::new();
    buf.extend_from_slice(&next.to_le_bytes());
    buf.extend_from_slice(&action.to_le_bytes());
    buf.extend_from_slice(&((units.len() * 2) as u32).to_le_bytes());
    for u in units {
        buf.extend_from_slice(&u.to_le_bytes());
    }
    buf
}

#[test]
fn last_report_decides() {
    let mut buf = report_bytes(24, FILE_ACTION_ADDED, "a.mp3");
    buf.resize(24, 0);
    buf.extend_from_slice(&report_bytes(24, FILE_ACTION_ADDED, "b.mp3"));
    buf.resize(48, 0);
    buf.extend_from_slice(&report_bytes(0, FILE_ACTION_REMOVED, "A.mp3"));
    let mut w = Watcher::new();
    let gone = w.take_reports("C:\\m", 7, &buf, 100).unwrap();
    assert_eq!(gone, vec!["C:\\m\\A.mp3"]);
    assert_eq!(w.pending.len(), 1);
    assert_eq!(w.pending[0].full_path, "C:\\m\\b.mp3");
    assert_eq!(w.pending[0].root_id, 7);
    assert!(w.take_reports("C:\\m", 7, &[1, 2, 3], 100).is_none());
    let mut p = w.take_due(350).pop().unwrap();
    p.retries = RETRY_LIMIT;
    assert!(!w.scan_failed(p, 400));
    assert!(w.pending.is_empty());
}
