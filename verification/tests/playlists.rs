use velotype::columns::{
    default_ratios, fit_last_column, init_width, ui_normalize_playlist_col_ratios,
    ui_playlist_col_widths_from_ratios, ui_playlist_info_col_width, ColumnRatios,
};
use velotype::pipe_codec::{bin2vec, vec2bin};
use velotype::pipe_commands::{
    command_name, copied_text, copy_command, hit_column, point_kind, point_lparam, text_of_handed,
    CopyCommand, PointKind,
};
use velotype::player_state::{PlayerControls, PlayerState};
use velotype::playlist::{
    pl_del_item, remove_places, AfterDeletion, PendingTracks, PlaylistPool,
};
use velotype::playlist_request::{deliver_playlist, list_st, parse_unsigned, PLAYLIST_NAME_USER};
use velotype::playlist_store::{
    append_start, collect_delete_plan, collect_random_played, item_row, load_playlist_items,
    may_delete_playlist, next_playlist_id, normalize_play_mode, playlist_target,
    random_next_playlist_idx, random_played_of, replacement_rows, song_from_item, PlaylistTarget,
    PLAYLIST_ID_DEFAULT, PLAYLIST_ID_USER,
};
use velotype::session::{
    current_progress, find_resume, restore_state, restore_ui_config, restored_playlist_id,
    resume_from_row, saved_progress, shows_window, ui_tab_id_to_pl, window_place, StateRow,
    TabOutcome, UiRow,
};
use velotype::song::SongInfo;
use velotype::tabs::{
    find_playlist_id_by_hlist, find_playlist_view, play_mode_to_str, playlist_name_by_id,
    shown_tab, tab_after_deletion, tab_deletion, PlaylistView, TabDeletion,
};

fn song(path: &str) -> SongInfo {
    SongInfo::at(path)
}

fn songs(paths: &[&str]) -> Vec<SongInfo> {
    paths.iter().map(|p| song(p)).collect()
}

fn paths(list: &[SongInfo]) -> Vec<&str> {
    list.iter().map(|s| s.path.as_str()).collect()
}

fn tab(id: usize, name: &str, hlist: i64) -> PlaylistView {
    PlaylistView {
        playlist_id: id,
        name: name.to_string(),
        hlist,
        hheader: hlist + 100,
        cols_inited: false,
        cols_last_total_w: 0,
        sort_col: -1,
        sort_asc: true,
    }
}

#[test]
fn pairs_round_trip() {
    let pairs = vec![
        ("cmd".to_string(), "播放".to_string()),
        ("".to_string(), "x".to_string()),
    ];
    let bin = vec2bin(&pairs);
    assert_eq!(&bin[..8], &[3, 0, 0, 0, 6, 0, 0, 0]);
    assert_eq!(bin2vec(&bin), Some(pairs));
    assert_eq!(bin2vec(&vec![]), Some(vec![]));
    assert_eq!(bin2vec(&vec![1, 0, 0, 0, 0, 0, 0, 0]), None);
    assert_eq!(bin2vec(&vec![1, 0, 0, 0, 0, 0, 0, 0, 0xff]), None);
}

#[test]
fn request_for_a_playlist() {
    let r = list_st("@info=play_mode=rand, volume=55,pos=1,auto_dir=1,pl_name= mine \na.mp3\n\n b.mp3\0\n")
        .unwrap();
    assert_eq!(r.files, vec!["a.mp3", "b.mp3"]);
    assert_eq!(r.play_mode, 1);
    assert_eq!(r.volume, 55);
    assert_eq!(r.pos, 1);
    assert!(r.auto_dir);
    assert_eq!(r.name, Some("mine".to_string()));
    let plain = list_st("a.mp3\nb.mp3").unwrap();
    assert_eq!((plain.play_mode, plain.volume, plain.pos), (0, 100, 0));
    assert!(list_st("@only settings").is_none());
    assert_eq!(list_st("@volume=300\na").unwrap().volume, 80);
    assert_eq!(parse_unsigned("+7", 9), Some(7));
    assert_eq!(parse_unsigned("10", 9), None);
    assert_eq!(parse_unsigned("", 9), None);
}

#[test]
fn delivered_playlist_starts_inside() {
    let mut r = list_st("a.mp3\nb.mp3").unwrap();
    r.pos = 99;
    let d = deliver_playlist(r).unwrap();
    assert!(d.track < d.files.len());
    assert_eq!(d.name, PLAYLIST_NAME_USER);
    let mut c = PlayerControls::new();
    c.deliver(&d, Some(4));
    assert_eq!(c.list_id, 4);
    assert!(deliver_playlist(list_st("").unwrap()).is_none());
}

#[test]
fn deletion_keeps_the_playing_song() {
    let mut list = songs(&["a", "b", "c", "d"]);
    let mut c = PlayerControls::new();
    c.set_active_playlist(3, 4, 2, 2);
    let d = pl_del_item(&mut list, &mut c, 3, &vec![0, 3], None).unwrap();
    assert_eq!(d.removed, vec![3, 0]);
    assert!(matches!(d.playing, AfterDeletion::Shifted(1)));
    assert_eq!(paths(&list), vec!["b", "c"]);
    assert_eq!(c.track, 1);
}

#[test]
fn deletion_of_the_playing_song() {
    let mut list = songs(&["a", "b", "c"]);
    let mut c = PlayerControls::new();
    c.set_active_playlist(3, 3, 2, 1);
    let d = pl_del_item(&mut list, &mut c, 3, &vec![1], None).unwrap();
    assert!(matches!(d.playing, AfterDeletion::Switched(1)));
    let d = pl_del_item(&mut list, &mut c, 3, &vec![0, 1], None).unwrap();
    assert!(matches!(d.playing, AfterDeletion::Emptied));
    assert!(list.is_empty());
}

#[test]
fn places_fall_and_go_one_by_one() {
    let plan = collect_delete_plan(&vec![(1, 5), (1, 2), (4, 9), (4, 0)]);
    assert_eq!(plan, vec![(1, vec![5, 2]), (4, vec![9, 0])]);
    let mut all: Vec<u32> = (0..7).collect();
    let mut one_by_one = all.clone();
    for p in &plan[0].1 {
        one_by_one.remove(*p);
    }
    remove_places(&mut all, &plan[0].1);
    assert_eq!(all, one_by_one);
}

#[test]
fn pending_track_is_found_again() {
    let mut p = PendingTracks::new();
    p.set_pending_track_by_path(3, "C:/B.mp3");
    assert_eq!(p.try_resolve_pending_track_index(4, &songs(&["c:\\b.mp3"])), None);
    assert_eq!(p.try_resolve_pending_track_index(3, &songs(&["a", "c:\\b.mp3"])), Some(1));
    assert_eq!(p.try_resolve_pending_track_index(3, &songs(&["a", "c:\\b.mp3"])), None);
}

#[test]
fn stored_song_is_read_back() {
    let mut s = song("C:\\m\\a.mp3");
    s.title = "T".to_string();
    s.author = "A".to_string();
    s.genres = vec!["Rock".to_string(), "Pop".to_string()];
    s.duration_ms = 5000;
    s.track_number = 3;
    let back = song_from_item(item_row(&s)).unwrap();
    assert_eq!(back.path, s.path);
    assert_eq!(back.title, "T");
    assert_eq!(back.genres, s.genres);
    assert_eq!(back.track_number, 3);
    assert_eq!(back.duration_ms, 5000);
    assert!(load_playlist_items(vec![]).is_empty());
}

#[test]
fn shuffle_plays_all_before_it_repeats() {
    let mut played = vec![false; 4];
    let mut current = 0usize;
    let mut seen = vec![current];
    for draw in 0..3u64 {
        let next = random_next_playlist_idx(&mut played, current, draw * 7).unwrap();
        assert!(!seen.contains(&next));
        seen.push(next);
        current = next;
    }
    seen.sort();
    assert_eq!(seen, vec![0, 1, 2, 3]);
    assert_eq!(random_next_playlist_idx(&mut vec![], 0, 1), None);
}

#[test]
fn marks_follow_the_paths() {
    let marks = collect_random_played(&vec![("C:\\A".to_string(), 1), ("c:/b".to_string(), 0)]);
    assert_eq!(random_played_of(&marks, "c:\\a"), 1);
    assert_eq!(random_played_of(&marks, "c:\\x"), 0);
    let rows = replacement_rows(&songs(&["c:\\a", "c:\\x"]), &vec![("C:\\A".to_string(), 1)]);
    assert_eq!(rows.iter().map(|r| r.1).collect::<Vec<i64>>(), vec![1, 0]);
}

#[test]
fn numbers_of_playlists() {
    assert_eq!(append_start(None), 0);
    assert_eq!(append_start(Some(4)), 5);
    assert_eq!(next_playlist_id(None), 3);
    assert_eq!(next_playlist_id(Some(9)), 10);
    assert_eq!(normalize_play_mode(1), 1);
    assert_eq!(normalize_play_mode(9), 2);
    assert!(!may_delete_playlist(PLAYLIST_ID_USER));
    assert!(!may_delete_playlist(PLAYLIST_ID_DEFAULT));
    assert!(may_delete_playlist(3));
    assert!(matches!(playlist_target(Some("mine")), PlaylistTarget::Named(n) if n == "mine"));
    assert!(matches!(playlist_target(None), PlaylistTarget::BuiltIn(PLAYLIST_ID_USER)));
}

fn ui_row() -> UiRow {
    UiRow {
        volume: 70,
        win_visible: 1,
        win_rect: [10, 20, 300, 400],
        split_lr: 600,
        split_list_log: 700,
        split_cover_tree: 300,
        list_cols: [100, 300, 200, 200, 200],
    }
}

#[test]
fn window_is_restored() {
    let c = restore_ui_config(&ui_row());
    assert_eq!(c.volume, 70);
    assert_eq!(c.win_rect, Some([10, 20, 300, 400]));
    assert_eq!((c.ui_split_lr, c.ui_split_list_log, c.ui_split_cover_tree), (600, 700, 300));
    assert_eq!(c.ui_list_col_ratios, [100, 300, 200, 200, 200]);
    assert!(shows_window(Some(&c), false));
    let place = window_place([5, 6, 1, 2]);
    assert!(place[2] >= 150 && place[3] >= 100);
}

fn state_row() -> StateRow {
    StateRow {
        playlist_id: 3,
        track_idx: 7,
        track_path: "C:\\B".to_string(),
        progress_ms: 1234,
        play_mode: 1,
        volume: 40,
        is_playing: 1,
        win_visible: 0,
        win_rect: [0, 0, 0, 0],
    }
}

#[test]
fn playing_song_is_found_again() {
    let items = vec![item_row(&song("c:\\a")), item_row(&song("c:\\b"))];
    let s = restore_state(state_row(), items).unwrap();
    let mut c = PlayerControls::new();
    c.restore_playback(&s, 1, false);
    assert_eq!(c.track, 1);
    assert_eq!(c.list_id, 3);
    assert!(restore_state(state_row(), vec![]).is_none());
    assert_eq!(restored_playlist_id(5), 5);
}

#[test]
fn progress_is_saved_and_resumed() {
    let p = saved_progress(3, 4, Some("C:\\a"), 99);
    assert_eq!((p.track_idx, p.progress_ms, p.track_path.as_str()), (4, 99, "C:\\a"));
    let resume = resume_from_row("C:\\B".to_string(), 50);
    assert_eq!(resume, Some(("C:\\B".to_string(), 50)));
    assert_eq!(resume_from_row("".to_string(), 50), None);
    let found = find_resume(&songs(&["c:\\a", "c:\\b"]), &resume).unwrap();
    assert_eq!((found.0, found.1), (1, 50));
    let list = songs(&["c:\\a", "c:\\b"]);
    assert_eq!(current_progress(3, "C:\\b", Some(&list), 88200, 44100, 2), Some((1, 1000)));
    assert_eq!(current_progress(0, "C:\\b", Some(&list), 88200, 44100, 2), None);
}

#[test]
fn tabs_are_found() {
    let tabs = vec![tab(1, "a", 11), tab(2, "b", 22), tab(5, "c", 33)];
    assert_eq!(find_playlist_view(&tabs, 2), Some(1));
    assert_eq!(find_playlist_id_by_hlist(&tabs, 33), Some(5));
    assert_eq!(find_playlist_view(&tabs, 9), None);
    assert_eq!(playlist_name_by_id(&tabs, &vec![], 5), "c");
    assert_eq!(playlist_name_by_id(&tabs, &vec![(9, "z".to_string())], 9), "z");
    assert_eq!(playlist_name_by_id(&tabs, &vec![], 8), "playlist 8");
    assert_eq!(playlist_name_by_id(&tabs, &vec![], 0), "(none)");
    assert_eq!(play_mode_to_str(1), "随机");
    assert!(matches!(tab_deletion(&tabs, 2), TabDeletion::Delete(5)));
    assert!(matches!(tab_deletion(&tabs, 9), TabDeletion::Refused));
    assert_eq!(shown_tab(1, 3), Some(1));
    assert_eq!(shown_tab(-1, 0), None);
    assert_eq!(tab_after_deletion(2, 0, 2), Some(1));
}

#[test]
fn shares_make_a_whole() {
    let mut r = [1u32, 1, 1, 1, 1];
    ui_normalize_playlist_col_ratios(&mut r);
    assert_eq!(r, [200, 200, 200, 200, 200]);
    let mut r = [0u32; 5];
    ui_normalize_playlist_col_ratios(&mut r);
    assert_eq!(r, default_ratios());
    assert_eq!(default_ratios().iter().sum::<u32>(), 1000);
    let mut c = ColumnRatios::new();
    c.ui_set_playlist_col_ratios([2, 1, 1, 0, 0]);
    assert_eq!(c.ui_get_playlist_col_ratios(), [500, 250, 250, 0, 0]);
}

#[test]
fn columns_fill_the_list() {
    let w = ui_playlist_col_widths_from_ratios(570, &default_ratios());
    assert_eq!(w.iter().sum::<i32>(), 570);
    assert_eq!(ui_playlist_col_widths_from_ratios(0, &default_ratios()), [0; 5]);
    assert_eq!(ui_playlist_info_col_width(570), 5);
    assert_eq!(ui_playlist_info_col_width(10), 1);
    assert_eq!(ui_playlist_info_col_width(-1), 0);
    assert_eq!(init_width(None), 570);
    assert_eq!(fit_last_column(100, 60, 50), Some(40));
    assert_eq!(fit_last_column(100, 120, 50), Some(1));
    assert_eq!(fit_last_column(100, 60, 40), None);
}

#[test]
fn points_and_columns() {
    assert!(point_kind(0) == PointKind::NoPart || point_kind(0) == PointKind::Other);
    assert_eq!(point_lparam(3, 4), 4 * 65536 + 3);
    assert_eq!(hit_column(-1, 2, 2), None);
    assert_eq!(command_name(&vec![("fn".to_string(), "x".to_string())]), "x");
    assert_eq!(command_name(&vec![("k".to_string(), "x".to_string())]), "");
}

#[test]
fn bytes_that_are_no_text_are_replaced() {
    assert_eq!(copied_text(b"abc\0"), "abc");
    let bad = copied_text(&[b'a', 0xff, b'b', 0]);
    assert!(bad.contains('\u{fffd}'));
    assert_eq!(text_of_handed(&[b'a'], "a"), "a");
    assert!(matches!(copy_command("nothing known"), CopyCommand::Unknown));
}

#[test]
fn playlists_in_memory() {
    let mut pool = PlaylistPool::new();
    assert!(pool.get_active_playlist(3).is_none());
    pool.replace(3, vec![]);
    assert!(pool.get_active_playlist(3).is_none());
    pool.replace(3, songs(&["a", "b"]));
    pool.replace(4, songs(&["c"]));
    assert_eq!(pool.get_active_playlist(3).unwrap().len(), 2);
    assert_eq!(pool.playlist_len(3), Some(2));
    assert_eq!(pool.playlist_len(0), Some(0));
    assert_eq!(pool.playlist_len(9), None);
    pool.forget(3);
    assert!(pool.get_active_playlist(3).is_none());
    assert_eq!(pool.playlist_len(4), Some(1));
}

#[test]
fn playlist_resumes_where_it_was_left() {
    let tabs = vec![tab(1, "a", 11), tab(5, "b", 22)];
    let list = songs(&["c:\\a", "c:\\b"]);
    let mut c = PlayerControls::new();
    let mut pending = PendingTracks::new();
    let saved = Some(("C:\\B".to_string(), 700));
    let r = ui_tab_id_to_pl(&tabs, 1, &mut c, &mut pending, &list, &saved, 2);
    assert!(r == TabOutcome::Started);
    assert_eq!((c.list_id, c.track, c.to_pos_ms, c.play_mode), (5, 1, 700, 2));
    assert_eq!(pending.try_resolve_pending_track_index(5, &list), Some(1));
    c.set_player_state(PlayerState::Playing);
    let r = ui_tab_id_to_pl(&tabs, 1, &mut c, &mut pending, &list, &None, 2);
    assert!(r == TabOutcome::Playing);
    c.set_player_state(PlayerState::Paused);
    let r = ui_tab_id_to_pl(&tabs, 1, &mut c, &mut pending, &list, &None, 2);
    assert!(r == TabOutcome::Resumed);
    let r = ui_tab_id_to_pl(&tabs, 0, &mut c, &mut pending, &vec![], &None, 2);
    assert!(r == TabOutcome::Refused);
    let r = ui_tab_id_to_pl(&tabs, 9, &mut c, &mut pending, &list, &None, 2);
    assert!(r == TabOutcome::Refused);
}
