use std::cmp::Ordering;
use velotype::lists::distinct_numbers;
use velotype::path::{
    char_utf8_width, cmp_ascii_case_insensitive, file_name, file_stem, fix_scan_root, is_less,
    join_dir_name, lower_extension, normalize_path_key, opposite, order_bytes, order_text,
    parent_name, split_path, starts_with_lowercase_prefix, ui_join_root_rel, utf8_len_exceeds,
};
use velotype::random::{Rng, RNG_DEFAULT_SEED};
use velotype::text::{
    decimal_string, join, parse_i32, replace_char, split, split_once, starts_with, to_lower, trim,
};
use velotype::text_sort::{sort_texts, TextOrder};
use velotype::utf16::{
    buffer_units, copy_to_wide_buf, decode_lossy, encode, to_wstring, utf16_len,
};
use velotype::workers::WorkerPool;

fn texts(list: &[&str]) -> Vec<String> {
    list.iter().map(|s| s.to_string()).collect()
}

#[test]
fn trimming_twice_changes_nothing() {
    let once = trim(" \t a b\u{3000}\n");
    assert_eq!(once, "a b");
    assert_eq!(trim(&once), once);
}

#[test]
fn decimals_round_trip() {
    for n in [0i32, 7, 10, 1234567, i32::MAX] {
        assert_eq!(parse_i32(&decimal_string(n as u128)), Some(n));
    }
    assert_eq!(parse_i32("-2147483648"), Some(i32::MIN));
    assert_eq!(parse_i32("+5"), Some(5));
    assert_eq!(parse_i32("2147483648"), None);
    assert_eq!(parse_i32(""), None);
    assert_eq!(parse_i32("-"), None);
    assert_eq!(parse_i32("1x"), None);
}

#[test]
fn pieces_of_a_text() {
    assert_eq!(split("a,b,,c", ','), vec!["a", "b", "", "c"]);
    assert_eq!(split("", ','), vec![""]);
    assert_eq!(join(&split("a,b,,c", ','), ','), "a,b,,c");
    assert_eq!(split_once("k=v=w", "="), Some(("k".to_string(), "v=w".to_string())));
    assert_eq!(split_once("kv", "="), None);
    assert!(starts_with("http://x", "http://"));
    assert_eq!(to_lower("AbÇ"), "abÇ");
    assert_eq!(replace_char("a/b/c", '/', '\\'), "a\\b\\c");
}

#[test]
fn first_occurrences_stay() {
    assert_eq!(distinct_numbers(&vec![3, 1, 3, 2, 1]), vec![3, 1, 2]);
}

#[test]
fn path_keys() {
    let key = normalize_path_key("C:/Music/A.MP3");
    assert_eq!(key, "c:\\music\\a.mp3");
    assert_eq!(normalize_path_key(&key), key);
    assert_eq!(normalize_path_key("c:\\MUSIC\\a.mp3"), key);
}

#[test]
fn orders() {
    assert_eq!(order_bytes(b"ab", b"b"), Ordering::Less);
    assert_eq!(order_bytes(b"ab", b"a"), Ordering::Greater);
    assert_eq!(cmp_ascii_case_insensitive("ABC", "abd"), Ordering::Less);
    assert_eq!(cmp_ascii_case_insensitive("ABC", "abc"), Ordering::Equal);
    assert_eq!(order_text("B", "a"), Ordering::Less);
    assert_eq!(opposite(Ordering::Less), Ordering::Greater);
    assert!(is_less(Ordering::Less) && !is_less(Ordering::Equal));
}

#[test]
fn path_parts() {
    assert_eq!(split_path("C:\\a\\b.mp3"), ("C:\\a".to_string(), "b.mp3".to_string()));
    assert_eq!(split_path("b.mp3"), ("".to_string(), "b.mp3".to_string()));
    assert_eq!(file_name("C:\\a\\b.mp3"), Some("b.mp3".to_string()));
    assert_eq!(file_stem("C:\\a\\b.c.mp3"), Some("b.c".to_string()));
    assert_eq!(lower_extension("C:\\a\\b.MP3"), "mp3");
    assert_eq!(lower_extension("C:\\a\\b"), "");
    assert_eq!(parent_name("C:\\a\\b.mp3"), Some("a".to_string()));
    assert_eq!(join_dir_name("C:\\a", "b.mp3"), "C:\\a\\b.mp3");
}

#[test]
fn roots() {
    assert_eq!(fix_scan_root(" D:/music// "), "D:\\music");
    assert_eq!(fix_scan_root("D:\\"), "D:\\");
    assert_eq!(fix_scan_root(" "), "");
    assert_eq!(ui_join_root_rel("D:\\music", "a\\b.mp3"), "D:\\music\\a\\b.mp3");
    assert!(starts_with_lowercase_prefix("D:\\Music\\x", "d:\\music\\"));
    assert!(!starts_with_lowercase_prefix("D:\\M", "d:\\music\\"));
}

#[test]
fn bytes_of_a_text() {
    assert_eq!(char_utf8_width('a'), 1);
    assert_eq!(char_utf8_width('é'), 2);
    assert_eq!(char_utf8_width('中'), 3);
    assert_eq!(char_utf8_width('\u{1f3b5}'), 4);
    let two: Vec<char> = "中a".chars().collect();
    assert!(utf8_len_exceeds(&two, 3));
    assert!(!utf8_len_exceeds(&two, 4));
}

#[test]
fn units_of_a_text() {
    let s = "a中\u{1f3b5}";
    let u = encode(s);
    assert_eq!(u, s.encode_utf16().collect::<Vec<u16>>());
    assert_eq!(decode_lossy(&u), s);
    let w = to_wstring(s);
    assert_eq!(w.last(), Some(&0));
    assert_eq!(utf16_len(&w), 4);
    assert_eq!(decode_lossy(&[0xdc00, 0x61]), "\u{fffd}a");
}

#[test]
fn units_are_cut_to_a_buffer() {
    assert_eq!(buffer_units("abcd", 3), vec![97, 98, 0]);
    let mut dst = vec![9u16; 5];
    copy_to_wide_buf(&mut dst, "ab");
    assert_eq!(&dst[..3], &[97, 98, 0]);
    assert_eq!(dst.len(), 5);
}

#[test]
fn texts_are_sorted() {
    assert_eq!(
        sort_texts(TextOrder::Bytes, texts(&["b", "a", "B"])),
        vec!["B", "a", "b"]
    );
    assert_eq!(
        sort_texts(TextOrder::Folded, texts(&["b", "C", "A"])),
        vec!["A", "b", "C"]
    );
}

#[test]
fn seed_is_never_zero() {
    let mut rng = Rng::new();
    assert_eq!(rng.state, RNG_DEFAULT_SEED);
    for entropy in [0u64, 1, u64::MAX] {
        rng.next_rand_u64(entropy);
        assert_ne!(rng.state, 0);
    }
}

#[test]
fn drawn_numbers_are_below_the_limit() {
    let mut rng = Rng::new();
    for i in 0..200u64 {
        assert!(rng.random_below(i, 7) < 7);
        let other = rng.random_index_excluding(i, 3, 5);
        assert!(other < 5 && other != 3);
    }
    assert_eq!(rng.random_below(1, 0), 0);
    assert_eq!(rng.random_index_excluding(1, 0, 1), 0);
}

#[test]
fn longest_waiting_worker_is_woken() {
    let mut pool = WorkerPool::new();
    assert_eq!(pool.submit(), None);
    pool.rests(5);
    pool.rests(6);
    assert_eq!(pool.submit(), Some(5));
    assert_eq!(pool.submit(), Some(6));
    assert_eq!(pool.submit(), None);
}

#[test]
fn prefix_is_no_component() {
    assert_eq!(file_name("\\\\server\\share\\a.mp3"), Some("a.mp3".to_string()));
    assert_eq!(parent_name("\\\\server\\share\\a.mp3"), None);
    assert_eq!(parent_name("//server/share/b/a.mp3"), Some("b".to_string()));
    assert_eq!(file_name("\\\\server\\share"), None);
    assert_eq!(file_name("\\\\server"), Some("server".to_string()));
    assert_eq!(file_name("\\\\?\\C:\\a.mp3"), Some("a.mp3".to_string()));
    assert_eq!(parent_name("\\\\?\\C:\\a.mp3"), None);
    assert_eq!(file_name("\\\\?\\C:\\a/b.mp3"), Some("a/b.mp3".to_string()));
    assert_eq!(parent_name("\\\\?\\UNC\\server\\share\\a.mp3"), None);
    assert_eq!(parent_name("\\\\?\\UNC\\server\\share\\b\\a.mp3"), Some("b".to_string()));
    assert_eq!(file_name("\\\\?\\pictures"), None);
    assert_eq!(file_name("\\\\?\\C:\\a\\."), None);
    assert_eq!(parent_name("\\\\.\\COM42\\a.mp3"), None);
    assert_eq!(parent_name("C:a.mp3"), None);
}
