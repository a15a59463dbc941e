//! What the player answers on its pipe, and what it does with texts that other
//! programs hand to its window.

use crate::media_info::pair_views;
use crate::playlist_request::strip_end_of;
use crate::playlist_view::column_name;
use crate::song::{text_views, SongInfo};
use crate::tabs::PlaylistView;
use crate::text::{
    decimal, decimal_string, digits_value, join, joined_by, law_decimal_round_trips,
    law_text_is_parted_at_the_first_place, law_tight_text_is_not_trimmed, law_white_space,
    occurs_at, replace_char, replaced, same_text, slice_text, split_once, split_once_at, to_chars,
    trim, trimmed,
};
use crate::utf16::{decode_lossy, decoded};
use crate::pcm::{le_value, pow256, read_le};
use vstd::prelude::*;
use vstd::utf8::{decode_utf8, valid_utf8};

verus! {

/// The pairs of an answer.
pub type Answer = Vec<(String, String)>;

fn push_pair(answer: &mut Answer, key: &str, value: String)
    ensures
        pair_views(final(answer)@) == pair_views(old(answer)@).push((key@, value@)),
{
    let ghost before = answer@;
    answer.push((key.to_owned(), value));
    assert(pair_views(answer@) =~= pair_views(before).push((key@, value@)));
}

/// A number as text, with its sign.
pub open spec fn signed_decimal(n: int) -> Seq<char> {
    if n < 0 {
        seq!['-'] + decimal((-n) as nat)
    } else {
        decimal(n as nat)
    }
}

/// A number as text, with its sign.
pub fn signed_text(n: i64) -> (r: String)
    ensures
        r@ == signed_decimal(n as int),
{
    if n < 0 {
        let mut r = String::new();
        r.push('-');
        let digits = decimal_string((-(n as i128)) as u128);
        r.append(digits.as_str());
        assert(r@ =~= signed_decimal(n as int));
        r
    } else {
        decimal_string(n as u128)
    }
}

/// What is told of the tab under the pointer, if there is one.
pub open spec fn tab_pairs(tabs: Seq<PlaylistView>, tab: Option<usize>) -> Seq<(Seq<char>, Seq<char>)> {
    match tab {
        Some(i) => if i < tabs.len() {
            seq![
                ("ms_ui_tab_name"@, tabs[i as int].name@),
                ("ms_ui_tab_pl_id"@, decimal(tabs[i as int].playlist_id as nat)),
                ("ms_ui_tab_id"@, decimal(i as nat)),
            ]
        } else {
            seq![]
        },
        None => seq![],
    }
}

/// Tells of the tab under the pointer.
pub fn pipe_get_tab(answer: &mut Answer, tabs: &Vec<PlaylistView>, tab: Option<usize>)
    ensures
        pair_views(final(answer)@) == pair_views(old(answer)@) + tab_pairs(tabs@, tab),
{
    let ghost before = pair_views(answer@);
    if let Some(i) = tab {
        if i < tabs.len() {
            push_pair(answer, "ms_ui_tab_name", tabs[i].name.clone());
            push_pair(
                answer,
                "ms_ui_tab_pl_id",
                decimal_string(tabs[i].playlist_id as u128),
            );
            push_pair(answer, "ms_ui_tab_id", decimal_string(i as u128));
        }
    }
    assert(pair_views(answer@) =~= before + tab_pairs(tabs@, tab));
}

/// What is told of the head of a list: its playlist, and the column under the
/// pointer, if there is one.
pub open spec fn header_pairs(view: Option<PlaylistView>, column: Option<i32>) -> Seq<
    (Seq<char>, Seq<char>),
> {
    match view {
        Some(v) => {
            let list = seq![("ms_ui_list_pl_id"@, decimal(v.playlist_id as nat))];
            match column {
                Some(col) => list + seq![
                    ("ms_ui_list_col_id"@, signed_decimal(col as int)),
                    ("ms_ui_list_col_name"@, column_title(col)),
                    ("ms_ui_head"@, "1"@),
                ],
                None => list,
            }
        },
        None => seq![],
    }
}

/// The name of a column.
pub open spec fn column_title(col: i32) -> Seq<char> {
    if col == 0 {
        "#"@
    } else if col == 1 {
        "歌曲名"@
    } else if col == 2 {
        "时长"@
    } else if col == 3 {
        "作者"@
    } else if col == 4 {
        "专辑"@
    } else if col == 5 {
        "*"@
    } else {
        ""@
    }
}

pub const HHT_ONHEADER: u32 = 0x0002;

/// The marks of a place on a divider between two columns.
pub const HHT_ON_ANY_DIVIDER: u32 = 0x000c;

/// The column that a place on a head of a list belongs to: not a divider.
pub fn hit_column(hit: i64, col: i32, flags: u32) -> (r: Option<i32>)
    ensures
        r == (if hit >= 0 && col >= 0 && (flags & HHT_ONHEADER) != 0 && (flags & HHT_ON_ANY_DIVIDER)
            == 0 {
            Some(col)
        } else {
            None
        }),
{
    if hit >= 0 && col >= 0 && (flags & HHT_ONHEADER) != 0 && (flags & HHT_ON_ANY_DIVIDER) == 0 {
        Some(col)
    } else {
        None
    }
}

/// The first tab whose head is the window `hheader`.
pub open spec fn view_by_header(tabs: Seq<PlaylistView>, hheader: i64) -> Option<PlaylistView> {
    match crate::tabs::first_place(tabs.map_values(|t: PlaylistView| t.hheader), hheader) {
        Some(i) => Some(tabs[i]),
        None => None,
    }
}

fn find_by_header(tabs: &Vec<PlaylistView>, hheader: i64) -> (r: Option<usize>)
    ensures
        match r {
            Some(i) => i < tabs@.len() && view_by_header(tabs@, hheader) == Some(tabs@[i as int]),
            None => view_by_header(tabs@, hheader) is None,
        },
{
    let ghost heads = tabs@.map_values(|t: PlaylistView| t.hheader);
    let mut i: usize = 0;
    while i < tabs.len()
        invariant
            i <= tabs@.len(),
            heads == tabs@.map_values(|t: PlaylistView| t.hheader),
            forall|k: int| 0 <= k < i ==> #[trigger] heads[k] != hheader,
        decreases tabs@.len() - i,
    {
        assert(heads[i as int] == tabs@[i as int].hheader);
        if tabs[i].hheader == hheader {
            proof {
                crate::tabs::lemma_first_place(heads, hheader, i as int);
            }
            return Some(i);
        }
        i += 1;
    }
    proof {
        crate::tabs::lemma_no_place(heads, hheader);
    }
    None
}

/// Tells of the head of a list.
pub fn pipe_get_header(
    answer: &mut Answer,
    tabs: &Vec<PlaylistView>,
    hheader: i64,
    column: Option<i32>,
)
    ensures
        pair_views(final(answer)@) == pair_views(old(answer)@) + header_pairs(
            view_by_header(tabs@, hheader),
            column,
        ),
{
    let ghost before = pair_views(answer@);
    match find_by_header(tabs, hheader) {
        Some(i) => {
            push_pair(
                answer,
                "ms_ui_list_pl_id",
                decimal_string(tabs[i].playlist_id as u128),
            );
            if let Some(col) = column {
                push_pair(answer, "ms_ui_list_col_id", signed_text(col as i64));
                push_pair(answer, "ms_ui_list_col_name", column_name(col).to_owned());
                push_pair(answer, "ms_ui_head", "1".to_owned());
            }
        },
        None => {},
    }
    assert(pair_views(answer@) =~= before + header_pairs(view_by_header(tabs@, hheader), column));
}

/// What is told of a list: its playlist, and the song under the pointer, if there
/// is one.
pub open spec fn list_pairs(
    pl_id: Option<usize>,
    songs: Option<Seq<SongInfo>>,
    item: i64,
) -> Seq<(Seq<char>, Seq<char>)> {
    match pl_id {
        Some(id) => {
            let list = seq![("ms_ui_list_pl_id"@, decimal(id as nat))];
            if item < 0 {
                list
            } else {
                list + seq![
                    ("ms_ui_list_item_idx"@, decimal(item as nat)),
                    (
                        "ms_ui_list_path"@,
                        match songs {
                            Some(s) => if item < s.len() {
                                s[item as int].path@
                            } else {
                                Seq::empty()
                            },
                            None => Seq::empty(),
                        },
                    ),
                    ("ms_ui_list"@, "1"@),
                ]
            }
        },
        None => seq![],
    }
}

/// Tells of a list. `pl_id` is the playlist that it shows, `item` the place of the
/// song under the pointer.
pub fn pipe_get_list(
    answer: &mut Answer,
    pl_id: Option<usize>,
    songs: Option<&Vec<SongInfo>>,
    item: i64,
)
    ensures
        pair_views(final(answer)@) == pair_views(old(answer)@) + list_pairs(
            pl_id,
            match songs {
                Some(s) => Some(s@),
                None => None,
            },
            item,
        ),
{
    let ghost before = pair_views(answer@);
    if let Some(id) = pl_id {
        push_pair(answer, "ms_ui_list_pl_id", decimal_string(id as u128));
        if item >= 0 {
            let path: String = match songs {
                Some(s) => if (item as u64) < s.len() as u64 {
                    s[item as usize].path.clone()
                } else {
                    String::new()
                },
                None => String::new(),
            };
            push_pair(answer, "ms_ui_list_item_idx", decimal_string(item as u128));
            push_pair(answer, "ms_ui_list_path", path);
            push_pair(answer, "ms_ui_list", "1".to_owned());
        }
    }
    assert(pair_views(answer@) =~= before + list_pairs(
        pl_id,
        match songs {
            Some(s) => Some(s@),
            None => None,
        },
        item,
    ));
}

/// What is told of an item of the tree: its name, whether it has others below it,
/// the way to it, and its number.
pub open spec fn tree_pairs(parts: Seq<Seq<char>>, has_children: bool, item: i64) -> Seq<
    (Seq<char>, Seq<char>),
> {
    if parts.len() == 0 {
        seq![]
    } else {
        seq![
            ("ms_ui_tree_name"@, parts.last()),
            ("ms_ui_tree_type"@, if has_children {
                "parent"@
            } else {
                "normal"@
            }),
            ("ms_ui_tree_path"@, joined_by(parts, '\\')),
            ("ms_ui_tree_id"@, signed_decimal(item as int)),
        ]
    }
}

/// Tells of the item of the tree at the end of the way `parts`.
pub fn pipe_get_tree(answer: &mut Answer, parts: &Vec<String>, has_children: bool, item: i64)
    ensures
        pair_views(final(answer)@) == pair_views(old(answer)@) + tree_pairs(
            text_views(parts@),
            has_children,
            item,
        ),
{
    let ghost before = pair_views(answer@);
    let n: usize = parts.len();
    if n > 0 {
        assert(text_views(parts@).last() == parts@[n - 1]@);
        push_pair(answer, "ms_ui_tree_name", parts[n - 1].clone());
        push_pair(
            answer,
            "ms_ui_tree_type",
            if has_children {
                "parent".to_owned()
            } else {
                "normal".to_owned()
            },
        );
        push_pair(answer, "ms_ui_tree_path", join(parts, '\\'));
        push_pair(answer, "ms_ui_tree_id", signed_text(item));
    }
    assert(pair_views(answer@) =~= before + tree_pairs(text_views(parts@), has_children, item));
}

/// What a program asks about: a place on the screen, and what is there.
#[derive(Clone, Copy, PartialEq, Eq, Structural)]
pub enum PointKind {
    /// No part of the window: perhaps its title.
    NoPart,
    List,
    Tree,
    Tabs,
    Header,
    Other,
}

/// What a number stands for.
pub fn point_kind(flag: u16) -> (r: PointKind)
    ensures
        r == (if flag == 0 {
            PointKind::NoPart
        } else if flag == 1 {
            PointKind::List
        } else if flag == 2 {
            PointKind::Tree
        } else if flag == 3 {
            PointKind::Tabs
        } else if flag == 4 {
            PointKind::Header
        } else {
            PointKind::Other
        }),
{
    match flag {
        0 => PointKind::NoPart,
        1 => PointKind::List,
        2 => PointKind::Tree,
        3 => PointKind::Tabs,
        4 => PointKind::Header,
        _ => PointKind::Other,
    }
}

/// The place of a pointer as the system wants it in a message.
pub fn point_lparam(x: i32, y: i32) -> (r: i32)
    ensures
        r == ((y & 0xffff) << 16) | (x & 0xffff),
{
    ((y & 0xffff) << 16) | (x & 0xffff)
}

/// The answer of the system for a place on the title of a window.
pub const HTCAPTION: i64 = 2;

/// Starts an answer with the active playlist.
pub fn answer_start(pl_id: usize) -> (r: Answer)
    ensures
        pair_views(r@) == seq![("ms_ui_pl_id"@, decimal(pl_id as nat))],
{
    let mut r: Answer = Vec::new();
    push_pair(&mut r, "ms_ui_pl_id", decimal_string(pl_id as u128));
    assert(pair_views(r@) =~= seq![("ms_ui_pl_id"@, decimal(pl_id as nat))]);
    r
}

/// What closes the answer for a kind of place. `hit` is what the system says of a
/// place outside all parts.
pub fn answer_end(answer: &mut Answer, kind: PointKind, hit: i64)
    ensures
        pair_views(final(answer)@) == pair_views(old(answer)@) + (match kind {
            PointKind::NoPart => if hit == HTCAPTION {
                seq![("ms_ui_caption"@, "1"@)]
            } else {
                seq![]
            },
            PointKind::Tree => seq![("ms_ui_tree"@, "1"@)],
            PointKind::Tabs => seq![("ms_ui_tab"@, "1"@)],
            _ => seq![],
        }),
{
    let ghost before = pair_views(answer@);
    match kind {
        PointKind::NoPart => {
            if hit == HTCAPTION {
                push_pair(answer, "ms_ui_caption", "1".to_owned());
                assert(pair_views(answer@) =~= before + seq![("ms_ui_caption"@, "1"@)]);
            } else {
                assert(pair_views(answer@) =~= before + Seq::<(Seq<char>, Seq<char>)>::empty());
            }
        },
        PointKind::Tree => {
            push_pair(answer, "ms_ui_tree", "1".to_owned());
            assert(pair_views(answer@) =~= before + seq![("ms_ui_tree"@, "1"@)]);
        },
        PointKind::Tabs => {
            push_pair(answer, "ms_ui_tab", "1".to_owned());
            assert(pair_views(answer@) =~= before + seq![("ms_ui_tab"@, "1"@)]);
        },
        _ => {
            assert(pair_views(answer@) =~= before + Seq::<(Seq<char>, Seq<char>)>::empty());
        },
    }
}

/// The first value of a key in some pairs.
pub open spec fn value_of(pairs: Seq<(Seq<char>, Seq<char>)>, key: Seq<char>) -> Option<Seq<char>>
    decreases pairs.len(),
{
    if pairs.len() == 0 {
        None
    } else {
        match value_of(pairs.drop_last(), key) {
            Some(v) => Some(v),
            None => if pairs.last().0 == key {
                Some(pairs.last().1)
            } else {
                None
            },
        }
    }
}

/// The name of the command that some pairs hold; empty where there is none.
pub fn command_name(pairs: &Vec<(String, String)>) -> (r: String)
    ensures
        r@ == (match value_of(pair_views(pairs@), "fn"@) {
            Some(v) => v,
            None => Seq::empty(),
        }),
{
    let ghost views = pair_views(pairs@);
    let mut i: usize = 0;
    while i < pairs.len()
        invariant
            i <= pairs@.len(),
            views == pair_views(pairs@),
            value_of(views.take(i as int), "fn"@) is None,
        decreases pairs@.len() - i,
    {
        proof {
            assert(views.take(i + 1).drop_last() =~= views.take(i as int));
            assert(views.take(i + 1).last() == (pairs@[i as int].0@, pairs@[i as int].1@));
        }
        if same_text(pairs[i].0.as_str(), "fn") {
            proof {
                lemma_value_extends(views, "fn"@, i + 1);
            }
            return pairs[i].1.clone();
        }
        i += 1;
    }
    assert(views.take(pairs@.len() as int) =~= views);
    String::new()
}

proof fn lemma_value_extends(pairs: Seq<(Seq<char>, Seq<char>)>, key: Seq<char>, n: int)
    requires
        0 <= n <= pairs.len(),
        value_of(pairs.take(n), key) is Some,
    ensures
        value_of(pairs, key) == value_of(pairs.take(n), key),
    decreases pairs.len() - n,
{
    if n < pairs.len() {
        assert(pairs.take(n + 1).drop_last() =~= pairs.take(n));
        lemma_value_extends(pairs, key, n + 1);
    } else {
        assert(pairs.take(n) =~= pairs);
    }
}

/// The text that some bytes stand for, with replacement characters for what is no
/// UTF-8.
pub uninterp spec fn lossy_utf8(bytes: Seq<u8>) -> Seq<char>;

/// `String::from_utf8_lossy` gives the text of some bytes, with replacement
/// characters for what is no UTF-8; bytes that are UTF-8 give the text that they stand
/// for. It is the same text for the same bytes. How the replacement characters are
/// placed is not said here.
#[verifier::external_body]
pub(crate) fn from_utf8_lossy(bytes: &[u8]) -> (r: String)
    ensures
        r@ == lossy_utf8(bytes@),
        valid_utf8(bytes@) ==> r@ == decode_utf8(bytes@),
{
    String::from_utf8_lossy(bytes).into_owned()
}

/// The UTF-16 units that some bytes hold, the lower byte of each first.
pub open spec fn units_in(bytes: Seq<u8>) -> Seq<u16> {
    Seq::new((bytes.len() / 2) as nat, |i: int| (bytes[2 * i] + 0x100 * bytes[2 * i + 1]) as u16)
}

/// Units without the zeros at their end.
pub open spec fn without_end_zeros(u: Seq<u16>) -> Seq<u16>
    decreases u.len(),
{
    if u.len() > 0 && u.last() == 0 {
        without_end_zeros(u.drop_last())
    } else {
        u
    }
}

/// The text that was handed over as some bytes, of which `lossy` is the text as
/// UTF-8. Null characters inside it show that it is UTF-16.
pub open spec fn handed_text(bytes: Seq<u8>, lossy: Seq<char>) -> Seq<char> {
    let plain = strip_end_of(lossy, '\0');
    trimmed(
        if bytes.len() >= 4 && bytes.len() % 2 == 0 && plain.contains('\0') {
            decoded(without_end_zeros(units_in(bytes)))
        } else {
            plain
        },
    )
}

fn strip_end_nuls(s: &str) -> (r: String)
    ensures
        r@ == strip_end_of(s@, '\0'),
{
    let chars = to_chars(s);
    let n: usize = chars.len();
    let mut to: usize = n;
    assert(s@.take(n as int) =~= s@);
    while to > 0 && chars[to - 1] == '\0'
        invariant
            chars@ == s@,
            n == s@.len(),
            to <= n,
            strip_end_of(s@, '\0') == strip_end_of(s@.take(to as int), '\0'),
        decreases to,
    {
        assert(s@.take(to as int).drop_last() =~= s@.take(to - 1));
        to -= 1;
    }
    let r = slice_text(&chars, 0, to);
    assert(r@ =~= s@.take(to as int));
    r
}

fn holds_nul(s: &str) -> (r: bool)
    ensures
        r == s@.contains('\0'),
{
    let chars = to_chars(s);
    match crate::text::find(&chars, '\0', 0) {
        Some(i) => {
            proof {
                crate::text::lemma_find_from(s@, '\0', 0);
            }
            assert(s@[i as int] == '\0');
            true
        },
        None => {
            proof {
                crate::text::lemma_find_from(s@, '\0', 0);
            }
            false
        },
    }
}

fn units_of_bytes(bytes: &[u8]) -> (r: Vec<u16>)
    ensures
        r@ == without_end_zeros(units_in(bytes@)),
{
    let len: usize = bytes.len();
    let n: usize = len / 2;
    let mut r: Vec<u16> = Vec::new();
    let ghost all = units_in(bytes@);
    let mut i: usize = 0;
    while i < n
        invariant
            len == bytes@.len(),
            n == len / 2,
            all == units_in(bytes@),
            i <= n,
            r@ == all.take(i as int),
        decreases n - i,
    {
        let u: u16 = bytes[2 * i] as u16 + 0x100 * bytes[2 * i + 1] as u16;
        r.push(u);
        i += 1;
        assert(r@ =~= all.take(i as int));
    }
    assert(all.take(n as int) =~= all);
    while r.len() > 0 && r[r.len() - 1] == 0
        invariant
            without_end_zeros(r@) == without_end_zeros(all),
        decreases r@.len(),
    {
        let ghost before = r@;
        r.pop();
        assert(r@ =~= before.drop_last());
    }
    r
}

/// The text that was handed over as some bytes, of which `lossy` is the text as
/// UTF-8.
pub fn text_of_handed(bytes: &[u8], lossy: &str) -> (r: String)
    ensures
        r@ == handed_text(bytes@, lossy@),
{
    let plain = strip_end_nuls(lossy);
    let n: usize = bytes.len();
    let text: String = if n >= 4 && n % 2 == 0 && holds_nul(plain.as_str()) {
        let u = units_of_bytes(bytes);
        decode_lossy(u.as_slice())
    } else {
        plain
    };
    trim(text.as_str())
}

/// The text that was handed over as some bytes.
pub fn copied_text(bytes: &[u8]) -> (r: String)
    ensures
        r@ == handed_text(bytes@, lossy_utf8(bytes@)),
{
    let lossy = from_utf8_lossy(bytes);
    text_of_handed(bytes, lossy.as_str())
}

/// What a text that was handed over asks for.
pub enum CopyCommand {
    /// The song at a path leaves all playlists.
    DeletePath(String),
    /// A path is missing.
    NoPath,
    /// Nothing that the player knows.
    Unknown,
}

/// The path that a text asks to delete, if it does; it may be empty.
pub open spec fn path_to_delete(text: Seq<char>) -> Option<Seq<char>> {
    match split_once_at(text, "|"@) {
        Some((command, rest)) => if trimmed(command) == "path_del"@ {
            Some(replaced(trimmed(rest), '/', '\\'))
        } else {
            None
        },
        None => None,
    }
}

/// What a text that was handed over asks for.
pub fn copy_command(text: &str) -> (r: CopyCommand)
    ensures
        match r {
            CopyCommand::DeletePath(path) => path_to_delete(text@) == Some(path@) && path@.len() > 0,
            CopyCommand::NoPath => path_to_delete(text@) is Some && path_to_delete(text@)->0.len()
                == 0,
            CopyCommand::Unknown => path_to_delete(text@) is None,
        },
{
    match split_once(text, "|") {
        Some((command, rest)) => {
            let command = trim(command.as_str());
            if !same_text(command.as_str(), "path_del") {
                return CopyCommand::Unknown;
            }
            let inner = trim(rest.as_str());
            let path = replace_char(inner.as_str(), '/', '\\');
            if path.as_str().is_empty() {
                CopyCommand::NoPath
            } else {
                CopyCommand::DeletePath(path)
            }
        },
        None => CopyCommand::Unknown,
    }
}

/// A question for what stands under a point.
#[derive(Clone, Copy, PartialEq, Eq, Structural, Debug)]
pub struct PointQuery {
    pub x: i32,
    pub y: i32,
    /// The kind of part that stands there.
    pub flag: u16,
    pub hwnd: i64,
}

/// What the start of a call on the pipe is.
#[derive(Clone, Copy, PartialEq, Eq, Structural, Debug)]
pub enum PipeCall {
    Query(PointQuery),
    /// A command of this many bytes follows.
    Command(u32),
    Nothing,
}

/// The signed number that the lowest 32 bits of a number stand for.
pub open spec fn low_i32(n: int) -> int {
    if n >= 0x8000_0000 {
        n - 0x1_0000_0000
    } else {
        n
    }
}

/// The signed number that the lowest 64 bits of a number stand for.
pub open spec fn as_i64(n: int) -> int {
    if n >= 0x8000_0000_0000_0000 {
        n - 0x1_0000_0000_0000_0000
    } else {
        n
    }
}

/// Whether a query is what 24 bytes hold: the point, the kind, and the window behind
/// the gap that aligns it.
pub open spec fn holds_query(bytes: Seq<u8>, q: PointQuery) -> bool {
    &&& q.x == low_i32(le_value(bytes, 0, 4))
    &&& q.y == low_i32(le_value(bytes, 4, 4))
    &&& q.flag == le_value(bytes, 8, 2)
    &&& q.hwnd == as_i64(le_value(bytes, 16, 8))
}

fn read_i32(bytes: &[u8], at: usize) -> (r: i32)
    requires
        at + 4 <= bytes@.len(),
    ensures
        r == low_i32(le_value(bytes@, at as int, 4)),
{
    let v: u64 = read_le(bytes, at, 4);
    proof {
        reveal_with_fuel(pow256, 5);
    }
    if v >= 0x8000_0000 {
        (v as i64 - 0x1_0000_0000) as i32
    } else {
        v as i32
    }
}

/// What the start of a call on the pipe is, by its length.
pub fn pipe_music_call(bytes: &[u8]) -> (r: PipeCall)
    ensures
        bytes@.len() == 24 ==> (r matches PipeCall::Query(q) && holds_query(bytes@, q)),
        bytes@.len() == 4 ==> r == (if le_value(bytes@, 0, 4) > 0 {
            PipeCall::Command(le_value(bytes@, 0, 4) as u32)
        } else {
            PipeCall::Nothing
        }),
        bytes@.len() != 24 && bytes@.len() != 4 ==> r == PipeCall::Nothing,
{
    let n: usize = bytes.len();
    if n == 24 {
        let flag: u64 = read_le(bytes, 8, 2);
        let hwnd: u64 = read_le(bytes, 16, 8);
        proof {
            reveal_with_fuel(pow256, 9);
        }
        let window: i64 = if hwnd >= 0x8000_0000_0000_0000 {
            (hwnd as i128 - 0x1_0000_0000_0000_0000) as i64
        } else {
            hwnd as i64
        };
        return PipeCall::Query(
            PointQuery {
                x: read_i32(bytes, 0),
                y: read_i32(bytes, 4),
                flag: flag as u16,
                hwnd: window,
            },
        );
    }
    if n == 4 {
        let size: u64 = read_le(bytes, 0, 4);
        proof {
            reveal_with_fuel(pow256, 5);
        }
        if size > 0 {
            return PipeCall::Command(size as u32);
        }
    }
    PipeCall::Nothing
}

/// A point relative to a window.
pub fn point_in_window(x: i32, y: i32, left: i32, top: i32) -> (r: (i32, i32))
    requires
        i32::MIN <= x - left <= i32::MAX,
        i32::MIN <= y - top <= i32::MAX,
    ensures
        r == ((x - left) as i32, (y - top) as i32),
{
    (x - left, y - top)
}

/// A number is told in digits, with a sign where it is below zero.
pub proof fn law_number_is_told_with_its_sign(n: int)
    ensures
        n >= 0 ==> digits_value(signed_decimal(n)) == n,
        n < 0 ==> signed_decimal(n)[0] == '-' && digits_value(signed_decimal(n).drop_first()) == -n,
{
    if n >= 0 {
        law_decimal_round_trips(n as nat);
    } else {
        law_decimal_round_trips((-n) as nat);
        assert(signed_decimal(n).drop_first() =~= decimal((-n) as nat));
    }
}

/// What is told of a tab: its name, its playlist and its place; nothing where there is none.
pub proof fn law_tab_is_told(tabs: Seq<PlaylistView>, i: usize)
    ensures
        i < tabs.len() ==> {
            let told = tab_pairs(tabs, Some(i));
            &&& told.len() == 3
            &&& value_of(told, "ms_ui_tab_name"@) == Some(tabs[i as int].name@)
            &&& told[1] == ("ms_ui_tab_pl_id"@, decimal(tabs[i as int].playlist_id as nat))
            &&& told[2] == ("ms_ui_tab_id"@, decimal(i as nat))
        },
        i >= tabs.len() ==> tab_pairs(tabs, Some(i)).len() == 0,
        tab_pairs(tabs, None).len() == 0,
{
    if i < tabs.len() {
        let told = tab_pairs(tabs, Some(i));
        law_first_value_counts(told, 0);
    }
}

/// What is told of a song in a list: the list, the place and the path of the song.
pub proof fn law_song_of_a_list_is_told(id: usize, songs: Seq<SongInfo>, item: i64)
    requires
        0 <= item < songs.len(),
    ensures
        ({
            let told = list_pairs(Some(id), Some(songs), item);
            &&& told[0] == ("ms_ui_list_pl_id"@, decimal(id as nat))
            &&& told[1] == ("ms_ui_list_item_idx"@, decimal(item as nat))
            &&& told[2] == ("ms_ui_list_path"@, songs[item as int].path@)
            &&& told[3] == ("ms_ui_list"@, "1"@)
        }),
        list_pairs(Some(id), Some(songs), -1i64).len() == 1,
        list_pairs(None, Some(songs), item).len() == 0,
{
}

/// What is told of an item of the tree: its name is the last one on the way to it, and its
/// path is the way.
pub proof fn law_item_of_the_tree_is_told(parts: Seq<Seq<char>>, has_children: bool, item: i64)
    requires
        parts.len() > 0,
    ensures
        ({
            let told = tree_pairs(parts, has_children, item);
            &&& told[0] == ("ms_ui_tree_name"@, parts[parts.len() - 1])
            &&& told[1].1 == (if has_children {
                "parent"@
            } else {
                "normal"@
            })
            &&& told[2] == ("ms_ui_tree_path"@, joined_by(parts, '\\'))
            &&& told[3] == ("ms_ui_tree_id"@, signed_decimal(item as int))
        }),
        tree_pairs(Seq::empty(), has_children, item).len() == 0,
{
}

/// The first value that is given for a name counts.
pub proof fn law_first_value_counts(pairs: Seq<(Seq<char>, Seq<char>)>, k: int)
    requires
        0 <= k < pairs.len(),
        forall|j: int| 0 <= j < k ==> (#[trigger] pairs[j]).0 != pairs[k].0,
    ensures
        value_of(pairs, pairs[k].0) == Some(pairs[k].1),
    decreases pairs.len(),
{
    let front = pairs.drop_last();
    if k < front.len() {
        assert forall|j: int| 0 <= j < k implies (#[trigger] front[j]).0 != front[k].0 by {
            assert(front[j] == pairs[j]);
        }
        law_first_value_counts(front, k);
    } else {
        assert forall|j: int| 0 <= j < front.len() implies (#[trigger] front[j]).0
            != pairs[k].0 by {
            assert(front[j] == pairs[j]);
        }
        lemma_no_value(front, pairs[k].0);
    }
}

proof fn lemma_no_value(pairs: Seq<(Seq<char>, Seq<char>)>, key: Seq<char>)
    requires
        forall|j: int| 0 <= j < pairs.len() ==> (#[trigger] pairs[j]).0 != key,
    ensures
        value_of(pairs, key) is None,
    decreases pairs.len(),
{
    if pairs.len() > 0 {
        let front = pairs.drop_last();
        assert forall|j: int| 0 <= j < front.len() implies (#[trigger] front[j]).0 != key by {
            assert(front[j] == pairs[j]);
        }
        lemma_no_value(front, key);
        assert(pairs[pairs.len() - 1].0 != key);
    }
}

/// Units stand in bytes with the less significant one first.
pub proof fn law_units_stand_in_bytes(bytes: Seq<u8>, i: int)
    requires
        0 <= i,
        2 * i + 1 < bytes.len(),
    ensures
        units_in(bytes).len() == bytes.len() / 2,
        units_in(bytes)[i] % 0x100 == bytes[2 * i],
        units_in(bytes)[i] / 0x100 == bytes[2 * i + 1],
{
}

/// A path is deleted by its command, a bar and the path, which gets backslashes.
pub proof fn law_path_is_deleted_by_its_command(path: Seq<char>)
    ensures
        path_to_delete("path_del"@ + seq!['|'] + path) == Some(replaced(trimmed(path), '/', '\\')),
        !path.contains('|') ==> path_to_delete(path) is None,
{
    reveal_strlit("path_del");
    reveal_strlit("|");
    assert("|"@ =~= seq!['|']);
    let name = "path_del"@;
    let text = name + seq!['|'] + path;
    law_text_is_parted_at_the_first_place(text, "|"@);
    assert(text.subrange(8, 9) =~= "|"@);
    assert(occurs_at(text, "|"@, 8));
    let (a, b) = split_once_at(text, "|"@)->0;
    assert(a.len() == 8) by {
        if a.len() < 8 {
            assert((a + "|"@ + b)[a.len() as int] == '|');
            assert(name[a.len() as int] == '|');
        }
    }
    assert(a =~= name) by {
        assert forall|i: int| 0 <= i < 8 implies a[i] == name[i] by {
            assert(text[i] == (a + "|"@ + b)[i]);
        }
    }
    assert(b =~= path) by {
        assert forall|i: int| 0 <= i < b.len() implies b[i] == path[i] by {
            assert(text[9 + i] == (a + "|"@ + b)[9 + i]);
        }
    }
    law_white_space(name[0]);
    law_white_space(name.last());
    law_tight_text_is_not_trimmed(name);
    if !path.contains('|') {
        law_text_is_parted_at_the_first_place(path, "|"@);
        if split_once_at(path, "|"@) is Some {
            let (x, y) = split_once_at(path, "|"@)->0;
            assert((x + "|"@ + y)[x.len() as int] == '|');
            assert(path[x.len() as int] == '|');
        }
    }
}

/// A number of 32 or 64 bits stands for the signed one with the same bits.
pub proof fn law_bits_stand_for_signed_numbers(n: int)
    ensures
        0 <= n < 0x1_0000_0000 ==> -0x8000_0000 <= low_i32(n) < 0x8000_0000 && (low_i32(n) - n)
            % 0x1_0000_0000 == 0,
        0 <= n < 0x1_0000_0000_0000_0000 ==> -0x8000_0000_0000_0000 <= as_i64(n)
            < 0x8000_0000_0000_0000 && (as_i64(n) - n) % 0x1_0000_0000_0000_0000 == 0,
{
}

} // verus!
