//! Where the parts of the window stand, and what dragging a divider does.

use vstd::prelude::*;

verus! {

/// The height of the row with the buttons, the volume and the progress.
pub const TOOLBAR_HEIGHT: i32 = 40;

/// The height of the row with the tabs.
pub const TAB_HEIGHT: i32 = 26;

/// The thickness of a divider.
pub const SPLITTER_THICKNESS: i32 = 2;

/// The least extents of the parts.
pub const MIN_LEFT_W: i32 = 240;

pub const MIN_RIGHT_W: i32 = 220;

pub const MIN_LIST_H: i32 = 120;

pub const MIN_LOG_H: i32 = 80;

pub const MIN_COVER_H: i32 = 60;

pub const MIN_TREE_H: i32 = 80;

/// The room around the toolbar.
pub const MARGIN: i32 = 6;

/// The size of a button, and the room between two of them.
pub const BUTTON_W: i32 = 30;

pub const BUTTON_H: i32 = 28;

pub const BUTTON_GAP: i32 = 4;

/// Where the buttons stand in the row.
pub const BUTTON_Y: i32 = 6;

/// Where the volume starts: behind six buttons.
pub const VOLUME_X: i32 = 220;

/// A rectangle of the window.
#[derive(Clone, Copy, PartialEq, Eq, Structural)]
pub struct Area {
    pub x: i32,
    pub y: i32,
    pub w: i32,
    pub h: i32,
}

/// Where the parts of the window stand.
#[derive(Clone, Copy, PartialEq, Eq, Structural)]
pub struct Layout {
    /// The first of the six buttons; each of the others stands to the right of
    /// the one before it.
    pub first_button: Area,
    pub volume: Area,
    pub progress: Area,
    pub tabs: Area,
    pub list: Area,
    pub list_log_split: Area,
    pub log: Area,
    pub left_right_split: Area,
    pub cover: Area,
    pub cover_tree_split: Area,
    pub tree: Area,
}

/// How the room is divided, in thousandths.
#[derive(Clone, Copy, PartialEq, Eq, Structural)]
pub struct Splits {
    pub left_right: u32,
    pub list_log: u32,
    pub cover_tree: u32,
}

/// A number that is not negative.
pub open spec fn positive_part(n: int) -> int {
    if n < 0 {
        0
    } else {
        n
    }
}

/// How much of `total` a divider takes: its thickness, or nothing where there is
/// no room for it.
pub open spec fn divider(total: int) -> int {
    if total >= SPLITTER_THICKNESS {
        SPLITTER_THICKNESS as int
    } else {
        0
    }
}

/// An extent of the first of two parts, moved so that neither part is too small.
/// Where the room is too small for both, the first part takes it all.
pub open spec fn fitted(wanted: int, room: int, min_first: int, min_second: int) -> int {
    let least = if min_first < room {
        min_first
    } else {
        room
    };
    let most = positive_part(room - min_second);
    if most < least {
        room
    } else if wanted < least {
        least
    } else if wanted > most {
        most
    } else {
        wanted
    }
}

/// The extent of the first of two parts, which takes so many thousandths of the
/// room.
pub open spec fn first_part(room: int, ratio: int, min_first: int, min_second: int) -> int {
    fitted(room * (if ratio > 1000 {
        1000
    } else {
        ratio
    }) / 1000, room, min_first, min_second)
}

/// The width of the volume, of which `wish` is wanted, in a window `w` wide.
pub open spec fn volume_width(wish: int, w: int) -> int {
    let wanted = if wish < 120 {
        120
    } else if wish > 220 {
        220
    } else {
        wish
    };
    if w - VOLUME_X - MARGIN < wanted + 80 {
        positive_part(w - VOLUME_X - MARGIN - 80)
    } else {
        wanted
    }
}

fn divider_of(total: i32) -> (r: i32)
    ensures
        r == divider(total as int),
{
    if total >= SPLITTER_THICKNESS {
        SPLITTER_THICKNESS
    } else {
        0
    }
}

fn not_negative(n: i32) -> (r: i32)
    ensures
        r == positive_part(n as int),
{
    if n < 0 {
        0
    } else {
        n
    }
}

fn fit(wanted: i32, room: i32, min_first: i32, min_second: i32) -> (r: i32)
    requires
        0 <= room,
        0 <= min_first <= 1000,
        0 <= min_second <= 1000,
    ensures
        r == fitted(wanted as int, room as int, min_first as int, min_second as int),
        0 <= r <= room,
{
    let least: i32 = if min_first < room {
        min_first
    } else {
        room
    };
    let most: i32 = not_negative(room - min_second);
    if most < least {
        room
    } else if wanted < least {
        least
    } else if wanted > most {
        most
    } else {
        wanted
    }
}

fn part_of(room: i32, ratio: u32, min_first: i32, min_second: i32) -> (r: i32)
    requires
        0 <= room,
        0 <= min_first <= 1000,
        0 <= min_second <= 1000,
    ensures
        r == first_part(room as int, ratio as int, min_first as int, min_second as int),
        0 <= r <= room,
{
    let share: i64 = if ratio > 1000 {
        1000
    } else {
        ratio as i64
    };
    assert(0 <= room * share <= room * 1000) by (nonlinear_arith)
        requires
            0 <= room,
            0 <= share <= 1000,
    ;
    let wanted: i64 = room as i64 * share / 1000;
    assert(0 <= wanted <= room);
    fit(wanted as i32, room, min_first, min_second)
}

/// Where the parts of a window of the size `w` by `h` stand. `volume_wish` is the
/// width that is wanted for the volume.
pub open spec fn layout_of(w: int, h: int, volume_wish: int, splits: Splits) -> Layout {
    let w = positive_part(w);
    let h = positive_part(h);
    let volume_w = volume_width(volume_wish, w);
    let progress_x = VOLUME_X + volume_w + 10;
    let split_w = divider(w);
    let room_w = w - split_w;
    let left_w = first_part(
        room_w,
        splits.left_right as int,
        MIN_LEFT_W as int,
        MIN_RIGHT_W as int,
    );
    let right_w = w - left_w - split_w;
    let right_x = left_w + split_w;
    let right_h = positive_part(h - TOOLBAR_HEIGHT);
    let right_split = divider(right_h);
    let cover_h = first_part(
        right_h - right_split,
        splits.cover_tree as int,
        MIN_COVER_H as int,
        MIN_TREE_H as int,
    );
    let top = TOOLBAR_HEIGHT + TAB_HEIGHT;
    let left_h = positive_part(h - top);
    let left_split = divider(left_h);
    let list_h = first_part(
        left_h - left_split,
        splits.list_log as int,
        MIN_LIST_H as int,
        MIN_LOG_H as int,
    );
    Layout {
        first_button: Area { x: MARGIN, y: BUTTON_Y, w: BUTTON_W, h: BUTTON_H },
        volume: Area { x: VOLUME_X, y: BUTTON_Y, w: volume_w as i32, h: BUTTON_H },
        progress: Area {
            x: progress_x as i32,
            y: 0,
            w: positive_part(w - progress_x - MARGIN) as i32,
            h: TOOLBAR_HEIGHT,
        },
        tabs: Area { x: 0, y: TOOLBAR_HEIGHT, w: left_w as i32, h: TAB_HEIGHT },
        list: Area { x: 0, y: top as i32, w: left_w as i32, h: list_h as i32 },
        list_log_split: Area {
            x: 0,
            y: (top + list_h) as i32,
            w: left_w as i32,
            h: left_split as i32,
        },
        log: Area {
            x: 0,
            y: (top + list_h + left_split) as i32,
            w: left_w as i32,
            h: (left_h - list_h - left_split) as i32,
        },
        left_right_split: Area {
            x: left_w as i32,
            y: TOOLBAR_HEIGHT,
            w: split_w as i32,
            h: right_h as i32,
        },
        cover: Area { x: right_x as i32, y: TOOLBAR_HEIGHT, w: right_w as i32, h: cover_h as i32 },
        cover_tree_split: Area {
            x: right_x as i32,
            y: (TOOLBAR_HEIGHT + cover_h) as i32,
            w: right_w as i32,
            h: right_split as i32,
        },
        tree: Area {
            x: right_x as i32,
            y: (TOOLBAR_HEIGHT + cover_h + right_split) as i32,
            w: right_w as i32,
            h: (right_h - cover_h - right_split) as i32,
        },
    }
}

/// Where the parts of a window stand.
pub fn ui_layout(w: i32, h: i32, volume_wish: i32, splits: Splits) -> (r: Layout)
    ensures
        r == layout_of(w as int, h as int, volume_wish as int, splits),
{
    let w: i32 = not_negative(w);
    let h: i32 = not_negative(h);
    let mut volume_w: i32 = if volume_wish < 120 {
        120
    } else if volume_wish > 220 {
        220
    } else {
        volume_wish
    };
    if w - VOLUME_X - MARGIN < volume_w + 80 {
        volume_w = not_negative(w - VOLUME_X - MARGIN - 80);
    }
    let progress_x: i32 = VOLUME_X + volume_w + 10;
    let progress_w: i32 = not_negative(w - progress_x - MARGIN);
    let split_w: i32 = divider_of(w);
    let left_w: i32 = part_of(w - split_w, splits.left_right, MIN_LEFT_W, MIN_RIGHT_W);
    let right_w: i32 = w - left_w - split_w;
    let right_x: i32 = left_w + split_w;
    let right_h: i32 = not_negative(h - TOOLBAR_HEIGHT);
    let right_split: i32 = divider_of(right_h);
    let cover_h: i32 = part_of(right_h - right_split, splits.cover_tree, MIN_COVER_H, MIN_TREE_H);
    let top: i32 = TOOLBAR_HEIGHT + TAB_HEIGHT;
    let left_h: i32 = not_negative(h - top);
    let left_split: i32 = divider_of(left_h);
    let list_h: i32 = part_of(left_h - left_split, splits.list_log, MIN_LIST_H, MIN_LOG_H);
    Layout {
        first_button: Area { x: MARGIN, y: BUTTON_Y, w: BUTTON_W, h: BUTTON_H },
        volume: Area { x: VOLUME_X, y: BUTTON_Y, w: volume_w, h: BUTTON_H },
        progress: Area { x: progress_x, y: 0, w: progress_w, h: TOOLBAR_HEIGHT },
        tabs: Area { x: 0, y: TOOLBAR_HEIGHT, w: left_w, h: TAB_HEIGHT },
        list: Area { x: 0, y: top, w: left_w, h: list_h },
        list_log_split: Area { x: 0, y: top + list_h, w: left_w, h: left_split },
        log: Area {
            x: 0,
            y: top + list_h + left_split,
            w: left_w,
            h: left_h - list_h - left_split,
        },
        left_right_split: Area { x: left_w, y: TOOLBAR_HEIGHT, w: split_w, h: right_h },
        cover: Area { x: right_x, y: TOOLBAR_HEIGHT, w: right_w, h: cover_h },
        cover_tree_split: Area {
            x: right_x,
            y: TOOLBAR_HEIGHT + cover_h,
            w: right_w,
            h: right_split,
        },
        tree: Area {
            x: right_x,
            y: TOOLBAR_HEIGHT + cover_h + right_split,
            w: right_w,
            h: right_h - cover_h - right_split,
        },
    }
}

/// Where the button at place `i` of the row stands.
pub fn button_area(i: i32) -> (r: Area)
    requires
        0 <= i < 6,
    ensures
        r == (Area { x: (MARGIN + i * (BUTTON_W + BUTTON_GAP)) as i32, y: BUTTON_Y, w: BUTTON_W, h: BUTTON_H }),
        r.x + r.w + BUTTON_GAP + 10 <= VOLUME_X,
{
    Area { x: MARGIN + i * (BUTTON_W + BUTTON_GAP), y: BUTTON_Y, w: BUTTON_W, h: BUTTON_H }
}

/// A divider that is dragged.
#[derive(Clone, Copy, PartialEq, Eq, Structural)]
pub enum Drag {
    NoDrag,
    LeftRight,
    ListLog,
    CoverTree,
}

/// The share of the first part when the divider is dragged to `at`; the share
/// stays where there is no room to divide.
pub open spec fn dragged_share(at: int, room: int, min_first: int, min_second: int, old: u32) -> u32 {
    if room <= 0 {
        old
    } else {
        let kept = if at < 0 {
            0
        } else if at > room {
            room
        } else {
            at
        };
        (fitted(kept, room, min_first, min_second) * 1000 / room) as u32
    }
}

fn share_at(at: i32, room: i32, min_first: i32, min_second: i32, old_share: u32) -> (r: u32)
    requires
        0 <= min_first <= 1000,
        0 <= min_second <= 1000,
    ensures
        r == dragged_share(at as int, room as int, min_first as int, min_second as int, old_share),
        room > 0 ==> r <= 1000,
{
    if room <= 0 {
        return old_share;
    }
    let kept: i32 = if at < 0 {
        0
    } else if at > room {
        room
    } else {
        at
    };
    let part: i32 = fit(kept, room, min_first, min_second);
    let share: i64 = (part as i64 * 1000) / (room as i64);
    assert(0 <= share <= 1000) by (nonlinear_arith)
        requires
            share == part * 1000 / room as int,
            0 <= part <= room,
            room > 0,
    ;
    share as u32
}

/// How the room of a window is divided after a divider was dragged to a place.
pub open spec fn dragged(drag: Drag, w: int, h: int, x: int, y: int, splits: Splits) -> Splits {
    let w = positive_part(w);
    let h = positive_part(h);
    match drag {
        Drag::NoDrag => splits,
        Drag::LeftRight => Splits {
            left_right: dragged_share(
                x,
                w - divider(w),
                MIN_LEFT_W as int,
                MIN_RIGHT_W as int,
                splits.left_right,
            ),
            ..splits
        },
        Drag::ListLog => {
            let top = TOOLBAR_HEIGHT + TAB_HEIGHT;
            let total = positive_part(h - top);
            Splits {
                list_log: dragged_share(
                    y - top,
                    total - divider(total),
                    MIN_LIST_H as int,
                    MIN_LOG_H as int,
                    splits.list_log,
                ),
                ..splits
            }
        },
        Drag::CoverTree => {
            let total = positive_part(h - TOOLBAR_HEIGHT);
            Splits {
                cover_tree: dragged_share(
                    y - TOOLBAR_HEIGHT,
                    total - divider(total),
                    MIN_COVER_H as int,
                    MIN_TREE_H as int,
                    splits.cover_tree,
                ),
                ..splits
            }
        },
    }
}

/// How the room of a window is divided after a divider was dragged to a place.
pub fn ui_apply_split_drag(drag: Drag, w: i32, h: i32, x: i16, y: i16, splits: Splits) -> (r: Splits)
    ensures
        r == dragged(drag, w as int, h as int, x as int, y as int, splits),
{
    let w: i32 = not_negative(w);
    let h: i32 = not_negative(h);
    let mut r: Splits = splits;
    match drag {
        Drag::NoDrag => {},
        Drag::LeftRight => {
            let room: i32 = w - divider_of(w);
            r.left_right = share_at(x as i32, room, MIN_LEFT_W, MIN_RIGHT_W, splits.left_right);
        },
        Drag::ListLog => {
            let top: i32 = TOOLBAR_HEIGHT + TAB_HEIGHT;
            let total: i32 = not_negative(h - top);
            let room: i32 = total - divider_of(total);
            r.list_log = share_at(y as i32 - top, room, MIN_LIST_H, MIN_LOG_H, splits.list_log);
        },
        Drag::CoverTree => {
            let total: i32 = not_negative(h - TOOLBAR_HEIGHT);
            let room: i32 = total - divider_of(total);
            r.cover_tree = share_at(
                y as i32 - TOOLBAR_HEIGHT,
                room,
                MIN_COVER_H,
                MIN_TREE_H,
                splits.cover_tree,
            );
        },
    }
    r
}

proof fn lemma_first_part(room: int, ratio: int, min_first: int, min_second: int)
    requires
        room >= 0,
        ratio >= 0,
        min_first >= 0,
        min_second >= 0,
    ensures
        0 <= first_part(room, ratio, min_first, min_second) <= room,
{
    let share = if ratio > 1000 {
        1000
    } else {
        ratio
    };
    assert(0 <= room * share <= room * 1000) by (nonlinear_arith)
        requires
            0 <= room,
            0 <= share <= 1000,
    ;
}

/// The parts of a window fill it: the columns its width, and the parts of each
/// column the height below the toolbar. None is of a negative size, and below
/// the toolbar no two share a place.
pub proof fn law_parts_fill_the_window(w: int, h: int, volume_wish: int, splits: Splits)
    requires
        0 <= w <= i32::MAX,
        TOOLBAR_HEIGHT + TAB_HEIGHT <= h <= i32::MAX,
    ensures
        ({
            let l = layout_of(w, h, volume_wish, splits);
            &&& l.list.x == 0 && l.list.w == l.left_right_split.x
            &&& l.left_right_split.x + l.left_right_split.w == l.cover.x
            &&& l.cover.x + l.cover.w == w
            &&& l.cover.x == l.tree.x && l.cover.w == l.tree.w && l.log.w == l.list.w
            &&& l.tabs.y == TOOLBAR_HEIGHT && l.tabs.y + l.tabs.h == l.list.y
            &&& l.list.y + l.list.h == l.list_log_split.y
            &&& l.list_log_split.y + l.list_log_split.h == l.log.y
            &&& l.log.y + l.log.h == h
            &&& l.cover.y == TOOLBAR_HEIGHT && l.cover.y + l.cover.h == l.cover_tree_split.y
            &&& l.cover_tree_split.y + l.cover_tree_split.h == l.tree.y
            &&& l.tree.y + l.tree.h == h
            &&& l.list.w >= 0 && l.list.h >= 0 && l.log.h >= 0 && l.cover.w >= 0 && l.cover.h >= 0
                && l.tree.h >= 0
        }),
{
    lemma_first_part(
        w - divider(w),
        splits.left_right as int,
        MIN_LEFT_W as int,
        MIN_RIGHT_W as int,
    );
    let right_h = h - TOOLBAR_HEIGHT;
    lemma_first_part(
        right_h - divider(right_h),
        splits.cover_tree as int,
        MIN_COVER_H as int,
        MIN_TREE_H as int,
    );
    let left_h = h - TOOLBAR_HEIGHT - TAB_HEIGHT;
    lemma_first_part(
        left_h - divider(left_h),
        splits.list_log as int,
        MIN_LIST_H as int,
        MIN_LOG_H as int,
    );
}

/// Where there is room for both parts, neither gets less than its least extent.
pub proof fn law_no_part_is_too_small(room: int, ratio: int, min_first: int, min_second: int)
    requires
        room >= min_first + min_second,
        ratio >= 0,
        min_first >= 0,
        min_second >= 0,
    ensures
        first_part(room, ratio, min_first, min_second) >= min_first,
        room - first_part(room, ratio, min_first, min_second) >= min_second,
{
}

/// A divider stays where it was dragged to, but for a thousandth of the room.
pub proof fn law_divider_stays_where_dragged(
    at: int,
    room: int,
    min_first: int,
    min_second: int,
    old: u32,
)
    requires
        0 < room <= i32::MAX,
        min_first >= 0,
        min_second >= 0,
    ensures
        ({
            let kept = if at < 0 {
                0
            } else if at > room {
                room
            } else {
                at
            };
            let wanted = fitted(kept, room, min_first, min_second);
            let share = dragged_share(at, room, min_first, min_second, old);
            let shown = first_part(room, share as int, min_first, min_second);
            share <= 1000 && shown <= wanted && wanted - shown <= room / 1000 + 1
        }),
{
    let kept = if at < 0 {
        0
    } else if at > room {
        room
    } else {
        at
    };
    let wanted = fitted(kept, room, min_first, min_second);
    let share = wanted * 1000 / room;
    assert(0 <= wanted <= room);
    assert(0 <= share <= 1000 && room * share <= wanted * 1000 && wanted * 1000 < room * share + room)
        by (nonlinear_arith)
        requires
            share == wanted * 1000 / room,
            0 <= wanted <= room,
            room > 0,
    ;
}

/// A part gets its share of the room, unless that makes it or the other part too small.
pub proof fn law_part_gets_its_share(room: int, ratio: int, min_first: int, min_second: int)
    requires
        0 <= room <= i32::MAX,
        0 <= ratio,
        0 <= min_first,
        0 <= min_second,
    ensures
        ({
            let wanted = room * ratio / 1000;
            let part = first_part(room, ratio, min_first, min_second);
            &&& ratio <= 1000 && min_first <= wanted <= room - min_second ==> part == wanted
            &&& ratio <= 1000 && wanted < min_first <= room - min_second ==> part == min_first
            &&& ratio <= 1000 && min_first <= room - min_second < wanted ==> part == room
                - min_second
            &&& room - min_second < min_first && room >= min_first > 0 ==> part == room
            &&& ratio > 1000 ==> part == first_part(room, 1000, min_first, min_second)
        }),
{
}

/// Where the parts of the window stand: the list with its tabs above and the log below it on
/// the left, the cover above the tree on the right, and all of them below the tool bar.
pub proof fn law_parts_stand_where_they_belong(w: int, h: int, volume_wish: int, splits: Splits)
    requires
        0 <= w <= i32::MAX,
        TOOLBAR_HEIGHT + TAB_HEIGHT <= h <= i32::MAX,
    ensures
        ({
            let l = layout_of(w, h, volume_wish, splits);
            &&& l.tabs.y == 40 && l.tabs.h == 26 && l.tabs.x == 0
            &&& l.list.x == 0 && l.list.y == 66
            &&& l.list_log_split.y == l.list.y + l.list.h
            &&& l.log.y == l.list_log_split.y + l.list_log_split.h && l.log.x == 0
            &&& l.log.y + l.log.h == h
            &&& l.cover.y == 40 && l.cover_tree_split.y == l.cover.y + l.cover.h
            &&& l.tree.y == l.cover_tree_split.y + l.cover_tree_split.h
            &&& l.tree.y + l.tree.h == h
            &&& l.left_right_split.x == l.list.w
            &&& l.cover.x == l.left_right_split.x + l.left_right_split.w
            &&& l.tree.x == l.cover.x && l.tree.w == l.cover.w && l.cover.x + l.cover.w == w
            &&& l.list.w == l.tabs.w && l.log.w == l.list.w
        }),
{
    lemma_first_part(w - divider(w), splits.left_right as int, 240, 220);
    let right_h = positive_part(h - TOOLBAR_HEIGHT);
    lemma_first_part(right_h - divider(right_h), splits.cover_tree as int, 60, 80);
    let left_h = positive_part(h - TOOLBAR_HEIGHT - TAB_HEIGHT);
    lemma_first_part(left_h - divider(left_h), splits.list_log as int, 120, 80);
}

/// A splitter changes its own share, and no other one.
pub proof fn law_splitter_changes_its_own_share(
    w: int,
    h: int,
    x: int,
    y: int,
    splits: Splits,
)
    ensures
        dragged(Drag::NoDrag, w, h, x, y, splits) == splits,
        ({
            let d = dragged(Drag::LeftRight, w, h, x, y, splits);
            d.list_log == splits.list_log && d.cover_tree == splits.cover_tree
        }),
        ({
            let d = dragged(Drag::ListLog, w, h, x, y, splits);
            d.left_right == splits.left_right && d.cover_tree == splits.cover_tree
        }),
        ({
            let d = dragged(Drag::CoverTree, w, h, x, y, splits);
            d.left_right == splits.left_right && d.list_log == splits.list_log
        }),
        500 < w <= 100000 && 240 <= x <= w - 222 ==> dragged(
            Drag::LeftRight,
            w,
            h,
            x,
            y,
            splits,
        ).left_right == x * 1000 / (w - 2),
        400 < h <= 100000 && 186 <= y <= h - 82 ==> dragged(
            Drag::ListLog,
            w,
            h,
            x,
            y,
            splits,
        ).list_log == (y - 66) * 1000 / (h - 68),
        400 < h <= 100000 && 100 <= y <= h - 82 ==> dragged(
            Drag::CoverTree,
            w,
            h,
            x,
            y,
            splits,
        ).cover_tree == (y - 40) * 1000 / (h - 42),
{
    if 500 < w <= 100000 && 240 <= x <= w - 222 {
        lemma_share_fits(x, w - 2);
    }
    if 400 < h <= 100000 && 186 <= y <= h - 82 {
        lemma_share_fits(y - 66, h - 68);
    }
    if 400 < h <= 100000 && 100 <= y <= h - 82 {
        lemma_share_fits(y - 40, h - 42);
    }
}

proof fn lemma_share_fits(at: int, room: int)
    requires
        0 <= at <= room,
        room > 0,
    ensures
        0 <= at * 1000 / room <= 1000,
{
    assert(0 <= at * 1000 / room <= 1000) by (nonlinear_arith)
        requires
            0 <= at <= room,
            room > 0,
    ;
}

/// The slider for the volume has its width where it fits, between 120 and 220.
pub proof fn law_slider_has_its_width(wish: int, w: int)
    requires
        w >= 600,
    ensures
        120 <= wish <= 220 ==> volume_width(wish, w) == wish,
        wish < 120 ==> volume_width(wish, w) == 120,
        wish > 220 ==> volume_width(wish, w) == 220,
{
}

/// The tool bar holds the buttons, the slider beside them and the progress in what is left.
pub proof fn law_tool_bar_is_filled(w: int, h: int, volume_wish: int, splits: Splits)
    requires
        600 <= w <= i32::MAX,
        0 <= h <= i32::MAX,
        120 <= volume_wish <= 220,
    ensures
        ({
            let l = layout_of(w, h, volume_wish, splits);
            &&& l.first_button.x == 6 && l.first_button.w == 30 && l.first_button.h == 28
            &&& l.volume.x == 220 && l.volume.w == volume_wish
            &&& l.progress.x == l.volume.x + l.volume.w + 10
            &&& l.progress.x + l.progress.w + 6 == w
            &&& l.progress.y == 0 && l.progress.h == 40
        }),
{
}

} // verus!
