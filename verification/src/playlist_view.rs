//! What the list of a playlist shows: the texts of its cells, and the widths of
//! its columns.

use crate::playlist_sort::{last_part, ui_playlist_filename, InfoMode};
use crate::playlist_store::length_text;
use crate::song::{format_time, law_time_text_tells_the_time, time_text, two_digits, Song, SongInfo};
use crate::tabs::PlayingMark;
use crate::text::{
    concat, decimal, decimal_string, digit_char, digits_value, from_chars, law_decimal_round_trips,
    push_all, push_decimal,
};
use vstd::prelude::*;

verus! {

/// A quotient rounded to the nearest whole number, halves to the even one.
pub open spec fn rounded(n: int, d: int) -> int {
    let q = n / d;
    let rest = n % d;
    if rest * 2 > d || (rest * 2 == d && q % 2 == 1) {
        q + 1
    } else {
        q
    }
}

fn round_quotient(n: u128, d: u128) -> (r: u128)
    requires
        0 < d <= 0x1_0000_0000,
        n <= 0x1_0000_0000_0000_0000_0000_0000,
    ensures
        r == rounded(n as int, d as int),
        r <= n / d + 1,
{
    let q: u128 = n / d;
    let rest: u128 = n % d;
    assert(q <= n) by (nonlinear_arith)
        requires
            q == n / d,
            d > 0,
            n >= 0,
    ;
    if rest * 2 > d || (rest * 2 == d && q % 2 == 1) {
        q + 1
    } else {
        q
    }
}

/// The unit of the last bit that a double precision number keeps of `n`.
pub open spec fn kept_unit(n: int) -> int
    decreases n,
{
    if n < 0x20_0000_0000_0000 {
        1
    } else {
        2 * kept_unit(n / 2)
    }
}

/// The double precision number next to `n`.
pub open spec fn as_double(n: int) -> int {
    rounded(n, kept_unit(n)) * kept_unit(n)
}

fn nearest_double(n: u64) -> (r: u128)
    ensures
        r == as_double(n as int),
        r <= 0x2_0000_0000_0000_0000,
        n < 1024 <==> r < 1024,
        n < 0x20_0000_0000_0000 ==> r == n,
{
    if n < 0x20_0000_0000_0000 {
        assert(as_double(n as int) == n);
        return n as u128;
    }
    let mut unit: u128 = 1;
    let mut m: u64 = n;
    while m >= 0x20_0000_0000_0000
        invariant
            kept_unit(n as int) == unit * kept_unit(m as int),
            unit < 0x1000,
            unit >= 1,
            unit * m <= n < unit * m + unit,
        decreases m,
    {
        proof {
            assert(unit * m >= unit * 0x20_0000_0000_0000) by (nonlinear_arith)
                requires
                    m >= 0x20_0000_0000_0000,
                    unit >= 1,
            ;
            assert(unit < 0x800) by (nonlinear_arith)
                requires
                    unit * 0x20_0000_0000_0000 <= n,
                    n <= 0xffff_ffff_ffff_ffff,
            ;
            assert(kept_unit(m as int) == 2 * kept_unit((m / 2) as int));
            assert(unit * (2 * kept_unit((m / 2) as int)) == (unit * 2) * kept_unit(
                (m / 2) as int,
            )) by (nonlinear_arith);
            let h = (m / 2) as int;
            assert(m == 2 * h || m == 2 * h + 1);
            assert(unit * 2 * h <= n < unit * 2 * h + unit * 2) by (nonlinear_arith)
                requires
                    unit * m <= n < unit * m + unit,
                    m == 2 * h || m == 2 * h + 1,
                    unit >= 1,
            ;
        }
        unit = unit * 2;
        m = m / 2;
    }
    assert(kept_unit(m as int) == 1);
    let q: u128 = round_quotient(n as u128, unit);
    proof {
        let u = unit as int;
        assert(q <= n as int / u + 1);
        assert(n as int / u == m) by (nonlinear_arith)
            requires
                u * m <= n < u * m + u,
                u >= 1,
        ;
        assert(q <= 0x20_0000_0000_0000);
        assert(q * u <= 0x20_0000_0000_0000 * 0x1000) by (nonlinear_arith)
            requires
                0 <= q <= 0x20_0000_0000_0000,
                0 <= u <= 0x1000,
        ;
        assert(q * u >= n - u) by (nonlinear_arith)
            requires
                q >= n as int / u,
                u * m <= n < u * m + u,
                n as int / u == m,
        ;
    }
    q * unit
}

/// A size as text: in the largest unit that it reaches, with two digits behind
/// the point, in kilobytes with one. A size that is not known is no text.
pub open spec fn size_text(bytes: u64) -> Seq<char> {
    let b = as_double(bytes as int);
    if bytes == 0 {
        Seq::empty()
    } else if b >= 0x4000_0000 {
        let n = rounded(b * 100, 0x4000_0000) as nat;
        decimal(n / 100) + seq!['.'] + two_digits(n % 100) + " GB"@
    } else if b >= 0x10_0000 {
        let n = rounded(b * 100, 0x10_0000) as nat;
        decimal(n / 100) + seq!['.'] + two_digits(n % 100) + " MB"@
    } else if b >= 0x400 {
        let n = rounded(b * 10, 0x400) as nat;
        decimal(n / 10) + seq!['.'] + seq![digit_char(n % 10)] + " KB"@
    } else {
        decimal(bytes as nat) + " B"@
    }
}

fn with_hundredths(n: u128, unit: &str) -> (r: String)
    ensures
        r@ == decimal((n / 100) as nat) + seq!['.'] + two_digits((n % 100) as nat) + unit@,
{
    let mut out: Vec<char> = Vec::new();
    push_decimal(&mut out, n / 100);
    out.push('.');
    let rest: u128 = n % 100;
    out.push((48u8 + (rest / 10) as u8) as char);
    out.push((48u8 + (rest % 10) as u8) as char);
    push_all(&mut out, unit);
    assert(out@ =~= decimal((n / 100) as nat) + seq!['.'] + two_digits((n % 100) as nat) + unit@);
    from_chars(out.as_slice())
}

/// A size as text.
pub fn ui_format_file_size(bytes: u64) -> (r: String)
    ensures
        r@ == size_text(bytes),
{
    if bytes == 0 {
        return String::new();
    }
    let b: u128 = nearest_double(bytes);
    if b >= 0x4000_0000 {
        with_hundredths(round_quotient(b * 100, 0x4000_0000), " GB")
    } else if b >= 0x10_0000 {
        with_hundredths(round_quotient(b * 100, 0x10_0000), " MB")
    } else if b >= 0x400 {
        let n: u128 = round_quotient(b * 10, 0x400);
        let mut out: Vec<char> = Vec::new();
        push_decimal(&mut out, n / 10);
        out.push('.');
        out.push((48u8 + (n % 10) as u8) as char);
        push_all(&mut out, " KB");
        assert(out@ =~= decimal((n / 10) as nat) + seq!['.'] + seq![digit_char((n % 10) as nat)]
            + " KB"@);
        from_chars(out.as_slice())
    } else {
        let number = decimal_string(bytes as u128);
        concat(number.as_str(), " B")
    }
}

/// The text of a cell in the last column.
pub open spec fn info_text(mode: InfoMode, song: Song) -> Seq<char> {
    match mode {
        InfoMode::Nothing => Seq::empty(),
        InfoMode::FileSize => size_text(song.file_size),
        InfoMode::Path => song.path,
    }
}

/// The text of a cell in the last column.
pub fn ui_info_col_text(mode: InfoMode, song: &SongInfo) -> (r: String)
    ensures
        r@ == info_text(mode, song@),
{
    match mode {
        InfoMode::Nothing => String::new(),
        InfoMode::FileSize => ui_format_file_size(song.file_size),
        InfoMode::Path => song.path.clone(),
    }
}

/// A text, or another one where it is empty.
pub open spec fn or_text(text: Seq<char>, other: Seq<char>) -> Seq<char> {
    if text.len() == 0 {
        other
    } else {
        text
    }
}

/// The text of the cell in column `column` for the song at place `i`. `plays`
/// says whether it is the one that plays.
pub open spec fn cell_text(song: Song, i: int, column: i32, plays: bool, mode: InfoMode) -> Seq<char> {
    if column == 0 {
        if plays {
            decimal((i + 1) as nat) + " ▶"@
        } else {
            decimal((i + 1) as nat)
        }
    } else if column == 1 {
        or_text(song.title, last_part(song.path))
    } else if column == 2 {
        or_text(length_text(song.duration_text, song.duration_ms as nat), "--:--"@)
    } else if column == 3 {
        or_text(song.author, "-"@)
    } else if column == 4 {
        or_text(song.album, "-"@)
    } else if column == 5 {
        info_text(mode, song)
    } else {
        Seq::empty()
    }
}

fn text_or(text: &String, other: &str) -> (r: String)
    ensures
        r@ == or_text(text@, other@),
{
    if text.as_str().is_empty() {
        other.to_owned()
    } else {
        text.clone()
    }
}

/// The text of a cell; `None` where there is no such song.
pub fn ui_playlist_cell_text(
    songs: &Vec<SongInfo>,
    li_id: usize,
    mark: PlayingMark,
    mode: InfoMode,
    item_index: usize,
    sub_item: i32,
) -> (r: Option<String>)
    ensures
        r is Some <==> item_index < songs@.len(),
        r matches Some(text) ==> text@ == cell_text(
            songs@[item_index as int]@,
            item_index as int,
            sub_item,
            mark.list_id == li_id && mark.place == item_index as i32,
            mode,
        ),
{
    if item_index >= songs.len() {
        return None;
    }
    let song = &songs[item_index];
    let text: String = match sub_item {
        0 => {
            let number = decimal_string(item_index as u128 + 1);
            if mark.list_id == li_id && mark.place == item_index as i32 {
                concat(number.as_str(), " ▶")
            } else {
                number
            }
        },
        1 => if song.title.as_str().is_empty() {
            ui_playlist_filename(song.path.as_str())
        } else {
            song.title.clone()
        },
        2 => {
            if !song.duration_text.as_str().is_empty() {
                song.duration_text.clone()
            } else if song.duration_ms > 0 {
                proof {
                    crate::song::law_time_text_length(song.duration_ms as nat);
                }
                format_time(song.duration_ms)
            } else {
                "--:--".to_owned()
            }
        },
        3 => text_or(&song.author, "-"),
        4 => text_or(&song.album, "-"),
        5 => ui_info_col_text(mode, song),
        _ => String::new(),
    };
    Some(text)
}

/// The name of a column.
pub fn column_name(col: i32) -> (r: &'static str)
    ensures
        r@ == (if col == 0 {
            "#"@
        } else if col == 1 {
            "歌曲名"@
        } else if col == 2 {
            "时长"@
        } else if col == 3 {
            "作者"@
        } else if col == 4 {
            "专辑"@
        } else if col == 5 {
            "*"@
        } else {
            ""@
        }),
{
    match col {
        0 => "#",
        1 => "歌曲名",
        2 => "时长",
        3 => "作者",
        4 => "专辑",
        5 => "*",
        _ => "",
    }
}

/// A quotient is rounded to the nearest whole number, and to the even one where two are as
/// near.
pub proof fn law_rounded_to_the_nearest(n: int, d: int)
    requires
        n >= 0,
        d > 0,
    ensures
        2 * (rounded(n, d) * d - n) <= d,
        2 * (n - rounded(n, d) * d) <= d,
        2 * (n - rounded(n, d) * d) == d || 2 * (rounded(n, d) * d - n) == d ==> rounded(n, d) % 2
            == 0,
{
    let (q, r) = (n / d, n % d);
    assert(n == q * d + r && 0 <= r < d) by (nonlinear_arith)
        requires
            q == n / d,
            r == n % d,
            d > 0,
    ;
    assert((q + 1) * d == q * d + d) by (nonlinear_arith);
    assert(q >= 0) by (nonlinear_arith)
        requires
            q == n / d,
            n >= 0,
            d > 0,
    ;
}

/// What the columns of a list show of a song: its place from one on, with a mark where it
/// plays, its title or the name of its file, its length, its artist and its album; what is
/// missing is shown by dashes.
pub proof fn law_cells_show_the_song(song: Song, i: int, plays: bool, mode: InfoMode)
    requires
        i >= 0,
    ensures
        digits_value(cell_text(song, i, 0, false, mode)) == i + 1,
        cell_text(song, i, 0, true, mode) == cell_text(song, i, 0, false, mode) + seq![' ', '▶'],
        song.title.len() > 0 ==> cell_text(song, i, 1, plays, mode) == song.title,
        song.title.len() == 0 ==> cell_text(song, i, 1, plays, mode) == last_part(song.path),
        song.duration_text.len() > 0 ==> cell_text(song, i, 2, plays, mode) == song.duration_text,
        song.duration_text.len() == 0 && song.duration_ms > 0 ==> cell_text(song, i, 2, plays, mode)
            == time_text(song.duration_ms as nat),
        song.duration_text.len() == 0 && song.duration_ms == 0 ==> cell_text(
            song,
            i,
            2,
            plays,
            mode,
        ) == "--:--"@,
        song.author.len() > 0 ==> cell_text(song, i, 3, plays, mode) == song.author,
        song.author.len() == 0 ==> cell_text(song, i, 3, plays, mode) == "-"@,
        song.album.len() > 0 ==> cell_text(song, i, 4, plays, mode) == song.album,
        song.album.len() == 0 ==> cell_text(song, i, 4, plays, mode) == "-"@,
        cell_text(song, i, 5, plays, InfoMode::Path) == song.path,
        cell_text(song, i, 5, plays, InfoMode::FileSize) == size_text(song.file_size),
        cell_text(song, i, 5, plays, InfoMode::Nothing).len() == 0,
{
    law_decimal_round_trips((i + 1) as nat);
    reveal_strlit(" ▶");
    assert(" ▶"@ =~= seq![' ', '▶']);
    let t = time_text(song.duration_ms as nat);
    law_time_text_tells_the_time(song.duration_ms as nat);
    assert(t.len() > 0);
}

/// A size below a kilobyte is told in bytes, and no size is told for an empty file.
pub proof fn law_small_sizes_are_told_in_bytes(bytes: u64)
    requires
        bytes < 1024,
    ensures
        bytes == 0 ==> size_text(bytes).len() == 0,
        bytes > 0 ==> size_text(bytes) == decimal(bytes as nat) + seq![' ', 'B'],
{
    reveal_strlit(" B");
    assert(" B"@ =~= seq![' ', 'B']);
    let n = bytes as int;
    assert(kept_unit(n) == 1);
    assert(rounded(n, 1) == n);
}

/// A size is told in kilobytes to a tenth, in megabytes and in gigabytes to a hundredth, each
/// from the first whole one on.
pub proof fn law_sizes_are_told_in_their_unit(bytes: u64)
    requires
        1024 <= bytes < 0x20_0000_0000_0000,
    ensures
        ({
            let text = size_text(bytes);
            let n = text.len() as int;
            &&& n > 5
            &&& bytes < 0x10_0000 ==> text.skip(n - 3) == seq![' ', 'K', 'B'] && text[n - 5] == '.'
            &&& 0x10_0000 <= bytes < 0x4000_0000 ==> text.skip(n - 3) == seq![' ', 'M', 'B']
                && text[n - 6] == '.'
            &&& bytes >= 0x4000_0000 ==> text.skip(n - 3) == seq![' ', 'G', 'B'] && text[n - 6]
                == '.'
        }),
        bytes < 0x10_0000 ==> digits_value(size_text(bytes).take(size_text(bytes).len() - 5))
            == rounded(bytes * 10, 0x400) / 10,
        0x10_0000 <= bytes < 0x4000_0000 ==> digits_value(
            size_text(bytes).take(size_text(bytes).len() - 6),
        ) == rounded(bytes * 100, 0x10_0000) / 100,
        bytes >= 0x4000_0000 ==> digits_value(size_text(bytes).take(size_text(bytes).len() - 6))
            == rounded(bytes * 100, 0x4000_0000) / 100,
{
    let b = bytes as int;
    assert(kept_unit(b) == 1);
    assert(rounded(b, 1) == b);
    assert(as_double(b) == b);
    reveal_strlit(" KB");
    reveal_strlit(" MB");
    reveal_strlit(" GB");
    assert(" KB"@ =~= seq![' ', 'K', 'B']);
    assert(" MB"@ =~= seq![' ', 'M', 'B']);
    assert(" GB"@ =~= seq![' ', 'G', 'B']);
    let text = size_text(bytes);
    let n = text.len() as int;
    if b < 0x10_0000 {
        law_rounded_to_the_nearest(b * 10, 0x400);
        let m = rounded(b * 10, 0x400) as nat;
        law_decimal_round_trips(m / 10);
        assert(text.skip(n - 3) =~= seq![' ', 'K', 'B']);
        assert(text.take(n - 5) =~= decimal(m / 10));
    } else {
        let unit = if b < 0x4000_0000 {
            0x10_0000int
        } else {
            0x4000_0000int
        };
        law_rounded_to_the_nearest(b * 100, unit);
        let m = rounded(b * 100, unit) as nat;
        law_decimal_round_trips(m / 100);
        assert(text.skip(n - 3) =~= (if b < 0x4000_0000 {
            seq![' ', 'M', 'B']
        } else {
            seq![' ', 'G', 'B']
        }));
        assert(text.take(n - 6) =~= decimal(m / 100));
    }
}

} // verus!
