//! The widths of the columns of a playlist, kept as shares of the whole.

use vstd::prelude::*;

verus! {

/// The sum of all shares.
pub const RATIO_TOTAL: u32 = 1000;

/// The share of the last column, which is not kept.
pub const INFO_RATIO: u32 = 10;

/// The width of a list that is not shown yet.
pub const INIT_TOTAL_W: i32 = 570;

/// The shares of a list that was never changed.
pub open spec fn default_shares() -> Seq<u32> {
    seq![70, 351, 105, 211, 263]
}

/// The shares of a list that was never changed.
pub fn default_ratios() -> (r: [u32; 5])
    ensures
        r@ == default_shares(),
{
    let r: [u32; 5] = [70, 351, 105, 211, 263];
    assert(r@ =~= default_shares());
    r
}

/// The sum of some shares.
pub open spec fn sum_of(s: Seq<u32>) -> int
    decreases s.len(),
{
    if s.len() == 0 {
        0
    } else {
        sum_of(s.drop_last()) + s.last()
    }
}

/// The sum of some shares, or the highest number where it is beyond it.
pub open spec fn bounded_sum(s: Seq<u32>) -> int {
    if sum_of(s) > u32::MAX {
        u32::MAX as int
    } else {
        sum_of(s)
    }
}

/// A share of `n` in a whole of `total`, in thousandths.
pub open spec fn share(n: int, total: int) -> int {
    n * 1000 / total
}

/// What four shares leave for the last one.
pub open spec fn rest_share(a: int, b: int, c: int, d: int) -> int {
    if a + b + c + d > 1000 {
        0
    } else {
        1000 - (a + b + c + d)
    }
}

/// Five numbers as shares of their sum. The last one takes what rounding leaves.
pub open spec fn shares_of(s: Seq<u32>, total: int) -> Seq<u32> {
    let (a, b, c, d) = (
        share(s[0] as int, total),
        share(s[1] as int, total),
        share(s[2] as int, total),
        share(s[3] as int, total),
    );
    seq![a as u32, b as u32, c as u32, d as u32, rest_share(a, b, c, d) as u32]
}

/// Shares that make a whole: those that are there, in proportion, or the usual
/// ones where there are none.
pub open spec fn normalized(s: Seq<u32>) -> Seq<u32> {
    if sum_of(s) == 0 {
        default_shares()
    } else if sum_of(s) == 1000 {
        s
    } else {
        shares_of(s, bounded_sum(s))
    }
}

proof fn lemma_sum5(s: Seq<u32>)
    requires
        s.len() == 5,
    ensures
        sum_of(s) == s[0] + s[1] + s[2] + s[3] + s[4],
{
    reveal_with_fuel(sum_of, 6);
    let s4 = s.drop_last();
    let s3 = s4.drop_last();
    let s2 = s3.drop_last();
    let s1 = s2.drop_last();
    assert(s1.drop_last().len() == 0);
    assert(s4.last() == s[3] && s3.last() == s[2] && s2.last() == s[1] && s1.last() == s[0]);
}

fn share_of(n: u32, total: u32) -> (r: u32)
    requires
        n <= total,
        total > 0,
    ensures
        r == share(n as int, total as int),
        r <= 1000,
{
    let v: u64 = n as u64 * 1000 / total as u64;
    assert(v <= 1000) by (nonlinear_arith)
        requires
            v == n * 1000 / total as int,
            n <= total,
            total > 0,
    ;
    v as u32
}

fn shares_in(s: &[u32; 5], total: u32) -> (r: [u32; 5])
    requires
        total > 0,
        forall|i: int| 0 <= i < 5 ==> #[trigger] s@[i] <= total,
    ensures
        r@ == shares_of(s@, total as int),
{
    assert(s@[0] <= total && s@[1] <= total && s@[2] <= total && s@[3] <= total);
    let (a, b, c, d): (u32, u32, u32, u32) = (
        share_of(s[0], total),
        share_of(s[1], total),
        share_of(s[2], total),
        share_of(s[3], total),
    );
    let used: u32 = a + b + c + d;
    let rest: u32 = if used > 1000 {
        0
    } else {
        1000 - used
    };
    let r: [u32; 5] = [a, b, c, d, rest];
    assert(r@ =~= shares_of(s@, total as int));
    r
}

/// Makes shares that make a whole.
pub fn ui_normalize_playlist_col_ratios(ratios: &mut [u32; 5])
    ensures
        final(ratios)@ == normalized(old(ratios)@),
{
    let sum: u64 = ratios[0] as u64 + ratios[1] as u64 + ratios[2] as u64 + ratios[3] as u64
        + ratios[4] as u64;
    proof {
        lemma_sum5(ratios@);
    }
    if sum == 0 {
        *ratios = default_ratios();
    } else if sum != RATIO_TOTAL as u64 {
        let total: u32 = if sum > u32::MAX as u64 {
            u32::MAX
        } else {
            sum as u32
        };
        let r = shares_in(ratios, total);
        *ratios = r;
    }
}

/// The shares of the columns.
pub struct ColumnRatios {
    pub ratios: [u32; 5],
}

impl ColumnRatios {
    /// The shares of a list that was never changed.
    pub fn new() -> (r: ColumnRatios)
        ensures
            r.ratios@ == default_shares(),
    {
        ColumnRatios { ratios: default_ratios() }
    }

    /// The shares, made a whole.
    pub fn ui_get_playlist_col_ratios(&self) -> (r: [u32; 5])
        ensures
            r@ == normalized(self.ratios@),
    {
        let mut r: [u32; 5] = self.ratios;
        ui_normalize_playlist_col_ratios(&mut r);
        r
    }

    /// Sets the shares, made a whole.
    pub fn ui_set_playlist_col_ratios(&mut self, ratios: [u32; 5])
        ensures
            final(self).ratios@ == normalized(ratios@),
    {
        let mut r: [u32; 5] = ratios;
        ui_normalize_playlist_col_ratios(&mut r);
        self.ratios = r;
    }

    /// Takes over the widths that the columns were given by hand. The result is
    /// what is saved; nothing where there are no widths.
    pub fn update_from_widths(&mut self, widths: [i32; 5]) -> (r: Option<[u32; 5]>)
        ensures
            ({
                let ws = shown_widths(widths@);
                let total = bounded_width(ws);
                &&& r is Some <==> total > 0
                &&& r is None ==> final(self).ratios@ == old(self).ratios@
                &&& r matches Some(saved) ==> saved@ == shares_of(ws, total) && final(self).ratios@
                    == normalized(saved@)
            }),
    {
        let ws: [u32; 5] = [
            width_of(widths[0]),
            width_of(widths[1]),
            width_of(widths[2]),
            width_of(widths[3]),
            width_of(widths[4]),
        ];
        assert(ws@ =~= shown_widths(widths@));
        let sum: u64 = ws[0] as u64 + ws[1] as u64 + ws[2] as u64 + ws[3] as u64 + ws[4] as u64;
        proof {
            lemma_sum5(ws@);
        }
        if sum == 0 {
            return None;
        }
        let total: u32 = if sum > 0x7fff_ffff {
            0x7fff_ffff
        } else {
            sum as u32
        };
        let saved: [u32; 5] = shares_in(&ws, total);
        self.ui_set_playlist_col_ratios(saved);
        Some(saved)
    }
}

/// Widths without the negative ones.
pub open spec fn shown_widths(widths: Seq<i32>) -> Seq<u32> {
    widths.map_values(
        |w: i32|
            if w < 0 {
                0u32
            } else {
                w as u32
            },
    )
}

/// The sum of some widths, or the highest width where it is beyond it.
pub open spec fn bounded_width(ws: Seq<u32>) -> int {
    if sum_of(ws) > i32::MAX {
        i32::MAX as int
    } else {
        sum_of(ws)
    }
}

fn width_of(w: i32) -> (r: u32)
    ensures
        r == (if w < 0 {
            0u32
        } else {
            w as u32
        }),
        r <= 0x7fff_ffff,
{
    if w < 0 {
        0
    } else {
        w as u32
    }
}

/// The width of the last column: its share, but not less than one.
pub open spec fn info_width(total_w: int) -> int {
    if total_w <= 0 {
        0
    } else if total_w * INFO_RATIO / 1000 < 1 {
        1
    } else {
        total_w * INFO_RATIO / 1000
    }
}

/// The width of the last column.
pub fn ui_playlist_info_col_width(total_w: i32) -> (r: i32)
    ensures
        r == info_width(total_w as int),
        0 <= r,
        total_w > 0 ==> 1 <= r <= total_w,
{
    if total_w <= 0 {
        return 0;
    }
    assert(total_w * INFO_RATIO == 10 * total_w) by (nonlinear_arith)
        requires
            INFO_RATIO == 10,
    ;
    let w: i64 = total_w as i64 * INFO_RATIO as i64 / RATIO_TOTAL as i64;
    if w < 1 {
        1
    } else {
        w as i32
    }
}

/// The width for a share: its part of the whole, but not less than one.
pub open spec fn width_for(total_w: int, ratio: int) -> i32 {
    let w = (total_w * ratio / 1000) as i32;
    if w < 1 {
        1
    } else {
        w
    }
}

/// A sum of two widths, or the highest width where it is beyond it.
pub open spec fn plus_width(a: int, b: int) -> int {
    if a + b > i32::MAX {
        i32::MAX as int
    } else {
        a + b
    }
}

/// The widths for some shares. The last one takes what the others leave.
pub open spec fn widths_for(total_w: int, ratios: Seq<u32>) -> Seq<i32> {
    if total_w <= 0 {
        seq![0, 0, 0, 0, 0]
    } else {
        let (a, b, c, d) = (
            width_for(total_w, ratios[0] as int),
            width_for(total_w, ratios[1] as int),
            width_for(total_w, ratios[2] as int),
            width_for(total_w, ratios[3] as int),
        );
        let used = plus_width(plus_width(plus_width(a as int, b as int), c as int), d as int);
        seq![
            a,
            b,
            c,
            d,
            if total_w - used < 1 {
                1i32
            } else {
                (total_w - used) as i32
            },
        ]
    }
}

fn width_of_ratio(total_w: i32, ratio: u32) -> (r: i32)
    requires
        total_w > 0,
    ensures
        r == width_for(total_w as int, ratio as int),
        r >= 1,
{
    assert(0 <= total_w * ratio <= 0x7fff_ffff * 0xffff_ffff) by (nonlinear_arith)
        requires
            0 < total_w <= 0x7fff_ffff,
            0 <= ratio <= 0xffff_ffff,
    ;
    let w: i32 = (total_w as i64 * ratio as i64 / RATIO_TOTAL as i64) as i32;
    if w < 1 {
        1
    } else {
        w
    }
}

fn add_width(a: i32, b: i32) -> (r: i32)
    requires
        a >= 0,
        b >= 0,
    ensures
        r == plus_width(a as int, b as int),
        r >= 0,
{
    if a > i32::MAX - b {
        i32::MAX
    } else {
        a + b
    }
}

/// The widths for some shares.
pub fn ui_playlist_col_widths_from_ratios(total_w: i32, ratios: &[u32; 5]) -> (r: [i32; 5])
    ensures
        r@ == widths_for(total_w as int, ratios@),
{
    if total_w <= 0 {
        let r: [i32; 5] = [0, 0, 0, 0, 0];
        assert(r@ =~= widths_for(total_w as int, ratios@));
        return r;
    }
    let (a, b, c, d): (i32, i32, i32, i32) = (
        width_of_ratio(total_w, ratios[0]),
        width_of_ratio(total_w, ratios[1]),
        width_of_ratio(total_w, ratios[2]),
        width_of_ratio(total_w, ratios[3]),
    );
    let used: i32 = add_width(add_width(add_width(a, b), c), d);
    let rest: i32 = if total_w - used < 1 {
        1
    } else {
        total_w - used
    };
    let r: [i32; 5] = [a, b, c, d, rest];
    assert(r@ =~= widths_for(total_w as int, ratios@));
    r
}

/// The widths of all columns of a list that is `total_w` wide: those of the
/// shares in what the last column leaves, and the last column.
pub fn column_widths(total_w: i32, ratios: &[u32; 5]) -> (r: ([i32; 5], i32))
    ensures
        r.1 == info_width(total_w as int),
        r.0@ == widths_for(
            if total_w <= 0 {
                0
            } else {
                total_w - info_width(total_w as int)
            },
            ratios@,
        ),
{
    let info_w: i32 = ui_playlist_info_col_width(total_w);
    let base_w: i32 = if total_w <= 0 {
        0
    } else {
        total_w - info_w
    };
    (ui_playlist_col_widths_from_ratios(base_w, ratios), info_w)
}

/// The width of a list for its first layout: its own, or the usual one where it
/// has none.
pub fn init_width(client_w: Option<i32>) -> (r: i32)
    ensures
        r == (match client_w {
            Some(w) => if w > 0 {
                w
            } else {
                INIT_TOTAL_W
            },
            None => INIT_TOTAL_W,
        }),
{
    match client_w {
        Some(w) => if w > 0 {
            w
        } else {
            INIT_TOTAL_W
        },
        None => INIT_TOTAL_W,
    }
}

/// The width of the last column so that all of them fit into the list; `None`
/// where it stays.
pub fn fit_last_column(total_w: i32, others: i32, last_w: i32) -> (r: Option<i32>)
    requires
        others >= 0,
    ensures
        ({
            let sum = plus_width(others as int, if last_w < 0 {
                0
            } else {
                last_w as int
            });
            let fitted = if last_w - (sum - total_w) < 1 {
                1
            } else {
                last_w - (sum - total_w)
            };
            r == (if total_w <= 0 || last_w <= 0 || sum <= total_w || fitted == last_w {
                None
            } else {
                Some(fitted as i32)
            })
        }),
{
    if total_w <= 0 || last_w <= 0 {
        return None;
    }
    let sum: i32 = add_width(others, last_w);
    if sum <= total_w {
        return None;
    }
    let overflow: i32 = sum - total_w;
    let fitted: i32 = if last_w - overflow < 1 {
        1
    } else {
        last_w - overflow
    };
    if fitted == last_w {
        None
    } else {
        Some(fitted)
    }
}

/// However the columns were given widths, their shares make a whole.
pub proof fn law_shares_make_a_whole(s: Seq<u32>)
    requires
        s.len() == 5,
        sum_of(s) <= u32::MAX,
    ensures
        normalized(s).len() == 5,
        sum_of(normalized(s)) == 1000,
        normalized(normalized(s)) == normalized(s),
{
    lemma_sum5(s);
    let n = normalized(s);
    if sum_of(s) == 0 {
        lemma_sum5(default_shares());
    } else if sum_of(s) != 1000 {
        let total = sum_of(s);
        let (w, x, y, z) = (s[0] as int, s[1] as int, s[2] as int, s[3] as int);
        let (a, b, c, d) = (share(w, total), share(x, total), share(y, total), share(z, total));
        assert(a >= 0 && b >= 0 && c >= 0 && d >= 0 && (a + b + c + d) * total <= (w + x + y + z)
            * 1000) by (nonlinear_arith)
            requires
                a == w * 1000 / total,
                b == x * 1000 / total,
                c == y * 1000 / total,
                d == z * 1000 / total,
                total > 0,
                w >= 0,
                x >= 0,
                y >= 0,
                z >= 0,
        ;
        assert(a + b + c + d <= 1000) by (nonlinear_arith)
            requires
                (a + b + c + d) * total <= (w + x + y + z) * 1000,
                w + x + y + z <= total,
                total > 0,
        ;
        lemma_sum5(n);
    }
}

/// Columns that are wide enough to be shown fill the list.
pub proof fn law_columns_fill_the_list(total_w: int, ratios: Seq<u32>)
    requires
        0 < total_w <= i32::MAX,
        ratios.len() == 5,
        sum_of(ratios) == 1000,
        forall|i: int| 0 <= i < 5 ==> total_w * #[trigger] ratios[i] >= 1000,
    ensures
        ({
            let w = widths_for(total_w, ratios);
            w[0] + w[1] + w[2] + w[3] + w[4] == total_w
        }),
{
    lemma_sum5(ratios);
    let (w, x, y, z) = (ratios[0] as int, ratios[1] as int, ratios[2] as int, ratios[3] as int);
    let (a, b, c, d) = (total_w * w / 1000, total_w * x / 1000, total_w * y / 1000, total_w * z
        / 1000);
    assert(total_w * ratios[4] >= 1000);
    assert(1 <= a && 1 <= b && 1 <= c && 1 <= d && 1000 * (a + b + c + d) <= total_w * (w + x + y
        + z)) by (nonlinear_arith)
        requires
            a == total_w * w / 1000,
            b == total_w * x / 1000,
            c == total_w * y / 1000,
            d == total_w * z / 1000,
            total_w * w >= 1000,
            total_w * x >= 1000,
            total_w * y >= 1000,
            total_w * z >= 1000,
    ;
    let last = ratios[4] as int;
    assert(total_w * (w + x + y + z) + total_w * last == total_w * 1000) by (nonlinear_arith)
        requires
            w + x + y + z + last == 1000,
    ;
    assert(a + b + c + d < total_w);
}

/// The share of a column in a thousand is that of its width in all of them.
pub proof fn law_share_is_that_of_the_width(n: int, total: int)
    requires
        0 <= n <= total,
        total > 0,
    ensures
        share(n, total) * total <= n * 1000 < (share(n, total) + 1) * total,
        share(total, total) == 1000,
        share(0, total) == 0,
{
    let q = n * 1000 / total;
    assert(q * total <= n * 1000 < (q + 1) * total) by (nonlinear_arith)
        requires
            q == n * 1000 / total,
            total > 0,
    ;
    assert((total * 1000) / total == 1000) by (nonlinear_arith)
        requires
            total > 0,
    ;
    assert(0int / total == 0) by (nonlinear_arith)
        requires
            total > 0,
    ;
}

/// Shares that do not make a whole are brought to it: each of the first four is that of its
/// column, and the last one is the rest; without any the usual ones are taken.
pub proof fn law_shares_are_brought_to_a_whole(s: Seq<u32>, i: int)
    requires
        s.len() == 5,
        0 < sum_of(s) <= u32::MAX,
        sum_of(s) != 1000,
        0 <= i < 4,
    ensures
        normalized(s)[i] * sum_of(s) <= s[i] * 1000 < (normalized(s)[i] + 1) * sum_of(s),
        normalized(seq![0, 0, 0, 0, 0]) == seq![70u32, 351, 105, 211, 263],
{
    lemma_part_of_sum(s, i);
    law_share_is_that_of_the_width(s[i] as int, sum_of(s));
    let q = share(s[i] as int, sum_of(s));
    assert(0 <= q <= 1000) by (nonlinear_arith)
        requires
            q * sum_of(s) <= s[i] * 1000 < (q + 1) * sum_of(s),
            s[i] <= sum_of(s),
            sum_of(s) > 0,
    ;
    let z = seq![0u32, 0, 0, 0, 0];
    reveal_with_fuel(sum_of, 6);
    assert(z.drop_last() =~= seq![0u32, 0, 0, 0]);
    assert(z.drop_last().drop_last() =~= seq![0u32, 0, 0]);
    assert(z.drop_last().drop_last().drop_last() =~= seq![0u32, 0]);
    assert(z.drop_last().drop_last().drop_last().drop_last() =~= seq![0u32]);
    assert(z.drop_last().drop_last().drop_last().drop_last().drop_last() =~= Seq::<u32>::empty());
    assert(sum_of(z) == 0);
    assert(default_shares() =~= seq![70u32, 351, 105, 211, 263]);
}

proof fn lemma_part_of_sum(s: Seq<u32>, i: int)
    requires
        0 <= i < s.len(),
    ensures
        0 <= s[i] <= sum_of(s),
    decreases s.len(),
{
    lemma_sum_is_not_negative(s.drop_last());
    if i < s.len() - 1 {
        lemma_part_of_sum(s.drop_last(), i);
    }
}

proof fn lemma_sum_is_not_negative(s: Seq<u32>)
    ensures
        sum_of(s) >= 0,
    decreases s.len(),
{
    if s.len() > 0 {
        lemma_sum_is_not_negative(s.drop_last());
    }
}

/// A column is as wide as its share of the list, and at least one pixel; the last column has
/// a hundredth of the list.
pub proof fn law_width_is_the_share(total_w: int, ratio: int)
    requires
        0 < total_w <= 1_000_000,
        0 <= ratio <= 1000,
    ensures
        total_w * ratio >= 1000 ==> width_for(total_w, ratio) * 1000 <= total_w * ratio < width_for(
            total_w,
            ratio,
        ) * 1000 + 1000,
        total_w * ratio < 1000 ==> width_for(total_w, ratio) == 1,
        total_w >= 100 ==> info_width(total_w) == total_w / 100,
        total_w < 100 ==> info_width(total_w) == 1,
        info_width(0) == 0,
{
    assert(0 <= total_w * ratio <= 1_000_000_000) by (nonlinear_arith)
        requires
            0 < total_w <= 1_000_000,
            0 <= ratio <= 1000,
    ;
    assert(total_w * 10 / 1000 == total_w / 100);
}

} // verus!
