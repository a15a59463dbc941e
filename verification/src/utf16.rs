//! Text as UTF-16 code units, as the windowing system wants it.

use crate::text::from_chars;
use vstd::prelude::*;

verus! {

/// The code units of a character.
pub open spec fn char_units(c: char) -> Seq<u16> {
    let n = c as u32;
    if n < 0x1_0000 {
        seq![n as u16]
    } else {
        seq![
            (0xd800 + (n - 0x1_0000) / 0x400) as u16,
            (0xdc00 + (n - 0x1_0000) % 0x400) as u16,
        ]
    }
}

/// The code units of a text.
pub open spec fn units(s: Seq<char>) -> Seq<u16>
    decreases s.len(),
{
    if s.len() == 0 {
        seq![]
    } else {
        units(s.drop_last()) + char_units(s.last())
    }
}

/// The first unit of a pair.
pub open spec fn is_high(u: u16) -> bool {
    0xd800 <= u < 0xdc00
}

/// The second unit of a pair.
pub open spec fn is_low(u: u16) -> bool {
    0xdc00 <= u < 0xe000
}

/// The character of a pair.
pub open spec fn pair_char(high: u16, low: u16) -> char {
    (0x1_0000 + (high - 0xd800) * 0x400 + (low - 0xdc00)) as char
}

/// The character that stands for units that are none.
pub const REPLACEMENT: char = '\u{fffd}';

/// The text of some code units; a unit that is half of no pair becomes a
/// replacement character.
pub open spec fn decoded(u: Seq<u16>) -> Seq<char>
    decreases u.len(),
{
    if u.len() == 0 {
        seq![]
    } else if u.len() >= 2 && is_high(u[0]) && is_low(u[1]) {
        seq![pair_char(u[0], u[1])] + decoded(u.skip(2))
    } else if is_high(u[0]) || is_low(u[0]) {
        seq![REPLACEMENT] + decoded(u.skip(1))
    } else {
        seq![u[0] as char] + decoded(u.skip(1))
    }
}

/// Appends the code units of a character.
pub fn push_char_units(out: &mut Vec<u16>, c: char)
    ensures
        final(out)@ == old(out)@ + char_units(c),
{
    let n: u32 = c as u32;
    if n < 0x1_0000 {
        out.push(n as u16);
    } else {
        let m: u32 = n - 0x1_0000;
        out.push((0xd800 + m / 0x400) as u16);
        out.push((0xdc00 + m % 0x400) as u16);
    }
    assert(out@ =~= old(out)@ + char_units(c));
}

/// The code units of a text.
pub fn encode(s: &str) -> (r: Vec<u16>)
    ensures
        r@ == units(s@),
{
    let mut r: Vec<u16> = Vec::new();
    for c in it: s.chars()
        invariant
            r@ == units(s@.take(it.index() as int)),
            it.seq() == s@,
    {
        assert(s@.take(it.index() + 1).drop_last() =~= s@.take(it.index() as int));
        push_char_units(&mut r, c);
    }
    assert(s@.take(s@.len() as int) =~= s@);
    r
}

/// The code units of a text and a zero behind them.
pub fn to_wstring(s: &str) -> (r: Vec<u16>)
    ensures
        r@ == units(s@).push(0),
{
    let mut r = encode(s);
    r.push(0);
    r
}

fn unit_char(u: u16) -> (r: char)
    requires
        !is_high(u),
        !is_low(u),
    ensures
        r == u as char,
{
    if u < 0x80 {
        return (u as u8) as char;
    }
    scalar(u as u32)
}

/// `char::from_u32` of a scalar value gives the character with that number.
#[verifier::external_body]
fn scalar(n: u32) -> (r: char)
    requires
        n < 0xd800 || 0xe000 <= n <= 0x10_ffff,
    ensures
        r as u32 == n,
{
    char::from_u32(n).unwrap_or(REPLACEMENT)
}

/// The text of some code units; a unit that is half of no pair becomes a
/// replacement character.
pub fn decode_lossy(u: &[u16]) -> (r: String)
    ensures
        r@ == decoded(u@),
{
    let mut out: Vec<char> = Vec::new();
    let mut i: usize = 0;
    assert(u@.skip(0) =~= u@);
    while i < u.len()
        invariant
            i <= u@.len(),
            decoded(u@) == out@ + decoded(u@.skip(i as int)),
        decreases u@.len() - i,
    {
        let a: u16 = u[i];
        let high: bool = 0xd800 <= a && a < 0xdc00;
        let low: bool = 0xdc00 <= a && a < 0xe000;
        let ghost before = out@;
        let ghost rest = u@.skip(i as int);
        if high && u.len() - i >= 2 && 0xdc00 <= u[i + 1] && u[i + 1] < 0xe000 {
            let b: u16 = u[i + 1];
            let n: u32 = 0x1_0000 + (a as u32 - 0xd800) * 0x400 + (b as u32 - 0xdc00);
            assert(rest[0] == a && rest[1] == b);
            assert(rest.skip(2) =~= u@.skip(i + 2));
            out.push(scalar(n));
            i += 2;
        } else if high || low {
            assert(rest[0] == a);
            assert(rest.skip(1) =~= u@.skip(i + 1));
            out.push(REPLACEMENT);
            i += 1;
        } else {
            assert(rest[0] == a);
            assert(rest.skip(1) =~= u@.skip(i + 1));
            out.push(unit_char(a));
            i += 1;
        }
        assert(out@ =~= before + seq![out@.last()]);
        assert(out@ + decoded(u@.skip(i as int)) =~= before + (seq![out@.last()] + decoded(
            u@.skip(i as int),
        )));
    }
    assert(u@.skip(u@.len() as int).len() == 0);
    assert(out@ + decoded(u@.skip(i as int)) =~= out@);
    from_chars(out.as_slice())
}

/// The units before the first zero, or all of them.
pub open spec fn terminated_len(u: Seq<u16>) -> int
    decreases u.len(),
{
    if u.len() == 0 || u[0] == 0 {
        0
    } else {
        1 + terminated_len(u.drop_first())
    }
}

/// The number of units before the first zero, or of all of them.
pub fn utf16_len(u: &[u16]) -> (r: usize)
    ensures
        r == terminated_len(u@),
        r <= u@.len(),
{
    let mut i: usize = 0;
    assert(u@.skip(0) =~= u@);
    while i < u.len() && u[i] != 0
        invariant
            i <= u@.len(),
            terminated_len(u@) == i + terminated_len(u@.skip(i as int)),
        decreases u@.len() - i,
    {
        assert(u@.skip(i as int)[0] == u@[i as int]);
        assert(u@.skip(i as int).drop_first() =~= u@.skip(i + 1));
        i += 1;
    }
    if i < u.len() {
        assert(u@.skip(i as int)[0] == u@[i as int]);
    }
    i
}

proof fn lemma_decoded_concat(c: char, rest: Seq<u16>)
    ensures
        decoded(char_units(c) + rest) == seq![c] + decoded(rest),
{
    let all = char_units(c) + rest;
    let n = c as u32;
    if n < 0x1_0000 {
        assert(all[0] == n as u16);
        assert(!is_high(all[0]) && !is_low(all[0]));
        assert(all.skip(1) =~= rest);
    } else {
        let m = (n - 0x1_0000) as u32;
        assert(m < 0x10_0000);
        assert(all[0] == (0xd800 + m / 0x400) as u16 && all[1] == (0xdc00 + m % 0x400) as u16);
        assert(is_high(all[0]) && is_low(all[1]));
        assert(all.skip(2) =~= rest);
        assert(pair_char(all[0], all[1]) == c);
    }
}

proof fn lemma_units_front(c: char, s: Seq<char>)
    ensures
        units(seq![c] + s) == char_units(c) + units(s),
    decreases s.len(),
{
    let all = seq![c] + s;
    if s.len() == 0 {
        assert(all.drop_last() =~= s);
        assert(all.last() == c);
        assert(units(s) =~= seq![]);
        assert(units(all) =~= char_units(c) + units(s));
    } else {
        lemma_units_front(c, s.drop_last());
        assert(all.drop_last() =~= seq![c] + s.drop_last());
        assert(units(all) =~= char_units(c) + units(s));
    }
}

/// A text survives its way through code units.
pub proof fn law_text_round_trips(s: Seq<char>)
    ensures
        decoded(units(s)) == s,
    decreases s.len(),
{
    if s.len() == 0 {
        assert(decoded(units(s)) =~= s);
    } else {
        let rest = s.drop_first();
        assert(seq![s[0]] + rest =~= s);
        lemma_units_front(s[0], rest);
        lemma_decoded_concat(s[0], units(rest));
        law_text_round_trips(rest);
    }
}

/// A text without zeros is as long as the zero behind it says.
pub proof fn law_terminator_marks_the_end(u: Seq<u16>)
    requires
        !u.contains(0),
    ensures
        terminated_len(u.push(0)) == u.len(),
    decreases u.len(),
{
    if u.len() > 0 {
        assert(u.push(0)[0] == u[0]);
        assert(u[0] != 0) by {
            assert(u.contains(u[0]));
        }
        assert(u.push(0).drop_first() =~= u.drop_first().push(0));
        assert forall|i: int| 0 <= i < u.drop_first().len() implies u.drop_first()[i] != 0 by {
            assert(u[i + 1] != 0) by {
                assert(u.contains(u[i + 1]));
            }
        }
        law_terminator_marks_the_end(u.drop_first());
    } else {
        assert(u.push(0)[0] == 0);
    }
}

/// Some units, cut off so that `capacity` units hold them and the one that ends
/// them.
pub open spec fn cut_units(u: Seq<u16>, capacity: int) -> Seq<u16> {
    if u.len() > capacity - 1 {
        u.take(capacity - 1)
    } else {
        u
    }
}

/// A text as `capacity` units at most: what fits of its units, and a zero behind
/// them. Without room for the zero there is nothing.
pub fn buffer_units(text: &str, capacity: usize) -> (r: Vec<u16>)
    ensures
        capacity == 0 ==> r@.len() == 0,
        capacity > 0 ==> r@ == cut_units(units(text@), capacity as int).push(0),
        r@.len() <= capacity,
{
    let mut r: Vec<u16> = Vec::new();
    if capacity == 0 {
        return r;
    }
    let all = encode(text);
    let n: usize = if all.len() > capacity - 1 {
        capacity - 1
    } else {
        all.len()
    };
    let mut i: usize = 0;
    while i < n
        invariant
            n <= all@.len(),
            i <= n,
            r@ == all@.take(i as int),
        decreases n - i,
    {
        r.push(all[i]);
        i += 1;
        assert(r@ =~= all@.take(i as int));
    }
    assert(all@.take(n as int) =~= cut_units(units(text@), capacity as int));
    r.push(0);
    r
}

/// Fills a buffer with a text: what fits of its units, and zeros behind them, at
/// least one.
pub fn copy_to_wide_buf(dst: &mut Vec<u16>, s: &str)
    ensures
        final(dst)@.len() == old(dst)@.len(),
        forall|i: int|
            0 <= i < final(dst)@.len() ==> #[trigger] final(dst)@[i] == (if i < cut_units(
                units(s@),
                old(dst)@.len() as int,
            ).len() {
                units(s@)[i]
            } else {
                0
            }),
{
    let n: usize = dst.len();
    if n == 0 {
        return;
    }
    let all = encode(s);
    let mut i: usize = 0;
    while i < n
        invariant
            n == dst@.len(),
            n > 0,
            i <= n,
            all@ == units(s@),
            forall|k: int|
                0 <= k < i ==> #[trigger] dst@[k] == (if k < cut_units(units(s@), n as int).len() {
                    units(s@)[k]
                } else {
                    0
                }),
        decreases n - i,
    {
        let u: u16 = if i < n - 1 && i < all.len() {
            all[i]
        } else {
            0
        };
        dst.set(i, u);
        i += 1;
    }
}

/// A character below 65536 is one unit, itself; any other one is two, a high one and a low
/// one, which hold ten bits each of what it is above that.
pub proof fn law_characters_are_units(c: char)
    ensures
        (c as u32) < 0x1_0000 ==> char_units(c).len() == 1 && char_units(c)[0] == c as u32,
        c as u32 >= 0x1_0000 ==> {
            let u = char_units(c);
            &&& u.len() == 2
            &&& 0xd800 <= u[0] < 0xdc00
            &&& 0xdc00 <= u[1] < 0xe000
            &&& 0x1_0000 + (u[0] - 0xd800) * 0x400 + (u[1] - 0xdc00) == c as u32
        },
{
}

/// The units of a text are those of its characters, in their order.
pub proof fn law_units_follow_the_characters(s: Seq<char>, c: char)
    ensures
        units(Seq::empty()).len() == 0,
        units(s.push(c)) == units(s) + char_units(c),
{
    assert(s.push(c).drop_last() =~= s);
}

/// A unit that stands alone where it needs another one becomes the replacement character.
pub proof fn law_lone_unit_is_replaced(u: u16, rest: Seq<u16>)
    ensures
        0xdc00 <= u < 0xe000 ==> decoded(seq![u] + rest) == seq!['\u{fffd}'] + decoded(rest),
        0xd800 <= u < 0xdc00 && (rest.len() == 0 || !(0xdc00 <= rest[0] < 0xe000)) ==> decoded(
            seq![u] + rest,
        ) == seq!['\u{fffd}'] + decoded(rest),
        u < 0xd800 || u >= 0xe000 ==> decoded(seq![u] + rest) == seq![u as char] + decoded(rest),
{
    let all = seq![u] + rest;
    assert(all.skip(1) =~= rest);
    assert(all[0] == u);
    if rest.len() > 0 {
        assert(all[1] == rest[0]);
    }
}

/// A text that is cut for a buffer leaves room for its end.
pub proof fn law_cut_text_leaves_room(u: Seq<u16>, capacity: int)
    requires
        capacity > 0,
    ensures
        cut_units(u, capacity).len() < capacity,
        cut_units(u, capacity).is_prefix_of(u),
        u.len() < capacity ==> cut_units(u, capacity) == u,
        u.len() >= capacity ==> cut_units(u, capacity).len() == capacity - 1,
{
}

} // verus!
