//! Repairing the texts of tags that were written in one encoding and read in
//! another.

use crate::pipe_codec::utf8_text;
use crate::pipe_commands::{from_utf8_lossy, lossy_utf8};
use crate::song::text_views;
use crate::text::to_chars;
use vstd::prelude::*;
use vstd::utf8::{decode_utf8, encode_utf8, valid_utf8};

verus! {

/// Whether a character is white space of ASCII.
pub open spec fn is_ascii_space(c: char) -> bool {
    c == ' ' || c == '\t' || c == '\n' || c == '\u{c}' || c == '\r'
}

/// Whether a character is an ASCII letter or digit.
pub open spec fn is_ascii_word(c: char) -> bool {
    ('0' <= c && c <= '9') || ('A' <= c && c <= 'Z') || ('a' <= c && c <= 'z')
}

/// Whether a character is punctuation of ASCII.
pub open spec fn is_ascii_mark(c: char) -> bool {
    ('!' <= c && c <= '/') || (':' <= c && c <= '@') || ('[' <= c && c <= '`') || ('{' <= c && c
        <= '~')
}

/// Whether a character is a Han character.
pub open spec fn han(c: char) -> bool {
    let u = c as u32;
    0x3400 <= u <= 0x4dbf || 0x4e00 <= u <= 0x9fff || 0xf900 <= u <= 0xfaff || 0x2_0000 <= u
        <= 0x2_a6df
}

/// Whether a character is a Japanese syllable.
pub open spec fn kana(c: char) -> bool {
    let u = c as u32;
    0x3040 <= u <= 0x30ff || 0x31f0 <= u <= 0x31ff
}

/// Whether a character is a mark of the wide scripts, or a wide form.
pub open spec fn wide_mark(c: char) -> bool {
    let u = c as u32;
    0x3000 <= u <= 0x303f || 0xff00 <= u <= 0xffef
}

/// Whether a character belongs to Chinese, Japanese or Korean text.
pub open spec fn cjk(c: char) -> bool {
    han(c) || wide_mark(c)
}

/// Whether a character is a control character that no text holds.
pub open spec fn bad_control(c: char) -> bool {
    let u = c as u32;
    (u < 0x20 && !is_ascii_space(c)) || 0x80 <= u <= 0x9f
}

/// Whether a character stands for one that was lost.
pub open spec fn lost(c: char) -> bool {
    c == '?' || c == '\u{fffd}'
}

/// Whether a character is one of those that wrongly read text is full of.
pub open spec fn strong_marker(c: char) -> bool {
    c == 'Ð' || c == 'Ò' || c == '¹' || c == 'º' || c == '»' || c == '¼' || c == '½' || c == '¾'
        || c == '¿' || c == 'µ' || c == '¸' || c == '±'
}

/// Whether a character is one of those that wrongly read text often has.
pub open spec fn marker(c: char) -> bool {
    strong_marker(c) || c == '£' || c == '¡' || c == '¤' || c == '¥'
}

fn ascii_space(c: char) -> (r: bool)
    ensures
        r == is_ascii_space(c),
{
    c == ' ' || c == '\t' || c == '\n' || c == '\u{c}' || c == '\r'
}

fn ascii_word(c: char) -> (r: bool)
    ensures
        r == is_ascii_word(c),
{
    ('0' <= c && c <= '9') || ('A' <= c && c <= 'Z') || ('a' <= c && c <= 'z')
}

fn ascii_mark(c: char) -> (r: bool)
    ensures
        r == is_ascii_mark(c),
{
    ('!' <= c && c <= '/') || (':' <= c && c <= '@') || ('[' <= c && c <= '`') || ('{' <= c && c
        <= '~')
}

/// Whether a character is a Han character.
pub fn is_han(c: char) -> (r: bool)
    ensures
        r == han(c),
{
    let u: u32 = c as u32;
    (0x3400 <= u && u <= 0x4dbf) || (0x4e00 <= u && u <= 0x9fff) || (0xf900 <= u && u <= 0xfaff) || (
    0x2_0000 <= u && u <= 0x2_a6df)
}

/// Whether a character is a Japanese syllable.
pub fn is_kana(c: char) -> (r: bool)
    ensures
        r == kana(c),
{
    let u: u32 = c as u32;
    (0x3040 <= u && u <= 0x30ff) || (0x31f0 <= u && u <= 0x31ff)
}

fn is_wide_mark(c: char) -> (r: bool)
    ensures
        r == wide_mark(c),
{
    let u: u32 = c as u32;
    (0x3000 <= u && u <= 0x303f) || (0xff00 <= u && u <= 0xffef)
}

fn is_bad_control(c: char) -> (r: bool)
    ensures
        r == bad_control(c),
{
    let u: u32 = c as u32;
    (u < 0x20 && !ascii_space(c)) || (0x80 <= u && u <= 0x9f)
}

fn is_strong_marker(c: char) -> (r: bool)
    ensures
        r == strong_marker(c),
{
    c == 'Ð' || c == 'Ò' || c == '¹' || c == 'º' || c == '»' || c == '¼' || c == '½' || c == '¾'
        || c == '¿' || c == 'µ' || c == '¸' || c == '±'
}

/// Whether a character is one of those that wrongly read text often has.
pub fn is_mojibake_marker_ansi(c: char) -> (r: bool)
    ensures
        r == marker(c),
{
    is_strong_marker(c) || c == '£' || c == '¡' || c == '¤' || c == '¥'
}

/// Whether some character of a text belongs to Chinese, Japanese or Korean text.
pub fn contains_cjk(s: &str) -> (r: bool)
    ensures
        r == exists|i: int| 0 <= i < s@.len() && cjk(#[trigger] s@[i]),
{
    let chars = to_chars(s);
    let mut i: usize = 0;
    while i < chars.len()
        invariant
            chars@ == s@,
            i <= chars@.len(),
            forall|k: int| 0 <= k < i ==> !cjk(#[trigger] s@[k]),
        decreases chars@.len() - i,
    {
        if is_han(chars[i]) || is_wide_mark(chars[i]) {
            assert(cjk(s@[i as int]));
            return true;
        }
        i += 1;
    }
    false
}

/// Whether a text holds control characters that no text holds.
pub fn has_suspicious_control(s: &str) -> (r: bool)
    ensures
        r == exists|i: int| 0 <= i < s@.len() && bad_control(#[trigger] s@[i]),
{
    let chars = to_chars(s);
    let mut i: usize = 0;
    while i < chars.len()
        invariant
            chars@ == s@,
            i <= chars@.len(),
            forall|k: int| 0 <= k < i ==> !bad_control(#[trigger] s@[k]),
        decreases chars@.len() - i,
    {
        if is_bad_control(chars[i]) {
            assert(bad_control(s@[i as int]));
            return true;
        }
        i += 1;
    }
    false
}

/// How many characters of a text a test holds of.
pub open spec fn count_of(s: Seq<char>, test: spec_fn(char) -> bool) -> nat
    decreases s.len(),
{
    if s.len() == 0 {
        0
    } else {
        count_of(s.drop_last(), test) + (if test(s.last()) {
            1nat
        } else {
            0
        })
    }
}

/// How many characters of a text stand for ones that were lost.
pub open spec fn lost_count(s: Seq<char>) -> nat {
    count_of(s, |c: char| lost(c))
}

/// How many characters of a text stand for ones that were lost.
pub fn count_replacement_like(s: &str) -> (r: usize)
    ensures
        r == lost_count(s@),
{
    let chars = to_chars(s);
    let n: usize = chars.len();
    let mut r: usize = 0;
    let mut i: usize = 0;
    while i < n
        invariant
            chars@ == s@,
            n == s@.len(),
            i <= n,
            r <= i,
            r == lost_count(s@.take(i as int)),
        decreases n - i,
    {
        assert(s@.take(i + 1).drop_last() =~= s@.take(i as int));
        if chars[i] == '?' || chars[i] == '\u{fffd}' {
            r += 1;
        }
        i += 1;
    }
    assert(s@.take(n as int) =~= s@);
    r
}

/// How well a character fits into the title of a song.
pub open spec fn char_score(c: char) -> int {
    if lost(c) {
        -40
    } else if bad_control(c) {
        -60
    } else if is_ascii_word(c) {
        3
    } else if is_ascii_mark(c) {
        1
    } else if is_ascii_space(c) {
        0
    } else if marker(c) {
        -6
    } else if han(c) {
        8
    } else if kana(c) {
        7
    } else if 0xa0 <= c as u32 <= 0xff {
        2
    } else if wide_mark(c) {
        2
    } else {
        0
    }
}

/// How well a text reads as the title of a song: the sum over its characters.
pub open spec fn text_score(s: Seq<char>) -> int
    decreases s.len(),
{
    if s.len() == 0 {
        0
    } else {
        text_score(s.drop_last()) + char_score(s.last())
    }
}

fn score_of(c: char) -> (r: i128)
    ensures
        r == char_score(c),
        -60 <= r <= 8,
{
    if c == '?' || c == '\u{fffd}' {
        -40
    } else if is_bad_control(c) {
        -60
    } else if ascii_word(c) {
        3
    } else if ascii_mark(c) {
        1
    } else if ascii_space(c) {
        0
    } else if is_mojibake_marker_ansi(c) {
        -6
    } else if is_han(c) {
        8
    } else if is_kana(c) {
        7
    } else if 0xa0 <= c as u32 && c as u32 <= 0xff {
        2
    } else if is_wide_mark(c) {
        2
    } else {
        0
    }
}

/// How well a text reads as the title of a song.
pub fn music_text_score(s: &str) -> (r: i128)
    ensures
        r == text_score(s@),
        -60 * s@.len() <= r <= 8 * s@.len(),
        s@.len() <= usize::MAX,
{
    let chars = to_chars(s);
    let n: usize = chars.len();
    let mut r: i128 = 0;
    let mut i: usize = 0;
    while i < n
        invariant
            chars@ == s@,
            n == s@.len(),
            i <= n,
            -60 * i <= r <= 8 * i,
            r == text_score(s@.take(i as int)),
        decreases n - i,
    {
        assert(s@.take(i + 1).drop_last() =~= s@.take(i as int));
        r = r + score_of(chars[i]);
        i += 1;
    }
    assert(s@.take(n as int) =~= s@);
    r
}

/// A quotient rounded towards zero.
pub open spec fn truncated(n: int, d: int) -> int {
    if n < 0 {
        -((-n) / d)
    } else {
        n / d
    }
}

/// How many characters of a text count: those that are no white space, at least
/// one.
pub open spec fn counted(s: Seq<char>) -> int {
    let n = count_of(s, |c: char| !is_ascii_space(c)) as int;
    if n < 1 {
        1
    } else {
        n
    }
}

/// How well a text reads: the score for each thousand characters, and that of the
/// whole.
pub open spec fn text_rank(s: Seq<char>) -> (int, int) {
    (truncated(text_score(s) * 1000, counted(s)), text_score(s))
}

/// Whether a rank is better than another one.
pub open spec fn is_better(a: (int, int), b: (int, int)) -> bool {
    a.0 > b.0 || (a.0 == b.0 && a.1 > b.1)
}

/// How well a text reads.
pub fn music_text_rank(s: &str) -> (r: (i128, i128))
    ensures
        (r.0 as int, r.1 as int) == text_rank(s@),
        -60 * s@.len() <= r.1 <= 8 * s@.len(),
        s@.len() <= usize::MAX,
{
    let total: i128 = music_text_score(s);
    let chars = to_chars(s);
    let n: usize = chars.len();
    let mut len: usize = 0;
    let mut i: usize = 0;
    while i < n
        invariant
            chars@ == s@,
            n == s@.len(),
            i <= n,
            len <= i,
            len == count_of(s@.take(i as int), |c: char| !is_ascii_space(c)),
        decreases n - i,
    {
        assert(s@.take(i + 1).drop_last() =~= s@.take(i as int));
        if !ascii_space(chars[i]) {
            len += 1;
        }
        i += 1;
    }
    assert(s@.take(n as int) =~= s@);
    let d: i128 = if len < 1 {
        1
    } else {
        len as i128
    };
    let scaled: i128 = total * 1000;
    let avg: i128 = if scaled < 0 {
        let q: i128 = (-scaled) / d;
        assert(0 <= q <= -scaled) by (nonlinear_arith)
            requires
                q == (-scaled) as int / d as int,
                d >= 1,
                scaled < 0,
        ;
        -q
    } else {
        scaled / d
    };
    (avg, total)
}

fn ranks_higher(a: (i128, i128), b: (i128, i128)) -> (r: bool)
    ensures
        r == is_better((a.0 as int, a.1 as int), (b.0 as int, b.1 as int)),
{
    a.0 > b.0 || (a.0 == b.0 && a.1 > b.1)
}

/// How many characters of a text carry meaning: no white space, digits or
/// punctuation of ASCII.
pub open spec fn meaningful(s: Seq<char>) -> nat {
    count_of(
        s,
        |c: char|
            !(is_ascii_space(c) || ('0' <= c && c <= '9') || is_ascii_mark(c)),
    )
}

/// How many characters of a text are not ASCII.
pub open spec fn beyond_ascii(s: Seq<char>) -> nat {
    count_of(s, |c: char| c as u32 >= 0x80)
}

/// Whether some character of a text is one that a test holds of.
pub open spec fn has_char(s: Seq<char>, test: spec_fn(char) -> bool) -> bool {
    exists|i: int| 0 <= i < s.len() && test(#[trigger] s[i])
}

/// Whether a text looks like one that was read in the wrong encoding.
pub open spec fn looks_wrong(s: Seq<char>) -> bool {
    &&& s.len() > 0
    &&& !has_char(s, |c: char| cjk(c))
    &&& beyond_ascii(s) >= 2
    &&& has_char(s, |c: char| strong_marker(c)) || (meaningful(s) > 0 && beyond_ascii(s) * 2
        >= meaningful(s))
}

/// Whether a text looks like one that was read in the wrong encoding.
pub fn looks_like_mojibake_ansi(s: &str) -> (r: bool)
    ensures
        r == looks_wrong(s@),
{
    if s.is_empty() {
        return false;
    }
    let has_cjk: bool = contains_cjk(s);
    assert(has_cjk == has_char(s@, |c: char| cjk(c)));
    if has_cjk {
        return false;
    }
    let chars = to_chars(s);
    let n: usize = chars.len();
    let mut non_ascii: usize = 0;
    let mut effective: usize = 0;
    let mut has_markers: bool = false;
    let mut i: usize = 0;
    while i < n
        invariant
            chars@ == s@,
            n == s@.len(),
            i <= n,
            non_ascii <= i,
            effective <= i,
            non_ascii == beyond_ascii(s@.take(i as int)),
            effective == meaningful(s@.take(i as int)),
            has_markers == exists|k: int| 0 <= k < i && strong_marker(#[trigger] s@[k]),
        decreases n - i,
    {
        assert(s@.take(i + 1).drop_last() =~= s@.take(i as int));
        let c: char = chars[i];
        if c as u32 >= 0x80 {
            non_ascii += 1;
        }
        if is_strong_marker(c) {
            assert(strong_marker(s@[i as int]));
            has_markers = true;
        }
        if !(ascii_space(c) || ('0' <= c && c <= '9') || ascii_mark(c)) {
            effective += 1;
        }
        i += 1;
    }
    assert(s@.take(n as int) =~= s@);
    assert(has_markers == has_char(s@, |c: char| strong_marker(c)));
    if non_ascii < 2 {
        return false;
    }
    if has_markers {
        return true;
    }
    if effective == 0 {
        return false;
    }
    non_ascii as u128 * 2 >= effective as u128
}

/// Whether every character of a text is one of Latin-1.
pub open spec fn is_latin1(s: Seq<char>) -> bool {
    forall|i: int| 0 <= i < s.len() ==> (#[trigger] s[i]) as u32 <= 0xff
}

/// The bytes of a text in Latin-1.
pub open spec fn latin1_bytes(s: Seq<char>) -> Seq<u8> {
    s.map_values(|c: char| (c as u32) as u8)
}

/// The bytes of a text in Latin-1, if it has any.
pub fn str_to_latin1_bytes(s: &str) -> (r: Option<Vec<u8>>)
    ensures
        r is Some <==> is_latin1(s@),
        r matches Some(bytes) ==> bytes@ == latin1_bytes(s@),
{
    let chars = to_chars(s);
    let n: usize = chars.len();
    let mut bytes: Vec<u8> = Vec::new();
    let mut i: usize = 0;
    while i < n
        invariant
            chars@ == s@,
            n == s@.len(),
            i <= n,
            forall|k: int| 0 <= k < i ==> (#[trigger] s@[k]) as u32 <= 0xff,
            bytes@ == latin1_bytes(s@).take(i as int),
        decreases n - i,
    {
        let u: u32 = chars[i] as u32;
        if u > 0xff {
            assert(!(s@[i as int] as u32 <= 0xff));
            return None;
        }
        bytes.push(u as u8);
        i += 1;
        assert(bytes@ =~= latin1_bytes(s@).take(i as int));
    }
    assert(bytes@ =~= latin1_bytes(s@));
    Some(bytes)
}

/// Whether a repair of a text is worth a try.
pub open spec fn needs_repair(s: Seq<char>) -> bool {
    s.len() > 0 && (has_char(s, |c: char| bad_control(c)) || looks_wrong(s) || lost_count(s) >= 2)
}

/// Whether a repair of a text is worth a try.
pub fn should_try_repair_text(s: &str) -> (r: bool)
    ensures
        r == needs_repair(s@),
{
    if s.is_empty() {
        return false;
    }
    let control: bool = has_suspicious_control(s);
    assert(control == has_char(s@, |c: char| bad_control(c)));
    if control {
        return true;
    }
    if looks_like_mojibake_ansi(s) {
        return true;
    }
    count_replacement_like(s) >= 2
}

/// Whether a text shows no damage.
pub open spec fn is_clean(s: Seq<char>) -> bool {
    !has_char(s, |c: char| bad_control(c)) && lost_count(s) == 0
}

fn clean(s: &str) -> (r: bool)
    ensures
        r == is_clean(s@),
{
    let control: bool = has_suspicious_control(s);
    assert(control == has_char(s@, |c: char| bad_control(c)));
    !control && count_replacement_like(s) == 0
}

/// The text that the Latin-1 bytes of a text are in UTF-8, where they are and it
/// shows no damage.
pub open spec fn as_utf8(s: Seq<char>) -> Option<Seq<char>> {
    if is_latin1(s) && valid_utf8(latin1_bytes(s)) && is_clean(decode_utf8(latin1_bytes(s))) {
        Some(decode_utf8(latin1_bytes(s)))
    } else {
        None
    }
}

fn utf8_in_latin1(s: &str) -> (r: Option<String>)
    ensures
        match r {
            Some(t) => as_utf8(s@) == Some(t@),
            None => as_utf8(s@) is None,
        },
{
    match str_to_latin1_bytes(s) {
        Some(bytes) => match utf8_text(bytes.as_slice()) {
            Some(t) => if clean(t.as_str()) {
                Some(t)
            } else {
                None
            },
            None => None,
        },
        None => None,
    }
}

/// The better one of two texts: the second one only where it reads better.
pub open spec fn better_text(best: Seq<char>, other: Seq<char>) -> Seq<char> {
    if is_better(text_rank(other), text_rank(best)) {
        other
    } else {
        best
    }
}

/// The best of some texts, the first of those that read equally well; `start`
/// where none reads better.
pub open spec fn best_text(start: Seq<char>, texts: Seq<Seq<char>>) -> Seq<char>
    decreases texts.len(),
{
    if texts.len() == 0 {
        start
    } else {
        better_text(best_text(start, texts.drop_last()), texts.last())
    }
}

fn best_of(start: &str, texts: &Vec<String>) -> (r: String)
    ensures
        r@ == best_text(start@, text_views(texts@)),
{
    let ghost views = text_views(texts@);
    let mut best: String = start.to_owned();
    let mut best_rank: (i128, i128) = music_text_rank(start);
    let mut i: usize = 0;
    while i < texts.len()
        invariant
            i <= texts@.len(),
            views == text_views(texts@),
            best@ == best_text(start@, views.take(i as int)),
            (best_rank.0 as int, best_rank.1 as int) == text_rank(best@),
        decreases texts@.len() - i,
    {
        proof {
            assert(views.take(i + 1).drop_last() =~= views.take(i as int));
            assert(views.take(i + 1).last() == texts@[i as int]@);
        }
        let rank: (i128, i128) = music_text_rank(texts[i].as_str());
        if ranks_higher(rank, best_rank) {
            best_rank = rank;
            best = texts[i].clone();
        }
        i += 1;
    }
    assert(views.take(texts@.len() as int) =~= views);
    best
}

/// The text of a tag, repaired where it was read in the wrong encoding.
/// `candidates` are other readings of it. One of them is taken only where it
/// reads clearly better.
pub open spec fn repaired(s: Seq<char>, candidates: Seq<Seq<char>>) -> Seq<char> {
    if !needs_repair(s) {
        s
    } else {
        match as_utf8(s) {
            Some(t) => t,
            None => {
                let best = best_text(s, candidates);
                if text_score(best) >= text_score(s) + 10 {
                    best
                } else {
                    s
                }
            },
        }
    }
}

/// What a text tells before other readings of it are asked for.
pub enum RepairStep {
    /// The text is as it should be.
    Keep,
    /// This is the text.
    Use(String),
    /// Other readings have to be made. `latin1` are its bytes, if it has any;
    /// `crossed` says whether those between the Chinese and the Japanese encoding
    /// are wanted too.
    Ask { latin1: Option<Vec<u8>>, crossed: bool },
}

/// What a text tells before other readings of it are asked for.
pub fn repair_step(s: &str) -> (r: RepairStep)
    ensures
        match r {
            RepairStep::Keep => !needs_repair(s@),
            RepairStep::Use(t) => needs_repair(s@) && as_utf8(s@) == Some(t@),
            RepairStep::Ask { latin1, crossed } => {
                &&& needs_repair(s@) && as_utf8(s@) is None
                &&& latin1 is Some <==> is_latin1(s@)
                &&& latin1 matches Some(bytes) ==> bytes@ == latin1_bytes(s@)
                &&& crossed == (has_char(s@, |c: char| cjk(c)) && !is_clean(s@))
            },
        },
{
    if !should_try_repair_text(s) {
        return RepairStep::Keep;
    }
    match utf8_in_latin1(s) {
        Some(t) => RepairStep::Use(t),
        None => {
            let has_cjk: bool = contains_cjk(s);
            assert(has_cjk == has_char(s@, |c: char| cjk(c)));
            RepairStep::Ask { latin1: str_to_latin1_bytes(s), crossed: has_cjk && !clean(s) }
        },
    }
}

/// The text of a tag, repaired where it was read in the wrong encoding.
pub fn fix_mojibake_music_text(s: String, candidates: &Vec<String>) -> (r: String)
    ensures
        r@ == repaired(s@, text_views(candidates@)),
{
    match repair_step(s.as_str()) {
        RepairStep::Keep => s,
        RepairStep::Use(t) => t,
        RepairStep::Ask { .. } => {
            let best = best_of(s.as_str(), candidates);
            let best_total: i128 = music_text_score(best.as_str());
            let total: i128 = music_text_score(s.as_str());
            if best_total >= total + 10 {
                best
            } else {
                s
            }
        },
    }
}

/// The text of the bytes of a tag that are no UTF-8: the best of some readings,
/// the first of those that read equally well, or what can be read of them as
/// UTF-8 where there are none.
pub open spec fn chosen_reading(readings: Seq<Seq<char>>, lossy: Seq<char>) -> Seq<char> {
    if readings.len() == 0 {
        lossy
    } else {
        best_text(readings[0], readings.drop_first())
    }
}

/// The best of some readings of the bytes of a tag, of which `lossy` is what can
/// be read as UTF-8.
pub fn choose_reading(readings: &Vec<String>, lossy: String) -> (r: String)
    ensures
        r@ == chosen_reading(text_views(readings@), lossy@),
{
    let n: usize = readings.len();
    if n == 0 {
        return lossy;
    }
    let ghost views = text_views(readings@);
    let mut rest: Vec<String> = Vec::new();
    let mut i: usize = 1;
    while i < n
        invariant
            n == readings@.len(),
            1 <= i <= n,
            views == text_views(readings@),
            text_views(rest@) == views.drop_first().take(i - 1),
        decreases n - i,
    {
        let t: String = readings[i].clone();
        let ghost before = rest@;
        rest.push(t);
        assert(text_views(rest@) =~= text_views(before).push(t@));
        assert(views.drop_first().take(i as int) =~= views.drop_first().take(i - 1).push(
            views[i as int],
        ));
        i += 1;
    }
    assert(views.drop_first().take(n - 1) =~= views.drop_first());
    assert(views[0] == readings@[0]@);
    best_of(readings[0].as_str(), &rest)
}

/// The text of the bytes of a tag, where they are UTF-8; it may still need a
/// repair.
pub fn tag_text(bytes: &[u8]) -> (r: Option<String>)
    ensures
        r is Some <==> valid_utf8(bytes@),
        r matches Some(s) ==> s@ == decode_utf8(bytes@),
{
    utf8_text(bytes)
}

/// What the bytes of a tag stand for in an encoding, and the other readings of that
/// text which a repair may take.
pub struct Reading {
    pub text: String,
    pub candidates: Vec<String>,
}

/// Some readings, each repaired.
pub open spec fn repaired_readings(readings: Seq<Reading>) -> Seq<Seq<char>> {
    readings.map_values(|r: Reading| repaired(r.text@, text_views(r.candidates@)))
}

/// The text of the bytes of a tag: bytes that are UTF-8 are read as such and repaired,
/// any others are the best of their readings in several encodings.
pub open spec fn tag_text_of(
    bytes: Seq<u8>,
    candidates: Seq<Seq<char>>,
    readings: Seq<Seq<char>>,
) -> Seq<char> {
    if bytes.len() == 0 {
        Seq::empty()
    } else if valid_utf8(bytes) {
        repaired(decode_utf8(bytes), candidates)
    } else {
        chosen_reading(readings, lossy_utf8(bytes))
    }
}

fn repair_readings(readings: &Vec<Reading>) -> (r: Vec<String>)
    ensures
        text_views(r@) == repaired_readings(readings@),
{
    let ghost views = repaired_readings(readings@);
    let mut r: Vec<String> = Vec::new();
    let mut i: usize = 0;
    assert(text_views(r@) =~= views.take(0));
    while i < readings.len()
        invariant
            i <= readings@.len(),
            views == repaired_readings(readings@),
            text_views(r@) == views.take(i as int),
        decreases readings@.len() - i,
    {
        let text = fix_mojibake_music_text(readings[i].text.clone(), &readings[i].candidates);
        assert(text@ == views[i as int]);
        let ghost before = r@;
        r.push(text);
        i += 1;
        assert(text_views(r@) =~= text_views(before).push(text@));
        assert(views.take(i as int) =~= views.take(i - 1).push(text@));
    }
    assert(views.take(readings@.len() as int) =~= views);
    r
}

/// The text of the bytes of a tag. `candidates` are the other readings of the text that
/// UTF-8 makes of them, where they are that; `readings` are what they stand for in several
/// encodings, where they are not.
pub fn decode_music_tag_bytes(
    bytes: &[u8],
    candidates: &Vec<String>,
    readings: &Vec<Reading>,
) -> (r: String)
    ensures
        r@ == tag_text_of(bytes@, text_views(candidates@), repaired_readings(readings@)),
{
    if bytes.len() == 0 {
        let r = String::new();
        assert(r@ =~= Seq::empty());
        return r;
    }
    match tag_text(bytes) {
        Some(text) => fix_mojibake_music_text(text, candidates),
        None => {
            let repaired_texts = repair_readings(readings);
            let lossy = from_utf8_lossy(bytes);
            choose_reading(&repaired_texts, lossy)
        },
    }
}

/// Bytes that are UTF-8 are never read in another encoding.
pub proof fn law_utf8_is_read_as_utf8(
    bytes: Seq<u8>,
    candidates: Seq<Seq<char>>,
    readings: Seq<Seq<char>>,
    others: Seq<Seq<char>>,
)
    requires
        valid_utf8(bytes),
    ensures
        tag_text_of(bytes, candidates, readings) == tag_text_of(bytes, candidates, others),
{
}

proof fn lemma_best_text(start: Seq<char>, texts: Seq<Seq<char>>)
    ensures
        !is_better(text_rank(start), text_rank(best_text(start, texts))),
        best_text(start, texts) == start || texts.contains(best_text(start, texts)),
        forall|i: int|
            0 <= i < texts.len() ==> !is_better(
                text_rank(#[trigger] texts[i]),
                text_rank(best_text(start, texts)),
            ),
    decreases texts.len(),
{
    if texts.len() > 0 {
        let front = texts.drop_last();
        lemma_best_text(start, front);
        let best = best_text(start, texts);
        if best == best_text(start, front) && best != start {
            let k = choose|k: int| 0 <= k < front.len() && front[k] == best;
            assert(texts[k] == best);
        }
        if best == texts.last() {
            assert(texts[texts.len() - 1] == best);
        }
        assert forall|i: int| 0 <= i < texts.len() implies !is_better(
            text_rank(#[trigger] texts[i]),
            text_rank(best),
        ) by {
            if i < front.len() {
                assert(front[i] == texts[i]);
            }
        }
    }
}

/// A text that shows no damage stays as it is, and a repair never reads worse
/// than what it repairs, but where the bytes are UTF-8 anyway.
pub proof fn law_repair_does_no_harm(s: Seq<char>, candidates: Seq<Seq<char>>)
    ensures
        !needs_repair(s) ==> repaired(s, candidates) == s,
        needs_repair(s) && as_utf8(s) is None ==> text_score(repaired(s, candidates)) >= text_score(
            s,
        ) && (repaired(s, candidates) == s || candidates.contains(repaired(s, candidates))),
{
    lemma_best_text(s, candidates);
}

/// Plain ASCII text without control characters and with less than two question
/// marks needs no repair.
pub proof fn law_ascii_text_is_kept(s: Seq<char>)
    requires
        forall|i: int| 0 <= i < s.len() ==> (#[trigger] s[i]) as u32 >= 0x20 && (s[i] as u32) < 0x80,
        lost_count(s) < 2,
    ensures
        !needs_repair(s),
{
    lemma_no_beyond_ascii(s);
    assert(!has_char(s, |c: char| bad_control(c)));
}

proof fn lemma_no_beyond_ascii(s: Seq<char>)
    requires
        forall|i: int| 0 <= i < s.len() ==> ((#[trigger] s[i]) as u32) < 0x80,
    ensures
        beyond_ascii(s) == 0,
    decreases s.len(),
{
    if s.len() > 0 {
        let front = s.drop_last();
        assert forall|i: int| 0 <= i < front.len() implies ((#[trigger] front[i]) as u32) < 0x80 by {
            assert(front[i] == s[i]);
        }
        lemma_no_beyond_ascii(front);
        assert((s[s.len() - 1] as u32) < 0x80);
    }
}

/// Whether a text reads better than another one: by its score for each character, in
/// thousandths, and among texts that are alike in that by its score.
pub open spec fn reads_better(a: Seq<char>, b: Seq<char>) -> bool {
    let (x, y) = (text_rank(a), text_rank(b));
    x.0 > y.0 || (x.0 == y.0 && x.1 > y.1)
}

/// A text that needs a repair, and whose bytes are no clean UTF-8, becomes one of its other
/// readings where one is good enough: no other reading then reads better than the result,
/// and the result scores at least 10 more than the text. Where the best one scores less
/// than that, the text stays.
pub proof fn law_best_reading_is_taken(s: Seq<char>, candidates: Seq<Seq<char>>, k: int)
    requires
        needs_repair(s),
        as_utf8(s) is None,
        0 <= k < candidates.len(),
        reads_better(candidates[k], s),
        forall|i: int|
            0 <= i < candidates.len() ==> !reads_better(#[trigger] candidates[i], candidates[k]),
    ensures
        ({
            let r = repaired(s, candidates);
            &&& text_score(candidates[k]) >= text_score(s) + 10 ==> {
                &&& candidates.contains(r)
                &&& text_score(r) >= text_score(s) + 10
                &&& reads_better(r, s)
                &&& forall|i: int|
                    0 <= i < candidates.len() ==> !reads_better(#[trigger] candidates[i], r)
            }
            &&& text_score(candidates[k]) < text_score(s) + 10 ==> r == s
        }),
{
    lemma_best_text(s, candidates);
    let best = best_text(s, candidates);
    assert(!is_better(text_rank(candidates[k]), text_rank(best)));
    assert(best != s);
    assert(candidates.contains(best));
    let m = choose|m: int| 0 <= m < candidates.len() && candidates[m] == best;
    assert(!reads_better(candidates[m], candidates[k]));
}

/// A reading that is the only one to read better than a text by enough takes its place.
pub proof fn law_only_better_reading_is_taken(s: Seq<char>, reading: Seq<char>)
    requires
        needs_repair(s),
        as_utf8(s) is None,
        reads_better(reading, s),
        text_score(reading) >= text_score(s) + 10,
    ensures
        repaired(s, seq![reading]) == reading,
{
    assert(seq![reading].drop_last() =~= Seq::<Seq<char>>::empty());
    reveal_with_fuel(best_text, 2);
    assert(seq![reading].last() == reading);
}

/// Without another reading a text stays as it is, unless its bytes are clean UTF-8.
pub proof fn law_no_reading_no_repair(s: Seq<char>)
    requires
        as_utf8(s) is None,
    ensures
        repaired(s, Seq::empty()) == s,
{
}

/// The text that bytes stand for in Latin-1.
pub open spec fn latin1_text(bytes: Seq<u8>) -> Seq<char> {
    Seq::new(bytes.len(), |i: int| bytes[i] as char)
}

/// A clean text whose UTF-8 was read as Latin-1 comes back, wherever the damage shows.
pub proof fn law_misread_utf8_comes_back(text: Seq<char>, candidates: Seq<Seq<char>>)
    requires
        needs_repair(latin1_text(encode_utf8(text))),
        lost_count(text) == 0,
        forall|i: int| 0 <= i < text.len() ==> !bad_control(#[trigger] text[i]),
    ensures
        repaired(latin1_text(encode_utf8(text)), candidates) == text,
{
    let bytes = encode_utf8(text);
    let s = latin1_text(bytes);
    assert(latin1_bytes(s) =~= bytes);
    vstd::utf8::encode_utf8_valid_utf8(text);
    vstd::utf8::encode_utf8_decode_utf8(text);
    assert(is_clean(text));
    assert(is_latin1(s));
}

/// Of several readings of the bytes of a tag one is taken that none of the others reads
/// better than; without any, what can be read of the bytes is taken.
pub proof fn law_tag_is_its_best_reading(readings: Seq<Seq<char>>, lossy: Seq<char>)
    ensures
        readings.len() == 0 ==> chosen_reading(readings, lossy) == lossy,
        readings.len() > 0 ==> readings.contains(chosen_reading(readings, lossy)),
        forall|i: int|
            0 <= i < readings.len() ==> !reads_better(
                #[trigger] readings[i],
                chosen_reading(readings, lossy),
            ),
{
    if readings.len() > 0 {
        let rest = readings.drop_first();
        lemma_best_text(readings[0], rest);
        let r = chosen_reading(readings, lossy);
        if r != readings[0] {
            let k = choose|k: int| 0 <= k < rest.len() && rest[k] == r;
            assert(readings[k + 1] == r);
        }
        assert forall|i: int| 0 <= i < readings.len() implies !reads_better(
            #[trigger] readings[i],
            r,
        ) by {
            if i > 0 {
                assert(rest[i - 1] == readings[i]);
            }
        }
    }
}

/// The bytes of a tag: none are no text; UTF-8 is that text, repaired; others are the best
/// of their readings, or what can be read of them where there is none.
pub proof fn law_tag_bytes_are_read(
    bytes: Seq<u8>,
    candidates: Seq<Seq<char>>,
    readings: Seq<Seq<char>>,
)
    ensures
        bytes.len() == 0 ==> tag_text_of(bytes, candidates, readings).len() == 0,
        forall|text: Seq<char>|
            #![trigger encode_utf8(text)]
            text.len() > 0 && bytes == encode_utf8(text) && bytes.len() > 0 ==> tag_text_of(
                bytes,
                candidates,
                readings,
            ) == repaired(text, candidates),
        bytes.len() > 0 && !valid_utf8(bytes) && readings.len() > 0 ==> readings.contains(
            tag_text_of(bytes, candidates, readings),
        ),
{
    law_tag_is_its_best_reading(readings, lossy_utf8(bytes));
    assert forall|text: Seq<char>|
        #![trigger encode_utf8(text)]
        text.len() > 0 && bytes == encode_utf8(text) && bytes.len() > 0 implies tag_text_of(
        bytes,
        candidates,
        readings,
    ) == repaired(text, candidates) by {
        vstd::utf8::encode_utf8_valid_utf8(text);
        vstd::utf8::encode_utf8_decode_utf8(text);
    }
}

/// The score of a text is that of its parts together.
pub proof fn law_score_adds_up(a: Seq<char>, b: Seq<char>)
    ensures
        text_score(a + b) == text_score(a) + text_score(b),
    decreases b.len(),
{
    if b.len() == 0 {
        assert(a + b =~= a);
    } else {
        law_score_adds_up(a, b.drop_last());
        assert((a + b).drop_last() =~= a + b.drop_last());
    }
}

/// What each kind of character is worth in a text: Han characters most, then syllables,
/// letters and digits of ASCII, the rest of Latin-1 and wide marks, punctuation; the marks
/// of a wrong encoding cost, lost characters cost much, and control characters most.
pub proof fn law_characters_have_their_worth(c: char, n: nat)
    ensures
        ({
            let score = text_score(Seq::new(n, |i: int| c));
            let u = c as u32;
            &&& 0x4e00 <= u <= 0x9fff ==> score == 8 * n
            &&& 0x3041 <= u <= 0x30ff ==> score == 7 * n
            &&& 'a' <= c && c <= 'z' ==> score == 3 * n
            &&& 'A' <= c && c <= 'Z' ==> score == 3 * n
            &&& '0' <= c && c <= '9' ==> score == 3 * n
            &&& 0xc0 <= u <= 0xff && u != 0xd0 && u != 0xd2 ==> score == 2 * n
            &&& 0xff01 <= u <= 0xffef ==> score == 2 * n
            &&& c == '!' || c == '-' || c == '(' || c == '_' || c == '~' ==> score == n
            &&& c == ' ' || c == '\n' || c == '\t' ==> score == 0
            &&& 0xb8 <= u <= 0xbf || u == 0xd0 || u == 0xd2 ==> score == -6 * n
            &&& c == '?' || c == '\u{fffd}' ==> score == -40 * n
            &&& 0x80 <= u <= 0x9f || u < 9 ==> score == -60 * n
        }),
    decreases n,
{
    let s = Seq::new(n, |i: int| c);
    if n > 0 {
        law_characters_have_their_worth(c, (n - 1) as nat);
        assert(s.drop_last() =~= Seq::new((n - 1) as nat, |i: int| c));
        assert(s.last() == c);
        let w = char_score(c);
        assert(text_score(s) == text_score(s.drop_last()) + w);
    }
}

/// The rank of a text is its score for a thousand of the characters that are no white
/// space, rounded towards zero, and then its score.
pub proof fn law_rank_is_score_per_character(s: Seq<char>)
    ensures
        ({
            let n = s.filter(
                |c: char| !(c == ' ' || c == '\t' || c == '\n' || c == '\u{c}' || c == '\r'),
            ).len();
            let d = if n == 0 {
                1
            } else {
                n as int
            };
            let (per_thousand, score) = text_rank(s);
            &&& score == text_score(s)
            &&& score >= 0 ==> per_thousand * d <= score * 1000 < (per_thousand + 1) * d
            &&& score < 0 ==> (per_thousand - 1) * d < score * 1000 <= per_thousand * d
        }),
{
    let test = |c: char| !is_ascii_space(c);
    let other = |c: char| !(c == ' ' || c == '\t' || c == '\n' || c == '\u{c}' || c == '\r');
    assert(test =~= other);
    lemma_count_is_filter(s, test);
    let d = counted(s);
    let m = text_score(s) * 1000;
    let q = truncated(m, d);
    if m >= 0 {
        assert((m / d) * d <= m < (m / d + 1) * d) by (nonlinear_arith)
            requires
                d > 0,
        ;
    } else {
        let k = -m;
        assert((k / d) * d <= k < (k / d + 1) * d) by (nonlinear_arith)
            requires
                d > 0,
        ;
        assert((-(k / d)) * d == -((k / d) * d)) by (nonlinear_arith);
        assert((-(k / d) - 1) * d == -((k / d + 1) * d)) by (nonlinear_arith);
    }
}

proof fn lemma_count_is_filter(s: Seq<char>, test: spec_fn(char) -> bool)
    ensures
        count_of(s, test) == s.filter(test).len(),
    decreases s.len(),
{
    reveal(Seq::filter);
    if s.len() > 0 {
        lemma_count_is_filter(s.drop_last(), test);
    }
}

/// Text of Chinese or Japanese that shows no damage is never touched.
pub proof fn law_wide_text_is_kept(s: Seq<char>, k: int, candidates: Seq<Seq<char>>)
    requires
        0 <= k < s.len(),
        0x4e00 <= s[k] as u32 <= 0x9fff,
        forall|i: int| 0 <= i < s.len() ==> (#[trigger] s[i]) as u32 >= 0xa0 || (0x20 <= s[i] as u32
            && (s[i] as u32) < 0x7f),
        s.filter(|c: char| c == '?' || c == '\u{fffd}').len() < 2,
    ensures
        repaired(s, candidates) == s,
{
    let test = |c: char| lost(c);
    assert(test =~= |c: char| c == '?' || c == '\u{fffd}');
    lemma_count_is_filter(s, test);
    assert(cjk(s[k]));
    let wide = |c: char| cjk(c);
    assert(wide(s[k]));
    assert(has_char(s, wide));
    assert(!has_char(s, |c: char| bad_control(c)));
}

/// A text needs a repair where it holds a control character that no text holds, or two
/// characters that stand for lost ones, or two that are not ASCII and a mark of the wrong
/// encoding, with no wide character to speak against it.
pub proof fn law_damage_is_seen(s: Seq<char>, i: int, j: int)
    requires
        0 <= i < j < s.len(),
    ensures
        s[i] as u32 == 0 || 0x80 <= s[i] as u32 <= 0x9f ==> needs_repair(s),
        (s[i] == '\u{fffd}' || s[i] == '?') && (s[j] == '\u{fffd}' || s[j] == '?') ==> needs_repair(
            s,
        ),
        s[i] as u32 >= 0x80 && 0xb8 <= s[j] as u32 <= 0xbf && (forall|k: int|
            0 <= k < s.len() ==> ((#[trigger] s[k]) as u32) < 0x3000) ==> needs_repair(s),
{
    let control = |c: char| bad_control(c);
    if s[i] as u32 == 0 || 0x80 <= s[i] as u32 <= 0x9f {
        assert(control(s[i]));
        assert(has_char(s, control));
    }
    lemma_two_are_counted(s, |c: char| lost(c), i, j);
    lemma_two_are_counted(s, |c: char| c as u32 >= 0x80, i, j);
    if s[i] as u32 >= 0x80 && 0xb8 <= s[j] as u32 <= 0xbf && (forall|k: int|
        0 <= k < s.len() ==> ((#[trigger] s[k]) as u32) < 0x3000) {
        let strong = |c: char| strong_marker(c);
        lemma_strong_marker(s[j]);
        assert(strong(s[j]));
        assert(has_char(s, strong));
        assert(!has_char(s, |c: char| cjk(c)));
    }
}

proof fn lemma_strong_marker(c: char)
    requires
        0xb8 <= c as u32 <= 0xbf,
    ensures
        strong_marker(c),
{
}

proof fn lemma_two_are_counted(s: Seq<char>, test: spec_fn(char) -> bool, i: int, j: int)
    requires
        0 <= i < j < s.len(),
    ensures
        test(s[i]) && test(s[j]) ==> count_of(s, test) >= 2,
        test(s[i]) ==> count_of(s, test) >= 1,
    decreases s.len(),
{
    lemma_one_is_counted(s, test, i);
    if j < s.len() - 1 {
        lemma_two_are_counted(s.drop_last(), test, i, j);
    } else {
        lemma_one_is_counted(s.drop_last(), test, i);
    }
}

proof fn lemma_one_is_counted(s: Seq<char>, test: spec_fn(char) -> bool, i: int)
    requires
        0 <= i < s.len(),
    ensures
        test(s[i]) ==> count_of(s, test) >= 1,
    decreases s.len(),
{
    if i < s.len() - 1 {
        lemma_one_is_counted(s.drop_last(), test, i);
    }
}

/// A text of characters that are not ASCII, none of them wide, needs a repair where it has
/// two of them or more; one with a single such character and no other damage does not, nor
/// does one in which they are less than half of what means something.
pub proof fn law_foreign_letters_call_for_a_repair(s: Seq<char>)
    requires
        s.len() >= 2,
    ensures
        (forall|i: int|
            0 <= i < s.len() ==> 0x80 <= (#[trigger] s[i]) as u32 && (s[i] as u32) < 0x3000)
            ==> needs_repair(s),
        beyond_ascii(s) < 2 && lost_count(s) < 2 && (forall|i: int|
            0 <= i < s.len() ==> !bad_control(#[trigger] s[i])) ==> !needs_repair(s),
        beyond_ascii(s) * 2 < meaningful(s) && lost_count(s) < 2 && (forall|i: int|
            0 <= i < s.len() ==> !bad_control(#[trigger] s[i]) && !strong_marker(s[i]))
            ==> !needs_repair(s),
{
    if forall|i: int| 0 <= i < s.len() ==> 0x80 <= (#[trigger] s[i]) as u32 && (s[i] as u32) < 0x3000 {
        lemma_count_of_all(s, |c: char| c as u32 >= 0x80);
        let means = |c: char| !(is_ascii_space(c) || ('0' <= c && c <= '9') || is_ascii_mark(c));
        assert forall|i: int| 0 <= i < s.len() implies means(#[trigger] s[i]) by {
            lemma_beyond_ascii_means(s[i]);
        }
        lemma_count_of_all(s, means);
        assert(!has_char(s, |c: char| cjk(c)));
        assert(beyond_ascii(s) == s.len());
        assert(meaningful(s) == s.len());
    }
}

proof fn lemma_beyond_ascii_means(c: char)
    requires
        c as u32 >= 0x80,
    ensures
        !(is_ascii_space(c) || ('0' <= c && c <= '9') || is_ascii_mark(c)),
{
}

proof fn lemma_count_of_all(s: Seq<char>, test: spec_fn(char) -> bool)
    requires
        forall|i: int| 0 <= i < s.len() ==> test(#[trigger] s[i]),
    ensures
        count_of(s, test) == s.len(),
    decreases s.len(),
{
    if s.len() > 0 {
        let front = s.drop_last();
        assert forall|i: int| 0 <= i < front.len() implies test(#[trigger] front[i]) by {
            assert(front[i] == s[i]);
        }
        lemma_count_of_all(front, test);
        assert(test(s[s.len() - 1]));
    }
}

} // verus!
