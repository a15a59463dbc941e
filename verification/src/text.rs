//! Text as sequences of characters: trimming, splitting, searching and decimal numbers.

use vstd::prelude::*;

verus! {

/// `String::push` appends the character to the end of the string.
pub assume_specification[ String::push ](s: &mut String, c: char)
    ensures
        final(s)@ == old(s)@.push(c),
;

/// The characters with the Unicode property White_Space.
pub open spec fn is_white_space(c: char) -> bool {
    ||| 0x09 <= c as u32 <= 0x0d
    ||| c as u32 == 0x20
    ||| c as u32 == 0x85
    ||| c as u32 == 0xa0
    ||| c as u32 == 0x1680
    ||| 0x2000 <= c as u32 <= 0x200a
    ||| c as u32 == 0x2028
    ||| c as u32 == 0x2029
    ||| c as u32 == 0x202f
    ||| c as u32 == 0x205f
    ||| c as u32 == 0x3000
}

/// An ASCII letter in lower case; any other character as it is.
pub open spec fn lower_char(c: char) -> char {
    if 'A' <= c && c <= 'Z' {
        ((c as u32 + 32) as u32) as char
    } else {
        c
    }
}

/// The text with its ASCII letters in lower case.
pub open spec fn lower(s: Seq<char>) -> Seq<char> {
    s.map_values(|c: char| lower_char(c))
}

/// The text with every `from` replaced by `to`.
pub open spec fn replaced(s: Seq<char>, from: char, to: char) -> Seq<char> {
    s.map_values(|c: char| if c == from { to } else { c })
}

/// The text without the white space at its front.
pub open spec fn trim_start(s: Seq<char>) -> Seq<char>
    decreases s.len(),
{
    if s.len() > 0 && is_white_space(s[0]) {
        trim_start(s.drop_first())
    } else {
        s
    }
}

/// The text without the white space at its end.
pub open spec fn trim_end(s: Seq<char>) -> Seq<char>
    decreases s.len(),
{
    if s.len() > 0 && is_white_space(s.last()) {
        trim_end(s.drop_last())
    } else {
        s
    }
}

/// The text without the white space around it.
pub open spec fn trimmed(s: Seq<char>) -> Seq<char> {
    trim_end(trim_start(s))
}

/// The first position at or after `from` where `c` stands, or the length.
pub open spec fn find_from(s: Seq<char>, c: char, from: int) -> int
    decreases s.len() - from,
{
    if from >= s.len() {
        s.len() as int
    } else if s[from] == c {
        from
    } else {
        find_from(s, c, from + 1)
    }
}

/// The decimal digits of `n`, without leading zeros.
pub open spec fn decimal(n: nat) -> Seq<char>
    decreases n,
{
    if n < 10 {
        seq![digit_char(n)]
    } else {
        decimal(n / 10).push(digit_char(n % 10))
    }
}

/// The character of a decimal digit.
pub open spec fn digit_char(d: nat) -> char {
    (48 + d) as char
}

/// Whether `c` has the Unicode property White_Space.
pub fn char_is_white_space(c: char) -> (r: bool)
    ensures
        r == is_white_space(c),
{
    let n: u32 = c as u32;
    (0x09 <= n && n <= 0x0d) || n == 0x20 || n == 0x85 || n == 0xa0 || n == 0x1680 || (0x2000 <= n
        && n <= 0x200a) || n == 0x2028 || n == 0x2029 || n == 0x202f || n == 0x205f || n == 0x3000
}

/// The characters of a string.
pub fn to_chars(s: &str) -> (r: Vec<char>)
    ensures
        r@ == s@,
{
    let mut r: Vec<char> = Vec::new();
    for c in it: s.chars()
        invariant
            r@ == s@.take(it.index() as int),
            it.seq() == s@,
    {
        r.push(c);
    }
    assert(s@.take(s@.len() as int) =~= s@);
    r
}

/// The string of the given characters.
pub fn from_chars(chars: &[char]) -> (r: String)
    ensures
        r@ == chars@,
{
    let mut r = String::new();
    let mut i: usize = 0;
    while i < chars.len()
        invariant
            i <= chars@.len(),
            r@ == chars@.take(i as int),
        decreases chars@.len() - i,
    {
        r.push(chars[i]);
        i += 1;
    }
    assert(chars@.take(chars@.len() as int) =~= chars@);
    r
}

/// Appends `tail` to `out`.
pub fn push_all(out: &mut Vec<char>, tail: &str)
    ensures
        final(out)@ == old(out)@ + tail@,
{
    for c in it: tail.chars()
        invariant
            out@ == old(out)@ + tail@.take(it.index() as int),
            it.seq() == tail@,
    {
        out.push(c);
    }
    assert(tail@.take(tail@.len() as int) =~= tail@);
}

/// Appends the decimal digits of `n` to `out`.
pub fn push_decimal(out: &mut Vec<char>, n: u128)
    ensures
        final(out)@ == old(out)@ + decimal(n as nat),
    decreases n,
{
    if n >= 10 {
        push_decimal(out, n / 10);
    }
    let d: u8 = (n % 10) as u8;
    out.push((48u8 + d) as char);
    assert(out@ =~= old(out)@ + decimal(n as nat));
}

/// The decimal digits of `n` as a string.
pub fn decimal_string(n: u128) -> (r: String)
    ensures
        r@ == decimal(n as nat),
{
    let mut out: Vec<char> = Vec::new();
    push_decimal(&mut out, n);
    from_chars(out.as_slice())
}

/// The characters of `chars` from `from` to `to` as a string.
pub fn slice_text(chars: &Vec<char>, from: usize, to: usize) -> (r: String)
    requires
        from <= to <= chars@.len(),
    ensures
        r@ == chars@.subrange(from as int, to as int),
{
    from_chars(vstd::slice::slice_subrange(chars.as_slice(), from, to))
}

/// Where the text without the white space around it lies.
pub fn trim_range(chars: &Vec<char>) -> (r: (usize, usize))
    ensures
        r.0 <= r.1 <= chars@.len(),
        chars@.subrange(r.0 as int, r.1 as int) == trimmed(chars@),
{
    let n: usize = chars.len();
    let mut from: usize = 0;
    assert(chars@.subrange(0, n as int) =~= chars@);
    while from < n && char_is_white_space(chars[from])
        invariant
            n == chars@.len(),
            from <= n,
            trim_start(chars@) == trim_start(chars@.subrange(from as int, n as int)),
        decreases n - from,
    {
        assert(chars@.subrange(from as int, n as int).drop_first() =~= chars@.subrange(
            from + 1,
            n as int,
        ));
        from += 1;
    }
    let ghost front = chars@.subrange(from as int, n as int);
    assert(trim_start(front) == front);
    let mut to: usize = n;
    while to > from && char_is_white_space(chars[to - 1])
        invariant
            n == chars@.len(),
            from <= to <= n,
            trim_end(front) == trim_end(chars@.subrange(from as int, to as int)),
        decreases to - from,
    {
        assert(chars@.subrange(from as int, to as int).drop_last() =~= chars@.subrange(
            from as int,
            to - 1,
        ));
        to -= 1;
    }
    (from, to)
}

/// The text without the white space around it.
pub fn trim(s: &str) -> (r: String)
    ensures
        r@ == trimmed(s@),
{
    let chars = to_chars(s);
    let (from, to) = trim_range(&chars);
    slice_text(&chars, from, to)
}

/// An ASCII letter in lower case; any other character as it is.
pub fn to_lower_char(c: char) -> (r: char)
    ensures
        r == lower_char(c),
{
    if 'A' <= c && c <= 'Z' {
        (c as u8 + 32) as char
    } else {
        c
    }
}

/// The text with its ASCII letters in lower case.
pub fn to_lower(s: &str) -> (r: String)
    ensures
        r@ == lower(s@),
{
    let mut r = String::new();
    for c in it: s.chars()
        invariant
            r@ == lower(s@).take(it.index() as int),
            it.seq() == s@,
    {
        r.push(to_lower_char(c));
        assert(r@ =~= lower(s@).take(it.index() + 1));
    }
    assert(lower(s@).take(s@.len() as int) =~= lower(s@));
    r
}

/// The text with every `from` replaced by `to`.
pub fn replace_char(s: &str, from: char, to: char) -> (r: String)
    ensures
        r@ == replaced(s@, from, to),
{
    let mut r = String::new();
    for c in it: s.chars()
        invariant
            r@ == replaced(s@, from, to).take(it.index() as int),
            it.seq() == s@,
    {
        r.push(
            if c == from {
                to
            } else {
                c
            },
        );
        assert(r@ =~= replaced(s@, from, to).take(it.index() + 1));
    }
    assert(replaced(s@, from, to).take(s@.len() as int) =~= replaced(s@, from, to));
    r
}

/// Whether `part` stands in `s` at `at`.
pub open spec fn occurs_at(s: Seq<char>, part: Seq<char>, at: int) -> bool {
    0 <= at && at + part.len() <= s.len() && s.subrange(at, at + part.len()) == part
}

/// Whether `part` stands in `s` at `at`.
pub fn stands_at(s: &Vec<char>, part: &Vec<char>, at: usize) -> (r: bool)
    ensures
        r == occurs_at(s@, part@, at as int),
{
    let n: usize = s.len();
    if part.len() > n || at > n - part.len() {
        return false;
    }
    let mut i: usize = 0;
    while i < part.len()
        invariant
            i <= part@.len(),
            n == s@.len(),
            at + part@.len() <= s@.len(),
            forall|k: int| 0 <= k < i ==> s@[at + k] == part@[k],
        decreases part@.len() - i,
    {
        if s[at + i] != part[i] {
            assert(s@.subrange(at as int, at + part@.len())[i as int] != part@[i as int]);
            return false;
        }
        i += 1;
    }
    assert(s@.subrange(at as int, at + part@.len()) =~= part@);
    true
}

/// Whether two texts are equal.
pub fn same_text(a: &str, b: &str) -> (r: bool)
    ensures
        r == (a@ == b@),
{
    let left = to_chars(a);
    let right = to_chars(b);
    if left.len() != right.len() {
        return false;
    }
    let r: bool = stands_at(&left, &right, 0);
    assert(left@.subrange(0, left@.len() as int) =~= left@);
    r
}

/// Whether `s` starts with `prefix`.
pub fn starts_with(s: &str, prefix: &str) -> (r: bool)
    ensures
        r == occurs_at(s@, prefix@, 0),
{
    stands_at(&to_chars(s), &to_chars(prefix), 0)
}

/// The last place of `c`, or minus one.
pub open spec fn last_place(s: Seq<char>, c: char) -> int
    decreases s.len(),
{
    if s.len() == 0 {
        -1
    } else if s.last() == c {
        s.len() - 1
    } else {
        last_place(s.drop_last(), c)
    }
}

/// The last place of a character is that of this character, and the last one.
pub proof fn lemma_last_place(s: Seq<char>, c: char)
    ensures
        -1 <= last_place(s, c) < s.len(),
        last_place(s, c) >= 0 ==> s[last_place(s, c)] == c,
        forall|i: int| last_place(s, c) < i < s.len() ==> s[i] != c,
    decreases s.len(),
{
    if s.len() > 0 && s.last() != c {
        lemma_last_place(s.drop_last(), c);
        assert forall|i: int| last_place(s, c) < i < s.len() implies s[i] != c by {
            if i < s.len() - 1 {
                assert(s.drop_last()[i] == s[i]);
            }
        }
    }
}

/// The last place of `c`.
pub fn rfind(s: &Vec<char>, c: char) -> (r: Option<usize>)
    ensures
        match r {
            Some(i) => i == last_place(s@, c),
            None => last_place(s@, c) == -1,
        },
        r matches Some(i) ==> i < s@.len(),
{
    let mut n: usize = s.len();
    assert(s@.take(n as int) =~= s@);
    while n > 0
        invariant
            n <= s@.len(),
            last_place(s@, c) == last_place(s@.take(n as int), c),
        decreases n,
    {
        if s[n - 1] == c {
            return Some(n - 1);
        }
        assert(s@.take(n as int).drop_last() =~= s@.take(n - 1));
        n -= 1;
    }
    None
}

/// The first place of `c` at or after `from`.
pub fn find(s: &Vec<char>, c: char, from: usize) -> (r: Option<usize>)
    requires
        from <= s@.len(),
    ensures
        match r {
            Some(i) => i == find_from(s@, c, from as int) && i < s@.len() && from <= i,
            None => find_from(s@, c, from as int) == s@.len(),
        },
{
    let mut i: usize = from;
    while i < s.len()
        invariant
            from <= i <= s@.len(),
            find_from(s@, c, from as int) == find_from(s@, c, i as int),
        decreases s@.len() - i,
    {
        if s[i] == c {
            return Some(i);
        }
        i += 1;
    }
    None
}

/// The first place of `c` is that of this character, and the first one.
pub proof fn lemma_find_from(s: Seq<char>, c: char, from: int)
    requires
        0 <= from <= s.len(),
    ensures
        from <= find_from(s, c, from) <= s.len(),
        find_from(s, c, from) < s.len() ==> s[find_from(s, c, from)] == c,
        forall|i: int| from <= i < find_from(s, c, from) ==> s[i] != c,
    decreases s.len() - from,
{
    if from < s.len() && s[from] != c {
        lemma_find_from(s, c, from + 1);
    }
}

/// The two texts one after the other.
pub fn concat(a: &str, b: &str) -> (r: String)
    ensures
        r@ == a@ + b@,
{
    let mut r = a.to_owned();
    r.append(b);
    r
}

/// Trimmed text has no white space to trim.
pub proof fn law_trim_is_idempotent(s: Seq<char>)
    ensures
        trimmed(trimmed(s)) == trimmed(s),
{
    lemma_trim_start(s);
    lemma_trim_end(trim_start(s));
    let t = trimmed(s);
    if t.len() > 0 {
        assert(t[0] == trim_start(s)[0]);
    }
}

proof fn lemma_trim_start(s: Seq<char>)
    ensures
        trim_start(s).len() > 0 ==> !is_white_space(trim_start(s)[0]),
    decreases s.len(),
{
    if s.len() > 0 && is_white_space(s[0]) {
        lemma_trim_start(s.drop_first());
    }
}

proof fn lemma_trim_end(s: Seq<char>)
    ensures
        trim_end(s).is_prefix_of(s),
        trim_end(s).len() > 0 ==> !is_white_space(trim_end(s).last()),
    decreases s.len(),
{
    if s.len() > 0 && is_white_space(s.last()) {
        lemma_trim_end(s.drop_last());
    }
}

/// The first place at or after `from` where `part` stands, or the length plus
/// one where it stands nowhere.
pub open spec fn find_text_from(s: Seq<char>, part: Seq<char>, from: int) -> int
    decreases s.len() + 1 - from,
{
    if from > s.len() {
        s.len() as int + 1
    } else if occurs_at(s, part, from) {
        from
    } else {
        find_text_from(s, part, from + 1)
    }
}

/// The text before and the text behind the first place where `part` stands.
pub open spec fn split_once_at(s: Seq<char>, part: Seq<char>) -> Option<(Seq<char>, Seq<char>)> {
    let at = find_text_from(s, part, 0);
    if at > s.len() {
        None
    } else {
        Some((s.take(at), s.skip(at + part.len())))
    }
}

/// The first place where `part` stands.
pub fn find_text(s: &Vec<char>, part: &Vec<char>) -> (r: Option<usize>)
    ensures
        match r {
            Some(i) => i == find_text_from(s@, part@, 0) && i + part@.len() <= s@.len(),
            None => find_text_from(s@, part@, 0) == s@.len() + 1,
        },
{
    let n: usize = s.len();
    let mut i: usize = 0;
    loop
        invariant
            n == s@.len(),
            i <= n,
            find_text_from(s@, part@, 0) == find_text_from(s@, part@, i as int),
        decreases n - i,
    {
        if stands_at(s, part, i) {
            return Some(i);
        }
        if i == n {
            assert(find_text_from(s@, part@, n + 1) == n + 1);
            return None;
        }
        i += 1;
    }
}

/// The text before and the text behind the first place where `part` stands.
pub fn split_once(s: &str, part: &str) -> (r: Option<(String, String)>)
    ensures
        r is Some <==> split_once_at(s@, part@) is Some,
        r matches Some((a, b)) ==> split_once_at(s@, part@) == Some((a@, b@)),
{
    let chars = to_chars(s);
    let wanted = to_chars(part);
    let n: usize = chars.len();
    match find_text(&chars, &wanted) {
        Some(at) => {
            let a = slice_text(&chars, 0, at);
            let b = slice_text(&chars, at + wanted.len(), n);
            assert(a@ =~= s@.take(at as int));
            assert(b@ =~= s@.skip(at + part@.len()));
            Some((a, b))
        },
        None => None,
    }
}

/// Whether `c` is an ASCII digit.
pub open spec fn is_digit(c: char) -> bool {
    '0' <= c && c <= '9'
}

/// The number that some digits stand for.
pub open spec fn digits_value(s: Seq<char>) -> nat
    decreases s.len(),
{
    if s.len() == 0 {
        0
    } else {
        digits_value(s.drop_last()) * 10 + (s.last() as u32 - 48) as nat
    }
}

/// How many digits the text starts with.
pub open spec fn leading_digits(s: Seq<char>) -> nat
    decreases s.len(),
{
    if s.len() > 0 && is_digit(s[0]) {
        1 + leading_digits(s.drop_first())
    } else {
        0
    }
}

proof fn lemma_leading_digits(s: Seq<char>, n: int)
    requires
        0 <= n <= s.len(),
        forall|i: int| 0 <= i < n ==> is_digit(#[trigger] s[i]),
        n < s.len() ==> !is_digit(s[n]),
    ensures
        leading_digits(s) == n,
    decreases n,
{
    if n > 0 {
        let rest = s.drop_first();
        assert(is_digit(s[0]));
        assert forall|i: int| 0 <= i < n - 1 implies is_digit(#[trigger] rest[i]) by {
            assert(is_digit(s[i + 1]));
        }
        lemma_leading_digits(rest, n - 1);
    }
}

/// The value of the digits that `chars` has from `from` to `to`, or `None` where
/// it exceeds `limit`.
pub fn parse_digits(chars: &Vec<char>, from: usize, to: usize, limit: u64) -> (r: Option<u64>)
    requires
        from <= to <= chars@.len(),
        forall|i: int| from <= i < to ==> is_digit(#[trigger] chars@[i]),
    ensures
        match r {
            Some(n) => n == digits_value(chars@.subrange(from as int, to as int)) && n <= limit,
            None => digits_value(chars@.subrange(from as int, to as int)) > limit,
        },
{
    let mut n: u64 = 0;
    let mut i: usize = from;
    let ghost all = chars@.subrange(from as int, to as int);
    assert(chars@.subrange(from as int, from as int).len() == 0);
    while i < to
        invariant
            from <= i <= to <= chars@.len(),
            all == chars@.subrange(from as int, to as int),
            forall|k: int| from <= k < to ==> is_digit(#[trigger] chars@[k]),
            n == digits_value(chars@.subrange(from as int, i as int)),
            n <= limit,
        decreases to - i,
    {
        let c: char = chars[i];
        assert(is_digit(chars@[i as int]));
        let d: u64 = c as u64 - 48;
        proof {
            let longer = chars@.subrange(from as int, i + 1);
            assert(longer.drop_last() =~= chars@.subrange(from as int, i as int));
            assert(longer =~= all.take(i + 1 - from));
            lemma_digits_value_monotonic(all, i + 1 - from);
        }
        let next: u128 = n as u128 * 10 + d as u128;
        if next > limit as u128 {
            return None;
        }
        n = next as u64;
        i += 1;
    }
    Some(n)
}

proof fn lemma_digits_value_monotonic(s: Seq<char>, n: int)
    requires
        0 <= n <= s.len(),
        forall|i: int| 0 <= i < s.len() ==> is_digit(#[trigger] s[i]),
    ensures
        digits_value(s.take(n)) <= digits_value(s),
    decreases s.len() - n,
{
    if n < s.len() {
        lemma_digits_value_monotonic(s, n + 1);
        assert(s.take(n + 1).drop_last() =~= s.take(n));
        assert(is_digit(s[n]));
    } else {
        assert(s.take(n) =~= s);
    }
}

/// How many digits `chars` has from `from` on, up to `to`.
pub fn count_digits(chars: &Vec<char>, from: usize, to: usize) -> (r: usize)
    requires
        from <= to <= chars@.len(),
    ensures
        r == leading_digits(chars@.subrange(from as int, to as int)),
        r <= to - from,
        forall|i: int| from <= i < from + r ==> is_digit(#[trigger] chars@[i]),
{
    let mut i: usize = from;
    while i < to && '0' <= chars[i] && chars[i] <= '9'
        invariant
            from <= i <= to <= chars@.len(),
            forall|k: int| from <= k < i ==> is_digit(#[trigger] chars@[k]),
        decreases to - i,
    {
        i += 1;
    }
    proof {
        let s = chars@.subrange(from as int, to as int);
        assert forall|k: int| 0 <= k < i - from implies is_digit(#[trigger] s[k]) by {
            assert(is_digit(chars@[from + k]));
        }
        lemma_leading_digits(s, i - from);
    }
    i - from
}

/// The digits of a number stand for that number.
pub proof fn law_decimal_round_trips(n: nat)
    ensures
        digits_value(decimal(n)) == n,
        decimal(n).len() > 0,
        forall|i: int| 0 <= i < decimal(n).len() ==> is_digit(#[trigger] decimal(n)[i]),
    decreases n,
{
    if n < 10 {
        assert(decimal(n).drop_last() =~= seq![]);
        assert(digits_value(decimal(n).drop_last()) == 0);
        assert(decimal(n).last() == digit_char(n));
    } else {
        law_decimal_round_trips(n / 10);
        assert(decimal(n).drop_last() =~= decimal(n / 10));
        assert(decimal(n).last() == digit_char(n % 10));
        assert forall|i: int| 0 <= i < decimal(n).len() implies is_digit(
            #[trigger] decimal(n)[i],
        ) by {
            if i < decimal(n / 10).len() {
                assert(decimal(n)[i] == decimal(n / 10)[i]);
            }
        }
    }
}

/// The pieces of the text from `from` on, between the places of `c`.
pub open spec fn pieces_from(s: Seq<char>, c: char, from: int) -> Seq<Seq<char>>
    decreases s.len() + 1 - from,
{
    if from < 0 || from > s.len() {
        seq![]
    } else {
        let end = find_from(s, c, from);
        if end < from || end >= s.len() {
            seq![s.subrange(from, s.len() as int)]
        } else {
            seq![s.subrange(from, end)] + pieces_from(s, c, end + 1)
        }
    }
}

/// The pieces of a text between the places of `c`.
pub open spec fn pieces(s: Seq<char>, c: char) -> Seq<Seq<char>> {
    pieces_from(s, c, 0)
}

/// The pieces of a text between the places of `c`.
pub fn split(s: &str, c: char) -> (r: Vec<String>)
    ensures
        r@.map_values(|t: String| t@) == pieces(s@, c),
{
    let chars = to_chars(s);
    let n: usize = chars.len();
    let mut r: Vec<String> = Vec::new();
    let mut from: usize = 0;
    let mut done: bool = false;
    let ghost mut views: Seq<Seq<char>> = seq![];
    assert(views + pieces_from(s@, c, 0) =~= pieces(s@, c));
    while !done
        invariant
            chars@ == s@,
            n == s@.len(),
            !done ==> from <= n,
            views =~= r@.map_values(|t: String| t@),
            !done ==> views + pieces_from(s@, c, from as int) == pieces(s@, c),
            done ==> views == pieces(s@, c),
        decreases (if done {
            0int
        } else {
            n + 1 - from
        }),
    {
        proof {
            lemma_find_from(s@, c, from as int);
        }
        let found = find(&chars, c, from);
        let end: usize = match found {
            Some(i) => i,
            None => n,
        };
        let piece = slice_text(&chars, from, end);
        let ghost rest = if end < n {
            pieces_from(s@, c, end + 1)
        } else {
            seq![]
        };
        assert(pieces_from(s@, c, from as int) =~= seq![piece@] + rest);
        proof {
            assert(views.push(piece@) + rest =~= views + (seq![piece@] + rest));
            views = views.push(piece@);
        }
        r.push(piece);
        assert(views =~= r@.map_values(|t: String| t@));
        if end < n {
            from = end + 1;
        } else {
            assert(views + rest =~= views);
            done = true;
        }
    }
    r
}

/// Some pieces with `c` between them.
pub open spec fn joined_by(parts: Seq<Seq<char>>, c: char) -> Seq<char>
    decreases parts.len(),
{
    if parts.len() == 0 {
        seq![]
    } else if parts.len() == 1 {
        parts[0]
    } else {
        joined_by(parts.drop_last(), c).push(c) + parts.last()
    }
}

/// Some pieces with `c` between them.
pub fn join(parts: &Vec<String>, c: char) -> (r: String)
    ensures
        r@ == joined_by(parts@.map_values(|t: String| t@), c),
{
    let ghost views = parts@.map_values(|t: String| t@);
    let mut r = String::new();
    let mut i: usize = 0;
    while i < parts.len()
        invariant
            i <= parts@.len(),
            views == parts@.map_values(|t: String| t@),
            r@ == joined_by(views.take(i as int), c),
        decreases parts@.len() - i,
    {
        proof {
            assert(views.take(i + 1).drop_last() =~= views.take(i as int));
            assert(views.take(i + 1).last() == parts@[i as int]@);
        }
        if i > 0 {
            r.push(c);
        }
        r.append(parts[i].as_str());
        assert(r@ =~= joined_by(views.take(i + 1), c));
        i += 1;
    }
    assert(views.take(parts@.len() as int) =~= views);
    r
}

/// The number that a text stands for: digits behind an optional sign, between
/// the limits of 32 bits.
pub open spec fn i32_value(s: Seq<char>) -> Option<int> {
    let signed = s.len() > 0 && (s[0] == '-' || s[0] == '+');
    let digits = if signed {
        s.drop_first()
    } else {
        s
    };
    let n = digits_value(digits) as int;
    let value = if signed && s[0] == '-' {
        -n
    } else {
        n
    };
    if digits.len() == 0 || leading_digits(digits) < digits.len() || value > i32::MAX || value
        < i32::MIN {
        None
    } else {
        Some(value)
    }
}

/// The number that a text stands for.
pub fn parse_i32(s: &str) -> (r: Option<i32>)
    ensures
        r is Some <==> i32_value(s@) is Some,
        r matches Some(n) ==> Some(n as int) == i32_value(s@),
{
    let chars = to_chars(s);
    let n: usize = chars.len();
    let signed: bool = n > 0 && (chars[0] == '-' || chars[0] == '+');
    let negative: bool = signed && chars[0] == '-';
    let from: usize = if signed {
        1
    } else {
        0
    };
    let count: usize = count_digits(&chars, from, n);
    assert(signed ==> chars@.subrange(1, n as int) =~= s@.drop_first());
    assert(!signed ==> chars@.subrange(0, n as int) =~= s@);
    if from == n || count < n - from {
        return None;
    }
    let limit: u64 = if negative {
        0x8000_0000
    } else {
        0x7fff_ffff
    };
    match parse_digits(&chars, from, n, limit) {
        Some(v) => if negative {
            Some((-(v as i64)) as i32)
        } else {
            Some(v as i32)
        },
        None => None,
    }
}

/// Whether `part` stands in `s` at `at`, with nothing but white space around it.
pub open spec fn stands_in_space(s: Seq<char>, part: Seq<char>, at: int) -> bool {
    &&& 0 <= at && at + part.len() <= s.len()
    &&& part == s.subrange(at, at + part.len())
    &&& forall|i: int|
        0 <= i < at || at + part.len() <= i < s.len() ==> is_white_space(#[trigger] s[i])
}

/// Trimming takes white space away from both ends, all of it and nothing else.
pub proof fn law_trim_takes_the_space_around(s: Seq<char>)
    ensures
        exists|at: int| #[trigger] stands_in_space(s, trimmed(s), at),
        trimmed(s).len() > 0 ==> !is_white_space(trimmed(s)[0]) && !is_white_space(
            trimmed(s).last(),
        ),
        s.len() > 0 && !is_white_space(s[0]) && !is_white_space(s.last()) ==> trimmed(s) == s,
{
    let front = trim_start(s);
    lemma_trim_start_cut(s);
    lemma_trim_end_cut(front);
    lemma_trim_start(s);
    lemma_trim_end(front);
    let from = s.len() - front.len();
    let part = trimmed(s);
    assert(part =~= s.subrange(from, from + part.len()));
    assert forall|i: int| 0 <= i < from || from + part.len() <= i < s.len() implies is_white_space(
        #[trigger] s[i],
    ) by {
        if i >= from {
            assert(front[i - from] == s[i]);
        }
    }
    assert(stands_in_space(s, part, from));
    if part.len() > 0 {
        assert(part[0] == front[0]);
    }
}

/// A text without space at its ends stays as it is.
pub proof fn law_tight_text_is_not_trimmed(s: Seq<char>)
    requires
        s.len() > 0,
        !is_white_space(s[0]),
        !is_white_space(s.last()),
    ensures
        trimmed(s) == s,
{
}

proof fn lemma_trim_start_cut(s: Seq<char>)
    ensures
        trim_start(s).len() <= s.len(),
        trim_start(s) == s.skip(s.len() - trim_start(s).len()),
        forall|i: int| 0 <= i < s.len() - trim_start(s).len() ==> is_white_space(#[trigger] s[i]),
    decreases s.len(),
{
    if s.len() > 0 && is_white_space(s[0]) {
        let rest = s.drop_first();
        lemma_trim_start_cut(rest);
        let n = trim_start(rest).len();
        assert(s.skip(s.len() - n) =~= rest.skip(rest.len() - n));
        assert forall|i: int| 0 <= i < s.len() - n implies is_white_space(#[trigger] s[i]) by {
            if i > 0 {
                assert(rest[i - 1] == s[i]);
            }
        }
    } else {
        assert(s.skip(0) =~= s);
    }
}

proof fn lemma_trim_end_cut(s: Seq<char>)
    ensures
        trim_end(s).len() <= s.len(),
        trim_end(s) == s.take(trim_end(s).len() as int),
        forall|i: int| trim_end(s).len() <= i < s.len() ==> is_white_space(#[trigger] s[i]),
    decreases s.len(),
{
    if s.len() > 0 && is_white_space(s.last()) {
        let rest = s.drop_last();
        lemma_trim_end_cut(rest);
        let n = trim_end(rest).len() as int;
        assert(s.take(n) =~= rest.take(n));
        assert forall|i: int| n <= i < s.len() implies is_white_space(#[trigger] s[i]) by {
            if i < s.len() - 1 {
                assert(rest[i] == s[i]);
            }
        }
    } else {
        assert(s.take(s.len() as int) =~= s);
    }
}

/// Spaces, tabs and line breaks are white space, as is the wide space; no other character of
/// ASCII is, nor is a letter of Latin-1 or a Han character.
pub proof fn law_white_space(c: char)
    ensures
        c == ' ' || c == '\t' || c == '\n' || c == '\r' || c == '\u{a0}' || c == '\u{3000}'
            ==> is_white_space(c),
        (c as u32) < 0x80 && is_white_space(c) ==> c == ' ' || 9 <= c as u32 <= 13,
        '!' <= c && c <= '~' ==> !is_white_space(c),
        0xa1 <= c as u32 <= 0x167f ==> !is_white_space(c),
        c as u32 > 0x3000 ==> !is_white_space(c),
{
}

/// Lower case changes the letters from A to Z, each to the small one, and nothing else.
pub proof fn law_lower_case(s: Seq<char>, i: int)
    requires
        0 <= i < s.len(),
    ensures
        lower(s).len() == s.len(),
        'A' <= s[i] && s[i] <= 'Z' ==> lower(s)[i] as u32 == s[i] as u32 + 32,
        s[i] < 'A' || s[i] > 'Z' ==> lower(s)[i] == s[i],
        !('A' <= lower(s)[i] && lower(s)[i] <= 'Z'),
        lower(lower(s)) == lower(s),
{
    lemma_lower_char(s[i]);
    assert forall|k: int| 0 <= k < s.len() implies lower_char(lower_char(s[k])) == lower_char(
        s[k],
    ) by {
        lemma_lower_char(s[k]);
    }
    assert(lower(lower(s)) =~= lower(s));
}

proof fn lemma_lower_char(c: char)
    ensures
        'A' <= c && c <= 'Z' ==> lower_char(c) as u32 == c as u32 + 32,
        !('A' <= lower_char(c) && lower_char(c) <= 'Z'),
        lower_char(lower_char(c)) == lower_char(c),
{
}

/// A replacement changes every place of one character into the other, and nothing else.
pub proof fn law_replacement(s: Seq<char>, from: char, to: char, i: int)
    requires
        0 <= i < s.len(),
    ensures
        replaced(s, from, to).len() == s.len(),
        s[i] == from ==> replaced(s, from, to)[i] == to,
        s[i] != from ==> replaced(s, from, to)[i] == s[i],
{
}

/// The digits of a number have no zero in front, but for zero itself.
pub proof fn law_decimal_has_no_leading_zero(n: nat)
    ensures
        n > 0 ==> decimal(n)[0] != '0',
        n < 10 ==> decimal(n).len() == 1,
        n >= 10 ==> decimal(n).len() == decimal(n / 10).len() + 1,
    decreases n,
{
    if n >= 10 {
        law_decimal_has_no_leading_zero(n / 10);
        assert(decimal(n)[0] == decimal(n / 10)[0]);
    }
}

/// A text is the pieces between the places of a character, joined by it again; no piece
/// holds that character.
pub proof fn law_pieces_join_back(s: Seq<char>, c: char)
    ensures
        joined_by(pieces(s, c), c) == s,
        pieces(s, c).len() > 0,
        forall|i: int| 0 <= i < pieces(s, c).len() ==> !(#[trigger] pieces(s, c)[i]).contains(c),
{
    lemma_pieces_join(s, c, 0);
    assert(s.skip(0) =~= s);
}

proof fn lemma_pieces_join(s: Seq<char>, c: char, from: int)
    requires
        0 <= from <= s.len(),
    ensures
        joined_by(pieces_from(s, c, from), c) == s.skip(from),
        pieces_from(s, c, from).len() > 0,
        forall|i: int|
            0 <= i < pieces_from(s, c, from).len() ==> !(#[trigger] pieces_from(
                s,
                c,
                from,
            )[i]).contains(c),
    decreases s.len() - from,
{
    lemma_find_from(s, c, from);
    let end = find_from(s, c, from);
    let all = pieces_from(s, c, from);
    let first = s.subrange(
        from,
        if end >= s.len() {
            s.len() as int
        } else {
            end
        },
    );
    assert(!first.contains(c)) by {
        if first.contains(c) {
            let k = choose|k: int| 0 <= k < first.len() && first[k] == c;
            assert(s[from + k] == c);
        }
    }
    if end >= s.len() {
        assert(all =~= seq![first]);
        assert(first =~= s.skip(from));
    } else {
        let rest = pieces_from(s, c, end + 1);
        lemma_pieces_join(s, c, end + 1);
        assert(all =~= seq![first] + rest);
        lemma_join_first(first, rest, c);
        assert(first.push(c) + s.skip(end + 1) =~= s.skip(from));
        assert forall|i: int| 0 <= i < all.len() implies !(#[trigger] all[i]).contains(c) by {
            if i > 0 {
                assert(all[i] == rest[i - 1]);
            }
        }
    }
}

proof fn lemma_join_first(first: Seq<char>, rest: Seq<Seq<char>>, c: char)
    requires
        rest.len() > 0,
    ensures
        joined_by(seq![first] + rest, c) == first.push(c) + joined_by(rest, c),
    decreases rest.len(),
{
    let all = seq![first] + rest;
    if rest.len() == 1 {
        assert(all.drop_last() =~= seq![first]);
        assert(joined_by(seq![first], c) == first);
        assert(joined_by(all, c) =~= first.push(c) + joined_by(rest, c));
    } else {
        lemma_join_first(first, rest.drop_last(), c);
        assert(all.drop_last() =~= seq![first] + rest.drop_last());
        assert(joined_by(all, c) =~= first.push(c) + joined_by(rest, c));
    }
}

/// A text that is parted at a piece is what stands before it, the piece, and what stands
/// behind it, and the piece stands nowhere earlier.
pub proof fn law_text_is_parted_at_the_first_place(s: Seq<char>, part: Seq<char>)
    ensures
        match split_once_at(s, part) {
            Some((before, behind)) => {
                &&& s == before + part + behind
                &&& forall|k: int| 0 <= k < before.len() ==> !#[trigger] occurs_at(s, part, k)
            },
            None => forall|k: int| !#[trigger] occurs_at(s, part, k),
        },
{
    lemma_find_text(s, part, 0);
    let at = find_text_from(s, part, 0);
    if at <= s.len() {
        assert(s =~= s.take(at) + part + s.skip(at + part.len()));
    }
}

proof fn lemma_find_text(s: Seq<char>, part: Seq<char>, from: int)
    requires
        0 <= from <= s.len() + 1,
    ensures
        find_text_from(s, part, from) >= from,
        find_text_from(s, part, from) <= s.len() ==> occurs_at(
            s,
            part,
            find_text_from(s, part, from),
        ),
        forall|k: int|
            from <= k < find_text_from(s, part, from) ==> !#[trigger] occurs_at(s, part, k),
    decreases s.len() + 1 - from,
{
    if from <= s.len() && !occurs_at(s, part, from) {
        lemma_find_text(s, part, from + 1);
    }
}

/// Digits stand for their number, with a sign or without one.
pub proof fn law_digits_stand_for_their_number(n: nat)
    requires
        n <= i32::MAX,
    ensures
        i32_value(decimal(n)) == Some(n as int),
        i32_value(seq!['-'] + decimal(n)) == Some(-(n as int)),
        i32_value(seq!['+'] + decimal(n)) == Some(n as int),
        i32_value(Seq::empty()) is None,
        i32_value(seq!['-']) is None,
        i32_value(decimal(n).push('x')) is None,
{
    law_decimal_round_trips(n);
    let d = decimal(n);
    lemma_leading_digits(d, d.len() as int);
    assert((seq!['-'] + d).drop_first() =~= d);
    assert((seq!['+'] + d).drop_first() =~= d);
    assert(is_digit(d[0]));
    let e = d.push('x');
    assert(is_digit(e[0]));
    assert forall|i: int| 0 <= i < d.len() implies is_digit(#[trigger] e[i]) by {
        assert(e[i] == d[i]);
    }
    lemma_leading_digits(e, d.len() as int);
    assert(seq!['-'].drop_first() =~= Seq::<char>::empty());
}

} // verus!
