//! Windows paths as text: keys for comparison, their parts, and scan roots.

use crate::text::{
    from_chars, last_place, lemma_last_place, lower, lower_char, replace_char, replaced, rfind,
    slice_text, to_chars, to_lower, trim, trimmed,
};
use std::cmp::Ordering;
use vstd::prelude::*;
use vstd::utf8::encode_utf8;

verus! {

/// The key under which paths are compared: backslashes only, ASCII letters in
/// lower case.
pub open spec fn path_key(path: Seq<char>) -> Seq<char> {
    lower(replaced(path, '/', '\\'))
}

/// The key under which paths are compared.
pub fn normalize_path_key(path: &str) -> (r: String)
    ensures
        r@ == path_key(path@),
{
    let fixed = replace_char(path, '/', '\\');
    to_lower(fixed.as_str())
}

/// The key of a key is the key itself.
pub proof fn law_path_key_is_idempotent(path: Seq<char>)
    ensures
        path_key(path_key(path)) == path_key(path),
{
    assert(path_key(path_key(path)) =~= path_key(path));
}

/// Paths that differ only in the case of ASCII letters and in the kind of their
/// slashes have one key.
pub proof fn law_path_key_ignores_case_and_slashes(a: Seq<char>, b: Seq<char>)
    requires
        a.len() == b.len(),
        forall|i: int|
            #![trigger a[i]]
            0 <= i < a.len() ==> lower_char(a[i]) == lower_char(b[i]) || ((a[i] == '/' || a[i]
                == '\\') && (b[i] == '/' || b[i] == '\\')),
    ensures
        path_key(a) == path_key(b),
{
    assert(path_key(a) =~= path_key(b)) by {
        assert forall|i: int| 0 <= i < a.len() implies path_key(a)[i] == path_key(b)[i] by {
            assert(a[i] == a[i]);
        }
    }
}

/// The bytes of a character in UTF-8.
pub open spec fn utf8_width(c: char) -> nat {
    if (c as u32) < 0x80 {
        1
    } else if (c as u32) < 0x800 {
        2
    } else if (c as u32) < 0x1_0000 {
        3
    } else {
        4
    }
}

/// The bytes of a text in UTF-8.
pub open spec fn utf8_len(s: Seq<char>) -> nat
    decreases s.len(),
{
    if s.len() == 0 {
        0
    } else {
        utf8_len(s.drop_last()) + utf8_width(s.last())
    }
}

/// The bytes of a character in UTF-8.
pub fn char_utf8_width(c: char) -> (r: usize)
    ensures
        r == utf8_width(c),
{
    let n: u32 = c as u32;
    if n < 0x80 {
        1
    } else if n < 0x800 {
        2
    } else if n < 0x1_0000 {
        3
    } else {
        4
    }
}

proof fn lemma_utf8_len_monotonic(s: Seq<char>, n: int)
    requires
        0 <= n <= s.len(),
    ensures
        utf8_len(s.take(n)) <= utf8_len(s),
        n <= utf8_len(s.take(n)) <= 4 * n,
    decreases s.len() - n, n,
{
    if n < s.len() {
        lemma_utf8_len_monotonic(s, n + 1);
        assert(s.take(n + 1).drop_last() =~= s.take(n));
    } else {
        assert(s.take(n) =~= s);
        lemma_utf8_len_bounds(s);
    }
    lemma_utf8_len_bounds(s.take(n));
}

/// A text takes a byte at least and four at most for each character.
pub proof fn lemma_utf8_len_bounds(s: Seq<char>)
    ensures
        s.len() <= utf8_len(s) <= 4 * s.len(),
    decreases s.len(),
{
    if s.len() > 0 {
        lemma_utf8_len_bounds(s.drop_last());
    }
}

/// Whether a text takes more than `limit` bytes in UTF-8.
pub fn utf8_len_exceeds(s: &Vec<char>, limit: usize) -> (r: bool)
    ensures
        r == (utf8_len(s@) > limit),
{
    let mut total: u128 = 0;
    let mut i: usize = 0;
    while i < s.len()
        invariant
            i <= s@.len(),
            total == utf8_len(s@.take(i as int)),
            total <= 4 * i,
        decreases s@.len() - i,
    {
        proof {
            assert(s@.take(i + 1).drop_last() =~= s@.take(i as int));
            lemma_utf8_len_monotonic(s@, (i + 1) as int);
        }
        total = total + char_utf8_width(s[i]) as u128;
        i += 1;
    }
    assert(s@.take(s@.len() as int) =~= s@);
    total > limit as u128
}

/// A byte, an ASCII letter in lower case.
pub open spec fn lower_byte(b: u8) -> u8 {
    if 65 <= b <= 90 {
        (b + 32) as u8
    } else {
        b
    }
}

/// Bytes with their ASCII letters in lower case.
pub open spec fn lower_bytes(s: Seq<u8>) -> Seq<u8> {
    s.map_values(|b: u8| lower_byte(b))
}

fn to_lower_byte(b: u8) -> (r: u8)
    ensures
        r == lower_byte(b),
{
    if 65 <= b && b <= 90 {
        b + 32
    } else {
        b
    }
}

/// The order of byte strings: by the first byte that differs, and a string
/// after its own beginning.
pub open spec fn byte_order(a: Seq<u8>, b: Seq<u8>) -> Ordering
    decreases a.len(),
{
    if a.len() == 0 && b.len() == 0 {
        Ordering::Equal
    } else if a.len() == 0 {
        Ordering::Less
    } else if b.len() == 0 {
        Ordering::Greater
    } else if a[0] < b[0] {
        Ordering::Less
    } else if a[0] > b[0] {
        Ordering::Greater
    } else {
        byte_order(a.drop_first(), b.drop_first())
    }
}

/// A place in a sequence.
pub open spec fn place(i: usize) -> int {
    i as int
}

/// The first place where two byte strings differ, or where one of them ends.
fn first_difference(a: &[u8], b: &[u8]) -> (r: usize)
    ensures
        r <= a@.len(),
        r <= b@.len(),
        forall|k: int| 0 <= k < r ==> a@[k] == b@[k],
        r < a@.len() && r < b@.len() ==> a@[r as int] != b@[r as int],
{
    let mut i: usize = 0;
    while i < a.len() && i < b.len() && a[i] == b[i]
        invariant
            i <= a@.len(),
            i <= b@.len(),
            forall|k: int| 0 <= k < i ==> a@[k] == b@[k],
        decreases a@.len() - i,
    {
        i += 1;
    }
    i
}

fn lowered(a: &[u8]) -> (r: Vec<u8>)
    ensures
        r@ == lower_bytes(a@),
{
    let mut r: Vec<u8> = Vec::new();
    let mut i: usize = 0;
    while i < a.len()
        invariant
            i <= a@.len(),
            r@ == lower_bytes(a@).take(i as int),
        decreases a@.len() - i,
    {
        r.push(to_lower_byte(a[i]));
        i += 1;
        assert(r@ =~= lower_bytes(a@).take(i as int));
    }
    assert(r@ =~= lower_bytes(a@));
    r
}

proof fn lemma_order_after_common_part(a: Seq<u8>, b: Seq<u8>, n: int)
    requires
        0 <= n <= a.len(),
        n <= b.len(),
        forall|k: int| 0 <= k < n ==> a[k] == b[k],
    ensures
        byte_order(a, b) == byte_order(a.skip(n), b.skip(n)),
    decreases n,
{
    if n == 0 {
        assert(a.skip(0) =~= a && b.skip(0) =~= b);
    } else {
        let (x, y) = (a.drop_first(), b.drop_first());
        assert forall|k: int| 0 <= k < n - 1 implies x[k] == y[k] by {
            assert(a[k + 1] == b[k + 1]);
        }
        lemma_order_after_common_part(x, y, n - 1);
        assert(x.skip(n - 1) =~= a.skip(n) && y.skip(n - 1) =~= b.skip(n));
    }
}

/// The order of byte strings.
pub fn order_bytes(a: &[u8], b: &[u8]) -> (r: Ordering)
    ensures
        r == byte_order(a@, b@),
{
    let n: usize = first_difference(a, b);
    proof {
        lemma_order_after_common_part(a@, b@, place(n));
        if n < a@.len() {
            assert(a@.skip(place(n))[0] == a@[place(n)]);
        }
        if n < b@.len() {
            assert(b@.skip(place(n))[0] == b@[place(n)]);
        }
    }
    if n >= a.len() {
        if n >= b.len() {
            return Ordering::Equal;
        }
        return Ordering::Less;
    }
    if n >= b.len() {
        return Ordering::Greater;
    }
    if a[n] < b[n] {
        Ordering::Less
    } else {
        Ordering::Greater
    }
}

/// The order of two texts without regard to the case of ASCII letters.
pub open spec fn folded_order(a: Seq<char>, b: Seq<char>) -> Ordering {
    byte_order(lower_bytes(encode_utf8(a)), lower_bytes(encode_utf8(b)))
}

/// The order of two texts by their bytes.
pub open spec fn text_order(a: Seq<char>, b: Seq<char>) -> Ordering {
    byte_order(encode_utf8(a), encode_utf8(b))
}

/// The order of two texts without regard to the case of ASCII letters.
pub fn cmp_ascii_case_insensitive(a: &str, b: &str) -> (r: Ordering)
    ensures
        r == folded_order(a@, b@),
{
    order_bytes(lowered(a.as_bytes()).as_slice(), lowered(b.as_bytes()).as_slice())
}

/// The order of two texts by their bytes.
pub fn order_text(a: &str, b: &str) -> (r: Ordering)
    ensures
        r == text_order(a@, b@),
{
    order_bytes(a.as_bytes(), b.as_bytes())
}

/// The opposite order.
pub open spec fn reversed(o: Ordering) -> Ordering {
    match o {
        Ordering::Less => Ordering::Greater,
        Ordering::Equal => Ordering::Equal,
        Ordering::Greater => Ordering::Less,
    }
}

/// The opposite order.
pub fn opposite(o: Ordering) -> (r: Ordering)
    ensures
        r == reversed(o),
{
    match o {
        Ordering::Less => Ordering::Greater,
        Ordering::Equal => Ordering::Equal,
        Ordering::Greater => Ordering::Less,
    }
}

/// Whether an order is that of a smaller value before a greater one.
pub fn is_less(o: Ordering) -> (r: bool)
    ensures
        r == (o == Ordering::Less),
{
    match o {
        Ordering::Less => true,
        _ => false,
    }
}

/// The order of byte strings is a total order: exchanging the sides reverses it,
/// only equal strings are equal, and it is transitive.
pub proof fn law_byte_order_is_total(a: Seq<u8>, b: Seq<u8>, c: Seq<u8>)
    ensures
        byte_order(b, a) == reversed(byte_order(a, b)),
        byte_order(a, b) == Ordering::Equal <==> a == b,
        byte_order(a, b) == Ordering::Less && byte_order(b, c) == Ordering::Less ==> byte_order(a, c)
            == Ordering::Less,
    decreases a.len(),
{
    if a.len() > 0 && b.len() > 0 {
        if c.len() > 0 {
            law_byte_order_is_total(a.drop_first(), b.drop_first(), c.drop_first());
        } else {
            law_byte_order_is_total(a.drop_first(), b.drop_first(), c);
        }
        if a[0] == b[0] && a.drop_first() == b.drop_first() {
            assert(a =~= b) by {
                assert(a =~= seq![a[0]] + a.drop_first());
                assert(b =~= seq![b[0]] + b.drop_first());
            }
        }
    } else if a.len() == 0 && b.len() == 0 {
        assert(a =~= b);
    }
}

/// Whether the bytes of `full`, letters in lower case, start with `prefix`.
pub fn starts_with_lowercase_prefix(full: &str, prefix_lower: &str) -> (r: bool)
    ensures
        r == encode_utf8(prefix_lower@).is_prefix_of(lower_bytes(encode_utf8(full@))),
{
    let f = full.as_bytes();
    let p = prefix_lower.as_bytes();
    let ghost low = lower_bytes(f@);
    if f.len() < p.len() {
        return false;
    }
    let mut i: usize = 0;
    while i < p.len()
        invariant
            i <= p@.len() <= f@.len(),
            f@ == encode_utf8(full@),
            p@ == encode_utf8(prefix_lower@),
            low == lower_bytes(f@),
            forall|k: int| 0 <= k < i ==> low[k] == p@[k],
        decreases p@.len() - i,
    {
        if to_lower_byte(f[i]) != p[i] {
            assert(!p@.is_prefix_of(low)) by {
                if p@.is_prefix_of(low) {
                    assert(low.subrange(0, p@.len() as int)[i as int] == low[i as int]);
                }
            }
            return false;
        }
        i += 1;
    }
    assert(p@ =~= low.subrange(0, p@.len() as int));
    true
}

/// The directory and the name, parted at the last backslash; without one there
/// is no directory.
pub open spec fn split_at_last(path: Seq<char>) -> (Seq<char>, Seq<char>) {
    let at = last_place(path, '\\');
    if at < 0 {
        (Seq::empty(), path)
    } else {
        (path.take(at), path.skip(at + 1))
    }
}

/// The directory and the name of a path.
pub fn split_path(path: &str) -> (r: (String, String))
    ensures
        (r.0@, r.1@) == split_at_last(path@),
{
    let chars = to_chars(path);
    proof {
        lemma_last_place(path@, '\\');
    }
    match rfind(&chars, '\\') {
        Some(at) => {
            let n: usize = chars.len();
            let dir = slice_text(&chars, 0, at);
            let name = slice_text(&chars, at + 1, n);
            assert(dir@ =~= path@.take(at as int));
            assert(name@ =~= path@.skip(at + 1));
            (dir, name)
        },
        None => (String::new(), path.to_owned()),
    }
}

/// A directory and a name, put together again, are the path they came from.
pub proof fn law_split_path_can_be_undone(path: Seq<char>)
    requires
        path.contains('\\'),
    ensures
        split_at_last(path).0 + seq!['\\'] + split_at_last(path).1 == path,
        !split_at_last(path).1.contains('\\'),
{
    lemma_last_place(path, '\\');
    let at = last_place(path, '\\');
    let i = choose|i: int| 0 <= i < path.len() && path[i] == '\\';
    assert(at >= 0) by {
        if at < 0 {
            assert(path[i] != '\\');
        }
    }
    assert(path.take(at) + seq!['\\'] + path.skip(at + 1) =~= path);
    let name = path.skip(at + 1);
    assert forall|k: int| 0 <= k < name.len() implies name[k] != '\\' by {
        assert(path[at + 1 + k] != '\\');
    }
}

/// The text without the backslashes at its end, but for those inside its first
/// three bytes.
pub open spec fn without_end_slashes(s: Seq<char>) -> Seq<char>
    decreases s.len(),
{
    if s.len() > 0 && s.last() == '\\' && utf8_len(s) > 3 {
        without_end_slashes(s.drop_last())
    } else {
        s
    }
}

/// A scan root as it is kept: trimmed, with backslashes, and without one at its
/// end, except after a drive.
pub open spec fn scan_root(root: Seq<char>) -> Seq<char> {
    without_end_slashes(replaced(trimmed(root), '/', '\\'))
}

/// A scan root as it is kept.
pub fn fix_scan_root(root: &str) -> (r: String)
    ensures
        r@ == scan_root(root@),
{
    let root = trim(root);
    let fixed = replace_char(root.as_str(), '/', '\\');
    let mut chars = to_chars(fixed.as_str());
    while chars.len() > 0 && chars[chars.len() - 1] == '\\' && utf8_len_exceeds(&chars, 3)
        invariant
            without_end_slashes(chars@) == without_end_slashes(fixed@),
        decreases chars@.len(),
    {
        let ghost before = chars@;
        chars.pop();
        assert(chars@ =~= before.drop_last());
    }
    from_chars(chars.as_slice())
}

/// A root and a path below it, put together.
pub open spec fn joined(root: Seq<char>, rel: Seq<char>) -> Seq<char> {
    let root = trimmed(root);
    let rel = trimmed(rel);
    if root.len() == 0 {
        rel
    } else if rel.len() == 0 {
        root
    } else if root.last() == '\\' {
        root + rel
    } else {
        root.push('\\') + rel
    }
}

/// A root and a path below it, put together.
pub fn ui_join_root_rel(root: &str, rel: &str) -> (r: String)
    ensures
        r@ == joined(root@, rel@),
{
    let root = trim(root);
    let rel = trim(rel);
    if root.as_str().is_empty() {
        return rel;
    }
    if rel.as_str().is_empty() {
        return root;
    }
    let chars = to_chars(root.as_str());
    let mut r = root;
    if chars[chars.len() - 1] != '\\' {
        r.push('\\');
    }
    r.append(rel.as_str());
    r
}

/// Whether `c` parts the components of a path.
pub open spec fn is_separator(c: char) -> bool {
    c == '\\' || c == '/'
}

/// Whether `c` parts the components of a path that is taken as it stands, or of any
/// other.
pub open spec fn parts_path(c: char, verbatim: bool) -> bool {
    c == '\\' || (!verbatim && c == '/')
}

/// Whether a path is to be taken as it stands: only backslashes part it.
pub open spec fn is_verbatim(s: Seq<char>) -> bool {
    s.len() >= 4 && s[0] == '\\' && s[1] == '\\' && s[2] == '?' && s[3] == '\\'
}

/// Whether a letter of a drive and its colon stand at `at`.
pub open spec fn drive_at(s: Seq<char>, at: int) -> bool {
    at + 2 <= s.len() && s[at + 1] == ':' && (('a' <= s[at] && s[at] <= 'z') || ('A' <= s[at]
        && s[at] <= 'Z'))
}

/// The place of the first separator from `from` on, or the length.
pub open spec fn separator_from(s: Seq<char>, from: int, verbatim: bool) -> int
    decreases s.len() - from,
{
    if from >= s.len() {
        s.len() as int
    } else if parts_path(s[from], verbatim) {
        from
    } else {
        separator_from(s, from + 1, verbatim)
    }
}

/// Where the share of the server ends whose name begins at `from`; where the server
/// ends, if it names no share.
pub open spec fn share_end(s: Seq<char>, from: int, verbatim: bool) -> int {
    let server_end = separator_from(s, from, verbatim);
    if server_end < s.len() && separator_from(s, server_end + 1, verbatim) > server_end + 1 {
        separator_from(s, server_end + 1, verbatim)
    } else {
        server_end
    }
}

/// The length of the prefix of a path, which is no component of it: a drive, a share of
/// a server, a device, or one of the forms that are taken as they stand.
pub open spec fn prefix_len(s: Seq<char>) -> int {
    if s.len() >= 2 && is_separator(s[0]) && is_separator(s[1]) {
        if is_verbatim(s) {
            if s.len() >= 8 && s[4] == 'U' && s[5] == 'N' && s[6] == 'C' && is_separator(s[7]) {
                share_end(s, 8, true)
            } else if drive_at(s, 4) && (s.len() == 6 || is_separator(s[6])) {
                6
            } else {
                separator_from(s, 4, true)
            }
        } else if s.len() >= 4 && s[2] == '.' && is_separator(s[3]) {
            separator_from(s, 4, false)
        } else {
            let server_end = separator_from(s, 2, false);
            if server_end > 2 && share_end(s, 2, false) > server_end {
                share_end(s, 2, false)
            } else {
                0
            }
        }
    } else if drive_at(s, 0) {
        2
    } else {
        0
    }
}

/// Where the component that ends at `end` begins.
pub open spec fn component_start(s: Seq<char>, prefix: int, verbatim: bool, end: int) -> int
    decreases end,
{
    if end <= prefix || end <= 0 {
        prefix
    } else if parts_path(s[end - 1], verbatim) {
        end
    } else {
        component_start(s, prefix, verbatim, end - 1)
    }
}

/// Whether the component from `from` to `to` is the one of `n` dots.
pub open spec fn is_dots(s: Seq<char>, from: int, to: int, n: int) -> bool {
    to - from == n && forall|i: int| from <= i < to ==> s[i] == '.'
}

/// Where the last component ends: before the separators at the end of the path,
/// and before components of one dot that are not the first, unless the path is taken
/// as it stands.
pub open spec fn last_component_end(s: Seq<char>, prefix: int, verbatim: bool, end: int) -> int
    decreases end,
{
    if end <= prefix || end <= 0 {
        prefix
    } else if parts_path(s[end - 1], verbatim) {
        last_component_end(s, prefix, verbatim, end - 1)
    } else {
        let start = component_start(s, prefix, verbatim, end);
        if !verbatim && is_dots(s, start, end, 1) && start > prefix && start > 0 {
            last_component_end(s, prefix, verbatim, start - 1)
        } else {
            end
        }
    }
}

/// The last component among the first `end` characters of a path; empty where
/// there is none.
pub open spec fn last_component(s: Seq<char>, end: int) -> (int, int) {
    let prefix = prefix_len(s);
    let verbatim = is_verbatim(s);
    let to = last_component_end(s, prefix, verbatim, end);
    (component_start(s, prefix, verbatim, to), to)
}

/// The file name among the first `end` characters of a path: its last component,
/// unless that is one of one or two dots.
pub open spec fn file_name_at(s: Seq<char>, end: int) -> Option<Seq<char>> {
    let (from, to) = last_component(s, end);
    if to <= from || is_dots(s, from, to, 1) || is_dots(s, from, to, 2) {
        None
    } else {
        Some(s.subrange(from, to))
    }
}

/// The file name of a path.
pub open spec fn file_name_of(s: Seq<char>) -> Option<Seq<char>> {
    file_name_at(s, s.len() as int)
}

/// The extension of a file name: what follows its last dot, unless the name
/// begins with that dot.
pub open spec fn extension_of_name(name: Seq<char>) -> Option<Seq<char>> {
    let dot = last_place(name, '.');
    if dot <= 0 {
        None
    } else {
        Some(name.skip(dot + 1))
    }
}

/// A file name without its extension.
pub open spec fn stem_of_name(name: Seq<char>) -> Seq<char> {
    let dot = last_place(name, '.');
    if dot <= 0 {
        name
    } else {
        name.take(dot)
    }
}

/// The extension of a path, in lower case; empty where there is none.
pub open spec fn lower_extension_of(path: Seq<char>) -> Seq<char> {
    match file_name_of(path) {
        Some(name) => match extension_of_name(name) {
            Some(ext) => lower(ext),
            None => Seq::empty(),
        },
        None => Seq::empty(),
    }
}

/// The name of the directory that a path stands in.
pub open spec fn parent_name_of(s: Seq<char>) -> Option<Seq<char>> {
    let (from, to) = last_component(s, s.len() as int);
    if to <= from {
        None
    } else {
        file_name_at(s, from)
    }
}

proof fn lemma_separator_from(s: Seq<char>, from: int, verbatim: bool)
    requires
        0 <= from <= s.len(),
    ensures
        from <= separator_from(s, from, verbatim) <= s.len(),
    decreases s.len() - from,
{
    if from < s.len() && !parts_path(s[from], verbatim) {
        lemma_separator_from(s, from + 1, verbatim);
    }
}

proof fn lemma_share_end(s: Seq<char>, from: int, verbatim: bool)
    requires
        0 <= from <= s.len(),
    ensures
        from <= share_end(s, from, verbatim) <= s.len(),
{
    lemma_separator_from(s, from, verbatim);
    let server_end = separator_from(s, from, verbatim);
    if server_end < s.len() {
        lemma_separator_from(s, server_end + 1, verbatim);
    }
}

proof fn lemma_prefix_len(s: Seq<char>)
    ensures
        0 <= prefix_len(s) <= s.len(),
{
    if s.len() >= 8 {
        lemma_share_end(s, 8, true);
    }
    if s.len() >= 4 {
        lemma_separator_from(s, 4, true);
        lemma_separator_from(s, 4, false);
    }
    if s.len() >= 2 {
        lemma_share_end(s, 2, false);
    }
}

fn separates(c: char, verbatim: bool) -> (r: bool)
    ensures
        r == parts_path(c, verbatim),
{
    c == '\\' || (!verbatim && c == '/')
}

fn find_separator(s: &Vec<char>, from: usize, verbatim: bool) -> (r: usize)
    requires
        from <= s@.len(),
    ensures
        r == separator_from(s@, from as int, verbatim),
        from <= r <= s@.len(),
{
    let mut at: usize = from;
    while at < s.len() && !separates(s[at], verbatim)
        invariant
            from <= at <= s@.len(),
            separator_from(s@, from as int, verbatim) == separator_from(s@, at as int, verbatim),
        decreases s@.len() - at,
    {
        at += 1;
    }
    at
}

fn find_share_end(s: &Vec<char>, from: usize, verbatim: bool) -> (r: usize)
    requires
        from <= s@.len(),
    ensures
        r == share_end(s@, from as int, verbatim),
        from <= r <= s@.len(),
{
    let server_end: usize = find_separator(s, from, verbatim);
    if server_end < s.len() {
        let end: usize = find_separator(s, server_end + 1, verbatim);
        if end > server_end + 1 {
            return end;
        }
    }
    server_end
}

fn has_drive(s: &Vec<char>, at: usize) -> (r: bool)
    requires
        at <= s@.len(),
    ensures
        r == drive_at(s@, at as int),
{
    s.len() - at >= 2 && s[at + 1] == ':' && (('a' <= s[at] && s[at] <= 'z') || ('A' <= s[at]
        && s[at] <= 'Z'))
}

fn stands_as_is(s: &Vec<char>) -> (r: bool)
    ensures
        r == is_verbatim(s@),
{
    s.len() >= 4 && s[0] == '\\' && s[1] == '\\' && s[2] == '?' && s[3] == '\\'
}

fn find_prefix(s: &Vec<char>) -> (r: usize)
    ensures
        r == prefix_len(s@),
        r <= s@.len(),
{
    if s.len() >= 2 && separates(s[0], false) && separates(s[1], false) {
        if stands_as_is(s) {
            if s.len() >= 8 && s[4] == 'U' && s[5] == 'N' && s[6] == 'C' && separates(s[7], false) {
                find_share_end(s, 8, true)
            } else if has_drive(s, 4) && (s.len() == 6 || separates(s[6], false)) {
                6
            } else {
                find_separator(s, 4, true)
            }
        } else if s.len() >= 4 && s[2] == '.' && separates(s[3], false) {
            find_separator(s, 4, false)
        } else {
            let server_end: usize = find_separator(s, 2, false);
            let end: usize = find_share_end(s, 2, false);
            if server_end > 2 && end > server_end {
                end
            } else {
                0
            }
        }
    } else if has_drive(s, 0) {
        2
    } else {
        0
    }
}

fn find_component_start(s: &Vec<char>, prefix: usize, verbatim: bool, end: usize) -> (r: usize)
    requires
        prefix <= end <= s@.len(),
    ensures
        r == component_start(s@, prefix as int, verbatim, end as int),
        prefix <= r <= end,
{
    let mut at: usize = end;
    while at > prefix && !separates(s[at - 1], verbatim)
        invariant
            prefix <= at <= end <= s@.len(),
            component_start(s@, prefix as int, verbatim, end as int) == component_start(
                s@,
                prefix as int,
                verbatim,
                at as int,
            ),
        decreases at,
    {
        at -= 1;
    }
    at
}

fn dots(s: &Vec<char>, from: usize, to: usize, n: usize) -> (r: bool)
    requires
        from <= to <= s@.len(),
        n == 1 || n == 2,
    ensures
        r == is_dots(s@, from as int, to as int, n as int),
{
    if to - from != n {
        return false;
    }
    if s[from] != '.' {
        return false;
    }
    if n == 2 && s[from + 1] != '.' {
        return false;
    }
    true
}

fn find_last_component(s: &Vec<char>, end: usize) -> (r: (usize, usize))
    requires
        prefix_len(s@) <= end <= s@.len(),
    ensures
        (r.0 as int, r.1 as int) == last_component(s@, end as int),
        r.0 <= r.1 <= end,
        prefix_len(s@) <= r.0,
{
    let prefix: usize = find_prefix(s);
    let verbatim: bool = stands_as_is(s);
    let mut to: usize = end;
    while to > prefix
        invariant_except_break
            prefix <= to <= end <= s@.len(),
            last_component_end(s@, prefix as int, verbatim, end as int) == last_component_end(
                s@,
                prefix as int,
                verbatim,
                to as int,
            ),
        ensures
            prefix <= to <= end,
            to == last_component_end(s@, prefix as int, verbatim, end as int),
        decreases to,
    {
        if separates(s[to - 1], verbatim) {
            to -= 1;
            continue;
        }
        let start: usize = find_component_start(s, prefix, verbatim, to);
        if !verbatim && start > prefix && dots(s, start, to, 1) {
            to = start - 1;
        } else {
            break;
        }
    }
    (find_component_start(s, prefix, verbatim, to), to)
}

fn find_file_name(s: &Vec<char>, end: usize) -> (r: Option<(usize, usize)>)
    requires
        prefix_len(s@) <= end <= s@.len(),
    ensures
        match r {
            Some((from, to)) => from < to <= s@.len() && file_name_at(s@, end as int) == Some(
                s@.subrange(from as int, to as int),
            ),
            None => file_name_at(s@, end as int) is None,
        },
{
    let (from, to) = find_last_component(s, end);
    if from == to || dots(s, from, to, 1) || dots(s, from, to, 2) {
        return None;
    }
    Some((from, to))
}

/// The file name of a path.
pub fn file_name(path: &str) -> (r: Option<String>)
    ensures
        r is Some <==> file_name_of(path@) is Some,
        r matches Some(name) ==> Some(name@) == file_name_of(path@),
{
    let chars = to_chars(path);
    proof {
        lemma_prefix_len(path@);
    }
    match find_file_name(&chars, chars.len()) {
        Some((from, to)) => Some(slice_text(&chars, from, to)),
        None => None,
    }
}

/// The extension of a path, in lower case; empty where there is none.
pub fn lower_extension(path: &str) -> (r: String)
    ensures
        r@ == lower_extension_of(path@),
{
    let name = match file_name(path) {
        Some(name) => name,
        None => return String::new(),
    };
    let chars = to_chars(name.as_str());
    proof {
        lemma_last_place(name@, '.');
    }
    match rfind(&chars, '.') {
        Some(dot) => {
            if dot == 0 {
                return String::new();
            }
            let n: usize = chars.len();
            let ext = slice_text(&chars, dot + 1, n);
            assert(ext@ =~= name@.skip(dot + 1));
            to_lower(ext.as_str())
        },
        None => String::new(),
    }
}

/// The file name of a path without its extension.
pub fn file_stem(path: &str) -> (r: Option<String>)
    ensures
        r is Some <==> file_name_of(path@) is Some,
        r matches Some(stem) ==> stem@ == stem_of_name(file_name_of(path@)->0),
{
    let name = match file_name(path) {
        Some(name) => name,
        None => return None,
    };
    let chars = to_chars(name.as_str());
    proof {
        lemma_last_place(name@, '.');
    }
    match rfind(&chars, '.') {
        Some(dot) => {
            if dot == 0 {
                return Some(name);
            }
            let stem = slice_text(&chars, 0, dot);
            assert(stem@ =~= name@.take(dot as int));
            Some(stem)
        },
        None => Some(name),
    }
}

/// The name of the directory that a path stands in.
pub fn parent_name(path: &str) -> (r: Option<String>)
    ensures
        r is Some <==> parent_name_of(path@) is Some,
        r matches Some(name) ==> Some(name@) == parent_name_of(path@),
{
    let chars = to_chars(path);
    proof {
        lemma_prefix_len(path@);
    }
    let (from, to) = find_last_component(&chars, chars.len());
    if from == to {
        return None;
    }
    match find_file_name(&chars, from) {
        Some((a, b)) => Some(slice_text(&chars, a, b)),
        None => None,
    }
}

/// The stem and the extension make up the name, with the dot between them.
pub proof fn law_stem_and_extension_make_the_name(name: Seq<char>)
    ensures
        match extension_of_name(name) {
            Some(ext) => stem_of_name(name) + seq!['.'] + ext == name,
            None => stem_of_name(name) == name,
        },
{
    lemma_last_place(name, '.');
    let dot = last_place(name, '.');
    if dot > 0 {
        assert(name.take(dot) + seq!['.'] + name.skip(dot + 1) =~= name);
    }
}

/// The path of a file in a directory.
pub fn join_dir_name(dir: &str, name: &str) -> (r: String)
    ensures
        r@ == dir@.push('\\') + name@,
{
    let mut r = dir.to_owned();
    r.push('\\');
    r.append(name);
    r
}

/// The key of a path has a backslash for every slash and small letters for capital ones, and
/// is the path otherwise.
pub proof fn law_path_key_is_the_path_otherwise(path: Seq<char>, i: int)
    requires
        0 <= i < path.len(),
    ensures
        path_key(path).len() == path.len(),
        path[i] == '/' || path[i] == '\\' ==> path_key(path)[i] == '\\',
        'A' <= path[i] && path[i] <= 'Z' ==> path_key(path)[i] as u32 == path[i] as u32 + 32,
        path[i] != '/' && !('A' <= path[i] && path[i] <= 'Z') ==> path_key(path)[i] == path[i],
{
    let fixed = replaced(path, '/', '\\');
    crate::text::law_lower_case(fixed, i);
}

/// Two paths with one key differ in nothing but case and slashes.
pub proof fn law_one_key_one_path(a: Seq<char>, b: Seq<char>, i: int)
    requires
        path_key(a) == path_key(b),
        0 <= i < a.len(),
    ensures
        a.len() == b.len(),
        a[i] == b[i] || (is_separator(a[i]) && is_separator(b[i])) || a[i] as u32 + 32 == b[i] as u32
            || b[i] as u32 + 32 == a[i] as u32,
{
    assert(path_key(a).len() == a.len() && path_key(b).len() == b.len());
    law_path_key_is_the_path_otherwise(a, i);
    law_path_key_is_the_path_otherwise(b, i);
}

/// A text comes before another one where the first byte in which they differ is the smaller
/// one, or where the other one goes on behind it; equal texts are in no order.
pub proof fn law_first_difference_decides(a: Seq<u8>, b: Seq<u8>, i: int)
    requires
        0 <= i <= a.len(),
        i <= b.len(),
        a.take(i) == b.take(i),
    ensures
        i < a.len() && i < b.len() && a[i] < b[i] ==> byte_order(a, b) == Ordering::Less,
        i < a.len() && i < b.len() && a[i] > b[i] ==> byte_order(a, b) == Ordering::Greater,
        i == a.len() && i < b.len() ==> byte_order(a, b) == Ordering::Less,
        i < a.len() && i == b.len() ==> byte_order(a, b) == Ordering::Greater,
        i == a.len() && i == b.len() ==> byte_order(a, b) == Ordering::Equal,
    decreases i,
{
    if i > 0 {
        assert(a[0] == a.take(i)[0] && b[0] == b.take(i)[0]);
        assert(a[0] == b[0]);
        assert(a.drop_first().take(i - 1) =~= a.take(i).drop_first());
        assert(b.drop_first().take(i - 1) =~= b.take(i).drop_first());
        law_first_difference_decides(a.drop_first(), b.drop_first(), i - 1);
    }
}

/// Bytes in lower case: the letters of ASCII from A to Z are 32 more, and nothing else is
/// changed.
pub proof fn law_lower_bytes(s: Seq<u8>, i: int)
    requires
        0 <= i < s.len(),
    ensures
        lower_bytes(s).len() == s.len(),
        65 <= s[i] <= 90 ==> lower_bytes(s)[i] == s[i] + 32,
        s[i] < 65 || s[i] > 90 ==> lower_bytes(s)[i] == s[i],
{
}

/// Orders are turned round by exchanging before and behind.
pub proof fn law_reversed_twice(o: Ordering)
    ensures
        reversed(reversed(o)) == o,
        reversed(o) == o <==> o == Ordering::Equal,
        reversed(Ordering::Less) == Ordering::Greater,
{
}

/// A path without a backslash has no directory.
pub proof fn law_plain_name_has_no_directory(path: Seq<char>)
    requires
        !path.contains('\\'),
    ensures
        split_at_last(path).0.len() == 0,
        split_at_last(path).1 == path,
{
    lemma_last_place(path, '\\');
}

/// A scan root has no slash and no space around it, and no backslash at its end unless it
/// is that of a drive.
pub proof fn law_scan_root_is_tidy(root: Seq<char>)
    ensures
        !scan_root(root).contains('/'),
        scan_root(root).len() > 3 ==> scan_root(root).last() != '\\',
        scan_root(root).is_prefix_of(replaced(trimmed(root), '/', '\\')),
        forall|i: int|
            scan_root(root).len() <= i < trimmed(root).len() ==> (#[trigger] trimmed(root)[i]) == '/'
                || trimmed(root)[i] == '\\',
{
    let s = replaced(trimmed(root), '/', '\\');
    lemma_end_slashes(s);
    lemma_utf8_len_bounds(scan_root(root));
    assert forall|i: int| 0 <= i < scan_root(root).len() implies scan_root(root)[i] != '/' by {
        assert(scan_root(root)[i] == s[i]);
    }
    assert forall|i: int| scan_root(root).len() <= i < trimmed(root).len() implies (
    #[trigger] trimmed(root)[i]) == '/' || trimmed(root)[i] == '\\' by {
        assert(s[i] == '\\');
    }
}

proof fn lemma_end_slashes(s: Seq<char>)
    ensures
        without_end_slashes(s).is_prefix_of(s),
        without_end_slashes(s).len() > 0 && utf8_len(without_end_slashes(s)) > 3
            ==> without_end_slashes(s).last() != '\\',
        forall|i: int| without_end_slashes(s).len() <= i < s.len() ==> #[trigger] s[i] == '\\',
    decreases s.len(),
{
    if s.len() > 0 && s.last() == '\\' && utf8_len(s) > 3 {
        lemma_end_slashes(s.drop_last());
        assert forall|i: int| without_end_slashes(s).len() <= i < s.len() implies #[trigger] s[i]
            == '\\' by {
            if i < s.len() - 1 {
                assert(s.drop_last()[i] == s[i]);
            }
        }
    }
}

/// A root and a path below it are parted by one backslash; where one of them is empty, the
/// other one is the whole.
pub proof fn law_root_and_path_are_joined(root: Seq<char>, rel: Seq<char>)
    requires
        trimmed(root) == root,
        trimmed(rel) == rel,
    ensures
        root.len() == 0 ==> joined(root, rel) == rel,
        rel.len() == 0 ==> joined(root, rel) == root,
        root.len() > 0 && rel.len() > 0 && root.last() != '\\' ==> joined(root, rel) == root + seq![
            '\\',
        ] + rel,
        root.len() > 0 && rel.len() > 0 && root.last() == '\\' ==> joined(root, rel) == root + rel,
{
    assert(root.push('\\') + rel =~= root + seq!['\\'] + rel);
}

/// A file name holds no separator, is not empty, and stands at the end of its path, but for
/// separators and dots.
pub proof fn law_file_name_is_the_last_part(path: Seq<char>, dir: Seq<char>, name: Seq<char>)
    requires
        path == dir + seq!['\\'] + name,
        name.len() > 0,
        forall|i: int| 0 <= i < name.len() ==> !is_separator(#[trigger] name[i]),
        name != seq!['.'],
        name != seq!['.', '.'],
        prefix_len(path) <= dir.len(),
    ensures
        file_name_of(path) == Some(name),
{
    let prefix = prefix_len(path);
    let verbatim = is_verbatim(path);
    let n = path.len() as int;
    let from = dir.len() as int + 1;
    lemma_prefix_len(path);
    assert forall|i: int| from <= i < n implies !parts_path(#[trigger] path[i], verbatim) by {
        assert(path[i] == name[i - from]);
    }
    assert(path[from - 1] == '\\');
    lemma_component(path, prefix, verbatim, from, n);
    assert(path.subrange(from, n) =~= name);
    assert(!is_dots(path, from, n, 1)) by {
        if is_dots(path, from, n, 1) {
            assert(path[from] == '.');
            assert(name =~= seq!['.']);
        }
    }
    assert(!is_dots(path, from, n, 2)) by {
        if is_dots(path, from, n, 2) {
            assert(path[from] == '.' && path[from + 1] == '.');
            assert(name =~= seq!['.', '.']);
        }
    }
}

proof fn lemma_component(s: Seq<char>, prefix: int, verbatim: bool, from: int, end: int)
    requires
        0 <= prefix < from <= end <= s.len(),
        parts_path(s[from - 1], verbatim),
        forall|i: int| from <= i < end ==> !parts_path(#[trigger] s[i], verbatim),
    ensures
        component_start(s, prefix, verbatim, end) == from,
    decreases end,
{
    if end > from {
        assert(!parts_path(s[end - 1], verbatim));
        lemma_component(s, prefix, verbatim, from, end - 1);
    }
}

/// The extension of a name is what stands behind its last dot, unless it begins with that.
pub proof fn law_extension_is_behind_the_last_dot(stem: Seq<char>, ext: Seq<char>)
    requires
        !ext.contains('.'),
    ensures
        stem.len() > 0 ==> extension_of_name(stem + seq!['.'] + ext) == Some(ext),
        stem.len() > 0 ==> stem_of_name(stem + seq!['.'] + ext) == stem,
        extension_of_name(seq!['.'] + ext) is None,
        extension_of_name(ext) is None,
        stem_of_name(ext) == ext,
{
    let name = stem + seq!['.'] + ext;
    lemma_last_place(name, '.');
    let at = last_place(name, '.');
    assert(name[stem.len() as int] == '.');
    assert(at == stem.len()) by {
        if at > stem.len() {
            assert(name[at] == ext[at - stem.len() - 1]);
            assert(ext.contains('.'));
        }
    }
    assert(name.skip(at + 1) =~= ext);
    assert(name.take(at) =~= stem);
    lemma_last_place(ext, '.');
    let hidden = seq!['.'] + ext;
    lemma_last_place(hidden, '.');
    let k = last_place(hidden, '.');
    assert(hidden[0] == '.');
    assert(k == 0) by {
        if k > 0 {
            assert(hidden[k] == ext[k - 1]);
            assert(ext.contains('.'));
        }
    }
}

/// The server and the share that a path begins with are no components of it: a file directly
/// below them stands in no directory.
pub proof fn law_share_is_no_component(server: Seq<char>, share: Seq<char>, name: Seq<char>)
    requires
        server.len() > 0,
        share.len() > 0,
        name.len() > 0,
        server != seq!['?'],
        server != seq!['.'],
        name != seq!['.'],
        name != seq!['.', '.'],
        forall|i: int| 0 <= i < server.len() ==> !is_separator(#[trigger] server[i]),
        forall|i: int| 0 <= i < share.len() ==> !is_separator(#[trigger] share[i]),
        forall|i: int| 0 <= i < name.len() ==> !is_separator(#[trigger] name[i]),
    ensures
        ({
            let path = seq!['\\', '\\'] + server + seq!['\\'] + share + seq!['\\'] + name;
            &&& prefix_len(path) == 2 + server.len() + 1 + share.len()
            &&& file_name_of(path) == Some(name)
            &&& parent_name_of(path) is None
        }),
{
    let path = seq!['\\', '\\'] + server + seq!['\\'] + share + seq!['\\'] + name;
    let a = 2 + server.len() as int;
    let b = a + 1 + share.len() as int;
    let n = path.len() as int;
    assert forall|i: int| 2 <= i < a implies !parts_path(#[trigger] path[i], false) by {
        assert(path[i] == server[i - 2]);
    }
    assert forall|i: int| a + 1 <= i < b implies !parts_path(#[trigger] path[i], false) by {
        assert(path[i] == share[i - a - 1]);
    }
    assert(path[a] == '\\' && path[b] == '\\');
    lemma_separator_at(path, 2, a, false);
    lemma_separator_at(path, a + 1, b, false);
    assert(!is_verbatim(path)) by {
        if is_verbatim(path) {
            assert(path[2] == server[0]);
            if server.len() > 1 {
                assert(path[3] == server[1]);
                assert(!is_separator(server[1]));
            } else {
                assert(server =~= seq!['?']);
            }
        }
    }
    assert(!(path[2] == '.' && is_separator(path[3]))) by {
        assert(path[2] == server[0]);
        if server.len() > 1 {
            assert(path[3] == server[1]);
            assert(!is_separator(server[1]));
        } else if path[2] == '.' {
            assert(server =~= seq!['.']);
        }
    }
    assert(prefix_len(path) == b);
    let dir = path.take(b);
    assert(path =~= dir + seq!['\\'] + name);
    law_file_name_is_the_last_part(path, dir, name);
    assert forall|i: int| b + 1 <= i < n implies !parts_path(#[trigger] path[i], false) by {
        assert(path[i] == name[i - b - 1]);
    }
    lemma_component(path, b, false, b + 1, n);
    assert(last_component(path, n) == (b + 1, n)) by {
        assert(!is_dots(path, b + 1, n, 1)) by {
            if is_dots(path, b + 1, n, 1) {
                assert(path[b + 1] == '.');
                assert(name =~= seq!['.']);
            }
        }
    }
    assert(last_component_end(path, b, false, b + 1) == last_component_end(path, b, false, b));
}

proof fn lemma_separator_at(s: Seq<char>, from: int, at: int, verbatim: bool)
    requires
        0 <= from <= at < s.len(),
        parts_path(s[at], verbatim),
        forall|i: int| from <= i < at ==> !parts_path(#[trigger] s[i], verbatim),
    ensures
        separator_from(s, from, verbatim) == at,
    decreases at - from,
{
    if from < at {
        assert(!parts_path(s[from], verbatim));
        lemma_separator_at(s, from + 1, at, verbatim);
    }
}

/// A drive is no component of a path.
pub proof fn law_drive_is_no_component(drive: char, rest: Seq<char>)
    requires
        ('a' <= drive && drive <= 'z') || ('A' <= drive && drive <= 'Z'),
    ensures
        prefix_len(seq![drive, ':'] + rest) == 2,
        file_name_of(seq![drive, ':']) is None,
{
    let path = seq![drive, ':'] + rest;
    assert(path[0] == drive && path[1] == ':');
    let bare = seq![drive, ':'];
    assert(prefix_len(bare) == 2);
    assert(last_component_end(bare, 2, is_verbatim(bare), 2) == 2);
    assert(component_start(bare, 2, is_verbatim(bare), 2) == 2);
}

} // verus!
