//! Putting texts into order.

use crate::path::{
    cmp_ascii_case_insensitive, folded_order, law_byte_order_is_total, lower_bytes, order_text,
    text_order,
};
use crate::song::text_views;
use std::cmp::Ordering;
use vstd::prelude::*;

verus! {

/// The order of texts: by their bytes, or first without regard to the case of
/// ASCII letters.
#[derive(Clone, Copy, PartialEq, Eq, Structural)]
pub enum TextOrder {
    Bytes,
    Folded,
}

/// Whether no text of a list comes after one behind it.
pub open spec fn is_in_order(order: TextOrder, texts: Seq<Seq<char>>) -> bool {
    forall|i: int, j: int|
        0 <= i < j < texts.len() ==> !comes_after(order, #[trigger] texts[i], #[trigger] texts[j])
}

/// Whether a text comes after another one.
pub open spec fn comes_after(order: TextOrder, a: Seq<char>, b: Seq<char>) -> bool {
    match order {
        TextOrder::Bytes => text_order(a, b) == Ordering::Greater,
        TextOrder::Folded => folded_order(a, b) == Ordering::Greater || (folded_order(a, b)
            == Ordering::Equal && text_order(a, b) == Ordering::Greater),
    }
}

fn is_after(order: TextOrder, a: &str, b: &str) -> (r: bool)
    ensures
        r == comes_after(order, a@, b@),
{
    let bytes: bool = match order_text(a, b) {
        Ordering::Greater => true,
        _ => false,
    };
    match order {
        TextOrder::Bytes => bytes,
        TextOrder::Folded => match cmp_ascii_case_insensitive(a, b) {
            Ordering::Greater => true,
            Ordering::Equal => bytes,
            Ordering::Less => false,
        },
    }
}

proof fn lemma_comes_after(order: TextOrder, a: Seq<char>, b: Seq<char>, c: Seq<char>)
    ensures
        !comes_after(order, a, b) && !comes_after(order, b, c) ==> !comes_after(order, a, c),
        comes_after(order, a, b) ==> !comes_after(order, b, a),
{
    let (x, y, z) = (
        vstd::utf8::encode_utf8(a),
        vstd::utf8::encode_utf8(b),
        vstd::utf8::encode_utf8(c),
    );
    law_byte_order_is_total(x, y, z);
    law_byte_order_is_total(y, z, x);
    law_byte_order_is_total(x, z, y);
    let (u, v, w) = (lower_bytes(x), lower_bytes(y), lower_bytes(z));
    law_byte_order_is_total(u, v, w);
    law_byte_order_is_total(v, w, u);
    law_byte_order_is_total(u, w, v);
}

proof fn lemma_insert_multiset<T>(s: Seq<T>, at: int, x: T)
    requires
        0 <= at <= s.len(),
    ensures
        s.insert(at, x).to_multiset() == s.to_multiset().insert(x),
{
    broadcast use vstd::seq_lib::group_to_multiset_ensures;

    let t = s.insert(at, x);
    assert(t.remove(at) =~= s);
    assert(t[at] == x);
    assert(t.contains(x));
    assert(t.remove(at).to_multiset() == t.to_multiset().remove(x));
    assert(t.to_multiset() =~= s.to_multiset().insert(x));
}

/// Puts texts into their order.
pub fn sort_texts(order: TextOrder, texts: Vec<String>) -> (r: Vec<String>)
    ensures
        is_in_order(order, text_views(r@)),
        text_views(r@).to_multiset() == text_views(texts@).to_multiset(),
{
    let ghost all = text_views(texts@);
    let mut r: Vec<String> = Vec::new();
    let mut i: usize = 0;
    assert(text_views(r@) =~= all.take(0));
    while i < texts.len()
        invariant
            i <= texts@.len(),
            all == text_views(texts@),
            is_in_order(order, text_views(r@)),
            text_views(r@).to_multiset() == all.take(i as int).to_multiset(),
        decreases texts@.len() - i,
    {
        let t: String = texts[i].clone();
        let ghost before = text_views(r@);
        let mut at: usize = r.len();
        while at > 0 && is_after(order, r[at - 1].as_str(), t.as_str())
            invariant
                at <= r@.len(),
                before == text_views(r@),
                is_in_order(order, before),
                forall|k: int| at <= k < before.len() ==> comes_after(order, #[trigger] before[k], t@),
            decreases at,
        {
            at -= 1;
        }
        proof {
            assert(before.len() == r@.len());
            if at > 0 {
                assert(before[at - 1] == r@[at - 1]@);
            }
            lemma_sorted_insert(order, before, t@, at as int);
            lemma_insert_multiset(before, at as int, t@);
            assert(all.take(i + 1) =~= all.take(i as int).push(all[i as int]));
            vstd::seq_lib::to_multiset_build(all.take(i as int), all[i as int]);
            assert(t@ == all[i as int]);
        }
        r.insert(at, t);
        assert(text_views(r@) =~= before.insert(at as int, t@));
        i += 1;
    }
    assert(all.take(texts@.len() as int) =~= all);
    r
}

proof fn lemma_sorted_insert(order: TextOrder, s: Seq<Seq<char>>, t: Seq<char>, at: int)
    requires
        is_in_order(order, s),
        0 <= at <= s.len(),
        at > 0 ==> !comes_after(order, s[at - 1], t),
        forall|k: int| at <= k < s.len() ==> comes_after(order, #[trigger] s[k], t),
    ensures
        is_in_order(order, s.insert(at, t)),
{
    let after = s.insert(at, t);
    assert forall|i: int, j: int| 0 <= i < j < after.len() implies !comes_after(
        order,
        #[trigger] after[i],
        #[trigger] after[j],
    ) by {
        if j < at {
            assert(after[i] == s[i] && after[j] == s[j]);
        } else if j == at {
            assert(after[i] == s[i]);
            if i < at - 1 {
                lemma_comes_after(order, s[i], s[at - 1], t);
            }
        } else if i == at {
            assert(after[j] == s[j - 1]);
            lemma_comes_after(order, s[j - 1], t, t);
        } else {
            let bi = if i < at {
                i
            } else {
                i - 1
            };
            assert(after[i] == s[bi] && after[j] == s[j - 1]);
        }
    }
}

/// There is only one way to put texts into order.
pub proof fn law_order_is_unique(order: TextOrder, a: Seq<Seq<char>>, b: Seq<Seq<char>>)
    requires
        is_in_order(order, a),
        is_in_order(order, b),
        a.to_multiset() == b.to_multiset(),
    ensures
        a == b,
    decreases a.len(),
{
    broadcast use vstd::seq_lib::group_to_multiset_ensures;

    a.to_multiset_ensures();
    b.to_multiset_ensures();
    if a.len() > 0 {
        let last = a.len() - 1;
        let (x, y) = (a[last], b[last]);
        assert(a.contains(x) && b.contains(y));
        assert(b.to_multiset().count(x) > 0 && a.to_multiset().count(y) > 0);
        assert(b.contains(x) && a.contains(y));
        let i = choose|i: int| 0 <= i < b.len() && b[i] == x;
        let j = choose|j: int| 0 <= j < a.len() && a[j] == y;
        assert(x == y) by {
            if i < last && j < last {
                assert(!comes_after(order, b[i], b[last]));
                assert(!comes_after(order, a[j], a[last]));
                lemma_same_place(order, x, y);
            }
        }
        assert(a.remove(last) =~= a.drop_last() && b.remove(last) =~= b.drop_last());
        vstd::seq_lib::to_multiset_remove(a, last);
        vstd::seq_lib::to_multiset_remove(b, last);
        law_order_is_unique(order, a.drop_last(), b.drop_last());
        assert(a =~= a.drop_last().push(x));
        assert(b =~= b.drop_last().push(y));
    } else {
        assert(a =~= b);
    }
}

proof fn lemma_same_place(order: TextOrder, x: Seq<char>, y: Seq<char>)
    requires
        !comes_after(order, x, y),
        !comes_after(order, y, x),
    ensures
        x == y,
{
    let (p, q) = (vstd::utf8::encode_utf8(x), vstd::utf8::encode_utf8(y));
    law_byte_order_is_total(p, q, q);
    law_byte_order_is_total(q, p, p);
    law_byte_order_is_total(lower_bytes(p), lower_bytes(q), lower_bytes(q));
    law_byte_order_is_total(lower_bytes(q), lower_bytes(p), lower_bytes(p));
    vstd::utf8::encode_utf8_decode_utf8(x);
    vstd::utf8::encode_utf8_decode_utf8(y);
}

/// A list of texts is in order where no text comes behind one that is after it: by its bytes,
/// or first without regard to case.
pub proof fn law_order_of_texts(a: Seq<char>, b: Seq<char>)
    ensures
        comes_after(TextOrder::Bytes, a, b) <==> text_order(b, a) == Ordering::Less,
        folded_order(b, a) == Ordering::Less ==> comes_after(TextOrder::Folded, a, b),
        folded_order(a, b) == Ordering::Less ==> !comes_after(TextOrder::Folded, a, b),
        folded_order(a, b) == Ordering::Equal ==> (comes_after(TextOrder::Folded, a, b)
            <==> text_order(b, a) == Ordering::Less),
        !comes_after(TextOrder::Bytes, a, a) && !comes_after(TextOrder::Folded, a, a),
{
    let (x, y) = (vstd::utf8::encode_utf8(a), vstd::utf8::encode_utf8(b));
    law_byte_order_is_total(x, y, x);
    law_byte_order_is_total(y, x, y);
    law_byte_order_is_total(x, x, x);
    let (p, q) = (lower_bytes(x), lower_bytes(y));
    law_byte_order_is_total(p, q, p);
    law_byte_order_is_total(q, p, q);
    law_byte_order_is_total(p, p, p);
}

} // verus!
