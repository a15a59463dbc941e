//! Named values as bytes, the way they travel through the player's pipe: for
//! each pair the two lengths and the two texts.

use crate::media_info::pair_views;
use crate::pcm::{le_value, pow256, read_le};
use vstd::prelude::*;
use vstd::utf8::{decode_utf8, encode_utf8, valid_utf8};

verus! {

/// A number below 2 to the power of 32 as four bytes, the lowest first.
pub open spec fn u32_bytes(n: int) -> Seq<u8> {
    seq![
        (n % 0x100) as u8,
        (n / 0x100 % 0x100) as u8,
        (n / 0x1_0000 % 0x100) as u8,
        (n / 0x100_0000 % 0x100) as u8,
    ]
}

/// The bytes of a pair.
pub open spec fn pair_bytes(pair: (Seq<char>, Seq<char>)) -> Seq<u8> {
    let k = encode_utf8(pair.0);
    let v = encode_utf8(pair.1);
    u32_bytes(k.len() as int) + u32_bytes(v.len() as int) + k + v
}

/// The bytes of some pairs, one after the other.
pub open spec fn pairs_bytes(pairs: Seq<(Seq<char>, Seq<char>)>) -> Seq<u8>
    decreases pairs.len(),
{
    if pairs.len() == 0 {
        seq![]
    } else {
        pairs_bytes(pairs.drop_last()) + pair_bytes(pairs.last())
    }
}

fn push_u32(out: &mut Vec<u8>, n: usize)
    ensures
        final(out)@ == old(out)@ + u32_bytes(n as int),
{
    out.push((n % 0x100) as u8);
    out.push((n / 0x100 % 0x100) as u8);
    out.push((n / 0x1_0000 % 0x100) as u8);
    out.push((n / 0x100_0000 % 0x100) as u8);
    assert(out@ =~= old(out)@ + u32_bytes(n as int));
}

fn push_bytes(out: &mut Vec<u8>, bytes: &[u8])
    ensures
        final(out)@ == old(out)@ + bytes@,
{
    let mut i: usize = 0;
    while i < bytes.len()
        invariant
            i <= bytes@.len(),
            out@ == old(out)@ + bytes@.take(i as int),
        decreases bytes@.len() - i,
    {
        out.push(bytes[i]);
        i += 1;
        assert(out@ =~= old(out)@ + bytes@.take(i as int));
    }
    assert(bytes@.take(bytes@.len() as int) =~= bytes@);
}

/// The bytes of some pairs. Of a length the lowest 32 bits are written.
pub fn vec2bin(list: &Vec<(String, String)>) -> (r: Vec<u8>)
    ensures
        r@ == pairs_bytes(pair_views(list@)),
{
    let mut out: Vec<u8> = Vec::new();
    let ghost views = pair_views(list@);
    let mut i: usize = 0;
    while i < list.len()
        invariant
            i <= list@.len(),
            views == pair_views(list@),
            out@ == pairs_bytes(views.take(i as int)),
        decreases list@.len() - i,
    {
        proof {
            assert(views.take(i + 1).drop_last() =~= views.take(i as int));
            assert(views.take(i + 1).last() == views[i as int]);
        }
        let ghost before = out@;
        let k = list[i].0.as_str().as_bytes();
        let v = list[i].1.as_str().as_bytes();
        push_u32(&mut out, k.len());
        push_u32(&mut out, v.len());
        push_bytes(&mut out, k);
        push_bytes(&mut out, v);
        assert(out@ =~= before + pair_bytes(views[i as int]));
        i += 1;
    }
    assert(views.take(list@.len() as int) =~= views);
    out
}

/// `std::str::from_utf8` accepts exactly the well-formed UTF-8 sequences, and
/// the text that it gives is the one that the bytes stand for.
#[verifier::external_body]
pub(crate) fn utf8_text(bytes: &[u8]) -> (r: Option<String>)
    ensures
        r is Some <==> valid_utf8(bytes@),
        r matches Some(s) ==> s@ == decode_utf8(bytes@),
{
    std::str::from_utf8(bytes).ok().map(|s| s.to_owned())
}

/// Whether a whole pair stands at `at`, with texts that are UTF-8.
pub open spec fn pair_fits(bytes: Seq<u8>, at: int) -> bool {
    let k = le_value(bytes, at, 4);
    let v = le_value(bytes, at + 4, 4);
    &&& at + 8 + k + v <= bytes.len()
    &&& valid_utf8(bytes.subrange(at + 8, at + 8 + k))
    &&& valid_utf8(bytes.subrange(at + 8 + k, at + 8 + k + v))
}

/// The pair at `at`.
pub open spec fn pair_at(bytes: Seq<u8>, at: int) -> (Seq<char>, Seq<char>) {
    let k = le_value(bytes, at, 4);
    let v = le_value(bytes, at + 4, 4);
    (
        decode_utf8(bytes.subrange(at + 8, at + 8 + k)),
        decode_utf8(bytes.subrange(at + 8 + k, at + 8 + k + v)),
    )
}

/// The pairs from `at` on; `None` where one is not whole or not text.
pub open spec fn pairs_from(bytes: Seq<u8>, at: int) -> Option<Seq<(Seq<char>, Seq<char>)>>
    decreases bytes.len() - at,
{
    if at >= bytes.len() {
        Some(seq![])
    } else if at < 0 || at + 8 > bytes.len() || !pair_fits(bytes, at) {
        None
    } else {
        let size = 8 + le_value(bytes, at, 4) + le_value(bytes, at + 4, 4);
        if size < 8 {
            None
        } else {
            match pairs_from(bytes, at + size) {
                Some(rest) => Some(seq![pair_at(bytes, at)] + rest),
                None => None,
            }
        }
    }
}

fn read_len(bytes: &[u8], at: usize) -> (r: usize)
    requires
        at + 4 <= bytes@.len(),
    ensures
        r == le_value(bytes@, at as int, 4),
        r < 0x1_0000_0000,
{
    let v: u64 = read_le(bytes, at, 4);
    proof {
        reveal_with_fuel(pow256, 5);
    }
    v as usize
}

/// The pairs that some bytes hold; `None` where the bytes do not hold whole
/// pairs of texts.
pub fn bin2vec(bin: &Vec<u8>) -> (r: Option<Vec<(String, String)>>)
    ensures
        r is Some <==> pairs_from(bin@, 0) is Some,
        r matches Some(list) ==> Some(pair_views(list@)) == pairs_from(bin@, 0),
{
    let bytes = bin.as_slice();
    let n: usize = bytes.len();
    let mut list: Vec<(String, String)> = Vec::new();
    let mut at: usize = 0;
    let ghost whole = pairs_from(bin@, 0);
    while at < n
        invariant
            bytes@ == bin@,
            n == bin@.len(),
            at <= n,
            whole == pairs_from(bin@, 0),
            match pairs_from(bin@, at as int) {
                Some(rest) => whole is Some && whole->0 =~= pair_views(list@) + rest,
                None => whole is None,
            },
        decreases n - at,
    {
        if n - at < 8 {
            return None;
        }
        let k_len: usize = read_len(bytes, at);
        let v_len: usize = read_len(bytes, at + 4);
        let room: usize = n - at - 8;
        if k_len > room || v_len > room - k_len {
            return None;
        }
        let k_bytes = vstd::slice::slice_subrange(bytes, at + 8, at + 8 + k_len);
        let v_bytes = vstd::slice::slice_subrange(bytes, at + 8 + k_len, at + 8 + k_len + v_len);
        let key = match utf8_text(k_bytes) {
            Some(key) => key,
            None => return None,
        };
        let val = match utf8_text(v_bytes) {
            Some(val) => val,
            None => return None,
        };
        let ghost before = pair_views(list@);
        let ghost here = pair_at(bin@, at as int);
        list.push((key, val));
        assert(pair_views(list@) =~= before.push(here));
        let next: usize = at + 8 + k_len + v_len;
        proof {
            match pairs_from(bin@, next as int) {
                Some(rest) => {
                    assert(before + (seq![here] + rest) =~= before.push(here) + rest);
                },
                None => {},
            }
        }
        at = next;
    }
    proof {
        assert(pair_views(list@) + Seq::<(Seq<char>, Seq<char>)>::empty() =~= pair_views(list@));
    }
    Some(list)
}

/// Whether the texts of some pairs are short enough for their lengths to be
/// written.
pub open spec fn lengths_fit(pairs: Seq<(Seq<char>, Seq<char>)>) -> bool {
    forall|i: int|
        0 <= i < pairs.len() ==> encode_utf8((#[trigger] pairs[i]).0).len() < 0x1_0000_0000
            && encode_utf8(pairs[i].1).len() < 0x1_0000_0000
}

proof fn lemma_u32_round_trip(bytes: Seq<u8>, at: int, n: int)
    requires
        0 <= n < 0x1_0000_0000,
        0 <= at,
        at + 4 <= bytes.len(),
        bytes.subrange(at, at + 4) == u32_bytes(n),
    ensures
        le_value(bytes, at, 4) == n,
{
    let b = u32_bytes(n);
    let sub = bytes.subrange(at, at + 4);
    assert(bytes[at] == sub[0] && bytes[at + 1] == sub[1] && bytes[at + 2] == sub[2] && bytes[at
        + 3] == sub[3]);
    reveal_with_fuel(le_value, 5);
    assert(le_value(bytes, at, 4) == b[0] + 0x100 * (b[1] + 0x100 * (b[2] + 0x100 * b[3])));
}

proof fn lemma_pairs_bytes_front(first: (Seq<char>, Seq<char>), rest: Seq<(Seq<char>, Seq<char>)>)
    ensures
        pairs_bytes(seq![first] + rest) == pair_bytes(first) + pairs_bytes(rest),
    decreases rest.len(),
{
    let all = seq![first] + rest;
    if rest.len() == 0 {
        assert(all.drop_last() =~= rest);
        assert(all.last() == first);
        assert(pairs_bytes(rest) =~= seq![]);
        assert(pairs_bytes(all) =~= pair_bytes(first) + pairs_bytes(rest));
    } else {
        lemma_pairs_bytes_front(first, rest.drop_last());
        assert(all.drop_last() =~= seq![first] + rest.drop_last());
        assert(all.last() == rest.last());
        assert(pairs_bytes(all) =~= pair_bytes(first) + pairs_bytes(rest));
    }
}

proof fn lemma_first_pair(
    bytes: Seq<u8>,
    at: int,
    first: (Seq<char>, Seq<char>),
    after: Seq<u8>,
)
    requires
        0 <= at <= bytes.len(),
        bytes.skip(at) == pair_bytes(first) + after,
        encode_utf8(first.0).len() < 0x1_0000_0000,
        encode_utf8(first.1).len() < 0x1_0000_0000,
    ensures
        at + 8 <= bytes.len(),
        le_value(bytes, at, 4) == encode_utf8(first.0).len(),
        le_value(bytes, at + 4, 4) == encode_utf8(first.1).len(),
        pair_fits(bytes, at),
        pair_at(bytes, at) == first,
        bytes.skip(at + pair_bytes(first).len()) == after,
        pair_bytes(first).len() == 8 + encode_utf8(first.0).len() + encode_utf8(first.1).len(),
{
    let k = encode_utf8(first.0);
    let v = encode_utf8(first.1);
    let head = pair_bytes(first);
    let tail = bytes.skip(at);
    let kb = u32_bytes(k.len() as int);
    let vb = u32_bytes(v.len() as int);
    assert(head == kb + vb + k + v);
    assert(head.len() == 8 + k.len() + v.len());
    assert(tail.len() == bytes.len() - at);
    assert forall|i: int| 0 <= i < head.len() implies #[trigger] bytes[at + i] == head[i] by {
        assert(tail[i] == bytes[at + i]);
    }
    assert(bytes.subrange(at, at + 4) =~= kb) by {
        assert forall|i: int| 0 <= i < 4 implies bytes[at + i] == kb[i] by {
            assert(head[i] == kb[i]);
        }
    }
    assert(bytes.subrange(at + 4, at + 8) =~= vb) by {
        assert forall|i: int| 0 <= i < 4 implies #[trigger] vb[i] == bytes[at + 4 + i] by {
            assert(bytes[at + (4 + i)] == head[4 + i]);
            assert(head[4 + i] == vb[i]);
        }
    }
    lemma_u32_round_trip(bytes, at, k.len() as int);
    lemma_u32_round_trip(bytes, at + 4, v.len() as int);
    assert(bytes.subrange(at + 8, at + 8 + k.len()) =~= k) by {
        assert forall|i: int| 0 <= i < k.len() implies #[trigger] k[i] == bytes[at + 8 + i] by {
            assert(bytes[at + (8 + i)] == head[8 + i]);
            assert(head[8 + i] == k[i]);
        }
    }
    assert(bytes.subrange(at + 8 + k.len(), at + 8 + k.len() + v.len()) =~= v) by {
        assert forall|i: int| 0 <= i < v.len() implies #[trigger] v[i] == bytes[at + 8 + k.len()
            + i] by {
            assert(bytes[at + (8 + k.len() + i)] == head[8 + k.len() + i]);
            assert(head[8 + k.len() + i] == v[i]);
        }
    }
    vstd::utf8::encode_utf8_valid_utf8(first.0);
    vstd::utf8::encode_utf8_valid_utf8(first.1);
    vstd::utf8::encode_utf8_decode_utf8(first.0);
    vstd::utf8::encode_utf8_decode_utf8(first.1);
    let rest = bytes.skip(at + head.len());
    assert(rest =~= after) by {
        assert forall|i: int| 0 <= i < after.len() implies rest[i] == #[trigger] after[i] by {
            assert(tail[head.len() + i] == after[i]);
        }
    }
}

proof fn lemma_pairs_after(bytes: Seq<u8>, at: int, pairs: Seq<(Seq<char>, Seq<char>)>)
    requires
        0 <= at <= bytes.len(),
        bytes.skip(at) == pairs_bytes(pairs),
        lengths_fit(pairs),
    ensures
        pairs_from(bytes, at) == Some(pairs),
    decreases pairs.len(),
{
    if pairs.len() == 0 {
        assert(bytes.skip(at).len() == 0);
        assert(pairs =~= seq![]);
    } else {
        let first = pairs[0];
        let rest = pairs.drop_first();
        assert(seq![first] + rest =~= pairs);
        lemma_pairs_bytes_front(first, rest);
        lemma_first_pair(bytes, at, first, pairs_bytes(rest));
        assert(lengths_fit(rest)) by {
            assert forall|i: int| 0 <= i < rest.len() implies encode_utf8(
                (#[trigger] rest[i]).0,
            ).len() < 0x1_0000_0000 && encode_utf8(rest[i].1).len() < 0x1_0000_0000 by {
                assert(rest[i] == pairs[i + 1]);
            }
        }
        lemma_pairs_after(bytes, at + pair_bytes(first).len(), rest);
    }
}

/// The pairs that went in come out again.
pub proof fn law_pairs_round_trip(pairs: Seq<(Seq<char>, Seq<char>)>)
    requires
        lengths_fit(pairs),
    ensures
        pairs_from(pairs_bytes(pairs), 0) == Some(pairs),
{
    assert(pairs_bytes(pairs).skip(0) =~= pairs_bytes(pairs));
    lemma_pairs_after(pairs_bytes(pairs), 0, pairs);
}

/// A pair stands in bytes as the length of its name, the length of its value, each in four
/// bytes with the least significant one first, and then the two texts in UTF-8.
pub proof fn law_pair_in_bytes(pair: (Seq<char>, Seq<char>))
    requires
        lengths_fit(seq![pair]),
    ensures
        ({
            let bytes = pair_bytes(pair);
            let (k, v) = (encode_utf8(pair.0), encode_utf8(pair.1));
            &&& bytes.len() == 8 + k.len() + v.len()
            &&& bytes[0] + 0x100 * bytes[1] + 0x1_0000 * bytes[2] + 0x100_0000 * bytes[3] == k.len()
            &&& bytes[4] + 0x100 * bytes[5] + 0x1_0000 * bytes[6] + 0x100_0000 * bytes[7] == v.len()
            &&& bytes.subrange(8, 8 + k.len() as int) == k
            &&& bytes.skip(8 + k.len() as int) == v
        }),
{
    let bytes = pair_bytes(pair);
    let (k, v) = (encode_utf8(pair.0), encode_utf8(pair.1));
    assert(seq![pair][0] == pair);
    let (m, n) = (u32_bytes(k.len() as int), u32_bytes(v.len() as int));
    lemma_u32_value(k.len() as int);
    lemma_u32_value(v.len() as int);
    assert(bytes[0] == m[0] && bytes[1] == m[1] && bytes[2] == m[2] && bytes[3] == m[3]);
    assert(bytes[4] == n[0] && bytes[5] == n[1] && bytes[6] == n[2] && bytes[7] == n[3]);
    assert(bytes.subrange(8, 8 + k.len() as int) =~= k);
    assert(bytes.skip(8 + k.len() as int) =~= v);
}

proof fn lemma_u32_value(n: int)
    requires
        0 <= n < 0x1_0000_0000,
    ensures
        u32_bytes(n).len() == 4,
        u32_bytes(n)[0] + 0x100 * u32_bytes(n)[1] + 0x1_0000 * u32_bytes(n)[2] + 0x100_0000
            * u32_bytes(n)[3] == n,
{
}

/// Pairs stand one behind the other.
pub proof fn law_pairs_stand_one_behind_the_other(
    pairs: Seq<(Seq<char>, Seq<char>)>,
    pair: (Seq<char>, Seq<char>),
)
    ensures
        pairs_bytes(Seq::empty()).len() == 0,
        pairs_bytes(pairs.push(pair)) == pairs_bytes(pairs) + pair_bytes(pair),
{
    assert(pairs.push(pair).drop_last() =~= pairs);
}

/// Bytes that break off inside a pair are refused.
pub proof fn law_broken_pairs_are_refused(bytes: Seq<u8>)
    ensures
        0 < bytes.len() < 8 ==> pairs_from(bytes, 0) is None,
        bytes.len() == 0 ==> pairs_from(bytes, 0) == Some(Seq::<(Seq<char>, Seq<char>)>::empty()),
        bytes.len() >= 8 && 8 + le_value(bytes, 0, 4) + le_value(bytes, 4, 4) > bytes.len()
            ==> pairs_from(bytes, 0) is None,
{
    if bytes.len() == 0 {
        assert(pairs_from(bytes, 0) == Some(Seq::<(Seq<char>, Seq<char>)>::empty()));
    }
}

} // verus!
