//! Sequences without repeated entries.

use vstd::prelude::*;

verus! {

/// The entries of `s`, each at the place where it first occurs.
pub open spec fn first_occurrences<T>(s: Seq<T>) -> Seq<T>
    decreases s.len(),
{
    if s.len() == 0 {
        s
    } else {
        let front = first_occurrences(s.drop_last());
        if front.contains(s.last()) {
            front
        } else {
            front.push(s.last())
        }
    }
}

/// Dropping repetitions leaves every entry once, and loses none.
pub proof fn law_first_occurrences<T>(s: Seq<T>)
    ensures
        first_occurrences(s).no_duplicates(),
        forall|x: T| #[trigger] s.contains(x) <==> first_occurrences(s).contains(x),
        s.len() > 0 ==> first_occurrences(s).len() > 0 && first_occurrences(s)[0] == s[0],
    decreases s.len(),
{
    if s.len() > 0 {
        let front = first_occurrences(s.drop_last());
        law_first_occurrences(s.drop_last());
        assert forall|x: T| #[trigger] s.contains(x) <==> first_occurrences(s).contains(x) by {
            if s.contains(x) {
                let i = choose|i: int| 0 <= i < s.len() && s[i] == x;
                if i < s.len() - 1 {
                    assert(s.drop_last()[i] == x);
                    assert(s.drop_last().contains(x));
                    let j = choose|j: int| 0 <= j < front.len() && front[j] == x;
                    assert(first_occurrences(s)[j] == x);
                } else if !front.contains(x) {
                    assert(first_occurrences(s)[front.len() as int] == x);
                }
            }
            if first_occurrences(s).contains(x) {
                let j = choose|j: int|
                    0 <= j < first_occurrences(s).len() && first_occurrences(s)[j] == x;
                if j < front.len() {
                    assert(front[j] == x);
                    assert(s.drop_last().contains(x));
                    let i = choose|i: int| 0 <= i < s.len() - 1 && s.drop_last()[i] == x;
                    assert(s[i] == x);
                } else {
                    assert(s[s.len() - 1] == x);
                }
            }
        }
        if s.len() == 1 {
            assert(s.drop_last().len() == 0);
            assert(!front.contains(s.last()));
        }
    }
}

/// The numbers of `s`, each at the place where it first occurs.
pub fn distinct_numbers(s: &Vec<usize>) -> (r: Vec<usize>)
    ensures
        r@ == first_occurrences(s@),
{
    let mut r: Vec<usize> = Vec::new();
    let mut i: usize = 0;
    while i < s.len()
        invariant
            i <= s@.len(),
            r@ == first_occurrences(s@.take(i as int)),
        decreases s@.len() - i,
    {
        let x: usize = s[i];
        assert(s@.take(i + 1).drop_last() =~= s@.take(i as int));
        let mut known: bool = false;
        let mut j: usize = 0;
        while j < r.len()
            invariant
                j <= r@.len(),
                known <==> exists|k: int| 0 <= k < j && r@[k] == x,
            decreases r@.len() - j,
        {
            if r[j] == x {
                known = true;
            }
            j += 1;
        }
        assert(known <==> r@.contains(x));
        if !known {
            r.push(x);
        }
        i += 1;
    }
    assert(s@.take(s@.len() as int) =~= s@);
    r
}

/// What is kept of a list stays in its order: what came first for the first time comes first.
pub proof fn law_first_occurrences_keep_their_order<T>(s: Seq<T>, x: T)
    ensures
        s.contains(x) ==> first_occurrences(s.push(x)) == first_occurrences(s),
        !s.contains(x) ==> first_occurrences(s.push(x)) == first_occurrences(s).push(x),
{
    assert(s.push(x).drop_last() =~= s);
    law_first_occurrences(s);
}

} // verus!
