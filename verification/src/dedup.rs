//! First-occurrence deduplication of a sequence, and its laws.
//!
//! `dedup` is the mathematical meaning of `Crawler::remove_duplicates`: keep
//! the first occurrence of each distinct element and drop every later repeat,
//! without reordering the survivors.

use vstd::prelude::*;

verus! {

/// The deduplicated view of `s`: element `s[i]` survives exactly when it does
/// not already occur in `s` before position `i`.
pub open spec fn dedup<A>(s: Seq<A>) -> Seq<A>
    decreases s.len(),
{
    if s.len() == 0 {
        Seq::empty()
    } else {
        let d = dedup(s.drop_last());
        if d.contains(s.last()) {
            d
        } else {
            d.push(s.last())
        }
    }
}

/// Deduplication keeps exactly the elements of the input, no more and no less.
pub proof fn lemma_dedup_contains<A>(s: Seq<A>, x: A)
    ensures
        dedup(s).contains(x) <==> s.contains(x),
    decreases s.len(),
{
    if s.len() > 0 {
        lemma_dedup_contains(s.drop_last(), x);
        let d = dedup(s.drop_last());
        if !d.contains(s.last()) {
            assert(d.push(s.last())[d.len() as int] == s.last());
            if d.contains(x) {
                let i = choose|i: int| 0 <= i < d.len() && d[i] == x;
                assert(d.push(s.last())[i] == x);
            }
            if d.push(s.last()).contains(x) {
                let i = choose|i: int|
                    0 <= i < d.push(s.last()).len() && d.push(s.last())[i] == x;
                if i < d.len() {
                    assert(d[i] == x);
                }
            }
        }
        assert(s.contains(x) <==> (s.drop_last().contains(x) || s.last() == x)) by {
            if s.contains(x) {
                let i = choose|i: int| 0 <= i < s.len() && s[i] == x;
                if i < s.len() - 1 {
                    assert(s.drop_last()[i] == x);
                }
            }
            if s.drop_last().contains(x) {
                let i = choose|i: int| 0 <= i < s.drop_last().len() && s.drop_last()[i] == x;
                assert(s[i] == x);
            }
        }
    }
}

/// The deduplicated sequence has no repeated elements.
pub proof fn lemma_dedup_no_duplicates<A>(s: Seq<A>)
    ensures
        dedup(s).no_duplicates(),
    decreases s.len(),
{
    if s.len() > 0 {
        lemma_dedup_no_duplicates(s.drop_last());
    }
}

/// A sequence without repeats is left exactly as it is.
pub proof fn lemma_dedup_of_no_duplicates<A>(s: Seq<A>)
    requires
        s.no_duplicates(),
    ensures
        dedup(s) == s,
    decreases s.len(),
{
    if s.len() == 0 {
        assert(dedup(s) =~= s);
    } else {
        assert(s.drop_last().no_duplicates());
        lemma_dedup_of_no_duplicates(s.drop_last());
        assert(!s.drop_last().contains(s.last())) by {
            if s.drop_last().contains(s.last()) {
                let i = choose|i: int|
                    0 <= i < s.drop_last().len() && s.drop_last()[i] == s.last();
                assert(s[i] == s[s.len() - 1]);
            }
        }
        assert(dedup(s) =~= s);
    }
}

/// Law: deduplication is idempotent — running it a second time changes nothing.
pub proof fn lemma_dedup_idempotent<A>(s: Seq<A>)
    ensures
        dedup(dedup(s)) == dedup(s),
{
    lemma_dedup_no_duplicates(s);
    lemma_dedup_of_no_duplicates(dedup(s));
}

/// Law: deduplication never lengthens a sequence, and leaves the length
/// unchanged exactly when the input already had no repeated elements.
pub proof fn lemma_dedup_len<A>(s: Seq<A>)
    ensures
        dedup(s).len() <= s.len(),
        dedup(s).len() == s.len() <==> s.no_duplicates(),
    decreases s.len(),
{
    if s.len() == 0 {
    } else {
        lemma_dedup_len(s.drop_last());
        lemma_dedup_contains(s.drop_last(), s.last());
        assert(s.no_duplicates() <==> (s.drop_last().no_duplicates() && !s.drop_last().contains(
            s.last(),
        ))) by {
            if s.drop_last().no_duplicates() && !s.drop_last().contains(s.last()) {
                assert forall|i: int, j: int| 0 <= i < j < s.len() implies s[i] != s[j] by {
                    if j < s.len() - 1 {
                        assert(s.drop_last()[i] == s[i] && s.drop_last()[j] == s[j]);
                    } else {
                        assert(s.drop_last()[i] == s[i]);
                        assert(!s.drop_last().contains(s.last()));
                    }
                }
            }
            if s.no_duplicates() {
                assert forall|i: int, j: int|
                    0 <= i < j < s.drop_last().len() implies s.drop_last()[i]
                    != s.drop_last()[j] by {
                    assert(s[i] == s.drop_last()[i] && s[j] == s.drop_last()[j]);
                }
                if s.drop_last().contains(s.last()) {
                    let i = choose|i: int|
                        0 <= i < s.drop_last().len() && s.drop_last()[i] == s.last();
                    assert(s[i] == s[s.len() - 1]);
                }
            }
        }
    }
}

/// Where an element first occurs in `s`; meaningful only when `s` contains it.
pub open spec fn first_pos<A>(s: Seq<A>, x: A) -> int {
    s.index_of_first(x)->0
}

proof fn lemma_first_pos_grow<A>(s: Seq<A>, x: A, y: A)
    requires
        s.contains(x),
    ensures
        s.push(y).index_of_first(x) == s.index_of_first(x),
{
    s.index_of_first_ensures(x);
    s.push(y).index_of_first_ensures(x);
    let k = s.index_of_first(x)->0;
    assert(s.push(y)[k] == x);
    assert(s.push(y).contains(x));
    let k2 = s.push(y).index_of_first(x)->0;
    assert(0 <= k2 < s.push(y).len());
    if k2 < k {
        assert(s[k2] == s.push(y)[k2]);
    }
    if k < k2 {
        assert(s.push(y)[k] == x);
    }
}

proof fn lemma_first_pos_new<A>(s: Seq<A>, y: A)
    requires
        !s.contains(y),
    ensures
        s.push(y).index_of_first(y) == Some(s.len() as int),
{
    s.push(y).index_of_first_ensures(y);
    assert(s.push(y)[s.len() as int] == y);
    assert(s.push(y).contains(y));
    let k = s.push(y).index_of_first(y)->0;
    if k < s.len() {
        assert(s[k] == s.push(y)[k]);
    }
}

/// Law: deduplication never reorders the surviving elements — they stand in
/// the order of their first occurrences in the input.
pub proof fn lemma_dedup_order<A>(s: Seq<A>)
    ensures
        forall|i: int, j: int|
            0 <= i < j < dedup(s).len() ==> {
                &&& s.index_of_first(#[trigger] dedup(s)[i]) is Some
                &&& s.index_of_first(#[trigger] dedup(s)[j]) is Some
                &&& first_pos(s, dedup(s)[i]) < first_pos(s, dedup(s)[j])
            },
    decreases s.len(),
{
    if s.len() > 0 {
        let prefix = s.drop_last();
        let d = dedup(prefix);
        lemma_dedup_order(prefix);
        assert(s =~= prefix.push(s.last()));
        assert forall|i: int, j: int| 0 <= i < j < dedup(s).len() implies {
            &&& s.index_of_first(#[trigger] dedup(s)[i]) is Some
            &&& s.index_of_first(#[trigger] dedup(s)[j]) is Some
            &&& first_pos(s, dedup(s)[i]) < first_pos(s, dedup(s)[j])
        } by {
            if j < d.len() {
                // both survivors come from the prefix; their first positions agree
                lemma_dedup_contains(prefix, d[i]);
                lemma_dedup_contains(prefix, d[j]);
                assert(d.contains(d[i]) && d.contains(d[j]));
                lemma_first_pos_grow(prefix, d[i], s.last());
                lemma_first_pos_grow(prefix, d[j], s.last());
            } else {
                // the last element was pushed: it is new, so its first
                // occurrence is the final position of `s`
                assert(!d.contains(s.last()) && dedup(s) == d.push(s.last()));
                assert(dedup(s)[j] == s.last());
                lemma_dedup_contains(prefix, s.last());
                lemma_first_pos_new(prefix, s.last());
                assert(dedup(s)[i] == d[i]);
                lemma_dedup_contains(prefix, d[i]);
                assert(d.contains(d[i]));
                lemma_first_pos_grow(prefix, d[i], s.last());
                prefix.index_of_first_ensures(d[i]);
            }
        }
    }
}

} // verus!
