//! Generic helpers over sequences: first-occurrence deduplication, removal
//! of one value, occurrence counting, and the prefix-step lemma used to
//! relate loops to sequence recursions.

use vstd::prelude::*;

verus! {

/// `s` with every repeated element removed, keeping first occurrences in
/// order.
pub open spec fn spec_dedup<T>(s: Seq<T>) -> Seq<T>
    decreases s.len(),
{
    if s.len() == 0 {
        Seq::empty()
    } else {
        let d = spec_dedup(s.drop_last());
        if s.drop_last().contains(s.last()) {
            d
        } else {
            d.push(s.last())
        }
    }
}

/// Deduplication keeps exactly the members of the original sequence.
pub proof fn lemma_dedup_contains<T>(s: Seq<T>)
    ensures
        forall|x: T| #[trigger] spec_dedup(s).contains(x) == s.contains(x),
    decreases s.len(),
{
    if s.len() > 0 {
        lemma_dedup_contains(s.drop_last());
        assert forall|x: T| #[trigger] spec_dedup(s).contains(x) == s.contains(x) by {
            let d = spec_dedup(s.drop_last());
            if s.drop_last().contains(s.last()) {
                assert(s.contains(x) == (s.drop_last().contains(x) || x == s.last())) by {
                    if s.contains(x) {
                        let i = choose|i: int| 0 <= i < s.len() && s[i] == x;
                        if i < s.len() - 1 {
                            assert(s.drop_last()[i] == x);
                        }
                    }
                    if s.drop_last().contains(x) {
                        let i = choose|i: int|
                            0 <= i < s.drop_last().len() && s.drop_last()[i] == x;
                        assert(s[i] == x);
                    }
                    if x == s.last() {
                        assert(s[s.len() - 1] == x);
                    }
                }
            } else {
                if d.push(s.last()).contains(x) {
                    let i = choose|i: int|
                        0 <= i < d.push(s.last()).len() && d.push(s.last())[i] == x;
                    if i < d.len() {
                        assert(d.contains(x));
                    }
                    assert(s.contains(x));
                } else {
                    assert(!d.contains(x)) by {
                        if d.contains(x) {
                            let i = choose|i: int| 0 <= i < d.len() && d[i] == x;
                            assert(d.push(s.last())[i] == x);
                        }
                    }
                    assert(!s.drop_last().contains(x));
                    if x == s.last() {
                        assert(d.push(s.last()).last() == x);
                    }
                    assert(!s.contains(x)) by {
                        if s.contains(x) {
                            let i = choose|i: int| 0 <= i < s.len() && s[i] == x;
                            if i < s.len() - 1 {
                                assert(s.drop_last()[i] == x);
                            }
                        }
                    }
                }
            }
        }
    }
}

/// The elements of `s` that differ from `x`, in order.
pub open spec fn spec_filter_ne<T>(s: Seq<T>, x: T) -> Seq<T>
    decreases s.len(),
{
    if s.len() == 0 {
        Seq::empty()
    } else {
        let f = spec_filter_ne(s.drop_last(), x);
        if s.last() == x {
            f
        } else {
            f.push(s.last())
        }
    }
}

/// How many elements of `s` equal `x`.
pub open spec fn spec_count<T>(s: Seq<T>, x: T) -> int
    decreases s.len(),
{
    if s.len() == 0 {
        0
    } else {
        spec_count(s.drop_last(), x) + if s.last() == x {
            1int
        } else {
            0int
        }
    }
}

/// Occurrence counts are bounded by the length and positive exactly for
/// members.
pub proof fn lemma_count_bounds<T>(s: Seq<T>, x: T)
    ensures
        0 <= spec_count(s, x) <= s.len(),
        (spec_count(s, x) > 0) == s.contains(x),
    decreases s.len(),
{
    if s.len() > 0 {
        lemma_count_bounds(s.drop_last(), x);
        if s.contains(x) && s.last() != x {
            let i = choose|i: int| 0 <= i < s.len() && s[i] == x;
            assert(s.drop_last()[i] == x);
            assert(s.drop_last().contains(x));
        }
        if s.drop_last().contains(x) {
            let i = choose|i: int| 0 <= i < s.drop_last().len() && s.drop_last()[i] == x;
            assert(s[i] == x);
        }
        if s.last() == x {
            assert(s.contains(x));
        }
    }
}

/// A prefix one longer decomposes into the shorter prefix plus the next
/// element.
pub proof fn lemma_take_succ<T>(s: Seq<T>, i: int)
    requires
        0 <= i < s.len(),
    ensures
        s.take(i + 1).drop_last() =~= s.take(i),
        s.take(i + 1).last() == s[i],
        s.take(i + 1) =~= s.take(i).push(s[i]),
{
}

/// Taking the whole length gives the sequence back.
pub proof fn lemma_take_all<T>(s: Seq<T>)
    ensures
        s.take(s.len() as int) =~= s,
{
}

/// Deduplication never lengthens a sequence.
pub proof fn lemma_dedup_len<T>(s: Seq<T>)
    ensures
        spec_dedup(s).len() <= s.len(),
    decreases s.len(),
{
    if s.len() > 0 {
        lemma_dedup_len(s.drop_last());
    }
}

} // verus!
