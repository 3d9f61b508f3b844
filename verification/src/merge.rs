//! First-present-wins choice between an overriding value and a fallback.
//!
//! Configuration is layered: an instance record over ancestor records over
//! global defaults.  A field that is present at a higher layer hides every
//! lower layer; an absent field falls through.

use vstd::prelude::*;

verus! {

/// The higher-priority value if present, else the lower-priority one.
pub open spec fn opt_first<T>(high: Option<T>, low: Option<T>) -> Option<T> {
    if high is Some {
        high
    } else {
        low
    }
}

/// Choosing between a value and itself changes nothing.
pub proof fn lemma_opt_first_idem<T>(a: Option<T>)
    ensures
        opt_first(a, a) == a,
{
}

/// A present higher-priority value is never overridden, and an absent one
/// always falls through.
pub proof fn lemma_opt_first_wins<T>(high: Option<T>, low: Option<T>)
    ensures
        high is Some ==> opt_first(high, low) == high,
        high is None ==> opt_first(high, low) == low,
{
}

/// The elements whose mask bit is set, in order.
pub open spec fn mask_filter<T>(s: Seq<T>, mask: Seq<bool>) -> Seq<T>
    decreases s.len(),
{
    if s.len() == 0 {
        Seq::empty()
    } else {
        (if mask[0] {
            seq![s[0]]
        } else {
            Seq::empty()
        }) + mask_filter(s.drop_first(), mask.drop_first())
    }
}

/// Filtering one more element appends it exactly when its bit is set.
pub proof fn lemma_mask_filter_push<T>(s: Seq<T>, mask: Seq<bool>, x: T, b: bool)
    requires
        s.len() == mask.len(),
    ensures
        mask_filter(s.push(x), mask.push(b)) =~= mask_filter(s, mask) + (if b {
            seq![x]
        } else {
            Seq::<T>::empty()
        }),
    decreases s.len(),
{
    if s.len() == 0 {
        assert(s =~= Seq::<T>::empty());
        assert(mask =~= Seq::<bool>::empty());
        assert(s.push(x)[0] == x);
        assert(mask.push(b)[0] == b);
        assert(s.push(x).drop_first() =~= Seq::<T>::empty());
        assert(mask.push(b).drop_first() =~= Seq::<bool>::empty());
        assert(mask_filter(Seq::<T>::empty(), Seq::<bool>::empty()) =~= Seq::<T>::empty());
        assert(s.push(x).len() == 1);
    } else {
        lemma_mask_filter_push(s.drop_first(), mask.drop_first(), x, b);
        assert(s.push(x).drop_first() =~= s.drop_first().push(x));
        assert(mask.push(b).drop_first() =~= mask.drop_first().push(b));
        assert(s.push(x)[0] == s[0]);
        assert(mask.push(b)[0] == mask[0]);
    }
}

/// Whether the elements' keys are strictly ascending.
pub open spec fn sorted_by<T>(s: Seq<T>, key: spec_fn(T) -> Seq<char>) -> bool {
    forall|i: int, j: int|
        0 <= i < j < s.len() ==> crate::text::str_lt(key(#[trigger] s[i]), key(#[trigger] s[j]))
}

/// Every element the mask keeps comes from the input.
pub proof fn lemma_mask_filter_member<T>(s: Seq<T>, mask: Seq<bool>)
    requires
        s.len() == mask.len(),
    ensures
        forall|i: int|
            0 <= i < mask_filter(s, mask).len() ==> s.contains(#[trigger] mask_filter(s, mask)[i]),
    decreases s.len(),
{
    if s.len() > 0 {
        let tail = s.drop_first();
        let mtail = mask.drop_first();
        assert(tail.len() == s.len() - 1);
        assert(mtail.len() == mask.len() - 1);
        lemma_mask_filter_member(tail, mtail);
        let res = mask_filter(s, mask);
        let head = if mask[0] {
            seq![s[0]]
        } else {
            Seq::<T>::empty()
        };
        assert(res == head + mask_filter(tail, mtail));
        assert forall|i: int| 0 <= i < mask_filter(s, mask).len() implies s.contains(
            #[trigger] mask_filter(s, mask)[i],
        ) by {
            if mask[0] && i == 0 {
                assert(res[0] == s[0]);
                assert(s.contains(s[0]));
            } else {
                let off = if mask[0] {
                    1int
                } else {
                    0int
                };
                assert(res.len() == head.len() + mask_filter(tail, mtail).len());
                assert(0 <= i - off < mask_filter(tail, mtail).len());
                assert(res[i] == mask_filter(tail, mtail)[i - off]);
                assert(tail.contains(mask_filter(tail, mtail)[i - off]));
                let j = choose|j: int| 0 <= j < tail.len() && tail[j] == mask_filter(
                    tail,
                    mtail,
                )[i - off];
                assert(tail[j] == s[j + 1]);
                assert(s[j + 1] == mask_filter(s, mask)[i]);
                assert(s.contains(s[j + 1]));
            }
        }
    } else {
        assert(mask_filter(s, mask) =~= Seq::<T>::empty());
    }
}

/// Masking keeps the elements in order, so strictly ascending keys stay so.
pub proof fn lemma_mask_filter_sorted<T>(s: Seq<T>, mask: Seq<bool>, key: spec_fn(T) -> Seq<char>)
    requires
        s.len() == mask.len(),
        sorted_by(s, key),
    ensures
        sorted_by(mask_filter(s, mask), key),
    decreases s.len(),
{
    if s.len() > 0 {
        let tail = s.drop_first();
        let mtail = mask.drop_first();
        assert(tail.len() == s.len() - 1);
        assert(mtail.len() == mask.len() - 1);
        assert forall|i: int, j: int| 0 <= i < j < tail.len() implies crate::text::str_lt(
            key(#[trigger] tail[i]),
            key(#[trigger] tail[j]),
        ) by {
            assert(tail[i] == s[i + 1]);
            assert(tail[j] == s[j + 1]);
        }
        lemma_mask_filter_sorted(tail, mtail, key);
        lemma_mask_filter_member(tail, mtail);
        let res = mask_filter(s, mask);
        let head = if mask[0] {
            seq![s[0]]
        } else {
            Seq::<T>::empty()
        };
        assert(res == head + mask_filter(tail, mtail));
        assert forall|i: int, j: int| 0 <= i < j < mask_filter(s, mask).len() implies crate::text::str_lt(
            key(#[trigger] mask_filter(s, mask)[i]),
            key(#[trigger] mask_filter(s, mask)[j]),
        ) by {
            let off = if mask[0] {
                1int
            } else {
                0int
            };
            assert(res.len() == head.len() + mask_filter(tail, mtail).len());
            if mask[0] && i == 0 {
                assert(res[0] == s[0]);
                assert(0 <= j - 1 < mask_filter(tail, mtail).len());
                assert(res[j] == mask_filter(tail, mtail)[j - 1]);
                assert(tail.contains(mask_filter(tail, mtail)[j - 1]));
                let k = choose|k: int| 0 <= k < tail.len() && tail[k] == mask_filter(
                    tail,
                    mtail,
                )[j - 1];
                assert(tail[k] == s[k + 1]);
            } else {
                assert(0 <= i - off < mask_filter(tail, mtail).len());
                assert(0 <= j - off < mask_filter(tail, mtail).len());
                assert(res[i] == mask_filter(tail, mtail)[i - off]);
                assert(res[j] == mask_filter(tail, mtail)[j - off]);
            }
        }
    }
}

} // verus!
