// SPDX-License-Identifier: GPL-3.0-or-later
//! Facts about sequences that every scanner in the crate relies on.

use vstd::prelude::*;

verus! {

/// The position of the first element that satisfies `p`, or the length when
/// there is none.
pub open spec fn index_where<T>(s: Seq<T>, p: spec_fn(T) -> bool) -> int
    decreases s.len(),
{
    if s.len() == 0 || p(s[0]) {
        0
    } else {
        1 + index_where(s.drop_first(), p)
    }
}

/// Nothing before [`index_where`] satisfies `p`; the element there, if any, does.
pub proof fn lemma_index_where<T>(s: Seq<T>, p: spec_fn(T) -> bool)
    ensures
        0 <= index_where(s, p) <= s.len(),
        forall|j: int| 0 <= j < index_where(s, p) ==> !p(#[trigger] s[j]),
        index_where(s, p) < s.len() ==> p(s[index_where(s, p)]),
    decreases s.len(),
{
    if s.len() > 0 && !p(s[0]) {
        let t = s.drop_first();
        lemma_index_where(t, p);
        assert forall|j: int| 0 <= j < index_where(s, p) implies !p(#[trigger] s[j]) by {
            if j > 0 {
                assert(s[j] == t[j - 1]);
            }
        }
        if index_where(s, p) < s.len() {
            assert(s[index_where(s, p)] == t[index_where(t, p)]);
        }
    }
}

/// A position with the properties of [`index_where`] is that position.
pub proof fn lemma_index_where_is<T>(s: Seq<T>, p: spec_fn(T) -> bool, i: int)
    requires
        0 <= i <= s.len(),
        forall|j: int| 0 <= j < i ==> !p(#[trigger] s[j]),
        i < s.len() ==> p(s[i]),
    ensures
        index_where(s, p) == i,
{
    lemma_index_where(s, p);
    let k = index_where(s, p);
    if k < i {
        assert(!p(s[k]));
    } else if i < k {
        assert(!p(s[i]));
    }
}

} // verus!
