//! Finding the first element of a list that has a property.

use vstd::prelude::*;

verus! {

/// The position of the first of the first `n` elements of `s` that has the
/// property `p`; `n` if none of them has it.
pub open spec fn first_where<A>(s: Seq<A>, p: spec_fn(A) -> bool, n: int) -> int
    decreases n,
{
    if n <= 0 {
        0
    } else {
        let q = first_where(s, p, n - 1);
        if q < n - 1 {
            q
        } else if p(s[n - 1]) {
            n - 1
        } else {
            n
        }
    }
}

/// What is found has the property, and nothing before it has.
pub proof fn lemma_first_where<A>(s: Seq<A>, p: spec_fn(A) -> bool, n: int)
    requires
        0 <= n <= s.len(),
    ensures
        0 <= first_where(s, p, n) <= n,
        first_where(s, p, n) < n ==> p(s[first_where(s, p, n)]),
        forall|k: int| 0 <= k < first_where(s, p, n) ==> !p(#[trigger] s[k]),
    decreases n,
{
    if n > 0 {
        lemma_first_where(s, p, n - 1);
    }
}

/// Once something is found among the first `n` elements, looking at more
/// elements finds it at the same place.
pub proof fn lemma_first_where_stays<A>(s: Seq<A>, p: spec_fn(A) -> bool, n: int, m: int)
    requires
        0 <= n < m <= s.len(),
        first_where(s, p, n) == n,
        p(s[n]),
    ensures
        first_where(s, p, m) == n,
    decreases m - n,
{
    if m > n + 1 {
        lemma_first_where_stays(s, p, n, m - 1);
    }
}

/// What is found among the first `n` elements depends on these elements
/// alone.
pub proof fn lemma_first_where_prefix<A>(s: Seq<A>, t: Seq<A>, p: spec_fn(A) -> bool, n: int)
    requires
        0 <= n <= s.len(),
        n <= t.len(),
        forall|k: int| 0 <= k < n ==> s[k] == t[k],
    ensures
        first_where(s, p, n) == first_where(t, p, n),
    decreases n,
{
    if n > 0 {
        lemma_first_where_prefix(s, t, p, n - 1);
    }
}

} // verus!
