//! The longest prefix, and the longest suffix, of a sequence whose items all satisfy
//! a predicate.

use vstd::prelude::*;

verus! {

/// Length of the longest prefix of `s` whose items all satisfy `p`.
pub open spec fn span<A>(s: Seq<A>, p: spec_fn(A) -> bool) -> nat
    decreases s.len(),
{
    if s.len() > 0 && p(s[0]) {
        1 + span(s.drop_first(), p)
    } else {
        0
    }
}

/// Length of the longest suffix of `s` whose items all satisfy `p`.
pub open spec fn span_back<A>(s: Seq<A>, p: spec_fn(A) -> bool) -> nat
    decreases s.len(),
{
    if s.len() > 0 && p(s.last()) {
        1 + span_back(s.drop_last(), p)
    } else {
        0
    }
}

/// `span` is the first position at which `p` fails, or the length of the sequence.
pub proof fn lemma_span<A>(s: Seq<A>, p: spec_fn(A) -> bool, n: int)
    requires
        0 <= n <= s.len(),
        forall|k: int| 0 <= k < n ==> p(#[trigger] s[k]),
        n == s.len() || !p(s[n]),
    ensures
        span(s, p) == n,
    decreases s.len(),
{
    if n > 0 {
        let t = s.drop_first();
        lemma_span(t, p, n - 1);
    }
}

/// What `span` returns: a position within the sequence, before which `p` holds everywhere
/// and at which it fails.
pub proof fn lemma_span_props<A>(s: Seq<A>, p: spec_fn(A) -> bool)
    ensures
        span(s, p) <= s.len(),
        forall|k: int| 0 <= k < span(s, p) ==> p(#[trigger] s[k]),
        span(s, p) == s.len() || !p(s[span(s, p) as int]),
    decreases s.len(),
{
    if s.len() > 0 && p(s[0]) {
        let t = s.drop_first();
        lemma_span_props(t, p);
        assert forall|k: int| 0 <= k < span(s, p) implies p(#[trigger] s[k]) by {
            if k > 0 {
                assert(s[k] == t[k - 1]);
            }
        }
    }
}

/// `span_back` counted from the end: `s.len() - n` is the last position at which `p`
/// fails, plus one.
pub proof fn lemma_span_back<A>(s: Seq<A>, p: spec_fn(A) -> bool, n: int)
    requires
        0 <= n <= s.len(),
        forall|k: int| s.len() - n <= k < s.len() ==> p(#[trigger] s[k]),
        n == s.len() || !p(s[s.len() - n - 1]),
    ensures
        span_back(s, p) == n,
    decreases s.len(),
{
    if n > 0 {
        let t = s.drop_last();
        lemma_span_back(t, p, n - 1);
    }
}

} // verus!
