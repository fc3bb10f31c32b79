//! The mathematical meaning of a scan: where a pattern occurs, which
//! occurrence a scan reports first, and what a whole substitution produces.

use vstd::prelude::*;

verus! {

/// Pattern `i` is a non-empty pattern that occurs in `t` starting at `s`.
/// Empty patterns never count as occurring.
pub open spec fn occurs_at(pats: Seq<Seq<u8>>, t: Seq<u8>, i: int, s: int) -> bool {
    &&& 0 <= i < pats.len()
    &&& pats[i].len() > 0
    &&& 0 <= s
    &&& s + pats[i].len() <= t.len()
    &&& t.subrange(s, s + pats[i].len()) == pats[i]
}

/// No pattern occurs anywhere in `t`.
pub open spec fn no_occurrence(pats: Seq<Seq<u8>>, t: Seq<u8>) -> bool {
    forall|i: int, s: int| !occurs_at(pats, t, i, s)
}

/// `(s, i)` is the occurrence that a scan of `t` reports first: among all
/// occurrences it ends earliest; among those ending there it starts earliest
/// (the longest); among identical patterns it has the lowest index.
pub open spec fn is_first_match(pats: Seq<Seq<u8>>, t: Seq<u8>, s: int, i: int) -> bool {
    &&& occurs_at(pats, t, i, s)
    &&& forall|j: int, s2: int| #[trigger] occurs_at(pats, t, j, s2) ==> {
        let e = s + pats[i].len();
        let e2 = s2 + pats[j].len();
        &&& e <= e2
        &&& e2 == e ==> s <= s2
        &&& (e2 == e && s2 == s) ==> i <= j
    }
}

/// The first match of a scan of `t`, as (start, pattern index), if any pattern occurs.
pub open spec fn first_match(pats: Seq<Seq<u8>>, t: Seq<u8>) -> Option<(int, int)> {
    if exists|m: (int, int)| is_first_match(pats, t, m.0, m.1) {
        Some(choose|m: (int, int)| is_first_match(pats, t, m.0, m.1))
    } else {
        None
    }
}

/// The views of a sequence of byte vectors.
pub open spec fn views(v: Seq<Vec<u8>>) -> Seq<Seq<u8>> {
    v.map_values(|b: Vec<u8>| b@)
}

/// Every pattern is non-empty.
pub open spec fn all_non_empty(pats: Seq<Seq<u8>>) -> bool {
    forall|i: int| 0 <= i < pats.len() ==> #[trigger] pats[i].len() > 0
}

/// The output of a scan of `t`: the text before the first match, the
/// replacement bound to the matched pattern, then the scan of the rest
/// resumed where the match ended; `t` itself where nothing matches.
pub open spec fn substitute(pats: Seq<Seq<u8>>, reps: Seq<Seq<u8>>, t: Seq<u8>) -> Seq<u8>
    decreases t.len(),
{
    match first_match(pats, t) {
        Some(m) => {
            let e = m.0 + pats[m.1].len();
            t.subrange(0, m.0) + reps[m.1] + substitute(pats, reps, t.subrange(e, t.len() as int))
        },
        None => t,
    }
}

/// A scan has one outcome: two first matches of one text are the same
/// occurrence, since ties are broken by end, then start, then lowest index.
pub proof fn lemma_first_match_unique(pats: Seq<Seq<u8>>, t: Seq<u8>, s1: int, i1: int, s2: int, i2: int)
    requires
        is_first_match(pats, t, s1, i1),
        is_first_match(pats, t, s2, i2),
    ensures
        s1 == s2,
        i1 == i2,
{
    assert(occurs_at(pats, t, i1, s1));
    assert(occurs_at(pats, t, i2, s2));
}

/// A scan whose first match is `(s, i)` copies the text before it, emits
/// the replacement of pattern `i`, and goes on with the scan of the rest.
pub proof fn lemma_substitute_step(pats: Seq<Seq<u8>>, reps: Seq<Seq<u8>>, t: Seq<u8>, s: int, i: int)
    requires
        is_first_match(pats, t, s, i),
    ensures
        substitute(pats, reps, t) == t.subrange(0, s) + reps[i] + substitute(
            pats,
            reps,
            t.subrange(s + pats[i].len(), t.len() as int),
        ),
{
    assert(is_first_match(pats, t, (s, i).0, (s, i).1));
    let m = choose|m: (int, int)| is_first_match(pats, t, m.0, m.1);
    lemma_first_match_unique(pats, t, m.0, m.1, s, i);
}

/// A scan of a text in which no pattern occurs returns that text.
pub proof fn lemma_identity_without_occurrence(pats: Seq<Seq<u8>>, reps: Seq<Seq<u8>>, t: Seq<u8>)
    requires
        no_occurrence(pats, t),
    ensures
        substitute(pats, reps, t) == t,
{
}

/// Scanning a text in which no pattern occurs, then scanning the result
/// again, gives that text both times.
pub proof fn lemma_rescan_without_occurrence(pats: Seq<Seq<u8>>, reps: Seq<Seq<u8>>, t: Seq<u8>)
    requires
        no_occurrence(pats, t),
    ensures
        substitute(pats, reps, t) == t,
        substitute(pats, reps, substitute(pats, reps, t)) == t,
{
    lemma_identity_without_occurrence(pats, reps, t);
}

/// A non-negative integer with property `p` has a least one.
proof fn lemma_least(p: spec_fn(int) -> bool, n: int)
    requires
        0 <= n,
        p(n),
    ensures
        exists|m: int| 0 <= m <= n && #[trigger] p(m) && forall|k: int| 0 <= k < m ==> !#[trigger] p(k),
    decreases n,
{
    if exists|k: int| 0 <= k < n && #[trigger] p(k) {
        let k = choose|k: int| 0 <= k < n && #[trigger] p(k);
        lemma_least(p, k);
    } else {
        assert(0 <= n <= n && p(n) && forall|k: int| 0 <= k < n ==> !#[trigger] p(k));
    }
}

/// Whenever some pattern occurs in a text, a scan of it has a first match.
pub proof fn lemma_first_match_exists(pats: Seq<Seq<u8>>, t: Seq<u8>, i: int, s: int)
    requires
        occurs_at(pats, t, i, s),
    ensures
        first_match(pats, t) is Some,
{
    let ends = |e: int| exists|j: int, s2: int| occurs_at(pats, t, j, s2) && s2 + pats[j].len() == e;
    assert(ends(s + pats[i].len()));
    lemma_least(ends, s + pats[i].len());
    let e = choose|e: int|
        0 <= e <= s + pats[i].len() && #[trigger] ends(e) && forall|k: int| 0 <= k < e ==> !#[trigger] ends(k);
    let (j0, s0) = choose|j: int, s2: int| occurs_at(pats, t, j, s2) && s2 + pats[j].len() == e;

    let starts = |a: int| exists|j: int| occurs_at(pats, t, j, a) && a + pats[j].len() == e;
    assert(starts(s0));
    lemma_least(starts, s0);
    let a = choose|a: int|
        0 <= a <= s0 && #[trigger] starts(a) && forall|k: int| 0 <= k < a ==> !#[trigger] starts(k);
    let j1 = choose|j: int| occurs_at(pats, t, j, a) && a + pats[j].len() == e;

    let ids = |j: int| occurs_at(pats, t, j, a) && a + pats[j].len() == e;
    assert(ids(j1));
    lemma_least(ids, j1);
    let j = choose|j: int| 0 <= j <= j1 && #[trigger] ids(j) && forall|k: int| 0 <= k < j ==> !#[trigger] ids(k);

    assert forall|j2: int, s2: int| #[trigger] occurs_at(pats, t, j2, s2) implies {
        let e2 = s2 + pats[j2].len();
        &&& e <= e2
        &&& e2 == e ==> a <= s2
        &&& (e2 == e && s2 == a) ==> j <= j2
    } by {
        let e2 = s2 + pats[j2].len();
        assert(ends(e2));
        if e2 == e {
            assert(starts(s2));
            if s2 == a {
                assert(ids(j2));
            }
        }
    }
    assert(is_first_match(pats, t, (a, j).0, (a, j).1));
}

} // verus!
