//! Matching substrate: first-match search over a sequence, and the ordered
//! index sequences selected by a predicate. Every matcher in the differ is
//! phrased through these, which is what makes tie-breaking by snapshot
//! positional order an invariant rather than an accident.

use vstd::prelude::*;

verus! {

/// The first position at or after `j` where `p` holds, or -1 if there is none.
pub open spec fn first_where<T>(s: Seq<T>, p: spec_fn(T) -> bool, j: int) -> int
    decreases s.len() - j,
{
    if j < 0 || j >= s.len() {
        -1
    } else if p(s[j]) {
        j
    } else {
        first_where(s, p, j + 1)
    }
}

/// What a result of `first_where` means: -1 exactly when no later position
/// satisfies `p`; otherwise the result is the least satisfying position.
pub proof fn lemma_first_where_bounds<T>(s: Seq<T>, p: spec_fn(T) -> bool, j: int)
    requires
        0 <= j,
    ensures
        first_where(s, p, j) == -1 ==> forall|k: int| j <= k < s.len() ==> !p(s[k]),
        first_where(s, p, j) != -1 ==> j <= first_where(s, p, j) < s.len() && p(
            s[first_where(s, p, j)],
        ) && forall|k: int| j <= k < first_where(s, p, j) ==> !p(s[k]),
    decreases s.len() - j,
{
    if j < s.len() && !p(s[j]) {
        lemma_first_where_bounds(s, p, j + 1);
    }
}

/// A scan that found no hit in `[i, j)` pins the search result: if `j` is the
/// end, the search fails; if `p` holds at `j`, the search returns `j`.
pub proof fn lemma_first_where_from<T>(s: Seq<T>, p: spec_fn(T) -> bool, i: int, j: int)
    requires
        0 <= i <= j <= s.len(),
        forall|k: int| i <= k < j ==> !p(s[k]),
    ensures
        j == s.len() ==> first_where(s, p, i) == -1,
        j < s.len() && p(s[j]) ==> first_where(s, p, i) == j,
    decreases j - i,
{
    if i < j {
        lemma_first_where_from(s, p, i + 1, j);
    }
}

/// Predicates that agree on every element search alike.
pub proof fn lemma_first_where_congruent<T>(
    s: Seq<T>,
    p1: spec_fn(T) -> bool,
    p2: spec_fn(T) -> bool,
    j: int,
)
    requires
        forall|k: int| 0 <= k < s.len() ==> #[trigger] p1(s[k]) == #[trigger] p2(s[k]),
    ensures
        first_where(s, p1, j) == first_where(s, p2, j),
    decreases s.len() - j,
{
    if 0 <= j < s.len() && !p1(s[j]) {
        lemma_first_where_congruent(s, p1, p2, j + 1);
    }
}

/// The positions in `[0, n)` where `q` holds, in increasing order.
pub open spec fn indices_where_upto(q: spec_fn(int) -> bool, n: int) -> Seq<usize>
    decreases n,
{
    if n <= 0 {
        Seq::empty()
    } else if q(n - 1) {
        indices_where_upto(q, n - 1).push((n - 1) as usize)
    } else {
        indices_where_upto(q, n - 1)
    }
}

/// The selected positions in `[0, n)` paired with their partner, in
/// increasing order of the selected position.
pub open spec fn pairs_where_upto(
    q: spec_fn(int) -> bool,
    partner: spec_fn(int) -> int,
    n: int,
) -> Seq<(usize, usize)>
    decreases n,
{
    if n <= 0 {
        Seq::empty()
    } else if q(n - 1) {
        pairs_where_upto(q, partner, n - 1).push(((n - 1) as usize, partner(n - 1) as usize))
    } else {
        pairs_where_upto(q, partner, n - 1)
    }
}

/// Every element of the selected index sequence lies below `n` and satisfies
/// `q`, and every position below `n` satisfying `q` is an element.
pub proof fn lemma_indices_where_upto_props(q: spec_fn(int) -> bool, n: int)
    requires
        0 <= n <= usize::MAX,
    ensures
        forall|m: int|
            #![trigger indices_where_upto(q, n)[m]]
            0 <= m < indices_where_upto(q, n).len() ==> indices_where_upto(q, n)[m] < n && q(
                indices_where_upto(q, n)[m] as int,
            ),
        forall|k: int|
            0 <= k < n && #[trigger] q(k) ==> indices_where_upto(q, n).contains(k as usize),
    decreases n,
{
    if n > 0 {
        lemma_indices_where_upto_props(q, n - 1);
        let prev = indices_where_upto(q, n - 1);
        let cur = indices_where_upto(q, n);
        assert forall|m: int| 0 <= m < cur.len() implies #[trigger] cur[m] < n && q(
            cur[m] as int,
        ) by {
            if q(n - 1) {
                if m < prev.len() {
                    assert(cur[m] == prev[m]);
                } else {
                    assert(cur[m] == (n - 1) as usize);
                }
            } else {
                assert(cur == prev);
                assert(cur[m] == prev[m]);
            }
        }
        assert forall|k: int| 0 <= k < n && #[trigger] q(k) implies indices_where_upto(
            q,
            n,
        ).contains(k as usize) by {
            if k < n - 1 {
                let prev = indices_where_upto(q, n - 1);
                let idx = choose|m: int| 0 <= m < prev.len() && prev[m] == k as usize;
                assert(indices_where_upto(q, n)[idx] == k as usize);
            } else {
                let cur = indices_where_upto(q, n);
                assert(cur[cur.len() - 1] == k as usize);
            }
        }
    }
}

/// Predicates that agree below `n` select the same index sequence.
pub proof fn lemma_indices_where_upto_congruent(
    q1: spec_fn(int) -> bool,
    q2: spec_fn(int) -> bool,
    n: int,
)
    requires
        forall|k: int| 0 <= k < n ==> #[trigger] q1(k) == #[trigger] q2(k),
    ensures
        indices_where_upto(q1, n) == indices_where_upto(q2, n),
    decreases n,
{
    if n > 0 {
        lemma_indices_where_upto_congruent(q1, q2, n - 1);
    }
}

/// A predicate that holds nowhere below `n` selects nothing.
pub proof fn lemma_indices_where_upto_empty(q: spec_fn(int) -> bool, n: int)
    requires
        forall|k: int| 0 <= k < n ==> !(#[trigger] q(k)),
    ensures
        indices_where_upto(q, n) == Seq::<usize>::empty(),
    decreases n,
{
    if n > 0 {
        lemma_indices_where_upto_empty(q, n - 1);
    }
}

/// A selection that holds nowhere below `n` pairs nothing.
pub proof fn lemma_pairs_where_upto_empty(
    q: spec_fn(int) -> bool,
    partner: spec_fn(int) -> int,
    n: int,
)
    requires
        forall|k: int| 0 <= k < n ==> !(#[trigger] q(k)),
    ensures
        pairs_where_upto(q, partner, n) == Seq::<(usize, usize)>::empty(),
    decreases n,
{
    if n > 0 {
        lemma_pairs_where_upto_empty(q, partner, n - 1);
    }
}

/// Every pair produced lies in range, is selected, and carries its partner;
/// and every selected position below `n` appears.
pub proof fn lemma_pairs_where_upto_props(
    q: spec_fn(int) -> bool,
    partner: spec_fn(int) -> int,
    n: int,
)
    requires
        0 <= n <= usize::MAX,
        forall|k: int| 0 <= k < n && #[trigger] q(k) ==> 0 <= partner(k) <= usize::MAX,
    ensures
        forall|m: int|
            #![trigger pairs_where_upto(q, partner, n)[m]]
            0 <= m < pairs_where_upto(q, partner, n).len() ==> pairs_where_upto(q, partner, n)[m].0
                < n && q(pairs_where_upto(q, partner, n)[m].0 as int) && pairs_where_upto(
                q,
                partner,
                n,
            )[m].1 as int == partner(pairs_where_upto(q, partner, n)[m].0 as int),
    decreases n,
{
    if n > 0 {
        lemma_pairs_where_upto_props(q, partner, n - 1);
        let prev = pairs_where_upto(q, partner, n - 1);
        let cur = pairs_where_upto(q, partner, n);
        assert forall|m: int| 0 <= m < cur.len() implies (#[trigger] cur[m]).0 < n && q(
            cur[m].0 as int,
        ) && cur[m].1 as int == partner(cur[m].0 as int) by {
            if q(n - 1) {
                if m < prev.len() {
                    assert(cur[m] == prev[m]);
                } else {
                    assert(cur[m] == ((n - 1) as usize, partner(n - 1) as usize));
                }
            } else {
                assert(cur == prev);
                assert(cur[m] == prev[m]);
            }
        }
    }
}

/// A vector's view never exceeds the address space.
pub proof fn lemma_vec_len_bound<T>(v: &Vec<T>)
    ensures
        v@.len() <= usize::MAX,
{
    assert(vstd::std_specs::vec::spec_vec_len(v) == v@.len());
}

/// Mapping distributes over push.
pub proof fn lemma_map_values_push<A, B>(s: Seq<A>, f: spec_fn(A) -> B, x: A)
    ensures
        s.push(x).map_values(f) == s.map_values(f).push(f(x)),
{
    assert(s.push(x).map_values(f) =~= s.map_values(f).push(f(x)));
}

/// Taking one more element is a push of that element.
pub proof fn lemma_take_push<A>(s: Seq<A>, i: int)
    requires
        0 <= i < s.len(),
    ensures
        s.take(i + 1) == s.take(i).push(s[i]),
{
    assert(s.take(i + 1) =~= s.take(i).push(s[i]));
}

} // verus!
