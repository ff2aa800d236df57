//! Unordered pairs of distinct indices, enumerated as (i, j) with i < j:
//! the planes of rotation symmetries and the interacting pairs of agents.

use vstd::prelude::*;

verus! {

/// The pairs (i, j) with i < j < n for one fixed `i`, by increasing `j`.
pub open spec fn pair_row(i: nat, n: nat) -> Seq<(usize, usize)> {
    if i < n {
        Seq::new((n - (i + 1)) as nat, |k: int| (i as usize, (i + 1 + k) as usize))
    } else {
        Seq::empty()
    }
}

/// The pairs (p, q) with i <= p < q < n, by increasing `p`, then by
/// increasing `q`.
pub open spec fn pairs_from(i: nat, n: nat) -> Seq<(usize, usize)>
    decreases n - i,
{
    if i < n {
        pair_row(i, n) + pairs_from(i + 1, n)
    } else {
        Seq::empty()
    }
}

/// All pairs (i, j) with i < j < n in lexicographic order.
pub open spec fn pair_sequence(n: nat) -> Seq<(usize, usize)> {
    pairs_from(0, n)
}

/// Strict lexicographic order on index pairs.
pub open spec fn pair_precedes(a: (usize, usize), b: (usize, usize)) -> bool {
    a.0 < b.0 || (a.0 == b.0 && a.1 < b.1)
}

/// Enumerates every pair (i, j) with i < j < n, in lexicographic order.
pub fn ordered_pairs(n: usize) -> (pairs: Vec<(usize, usize)>)
    ensures
        pairs@ == pair_sequence(n as nat),
{
    let mut pairs: Vec<(usize, usize)> = Vec::new();
    let mut i: usize = 0;
    while i < n
        invariant
            i <= n,
            pairs@ + pairs_from(i as nat, n as nat) == pair_sequence(n as nat),
        decreases n - i,
    {
        let ghost before = pairs@;
        let ghost row = pair_row(i as nat, n as nat);
        let mut j: usize = i + 1;
        while j < n
            invariant
                i < n,
                i + 1 <= j <= n,
                row == pair_row(i as nat, n as nat),
                pairs@ == before + row.take(j - i - 1),
                before + pairs_from(i as nat, n as nat) == pair_sequence(n as nat),
            decreases n - j,
        {
            proof {
                assert(row.take(j - i) =~= row.take(j - i - 1).push((i, j)));
            }
            pairs.push((i, j));
            j += 1;
        }
        proof {
            assert(row.take(n - i - 1) =~= row);
            assert(before + pairs_from(i as nat, n as nat) =~= pairs@ + pairs_from((i + 1) as nat, n as nat));
        }
        i += 1;
    }
    proof {
        assert(pairs@ + pairs_from(n as nat, n as nat) =~= pairs@);
    }
    pairs
}

proof fn lemma_pairs_from(i: nat, n: nat)
    requires
        n <= usize::MAX,
    ensures
        i <= n ==> 2 * pairs_from(i, n).len() == (n - i) * (n - i - 1),
        forall|k: int|
            0 <= k < pairs_from(i, n).len() ==> i <= (#[trigger] pairs_from(i, n)[k]).0
                < pairs_from(i, n)[k].1 < n,
        forall|a: int, b: int|
            0 <= a < b < pairs_from(i, n).len() ==> pair_precedes(
                #[trigger] pairs_from(i, n)[a],
                #[trigger] pairs_from(i, n)[b],
            ),
        forall|p: usize, q: usize|
            i <= p < q < n ==> #[trigger] pairs_from(i, n).contains((p, q)),
    decreases n - i,
{
    if i < n {
        lemma_pairs_from(i + 1, n);
        let row = pair_row(i, n);
        let rest = pairs_from(i + 1, n);
        let s = pairs_from(i, n);
        assert(s == row + rest);
        let m: int = n - i;
        assert(2 * s.len() == m * (m - 1)) by (nonlinear_arith)
            requires
                s.len() == row.len() + rest.len(),
                row.len() == m - 1,
                2 * rest.len() == (m - 1) * (m - 2),
        ;
        assert forall|k: int| 0 <= k < s.len() implies i <= (#[trigger] s[k]).0 < s[k].1 < n by {
            if k < row.len() {
                assert(s[k] == row[k]);
            } else {
                assert(s[k] == rest[k - row.len()]);
            }
        }
        assert forall|a: int, b: int| 0 <= a < b < s.len() implies pair_precedes(
            #[trigger] s[a],
            #[trigger] s[b],
        ) by {
            if b < row.len() {
                assert(s[a] == row[a]);
                assert(s[b] == row[b]);
            } else if a < row.len() {
                assert(s[a] == row[a]);
                assert(s[b] == rest[b - row.len()]);
            } else {
                assert(s[a] == rest[a - row.len()]);
                assert(s[b] == rest[b - row.len()]);
            }
        }
        assert forall|p: usize, q: usize| i <= p < q < n implies #[trigger] s.contains((p, q)) by {
            if p == i {
                let k: int = q - i - 1;
                assert(s[k] == row[k]);
                assert(s[k] == (p, q));
            } else {
                assert(rest.contains((p, q)));
                let k: int = choose|k: int| 0 <= k < rest.len() && rest[k] == (p, q);
                assert(s[row.len() + k] == rest[k]);
            }
        }
    } else if i == n {
        assert((n - i) * (n - i - 1) == 0) by (nonlinear_arith)
            requires
                i == n,
        ;
    }
}

/// The enumeration of index pairs is exact: it holds every pair (i, j) with
/// i < j < n, each exactly once, in strictly increasing lexicographic order,
/// and nothing else; so there are n(n − 1)/2 of them.
pub proof fn lemma_pair_sequence_exact(n: nat)
    requires
        n <= usize::MAX,
    ensures
        pair_sequence(n).len() == n * (n - 1) / 2,
        forall|k: int|
            0 <= k < pair_sequence(n).len() ==> (#[trigger] pair_sequence(n)[k]).0
                < pair_sequence(n)[k].1 < n,
        forall|i: usize, j: usize| i < j < n ==> #[trigger] pair_sequence(n).contains((i, j)),
        forall|a: int, b: int|
            0 <= a < b < pair_sequence(n).len() ==> pair_precedes(
                #[trigger] pair_sequence(n)[a],
                #[trigger] pair_sequence(n)[b],
            ),
        pair_sequence(n).no_duplicates(),
{
    lemma_pairs_from(0, n);
    let s = pair_sequence(n);
    let l: nat = s.len();
    assert(l == n * (n - 1) / 2) by (nonlinear_arith)
        requires
            2 * l == n * (n - 1),
    ;
    assert forall|a: int, b: int| 0 <= a < s.len() && 0 <= b < s.len() && a != b implies s[a]
        != s[b] by {
        if a < b {
            assert(pair_precedes(s[a], s[b]));
        } else {
            assert(pair_precedes(s[b], s[a]));
        }
    }
}

} // verus!
