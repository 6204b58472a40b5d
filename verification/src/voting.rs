//! Witness selection by a Borda count: every registered node casts a
//! uniformly random full ballot over the candidate ids, each ballot awards
//! points by rank, and the candidates come back ordered by total points,
//! descending, with the smaller id winning ties.

use vstd::prelude::*;
use vstd::pervasive::VecAdditionalExecFns;
use vstd::arithmetic::mul::{lemma_mul_inequality, lemma_mul_is_distributive_add_other_way};
use vstd::seq_lib::group_to_multiset_ensures;
use vstd::multiset::group_multiset_axioms;
use crate::chain::QuantumBlockchain;

verus! {

/// The candidate ids `0 .. n`, in order.
pub open spec fn identity_seq(n: nat) -> Seq<usize> {
    Seq::new(n, |i: int| i as usize)
}

/// The ids `0 .. n` as a vector, in order.
fn identity_vec(n: usize) -> (r: Vec<usize>)
    ensures
        r@ == identity_seq(n as nat),
{
    let mut r: Vec<usize> = Vec::new();
    let mut k: usize = 0;
    while k < n
        invariant
            k <= n,
            r@ =~= identity_seq(k as nat),
        decreases n - k,
    {
        r.push(k);
        assert(r@ =~= identity_seq((k + 1) as nat));
        k = k + 1;
    }
    r
}

/// Relies on rand's `SliceRandom::shuffle`: permutes the slice in place,
/// so the new contents carry exactly the old elements; nothing is promised
/// of the order they land in.
#[verifier::external_body]
fn shuffle_ids(v: &mut Vec<usize>)
    ensures
        final(v)@.to_multiset() == old(v)@.to_multiset(),
{
    let mut rng = rand::thread_rng();
    rand::seq::SliceRandom::shuffle(v.as_mut_slice(), &mut rng);
}

/// A sequence holding exactly the elements of `identity_seq(n)` is a
/// permutation of the candidate ids: `n` entries, no duplicates, every
/// entry below `n`, and every id below `n` present.
pub proof fn lemma_permutation_of_identity(s: Seq<usize>, n: nat)
    requires
        n <= usize::MAX,
        s.to_multiset() == identity_seq(n).to_multiset(),
    ensures
        s.len() == n,
        s.no_duplicates(),
        forall|k: int| 0 <= k < s.len() ==> (#[trigger] s[k] as int) < n,
        forall|c: usize| (c as int) < n ==> s.contains(c),
{
    broadcast use group_to_multiset_ensures;
    broadcast use group_multiset_axioms;

    let ident = identity_seq(n);
    assert(ident.no_duplicates()) by {
        assert forall|x: int, y: int|
            0 <= x < ident.len() && 0 <= y < ident.len() && x != y implies ident[x] != ident[y] by {
            assert(ident[x] == x as usize);
            assert(ident[y] == y as usize);
        }
    }
    assert(s.to_multiset().len() == s.len());
    assert(ident.to_multiset().len() == ident.len());
    ident.lemma_multiset_has_no_duplicates();
    s.lemma_multiset_has_no_duplicates_conv();
    assert forall|c: usize| (c as int) < n implies s.contains(c) by {
        assert(ident[c as int] == c);
        assert(ident.contains(c));
        assert(s.to_multiset().count(c) > 0);
    }
    assert forall|k: int| 0 <= k < s.len() implies (#[trigger] s[k] as int) < n by {
        assert(s.contains(s[k]));
        assert(ident.to_multiset().count(s[k]) > 0);
        assert(ident.contains(s[k]));
        let j = choose|j: int| 0 <= j < ident.len() && ident[j] == s[k];
        assert(ident[j] == j as usize);
    }
}

/// Swapping two positions of a sequence leaves its contents unchanged.
proof fn lemma_swap_keeps_multiset(s: Seq<usize>, i: int, j: int)
    requires
        0 <= i < s.len(),
        0 <= j < s.len(),
    ensures
        s.update(i, s[j]).update(j, s[i]).to_multiset() == s.to_multiset(),
{
    broadcast use group_to_multiset_ensures;
    broadcast use group_multiset_axioms;
    broadcast use vstd::seq_lib::to_multiset_update;

    if i == j {
        assert(s.update(i, s[j]).update(j, s[i]) =~= s);
    } else {
        let s1 = s.update(i, s[j]);
        let s2 = s1.update(j, s[i]);
        assert(s.contains(s[i]));
        assert(s.to_multiset().count(s[i]) > 0);
        assert(s1[j] == s[j]);
        assert(s2.to_multiset() =~= s.to_multiset());
    }
}

/// Candidate `a` ranks ahead of candidate `b` under `scores`: strictly
/// more points, or the same points and the smaller id.
pub open spec fn prefers(scores: Seq<usize>, a: usize, b: usize) -> bool {
    scores[a as int] > scores[b as int] || (scores[a as int] == scores[b as int] && a < b)
}

/// Whether `a` ranks ahead of `b` under `scores`.
fn ranks_ahead(scores: &Vec<usize>, a: usize, b: usize) -> (r: bool)
    requires
        (a as int) < scores@.len(),
        (b as int) < scores@.len(),
    ensures
        r == prefers(scores@, a, b),
{
    scores[a] > scores[b] || (scores[a] == scores[b] && a < b)
}

/// Orders the candidate ids `0 .. scores.len()` from most preferred to
/// least preferred: descending points, and the smaller id first among
/// candidates with equal points. The result is a permutation of the ids.
pub fn rank_candidates(scores: &Vec<usize>) -> (r: Vec<usize>)
    ensures
        r@.len() == scores@.len(),
        r@.no_duplicates(),
        forall|k: int| 0 <= k < r@.len() ==> (#[trigger] r@[k] as int) < scores@.len(),
        forall|c: usize| (c as int) < scores@.len() ==> r@.contains(c),
        forall|k: int, l: int| 0 <= k < l < r@.len() ==> prefers(scores@, r@[k], r@[l]),
{
    let n = scores.len();
    let ghost ident_ms = identity_seq(n as nat).to_multiset();
    let mut ids = identity_vec(n);
    let mut i: usize = 0;
    while i < n
        invariant
            n == scores@.len(),
            i <= n,
            ids@.len() == n,
            ids@.to_multiset() == ident_ms,
            ident_ms == identity_seq(n as nat).to_multiset(),
            forall|k: int| 0 <= k < n ==> (#[trigger] ids@[k] as int) < n,
            forall|k: int, l: int| 0 <= k < l < i ==> prefers(scores@, ids@[k], ids@[l]),
        decreases n - i,
    {
        let mut j: usize = i;
        while j > 0 && ranks_ahead(scores, ids[j], ids[j - 1])
            invariant
                n == scores@.len(),
                j <= i < n,
                ids@.len() == n,
                ids@.to_multiset() == ident_ms,
                ident_ms == identity_seq(n as nat).to_multiset(),
                forall|k: int| 0 <= k < n ==> (#[trigger] ids@[k] as int) < n,
                forall|k: int, l: int| 0 <= k < l <= i && l != j ==> prefers(
                    scores@,
                    ids@[k],
                    ids@[l],
                ),
            decreases j,
        {
            let ghost pre = ids@;
            let a = ids[j - 1];
            let b = ids[j];
            ids.set(j - 1, b);
            ids.set(j, a);
            proof {
                lemma_swap_keeps_multiset(pre, j as int - 1, j as int);
                assert(ids@ =~= pre.update(j as int - 1, pre[j as int]).update(
                    j as int,
                    pre[j as int - 1],
                ));
            }
            j = j - 1;
        }
        proof {
            lemma_permutation_of_identity(ids@, n as nat);
            if j > 0 {
                assert(ids@[j - 1] != ids@[j as int]);
                assert(prefers(scores@, ids@[j - 1], ids@[j as int]));
                assert forall|k: int| 0 <= k < j - 1 implies prefers(
                    scores@,
                    ids@[k],
                    ids@[j as int],
                ) by {
                    assert(prefers(scores@, ids@[k], ids@[j - 1]));
                }
            }
        }
        i = i + 1;
    }
    proof {
        lemma_permutation_of_identity(ids@, n as nat);
    }
    ids
}

/// Adds one ballot's points into `scores`: the candidate at ballot
/// position `rank` is awarded `ballot.len() - rank` points, so the first
/// choice gets as many points as the ballot has entries and the last
/// choice gets one.
pub fn tally_ballot(scores: &mut Vec<usize>, ballot: &Vec<usize>)
    requires
        ballot@.no_duplicates(),
        forall|k: int|
            0 <= k < ballot@.len() ==> (#[trigger] ballot@[k] as int) < old(scores)@.len(),
        forall|c: usize|
            (c as int) < old(scores)@.len() ==> (#[trigger] old(scores)@[c as int])
                + ballot@.len() <= usize::MAX,
    ensures
        final(scores)@.len() == old(scores)@.len(),
        forall|c: usize|
            (c as int) < old(scores)@.len() && ballot@.contains(c) ==> 0 <= ballot@.index_of(c)
                < ballot@.len() && (#[trigger] final(scores)@[c as int]) as int
                == old(scores)@[c as int] + ballot@.len() - ballot@.index_of(c),
        forall|c: usize|
            (c as int) < old(scores)@.len() && !ballot@.contains(c)
                ==> (#[trigger] final(scores)@[c as int]) == old(scores)@[c as int],
{
    let n = ballot.len();
    let mut rank: usize = 0;
    while rank < n
        invariant
            n == ballot@.len(),
            rank <= n,
            ballot@.no_duplicates(),
            forall|k: int|
                0 <= k < ballot@.len() ==> (#[trigger] ballot@[k] as int) < old(scores)@.len(),
            forall|c: usize|
                (c as int) < old(scores)@.len() ==> (#[trigger] old(scores)@[c as int])
                    + ballot@.len() <= usize::MAX,
            scores@.len() == old(scores)@.len(),
            forall|c: usize|
                (c as int) < old(scores)@.len() && ballot@.take(rank as int).contains(c) ==> 0
                    <= ballot@.index_of(c) < ballot@.len() && (#[trigger] scores@[c as int]) as int
                    == old(scores)@[c as int] + ballot@.len() - ballot@.index_of(c),
            forall|c: usize|
                (c as int) < old(scores)@.len() && !ballot@.take(rank as int).contains(c) ==> (
                #[trigger] scores@[c as int]) == old(scores)@[c as int],
        decreases n - rank,
    {
        let c = ballot[rank];
        let ghost taken = ballot@.take(rank as int);
        proof {
            assert(ballot@[rank as int] == c);
            assert(!taken.contains(c)) by {
                if exists|k: int| 0 <= k < rank && taken[k] == c {
                    let k = choose|k: int| 0 <= k < rank && taken[k] == c;
                    assert(ballot@[k] == ballot@[rank as int]);
                }
            }
            assert(exists|k: int| 0 <= k < ballot@.len() && ballot@[k] == c);
            let io = ballot@.index_of(c);
            assert(0 <= io < ballot@.len() && ballot@[io] == c);
            assert(io == rank);
        }
        let award = n - rank;
        let cur = scores[c];
        scores.set(c, cur + award);
        proof {
            let t = ballot@.take(rank + 1);
            assert(t.drop_last() =~= taken);
            assert(t.last() == c);
            assert(t.contains(c)) by {
                assert(t[rank as int] == c);
            }
            assert forall|d: usize| (d as int) < old(scores)@.len() && d != c implies (t.contains(
                d,
            ) <==> taken.contains(d)) by {
                if t.contains(d) {
                    let k = choose|k: int| 0 <= k < t.len() && t[k] == d;
                    assert(t[k] != c);
                    assert(k != rank);
                    assert(t.drop_last()[k] == t[k]);
                    assert(taken.contains(d));
                } else if taken.contains(d) {
                    let k = choose|k: int| 0 <= k < taken.len() && taken[k] == d;
                    assert(t[k] == d);
                }
            }
        }
        rank = rank + 1;
    }
    assert(ballot@.take(n as int) =~= ballot@);
}

impl QuantumBlockchain {
    /// Runs one ranked-choice election over the candidate ids
    /// `0 .. num_candidates`: every registered node casts a uniformly
    /// random full ballot, `tally_ballot` accumulates the points, and the
    /// ids come back ordered by total points, descending, smaller id first
    /// among equals. Whatever the random ballots were, the result is a
    /// permutation of the candidate ids: each id below `num_candidates`
    /// appears exactly once.
    pub fn simulate_voting(&self, num_candidates: usize) -> (r: Vec<usize>)
        requires
            self.nodes@.len() * num_candidates <= usize::MAX,
        ensures
            r@.len() == num_candidates,
            r@.no_duplicates(),
            forall|k: int| 0 <= k < r@.len() ==> (#[trigger] r@[k] as int) < num_candidates,
            forall|c: usize| (c as int) < num_candidates ==> r@.contains(c),
    {
        let n_nodes = self.nodes.len();
        let mut scores: Vec<usize> = Vec::new();
        let mut z: usize = 0;
        while z < num_candidates
            invariant
                z <= num_candidates,
                scores@.len() == z,
                forall|c: int| 0 <= c < z ==> (#[trigger] scores@[c]) == 0,
            decreases num_candidates - z,
        {
            scores.push(0);
            z = z + 1;
        }
        let mut t: usize = 0;
        while t < n_nodes
            invariant
                n_nodes == self.nodes@.len(),
                n_nodes * num_candidates <= usize::MAX,
                t <= n_nodes,
                scores@.len() == num_candidates,
                forall|c: usize|
                    (c as int) < num_candidates ==> (#[trigger] scores@[c as int]) <= t
                        * num_candidates,
            decreases n_nodes - t,
        {
            let mut ballot = identity_vec(num_candidates);
            shuffle_ids(&mut ballot);
            proof {
                lemma_permutation_of_identity(ballot@, num_candidates as nat);
                lemma_mul_is_distributive_add_other_way(num_candidates as int, t as int, 1);
                lemma_mul_inequality(t as int + 1, n_nodes as int, num_candidates as int);
                assert forall|c: usize|
                    (c as int) < num_candidates implies (#[trigger] scores@[c as int])
                    + ballot@.len() <= usize::MAX by {
                    assert(scores@[c as int] <= t * num_candidates);
                }
            }
            let ghost before = scores@;
            tally_ballot(&mut scores, &ballot);
            proof {
                assert forall|c: usize|
                    (c as int) < num_candidates implies (#[trigger] scores@[c as int]) <= (t + 1)
                    * num_candidates by {
                    assert(before[c as int] <= t * num_candidates);
                    if ballot@.contains(c) {
                        assert(scores@[c as int] as int == before[c as int] + ballot@.len()
                            - ballot@.index_of(c));
                    } else {
                        assert(scores@[c as int] == before[c as int]);
                    }
                }
            }
            t = t + 1;
        }
        rank_candidates(&scores)
    }
}

} // verus!
