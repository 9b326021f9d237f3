//! CombinationGenerator: every subset of size k, as an ascending tuple of
//! positions, enumerated in lexicographic order so that results are
//! reproducible across runs.

use vstd::prelude::*;

verus! {

/// All ascending k-tuples of positions drawn from `[lo, n)`, in
/// lexicographic order: the tuples beginning with `lo` come first.
pub open spec fn spec_combos(n: int, lo: int, k: nat) -> Seq<Seq<usize>>
    decreases n - lo,
{
    if k == 0 {
        seq![Seq::<usize>::empty()]
    } else if lo >= n {
        Seq::<Seq<usize>>::empty()
    } else {
        spec_combos(n, lo + 1, (k - 1) as nat).map_values(
            |t: Seq<usize>| seq![lo as usize] + t,
        ) + spec_combos(n, lo + 1, k)
    }
}

/// The views of a sequence of position vectors.
pub open spec fn combo_views(s: Seq<Vec<usize>>) -> Seq<Seq<usize>> {
    s.map_values(|v: Vec<usize>| v@)
}

/// Entries grow strictly left to right.
pub open spec fn strictly_ascending(c: Seq<usize>) -> bool {
    forall|i: int, j: int| 0 <= i < j < c.len() ==> c[i] < c[j]
}

/// A well-formed tuple: length k, strictly ascending, entries in `[lo, n)`.
pub open spec fn combo_wf(c: Seq<usize>, n: int, lo: int, k: nat) -> bool {
    &&& c.len() == k
    &&& strictly_ascending(c)
    &&& forall|i: int| 0 <= i < c.len() ==> lo <= #[trigger] c[i] < n
}

/// Every generated tuple is well formed.
pub proof fn lemma_combos_wf(n: int, lo: int, k: nat)
    requires
        0 <= lo,
        n <= usize::MAX,
    ensures
        forall|i: int|
            0 <= i < spec_combos(n, lo, k).len() ==> combo_wf(
                #[trigger] spec_combos(n, lo, k)[i],
                n,
                lo,
                k,
            ),
    decreases n - lo,
{
    if k == 0 {
        assert(spec_combos(n, lo, k)[0] == Seq::<usize>::empty());
    } else if lo >= n {
    } else {
        lemma_combos_wf(n, lo + 1, (k - 1) as nat);
        lemma_combos_wf(n, lo + 1, k);
        let prep = |t: Seq<usize>| seq![lo as usize] + t;
        let firsts = spec_combos(n, lo + 1, (k - 1) as nat).map_values(prep);
        let rests = spec_combos(n, lo + 1, k);
        assert forall|i: int| 0 <= i < spec_combos(n, lo, k).len() implies combo_wf(
            #[trigger] spec_combos(n, lo, k)[i],
            n,
            lo,
            k,
        ) by {
            if i < firsts.len() {
                let t = spec_combos(n, lo + 1, (k - 1) as nat)[i];
                assert(combo_wf(t, n, lo + 1, (k - 1) as nat));
                let c = prep(t);
                assert(spec_combos(n, lo, k)[i] == c);
                assert(c[0] == lo as usize);
                assert(forall|a: int| 0 <= a < t.len() ==> c[a + 1] == #[trigger] t[a]);
                assert forall|a: int, b: int| 0 <= a < b < c.len() implies c[a] < c[b] by {
                    assert(lo + 1 <= t[b - 1] < n);
                    if a == 0 {
                        assert(c[a] == lo as usize);
                        assert(c[b] == t[b - 1]);
                    } else {
                        assert(lo + 1 <= t[a - 1] < n);
                        assert(c[a] == t[a - 1] && c[b] == t[b - 1]);
                        assert(t[a - 1] < t[b - 1]);
                    }
                }
                assert forall|a: int| 0 <= a < c.len() implies lo <= #[trigger] c[a] < n by {
                    if a == 0 {
                        assert(c[a] == lo as usize);
                    } else {
                        assert(c[a] == t[a - 1]);
                        assert(lo + 1 <= t[a - 1] < n);
                    }
                }
            } else {
                let c = rests[i - firsts.len()];
                assert(spec_combos(n, lo, k)[i] == c);
                assert(combo_wf(c, n, lo + 1, k));
            }
        }
    }
}

/// Completeness: every strictly ascending k-tuple over `[lo, n)` is
/// generated, so the enumeration really covers all k-subsets.
pub proof fn lemma_combos_complete(n: int, lo: int, k: nat, c: Seq<usize>)
    requires
        0 <= lo,
        n <= usize::MAX,
        c.len() == k,
        strictly_ascending(c),
        forall|i: int| 0 <= i < c.len() ==> lo <= #[trigger] c[i] < n,
    ensures
        spec_combos(n, lo, k).contains(c),
    decreases n - lo,
{
    if k == 0 {
        assert(c =~= Seq::<usize>::empty());
        assert(spec_combos(n, lo, k)[0] == c);
    } else {
        assert(lo <= c[0] < n);
        let sub = spec_combos(n, lo + 1, (k - 1) as nat);
        let prep = |t: Seq<usize>| seq![lo as usize] + t;
        let firsts = sub.map_values(prep);
        let rests = spec_combos(n, lo + 1, k);
        assert(spec_combos(n, lo, k) == firsts + rests);
        if c[0] == lo as usize {
            let tail = c.subrange(1, c.len() as int);
            assert forall|i: int| 0 <= i < tail.len() implies lo + 1 <= #[trigger] tail[i]
                < n by {
                assert(tail[i] == c[i + 1]);
                assert(c[0] < c[i + 1]);
            }
            assert forall|i: int, j: int| 0 <= i < j < tail.len() implies tail[i] < tail[j] by {
                assert(tail[i] == c[i + 1] && tail[j] == c[j + 1]);
            }
            lemma_combos_complete(n, lo + 1, (k - 1) as nat, tail);
            let j = choose|j: int| 0 <= j < sub.len() && sub[j] == tail;
            assert(firsts[j] == prep(tail));
            assert(prep(tail) =~= c);
            assert(spec_combos(n, lo, k)[j] == c);
            assert(spec_combos(n, lo, k).contains(c));
        } else {
            assert forall|i: int| 0 <= i < c.len() implies lo + 1 <= #[trigger] c[i] < n by {
                if i > 0 {
                    assert(c[0] < c[i]);
                }
            }
            lemma_combos_complete(n, lo + 1, k, c);
            let j = choose|j: int| 0 <= j < rests.len() && rests[j] == c;
            assert(spec_combos(n, lo, k)[firsts.len() + j] == c);
            assert(spec_combos(n, lo, k).contains(c));
        }
    }
}

/// The generated tuples of a given size, as vectors, in the generation
/// order: all k-subsets of positions `[lo, n)`.
pub fn combinations(n: usize, lo: usize, k: usize) -> (res: Vec<Vec<usize>>)
    requires
        lo <= n,
    ensures
        combo_views(res@) == spec_combos(n as int, lo as int, k as nat),
    decreases n - lo,
{
    if k == 0 {
        let mut res: Vec<Vec<usize>> = Vec::new();
        res.push(Vec::new());
        proof {
            assert(combo_views(res@) =~= spec_combos(n as int, lo as int, 0));
        }
        return res;
    }
    if lo >= n {
        let res: Vec<Vec<usize>> = Vec::new();
        proof {
            assert(combo_views(res@) =~= spec_combos(n as int, lo as int, k as nat));
        }
        return res;
    }
    let ghost prep = |t: Seq<usize>| seq![lo as usize] + t;
    let ghost firsts = spec_combos(n as int, lo as int + 1, (k - 1) as nat).map_values(prep);
    let with_lo = combinations(n, lo + 1, k - 1);
    let mut res: Vec<Vec<usize>> = Vec::new();
    let mut i: usize = 0;
    while i < with_lo.len()
        invariant
            i <= with_lo@.len(),
            combo_views(with_lo@) == spec_combos(n as int, lo as int + 1, (k - 1) as nat),
            firsts == spec_combos(n as int, lo as int + 1, (k - 1) as nat).map_values(prep),
            prep == (|t: Seq<usize>| seq![lo as usize] + t),
            combo_views(res@) == firsts.take(i as int),
        decreases with_lo@.len() - i,
    {
        let t = &with_lo[i];
        let mut c: Vec<usize> = Vec::new();
        c.push(lo);
        let mut j: usize = 0;
        while j < t.len()
            invariant
                j <= t@.len(),
                c@ == seq![lo as usize] + t@.take(j as int),
            decreases t@.len() - j,
        {
            c.push(t[j]);
            proof {
                assert(seq![lo as usize] + t@.take(j as int + 1) =~= (seq![lo as usize] + t@.take(
                    j as int,
                )).push(t@[j as int]));
            }
            j += 1;
        }
        proof {
            assert(t@.take(t@.len() as int) =~= t@);
            assert(combo_views(with_lo@)[i as int] == t@);
            assert(c@ == prep(t@));
            assert(firsts[i as int] == prep(spec_combos(n as int, lo as int + 1, (k - 1) as nat)[i as int]));
            assert(combo_views(res@.push(c)) =~= combo_views(res@).push(c@));
            assert(firsts.take(i as int + 1) =~= firsts.take(i as int).push(firsts[i as int]));
        }
        res.push(c);
        i += 1;
    }
    proof {
        assert(firsts.take(firsts.len() as int) =~= firsts);
    }
    let mut rest = combinations(n, lo + 1, k);
    let ghost rest_views = combo_views(rest@);
    let ghost res_views = combo_views(res@);
    res.append(&mut rest);
    proof {
        assert(combo_views(res@) =~= res_views + rest_views);
        assert(combo_views(res@) == spec_combos(n as int, lo as int, k as nat));
    }
    res
}

} // verus!
