//! Ranking: the indices of a list of keys in descending order of key, cut
//! to a limit. Keys are confidences (fractions with a positive denominator)
//! or integers.

use vstd::prelude::*;

use crate::db::count::{
    all_false, count_true, lemma_count_true_all, lemma_count_true_bound, lemma_count_true_full,
    lemma_count_true_set,
};
use crate::ratio::{ratio_ge, Ratio};

verus! {

/// Every fraction of the list has a positive denominator.
pub open spec fn positive_dens(keys: Seq<Ratio>) -> bool {
    forall|i: int| 0 <= i < keys.len() ==> (#[trigger] keys[i]).den > 0
}

/// Between fractions with positive denominators, `>=` is total.
pub proof fn lemma_ratio_ge_total(a: Ratio, b: Ratio)
    requires
        a.den > 0,
        b.den > 0,
    ensures
        ratio_ge(a, b) || ratio_ge(b, a),
{
}

/// Between fractions with positive denominators, `>=` is transitive.
pub proof fn lemma_ratio_ge_transitive(a: Ratio, b: Ratio, c: Ratio)
    requires
        a.den > 0,
        b.den > 0,
        c.den > 0,
        ratio_ge(a, b),
        ratio_ge(b, c),
    ensures
        ratio_ge(a, c),
{
    let an = a.num as int;
    let ad = a.den as int;
    let bn = b.num as int;
    let bd = b.den as int;
    let cn = c.num as int;
    let cd = c.den as int;
    assert(an * bd >= bn * ad);
    assert(bn * cd >= cn * bd);
    assert(an * cd >= cn * ad) by (nonlinear_arith)
        requires
            an * bd >= bn * ad,
            bn * cd >= cn * bd,
            ad > 0,
            bd > 0,
            cd > 0,
            an >= 0,
            bn >= 0,
            cn >= 0,
    {
        assert(an * bd * cd >= bn * ad * cd);
        assert(bn * cd * ad >= cn * bd * ad);
        assert(an * cd * bd >= cn * ad * bd);
    }
}

/// What a ranking of `len` keys cut to `limit` promises besides the order:
/// distinct indices in range, at most `limit` of them, and all of them where
/// there are fewer or the limit allows all.
pub open spec fn is_selection(r: Seq<usize>, len: nat, limit: nat) -> bool {
    &&& r.len() <= limit
    &&& r.len() <= len
    &&& forall|i: int| 0 <= i < r.len() ==> (#[trigger] r[i]) < len
    &&& forall|i: int, j: int| 0 <= i < j < r.len() ==> r[i] != r[j]
    &&& (r.len() < limit || limit >= len) ==> forall|e: usize| e < len ==> #[trigger] r.contains(e)
}

/// A ranking of confidences: a selection in descending order, with no
/// index left out above one taken.
pub open spec fn is_ratio_ranking(r: Seq<usize>, keys: Seq<Ratio>, limit: nat) -> bool {
    &&& is_selection(r, keys.len(), limit)
    &&& forall|i: int, j: int|
        0 <= i < j < r.len() ==> ratio_ge(keys[#[trigger] r[i] as int], keys[#[trigger] r[j] as int])
    &&& forall|k: int, e: int|
        #![trigger r[k], keys[e]]
        0 <= k < r.len() && 0 <= e < keys.len() && !r.contains(e as usize) ==> ratio_ge(
            keys[r[k] as int],
            keys[e],
        )
}

/// A ranking of integers: a selection in descending order, with no index
/// left out above one taken.
pub open spec fn is_int_ranking(r: Seq<usize>, keys: Seq<i128>, limit: nat) -> bool {
    &&& is_selection(r, keys.len(), limit)
    &&& forall|i: int, j: int|
        0 <= i < j < r.len() ==> keys[#[trigger] r[i] as int] >= keys[#[trigger] r[j] as int]
    &&& forall|k: int, e: int|
        #![trigger r[k], keys[e]]
        0 <= k < r.len() && 0 <= e < keys.len() && !r.contains(e as usize) ==> keys[r[k] as int]
            >= keys[e]
}

/// The indices of `keys` by descending confidence, at most `limit` of them;
/// of equal confidences the earlier comes first.
pub fn rank_by_ratio(keys: &Vec<Ratio>, limit: usize) -> (r: Vec<usize>)
    requires
        positive_dens(keys@),
    ensures
        is_ratio_ranking(r@, keys@, limit as nat),
{
    let n = keys.len();
    let mut taken: Vec<bool> = all_false(n);
    let mut r: Vec<usize> = Vec::new();
    while r.len() < limit
        invariant_except_break
            r@.len() <= limit,
        invariant
            n == keys@.len(),
            positive_dens(keys@),
            taken@.len() == n,
            r@.len() <= limit,
            forall|e: int| 0 <= e < n ==> (taken@[e] <==> r@.contains(e as usize)),
            count_true(taken@) == r@.len(),
            forall|i: int| 0 <= i < r@.len() ==> (#[trigger] r@[i]) < n,
            forall|i: int, j: int| 0 <= i < j < r@.len() ==> r@[i] != r@[j],
            forall|i: int, j: int| #![trigger r@[i], r@[j]] 0 <= i < j < r@.len() ==> ratio_ge(keys@[r@[i] as int], keys@[r@[j] as int]),
            forall|k: int, e: int|
                        #![trigger r@[k], keys@[e]]
                0 <= k < r@.len() && 0 <= e < n && !r@.contains(e as usize) ==> ratio_ge(keys@[r@[k] as int], keys@[e]),
        ensures
            r@.len() < limit ==> forall|e: usize| e < n ==> #[trigger] r@.contains(e),
        decreases limit - r@.len(),
    {
        let mut best: Option<usize> = None;
        let mut j: usize = 0;
        while j < n
            invariant
                0 <= j <= n,
                n == keys@.len(),
                taken@.len() == n,
                positive_dens(keys@),
                best matches Some(b) ==> b < n && !taken@[b as int],
                forall|e: int|
                    0 <= e < j && !taken@[e] ==> (best matches Some(b) && ratio_ge(
                        keys@[b as int],
                        keys@[e],
                    )),
            decreases n - j,
        {
            if !taken[j] {
                match best {
                    None => {
                        best = Some(j);
                    },
                    Some(b) => {
                        if keys[j].greater_than(&keys[b]) {
                            proof {
                                assert forall|e: int| 0 <= e < j && !taken@[e] implies ratio_ge(
                                    keys@[j as int],
                                    keys@[e],
                                ) by {
                                    lemma_ratio_ge_transitive(
                                        keys@[j as int],
                                        keys@[b as int],
                                        keys@[e],
                                    );
                                }
                            }
                            best = Some(j);
                        } else {
                            proof {
                                lemma_ratio_ge_total(keys@[b as int], keys@[j as int]);
                            }
                        }
                    },
                }
            }
            j += 1;
        }
        match best {
            None => {
                assert forall|e: usize| e < n implies #[trigger] r@.contains(e) by {
                    assert(taken@[e as int]);
                }
                break;
            },
            Some(b) => {
                let ghost old_r = r@;
                let ghost old_taken = taken@;
                r.push(b);
                taken.set(b, true);
                proof {
                    lemma_count_true_set(old_taken, b as int);
                    assert(taken@ =~= old_taken.update(b as int, true));
                    assert forall|e: int| 0 <= e < n implies (taken@[e] <==> r@.contains(
                        e as usize,
                    )) by {
                        if e == b as int {
                            assert(r@[r@.len() - 1] == b);
                        } else if old_r.contains(e as usize) {
                            let k = choose|k: int| 0 <= k < old_r.len() && old_r[k] == e as usize;
                            assert(r@[k] == e as usize);
                        } else if r@.contains(e as usize) {
                            let k = choose|k: int| 0 <= k < r@.len() && r@[k] == e as usize;
                            if k < old_r.len() {
                                assert(old_r[k] == e as usize);
                            }
                        }
                    }
                    assert forall|i: int, j2: int| 0 <= i < j2 < r@.len() implies r@[i]
                        != r@[j2] by {
                        if j2 == r@.len() - 1 {
                            assert(!taken@[b as int] || true);
                            assert(old_r[i] == r@[i]);
                            if old_r[i] == b {
                                assert(old_r.contains(b));
                            }
                        }
                    }
                    assert forall|i: int, j2: int| 0 <= i < j2 < r@.len() implies ratio_ge(keys@[r@[i] as int], keys@[r@[j2] as int]) by {
                        if j2 == r@.len() - 1 {
                            assert(old_r[i] == r@[i]);
                            assert(!old_r.contains(b));
                        } else {
                            assert(old_r[i] == r@[i]);
                            assert(old_r[j2] == r@[j2]);
                        }
                    }
                    assert forall|k: int, e: int|
                        #![trigger r@[k], keys@[e]]
                        0 <= k < r@.len() && 0 <= e < n && !r@.contains(e as usize) implies ratio_ge(keys@[r@[k] as int], keys@[e]) by {
                        assert(!taken@[e]);
                        if k == r@.len() - 1 {
                            assert(r@[k] == b);
                        } else {
                            assert(old_r[k] == r@[k]);
                            if old_r.contains(e as usize) {
                                let q = choose|q: int| 0 <= q < old_r.len() && old_r[q] == e as usize;
                                assert(r@[q] == e as usize);
                            }
                        }
                    }
                }
            },
        }
    }
    proof {
        lemma_count_true_bound(taken@);
        if r@.len() >= limit && limit >= n {
            lemma_count_true_full(taken@);
            assert forall|e: usize| e < n implies #[trigger] r@.contains(e) by {
                assert(taken@[e as int]);
            }
        }
        if limit >= n && r@.len() < limit {
            assert forall|e: int| 0 <= e < n implies taken@[e] by {
                assert(r@.contains(e as usize));
            }
            lemma_count_true_all(taken@);
        }
    }
    r
}

/// The indices of `keys` by descending value, at most `limit` of them; of
/// equal values the earlier comes first.
pub fn rank_by_int(keys: &Vec<i128>, limit: usize) -> (r: Vec<usize>)
    ensures
        is_int_ranking(r@, keys@, limit as nat),
        limit >= keys@.len() ==> r@.len() == keys@.len(),
        forall|i: int, j: int|
            #![trigger r@[i], r@[j]]
            0 <= i < j < r@.len() && keys@[r@[i] as int] == keys@[r@[j] as int] ==> r@[i] < r@[j],
{
    let n = keys.len();
    let mut taken: Vec<bool> = all_false(n);
    let mut r: Vec<usize> = Vec::new();
    while r.len() < limit
        invariant_except_break
            r@.len() <= limit,
        invariant
            n == keys@.len(),
            taken@.len() == n,
            r@.len() <= limit,
            forall|e: int| 0 <= e < n ==> (taken@[e] <==> r@.contains(e as usize)),
            count_true(taken@) == r@.len(),
            forall|i: int| 0 <= i < r@.len() ==> (#[trigger] r@[i]) < n,
            forall|i: int, j: int| 0 <= i < j < r@.len() ==> r@[i] != r@[j],
            forall|i: int, j: int| #![trigger r@[i], r@[j]] 0 <= i < j < r@.len() ==> keys@[r@[i] as int] >= keys@[r@[j] as int],
            forall|k: int, e: int|
                        #![trigger r@[k], keys@[e]]
                0 <= k < r@.len() && 0 <= e < n && !r@.contains(e as usize) ==> keys@[r@[k] as int] >= keys@[e],
            forall|k: int, e: int|
                        #![trigger r@[k], keys@[e]]
                0 <= k < r@.len() && 0 <= e < n && !r@.contains(e as usize) && keys@[r@[k] as int] == keys@[e] ==> r@[k] < e,
            forall|i: int, j: int|
                #![trigger r@[i], r@[j]]
                0 <= i < j < r@.len() && keys@[r@[i] as int] == keys@[r@[j] as int] ==> r@[i] < r@[j],
        ensures
            r@.len() < limit ==> forall|e: usize| e < n ==> #[trigger] r@.contains(e),
        decreases limit - r@.len(),
    {
        let mut best: Option<usize> = None;
        let mut j: usize = 0;
        while j < n
            invariant
                0 <= j <= n,
                n == keys@.len(),
                taken@.len() == n,
                best matches Some(b) ==> b < n && b < j && !taken@[b as int],
                forall|e: int|
                    0 <= e < j && !taken@[e] ==> (best matches Some(b) && keys@[b as int]
                        >= keys@[e] && (keys@[b as int] == keys@[e] ==> b <= e)),
            decreases n - j,
        {
            if !taken[j] {
                match best {
                    None => {
                        best = Some(j);
                    },
                    Some(b) => {
                        if keys[j] > keys[b] {
                            best = Some(j);
                        }
                    },
                }
            }
            j += 1;
        }
        match best {
            None => {
                assert forall|e: usize| e < n implies #[trigger] r@.contains(e) by {
                    assert(taken@[e as int]);
                }
                break;
            },
            Some(b) => {
                let ghost old_r = r@;
                let ghost old_taken = taken@;
                r.push(b);
                taken.set(b, true);
                proof {
                    lemma_count_true_set(old_taken, b as int);
                    assert(taken@ =~= old_taken.update(b as int, true));
                    assert forall|e: int| 0 <= e < n implies (taken@[e] <==> r@.contains(
                        e as usize,
                    )) by {
                        if e == b as int {
                            assert(r@[r@.len() - 1] == b);
                        } else if old_r.contains(e as usize) {
                            let k = choose|k: int| 0 <= k < old_r.len() && old_r[k] == e as usize;
                            assert(r@[k] == e as usize);
                        } else if r@.contains(e as usize) {
                            let k = choose|k: int| 0 <= k < r@.len() && r@[k] == e as usize;
                            if k < old_r.len() {
                                assert(old_r[k] == e as usize);
                            }
                        }
                    }
                    assert forall|i: int, j2: int| 0 <= i < j2 < r@.len() implies r@[i]
                        != r@[j2] by {
                        if j2 == r@.len() - 1 {
                            assert(old_r[i] == r@[i]);
                            if old_r[i] == b {
                                assert(old_r.contains(b));
                            }
                        }
                    }
                    assert forall|i: int, j2: int| 0 <= i < j2 < r@.len() implies keys@[r@[i] as int] >= keys@[r@[j2] as int] by {
                        if j2 == r@.len() - 1 {
                            assert(old_r[i] == r@[i]);
                            assert(!old_r.contains(b));
                        } else {
                            assert(old_r[i] == r@[i]);
                            assert(old_r[j2] == r@[j2]);
                        }
                    }
                    assert forall|k: int, e: int|
                        #![trigger r@[k], keys@[e]]
                        0 <= k < r@.len() && 0 <= e < n && !r@.contains(e as usize) && keys@[r@[k] as int] == keys@[e] implies r@[k] < e by {
                        assert(!taken@[e]);
                        if k == r@.len() - 1 {
                            assert(r@[k] == b);
                            assert(e != b as int);
                        } else {
                            assert(old_r[k] == r@[k]);
                            if old_r.contains(e as usize) {
                                let q = choose|q: int| 0 <= q < old_r.len() && old_r[q] == e as usize;
                                assert(r@[q] == e as usize);
                            }
                        }
                    }
                    assert forall|i: int, j2: int|
                        #![trigger r@[i], r@[j2]]
                        0 <= i < j2 < r@.len() && keys@[r@[i] as int] == keys@[r@[j2] as int] implies r@[i] < r@[j2] by {
                        assert(old_r[i] == r@[i]);
                        if j2 == r@.len() - 1 {
                            assert(!old_r.contains(b));
                        } else {
                            assert(old_r[j2] == r@[j2]);
                        }
                    }
                    assert forall|k: int, e: int|
                        #![trigger r@[k], keys@[e]]
                        0 <= k < r@.len() && 0 <= e < n && !r@.contains(e as usize) implies keys@[r@[k] as int] >= keys@[e] by {
                        assert(!taken@[e]);
                        if k == r@.len() - 1 {
                            assert(r@[k] == b);
                        } else {
                            assert(old_r[k] == r@[k]);
                            if old_r.contains(e as usize) {
                                let q = choose|q: int| 0 <= q < old_r.len() && old_r[q] == e as usize;
                                assert(r@[q] == e as usize);
                            }
                        }
                    }
                }
            },
        }
    }
    proof {
        lemma_count_true_bound(taken@);
        if r@.len() >= limit && limit >= n {
            lemma_count_true_full(taken@);
            assert forall|e: usize| e < n implies #[trigger] r@.contains(e) by {
                assert(taken@[e as int]);
            }
        }
        if limit >= n && r@.len() < limit {
            assert forall|e: int| 0 <= e < n implies taken@[e] by {
                assert(r@.contains(e as usize));
            }
            lemma_count_true_all(taken@);
        }
    }
    r
}

} // verus!
