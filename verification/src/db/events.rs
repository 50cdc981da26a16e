//! Change events: which entity (a file, or a function of a file) a commit
//! touched, with commits and entities numbered. Counting commits and
//! finding what changes together works on these numbers.

use vstd::prelude::*;

use crate::db::count::{
    all_false, count_true, count_trues, lemma_count_true_monotone, lemma_count_true_positive,
};
use crate::db::rank::{is_ratio_ranking, positive_dens, rank_by_ratio};
use crate::ratio::{ratio_ge, Ratio};

verus! {

/// Commit `c` touched entity `e`: some event is `(c, e)`.
pub open spec fn occurs(events: Seq<(usize, usize)>, e: int, c: int) -> bool {
    exists|i: int|
        #![trigger events[i]]
        0 <= i < events.len() && events[i].0 == c && events[i].1 == e
}

/// For each of the `n` commits, whether it touched entity `e`.
pub open spec fn occurrence_mask(events: Seq<(usize, usize)>, e: int, n: nat) -> Seq<bool> {
    Seq::new(n, |c: int| occurs(events, e, c))
}

/// For each of the `n` commits, whether it touched both `a` and `b`.
pub open spec fn joint_mask(events: Seq<(usize, usize)>, a: int, b: int, n: nat) -> Seq<bool> {
    Seq::new(n, |c: int| occurs(events, a, c) && occurs(events, b, c))
}

/// The number of commits that touched entity `e`.
pub open spec fn occurrence_count(events: Seq<(usize, usize)>, e: int, n: nat) -> nat {
    count_true(occurrence_mask(events, e, n))
}

/// The number of commits that touched both `a` and `b`.
pub open spec fn joint_count(events: Seq<(usize, usize)>, a: int, b: int, n: nat) -> nat {
    count_true(joint_mask(events, a, b, n))
}

/// Every event names one of `n` commits and one of `m` entities.
pub open spec fn events_in(events: Seq<(usize, usize)>, n: nat, m: nat) -> bool {
    forall|i: int| 0 <= i < events.len() ==> (#[trigger] events[i]).0 < n && events[i].1 < m
}

/// The commits that touched both `a` and `b` are among those that touched `a`.
pub proof fn lemma_joint_at_most_occurrences(events: Seq<(usize, usize)>, a: int, b: int, n: nat)
    ensures
        joint_count(events, a, b, n) <= occurrence_count(events, a, n),
        joint_count(events, a, b, n) <= occurrence_count(events, b, n),
{
    lemma_count_true_monotone(joint_mask(events, a, b, n), occurrence_mask(events, a, n));
    lemma_count_true_monotone(joint_mask(events, a, b, n), occurrence_mask(events, b, n));
}

/// Touching both `a` and `b` is touching both `b` and `a`.
pub proof fn lemma_joint_symmetric(events: Seq<(usize, usize)>, a: int, b: int, n: nat)
    ensures
        joint_count(events, a, b, n) == joint_count(events, b, a, n),
{
    assert(joint_mask(events, a, b, n) =~= joint_mask(events, b, a, n));
}

/// For each of the `n` commits, whether it touched entity `e`.
pub fn occurrence_mask_of(events: &Vec<(usize, usize)>, e: usize, n: usize) -> (r: Vec<bool>)
    requires
        forall|i: int| 0 <= i < events@.len() ==> (#[trigger] events@[i]).0 < n,
    ensures
        r@ == occurrence_mask(events@, e as int, n as nat),
{
    let mut r = all_false(n);
    let mut i: usize = 0;
    while i < events.len()
        invariant
            0 <= i <= events@.len(),
            r@.len() == n,
            forall|j: int| 0 <= j < events@.len() ==> (#[trigger] events@[j]).0 < n,
            forall|c: int|
                0 <= c < n ==> (r@[c] <==> exists|j: int|
                    #![trigger events@[j]]
                    0 <= j < i && events@[j].0 == c && events@[j].1 == e),
        decreases events.len() - i,
    {
        let (c, x) = events[i];
        if x == e {
            r.set(c, true);
        }
        assert forall|c2: int| 0 <= c2 < n implies (r@[c2] <==> exists|j: int|
            #![trigger events@[j]]
            0 <= j < i + 1 && events@[j].0 == c2 && events@[j].1 == e) by {
            if r@[c2] && !(c2 == c && x == e) {
                let j = choose|j: int|
                    #![trigger events@[j]]
                    0 <= j < i && events@[j].0 == c2 && events@[j].1 == e;
            }
        }
        i += 1;
    }
    assert(r@ =~= occurrence_mask(events@, e as int, n as nat));
    r
}

/// The entry-wise conjunction of two masks.
pub fn mask_and(a: &Vec<bool>, b: &Vec<bool>) -> (r: Vec<bool>)
    requires
        a@.len() == b@.len(),
    ensures
        r@.len() == a@.len(),
        forall|i: int| 0 <= i < a@.len() ==> r@[i] == (a@[i] && b@[i]),
{
    let mut r: Vec<bool> = Vec::new();
    let mut i: usize = 0;
    while i < a.len()
        invariant
            0 <= i <= a@.len(),
            a@.len() == b@.len(),
            r@.len() == i,
            forall|j: int| 0 <= j < i ==> r@[j] == (a@[j] && b@[j]),
        decreases a.len() - i,
    {
        r.push(a[i] && b[i]);
        i += 1;
    }
    r
}

/// The number of commits that touched both `a` and `b`, from the mask of
/// `a`.
pub fn joint_count_of(events: &Vec<(usize, usize)>, mask_a: &Vec<bool>, a: usize, b: usize) -> (r:
    usize)
    requires
        forall|i: int| 0 <= i < events@.len() ==> (#[trigger] events@[i]).0 < mask_a@.len(),
        mask_a@ == occurrence_mask(events@, a as int, mask_a@.len()),
    ensures
        r == joint_count(events@, a as int, b as int, mask_a@.len()),
{
    let mask_b = occurrence_mask_of(events, b, mask_a.len());
    let both = mask_and(mask_a, &mask_b);
    assert(both@ =~= joint_mask(events@, a as int, b as int, mask_a@.len()));
    count_trues(&both)
}

/// Commit `c` of an event of entity `b` touched `a`, per `mask_a`.
pub open spec fn meets(events: Seq<(usize, usize)>, mask_a: Seq<bool>, b: int) -> bool {
    exists|i: int|
        #![trigger events[i]]
        0 <= i < events.len() && events[i].1 == b && mask_a[events[i].0 as int]
}

/// Some commit touched both `a` and `b` exactly when some event of `b` is
/// in a commit that touched `a`.
pub proof fn lemma_meets_joint(events: Seq<(usize, usize)>, a: int, b: int, n: nat)
    requires
        forall|i: int| 0 <= i < events.len() ==> (#[trigger] events[i]).0 < n,
    ensures
        meets(events, occurrence_mask(events, a, n), b) <==> joint_count(events, a, b, n) > 0,
{
    let mask_a = occurrence_mask(events, a, n);
    let both = joint_mask(events, a, b, n);
    lemma_count_true_positive(both);
    if meets(events, mask_a, b) {
        let i = choose|i: int|
            #![trigger events[i]]
            0 <= i < events.len() && events[i].1 == b && mask_a[events[i].0 as int];
        let c = events[i].0 as int;
        assert(occurs(events, b, c));
        assert(both[c]);
    }
    if joint_count(events, a, b, n) > 0 {
        let c = choose|c: int| 0 <= c < both.len() && #[trigger] both[c];
        assert(occurs(events, b, c));
        let i = choose|i: int|
            #![trigger events[i]]
            0 <= i < events.len() && events[i].0 == c && events[i].1 == b;
        assert(mask_a[events[i].0 as int]);
    }
}

/// The entities other than `a` that some commit touching `a` also touched,
/// each once.
pub fn co_occurring(events: &Vec<(usize, usize)>, a: usize, mask_a: &Vec<bool>, m: usize) -> (r: Vec<
    usize,
>)
    requires
        events_in(events@, mask_a@.len(), m as nat),
        mask_a@ == occurrence_mask(events@, a as int, mask_a@.len()),
    ensures
        forall|i: int, j: int| 0 <= i < j < r@.len() ==> r@[i] != r@[j],
        forall|i: int| 0 <= i < r@.len() ==> (#[trigger] r@[i]) < m && r@[i] != a,
        forall|b: usize|
            b < m ==> (#[trigger] r@.contains(b) <==> (b != a && joint_count(
                events@,
                a as int,
                b as int,
                mask_a@.len(),
            ) > 0)),
{
    let mut seen = all_false(m);
    let mut r: Vec<usize> = Vec::new();
    let mut i: usize = 0;
    while i < events.len()
        invariant
            0 <= i <= events@.len(),
            events_in(events@, mask_a@.len(), m as nat),
            seen@.len() == m,
            forall|j: int, k: int| 0 <= j < k < r@.len() ==> r@[j] != r@[k],
            forall|j: int| 0 <= j < r@.len() ==> (#[trigger] r@[j]) < m && r@[j] != a,
            forall|b: int| 0 <= b < m ==> (seen@[b] <==> r@.contains(b as usize)),
            forall|b: int|
                0 <= b < m ==> (seen@[b] <==> (b != a && exists|j: int|
                    #![trigger events@[j]]
                    0 <= j < i && events@[j].1 == b && mask_a@[events@[j].0 as int])),
        decreases events.len() - i,
    {
        let (c, b) = events[i];
        assert(events_in(events@, mask_a@.len(), m as nat));
        assert(c < mask_a@.len() && b < m);
        let ghost old_r = r@;
        let ghost old_seen = seen@;
        if b != a && mask_a[c] && !seen[b] {
            seen.set(b, true);
            r.push(b);
        }
        proof {
            assert forall|x: int| 0 <= x < m implies (seen@[x] <==> r@.contains(x as usize)) by {
                if x == b as int && r@.len() > old_r.len() {
                    assert(r@[r@.len() - 1] == b);
                } else if old_r.contains(x as usize) {
                    let k = choose|k: int| 0 <= k < old_r.len() && old_r[k] == x as usize;
                    assert(r@[k] == x as usize);
                } else if r@.contains(x as usize) {
                    let k = choose|k: int| 0 <= k < r@.len() && r@[k] == x as usize;
                    if k < old_r.len() {
                        assert(old_r[k] == x as usize);
                    }
                }
            }
            assert forall|j: int, k: int| 0 <= j < k < r@.len() implies r@[j] != r@[k] by {
                if k == r@.len() - 1 && r@.len() > old_r.len() {
                    assert(old_r[j] == r@[j]);
                    if old_r[j] == b {
                        assert(old_r.contains(b));
                    }
                }
            }
            assert forall|x: int| 0 <= x < m implies (seen@[x] <==> (x != a && exists|j: int|
                #![trigger events@[j]]
                0 <= j < i + 1 && events@[j].1 == x && mask_a@[events@[j].0 as int])) by {
                if old_seen[x] {
                    let j = choose|j: int|
                        #![trigger events@[j]]
                        0 <= j < i && events@[j].1 == x && mask_a@[events@[j].0 as int];
                }
            }
        }
        i += 1;
    }
    proof {
        assert forall|b: usize| b < m implies (#[trigger] r@.contains(b) <==> (b != a
            && joint_count(events@, a as int, b as int, mask_a@.len()) > 0)) by {
            lemma_meets_joint(events@, a as int, b as int, mask_a@.len());
            assert(seen@[b as int] <==> r@.contains(b));
            assert(meets(events@, mask_a@, b as int) <==> exists|j: int|
                #![trigger events@[j]]
                0 <= j < events@.len() && events@[j].1 == b && mask_a@[events@[j].0 as int]);
        }
    }
    r
}

/// The confidence of `a -> b`: the share of the commits touching `a` that
/// also touched `b`.
pub open spec fn event_confidence(events: Seq<(usize, usize)>, a: int, b: int, n: nat) -> Ratio {
    Ratio {
        num: joint_count(events, a, b, n) as u64,
        den: occurrence_count(events, a, n) as u64,
    }
}

/// Entity `b` is coupled to `a` at `threshold`: another entity, touched by
/// some commit that touched `a`, with a confidence of at least `threshold`.
pub open spec fn event_coupled(
    events: Seq<(usize, usize)>,
    a: int,
    b: int,
    n: nat,
    threshold: Ratio,
) -> bool {
    &&& b != a
    &&& joint_count(events, a, b, n) > 0
    &&& ratio_ge(event_confidence(events, a, b, n), threshold)
}

/// Some entry of `r` names entity `b`.
pub open spec fn lists_entity(r: Seq<(usize, usize, Ratio)>, b: int) -> bool {
    exists|i: int| 0 <= i < r.len() && (#[trigger] r[i]).0 == b
}

/// What the couplings of entity `a` cut to `top_n` are: entries
/// `(entity, co-changes, confidence)` of distinct coupled entities with
/// their counts, by descending confidence, at most `top_n` of them, and
/// none left out unless `top_n` are listed, each at least as confident.
pub open spec fn is_event_coupling(
    events: Seq<(usize, usize)>,
    a: int,
    n: nat,
    m: nat,
    threshold: Ratio,
    top_n: nat,
    r: Seq<(usize, usize, Ratio)>,
) -> bool {
    &&& r.len() <= top_n
    &&& forall|i: int|
        0 <= i < r.len() ==> {
            let (b, co, conf) = #[trigger] r[i];
            &&& b < m
            &&& event_coupled(events, a, b as int, n, threshold)
            &&& co == joint_count(events, a, b as int, n)
            &&& conf == event_confidence(events, a, b as int, n)
        }
    &&& forall|i: int, j: int| 0 <= i < j < r.len() ==> r[i].0 != r[j].0
    &&& forall|i: int, j: int| 0 <= i < j < r.len() ==> ratio_ge(r[i].2, r[j].2)
    &&& forall|b: int|
        0 <= b < m && event_coupled(events, a, b, n, threshold) && !lists_entity(r, b) ==> {
            &&& r.len() == top_n
            &&& forall|k: int|
                0 <= k < r.len() ==> ratio_ge(
                    (#[trigger] r[k]).2,
                    event_confidence(events, a, b, n),
                )
        }
}

/// The entities coupled to entity `a` (among `m`, over `n` commits) at
/// `threshold`, by descending confidence, at most `top_n` of them.
pub fn coupled_entities(
    events: &Vec<(usize, usize)>,
    a: usize,
    n: usize,
    m: usize,
    threshold: Ratio,
    top_n: usize,
) -> (r: Vec<(usize, usize, Ratio)>)
    requires
        events_in(events@, n as nat, m as nat),
    ensures
        is_event_coupling(events@, a as int, n as nat, m as nat, threshold, top_n as nat, r@),
{
    let mask_a = occurrence_mask_of(events, a, n);
    let total = count_trues(&mask_a);
    if total == 0 {
        let r: Vec<(usize, usize, Ratio)> = Vec::new();
        proof {
            assert forall|b: int|
                0 <= b < m && event_coupled(events@, a as int, b, n as nat, threshold) implies false by {
                lemma_joint_at_most_occurrences(events@, a as int, b, n as nat);
            }
        }
        return r;
    }
    let candidates = co_occurring(events, a, &mask_a, m);
    let mut chosen: Vec<(usize, usize, Ratio)> = Vec::new();
    let mut confs: Vec<Ratio> = Vec::new();
    let mut k: usize = 0;
    while k < candidates.len()
        invariant
            0 <= k <= candidates@.len(),
            total > 0,
            total == occurrence_count(events@, a as int, n as nat),
            mask_a@ == occurrence_mask(events@, a as int, n as nat),
            events_in(events@, n as nat, m as nat),
            forall|i: int, j: int| 0 <= i < j < candidates@.len() ==> candidates@[i] != candidates@[j],
            forall|i: int|
                0 <= i < candidates@.len() ==> (#[trigger] candidates@[i]) < m && candidates@[i]
                    != a,
            forall|b: usize|
                b < m ==> (#[trigger] candidates@.contains(b) <==> (b != a && joint_count(
                    events@,
                    a as int,
                    b as int,
                    n as nat,
                ) > 0)),
            confs@.len() == chosen@.len(),
            forall|i: int| 0 <= i < chosen@.len() ==> (#[trigger] chosen@[i]).2 == confs@[i],
            positive_dens(confs@),
            forall|i: int|
                0 <= i < chosen@.len() ==> {
                    let (b, co, conf) = #[trigger] chosen@[i];
                    &&& b < m
                    &&& event_coupled(events@, a as int, b as int, n as nat, threshold)
                    &&& co == joint_count(events@, a as int, b as int, n as nat)
                    &&& conf == event_confidence(events@, a as int, b as int, n as nat)
                },
            forall|i: int, j: int| 0 <= i < j < chosen@.len() ==> chosen@[i].0 != chosen@[j].0,
            forall|q: int|
                0 <= q < k && event_coupled(
                    events@,
                    a as int,
                    candidates@[q] as int,
                    n as nat,
                    threshold,
                ) ==> lists_entity(chosen@, candidates@[q] as int),
            forall|i: int|
                0 <= i < chosen@.len() ==> exists|q: int|
                    0 <= q < k && candidates@[q] == (#[trigger] chosen@[i]).0,
        decreases candidates.len() - k,
    {
        let b = candidates[k];
        let co = joint_count_of(events, &mask_a, a, b);
        proof {
            lemma_joint_at_most_occurrences(events@, a as int, b as int, n as nat);
            assert(candidates@.contains(b));
        }
        let conf = Ratio::new(co as u64, total as u64);
        if conf.at_least(&threshold) {
            let ghost old_chosen = chosen@;
            chosen.push((b, co, conf));
            confs.push(conf);
            proof {
                assert forall|i: int, j: int| 0 <= i < j < chosen@.len() implies chosen@[i].0
                    != chosen@[j].0 by {
                    if j == chosen@.len() - 1 {
                        let q = choose|q: int| 0 <= q < k && candidates@[q] == (#[trigger] old_chosen[i]).0;
                        assert(old_chosen[i] == chosen@[i]);
                    }
                }
                assert forall|i: int| 0 <= i < chosen@.len() implies exists|q: int|
                    0 <= q < k + 1 && candidates@[q] == (#[trigger] chosen@[i]).0 by {
                    if i == chosen@.len() - 1 {
                        assert(candidates@[k as int] == chosen@[i].0);
                    } else {
                        assert(old_chosen[i] == chosen@[i]);
                        let q = choose|q: int| 0 <= q < k && candidates@[q] == (#[trigger] old_chosen[i]).0;
                    }
                }
                assert forall|q: int|
                    0 <= q < k + 1 && event_coupled(
                        events@,
                        a as int,
                        candidates@[q] as int,
                        n as nat,
                        threshold,
                    ) implies lists_entity(chosen@, candidates@[q] as int) by {
                    if q == k {
                        assert(chosen@[chosen@.len() - 1].0 == b);
                    } else {
                        let i = choose|i: int| 0 <= i < old_chosen.len() && (#[trigger] old_chosen[i]).0
                            == candidates@[q];
                        assert(chosen@[i] == old_chosen[i]);
                    }
                }
            }
        } else {
            proof {
                assert forall|q: int|
                    0 <= q < k + 1 && event_coupled(
                        events@,
                        a as int,
                        candidates@[q] as int,
                        n as nat,
                        threshold,
                    ) implies lists_entity(chosen@, candidates@[q] as int) by {
                }
                assert forall|i: int| 0 <= i < chosen@.len() implies exists|q: int|
                    0 <= q < k + 1 && candidates@[q] == (#[trigger] chosen@[i]).0 by {
                    let q = choose|q: int| 0 <= q < k && candidates@[q] == (#[trigger] chosen@[i]).0;
                }
            }
        }
        k += 1;
    }
    let order = rank_by_ratio(&confs, top_n);
    let mut r: Vec<(usize, usize, Ratio)> = Vec::new();
    let mut t: usize = 0;
    while t < order.len()
        invariant
            0 <= t <= order@.len(),
            is_ratio_ranking(order@, confs@, top_n as nat),
            confs@.len() == chosen@.len(),
            r@.len() == t,
            forall|i: int| 0 <= i < t ==> r@[i] == chosen@[order@[i] as int],
        decreases order.len() - t,
    {
        r.push(chosen[order[t]]);
        t += 1;
    }
    proof {
        assert forall|i: int, j: int| 0 <= i < j < r@.len() implies ratio_ge(r@[i].2, r@[j].2) by {
            assert(ratio_ge(confs@[order@[i] as int], confs@[order@[j] as int]));
        }
        assert forall|i: int, j: int| 0 <= i < j < r@.len() implies r@[i].0 != r@[j].0 by {
            assert(order@[i] != order@[j]);
        }
        assert forall|b: int|
            0 <= b < m && event_coupled(events@, a as int, b, n as nat, threshold) && !lists_entity(
                r@,
                b,
            ) implies {
            &&& r@.len() == top_n
            &&& forall|k: int|
                0 <= k < r@.len() ==> ratio_ge(
                    (#[trigger] r@[k]).2,
                    event_confidence(events@, a as int, b, n as nat),
                )
        } by {
            assert(candidates@.contains(b as usize));
            let q = choose|q: int| 0 <= q < candidates@.len() && candidates@[q] == b as usize;
            assert(lists_entity(chosen@, b));
            let e = choose|e: int| 0 <= e < chosen@.len() && (#[trigger] chosen@[e]).0 == b;
            if order@.contains(e as usize) {
                let p = choose|p: int| 0 <= p < order@.len() && order@[p] == e as usize;
                assert(r@[p].0 == b);
                assert(false);
            }
            assert(order@.len() == top_n);
            assert forall|k: int| 0 <= k < r@.len() implies ratio_ge(
                (#[trigger] r@[k]).2,
                event_confidence(events@, a as int, b, n as nat),
            ) by {
                assert(ratio_ge(confs@[order@[k] as int], confs@[e]));
            }
        }
    }
    r
}

/// The number of commits that touched each of the `m` entities.
pub fn occurrence_counts(events: &Vec<(usize, usize)>, n: usize, m: usize) -> (r: Vec<usize>)
    requires
        events_in(events@, n as nat, m as nat),
    ensures
        r@.len() == m,
        forall|e: int| 0 <= e < m ==> r@[e] == occurrence_count(events@, e, n as nat),
{
    let mut r: Vec<usize> = Vec::new();
    let mut e: usize = 0;
    while e < m
        invariant
            0 <= e <= m,
            events_in(events@, n as nat, m as nat),
            r@.len() == e,
            forall|x: int| 0 <= x < e ==> r@[x] == occurrence_count(events@, x, n as nat),
        decreases m - e,
    {
        let mask = occurrence_mask_of(events, e, n);
        r.push(count_trues(&mask));
        e += 1;
    }
    r
}

/// An entity of some event was touched by some commit.
pub proof fn lemma_used_entity_counted(events: Seq<(usize, usize)>, i: int, n: nat)
    requires
        0 <= i < events.len(),
        events[i].0 < n,
    ensures
        occurrence_count(events, events[i].1 as int, n) > 0,
{
    let e = events[i].1 as int;
    let c = events[i].0 as int;
    assert(occurs(events, e, c));
    assert(occurrence_mask(events, e, n)[c]);
    lemma_count_true_positive(occurrence_mask(events, e, n));
}

} // verus!
