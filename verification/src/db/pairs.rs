//! The most strongly coupled file pairs of the store.

use vstd::prelude::*;

use crate::analyzer::string_views;
use crate::db::{file_rows, Database};
use crate::db::count::count_trues;
use crate::db::events::{
    co_occurring, event_confidence, events_in, joint_count, joint_count_of,
    lemma_joint_at_most_occurrences, lemma_joint_symmetric, occurrence_count, occurrence_counts,
    occurrence_mask, occurrence_mask_of,
};
use crate::db::keys::{
    interns, key_confidence, key_count, key_joint_count, key_joint_mask, key_mask,
    lemma_interned_masks, lemma_unnamed_counts,
};
use crate::db::queries::{
    chars_less, coupled_pair_views, is_pair_ranking, is_pair_selection, lemma_events_in,
    lemma_file_rows_in,
    lists_pair, pair_confidence, pair_coupled, ratio_max, CoupledPair,
};
use crate::db::rank::{is_int_ranking, is_ratio_ranking, positive_dens, rank_by_int, rank_by_ratio};
use crate::ratio::{ratio_ge, Ratio};

verus! {

/// The confidence of the pair of entities `x`, `y`: the greater of the
/// confidences of `x -> y` and of `y -> x`.
pub open spec fn event_pair_confidence(events: Seq<(usize, usize)>, x: int, y: int, n: nat) -> Ratio {
    ratio_max(event_confidence(events, x, y, n), event_confidence(events, y, x, n))
}

/// Entities `x`, `y` (named so that `x` sorts first) are a coupled pair.
pub open spec fn event_pair_coupled(
    events: Seq<(usize, usize)>,
    names: Seq<Seq<char>>,
    x: int,
    y: int,
    n: nat,
    threshold: Ratio,
    min_co: nat,
) -> bool {
    &&& chars_less(names[x], names[y])
    &&& joint_count(events, x, y, n) > 0
    &&& joint_count(events, x, y, n) >= min_co
    &&& ratio_ge(event_pair_confidence(events, x, y, n), threshold)
}

/// A candidate pair `(x, y, co-changes, confidence)` is a coupled pair with
/// its counts.
pub open spec fn good_candidate(
    events: Seq<(usize, usize)>,
    names: Seq<Seq<char>>,
    c: (usize, usize, usize, Ratio),
    n: nat,
    threshold: Ratio,
    min_co: nat,
) -> bool {
    let (x, y, co, conf) = c;
    &&& x < names.len() && y < names.len()
    &&& event_pair_coupled(events, names, x as int, y as int, n, threshold, min_co)
    &&& co == joint_count(events, x as int, y as int, n)
    &&& conf == event_pair_confidence(events, x as int, y as int, n)
}

/// Some candidate is for the pair `x`, `y`.
pub open spec fn has_candidate(cand: Seq<(usize, usize, usize, Ratio)>, x: int, y: int) -> bool {
    exists|i: int| 0 <= i < cand.len() && (#[trigger] cand[i]).0 == x && cand[i].1 == y
}

/// Whether `a` sorts before `b`.
fn less_chars(a: &Vec<char>, b: &Vec<char>) -> (r: bool)
    ensures
        r == chars_less(a@, b@),
{
    let mut i: usize = 0;
    assert(a@.skip(0) =~= a@ && b@.skip(0) =~= b@);
    while i < a.len() && i < b.len()
        invariant
            0 <= i <= a@.len(),
            i <= b@.len(),
            chars_less(a@, b@) == chars_less(a@.skip(i as int), b@.skip(i as int)),
        decreases a.len() - i,
    {
        let x = a[i];
        let y = b[i];
        assert(a@.skip(i as int)[0] == x && b@.skip(i as int)[0] == y);
        if x != y {
            return (x as u32) < (y as u32);
        }
        assert(a@.skip(i as int).drop_first() =~= a@.skip(i + 1));
        assert(b@.skip(i as int).drop_first() =~= b@.skip(i + 1));
        i += 1;
    }
    i == a.len() && i < b.len()
}

/// No path sorts before itself.
proof fn lemma_chars_less_irreflexive(a: Seq<char>)
    ensures
        !chars_less(a, a),
    decreases a.len(),
{
    if a.len() > 0 {
        lemma_chars_less_irreflexive(a.drop_first());
    }
}

/// The greater of two fractions (the first where they are equal).
fn max_ratio(x: Ratio, y: Ratio) -> (r: Ratio)
    ensures
        r == ratio_max(x, y),
{
    if x.at_least(&y) {
        x
    } else {
        y
    }
}

/// Appends to `cand` (and its confidences to `confs`) every coupled pair
/// whose first entity is `a`.
fn add_pairs_of(
    events: &Vec<(usize, usize)>,
    chars: &Vec<Vec<char>>,
    counts: &Vec<usize>,
    a: usize,
    n: usize,
    threshold: Ratio,
    min_co: usize,
    cand: &mut Vec<(usize, usize, usize, Ratio)>,
    confs: &mut Vec<Ratio>,
)
    requires
        a < chars@.len(),
        events_in(events@, n as nat, chars@.len() as nat),
        counts@.len() == chars@.len(),
        forall|x: int| 0 <= x < chars@.len() ==> counts@[x] == occurrence_count(events@, x, n as nat),
        old(confs)@.len() == old(cand)@.len(),
        positive_dens(old(confs)@),
        forall|i: int| 0 <= i < old(cand)@.len() ==> old(confs)@[i] == (#[trigger] old(cand)@[i]).3,
        forall|i: int| 0 <= i < old(cand)@.len() ==> (#[trigger] old(cand)@[i]).0 < a,
    ensures
        final(confs)@.len() == final(cand)@.len(),
        positive_dens(final(confs)@),
        final(cand)@.len() >= old(cand)@.len(),
        forall|i: int| 0 <= i < old(cand)@.len() ==> final(cand)@[i] == old(cand)@[i],
        forall|i: int| 0 <= i < final(cand)@.len() ==> final(confs)@[i] == (#[trigger] final(cand)@[i]).3,
        forall|i: int| 0 <= i < old(cand)@.len() ==> final(confs)@[i] == old(confs)@[i],
        forall|i: int|
            old(cand)@.len() <= i < final(cand)@.len() ==> (#[trigger] final(cand)@[i]).0 == a
                && good_candidate(
                events@,
                chars@.map_values(|v: Vec<char>| v@),
                final(cand)@[i],
                n as nat,
                threshold,
                min_co as nat,
            ),
        forall|i: int, j: int|
            old(cand)@.len() <= i < j < final(cand)@.len() ==> final(cand)@[i].1 != final(cand)@[j].1,
        forall|y: int|
            0 <= y < chars@.len() && event_pair_coupled(
                events@,
                chars@.map_values(|v: Vec<char>| v@),
                a as int,
                y,
                n as nat,
                threshold,
                min_co as nat,
            ) ==> has_candidate(final(cand)@, a as int, y),
{
    let ghost names = chars@.map_values(|v: Vec<char>| v@);
    let m = chars.len();
    let mask_a = occurrence_mask_of(events, a, n);
    let partners = co_occurring(events, a, &mask_a, m);
    let ghost start = cand@.len();
    let mut k: usize = 0;
    while k < partners.len()
        invariant
            0 <= k <= partners@.len(),
            a < m,
            m == chars@.len(),
            names == chars@.map_values(|v: Vec<char>| v@),
            events_in(events@, n as nat, m as nat),
            mask_a@ == occurrence_mask(events@, a as int, n as nat),
            mask_a@.len() == n,
            counts@.len() == m,
            forall|x: int| 0 <= x < m ==> counts@[x] == occurrence_count(events@, x, n as nat),
            forall|i: int, j: int| 0 <= i < j < partners@.len() ==> partners@[i] != partners@[j],
            forall|i: int| 0 <= i < partners@.len() ==> (#[trigger] partners@[i]) < m && partners@[i] != a,
            forall|b: usize|
                b < m ==> (#[trigger] partners@.contains(b) <==> (b != a && joint_count(
                    events@,
                    a as int,
                    b as int,
                    n as nat,
                ) > 0)),
            confs@.len() == cand@.len(),
            positive_dens(confs@),
            start == old(cand)@.len(),
            cand@.len() >= start,
            forall|i: int| 0 <= i < start ==> cand@[i] == old(cand)@[i],
            forall|i: int| 0 <= i < start ==> confs@[i] == old(confs)@[i],
            forall|i: int| 0 <= i < cand@.len() ==> confs@[i] == (#[trigger] cand@[i]).3,
            forall|i: int|
                start <= i < cand@.len() ==> (#[trigger] cand@[i]).0 == a && good_candidate(
                    events@,
                    names,
                    cand@[i],
                    n as nat,
                    threshold,
                    min_co as nat,
                ) && exists|q: int| 0 <= q < k && partners@[q] == cand@[i].1,
            forall|i: int, j: int| start <= i < j < cand@.len() ==> cand@[i].1 != cand@[j].1,
            forall|t: int|
                0 <= t < k && event_pair_coupled(
                    events@,
                    names,
                    a as int,
                    partners@[t] as int,
                    n as nat,
                    threshold,
                    min_co as nat,
                ) ==> has_candidate(cand@, a as int, partners@[t] as int),
        decreases partners.len() - k,
    {
        let b = partners[k];
        proof {
            assert(partners@.contains(b));
        }
        let ghost before = cand@;
        let mut added = false;
        if less_chars(&chars[a], &chars[b]) {
            let co = joint_count_of(events, &mask_a, a, b);
            proof {
                lemma_joint_at_most_occurrences(events@, a as int, b as int, n as nat);
                lemma_joint_symmetric(events@, a as int, b as int, n as nat);
            }
            if co >= min_co {
                let conf = max_ratio(
                    Ratio::new(co as u64, counts[a] as u64),
                    Ratio::new(co as u64, counts[b] as u64),
                );
                if conf.at_least(&threshold) {
                    cand.push((a, b, co, conf));
                    confs.push(conf);
                    added = true;
                    assert(good_candidate(events@, names, cand@[cand@.len() - 1], n as nat, threshold, min_co as nat));
                }
            }
        }
        proof {
            assert forall|i: int|
                start <= i < cand@.len() implies (#[trigger] cand@[i]).0 == a && good_candidate(
                    events@,
                    names,
                    cand@[i],
                    n as nat,
                    threshold,
                    min_co as nat,
                ) && exists|q: int| 0 <= q < k + 1 && partners@[q] == cand@[i].1 by {
                if i < before.len() {
                    assert(cand@[i] == before[i]);
                    let q = choose|q: int| 0 <= q < k && partners@[q] == before[i].1;
                } else {
                    assert(partners@[k as int] == cand@[i].1);
                }
            }
            assert forall|i: int, j: int| start <= i < j < cand@.len() implies cand@[i].1 != cand@[j].1 by {
                if j == cand@.len() - 1 && added {
                    let q = choose|q: int| 0 <= q < k && partners@[q] == before[i].1;
                    assert(partners@[q] != partners@[k as int]);
                }
            }
            assert forall|t: int|
                0 <= t < k + 1 && event_pair_coupled(
                    events@,
                    names,
                    a as int,
                    partners@[t] as int,
                    n as nat,
                    threshold,
                    min_co as nat,
                ) implies has_candidate(cand@, a as int, partners@[t] as int) by {
                if t == k {
                    assert(cand@[cand@.len() - 1].1 == partners@[t]);
                } else {
                    let i = choose|i: int|
                        0 <= i < before.len() && (#[trigger] before[i]).0 == a && before[i].1 == partners@[t];
                    assert(cand@[i] == before[i]);
                }
            }
        }
        k += 1;
    }
    proof {
        assert forall|y: int|
            0 <= y < m && event_pair_coupled(
                events@,
                names,
                a as int,
                y,
                n as nat,
                threshold,
                min_co as nat,
            ) implies has_candidate(cand@, a as int, y) by {
            if y == a as int {
                lemma_chars_less_irreflexive(names[y]);
            }
            assert(partners@.contains(y as usize));
            let t = choose|t: int| 0 <= t < partners@.len() && partners@[t] == y as usize;
        }
    }
}

/// The pair values of numbered paths are those of their numbers.
proof fn lemma_named_pair(
    rows: Seq<(usize, Seq<char>)>,
    names: Seq<Seq<char>>,
    events: Seq<(usize, usize)>,
    x: int,
    y: int,
    n: nat,
    threshold: Ratio,
    min_co: nat,
)
    requires
        interns(rows, names, events),
        0 <= x < names.len(),
        0 <= y < names.len(),
    ensures
        key_joint_count(rows, names[x], names[y], n) == joint_count(events, x, y, n),
        pair_confidence(rows, names[x], names[y], n) == event_pair_confidence(events, x, y, n),
        pair_coupled(rows, names[x], names[y], n, threshold, min_co) == event_pair_coupled(
            events,
            names,
            x,
            y,
            n,
            threshold,
            min_co,
        ),
{
    lemma_interned_masks(rows, names, events, n);
    assert(key_joint_mask(rows, names[x], names[y], n) == crate::db::events::joint_mask(events, x, y, n));
    assert(key_joint_mask(rows, names[y], names[x], n) == crate::db::events::joint_mask(events, y, x, n));
    assert(key_mask(rows, names[x], n) == occurrence_mask(events, x, n));
    assert(key_mask(rows, names[y], n) == occurrence_mask(events, y, n));
}

/// The co-change counts of pairs as ranking keys.
pub open spec fn co_change_keys(v: Seq<(Seq<char>, Seq<char>, usize, Ratio)>) -> Seq<i128> {
    v.map_values(|p: (Seq<char>, Seq<char>, usize, Ratio)| p.2 as i128)
}

/// `r` is the first `limit` of `v` sorted by descending co-change count,
/// pairs with equal counts kept in their order.
pub open spec fn top_by_co_changes(
    v: Seq<(Seq<char>, Seq<char>, usize, Ratio)>,
    limit: nat,
    r: Seq<(Seq<char>, Seq<char>, usize, Ratio)>,
) -> bool {
    exists|idx: Seq<usize>|
        #[trigger] is_int_ranking(idx, co_change_keys(v), limit) && (forall|i: int, j: int|
            0 <= i < j < idx.len() && co_change_keys(v)[idx[i] as int] == co_change_keys(v)[idx[j] as int]
                ==> idx[i] < idx[j]) && r == idx.map_values(|k: usize| v[k as int])
}

/// The first `limit` pairs by descending co-change count, stable.
pub(crate) fn top_pairs_by_co_changes(pairs: &Vec<CoupledPair>, limit: usize) -> (r: Vec<CoupledPair>)
    ensures
        top_by_co_changes(coupled_pair_views(pairs@), limit as nat, coupled_pair_views(r@)),
        limit >= pairs@.len() ==> r@.len() == pairs@.len(),
{
    let ghost all = coupled_pair_views(pairs@);
    let mut keys: Vec<i128> = Vec::new();
    let mut i: usize = 0;
    while i < pairs.len()
        invariant
            0 <= i <= pairs@.len(),
            all == coupled_pair_views(pairs@),
            keys@ == co_change_keys(all).take(i as int),
        decreases pairs.len() - i,
    {
        keys.push(pairs[i].co_commit_count as i128);
        assert(keys@ =~= co_change_keys(all).take(i + 1));
        i += 1;
    }
    assert(co_change_keys(all).take(all.len() as int) =~= co_change_keys(all));
    let order = rank_by_int(&keys, limit);
    let mut r: Vec<CoupledPair> = Vec::new();
    let mut t: usize = 0;
    while t < order.len()
        invariant
            0 <= t <= order@.len(),
            all == coupled_pair_views(pairs@),
            keys@ == co_change_keys(all),
            is_int_ranking(order@, keys@, limit as nat),
            coupled_pair_views(r@) == order@.take(t as int).map_values(|k: usize| all[k as int]),
        decreases order.len() - t,
    {
        let k = order[t];
        let ghost before = coupled_pair_views(r@);
        assert(order@[t as int] < pairs@.len());
        r.push(pairs[k].duplicate());
        assert(coupled_pair_views(r@) =~= before.push(all[k as int]));
        assert(order@.take(t + 1) =~= order@.take(t as int).push(k));
        assert(coupled_pair_views(r@) =~= order@.take(t + 1).map_values(|k: usize| all[k as int]));
        t += 1;
    }
    assert(order@.take(order@.len() as int) =~= order@);
    assert(top_by_co_changes(all, limit as nat, coupled_pair_views(r@)));
    r
}

/// Listing a confidence selection of pairs by descending co-change count,
/// equal counts in their order, gives a ranking of the pairs.
proof fn lemma_reordered_selection(
    rows: Seq<(usize, Seq<char>)>,
    n: nat,
    threshold: Ratio,
    min_co: nat,
    top_n: nat,
    sel: Seq<(Seq<char>, Seq<char>, usize, Ratio)>,
    r: Seq<(Seq<char>, Seq<char>, usize, Ratio)>,
)
    requires
        is_pair_selection(rows, n, threshold, min_co, top_n, sel),
        top_by_co_changes(sel, sel.len(), r),
        r.len() == sel.len(),
        sel.len() <= usize::MAX,
    ensures
        is_pair_ranking(rows, n, threshold, min_co, top_n, r),
{
    let keys = co_change_keys(sel);
    let idx = choose|idx: Seq<usize>|
        #[trigger] is_int_ranking(idx, keys, sel.len()) && (forall|i: int, j: int|
            0 <= i < j < idx.len() && keys[idx[i] as int] == keys[idx[j] as int] ==> idx[i] < idx[j])
            && r == idx.map_values(|k: usize| sel[k as int]);
    assert(idx.len() == r.len());
    assert forall|i: int| 0 <= i < r.len() implies #[trigger] r[i] == sel[idx[i] as int] && idx[i]
        < sel.len() by {}
    assert forall|i: int|
        0 <= i < r.len() implies {
            let (a, b, co, conf) = #[trigger] r[i];
            &&& pair_coupled(rows, a, b, n, threshold, min_co)
            &&& co == key_joint_count(rows, a, b, n)
            &&& conf == pair_confidence(rows, a, b, n)
        } by {
        assert(r[i] == sel[idx[i] as int]);
    }
    assert forall|i: int, j: int| 0 <= i < j < r.len() implies !(r[i].0 == r[j].0 && r[i].1
        == r[j].1) by {
        assert(r[i] == sel[idx[i] as int] && r[j] == sel[idx[j] as int]);
        assert(idx[i] != idx[j]);
        if idx[i] < idx[j] {
            assert(!(sel[idx[i] as int].0 == sel[idx[j] as int].0 && sel[idx[i] as int].1 == sel[idx[j] as int].1));
        } else {
            assert(!(sel[idx[j] as int].0 == sel[idx[i] as int].0 && sel[idx[j] as int].1 == sel[idx[i] as int].1));
        }
    }
    assert forall|i: int, j: int| 0 <= i < j < r.len() implies r[i].2 >= r[j].2 by {
        assert(r[i] == sel[idx[i] as int] && r[j] == sel[idx[j] as int]);
        assert(keys[idx[i] as int] >= keys[idx[j] as int]);
    }
    assert forall|i: int, j: int| 0 <= i < j < r.len() && r[i].2 == r[j].2 implies ratio_ge(
        r[i].3,
        r[j].3,
    ) by {
        assert(r[i] == sel[idx[i] as int] && r[j] == sel[idx[j] as int]);
        assert(keys[idx[i] as int] == keys[idx[j] as int]);
        assert(idx[i] < idx[j]);
    }
    assert forall|a: Seq<char>, b: Seq<char>|
        pair_coupled(rows, a, b, n, threshold, min_co) && !lists_pair(r, a, b) implies {
            &&& r.len() == top_n
            &&& forall|k: int|
                0 <= k < r.len() ==> ratio_ge((#[trigger] r[k]).3, pair_confidence(rows, a, b, n))
        } by {
        if lists_pair(sel, a, b) {
            let e = choose|e: int| 0 <= e < sel.len() && (#[trigger] sel[e]).0 == a && sel[e].1 == b;
            assert(idx.contains(e as usize));
            let p = choose|p: int| 0 <= p < idx.len() && idx[p] == e as usize;
            assert(r[p] == sel[e]);
        }
        assert forall|k: int| 0 <= k < r.len() implies ratio_ge((#[trigger] r[k]).3, pair_confidence(rows, a, b, n)) by {
            assert(r[k] == sel[idx[k] as int]);
        }
    }
}

impl Database {
    /// The most strongly coupled file pairs: each pair of files `a`, `b`
    /// (`a` sorting first) changed together by at least one and at least
    /// `min_co_changes` commits, whose pair confidence (the greater of
    /// `Count(a ∩ b) / Count(a)` and `Count(a ∩ b) / Count(b)`) is at least
    /// `threshold`; the `top_n` most confident of them, listed by descending
    /// co-change count, equal counts by descending confidence (see
    /// `is_pair_ranking`).
    pub fn query_top_coupled_pairs(&self, top_n: usize, threshold: Ratio, min_co_changes: usize) -> (r:
        Vec<CoupledPair>)
        requires
            self.wf(),
        ensures
            is_pair_ranking(
                file_rows(self@),
                self@.commits.len(),
                threshold,
                min_co_changes as nat,
                top_n as nat,
                coupled_pair_views(r@),
            ),
    {
        let (names, events) = self.file_events();
        let ghost rows = file_rows(self@);
        let ghost nv = string_views(names@);
        let ghost n = self@.commits.len();
        let m = names.len();
        proof {
            lemma_file_rows_in(self@);
            lemma_events_in(self@, rows, nv, events@);
        }
        let mut chars: Vec<Vec<char>> = Vec::new();
        let mut q: usize = 0;
        while q < m
            invariant
                0 <= q <= m,
                m == names@.len(),
                nv == string_views(names@),
                chars@.len() == q,
                forall|x: int| 0 <= x < q ==> (#[trigger] chars@[x])@ == nv[x],
            decreases m - q,
        {
            chars.push(crate::text::chars_of(names[q].as_str()));
            q += 1;
        }
        assert(chars@.map_values(|v: Vec<char>| v@) =~= nv);
        let counts = occurrence_counts(&events, self.commits.len(), m);
        let mut cand: Vec<(usize, usize, usize, Ratio)> = Vec::new();
        let mut confs: Vec<Ratio> = Vec::new();
        let mut a: usize = 0;
        while a < m
            invariant
                0 <= a <= m,
                m == chars@.len(),
                nv == chars@.map_values(|v: Vec<char>| v@),
                n == self@.commits.len(),
                events_in(events@, n, m as nat),
                counts@.len() == m,
                forall|x: int| 0 <= x < m ==> counts@[x] == occurrence_count(events@, x, n),
                confs@.len() == cand@.len(),
                positive_dens(confs@),
                forall|i: int| 0 <= i < cand@.len() ==> confs@[i] == (#[trigger] cand@[i]).3,
                forall|i: int|
                    0 <= i < cand@.len() ==> (#[trigger] cand@[i]).0 < a && good_candidate(
                        events@,
                        nv,
                        cand@[i],
                        n,
                        threshold,
                        min_co_changes as nat,
                    ),
                forall|i: int, j: int|
                    0 <= i < j < cand@.len() ==> !(cand@[i].0 == cand@[j].0 && cand@[i].1 == cand@[j].1),
                forall|x: int, y: int|
                    0 <= x < a && 0 <= y < m && event_pair_coupled(
                        events@,
                        nv,
                        x,
                        y,
                        n,
                        threshold,
                        min_co_changes as nat,
                    ) ==> has_candidate(cand@, x, y),
            decreases m - a,
        {
            let ghost before = cand@;
            add_pairs_of(&events, &chars, &counts, a, self.commits.len(), threshold, min_co_changes, &mut cand, &mut confs);
            proof {
                assert forall|i: int, j: int|
                    0 <= i < j < cand@.len() implies !(cand@[i].0 == cand@[j].0 && cand@[i].1 == cand@[j].1) by {
                    if j >= before.len() && i < before.len() {
                        assert(before[i].0 < a);
                    } else if i < before.len() {
                        assert(cand@[i] == before[i] && cand@[j] == before[j]);
                    }
                }
                assert forall|x: int, y: int|
                    0 <= x < a + 1 && 0 <= y < m && event_pair_coupled(
                        events@,
                        nv,
                        x,
                        y,
                        n,
                        threshold,
                        min_co_changes as nat,
                    ) implies has_candidate(cand@, x, y) by {
                    if x < a {
                        assert(has_candidate(before, x, y));
                        let i = choose|i: int| 0 <= i < before.len() && (#[trigger] before[i]).0 == x && before[i].1 == y;
                        assert(cand@[i] == before[i]);
                    }
                }
                assert forall|i: int|
                    0 <= i < cand@.len() implies (#[trigger] cand@[i]).0 < a + 1 && good_candidate(
                        events@,
                        nv,
                        cand@[i],
                        n,
                        threshold,
                        min_co_changes as nat,
                    ) by {
                    if i < before.len() {
                        assert(cand@[i] == before[i]);
                    }
                }
            }
            a += 1;
        }
        let order = rank_by_ratio(&confs, top_n);
        let mut r: Vec<CoupledPair> = Vec::new();
        let mut t: usize = 0;
        while t < order.len()
            invariant
                0 <= t <= order@.len(),
                m == names@.len(),
                string_views(names@) == nv,
                is_ratio_ranking(order@, confs@, top_n as nat),
                confs@.len() == cand@.len(),
                forall|i: int|
                    0 <= i < cand@.len() ==> (#[trigger] cand@[i]).0 < m && cand@[i].1 < m,
                r@.len() == t,
                forall|i: int|
                    0 <= i < t ==> (#[trigger] coupled_pair_views(r@)[i]) == (
                        nv[cand@[order@[i] as int].0 as int],
                        nv[cand@[order@[i] as int].1 as int],
                        cand@[order@[i] as int].2,
                        cand@[order@[i] as int].3,
                    ),
            decreases order.len() - t,
        {
            let (x, y, co, conf) = cand[order[t]];
            assert(cand@[order@[t as int] as int].0 < m);
            let ghost before = coupled_pair_views(r@);
            let item = CoupledPair {
                file_a: names[x].clone(),
                file_b: names[y].clone(),
                confidence: conf,
                co_commit_count: co,
            };
            r.push(item);
            assert(coupled_pair_views(r@) =~= before.push((nv[x as int], nv[y as int], co, conf)));
            t += 1;
        }
        proof {
            let rv = coupled_pair_views(r@);
            let mt = min_co_changes as nat;
            assert forall|i: int| 0 <= i < rv.len() implies {
                let (pa, pb, co, conf) = #[trigger] rv[i];
                &&& pair_coupled(rows, pa, pb, n, threshold, mt)
                &&& co == key_joint_count(rows, pa, pb, n)
                &&& conf == pair_confidence(rows, pa, pb, n)
            } by {
                let e = order@[i] as int;
                lemma_named_pair(rows, nv, events@, cand@[e].0 as int, cand@[e].1 as int, n, threshold, mt);
            }
            assert forall|i: int, j: int| 0 <= i < j < rv.len() implies !(rv[i].0 == rv[j].0 && rv[i].1 == rv[j].1) by {
                let ei = order@[i] as int;
                let ej = order@[j] as int;
                assert(order@[i] != order@[j]);
                let xi = cand@[ei].0 as int;
                let yi = cand@[ei].1 as int;
                let xj = cand@[ej].0 as int;
                let yj = cand@[ej].1 as int;
                if ei < ej {
                    assert(!(cand@[ei].0 == cand@[ej].0 && cand@[ei].1 == cand@[ej].1));
                } else {
                    assert(!(cand@[ej].0 == cand@[ei].0 && cand@[ej].1 == cand@[ei].1));
                }
                if xi < xj {
                    assert(nv[xi] != nv[xj]);
                } else if xj < xi {
                    assert(nv[xj] != nv[xi]);
                }
                if yi < yj {
                    assert(nv[yi] != nv[yj]);
                } else if yj < yi {
                    assert(nv[yj] != nv[yi]);
                }
            }
            assert forall|i: int, j: int| 0 <= i < j < rv.len() implies ratio_ge(rv[i].3, rv[j].3) by {
                assert(ratio_ge(confs@[order@[i] as int], confs@[order@[j] as int]));
            }
            assert forall|pa: Seq<char>, pb: Seq<char>|
                pair_coupled(rows, pa, pb, n, threshold, mt) && !lists_pair(rv, pa, pb) implies {
                    &&& rv.len() == top_n
                    &&& forall|k: int|
                        0 <= k < rv.len() ==> ratio_ge((#[trigger] rv[k]).3, pair_confidence(rows, pa, pb, n))
                } by {
                if forall|e: int| 0 <= e < nv.len() ==> nv[e] != pa {
                    lemma_unnamed_counts(rows, nv, events@, pa, pb, n);
                }
                if forall|e: int| 0 <= e < nv.len() ==> nv[e] != pb {
                    lemma_unnamed_counts(rows, nv, events@, pb, pa, n);
                }
                let x = choose|e: int| 0 <= e < nv.len() && nv[e] == pa;
                let y = choose|e: int| 0 <= e < nv.len() && nv[e] == pb;
                lemma_named_pair(rows, nv, events@, x, y, n, threshold, mt);
                assert(has_candidate(cand@, x, y));
                let e = choose|i: int| 0 <= i < cand@.len() && (#[trigger] cand@[i]).0 == x && cand@[i].1 == y;
                if order@.contains(e as usize) {
                    let p = choose|p: int| 0 <= p < order@.len() && order@[p] == e as usize;
                    assert(rv[p].0 == pa && rv[p].1 == pb);
                }
                assert(!order@.contains(e as usize));
                assert forall|k: int| 0 <= k < rv.len() implies ratio_ge((#[trigger] rv[k]).3, pair_confidence(rows, pa, pb, n)) by {
                    assert(ratio_ge(confs@[order@[k] as int], confs@[e]));
                }
            }
            assert(is_pair_selection(rows, n, threshold, mt, top_n as nat, rv));
        }
        let sorted = top_pairs_by_co_changes(&r, r.len());
        proof {
            lemma_reordered_selection(
                rows,
                n,
                threshold,
                min_co_changes as nat,
                top_n as nat,
                coupled_pair_views(r@),
                coupled_pair_views(sorted@),
            );
        }
        sorted
    }
}

} // verus!
