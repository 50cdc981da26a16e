//! Change rows keyed by an entity (a file path, or a file path with a
//! function name): which commits touched a key, how many, and how many
//! touched two keys together. Numbering the keys turns rows into events;
//! the lemmas here carry what holds of events over to keys.

use vstd::prelude::*;

use crate::db::count::{count_true, lemma_count_true_ext, lemma_count_true_positive};
use crate::db::events::{
    event_confidence, event_coupled, is_event_coupling, joint_count, joint_mask, lists_entity,
    occurrence_count, occurrence_mask, occurs,
};
use crate::ratio::{ratio_ge, Ratio};

verus! {

/// Commit `c` touched key `k`: some row is `(c, k)`.
pub open spec fn key_occurs<K>(rows: Seq<(usize, K)>, k: K, c: int) -> bool {
    exists|i: int|
        #![trigger rows[i]]
        0 <= i < rows.len() && rows[i].0 == c && rows[i].1 == k
}

/// For each of the `n` commits, whether it touched key `k`.
pub open spec fn key_mask<K>(rows: Seq<(usize, K)>, k: K, n: nat) -> Seq<bool> {
    Seq::new(n, |c: int| key_occurs(rows, k, c))
}

/// The number of commits that touched key `k`: `Count(k)`.
pub open spec fn key_count<K>(rows: Seq<(usize, K)>, k: K, n: nat) -> nat {
    count_true(key_mask(rows, k, n))
}

/// For each of the `n` commits, whether it touched both `a` and `b`.
pub open spec fn key_joint_mask<K>(rows: Seq<(usize, K)>, a: K, b: K, n: nat) -> Seq<bool> {
    Seq::new(n, |c: int| key_occurs(rows, a, c) && key_occurs(rows, b, c))
}

/// The number of commits that touched both `a` and `b`: `Count(a ∩ b)`.
pub open spec fn key_joint_count<K>(rows: Seq<(usize, K)>, a: K, b: K, n: nat) -> nat {
    count_true(key_joint_mask(rows, a, b, n))
}

/// `Confidence(a -> b) = Count(a ∩ b) / Count(a)`.
pub open spec fn key_confidence<K>(rows: Seq<(usize, K)>, a: K, b: K, n: nat) -> Ratio {
    Ratio { num: key_joint_count(rows, a, b, n) as u64, den: key_count(rows, a, n) as u64 }
}

/// `b` is coupled to `a` at `threshold`: another key that some commit
/// touched together with `a`, with a confidence of at least `threshold`.
pub open spec fn key_coupled<K>(rows: Seq<(usize, K)>, a: K, b: K, n: nat, threshold: Ratio) -> bool {
    &&& b != a
    &&& key_joint_count(rows, a, b, n) > 0
    &&& ratio_ge(key_confidence(rows, a, b, n), threshold)
}

/// Some entry of `r` is for key `b`.
pub open spec fn lists_key<K>(r: Seq<(K, usize, Ratio)>, b: K) -> bool {
    exists|i: int| 0 <= i < r.len() && (#[trigger] r[i]).0 == b
}

/// What the couplings of key `a` cut to `top_n` are: entries
/// `(key, co-changes, confidence)` of distinct coupled keys with their
/// counts, by descending confidence, at most `top_n` of them, and no
/// coupled key left out unless `top_n` are listed, each at least as
/// confident as it.
pub open spec fn is_key_coupling<K>(
    rows: Seq<(usize, K)>,
    a: K,
    n: nat,
    threshold: Ratio,
    top_n: nat,
    r: Seq<(K, usize, Ratio)>,
) -> bool {
    &&& r.len() <= top_n
    &&& forall|i: int|
        0 <= i < r.len() ==> {
            let (b, co, conf) = #[trigger] r[i];
            &&& key_coupled(rows, a, b, n, threshold)
            &&& co == key_joint_count(rows, a, b, n)
            &&& conf == key_confidence(rows, a, b, n)
        }
    &&& forall|i: int, j: int| 0 <= i < j < r.len() ==> r[i].0 != r[j].0
    &&& forall|i: int, j: int| 0 <= i < j < r.len() ==> ratio_ge(r[i].2, r[j].2)
    &&& forall|b: K|
        key_coupled(rows, a, b, n, threshold) && !lists_key(r, b) ==> {
            &&& r.len() == top_n
            &&& forall|k: int|
                0 <= k < r.len() ==> ratio_ge((#[trigger] r[k]).2, key_confidence(rows, a, b, n))
        }
}

/// `names` numbers the distinct keys of `rows`, and `events` is `rows` with
/// each key replaced by its number.
pub open spec fn interns<K>(rows: Seq<(usize, K)>, names: Seq<K>, events: Seq<(usize, usize)>) -> bool {
    &&& forall|i: int, j: int| 0 <= i < j < names.len() ==> names[i] != names[j]
    &&& events.len() == rows.len()
    &&& forall|i: int|
        0 <= i < events.len() ==> (#[trigger] events[i]).0 == rows[i].0 && events[i].1
            < names.len() && names[events[i].1 as int] == rows[i].1
    &&& forall|e: int| 0 <= e < names.len() ==> #[trigger] number_used(events, e)
}

/// Some event has entity number `e`.
pub open spec fn number_used(events: Seq<(usize, usize)>, e: int) -> bool {
    exists|i: int| 0 <= i < events.len() && (#[trigger] events[i]).1 == e
}

/// A numbered key is touched by the same commits as its number.
pub proof fn lemma_interned_occurs<K>(
    rows: Seq<(usize, K)>,
    names: Seq<K>,
    events: Seq<(usize, usize)>,
    e: int,
    c: int,
)
    requires
        interns(rows, names, events),
        0 <= e < names.len(),
    ensures
        key_occurs(rows, names[e], c) == occurs(events, e, c),
{
    if key_occurs(rows, names[e], c) {
        let i = choose|i: int|
            #![trigger rows[i]]
            0 <= i < rows.len() && rows[i].0 == c && rows[i].1 == names[e];
        assert(events[i].0 == c);
        assert(names[events[i].1 as int] == names[e]);
        assert(events[i].1 == e);
    }
    if occurs(events, e, c) {
        let i = choose|i: int|
            #![trigger events[i]]
            0 <= i < events.len() && events[i].0 == c && events[i].1 == e;
        assert(rows[i].0 == c && rows[i].1 == names[e]);
    }
}

/// A key without a number is touched by no commit.
pub proof fn lemma_unnamed_never_occurs<K>(
    rows: Seq<(usize, K)>,
    names: Seq<K>,
    events: Seq<(usize, usize)>,
    k: K,
    c: int,
)
    requires
        interns(rows, names, events),
        forall|e: int| 0 <= e < names.len() ==> names[e] != k,
    ensures
        !key_occurs(rows, k, c),
{
    if key_occurs(rows, k, c) {
        let i = choose|i: int|
            #![trigger rows[i]]
            0 <= i < rows.len() && rows[i].0 == c && rows[i].1 == k;
        assert(names[events[i].1 as int] == k);
    }
}

/// The masks of a numbered key and of its number agree.
pub proof fn lemma_interned_masks<K>(
    rows: Seq<(usize, K)>,
    names: Seq<K>,
    events: Seq<(usize, usize)>,
    n: nat,
)
    requires
        interns(rows, names, events),
    ensures
        forall|e: int|
            0 <= e < names.len() ==> #[trigger] key_mask(rows, names[e], n) == occurrence_mask(
                events,
                e,
                n,
            ),
        forall|a: int, b: int|
            0 <= a < names.len() && 0 <= b < names.len() ==> #[trigger] key_joint_mask(
                rows,
                names[a],
                names[b],
                n,
            ) == joint_mask(events, a, b, n),
{
    assert forall|e: int| 0 <= e < names.len() implies #[trigger] key_mask(rows, names[e], n)
        == occurrence_mask(events, e, n) by {
        assert forall|c: int| 0 <= c < n implies key_mask(rows, names[e], n)[c] == occurrence_mask(
            events,
            e,
            n,
        )[c] by {
            lemma_interned_occurs(rows, names, events, e, c);
        }
        assert(key_mask(rows, names[e], n) =~= occurrence_mask(events, e, n));
    }
    assert forall|a: int, b: int| 0 <= a < names.len() && 0 <= b < names.len() implies #[trigger] key_joint_mask(
        rows,
        names[a],
        names[b],
        n,
    ) == joint_mask(events, a, b, n) by {
        assert forall|c: int| 0 <= c < n implies key_joint_mask(rows, names[a], names[b], n)[c]
            == joint_mask(events, a, b, n)[c] by {
            lemma_interned_occurs(rows, names, events, a, c);
            lemma_interned_occurs(rows, names, events, b, c);
        }
        assert(key_joint_mask(rows, names[a], names[b], n) =~= joint_mask(events, a, b, n));
    }
}

/// A key without a number has no commit, alone or with another key.
pub proof fn lemma_unnamed_counts<K>(
    rows: Seq<(usize, K)>,
    names: Seq<K>,
    events: Seq<(usize, usize)>,
    k: K,
    other: K,
    n: nat,
)
    requires
        interns(rows, names, events),
        forall|e: int| 0 <= e < names.len() ==> names[e] != k,
    ensures
        key_count(rows, k, n) == 0,
        key_joint_count(rows, k, other, n) == 0,
        key_joint_count(rows, other, k, n) == 0,
{
    lemma_count_true_positive(key_mask(rows, k, n));
    lemma_count_true_positive(key_joint_mask(rows, k, other, n));
    lemma_count_true_positive(key_joint_mask(rows, other, k, n));
    if key_count(rows, k, n) > 0 {
        let c = choose|c: int| 0 <= c < n && #[trigger] key_mask(rows, k, n)[c];
        lemma_unnamed_never_occurs(rows, names, events, k, c);
    }
    if key_joint_count(rows, k, other, n) > 0 {
        let c = choose|c: int| 0 <= c < n && #[trigger] key_joint_mask(rows, k, other, n)[c];
        lemma_unnamed_never_occurs(rows, names, events, k, c);
    }
    if key_joint_count(rows, other, k, n) > 0 {
        let c = choose|c: int| 0 <= c < n && #[trigger] key_joint_mask(rows, other, k, n)[c];
        lemma_unnamed_never_occurs(rows, names, events, k, c);
    }
}

/// Entries by number, named.
pub open spec fn named_entries<K>(names: Seq<K>, r: Seq<(usize, usize, Ratio)>) -> Seq<
    (K, usize, Ratio),
> {
    r.map_values(|x: (usize, usize, Ratio)| (names[x.0 as int], x.1, x.2))
}

/// The couplings of a numbered key are those of its number, named.
pub proof fn lemma_named_coupling<K>(
    rows: Seq<(usize, K)>,
    names: Seq<K>,
    events: Seq<(usize, usize)>,
    a: int,
    n: nat,
    threshold: Ratio,
    top_n: nat,
    r: Seq<(usize, usize, Ratio)>,
)
    requires
        interns(rows, names, events),
        0 <= a < names.len(),
        is_event_coupling(events, a, n, names.len(), threshold, top_n, r),
    ensures
        is_key_coupling(rows, names[a], n, threshold, top_n, named_entries(names, r)),
{
    let nr = named_entries(names, r);
    lemma_interned_masks(rows, names, events, n);
    assert(key_mask(rows, names[a], n) == occurrence_mask(events, a, n));
    assert forall|b: int| 0 <= b < names.len() implies key_joint_count(rows, names[a], names[b], n)
        == joint_count(events, a, b, n) && key_confidence(rows, names[a], names[b], n)
        == event_confidence(events, a, b, n) && (key_coupled(rows, names[a], names[b], n, threshold)
        == event_coupled(events, a, b, n, threshold)) by {
        assert(key_joint_mask(rows, names[a], names[b], n) == joint_mask(events, a, b, n));
        if names[b] == names[a] {
            assert(b == a);
        }
    }
    assert forall|i: int| 0 <= i < nr.len() implies {
        let (b, co, conf) = #[trigger] nr[i];
        &&& key_coupled(rows, names[a], b, n, threshold)
        &&& co == key_joint_count(rows, names[a], b, n)
        &&& conf == key_confidence(rows, names[a], b, n)
    } by {
        let (b, co, conf) = r[i];
        assert(b < names.len());
    }
    assert forall|i: int, j: int| 0 <= i < j < nr.len() implies nr[i].0 != nr[j].0 by {
        assert(r[i].0 != r[j].0);
        assert(r[i].0 < names.len() && r[j].0 < names.len());
    }
    assert forall|i: int, j: int| 0 <= i < j < nr.len() implies ratio_ge(nr[i].2, nr[j].2) by {
        assert(ratio_ge(r[i].2, r[j].2));
    }
    assert forall|b: K| key_coupled(rows, names[a], b, n, threshold) && !lists_key(nr, b) implies {
        &&& nr.len() == top_n
        &&& forall|k: int|
            0 <= k < nr.len() ==> ratio_ge(
                (#[trigger] nr[k]).2,
                key_confidence(rows, names[a], b, n),
            )
    } by {
        if forall|e: int| 0 <= e < names.len() ==> names[e] != b {
            lemma_unnamed_counts(rows, names, events, b, names[a], n);
        }
        let e = choose|e: int| 0 <= e < names.len() && names[e] == b;
        if lists_entity(r, e) {
            let i = choose|i: int| 0 <= i < r.len() && (#[trigger] r[i]).0 == e;
            assert(nr[i].0 == b);
        }
        assert(event_coupled(events, a, e, n, threshold));
        assert forall|k: int| 0 <= k < nr.len() implies ratio_ge(
            (#[trigger] nr[k]).2,
            key_confidence(rows, names[a], b, n),
        ) by {
            assert(ratio_ge(r[k].2, event_confidence(events, a, e, n)));
        }
    }
}

/// A key without a number has no couplings.
pub proof fn lemma_unnamed_no_coupling<K>(
    rows: Seq<(usize, K)>,
    names: Seq<K>,
    events: Seq<(usize, usize)>,
    a: K,
    n: nat,
    threshold: Ratio,
    top_n: nat,
)
    requires
        interns(rows, names, events),
        forall|e: int| 0 <= e < names.len() ==> names[e] != a,
    ensures
        is_key_coupling(rows, a, n, threshold, top_n, Seq::<(K, usize, Ratio)>::empty()),
{
    assert forall|b: K| !key_coupled(rows, a, b, n, threshold) by {
        lemma_unnamed_counts(rows, names, events, a, b, n);
    }
}

/// Some entry of `r` is for key `k`.
pub open spec fn lists_counted<K>(r: Seq<(K, usize)>, k: K) -> bool {
    exists|i: int| 0 <= i < r.len() && (#[trigger] r[i]).0 == k
}

/// A listing of keys by descending commit count, cut to `limit`: distinct
/// keys that some commit touched, each with its count, in descending order
/// of count, at most `limit` of them, and no touched key left out unless
/// `limit` are listed, each touched at least as often.
pub open spec fn is_count_ranking<K>(rows: Seq<(usize, K)>, n: nat, limit: nat, r: Seq<(K, usize)>) -> bool {
    &&& r.len() <= limit
    &&& forall|i: int|
        0 <= i < r.len() ==> (#[trigger] r[i]).1 == key_count(rows, r[i].0, n) && r[i].1 > 0
    &&& forall|i: int, j: int| 0 <= i < j < r.len() ==> r[i].0 != r[j].0
    &&& forall|i: int, j: int| 0 <= i < j < r.len() ==> r[i].1 >= r[j].1
    &&& forall|k: K|
        key_count(rows, k, n) > 0 && !lists_counted(r, k) ==> {
            &&& r.len() == limit
            &&& forall|i: int| 0 <= i < r.len() ==> (#[trigger] r[i]).1 >= key_count(rows, k, n)
        }
}

/// Numbered entries with their counts, named.
pub open spec fn named_counts<K>(names: Seq<K>, counts: Seq<usize>, order: Seq<usize>) -> Seq<
    (K, usize),
> {
    order.map_values(|e: usize| (names[e as int], counts[e as int]))
}

/// The counts as ranking keys.
pub open spec fn count_keys(counts: Seq<usize>) -> Seq<i128> {
    counts.map_values(|c: usize| c as i128)
}

/// A ranking of the numbers by count is, named, a ranking of the keys by
/// count; where the limit allows all, every touched key is listed.
pub proof fn lemma_named_count_ranking<K>(
    rows: Seq<(usize, K)>,
    names: Seq<K>,
    events: Seq<(usize, usize)>,
    n: nat,
    limit: nat,
    counts: Seq<usize>,
    order: Seq<usize>,
)
    requires
        interns(rows, names, events),
        crate::db::events::events_in(events, n, names.len()),
        counts.len() == names.len(),
        names.len() <= usize::MAX,
        forall|e: int| 0 <= e < names.len() ==> counts[e] == crate::db::events::occurrence_count(events, e, n),
        crate::db::rank::is_int_ranking(order, count_keys(counts), limit),
    ensures
        is_count_ranking(rows, n, limit, named_counts(names, counts, order)),
        limit >= names.len() ==> forall|k: K|
            key_count(rows, k, n) > 0 ==> lists_counted(named_counts(names, counts, order), k),
{
    let r = named_counts(names, counts, order);
    let keys = count_keys(counts);
    lemma_interned_masks(rows, names, events, n);
    assert forall|i: int| 0 <= i < r.len() implies (#[trigger] r[i]).1 == key_count(rows, r[i].0, n)
        && r[i].1 > 0 by {
        let e = order[i] as int;
        assert(e < names.len());
        assert(key_mask(rows, names[e], n) == occurrence_mask(events, e, n));
        assert(number_used(events, e));
        let q = choose|q: int| 0 <= q < events.len() && (#[trigger] events[q]).1 == e;
        crate::db::events::lemma_used_entity_counted(events, q, n);
    }
    assert forall|i: int, j: int| 0 <= i < j < r.len() implies r[i].0 != r[j].0 by {
        assert(order[i] != order[j]);
        assert(order[i] < names.len() && order[j] < names.len());
    }
    assert forall|i: int, j: int| 0 <= i < j < r.len() implies r[i].1 >= r[j].1 by {
        assert(keys[order[i] as int] >= keys[order[j] as int]);
    }
    assert forall|k: K| key_count(rows, k, n) > 0 && !lists_counted(r, k) implies {
        &&& r.len() == limit
        &&& forall|i: int| 0 <= i < r.len() ==> (#[trigger] r[i]).1 >= key_count(rows, k, n)
    } by {
        if forall|e: int| 0 <= e < names.len() ==> names[e] != k {
            lemma_unnamed_counts(rows, names, events, k, k, n);
        }
        let e = choose|e: int| 0 <= e < names.len() && names[e] == k;
        assert(key_mask(rows, names[e], n) == occurrence_mask(events, e, n));
        if order.contains(e as usize) {
            let i = choose|i: int| 0 <= i < order.len() && order[i] == e as usize;
            assert(r[i].0 == k);
        }
        assert(!order.contains(e as usize));
        assert forall|i: int| 0 <= i < r.len() implies (#[trigger] r[i]).1 >= key_count(rows, k, n) by {
            assert(keys[order[i] as int] >= keys[e]);
        }
    }
    if limit >= names.len() {
        assert forall|k: K| key_count(rows, k, n) > 0 implies lists_counted(r, k) by {
            if forall|e: int| 0 <= e < names.len() ==> names[e] != k {
                lemma_unnamed_counts(rows, names, events, k, k, n);
            }
            let e = choose|e: int| 0 <= e < names.len() && names[e] == k;
            assert(order.contains(e as usize));
            let i = choose|i: int| 0 <= i < order.len() && order[i] == e as usize;
            assert(r[i].0 == k);
        }
    }
}

} // verus!
