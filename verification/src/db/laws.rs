//! What holds of the coupling store across its operations.

use vstd::prelude::*;

use crate::db::{file_rows, ingest_all, ingest_one, delta_rows, has_hash, DatabaseView};
use crate::db::count::{count_true, lemma_count_true_monotone};
use crate::db::keys::{
    is_key_coupling, key_count, key_coupled, key_joint_count, key_joint_mask, key_mask,
    key_occurs, lists_key,
};
use crate::ratio::Ratio;
use crate::git_engine::{file_delta_views, CommitRecord};

verus! {

/// The keys of a ranking, in order.
pub open spec fn ranked_keys<K>(r: Seq<(K, usize, Ratio)>) -> Seq<K> {
    r.map_values(|x: (K, usize, Ratio)| x.0)
}

/// Where `r` lists fewer than `top_n` keys, every key that `s` lists is in
/// `r` too.
proof fn lemma_short_ranking_complete<K>(
    rows: Seq<(usize, K)>,
    a: K,
    n: nat,
    threshold: Ratio,
    top_n: nat,
    r: Seq<(K, usize, Ratio)>,
    s: Seq<(K, usize, Ratio)>,
)
    requires
        is_key_coupling(rows, a, n, threshold, top_n, r),
        is_key_coupling(rows, a, n, threshold, top_n, s),
        r.len() < top_n,
    ensures
        ranked_keys(s).to_set().subset_of(ranked_keys(r).to_set()),
{
    assert forall|b: K| ranked_keys(s).to_set().contains(b) implies ranked_keys(r).to_set().contains(b) by {
        let j = choose|j: int| 0 <= j < ranked_keys(s).len() && ranked_keys(s)[j] == b;
        assert(s[j].0 == b);
        assert(key_coupled(rows, a, s[j].0, n, threshold));
        assert(lists_key(r, b));
        let i = choose|i: int| 0 <= i < r.len() && (#[trigger] r[i]).0 == b;
        assert(ranked_keys(r)[i] == b);
    }
}

/// The keys of a ranking are distinct.
proof fn lemma_ranking_distinct<K>(
    rows: Seq<(usize, K)>,
    a: K,
    n: nat,
    threshold: Ratio,
    top_n: nat,
    r: Seq<(K, usize, Ratio)>,
)
    requires
        is_key_coupling(rows, a, n, threshold, top_n, r),
    ensures
        ranked_keys(r).to_set().len() == r.len(),
{
    let k = ranked_keys(r);
    assert forall|i: int, j: int| 0 <= i < k.len() && 0 <= j < k.len() && i != j implies k[i] != k[j] by {
        if i < j {
            assert(r[i].0 != r[j].0);
        } else {
            assert(r[j].0 != r[i].0);
        }
    }
    assert(k.no_duplicates());
    k.unique_seq_to_set();
}

/// Two rankings of one key's couplings under the same threshold and cut
/// list as many keys, and where they list fewer than `top_n`, the same
/// keys. (Which of equally confident keys a cut keeps, and in what order
/// equally confident keys stand, is left open.) So where a function has no
/// recorded change, and the function-level query answers with the
/// couplings of its file, that answer lists as many files as the
/// file-level query of the file, and the same files below the cut.
pub proof fn law_rankings_agree<K>(
    rows: Seq<(usize, K)>,
    a: K,
    n: nat,
    threshold: Ratio,
    top_n: nat,
    r: Seq<(K, usize, Ratio)>,
    s: Seq<(K, usize, Ratio)>,
)
    requires
        is_key_coupling(rows, a, n, threshold, top_n, r),
        is_key_coupling(rows, a, n, threshold, top_n, s),
    ensures
        r.len() == s.len(),
        r.len() < top_n ==> ranked_keys(r).to_set() == ranked_keys(s).to_set(),
{
    lemma_ranking_distinct(rows, a, n, threshold, top_n, r);
    lemma_ranking_distinct(rows, a, n, threshold, top_n, s);
    let kr = ranked_keys(r).to_set();
    let ks = ranked_keys(s).to_set();
    vstd::seq_lib::seq_to_set_is_finite(ranked_keys(r));
    vstd::seq_lib::seq_to_set_is_finite(ranked_keys(s));
    if r.len() < top_n {
        lemma_short_ranking_complete(rows, a, n, threshold, top_n, r, s);
        vstd::set_lib::lemma_len_subset(ks, kr);
    }
    if s.len() < top_n {
        lemma_short_ranking_complete(rows, a, n, threshold, top_n, s, r);
        vstd::set_lib::lemma_len_subset(kr, ks);
    }
    if r.len() < top_n {
        assert(kr =~= ks);
    }
}

/// Co-change counts are symmetric: the commits that changed both `a` and
/// `b` are those that changed both `b` and `a`. (Confidence is directional:
/// it divides this count by the count of the first key.)
pub proof fn law_co_changes_symmetric<K>(rows: Seq<(usize, K)>, a: K, b: K, n: nat)
    ensures
        key_joint_count(rows, a, b, n) == key_joint_count(rows, b, a, n),
{
    assert(key_joint_mask(rows, a, b, n) =~= key_joint_mask(rows, b, a, n));
}

/// A confidence is at most one: no more commits changed both `a` and `b`
/// than changed `a`.
pub proof fn law_confidence_at_most_one<K>(rows: Seq<(usize, K)>, a: K, b: K, n: nat)
    ensures
        key_joint_count(rows, a, b, n) <= key_count(rows, a, n),
{
    lemma_count_true_monotone(key_joint_mask(rows, a, b, n), key_mask(rows, a, n));
}

/// An empty store.
pub open spec fn empty_store() -> DatabaseView {
    DatabaseView {
        commits: Seq::empty(),
        file_deltas: Seq::empty(),
        function_deltas: Seq::empty(),
    }
}

/// Commit record `c` changed the file at `p`.
pub open spec fn record_touches(c: CommitRecord, p: Seq<char>) -> bool {
    exists|j: int| 0 <= j < c.file_deltas@.len() && (#[trigger] c.file_deltas@[j])@.path == p
}

/// For each commit record, whether it changed the file at `p`.
pub open spec fn records_touching(cs: Seq<CommitRecord>, p: Seq<char>) -> Seq<bool> {
    Seq::new(cs.len(), |k: int| record_touches(cs[k], p))
}

/// No two commit records have the same hash.
pub open spec fn distinct_hashes(cs: Seq<CommitRecord>) -> bool {
    forall|i: int, j: int| 0 <= i < j < cs.len() ==> cs[i].hash@ != cs[j].hash@
}

/// What storing records with distinct hashes into an empty store gives:
/// one commit per record in order, deltas of stored commits only, and each
/// commit touching the files its record changed.
proof fn lemma_ingest_fresh(cs: Seq<CommitRecord>)
    requires
        distinct_hashes(cs),
        cs.len() <= usize::MAX,
    ensures
        ingest_all(empty_store(), cs).commits.len() == cs.len(),
        forall|k: int|
            0 <= k < cs.len() ==> (#[trigger] ingest_all(empty_store(), cs).commits[k]).hash
                == cs[k].hash@,
        forall|i: int|
            0 <= i < ingest_all(empty_store(), cs).file_deltas.len() ==> (
            #[trigger] ingest_all(empty_store(), cs).file_deltas[i]).commit_id < cs.len(),
        forall|p: Seq<char>|
            #[trigger] key_mask(file_rows(ingest_all(empty_store(), cs)), p, cs.len())
                == records_touching(cs, p),
    decreases cs.len(),
{
    let d = ingest_all(empty_store(), cs);
    if cs.len() == 0 {
        assert forall|p: Seq<char>|
            #[trigger] key_mask(file_rows(d), p, cs.len()) == records_touching(cs, p) by {
            assert(key_mask(file_rows(d), p, 0) =~= records_touching(cs, p));
        }
    } else {
        let prev = cs.drop_last();
        let last = cs.last();
        assert(distinct_hashes(prev)) by {
            assert forall|i: int, j: int| 0 <= i < j < prev.len() implies prev[i].hash@ != prev[j].hash@ by {
                assert(prev[i] == cs[i] && prev[j] == cs[j]);
            }
        }
        lemma_ingest_fresh(prev);
        let d0 = ingest_all(empty_store(), prev);
        let m = prev.len();
        assert(!has_hash(d0.commits, last.hash@)) by {
            if has_hash(d0.commits, last.hash@) {
                let i = choose|i: int| 0 <= i < d0.commits.len() && (#[trigger] d0.commits[i]).hash
                    == last.hash@;
                assert(d0.commits[i].hash == prev[i].hash@);
                assert(prev[i] == cs[i]);
            }
        }
        assert(d == ingest_one(d0, last));
        let added = delta_rows(m as usize, file_delta_views(last.file_deltas@));
        assert(d.file_deltas == d0.file_deltas + added);
        assert forall|k: int| 0 <= k < cs.len() implies (#[trigger] d.commits[k]).hash == cs[k].hash@ by {
            if k < m {
                assert(d.commits[k] == d0.commits[k]);
                assert(prev[k] == cs[k]);
            }
        }
        assert forall|i: int| 0 <= i < d.file_deltas.len() implies (#[trigger] d.file_deltas[i]).commit_id
            < cs.len() by {
            if i < d0.file_deltas.len() {
                assert(d.file_deltas[i] == d0.file_deltas[i]);
            } else {
                assert(d.file_deltas[i] == added[i - d0.file_deltas.len()]);
            }
        }
        assert forall|p: Seq<char>|
            #[trigger] key_mask(file_rows(d), p, cs.len()) == records_touching(cs, p) by {
            let rows = file_rows(d);
            let rows0 = file_rows(d0);
            assert(key_mask(rows0, p, m) == records_touching(prev, p));
            assert forall|c: int| 0 <= c < cs.len() implies key_mask(rows, p, cs.len())[c]
                == records_touching(cs, p)[c] by {
                if c < m {
                    assert(records_touching(prev, p)[c] == records_touching(cs, p)[c]) by {
                        assert(prev[c] == cs[c]);
                    }
                    if key_occurs(rows, p, c) {
                        let i = choose|i: int|
                            #![trigger rows[i]]
                            0 <= i < rows.len() && rows[i].0 == c && rows[i].1 == p;
                        if i >= d0.file_deltas.len() {
                            assert(d.file_deltas[i] == added[i - d0.file_deltas.len()]);
                        } else {
                            assert(d.file_deltas[i] == d0.file_deltas[i]);
                            assert(rows0[i] == rows[i]);
                            assert(key_occurs(rows0, p, c));
                        }
                    }
                    if key_occurs(rows0, p, c) {
                        let i = choose|i: int|
                            #![trigger rows0[i]]
                            0 <= i < rows0.len() && rows0[i].0 == c && rows0[i].1 == p;
                        assert(d.file_deltas[i] == d0.file_deltas[i]);
                        assert(rows[i] == rows0[i]);
                        assert(key_occurs(rows, p, c));
                    }
                    assert(key_mask(rows0, p, m)[c] == key_occurs(rows0, p, c));
                    assert(key_mask(rows, p, cs.len())[c] == key_occurs(rows, p, c));
                } else {
                    assert(c == m);
                    assert(cs[c] == last);
                    if key_occurs(rows, p, c) {
                        let i = choose|i: int|
                            #![trigger rows[i]]
                            0 <= i < rows.len() && rows[i].0 == c && rows[i].1 == p;
                        if i < d0.file_deltas.len() {
                            assert(d.file_deltas[i] == d0.file_deltas[i]);
                            assert(d0.file_deltas[i].commit_id < m);
                        } else {
                            let j = i - d0.file_deltas.len();
                            assert(d.file_deltas[i] == added[j]);
                            assert(last.file_deltas@[j]@.path == p);
                            assert(record_touches(last, p));
                        }
                    }
                    if record_touches(last, p) {
                        let j = choose|j: int|
                            0 <= j < last.file_deltas@.len() && (#[trigger] last.file_deltas@[j])@.path
                                == p;
                        let i = d0.file_deltas.len() + j;
                        assert(d.file_deltas[i] == added[j]);
                        assert(rows[i] == (m as usize, p));
                        assert(key_occurs(rows, p, c));
                    }
                    assert(key_mask(rows, p, cs.len())[c] == key_occurs(rows, p, c));
                }
            }
            assert(key_mask(rows, p, cs.len()) =~= records_touching(cs, p));
        }
    }
}

/// Storing commit records with distinct hashes into an empty store and
/// then counting: `Count(p)` is the number of records that changed `p`,
/// and `Count(a ∩ b)` the number that changed both `a` and `b`.
pub proof fn law_ingested_counts(cs: Seq<CommitRecord>, a: Seq<char>, b: Seq<char>)
    requires
        distinct_hashes(cs),
        cs.len() <= usize::MAX,
    ensures
        ingest_all(empty_store(), cs).commits.len() == cs.len(),
        key_count(file_rows(ingest_all(empty_store(), cs)), a, cs.len()) == count_true(
            records_touching(cs, a),
        ),
        key_joint_count(file_rows(ingest_all(empty_store(), cs)), a, b, cs.len()) == count_true(
            Seq::new(cs.len(), |k: int| record_touches(cs[k], a) && record_touches(cs[k], b)),
        ),
{
    lemma_ingest_fresh(cs);
    let rows = file_rows(ingest_all(empty_store(), cs));
    assert(key_mask(rows, a, cs.len()) == records_touching(cs, a));
    assert(key_mask(rows, b, cs.len()) == records_touching(cs, b));
    assert forall|k: int| 0 <= k < cs.len() implies key_joint_mask(rows, a, b, cs.len())[k] == (
    record_touches(cs[k], a) && record_touches(cs[k], b)) by {
        assert(key_mask(rows, a, cs.len())[k] == records_touching(cs, a)[k]);
        assert(key_mask(rows, b, cs.len())[k] == records_touching(cs, b)[k]);
    }
    assert(key_joint_mask(rows, a, b, cs.len()) =~= Seq::new(
        cs.len(),
        |k: int| record_touches(cs[k], a) && record_touches(cs[k], b),
    ));
}

/// What the coupling query gives back after storing commit records with
/// distinct hashes into an empty store: each entry's co-change count is the
/// number of records that changed both the target and the entry's file,
/// and its confidence that count over the number of records that changed
/// the target.
pub proof fn law_coupling_after_ingest(
    cs: Seq<CommitRecord>,
    target: Seq<char>,
    threshold: Ratio,
    top_n: nat,
    r: Seq<(Seq<char>, usize, Ratio)>,
)
    requires
        distinct_hashes(cs),
        cs.len() <= usize::MAX,
        is_key_coupling(file_rows(ingest_all(empty_store(), cs)), target, cs.len(), threshold, top_n, r),
    ensures
        forall|i: int|
            0 <= i < r.len() ==> {
                &&& (#[trigger] r[i]).1 == count_true(
                    Seq::new(
                        cs.len(),
                        |k: int| record_touches(cs[k], target) && record_touches(cs[k], r[i].0),
                    ),
                )
                &&& r[i].2 == Ratio {
                    num: r[i].1 as u64,
                    den: count_true(records_touching(cs, target)) as u64,
                }
            },
{
    assert forall|i: int| 0 <= i < r.len() implies {
        &&& (#[trigger] r[i]).1 == count_true(
            Seq::new(cs.len(), |k: int| record_touches(cs[k], target) && record_touches(cs[k], r[i].0)),
        )
        &&& r[i].2 == Ratio {
            num: r[i].1 as u64,
            den: count_true(records_touching(cs, target)) as u64,
        }
    } by {
        law_ingested_counts(cs, target, r[i].0);
    }
}

} // verus!
