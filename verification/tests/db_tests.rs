use git_anatomy::db::{Database, DbError};
use git_anatomy::git_engine::{ChangeType, CommitRecord, FileDelta};
use git_anatomy::ratio::Ratio;

fn commit(hash: &str, author: &str, timestamp: i64, files: &[&str]) -> CommitRecord {
    CommitRecord::from_parts(
        hash.to_string(),
        Some(author.to_string()),
        Some(format!("{}@example.com", author)),
        timestamp,
        0,
        Some(format!("commit {}", hash)),
        files
            .iter()
            .map(|f| FileDelta { path: f.to_string(), change_type: ChangeType::Modified })
            .collect(),
    )
}

fn sample() -> Database {
    let mut db = Database::new();
    db.ingest_commits(&vec![
        commit("c1", "ann", 100, &["a.rs", "b.rs"]),
        commit("c2", "bob", 200, &["a.rs", "b.rs"]),
        commit("c3", "ann", 300, &["a.rs", "c.rs"]),
        commit("c4", "cat", 400, &["d.rs"]),
    ]);
    db
}

fn ratio(num: u64, den: u64) -> Ratio {
    Ratio::new(num, den)
}

#[test]
fn temporal_coupling_is_co_changes_over_target_changes() {
    let db = sample();
    let coupled = db.query_temporal_coupling("a.rs", ratio(1, 10), 10);
    let got: Vec<(String, usize, Ratio)> =
        coupled.iter().map(|c| (c.file_path.clone(), c.co_commit_count, c.confidence)).collect();
    assert_eq!(
        got,
        vec![("b.rs".to_string(), 2, ratio(2, 3)), ("c.rs".to_string(), 1, ratio(1, 3))]
    );
}

#[test]
fn temporal_coupling_applies_threshold_and_limit() {
    let db = sample();
    let above_half = db.query_temporal_coupling("a.rs", ratio(1, 2), 10);
    assert_eq!(above_half.len(), 1);
    assert_eq!(above_half[0].file_path, "b.rs");
    let top_one = db.query_temporal_coupling("a.rs", ratio(0, 1), 1);
    assert_eq!(top_one.len(), 1);
    assert_eq!(top_one[0].file_path, "b.rs");
}

#[test]
fn temporal_coupling_is_directional() {
    let db = sample();
    let from_b = db.query_temporal_coupling("b.rs", ratio(0, 1), 10);
    assert_eq!(from_b.len(), 1);
    assert_eq!(from_b[0].file_path, "a.rs");
    assert_eq!(from_b[0].confidence, ratio(2, 2));
    assert_eq!(from_b[0].co_commit_count, 2);
}

#[test]
fn unknown_file_has_no_coupling() {
    let db = sample();
    assert!(db.query_temporal_coupling("zzz.rs", ratio(0, 1), 10).is_empty());
    assert!(db.query_temporal_coupling("d.rs", ratio(0, 1), 10).is_empty());
}

#[test]
fn directional_confidence_example() {
    // A changed in 100 commits, B in 10, together in 9.
    let mut commits = Vec::new();
    for i in 0..100 {
        let files: Vec<&str> = if i < 9 { vec!["A", "B"] } else { vec!["A"] };
        commits.push(commit(&format!("h{}", i), "dev", i as i64, &files));
    }
    commits.push(commit("h100", "dev", 100, &["B"]));
    let mut db = Database::new();
    db.ingest_commits(&commits);
    let a_to_b = db.query_temporal_coupling("A", ratio(0, 1), 10);
    assert_eq!(a_to_b[0].confidence, ratio(9, 100));
    let b_to_a = db.query_temporal_coupling("B", ratio(0, 1), 10);
    assert_eq!(b_to_a[0].confidence, ratio(9, 10));
    assert!(b_to_a[0].confidence.at_least(&ratio(9, 10)));
}

#[test]
fn seventy_of_a_hundred_commits_is_seventy_percent() {
    // A touched in 100 commits, B in the same commit 70 of those times.
    let mut commits = Vec::new();
    for i in 0..100 {
        let files: Vec<&str> = if i < 70 { vec!["A", "B"] } else { vec!["A"] };
        commits.push(commit(&format!("r{}", i), "dev", i as i64, &files));
    }
    let mut db = Database::new();
    db.ingest_commits(&commits);
    let a_to_b = db.query_temporal_coupling("A", ratio(1, 2), 10);
    assert_eq!(a_to_b.len(), 1);
    assert_eq!(a_to_b[0].file_path, "B");
    assert_eq!(a_to_b[0].co_commit_count, 70);
    assert_eq!(a_to_b[0].confidence, ratio(70, 100));
    assert_eq!(git_anatomy::report::classify_display(a_to_b[0].confidence), ("HIGH", "HIGH"));
    assert_eq!(
        git_anatomy::analyzer::classify_risk(true, a_to_b[0].confidence),
        git_anatomy::analyzer::RiskLevel::High
    );
    assert_eq!(
        git_anatomy::analyzer::classify_risk(false, a_to_b[0].confidence),
        git_anatomy::analyzer::RiskLevel::Medium
    );
}

#[test]
fn repeated_commits_keep_one_row_and_count_once() {
    let mut db = sample();
    db.ingest_commits(&vec![commit("c1", "ann", 100, &["a.rs", "b.rs"])]);
    let stats = db.get_stats();
    assert_eq!(stats.total_commits, 4);
    assert_eq!(stats.total_deltas, 9);
    let coupled = db.query_temporal_coupling("a.rs", ratio(0, 1), 10);
    assert_eq!(coupled[0].co_commit_count, 2);
    assert_eq!(coupled[0].confidence, ratio(2, 3));
    let files = db.list_files();
    let a = files.iter().find(|f| f.file_path == "a.rs").unwrap();
    assert_eq!(a.commit_count, 3);
    assert_eq!(a.change_count, 4);
}

#[test]
fn stats_count_distinct_files_and_authors() {
    let db = sample();
    let stats = db.get_stats();
    assert_eq!(stats.total_commits, 4);
    assert_eq!(stats.total_deltas, 7);
    assert_eq!(stats.unique_files, 4);
    assert_eq!(stats.unique_authors, 3);
    assert_eq!(stats.avg_files_per_commit, ratio(7, 4));
    let empty = Database::new().get_stats();
    assert_eq!(empty.total_commits, 0);
    assert_eq!(empty.avg_files_per_commit, ratio(0, 1));
}

#[test]
fn files_are_listed_by_commit_count() {
    let db = sample();
    let files = db.list_files();
    assert_eq!(files.len(), 4);
    assert_eq!(files[0].file_path, "a.rs");
    assert_eq!(files[0].commit_count, 3);
    assert_eq!(files[1].file_path, "b.rs");
    assert_eq!(files[1].commit_count, 2);
    for w in files.windows(2) {
        assert!(w[0].commit_count >= w[1].commit_count);
    }
}

#[test]
fn top_pairs_respect_min_co_changes() {
    let db = sample();
    let pairs = db.query_top_coupled_pairs(10, ratio(1, 10), 2);
    assert_eq!(pairs.len(), 1);
    assert_eq!(pairs[0].file_a, "a.rs");
    assert_eq!(pairs[0].file_b, "b.rs");
    assert_eq!(pairs[0].co_commit_count, 2);
    assert_eq!(pairs[0].confidence, ratio(2, 2));
    let all = db.query_top_coupled_pairs(10, ratio(1, 10), 1);
    assert_eq!(all.len(), 2);
    assert_eq!((all[1].file_a.as_str(), all[1].file_b.as_str()), ("a.rs", "c.rs"));
    assert_eq!(all[1].confidence, ratio(1, 1));
}

#[test]
fn top_pairs_order_by_confidence() {
    let mut db = Database::new();
    db.ingest_commits(&vec![
        commit("x1", "dev", 1, &["m.rs", "n.rs"]),
        commit("x2", "dev", 2, &["m.rs"]),
        commit("x3", "dev", 3, &["n.rs"]),
        commit("x4", "dev", 4, &["p.rs", "q.rs"]),
    ]);
    let pairs = db.query_top_coupled_pairs(10, ratio(0, 1), 1);
    assert_eq!(pairs.len(), 2);
    assert_eq!(pairs[0].file_a, "p.rs");
    assert_eq!(pairs[0].confidence, ratio(1, 1));
    assert_eq!(pairs[1].file_a, "m.rs");
    assert_eq!(pairs[1].confidence, ratio(1, 2));
}

#[test]
fn top_pairs_list_by_co_changes_after_choosing_by_confidence() {
    let mut commits = vec![
        commit("y1", "dev", 1, &["y1.rs", "y2.rs"]),
        commit("y2", "dev", 2, &["y1.rs", "y2.rs"]),
    ];
    for i in 0..3 {
        commits.push(commit(&format!("both{}", i), "dev", 10 + i, &["xa.rs", "xb.rs"]));
        commits.push(commit(&format!("a{}", i), "dev", 20 + i, &["xa.rs"]));
        commits.push(commit(&format!("b{}", i), "dev", 30 + i, &["xb.rs"]));
    }
    let mut db = Database::new();
    db.ingest_commits(&commits);
    let pairs = db.query_top_coupled_pairs(10, ratio(0, 1), 1);
    let got: Vec<(&str, &str, usize, Ratio)> = pairs
        .iter()
        .map(|p| (p.file_a.as_str(), p.file_b.as_str(), p.co_commit_count, p.confidence))
        .collect();
    assert_eq!(got, vec![("xa.rs", "xb.rs", 3, ratio(3, 6)), ("y1.rs", "y2.rs", 2, ratio(2, 2))]);
    let most_confident = db.query_top_coupled_pairs(1, ratio(0, 1), 1);
    assert_eq!(most_confident.len(), 1);
    assert_eq!(most_confident[0].file_a, "y1.rs");
}

#[test]
fn function_coupling_uses_function_deltas() {
    let mut db = sample();
    let f = |file: &str, name: &str| (file.to_string(), name.to_string(), 1u32, 2u32);
    db.ingest_function_deltas("c1", &vec![f("a.rs", "alpha"), f("b.rs", "beta")]).unwrap();
    db.ingest_function_deltas("c2", &vec![f("a.rs", "alpha"), f("b.rs", "gamma")]).unwrap();
    let coupled = db.query_function_temporal_coupling("a.rs", "alpha", ratio(1, 10), 10);
    let got: Vec<(String, String, Ratio)> = coupled
        .iter()
        .map(|c| (c.file_path.clone(), c.function_name.clone(), c.confidence))
        .collect();
    assert_eq!(
        got,
        vec![
            ("b.rs".to_string(), "beta".to_string(), ratio(1, 2)),
            ("b.rs".to_string(), "gamma".to_string(), ratio(1, 2)),
        ]
    );
}

#[test]
fn function_coupling_falls_back_to_file_level() {
    let db = sample();
    let coupled = db.query_function_temporal_coupling("a.rs", "alpha", ratio(1, 10), 10);
    assert_eq!(coupled.len(), 2);
    assert!(coupled.iter().all(|c| c.function_name == "(file-level)"));
    assert_eq!(coupled[0].file_path, "b.rs");
    assert_eq!(coupled[0].confidence, ratio(2, 3));
}

#[test]
fn function_deltas_need_a_stored_commit() {
    let mut db = sample();
    let r = db.ingest_function_deltas("nope", &vec![("a.rs".to_string(), "f".to_string(), 1, 1)]);
    assert_eq!(r, Err(DbError::CommitNotFound));
    assert!(db.function_deltas.is_empty());
}

#[test]
fn hottest_functions_by_commit_count() {
    let mut db = sample();
    let f = |file: &str, name: &str| (file.to_string(), name.to_string(), 1u32, 2u32);
    db.ingest_function_deltas("c1", &vec![f("a.rs", "alpha"), f("b.rs", "beta")]).unwrap();
    db.ingest_function_deltas("c2", &vec![f("a.rs", "alpha")]).unwrap();
    db.ingest_function_deltas("c3", &vec![f("a.rs", "alpha"), f("a.rs", "alpha")]).unwrap();
    let hot = db.get_hottest_functions(10);
    assert_eq!(hot.len(), 2);
    assert_eq!((hot[0].function_name.as_str(), hot[0].file_path.as_str(), hot[0].commit_count), ("alpha", "a.rs", 3));
    assert_eq!((hot[1].function_name.as_str(), hot[1].commit_count), ("beta", 1));
    assert_eq!(db.get_hottest_functions(1).len(), 1);
}

#[test]
fn commits_for_file_are_newest_first() {
    let db = sample();
    let commits = db.get_commits_for_file("a.rs");
    let hashes: Vec<&str> = commits.iter().map(|c| c.hash.as_str()).collect();
    assert_eq!(hashes, vec!["c3", "c2", "c1"]);
    assert_eq!(commits[0].change_type, "M");
    assert_eq!(commits[0].author_name, "ann");
    assert_eq!(commits[0].summary, "commit c3");
    assert!(db.get_commits_for_file("none.rs").is_empty());
}

#[test]
fn function_query_without_function_rows_gives_file_coupling() {
    let db = sample();
    let by_file = db.query_temporal_coupling("a.rs", ratio(0, 1), 10);
    let by_function = db.query_function_temporal_coupling("a.rs", "nowhere", ratio(0, 1), 10);
    assert_eq!(by_file.len(), by_function.len());
    for (f, g) in by_file.iter().zip(by_function.iter()) {
        assert_eq!(g.function_name, "(file-level)");
        assert_eq!(g.file_path, f.file_path);
        assert_eq!(g.co_commit_count, f.co_commit_count);
        assert_eq!(g.confidence, f.confidence);
    }
}
