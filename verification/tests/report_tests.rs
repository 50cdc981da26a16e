use git_anatomy::analyzer::{CallEdge, RiskLevel};
use git_anatomy::db::queries::{CoupledFile, CoupledFunction, CoupledPair};
use git_anatomy::ratio::Ratio;
use git_anatomy::report::{
    calls_into, classify_display, file_has_static_link, filter_noise, format_risk, function_risk_rows,
    hot_marker, is_noise_by_parts, is_noise_file, is_source_extension, is_source_file,
    select_display_pairs, truncate_path, truncate_str,
};

#[test]
fn source_files_by_extension() {
    assert!(is_source_file("src/main.rs"));
    assert!(is_source_file("web/App.TSX"));
    assert!(is_source_file("include/x.hpp"));
    assert!(!is_source_file("README.md"));
    assert!(!is_source_file("Makefile"));
    assert!(!is_source_file("data.json"));
}

#[test]
fn noise_files_are_recognised() {
    assert!(is_noise_file("CHANGELOG.md"));
    assert!(is_noise_file("sub/dir/changelog.md"));
    assert!(is_noise_file("Cargo.lock"));
    assert!(is_noise_file("cargo.toml"));
    assert!(is_noise_file("config/settings.yaml"));
    assert!(is_noise_file(".github/workflows/ci.rs"));
    assert!(is_noise_file("docs/guide.rs"));
    assert!(is_noise_file("examples/demo.rs"));
    assert!(is_noise_file(".gitignore"));
    assert!(!is_noise_file("src/.hidden.rs"));
    assert!(!is_noise_file("src/main.rs"));
    assert!(!is_noise_file("lib/docs.rs"));
}

#[test]
fn noise_is_filtered_from_results() {
    let results = vec![
        CoupledFile { file_path: "src/a.rs".to_string(), confidence: Ratio::new(1, 2), co_commit_count: 3 },
        CoupledFile { file_path: "Cargo.lock".to_string(), confidence: Ratio::new(1, 2), co_commit_count: 3 },
        CoupledFile { file_path: "src/b.rs".to_string(), confidence: Ratio::new(1, 3), co_commit_count: 2 },
    ];
    let kept: Vec<String> = filter_noise(results).into_iter().map(|c| c.file_path).collect();
    assert_eq!(kept, vec!["src/a.rs".to_string(), "src/b.rs".to_string()]);
}

#[test]
fn paths_are_shortened_from_the_front() {
    assert_eq!(truncate_path("src/main.rs", 30), "src/main.rs");
    assert_eq!(truncate_path("a/very/long/path/to/some/file.rs", 15), "...some/file.rs");
    assert_eq!(truncate_path("abcdef", 6), "abcdef");
    assert_eq!(truncate_path("abcdefg", 6), "...efg");
    assert_eq!(truncate_path("abcdefg", 3), "...");
}

#[test]
fn strings_are_shortened() {
    assert_eq!(truncate_str("hello", 10), "hello");
    assert_eq!(truncate_str("hello world", 8), "...world");
    assert_eq!(truncate_str("hello world", 3), "hel");
    assert_eq!(truncate_str("hello world", 0), "");
}

#[test]
fn labels() {
    assert_eq!(format_risk(RiskLevel::High), "HIGH");
    assert_eq!(format_risk(RiskLevel::Medium), "MED");
    assert_eq!(format_risk(RiskLevel::Low), "LOW");
    assert_eq!(classify_display(Ratio::new(7, 10)), ("HIGH", "HIGH"));
    assert_eq!(classify_display(Ratio::new(1, 2)), ("MEDIUM", "MED"));
    assert_eq!(classify_display(Ratio::new(49, 100)), ("LOW", "LOW"));
    assert_eq!(hot_marker(20), "**");
    assert_eq!(hot_marker(10), "*");
    assert_eq!(hot_marker(9), " ");
}

fn edge(caller: &str, caller_file: &str, callee: &str, callee_file: Option<&str>) -> CallEdge {
    CallEdge {
        caller_name: caller.to_string(),
        caller_file: caller_file.to_string(),
        callee_name: callee.to_string(),
        callee_file: callee_file.map(|s| s.to_string()),
    }
}

#[test]
fn static_links_go_either_way() {
    let edges = vec![edge("f", "a.rs", "g", Some("b.rs")), edge("h", "c.rs", "f", Some("a.rs"))];
    assert!(file_has_static_link("a.rs", "b.rs", &edges));
    assert!(file_has_static_link("a.rs", "c.rs", &edges));
    assert!(!file_has_static_link("b.rs", "c.rs", &edges));
}

fn cf(path: &str, num: u64, den: u64, co: usize) -> CoupledFile {
    CoupledFile { file_path: path.to_string(), confidence: Ratio::new(num, den), co_commit_count: co }
}

fn cfun(name: &str, path: &str, num: u64, den: u64, co: usize) -> CoupledFunction {
    CoupledFunction {
        function_name: name.to_string(),
        file_path: path.to_string(),
        confidence: Ratio::new(num, den),
        co_commit_count: co,
    }
}

#[test]
fn risk_rows_fall_back_to_files() {
    let edges = vec![edge("target", "a.rs", "g", Some("b.rs"))];
    let files = vec![cf("b.rs", 8, 10, 4), cf("c.rs", 9, 10, 5)];
    let funcs = vec![cfun("(file-level)", "b.rs", 8, 10, 4)];
    let rows = function_risk_rows("target", &vec![], &edges, &funcs, &files, Ratio::new(7, 10));
    let got: Vec<(String, String, bool, RiskLevel)> =
        rows.iter().map(|r| (r.entity.clone(), r.file_path.clone(), r.has_static, r.risk)).collect();
    assert_eq!(
        got,
        vec![
            ("(file-level)".to_string(), "b.rs".to_string(), true, RiskLevel::High),
            ("(file-level)".to_string(), "c.rs".to_string(), false, RiskLevel::Medium),
        ]
    );
}

#[test]
fn risk_rows_list_functions_then_other_files() {
    let edges = vec![edge("caller", "d.rs", "target", Some("a.rs"))];
    let files = vec![cf("b.rs", 8, 10, 4), cf("c.rs", 3, 10, 1)];
    let funcs = vec![cfun("helper", "b.rs", 9, 10, 3), cfun("caller", "d.rs", 2, 10, 1)];
    let rows = function_risk_rows("target", &vec!["helper".to_string()], &edges, &funcs, &files, Ratio::new(7, 10));
    let got: Vec<(String, String, bool, usize, RiskLevel)> = rows
        .iter()
        .map(|r| (r.entity.clone(), r.file_path.clone(), r.has_static, r.co_commit_count, r.risk))
        .collect();
    assert_eq!(
        got,
        vec![
            ("helper".to_string(), "b.rs".to_string(), true, 3, RiskLevel::High),
            ("caller".to_string(), "d.rs".to_string(), true, 1, RiskLevel::Low),
            ("(file-level)".to_string(), "c.rs".to_string(), false, 1, RiskLevel::Low),
        ]
    );
}

fn pair(a: &str, b: &str, co: usize) -> CoupledPair {
    CoupledPair { file_a: a.to_string(), file_b: b.to_string(), confidence: Ratio::new(1, 2), co_commit_count: co }
}

#[test]
fn scan_shows_source_pairs_by_co_changes() {
    let pairs = vec![
        pair("a.rs", "b.rs", 2),
        pair("a.rs", "README.md", 9),
        pair("c.py", "d.py", 5),
        pair("e.rs", "f.rs", 2),
    ];
    let shown = select_display_pairs(&pairs);
    let got: Vec<(String, String)> = shown.iter().map(|p| (p.file_a.clone(), p.file_b.clone())).collect();
    assert_eq!(
        got,
        vec![
            ("c.py".to_string(), "d.py".to_string()),
            ("a.rs".to_string(), "b.rs".to_string()),
            ("e.rs".to_string(), "f.rs".to_string()),
        ]
    );
}

#[test]
fn scan_shows_only_source_pairs() {
    let pairs = vec![pair("a.sql", "b.sql", 1), pair("Cargo.lock", "x.sql", 7), pair("c.sql", "d.sql", 3)];
    assert!(select_display_pairs(&pairs).is_empty());
}

#[test]
fn scan_shows_at_most_ten_pairs() {
    let pairs: Vec<CoupledPair> = (0..15).map(|i| pair(&format!("a{}.rs", i), &format!("b{}.rs", i), i)).collect();
    let shown = select_display_pairs(&pairs);
    assert_eq!(shown.len(), 10);
    assert_eq!(shown[0].co_commit_count, 14);
    assert_eq!(shown[9].co_commit_count, 5);
}

#[test]
fn source_extensions_are_lower_case() {
    assert!(is_source_extension("rs"));
    assert!(is_source_extension("cxx"));
    assert!(is_source_extension("pyw"));
    assert!(!is_source_extension("RS"));
    assert!(!is_source_extension("md"));
    assert!(!is_source_extension(""));
}

#[test]
fn noise_from_lowered_parts() {
    let names = vec!["changelog.md".to_string(), "cargo.lock".to_string()];
    assert!(is_noise_by_parts("x/CHANGELOG.md", "changelog.md", &names, "zz"));
    assert!(!is_noise_by_parts("x/CHANGELOG.md", "changelog.md", &Vec::new(), "zz"));
    assert!(is_noise_by_parts("src/a.rs", "a.rs", &names, "toml"));
    assert!(!is_noise_by_parts("src/a.rs", "a.rs", &names, "rs"));
    assert!(is_noise_by_parts("docs/a.rs", "a.rs", &names, "rs"));
    assert!(is_noise_by_parts(".env", ".env", &names, "env"));
    assert!(!is_noise_by_parts("src/.env", ".env", &names, "env"));
}

#[test]
fn calls_into_goes_one_way() {
    let edges = vec![edge("run", "a.rs", "helper", Some("b.rs")), edge("x", "c.rs", "y", None)];
    assert!(calls_into(&edges, "a.rs", "b.rs"));
    assert!(!calls_into(&edges, "b.rs", "a.rs"));
    assert!(!calls_into(&edges, "c.rs", ""));
    assert!(!calls_into(&Vec::new(), "a.rs", "b.rs"));
}

#[test]
fn risk_boundary_follows_the_threshold() {
    let edges = vec![edge("target", "a.rs", "g", Some("b.rs"))];
    let files = vec![cf("b.rs", 6, 10, 4), cf("c.rs", 6, 10, 5), cf("d.rs", 4, 10, 2)];
    let funcs = vec![cfun("(file-level)", "b.rs", 6, 10, 4)];
    let risks = |t: Ratio| -> Vec<RiskLevel> {
        function_risk_rows("target", &vec![], &edges, &funcs, &files, t).iter().map(|r| r.risk).collect()
    };
    assert_eq!(risks(Ratio::new(7, 10)), vec![RiskLevel::Low, RiskLevel::Low, RiskLevel::Low]);
    assert_eq!(risks(Ratio::new(5, 10)), vec![RiskLevel::High, RiskLevel::Medium, RiskLevel::Low]);
}
