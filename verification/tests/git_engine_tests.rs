use git_anatomy::git_engine::{
    change_type_of, diff_ranges_for_file, file_deltas_from, format_time, function_deltas_for_file,
    select_commits, short_hash_of, source_files_of_hunks, with_utc_offset, function_delta_rows, ChangeType, CommitRecord, DeltaStatus,
    DiffHunk, FileDelta, RawDelta,
};

#[test]
fn test_change_type_display() {
    assert_eq!(format!("{}", ChangeType::Added.symbol()), "A");
    assert_eq!(format!("{}", ChangeType::Modified.symbol()), "M");
    assert_eq!(format!("{}", ChangeType::Deleted.symbol()), "D");
    assert_eq!(format!("{}", ChangeType::Renamed.symbol()), "R");
}

#[test]
fn untracked_symbol_is_question_mark() {
    assert_eq!(ChangeType::Untracked.symbol(), "?");
}

#[test]
fn statuses_map_to_change_types() {
    assert_eq!(change_type_of(DeltaStatus::Added), Some(ChangeType::Added));
    assert_eq!(change_type_of(DeltaStatus::Deleted), Some(ChangeType::Deleted));
    assert_eq!(change_type_of(DeltaStatus::Modified), Some(ChangeType::Modified));
    assert_eq!(change_type_of(DeltaStatus::Renamed), Some(ChangeType::Renamed));
    assert_eq!(change_type_of(DeltaStatus::Untracked), Some(ChangeType::Untracked));
    assert_eq!(change_type_of(DeltaStatus::Copied), None);
    assert_eq!(change_type_of(DeltaStatus::Typechange), None);
    assert_eq!(change_type_of(DeltaStatus::Unmodified), None);
}

fn raw(status: DeltaStatus, new_path: Option<&str>, old_path: Option<&str>) -> RawDelta {
    RawDelta {
        status,
        new_path: new_path.map(|s| s.to_string()),
        old_path: old_path.map(|s| s.to_string()),
    }
}

#[test]
fn file_deltas_take_new_path_then_old_path_and_skip_the_rest() {
    let entries = vec![
        raw(DeltaStatus::Modified, Some("src/a.rs"), Some("src/a.rs")),
        raw(DeltaStatus::Deleted, None, Some("src/gone.rs")),
        raw(DeltaStatus::Renamed, Some("src/new.rs"), Some("src/old.rs")),
        raw(DeltaStatus::Copied, Some("src/copy.rs"), Some("src/a.rs")),
        raw(DeltaStatus::Added, None, None),
        raw(DeltaStatus::Added, Some(""), None),
    ];
    let deltas = file_deltas_from(&entries);
    let got: Vec<(String, ChangeType)> = deltas.iter().map(|d| (d.path.clone(), d.change_type)).collect();
    assert_eq!(
        got,
        vec![
            ("src/a.rs".to_string(), ChangeType::Modified),
            ("src/gone.rs".to_string(), ChangeType::Deleted),
            ("src/new.rs".to_string(), ChangeType::Renamed),
        ]
    );
}

#[test]
fn short_hash_is_first_seven_characters() {
    assert_eq!(short_hash_of("0123456789abcdef0123456789abcdef01234567"), "0123456");
    assert_eq!(short_hash_of("abc"), "abc");
}

#[test]
fn commit_record_fills_missing_fields() {
    let record = CommitRecord::from_parts(
        "0123456789abcdef".to_string(),
        None,
        Some("dev@example.com".to_string()),
        100,
        60,
        None,
        vec![FileDelta { path: "a.rs".to_string(), change_type: ChangeType::Added }],
    );
    assert_eq!(record.short_hash, "0123456");
    assert_eq!(record.author_name, "<unknown>");
    assert_eq!(record.author_email, "dev@example.com");
    assert_eq!(record.summary, "<no message>");
    assert_eq!(record.timestamp, 100);
    assert_eq!(record.utc_offset, 60);
    assert_eq!(record.file_deltas.len(), 1);
}

#[test]
fn newest_commits_are_taken_then_put_oldest_first() {
    let newest_first = vec![5, 4, 3, 2, 1];
    assert_eq!(select_commits(newest_first.clone(), 3), vec![3, 4, 5]);
    assert_eq!(select_commits(newest_first.clone(), 0), vec![1, 2, 3, 4, 5]);
    assert_eq!(select_commits(newest_first.clone(), 5), vec![1, 2, 3, 4, 5]);
    assert_eq!(select_commits(newest_first, 9), vec![1, 2, 3, 4, 5]);
}

#[test]
fn time_is_formatted_with_utc_offset() {
    assert_eq!(format_time(1431648000, 0), "2015-05-15 00:00:00 UTC+0000");
    assert_eq!(format_time(0, 120), "1970-01-01 00:00:00 UTC+0200");
    assert_eq!(format_time(0, 330), "1970-01-01 00:00:00 UTC+0530");
    assert_eq!(format_time(0, -300), "1970-01-01 00:00:00 UTC-0500");
    assert_eq!(format_time(0, -90), "1970-01-01 00:00:00 UTC-01-30");
    assert_eq!(format_time(0, -30), "1970-01-01 00:00:00 UTC+00-30");
    assert_eq!(format_time(0, 720), "1970-01-01 00:00:00 UTC+1200");
}

#[test]
fn offset_is_appended_after_the_date() {
    let d = || "2024-02-29 23:59:59".to_string();
    assert_eq!(with_utc_offset(d(), 0), "2024-02-29 23:59:59 UTC+0000");
    assert_eq!(with_utc_offset(d(), 345), "2024-02-29 23:59:59 UTC+0545");
    assert_eq!(with_utc_offset(d(), -330), "2024-02-29 23:59:59 UTC-05-30");
    assert_eq!(with_utc_offset(d(), -600), "2024-02-29 23:59:59 UTC-1000");
    assert_eq!(with_utc_offset(String::new(), 65), " UTC+0105");
}

#[test]
fn out_of_range_time_falls_back_to_the_epoch() {
    assert_eq!(format_time(i64::MAX, 0), "1970-01-01 00:00:00 UTC+0000");
}

fn hunk(path: &str, new_start: u32, new_count: u32) -> DiffHunk {
    DiffHunk { file_path: path.to_string(), old_start: 0, old_count: 0, new_start, new_count }
}

#[test]
fn diff_ranges_skip_hunks_without_new_lines() {
    let hunks = vec![hunk("a.rs", 3, 2), hunk("b.rs", 1, 1), hunk("a.rs", 10, 0), hunk("a.rs", 20, 1)];
    assert_eq!(diff_ranges_for_file(&hunks, "a.rs"), vec![(3, 4), (20, 20)]);
    assert_eq!(diff_ranges_for_file(&hunks, "b.rs"), vec![(1, 1)]);
    assert!(diff_ranges_for_file(&hunks, "c.rs").is_empty());
}

#[test]
fn source_files_of_hunks_are_distinct_and_known() {
    let hunks = vec![hunk("a.rs", 1, 1), hunk("README.md", 1, 1), hunk("a.rs", 5, 1), hunk("b.py", 2, 1)];
    assert_eq!(source_files_of_hunks(&hunks), vec!["a.rs".to_string(), "b.py".to_string()]);
}

#[test]
fn function_deltas_are_the_functions_hunks_touch() {
    let source = "fn alpha() {\n    let x = 1;\n}\n\nfn beta() {\n    let y = 2;\n}\n";
    let hunks = vec![hunk("src/lib.rs", 6, 1), hunk("other.rs", 1, 1)];
    let rows = function_deltas_for_file("src/lib.rs", source, &hunks);
    assert_eq!(rows, vec![("src/lib.rs".to_string(), "beta".to_string(), 5, 7)]);
    let none = function_deltas_for_file("src/lib.rs", source, &vec![hunk("src/lib.rs", 4, 0)]);
    assert!(none.is_empty());
    let unknown = function_deltas_for_file("notes.txt", "text", &vec![hunk("notes.txt", 1, 1)]);
    assert!(unknown.is_empty());
}

#[test]
fn delta_rows_name_the_file_and_each_function() {
    let f = |name: &str, a: u32, b: u32| git_anatomy::analyzer::FunctionDef {
        name: name.to_string(),
        file_path: "other.rs".to_string(),
        start_line: a,
        end_line: b,
        language: "rust".to_string(),
    };
    let rows = function_delta_rows("src/x.rs", &vec![f("alpha", 1, 4), f("beta", 6, 9)]);
    assert_eq!(
        rows,
        vec![
            ("src/x.rs".to_string(), "alpha".to_string(), 1, 4),
            ("src/x.rs".to_string(), "beta".to_string(), 6, 9),
        ]
    );
    assert!(function_delta_rows("src/x.rs", &Vec::new()).is_empty());
}

#[test]
fn dates_follow_the_proleptic_calendar_and_its_range() {
    assert_eq!(format_time(-1, 0), "1969-12-31 23:59:59 UTC+0000");
    assert_eq!(format_time(951782400, 0), "2000-02-29 00:00:00 UTC+0000");
    assert_eq!(format_time(253402300800, 0), "+10000-01-01 00:00:00 UTC+0000");
    assert_eq!(format_time(-62167219200, 0), "0000-01-01 00:00:00 UTC+0000");
    assert_eq!(format_time(-62167305600, 0), "-0001-12-31 00:00:00 UTC+0000");
    assert_eq!(format_time(8210266876799, 0), "+262142-12-31 23:59:59 UTC+0000");
    assert_eq!(format_time(8210266876800, 0), "1970-01-01 00:00:00 UTC+0000");
    assert_eq!(format_time(-8334601228800, 0), "-262143-01-01 00:00:00 UTC+0000");
    assert_eq!(format_time(-8334601228801, 0), "1970-01-01 00:00:00 UTC+0000");
    assert_eq!(format_time(i64::MIN, 0), "1970-01-01 00:00:00 UTC+0000");
}
