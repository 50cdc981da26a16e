use git_anatomy::db::queries::CoupledFile;
use git_anatomy::db::Database;
use git_anatomy::git_engine::{ChangeType, CommitRecord, FileDelta};
use git_anatomy::ratio::Ratio;
use git_anatomy::tui::app::{matching_paths, App, CouplingView, DetailLevel, ListState, Panel};
use git_anatomy::tui::keys::{Key, KeyOutcome};
use git_anatomy::analyzer::{CallEdge, RiskLevel};

fn commit(hash: &str, timestamp: i64, files: &[&str]) -> CommitRecord {
    CommitRecord::from_parts(
        hash.to_string(),
        Some("dev".to_string()),
        None,
        timestamp,
        0,
        None,
        files.iter().map(|f| FileDelta { path: f.to_string(), change_type: ChangeType::Modified }).collect(),
    )
}

fn app() -> App {
    let mut db = Database::new();
    db.ingest_commits(&vec![
        commit("c1", 1, &["src/a.rs", "src/b.rs"]),
        commit("c2", 2, &["src/a.rs", "src/b.rs"]),
        commit("c3", 3, &["src/a.rs", "docs/c.md"]),
    ]);
    let mut app = App::new(db, ".".to_string());
    app.load_data();
    app
}

#[test]
fn list_state_selects() {
    let mut s = ListState::new();
    assert_eq!(s.selected(), None);
    s.select(Some(3));
    assert_eq!(s.selected(), Some(3));
}

#[test]
fn new_app_starts_on_the_file_list() {
    let app = App::new(Database::new(), "/repo".to_string());
    assert_eq!(app.active_panel, Panel::FileList);
    assert_eq!(app.coupling_view, CouplingView::Combined);
    assert_eq!(app.detail_level, DetailLevel::File);
    assert!(!app.should_quit());
    assert!(!app.is_searching());
    assert_eq!(app.status_message, "Press q to quit, j/k to navigate, Enter to select, Tab to switch panels");
}

#[test]
fn load_data_lists_files_and_selects_the_first() {
    let app = app();
    assert_eq!(app.files.len(), 3);
    assert_eq!(app.files[0].file_path, "src/a.rs");
    assert_eq!(app.filtered_files, vec![0, 1, 2]);
    assert_eq!(app.file_list_state.selected(), Some(0));
    assert_eq!(app.get_selected_file().as_deref(), Some("src/a.rs"));
    assert!(app.top_pairs.is_empty());
}

#[test]
fn moving_down_selects_and_loads_the_next_file() {
    let mut app = app();
    let loaded = app.next_item();
    assert_eq!(loaded.as_deref(), Some("src/b.rs"));
    assert_eq!(app.file_list_state.selected(), Some(1));
    assert_eq!(app.coupled_files.len(), 1);
    assert_eq!(app.coupled_files[0].file_path, "src/a.rs");
    assert_eq!(app.coupled_files[0].confidence, Ratio::new(2, 2));
    assert_eq!(app.coupling_list_state.selected(), Some(0));
    app.next_item();
    let wrapped = app.next_item();
    assert_eq!(wrapped.as_deref(), Some("src/a.rs"));
    assert_eq!(app.file_list_state.selected(), Some(0));
    let back = app.prev_item();
    assert_eq!(back.as_deref(), Some("docs/c.md"));
    assert_eq!(app.file_list_state.selected(), Some(2));
}

#[test]
fn panels_cycle() {
    let mut app = app();
    app.next_panel();
    assert_eq!(app.active_panel, Panel::CouplingMap);
    app.next_panel();
    assert_eq!(app.active_panel, Panel::Details);
    app.next_panel();
    assert_eq!(app.active_panel, Panel::FileList);
    app.prev_panel();
    assert_eq!(app.active_panel, Panel::Details);
    app.go_back();
    assert_eq!(app.active_panel, Panel::CouplingMap);
    app.go_back();
    assert_eq!(app.active_panel, Panel::FileList);
    app.go_back();
    assert_eq!(app.active_panel, Panel::FileList);
}

#[test]
fn enter_loads_the_file_and_moves_on() {
    let mut app = app();
    let loaded = app.select_item();
    assert_eq!(loaded.as_deref(), Some("src/a.rs"));
    assert_eq!(app.active_panel, Panel::CouplingMap);
    assert_eq!(app.coupled_files.len(), 2);
    assert_eq!(app.coupled_files[0].file_path, "src/b.rs");
    app.next_item();
    assert_eq!(app.coupling_list_state.selected(), Some(1));
    app.next_item();
    assert_eq!(app.coupling_list_state.selected(), Some(0));
    assert_eq!(app.get_selected_coupled_file().map(|c| c.file_path.clone()).as_deref(), Some("src/b.rs"));
    assert_eq!(app.select_item(), None);
    assert_eq!(app.active_panel, Panel::Details);
    assert_eq!(app.select_item(), None);
    assert_eq!(app.active_panel, Panel::CouplingMap);
}

#[test]
fn views_toggle_with_messages() {
    let mut app = app();
    app.toggle_coupling_view();
    assert_eq!(app.coupling_view, CouplingView::Temporal);
    assert_eq!(app.status_message, "Coupling view: Temporal");
    app.toggle_coupling_view();
    assert_eq!(app.status_message, "Coupling view: Static");
    app.toggle_function_view();
    assert_eq!(app.detail_level, DetailLevel::Function);
    assert_eq!(app.status_message, "Detail level: Function");
}

#[test]
fn search_filters_case_insensitively() {
    let mut app = app();
    app.start_search();
    assert!(app.is_searching());
    assert_eq!(app.status_message, "Search: (type to filter, Enter to confirm)");
    let loaded = app.append_search('B');
    assert_eq!(app.filtered_files, vec![1]);
    assert_eq!(loaded.as_deref(), Some("src/b.rs"));
    app.append_search('z');
    assert!(app.filtered_files.is_empty());
    assert_eq!(app.file_list_state.selected(), None);
    app.backspace_search();
    assert_eq!(app.filtered_files, vec![1]);
    app.backspace_search();
    assert_eq!(app.filtered_files, vec![0, 1, 2]);
    app.finish_search();
    assert!(!app.is_searching());
}

#[test]
fn sources_bring_functions_and_a_status_line() {
    let mut app = app();
    app.select_item();
    let target = "fn alpha() {\n    beta();\n}\n".to_string();
    let coupled = vec![("src/b.rs".to_string(), "fn beta() {}\n".to_string())];
    app.apply_file_sources("src/a.rs", Some(target), coupled);
    assert_eq!(app.functions.len(), 1);
    assert_eq!(app.functions[0].name, "alpha");
    assert_eq!(app.function_list_state.selected(), Some(0));
    assert_eq!(app.call_edges.len(), 1);
    assert_eq!(app.call_edges[0].callee_file.as_deref(), Some("src/b.rs"));
    assert!(app.func_couplings.iter().all(|f| f.function_name == "(file-level)"));
    assert_eq!(app.status_message, "src/a.rs | 2 coupled files | 1 functions | 1 call edges");
}

#[test]
fn missing_source_clears_function_data() {
    let mut app = app();
    app.select_item();
    let target = "fn alpha() {\n    beta();\n}\n".to_string();
    let coupled = vec![("src/b.rs".to_string(), "fn beta() {}\n".to_string())];
    app.apply_file_sources("src/a.rs", Some(target), coupled);
    assert_eq!(app.functions.len(), 1);
    app.apply_file_sources("src/a.rs", None, vec![]);
    assert!(app.functions.is_empty());
    assert!(app.func_couplings.is_empty());
    assert!(app.call_edges.is_empty());
    assert_eq!(app.function_list_state.selected(), None);
    assert_eq!(app.status_message, "src/a.rs | 2 coupled files | 0 functions | 0 call edges");
}

#[test]
fn loading_another_file_clears_the_previous_functions() {
    let mut app = app();
    app.select_item();
    let target = "fn alpha() {\n    beta();\n}\n".to_string();
    let coupled = vec![("src/b.rs".to_string(), "fn beta() {}\n".to_string())];
    app.apply_file_sources("src/a.rs", Some(target), coupled);
    app.load_file_coupling("docs/c.md");
    assert!(app.functions.is_empty());
    assert!(app.func_couplings.is_empty());
    assert!(app.call_edges.is_empty());
    assert_eq!(app.coupled_files.len(), 1);
    assert_eq!(app.status_message, "docs/c.md | 1 coupled files | 0 functions | 0 call edges");
    app.apply_file_sources("docs/c.md", Some("# notes\n".to_string()), vec![]);
    assert!(app.functions.is_empty());
    assert!(app.call_edges.is_empty());
}

#[test]
fn risk_of_a_coupled_file() {
    let mut app = app();
    app.select_item();
    app.call_edges = vec![CallEdge {
        caller_name: "alpha".to_string(),
        caller_file: "src/a.rs".to_string(),
        callee_name: "beta".to_string(),
        callee_file: Some("src/b.rs".to_string()),
    }];
    let strong = CoupledFile { file_path: "src/b.rs".to_string(), confidence: Ratio::new(2, 3), co_commit_count: 2 };
    assert_eq!(app.get_risk_for_coupled(&strong), RiskLevel::Low);
    let stronger = CoupledFile { file_path: "src/b.rs".to_string(), confidence: Ratio::new(3, 4), co_commit_count: 3 };
    assert_eq!(app.get_risk_for_coupled(&stronger), RiskLevel::High);
    let hidden = CoupledFile { file_path: "docs/c.md".to_string(), confidence: Ratio::new(9, 10), co_commit_count: 1 };
    assert_eq!(app.get_risk_for_coupled(&hidden), RiskLevel::Medium);
    app.call_edges.push(CallEdge {
        caller_name: "gamma".to_string(),
        caller_file: "docs/c.md".to_string(),
        callee_name: "delta".to_string(),
        callee_file: Some("src/d.rs".to_string()),
    });
    assert_eq!(app.get_risk_for_coupled(&hidden), RiskLevel::Medium);
    app.call_edges.push(CallEdge {
        caller_name: "gamma".to_string(),
        caller_file: "docs/c.md".to_string(),
        callee_name: "alpha".to_string(),
        callee_file: Some("src/a.rs".to_string()),
    });
    assert_eq!(app.get_risk_for_coupled(&hidden), RiskLevel::High);
}

#[test]
fn matching_paths_keeps_containing_indices_in_order() {
    let paths = vec!["src/db.rs".to_string(), "src/main.rs".to_string(), "readme".to_string(), "db/x.rs".to_string()];
    assert_eq!(matching_paths(&paths, "db"), vec![0, 3]);
    assert_eq!(matching_paths(&paths, ".rs"), vec![0, 1, 3]);
    assert_eq!(matching_paths(&paths, ""), vec![0, 1, 2, 3]);
    assert_eq!(matching_paths(&paths, "DB"), Vec::<usize>::new());
    assert_eq!(matching_paths(&Vec::new(), "a"), Vec::<usize>::new());
}

fn loads(outcome: KeyOutcome) -> Option<String> {
    match outcome {
        KeyOutcome::LoadSources(p) => Some(p),
        _ => None,
    }
}

#[test]
fn keys_move_and_select() {
    let mut app = app();
    assert_eq!(loads(app.handle_key(Key::Char('j'))).as_deref(), Some("src/b.rs"));
    assert_eq!(loads(app.handle_key(Key::Down)).as_deref(), Some("docs/c.md"));
    assert_eq!(loads(app.handle_key(Key::Up)).as_deref(), Some("src/b.rs"));
    assert_eq!(loads(app.handle_key(Key::Char('k'))).as_deref(), Some("src/a.rs"));
    assert_eq!(loads(app.handle_key(Key::Enter)).as_deref(), Some("src/a.rs"));
    assert_eq!(app.active_panel, Panel::CouplingMap);
    assert!(matches!(app.handle_key(Key::Right), KeyOutcome::Continue));
    assert_eq!(app.active_panel, Panel::Details);
    assert!(matches!(app.handle_key(Key::Char('h')), KeyOutcome::Continue));
    assert_eq!(app.active_panel, Panel::CouplingMap);
    assert!(matches!(app.handle_key(Key::Left), KeyOutcome::Continue));
    assert_eq!(app.active_panel, Panel::FileList);
    assert!(matches!(app.handle_key(Key::Tab), KeyOutcome::Continue));
    assert_eq!(app.active_panel, Panel::CouplingMap);
    assert!(matches!(app.handle_key(Key::BackTab), KeyOutcome::Continue));
    assert_eq!(app.active_panel, Panel::FileList);
}

#[test]
fn keys_toggle_and_quit() {
    let mut app = app();
    assert!(matches!(app.handle_key(Key::Char('c')), KeyOutcome::Continue));
    assert_eq!(app.coupling_view, CouplingView::Temporal);
    assert!(matches!(app.handle_key(Key::Char('f')), KeyOutcome::Continue));
    assert_eq!(app.detail_level, DetailLevel::Function);
    assert!(matches!(app.handle_key(Key::Char('x')), KeyOutcome::Continue));
    assert!(matches!(app.handle_key(Key::Other), KeyOutcome::Continue));
    assert!(matches!(app.handle_key(Key::Char('q')), KeyOutcome::Quit));
    assert!(matches!(app.handle_key(Key::Esc), KeyOutcome::Quit));
}

#[test]
fn keys_drive_the_search() {
    let mut app = app();
    assert!(matches!(app.handle_key(Key::Char('/')), KeyOutcome::Continue));
    assert!(app.is_searching());
    assert_eq!(loads(app.handle_key(Key::Char('b'))).as_deref(), Some("src/b.rs"));
    assert_eq!(app.filtered_files, vec![1]);
    assert!(matches!(app.handle_key(Key::Char('q')), KeyOutcome::Continue));
    assert!(app.filtered_files.is_empty());
    assert_eq!(loads(app.handle_key(Key::Backspace)).as_deref(), Some("src/b.rs"));
    assert_eq!(loads(app.handle_key(Key::Enter)).as_deref(), Some("src/b.rs"));
    assert!(!app.is_searching());
    app.handle_key(Key::Char('/'));
    app.handle_key(Key::Char('z'));
    assert!(app.filtered_files.is_empty());
    assert!(matches!(app.handle_key(Key::Esc), KeyOutcome::Continue));
    assert!(!app.is_searching());
    assert_eq!(app.search_query, "");
    assert_eq!(app.filtered_files, vec![0, 1, 2]);
}
