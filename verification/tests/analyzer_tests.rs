use git_anatomy::analyzer::call_graph::{
    build_call_graph, find_callees_of, find_callers_of, find_static_dependencies, short_name,
};
use git_anatomy::analyzer::calls::extract_calls_from_function;
use git_anatomy::analyzer::coupling::analyze_function_coupling;
use git_anatomy::analyzer::languages::{
    detect_language_from_path, is_call_node, is_function_node, language_of_extension,
};
use git_anatomy::analyzer::{
    classify_risk, detect_language, extract_functions, find_function_at_line,
    map_diff_to_functions, CallEdge, FunctionDef, RiskLevel,
};
use git_anatomy::ratio::Ratio;

const RUST_SOURCE: &str = "fn alpha() {\n    beta();\n    helper::gamma(1);\n}\n\nfn beta() {\n    let v = Vec::new();\n    v.len();\n}\n";

#[test]
fn languages_are_detected_from_extensions() {
    assert_eq!(detect_language("src/main.rs").as_deref(), Some("rust"));
    assert_eq!(detect_language("web/app.JSX").as_deref(), Some("javascript"));
    assert_eq!(detect_language("a/b.ts").as_deref(), Some("typescript"));
    assert_eq!(detect_language("a/b.tsx").as_deref(), Some("tsx"));
    assert_eq!(detect_language("tool.py").as_deref(), Some("python"));
    assert_eq!(detect_language("main.go").as_deref(), Some("go"));
    assert_eq!(detect_language("App.java").as_deref(), Some("java"));
    assert_eq!(detect_language("x.h").as_deref(), Some("c"));
    assert_eq!(detect_language("x.hpp").as_deref(), Some("cpp"));
    assert_eq!(detect_language("README.md"), None);
    assert_eq!(detect_language("Makefile"), None);
    assert_eq!(detect_language_from_path("lib.rs").as_deref(), Some("rust"));
}

#[test]
fn node_kinds_are_classified() {
    assert!(is_function_node("function_item", "rust"));
    assert!(!is_function_node("call_expression", "rust"));
    assert!(is_function_node("function_definition", "python"));
    assert!(is_call_node("call_expression", "rust"));
    assert!(is_call_node("call", "python"));
    assert!(!is_call_node("function_item", "rust"));
}

#[test]
fn risk_needs_seventy_percent() {
    assert_eq!(classify_risk(true, Ratio::new(7, 10)), RiskLevel::High);
    assert_eq!(classify_risk(false, Ratio::new(8, 10)), RiskLevel::Medium);
    assert_eq!(classify_risk(true, Ratio::new(69, 100)), RiskLevel::Low);
    assert_eq!(classify_risk(false, Ratio::new(1, 10)), RiskLevel::Low);
    assert_eq!(RiskLevel::High.label(), "HIGH");
    assert_eq!(RiskLevel::Medium.label(), "MEDIUM");
    assert_eq!(RiskLevel::Low.label(), "LOW");
}

#[test]
fn rust_functions_are_extracted_with_lines() {
    let functions = extract_functions("src/lib.rs", RUST_SOURCE).unwrap();
    let got: Vec<(String, u32, u32)> =
        functions.iter().map(|f| (f.name.clone(), f.start_line, f.end_line)).collect();
    assert_eq!(got, vec![("alpha".to_string(), 1, 4), ("beta".to_string(), 6, 9)]);
    assert!(functions.iter().all(|f| f.file_path == "src/lib.rs" && f.language == "rust"));
}

#[test]
fn python_functions_are_extracted() {
    let source = "def one():\n    return two()\n\ndef two():\n    return 2\n";
    let functions = extract_functions("pkg/mod.py", source).unwrap();
    let names: Vec<&str> = functions.iter().map(|f| f.name.as_str()).collect();
    assert_eq!(names, vec!["one", "two"]);
}

#[test]
fn unknown_language_has_no_functions() {
    assert!(extract_functions("notes.txt", "fn alpha() {}").unwrap().is_empty());
}

#[test]
fn function_at_line_is_the_innermost_enclosing_one() {
    let found = find_function_at_line("src/lib.rs", RUST_SOURCE, 7).unwrap().unwrap();
    assert_eq!(found.name, "beta");
    assert!(find_function_at_line("src/lib.rs", RUST_SOURCE, 5).unwrap().is_none());
    assert!(find_function_at_line("notes.txt", "x", 1).unwrap().is_none());
}

#[test]
fn calls_are_extracted_without_noise() {
    let functions = extract_functions("src/lib.rs", RUST_SOURCE).unwrap();
    let alpha_calls = extract_calls_from_function(RUST_SOURCE, &functions[0]).unwrap();
    assert_eq!(alpha_calls, vec!["beta".to_string(), "gamma".to_string()]);
    let beta_calls = extract_calls_from_function(RUST_SOURCE, &functions[1]).unwrap();
    assert!(beta_calls.is_empty());
}

#[test]
fn diff_ranges_map_to_functions() {
    let touched = map_diff_to_functions("src/lib.rs", RUST_SOURCE, &vec![(2, 2)]).unwrap();
    let names: Vec<&str> = touched.iter().map(|f| f.name.as_str()).collect();
    assert_eq!(names, vec!["alpha"]);
    let both = map_diff_to_functions("src/lib.rs", RUST_SOURCE, &vec![(4, 6)]).unwrap();
    assert_eq!(both.len(), 2);
    assert!(map_diff_to_functions("src/lib.rs", RUST_SOURCE, &vec![(5, 5)]).unwrap().is_empty());
}

#[test]
fn short_names_drop_paths() {
    assert_eq!(short_name("helper::gamma"), "gamma");
    assert_eq!(short_name("beta"), "beta");
}

fn sources() -> Vec<(String, String)> {
    vec![
        ("src/a.rs".to_string(), "fn alpha() {\n    beta();\n    missing();\n}\n".to_string()),
        ("src/b.rs".to_string(), "fn beta() {\n    gamma();\n}\n\nfn gamma() {}\n".to_string()),
    ]
}

fn edge(caller: &str, caller_file: &str, callee: &str, callee_file: Option<&str>) -> CallEdge {
    CallEdge {
        caller_name: caller.to_string(),
        caller_file: caller_file.to_string(),
        callee_name: callee.to_string(),
        callee_file: callee_file.map(|s| s.to_string()),
    }
}

#[test]
fn call_graph_links_defined_callees() {
    let edges = build_call_graph(&sources()).unwrap();
    let got: Vec<(String, String, String, Option<String>)> = edges
        .iter()
        .map(|e| (e.caller_name.clone(), e.caller_file.clone(), e.callee_name.clone(), e.callee_file.clone()))
        .collect();
    assert_eq!(
        got,
        vec![
            ("alpha".to_string(), "src/a.rs".to_string(), "beta".to_string(), Some("src/b.rs".to_string())),
            ("beta".to_string(), "src/b.rs".to_string(), "gamma".to_string(), Some("src/b.rs".to_string())),
        ]
    );
}

#[test]
fn callers_and_callees_are_found() {
    let edges = vec![
        edge("alpha", "a.rs", "beta", Some("b.rs")),
        edge("gamma", "c.rs", "beta", Some("b.rs")),
        edge("beta", "b.rs", "delta", Some("d.rs")),
        edge("eps", "b.rs", "beta", Some("b.rs")),
        edge("beta", "b.rs", "zeta", Some("b.rs")),
    ];
    let callers: Vec<String> = find_callers_of("beta", &edges).iter().map(|e| e.caller_name.clone()).collect();
    assert_eq!(callers, vec!["alpha".to_string(), "gamma".to_string(), "eps".to_string()]);
    let callees: Vec<String> = find_callees_of("beta", "b.rs", &edges).iter().map(|e| e.callee_name.clone()).collect();
    assert_eq!(callees, vec!["delta".to_string(), "zeta".to_string()]);
    let mut deps = find_static_dependencies("beta", "b.rs", &edges);
    deps.sort();
    assert_eq!(deps, vec!["b.rs::eps".to_string(), "b.rs::zeta".to_string()]);
}

#[test]
fn function_coupling_combines_history_and_calls() {
    let files = sources();
    let edges = build_call_graph(&files).unwrap();
    let coupling = vec![("src/b.rs".to_string(), Ratio::new(8, 10), 4usize)];
    let result = analyze_function_coupling("src/a.rs", 2, &files[0].1, &files, &edges, &coupling).unwrap();
    assert!(!result.is_empty());
    assert_eq!(result[0].function_name, "beta");
    assert_eq!(result[0].file_path, "src/b.rs");
    assert!(result[0].has_static_call);
    assert_eq!(result[0].risk_level, RiskLevel::High);
}

#[test]
fn function_def_contains_its_lines() {
    let f = FunctionDef {
        name: "f".to_string(),
        file_path: "a.rs".to_string(),
        start_line: 3,
        end_line: 5,
        language: "rust".to_string(),
    };
    assert!(f.contains_line(3));
    assert!(f.contains_line(5));
    assert!(!f.contains_line(6));
    assert!(!f.contains_line(2));
}

#[test]
fn lowered_extensions_name_languages() {
    assert_eq!(language_of_extension("rs"), Some("rust".to_string()));
    assert_eq!(language_of_extension("mjs"), Some("javascript".to_string()));
    assert_eq!(language_of_extension("tsx"), Some("tsx".to_string()));
    assert_eq!(language_of_extension("pyi"), Some("python".to_string()));
    assert_eq!(language_of_extension("h"), Some("c".to_string()));
    assert_eq!(language_of_extension("hxx"), Some("cpp".to_string()));
    assert_eq!(language_of_extension("RS"), None);
    assert_eq!(language_of_extension(""), None);
    assert_eq!(language_of_extension("md"), None);
}

#[test]
fn generic_calls_name_their_function() {
    let source = "fn a(s: &str) {\n    parse::<u32>(s);\n    helper::gamma::<u8>(1);\n}\n";
    let f = find_function_at_line("src/a.rs", source, 2).unwrap().unwrap();
    let calls = extract_calls_from_function(source, &f).unwrap();
    assert_eq!(calls, vec!["parse".to_string(), "gamma".to_string()]);
}

#[test]
fn cpp_functions_are_detected() {
    let fs = extract_functions("a.cpp", "int add(int a, int b) {\n    return a + b;\n}\n").unwrap();
    assert_eq!(fs.len(), 1);
    assert_eq!(fs[0].name, "add");
    assert_eq!((fs[0].start_line, fs[0].end_line), (1, 3));
    assert_eq!(fs[0].language, "cpp");
}

#[test]
fn paths_without_a_dot_have_no_language() {
    assert_eq!(detect_language_from_path("rs"), None);
    assert_eq!(detect_language_from_path("c"), None);
    assert_eq!(detect_language_from_path("Makefile"), None);
    assert_eq!(detect_language_from_path("src/x.RS").as_deref(), Some("rust"));
}

fn def(name: &str, path: &str, start: u32, end: u32, language: &str) -> FunctionDef {
    FunctionDef {
        name: name.to_string(),
        file_path: path.to_string(),
        start_line: start,
        end_line: end,
        language: language.to_string(),
    }
}

fn def_tuple(f: &FunctionDef) -> (String, String, u32, u32, String) {
    (f.name.clone(), f.file_path.clone(), f.start_line, f.end_line, f.language.clone())
}

#[test]
fn nested_functions_resolve_to_the_innermost() {
    let source = "fn outer() {\n    fn inner() {\n    }\n}\n";
    let inner = find_function_at_line("a.rs", source, 2).unwrap().unwrap();
    assert_eq!(def_tuple(&inner), def_tuple(&def("inner", "a.rs", 2, 3, "rust")));
    let outer = find_function_at_line("a.rs", source, 4).unwrap().unwrap();
    assert_eq!(def_tuple(&outer), def_tuple(&def("outer", "a.rs", 1, 4, "rust")));
    let all = extract_functions("a.rs", source).unwrap();
    let names: Vec<&str> = all.iter().map(|f| f.name.as_str()).collect();
    assert_eq!(names, vec!["outer", "inner"]);
}

#[test]
fn noise_calls_are_dropped_from_a_body() {
    let source = "fn f() {\n    let v = Vec::new();\n    helper();\n    v.unwrap();\n    println!();\n}\n";
    let func = def("f", "a.rs", 1, 6, "rust");
    assert_eq!(extract_calls_from_function(source, &func).unwrap(), vec!["helper".to_string()]);
}

#[test]
fn overlapping_ranges_list_each_function_once() {
    let source = "fn a() {}\nfn b() {\n}\nfn c() {}\n";
    let touched = map_diff_to_functions("a.rs", source, &vec![(2, 2), (3, 4)]).unwrap();
    let got: Vec<_> = touched.iter().map(def_tuple).collect();
    assert_eq!(
        got,
        vec![def_tuple(&def("b", "a.rs", 2, 3, "rust")), def_tuple(&def("c", "a.rs", 4, 4, "rust"))]
    );
}

#[test]
fn unresolved_calls_give_no_edge() {
    let files = vec![
        ("a.rs".to_string(), "fn f() {\n    g();\n    ext();\n}\n".to_string()),
        ("b.rs".to_string(), "fn g() {}\n".to_string()),
    ];
    let edges = build_call_graph(&files).unwrap();
    assert_eq!(edges.len(), 1);
    assert_eq!(edges[0].caller_name, "f");
    assert_eq!(edges[0].caller_file, "a.rs");
    assert_eq!(edges[0].callee_name, "g");
    assert_eq!(edges[0].callee_file.as_deref(), Some("b.rs"));
}

#[test]
fn names_after_multibyte_text_are_read_whole() {
    let source = "// größe\nfn café() {\n    naïve();\n}\nfn naïve() {}\n";
    let fs = extract_functions("a.rs", source).unwrap();
    let got: Vec<_> = fs.iter().map(def_tuple).collect();
    assert_eq!(
        got,
        vec![def_tuple(&def("café", "a.rs", 2, 4, "rust")), def_tuple(&def("naïve", "a.rs", 5, 5, "rust"))]
    );
    assert_eq!(extract_calls_from_function(source, &fs[0]).unwrap(), vec!["naïve".to_string()]);
}

#[test]
fn found_function_is_one_of_the_extracted() {
    let all = extract_functions("src/lib.rs", RUST_SOURCE).unwrap();
    for line in 1..=9u32 {
        if let Some(g) = find_function_at_line("src/lib.rs", RUST_SOURCE, line).unwrap() {
            assert!(g.start_line <= line && line <= g.end_line);
            assert!(all.iter().any(|f| def_tuple(f) == def_tuple(&g)));
        }
    }
}

#[test]
fn every_edge_joins_extracted_functions() {
    let files = sources();
    let edges = build_call_graph(&files).unwrap();
    assert!(!edges.is_empty());
    for e in &edges {
        let (_, caller_src) = files.iter().find(|(p, _)| *p == e.caller_file).unwrap();
        let callers = extract_functions(&e.caller_file, caller_src).unwrap();
        assert!(callers.iter().any(|f| f.name == e.caller_name));
        let callee_file = e.callee_file.clone().unwrap();
        let (_, callee_src) = files.iter().find(|(p, _)| *p == callee_file).unwrap();
        let callees = extract_functions(&callee_file, callee_src).unwrap();
        assert!(callees.iter().any(|f| f.name == e.callee_name));
    }
}
