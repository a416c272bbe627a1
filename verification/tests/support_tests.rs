use barqcoder::barq::{indexable_lang, parse_barqignore, should_skip, Client};
use barqcoder::config::Config;
use barqcoder::macro_goals::GoalManager;
use barqcoder::strutil::{join_with, split_lines, split_words, u64_to_string, usize_to_string, str_contains};
use barqcoder::symbolic::{analyze_borrows, check_unsafe, lint_perf, load_rules};
use barqcoder::tui::{DiffLineKind, TokenLevel, TuiComponents};

#[test]
fn test_config_defaults() {
    let c = Config::default();
    assert_eq!(c.ollama_base_url, "http://localhost:11434");
    assert_eq!(c.ollama_model, "gemini-pro-3.1");
    assert_eq!(c.barqdb_url, "localhost:6333");
    assert_eq!(c.barqgraph_url, "localhost:6334");
    assert_eq!(c.workspace_root, "./");
    assert_eq!(c.max_iterations, 5);
    assert_eq!(c.token_limit, 4096);
}

#[test]
fn test_load_rules() {
    let rules = load_rules();
    assert_eq!(rules.len(), 3);
    assert_eq!(rules[0].id, "UNSAFE_BLOCK");
    assert_eq!(rules[0].severity, "warn");
    assert_eq!(rules[1].id, "O_N_SQUARED");
    assert_eq!(rules[2].id, "CLONE_IN_LOOP");
    assert_eq!(rules[2].severity, "error");
}

#[test]
fn test_symbolic_checks() {
    assert!(check_unsafe(0).is_empty());
    assert_eq!(
        check_unsafe(2),
        vec![String::from("Found 2 unsafe blocks. Please ensure they are necessary.")]
    );
    assert!(analyze_borrows(2).is_empty());
    assert_eq!(
        analyze_borrows(3),
        vec![String::from("Detected 3 .clone() calls. Consider passing by reference instead.")]
    );
    assert!(lint_perf(0, 5).is_empty());
    assert!(lint_perf(5, 0).is_empty());
    assert_eq!(lint_perf(1, 1).len(), 1);
}

#[test]
fn test_decimal_formatting() {
    assert_eq!(u64_to_string(0), "0");
    assert_eq!(u64_to_string(7), "7");
    assert_eq!(u64_to_string(10), "10");
    assert_eq!(u64_to_string(90210), "90210");
    assert_eq!(usize_to_string(4096), "4096");
}

#[test]
fn test_decimal_formatting_largest() {
    assert_eq!(u64_to_string(u64::MAX), "18446744073709551615");
}

#[test]
fn test_split_lines() {
    assert_eq!(split_lines(""), Vec::<String>::new());
    assert_eq!(split_lines("a\nb"), vec![String::from("a"), String::from("b")]);
    assert_eq!(split_lines("a\nb\n"), vec![String::from("a"), String::from("b")]);
    assert_eq!(split_lines("a\r\nb"), vec![String::from("a"), String::from("b")]);
    assert_eq!(split_lines("\n\n"), vec![String::new(), String::new()]);
}

#[test]
fn test_split_words() {
    assert_eq!(split_words(""), Vec::<String>::new());
    assert_eq!(split_words("   "), Vec::<String>::new());
    assert_eq!(
        split_words(" a  bb\tccc "),
        vec![String::from("a"), String::from("bb"), String::from("ccc")]
    );
}

#[test]
fn test_join_and_contains() {
    let parts = vec![String::from("a"), String::from("b"), String::from("c")];
    assert_eq!(join_with(&parts, ", "), "a, b, c");
    assert_eq!(join_with(&Vec::new(), ", "), "");
    assert!(str_contains("hello world", "lo wo"));
    assert!(!str_contains("hello", "world"));
    assert!(str_contains("anything", ""));
}

#[test]
fn test_barq_client_store() {
    let mut client = Client::new("localhost:6333");
    assert_eq!(client.url, "localhost:6333");
    client.store("src/a.rs", 1, "rs", "fn a() {}");
    client.store("src/b.py", 2, "py", "def b(): pass");
    assert_eq!(client.entries.len(), 2);
    assert_eq!(client.entries[0].path, "src/a.rs");
    assert_eq!(client.entries[1].lang, "py");
}

#[test]
fn test_barqignore_and_skip() {
    let patterns = parse_barqignore(Some("vendor\ngenerated\n"));
    assert_eq!(patterns, vec![String::from("vendor"), String::from("generated")]);
    assert!(parse_barqignore(None).is_empty());
    assert!(should_skip("proj/target/debug/a.rs", &patterns));
    assert!(should_skip("proj/.git/config", &patterns));
    assert!(should_skip("proj/node_modules/x.ts", &patterns));
    assert!(should_skip("proj/vendor/lib.rs", &patterns));
    assert!(!should_skip("proj/src/lib.rs", &patterns));
}

#[test]
fn test_indexable_lang() {
    assert_eq!(indexable_lang("a.rs").as_deref(), Some("rs"));
    assert_eq!(indexable_lang("a.go").as_deref(), Some("go"));
    assert_eq!(indexable_lang("a.ts").as_deref(), Some("ts"));
    assert_eq!(indexable_lang("a.py").as_deref(), Some("py"));
    assert!(indexable_lang("a.md").is_none());
    assert!(indexable_lang("rs").is_none());
}

#[test]
fn test_goal_manager_paths_and_listing() {
    let mgr = GoalManager::new("/work");
    assert_eq!(mgr.goals_dir, "/work/.barqcoder/goals");
    assert_eq!(mgr.goal_path("refactor"), "/work/.barqcoder/goals/refactor.yaml");
    let entries = vec![
        String::from("refactor.yaml"),
        String::from("notes.txt"),
        String::from("migrate.yaml"),
    ];
    assert_eq!(
        mgr.list_goals(&entries),
        vec![String::from("refactor"), String::from("migrate")]
    );
}

#[test]
fn test_spinner_frames_cycle() {
    assert_eq!(TuiComponents::render_spinner(0), "|");
    assert_eq!(TuiComponents::render_spinner(1), "/");
    assert_eq!(TuiComponents::render_spinner(2), "-");
    assert_eq!(TuiComponents::render_spinner(3), "\\");
    assert_eq!(TuiComponents::render_spinner(4), "|");
}

#[test]
fn test_token_count_badge() {
    let (text, level) = TuiComponents::render_token_count(100, 1000);
    assert_eq!(text, " [Tokens: 100/1000] ");
    assert_eq!(level, TokenLevel::Normal);
    assert_eq!(TuiComponents::render_token_count(801, 1000).1, TokenLevel::High);
    assert_eq!(TuiComponents::render_token_count(1001, 1000).1, TokenLevel::Over);
    assert_eq!(TuiComponents::render_token_count(800, 1000).1, TokenLevel::Normal);
}

#[test]
fn test_render_diff_classification() {
    let rendered = TuiComponents::render_diff("+add\n-del\n@@ -1 +1 @@\nplain");
    let kinds: Vec<DiffLineKind> = rendered.iter().map(|p| p.1).collect();
    assert_eq!(
        kinds,
        vec![
            DiffLineKind::Added,
            DiffLineKind::Removed,
            DiffLineKind::Hunk,
            DiffLineKind::Context,
        ]
    );
    assert_eq!(rendered[0].0, "+add");
}
