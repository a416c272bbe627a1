use barqcoder::verify::{CheckRun, Verifier, verify_no_unsafe};

fn run(ok: bool) -> CheckRun {
    CheckRun {
        ran: true,
        success: ok,
        stderr: if ok { String::new() } else { String::from("boom") },
    }
}

#[test]
fn test_should_revert_iff_check_or_test_failed() {
    let gate = Verifier::new(".");
    for check_ok in [false, true] {
        for test_ok in [false, true] {
            let r = gate.verify_edit("fn a() {}", "fn b() {}", run(check_ok), run(test_ok));
            assert_eq!(r.cargo_check_pass, check_ok);
            assert_eq!(r.cargo_test_pass, test_ok);
            assert_eq!(r.should_revert, !check_ok || !test_ok);
        }
    }
}

#[test]
fn test_identical_content_scores_full() {
    let gate = Verifier::new(".");
    let r = gate.verify_edit("fn a() {}", "fn a() {}", run(true), run(true));
    assert_eq!(r.semantic_score_milli, 1000);
    assert!(!r.should_revert);
    assert!(r.errors.is_empty());
    assert!(r.warnings.is_empty());
}

#[test]
fn test_changed_content_scores_below_full() {
    let gate = Verifier::new(".");
    let r = gate.verify_edit("fn a() {}", "fn a() { let x = 1; }", run(true), run(true));
    assert!(r.semantic_score_milli < 1000);
    assert!(!r.should_revert, "score alone must never force a revert");
}

#[test]
fn test_unsafe_escalates_to_check_failure() {
    let gate = Verifier::new(".");
    let r = gate.verify_edit("fn a() {}", "unsafe fn a() {}", run(true), run(true));
    assert!(!r.cargo_check_pass);
    assert!(r.should_revert);
    assert_eq!(r.errors, vec![String::from("Unsafe block detected")]);
}

#[test]
fn test_spawn_failure_is_reported() {
    let gate = Verifier::new(".");
    let failed = CheckRun { ran: false, success: false, stderr: String::new() };
    let r = gate.verify_edit("fn a() {}", "fn a() {}", failed.clone(), failed);
    assert!(!r.cargo_check_pass);
    assert!(!r.cargo_test_pass);
    assert!(r.should_revert);
    assert_eq!(
        r.errors,
        vec![
            String::from("Failed to run cargo check"),
            String::from("Failed to run cargo test"),
        ]
    );
}

#[test]
fn test_verify_no_unsafe_clean_file() {
    assert!(verify_no_unsafe("fn main() { println!(\"hi\"); }"));
    assert!(verify_no_unsafe("struct S; impl S { fn f(&self) {} }"));
}

#[test]
fn test_verify_no_unsafe_markers() {
    assert!(!verify_no_unsafe("fn main() { unsafe { do_it(); } }"));
    assert!(!verify_no_unsafe("unsafe fn f() {}"));
    assert!(!verify_no_unsafe("unsafe trait T {}"));
}

#[test]
fn test_verify_no_unsafe_parsed_items() {
    // No marker substring matches here (no block, fn or trait keyword right
    // after `unsafe`), so only the parsed item scan can catch it.
    assert!(!verify_no_unsafe("struct Foo;\nunsafe impl Send for Foo {}\n"));
    // Text that is not Rust at all degrades to the marker scan.
    assert!(verify_no_unsafe("this is not rust"));
}

#[test]
fn test_cycle_check() {
    let gate = Verifier::new(".");
    let deps = vec![String::from("a"), String::from("b")];
    assert!(gate.cycle_check("a", &deps));
    assert!(!gate.cycle_check("main", &deps));
    assert!(!gate.cycle_check("main", &Vec::new()));
}
