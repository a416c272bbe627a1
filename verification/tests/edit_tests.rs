use barqcoder::tools::edit_file::{gate_edit, preview_edit};

#[test]
fn test_edit_file_preview() {
    let patch = "--- a/sample.rs\n+++ b/sample.rs\n@@ -1,1 +1,1 @@\n-fn main() {}\n+fn main() { println!(\"preview\"); }\n";
    let report = preview_edit(patch);
    assert!(report.success);
    assert!(!report.applied);
    assert!(!report.reverted);
    assert!(report.errors.is_empty());
    assert_eq!(report.diff.as_deref(), Some(patch));
}

#[test]
fn test_failed_check_restores_original_bytes() {
    let original = String::from("fn main() {}\n// exact bytes \u{1F980}\n");
    let patched = String::from("fn main() { broken\n");
    let (content, report) = gate_edit(
        original.clone(),
        Ok(patched),
        false,
        String::from("error[E0308]"),
    );
    assert_eq!(content, original, "the pre-patch bytes must come back exactly");
    assert!(!report.success);
    assert!(!report.applied);
    assert!(report.reverted);
    assert_eq!(report.errors, vec![String::from("error[E0308]")]);
}

#[test]
fn test_passing_check_keeps_patched_content() {
    let original = String::from("fn main() {}\n");
    let patched = String::from("fn main() { run(); }\n");
    let (content, report) = gate_edit(original, Ok(patched.clone()), true, String::new());
    assert_eq!(content, patched);
    assert!(report.success);
    assert!(report.applied);
    assert!(!report.reverted);
    assert!(report.errors.is_empty());
}

#[test]
fn test_failed_patch_leaves_original() {
    let original = String::from("fn main() {}\n");
    let (content, report) = gate_edit(
        original.clone(),
        Err(String::from("hunk #1 FAILED")),
        true,
        String::new(),
    );
    assert_eq!(content, original);
    assert!(!report.success);
    assert!(!report.applied);
    assert!(!report.reverted);
    assert_eq!(report.errors, vec![String::from("hunk #1 FAILED")]);
}
