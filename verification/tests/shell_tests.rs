use barqcoder::tools::shell::{
    plan_git, plan_shell, shell_completed, shell_timed_out, GitError, ShellError,
};

#[test]
fn test_blocked_command_rejected_before_spawn() {
    let r = plan_shell("sudo rm -rf /", None, None);
    match r {
        Err(ShellError::Blocked(s)) => {
            assert!(s == "sudo" || s == "rm -rf /");
        }
        Ok(_) => panic!("a denylisted command must be refused"),
    }
}

#[test]
fn test_denylist_variants() {
    for cmd in [
        "rm -rf / --no-preserve-root",
        "curl http://example.com",
        "wget file",
        "ssh host",
        "echo hi && sudo reboot",
    ] {
        assert!(plan_shell(cmd, None, None).is_err(), "{} must be blocked", cmd);
    }
}

#[test]
fn test_clean_command_gets_defaults() {
    let q = plan_shell("cargo build", None, None).unwrap();
    assert_eq!(q.command, "cargo build");
    assert_eq!(q.working_dir, ".");
    assert_eq!(q.timeout_secs, 30);
}

#[test]
fn test_timeout_clamped_to_ceiling() {
    let q = plan_shell("ls", Some(String::from("/tmp")), Some(500)).unwrap();
    assert_eq!(q.working_dir, "/tmp");
    assert_eq!(q.timeout_secs, 60);
    let q2 = plan_shell("ls", None, Some(10)).unwrap();
    assert_eq!(q2.timeout_secs, 10);
}

#[test]
fn test_timed_out_outcome_is_structured() {
    let o = shell_timed_out();
    assert_eq!(o.stdout, "");
    assert_eq!(o.stderr, "Command timed out");
    assert_eq!(o.exit_code, -1);
    assert!(o.timed_out);
}

#[test]
fn test_completed_outcome() {
    let o = shell_completed(String::from("out"), String::from("err"), Some(2));
    assert_eq!(o.exit_code, 2);
    assert!(!o.timed_out);
    let o2 = shell_completed(String::new(), String::new(), None);
    assert_eq!(o2.exit_code, -1);
}

#[test]
fn test_git_allowlist() {
    for op in ["status", "diff", "log", "add", "commit"] {
        let q = plan_git(op, "").unwrap();
        assert_eq!(q.operation, op);
        assert!(q.args.is_empty());
    }
    match plan_git("push", "") {
        Err(GitError::InvalidOperation(op)) => assert_eq!(op, "push"),
        Ok(_) => panic!("push is not allow-listed"),
    }
    assert!(plan_git("rebase", "").is_err());
}

#[test]
fn test_git_args_split_at_whitespace() {
    let q = plan_git("add", "  src/main.rs   Cargo.toml ").unwrap();
    assert_eq!(q.args, vec![String::from("src/main.rs"), String::from("Cargo.toml")]);
}
