use barqcoder::agents::coder::CoderAgent;
use barqcoder::agents::coordinator::CoordinatorAgent;
use barqcoder::agents::reviewer::{ReviewError, ReviewerAgent};
use barqcoder::agents::tester::TesterAgent;
use barqcoder::agents::{role_messages, AgentRole, PlanStep, StepStatus};
use barqcoder::tools::barq_search::BarqResult;

fn step(id: &str, text: &str) -> PlanStep {
    PlanStep {
        id: String::from(id),
        description: String::from(text),
        status: StepStatus::Pending,
    }
}

#[test]
fn test_rejected_step_does_not_block_later_steps() {
    let coordinator = CoordinatorAgent::new();
    let steps = vec![step("1", "parse"), step("2", "store"), step("3", "render")];
    let approvals = vec![true, false, true];
    let reports = coordinator.run_pipeline(&steps, &approvals);
    assert_eq!(reports.len(), 3, "step 3 must still run after step 2 is rejected");
    assert_eq!(reports[0].status, StepStatus::Done);
    assert_eq!(reports[1].status, StepStatus::Failed);
    assert!(!reports[1].approved, "step 2 is recorded as rejected");
    assert_eq!(reports[1].step_id, "2");
    assert_eq!(reports[2].status, StepStatus::Done);
    assert_eq!(reports[2].step_id, "3");
}

#[test]
fn test_system_prompts() {
    assert_eq!(
        AgentRole::Planner.system_prompt(),
        "You are the Planner agent. Your job is to decompose the task into a logical graph of executable steps."
    );
    assert!(AgentRole::Coder.system_prompt().contains("Coder agent"));
    assert!(AgentRole::Tester.system_prompt().contains("Tester agent"));
    assert!(AgentRole::Reviewer.system_prompt().contains("review agent"));
    assert!(AgentRole::Coordinator.system_prompt().contains("Coordinator agent"));
}

#[test]
fn test_role_messages_shape() {
    let msgs = role_messages(AgentRole::Coder, String::from("do the step"));
    assert_eq!(msgs.len(), 2);
    assert_eq!(msgs[0].role, "system");
    assert_eq!(msgs[0].content, AgentRole::Coder.system_prompt());
    assert_eq!(msgs[1].role, "user");
    assert_eq!(msgs[1].content, "do the step");
}

#[test]
fn test_implement_prompt_exact() {
    let context = vec![BarqResult {
        file_path: String::from("src/lib.rs"),
        content: String::from("pub fn f() {}"),
        score_milli: 800,
        line: 3,
    }];
    let prompt = CoderAgent::implement_prompt("s1", "add a getter", &context);
    assert_eq!(
        prompt,
        "Step ID: s1\nDescription: add a getter\n\nContext:\nFile: src/lib.rs\nContent:\npub fn f() {}\n\n\n\nImplement the step using the context provided. Return the final modified source code or state what actions were taken."
    );
}

#[test]
fn test_test_prompt_exact() {
    let prompt = TesterAgent::test_prompt("s1", "added the getter");
    assert_eq!(
        prompt,
        "Step ID: s1\nImplementation Result: added the getter\n\nWrite and run Rust tests to verify this implementation. Return the test results or state what actions were taken."
    );
}

#[test]
fn test_review_prompt_exact() {
    let prompt = ReviewerAgent::review_prompt("s1", "+ fn g() {}");
    assert!(prompt.starts_with("Review the following diff for step s1:\n\n+ fn g() {}\n\n"));
    assert!(prompt.ends_with("'approved' boolean field and a 'feedback' string."));
}

#[test]
fn test_parse_approval_strict_schema() {
    assert_eq!(
        ReviewerAgent::parse_approval("{\"approved\": true, \"feedback\": \"ok\"}"),
        Ok(true)
    );
    assert_eq!(
        ReviewerAgent::parse_approval("{\"approved\": false, \"feedback\": \"no\"}"),
        Ok(false)
    );
    assert_eq!(
        ReviewerAgent::parse_approval("{\"feedback\": \"looks good\"}"),
        Err(ReviewError::Stalled)
    );
    assert_eq!(
        ReviewerAgent::parse_approval("APPROVED! ship it"),
        Err(ReviewError::Stalled)
    );
    assert_eq!(
        ReviewerAgent::parse_approval("{\"approved\": \"yes\"}"),
        Err(ReviewError::Stalled)
    );
}
