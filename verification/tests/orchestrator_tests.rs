use barqcoder::agent::{collect_final_answers, parse_response, AgentResponse, ToolCall};
use barqcoder::config::Config;
use barqcoder::orchestrator::{
    build_system_prompt, dispatch_decisions, fold_agent_token, parse_command, run_loop, Command,
    Dispatch, LoopOutcome, Orchestrator,
};
use barqcoder::tools::barq_search::BarqResult;
use barqcoder::tools::ToolRegistry;

fn tool_call(name: &str) -> ToolCall {
    ToolCall {
        id: String::from("call_1"),
        name: String::from(name),
        arguments: String::from("{}"),
    }
}

fn busy_response() -> AgentResponse {
    AgentResponse {
        reasoning: String::from("keep going"),
        tool_calls: vec![tool_call("cargo_check")],
        final_answer: None,
    }
}

#[test]
fn test_max_iterations() {
    // A model that keeps calling tools and never answers must stop at the
    // configured budget, not loop forever.
    let responses = vec![busy_response(); 20];
    let run = run_loop(&responses, 5);
    assert_eq!(run.outcome, LoopOutcome::BudgetExceeded);
    assert_eq!(run.iterations, 5);
    assert!(run.iterations <= 5);
}

#[test]
fn test_final_answer() {
    let mut responses = vec![busy_response(), busy_response()];
    responses.push(AgentResponse {
        reasoning: String::from("done"),
        tool_calls: Vec::new(),
        final_answer: Some(String::from("I am ready to help.")),
    });
    let run = run_loop(&responses, 5);
    assert_eq!(run.outcome, LoopOutcome::Done(String::from("I am ready to help.")));
    assert_eq!(run.iterations, 3);
}

#[test]
fn test_stall_is_an_error_not_a_wait() {
    let responses = vec![AgentResponse {
        reasoning: String::from("..."),
        tool_calls: Vec::new(),
        final_answer: None,
    }];
    let run = run_loop(&responses, 5);
    assert_eq!(run.outcome, LoopOutcome::Stalled);
    assert_eq!(run.iterations, 1);
}

#[test]
fn test_exhausted_script_stalls() {
    let run = run_loop(&Vec::new(), 4);
    assert_eq!(run.outcome, LoopOutcome::Stalled);
}

#[test]
fn test_parse_response_structured() {
    let raw = "{\"reasoning\": \"ok\", \"tool_calls\": [{\"id\": \"c1\", \"name\": \"shell_exec\", \"arguments\": {\"command\": \"ls\"}}], \"final_answer\": null}";
    let resp = parse_response(raw);
    assert_eq!(resp.reasoning, "ok");
    assert_eq!(resp.tool_calls.len(), 1);
    assert_eq!(resp.tool_calls[0].id, "c1");
    assert_eq!(resp.tool_calls[0].name, "shell_exec");
    assert!(resp.final_answer.is_none());
}

#[test]
fn test_parse_response_final_answer() {
    let resp = parse_response("{\"reasoning\": \"ok\", \"final_answer\": \"done\"}");
    assert_eq!(resp.final_answer.as_deref(), Some("done"));
    assert!(resp.tool_calls.is_empty());
}

#[test]
fn test_parse_response_malformed_becomes_stall() {
    let resp = parse_response("not json at all");
    assert_eq!(resp.reasoning, "not json at all");
    assert!(resp.tool_calls.is_empty());
    assert!(resp.final_answer.is_none());
    // Missing required field: also not a protocol reply.
    let resp2 = parse_response("{\"final_answer\": \"x\"}");
    assert_eq!(resp2.reasoning, "{\"final_answer\": \"x\"}");
    assert!(resp2.final_answer.is_none());
}

#[test]
fn test_collect_final_answers() {
    let chunks = vec![
        String::from("{\"reasoning\": \"a\", \"final_answer\": \"Hello \"}"),
        String::from("{\"reasoning\": \"b\"}"),
        String::from("raw tail"),
    ];
    assert_eq!(collect_final_answers(&chunks), "Hello raw tail");
}

#[test]
fn test_build_system_prompt_exact() {
    let context = vec![BarqResult {
        file_path: String::from("src/a.rs"),
        content: String::from("fn a() {}"),
        score_milli: 900,
        line: 1,
    }];
    let deps = vec![String::from("serde"), String::from("tokio")];
    let prompt = build_system_prompt(&context, &deps);
    assert!(prompt.starts_with(
        "You are BarqCoder, elite Rust/Go coding agent powered by BARQDB semantic search.\n\nCONTEXT FROM BARQDB:\nsrc/a.rs:\nfn a() {}\n\n\nGRAPH DEPENDENCIES:\nserde, tokio\n\nRULES:\n"
    ));
    assert!(prompt.ends_with("6. final_answer ONLY when task is complete and verified"));
}

#[test]
fn test_start_turn_seeds_system_message_once() {
    let mut orch = Orchestrator::new(ToolRegistry::new(), Config::default());
    orch.start_turn("hello", String::from("SYSTEM"));
    assert_eq!(orch.conversation.len(), 2);
    assert_eq!(orch.conversation[0].role, "system");
    assert_eq!(orch.conversation[0].content, "SYSTEM");
    assert_eq!(orch.conversation[1].role, "user");
    assert_eq!(orch.conversation[1].content, "hello");
    orch.start_turn("again", String::from("IGNORED"));
    assert_eq!(orch.conversation.len(), 3);
    assert_eq!(orch.conversation[2].content, "again");
    orch.clear();
    assert!(orch.conversation.is_empty());
}

#[test]
fn test_dispatch_decisions() {
    let registry = ToolRegistry::new();
    let resp = AgentResponse {
        reasoning: String::from("r"),
        tool_calls: vec![tool_call("cargo_check"), tool_call("unknown_tool")],
        final_answer: None,
    };
    let dispatches = dispatch_decisions(&registry, &resp);
    assert_eq!(
        dispatches,
        vec![
            Dispatch::Found(String::from("cargo_check")),
            Dispatch::Unknown(String::from("unknown_tool")),
        ]
    );
}

#[test]
fn test_parse_command_grammar() {
    assert_eq!(parse_command(""), Command::Empty);
    assert_eq!(parse_command("/config"), Command::ShowConfig);
    assert_eq!(parse_command("/clear"), Command::Clear);
    assert_eq!(parse_command("/replay"), Command::Replay);
    assert_eq!(parse_command("/help"), Command::Help);
    assert_eq!(parse_command("/index src"), Command::Index(String::from("src")));
    assert_eq!(parse_command("/index"), Command::Index(String::from(".")));
    assert_eq!(
        parse_command("/goal add error handling"),
        Command::Goal(String::from("add error handling"))
    );
    assert_eq!(
        parse_command("what does main do?"),
        Command::Chat(String::from("what does main do?"))
    );
}

#[test]
fn test_fold_agent_token() {
    let mut messages = vec![String::from("You: hi")];
    fold_agent_token(&mut messages, "Hel");
    assert_eq!(messages, vec![String::from("You: hi"), String::from("Agent: Hel")]);
    fold_agent_token(&mut messages, "lo");
    assert_eq!(messages, vec![String::from("You: hi"), String::from("Agent: Hello")]);
}
