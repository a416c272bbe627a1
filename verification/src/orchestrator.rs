//! The single-agent orchestrator: the bounded tool-calling loop, the system
//! prompt built from retrieved context, the conversation record, the event
//! stream vocabulary, and the command grammar of the interactive front end.
//!
//! The model capability is consumed as plain values: a caller obtains one
//! structured response per turn and hands the sequence to the loop, which
//! decides — within the configured iteration budget — whether the run ends
//! in an answer, a stall, or an exhausted budget.

use vstd::prelude::*;
use vstd::string::*;
use crate::agent::{AgentResponse, Message};
use crate::config::Config;
use crate::strutil::{spec_join, spec_words, join_with, split_words, str_eq, str_starts_with, substring_of};
use crate::tools::{has_tool, ToolRegistry};
use crate::tools::barq_search::BarqResult;

verus! {

/// One event of the orchestrator's live stream.
#[derive(Debug, Clone, PartialEq, Eq)]
pub enum OrchestratorEvent {
    Token(String),
    ToolCall { name: String, args: String },
    ToolResult { name: String, result: String },
    Done(String),
    Error(String),
}

/// The single-agent orchestrator: the registry it advertises, its
/// configuration, and the conversation so far. The model client and the
/// retrieval index are capabilities held by the caller.
pub struct Orchestrator {
    pub tools: ToolRegistry,
    pub config: Config,
    pub conversation: Vec<Message>,
}

/// The fixed opening of the system prompt.
pub open spec fn prompt_prefix() -> Seq<char> {
    "You are BarqCoder, elite Rust/Go coding agent powered by BARQDB semantic search.\n\nCONTEXT FROM BARQDB:\n"@
}

/// The fixed text between the context block and the dependency list.
pub open spec fn prompt_mid() -> Seq<char> {
    "\n\nGRAPH DEPENDENCIES:\n"@
}

/// The fixed operating protocol that closes the system prompt.
pub open spec fn prompt_rules() -> Seq<char> {
    "\n\nRULES:\n1. ALWAYS reference BARQ context before suggesting code\n2. Use tools in this order: barq_search -> edit_file -> cargo_check\n3. NEVER apply edits without running cargo_check after\n4. If cargo_check fails, fix errors before final_answer\n5. Respond ONLY as valid JSON matching this schema:\n{\n  \"reasoning\": \"string (max 5 bullets)\",\n  \"tool_calls\": [{\"name\": \"string\", \"arguments\": {}}],\n  \"final_answer\": \"string | null\"\n}\n6. final_answer ONLY when task is complete and verified"@
}

/// The context block: each retrieved snippet as `path:\n content \n`.
pub open spec fn context_block(rs: Seq<BarqResult>) -> Seq<char>
    decreases rs.len(),
{
    if rs.len() == 0 {
        Seq::empty()
    } else {
        context_block(rs.drop_last()) + rs.last().file_path@ + ":\n"@ + rs.last().content@ + "\n"@
    }
}

/// The whole system prompt over the retrieved snippets and the dependency
/// names.
pub open spec fn spec_system_prompt(rs: Seq<BarqResult>, deps: Seq<Seq<char>>) -> Seq<char> {
    prompt_prefix() + context_block(rs) + prompt_mid() + spec_join(deps, ", "@) + prompt_rules()
}

/// Builds the system prompt of a session's first turn: the retrieved
/// context snippets, the dependency names joined by commas, and the fixed
/// operating protocol.
pub fn build_system_prompt(context: &Vec<BarqResult>, deps: &Vec<String>) -> (r: String)
    ensures
        r@ == spec_system_prompt(context@, deps@.map_values(|d: String| d@)),
{
    let mut ctx = String::new();
    let mut i: usize = 0;
    proof {
        assert(context@.subrange(0, 0) =~= Seq::<BarqResult>::empty());
        assert(ctx@ =~= context_block(context@.subrange(0, 0)));
    }
    let n = context.len();
    while i < n
        invariant
            n == context@.len(),
            i <= n,
            ctx@ == context_block(context@.subrange(0, i as int)),
        decreases n - i,
    {
        ctx.append(context[i].file_path.as_str());
        ctx.append(":\n");
        ctx.append(context[i].content.as_str());
        ctx.append("\n");
        i += 1;
        proof {
            assert(context@.subrange(0, i as int).drop_last() =~= context@.subrange(0, i - 1));
            assert(context@.subrange(0, i as int).last() == context@[i - 1]);
            assert(ctx@ =~= context_block(context@.subrange(0, i as int)));
        }
    }
    proof {
        assert(context@.subrange(0, n as int) =~= context@);
    }
    let deps_str = join_with(deps, ", ");
    let mut out = String::from_str(
        "You are BarqCoder, elite Rust/Go coding agent powered by BARQDB semantic search.\n\nCONTEXT FROM BARQDB:\n",
    );
    out.append(ctx.as_str());
    out.append("\n\nGRAPH DEPENDENCIES:\n");
    out.append(deps_str.as_str());
    out.append(
        "\n\nRULES:\n1. ALWAYS reference BARQ context before suggesting code\n2. Use tools in this order: barq_search -> edit_file -> cargo_check\n3. NEVER apply edits without running cargo_check after\n4. If cargo_check fails, fix errors before final_answer\n5. Respond ONLY as valid JSON matching this schema:\n{\n  \"reasoning\": \"string (max 5 bullets)\",\n  \"tool_calls\": [{\"name\": \"string\", \"arguments\": {}}],\n  \"final_answer\": \"string | null\"\n}\n6. final_answer ONLY when task is complete and verified",
    );
    out
}

impl Orchestrator {
    /// A fresh orchestrator with an empty conversation.
    pub fn new(tools: ToolRegistry, config: Config) -> (r: Orchestrator)
        ensures
            r.tools == tools,
            r.config == config,
            r.conversation@.len() == 0,
    {
        Orchestrator { tools, config, conversation: Vec::new() }
    }

    /// Opens one turn: on the first turn of a session the system message is
    /// seeded, and the user's input is appended; every earlier message stays
    /// untouched.
    pub fn start_turn(&mut self, user_input: &str, system_prompt: String)
        ensures
            old(self).conversation@.len() == 0 ==> {
                &&& final(self).conversation@.len() == 2
                &&& final(self).conversation@[0].role@ == "system"@
                &&& final(self).conversation@[0].content@ == system_prompt@
                &&& final(self).conversation@[1].role@ == "user"@
                &&& final(self).conversation@[1].content@ == user_input@
            },
            old(self).conversation@.len() > 0 ==> {
                &&& final(self).conversation@.len() == old(self).conversation@.len() + 1
                &&& final(self).conversation@.drop_last() == old(self).conversation@
                &&& final(self).conversation@.last().role@ == "user"@
                &&& final(self).conversation@.last().content@ == user_input@
            },
            final(self).tools == old(self).tools,
            final(self).config == old(self).config,
    {
        if self.conversation.len() == 0 {
            self.conversation.push(
                Message {
                    role: String::from_str("system"),
                    content: system_prompt,
                    tool_calls: None,
                    tool_call_id: None,
                },
            );
        }
        let ghost before = self.conversation@;
        self.conversation.push(
            Message {
                role: String::from_str("user"),
                content: user_input.to_owned(),
                tool_calls: None,
                tool_call_id: None,
            },
        );
        proof {
            assert(self.conversation@.drop_last() =~= before);
        }
    }

    /// Clears the conversation, as the `clear` command asks.
    pub fn clear(&mut self)
        ensures
            final(self).conversation@.len() == 0,
            final(self).tools == old(self).tools,
            final(self).config == old(self).config,
    {
        self.conversation.clear();
    }
}

/// How a run of the loop ended.
#[derive(Debug, Clone, PartialEq, Eq)]
pub enum LoopOutcome {
    /// The model emitted a final answer.
    Done(String),
    /// A turn yielded neither tool calls nor a final answer, or the model
    /// capability gave out.
    Stalled,
    /// The configured maximum number of iterations was spent.
    BudgetExceeded,
}

/// The abstract verdict of the loop on a response sequence.
pub enum LoopVerdict {
    Done(Seq<char>),
    Stalled,
    BudgetExceeded,
}

/// What the loop decides on the deterministic response sequence
/// `responses`, starting at turn `i` with budget `max`: the verdict and the
/// number of turns consumed.
pub open spec fn spec_run(responses: Seq<AgentResponse>, max: int, i: int) -> (LoopVerdict, int)
    decreases (if max - i > 0 {
        max - i
    } else {
        0
    }),
{
    if i >= max {
        (LoopVerdict::BudgetExceeded, i)
    } else if i >= responses.len() {
        (LoopVerdict::Stalled, i + 1)
    } else if responses[i].final_answer is Some {
        (LoopVerdict::Done(responses[i].final_answer.unwrap()@), i + 1)
    } else if responses[i].tool_calls@.len() == 0 {
        (LoopVerdict::Stalled, i + 1)
    } else {
        spec_run(responses, max, i + 1)
    }
}

/// The loop's result: how it ended and how many turns it took.
#[derive(Debug, Clone, PartialEq, Eq)]
pub struct LoopRun {
    pub outcome: LoopOutcome,
    pub iterations: usize,
}

impl LoopRun {
    /// The exec outcome carries exactly the abstract verdict.
    pub open spec fn matches(self, verdict: LoopVerdict) -> bool {
        match (self.outcome, verdict) {
            (LoopOutcome::Done(a), LoopVerdict::Done(b)) => a@ == b,
            (LoopOutcome::Stalled, LoopVerdict::Stalled) => true,
            (LoopOutcome::BudgetExceeded, LoopVerdict::BudgetExceeded) => true,
            _ => false,
        }
    }
}

/// Drives the tool-calling loop over a deterministic sequence of model
/// responses: each turn either ends the run (final answer), stalls it
/// (neither tool calls nor an answer, or an exhausted response sequence),
/// or consumes one iteration of the budget. The loop always terminates
/// within the configured maximum iteration count.
pub fn run_loop(responses: &Vec<AgentResponse>, max_iterations: u8) -> (r: LoopRun)
    ensures
        r.matches(spec_run(responses@, max_iterations as int, 0).0),
        r.iterations as int == spec_run(responses@, max_iterations as int, 0).1,
        r.iterations <= max_iterations,
{
    let max = max_iterations as usize;
    let mut i: usize = 0;
    while i < max
        invariant
            max == max_iterations as usize,
            i <= max,
            spec_run(responses@, max as int, 0) == spec_run(responses@, max as int, i as int),
        decreases max - i,
    {
        if i >= responses.len() {
            return LoopRun { outcome: LoopOutcome::Stalled, iterations: i + 1 };
        }
        match &responses[i].final_answer {
            Option::Some(answer) => {
                return LoopRun { outcome: LoopOutcome::Done(answer.clone()), iterations: i + 1 };
            },
            Option::None => {},
        }
        if responses[i].tool_calls.len() == 0 {
            return LoopRun { outcome: LoopOutcome::Stalled, iterations: i + 1 };
        }
        i += 1;
    }
    LoopRun { outcome: LoopOutcome::BudgetExceeded, iterations: max }
}

/// One tool call's dispatch decision: the registry finds the tool, or the
/// name is unknown and the result message must say so.
#[derive(Debug, Clone, PartialEq, Eq)]
pub enum Dispatch {
    Found(String),
    Unknown(String),
}

/// The dispatch decisions on a list of tool calls, in call order.
pub open spec fn spec_dispatches(
    reg: Seq<crate::tools::ToolSpec>,
    calls: Seq<crate::agent::ToolCall>,
) -> Seq<Dispatch>
    decreases calls.len(),
{
    if calls.len() == 0 {
        seq![]
    } else {
        spec_dispatches(reg, calls.drop_last()).push(
            if has_tool(reg, calls.last().name@) {
                Dispatch::Found(calls.last().name)
            } else {
                Dispatch::Unknown(calls.last().name)
            },
        )
    }
}

/// Decides, for each tool call of a response in the order given, whether
/// the registry knows the requested tool. Calls are dispatched one after
/// the other, never fanned out.
pub fn dispatch_decisions(registry: &ToolRegistry, resp: &AgentResponse) -> (r: Vec<Dispatch>)
    ensures
        r@ == spec_dispatches(registry.tools@, resp.tool_calls@),
{
    let n = resp.tool_calls.len();
    let mut out: Vec<Dispatch> = Vec::new();
    let mut i: usize = 0;
    proof {
        assert(out@ =~= spec_dispatches(registry.tools@, resp.tool_calls@.subrange(0, 0)));
    }
    while i < n
        invariant
            n == resp.tool_calls@.len(),
            i <= n,
            out@ == spec_dispatches(registry.tools@, resp.tool_calls@.subrange(0, i as int)),
        decreases n - i,
    {
        let name = resp.tool_calls[i].name.clone();
        let found = match registry.get(name.as_str()) {
            Option::Some(_) => true,
            Option::None => false,
        };
        proof {
            assert(name == resp.tool_calls@[i as int].name);
        }
        if found {
            out.push(Dispatch::Found(name));
        } else {
            out.push(Dispatch::Unknown(name));
        }
        i += 1;
        proof {
            assert(resp.tool_calls@.subrange(0, i as int).drop_last() =~= resp.tool_calls@.subrange(
                0,
                i - 1,
            ));
            assert(resp.tool_calls@.subrange(0, i as int).last() == resp.tool_calls@[i - 1]);
            assert(out@ =~= spec_dispatches(
                registry.tools@,
                resp.tool_calls@.subrange(0, i as int),
            ));
        }
    }
    proof {
        assert(resp.tool_calls@.subrange(0, n as int) =~= resp.tool_calls@);
    }
    out
}

/// One command of the interactive front end.
#[derive(Debug, Clone, PartialEq, Eq)]
pub enum Command {
    /// Empty input: nothing to do.
    Empty,
    /// Populate the retrieval backend for a path.
    Index(String),
    /// Show the configuration.
    ShowConfig,
    /// Reset the conversation of the active session.
    Clear,
    /// Replay the recorded session.
    Replay,
    /// List the available commands.
    Help,
    /// Run the multi-agent pipeline on a goal.
    Goal(String),
    /// Anything else: one turn of the single-agent loop.
    Chat(String),
}

/// The path an `/index` command names: its second word, or `.` when it has
/// none.
pub open spec fn index_path(input: Seq<char>) -> Seq<char> {
    let words = spec_words(input);
    if words.len() > 1 {
        words[1]
    } else {
        "."@
    }
}

/// Parses one line of user input into a command, mirroring the front end's
/// grammar: `/index [path]`, `/config`, `/clear`, `/replay`, `/help`,
/// `/goal <text>`, and free text as a chat turn.
pub fn parse_command(input: &str) -> (r: Command)
    ensures
        input@.len() == 0 ==> r == Command::Empty,
        input@.len() > 0 && crate::strutil::starts_with(input@, "/index"@) ==> (match r {
            Command::Index(p) => p@ == index_path(input@),
            _ => false,
        }),
        input@ == "/config"@ ==> r == Command::ShowConfig,
        input@ == "/clear"@ ==> r == Command::Clear,
        input@ == "/replay"@ ==> r == Command::Replay,
        input@ == "/help"@ ==> r == Command::Help,
        input@.len() > 0 && !crate::strutil::starts_with(input@, "/index"@) && crate::strutil::starts_with(
            input@,
            "/goal "@,
        ) ==> (match r {
            Command::Goal(g) => g@ == input@.subrange(6, input@.len() as int),
            _ => false,
        }),
        input@.len() > 0 && !crate::strutil::starts_with(input@, "/index"@) && input@
            != "/config"@ && input@ != "/clear"@ && input@ != "/replay"@ && input@ != "/help"@
            && !crate::strutil::starts_with(input@, "/goal "@) ==> (match r {
            Command::Chat(t) => t@ == input@,
            _ => false,
        }),
{
    proof {
        reveal_strlit("/index");
        reveal_strlit("/config");
        reveal_strlit("/clear");
        reveal_strlit("/replay");
        reveal_strlit("/help");
        reveal_strlit("/goal ");
        assert("/index"@.len() == 6);
        assert("/config"@.len() == 7);
        assert("/clear"@.len() == 6);
        assert("/replay"@.len() == 7);
        assert("/help"@.len() == 5);
        assert("/goal "@.len() == 6);
        assert("/index"@[1] == 'i');
        assert("/help"@[1] == 'h');
        assert("/config"@[1] == 'c');
        assert("/clear"@[1] == 'c');
        assert("/replay"@[1] == 'r');
        assert("/goal "@[1] == 'g');
        assert("/config"@[2] == 'o');
        assert("/clear"@[2] == 'l');
    }
    if input.unicode_len() == 0 {
        return Command::Empty;
    }
    if str_starts_with(input, "/index") {
        let words = split_words(input);
        let path = if words.len() > 1 {
            words[1].clone()
        } else {
            String::from_str(".")
        };
        proof {
            assert(path@ == index_path(input@));
        }
        return Command::Index(path);
    }
    if str_eq(input, "/config") {
        return Command::ShowConfig;
    }
    if str_eq(input, "/clear") {
        return Command::Clear;
    }
    if str_eq(input, "/replay") {
        return Command::Replay;
    }
    if str_eq(input, "/help") {
        return Command::Help;
    }
    if str_starts_with(input, "/goal ") {
        let rest = substring_of(input, 6, input.unicode_len());
        return Command::Goal(rest);
    }
    Command::Chat(input.to_owned())
}

/// Folds one streamed token into the rendered transcript: a transcript
/// whose last entry is an agent line grows that line, anything else opens a
/// new agent line.
pub fn fold_agent_token(messages: &mut Vec<String>, token: &str)
    ensures
        old(messages)@.len() > 0 && crate::strutil::starts_with(
            old(messages)@.last()@,
            "Agent: "@,
        ) ==> {
            &&& final(messages)@.len() == old(messages)@.len()
            &&& final(messages)@.drop_last() == old(messages)@.drop_last()
            &&& final(messages)@.last()@ == old(messages)@.last()@ + token@
        },
        !(old(messages)@.len() > 0 && crate::strutil::starts_with(
            old(messages)@.last()@,
            "Agent: "@,
        )) ==> {
            &&& final(messages)@.len() == old(messages)@.len() + 1
            &&& final(messages)@.drop_last() == old(messages)@
            &&& final(messages)@.last()@ == "Agent: "@ + token@
        },
{
    let n = messages.len();
    if n > 0 && str_starts_with(messages[n - 1].as_str(), "Agent: ") {
        let mut grown = messages[n - 1].clone();
        grown.append(token);
        messages[n - 1] = grown;
        proof {
            assert(final(messages)@.drop_last() =~= old(messages)@.drop_last());
        }
    } else {
        let mut line = String::from_str("Agent: ");
        line.append(token);
        messages.push(line);
        proof {
            assert(final(messages)@.drop_last() =~= old(messages)@);
        }
    }
}

} // verus!
