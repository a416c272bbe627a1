//! The multi-agent pipeline: the four fixed roles with their system
//! prompts, the plan steps the Planner produces, and the sequential
//! coder–tester–review pipeline in which a rejected step is recorded and
//! the remaining steps still run.

pub mod coder;
pub mod coordinator;
pub mod reviewer;
pub mod tester;

use vstd::prelude::*;
use vstd::string::*;
use crate::agent::Message;

verus! {

/// One LLM-driven role of the pipeline.
#[derive(Debug, Clone, Copy, PartialEq, Eq)]
pub enum AgentRole {
    Planner,
    Coder,
    Tester,
    Reviewer,
    Coordinator,
}

/// The fixed system prompt of a role.
pub open spec fn spec_system_prompt(role: AgentRole) -> Seq<char> {
    match role {
        AgentRole::Planner => "You are the Planner agent. Your job is to decompose the task into a logical graph of executable steps."@,
        AgentRole::Coder => "You are the Coder agent. Your job is to implement the specific step using the BARQ context provided."@,
        AgentRole::Tester => "You are the Tester agent. Your job is to write and run tests to verify the Coder's implementation."@,
        AgentRole::Reviewer => "You are the review agent. Your job is to judge the code diffs for correctness, performance, and security before they are applied."@,
        AgentRole::Coordinator => "You are the Coordinator agent. Your job is to route tasks between agents and merge their results."@,
    }
}

impl AgentRole {
    /// The role's fixed system prompt.
    pub fn system_prompt(&self) -> (r: &'static str)
        ensures
            r@ == spec_system_prompt(*self),
    {
        match self {
            AgentRole::Planner => "You are the Planner agent. Your job is to decompose the task into a logical graph of executable steps.",
            AgentRole::Coder => "You are the Coder agent. Your job is to implement the specific step using the BARQ context provided.",
            AgentRole::Tester => "You are the Tester agent. Your job is to write and run tests to verify the Coder's implementation.",
            AgentRole::Reviewer => "You are the review agent. Your job is to judge the code diffs for correctness, performance, and security before they are applied.",
            AgentRole::Coordinator => "You are the Coordinator agent. Your job is to route tasks between agents and merge their results.",
        }
    }
}

/// Where one plan step stands.
#[derive(Debug, Clone, Copy, PartialEq, Eq)]
pub enum StepStatus {
    Pending,
    InProgress,
    Done,
    Failed,
}

/// One unit of the Planner's decomposition of a goal. Steps execute in
/// listed order; there is no DAG scheduling.
#[derive(Debug, Clone, PartialEq, Eq)]
pub struct PlanStep {
    pub id: String,
    pub description: String,
    pub status: StepStatus,
}

/// The two-message conversation every role loop starts from: the role's
/// system prompt, then the user prompt.
pub fn role_messages(role: AgentRole, user_prompt: String) -> (r: Vec<Message>)
    ensures
        r@.len() == 2,
        r@[0].role@ == "system"@,
        r@[0].content@ == spec_system_prompt(role),
        r@[1].role@ == "user"@,
        r@[1].content@ == user_prompt@,
{
    let mut msgs: Vec<Message> = Vec::new();
    msgs.push(
        Message {
            role: String::from_str("system"),
            content: String::from_str(role.system_prompt()),
            tool_calls: None,
            tool_call_id: None,
        },
    );
    msgs.push(
        Message {
            role: String::from_str("user"),
            content: user_prompt,
            tool_calls: None,
            tool_call_id: None,
        },
    );
    msgs
}

} // verus!
