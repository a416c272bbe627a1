//! Messages exchanged with the language-model capability, and the parsing of
//! its replies into structured responses.
//!
//! The model is consumed, never implemented, here: a caller obtains the raw
//! reply text elsewhere and hands it to [`parse_response`]. A reply that does
//! not decode as the response protocol degrades to a bare reasoning text with
//! no tool calls and no final answer, which the orchestrator then treats as a
//! stall.

use vstd::prelude::*;
use vstd::string::*;

verus! {

/// One turn of a conversation, replayed verbatim to the model each turn.
#[derive(Debug, Clone, PartialEq, Eq)]
pub struct Message {
    pub role: String,
    pub content: String,
    pub tool_calls: Option<Vec<ToolCall>>,
    pub tool_call_id: Option<String>,
}

/// One requested tool invocation; `id` correlates the call to its eventual
/// tool-result message. `arguments` carries the argument object as JSON text.
#[derive(Debug, Clone, PartialEq, Eq)]
pub struct ToolCall {
    pub id: String,
    pub name: String,
    pub arguments: String,
}

/// The model's structured reply: free-form reasoning, requested tool calls
/// in order, and possibly a final answer that ends the loop.
#[derive(Debug, Clone, PartialEq, Eq)]
pub struct AgentResponse {
    pub reasoning: String,
    pub tool_calls: Vec<ToolCall>,
    pub final_answer: Option<String>,
}

impl ToolCall {
    pub open spec fn model(self) -> (Seq<char>, Seq<char>, Seq<char>) {
        (self.id@, self.name@, self.arguments@)
    }
}

impl AgentResponse {
    pub open spec fn model(self) -> (
        Seq<char>,
        Seq<(Seq<char>, Seq<char>, Seq<char>)>,
        Option<Seq<char>>,
    ) {
        (
            self.reasoning@,
            self.tool_calls@.map_values(|c: ToolCall| c.model()),
            match self.final_answer {
                Option::Some(a) => Some(a@),
                Option::None => None,
            },
        )
    }

    /// Neither tool calls nor a final answer: the loop must treat this as an
    /// error, not wait forever.
    pub open spec fn is_stall(self) -> bool {
        self.final_answer is None && self.tool_calls@.len() == 0
    }
}

/// What the response protocol's JSON decoding yields on a given reply text:
/// the reasoning, the tool calls as (id, name, arguments-as-JSON-text), and
/// the final answer. `None` when the text is not a protocol reply.
pub uninterp spec fn decoded_response_of(s: Seq<char>) -> Option<
    (Seq<char>, Seq<(Seq<char>, Seq<char>, Seq<char>)>, Option<Seq<char>>),
>;

/// Relies on `serde_json::from_str` to decode the model's JSON reply, and on
/// `serde_json::Value`'s accessors to pick out the protocol's fields:
/// `reasoning` (required string), `tool_calls` (optional list whose entries
/// must carry string `id` and `name`; `arguments` re-serializes as JSON
/// text, a missing one as `null`), `final_answer` (optional string).
#[verifier::external_body]
fn decode_response(raw: &str) -> (r: Option<AgentResponse>)
    ensures
        r is Some <==> decoded_response_of(raw@) is Some,
        r is Some ==> r.unwrap().model() == decoded_response_of(raw@).unwrap(),
{
    let v: serde_json::Value = match serde_json::from_str(raw) { Ok(v) => v, Err(_) => return None };
    let reasoning = match v["reasoning"].as_str() { Some(s) => s.to_string(), None => return None };
    let mut tool_calls = Vec::new();
    for c in v["tool_calls"].as_array().unwrap_or(&Vec::new()) {
        match (c["id"].as_str(), c["name"].as_str()) {
            (Some(i), Some(n)) => tool_calls.push(ToolCall { id: i.to_string(), name: n.to_string(), arguments: c["arguments"].to_string() }),
            _ => return None,
        }
    }
    let final_answer = v["final_answer"].as_str().map(|s| s.to_string());
    Some(AgentResponse { reasoning, tool_calls, final_answer })
}

/// Parses the model's raw reply. Unparsable output is tolerated: the raw
/// text becomes the reasoning, with no tool calls and no final answer, which
/// forces the orchestrator into its stall handling.
pub fn parse_response(raw: &str) -> (r: AgentResponse)
    ensures
        decoded_response_of(raw@) is Some ==> r.model() == decoded_response_of(raw@).unwrap(),
        decoded_response_of(raw@) is None ==> r.reasoning@ == raw@ && r.tool_calls@.len() == 0
            && r.final_answer is None,
{
    match decode_response(raw) {
        Option::Some(resp) => resp,
        Option::None => AgentResponse {
            reasoning: raw.to_owned(),
            tool_calls: Vec::new(),
            final_answer: None,
        },
    }
}

/// What a JSON text carries as its `final_answer` string field: the outer
/// option is whether the text parses as JSON at all, the inner one whether
/// the parsed object has such a field.
pub uninterp spec fn json_final_answer_of(s: Seq<char>) -> Option<Option<Seq<char>>>;

/// Relies on `serde_json::from_str` and `serde_json::Value::get`/`as_str` to
/// read the `final_answer` string field of a JSON text.
#[verifier::external_body]
fn final_answer_of_json(msg: &str) -> (r: Option<Option<String>>)
    ensures
        r is Some <==> json_final_answer_of(msg@) is Some,
        r is Some ==> (r.unwrap() is Some <==> json_final_answer_of(msg@).unwrap() is Some),
        r is Some && r.unwrap() is Some ==> r.unwrap().unwrap()@ == json_final_answer_of(
            msg@,
        ).unwrap().unwrap(),
{
    match serde_json::from_str::<serde_json::Value>(msg) {
        Ok(v) => Some(v.get("final_answer").and_then(|x| x.as_str()).map(|s| s.to_string())),
        Err(_) => None,
    }
}

/// What one streamed chunk contributes to the collected answer: its
/// `final_answer` field when it is a JSON object carrying one, nothing when
/// it is JSON without one, and the raw text when it is not JSON.
pub open spec fn chunk_text(c: Seq<char>) -> Seq<char> {
    match json_final_answer_of(c) {
        Option::Some(inner) => match inner {
            Option::Some(ans) => ans,
            Option::None => Seq::empty(),
        },
        Option::None => c,
    }
}

/// The concatenation of every chunk's contribution, in order.
pub open spec fn spec_collected(chunks: Seq<Seq<char>>) -> Seq<char>
    decreases chunks.len(),
{
    if chunks.len() == 0 {
        Seq::empty()
    } else {
        spec_collected(chunks.drop_last()) + chunk_text(chunks.last())
    }
}

/// Folds a finished response stream into one answer text, as the agents do:
/// each chunk contributes its `final_answer` field, or its raw text when it
/// is not JSON.
pub fn collect_final_answers(chunks: &Vec<String>) -> (r: String)
    ensures
        r@ == spec_collected(chunks@.map_values(|c: String| c@)),
{
    let ghost views = chunks@.map_values(|c: String| c@);
    let mut out = String::new();
    let mut i: usize = 0;
    proof {
        assert(views.subrange(0, 0) =~= Seq::<Seq<char>>::empty());
    }
    while i < chunks.len()
        invariant
            views == chunks@.map_values(|c: String| c@),
            i <= chunks@.len(),
            out@ == spec_collected(views.subrange(0, i as int)),
        decreases chunks@.len() - i,
    {
        match final_answer_of_json(chunks[i].as_str()) {
            Option::Some(inner) => match inner {
                Option::Some(ans) => {
                    out.append(ans.as_str());
                },
                Option::None => {},
            },
            Option::None => {
                out.append(chunks[i].as_str());
            },
        }
        i += 1;
        proof {
            assert(views.subrange(0, i as int).drop_last() =~= views.subrange(0, i - 1));
            assert(views.subrange(0, i as int).last() == views[i - 1]);
            assert(out@ =~= spec_collected(views.subrange(0, i as int)));
        }
    }
    proof {
        assert(views.subrange(0, views.len() as int) =~= views);
    }
    out
}

} // verus!
