//! The review role: it judges the Coder's diff for one step and returns
//! an approval. The review reply must conform to a strict schema — a JSON
//! object with a boolean `approved` field; anything else counts as a
//! stalled review, never as a guessed intent.

use vstd::prelude::*;
use vstd::string::*;

verus! {

/// The review role.
pub struct ReviewerAgent;

/// The review role's whole user prompt for one step.
pub open spec fn spec_review_prompt(step_id: Seq<char>, diff: Seq<char>) -> Seq<char> {
    "Review the following diff for step "@ + step_id + ":\n\n"@ + diff
        + "\n\nDoes this code meet quality, security, and performance standards? Reply with strictly JSON containing a 'approved' boolean field and a 'feedback' string."@
}

/// What a review reply carries as its `approved` boolean field: the outer
/// option is whether the text parses as JSON at all, the inner one whether
/// the parsed object has such a field.
pub uninterp spec fn json_approved_of(s: Seq<char>) -> Option<Option<bool>>;

/// Relies on `serde_json::from_str` and `serde_json::Value::get`/`as_bool`
/// to read the `approved` boolean field of a JSON text.
#[verifier::external_body]
fn approved_of_json(msg: &str) -> (r: Option<Option<bool>>)
    ensures
        r == json_approved_of(msg@),
{
    match serde_json::from_str::<serde_json::Value>(msg) {
        Ok(v) => Some(v.get("approved").and_then(|x| x.as_bool())),
        Err(_) => None,
    }
}

/// Why a review yielded no verdict.
#[derive(Debug, Clone, PartialEq, Eq)]
pub enum ReviewError {
    /// The reply did not conform to the review schema.
    Stalled,
}

impl ReviewerAgent {
    pub fn new() -> (r: ReviewerAgent) {
        ReviewerAgent
    }

    /// Builds the user prompt for reviewing one step's diff.
    pub fn review_prompt(step_id: &str, diff: &str) -> (r: String)
        ensures
            r@ == spec_review_prompt(step_id@, diff@),
    {
        let mut out = String::from_str("Review the following diff for step ");
        out.append(step_id);
        out.append(":\n\n");
        out.append(diff);
        out.append(
            "\n\nDoes this code meet quality, security, and performance standards? Reply with strictly JSON containing a 'approved' boolean field and a 'feedback' string.",
        );
        out
    }

    /// Reads the approval out of the review's final answer: exactly a JSON
    /// object with a boolean `approved` field yields a verdict; any other
    /// reply is a stalled review.
    pub fn parse_approval(final_answer: &str) -> (r: Result<bool, ReviewError>)
        ensures
            r is Ok <==> (match json_approved_of(final_answer@) {
                Option::Some(inner) => inner is Some,
                Option::None => false,
            }),
            r is Ok ==> Some(Some(r->Ok_0)) == json_approved_of(final_answer@),
            r is Err ==> r->Err_0 == ReviewError::Stalled,
    {
        match approved_of_json(final_answer) {
            Option::Some(inner) => match inner {
                Option::Some(approved) => Ok(approved),
                Option::None => Err(ReviewError::Stalled),
            },
            Option::None => Err(ReviewError::Stalled),
        }
    }
}

} // verus!
