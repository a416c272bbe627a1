//! The Tester role: it verifies the Coder's result for one step with its
//! own tool-calling loop. The prompt text is decided here; the loop is
//! driven by the caller.

use vstd::prelude::*;
use vstd::string::*;

verus! {

/// The Tester role.
pub struct TesterAgent;

/// The Tester's whole user prompt for one step.
pub open spec fn spec_test_prompt(step_id: Seq<char>, impl_result: Seq<char>) -> Seq<char> {
    "Step ID: "@ + step_id + "\nImplementation Result: "@ + impl_result
        + "\n\nWrite and run Rust tests to verify this implementation. Return the test results or state what actions were taken."@
}

impl TesterAgent {
    pub fn new() -> (r: TesterAgent) {
        TesterAgent
    }

    /// Builds the user prompt for testing one step from its id and the
    /// Coder's result.
    pub fn test_prompt(step_id: &str, impl_result: &str) -> (r: String)
        ensures
            r@ == spec_test_prompt(step_id@, impl_result@),
    {
        let mut out = String::from_str("Step ID: ");
        out.append(step_id);
        out.append("\nImplementation Result: ");
        out.append(impl_result);
        out.append(
            "\n\nWrite and run Rust tests to verify this implementation. Return the test results or state what actions were taken.",
        );
        out
    }
}

} // verus!
