//! The Coder role: it implements one plan step, prompted with the step and
//! the context retrieved for its description. The model transport and the
//! retrieval backend are capabilities driven by the caller; the prompt text
//! and the folding of the finished stream are decided here.

use vstd::prelude::*;
use vstd::string::*;
use crate::tools::barq_search::BarqResult;

verus! {

/// The Coder role.
pub struct CoderAgent;

/// The context block of the Coder's prompt: each retrieved snippet as
/// `File: path` and its content.
pub open spec fn coder_context_block(rs: Seq<BarqResult>) -> Seq<char>
    decreases rs.len(),
{
    if rs.len() == 0 {
        Seq::empty()
    } else {
        coder_context_block(rs.drop_last()) + "File: "@ + rs.last().file_path@ + "\nContent:\n"@
            + rs.last().content@ + "\n\n"@
    }
}

/// The Coder's whole user prompt for one step.
pub open spec fn spec_implement_prompt(
    step_id: Seq<char>,
    description: Seq<char>,
    rs: Seq<BarqResult>,
) -> Seq<char> {
    "Step ID: "@ + step_id + "\nDescription: "@ + description + "\n\nContext:\n"@
        + coder_context_block(rs)
        + "\n\nImplement the step using the context provided. Return the final modified source code or state what actions were taken."@
}

impl CoderAgent {
    pub fn new() -> (r: CoderAgent) {
        CoderAgent
    }

    /// Builds the user prompt for implementing one step from its id, its
    /// description, and the context retrieved for that description.
    pub fn implement_prompt(step_id: &str, description: &str, context: &Vec<BarqResult>) -> (r:
        String)
        ensures
            r@ == spec_implement_prompt(step_id@, description@, context@),
    {
        let mut ctx = String::new();
        let mut i: usize = 0;
        proof {
            assert(context@.subrange(0, 0) =~= Seq::<BarqResult>::empty());
            assert(ctx@ =~= coder_context_block(context@.subrange(0, 0)));
        }
        let n = context.len();
        while i < n
            invariant
                n == context@.len(),
                i <= n,
                ctx@ == coder_context_block(context@.subrange(0, i as int)),
            decreases n - i,
        {
            ctx.append("File: ");
            ctx.append(context[i].file_path.as_str());
            ctx.append("\nContent:\n");
            ctx.append(context[i].content.as_str());
            ctx.append("\n\n");
            i += 1;
            proof {
                assert(context@.subrange(0, i as int).drop_last() =~= context@.subrange(0, i - 1));
                assert(context@.subrange(0, i as int).last() == context@[i - 1]);
                assert(ctx@ =~= coder_context_block(context@.subrange(0, i as int)));
            }
        }
        proof {
            assert(context@.subrange(0, n as int) =~= context@);
        }
        let mut out = String::from_str("Step ID: ");
        out.append(step_id);
        out.append("\nDescription: ");
        out.append(description);
        out.append("\n\nContext:\n");
        out.append(ctx.as_str());
        out.append(
            "\n\nImplement the step using the context provided. Return the final modified source code or state what actions were taken.",
        );
        out
    }
}

} // verus!
