//! The Coordinator: the fixed sequential pipeline that sends every plan
//! step through coding, testing and review. A step that review rejects is
//! flagged and recorded; it neither blocks nor cancels the steps after it.
//! The role loops themselves are driven by the caller, which hands the
//! per-step review verdicts in.

use vstd::prelude::*;
use vstd::string::*;
use crate::agents::{PlanStep, StepStatus};
use crate::agents::coder::CoderAgent;
use crate::agents::reviewer::ReviewerAgent;
use crate::agents::tester::TesterAgent;

verus! {

/// The Coordinator and its fixed roles.
pub struct CoordinatorAgent {
    pub coder: CoderAgent,
    pub tester: TesterAgent,
    pub reviewer: ReviewerAgent,
}

/// The record of one processed step.
#[derive(Debug, Clone, PartialEq, Eq)]
pub struct StepReport {
    pub step_id: String,
    pub approved: bool,
    pub status: StepStatus,
}

impl CoordinatorAgent {
    pub fn new() -> (r: CoordinatorAgent) {
        CoordinatorAgent { coder: CoderAgent::new(), tester: TesterAgent::new(), reviewer: ReviewerAgent::new() }
    }

    /// Folds the per-step review verdicts into the pipeline's record: every
    /// step is processed, in order; an approved step is done, a rejected
    /// one is flagged failed — and the steps after it are still processed.
    pub fn run_pipeline(&self, steps: &Vec<PlanStep>, approvals: &Vec<bool>) -> (r: Vec<
        StepReport,
    >)
        requires
            approvals@.len() == steps@.len(),
        ensures
            r@.len() == steps@.len(),
            forall|i: int|
                0 <= i < r@.len() ==> {
                    &&& (#[trigger] r@[i]).step_id@ == steps@[i].id@
                    &&& r@[i].approved == approvals@[i]
                    &&& r@[i].status == (if approvals@[i] {
                        StepStatus::Done
                    } else {
                        StepStatus::Failed
                    })
                },
    {
        let n = steps.len();
        let mut out: Vec<StepReport> = Vec::new();
        let mut i: usize = 0;
        while i < n
            invariant
                n == steps@.len(),
                approvals@.len() == steps@.len(),
                i <= n,
                out@.len() == i,
                forall|j: int|
                    0 <= j < i ==> {
                        &&& (#[trigger] out@[j]).step_id@ == steps@[j].id@
                        &&& out@[j].approved == approvals@[j]
                        &&& out@[j].status == (if approvals@[j] {
                            StepStatus::Done
                        } else {
                            StepStatus::Failed
                        })
                    },
            decreases n - i,
        {
            let approved = approvals[i];
            out.push(
                StepReport {
                    step_id: steps[i].id.clone(),
                    approved,
                    status: if approved {
                        StepStatus::Done
                    } else {
                        StepStatus::Failed
                    },
                },
            );
            i += 1;
        }
        out
    }
}

} // verus!
