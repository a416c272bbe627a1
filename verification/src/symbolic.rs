//! The static-diagnostic rules and the decisions behind the per-rule
//! checks: how many unsafe blocks, loops and clone calls a source file
//! carries is counted by the caller; the thresholds and the wording of the
//! diagnostics live here.

use vstd::prelude::*;
use vstd::string::*;
use crate::strutil::{dec_digits, usize_to_string};

verus! {

/// One static-diagnostic rule: an identifier, what it flags, and its
/// severity.
#[derive(Debug, Clone, PartialEq, Eq)]
pub struct DiagnosticRule {
    pub id: String,
    pub description: String,
    pub severity: String,
}

/// The battery of static-diagnostic rules, in evaluation order: unreviewed
/// unsafe blocks, quadratic nested loops, and clones inside loops.
pub fn load_rules() -> (r: Vec<DiagnosticRule>)
    ensures
        r@.len() == 3,
        r@[0].id@ == "UNSAFE_BLOCK"@,
        r@[0].description@ == "Unsafe block detected and requires manual review"@,
        r@[0].severity@ == "warn"@,
        r@[1].id@ == "O_N_SQUARED"@,
        r@[1].description@ == "Nested loop detected causing potential O(n^2) perf"@,
        r@[1].severity@ == "warn"@,
        r@[2].id@ == "CLONE_IN_LOOP"@,
        r@[2].description@ == ".clone() called inside a loop"@,
        r@[2].severity@ == "error"@,
{
    let mut rules: Vec<DiagnosticRule> = Vec::new();
    rules.push(
        DiagnosticRule {
            id: String::from_str("UNSAFE_BLOCK"),
            description: String::from_str("Unsafe block detected and requires manual review"),
            severity: String::from_str("warn"),
        },
    );
    rules.push(
        DiagnosticRule {
            id: String::from_str("O_N_SQUARED"),
            description: String::from_str("Nested loop detected causing potential O(n^2) perf"),
            severity: String::from_str("warn"),
        },
    );
    rules.push(
        DiagnosticRule {
            id: String::from_str("CLONE_IN_LOOP"),
            description: String::from_str(".clone() called inside a loop"),
            severity: String::from_str("error"),
        },
    );
    rules
}

/// The diagnostic the unsafe check emits for a file with `unsafe_blocks`
/// unsafe blocks: one message naming the count, or nothing.
pub open spec fn spec_unsafe_diags(unsafe_blocks: nat) -> Seq<Seq<char>> {
    if unsafe_blocks > 0 {
        seq![
            "Found "@ + dec_digits(unsafe_blocks) + " unsafe blocks. Please ensure they are necessary."@,
        ]
    } else {
        seq![]
    }
}

/// The unsafe-construct check: any unsafe block found in a file yields one
/// diagnostic naming how many.
pub fn check_unsafe(unsafe_blocks: usize) -> (r: Vec<String>)
    ensures
        r@.map_values(|d: String| d@) == spec_unsafe_diags(unsafe_blocks as nat),
{
    let mut out: Vec<String> = Vec::new();
    if unsafe_blocks > 0 {
        let mut msg = String::from_str("Found ");
        let count = usize_to_string(unsafe_blocks);
        msg.append(count.as_str());
        msg.append(" unsafe blocks. Please ensure they are necessary.");
        out.push(msg);
        proof {
            assert(out@.map_values(|d: String| d@) =~= spec_unsafe_diags(unsafe_blocks as nat));
        }
    } else {
        proof {
            assert(out@.map_values(|d: String| d@) =~= spec_unsafe_diags(unsafe_blocks as nat));
        }
    }
    out
}

/// The hint the borrow analysis emits for a file with `clones` clone
/// calls: one message naming the count once it passes the threshold of two.
pub open spec fn spec_borrow_hints(clones: nat) -> Seq<Seq<char>> {
    if clones > 2 {
        seq![
            "Detected "@ + dec_digits(clones)
                + " .clone() calls. Consider passing by reference instead."@,
        ]
    } else {
        seq![]
    }
}

/// The borrow analysis: more than two clone calls in one file yield a hint
/// to pass by reference instead.
pub fn analyze_borrows(clones: usize) -> (r: Vec<String>)
    ensures
        r@.map_values(|d: String| d@) == spec_borrow_hints(clones as nat),
{
    let mut out: Vec<String> = Vec::new();
    if clones > 2 {
        let mut msg = String::from_str("Detected ");
        let count = usize_to_string(clones);
        msg.append(count.as_str());
        msg.append(" .clone() calls. Consider passing by reference instead.");
        out.push(msg);
        proof {
            assert(out@.map_values(|d: String| d@) =~= spec_borrow_hints(clones as nat));
        }
    } else {
        proof {
            assert(out@.map_values(|d: String| d@) =~= spec_borrow_hints(clones as nat));
        }
    }
    out
}

/// The warning the performance lint emits for a file with `loops` loops and
/// `clones` clone calls: clones beside loops draw attention, once each.
pub open spec fn spec_perf_warnings(loops: nat, clones: nat) -> Seq<Seq<char>> {
    if loops > 0 && clones > 0 {
        seq![
            "Detected clones being performed, and loops exist. Ensure clone is not inside an inner loop."@,
        ]
    } else {
        seq![]
    }
}

/// The performance lint: clone calls in a file that also holds loops yield
/// one warning.
pub fn lint_perf(loops: usize, clones: usize) -> (r: Vec<String>)
    ensures
        r@.map_values(|d: String| d@) == spec_perf_warnings(loops as nat, clones as nat),
{
    let mut out: Vec<String> = Vec::new();
    if loops > 0 && clones > 0 {
        out.push(
            String::from_str(
                "Detected clones being performed, and loops exist. Ensure clone is not inside an inner loop.",
            ),
        );
        proof {
            assert(out@.map_values(|d: String| d@) =~= spec_perf_warnings(
                loops as nat,
                clones as nat,
            ));
        }
    } else {
        proof {
            assert(out@.map_values(|d: String| d@) =~= spec_perf_warnings(
                loops as nat,
                clones as nat,
            ));
        }
    }
    out
}

} // verus!
