//! The verification gate: given the outcomes of the workspace-wide compile
//! check and the test run, a cheap semantic-divergence estimate, and a scan
//! of the patched source for unsafe constructs, it decides whether an edit
//! is kept or reverted. The revert decision rests on the compile and test
//! outcomes alone — score and warnings never block an edit.

use vstd::prelude::*;
use vstd::string::*;
use crate::strutil::{contains_seq, str_contains, str_eq};

verus! {

/// The verification gate of one workspace. The compile and test runs are
/// performed by the caller, which must hold the workspace's build lock for
/// their duration; their outcomes come in as plain values.
pub struct Verifier {
    pub workspace: String,
}

/// The outcome of one attempted subprocess run: whether it could be spawned
/// at all, whether it succeeded, and what it wrote to stderr.
#[derive(Debug, Clone, PartialEq, Eq)]
pub struct CheckRun {
    pub ran: bool,
    pub success: bool,
    pub stderr: String,
}

/// The verification verdict. The score is kept in thousandths, 1000 standing for
/// identical content.
#[derive(Debug, Clone, PartialEq, Eq)]
pub struct VerifyResult {
    pub cargo_check_pass: bool,
    pub cargo_test_pass: bool,
    pub semantic_score_milli: u32,
    pub errors: Vec<String>,
    pub warnings: Vec<String>,
    pub should_revert: bool,
}

/// The source text carries one of the tell-tale unsafe markers.
pub open spec fn unsafe_marker_present(s: Seq<char>) -> bool {
    ||| contains_seq(s, "unsafe {"@)
    ||| contains_seq(s, "unsafe fn"@)
    ||| contains_seq(s, "unsafe trait"@)
}

/// Whether each top-level item of the source carries an `unsafe` qualifier;
/// `None` when the source does not parse as a Rust file.
pub uninterp spec fn item_unsafety_of(s: Seq<char>) -> Option<Seq<bool>>;

/// Relies on `syn::parse_file`: maps each top-level item of the parsed file
/// to whether it is declared `unsafe` (functions, traits and impls; any
/// other item counts as not unsafe), and yields `None` when the source does
/// not parse.
#[verifier::external_body]
fn parse_item_unsafety(content: &str) -> (r: Option<Vec<bool>>)
    ensures
        r is Some <==> item_unsafety_of(content@) is Some,
        r is Some ==> r.unwrap()@ == item_unsafety_of(content@).unwrap(),
{
    let file = match syn::parse_file(content) { Ok(f) => f, Err(_) => return None };
    Some(file.items.iter().map(|it| match it {
        syn::Item::Fn(f) => f.sig.unsafety.is_some(),
        syn::Item::Trait(t) => t.unsafety.is_some(),
        syn::Item::Impl(i) => i.unsafety.is_some(),
        _ => false,
    }).collect())
}

/// The source counts as free of unsafe constructs when no marker substring
/// occurs and no parsed top-level item is declared `unsafe`; source that
/// does not parse is judged by the marker scan alone.
pub open spec fn spec_no_unsafe(s: Seq<char>) -> bool {
    &&& !unsafe_marker_present(s)
    &&& (match item_unsafety_of(s) {
        Option::Some(flags) => !flags.contains(true),
        Option::None => true,
    })
}

/// Scans source text for unsafe constructs, by marker substrings and, when
/// it parses, by the `unsafe` qualifiers of its top-level items.
pub fn verify_no_unsafe(content: &str) -> (r: bool)
    ensures
        r == spec_no_unsafe(content@),
{
    if str_contains(content, "unsafe {") || str_contains(content, "unsafe fn") || str_contains(
        content,
        "unsafe trait",
    ) {
        return false;
    }
    match parse_item_unsafety(content) {
        Option::Some(flags) => {
            let n = flags.len();
            let mut i: usize = 0;
            while i < n
                invariant
                    n == flags@.len(),
                    i <= n,
                    !unsafe_marker_present(content@),
                    item_unsafety_of(content@) == Some(flags@),
                    forall|j: int| 0 <= j < i ==> !flags@[j],
                decreases n - i,
            {
                if flags[i] {
                    proof {
                        assert(flags@.contains(true));
                    }
                    return false;
                }
                i += 1;
            }
            proof {
                if flags@.contains(true) {
                    let k = choose|k: int| 0 <= k < flags@.len() && flags@[k] == true;
                    assert(!flags@[k]);
                }
            }
            true
        },
        Option::None => true,
    }
}

/// The error list the verification step reports: the compile check's, then the test
/// run's, then the unsafe scan's.
pub open spec fn spec_verify_errors(check: CheckRun, test: CheckRun, unsafe_free: bool) -> Seq<
    Seq<char>,
> {
    (if !check.ran {
        seq!["Failed to run cargo check"@]
    } else if !check.success {
        seq![check.stderr@]
    } else {
        seq![]
    }) + (if !test.ran {
        seq!["Failed to run cargo test"@]
    } else if !test.success {
        seq![test.stderr@]
    } else {
        seq![]
    }) + (if !unsafe_free {
        seq!["Unsafe block detected"@]
    } else {
        seq![]
    })
}

impl Verifier {
    /// A gate for one workspace.
    pub fn new(workspace: &str) -> (r: Verifier)
        ensures
            r.workspace@ == workspace@,
    {
        Verifier { workspace: workspace.to_owned() }
    }

    /// The verification decision on one edit, from the outcomes of the compile
    /// check and the test run and from the contents before and after.
    ///
    /// The compile verdict is the check's success, escalated to failure when
    /// the patched source holds unreviewed unsafe constructs. The revert
    /// decision is exactly `!compile || !test`: the semantic score and the
    /// warnings never force a revert, and identical content scores 1000
    /// while any change scores below it.
    pub fn verify_edit(
        &self,
        original: &str,
        patched: &str,
        check: CheckRun,
        test: CheckRun,
    ) -> (r: VerifyResult)
        ensures
            r.cargo_check_pass == (check.ran && check.success && spec_no_unsafe(patched@)),
            r.cargo_test_pass == (test.ran && test.success),
            r.should_revert == (!r.cargo_check_pass || !r.cargo_test_pass),
            r.semantic_score_milli == (if original@ == patched@ {
                1000int
            } else {
                850int
            }),
            r.semantic_score_milli == 1000 <==> original@ == patched@,
            r.errors@.map_values(|e: String| e@) == spec_verify_errors(
                check,
                test,
                spec_no_unsafe(patched@),
            ),
            r.warnings@.len() == 0,
    {
        let mut errors: Vec<String> = Vec::new();
        let check_ran_ok = check.ran && check.success;
        if !check.ran {
            errors.push(String::from_str("Failed to run cargo check"));
        } else if !check.success {
            errors.push(check.stderr);
        }
        let test_pass = test.ran && test.success;
        if !test.ran {
            errors.push(String::from_str("Failed to run cargo test"));
        } else if !test.success {
            errors.push(test.stderr);
        }
        let unsafe_free = verify_no_unsafe(patched);
        if !unsafe_free {
            errors.push(String::from_str("Unsafe block detected"));
        }
        let check_pass = check_ran_ok && unsafe_free;
        let score: u32 = if str_eq(original, patched) {
            1000
        } else {
            850
        };
        proof {
            assert(errors@.map_values(|e: String| e@) =~= spec_verify_errors(
                check,
                test,
                spec_no_unsafe(patched@),
            ));
        }
        VerifyResult {
            cargo_check_pass: check_pass,
            cargo_test_pass: test_pass,
            semantic_score_milli: score,
            errors,
            warnings: Vec::new(),
            should_revert: !check_pass || !test_pass,
        }
    }

    /// A symbol depends on itself when its own name occurs among its
    /// transitive dependency names, as handed back by the graph capability.
    pub fn cycle_check(&self, symbol: &str, deps: &Vec<String>) -> (r: bool)
        ensures
            r == exists|j: int| 0 <= j < deps@.len() && (#[trigger] deps@[j])@ == symbol@,
    {
        let n = deps.len();
        let mut i: usize = 0;
        while i < n
            invariant
                n == deps@.len(),
                i <= n,
                forall|j: int| 0 <= j < i ==> (#[trigger] deps@[j])@ != symbol@,
            decreases n - i,
        {
            if str_eq(deps[i].as_str(), symbol) {
                return true;
            }
            i += 1;
        }
        false
    }
}

} // verus!
