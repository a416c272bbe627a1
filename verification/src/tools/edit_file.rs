//! The patch-apply tool: its advertisement and the verification-gated edit
//! protocol. The protocol decides, from the outcome of the patch step and of
//! the post-apply compile check, what the target file must hold when the
//! call returns; preview mode never yields a content change, and a failed
//! post-apply check restores the original bytes exactly.

use vstd::prelude::*;
use vstd::string::*;
use crate::tools::Tool;

verus! {

/// Applies a unified diff to one file, gated by a compile check.
pub struct EditFile;

impl Tool for EditFile {
    open spec fn tool_name(&self) -> Seq<char> {
        "edit_file"@
    }

    open spec fn tool_description(&self) -> Seq<char> {
        "Apply a unified diff patch to a file"@
    }

    open spec fn tool_schema(&self) -> Seq<char> {
        "{\"file_path\":\"string\",\"patch\":\"string\",\"preview\":\"bool\"}"@
    }

    fn name(&self) -> (r: String) {
        String::from_str("edit_file")
    }

    fn description(&self) -> (r: String) {
        String::from_str("Apply a unified diff patch to a file")
    }

    fn schema(&self) -> (r: String) {
        String::from_str("{\"file_path\":\"string\",\"patch\":\"string\",\"preview\":\"bool\"}")
    }
}

/// The report of one edit attempt.
#[derive(Debug, Clone, PartialEq, Eq)]
pub struct EditReport {
    pub success: bool,
    pub applied: bool,
    pub reverted: bool,
    pub errors: Vec<String>,
    pub diff: Option<String>,
}

/// Preview mode: the requested diff is echoed back and nothing is applied.
/// The target file is not even an input here, so its content cannot change.
pub fn preview_edit(patch: &str) -> (r: EditReport)
    ensures
        r.success,
        !r.applied,
        !r.reverted,
        r.errors@.len() == 0,
        r.diff is Some && r.diff.unwrap()@ == patch@,
{
    EditReport {
        success: true,
        applied: false,
        reverted: false,
        errors: Vec::new(),
        diff: Some(patch.to_owned()),
    }
}

/// Apply mode. `original` is the snapshot taken before the patch step;
/// `patch_result` is the patched content when the patch step succeeded, or
/// its error text; `check_ok` and `check_err` report the post-apply compile
/// check. The first component of the result is the content the target file
/// must hold when the call returns:
/// - a failed patch step leaves the original content, unapplied;
/// - a failed post-apply check restores the original content, byte for byte,
///   and reports the edit as reverted;
/// - only a clean check keeps the patched content.
pub fn gate_edit(
    original: String,
    patch_result: Result<String, String>,
    check_ok: bool,
    check_err: String,
) -> (r: (String, EditReport))
    ensures
        patch_result is Err ==> {
            &&& r.0@ == original@
            &&& !r.1.success
            &&& !r.1.applied
            &&& !r.1.reverted
            &&& r.1.errors@.map_values(|e: String| e@) == seq![patch_result->Err_0@]
        },
        patch_result is Ok && !check_ok ==> {
            &&& r.0@ == original@
            &&& !r.1.success
            &&& !r.1.applied
            &&& r.1.reverted
            &&& r.1.errors@.map_values(|e: String| e@) == seq![check_err@]
        },
        patch_result is Ok && check_ok ==> {
            &&& r.0@ == patch_result->Ok_0@
            &&& r.1.success
            &&& r.1.applied
            &&& !r.1.reverted
            &&& r.1.errors@.len() == 0
        },
{
    match patch_result {
        Result::Err(patch_err) => {
            let mut errors: Vec<String> = Vec::new();
            errors.push(patch_err);
            proof {
                assert(errors@.map_values(|e: String| e@) =~= seq![patch_result->Err_0@]);
            }
            (
                original,
                EditReport {
                    success: false,
                    applied: false,
                    reverted: false,
                    errors,
                    diff: None,
                },
            )
        },
        Result::Ok(patched) => {
            if check_ok {
                (
                    patched,
                    EditReport {
                        success: true,
                        applied: true,
                        reverted: false,
                        errors: Vec::new(),
                        diff: None,
                    },
                )
            } else {
                let mut errors: Vec<String> = Vec::new();
                errors.push(check_err);
                proof {
                    assert(errors@.map_values(|e: String| e@) =~= seq![check_err@]);
                }
                (
                    original,
                    EditReport {
                        success: false,
                        applied: false,
                        reverted: true,
                        errors,
                        diff: None,
                    },
                )
            }
        },
    }
}

} // verus!
