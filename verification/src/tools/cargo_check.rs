//! The compile-check tool: its advertisement and the classification of the
//! compiler's JSON diagnostic stream into errors and warnings. Spawning the
//! compiler happens outside the library; its stdout lines come in as plain
//! strings.

use vstd::prelude::*;
use vstd::string::*;
use crate::strutil::str_eq;
use crate::tools::Tool;

verus! {

/// Runs the project's compile check in a given directory.
pub struct CargoCheck;

impl Tool for CargoCheck {
    open spec fn tool_name(&self) -> Seq<char> {
        "cargo_check"@
    }

    open spec fn tool_description(&self) -> Seq<char> {
        "Run cargo check on a Rust project directory"@
    }

    open spec fn tool_schema(&self) -> Seq<char> {
        "{\"dir\":\"string\"}"@
    }

    fn name(&self) -> (r: String) {
        String::from_str("cargo_check")
    }

    fn description(&self) -> (r: String) {
        String::from_str("Run cargo check on a Rust project directory")
    }

    fn schema(&self) -> (r: String) {
        String::from_str("{\"dir\":\"string\"}")
    }
}

/// What one compiler stdout line decodes to: its `reason`, the message's
/// `level`, and the message's `rendered` text; `None` when the line is not
/// JSON or lacks one of those fields.
pub uninterp spec fn diag_line_of(s: Seq<char>) -> Option<(Seq<char>, Seq<char>, Seq<char>)>;

/// Relies on `serde_json::from_str` and `serde_json::Value`'s accessors to
/// read the `reason`, `message.level` and `message.rendered` string fields
/// of one line of the compiler's JSON diagnostic stream.
#[verifier::external_body]
fn decode_diag_line(line: &str) -> (r: Option<(String, String, String)>)
    ensures
        r is Some <==> diag_line_of(line@) is Some,
        r is Some ==> (r.unwrap().0@, r.unwrap().1@, r.unwrap().2@) == diag_line_of(
            line@,
        ).unwrap(),
{
    let v: serde_json::Value = match serde_json::from_str(line) { Ok(v) => v, Err(_) => return None };
    match (v["reason"].as_str(), v["message"]["level"].as_str(), v["message"]["rendered"].as_str()) {
        (Some(r), Some(l), Some(t)) => Some((r.to_string(), l.to_string(), t.to_string())),
        _ => None,
    }
}

/// The rendered text of a line that is a compiler message of this level.
pub open spec fn rendered_at_level(line: Seq<char>, level: Seq<char>) -> Option<Seq<char>> {
    match diag_line_of(line) {
        Option::Some((reason, lv, rendered)) => {
            if reason == "compiler-message"@ && lv == level {
                Some(rendered)
            } else {
                None
            }
        },
        Option::None => None,
    }
}

/// The rendered texts of every compiler message of this level, in order.
pub open spec fn diags_at_level(lines: Seq<Seq<char>>, level: Seq<char>) -> Seq<Seq<char>>
    decreases lines.len(),
{
    if lines.len() == 0 {
        seq![]
    } else {
        diags_at_level(lines.drop_last(), level) + (match rendered_at_level(lines.last(), level) {
            Option::Some(r) => seq![r],
            Option::None => seq![],
        })
    }
}

/// Splits the compiler's JSON diagnostic lines into rendered errors and
/// rendered warnings, each in stream order; any other line is dropped.
pub fn classify_cargo_output(lines: &Vec<String>) -> (r: (Vec<String>, Vec<String>))
    ensures
        r.0@.map_values(|s: String| s@) == diags_at_level(
            lines@.map_values(|l: String| l@),
            "error"@,
        ),
        r.1@.map_values(|s: String| s@) == diags_at_level(
            lines@.map_values(|l: String| l@),
            "warning"@,
        ),
{
    let ghost views = lines@.map_values(|l: String| l@);
    let mut errors: Vec<String> = Vec::new();
    let mut warnings: Vec<String> = Vec::new();
    let mut i: usize = 0;
    proof {
        assert(views.subrange(0, 0) =~= Seq::<Seq<char>>::empty());
        assert(errors@.map_values(|s: String| s@) =~~= diags_at_level(
            views.subrange(0, 0),
            "error"@,
        ));
        assert(warnings@.map_values(|s: String| s@) =~~= diags_at_level(
            views.subrange(0, 0),
            "warning"@,
        ));
    }
    let n = lines.len();
    while i < n
        invariant
            n == lines@.len(),
            views == lines@.map_values(|l: String| l@),
            i <= n,
            errors@.map_values(|s: String| s@) == diags_at_level(
                views.subrange(0, i as int),
                "error"@,
            ),
            warnings@.map_values(|s: String| s@) == diags_at_level(
                views.subrange(0, i as int),
                "warning"@,
            ),
        decreases n - i,
    {
        let ghost errs_old = errors@;
        let ghost warns_old = warnings@;
        match decode_diag_line(lines[i].as_str()) {
            Option::Some((reason, level, rendered)) => {
                if str_eq(reason.as_str(), "compiler-message") {
                    if str_eq(level.as_str(), "error") {
                        let ghost rv = rendered@;
                        errors.push(rendered);
                        proof {
                            assert(errors@ == errs_old.push(errors@.last()));
                            assert(errors@.last()@ == rv);
                        }
                    } else if str_eq(level.as_str(), "warning") {
                        let ghost rv = rendered@;
                        warnings.push(rendered);
                        proof {
                            assert(warnings@ == warns_old.push(warnings@.last()));
                            assert(warnings@.last()@ == rv);
                        }
                    }
                }
            },
            Option::None => {},
        }
        i += 1;
        proof {
            reveal_strlit("error");
            reveal_strlit("warning");
            assert("error"@.len() == 5);
            assert("warning"@.len() == 7);
            assert(views.subrange(0, i as int).drop_last() =~= views.subrange(0, i - 1));
            assert(views.subrange(0, i as int).last() == views[i - 1]);
            if errors@ != errs_old {
                assert(errors@.map_values(|s: String| s@) =~= errs_old.map_values(
                    |s: String| s@,
                ).push(errors@.last()@));
            }
            if warnings@ != warns_old {
                assert(warnings@.map_values(|s: String| s@) =~= warns_old.map_values(
                    |s: String| s@,
                ).push(warnings@.last()@));
            }
            assert(errors@.map_values(|s: String| s@) =~= diags_at_level(
                views.subrange(0, i as int),
                "error"@,
            ));
            assert(warnings@.map_values(|s: String| s@) =~= diags_at_level(
                views.subrange(0, i as int),
                "warning"@,
            ));
        }
    }
    proof {
        assert(views.subrange(0, views.len() as int) =~= views);
    }
    (errors, warnings)
}

} // verus!
