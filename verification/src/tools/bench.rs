//! The benchmark-runner tool's advertisement. Running `cargo bench` and
//! interpreting its timings happens outside the library.

use vstd::prelude::*;
use vstd::string::*;
use crate::tools::Tool;

verus! {

/// Runs the project's benchmarks in a given directory.
pub struct CargoBench;

impl Tool for CargoBench {
    open spec fn tool_name(&self) -> Seq<char> {
        "cargo_bench"@
    }

    open spec fn tool_description(&self) -> Seq<char> {
        "Run cargo bench in the given directory"@
    }

    open spec fn tool_schema(&self) -> Seq<char> {
        "{\"type\":\"object\",\"properties\":{\"dir\":{\"type\":\"string\",\"description\":\"Directory to run cargo bench in\"}}}"@
    }

    fn name(&self) -> (r: String) {
        String::from_str("cargo_bench")
    }

    fn description(&self) -> (r: String) {
        String::from_str("Run cargo bench in the given directory")
    }

    fn schema(&self) -> (r: String) {
        String::from_str(
            "{\"type\":\"object\",\"properties\":{\"dir\":{\"type\":\"string\",\"description\":\"Directory to run cargo bench in\"}}}",
        )
    }
}

} // verus!
