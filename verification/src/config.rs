//! Runtime configuration and its documented default values.

use vstd::prelude::*;

verus! {

/// Settings shared by the orchestrator, the verifier and the tool layer.
/// Persistence of the configuration file is the caller's concern; the
/// library only fixes the default values and the shape of the record.
pub struct Config {
    pub ollama_base_url: String,
    pub ollama_model: String,
    pub barqdb_url: String,
    pub barqgraph_url: String,
    pub workspace_root: String,
    pub max_iterations: u8,
    pub token_limit: u32,
}

pub fn default_ollama_base_url() -> (s: String)
    ensures
        s@ == "http://localhost:11434"@,
{
    String::from_str("http://localhost:11434")
}

pub fn default_ollama_model() -> (s: String)
    ensures
        s@ == "gemini-pro-3.1"@,
{
    String::from_str("gemini-pro-3.1")
}

pub fn default_barqdb_url() -> (s: String)
    ensures
        s@ == "localhost:6333"@,
{
    String::from_str("localhost:6333")
}

pub fn default_barqgraph_url() -> (s: String)
    ensures
        s@ == "localhost:6334"@,
{
    String::from_str("localhost:6334")
}

pub fn default_workspace_root() -> (s: String)
    ensures
        s@ == "./"@,
{
    String::from_str("./")
}

pub fn default_max_iterations() -> (n: u8)
    ensures
        n == 5,
{
    5
}

pub fn default_token_limit() -> (n: u32)
    ensures
        n == 4096,
{
    4096
}

impl Config {
    /// The record carries exactly the documented default values.
    pub open spec fn is_default(self) -> bool {
        &&& self.ollama_base_url@ == "http://localhost:11434"@
        &&& self.ollama_model@ == "gemini-pro-3.1"@
        &&& self.barqdb_url@ == "localhost:6333"@
        &&& self.barqgraph_url@ == "localhost:6334"@
        &&& self.workspace_root@ == "./"@
        &&& self.max_iterations == 5
        &&& self.token_limit == 4096
    }
}

impl Default for Config {
    fn default() -> (c: Config)
        ensures
            c.is_default(),
    {
        Config {
            ollama_base_url: default_ollama_base_url(),
            ollama_model: default_ollama_model(),
            barqdb_url: default_barqdb_url(),
            barqgraph_url: default_barqgraph_url(),
            workspace_root: default_workspace_root(),
            max_iterations: default_max_iterations(),
            token_limit: default_token_limit(),
        }
    }
}

} // verus!
