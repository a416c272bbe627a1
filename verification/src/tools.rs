//! The tool registry: the set of invocable capabilities advertised to the
//! model. The registry is pure dispatch — it holds each tool's name,
//! description and argument schema, and finds a tool by name. Side effects
//! belong to the code that performs an invocation, outside this library.

pub mod barq_search;
pub mod bench;
pub mod cargo_check;
pub mod edit_file;
pub mod file_ops;
pub mod shell;
pub mod workspace;

use vstd::prelude::*;
use vstd::string::*;
use crate::strutil::str_eq;

verus! {

/// A capability's advertisement: its dispatch name (the unique key), a human
/// description, and the JSON shape of its arguments, as JSON text.
#[derive(Debug, Clone, PartialEq, Eq)]
pub struct ToolSpec {
    pub name: String,
    pub description: String,
    pub schema: String,
}

/// The uniform interface of a built-in tool: a fixed name, description and
/// argument schema.
pub trait Tool {
    spec fn tool_name(&self) -> Seq<char>;

    spec fn tool_description(&self) -> Seq<char>;

    spec fn tool_schema(&self) -> Seq<char>;

    fn name(&self) -> (r: String)
        ensures
            r@ == self.tool_name(),
    ;

    fn description(&self) -> (r: String)
        ensures
            r@ == self.tool_description(),
    ;

    fn schema(&self) -> (r: String)
        ensures
            r@ == self.tool_schema(),
    ;
}

/// The advertisement of one tool.
pub fn descriptor_of<T: Tool>(t: &T) -> (r: ToolSpec)
    ensures
        r.name@ == t.tool_name(),
        r.description@ == t.tool_description(),
        r.schema@ == t.tool_schema(),
{
    ToolSpec { name: t.name(), description: t.description(), schema: t.schema() }
}

/// Why a registration was refused.
#[derive(Debug, Clone, PartialEq, Eq)]
pub enum RegistryError {
    DuplicateName,
}

/// Some registered tool carries this name.
pub open spec fn has_tool(tools: Seq<ToolSpec>, name: Seq<char>) -> bool {
    exists|i: int| 0 <= i < tools.len() && (#[trigger] tools[i]).name@ == name
}

/// The first registered tool with this name.
pub open spec fn find_tool(tools: Seq<ToolSpec>, name: Seq<char>) -> Option<ToolSpec>
    decreases tools.len(),
{
    if tools.len() == 0 {
        None
    } else if tools[0].name@ == name {
        Some(tools[0])
    } else {
        find_tool(tools.drop_first(), name)
    }
}

/// When the first `i` tools miss, the search is decided by the rest.
proof fn lemma_find_tool_skip(tools: Seq<ToolSpec>, name: Seq<char>, i: int)
    requires
        0 <= i <= tools.len(),
        forall|j: int| 0 <= j < i ==> (#[trigger] tools[j]).name@ != name,
    ensures
        find_tool(tools, name) == find_tool(tools.skip(i), name),
    decreases i,
{
    if i == 0 {
        assert(tools.skip(0) =~= tools);
    } else {
        lemma_find_tool_skip(tools, name, i - 1);
        let t = tools.skip(i - 1);
        assert(t[0] == tools[i - 1]);
        assert(t.drop_first() =~= tools.skip(i));
    }
}

/// The registry of invocable tools. Its tool set is fixed once a session
/// runs; nothing here performs an invocation.
#[derive(Debug)]
pub struct ToolRegistry {
    pub tools: Vec<ToolSpec>,
}

/// The names of the built-in tools, in registration order.
pub open spec fn default_tool_names() -> Seq<Seq<char>> {
    seq![
        "cargo_check"@,
        "edit_file"@,
        "shell_exec"@,
        "git_ops"@,
        "read_file"@,
        "list_files"@,
        "create_file"@,
    ]
}

impl ToolRegistry {
    /// The built-in tool set.
    pub fn new() -> (r: ToolRegistry)
        ensures
            r.tools@.map_values(|t: ToolSpec| t.name@) == default_tool_names(),
    {
        let mut tools: Vec<ToolSpec> = Vec::new();
        tools.push(descriptor_of(&cargo_check::CargoCheck));
        tools.push(descriptor_of(&edit_file::EditFile));
        tools.push(descriptor_of(&shell::ShellExec));
        tools.push(descriptor_of(&shell::GitTool));
        tools.push(descriptor_of(&file_ops::ReadFile));
        tools.push(descriptor_of(&file_ops::ListFiles));
        tools.push(descriptor_of(&file_ops::CreateFile));
        proof {
            assert(tools@.map_values(|t: ToolSpec| t.name@) =~= default_tool_names());
        }
        ToolRegistry { tools }
    }

    /// The built-in tool set plus semantic search.
    pub fn with_barq() -> (r: ToolRegistry)
        ensures
            r.tools@.map_values(|t: ToolSpec| t.name@) == default_tool_names().push(
                "barq_search"@,
            ),
    {
        let mut registry = ToolRegistry::new();
        let ghost before = registry.tools@;
        registry.tools.push(descriptor_of(&barq_search::BarqSearch));
        proof {
            assert(registry.tools@.map_values(|t: ToolSpec| t.name@) =~= before.map_values(
                |t: ToolSpec| t.name@,
            ).push("barq_search"@));
        }
        registry
    }

    /// Adds a tool; names are the dispatch key, so a name already present is
    /// refused and the registry is left unchanged.
    pub fn register(&mut self, tool: ToolSpec) -> (r: Result<(), RegistryError>)
        ensures
            r is Ok <==> !has_tool(old(self).tools@, tool.name@),
            r is Ok ==> final(self).tools@ == old(self).tools@.push(tool),
            r is Err ==> final(self).tools@ == old(self).tools@,
    {
        let n = self.tools.len();
        let mut i: usize = 0;
        while i < n
            invariant
                n == self.tools@.len(),
                self.tools@ == old(self).tools@,
                i <= n,
                forall|j: int| 0 <= j < i ==> (#[trigger] self.tools@[j]).name@ != tool.name@,
            decreases n - i,
        {
            if str_eq(self.tools[i].name.as_str(), tool.name.as_str()) {
                return Err(RegistryError::DuplicateName);
            }
            i += 1;
        }
        self.tools.push(tool);
        Ok(())
    }

    /// Finds a tool by name; an unregistered name yields `None`, never a
    /// panic.
    pub fn get(&self, name: &str) -> (r: Option<&ToolSpec>)
        ensures
            r is Some <==> has_tool(self.tools@, name@),
            r is Some ==> Some(*r.unwrap()) == find_tool(self.tools@, name@),
    {
        let n = self.tools.len();
        let mut i: usize = 0;
        while i < n
            invariant
                n == self.tools@.len(),
                i <= n,
                forall|j: int| 0 <= j < i ==> (#[trigger] self.tools@[j]).name@ != name@,
            decreases n - i,
        {
            if str_eq(self.tools[i].name.as_str(), name) {
                proof {
                    lemma_find_tool_skip(self.tools@, name@, i as int);
                    assert(self.tools@.skip(i as int)[0] == self.tools@[i as int]);
                }
                return Some(&self.tools[i]);
            }
            i += 1;
        }
        None
    }

    /// Every tool's argument schema, in registration order, as advertised to
    /// the model each turn.
    pub fn schemas(&self) -> (r: Vec<String>)
        ensures
            r@.map_values(|s: String| s@) == self.tools@.map_values(|t: ToolSpec| t.schema@),
    {
        let n = self.tools.len();
        let mut out: Vec<String> = Vec::new();
        let mut i: usize = 0;
        proof {
            assert(out@.map_values(|s: String| s@) =~~= self.tools@.subrange(0, 0).map_values(
                |t: ToolSpec| t.schema@,
            ));
        }
        while i < n
            invariant
                n == self.tools@.len(),
                i <= n,
                out@.map_values(|s: String| s@) == self.tools@.subrange(0, i as int).map_values(
                    |t: ToolSpec| t.schema@,
                ),
            decreases n - i,
        {
            let ghost out_old = out@;
            let x = self.tools[i].schema.clone();
            proof {
                assert(x == self.tools@[i as int].schema);
            }
            out.push(x);
            i += 1;
            proof {
                assert(out@ == out_old.push(self.tools@[i - 1].schema));
                assert(out@.map_values(|s: String| s@) =~= out_old.map_values(
                    |s: String| s@,
                ).push(self.tools@[i - 1].schema@));
                assert(self.tools@.subrange(0, i as int).map_values(|t: ToolSpec| t.schema@)
                    =~= self.tools@.subrange(0, i - 1).map_values(|t: ToolSpec| t.schema@).push(
                    self.tools@[i - 1].schema@,
                ));
                assert(out@.map_values(|s: String| s@) =~= self.tools@.subrange(
                    0,
                    i as int,
                ).map_values(|t: ToolSpec| t.schema@));
            }
        }
        proof {
            assert(self.tools@.subrange(0, n as int) =~= self.tools@);
        }
        out
    }
}

impl Default for ToolRegistry {
    fn default() -> (r: ToolRegistry)
        ensures
            r.tools@.map_values(|t: ToolSpec| t.name@) == default_tool_names(),
    {
        ToolRegistry::new()
    }
}

} // verus!
