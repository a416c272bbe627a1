//! The shell and git tools: the denylist gate that refuses destructive or
//! networked commands before any process is spawned, the timeout clamp, the
//! git sub-operation allow-list, and the interpretation of a finished
//! process. Spawning itself happens outside the library.

use vstd::prelude::*;
use vstd::string::*;
use crate::strutil::{contains_seq, spec_words, split_words, str_contains, str_eq};
use crate::tools::Tool;

verus! {

/// Runs a command line in the workspace.
pub struct ShellExec;

impl Tool for ShellExec {
    open spec fn tool_name(&self) -> Seq<char> {
        "shell_exec"@
    }

    open spec fn tool_description(&self) -> Seq<char> {
        "Run shell command in sandboxed workspace"@
    }

    open spec fn tool_schema(&self) -> Seq<char> {
        "{\"command\":\"string\",\"working_dir\":\"string\",\"timeout_secs\":\"number\"}"@
    }

    fn name(&self) -> (r: String) {
        String::from_str("shell_exec")
    }

    fn description(&self) -> (r: String) {
        String::from_str("Run shell command in sandboxed workspace")
    }

    fn schema(&self) -> (r: String) {
        String::from_str(
            "{\"command\":\"string\",\"working_dir\":\"string\",\"timeout_secs\":\"number\"}",
        )
    }
}

/// Runs an allow-listed git sub-operation.
pub struct GitTool;

impl Tool for GitTool {
    open spec fn tool_name(&self) -> Seq<char> {
        "git_ops"@
    }

    open spec fn tool_description(&self) -> Seq<char> {
        "Git operations: status/diff/log/add/commit"@
    }

    open spec fn tool_schema(&self) -> Seq<char> {
        "{\"operation\":\"string\",\"args\":\"string\"}"@
    }

    fn name(&self) -> (r: String) {
        String::from_str("git_ops")
    }

    fn description(&self) -> (r: String) {
        String::from_str("Git operations: status/diff/log/add/commit")
    }

    fn schema(&self) -> (r: String) {
        String::from_str("{\"operation\":\"string\",\"args\":\"string\"}")
    }
}

/// The command substrings that are refused outright.
pub open spec fn spec_denylist() -> Seq<Seq<char>> {
    seq!["rm -rf /"@, "sudo"@, "curl"@, "wget"@, "ssh"@]
}

/// The denylisted substrings, as strings.
pub fn denylist() -> (r: Vec<String>)
    ensures
        r@.map_values(|s: String| s@) == spec_denylist(),
{
    let mut v: Vec<String> = Vec::new();
    v.push(String::from_str("rm -rf /"));
    v.push(String::from_str("sudo"));
    v.push(String::from_str("curl"));
    v.push(String::from_str("wget"));
    v.push(String::from_str("ssh"));
    proof {
        assert(v@.map_values(|s: String| s@) =~= spec_denylist());
    }
    v
}

/// A command is blocked when it contains any denylisted substring.
pub open spec fn blocked(cmd: Seq<char>) -> bool {
    exists|i: int| 0 <= i < spec_denylist().len() && contains_seq(cmd, #[trigger] spec_denylist()[i])
}

/// The ceiling that a requested timeout is clamped to.
pub const MAX_TIMEOUT_SECS: u64 = 60;

/// The default when no timeout is requested.
pub const DEFAULT_TIMEOUT_SECS: u64 = 30;

/// Why a shell request was refused before any process was spawned.
#[derive(Debug, Clone, PartialEq, Eq)]
pub enum ShellError {
    /// Carries the denylisted substring that was found.
    Blocked(String),
}

/// A validated request, ready to be run.
#[derive(Debug, Clone, PartialEq, Eq)]
pub struct ShellRequest {
    pub command: String,
    pub working_dir: String,
    pub timeout_secs: u64,
}

/// The guard in front of the shell: a command containing a denylisted
/// substring is refused here, before any process is spawned; otherwise the
/// documented defaults are applied (working directory `.`, timeout 30 s)
/// and the timeout is clamped to the 60 s ceiling.
pub fn plan_shell(command: &str, working_dir: Option<String>, timeout_secs: Option<u64>) -> (r:
    Result<ShellRequest, ShellError>)
    ensures
        r is Ok <==> !blocked(command@),
        r is Ok ==> {
            let q = r->Ok_0;
            &&& q.command@ == command@
            &&& q.working_dir@ == (match working_dir {
                Option::Some(d) => d@,
                Option::None => "."@,
            })
            &&& q.timeout_secs == (if (match timeout_secs {
                Option::Some(t) => t,
                Option::None => DEFAULT_TIMEOUT_SECS,
            }) < MAX_TIMEOUT_SECS {
                (match timeout_secs {
                    Option::Some(t) => t,
                    Option::None => DEFAULT_TIMEOUT_SECS,
                })
            } else {
                MAX_TIMEOUT_SECS
            })
        },
        r is Err ==> blocked(command@) && (match r->Err_0 {
            ShellError::Blocked(s) => spec_denylist().contains(s@) && contains_seq(command@, s@),
        }),
{
    let deny = denylist();
    let n = deny.len();
    let mut i: usize = 0;
    while i < n
        invariant
            n == spec_denylist().len(),
            deny@.map_values(|s: String| s@) == spec_denylist(),
            i <= n,
            forall|j: int| 0 <= j < i ==> !contains_seq(command@, #[trigger] spec_denylist()[j]),
        decreases n - i,
    {
        if str_contains(command, deny[i].as_str()) {
            proof {
                assert(spec_denylist().contains(deny@[i as int]@));
            }
            return Err(ShellError::Blocked(deny[i].clone()));
        }
        i += 1;
    }
    let requested = match timeout_secs {
        Option::Some(t) => t,
        Option::None => DEFAULT_TIMEOUT_SECS,
    };
    let clamped = if requested < MAX_TIMEOUT_SECS {
        requested
    } else {
        MAX_TIMEOUT_SECS
    };
    let dir = match working_dir {
        Option::Some(d) => d,
        Option::None => String::from_str("."),
    };
    Ok(ShellRequest { command: command.to_owned(), working_dir: dir, timeout_secs: clamped })
}

/// What a finished or timed-out process reports.
#[derive(Debug, Clone, PartialEq, Eq)]
pub struct ShellOutcome {
    pub stdout: String,
    pub stderr: String,
    pub exit_code: i32,
    pub timed_out: bool,
}

/// The outcome of a process that finished on its own.
pub fn shell_completed(stdout: String, stderr: String, exit_code: Option<i32>) -> (r: ShellOutcome)
    ensures
        r.stdout@ == stdout@,
        r.stderr@ == stderr@,
        r.exit_code == (match exit_code {
            Option::Some(c) => c,
            Option::None => -1i32,
        }),
        !r.timed_out,
{
    let code = match exit_code {
        Option::Some(c) => c,
        Option::None => -1,
    };
    ShellOutcome { stdout, stderr, exit_code: code, timed_out: false }
}

/// The outcome of a command that hit its timeout: reported as a structured
/// result, never as an exception.
pub fn shell_timed_out() -> (r: ShellOutcome)
    ensures
        r.stdout@ == Seq::<char>::empty(),
        r.stderr@ == "Command timed out"@,
        r.exit_code == -1,
        r.timed_out,
{
    ShellOutcome {
        stdout: String::new(),
        stderr: String::from_str("Command timed out"),
        exit_code: -1,
        timed_out: true,
    }
}

/// The git sub-operations that are allowed.
pub open spec fn spec_git_ops() -> Seq<Seq<char>> {
    seq!["status"@, "diff"@, "log"@, "add"@, "commit"@]
}

/// A requested operation is valid when it is allow-listed.
pub open spec fn valid_git_op(op: Seq<char>) -> bool {
    spec_git_ops().contains(op)
}

/// Why a git request was refused.
#[derive(Debug, Clone, PartialEq, Eq)]
pub enum GitError {
    /// Carries the operation that is not allow-listed.
    InvalidOperation(String),
}

/// A validated git request: the allow-listed sub-operation and its extra
/// arguments, split at whitespace.
#[derive(Debug, Clone, PartialEq, Eq)]
pub struct GitRequest {
    pub operation: String,
    pub args: Vec<String>,
}

/// The guard in front of git: anything but an allow-listed sub-operation is
/// refused with an error naming it; an allowed one passes through with its
/// extra arguments split at whitespace.
pub fn plan_git(operation: &str, args: &str) -> (r: Result<GitRequest, GitError>)
    ensures
        r is Ok <==> valid_git_op(operation@),
        r is Ok ==> r->Ok_0.operation@ == operation@ && r->Ok_0.args@.map_values(|w: String| w@)
            == spec_words(args@),
        r is Err ==> (match r->Err_0 {
            GitError::InvalidOperation(s) => s@ == operation@,
        }),
{
    let allowed = git_ops();
    let n = allowed.len();
    let mut i: usize = 0;
    while i < n
        invariant
            n == spec_git_ops().len(),
            allowed@.map_values(|s: String| s@) == spec_git_ops(),
            i <= n,
            forall|j: int| 0 <= j < i ==> operation@ != #[trigger] spec_git_ops()[j],
        decreases n - i,
    {
        if str_eq(operation, allowed[i].as_str()) {
            proof {
                assert(spec_git_ops().contains(operation@));
            }
            return Ok(GitRequest { operation: operation.to_owned(), args: split_words(args) });
        }
        i += 1;
    }
    proof {
        assert(!valid_git_op(operation@));
    }
    Err(GitError::InvalidOperation(operation.to_owned()))
}

/// The allow-listed git sub-operations, as strings.
pub fn git_ops() -> (r: Vec<String>)
    ensures
        r@.map_values(|s: String| s@) == spec_git_ops(),
{
    let mut v: Vec<String> = Vec::new();
    v.push(String::from_str("status"));
    v.push(String::from_str("diff"));
    v.push(String::from_str("log"));
    v.push(String::from_str("add"));
    v.push(String::from_str("commit"));
    proof {
        assert(v@.map_values(|s: String| s@) =~= spec_git_ops());
    }
    v
}

/// What the git tool reports: stdout of a successful run, stderr of a
/// failed one.
pub fn git_output(success: bool, stdout: String, stderr: String) -> (r: (String, bool))
    ensures
        success ==> r.0@ == stdout@,
        !success ==> r.0@ == stderr@,
        r.1 == success,
{
    if success {
        (stdout, true)
    } else {
        (stderr, false)
    }
}

} // verus!
