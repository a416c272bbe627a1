//! The workspace registry: the list of known workspaces and the active one,
//! and the tool that adds, removes, switches and lists them. The registry
//! here is the in-memory value; persisting it to disk is the caller's
//! concern.

use vstd::prelude::*;
use vstd::string::*;
use crate::strutil::str_eq;
use crate::tools::Tool;

verus! {

/// One known workspace.
#[derive(Debug, PartialEq, Eq)]
pub struct Workspace {
    pub path: String,
    pub name: String,
    pub barq_indexed: bool,
    pub last_indexed: Option<u64>,
}

impl Clone for Workspace {
    fn clone(&self) -> (r: Workspace)
        ensures
            r == *self,
    {
        Workspace {
            path: self.path.clone(),
            name: self.name.clone(),
            barq_indexed: self.barq_indexed,
            last_indexed: self.last_indexed,
        }
    }
}

/// The registry's content: the known workspaces and the index of the active
/// one.
#[derive(Debug, Clone, PartialEq, Eq)]
pub struct WorkspaceData {
    pub workspaces: Vec<Workspace>,
    pub active: usize,
}

impl WorkspaceData {
    /// The active index stays in range; an empty registry keeps it at zero.
    pub open spec fn wf(self) -> bool {
        if self.workspaces@.len() == 0 {
            self.active == 0
        } else {
            self.active < self.workspaces@.len()
        }
    }
}

impl Default for WorkspaceData {
    fn default() -> (r: WorkspaceData)
        ensures
            r.workspaces@.len() == 0,
            r.active == 0,
            r.wf(),
    {
        WorkspaceData { workspaces: Vec::new(), active: 0 }
    }
}

/// Some known workspace carries this path.
pub open spec fn has_path(ws: Seq<Workspace>, path: Seq<char>) -> bool {
    exists|i: int| 0 <= i < ws.len() && (#[trigger] ws[i]).path@ == path
}

/// The first index carrying this path.
pub open spec fn index_of_path(ws: Seq<Workspace>, path: Seq<char>) -> int {
    choose|i: int|
        0 <= i < ws.len() && (#[trigger] ws[i]).path@ == path && (forall|j: int|
            0 <= j < i ==> (#[trigger] ws[j]).path@ != path)
}

/// The name a workspace takes from its path: what follows the last slash,
/// or `unnamed` when that is empty.
pub open spec fn spec_base_name(path: Seq<char>) -> Seq<char> {
    let tail = base_tail(path, path.len() as int);
    if tail.len() == 0 {
        "unnamed"@
    } else {
        tail
    }
}

/// What follows the last slash among the first `upto` characters; the whole
/// path when no slash occurs there.
pub open spec fn base_tail(path: Seq<char>, upto: int) -> Seq<char>
    decreases upto,
{
    if upto <= 0 {
        path
    } else if path[upto - 1] == '/' {
        path.subrange(upto, path.len() as int)
    } else {
        base_tail(path, upto - 1)
    }
}

/// The base name of a path: the characters after its last `/`, or
/// `unnamed` when there are none.
pub fn base_name(path: &str) -> (r: String)
    ensures
        r@ == spec_base_name(path@),
{
    let cs = crate::strutil::chars_of(path);
    let n = cs.len();
    let mut upto: usize = n;
    while upto > 0
        invariant
            n == path@.len(),
            cs@ == path@,
            upto <= n,
            base_tail(path@, n as int) == base_tail(path@, upto as int),
        decreases upto,
    {
        if cs[upto - 1] == '/' {
            let tail = crate::strutil::substring_of(path, upto, n);
            if tail.unicode_len() == 0 {
                return String::from_str("unnamed");
            }
            return tail;
        }
        upto -= 1;
    }
    if path.unicode_len() == 0 {
        return String::from_str("unnamed");
    }
    path.to_owned()
}

/// Why a workspace operation was refused.
#[derive(Debug, Clone, PartialEq, Eq)]
pub enum WorkspaceError {
    AlreadyExists,
    NotFound,
    InvalidAction,
}

/// The in-memory workspace registry of one root directory.
#[derive(Debug, Clone, PartialEq, Eq)]
pub struct WorkspaceManager {
    pub root_dir: String,
    pub data: WorkspaceData,
}

impl WorkspaceManager {
    /// An empty registry for the given root directory.
    pub fn new(root_dir: &str) -> (r: WorkspaceManager)
        ensures
            r.root_dir@ == root_dir@,
            r.data.workspaces@.len() == 0,
            r.data.active == 0,
            r.data.wf(),
    {
        WorkspaceManager { root_dir: String::from_str(root_dir), data: WorkspaceData::default() }
    }

    /// Adds a workspace; a path already present is refused. The new entry
    /// takes its name from the path, starts unindexed, and the active
    /// workspace does not change.
    pub fn add(&mut self, path: &str) -> (r: Result<(), WorkspaceError>)
        requires
            old(self).data.wf(),
        ensures
            final(self).data.wf(),
            final(self).root_dir == old(self).root_dir,
            r is Ok <==> !has_path(old(self).data.workspaces@, path@),
            r is Err ==> *final(self) == *old(self) && r->Err_0 == WorkspaceError::AlreadyExists,
            r is Ok ==> {
                &&& final(self).data.workspaces@.len() == old(self).data.workspaces@.len() + 1
                &&& final(self).data.workspaces@.drop_last() == old(self).data.workspaces@
                &&& final(self).data.workspaces@.last().path@ == path@
                &&& final(self).data.workspaces@.last().name@ == spec_base_name(path@)
                &&& !final(self).data.workspaces@.last().barq_indexed
                &&& final(self).data.workspaces@.last().last_indexed is None
                &&& final(self).data.active == old(self).data.active
            },
    {
        let n = self.data.workspaces.len();
        let mut i: usize = 0;
        while i < n
            invariant
                old(self).data.wf(),
                n == self.data.workspaces@.len(),
                *self == *old(self),
                i <= n,
                forall|j: int|
                    0 <= j < i ==> (#[trigger] self.data.workspaces@[j]).path@ != path@,
            decreases n - i,
        {
            if str_eq(self.data.workspaces[i].path.as_str(), path) {
                return Err(WorkspaceError::AlreadyExists);
            }
            i += 1;
        }
        let entry = Workspace {
            path: path.to_owned(),
            name: base_name(path),
            barq_indexed: false,
            last_indexed: None,
        };
        self.data.workspaces.push(entry);
        proof {
            assert(self.data.workspaces@.drop_last() =~= old(self).data.workspaces@);
        }
        Ok(())
    }

    /// Removes the workspace with this path; a missing path is refused. An
    /// active index that would fall out of range resets to zero.
    pub fn remove(&mut self, path: &str) -> (r: Result<(), WorkspaceError>)
        requires
            old(self).data.wf(),
        ensures
            final(self).data.wf(),
            final(self).root_dir == old(self).root_dir,
            r is Ok <==> has_path(old(self).data.workspaces@, path@),
            r is Err ==> *final(self) == *old(self) && r->Err_0 == WorkspaceError::NotFound,
            r is Ok ==> {
                let i = index_of_path(old(self).data.workspaces@, path@);
                &&& final(self).data.workspaces@ == old(self).data.workspaces@.remove(i)
                &&& final(self).data.active == (if old(self).data.active
                    >= final(self).data.workspaces@.len() {
                    0int
                } else {
                    old(self).data.active as int
                })
            },
    {
        let n = self.data.workspaces.len();
        let mut i: usize = 0;
        while i < n
            invariant
                old(self).data.wf(),
                n == self.data.workspaces@.len(),
                *self == *old(self),
                i <= n,
                forall|j: int|
                    0 <= j < i ==> (#[trigger] self.data.workspaces@[j]).path@ != path@,
            decreases n - i,
        {
            if str_eq(self.data.workspaces[i].path.as_str(), path) {
                proof {
                    assert(index_of_path(self.data.workspaces@, path@) == i as int) by {
                        let w = self.data.workspaces@;
                        assert(0 <= i < w.len() && w[i as int].path@ == path@ && (forall|j: int|
                            0 <= j < i ==> (#[trigger] w[j]).path@ != path@));
                        let k = index_of_path(w, path@);
                        if k < i {
                            assert(w[k].path@ != path@);
                        }
                        if k > i {
                            assert(w[i as int].path@ != path@);
                        }
                    }
                }
                self.data.workspaces.remove(i);
                if self.data.active >= self.data.workspaces.len() {
                    self.data.active = 0;
                }
                return Ok(());
            }
            i += 1;
        }
        Err(WorkspaceError::NotFound)
    }

    /// Makes the workspace with this path the active one; a missing path is
    /// refused.
    pub fn switch(&mut self, path: &str) -> (r: Result<(), WorkspaceError>)
        requires
            old(self).data.wf(),
        ensures
            final(self).data.wf(),
            final(self).root_dir == old(self).root_dir,
            r is Ok <==> has_path(old(self).data.workspaces@, path@),
            r is Err ==> *final(self) == *old(self) && r->Err_0 == WorkspaceError::NotFound,
            r is Ok ==> {
                &&& final(self).data.workspaces@ == old(self).data.workspaces@
                &&& final(self).data.active as int == index_of_path(
                    old(self).data.workspaces@,
                    path@,
                )
            },
    {
        let n = self.data.workspaces.len();
        let mut i: usize = 0;
        while i < n
            invariant
                old(self).data.wf(),
                n == self.data.workspaces@.len(),
                *self == *old(self),
                i <= n,
                forall|j: int|
                    0 <= j < i ==> (#[trigger] self.data.workspaces@[j]).path@ != path@,
            decreases n - i,
    {
            if str_eq(self.data.workspaces[i].path.as_str(), path) {
                proof {
                    assert(index_of_path(self.data.workspaces@, path@) == i as int) by {
                        let w = self.data.workspaces@;
                        assert(0 <= i < w.len() && w[i as int].path@ == path@ && (forall|j: int|
                            0 <= j < i ==> (#[trigger] w[j]).path@ != path@));
                        let k = index_of_path(w, path@);
                        if k < i {
                            assert(w[k].path@ != path@);
                        }
                        if k > i {
                            assert(w[i as int].path@ != path@);
                        }
                    }
                }
                self.data.active = i;
                return Ok(());
            }
            i += 1;
        }
        Err(WorkspaceError::NotFound)
    }

    /// The known workspaces, in registration order.
    pub fn list(&self) -> (r: Vec<Workspace>)
        ensures
            r@ == self.data.workspaces@,
    {
        let n = self.data.workspaces.len();
        let mut out: Vec<Workspace> = Vec::new();
        let mut i: usize = 0;
        while i < n
            invariant
                n == self.data.workspaces@.len(),
                i <= n,
                out@ == self.data.workspaces@.subrange(0, i as int),
            decreases n - i,
        {
            out.push(self.data.workspaces[i].clone());
            i += 1;
            proof {
                assert(out@ =~= self.data.workspaces@.subrange(0, i as int));
            }
        }
        proof {
            assert(self.data.workspaces@.subrange(0, n as int) =~= self.data.workspaces@);
        }
        out
    }

    /// The active workspace, or `None` when the registry is empty.
    pub fn active_workspace(&self) -> (r: Option<Workspace>)
        requires
            self.data.wf(),
        ensures
            self.data.workspaces@.len() == 0 ==> r is None,
            self.data.workspaces@.len() > 0 ==> r == Some(
                self.data.workspaces@[self.data.active as int],
            ),
    {
        if self.data.workspaces.len() == 0 {
            None
        } else {
            Some(self.data.workspaces[self.data.active].clone())
        }
    }
}

/// Manages the workspace registry on the model's behalf.
pub struct WorkspaceTool {
    pub manager: WorkspaceManager,
}

impl WorkspaceTool {
    pub fn new(root_dir: &str) -> (r: WorkspaceTool)
        ensures
            r.manager.root_dir@ == root_dir@,
            r.manager.data.workspaces@.len() == 0,
            r.manager.data.wf(),
    {
        WorkspaceTool { manager: WorkspaceManager::new(root_dir) }
    }
}

impl Tool for WorkspaceTool {
    open spec fn tool_name(&self) -> Seq<char> {
        "manage_workspace"@
    }

    open spec fn tool_description(&self) -> Seq<char> {
        "Add/remove/switch workspaces"@
    }

    open spec fn tool_schema(&self) -> Seq<char> {
        "{\"action\":\"string\",\"path\":\"string\"}"@
    }

    fn name(&self) -> (r: String) {
        String::from_str("manage_workspace")
    }

    fn description(&self) -> (r: String) {
        String::from_str("Add/remove/switch workspaces")
    }

    fn schema(&self) -> (r: String) {
        String::from_str("{\"action\":\"string\",\"path\":\"string\"}")
    }
}

/// One of the workspace tool's sub-actions.
#[derive(Debug, Clone, Copy, PartialEq, Eq)]
pub enum WorkspaceAction {
    Add,
    Remove,
    Switch,
    List,
}

/// Maps the requested action string to a sub-action; anything else is an
/// invalid action.
pub fn parse_action(action: &str) -> (r: Result<WorkspaceAction, WorkspaceError>)
    ensures
        action@ == "add"@ ==> r == Ok::<_, WorkspaceError>(WorkspaceAction::Add),
        action@ == "remove"@ ==> r == Ok::<_, WorkspaceError>(WorkspaceAction::Remove),
        action@ == "switch"@ ==> r == Ok::<_, WorkspaceError>(WorkspaceAction::Switch),
        action@ == "list"@ ==> r == Ok::<_, WorkspaceError>(WorkspaceAction::List),
        action@ != "add"@ && action@ != "remove"@ && action@ != "switch"@ && action@ != "list"@
            ==> r == Err::<WorkspaceAction, _>(WorkspaceError::InvalidAction),
{
    proof {
        reveal_strlit("add");
        reveal_strlit("remove");
        reveal_strlit("switch");
        reveal_strlit("list");
        assert("add"@.len() == 3);
        assert("remove"@.len() == 6);
        assert("switch"@.len() == 6);
        assert("remove"@[0] == 'r');
        assert("switch"@[0] == 's');
        assert("list"@.len() == 4);
    }
    if str_eq(action, "add") {
        Ok(WorkspaceAction::Add)
    } else if str_eq(action, "remove") {
        Ok(WorkspaceAction::Remove)
    } else if str_eq(action, "switch") {
        Ok(WorkspaceAction::Switch)
    } else if str_eq(action, "list") {
        Ok(WorkspaceAction::List)
    } else {
        Err(WorkspaceError::InvalidAction)
    }
}

} // verus!
