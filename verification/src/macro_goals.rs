//! Long-running goals: the phase/task records persisted per goal name, and
//! the naming rules of the goal files. Reading and writing the files, and
//! their YAML shape, are the caller's concern.

use vstd::prelude::*;
use vstd::string::*;
use crate::strutil::{ends_with, str_ends_with, substring_of};

verus! {

/// One task of a phase.
#[derive(Debug, Clone, PartialEq, Eq)]
pub struct Task {
    pub id: String,
    pub description: String,
    pub status: String,
    pub command: Option<String>,
}

/// One phase of a goal, with its ordered tasks.
#[derive(Debug, Clone, PartialEq, Eq)]
pub struct Phase {
    pub name: String,
    pub description: String,
    pub tasks: Vec<Task>,
    pub status: String,
}

/// A whole goal file: ordered phases with status strings.
#[derive(Debug, Clone, PartialEq, Eq)]
pub struct MacroGoalFile {
    pub name: String,
    pub description: String,
    pub phases: Vec<Phase>,
}

/// Keeps the goals of one workspace, under a directory of its own.
pub struct GoalManager {
    pub goals_dir: String,
}

/// The goal names among a directory's entries: every file name ending in
/// `.yaml`, with that ending cut off, in directory order.
pub open spec fn spec_goal_names(entries: Seq<Seq<char>>) -> Seq<Seq<char>>
    decreases entries.len(),
{
    if entries.len() == 0 {
        seq![]
    } else {
        spec_goal_names(entries.drop_last()) + (if ends_with(entries.last(), ".yaml"@) {
            seq![entries.last().subrange(0, entries.last().len() - 5)]
        } else {
            seq![]
        })
    }
}

impl GoalManager {
    /// A manager rooted at the workspace's goal directory.
    pub fn new(workspace: &str) -> (r: GoalManager)
        ensures
            r.goals_dir@ == workspace@ + "/.barqcoder/goals"@,
    {
        let mut dir = workspace.to_owned();
        dir.append("/.barqcoder/goals");
        GoalManager { goals_dir: dir }
    }

    /// The file path a goal of this name is kept under.
    pub fn goal_path(&self, name: &str) -> (r: String)
        ensures
            r@ == self.goals_dir@ + "/"@ + name@ + ".yaml"@,
    {
        let mut p = self.goals_dir.clone();
        p.append("/");
        p.append(name);
        p.append(".yaml");
        p
    }

    /// The goal names among the goal directory's file names: exactly those
    /// ending in `.yaml`, with the ending cut off, in directory order.
    pub fn list_goals(&self, entries: &Vec<String>) -> (r: Vec<String>)
        ensures
            r@.map_values(|g: String| g@) == spec_goal_names(
                entries@.map_values(|e: String| e@),
            ),
    {
        proof {
            reveal_strlit(".yaml");
            assert(".yaml"@.len() == 5);
        }
        let ghost views = entries@.map_values(|e: String| e@);
        let mut out: Vec<String> = Vec::new();
        let mut i: usize = 0;
        proof {
            assert(views.subrange(0, 0) =~= Seq::<Seq<char>>::empty());
            assert(out@.map_values(|g: String| g@) =~= spec_goal_names(views.subrange(0, 0)));
        }
        let n = entries.len();
        while i < n
            invariant
                n == entries@.len(),
                views == entries@.map_values(|e: String| e@),
                ".yaml"@.len() == 5,
                i <= n,
                out@.map_values(|g: String| g@) == spec_goal_names(views.subrange(0, i as int)),
            decreases n - i,
        {
            let ghost out_old = out@.map_values(|g: String| g@);
            if str_ends_with(entries[i].as_str(), ".yaml") {
                let len = entries[i].as_str().unicode_len();
                let trimmed = substring_of(entries[i].as_str(), 0, len - 5);
                out.push(trimmed);
                proof {
                    assert(out@.map_values(|g: String| g@) =~= out_old.push(
                        views[i as int].subrange(0, views[i as int].len() - 5),
                    ));
                }
            }
            i += 1;
            proof {
                assert(views.subrange(0, i as int).drop_last() =~= views.subrange(0, i - 1));
                assert(views.subrange(0, i as int).last() == views[i - 1]);
                assert(out@.map_values(|g: String| g@) =~= spec_goal_names(
                    views.subrange(0, i as int),
                ));
            }
        }
        proof {
            assert(views.subrange(0, views.len() as int) =~= views);
        }
        out
    }
}

} // verus!
