//! The decisions behind the guild's slash commands: which command an
//! invocation names, and what a change of configuration asks of them.

use vstd::prelude::*;
use crate::config::{RoleId, SlashCommands};
use crate::filters::{result_view, FilterResult};

verus! {

/// The commands that a guild can invoke.
#[derive(PartialEq, Eq, Structural, Clone, Copy, Debug, Hash)]
pub enum CommandKind {
    Test,
    Arm,
    Disarm,
    Reload,
}

/// The commands registered for a guild, with their ids.
pub struct CommandState {
    pub cmds: Vec<(CommandKind, u64)>,
}

/// The kind of the first registered command with id `id`.
pub open spec fn kind_of(cmds: Seq<(CommandKind, u64)>, id: u64) -> Option<CommandKind>
    decreases cmds.len(),
{
    if cmds.len() == 0 {
        None
    } else if cmds[0].1 == id {
        Some(cmds[0].0)
    } else {
        kind_of(cmds.drop_first(), id)
    }
}

proof fn lemma_kind_of(cmds: Seq<(CommandKind, u64)>, id: u64, i: int)
    requires
        0 <= i <= cmds.len(),
        forall|j: int| 0 <= j < i ==> cmds[j].1 != id,
    ensures
        i < cmds.len() && cmds[i].1 == id ==> kind_of(cmds, id) == Some(cmds[i].0),
        i == cmds.len() ==> kind_of(cmds, id) is None,
    decreases i,
{
    if i > 0 {
        lemma_kind_of(cmds.drop_first(), id, i - 1);
    }
}

impl CommandState {
    /// Which command an invocation with id `id` names, if any.
    pub fn get_command_kind(&self, id: u64) -> (r: Option<CommandKind>)
        ensures
            r == kind_of(self.cmds@, id),
    {
        for i in 0..self.cmds.len()
            invariant
                forall|j: int| 0 <= j < i ==> self.cmds@[j].1 != id,
        {
            if self.cmds[i].1 == id {
                proof {
                    lemma_kind_of(self.cmds@, id, i as int);
                }
                return Some(self.cmds[i].0);
            }
        }
        proof {
            lemma_kind_of(self.cmds@, id, self.cmds@.len() as int);
        }
        None
    }
}

/// What a change of slash-command configuration asks of the registered
/// commands.
#[derive(PartialEq, Eq, Structural, Clone, Copy, Debug)]
pub enum CommandPlan {
    /// Leave the registered commands as they are.
    Keep,
    /// Give the registered commands the new permissions.
    UpdatePermissions,
    /// Register the commands.
    Create,
    /// Remove the registered commands.
    Delete,
    /// No commands are registered and none are needed.
    Nothing,
}

/// The plan for a change of configuration from `old` to `new`, where
/// `registered` tells whether the guild has commands registered; `same_roles`
/// tells whether both configurations grant the same roles.
pub open spec fn command_plan(has_old: bool, has_new: bool, registered: bool, same_roles: bool) -> CommandPlan {
    if has_new {
        if has_old && registered {
            if same_roles {
                CommandPlan::Keep
            } else {
                CommandPlan::UpdatePermissions
            }
        } else {
            CommandPlan::Create
        }
    } else if has_old && registered {
        CommandPlan::Delete
    } else {
        CommandPlan::Nothing
    }
}

fn same_roles(a: &Vec<RoleId>, b: &Vec<RoleId>) -> (r: bool)
    ensures
        r == (a@ == b@),
{
    if a.len() != b.len() {
        return false;
    }
    for i in 0..a.len()
        invariant
            a.len() == b.len(),
            forall|j: int| 0 <= j < i ==> a@[j] == b@[j],
    {
        if a[i] != b[i] {
            return false;
        }
    }
    assert(a@ =~= b@);
    true
}

/// Decides what to do with a guild's commands when its configuration goes
/// from `old` to `new`.
pub fn plan_command_update(old: Option<&SlashCommands>, new: Option<&SlashCommands>, registered: bool) -> (r: CommandPlan)
    ensures
        r == command_plan(
            old is Some,
            new is Some,
            registered,
            old matches Some(o) && new matches Some(n) && o.roles@ == n.roles@,
        ),
{
    let same = match (old, new) {
        (Some(o), Some(n)) => same_roles(&o.roles, &n.roles),
        _ => false,
    };
    if new.is_some() {
        if old.is_some() && registered {
            if same {
                CommandPlan::Keep
            } else {
                CommandPlan::UpdatePermissions
            }
        } else {
            CommandPlan::Create
        }
    } else if old.is_some() && registered {
        CommandPlan::Delete
    } else {
        CommandPlan::Nothing
    }
}

/// The first filter of a test report that failed, with its position.
pub fn first_failed_filter(results: &Vec<FilterResult>) -> (r: Option<usize>)
    ensures
        r matches Some(i) ==> i < results@.len() && result_view(results@[i as int]) is Some
            && forall|j: int| 0 <= j < i ==> result_view(#[trigger] results@[j]) is None,
        r is None ==> forall|j: int| 0 <= j < results@.len() ==> result_view(#[trigger] results@[j]) is None,
{
    for i in 0..results.len()
        invariant
            forall|j: int| 0 <= j < i ==> result_view(#[trigger] results@[j]) is None,
    {
        match &results[i] {
            FilterResult::Violated { .. } => {
                return Some(i);
            },
            FilterResult::Clean => {},
        }
    }
    None
}

} // verus!
