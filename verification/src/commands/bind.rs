//! The `bind` command.

use vstd::prelude::*;

verus! {

/// Sets or runs the command that a user has bound.
#[derive(Debug, Default, Clone, Copy)]
pub struct BindCommand;

impl BindCommand {
    /// What the command is for.
    pub open spec fn describe() -> Seq<char> {
        "Set or execute personal bind commands - !bind <command> to set, !bind to execute"@
    }

    /// What the command is for, in a line.
    pub fn description(&self) -> (text: &'static str)
        ensures
            text@ == Self::describe(),
    {
        "Set or execute personal bind commands - !bind <command> to set, !bind to execute"
    }
}

} // verus!
