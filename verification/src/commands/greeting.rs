//! The `greeting` command.

use vstd::prelude::*;

verus! {

/// Sets or runs the command that greets a user.
#[derive(Debug, Default, Clone, Copy)]
pub struct GreetingCommand;

impl GreetingCommand {
    /// What the command is for.
    pub open spec fn describe() -> Seq<char> {
        "Set or execute personal greeting commands - !greeting <command> to set, !greeting to execute"@
    }

    /// What the command is for, in a line.
    pub fn description(&self) -> (text: &'static str)
        ensures
            text@ == Self::describe(),
    {
        "Set or execute personal greeting commands - !greeting <command> to set, !greeting to execute"
    }
}

} // verus!
