//! The `farewell` command.

use vstd::prelude::*;

verus! {

/// Sets or runs the command that sees a user off.
#[derive(Debug, Default, Clone, Copy)]
pub struct FarewellCommand;

impl FarewellCommand {
    /// What the command is for.
    pub open spec fn describe() -> Seq<char> {
        "Set or execute personal farewell commands - !farewell <command> to set, !farewell to execute"@
    }

    /// What the command is for, in a line.
    pub fn description(&self) -> (text: &'static str)
        ensures
            text@ == Self::describe(),
    {
        "Set or execute personal farewell commands - !farewell <command> to set, !farewell to execute"
    }
}

} // verus!
