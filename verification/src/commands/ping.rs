//! The `ping` command.

use vstd::prelude::*;

verus! {

/// Answers a ping.
#[derive(Debug, Default, Clone, Copy)]
pub struct PingCommand;

impl PingCommand {
    /// What the command is for.
    pub open spec fn describe() -> Seq<char> {
        "Responds with 'Pong!' to test command functionality"@
    }

    /// What the command is for, in a line.
    pub fn description(&self) -> (text: &'static str)
        ensures
            text@ == Self::describe(),
    {
        "Responds with 'Pong!' to test command functionality"
    }
}

} // verus!
