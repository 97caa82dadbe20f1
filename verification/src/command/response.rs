use vstd::prelude::*;

verus! {

/// A command alias that extends what was typed, with the action it runs.
#[derive(Debug, Clone, PartialEq, Eq)]
pub struct CommandHint {
    pub alias: String,
    pub action_name: String,
}

/// How typed command input resolves.
#[derive(Debug)]
pub enum CommandResponse<A> {
    Execute(A),
    Incomplete(Vec<CommandHint>),
    Unknown,
    Empty,
}

} // verus!
