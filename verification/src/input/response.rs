use vstd::prelude::*;
use crate::input::KeyChord;

verus! {

/// A key that continues a pending sequence, and the action it leads to.
#[derive(Debug, Clone, PartialEq, Eq)]
pub struct InputHint<A> {
    pub key: KeyChord,
    pub action: A,
}

/// What the pipeline decided about one key press.
#[derive(Debug, Clone, PartialEq, Eq)]
pub enum PipelineResponse<A> {
    /// A binding completed: run its action.
    Execute(A),
    /// No binding applies: the key is text for the focused input.
    Type(KeyChord),
    /// A sequence is pending; these keys continue it.
    Wait(Vec<InputHint<A>>),
    /// A pending sequence was abandoned.
    Cancel,
}

} // verus!
