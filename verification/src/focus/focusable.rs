use vstd::prelude::*;
use crate::focus::FocusTarget;

verus! {

/// A component that can describe where focus may rest inside it.
pub trait Focusable<O = ()> {
    fn focus_targets(&self) -> Vec<FocusTarget<O>>;

    fn on_focus_change(&mut self, target: &FocusTarget<O>) {
    }
}

} // verus!
