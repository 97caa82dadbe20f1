use vstd::prelude::*;
use vstd::std_specs::cmp::PartialEqSpec;
use crate::focus::FocusTarget;

verus! {

/// A read-only snapshot of where focus currently rests.
#[derive(Debug)]
pub struct FocusQuery<O = ()> {
    pub current: Option<FocusTarget<O>>,
}

impl<O> FocusQuery<O> {
    /// Focus rests on a canvas field.
    pub fn is_on_canvas(&self) -> (r: bool)
        ensures
            r == (self.current matches Some(t) && t.is_canvas_spec()),
    {
        match &self.current {
            Some(target) => target.is_canvas(),
            None => false,
        }
    }
}

impl<O: PartialEq> FocusQuery<O> {
    /// Focus rests on `target`.
    pub fn is_focused(&self, target: &FocusTarget<O>) -> (r: bool)
        ensures
            O::obeys_eq_spec() ==> r == (self.current matches Some(t)
                && crate::focus::target_eq(t, *target)),
    {
        match &self.current {
            Some(current) => current.same_as(target),
            None => false,
        }
    }
}

} // verus!
