//! A table mapping config action names to the application's action type.

use vstd::prelude::*;
use vstd::std_specs::cmp::PartialEqSpec;
use vstd::std_specs::convert::FromSpec;
use crate::input::report::{nav_entry_matches, navigation_bindable_actions, BindableActionInfo};
use crate::keybindings::action::{all_actions, NavigationAction};
use crate::text::str_eq;

verus! {

/// Name ↔ action entries used to load and save `[keymap.*]` bindings.
#[derive(Debug)]
pub struct ActionRegistry<A> {
    entries: Vec<BindableActionInfo<A>>,
}

/// The index of the first entry named `name`.
pub open spec fn first_named<A>(entries: Seq<BindableActionInfo<A>>, name: Seq<char>) -> Option<int>
    decreases entries.len(),
{
    if entries.len() == 0 {
        None
    } else if entries[0].name@ == name {
        Some(0)
    } else {
        match first_named(entries.drop_first(), name) {
            Some(i) => Some(i + 1),
            None => None,
        }
    }
}

/// The index of the first entry whose action equals `action`.
pub open spec fn first_with_action<A: PartialEq>(entries: Seq<BindableActionInfo<A>>, action: A) -> Option<
    int,
>
    decreases entries.len(),
{
    if entries.len() == 0 {
        None
    } else if entries[0].action.eq_spec(&action) {
        Some(0)
    } else {
        match first_with_action(entries.drop_first(), action) {
            Some(i) => Some(i + 1),
            None => None,
        }
    }
}

proof fn lemma_first_named_bound<A>(entries: Seq<BindableActionInfo<A>>, name: Seq<char>)
    ensures
        first_named(entries, name) matches Some(i) ==> 0 <= i < entries.len(),
    decreases entries.len(),
{
    if entries.len() > 0 {
        lemma_first_named_bound(entries.drop_first(), name);
    }
}

proof fn lemma_first_action_bound<A: PartialEq>(entries: Seq<BindableActionInfo<A>>, action: A)
    ensures
        first_with_action(entries, action) matches Some(i) ==> 0 <= i < entries.len(),
    decreases entries.len(),
{
    if entries.len() > 0 {
        lemma_first_action_bound(entries.drop_first(), action);
    }
}

impl<A> ActionRegistry<A> {
    /// The entries, in order.
    pub closed spec fn entries_spec(&self) -> Seq<BindableActionInfo<A>> {
        self.entries@
    }

    /// A registry of exactly these entries.
    pub fn from_entries(entries: Vec<BindableActionInfo<A>>) -> (r: Self)
        ensures
            r.entries_spec() == entries@,
    {
        ActionRegistry { entries }
    }

    /// The registered entries.
    pub fn entries(&self) -> (r: &[BindableActionInfo<A>])
        ensures
            r@ == self.entries_spec(),
    {
        self.entries.as_slice()
    }

    /// Append more entries after the existing ones; lookups take the first
    /// match.
    pub fn extend(&mut self, more: Vec<BindableActionInfo<A>>)
        ensures
            final(self).entries_spec() == old(self).entries_spec() + more@,
    {
        let mut more = more;
        self.entries.append(&mut more);
    }
}

impl<A: From<NavigationAction>> ActionRegistry<A> {
    /// The built-in navigation actions only.
    pub fn navigation() -> (r: Self)
        ensures
            r.entries_spec().len() == all_actions().len(),
            forall|i: int|
                0 <= i < r.entries_spec().len() ==> nav_entry_matches(
                    #[trigger] r.entries_spec()[i],
                    all_actions()[i],
                ),
    {
        Self::from_entries(navigation_bindable_actions::<A>())
    }
}

impl<A: Clone> ActionRegistry<A> {
    /// A copy of the action of the first entry named `name`.
    pub fn resolve(&self, name: &str) -> (r: Option<A>)
        ensures
            match first_named(self.entries_spec(), name@) {
                Some(i) => r matches Some(a) && cloned(self.entries_spec()[i].action, a),
                None => r is None,
            },
    {
        let ghost es = self.entries@;
        let mut i: usize = 0;
        assert(es.skip(0) =~= es);
        while i < self.entries.len()
            invariant
                i <= self.entries@.len(),
                es == self.entries@,
                match first_named(es, name@) {
                    Some(k) => match first_named(es.skip(i as int), name@) {
                        Some(m) => k == m + i,
                        None => false,
                    },
                    None => first_named(es.skip(i as int), name@) is None,
                },
            decreases self.entries@.len() - i,
        {
            assert(es.skip(i as int)[0] == es[i as int]);
            assert(es.skip(i as int).drop_first() =~= es.skip(i + 1));
            if str_eq(self.entries[i].name, name) {
                return Some(self.entries[i].action.clone());
            }
            i = i + 1;
        }
        assert(es.skip(i as int).len() == 0);
        None
    }
}

impl<A: PartialEq> ActionRegistry<A> {
    /// The name of the first entry whose action equals `action`.
    pub fn name_of(&self, action: &A) -> (r: Option<&'static str>)
        ensures
            A::obeys_eq_spec() ==> match first_with_action(self.entries_spec(), *action) {
                Some(i) => r == Some(self.entries_spec()[i].name),
                None => r is None,
            },
            r matches Some(n) ==> exists|i: int|
                0 <= i < self.entries_spec().len() && (#[trigger] self.entries_spec()[i]).name == n,
    {
        let ghost es = self.entries@;
        let mut i: usize = 0;
        assert(es.skip(0) =~= es);
        while i < self.entries.len()
            invariant
                i <= self.entries@.len(),
                es == self.entries@,
                A::obeys_eq_spec() ==> match first_with_action(es, *action) {
                    Some(k) => match first_with_action(es.skip(i as int), *action) {
                        Some(m) => k == m + i,
                        None => false,
                    },
                    None => first_with_action(es.skip(i as int), *action) is None,
                },
            decreases self.entries@.len() - i,
        {
            assert(es.skip(i as int)[0] == es[i as int]);
            assert(es.skip(i as int).drop_first() =~= es.skip(i + 1));
            if self.entries[i].action == *action {
                assert(self.entries@[i as int].name == es[i as int].name);
                return Some(self.entries[i].name);
            }
            i = i + 1;
        }
        assert(es.skip(i as int).len() == 0);
        None
    }
}

} // verus!
