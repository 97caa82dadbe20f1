//! Where bindings come from, what bindable actions are, and the built-in
//! navigation actions as bindable entries.

use vstd::prelude::*;
use vstd::std_specs::cmp::PartialEqSpec;
use vstd::std_specs::convert::FromSpec;
use crate::input::registry::{chords_equal, copy_chords, triple_matches};
use crate::input::{InputRegistry, KeyChord};
use crate::keybindings::action::{all_actions, info_of, NavigationAction};
use crate::text::str_eq;

verus! {

/// Where a binding originated.
#[derive(Debug, Clone, Copy, PartialEq, Eq, Hash, Structural)]
pub enum BindingSource {
    Builtin,
    Config,
    CanvasBuiltin,
    Runtime,
    Unknown,
}

/// Which input layer owns a binding.
#[derive(Debug, Clone, Copy, PartialEq, Eq, Hash, Structural)]
pub enum BindingLayer {
    Keymap,
    Canvas,
}

/// One binding with its layer, mode, chords, action and origin.
#[derive(Debug, Clone, PartialEq, Eq)]
pub struct BindingInfo<A> {
    pub layer: BindingLayer,
    pub mode: String,
    pub sequence: Vec<KeyChord>,
    pub action: A,
    pub source: BindingSource,
}

/// Which layer wins when a keymap binding and a canvas binding share keys.
#[derive(Debug, Clone, Copy, PartialEq, Eq, Hash, Structural)]
pub enum CanvasRoutingPrecedence {
    KeymapFirst,
    CanvasFirst,
    StickyOwner,
}

/// A collision between bindings.
#[derive(Debug, Clone, PartialEq, Eq)]
pub enum BindingConflict<A> {
    SameModeDuplicate { mode: String, sequence: Vec<KeyChord>, first: A, second: A },
    ActiveModeShadow {
        sequence: Vec<KeyChord>,
        first_mode: String,
        first: A,
        shadowed_mode: String,
        shadowed: A,
    },
}

/// A bindable action with the name, description and modes a remap UI shows.
#[derive(Debug, Clone)]
pub struct BindableActionInfo<A> {
    pub action: A,
    pub name: &'static str,
    pub description: &'static str,
    pub modes: &'static [&'static str],
}

/// The modes a navigation action is offered in: focus actions in
/// `general`, the others in `global`.
pub open spec fn nav_modes(a: NavigationAction) -> Seq<Seq<char>> {
    if info_of(a).category@ == "Focus"@ {
        seq!["general"@]
    } else {
        seq!["global"@]
    }
}

/// The entry for navigation action `a`: its own name and description.
pub open spec fn nav_entry_matches<A: From<NavigationAction>>(e: BindableActionInfo<A>, a: NavigationAction) -> bool {
    &&& e.name == info_of(a).name
    &&& e.description == info_of(a).description
    &&& e.modes@.map_values(|m: &str| m@) == nav_modes(a)
    &&& A::obeys_from_spec() ==> e.action == A::from_spec(a)
}

fn nav_modes_of(a: NavigationAction) -> (r: &'static [&'static str])
    ensures
        r@.map_values(|m: &str| m@) == nav_modes(a),
{
    let info = a.info();
    if str_eq(info.category, "Focus") {
        let r: &'static [&'static str] = &["general"];
        assert(r@.map_values(|m: &str| m@) =~= seq!["general"@]);
        r
    } else {
        let r: &'static [&'static str] = &["global"];
        assert(r@.map_values(|m: &str| m@) =~= seq!["global"@]);
        r
    }
}

/// The navigation actions as bindable entries of the application's action
/// type, in the order of [`NavigationAction::all`].
pub fn navigation_bindable_actions<A: From<NavigationAction>>() -> (r: Vec<BindableActionInfo<A>>)
    ensures
        r@.len() == all_actions().len(),
        forall|i: int| 0 <= i < r@.len() ==> nav_entry_matches(#[trigger] r@[i], all_actions()[i]),
{
    let actions = NavigationAction::all();
    let mut out: Vec<BindableActionInfo<A>> = Vec::new();
    let mut i: usize = 0;
    while i < actions.len()
        invariant
            i <= actions@.len(),
            actions@ == all_actions(),
            out@.len() == i,
            forall|j: int| 0 <= j < i ==> nav_entry_matches(#[trigger] out@[j], all_actions()[j]),
        decreases actions@.len() - i,
    {
        let a = actions[i];
        let info = a.info();
        let entry = BindableActionInfo {
            action: A::from(a),
            name: info.name,
            description: info.description,
            modes: nav_modes_of(a),
        };
        out.push(entry);
        i = i + 1;
    }
    out
}


/// Every binding of a registry (or several), each tagged with its layer and
/// origin.
#[derive(Debug, Clone, PartialEq, Eq)]
pub struct BindingCatalog<A> {
    pub bindings: Vec<BindingInfo<A>>,
}

/// The bindings behind references, in order.
pub open spec fn infos_of<A>(s: Seq<&BindingInfo<A>>) -> Seq<BindingInfo<A>> {
    s.map_values(|b: &BindingInfo<A>| *b)
}

impl<A> Default for BindingCatalog<A> {
    fn default() -> (r: Self)
        ensures
            r.bindings@.len() == 0,
    {
        BindingCatalog { bindings: Vec::new() }
    }
}

impl<A> BindingCatalog<A> {
    pub fn new() -> (r: Self)
        ensures
            r.bindings@.len() == 0,
    {
        BindingCatalog { bindings: Vec::new() }
    }

    /// Record one more binding.
    pub fn push(&mut self, info: BindingInfo<A>)
        ensures
            final(self).bindings@ == old(self).bindings@.push(info),
    {
        self.bindings.push(info);
    }

    /// Append another catalog's bindings, each keeping its own layer, mode
    /// and origin.
    pub fn extend(&mut self, other: BindingCatalog<A>)
        ensures
            final(self).bindings@ == old(self).bindings@ + other.bindings@,
    {
        let mut rest = other.bindings;
        self.bindings.append(&mut rest);
    }

    /// The bindings in mode `mode`, in order.
    pub fn bindings_for_mode(&self, mode: &str) -> (r: Vec<&BindingInfo<A>>)
        ensures
            infos_of(r@) == self.bindings@.filter(|b: BindingInfo<A>| b.mode@ == mode@),
    {
        let ghost pred = |b: BindingInfo<A>| b.mode@ == mode@;
        let mut out: Vec<&BindingInfo<A>> = Vec::new();
        let mut i: usize = 0;
        while i < self.bindings.len()
            invariant
                i <= self.bindings@.len(),
                pred == (|b: BindingInfo<A>| b.mode@ == mode@),
                infos_of(out@) == self.bindings@.take(i as int).filter(pred),
            decreases self.bindings@.len() - i,
        {
            let ghost t1 = self.bindings@.take(i + 1);
            assert(t1.drop_last() =~= self.bindings@.take(i as int));
            assert(t1.last() == self.bindings@[i as int]);
            assert(t1.filter(pred) == if pred(t1.last()) {
                t1.drop_last().filter(pred).push(t1.last())
            } else {
                t1.drop_last().filter(pred)
            }) by {
                reveal(Seq::filter);
            }
            let ghost before = out@;
            if str_eq(self.bindings[i].mode.as_str(), mode) {
                out.push(&self.bindings[i]);
                assert(infos_of(out@) =~= infos_of(before).push(self.bindings@[i as int]));
            }
            i = i + 1;
        }
        assert(self.bindings@.take(self.bindings@.len() as int) =~= self.bindings@);
        out
    }

    /// The bindings of exactly `sequence` in mode `mode`, in order.
    pub fn bindings_for_sequence(&self, mode: &str, sequence: &[KeyChord]) -> (r: Vec<
        &BindingInfo<A>,
    >)
        ensures
            infos_of(r@) == self.bindings@.filter(
                |b: BindingInfo<A>| b.mode@ == mode@ && b.sequence@ == sequence@,
            ),
    {
        let ghost pred = |b: BindingInfo<A>| b.mode@ == mode@ && b.sequence@ == sequence@;
        let mut out: Vec<&BindingInfo<A>> = Vec::new();
        let mut i: usize = 0;
        while i < self.bindings.len()
            invariant
                i <= self.bindings@.len(),
                pred == (|b: BindingInfo<A>| b.mode@ == mode@ && b.sequence@ == sequence@),
                infos_of(out@) == self.bindings@.take(i as int).filter(pred),
            decreases self.bindings@.len() - i,
        {
            let ghost t1 = self.bindings@.take(i + 1);
            assert(t1.drop_last() =~= self.bindings@.take(i as int));
            assert(t1.last() == self.bindings@[i as int]);
            assert(t1.filter(pred) == if pred(t1.last()) {
                t1.drop_last().filter(pred).push(t1.last())
            } else {
                t1.drop_last().filter(pred)
            }) by {
                reveal(Seq::filter);
            }
            let ghost before = out@;
            if str_eq(self.bindings[i].mode.as_str(), mode) && chords_equal(
                self.bindings[i].sequence.as_slice(),
                sequence,
            ) {
                out.push(&self.bindings[i]);
                assert(infos_of(out@) =~= infos_of(before).push(self.bindings@[i as int]));
            }
            i = i + 1;
        }
        assert(self.bindings@.take(self.bindings@.len() as int) =~= self.bindings@);
        out
    }
}

impl<A: PartialEq> BindingCatalog<A> {
    /// The bindings of `action` (by `A`'s `==`), in order.
    pub fn bindings_for_action(&self, action: &A) -> (r: Vec<&BindingInfo<A>>)
        ensures
            A::obeys_eq_spec() ==> infos_of(r@) == self.bindings@.filter(
                |b: BindingInfo<A>| b.action.eq_spec(action),
            ),
    {
        let ghost pred = |b: BindingInfo<A>| b.action.eq_spec(action);
        let mut out: Vec<&BindingInfo<A>> = Vec::new();
        let mut i: usize = 0;
        while i < self.bindings.len()
            invariant
                i <= self.bindings@.len(),
                pred == (|b: BindingInfo<A>| b.action.eq_spec(action)),
                A::obeys_eq_spec() ==> infos_of(out@) == self.bindings@.take(i as int).filter(pred),
            decreases self.bindings@.len() - i,
        {
            let ghost t1 = self.bindings@.take(i + 1);
            assert(t1.drop_last() =~= self.bindings@.take(i as int));
            assert(t1.last() == self.bindings@[i as int]);
            assert(t1.filter(pred) == if pred(t1.last()) {
                t1.drop_last().filter(pred).push(t1.last())
            } else {
                t1.drop_last().filter(pred)
            }) by {
                reveal(Seq::filter);
            }
            let ghost before = out@;
            if self.bindings[i].action == *action {
                out.push(&self.bindings[i]);
                assert(infos_of(out@) =~= infos_of(before).push(self.bindings@[i as int]));
            }
            i = i + 1;
        }
        assert(self.bindings@.take(self.bindings@.len() as int) =~= self.bindings@);
        out
    }
}

/// `b` records the registry binding `t` in the keymap layer with origin
/// `source`, its action cloned.
pub open spec fn records<A: Clone>(
    b: BindingInfo<A>,
    t: (Seq<char>, Seq<KeyChord>, A),
    source: BindingSource,
) -> bool {
    &&& b.layer == BindingLayer::Keymap
    &&& b.mode@ == t.0
    &&& b.sequence@ == t.1
    &&& cloned(t.2, b.action)
    &&& b.source == source
}

impl<A: Clone> BindingCatalog<A> {
    /// Every binding of `registry`, in the order of its
    /// [`binding_list`](InputRegistry::binding_list), tagged with `source`.
    pub fn from_registry(registry: &InputRegistry<A>, source: BindingSource) -> (r: Self)
        requires
            registry.wf(),
        ensures
            r.bindings@.len() == registry.binding_list().len(),
            forall|i: int|
                0 <= i < r.bindings@.len() ==> #[trigger] records(
                    r.bindings@[i],
                    registry.binding_list()[i],
                    source,
                ),
    {
        let mut triples = registry.binding_triples();
        let ghost l = registry.binding_list();
        let ghost t0 = triples@;
        let ghost n = t0.len();
        let mut rev: Vec<(String, Vec<KeyChord>, A)> = Vec::new();
        while triples.len() > 0
            invariant
                rev@.len() + triples@.len() == n,
                n == t0.len(),
                triples@ == t0.take(triples@.len() as int),
                forall|j: int| 0 <= j < rev@.len() ==> #[trigger] rev@[j] == t0[n - 1 - j],
            decreases triples@.len(),
        {
            let ghost before = triples@;
            assert(before.last() == t0[before.len() - 1]);
            match triples.pop() {
                Some(e) => {
                    assert(triples@ == before.subrange(0, before.len() - 1));
                    rev.push(e);
                },
                None => {},
            }
            assert(triples@ =~= t0.take(triples@.len() as int));
        }
        let mut bindings: Vec<BindingInfo<A>> = Vec::new();
        while rev.len() > 0
            invariant
                bindings@.len() + rev@.len() == n,
                n == t0.len(),
                n == l.len(),
                l == registry.binding_list(),
                forall|j: int| 0 <= j < n ==> #[trigger] triple_matches(t0[j], l[j]),
                forall|j: int| 0 <= j < rev@.len() ==> #[trigger] rev@[j] == t0[n - 1 - j],
                forall|j: int| 0 <= j < bindings@.len() ==> #[trigger] records(bindings@[j], l[j], source),
            decreases rev@.len(),
        {
            let ghost k = bindings@.len() as int;
            assert(rev@[rev@.len() - 1] == t0[k]);
            match rev.pop() {
                Some((mode, sequence, action)) => {
                    assert(triple_matches(t0[k], l[k]));
                    let info = BindingInfo { layer: BindingLayer::Keymap, mode, sequence, action, source };
                    bindings.push(info);
                    assert(records(bindings@[k], l[k], source));
                },
                None => {},
            }
        }
        BindingCatalog { bindings }
    }
}

} // verus!
