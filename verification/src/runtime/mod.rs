//! The values an application and the runtime exchange: modes, page specs,
//! effects, outcomes, and contexts.

use vstd::prelude::*;
use vstd::std_specs::cmp::PartialEqSpec;
use crate::command::CommandResolver;
use crate::focus::{FocusIntent, FocusManager, FocusTarget, PageFocusBuilder};
use crate::navigation::PaneSplit;
use crate::text::str_eq;

pub mod app;
pub mod modes;

pub use app::{
    layer_order, route_keymap_response, LayerOwner, LayerResult, TuiActionHandler, TuiPages,
    TuiPagesBuilder, TuiPagesOutput, TuiPagesStatus,
};

verus! {

/// A mode identifier: a string key naming a set of active bindings.
#[derive(Debug, Hash)]
pub struct ModeId(String);

impl View for ModeId {
    type V = Seq<char>;

    closed spec fn view(&self) -> Seq<char> {
        self.0@
    }
}

impl ModeId {
    /// A mode named by a string literal.
    pub fn borrowed(value: &'static str) -> (r: Self)
        ensures
            r@ == value@,
    {
        ModeId(value.to_string())
    }

    /// A mode named by an owned copy of `value`.
    pub fn owned(value: &str) -> (r: Self)
        ensures
            r@ == value@,
    {
        ModeId(value.to_string())
    }

    /// The mode's name.
    pub fn as_str(&self) -> (r: &str)
        ensures
            r@ == self@,
    {
        self.0.as_str()
    }

    /// Whether two modes have the same name.
    pub fn same_as(&self, other: &ModeId) -> (r: bool)
        ensures
            r == (self@ == other@),
    {
        str_eq(self.0.as_str(), other.0.as_str())
    }
}

impl Clone for ModeId {
    fn clone(&self) -> (r: Self)
        ensures
            r@ == self@,
    {
        ModeId(self.0.clone())
    }
}

impl PartialEq for ModeId {
    fn eq(&self, other: &Self) -> (r: bool) {
        self.same_as(other)
    }
}

impl vstd::std_specs::cmp::PartialEqSpecImpl for ModeId {
    open spec fn obeys_eq_spec() -> bool {
        true
    }

    open spec fn eq_spec(&self, other: &Self) -> bool {
        self@ == other@
    }
}

impl Eq for ModeId {}

/// What a page looks like to the runtime: its focus targets, the item counts
/// of the sections the runtime may enter on its own, the active modes, and
/// whether it takes plain text input.
#[derive(Debug)]
pub struct PageSpec<O = ()> {
    pub focus_targets: Vec<FocusTarget<O>>,
    pub section_items: Vec<(usize, usize)>,
    pub modes: Vec<ModeId>,
    pub accepts_text_input: bool,
}

/// The names of a sequence of modes.
pub open spec fn mode_names(modes: Seq<ModeId>) -> Seq<Seq<char>> {
    modes.map_values(|m: ModeId| m@)
}

impl<O> PageSpec<O> {
    /// The `(section_id, item_count)` pairs of the page's sections.
    pub closed spec fn section_items_spec(&self) -> Seq<(usize, usize)> {
        self.section_items@
    }

    /// A page with no targets, the `general` and `global` modes, and no
    /// text input.
    pub fn new() -> (r: Self)
        ensures
            r.focus_targets@ == Seq::<FocusTarget<O>>::empty(),
            r.section_items_spec() == Seq::<(usize, usize)>::empty(),
            mode_names(r.modes@) == seq![modes::GENERAL@, modes::GLOBAL@],
            !r.accepts_text_input,
    {
        let mut m: Vec<ModeId> = Vec::new();
        m.push(ModeId::borrowed(modes::GENERAL));
        m.push(ModeId::borrowed(modes::GLOBAL));
        let r = PageSpec {
            focus_targets: Vec::new(),
            section_items: Vec::new(),
            modes: m,
            accepts_text_input: false,
        };
        assert(mode_names(r.modes@) =~= seq![modes::GENERAL@, modes::GLOBAL@]);
        r
    }

    /// The same page with these focus targets.
    pub fn focus_targets(self, targets: Vec<FocusTarget<O>>) -> (r: Self)
        ensures
            r.focus_targets@ == targets@,
            r.section_items_spec() == self.section_items_spec(),
            r.modes@ == self.modes@,
            r.accepts_text_input == self.accepts_text_input,
    {
        PageSpec { focus_targets: targets, ..self }
    }

    /// The same page with the targets and section item counts of `builder`.
    pub fn focus(self, builder: PageFocusBuilder<O>) -> (r: Self)
        ensures
            r.focus_targets@ == builder.targets_spec(),
            r.section_items_spec() == builder.section_items_spec(),
            r.modes@ == self.modes@,
            r.accepts_text_input == self.accepts_text_input,
    {
        let (targets, section_items) = builder.into_parts();
        PageSpec { focus_targets: targets, section_items, ..self }
    }

    /// The same page with these active modes.
    pub fn modes(self, modes: Vec<ModeId>) -> (r: Self)
        ensures
            r.focus_targets@ == self.focus_targets@,
            r.section_items_spec() == self.section_items_spec(),
            r.modes@ == modes@,
            r.accepts_text_input == self.accepts_text_input,
    {
        PageSpec { modes, ..self }
    }

    /// The same page, taking plain text input or not.
    pub fn accepts_text_input(self, accepts_text_input: bool) -> (r: Self)
        ensures
            r.focus_targets@ == self.focus_targets@,
            r.section_items_spec() == self.section_items_spec(),
            r.modes@ == self.modes@,
            r.accepts_text_input == accepts_text_input,
    {
        PageSpec { accepts_text_input, ..self }
    }
}

impl<O> Default for PageSpec<O> {
    fn default() -> (r: Self)
        ensures
            r.focus_targets@ == Seq::<FocusTarget<O>>::empty(),
            r.section_items_spec() == Seq::<(usize, usize)>::empty(),
            mode_names(r.modes@) == seq![modes::GENERAL@, modes::GLOBAL@],
            !r.accepts_text_input,
    {
        Self::new()
    }
}

/// Describes a page for a view, given the application state and the current
/// focus.
pub trait PageProvider<V, S: ?Sized, O = ()> {
    /// The page described for `view`, given the state and the current focus.
    spec fn page_of(&self, view: V, state: &S, focus: Option<FocusTarget<O>>) -> PageSpec<O>;

    fn page_spec(&self, view: &V, state: &S, focus: Option<&FocusTarget<O>>) -> (r: PageSpec<O>)
        ensures
            r == self.page_of(
                *view,
                state,
                match focus {
                    Some(t) => Some(*t),
                    None => None,
                },
            ),
    ;
}

/// Something an action asks the runtime to do.
#[derive(Debug, Clone, PartialEq, Eq)]
pub enum TuiEffect<V, O = (), M = ()> {
    Noop,
    Focus(FocusIntent<O, M>),
    Navigate(V),
    NextBuffer,
    PreviousBuffer,
    CloseBuffer,
    SplitPane(PaneSplit),
    ClosePane,
    NextPane,
    PreviousPane,
    RefreshPage,
    Quit,
}

/// The effects an action produced, in the order they apply.
#[derive(Debug, Clone, PartialEq, Eq)]
pub struct ActionOutcome<V, O = (), M = ()> {
    pub effects: Vec<TuiEffect<V, O, M>>,
}

impl<V, O, M> ActionOutcome<V, O, M> {
    /// No effects.
    pub fn none() -> (r: Self)
        ensures
            r.effects@ == Seq::<TuiEffect<V, O, M>>::empty(),
    {
        ActionOutcome { effects: Vec::new() }
    }

    /// Exactly one effect.
    pub fn effect(effect: TuiEffect<V, O, M>) -> (r: Self)
        ensures
            r.effects@ == seq![effect],
    {
        let mut effects: Vec<TuiEffect<V, O, M>> = Vec::new();
        effects.push(effect);
        ActionOutcome { effects }
    }

    /// These effects, in order.
    pub fn effects(effects: Vec<TuiEffect<V, O, M>>) -> (r: Self)
        ensures
            r.effects@ == effects@,
    {
        ActionOutcome { effects }
    }

    /// Append one more effect.
    pub fn push(&mut self, effect: TuiEffect<V, O, M>)
        ensures
            final(self).effects@ == old(self).effects@.push(effect),
    {
        self.effects.push(effect);
    }
}

impl<V, O, M> Default for ActionOutcome<V, O, M> {
    fn default() -> (r: Self)
        ensures
            r.effects@ == Seq::<TuiEffect<V, O, M>>::empty(),
    {
        Self::none()
    }
}

/// What a handler sees of the runtime when it handles an action.
#[derive(Debug)]
pub struct ActionContext<V, O = ()> {
    pub current_view: V,
    pub focus: Option<FocusTarget<O>>,
    pub has_overlay: bool,
}

/// The runtime parts a handler may change directly.
pub struct RuntimeContext<'a, A, O = (), M = ()> {
    pub focus: &'a mut FocusManager<O, M>,
    pub commands: &'a mut CommandResolver<A>,
}

/// An error surfaced by the runtime: one the handler returned.
#[derive(Debug, Clone, PartialEq, Eq)]
pub enum TuiPagesError<E> {
    Handler(E),
}

/// Which input context a focused widget is in: `Command`-context keys go to
/// the global keymap first, `Text`-context keys to the editing layer first.
#[derive(Debug, Clone, Copy, PartialEq, Eq, Structural)]
pub enum InputLayerContext {
    Command,
    Text,
}

/// The runtime with no canvas key hooks.
#[derive(Debug, Clone, Copy, Default, PartialEq, Eq)]
pub struct NoCanvasHooks;

/// The runtime with canvas key hooks.
#[derive(Debug, Clone, Copy, Default, PartialEq, Eq)]
pub struct CanvasHooks;

/// A canvas keybinding profile and a generation counter that changes each
/// time the profile does, so installed hooks can tell they are stale.
#[derive(Debug)]
pub struct CanvasKeybindingProfileState<P> {
    pub profile: P,
    pub generation: u64,
}

/// The generation after one more change (wrapping at `u64::MAX`).
pub open spec fn next_generation(g: u64) -> u64 {
    if g == u64::MAX {
        0
    } else {
        (g + 1) as u64
    }
}

impl<P> CanvasKeybindingProfileState<P> {
    /// A state holding `profile` at generation 0.
    pub fn new(profile: P) -> (r: Self)
        ensures
            r.profile == profile,
            r.generation == 0,
    {
        CanvasKeybindingProfileState { profile, generation: 0 }
    }

    /// Replace the profile and advance the generation.
    pub fn replace(&mut self, profile: P)
        ensures
            final(self).profile == profile,
            final(self).generation == next_generation(old(self).generation),
    {
        self.profile = profile;
        self.generation = self.generation.wrapping_add(1);
    }

    /// Advance the generation, keeping the profile.
    pub fn bump(&mut self)
        ensures
            final(self).profile == old(self).profile,
            final(self).generation == next_generation(old(self).generation),
    {
        self.generation = self.generation.wrapping_add(1);
    }
}

} // verus!
