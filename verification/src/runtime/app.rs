//! The runtime that applies what an application's handler returns: it
//! routes each key through the input layers, dispatches actions and text to
//! the handler, and applies the effects the handler asks for.

use vstd::prelude::*;
use vstd::std_specs::cmp::PartialEqSpec;
use vstd::std_specs::convert::FromSpec;
use crate::command::{CommandHint, CommandRegistry, CommandResolver, CommandResponse};
use crate::focus::{compares_overlays, current_spec, intent_model, opt_target_cloned, register_page_model, step_model, target_eq, FocusModel};
use crate::focus::{FocusController, FocusManager, FocusTarget};
use crate::focus::FocusWrap;
use crate::input::registry::bound_in_some_mode;
use crate::keybindings::export::{keys_string, keys_text};
use crate::text::{lemma_text_lt_total, lemma_text_lt_trans, str_eq, text_less, text_lt};
use crate::input::{
    parse_binding, InputHint, InputPipeline, InputRegistry, KeyChord, KeyEvent, PipelineResponse,
};
use crate::input::pipeline::processed_after;
use crate::text::{strs_view, unicode_lower};
use crate::keybindings::action::{effect_of, NavigationAction};
use crate::keybindings::builtin::{builtin_section_keys, builtin_section_ready, try_bind_builtin_section, BuiltinNavigationPreset};
use crate::keybindings::preset::{
    apply_navigation_preset_toml, bind_map_keys, preset_toml_applied, remap_navigation_preset_toml,
    NavigationPresetError,
};
use crate::runtime::modes;
use crate::navigation::{close_pane_post, focus_pane_post, split_pane_post, BufferState};
use crate::runtime::{
    mode_names,
    ActionContext, ActionOutcome, InputLayerContext, ModeId, PageProvider, PageSpec,
    RuntimeContext, TuiEffect, TuiPagesError,
};

verus! {

/// What handling a key, a paste or a command did.
#[derive(Debug, Clone, PartialEq, Eq)]
pub enum TuiPagesStatus<A> {
    ActionHandled,
    TextHandled,
    Waiting(Vec<InputHint<A>>),
    Cancelled,
    CommandIncomplete(Vec<CommandHint>),
    CommandUnknown,
    CommandEmpty,
}

/// The status of one input, and whether an effect asked to quit.
#[derive(Debug, Clone, PartialEq, Eq)]
pub struct TuiPagesOutput<A> {
    pub status: TuiPagesStatus<A>,
    pub quit_requested: bool,
}

impl<A> TuiPagesOutput<A> {
    pub fn new(status: TuiPagesStatus<A>, quit_requested: bool) -> (r: Self)
        ensures
            r.status == status,
            r.quit_requested == quit_requested,
    {
        TuiPagesOutput { status, quit_requested }
    }
}

/// An input layer: the global keymap, or the key hook at an index.
#[derive(Debug, Clone, Copy, PartialEq, Eq, Structural)]
pub enum LayerOwner {
    Keymap,
    Hook(usize),
}

/// What one layer did with a key: began or continued a sequence (and now
/// owns the keys that follow), handled it, or let it pass (with the typed
/// chord, when the keymap produced one).
#[derive(Debug, Clone, PartialEq, Eq)]
pub enum LayerResult<A> {
    Pending(TuiPagesStatus<A>),
    Handled(TuiPagesOutput<A>),
    Ignored(Option<KeyChord>),
}

/// Implemented by the application: what an action, and typed text, do.
pub trait TuiActionHandler<V, A, S: ?Sized, O = (), M = ()> {
    type Error;

    fn handle_action(
        &mut self,
        action: A,
        ctx: ActionContext<V, O>,
        state: &mut S,
        runtime: RuntimeContext<'_, A, O, M>,
    ) -> Result<ActionOutcome<V, O, M>, Self::Error>;

    /// What a typed chord does; unless the handler overrides it, nothing.
    fn handle_text(
        &mut self,
        chord: KeyChord,
        ctx: ActionContext<V, O>,
        state: &mut S,
        runtime: RuntimeContext<'_, A, O, M>,
    ) -> (r: Result<ActionOutcome<V, O, M>, Self::Error>)
        default_ensures
            r matches Ok(outcome) && outcome.effects@.len() == 0,
    {
        Ok(ActionOutcome::none())
    }
}

/// The order in which the layers see a key: in a text context (the page
/// takes text, or the focused hook edits text) the focused hook, or every
/// hook when none is focused, comes before the keymap; otherwise the keymap
/// comes first, then the focused hook. The remaining hooks follow in index
/// order.
pub open spec fn layer_order_spec(
    hook_count: nat,
    focused_hook: Option<(usize, InputLayerContext)>,
    page_accepts_text_input: bool,
) -> Seq<LayerOwner> {
    let text = page_accepts_text_input || (focused_hook matches Some((_, c)) && c
        == InputLayerContext::Text);
    let head: Seq<LayerOwner> = if text {
        match focused_hook {
            Some((i, _)) => seq![LayerOwner::Hook(i), LayerOwner::Keymap],
            None => Seq::new(hook_count, |j: int| LayerOwner::Hook(j as usize)).push(
                LayerOwner::Keymap,
            ),
        }
    } else {
        match focused_hook {
            Some((i, _)) => seq![LayerOwner::Keymap, LayerOwner::Hook(i)],
            None => seq![LayerOwner::Keymap],
        }
    };
    head + Seq::new(hook_count, |j: int| LayerOwner::Hook(j as usize)).filter(
        |o: LayerOwner| !head.contains(o),
    )
}

fn contains_owner(order: &Vec<LayerOwner>, owner: LayerOwner) -> (r: bool)
    ensures
        r == order@.contains(owner),
{
    let mut k: usize = 0;
    while k < order.len()
        invariant
            k <= order@.len(),
            forall|j: int| 0 <= j < k ==> order@[j] != owner,
        decreases order@.len() - k,
    {
        if order[k] == owner {
            return true;
        }
        k = k + 1;
    }
    false
}

/// The layers in the order they see a key; see [`layer_order_spec`].
pub fn layer_order(
    hook_count: usize,
    focused_hook: Option<(usize, InputLayerContext)>,
    page_accepts_text_input: bool,
) -> (r: Vec<LayerOwner>)
    ensures
        r@ == layer_order_spec(hook_count as nat, focused_hook, page_accepts_text_input),
{
    let text = page_accepts_text_input || match focused_hook {
        Some((_, c)) => c == InputLayerContext::Text,
        None => false,
    };
    let mut order: Vec<LayerOwner> = Vec::new();
    if text {
        match focused_hook {
            Some((i, _)) => {
                order.push(LayerOwner::Hook(i));
            },
            None => {
                let mut j: usize = 0;
                while j < hook_count
                    invariant
                        j <= hook_count,
                        order@ == Seq::new(j as nat, |q: int| LayerOwner::Hook(q as usize)),
                    decreases hook_count - j,
                {
                    order.push(LayerOwner::Hook(j));
                    assert(order@ =~= Seq::new((j + 1) as nat, |q: int| LayerOwner::Hook(q as usize)));
                    j = j + 1;
                }
            },
        }
        order.push(LayerOwner::Keymap);
    } else {
        order.push(LayerOwner::Keymap);
        if let Some((i, _)) = focused_hook {
            order.push(LayerOwner::Hook(i));
        }
    }
    let ghost head = order@;
    proof {
        let want = layer_order_spec(hook_count as nat, focused_hook, page_accepts_text_input);
        if text {
            match focused_hook {
                Some((i, _)) => {
                    assert(head =~= seq![LayerOwner::Hook(i), LayerOwner::Keymap]);
                },
                None => {},
            }
        } else {
            match focused_hook {
                Some((i, _)) => {
                    assert(head =~= seq![LayerOwner::Keymap, LayerOwner::Hook(i)]);
                },
                None => {
                    assert(head =~= seq![LayerOwner::Keymap]);
                },
            }
        }
    }
    let mut head_vec: Vec<LayerOwner> = Vec::new();
    let mut c: usize = 0;
    while c < order.len()
        invariant
            c <= order@.len(),
            order@ == head,
            head_vec@ == head.take(c as int),
        decreases order@.len() - c,
    {
        head_vec.push(order[c]);
        assert(head_vec@ =~= head.take(c + 1));
        c = c + 1;
    }
    assert(head_vec@ =~= head);
    let ghost all = Seq::new(hook_count as nat, |q: int| LayerOwner::Hook(q as usize));
    let ghost pred = |o: LayerOwner| !head.contains(o);
    assert(all.take(0).filter(pred) =~= Seq::<LayerOwner>::empty()) by {
        reveal(Seq::filter);
    }
    assert(order@ =~= head + all.take(0).filter(pred));
    let mut j: usize = 0;
    while j < hook_count
        invariant
            j <= hook_count,
            head_vec@ == head,
            all == Seq::new(hook_count as nat, |q: int| LayerOwner::Hook(q as usize)),
            pred == (|o: LayerOwner| !head.contains(o)),
            order@ == head + all.take(j as int).filter(pred),
        decreases hook_count - j,
    {
        let owner = LayerOwner::Hook(j);
        let ghost before = order@;
        proof {
            let t = all.take(j + 1);
            assert(t.drop_last() =~= all.take(j as int));
            assert(t.last() == owner);
            assert(t.filter(pred) == if pred(owner) {
                all.take(j as int).filter(pred).push(owner)
            } else {
                all.take(j as int).filter(pred)
            }) by {
                reveal(Seq::filter);
            }
        }
        if !contains_owner(&head_vec, owner) {
            order.push(owner);
            assert(order@ =~= head + all.take(j + 1).filter(pred));
        }
        j = j + 1;
    }
    assert(all.take(hook_count as int) =~= all);
    order
}

/// The keymap's response once a typed chord has gone through the text
/// mapper: when the focus takes mapped text, a chord the mapper turns into
/// an action runs that action; everything else is unchanged.
pub open spec fn routed_response_spec<A>(
    response: PipelineResponse<A>,
    focus_accepts_mapped_text: bool,
    mapped: Option<A>,
) -> PipelineResponse<A> {
    match response {
        PipelineResponse::Type(chord) => if focus_accepts_mapped_text && mapped is Some {
            PipelineResponse::Execute(mapped->Some_0)
        } else {
            PipelineResponse::Type(chord)
        },
        other => other,
    }
}

/// The keymap's response after text mapping; `mapped` is what the text
/// mapper gave for the typed chord, if it was asked.
pub fn route_keymap_response<A>(
    response: PipelineResponse<A>,
    focus_accepts_mapped_text: bool,
    mapped: Option<A>,
) -> (r: PipelineResponse<A>)
    ensures
        r == routed_response_spec(response, focus_accepts_mapped_text, mapped),
{
    match response {
        PipelineResponse::Type(chord) => {
            if focus_accepts_mapped_text {
                match mapped {
                    Some(action) => PipelineResponse::Execute(action),
                    None => PipelineResponse::Type(chord),
                }
            } else {
                PipelineResponse::Type(chord)
            }
        },
        other => other,
    }
}

/// The status a keymap response leaves: an action ran, a sequence is
/// pending, a sequence was cancelled, or the key was typed text.
pub open spec fn key_status_spec<A>(response: PipelineResponse<A>) -> TuiPagesStatus<A> {
    match response {
        PipelineResponse::Execute(_) => TuiPagesStatus::ActionHandled,
        PipelineResponse::Wait(hints) => TuiPagesStatus::Waiting(hints),
        PipelineResponse::Cancel => TuiPagesStatus::Cancelled,
        PipelineResponse::Type(_) => TuiPagesStatus::TextHandled,
    }
}

/// The keymap pipeline went from `before` to `after` on `event`,
/// answering `r`, for some time elapsed since the previous key.
pub open spec fn key_processed<A: Clone>(
    before: InputPipeline<A>,
    after: InputPipeline<A>,
    event: KeyEvent,
    modes: Seq<Seq<char>>,
    accepts_text_input: bool,
    r: PipelineResponse<A>,
) -> bool {
    exists|n: u128| #[trigger] processed_after(before, after, event, modes, accepts_text_input, n as int, r)
}

/// Each text sorts before the next.
pub open spec fn sorted_texts(v: Seq<String>) -> bool {
    forall|p: int, q: int| 0 <= p < q < v.len() ==> text_lt(#[trigger] v[p]@, #[trigger] v[q]@)
}

/// Some text of `v` is `t`.
pub open spec fn holds_text(v: Seq<String>, t: Seq<char>) -> bool {
    exists|i: int| 0 <= i < v.len() && #[trigger] v[i]@ == t
}

fn insert_sorted(out: &mut Vec<String>, s: String)
    requires
        sorted_texts(old(out)@),
    ensures
        sorted_texts(final(out)@),
        forall|t: Seq<char>| #[trigger] holds_text(final(out)@, t) <==> (holds_text(old(out)@, t) || t == s@),
{
    let mut i: usize = 0;
    while i < out.len() && text_less(out[i].as_str(), s.as_str())
        invariant
            i <= out@.len(),
            forall|j: int| 0 <= j < i ==> text_lt(#[trigger] out@[j]@, s@),
        decreases out@.len() - i,
    {
        i = i + 1;
    }
    if i < out.len() && str_eq(out[i].as_str(), s.as_str()) {
        assert forall|t: Seq<char>| #[trigger] holds_text(out@, t) <==> (holds_text(out@, t) || t == s@) by {
            if t == s@ {
                assert(out@[i as int]@ == t);
            }
        }
        return;
    }
    let ghost old_out = out@;
    proof {
        if i < old_out.len() {
            lemma_text_lt_total(old_out[i as int]@, s@);
            assert(text_lt(s@, old_out[i as int]@));
            assert forall|q: int| i <= q < old_out.len() implies text_lt(s@, #[trigger] old_out[q]@) by {
                if q > i {
                    lemma_text_lt_trans(s@, old_out[i as int]@, old_out[q]@);
                }
            }
        }
    }
    out.insert(i, s);
    assert(out@ =~= old_out.insert(i as int, s));
    assert forall|p: int, q: int| 0 <= p < q < out@.len() implies text_lt(#[trigger] out@[p]@, #[trigger] out@[q]@) by {
        if q < i {
            assert(out@[p] == old_out[p] && out@[q] == old_out[q]);
        } else if q == i {
            assert(out@[p] == old_out[p]);
        } else if p == i {
            assert(out@[q] == old_out[q - 1]);
        } else if p < i {
            assert(out@[p] == old_out[p] && out@[q] == old_out[q - 1]);
            assert(text_lt(old_out[p]@, s@));
            lemma_text_lt_trans(old_out[p]@, s@, old_out[q - 1]@);
        } else {
            assert(out@[p] == old_out[p - 1] && out@[q] == old_out[q - 1]);
        }
    }
    assert forall|t: Seq<char>| #[trigger] holds_text(out@, t) <==> (holds_text(old_out, t) || t == s@) by {
        if holds_text(out@, t) {
            let k = choose|k: int| 0 <= k < out@.len() && #[trigger] out@[k]@ == t;
            if k < i {
                assert(old_out[k]@ == t);
            } else if k > i {
                assert(old_out[k - 1]@ == t);
            }
        }
        if holds_text(old_out, t) {
            let k = choose|k: int| 0 <= k < old_out.len() && #[trigger] old_out[k]@ == t;
            if k < i {
                assert(out@[k]@ == t);
            } else {
                assert(out@[k + 1]@ == t);
            }
        }
        if t == s@ {
            assert(out@[i as int]@ == t);
        }
    }
}

/// The runtime: the input pipeline, command resolver, focus manager and
/// buffers of an application, with the pages that describe its views and
/// the handler that answers its actions.
pub struct TuiPages<V, A, Pages = (), Handler = (), O = (), M = ()> {
    pub input: InputPipeline<A>,
    pub commands: CommandResolver<A>,
    pub focus: FocusManager<O, M>,
    pub buffer: BufferState<V>,
    pages: Pages,
    handler: Handler,
    fallback_view: V,
    reserve_command_line: bool,
    active_owner: Option<LayerOwner>,
}

impl<V, A, Pages, Handler, O, M> TuiPages<V, A, Pages, Handler, O, M> {
    /// The layer that owns a pending sequence, if any.
    pub closed spec fn owner_spec(&self) -> Option<LayerOwner> {
        self.active_owner
    }

    /// The view opened when the last buffer closes.
    pub closed spec fn fallback_spec(&self) -> V {
        self.fallback_view
    }

    pub closed spec fn input_spec(&self) -> InputPipeline<A> {
        self.input
    }

    pub closed spec fn commands_spec(&self) -> CommandResolver<A> {
        self.commands
    }

    pub closed spec fn focus_spec(&self) -> FocusManager<O, M> {
        self.focus
    }

    pub closed spec fn buffer_spec(&self) -> BufferState<V> {
        self.buffer
    }

    pub closed spec fn pages_spec(&self) -> Pages {
        self.pages
    }

    pub closed spec fn handler_spec(&self) -> Handler {
        self.handler
    }

    /// Whether the bottom row is kept for the command line.
    pub closed spec fn reserve_spec(&self) -> bool {
        self.reserve_command_line
    }

    /// The keymap is well formed and a valid buffer and pane are active.
    pub closed spec fn wf(&self) -> bool {
        &&& self.input.registry.wf()
        &&& self.buffer.active_index < self.buffer.history@.len()
        &&& self.buffer.workspace.active_pane < self.buffer.workspace.panes@.len()
    }
}

/// The two target lists have the same length and agree position by position.
pub open spec fn targets_agree<O: PartialEq>(a: Seq<FocusTarget<O>>, b: Seq<FocusTarget<O>>) -> bool {
    a.len() == b.len() && forall|k: int| 0 <= k < a.len() ==> #[trigger] target_eq(a[k], b[k])
}

/// No target of the list is an overlay.
pub open spec fn no_overlay_targets<O>(a: Seq<FocusTarget<O>>) -> bool {
    forall|k: int| 0 <= k < a.len() ==> !(#[trigger] a[k] is Overlay)
}

/// Focus after syncing to a page: the page's targets are registered unless
/// they agree with the current ones, and its section item counts recorded.
pub open spec fn focus_synced<O: PartialEq, M>(
    before: FocusModel<O, M>,
    targets: Seq<FocusTarget<O>>,
    items: Seq<(usize, usize)>,
) -> FocusModel<O, M> {
    let base = if targets_agree(before.targets, targets) {
        before
    } else {
        register_page_model(before, targets)
    };
    FocusModel { section_items: items, ..base }
}

/// Syncing to a page whose targets agree with the registered ones keeps the
/// cursor, the overlay and the entered section, so focus stays put across
/// redraws; the section item counts are always taken from the page. Syncing
/// again to the same page (one without overlay targets) changes nothing.
pub proof fn lemma_focus_sync_keeps_position<O: PartialEq, M>(
    before: FocusModel<O, M>,
    targets: Seq<FocusTarget<O>>,
    items: Seq<(usize, usize)>,
)
    ensures
        focus_synced(before, targets, items).section_items == items,
        targets_agree(before.targets, targets) ==> focus_synced(before, targets, items) == (FocusModel {
            section_items: items,
            ..before
        }),
        no_overlay_targets(targets) ==> focus_synced(focus_synced(before, targets, items), targets, items)
            == focus_synced(before, targets, items),
{
    let a = focus_synced(before, targets, items);
    if no_overlay_targets(targets) {
        if !targets_agree(before.targets, targets) {
            assert forall|k: int| 0 <= k < targets.len() implies #[trigger] target_eq(targets[k], targets[k]) by {
                assert(!(targets[k] is Overlay));
            }
            assert(targets_agree(a.targets, targets));
        }
        assert(focus_synced(a, targets, items) =~= a);
    }
}

fn same_targets<O: PartialEq>(a: &[FocusTarget<O>], b: &[FocusTarget<O>]) -> (r: bool)
    ensures
        O::obeys_eq_spec() || no_overlay_targets(a@) ==> r == targets_agree(a@, b@),
{
    if a.len() != b.len() {
        return false;
    }
    let mut k: usize = 0;
    while k < a.len()
        invariant
            k <= a@.len(),
            a@.len() == b@.len(),
            O::obeys_eq_spec() || no_overlay_targets(a@) ==> forall|j: int| 0 <= j < k ==> #[trigger] target_eq(a@[j], b@[j]),
        decreases a@.len() - k,
    {
        if !a[k].same_as(&b[k]) {
            proof {
                if O::obeys_eq_spec() || no_overlay_targets(a@) {
                    assert(!(a@[k as int] is Overlay && b@[k as int] is Overlay) || O::obeys_eq_spec());
                    assert(!target_eq(a@[k as int], b@[k as int]));
                }
            }
            return false;
        }
        k = k + 1;
    }
    true
}

/// Focus after the runtime asked `pages` for the page of `view`, given the
/// state and the focus as it was, and synced to that page.
pub open spec fn focus_refreshed<V, S: ?Sized, O: Clone + PartialEq, M, P: PageProvider<V, S, O>>(
    pages: P,
    view: V,
    state: &S,
    before: FocusModel<O, M>,
    after: FocusModel<O, M>,
) -> bool {
    O::obeys_eq_spec() || no_overlay_targets(before.targets) ==> exists|focus: Option<FocusTarget<O>>|
        #[trigger] opt_target_cloned(current_spec(before), focus) && {
            let page = pages.page_of(view, state, focus);
            after == focus_synced(before, page.focus_targets@, page.section_items@)
        }
}

/// The buffers after switching one step in `forward` direction: nothing
/// with at most one buffer; otherwise the active buffer steps per `wrap`.
pub open spec fn buffer_switched<V>(before: BufferState<V>, after: BufferState<V>, forward: bool, wrap: crate::focus::FocusWrap) -> bool {
    &&& after.history@ == before.history@
    &&& after.active_index == (if before.history@.len() > 1 {
        wrap.step_spec(before.active_index as int, before.history@.len() as int, forward) as usize
    } else {
        before.active_index
    })
}

impl<V: Clone + PartialEq, A: Clone, Pages, Handler, O: Clone + PartialEq, M> TuiPages<
    V,
    A,
    Pages,
    Handler,
    O,
    M,
> {
    /// The active buffer's view.
    pub fn current_view(&self) -> (r: &V)
        requires
            self.wf(),
        ensures
            *r == self.buffer_spec().history@[self.buffer_spec().active_index as int],
    {
        &self.buffer.history[self.buffer.active_index]
    }

    /// The pages that describe the views.
    pub fn pages(&self) -> (r: &Pages)
        ensures
            *r == self.pages_spec(),
    {
        &self.pages
    }

    /// The pages, for changing them in place; the rest of the runtime stays.
    pub fn pages_mut(&mut self) -> (r: &mut Pages)
        ensures
            *r == old(self).pages_spec(),
            final(self).pages_spec() == *final(r),
            final(self).handler_spec() == old(self).handler_spec(),
            final(self).input_spec() == old(self).input_spec(),
            final(self).focus_spec() == old(self).focus_spec(),
            final(self).buffer_spec() == old(self).buffer_spec(),
            final(self).commands_spec() == old(self).commands_spec(),
            final(self).owner_spec() == old(self).owner_spec(),
            final(self).fallback_spec() == old(self).fallback_spec(),
            final(self).wf() == old(self).wf(),
    {
        &mut self.pages
    }

    /// The handler that answers actions.
    pub fn handler(&self) -> (r: &Handler)
        ensures
            *r == self.handler_spec(),
    {
        &self.handler
    }

    /// The handler, for changing it in place; the rest of the runtime stays.
    pub fn handler_mut(&mut self) -> (r: &mut Handler)
        ensures
            *r == old(self).handler_spec(),
            final(self).handler_spec() == *final(r),
            final(self).pages_spec() == old(self).pages_spec(),
            final(self).input_spec() == old(self).input_spec(),
            final(self).focus_spec() == old(self).focus_spec(),
            final(self).buffer_spec() == old(self).buffer_spec(),
            final(self).commands_spec() == old(self).commands_spec(),
            final(self).owner_spec() == old(self).owner_spec(),
            final(self).fallback_spec() == old(self).fallback_spec(),
            final(self).wf() == old(self).wf(),
    {
        &mut self.handler
    }

    /// Whether the bottom row is kept for the command line.
    pub fn reserve_command_line(&self) -> (r: bool)
        ensures
            r == self.reserve_spec(),
    {
        self.reserve_command_line
    }

    /// Drop the keymap's pending sequence and the layer that owned it.
    pub fn reset_input_routing(&mut self)
        ensures
            final(self).input_spec().registry == old(self).input_spec().registry,
            final(self).input_spec().tracker@ == Seq::<KeyChord>::empty(),
            final(self).input_spec().tracker.timeout_spec() == old(self).input_spec().tracker.timeout_spec(),
            final(self).owner_spec() is None,
            final(self).focus_spec() == old(self).focus_spec(),
            final(self).buffer_spec() == old(self).buffer_spec(),
            final(self).commands_spec() == old(self).commands_spec(),
            final(self).fallback_spec() == old(self).fallback_spec(),
            final(self).pages_spec() == old(self).pages_spec(),
            final(self).handler_spec() == old(self).handler_spec(),
            old(self).wf() ==> final(self).wf(),
    {
        self.input.reset();
        self.active_owner = None;
    }

    fn sync_focus_to_spec(&mut self, spec: PageSpec<O>)
        ensures
            O::obeys_eq_spec() || no_overlay_targets(old(self).focus@.targets) ==> final(self).focus@
                == focus_synced(old(self).focus@, spec.focus_targets@, spec.section_items@),
            final(self).input == old(self).input,
            final(self).buffer == old(self).buffer,
            final(self).commands == old(self).commands,
            final(self).active_owner == old(self).active_owner,
            final(self).focus@.wrap == old(self).focus@.wrap,
            final(self).fallback_view == old(self).fallback_view,
            final(self).pages == old(self).pages,
            final(self).handler == old(self).handler,
    {
        let PageSpec { focus_targets, section_items, .. } = spec;
        if !same_targets(self.focus.targets(), focus_targets.as_slice()) {
            self.focus.register_page(focus_targets);
        }
        self.focus.set_section_items(section_items);
    }

    /// Ask the pages for the current view's page and register its focus
    /// targets (only when they changed) and section item counts.
    pub fn refresh_page<S: ?Sized>(&mut self, state: &S)
        where
            Pages: PageProvider<V, S, O>,
        requires
            old(self).wf(),
        ensures
            final(self).wf(),
            final(self).input_spec() == old(self).input_spec(),
            final(self).buffer_spec() == old(self).buffer_spec(),
            final(self).commands_spec() == old(self).commands_spec(),
            final(self).owner_spec() == old(self).owner_spec(),
            final(self).focus_spec()@.wrap == old(self).focus_spec()@.wrap,
            final(self).fallback_spec() == old(self).fallback_spec(),
            final(self).pages_spec() == old(self).pages_spec(),
            final(self).handler_spec() == old(self).handler_spec(),
            focus_refreshed(
                old(self).pages_spec(),
                old(self).buffer_spec().history@[old(self).buffer_spec().active_index as int],
                state,
                old(self).focus_spec()@,
                final(self).focus_spec()@,
            ),
    {
        let current = self.focus.current();
        let spec = self.pages.page_spec(self.current_view(), state, current.as_ref());
        let ghost g = spec;
        self.sync_focus_to_spec(spec);
        proof {
            if O::obeys_eq_spec() || no_overlay_targets(old(self).focus@.targets) {
                assert(self.focus@ == focus_synced(old(self).focus@, g.focus_targets@, g.section_items@));
            }
        }
    }

    fn switch_buffer<S: ?Sized>(&mut self, forward: bool, state: &S)
        where
            Pages: PageProvider<V, S, O>,
        requires
            old(self).wf(),
        ensures
            final(self).wf(),
            buffer_switched(old(self).buffer, final(self).buffer, forward, old(self).focus@.wrap),
            final(self).input == old(self).input,
            final(self).commands == old(self).commands,
            final(self).active_owner == old(self).active_owner,
            final(self).fallback_view == old(self).fallback_view,
            final(self).pages == old(self).pages,
            final(self).handler == old(self).handler,
            if old(self).buffer.history@.len() > 1 {
                focus_refreshed(
                    old(self).pages,
                    final(self).buffer.history@[final(self).buffer.active_index as int],
                    state,
                    old(self).focus@,
                    final(self).focus@,
                )
            } else {
                final(self).focus == old(self).focus
            },
    {
        if self.buffer.history.len() <= 1 {
            return;
        }
        let len = self.buffer.history.len();
        let wrap = self.focus.focus_wrap();
        proof {
            crate::focus::lemma_step_in_range(wrap, self.buffer.active_index as int, len as int, forward);
        }
        self.buffer.active_index = wrap.step(self.buffer.active_index, len, forward);
        self.buffer.sync_active_pane_to_active_buffer();
        self.refresh_page(state);
    }

    /// The input routing was reset: no sequence is pending and no layer
    /// owns the keys that follow.
    pub open spec fn routing_reset(self, after: Self) -> bool {
        &&& after.input_spec().tracker@ == Seq::<KeyChord>::empty()
        &&& after.input_spec().tracker.timeout_spec() == self.input_spec().tracker.timeout_spec()
        &&& after.input_spec().registry == self.input_spec().registry
        &&& after.owner_spec() is None
    }

    /// The state after applying `effect` to `self`.
    pub open spec fn effect_applied<S: ?Sized>(self, after: Self, effect: TuiEffect<V, O, M>, state: &S) -> bool
        where
            Pages: PageProvider<V, S, O>,
    {
        let panes = self.buffer_spec().workspace.panes@.len();
        let wrap = self.focus_spec()@.wrap;
        let refreshed = focus_refreshed(
            self.pages_spec(),
            after.buffer_spec().history@[after.buffer_spec().active_index as int],
            state,
            self.focus_spec()@,
            after.focus_spec()@,
        );
        &&& after.commands_spec() == self.commands_spec()
        &&& after.fallback_spec() == self.fallback_spec()
        &&& after.pages_spec() == self.pages_spec()
        &&& after.handler_spec() == self.handler_spec()
        &&& match effect {
            TuiEffect::Noop => after == self,
            TuiEffect::Quit => after == self,
            TuiEffect::Focus(intent) => {
                &&& (self.focus_spec().wf() && (O::obeys_eq_spec() || !compares_overlays(intent)))
                    ==> after.focus_spec()@ == intent_model(self.focus_spec()@, intent)
                &&& after.buffer_spec() == self.buffer_spec()
                &&& after.input_spec() == self.input_spec()
                &&& after.owner_spec() == self.owner_spec()
            },
            TuiEffect::Navigate(view) => {
                &&& self.routing_reset(after)
                &&& crate::navigation::history_updated(
                    self.buffer_spec().history@,
                    after.buffer_spec().history@,
                    after.buffer_spec().active_index,
                    view,
                )
                &&& refreshed
            },
            TuiEffect::NextBuffer => {
                &&& self.routing_reset(after)
                &&& buffer_switched(self.buffer_spec(), after.buffer_spec(), true, wrap)
                &&& if self.buffer_spec().history@.len() > 1 {
                    refreshed
                } else {
                    after.focus_spec() == self.focus_spec()
                }
            },
            TuiEffect::PreviousBuffer => {
                &&& self.routing_reset(after)
                &&& buffer_switched(self.buffer_spec(), after.buffer_spec(), false, wrap)
                &&& if self.buffer_spec().history@.len() > 1 {
                    refreshed
                } else {
                    after.focus_spec() == self.focus_spec()
                }
            },
            TuiEffect::CloseBuffer => {
                &&& self.routing_reset(after)
                &&& self.buffer_spec().history@.len() > 1 ==> after.buffer_spec().history@
                    == self.buffer_spec().history@.remove(self.buffer_spec().active_index as int)
                &&& self.buffer_spec().history@.len() == 1 ==> after.buffer_spec().history@.len() == 1
                    && cloned(self.fallback_spec(), after.buffer_spec().history@[0])
                &&& refreshed
            },
            TuiEffect::SplitPane(split) => {
                &&& after.input_spec() == self.input_spec()
                &&& after.owner_spec() == self.owner_spec()
                &&& after.focus_spec() == self.focus_spec()
                &&& if self.buffer_spec().workspace.next_pane_id < usize::MAX {
                    split_pane_post(self.buffer_spec(), after.buffer_spec(), split, true)
                } else {
                    after.buffer_spec() == self.buffer_spec()
                }
            },
            TuiEffect::ClosePane => {
                &&& after.input_spec() == self.input_spec()
                &&& after.owner_spec() == self.owner_spec()
                &&& close_pane_post(self.buffer_spec(), after.buffer_spec(), panes > 1)
                &&& refreshed
            },
            TuiEffect::NextPane => {
                &&& after.input_spec() == self.input_spec()
                &&& after.owner_spec() == self.owner_spec()
                &&& focus_pane_post(self.buffer_spec(), after.buffer_spec(), true, wrap, panes > 1)
                &&& refreshed
            },
            TuiEffect::PreviousPane => {
                &&& after.input_spec() == self.input_spec()
                &&& after.owner_spec() == self.owner_spec()
                &&& focus_pane_post(self.buffer_spec(), after.buffer_spec(), false, wrap, panes > 1)
                &&& refreshed
            },
            TuiEffect::RefreshPage => {
                &&& after.input_spec() == self.input_spec()
                &&& after.owner_spec() == self.owner_spec()
                &&& after.buffer_spec() == self.buffer_spec()
                &&& refreshed
            },
        }
    }

    /// The states passed through by applying `effects` to `self` one by one,
    /// in order: the first is `self`, each next one is the one before with
    /// the next effect applied.
    pub open spec fn effect_trace<S: ?Sized>(self, states: Seq<Self>, effects: Seq<TuiEffect<V, O, M>>, state: &S) -> bool
        where
            Pages: PageProvider<V, S, O>,
    {
        &&& states.len() == effects.len() + 1
        &&& states[0] == self
        &&& forall|i: int| 0 <= i < effects.len() ==> #[trigger] states[i].effect_applied(states[i + 1], effects[i], state)
    }

    /// The state after applying `effects` to `self` one by one, in order.
    pub open spec fn effects_applied<S: ?Sized>(self, after: Self, effects: Seq<TuiEffect<V, O, M>>, state: &S) -> bool
        where
            Pages: PageProvider<V, S, O>,
    {
        exists|states: Seq<Self>| #[trigger] self.effect_trace(states, effects, state) && states.last() == after
    }

    /// `after` is a state that the handler's outcome led to from `self`: the
    /// handler may have moved focus and changed commands, and then some
    /// effects were applied in order; `quit` says whether one asked to quit.
    pub open spec fn outcome_applied<S: ?Sized>(self, after: Self, quit: bool, state: &S) -> bool
        where
            Pages: PageProvider<V, S, O>,
    {
        exists|mid: Self, effects: Seq<TuiEffect<V, O, M>>| {
            &&& mid.input_spec() == self.input_spec()
            &&& mid.buffer_spec() == self.buffer_spec()
            &&& mid.owner_spec() == self.owner_spec()
            &&& mid.fallback_spec() == self.fallback_spec()
            &&& #[trigger] mid.effects_applied(after, effects, state)
            &&& quit == exists|k: int| 0 <= k < effects.len() && #[trigger] effects[k] is Quit
        }
    }

    /// Apply one effect; `true` when it asks to quit.
    pub fn apply_effect<S: ?Sized>(&mut self, effect: TuiEffect<V, O, M>, state: &S) -> (quit: bool)
        where
            Pages: PageProvider<V, S, O>,
        requires
            old(self).wf(),
        ensures
            final(self).wf(),
            quit == (effect is Quit),
            old(self).effect_applied(*final(self), effect, state),
    {
        match effect {
            TuiEffect::Noop => false,
            TuiEffect::Focus(intent) => {
                self.focus.apply_focus_intent(intent);
                false
            },
            TuiEffect::Navigate(view) => {
                self.reset_input_routing();
                self.buffer.update_history(view);
                self.refresh_page(state);
                false
            },
            TuiEffect::NextBuffer => {
                self.reset_input_routing();
                self.switch_buffer(true, state);
                false
            },
            TuiEffect::PreviousBuffer => {
                self.reset_input_routing();
                self.switch_buffer(false, state);
                false
            },
            TuiEffect::CloseBuffer => {
                self.reset_input_routing();
                let fallback = self.fallback_view.clone();
                assert(cloned(self.fallback_view, fallback));
                let ghost before = self.buffer.history@;
                self.buffer.close_active_buffer(fallback);
                proof {
                    if before.len() == 1 {
                        assert(before.remove(0).len() == 0);
                        assert(self.buffer.history@ == seq![fallback]);
                    }
                }
                self.refresh_page(state);
                false
            },
            TuiEffect::SplitPane(split) => {
                if self.buffer.workspace.next_pane_id < usize::MAX {
                    self.buffer.split_active_pane(split);
                }
                false
            },
            TuiEffect::ClosePane => {
                self.buffer.close_active_pane();
                self.refresh_page(state);
                false
            },
            TuiEffect::NextPane => {
                let wrap = self.focus.focus_wrap();
                self.buffer.focus_next_pane(wrap);
                self.refresh_page(state);
                false
            },
            TuiEffect::PreviousPane => {
                let wrap = self.focus.focus_wrap();
                self.buffer.focus_previous_pane(wrap);
                self.refresh_page(state);
                false
            },
            TuiEffect::RefreshPage => {
                self.refresh_page(state);
                false
            },
            TuiEffect::Quit => true,
        }
    }

    /// Apply the outcome's effects in order; `true` when one asks to quit.
    pub fn apply_outcome<S: ?Sized>(&mut self, outcome: ActionOutcome<V, O, M>, state: &S) -> (quit: bool)
        where
            Pages: PageProvider<V, S, O>,
        requires
            old(self).wf(),
        ensures
            final(self).wf(),
            quit == exists|k: int| 0 <= k < outcome.effects@.len() && #[trigger] outcome.effects@[k] is Quit,
            old(self).effects_applied(*final(self), outcome.effects@, state),
    {
        let mut effects = outcome.effects;
        let ghost all = effects@;
        let ghost start = *self;
        let ghost mut trace: Seq<Self> = seq![*self];
        assert(all.take(0) =~= Seq::<TuiEffect<V, O, M>>::empty());
        let n = effects.len();
        let mut quit = false;
        let mut k: usize = 0;
        while effects.len() > 0
            invariant
                self.wf(),
                k <= all.len(),
                effects@ == all.subrange(k as int, all.len() as int),
                effects@.len() == all.len() - k,
                all.len() == n,
                quit == exists|j: int| 0 <= j < k && #[trigger] all[j] is Quit,
                start.effect_trace(trace, all.take(k as int), state),
                trace.last() == *self,
            decreases effects@.len(),
        {
            let effect = effects.remove(0);
            assert(effect == all[k as int]);
            let ghost prev = *self;
            let q = self.apply_effect(effect, state);
            proof {
                let t2 = trace.push(*self);
                let es2 = all.take(k + 1);
                assert forall|i: int| 0 <= i < es2.len() implies #[trigger] t2[i].effect_applied(t2[i + 1], es2[i], state) by {
                    if i < k {
                        assert(t2[i] == trace[i] && t2[i + 1] == trace[i + 1] && es2[i] == all.take(k as int)[i]);
                    } else {
                        assert(t2[i] == prev && t2[i + 1] == *self && es2[i] == all[k as int]);
                    }
                }
                trace = t2;
            }
            quit = quit || q;
            k = k + 1;
            assert(effects@ =~= all.subrange(k as int, all.len() as int));
        }
        assert(k == all.len());
        assert(all.take(k as int) =~= all);
        assert(start.effect_trace(trace, all, state) && trace.last() == *self);
        quit
    }

    fn context(&self) -> (r: ActionContext<V, O>)
        requires
            self.wf(),
    {
        ActionContext {
            current_view: self.current_view().clone(),
            focus: self.focus.current(),
            has_overlay: self.focus.has_overlay(),
        }
    }

    /// Hand `action` to the handler and apply the outcome it returns;
    /// `true` when an effect asks to quit.
    fn dispatch_action<S: ?Sized>(&mut self, action: A, state: &mut S) -> (r: Result<
        bool,
        TuiPagesError<Handler::Error>,
    >)
        where
            Pages: PageProvider<V, S, O>,
            Handler: TuiActionHandler<V, A, S, O, M>,
        requires
            old(self).wf(),
        ensures
            final(self).wf(),
            r matches Ok(quit) ==> old(self).outcome_applied(*final(self), quit, final(state)),
    {
        let ctx = self.context();
        let runtime = RuntimeContext { focus: &mut self.focus, commands: &mut self.commands };
        match self.handler.handle_action(action, ctx, state, runtime) {
            Ok(outcome) => {
                let ghost mid = *self;
                let ghost effects = outcome.effects@;
                let quit = self.apply_outcome(outcome, state);
                assert(mid.effects_applied(*self, effects, state));
                Ok(quit)
            },
            Err(e) => Err(TuiPagesError::Handler(e)),
        }
    }

    /// Hand typed `chord` to the handler and apply the outcome it returns.
    fn dispatch_text<S: ?Sized>(&mut self, chord: KeyChord, state: &mut S) -> (r: Result<
        bool,
        TuiPagesError<Handler::Error>,
    >)
        where
            Pages: PageProvider<V, S, O>,
            Handler: TuiActionHandler<V, A, S, O, M>,
        requires
            old(self).wf(),
        ensures
            final(self).wf(),
            r matches Ok(quit) ==> old(self).outcome_applied(*final(self), quit, final(state)),
    {
        let ctx = self.context();
        let runtime = RuntimeContext { focus: &mut self.focus, commands: &mut self.commands };
        match self.handler.handle_text(chord, ctx, state, runtime) {
            Ok(outcome) => {
                let ghost mid = *self;
                let ghost effects = outcome.effects@;
                let quit = self.apply_outcome(outcome, state);
                assert(mid.effects_applied(*self, effects, state));
                Ok(quit)
            },
            Err(e) => Err(TuiPagesError::Handler(e)),
        }
    }

    /// Offer `key` to the keymap layer: an action runs, a sequence is
    /// pending, a sequence is cancelled, or the key passes on as typed text.
    fn run_keymap<S: ?Sized>(
        &mut self,
        key: KeyEvent,
        modes: &[&str],
        accepts_text_input: bool,
        state: &mut S,
    ) -> (r: Result<LayerResult<A>, TuiPagesError<Handler::Error>>)
        where
            Pages: PageProvider<V, S, O>,
            Handler: TuiActionHandler<V, A, S, O, M>,
        requires
            old(self).wf(),
        ensures
            final(self).wf(),
            (r matches Ok(LayerResult::Pending(_)) || r matches Ok(LayerResult::Ignored(_)))
                ==> final(self).active_owner == old(self).active_owner,
            r matches Ok(LayerResult::Pending(status)) ==> status is Waiting
                && final(self).input.tracker@.len() > 0,
            r matches Ok(LayerResult::Handled(out)) ==> out.status is ActionHandled || (out.status is Cancelled
                && !out.quit_requested),
            r matches Ok(LayerResult::Ignored(c)) ==> c is Some,
            exists|after: InputPipeline<A>, resp: PipelineResponse<A>| {
                &&& #[trigger] key_processed(old(self).input, after, key, strs_view(modes@), accepts_text_input, resp)
                &&& match r {
                    Ok(LayerResult::Pending(status)) => resp matches PipelineResponse::Wait(h)
                        && status == TuiPagesStatus::Waiting(h) && final(self).input == after
                        && final(self).buffer == old(self).buffer,
                    Ok(LayerResult::Handled(out)) => (resp is Execute && out.status is ActionHandled && (exists|
                        mid: Self,
                    | mid.input == after && #[trigger] mid.outcome_applied(*final(self), out.quit_requested, final(state))
                        && mid.buffer == old(self).buffer && mid.active_owner == old(self).active_owner
                        && mid.fallback_view == old(self).fallback_view)) || (
                    resp is Cancel && out.status is Cancelled && !out.quit_requested && final(self).input == after
                        && final(self).active_owner == old(self).active_owner),
                    Ok(LayerResult::Ignored(c)) => resp matches PipelineResponse::Type(ch) && c == Some(ch)
                        && final(self).input == after && final(self).buffer == old(self).buffer
                        && final(self).fallback_view == old(self).fallback_view,
                    Err(_) => resp is Execute,
                }
            },
    {
        let response = self.input.process(key, modes, accepts_text_input);
        let ghost after = self.input;
        let ghost resp = response;
        assert(key_processed(old(self).input, after, key, strs_view(modes@), accepts_text_input, resp));
        match response {
            PipelineResponse::Execute(action) => {
                let ghost mid = *self;
                match self.dispatch_action(action, state) {
                    Ok(quit) => {
                        assert(mid.outcome_applied(*self, quit, state));
                        Ok(LayerResult::Handled(TuiPagesOutput::new(TuiPagesStatus::ActionHandled, quit)))
                    },
                    Err(e) => Err(e),
                }
            },
            PipelineResponse::Wait(hints) => Ok(LayerResult::Pending(TuiPagesStatus::Waiting(hints))),
            PipelineResponse::Cancel => Ok(
                LayerResult::Handled(TuiPagesOutput::new(TuiPagesStatus::Cancelled, false)),
            ),
            PipelineResponse::Type(chord) => Ok(LayerResult::Ignored(Some(chord))),
        }
    }

    /// Every key sequence bound to `action` in some mode, as displayed
    /// (chords joined by spaces), sorted, each once.
    pub fn keys_for(&self, action: &A) -> (r: Vec<String>)
        where
            A: PartialEq,
        requires
            self.wf(),
        ensures
            sorted_texts(r@),
            A::obeys_eq_spec() ==> forall|t: Seq<char>| #[trigger] holds_text(r@, t) <==> exists|k: Seq<KeyChord>|
                #[trigger] bound_in_some_mode(self.input_spec().registry@, *action, k) && t == keys_text(k),
    {
        let sequences = self.input.registry.sequences_for(action);
        let mut keys: Vec<String> = Vec::new();
        let mut i: usize = 0;
        while i < sequences.len()
            invariant
                i <= sequences@.len(),
                sorted_texts(keys@),
                forall|t: Seq<char>| #[trigger] holds_text(keys@, t) <==> exists|j: int|
                    0 <= j < i && t == keys_text(#[trigger] sequences@[j]@),
            decreases sequences@.len() - i,
        {
            let text = keys_string(sequences[i]);
            let ghost before = keys@;
            insert_sorted(&mut keys, text);
            assert forall|t: Seq<char>| #[trigger] holds_text(keys@, t) <==> exists|j: int|
                0 <= j < i + 1 && t == keys_text(#[trigger] sequences@[j]@) by {
                if holds_text(before, t) {
                    let j = choose|j: int| 0 <= j < i && t == keys_text(#[trigger] sequences@[j]@);
                }
                if t == text@ {
                    assert(t == keys_text(sequences@[i as int]@));
                }
                if exists|j: int| 0 <= j < i + 1 && t == keys_text(#[trigger] sequences@[j]@) {
                    let j = choose|j: int| 0 <= j < i + 1 && t == keys_text(#[trigger] sequences@[j]@);
                    if j < i {
                        assert(holds_text(before, t));
                    }
                }
            }
            i = i + 1;
        }
        proof {
            if A::obeys_eq_spec() {
                let reg = self.input_spec().registry@;
                assert(reg == self.input.registry@);
                assert forall|t: Seq<char>| #[trigger] holds_text(keys@, t) <==> exists|k: Seq<KeyChord>|
                    #[trigger] bound_in_some_mode(reg, *action, k) && t == keys_text(k) by {
                    if holds_text(keys@, t) {
                        let j = choose|j: int| 0 <= j < sequences@.len() && t == keys_text(#[trigger] sequences@[j]@);
                        assert(bound_in_some_mode(reg, *action, sequences@[j]@) && t == keys_text(sequences@[j]@));
                    }
                    if exists|k: Seq<KeyChord>| #[trigger] bound_in_some_mode(reg, *action, k) && t == keys_text(k) {
                        let k = choose|k: Seq<KeyChord>| #[trigger] bound_in_some_mode(reg, *action, k) && t == keys_text(k);
                        let j = choose|j: int| 0 <= j < sequences@.len() && sequences@[j]@ == k;
                        assert(t == keys_text(sequences@[j]@));
                    }
                }
            }
        }
        keys
    }

    /// The first of [`keys_for`](Self::keys_for), if `action` is bound at
    /// all: the key shown for it in a hint.
    pub fn key_for(&self, action: &A) -> (r: Option<String>)
        where
            A: PartialEq,
        requires
            self.wf(),
        ensures
            A::obeys_eq_spec() ==> match r {
                None => forall|k: Seq<KeyChord>| !bound_in_some_mode(self.input_spec().registry@, *action, k),
                Some(t) => (exists|k: Seq<KeyChord>|
                    #[trigger] bound_in_some_mode(self.input_spec().registry@, *action, k) && t@ == keys_text(k))
                    && forall|k: Seq<KeyChord>| #[trigger] bound_in_some_mode(self.input_spec().registry@, *action, k)
                        ==> t@ == keys_text(k) || text_lt(t@, keys_text(k)),
            },
    {
        let mut keys = self.keys_for(action);
        let ghost all = keys@;
        if keys.len() == 0 {
            proof {
                if A::obeys_eq_spec() {
                    assert forall|k: Seq<KeyChord>| !bound_in_some_mode(self.input_spec().registry@, *action, k) by {
                        if bound_in_some_mode(self.input_spec().registry@, *action, k) {
                            assert(holds_text(all, keys_text(k)));
                        }
                    }
                }
            }
            None
        } else {
            let first = keys.remove(0);
            proof {
                if A::obeys_eq_spec() {
                    assert(holds_text(all, all[0]@));
                    assert forall|k: Seq<KeyChord>| #[trigger] bound_in_some_mode(self.input_spec().registry@, *action, k)
                        implies first@ == keys_text(k) || text_lt(first@, keys_text(k)) by {
                        assert(holds_text(all, keys_text(k)));
                        let q = choose|q: int| 0 <= q < all.len() && #[trigger] all[q]@ == keys_text(k);
                        if q > 0 {
                            assert(text_lt(all[0]@, all[q]@));
                        }
                    }
                }
            }
            Some(first)
        }
    }

    /// Route one key: a layer that owns a pending sequence sees it first;
    /// otherwise the layers see it in [`layer_order`] until one claims it.
    /// Without key hooks the keymap is the only layer. A layer that begins a
    /// sequence owns the keys that follow; a key no layer claims goes to the
    /// handler as typed text.
    ///
    /// The status follows the keymap's response ([`key_status_spec`]): an
    /// executed action, typed text, a pending sequence (whose hints are
    /// returned), or a cancelled one.
    pub fn handle_key<S: ?Sized>(&mut self, key: KeyEvent, state: &mut S) -> (r: Result<
        TuiPagesOutput<A>,
        TuiPagesError<Handler::Error>,
    >)
        where
            Pages: PageProvider<V, S, O>,
            Handler: TuiActionHandler<V, A, S, O, M>,
        requires
            old(self).wf(),
        ensures
            final(self).wf(),
            r matches Ok(out) ==> out.status is Waiting ==> final(self).input_spec().tracker@.len() > 0,
            exists|
                modes: Seq<Seq<char>>,
                accepts: bool,
                mid: InputPipeline<A>,
                after: InputPipeline<A>,
                resp: PipelineResponse<A>,
            | {
                &&& mid.registry == old(self).input_spec().registry
                &&& old(self).owner_spec() is None ==> mid == old(self).input_spec()
                &&& exists|focus: Option<FocusTarget<O>>| #[trigger] opt_target_cloned(
                    current_spec(old(self).focus_spec()@),
                    focus,
                ) && {
                    let page = old(self).pages_spec().page_of(
                        old(self).buffer_spec().history@[old(self).buffer_spec().active_index as int],
                        &*old(state),
                        focus,
                    );
                    modes == mode_names(page.modes@) && accepts == page.accepts_text_input
                }
                &&& #[trigger] key_processed(mid, after, key, modes, accepts, resp)
                &&& match r {
                    Ok(out) => {
                        &&& out.status == key_status_spec(resp)
                        &&& resp is Wait ==> final(self).input_spec() == after && final(self).owner_spec() == Some(
                            LayerOwner::Keymap,
                        ) && !out.quit_requested
                        &&& resp is Cancel ==> final(self).input_spec() == after && final(self).owner_spec() is None
                            && !out.quit_requested
                        &&& (resp is Execute || resp is Type) ==> exists|m2: Self|
                            #[trigger] m2.outcome_applied(*final(self), out.quit_requested, final(state))
                                && m2.input_spec() == after && m2.buffer_spec() == old(self).buffer_spec()
                    },
                    Err(_) => resp is Execute || resp is Type,
                }
            },
    {
        let current = self.focus.current();
        let spec = self.pages.page_spec(self.current_view(), state, current.as_ref());
        let PageSpec { focus_targets, section_items, modes, accepts_text_input } = spec;
        self.sync_focus_to_spec(PageSpec { focus_targets, section_items, modes: Vec::new(), accepts_text_input });
        let mut names: Vec<&str> = Vec::new();
        let mut m: usize = 0;
        while m < modes.len()
            invariant
                m <= modes@.len(),
                names@.len() == m,
                strs_view(names@) == mode_names(modes@.take(m as int)),
            decreases modes@.len() - m,
        {
            let ghost before = names@;
            names.push(modes[m].as_str());
            proof {
                assert forall|i: int| 0 <= i < m + 1 implies #[trigger] strs_view(names@)[i] == mode_names(
                    modes@.take(m + 1),
                )[i] by {
                    if i < m {
                        assert(names@[i] == before[i]);
                        assert(strs_view(before)[i] == mode_names(modes@.take(m as int))[i]);
                    }
                }
                assert(strs_view(names@) =~= mode_names(modes@.take(m + 1)));
            }
            m = m + 1;
        }
        assert(modes@.take(m as int) =~= modes@);
        if let Some(owner) = self.active_owner {
            match owner {
                LayerOwner::Keymap => {
                    // The owner gives up the keys unless the sequence goes on
                    // (or the handler fails); no effect can make it owner again.
                    self.active_owner = None;
                    match self.run_keymap(key, names.as_slice(), accepts_text_input, state) {
                        Ok(LayerResult::Pending(status)) => {
                            self.active_owner = Some(LayerOwner::Keymap);
                            return Ok(TuiPagesOutput::new(status, false));
                        },
                        Ok(LayerResult::Handled(output)) => {
                            return Ok(output);
                        },
                        Ok(LayerResult::Ignored(_)) => {},
                        Err(e) => {
                            self.active_owner = Some(LayerOwner::Keymap);
                            return Err(e);
                        },
                    }
                },
                LayerOwner::Hook(_) => {
                    self.active_owner = None;
                },
            }
        }
        match self.run_keymap(key, names.as_slice(), accepts_text_input, state)? {
            LayerResult::Pending(status) => {
                self.active_owner = Some(LayerOwner::Keymap);
                Ok(TuiPagesOutput::new(status, false))
            },
            LayerResult::Handled(output) => Ok(output),
            LayerResult::Ignored(chord) => {
                let c = match chord {
                    Some(c) => c,
                    None => KeyChord::from_event(&key),
                };
                let quit = self.dispatch_text(c, state)?;
                Ok(TuiPagesOutput::new(TuiPagesStatus::TextHandled, quit))
            },
        }
    }

    /// Route pasted `text` to the focused text widget. Without key hooks no
    /// widget takes it: the page is refreshed and the paste is cancelled.
    pub fn handle_paste<S: ?Sized>(&mut self, text: &str, state: &mut S) -> (r: Result<
        TuiPagesOutput<A>,
        TuiPagesError<Handler::Error>,
    >)
        where
            Pages: PageProvider<V, S, O>,
            Handler: TuiActionHandler<V, A, S, O, M>,
        requires
            old(self).wf(),
        ensures
            final(self).wf(),
            r matches Ok(out) && out.status is Cancelled && !out.quit_requested,
            final(self).input_spec() == old(self).input_spec(),
            final(self).buffer_spec() == old(self).buffer_spec(),
            final(self).owner_spec() == old(self).owner_spec(),
            final(self).commands_spec() == old(self).commands_spec(),
            focus_refreshed(
                old(self).pages_spec(),
                old(self).buffer_spec().history@[old(self).buffer_spec().active_index as int],
                &*old(state),
                old(self).focus_spec()@,
                final(self).focus_spec()@,
            ),
    {
        self.refresh_page(state);
        Ok(TuiPagesOutput::new(TuiPagesStatus::Cancelled, false))
    }

    /// The status a command's resolution leaves, once its action (if any)
    /// has run.
    pub open spec fn command_status(response: CommandResponse<A>) -> TuiPagesStatus<A> {
        match response {
            CommandResponse::Execute(_) => TuiPagesStatus::ActionHandled,
            CommandResponse::Incomplete(hints) => TuiPagesStatus::CommandIncomplete(hints),
            CommandResponse::Unknown => TuiPagesStatus::CommandUnknown,
            CommandResponse::Empty => TuiPagesStatus::CommandEmpty,
        }
    }

    /// Resolve typed command `input`: an exact alias runs its action; a
    /// prefix lists the completions; otherwise the command is unknown or
    /// empty. When the command registry is not well formed nothing is
    /// resolved and the command counts as unknown.
    pub fn submit_command<S: ?Sized>(&mut self, input: &str, state: &mut S) -> (r: Result<
        TuiPagesOutput<A>,
        TuiPagesError<Handler::Error>,
    >)
        where
            Pages: PageProvider<V, S, O>,
            Handler: TuiActionHandler<V, A, S, O, M>,
        requires
            old(self).wf(),
        ensures
            final(self).wf(),
            old(self).commands_spec().reg().wf() ==> exists|resp: CommandResponse<A>|
                #[trigger] old(self).commands_spec().process_post(input@, resp) && match r {
                    Ok(out) => out.status == Self::command_status(resp) && (!(resp is Execute)
                        ==> !out.quit_requested && *final(self) == *old(self)),
                    Err(_) => resp is Execute,
                },
    {
        if !self.commands.registry_is_wf() {
            return Ok(TuiPagesOutput::new(TuiPagesStatus::CommandUnknown, false));
        }
        let response = self.commands.process(input);
        let ghost resp = response;
        assert(self.commands.process_post(input@, resp));
        match response {
            CommandResponse::Execute(action) => {
                let quit = self.dispatch_action(action, state);
                match quit {
                    Ok(q) => Ok(TuiPagesOutput::new(TuiPagesStatus::ActionHandled, q)),
                    Err(e) => Err(e),
                }
            },
            CommandResponse::Incomplete(hints) => Ok(
                TuiPagesOutput::new(TuiPagesStatus::CommandIncomplete(hints), false),
            ),
            CommandResponse::Unknown => Ok(TuiPagesOutput::new(TuiPagesStatus::CommandUnknown, false)),
            CommandResponse::Empty => Ok(TuiPagesOutput::new(TuiPagesStatus::CommandEmpty, false)),
        }
    }
}

/// Assembles a [`TuiPages`]: the starting view, pages, handler, bindings,
/// commands and options.
pub struct TuiPagesBuilder<V, A, O = (), M = (), Pages = (), Handler = ()> {
    initial_view: V,
    fallback_view: Option<V>,
    input_registry: InputRegistry<A>,
    command_registry: CommandRegistry<A>,
    input_timeout_ms: u64,
    command_timeout_ms: u64,
    focus_wrap: FocusWrap,
    reserve_command_line: bool,
    pages: Pages,
    handler: Handler,
    overlay: std::marker::PhantomData<O>,
    modal: std::marker::PhantomData<M>,
}

impl<V, A, O, M, Pages, Handler> TuiPagesBuilder<V, A, O, M, Pages, Handler> {
    /// The bindings and commands are well formed.
    pub closed spec fn wf(&self) -> bool {
        self.input_registry.wf() && self.command_registry.wf()
    }

    pub closed spec fn input_timeout_spec(&self) -> u64 {
        self.input_timeout_ms
    }

    pub closed spec fn focus_wrap_spec(&self) -> FocusWrap {
        self.focus_wrap
    }

    pub closed spec fn registry_spec(&self) -> Map<Seq<char>, Map<Seq<KeyChord>, A>> {
        self.input_registry@
    }

    /// The command bindings: alias to action name and action.
    pub closed spec fn commands_spec(&self) -> Map<Seq<char>, (Seq<char>, A)> {
        self.command_registry@
    }

    pub closed spec fn initial_spec(&self) -> V {
        self.initial_view
    }

    pub closed spec fn fallback_spec(&self) -> Option<V> {
        self.fallback_view
    }

    pub closed spec fn command_timeout_spec(&self) -> u64 {
        self.command_timeout_ms
    }

    pub closed spec fn reserve_spec(&self) -> bool {
        self.reserve_command_line
    }

    pub closed spec fn pages_spec(&self) -> Pages {
        self.pages
    }

    pub closed spec fn handler_spec(&self) -> Handler {
        self.handler
    }

    /// `r` has the same starting view, fallback view, command timeout,
    /// command line setting and commands as `self`.
    pub open spec fn same_setup<P2, H2>(&self, r: TuiPagesBuilder<V, A, O, M, P2, H2>) -> bool {
        &&& r.initial_spec() == self.initial_spec()
        &&& r.fallback_spec() == self.fallback_spec()
        &&& r.command_timeout_spec() == self.command_timeout_spec()
        &&& r.reserve_spec() == self.reserve_spec()
        &&& r.commands_spec() == self.commands_spec()
    }
}

impl<V, A, O, M> TuiPagesBuilder<V, A, O, M, (), ()> {
    /// A builder starting at `initial_view`, with no bindings or commands,
    /// one-second timeouts, clamped focus and no command line.
    pub fn new(initial_view: V) -> (r: Self)
        ensures
            r.wf(),
            r.input_timeout_spec() == 1000,
            r.focus_wrap_spec() == FocusWrap::Clamp,
            r.registry_spec() == Map::<Seq<char>, Map<Seq<KeyChord>, A>>::empty(),
            r.commands_spec() == Map::<Seq<char>, (Seq<char>, A)>::empty(),
            r.initial_spec() == initial_view,
            r.fallback_spec() is None,
            r.command_timeout_spec() == 1000,
            !r.reserve_spec(),
    {
        TuiPagesBuilder {
            initial_view,
            fallback_view: None,
            input_registry: InputRegistry::empty(),
            command_registry: CommandRegistry::new(),
            input_timeout_ms: 1000,
            command_timeout_ms: 1000,
            focus_wrap: FocusWrap::Clamp,
            reserve_command_line: false,
            pages: (),
            handler: (),
            overlay: std::marker::PhantomData,
            modal: std::marker::PhantomData,
        }
    }
}

impl<V, A, O, M, Pages, Handler> TuiPagesBuilder<V, A, O, M, Pages, Handler> {
    /// The view opened when the last buffer closes; the starting view
    /// unless set.
    pub fn fallback_view(self, fallback_view: V) -> (r: Self)
        ensures
            r.wf() == self.wf(),
            r.registry_spec() == self.registry_spec(),
            r.input_timeout_spec() == self.input_timeout_spec(),
            r.focus_wrap_spec() == self.focus_wrap_spec(),
            r.fallback_spec() == Some(fallback_view),
            r.initial_spec() == self.initial_spec() && r.command_timeout_spec() == self.command_timeout_spec(),
            r.reserve_spec() == self.reserve_spec() && r.commands_spec() == self.commands_spec(),
    {
        TuiPagesBuilder { fallback_view: Some(fallback_view), ..self }
    }

    pub fn input_timeout_ms(self, timeout_ms: u64) -> (r: Self)
        ensures
            r.wf() == self.wf(),
            r.registry_spec() == self.registry_spec(),
            r.input_timeout_spec() == timeout_ms,
            r.focus_wrap_spec() == self.focus_wrap_spec(),
            self.same_setup(r),
    {
        TuiPagesBuilder { input_timeout_ms: timeout_ms, ..self }
    }

    pub fn command_timeout_ms(self, timeout_ms: u64) -> (r: Self)
        ensures
            r.wf() == self.wf(),
            r.registry_spec() == self.registry_spec(),
            r.input_timeout_spec() == self.input_timeout_spec(),
            r.focus_wrap_spec() == self.focus_wrap_spec(),
            r.command_timeout_spec() == timeout_ms,
            r.initial_spec() == self.initial_spec() && r.fallback_spec() == self.fallback_spec(),
            r.reserve_spec() == self.reserve_spec() && r.commands_spec() == self.commands_spec(),
    {
        TuiPagesBuilder { command_timeout_ms: timeout_ms, ..self }
    }

    pub fn focus_wrap(self, wrap: FocusWrap) -> (r: Self)
        ensures
            r.wf() == self.wf(),
            r.registry_spec() == self.registry_spec(),
            r.input_timeout_spec() == self.input_timeout_spec(),
            r.focus_wrap_spec() == wrap,
            self.same_setup(r),
    {
        TuiPagesBuilder { focus_wrap: wrap, ..self }
    }

    pub fn reserve_command_line(self, reserve: bool) -> (r: Self)
        ensures
            r.wf() == self.wf(),
            r.registry_spec() == self.registry_spec(),
            r.input_timeout_spec() == self.input_timeout_spec(),
            r.focus_wrap_spec() == self.focus_wrap_spec(),
            r.reserve_spec() == reserve,
            r.initial_spec() == self.initial_spec() && r.fallback_spec() == self.fallback_spec(),
            r.command_timeout_spec() == self.command_timeout_spec() && r.commands_spec() == self.commands_spec(),
    {
        TuiPagesBuilder { reserve_command_line: reserve, ..self }
    }

    /// Bind `binding` (parsed leniently) to `action` in `mode`.
    pub fn bind(self, mode: &str, binding: &str, action: A) -> (r: Self)
        requires
            self.wf(),
        ensures
            r.wf(),
            r.registry_spec() == self.registry_spec().insert(
                mode@,
                (if self.registry_spec().contains_key(mode@) {
                    self.registry_spec()[mode@]
                } else {
                    Map::empty()
                }).insert(crate::input::key_sequence::lenient_chords(crate::text::words(binding@)), action),
            ),
            r.input_timeout_spec() == self.input_timeout_spec(),
            r.focus_wrap_spec() == self.focus_wrap_spec(),
            self.same_setup(r),
    {
        let mut builder = self;
        let sequence = parse_binding(binding);
        builder.input_registry.map_mut(mode).bind(sequence, action);
        builder
    }

    /// Use `registry` as the bindings.
    pub fn input_registry(self, registry: InputRegistry<A>) -> (r: Self)
        requires
            self.wf(),
            registry.wf(),
        ensures
            r.wf(),
            r.registry_spec() == registry@,
            r.input_timeout_spec() == self.input_timeout_spec(),
            r.focus_wrap_spec() == self.focus_wrap_spec(),
            self.same_setup(r),
    {
        TuiPagesBuilder { input_registry: registry, ..self }
    }

    /// Bind the command `aliases` to `action`, named `action_name`.
    pub fn command(self, action_name: &str, aliases: &[&str], action: A) -> (r: Self)
        where
            A: Clone,
        requires
            self.wf(),
        ensures
            r.wf(),
            r.registry_spec() == self.registry_spec(),
            r.input_timeout_spec() == self.input_timeout_spec(),
            r.focus_wrap_spec() == self.focus_wrap_spec(),
            r.initial_spec() == self.initial_spec() && r.fallback_spec() == self.fallback_spec(),
            r.command_timeout_spec() == self.command_timeout_spec() && r.reserve_spec() == self.reserve_spec(),
            forall|k: Seq<char>|
                #[trigger] r.commands_spec().contains_key(k) <==> (self.commands_spec().contains_key(k)
                    || exists|i: int| 0 <= i < aliases@.len() && unicode_lower(aliases@[i]@) == k),
            forall|i: int|
                0 <= i < aliases@.len() ==> {
                    let k = unicode_lower(#[trigger] aliases@[i]@);
                    r.commands_spec()[k].0 == action_name@ && cloned(action, r.commands_spec()[k].1)
                },
            forall|k: Seq<char>|
                #[trigger] self.commands_spec().contains_key(k) && !(exists|i: int|
                    0 <= i < aliases@.len() && unicode_lower(aliases@[i]@) == k) ==> r.commands_spec()[k] == self.commands_spec()[k],
    {
        let mut builder = self;
        builder.command_registry.bind_aliases(action_name, aliases, action);
        builder
    }

    /// Describe views with `pages`.
    pub fn pages<NextPages>(self, pages: NextPages) -> (r: TuiPagesBuilder<V, A, O, M, NextPages, Handler>)
        ensures
            r.wf() == self.wf(),
            r.registry_spec() == self.registry_spec(),
            r.input_timeout_spec() == self.input_timeout_spec(),
            r.focus_wrap_spec() == self.focus_wrap_spec(),
            self.same_setup(r),
            r.pages_spec() == pages,
            r.handler_spec() == self.handler_spec(),
    {
        TuiPagesBuilder {
            initial_view: self.initial_view,
            fallback_view: self.fallback_view,
            input_registry: self.input_registry,
            command_registry: self.command_registry,
            input_timeout_ms: self.input_timeout_ms,
            command_timeout_ms: self.command_timeout_ms,
            focus_wrap: self.focus_wrap,
            reserve_command_line: self.reserve_command_line,
            pages,
            handler: self.handler,
            overlay: std::marker::PhantomData,
            modal: std::marker::PhantomData,
        }
    }

    /// Answer actions with `handler`.
    pub fn handler<NextHandler>(self, handler: NextHandler) -> (r: TuiPagesBuilder<V, A, O, M, Pages, NextHandler>)
        ensures
            r.wf() == self.wf(),
            r.registry_spec() == self.registry_spec(),
            r.input_timeout_spec() == self.input_timeout_spec(),
            r.focus_wrap_spec() == self.focus_wrap_spec(),
            self.same_setup(r),
            r.handler_spec() == handler,
            r.pages_spec() == self.pages_spec(),
    {
        TuiPagesBuilder {
            initial_view: self.initial_view,
            fallback_view: self.fallback_view,
            input_registry: self.input_registry,
            command_registry: self.command_registry,
            input_timeout_ms: self.input_timeout_ms,
            command_timeout_ms: self.command_timeout_ms,
            focus_wrap: self.focus_wrap,
            reserve_command_line: self.reserve_command_line,
            pages: self.pages,
            handler,
            overlay: std::marker::PhantomData,
            modal: std::marker::PhantomData,
        }
    }

    /// The runtime: one buffer showing the starting view, focus with the
    /// chosen wrapping, and nothing pending.
    pub fn build(self) -> (r: TuiPages<V, A, Pages, Handler, O, M>)
        where
            V: Clone + PartialEq,
        requires
            self.wf(),
        ensures
            r.wf(),
            r.owner_spec() is None,
            r.input_spec().registry@ == self.registry_spec(),
            r.input_spec().tracker@ == Seq::<KeyChord>::empty(),
            r.input_spec().tracker.timeout_spec() == self.input_timeout_spec(),
            r.focus_spec()@.wrap == self.focus_wrap_spec(),
            r.focus_spec().wf(),
            r.buffer_spec().history@.len() == 1,
            r.buffer_spec().active_index == 0,
            cloned(self.initial_spec(), r.buffer_spec().history@[0]),
            r.commands_spec().reg()@ == self.commands_spec(),
            r.commands_spec().timeout_spec() == self.command_timeout_spec(),
            r.reserve_spec() == self.reserve_spec(),
            r.pages_spec() == self.pages_spec(),
            r.handler_spec() == self.handler_spec(),
            match self.fallback_spec() {
                Some(v) => r.fallback_spec() == v,
                None => cloned(self.initial_spec(), r.fallback_spec()),
            },
    {
        let fallback_view = match self.fallback_view {
            Some(v) => v,
            None => self.initial_view.clone(),
        };
        let mut focus = FocusManager::new();
        focus.set_focus_wrap(self.focus_wrap);
        TuiPages {
            input: InputPipeline::new(self.input_registry, self.input_timeout_ms),
            commands: CommandResolver::new(self.command_registry, self.command_timeout_ms),
            focus,
            buffer: BufferState::new(self.initial_view),
            pages: self.pages,
            handler: self.handler,
            fallback_view,
            reserve_command_line: self.reserve_command_line,
            active_owner: None,
        }
    }
}

impl<V, A, O, M> TuiPages<V, A, (), (), O, M> {
    /// A builder starting at `initial_view`.
    pub fn builder(initial_view: V) -> (r: TuiPagesBuilder<V, A, O, M, (), ()>)
        ensures
            r.wf(),
            r.input_timeout_spec() == 1000,
            r.focus_wrap_spec() == FocusWrap::Clamp,
    {
        TuiPagesBuilder::new(initial_view)
    }
}

/// The bindings of `mode` in a registry, none when it has no such mode.
pub open spec fn mode_bindings<A>(reg: Map<Seq<char>, Map<Seq<KeyChord>, A>>, mode: Seq<char>) -> Map<Seq<KeyChord>, A> {
    if reg.contains_key(mode) {
        reg[mode]
    } else {
        Map::empty()
    }
}

/// A registry after binding section `section` of a built-in preset into
/// `mode`: the section's keys are bound there when the preset's source
/// reads cleanly and has such a section; otherwise only the mode is created.
pub open spec fn preset_section_bound<A: From<NavigationAction>>(
    reg: Map<Seq<char>, Map<Seq<KeyChord>, A>>,
    preset: BuiltinNavigationPreset,
    mode: Seq<char>,
    section: Seq<char>,
) -> Map<Seq<char>, Map<Seq<KeyChord>, A>> {
    if builtin_section_ready(preset, section) && (section == "general"@ || section == "global"@ || section
        == "navigation"@) {
        reg.insert(mode, bind_map_keys(mode_bindings(reg, mode), builtin_section_keys(preset, section)))
    } else {
        reg.insert(mode, mode_bindings(reg, mode))
    }
}

impl<V, A: From<NavigationAction>, O, M, Pages, Handler> TuiPagesBuilder<V, A, O, M, Pages, Handler> {
    fn bind_preset_section(self, preset: BuiltinNavigationPreset, mode: &str, section: &str) -> (r: Self)
        requires
            self.wf(),
        ensures
            r.wf(),
            A::obeys_from_spec() ==> r.registry_spec() == preset_section_bound(
                self.registry_spec(),
                preset,
                mode@,
                section@,
            ),
            r.input_timeout_spec() == self.input_timeout_spec(),
            r.focus_wrap_spec() == self.focus_wrap_spec(),
            self.same_setup(r),
    {
        let mut builder = self;
        let ghost before = builder.input_registry@;
        let map = builder.input_registry.map_mut(mode);
        try_bind_builtin_section(preset, section, map);
        builder
    }

    /// The preset's `general` section bound in the general mode and its
    /// `global` section in the global mode.
    fn preset_defaults(self, preset: BuiltinNavigationPreset) -> (r: Self)
        requires
            self.wf(),
        ensures
            r.wf(),
            A::obeys_from_spec() ==> r.registry_spec() == preset_section_bound(
                preset_section_bound(self.registry_spec(), preset, modes::GENERAL@, "general"@),
                preset,
                modes::GLOBAL@,
                "global"@,
            ),
            r.input_timeout_spec() == self.input_timeout_spec(),
            r.focus_wrap_spec() == self.focus_wrap_spec(),
            self.same_setup(r),
    {
        self.bind_preset_section(preset, modes::GENERAL, "general").bind_preset_section(
            preset,
            modes::GLOBAL,
            "global",
        )
    }

    /// Bind the vim preset's general and global sections.
    pub fn vim_defaults(self) -> (r: Self)
        requires
            self.wf(),
        ensures
            r.wf(),
            A::obeys_from_spec() ==> r.registry_spec() == preset_section_bound(
                preset_section_bound(self.registry_spec(), BuiltinNavigationPreset::Vim, modes::GENERAL@, "general"@),
                BuiltinNavigationPreset::Vim,
                modes::GLOBAL@,
                "global"@,
            ),
            self.same_setup(r),
            r.input_timeout_spec() == self.input_timeout_spec(),
            r.focus_wrap_spec() == self.focus_wrap_spec(),
    {
        self.preset_defaults(BuiltinNavigationPreset::Vim)
    }

    /// Bind the vim preset's navigation section in the general mode.
    pub fn vim_navigation_defaults(self) -> (r: Self)
        requires
            self.wf(),
        ensures
            r.wf(),
            A::obeys_from_spec() ==> r.registry_spec() == preset_section_bound(
                self.registry_spec(),
                BuiltinNavigationPreset::Vim,
                modes::GENERAL@,
                "navigation"@,
            ),
            self.same_setup(r),
            r.input_timeout_spec() == self.input_timeout_spec(),
            r.focus_wrap_spec() == self.focus_wrap_spec(),
    {
        self.bind_preset_section(BuiltinNavigationPreset::Vim, modes::GENERAL, "navigation")
    }

    /// Bind the emacs preset's general and global sections.
    pub fn emacs_defaults(self) -> (r: Self)
        requires
            self.wf(),
        ensures
            r.wf(),
            A::obeys_from_spec() ==> r.registry_spec() == preset_section_bound(
                preset_section_bound(self.registry_spec(), BuiltinNavigationPreset::Emacs, modes::GENERAL@, "general"@),
                BuiltinNavigationPreset::Emacs,
                modes::GLOBAL@,
                "global"@,
            ),
            self.same_setup(r),
            r.input_timeout_spec() == self.input_timeout_spec(),
            r.focus_wrap_spec() == self.focus_wrap_spec(),
    {
        self.preset_defaults(BuiltinNavigationPreset::Emacs)
    }

    /// Bind the emacs preset's navigation section in the general mode.
    pub fn emacs_navigation_defaults(self) -> (r: Self)
        requires
            self.wf(),
        ensures
            r.wf(),
            A::obeys_from_spec() ==> r.registry_spec() == preset_section_bound(
                self.registry_spec(),
                BuiltinNavigationPreset::Emacs,
                modes::GENERAL@,
                "navigation"@,
            ),
            self.same_setup(r),
            r.input_timeout_spec() == self.input_timeout_spec(),
            r.focus_wrap_spec() == self.focus_wrap_spec(),
    {
        self.bind_preset_section(BuiltinNavigationPreset::Emacs, modes::GENERAL, "navigation")
    }

    /// Bind the helix preset's general and global sections.
    pub fn helix_defaults(self) -> (r: Self)
        requires
            self.wf(),
        ensures
            r.wf(),
            A::obeys_from_spec() ==> r.registry_spec() == preset_section_bound(
                preset_section_bound(self.registry_spec(), BuiltinNavigationPreset::Helix, modes::GENERAL@, "general"@),
                BuiltinNavigationPreset::Helix,
                modes::GLOBAL@,
                "global"@,
            ),
            self.same_setup(r),
            r.input_timeout_spec() == self.input_timeout_spec(),
            r.focus_wrap_spec() == self.focus_wrap_spec(),
    {
        self.preset_defaults(BuiltinNavigationPreset::Helix)
    }

    /// Bind the helix preset's navigation section in the general mode.
    pub fn helix_navigation_defaults(self) -> (r: Self)
        requires
            self.wf(),
        ensures
            r.wf(),
            A::obeys_from_spec() ==> r.registry_spec() == preset_section_bound(
                self.registry_spec(),
                BuiltinNavigationPreset::Helix,
                modes::GENERAL@,
                "navigation"@,
            ),
            self.same_setup(r),
            r.input_timeout_spec() == self.input_timeout_spec(),
            r.focus_wrap_spec() == self.focus_wrap_spec(),
    {
        self.bind_preset_section(BuiltinNavigationPreset::Helix, modes::GENERAL, "navigation")
    }
}

impl<V, A: From<NavigationAction> + PartialEq, O, M, Pages, Handler> TuiPagesBuilder<V, A, O, M, Pages, Handler> {
    /// Read a navigation preset from TOML text and apply it to the bindings,
    /// refusing keys already bound to other actions.
    pub fn navigation_preset_toml(self, source: &str) -> (r: Result<Self, NavigationPresetError>)
        requires
            self.wf(),
        ensures
            match r {
                Ok(b) => b.wf() && preset_toml_applied(self.registry_spec(), b.registry_spec(), source@, false, Ok(()))
                    && b.input_timeout_spec() == self.input_timeout_spec() && b.focus_wrap_spec() == self.focus_wrap_spec()
                    && self.same_setup(b),
                Err(e) => preset_toml_applied(self.registry_spec(), self.registry_spec(), source@, false, Err(e)),
            },
    {
        let mut builder = self;
        match apply_navigation_preset_toml(&mut builder.input_registry, source) {
            Ok(()) => Ok(builder),
            Err(e) => Err(e),
        }
    }

    /// Read a navigation preset from TOML text and remap the bindings with
    /// it: the keys of its actions are replaced by the preset's.
    pub fn remap_navigation_preset_toml(self, source: &str) -> (r: Result<Self, NavigationPresetError>)
        requires
            self.wf(),
        ensures
            match r {
                Ok(b) => b.wf() && preset_toml_applied(self.registry_spec(), b.registry_spec(), source@, true, Ok(()))
                    && b.input_timeout_spec() == self.input_timeout_spec() && b.focus_wrap_spec() == self.focus_wrap_spec()
                    && self.same_setup(b),
                Err(e) => preset_toml_applied(self.registry_spec(), self.registry_spec(), source@, true, Err(e)),
            },
    {
        let mut builder = self;
        match remap_navigation_preset_toml(&mut builder.input_registry, source) {
            Ok(()) => Ok(builder),
            Err(e) => Err(e),
        }
    }
}

impl<V, A: Clone + From<NavigationAction> + PartialEq, Pages, Handler, O, M> TuiPages<V, A, Pages, Handler, O, M> {
    /// Apply a navigation preset read from TOML text to the keymap, then
    /// drop any pending sequence; on failure the bindings and any pending
    /// sequence stay.
    pub fn apply_navigation_preset_toml(&mut self, source: &str) -> (r: Result<(), NavigationPresetError>)
        requires
            old(self).wf(),
        ensures
            final(self).wf(),
            preset_toml_applied(old(self).input_spec().registry@, final(self).input_spec().registry@, source@, false, r),
            r is Ok ==> final(self).input_spec().tracker@ == Seq::<KeyChord>::empty() && final(self).owner_spec() is None,
            r is Err ==> final(self).owner_spec() == old(self).owner_spec() && final(self).input_spec().tracker
                == old(self).input_spec().tracker,
            final(self).focus_spec() == old(self).focus_spec(),
            final(self).buffer_spec() == old(self).buffer_spec(),
            final(self).commands_spec() == old(self).commands_spec(),
    {
        match apply_navigation_preset_toml(&mut self.input.registry, source) {
            Ok(()) => {
                self.input.reset();
                self.active_owner = None;
                Ok(())
            },
            Err(e) => Err(e),
        }
    }

    /// Remap the keymap with a navigation preset read from TOML text, then
    /// drop any pending sequence; on failure the bindings and any pending
    /// sequence stay.
    pub fn remap_navigation_preset_toml(&mut self, source: &str) -> (r: Result<(), NavigationPresetError>)
        requires
            old(self).wf(),
        ensures
            final(self).wf(),
            preset_toml_applied(old(self).input_spec().registry@, final(self).input_spec().registry@, source@, true, r),
            r is Ok ==> final(self).input_spec().tracker@ == Seq::<KeyChord>::empty() && final(self).owner_spec() is None,
            r is Err ==> final(self).owner_spec() == old(self).owner_spec() && final(self).input_spec().tracker
                == old(self).input_spec().tracker,
            final(self).focus_spec() == old(self).focus_spec(),
            final(self).buffer_spec() == old(self).buffer_spec(),
            final(self).commands_spec() == old(self).commands_spec(),
    {
        match remap_navigation_preset_toml(&mut self.input.registry, source) {
            Ok(()) => {
                self.input.reset();
                self.active_owner = None;
                Ok(())
            },
            Err(e) => Err(e),
        }
    }
}

/// What running a navigation action's effect does to the runtime: focus
/// moves one step forward or back, the active buffer or pane steps forward
/// or back (wrapping or clamping as focus does), the active pane is split in
/// the named direction, the section is left, buffers and panes close, or
/// nothing changes and the runtime quits.
pub proof fn lemma_navigation_action_effect<V: Clone + PartialEq, A: Clone, Pages, Handler, O: Clone + PartialEq, M, S: ?Sized>(
    before: TuiPages<V, A, Pages, Handler, O, M>,
    after: TuiPages<V, A, Pages, Handler, O, M>,
    action: NavigationAction,
    state: &S,
)
    where
        Pages: PageProvider<V, S, O>,
    requires
        before.effect_applied(after, effect_of::<V, O, M>(action), state),
    ensures
        ({
            let wrap = before.focus_spec()@.wrap;
            let panes = before.buffer_spec().workspace.panes@.len();
            let focus_ok = before.focus_spec().wf();
            &&& action == NavigationAction::FocusNext && focus_ok ==> after.focus_spec()@ == step_model(
                before.focus_spec()@,
                true,
            )
            &&& action == NavigationAction::FocusPrev && focus_ok ==> after.focus_spec()@ == step_model(
                before.focus_spec()@,
                false,
            )
            &&& action == NavigationAction::LeaveSection && focus_ok ==> after.focus_spec()@ == (FocusModel {
                section: None,
                ..before.focus_spec()@
            })
            &&& (action == NavigationAction::FocusNext || action == NavigationAction::FocusPrev || action
                == NavigationAction::Activate || action == NavigationAction::LeaveSection) ==> after.buffer_spec()
                == before.buffer_spec()
            &&& action == NavigationAction::Quit ==> after == before
            &&& action == NavigationAction::NextBuffer ==> buffer_switched(
                before.buffer_spec(),
                after.buffer_spec(),
                true,
                wrap,
            )
            &&& action == NavigationAction::PrevBuffer ==> buffer_switched(
                before.buffer_spec(),
                after.buffer_spec(),
                false,
                wrap,
            )
            &&& action == NavigationAction::CloseBuffer && before.buffer_spec().history@.len() > 1
                ==> after.buffer_spec().history@ == before.buffer_spec().history@.remove(
                before.buffer_spec().active_index as int,
            )
            &&& action == NavigationAction::NextPane ==> focus_pane_post(
                before.buffer_spec(),
                after.buffer_spec(),
                true,
                wrap,
                panes > 1,
            )
            &&& action == NavigationAction::PrevPane ==> focus_pane_post(
                before.buffer_spec(),
                after.buffer_spec(),
                false,
                wrap,
                panes > 1,
            )
            &&& action == NavigationAction::ClosePane ==> close_pane_post(
                before.buffer_spec(),
                after.buffer_spec(),
                panes > 1,
            )
            &&& action == NavigationAction::SplitVertical && before.buffer_spec().workspace.next_pane_id
                < usize::MAX ==> split_pane_post(
                before.buffer_spec(),
                after.buffer_spec(),
                crate::navigation::PaneSplit::Vertical,
                true,
            )
            &&& action == NavigationAction::SplitHorizontal && before.buffer_spec().workspace.next_pane_id
                < usize::MAX ==> split_pane_post(
                before.buffer_spec(),
                after.buffer_spec(),
                crate::navigation::PaneSplit::Horizontal,
                true,
            )
        }),
{
}

} // verus!
