use vstd::prelude::*;
use vstd::std_specs::cmp::PartialEqSpec;
use crate::focus::{first_equal, lemma_first_equal_in_range, opt_target_cloned, target_eq, FocusIntent, FocusQuery, FocusTarget};

verus! {

/// How navigation behaves at the ends of a list — the single policy shared by
/// page focus, section items, modal items, buffer switching, and pane
/// switching. The default is [`Clamp`](FocusWrap::Clamp).
#[derive(Debug, Clone, Copy, PartialEq, Eq, Structural)]
pub enum FocusWrap {
    /// Stop at the first/last element.
    Clamp,
    /// Wrap around at either end.
    Wrap,
}

impl Default for FocusWrap {
    fn default() -> (r: Self)
        ensures
            r == FocusWrap::Clamp,
    {
        FocusWrap::Clamp
    }
}

impl FocusWrap {
    /// The position one step from `index` within `0..len` under this policy.
    pub open spec fn step_spec(self, index: int, len: int, forward: bool) -> int {
        match self {
            FocusWrap::Wrap => if forward {
                (index + 1) % len
            } else {
                (index + len - 1) % len
            },
            FocusWrap::Clamp => if forward {
                if index + 1 < len - 1 {
                    index + 1
                } else {
                    len - 1
                }
            } else {
                if index > 0 {
                    index - 1
                } else {
                    0
                }
            },
        }
    }

    /// Step `index` one position within `0..len` in the given direction,
    /// applying this policy. `len` must be greater than zero.
    pub fn step(self, index: usize, len: usize, forward: bool) -> (r: usize)
        requires
            len > 0,
        ensures
            r == self.step_spec(index as int, len as int, forward),
    {
        match (self, forward) {
            (FocusWrap::Wrap, true) => {
                let i = index % len;
                proof {
                    vstd::arithmetic::div_mod::lemma_add_mod_noop(index as int, 1, len as int);
                    vstd::arithmetic::div_mod::lemma_mod_twice(index as int, len as int);
                    if len > 1 {
                        vstd::arithmetic::div_mod::lemma_small_mod(1, len as nat);
                    }
                }
                (i + 1) % len
            },
            (FocusWrap::Wrap, false) => {
                let i = index % len;
                proof {
                    vstd::arithmetic::div_mod::lemma_add_mod_noop(
                        index as int,
                        len as int - 1,
                        len as int,
                    );
                    vstd::arithmetic::div_mod::lemma_small_mod((len - 1) as nat, len as nat);
                    if i == 0 {
                        vstd::arithmetic::div_mod::lemma_small_mod((len - 1) as nat, len as nat);
                    } else {
                        vstd::arithmetic::div_mod::lemma_mod_add_multiples_vanish(
                            i as int - 1,
                            len as int,
                        );
                        vstd::arithmetic::div_mod::lemma_small_mod((i - 1) as nat, len as nat);
                    }
                }
                if i == 0 {
                    len - 1
                } else {
                    i - 1
                }
            },
            (FocusWrap::Clamp, true) => {
                if index >= len - 1 {
                    len - 1
                } else {
                    index + 1
                }
            },
            (FocusWrap::Clamp, false) => {
                if index > 0 {
                    index - 1
                } else {
                    0
                }
            },
        }
    }
}

/// The position after `n` forward steps from `index` within `0..len`.
pub open spec fn steps_forward(wrap: FocusWrap, index: int, len: int, n: nat) -> int
    decreases n,
{
    if n == 0 {
        index
    } else {
        wrap.step_spec(steps_forward(wrap, index, len, (n - 1) as nat), len, true)
    }
}

/// A step never leaves the list: from a position in `0..len`, either policy
/// lands in `0..len`.
pub proof fn lemma_step_in_range(wrap: FocusWrap, index: int, len: int, forward: bool)
    requires
        0 <= index < len,
    ensures
        0 <= wrap.step_spec(index, len, forward) < len,
{
    if wrap == FocusWrap::Wrap {
        if forward {
            vstd::arithmetic::div_mod::lemma_mod_bound(index + 1, len);
        } else {
            vstd::arithmetic::div_mod::lemma_mod_bound(index + len - 1, len);
        }
    }
}

/// With wrapping, a step back undoes a step forward, and a step forward
/// undoes a step back.
pub proof fn lemma_wrap_steps_undo(index: int, len: int)
    requires
        0 <= index < len,
    ensures
        FocusWrap::Wrap.step_spec(FocusWrap::Wrap.step_spec(index, len, true), len, false) == index,
        FocusWrap::Wrap.step_spec(FocusWrap::Wrap.step_spec(index, len, false), len, true) == index,
{
    if index + 1 < len {
        vstd::arithmetic::div_mod::lemma_small_mod((index + 1) as nat, len as nat);
        vstd::arithmetic::div_mod::lemma_mod_add_multiples_vanish(index, len);
        vstd::arithmetic::div_mod::lemma_small_mod(index as nat, len as nat);
    } else {
        vstd::arithmetic::div_mod::lemma_mod_self_0(len);
        vstd::arithmetic::div_mod::lemma_small_mod((len - 1) as nat, len as nat);
    }
    if index > 0 {
        vstd::arithmetic::div_mod::lemma_mod_add_multiples_vanish(index - 1, len);
        vstd::arithmetic::div_mod::lemma_small_mod((index - 1) as nat, len as nat);
        vstd::arithmetic::div_mod::lemma_small_mod(index as nat, len as nat);
    } else {
        vstd::arithmetic::div_mod::lemma_small_mod((len - 1) as nat, len as nat);
        vstd::arithmetic::div_mod::lemma_mod_self_0(len);
    }
}

/// With clamping, a step back undoes a step forward that did not stop at
/// the last position, and a step forward undoes a step back that did not
/// stop at the first; at the ends a step stays put.
pub proof fn lemma_clamp_steps(index: int, len: int)
    requires
        0 <= index < len,
    ensures
        index < len - 1 ==> FocusWrap::Clamp.step_spec(
            FocusWrap::Clamp.step_spec(index, len, true),
            len,
            false,
        ) == index,
        index > 0 ==> FocusWrap::Clamp.step_spec(
            FocusWrap::Clamp.step_spec(index, len, false),
            len,
            true,
        ) == index,
        FocusWrap::Clamp.step_spec(len - 1, len, true) == len - 1,
        FocusWrap::Clamp.step_spec(0, len, false) == 0,
{
}

/// With wrapping, `n` steps forward from `index` land at `(index + n) % len`;
/// so stepping forward once per position comes back to the start.
pub proof fn lemma_wrap_full_cycle(index: int, len: int, n: nat)
    requires
        0 <= index < len,
    ensures
        steps_forward(FocusWrap::Wrap, index, len, n) == (index + n) % len,
        steps_forward(FocusWrap::Wrap, index, len, len as nat) == index,
{
    lemma_wrap_steps_mod(index, len, n);
    lemma_wrap_cycle_len(index, len);
}

proof fn lemma_wrap_cycle_len(index: int, len: int)
    requires
        0 <= index < len,
    ensures
        steps_forward(FocusWrap::Wrap, index, len, len as nat) == index,
{
    lemma_wrap_steps_mod(index, len, len as nat);
    vstd::arithmetic::div_mod::lemma_mod_add_multiples_vanish(index, len);
    vstd::arithmetic::div_mod::lemma_small_mod(index as nat, len as nat);
}

proof fn lemma_wrap_steps_mod(index: int, len: int, n: nat)
    requires
        0 <= index < len,
    ensures
        steps_forward(FocusWrap::Wrap, index, len, n) == (index + n) % len,
    decreases n,
{
    if n == 0 {
        vstd::arithmetic::div_mod::lemma_small_mod(index as nat, len as nat);
    } else {
        lemma_wrap_steps_mod(index, len, (n - 1) as nat);
        let prev = (index + n - 1) % len;
        vstd::arithmetic::div_mod::lemma_add_mod_noop(index + n - 1, 1, len);
        vstd::arithmetic::div_mod::lemma_mod_bound(index + n - 1, len);
        if len > 1 {
            vstd::arithmetic::div_mod::lemma_small_mod(1, len as nat);
        } else {
            vstd::arithmetic::div_mod::lemma_mod_self_0(1);
            vstd::arithmetic::div_mod::lemma_small_mod(0, 1);
        }
        vstd::arithmetic::div_mod::lemma_mod_twice(prev + 1, len);
    }
}

/// The overlay currently holding focus: a simple overlay named by the app's
/// own type `O`, or a generic modal carrying a payload `M` and a cursor over
/// `count` items.
#[derive(Debug)]
pub enum OverlayFocus<O = (), M = ()> {
    Simple(O),
    Modal { data: M, index: usize, count: usize },
}

/// The abstract state of a [`FocusManager`]. `section` is the entered
/// section as `(section_id, item_index, item_count)`.
pub struct FocusModel<O, M> {
    pub targets: Seq<FocusTarget<O>>,
    pub index: usize,
    pub overlay: Option<OverlayFocus<O, M>>,
    pub section: Option<(usize, usize, usize)>,
    pub section_items: Seq<(usize, usize)>,
    pub wrap: FocusWrap,
}

/// An optional position as a `usize`.
pub open spec fn opt_pos(o: Option<int>) -> Option<usize> {
    match o {
        Some(j) => Some(j as usize),
        None => None,
    }
}

/// The first position in `lo..hi` whose target satisfies `p`.
pub open spec fn first_match<O>(
    ts: Seq<FocusTarget<O>>,
    lo: int,
    hi: int,
    p: spec_fn(FocusTarget<O>) -> bool,
) -> Option<int>
    decreases hi - lo,
{
    if lo >= hi {
        None
    } else if p(ts[lo]) {
        Some(lo)
    } else {
        first_match(ts, lo + 1, hi, p)
    }
}


/// The last position in `lo..hi` whose target satisfies `p`.
pub open spec fn last_match<O>(
    ts: Seq<FocusTarget<O>>,
    lo: int,
    hi: int,
    p: spec_fn(FocusTarget<O>) -> bool,
) -> Option<int>
    decreases hi - lo,
{
    if lo >= hi {
        None
    } else if p(ts[hi - 1]) {
        Some(hi - 1)
    } else {
        last_match(ts, lo, hi - 1, p)
    }
}

pub open spec fn navigable<O>() -> spec_fn(FocusTarget<O>) -> bool {
    |t: FocusTarget<O>| t.is_top_level_navigable_spec()
}

pub open spec fn exit_stop<O>() -> spec_fn(FocusTarget<O>) -> bool {
    |t: FocusTarget<O>| t.is_top_level_navigable_spec() && !t.is_canvas_spec()
}

pub open spec fn section_named<O>(id: usize) -> spec_fn(FocusTarget<O>) -> bool {
    |t: FocusTarget<O>| t.is_section_with_id(id)
}


proof fn lemma_first_match_in_range<O>(
    ts: Seq<FocusTarget<O>>,
    lo: int,
    hi: int,
    p: spec_fn(FocusTarget<O>) -> bool,
)
    ensures
        first_match(ts, lo, hi, p) matches Some(j) ==> lo <= j < hi && p(ts[j]),
    decreases hi - lo,
{
    if lo < hi && !p(ts[lo]) {
        lemma_first_match_in_range(ts, lo + 1, hi, p);
    }
}

proof fn lemma_last_match_in_range<O>(
    ts: Seq<FocusTarget<O>>,
    lo: int,
    hi: int,
    p: spec_fn(FocusTarget<O>) -> bool,
)
    ensures
        last_match(ts, lo, hi, p) matches Some(j) ==> lo <= j < hi && p(ts[j]),
    decreases hi - lo,
{
    if lo < hi && !p(ts[hi - 1]) {
        lemma_last_match_in_range(ts, lo, hi - 1, p);
    }
}

/// The model after moving one step in the given direction.
pub open spec fn step_model<O, M>(m: FocusModel<O, M>, forward: bool) -> FocusModel<O, M> {
    match m.overlay {
        Some(OverlayFocus::Modal { data, index, count }) => if count > 0 {
            FocusModel {
                overlay: Some(
                    OverlayFocus::Modal {
                        data,
                        index: m.wrap.step_spec(index as int, count as int, forward) as usize,
                        count,
                    },
                ),
                ..m
            }
        } else {
            m
        },
        Some(OverlayFocus::Simple(_)) => m,
        None => match m.section {
            Some((id, item, count)) => FocusModel {
                section: Some(
                    (id, m.wrap.step_spec(item as int, count as int, forward) as usize, count),
                ),
                ..m
            },
            None => if m.index < m.targets.len() && m.targets[m.index as int].is_canvas_spec() {
                m
            } else if forward {
                match first_match(m.targets, m.index + 1, m.targets.len() as int, navigable()) {
                    Some(j) => FocusModel { index: j as usize, ..m },
                    None => if m.wrap == FocusWrap::Wrap {
                        match first_match(m.targets, 0, m.index as int, navigable()) {
                            Some(j) => FocusModel { index: j as usize, ..m },
                            None => m,
                        }
                    } else {
                        m
                    },
                }
            } else {
                match last_match(m.targets, 0, m.index as int, navigable()) {
                    Some(j) => FocusModel { index: j as usize, ..m },
                    None => if m.wrap == FocusWrap::Wrap {
                        match last_match(
                            m.targets,
                            m.index + 1,
                            m.targets.len() as int,
                            navigable(),
                        ) {
                            Some(j) => FocusModel { index: j as usize, ..m },
                            None => m,
                        }
                    } else {
                        m
                    },
                }
            },
        },
    }
}

/// What focus reports as current in a model: the overlay first, then the
/// entered section item, then the page target under the cursor.
pub open spec fn current_spec<O, M>(m: FocusModel<O, M>) -> Option<FocusTarget<O>> {
    match m.overlay {
        Some(OverlayFocus::Simple(kind)) => Some(FocusTarget::Overlay(kind)),
        Some(OverlayFocus::Modal { index, .. }) => Some(FocusTarget::ModalItem(index)),
        None => match m.section {
            Some((id, item, _)) => Some(FocusTarget::SectionItem { section: id, item }),
            None => if m.index < m.targets.len() {
                Some(m.targets[m.index as int])
            } else {
                None
            },
        },
    }
}

/// The model after entering the section under the cursor with `item_count`
/// items.
pub open spec fn enter_section_model<O, M>(m: FocusModel<O, M>, item_count: usize) -> FocusModel<
    O,
    M,
> {
    if item_count == 0 || m.index >= m.targets.len() {
        m
    } else {
        match m.targets[m.index as int] {
            FocusTarget::Section(id) => FocusModel { section: Some((id, 0, item_count)), ..m },
            _ => m,
        }
    }
}

/// The model after focusing item `item_index` of section `section_id`.
pub open spec fn enter_section_at_model<O, M>(
    m: FocusModel<O, M>,
    section_id: usize,
    item_count: usize,
    item_index: usize,
) -> FocusModel<O, M> {
    if item_count == 0 {
        m
    } else {
        match first_match(m.targets, 0, m.targets.len() as int, section_named(section_id)) {
            Some(p) => FocusModel {
                index: p as usize,
                overlay: None,
                section: Some(
                    (
                        section_id,
                        if item_index < item_count {
                            item_index
                        } else {
                            (item_count - 1) as usize
                        },
                        item_count,
                    ),
                ),
                ..m
            },
            None => m,
        }
    }
}

/// The registered item count of section `id`, if any (first entry wins).
pub open spec fn section_item_count(items: Seq<(usize, usize)>, id: usize) -> Option<usize>
    decreases items.len(),
{
    if items.len() == 0 {
        None
    } else if items[0].0 == id {
        Some(items[0].1)
    } else {
        section_item_count(items.drop_first(), id)
    }
}

/// The model after activating the focused target.
pub open spec fn activate_model<O, M>(m: FocusModel<O, M>) -> FocusModel<O, M> {
    if m.overlay is None && m.section is None && m.index < m.targets.len() {
        match m.targets[m.index as int] {
            FocusTarget::Section(id) => match section_item_count(m.section_items, id) {
                Some(n) => enter_section_model(m, n),
                None => m,
            },
            _ => m,
        }
    } else {
        m
    }
}

/// The model after registering a new page of targets.
pub open spec fn register_page_model<O, M>(
    m: FocusModel<O, M>,
    targets: Seq<FocusTarget<O>>,
) -> FocusModel<O, M> {
    FocusModel { targets, index: 0, section: None, ..m }
}

/// The model after moving to the first non-canvas stop past (or before) the
/// cursor.
pub open spec fn exit_canvas_model<O, M>(m: FocusModel<O, M>, forward: bool) -> FocusModel<O, M> {
    let found = if forward {
        first_match(m.targets, m.index + 1, m.targets.len() as int, exit_stop())
    } else {
        last_match(m.targets, 0, m.index as int, exit_stop())
    };
    match found {
        Some(j) => FocusModel { index: j as usize, ..m },
        None => m,
    }
}

/// The model after `set_focus(target)`.
pub open spec fn set_focus_model<O: PartialEq, M>(
    m: FocusModel<O, M>,
    target: FocusTarget<O>,
) -> FocusModel<O, M> {
    match target {
        FocusTarget::Overlay(kind) => FocusModel {
            overlay: Some(OverlayFocus::Simple(kind)),
            ..m
        },
        FocusTarget::ModalItem(next) => match m.overlay {
            Some(OverlayFocus::Modal { data, index, count }) => if next < count {
                FocusModel { overlay: Some(OverlayFocus::Modal { data, index: next, count }), ..m }
            } else {
                m
            },
            _ => m,
        },
        FocusTarget::Section(id) => match first_match(
            m.targets,
            0,
            m.targets.len() as int,
            section_named(id),
        ) {
            Some(p) => FocusModel { index: p as usize, overlay: None, section: None, ..m },
            None => m,
        },
        _ => match first_equal(m.targets, 0, m.targets.len() as int, target) {
            Some(p) => FocusModel { index: p as usize, overlay: None, section: None, ..m },
            None => m,
        },
    }
}

/// The simple overlay named by `target` is the one open.
pub open spec fn overlay_open_spec<O: PartialEq, M>(
    m: FocusModel<O, M>,
    target: FocusTarget<O>,
) -> bool {
    match (m.overlay, target) {
        (Some(OverlayFocus::Simple(current)), FocusTarget::Overlay(requested)) => current.eq_spec(
            &requested,
        ),
        _ => false,
    }
}

/// The model after opening the overlay `target` names.
pub open spec fn open_overlay_model<O, M>(m: FocusModel<O, M>, target: FocusTarget<O>) -> FocusModel<
    O,
    M,
> {
    match target {
        FocusTarget::Overlay(kind) => FocusModel { overlay: Some(OverlayFocus::Simple(kind)), ..m },
        _ => m,
    }
}

/// The model after closing the overlay `target` names, if it is the open one.
pub open spec fn close_overlay_model<O: PartialEq, M>(
    m: FocusModel<O, M>,
    target: FocusTarget<O>,
) -> FocusModel<O, M> {
    if overlay_open_spec(m, target) {
        FocusModel { overlay: None, ..m }
    } else {
        m
    }
}

/// In a modal, moving keeps the cursor on one of the modal's items and
/// leaves the rest of focus unchanged; with wrapping, moving back undoes
/// moving forward.
pub proof fn lemma_modal_step<O, M>(m: FocusModel<O, M>, forward: bool)
    requires
        m.overlay matches Some(OverlayFocus::Modal { index, count, .. }) && index < count,
    ensures
        step_model(m, forward).overlay matches Some(OverlayFocus::Modal { index, count, .. })
            && count == m.overlay->Some_0->count && index < count,
        step_model(m, forward) == (FocusModel { overlay: step_model(m, forward).overlay, ..m }),
        m.wrap == FocusWrap::Wrap ==> step_model(step_model(m, true), false) == m,
{
    let index = m.overlay->Some_0->index;
    let count = m.overlay->Some_0->count;
    lemma_step_in_range(m.wrap, index as int, count as int, forward);
    lemma_step_in_range(m.wrap, index as int, count as int, true);
    if m.wrap == FocusWrap::Wrap {
        lemma_wrap_steps_undo(index as int, count as int);
    }
}

/// An opened overlay holds focus, and closing it again removes it and leaves
/// the rest of focus as it was (for an overlay kind equal to itself).
pub proof fn lemma_close_undoes_open<O: PartialEq, M>(m: FocusModel<O, M>, kind: O)
    requires
        kind.eq_spec(&kind),
    ensures
        current_spec(open_overlay_model(m, FocusTarget::Overlay(kind))) == Some(
            FocusTarget::<O>::Overlay(kind),
        ),
        close_overlay_model(
            open_overlay_model(m, FocusTarget::Overlay(kind)),
            FocusTarget::Overlay(kind),
        ) == (FocusModel::<O, M> { overlay: None, ..m }),
{
}

/// The model after removing the first target equal to `target`.
pub open spec fn remove_target_model<O: PartialEq, M>(
    m: FocusModel<O, M>,
    target: FocusTarget<O>,
) -> FocusModel<O, M> {
    match first_equal(m.targets, 0, m.targets.len() as int, target) {
        Some(p) => {
            let ts = m.targets.remove(p);
            FocusModel {
                targets: ts,
                index: if m.index >= ts.len() && ts.len() > 0 {
                    (ts.len() - 1) as usize
                } else {
                    m.index
                },
                ..m
            }
        },
        None => m,
    }
}

/// Tracks which target on the current page holds focus, the open overlay (if
/// any), and the entered section (if any).
#[derive(Debug)]
pub struct FocusManager<O = (), M = ()> {
    targets: Vec<FocusTarget<O>>,
    index: usize,
    overlay: Option<OverlayFocus<O, M>>,
    entered_section: Option<(usize, usize, usize)>,
    section_items: Vec<(usize, usize)>,
    wrap: FocusWrap,
}

impl<O, M> View for FocusManager<O, M> {
    type V = FocusModel<O, M>;

    closed spec fn view(&self) -> FocusModel<O, M> {
        FocusModel {
            targets: self.targets@,
            index: self.index,
            overlay: self.overlay,
            section: self.entered_section,
            section_items: self.section_items@,
            wrap: self.wrap,
        }
    }
}

/// The model is well formed: the cursor is on a target (or the page is
/// empty), and an entered section has a valid item cursor.
pub open spec fn model_wf<O, M>(m: FocusModel<O, M>) -> bool {
    &&& (m.index == 0 || m.index < m.targets.len())
    &&& (m.section matches Some((_, item, count)) ==> count > 0 && item < count)
}

/// Applies focus intents to a [`FocusManager`].
pub trait FocusController<O = (), M = ()> {
    fn apply_focus_intent(&mut self, intent: FocusIntent<O, M>);
}

impl<O, M> FocusManager<O, M> {
    pub open spec fn wf(&self) -> bool {
        model_wf(self@)
    }

    /// Checks [`wf`](Self::wf) at run time; every manager built through this
    /// API satisfies it.
    pub fn is_wf(&self) -> (r: bool)
        ensures
            r == self.wf(),
    {
        let index_ok = self.index == 0 || self.index < self.targets.len();
        let section_ok = match self.entered_section {
            Some((_, item, count)) => count > 0 && item < count,
            None => true,
        };
        index_ok && section_ok
    }

    pub fn new() -> (r: Self)
        ensures
            r.wf(),
            r@.targets == Seq::<FocusTarget<O>>::empty(),
            r@.index == 0,
            r@.overlay is None,
            r@.section is None,
            r@.section_items == Seq::<(usize, usize)>::empty(),
            r@.wrap == FocusWrap::Clamp,
    {
        FocusManager {
            targets: Vec::new(),
            index: 0,
            overlay: None,
            entered_section: None,
            section_items: Vec::new(),
            wrap: FocusWrap::Clamp,
        }
    }

    /// The current end-of-list navigation policy.
    pub fn focus_wrap(&self) -> (r: FocusWrap)
        ensures
            r == self@.wrap,
    {
        self.wrap
    }

    /// Set the end-of-list navigation policy.
    pub fn set_focus_wrap(&mut self, wrap: FocusWrap)
        ensures
            final(self)@ == (FocusModel { wrap, ..old(self)@ }),
    {
        self.wrap = wrap;
    }

    pub fn targets(&self) -> (r: &[FocusTarget<O>])
        ensures
            r@ == self@.targets,
    {
        self.targets.as_slice()
    }

    pub fn overlay(&self) -> (r: Option<&OverlayFocus<O, M>>)
        ensures
            match r {
                Some(o) => self@.overlay == Some(*o),
                None => self@.overlay is None,
            },
    {
        match &self.overlay {
            Some(o) => Some(o),
            None => None,
        }
    }

    /// The open overlay, for changing it in place; the rest of the manager
    /// stays as it was.
    pub fn overlay_mut(&mut self) -> (r: Option<&mut OverlayFocus<O, M>>)
        ensures
            match r {
                Some(o) => old(self)@.overlay == Some(*o) && final(self)@ == (FocusModel {
                    overlay: Some(*final(o)),
                    ..old(self)@
                }),
                None => old(self)@.overlay is None && final(self)@ == old(self)@,
            },
            old(self).wf() ==> final(self).wf(),
    {
        match &mut self.overlay {
            Some(o) => Some(o),
            None => None,
        }
    }

    /// Replace the page's targets; the cursor returns to the first target and
    /// any entered section is left. An open overlay stays open.
    pub fn register_page(&mut self, targets: Vec<FocusTarget<O>>)
        ensures
            final(self)@ == register_page_model(old(self)@, targets@),
            final(self).wf(),
    {
        self.targets = targets;
        self.index = 0;
        self.entered_section = None;
    }

    pub fn has_overlay(&self) -> (r: bool)
        ensures
            r == (self@.overlay is Some),
    {
        self.overlay.is_some()
    }

    /// Record the `(section_id, item_count)` pairs that
    /// [`activate`](Self::activate) consults.
    pub fn set_section_items(&mut self, items: Vec<(usize, usize)>)
        ensures
            final(self)@ == (FocusModel { section_items: items@, ..old(self)@ }),
    {
        self.section_items = items;
    }

    fn find_first(&self, lo: usize, hi: usize, exit: bool) -> (r: Option<usize>)
        requires
            lo <= hi <= self.targets@.len(),
        ensures
            r == opt_pos(if exit {
                first_match(self@.targets, lo as int, hi as int, exit_stop())
            } else {
                first_match(self@.targets, lo as int, hi as int, navigable())
            }),
    {
        let mut k = lo;
        while k < hi
            invariant
                lo <= k <= hi <= self.targets@.len(),
                (if exit {
                    first_match(self@.targets, lo as int, hi as int, exit_stop())
                } else {
                    first_match(self@.targets, lo as int, hi as int, navigable())
                }) == (if exit {
                    first_match(self@.targets, k as int, hi as int, exit_stop())
                } else {
                    first_match(self@.targets, k as int, hi as int, navigable())
                }),
            decreases hi - k,
        {
            let t = &self.targets[k];
            let hit = if exit {
                t.is_top_level_navigable() && !t.is_canvas()
            } else {
                t.is_top_level_navigable()
            };
            if hit {
                return Some(k);
            }
            k = k + 1;
        }
        None
    }

    fn find_last(&self, lo: usize, hi: usize, exit: bool) -> (r: Option<usize>)
        requires
            lo <= hi <= self.targets@.len(),
        ensures
            r == opt_pos(if exit {
                last_match(self@.targets, lo as int, hi as int, exit_stop())
            } else {
                last_match(self@.targets, lo as int, hi as int, navigable())
            }),
    {
        let mut k = hi;
        while k > lo
            invariant
                lo <= k <= hi <= self.targets@.len(),
                (if exit {
                    last_match(self@.targets, lo as int, hi as int, exit_stop())
                } else {
                    last_match(self@.targets, lo as int, hi as int, navigable())
                }) == (if exit {
                    last_match(self@.targets, lo as int, k as int, exit_stop())
                } else {
                    last_match(self@.targets, lo as int, k as int, navigable())
                }),
            decreases k - lo,
        {
            let t = &self.targets[k - 1];
            let hit = if exit {
                t.is_top_level_navigable() && !t.is_canvas()
            } else {
                t.is_top_level_navigable()
            };
            if hit {
                return Some(k - 1);
            }
            k = k - 1;
        }
        None
    }

    fn find_section(&self, section_id: usize) -> (r: Option<usize>)
        ensures
            r == opt_pos(first_match(
                self@.targets,
                0,
                self@.targets.len() as int,
                section_named(section_id),
            )),
    {
        let mut k: usize = 0;
        while k < self.targets.len()
            invariant
                k <= self.targets@.len(),
                first_match(self@.targets, 0, self@.targets.len() as int, section_named(section_id))
                    == first_match(
                    self@.targets,
                    k as int,
                    self@.targets.len() as int,
                    section_named(section_id),
                ),
            decreases self.targets@.len() - k,
        {
            if let FocusTarget::Section(id) = &self.targets[k] {
                if *id == section_id {
                    return Some(k);
                }
            }
            k = k + 1;
        }
        None
    }

    fn step(&mut self, forward: bool)
        requires
            old(self).wf(),
        ensures
            final(self)@ == step_model(old(self)@, forward),
            final(self).wf(),
    {
        let wrap = self.wrap;
        let len = self.targets.len();
        match &mut self.overlay {
            Some(OverlayFocus::Modal { index, count, .. }) => {
                if *count > 0 {
                    *index = wrap.step(*index, *count, forward);
                }
                return ;
            },
            Some(OverlayFocus::Simple(_)) => {
                return ;
            },
            None => {},
        }
        match self.entered_section {
            Some((id, item, count)) => {
                let next = wrap.step(item, count, forward);
                self.entered_section = Some((id, next, count));
                return ;
            },
            None => {},
        }
        if self.index < len && self.targets[self.index].is_canvas() {
            return ;
        }
        if self.index >= len {
            return ;
        }
        if forward {
            match self.find_first(self.index + 1, len, false) {
                Some(j) => {
                    proof {
                        lemma_first_match_in_range(
                            self@.targets,
                            self.index + 1,
                            len as int,
                            navigable(),
                        );
                    }
                    self.index = j;
                },
                None => {
                    if wrap == FocusWrap::Wrap {
                        if let Some(j) = self.find_first(0, self.index, false) {
                            proof {
                                lemma_first_match_in_range(
                                    self@.targets,
                                    0,
                                    self.index as int,
                                    navigable(),
                                );
                            }
                            self.index = j;
                        }
                    }
                },
            }
        } else {
            match self.find_last(0, self.index, false) {
                Some(j) => {
                    proof {
                        lemma_last_match_in_range(self@.targets, 0, self.index as int, navigable());
                    }
                    self.index = j;
                },
                None => {
                    if wrap == FocusWrap::Wrap {
                        if let Some(j) = self.find_last(self.index + 1, len, false) {
                            proof {
                                lemma_last_match_in_range(
                                    self@.targets,
                                    self.index + 1,
                                    len as int,
                                    navigable(),
                                );
                            }
                            self.index = j;
                        }
                    }
                },
            }
        }
    }

    /// Move focus forward: within an open modal, within an entered section,
    /// or to the next navigable page target. A focused canvas field keeps
    /// focus (the canvas handles its own movement).
    pub fn next(&mut self)
        requires
            old(self).wf(),
        ensures
            final(self)@ == step_model(old(self)@, true),
            final(self).wf(),
    {
        self.step(true);
    }

    /// Move focus backward; the mirror image of [`next`](Self::next).
    pub fn prev(&mut self)
        requires
            old(self).wf(),
        ensures
            final(self)@ == step_model(old(self)@, false),
            final(self).wf(),
    {
        self.step(false);
    }

    /// Open a generic modal overlay carrying `data` with `count` selectable
    /// items, its cursor on the first item.
    pub fn show_modal(&mut self, data: M, count: usize)
        requires
            old(self).wf(),
        ensures
            final(self)@ == (FocusModel {
                overlay: Some(OverlayFocus::Modal { data, index: 0, count }),
                ..old(self)@
            }),
            final(self).wf(),
    {
        self.overlay = Some(OverlayFocus::Modal { data, index: 0, count });
    }

    pub fn clear_overlay(&mut self)
        requires
            old(self).wf(),
        ensures
            final(self)@ == (FocusModel { overlay: None, ..old(self)@ }),
            final(self).wf(),
    {
        self.overlay = None;
    }

    /// Move to the first navigable, non-canvas target after the cursor.
    pub fn exit_canvas_forward(&mut self)
        requires
            old(self).wf(),
        ensures
            final(self)@ == exit_canvas_model(old(self)@, true),
            final(self).wf(),
    {
        if self.index >= self.targets.len() {
            return ;
        }
        if let Some(j) = self.find_first(self.index + 1, self.targets.len(), true) {
            proof {
                lemma_first_match_in_range(
                    self@.targets,
                    self.index + 1,
                    self.targets@.len() as int,
                    exit_stop(),
                );
            }
            self.index = j;
        }
    }

    /// Move to the last navigable, non-canvas target before the cursor.
    pub fn exit_canvas_backward(&mut self)
        requires
            old(self).wf(),
        ensures
            final(self)@ == exit_canvas_model(old(self)@, false),
            final(self).wf(),
    {
        if let Some(j) = self.find_last(0, self.index, true) {
            proof {
                lemma_last_match_in_range(self@.targets, 0, self.index as int, exit_stop());
            }
            self.index = j;
        }
    }

    /// Enter the section under the cursor with `item_count` items, the item
    /// cursor on the first item. Does nothing for an empty section or when the
    /// cursor is not on a section.
    pub fn enter_section(&mut self, item_count: usize)
        requires
            old(self).wf(),
        ensures
            final(self)@ == enter_section_model(old(self)@, item_count),
            final(self).wf(),
    {
        if item_count == 0 {
            return ;
        }
        if self.index < self.targets.len() {
            if let FocusTarget::Section(section_id) = &self.targets[self.index] {
                let id = *section_id;
                self.entered_section = Some((id, 0, item_count));
            }
        }
    }

    /// Focus item `item_index` (clamped to the last item) of section
    /// `section_id`, closing any overlay.
    pub fn enter_section_at(&mut self, section_id: usize, item_count: usize, item_index: usize)
        requires
            old(self).wf(),
        ensures
            final(self)@ == enter_section_at_model(old(self)@, section_id, item_count, item_index),
            final(self).wf(),
    {
        if item_count == 0 {
            return ;
        }
        if let Some(position) = self.find_section(section_id) {
            proof {
                lemma_first_match_in_range(
                    self@.targets,
                    0,
                    self@.targets.len() as int,
                    section_named(section_id),
                );
            }
            self.index = position;
            self.overlay = None;
            let item = if item_index < item_count {
                item_index
            } else {
                item_count - 1
            };
            self.entered_section = Some((section_id, item, item_count));
        }
    }

    pub fn leave_section(&mut self)
        requires
            old(self).wf(),
        ensures
            final(self)@ == (FocusModel { section: None, ..old(self)@ }),
            final(self).wf(),
    {
        self.entered_section = None;
    }

    /// Enter the focused section if its item count was registered with
    /// [`set_section_items`](Self::set_section_items); otherwise do nothing.
    pub fn activate(&mut self)
        requires
            old(self).wf(),
        ensures
            final(self)@ == activate_model(old(self)@),
            final(self).wf(),
    {
        if self.overlay.is_some() || self.entered_section.is_some() {
            return ;
        }
        if self.index >= self.targets.len() {
            return ;
        }
        let id = match &self.targets[self.index] {
            FocusTarget::Section(id) => *id,
            _ => {
                return ;
            },
        };
        let mut k: usize = 0;
        let ghost items = self@.section_items;
        let ghost start = self@;
        assert(items.skip(0) =~= items);
        while k < self.section_items.len()
            invariant
                k <= self.section_items@.len(),
                items == self.section_items@,
                self@ == start,
                old(self)@ == start,
                self.wf(),
                start.overlay is None,
                start.section is None,
                start.index < start.targets.len(),
                start.targets[start.index as int] == FocusTarget::<O>::Section(id),
                section_item_count(items, id) == section_item_count(items.skip(k as int), id),
            decreases self.section_items@.len() - k,
        {
            assert(items.skip(k as int).drop_first() =~= items.skip(k + 1));
            let (sid, count) = self.section_items[k];
            assert(items.skip(k as int)[0] == items[k as int]);
            if sid == id {
                assert(items.skip(k as int).len() > 0);
                assert(section_item_count(items.skip(k as int), id) == Some(count));
                assert(section_item_count(items, id) == Some(count));
                assert(activate_model(start) == enter_section_model(start, count));
                self.enter_section(count);
                return ;
            }
            k = k + 1;
        }
        assert(items.skip(k as int) =~= Seq::<(usize, usize)>::empty());
    }
}

impl<O: Clone, M> FocusManager<O, M> {
    /// Where focus currently rests.
    pub fn current(&self) -> (r: Option<FocusTarget<O>>)
        ensures
            opt_target_cloned(current_spec(self@), r),
    {
        match &self.overlay {
            Some(OverlayFocus::Simple(kind)) => {
                return Some(FocusTarget::Overlay(kind.clone()));
            },
            Some(OverlayFocus::Modal { index, .. }) => {
                return Some(FocusTarget::ModalItem(*index));
            },
            None => {},
        }
        if let Some((id, item, _)) = self.entered_section {
            return Some(FocusTarget::SectionItem { section: id, item });
        }
        if self.index < self.targets.len() {
            Some(self.targets[self.index].clone())
        } else {
            None
        }
    }

    pub fn query(&self) -> (r: FocusQuery<O>)
        ensures
            opt_target_cloned(current_spec(self@), r.current),
    {
        FocusQuery { current: self.current() }
    }
}

impl<O: PartialEq, M> FocusManager<O, M> {
    fn find_equal(&self, target: &FocusTarget<O>) -> (r: Option<usize>)
        ensures
            O::obeys_eq_spec() || !(*target is Overlay) ==> r == opt_pos(first_equal(self@.targets, 0, self@.targets.len() as int, *target)),
            r matches Some(j) ==> j < self@.targets.len(),
    {
        let mut k: usize = 0;
        while k < self.targets.len()
            invariant
                k <= self.targets@.len(),
                O::obeys_eq_spec() || !(*target is Overlay) ==> first_equal(self@.targets, 0, self@.targets.len() as int, *target) == first_equal(self@.targets, k as int, self@.targets.len() as int, *target),
            decreases self.targets@.len() - k,
        {
            if self.targets[k].same_as(target) {
                return Some(k);
            }
            k = k + 1;
        }
        None
    }

    /// Focus rests on `target`.
    pub fn is_focused(&self, target: &FocusTarget<O>) -> (r: bool)
        ensures
            O::obeys_eq_spec() || !(*target is Overlay) ==> r == (current_spec(self@) matches Some(t)
                && target_eq(t, *target)),
    {
        match &self.overlay {
            Some(OverlayFocus::Simple(kind)) => {
                return match target {
                    FocusTarget::Overlay(other) => *kind == *other,
                    _ => false,
                };
            },
            Some(OverlayFocus::Modal { index, .. }) => {
                return match target {
                    FocusTarget::ModalItem(other) => *index == *other,
                    _ => false,
                };
            },
            None => {},
        }
        if let Some((id, item, _)) = self.entered_section {
            return match target {
                FocusTarget::SectionItem { section, item: other } => id == *section && item
                    == *other,
                _ => false,
            };
        }
        if self.index < self.targets.len() {
            self.targets[self.index].same_as(target)
        } else {
            false
        }
    }

    /// Append `target` unless an equal target is already registered.
    pub fn add_target(&mut self, target: FocusTarget<O>)
        requires
            old(self).wf(),
        ensures
            final(self).wf(),
            O::obeys_eq_spec() || !(target is Overlay) ==> final(self)@ == (if first_equal(old(self)@.targets, 0, old(self)@.targets.len() as int, target) is Some {
                old(self)@
            } else {
                FocusModel { targets: old(self)@.targets.push(target), ..old(self)@ }
            }),
    {
        if self.find_equal(&target).is_none() {
            self.targets.push(target);
        }
    }

    /// Remove the first target equal to `target`, keeping the cursor on the
    /// list.
    pub fn remove_target(&mut self, target: &FocusTarget<O>)
        requires
            old(self).wf(),
        ensures
            final(self).wf(),
            O::obeys_eq_spec() || !(*target is Overlay) ==> final(self)@ == remove_target_model(
                old(self)@,
                *target,
            ),
    {
        if let Some(position) = self.find_equal(target) {
            proof {
                lemma_first_equal_in_range(
                    self@.targets,
                    0,
                    self@.targets.len() as int,
                    *target,
                );
            }
            self.targets.remove(position);
            if self.index >= self.targets.len() && self.targets.len() > 0 {
                self.index = self.targets.len() - 1;
            }
        }
    }

    /// Move focus to `target`: an overlay target opens that overlay, a modal
    /// item moves the modal cursor, a section or any other page target moves
    /// the page cursor (closing overlays and leaving any entered section).
    pub fn set_focus(&mut self, target: FocusTarget<O>)
        requires
            old(self).wf(),
        ensures
            final(self).wf(),
            final(self)@ == set_focus_model(old(self)@, target),
    {
        let ghost old_model = self@;
        match target {
            FocusTarget::Overlay(kind) => {
                self.overlay = Some(OverlayFocus::Simple(kind));
            },
            FocusTarget::ModalItem(next_index) => {
                if let Some(OverlayFocus::Modal { index, count, .. }) = &mut self.overlay {
                    if next_index < *count {
                        *index = next_index;
                    }
                }
            },
            FocusTarget::Section(section_id) => {
                if let Some(position) = self.find_section(section_id) {
                    proof {
                        lemma_first_match_in_range(
                            self@.targets,
                            0,
                            self@.targets.len() as int,
                            section_named(section_id),
                        );
                    }
                    self.index = position;
                    self.overlay = None;
                    self.entered_section = None;
                }
            },
            other => {
                if let Some(position) = self.find_equal(&other) {
                    self.index = position;
                    self.overlay = None;
                    self.entered_section = None;
                }
            },
        }
    }

    /// Open the overlay that `target` names (non-overlay targets are ignored).
    pub fn open_overlay(&mut self, target: FocusTarget<O>)
        requires
            old(self).wf(),
        ensures
            final(self).wf(),
            final(self)@ == open_overlay_model(old(self)@, target),
    {
        if let FocusTarget::Overlay(kind) = target {
            self.overlay = Some(OverlayFocus::Simple(kind));
        }
    }

    /// Close the overlay that `target` names if it is the one open.
    pub fn close_overlay(&mut self, target: FocusTarget<O>)
        requires
            old(self).wf(),
        ensures
            final(self).wf(),
            O::obeys_eq_spec() ==> final(self)@ == close_overlay_model(old(self)@, target),
            final(self)@ == old(self)@ || final(self)@ == (FocusModel {
                overlay: None,
                ..old(self)@
            }),
    {
        if self.is_overlay_open(&target) {
            self.overlay = None;
        }
    }

    /// Close the overlay `target` names if it is open, otherwise open it.
    pub fn toggle_overlay(&mut self, target: FocusTarget<O>)
        requires
            old(self).wf(),
        ensures
            final(self).wf(),
            O::obeys_eq_spec() ==> final(self)@ == (if overlay_open_spec(old(self)@, target) {
                close_overlay_model(old(self)@, target)
            } else {
                open_overlay_model(old(self)@, target)
            }),
    {
        if self.is_overlay_open(&target) {
            self.close_overlay(target);
        } else {
            self.open_overlay(target);
        }
    }

    /// The simple overlay that `target` names is the one open.
    pub fn is_overlay_open(&self, target: &FocusTarget<O>) -> (r: bool)
        ensures
            O::obeys_eq_spec() ==> r == overlay_open_spec(self@, *target),
            r ==> self@.overlay is Some,
    {
        match (&self.overlay, target) {
            (Some(OverlayFocus::Simple(current)), FocusTarget::Overlay(requested)) => *current
                == *requested,
            _ => false,
        }
    }

    /// Apply one intent. Comparisons between targets go through `O`'s
    /// `PartialEq`.
    pub fn apply_intent(&mut self, intent: FocusIntent<O, M>)
        requires
            old(self).wf(),
        ensures
            final(self).wf(),
            O::obeys_eq_spec() || !compares_overlays(intent) ==> final(self)@ == intent_model(
                old(self)@,
                intent,
            ),
    {
        match intent {
            FocusIntent::Next => self.next(),
            FocusIntent::Prev => self.prev(),
            FocusIntent::SetFocus(target) => self.set_focus(target),
            FocusIntent::Open(target) => self.open_overlay(target),
            FocusIntent::Close(target) => self.close_overlay(target),
            FocusIntent::Toggle(target) => self.toggle_overlay(target),
            FocusIntent::RegisterPage(targets) => self.register_page(targets),
            FocusIntent::RegisterPageAndEnterSection { targets, section, item_count, item } => {
                self.register_page(targets);
                self.enter_section_at(section, item_count, item);
            },
            FocusIntent::ShowModal { data, count } => self.show_modal(data, count),
            FocusIntent::UpdateModal { data, count } => {
                if let Some(OverlayFocus::Modal { data: current_data, count: current_count, .. }) =
                    &mut self.overlay {
                    *current_data = data;
                    *current_count = count;
                }
            },
            FocusIntent::ClearOverlay => self.clear_overlay(),
            FocusIntent::ExitCanvasForward => self.exit_canvas_forward(),
            FocusIntent::ExitCanvasBackward => self.exit_canvas_backward(),
            FocusIntent::EnterSection { item_count } => self.enter_section(item_count),
            FocusIntent::LeaveSection => self.leave_section(),
            FocusIntent::Activate => self.activate(),
        }
    }
}

/// Applying `intent` compares overlays through `O`'s `==`: closing or
/// toggling one.
pub open spec fn compares_overlays<O, M>(intent: FocusIntent<O, M>) -> bool {
    intent is Close || intent is Toggle
}

/// The model after applying one intent.
pub open spec fn intent_model<O: PartialEq, M>(
    m: FocusModel<O, M>,
    intent: FocusIntent<O, M>,
) -> FocusModel<O, M> {
    match intent {
        FocusIntent::Next => step_model(m, true),
        FocusIntent::Prev => step_model(m, false),
        FocusIntent::SetFocus(target) => set_focus_model(m, target),
        FocusIntent::Open(target) => open_overlay_model(m, target),
        FocusIntent::Close(target) => close_overlay_model(m, target),
        FocusIntent::Toggle(target) => if overlay_open_spec(m, target) {
            close_overlay_model(m, target)
        } else {
            open_overlay_model(m, target)
        },
        FocusIntent::RegisterPage(targets) => register_page_model(m, targets@),
        FocusIntent::RegisterPageAndEnterSection { targets, section, item_count, item } =>
            enter_section_at_model(register_page_model(m, targets@), section, item_count, item),
        FocusIntent::ShowModal { data, count } => FocusModel {
            overlay: Some(OverlayFocus::Modal { data, index: 0, count }),
            ..m
        },
        FocusIntent::UpdateModal { data, count } => match m.overlay {
            Some(OverlayFocus::Modal { index, .. }) => FocusModel {
                overlay: Some(OverlayFocus::Modal { data, index, count }),
                ..m
            },
            _ => m,
        },
        FocusIntent::ClearOverlay => FocusModel { overlay: None, ..m },
        FocusIntent::ExitCanvasForward => exit_canvas_model(m, true),
        FocusIntent::ExitCanvasBackward => exit_canvas_model(m, false),
        FocusIntent::EnterSection { item_count } => enter_section_model(m, item_count),
        FocusIntent::LeaveSection => FocusModel { section: None, ..m },
        FocusIntent::Activate => activate_model(m),
    }
}

impl<O: PartialEq, M> FocusController<O, M> for FocusManager<O, M> {
    fn apply_focus_intent(&mut self, intent: FocusIntent<O, M>)
        ensures
            old(self).wf() ==> final(self).wf(),
            old(self).wf() && (O::obeys_eq_spec() || !compares_overlays(intent)) ==> final(self)@ == intent_model(
                old(self)@,
                intent,
            ),
    {
        if self.is_wf() {
            self.apply_intent(intent);
        }
    }
}

impl<O, M> Default for FocusManager<O, M> {
    fn default() -> (r: Self)
        ensures
            r.wf(),
            r@.targets == Seq::<FocusTarget<O>>::empty(),
            r@.index == 0,
            r@.overlay is None,
            r@.section is None,
            r@.wrap == FocusWrap::Clamp,
    {
        Self::new()
    }
}

/// What [`first_match`] finds: the first position in the range whose target
/// satisfies `p`, or `None` when no position there does.
proof fn lemma_first_match_first<O>(
    ts: Seq<FocusTarget<O>>,
    lo: int,
    hi: int,
    p: spec_fn(FocusTarget<O>) -> bool,
)
    ensures
        match first_match(ts, lo, hi, p) {
            Some(j) => lo <= j < hi && p(ts[j]) && forall|k: int| lo <= k < j ==> !p(#[trigger] ts[k]),
            None => forall|k: int| lo <= k < hi ==> !p(#[trigger] ts[k]),
        },
    decreases hi - lo,
{
    if lo < hi && !p(ts[lo]) {
        lemma_first_match_first(ts, lo + 1, hi, p);
    }
}

/// What [`last_match`] finds: the last position in the range whose target
/// satisfies `p`, or `None` when no position there does.
proof fn lemma_last_match_last<O>(
    ts: Seq<FocusTarget<O>>,
    lo: int,
    hi: int,
    p: spec_fn(FocusTarget<O>) -> bool,
)
    ensures
        match last_match(ts, lo, hi, p) {
            Some(j) => lo <= j < hi && p(ts[j]) && forall|k: int| j < k < hi ==> !p(#[trigger] ts[k]),
            None => forall|k: int| lo <= k < hi ==> !p(#[trigger] ts[k]),
        },
    decreases hi - lo,
{
    if lo < hi && !p(ts[hi - 1]) {
        lemma_last_match_last(ts, lo, hi - 1, p);
    }
}

/// Moving forward on a page (no overlay open, no section entered, the
/// cursor not on a canvas field) moves the cursor to the first navigable
/// target after it; when there is none and focus wraps, to the first
/// navigable target before it; otherwise focus stays. Only the cursor
/// changes, and never onto an internal canvas field.
pub proof fn lemma_next_on_page<O, M>(m: FocusModel<O, M>)
    requires
        model_wf(m),
        m.targets.len() <= usize::MAX,
        m.overlay is None,
        m.section is None,
        !(m.index < m.targets.len() && m.targets[m.index as int].is_canvas_spec()),
    ensures
        step_model(m, true) == (FocusModel { index: step_model(m, true).index, ..m }),
        step_model(m, true).index != m.index ==> !(m.targets[step_model(m, true).index as int] is InternalCanvasField),
        (exists|j: int| m.index < j < m.targets.len() && #[trigger] m.targets[j].is_top_level_navigable_spec()) ==> {
            let i = step_model(m, true).index as int;
            &&& m.index < i < m.targets.len()
            &&& m.targets[i].is_top_level_navigable_spec()
            &&& forall|k: int| m.index < k < i ==> !(#[trigger] m.targets[k]).is_top_level_navigable_spec()
        },
        (forall|j: int| m.index < j < m.targets.len() ==> !(#[trigger] m.targets[j]).is_top_level_navigable_spec())
            && m.wrap == FocusWrap::Wrap && (exists|j: int| 0 <= j < m.index && #[trigger] m.targets[j].is_top_level_navigable_spec())
            ==> {
            let i = step_model(m, true).index as int;
            &&& 0 <= i < m.index
            &&& m.targets[i].is_top_level_navigable_spec()
            &&& forall|k: int| 0 <= k < i ==> !(#[trigger] m.targets[k]).is_top_level_navigable_spec()
        },
        (forall|j: int| m.index < j < m.targets.len() ==> !(#[trigger] m.targets[j]).is_top_level_navigable_spec())
            && !(m.wrap == FocusWrap::Wrap && (exists|j: int| 0 <= j < m.index && #[trigger] m.targets[j].is_top_level_navigable_spec()))
            ==> step_model(m, true) == m,
{
    let len = m.targets.len() as int;
    lemma_first_match_first(m.targets, m.index + 1, len, navigable());
    lemma_first_match_first(m.targets, 0, m.index as int, navigable());
}

/// Moving back on a page (no overlay open, no section entered, the cursor
/// not on a canvas field) moves the cursor to the last navigable target
/// before it; when there is none and focus wraps, to the last navigable
/// target after it; otherwise focus stays. Only the cursor changes, and
/// never onto an internal canvas field.
pub proof fn lemma_prev_on_page<O, M>(m: FocusModel<O, M>)
    requires
        model_wf(m),
        m.targets.len() <= usize::MAX,
        m.overlay is None,
        m.section is None,
        !(m.index < m.targets.len() && m.targets[m.index as int].is_canvas_spec()),
    ensures
        step_model(m, false) == (FocusModel { index: step_model(m, false).index, ..m }),
        step_model(m, false).index != m.index ==> !(m.targets[step_model(m, false).index as int] is InternalCanvasField),
        (exists|j: int| 0 <= j < m.index && #[trigger] m.targets[j].is_top_level_navigable_spec()) ==> {
            let i = step_model(m, false).index as int;
            &&& 0 <= i < m.index
            &&& m.targets[i].is_top_level_navigable_spec()
            &&& forall|k: int| i < k < m.index ==> !(#[trigger] m.targets[k]).is_top_level_navigable_spec()
        },
        (forall|j: int| 0 <= j < m.index ==> !(#[trigger] m.targets[j]).is_top_level_navigable_spec())
            && m.wrap == FocusWrap::Wrap && (exists|j: int| m.index < j < m.targets.len() && #[trigger] m.targets[j].is_top_level_navigable_spec())
            ==> {
            let i = step_model(m, false).index as int;
            &&& m.index < i < m.targets.len()
            &&& m.targets[i].is_top_level_navigable_spec()
            &&& forall|k: int| i < k < m.targets.len() ==> !(#[trigger] m.targets[k]).is_top_level_navigable_spec()
        },
        (forall|j: int| 0 <= j < m.index ==> !(#[trigger] m.targets[j]).is_top_level_navigable_spec())
            && !(m.wrap == FocusWrap::Wrap && (exists|j: int| m.index < j < m.targets.len() && #[trigger] m.targets[j].is_top_level_navigable_spec()))
            ==> step_model(m, false) == m,
{
    let len = m.targets.len() as int;
    lemma_last_match_last(m.targets, 0, m.index as int, navigable());
    lemma_last_match_last(m.targets, m.index + 1, len, navigable());
}

/// Off the page, a step moves within what holds focus: in a modal with
/// items only its cursor moves (wrapping or clamping); an empty modal or a
/// simple overlay stays; in an entered section only the item cursor moves;
/// on a canvas field focus stays. The page targets and cursor never change.
pub proof fn lemma_step_off_page<O, M>(m: FocusModel<O, M>, forward: bool)
    ensures
        m.overlay matches Some(OverlayFocus::Modal { data, index, count }) ==> (count > 0 ==> step_model(m, forward)
            == (FocusModel {
            overlay: Some(
                OverlayFocus::Modal { data, index: m.wrap.step_spec(index as int, count as int, forward) as usize, count },
            ),
            ..m
        })),
        m.overlay matches Some(OverlayFocus::Modal { count, .. }) && count == 0 ==> step_model(m, forward) == m,
        m.overlay matches Some(OverlayFocus::Simple(_)) ==> step_model(m, forward) == m,
        m.overlay is None ==> (m.section matches Some((id, item, count)) ==> step_model(m, forward) == (FocusModel {
            section: Some((id, m.wrap.step_spec(item as int, count as int, forward) as usize, count)),
            ..m
        })),
        m.overlay is None && m.section is None && m.index < m.targets.len() && m.targets[m.index as int].is_canvas_spec()
            ==> step_model(m, forward) == m,
        !(m.overlay is None && m.section is None && !(m.index < m.targets.len() && m.targets[m.index as int].is_canvas_spec()))
            ==> step_model(m, forward).targets == m.targets && step_model(m, forward).index == m.index,
{
}

/// What [`first_equal`] finds: the first position in the range whose target
/// equals `target`, or `None` when none does.
proof fn lemma_first_equal_first<O: PartialEq>(ts: Seq<FocusTarget<O>>, lo: int, hi: int, target: FocusTarget<O>)
    ensures
        match first_equal(ts, lo, hi, target) {
            Some(j) => lo <= j < hi && target_eq(ts[j], target) && forall|k: int| lo <= k < j ==> !target_eq(#[trigger] ts[k], target),
            None => forall|k: int| lo <= k < hi ==> !target_eq(#[trigger] ts[k], target),
        },
    decreases hi - lo,
{
    if lo < hi && !target_eq(ts[lo], target) {
        lemma_first_equal_first(ts, lo + 1, hi, target);
    }
}

/// Focusing a page target (not an overlay, modal item or section) moves the
/// cursor to its first position on the page, closing any overlay and
/// leaving any section, so that it is current; a target not on the page
/// leaves focus as it was, an open overlay included.
pub proof fn lemma_set_focus_page_target<O: PartialEq, M>(m: FocusModel<O, M>, target: FocusTarget<O>)
    requires
        m.targets.len() <= usize::MAX,
        !(target is Overlay || target is ModalItem || target is Section),
    ensures
        match first_equal(m.targets, 0, m.targets.len() as int, target) {
            Some(p) => {
                &&& set_focus_model(m, target) == (FocusModel { index: p as usize, overlay: None, section: None, ..m })
                &&& 0 <= p < m.targets.len() && target_eq(m.targets[p], target)
                &&& forall|k: int| 0 <= k < p ==> !target_eq(#[trigger] m.targets[k], target)
                &&& current_spec(set_focus_model(m, target)) == Some(m.targets[p])
            },
            None => {
                &&& set_focus_model(m, target) == m
                &&& forall|k: int| 0 <= k < m.targets.len() ==> !target_eq(#[trigger] m.targets[k], target)
            },
        },
{
    lemma_first_equal_first(m.targets, 0, m.targets.len() as int, target);
}

/// Focusing an overlay opens it as the simple overlay, nothing else
/// changing; focusing a modal item moves the open modal's cursor there when
/// the modal has such an item, and otherwise changes nothing; focusing a
/// section moves the cursor to its first position on the page, closing any
/// overlay and leaving any entered section, or changes nothing when the page
/// has no such section.
pub proof fn lemma_set_focus_other_targets<O: PartialEq, M>(m: FocusModel<O, M>, target: FocusTarget<O>)
    requires
        m.targets.len() <= usize::MAX,
    ensures
        target matches FocusTarget::Overlay(k) ==> set_focus_model(m, target) == (FocusModel {
            overlay: Some(OverlayFocus::Simple(k)),
            ..m
        }),
        target matches FocusTarget::ModalItem(i) ==> (if m.overlay matches Some(OverlayFocus::Modal { count, .. }) && i < count {
            set_focus_model(m, target) == (FocusModel {
                overlay: Some(OverlayFocus::Modal { data: m.overlay->Some_0->data, index: i, count: m.overlay->Some_0->count }),
                ..m
            })
        } else {
            set_focus_model(m, target) == m
        }),
        target matches FocusTarget::Section(id) ==> match first_match(m.targets, 0, m.targets.len() as int, section_named(id)) {
            Some(p) => {
                &&& 0 <= p < m.targets.len() && m.targets[p] == FocusTarget::<O>::Section(id)
                &&& forall|k: int| 0 <= k < p ==> m.targets[k] != FocusTarget::<O>::Section(id)
                &&& set_focus_model(m, target) == (FocusModel { index: p as usize, overlay: None, section: None, ..m })
            },
            None => {
                &&& forall|k: int| 0 <= k < m.targets.len() ==> m.targets[k] != FocusTarget::<O>::Section(id)
                &&& set_focus_model(m, target) == m
            },
        },
{
    if let FocusTarget::Section(id) = target {
        lemma_first_match_first(m.targets, 0, m.targets.len() as int, section_named(id));
        let p = section_named::<O>(id);
        assert forall|k: int| #![trigger m.targets[k]] 0 <= k < m.targets.len() && !p(m.targets[k]) implies m.targets[k] != FocusTarget::<O>::Section(id) by {}
    }
}

/// What is current: an open simple overlay, else the open modal's item,
/// else the entered section's item, else the page target under the cursor,
/// which there is none of when the cursor is past the page's targets.
pub proof fn lemma_current<O, M>(m: FocusModel<O, M>)
    ensures
        m.overlay matches Some(OverlayFocus::Simple(k)) ==> current_spec(m) == Some(FocusTarget::<O>::Overlay(k)),
        m.overlay matches Some(OverlayFocus::Modal { index, .. }) ==> current_spec(m) == Some(FocusTarget::<O>::ModalItem(index)),
        m.overlay is None ==> (m.section matches Some((s, item, _)) ==> current_spec(m) == Some(
            FocusTarget::<O>::SectionItem { section: s, item },
        )),
        m.overlay is None && m.section is None ==> (current_spec(m) is None <==> m.index >= m.targets.len()),
        m.overlay is None && m.section is None && m.index < m.targets.len() ==> current_spec(m) == Some(m.targets[m.index as int]),
{
}

/// On a page, every target but an internal canvas field is a stop: moving
/// forward from a page target lands on the very next target when that one is
/// a button, a field, a section, an overlay or any other target, and moving
/// back lands on the very previous one likewise.
pub proof fn lemma_step_to_adjacent_stop<O, M>(m: FocusModel<O, M>, forward: bool)
    requires
        model_wf(m),
        m.targets.len() <= usize::MAX,
        m.overlay is None,
        m.section is None,
        m.index < m.targets.len(),
        !m.targets[m.index as int].is_canvas_spec(),
    ensures
        forward && m.index + 1 < m.targets.len() && !(m.targets[m.index + 1] is InternalCanvasField)
            ==> step_model(m, forward) == (FocusModel { index: (m.index + 1) as usize, ..m }),
        !forward && m.index >= 1 && !(m.targets[m.index - 1] is InternalCanvasField)
            ==> step_model(m, forward) == (FocusModel { index: (m.index - 1) as usize, ..m }),
{
}

} // verus!
