use vstd::prelude::*;
use vstd::std_specs::cmp::PartialEqSpec;

verus! {

/// One place focus can rest on a page.
///
/// `O` is the application's own overlay type; the crate names no overlays of
/// its own. A generic modal overlay reports its cursor as
/// [`ModalItem`](FocusTarget::ModalItem).
#[derive(Debug)]
pub enum FocusTarget<O = ()> {
    CanvasField(usize),
    InternalCanvasField(usize),
    Button(usize),
    Section(usize),
    SectionItem { section: usize, item: usize },
    Overlay(O),
    ModalItem(usize),
    Custom(String),
}

/// `b` is a copy of `a`: every variant is kept, with the overlay payload
/// produced by `O`'s `Clone`.
pub open spec fn target_cloned<O: Clone>(a: FocusTarget<O>, b: FocusTarget<O>) -> bool {
    match (a, b) {
        (FocusTarget::Overlay(x), FocusTarget::Overlay(y)) => cloned(x, y),
        (FocusTarget::Custom(x), FocusTarget::Custom(y)) => x@ == y@,
        _ => a == b,
    }
}

/// `b` is a copy of `a`, lifted to optional targets.
pub open spec fn opt_target_cloned<O: Clone>(a: Option<FocusTarget<O>>, b: Option<FocusTarget<O>>) -> bool {
    match (a, b) {
        (Some(x), Some(y)) => target_cloned(x, y),
        (None, None) => true,
        _ => false,
    }
}

impl<O> FocusTarget<O> {
    pub open spec fn is_canvas_spec(self) -> bool {
        self is CanvasField || self is InternalCanvasField
    }

    pub open spec fn is_button_spec(self) -> bool {
        self is Button
    }

    pub open spec fn is_overlay_spec(self) -> bool {
        self is Overlay || self is ModalItem
    }

    pub open spec fn is_top_level_navigable_spec(self) -> bool {
        !(self is InternalCanvasField)
    }

    pub open spec fn is_section_with_id(self, id: usize) -> bool {
        self matches FocusTarget::Section(s) && s == id
    }

    /// A canvas field (plain or internal).
    pub fn is_canvas(&self) -> (r: bool)
        ensures
            r == self.is_canvas_spec(),
    {
        matches!(self, FocusTarget::CanvasField(_) | FocusTarget::InternalCanvasField(_))
    }

    pub fn is_button(&self) -> (r: bool)
        ensures
            r == self.is_button_spec(),
    {
        matches!(self, FocusTarget::Button(_))
    }

    /// A target that lives in an overlay rather than on the page.
    pub fn is_overlay(&self) -> (r: bool)
        ensures
            r == self.is_overlay_spec(),
    {
        matches!(self, FocusTarget::Overlay(_) | FocusTarget::ModalItem(_))
    }

    /// Every target but an internal canvas field takes part in top-level
    /// `Next`/`Prev` navigation.
    pub fn is_top_level_navigable(&self) -> (r: bool)
        ensures
            r == self.is_top_level_navigable_spec(),
    {
        !matches!(self, FocusTarget::InternalCanvasField(_))
    }
}

impl<O: Clone> FocusTarget<O> {
    /// The overlay this target names, if it names one.
    pub fn to_overlay(&self) -> (r: Option<O>)
        ensures
            match *self {
                FocusTarget::Overlay(kind) => r matches Some(k) && cloned(kind, k),
                _ => r is None,
            },
    {
        match self {
            FocusTarget::Overlay(kind) => Some(kind.clone()),
            _ => None,
        }
    }
}

impl<O: Clone> Clone for FocusTarget<O> {
    fn clone(&self) -> (r: Self)
        ensures
            target_cloned(*self, r),
    {
        match self {
            FocusTarget::CanvasField(i) => FocusTarget::CanvasField(*i),
            FocusTarget::InternalCanvasField(i) => FocusTarget::InternalCanvasField(*i),
            FocusTarget::Button(i) => FocusTarget::Button(*i),
            FocusTarget::Section(i) => FocusTarget::Section(*i),
            FocusTarget::SectionItem { section, item } => FocusTarget::SectionItem {
                section: *section,
                item: *item,
            },
            FocusTarget::Overlay(o) => FocusTarget::Overlay(o.clone()),
            FocusTarget::ModalItem(i) => FocusTarget::ModalItem(*i),
            FocusTarget::Custom(s) => FocusTarget::Custom(s.clone()),
        }
    }
}

/// Structural equality of targets, comparing overlay payloads with `O`'s
/// `==` and custom names by their text.
pub open spec fn target_eq<O: PartialEq>(a: FocusTarget<O>, b: FocusTarget<O>) -> bool {
    match (a, b) {
        (FocusTarget::CanvasField(x), FocusTarget::CanvasField(y)) => x == y,
        (FocusTarget::InternalCanvasField(x), FocusTarget::InternalCanvasField(y)) => x == y,
        (FocusTarget::Button(x), FocusTarget::Button(y)) => x == y,
        (FocusTarget::Section(x), FocusTarget::Section(y)) => x == y,
        (
            FocusTarget::SectionItem { section: s1, item: i1 },
            FocusTarget::SectionItem { section: s2, item: i2 },
        ) => s1 == s2 && i1 == i2,
        (FocusTarget::Overlay(x), FocusTarget::Overlay(y)) => x.eq_spec(&y),
        (FocusTarget::ModalItem(x), FocusTarget::ModalItem(y)) => x == y,
        (FocusTarget::Custom(x), FocusTarget::Custom(y)) => x@ == y@,
        _ => false,
    }
}

impl<O: PartialEq> FocusTarget<O> {
    /// `==` on targets.
    pub fn same_as(&self, other: &Self) -> (r: bool)
        ensures
            O::obeys_eq_spec() || !(*self is Overlay && *other is Overlay) ==> r == target_eq(
                *self,
                *other,
            ),
    {
        match (self, other) {
            (FocusTarget::CanvasField(a), FocusTarget::CanvasField(b)) => *a == *b,
            (FocusTarget::InternalCanvasField(a), FocusTarget::InternalCanvasField(b)) => *a == *b,
            (FocusTarget::Button(a), FocusTarget::Button(b)) => *a == *b,
            (FocusTarget::Section(a), FocusTarget::Section(b)) => *a == *b,
            (
                FocusTarget::SectionItem { section: s1, item: i1 },
                FocusTarget::SectionItem { section: s2, item: i2 },
            ) => *s1 == *s2 && *i1 == *i2,
            (FocusTarget::Overlay(a), FocusTarget::Overlay(b)) => *a == *b,
            (FocusTarget::ModalItem(a), FocusTarget::ModalItem(b)) => *a == *b,
            (FocusTarget::Custom(a), FocusTarget::Custom(b)) => *a == *b,
            _ => false,
        }
    }
}

impl<O: PartialEq> PartialEq for FocusTarget<O> {
    fn eq(&self, other: &Self) -> (r: bool) {
        self.same_as(other)
    }
}

impl<O: PartialEq> vstd::std_specs::cmp::PartialEqSpecImpl for FocusTarget<O> {
    open spec fn obeys_eq_spec() -> bool {
        O::obeys_eq_spec()
    }

    open spec fn eq_spec(&self, other: &Self) -> bool {
        target_eq(*self, *other)
    }
}

impl<O: Eq> Eq for FocusTarget<O> {}

/// Overlays an application commonly has, ready to serve as the overlay type
/// `O` of [`FocusTarget`].
#[derive(Debug, Clone, Hash)]
pub enum OverlayKind {
    CommandBar,
    SearchPalette,
    FindFilePalette,
    Sidebar,
    Custom(String),
}

/// `==` on overlay kinds: the same variant, and for `Custom` the same text.
pub open spec fn overlay_kind_eq(a: OverlayKind, b: OverlayKind) -> bool {
    match (a, b) {
        (OverlayKind::Custom(x), OverlayKind::Custom(y)) => x@ == y@,
        _ => a == b,
    }
}

impl PartialEq for OverlayKind {
    fn eq(&self, other: &Self) -> (r: bool) {
        match (self, other) {
            (OverlayKind::CommandBar, OverlayKind::CommandBar) => true,
            (OverlayKind::SearchPalette, OverlayKind::SearchPalette) => true,
            (OverlayKind::FindFilePalette, OverlayKind::FindFilePalette) => true,
            (OverlayKind::Sidebar, OverlayKind::Sidebar) => true,
            (OverlayKind::Custom(a), OverlayKind::Custom(b)) => *a == *b,
            _ => false,
        }
    }
}

impl vstd::std_specs::cmp::PartialEqSpecImpl for OverlayKind {
    open spec fn obeys_eq_spec() -> bool {
        true
    }

    open spec fn eq_spec(&self, other: &Self) -> bool {
        overlay_kind_eq(*self, *other)
    }
}

impl Eq for OverlayKind {}

/// A position [`first_equal`] reports lies in the searched range.
pub proof fn lemma_first_equal_in_range<O: PartialEq>(
    ts: Seq<FocusTarget<O>>,
    lo: int,
    hi: int,
    target: FocusTarget<O>,
)
    ensures
        first_equal(ts, lo, hi, target) matches Some(j) ==> lo <= j < hi && target_eq(
            ts[j],
            target,
        ),
    decreases hi - lo,
{
    if lo < hi && !target_eq(ts[lo], target) {
        lemma_first_equal_in_range(ts, lo + 1, hi, target);
    }
}

/// The first position in `lo..hi` whose target equals `target` under
/// `FocusTarget`'s `==`.
pub open spec fn first_equal<O: PartialEq>(
    ts: Seq<FocusTarget<O>>,
    lo: int,
    hi: int,
    target: FocusTarget<O>,
) -> Option<int>
    decreases hi - lo,
{
    if lo >= hi {
        None
    } else if target_eq(ts[lo], target) {
        Some(lo)
    } else {
        first_equal(ts, lo + 1, hi, target)
    }
}



} // verus!
