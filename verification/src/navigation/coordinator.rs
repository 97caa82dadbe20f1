use vstd::prelude::*;
use vstd::std_specs::cmp::PartialEqSpec;
use crate::focus::{FocusIntent, FocusTarget, FocusWrap};
use crate::navigation::{first_equal_view, BufferState};

verus! {

/// A request to change which view is shown.
#[derive(Debug, Clone, PartialEq, Eq)]
pub enum NavigationEvent<V> {
    NavigateTo(V),
    NextBuffer,
    PreviousBuffer,
    CloseBuffer,
}

/// What a navigation did.
#[derive(Debug, Clone, PartialEq, Eq)]
pub enum NavigationResult<V> {
    Navigated { to: V },
    Switched { from: V, to: V },
    Closed { closed: V, now_on: V },
    NoChange,
}

/// The application's side of navigation: it follows the active view and
/// describes the focus targets of the page it shows.
pub trait NavigationRouter<V> {
    /// The view the router shows.
    spec fn view_spec(&self) -> V;

    /// The focus targets of the page the router shows.
    spec fn targets_spec(&self) -> Vec<FocusTarget>;

    /// Show `view`.
    fn sync_to_view(&mut self, view: &V)
        ensures
            final(self).view_spec() == *view,
    ;

    fn current_view(&self) -> (r: V)
        ensures
            r == self.view_spec(),
    ;

    fn focus_targets(&self) -> (r: Vec<FocusTarget>)
        ensures
            r@ == self.targets_spec()@,
    ;
}

/// `r` registers exactly `targets` as the page's focus targets, or is
/// `None` when there are none.
pub open spec fn registers_targets(r: Option<FocusIntent>, targets: Seq<FocusTarget>) -> bool {
    if targets.len() == 0 {
        r is None
    } else {
        r matches Some(FocusIntent::RegisterPage(t)) && t@ == targets
    }
}

/// The focus intent that registers a page's targets, if it has any.
pub open spec fn registers_page(r: Option<FocusIntent>) -> bool {
    match r {
        Some(FocusIntent::RegisterPage(targets)) => targets@.len() > 0,
        None => true,
        _ => false,
    }
}

/// The intent registering `targets`, when there are any.
pub open spec fn page_intent_spec(targets: Vec<FocusTarget>) -> Option<FocusIntent> {
    if targets@.len() == 0 {
        None
    } else {
        Some(FocusIntent::RegisterPage(targets))
    }
}

/// Applies navigation events to a [`BufferState`] and keeps a router in step.
#[derive(Debug, Clone, Copy)]
pub struct NavigationCoordinator;

impl NavigationCoordinator {
    /// Apply `event`: navigate to a view, switch buffers (wrapping or
    /// clamping per `wrap`), or close the active buffer (falling back to
    /// `fallback` when none remains). Alongside the result comes the intent
    /// that registers the new page's focus targets, when it has any.
    pub fn navigate<V, R>(
        event: NavigationEvent<V>,
        router: &mut R,
        buffer: &mut BufferState<V>,
        fallback: V,
        wrap: FocusWrap,
    ) -> (r: (NavigationResult<V>, Option<FocusIntent>))
        where
            V: Clone + PartialEq,
            R: NavigationRouter<V>,
        requires
            old(buffer).history@.len() > 0 ==> old(buffer).active_index < old(buffer).history@.len(),
        ensures
            registers_page(r.1),
            match event {
                NavigationEvent::NavigateTo(view) => {
                    &&& final(router).view_spec() == view
                    &&& registers_targets(r.1, final(router).targets_spec()@)
                    &&& r.0 matches NavigationResult::Navigated { to } && cloned(view, to)
                    &&& final(buffer).active_index < final(buffer).history@.len()
                    &&& (V::obeys_eq_spec() ==> match first_equal_view(
                        old(buffer).history@,
                        0,
                        view,
                    ) {
                        Some(p) => final(buffer).history@ == old(buffer).history@
                            && final(buffer).active_index == p,
                        None => final(buffer).history@ == old(buffer).history@.push(view)
                            && final(buffer).active_index == old(buffer).history@.len(),
                    })
                },
                NavigationEvent::NextBuffer => Self::switch_post(
                    *old(buffer),
                    *final(buffer),
                    true,
                    wrap,
                    r,
                ) && Self::router_followed(*old(router), *final(router), r),
                NavigationEvent::PreviousBuffer => Self::switch_post(
                    *old(buffer),
                    *final(buffer),
                    false,
                    wrap,
                    r,
                ) && Self::router_followed(*old(router), *final(router), r),
                NavigationEvent::CloseBuffer => {
                    &&& Self::router_followed(*old(router), *final(router), r)
                    &&& final(buffer).active_index < final(buffer).history@.len()
                    &&& old(buffer).history@.len() == 0 ==> r.0 is NoChange && r.1 is None
                        && final(buffer).history@ == seq![fallback]
                    &&& old(buffer).history@.len() > 0 ==> {
                        let removed = old(buffer).history@.remove(
                            old(buffer).active_index as int,
                        );
                        &&& final(buffer).history@ == (if removed.len() == 0 {
                            seq![fallback]
                        } else {
                            removed
                        })
                        &&& r.0 matches NavigationResult::Closed { closed, now_on }
                            && closed == old(buffer).history@[old(buffer).active_index as int]
                            && cloned(
                            final(buffer).history@[final(buffer).active_index as int],
                            now_on,
                        )
                    }
                },
            },
    {
        match event {
            NavigationEvent::NavigateTo(view) => {
                let copy = view.clone();
                router.sync_to_view(&view);
                buffer.update_history(view);
                (NavigationResult::Navigated { to: copy }, Self::focus_intent_for_router(router))
            },
            NavigationEvent::NextBuffer => Self::switch_buffer(true, router, buffer, wrap),
            NavigationEvent::PreviousBuffer => Self::switch_buffer(false, router, buffer, wrap),
            NavigationEvent::CloseBuffer => Self::close_buffer(router, buffer, fallback),
        }
    }

    /// What switching buffers does: nothing with at most one buffer;
    /// otherwise the cursor steps per `wrap` and the active pane follows.
    pub open spec fn switch_post<V: Clone>(
        before: BufferState<V>,
        after: BufferState<V>,
        forward: bool,
        wrap: FocusWrap,
        r: (NavigationResult<V>, Option<FocusIntent>),
    ) -> bool {
        let len = before.history@.len();
        if len <= 1 {
            r.0 is NoChange && r.1 is None && after == before
        } else {
            let next = wrap.step_spec(before.active_index as int, len as int, forward);
            &&& after.history@ == before.history@
            &&& after.active_index == next
            &&& 0 <= next < len
            &&& r.0 matches NavigationResult::Switched { from, to } && cloned(
                before.history@[before.active_index as int],
                from,
            ) && cloned(before.history@[next], to)
        }
    }

    /// The router after a buffer switch or close: untouched when nothing
    /// changed; otherwise it shows the view now active and the intent
    /// registers its page's targets.
    pub open spec fn router_followed<V, R: NavigationRouter<V>>(
        before: R,
        after: R,
        r: (NavigationResult<V>, Option<FocusIntent>),
    ) -> bool {
        match r.0 {
            NavigationResult::Switched { to, .. } => after.view_spec() == to && registers_targets(
                r.1,
                after.targets_spec()@,
            ),
            NavigationResult::Closed { now_on, .. } => after.view_spec() == now_on && registers_targets(
                r.1,
                after.targets_spec()@,
            ),
            NavigationResult::NoChange => after == before && r.1 is None,
            NavigationResult::Navigated { .. } => false,
        }
    }

    fn switch_buffer<V, R>(
        forward: bool,
        router: &mut R,
        buffer: &mut BufferState<V>,
        wrap: FocusWrap,
    ) -> (r: (NavigationResult<V>, Option<FocusIntent>))
        where
            V: Clone + PartialEq,
            R: NavigationRouter<V>,
        requires
            old(buffer).history@.len() > 0 ==> old(buffer).active_index < old(buffer).history@.len(),
        ensures
            registers_page(r.1),
            Self::switch_post(*old(buffer), *final(buffer), forward, wrap, r),
            Self::router_followed(*old(router), *final(router), r),
    {
        let len = buffer.history.len();
        if len <= 1 {
            return (NavigationResult::NoChange, None);
        }
        let old_view = buffer.history[buffer.active_index].clone();
        let next = wrap.step(buffer.active_index, len, forward);
        proof {
            if wrap == FocusWrap::Wrap {
                vstd::arithmetic::div_mod::lemma_mod_bound(
                    if forward {
                        buffer.active_index + 1
                    } else {
                        buffer.active_index + len - 1
                    },
                    len as int,
                );
            }
        }
        buffer.active_index = next;
        buffer.sync_active_pane_to_active_buffer();
        let new_view = buffer.history[buffer.active_index].clone();
        router.sync_to_view(&new_view);
        (
            NavigationResult::Switched { from: old_view, to: new_view },
            Self::focus_intent_for_router(router),
        )
    }

    fn close_buffer<V, R>(router: &mut R, buffer: &mut BufferState<V>, fallback: V) -> (r: (
        NavigationResult<V>,
        Option<FocusIntent>,
    ))
        where
            V: Clone + PartialEq,
            R: NavigationRouter<V>,
        requires
            old(buffer).history@.len() > 0 ==> old(buffer).active_index < old(buffer).history@.len(),
        ensures
            registers_page(r.1),
            Self::router_followed(*old(router), *final(router), r),
            final(buffer).active_index < final(buffer).history@.len(),
            old(buffer).history@.len() == 0 ==> r.0 is NoChange && r.1 is None
                && final(buffer).history@ == seq![fallback],
            old(buffer).history@.len() > 0 ==> {
                let removed = old(buffer).history@.remove(old(buffer).active_index as int);
                &&& final(buffer).history@ == (if removed.len() == 0 {
                    seq![fallback]
                } else {
                    removed
                })
                &&& r.0 matches NavigationResult::Closed { closed, now_on } && closed == old(buffer).history@[old(buffer).active_index as int] && cloned(
                    final(buffer).history@[final(buffer).active_index as int],
                    now_on,
                )
            },
    {
        let closed_view = match buffer.close_active_buffer(fallback) {
            Some(view) => view,
            None => {
                return (NavigationResult::NoChange, None);
            },
        };
        let new_view = buffer.history[buffer.active_index].clone();
        let replacement = new_view.clone();
        let ghost history = buffer.history@;
        let ghost active = buffer.active_index;
        buffer.replace_workspace_view(&closed_view, replacement);
        router.sync_to_view(&new_view);
        (
            NavigationResult::Closed { closed: closed_view, now_on: new_view },
            Self::focus_intent_for_router(router),
        )
    }

    /// The intent that registers `targets` as the page's focus targets, or
    /// `None` when there are none.
    pub fn page_intent(targets: Vec<FocusTarget>) -> (r: Option<FocusIntent>)
        ensures
            r == page_intent_spec(targets),
    {
        if targets.len() == 0 {
            None
        } else {
            Some(FocusIntent::RegisterPage(targets))
        }
    }

    /// [`page_intent`](Self::page_intent) of the targets the router reports
    /// for the page it shows.
    fn focus_intent_for_router<V, R>(router: &R) -> (r: Option<FocusIntent>)
        where
            R: NavigationRouter<V>,
        ensures
            registers_page(r),
            registers_targets(r, router.targets_spec()@),
    {
        let targets = router.focus_targets();
        let ghost t = targets;
        let r = Self::page_intent(targets);
        assert(r == page_intent_spec(t));
        r
    }
}

} // verus!
