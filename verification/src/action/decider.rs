use vstd::prelude::*;
use crate::action::ActionResolution;
use crate::focus::FocusTarget;
use crate::input::PipelineResponse;

verus! {

/// An action tagged with the layer that should handle it.
#[derive(Debug, Clone, PartialEq, Eq)]
pub enum RoutedAction<A> {
    Page(A),
    Canvas(A),
    Global(A),
}

/// Decides where an executed action goes. `resolves_to` names the decision
/// an implementation makes, so that callers can speak of it.
pub trait ActionDecider<A, PageId> {
    spec fn resolves_to(
        &self,
        action: A,
        focus: FocusTarget,
        page_id: PageId,
        r: ActionResolution<A, PageId>,
    ) -> bool;

    fn resolve(&self, action: A, focus: &FocusTarget, page_id: &PageId) -> (r: ActionResolution<
        A,
        PageId,
    >)
        ensures
            self.resolves_to(action, *focus, *page_id, r),
    ;
}

/// Routes pipeline responses through a decider.
#[derive(Debug, Clone)]
pub struct ActionDispatcher<D> {
    decider: D,
}

impl<D> ActionDispatcher<D> {
    pub closed spec fn decider_spec(&self) -> D {
        self.decider
    }

    pub fn new(decider: D) -> (r: Self)
        ensures
            r.decider_spec() == decider,
    {
        ActionDispatcher { decider }
    }

    pub fn decider(&self) -> (r: &D)
        ensures
            *r == self.decider_spec(),
    {
        &self.decider
    }

    /// An executed action goes to the decider; typed keys, pending sequences
    /// and cancelled sequences pass through unchanged.
    pub fn resolve_intent<A, PageId>(
        &self,
        response: PipelineResponse<A>,
        focus: &FocusTarget,
        current_page: &PageId,
    ) -> (r: ActionResolution<A, PageId>) where D: ActionDecider<A, PageId>
        ensures
            match response {
                PipelineResponse::Execute(action) => self.decider_spec().resolves_to(
                    action,
                    *focus,
                    *current_page,
                    r,
                ),
                PipelineResponse::Type(chord) => r == ActionResolution::<A, PageId>::Type(chord),
                PipelineResponse::Wait(hints) => r == ActionResolution::<A, PageId>::Wait(hints),
                PipelineResponse::Cancel => r == ActionResolution::<A, PageId>::Unresolved,
            },
    {
        match response {
            PipelineResponse::Execute(action) => self.decider.resolve(action, focus, current_page),
            PipelineResponse::Type(chord) => ActionResolution::Type(chord),
            PipelineResponse::Wait(hints) => ActionResolution::Wait(hints),
            PipelineResponse::Cancel => ActionResolution::Unresolved,
        }
    }
}

/// Sends page actions to the current page, canvas actions to the canvas, and
/// global actions to global logic.
#[derive(Debug, Clone, Copy, Default)]
pub struct DefaultActionDecider;

impl<A, PageId: Clone> ActionDecider<RoutedAction<A>, PageId> for DefaultActionDecider {
    open spec fn resolves_to(
        &self,
        action: RoutedAction<A>,
        focus: FocusTarget,
        page_id: PageId,
        r: ActionResolution<RoutedAction<A>, PageId>,
    ) -> bool {
        match action {
            RoutedAction::Page(_) => r matches ActionResolution::PageLogic { page_id: p, action: a }
                && cloned(page_id, p) && a == action,
            RoutedAction::Canvas(_) => r == ActionResolution::<RoutedAction<A>, PageId>::CanvasLogic {
                action,
            },
            RoutedAction::Global(_) => r == ActionResolution::<RoutedAction<A>, PageId>::GlobalLogic(
                action,
            ),
        }
    }

    fn resolve(&self, action: RoutedAction<A>, focus: &FocusTarget, page_id: &PageId) -> (r:
        ActionResolution<RoutedAction<A>, PageId>) {
        match action {
            RoutedAction::Page(_) => ActionResolution::PageLogic { page_id: page_id.clone(), action },
            RoutedAction::Canvas(_) => ActionResolution::CanvasLogic { action },
            RoutedAction::Global(_) => ActionResolution::GlobalLogic(action),
        }
    }
}

} // verus!
