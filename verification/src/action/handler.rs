use vstd::prelude::*;
use crate::focus::{FocusIntent, FocusTarget};
use crate::input::{InputHint, KeyChord};

verus! {

/// Where a key press was routed.
#[derive(Debug, Clone, PartialEq, Eq)]
pub enum ActionResolution<A, P> {
    PageLogic { page_id: P, action: A },
    CanvasLogic { action: A },
    GlobalLogic(A),
    Type(KeyChord),
    Wait(Vec<InputHint<A>>),
    Unresolved,
}

/// What a page's action handler asks for: an application action, a focus
/// change, both, or neither.
#[derive(Debug, Clone, PartialEq, Eq)]
pub struct PageActionResult<AppAction, D = (), P = ()> {
    pub app_action: Option<AppAction>,
    pub focus_intent: Option<FocusIntent<D, P>>,
}

impl<AppAction, D, P> Default for PageActionResult<AppAction, D, P> {
    fn default() -> (r: Self)
        ensures
            r.app_action is None,
            r.focus_intent is None,
    {
        PageActionResult { app_action: None, focus_intent: None }
    }
}

impl<AppAction, D, P> PageActionResult<AppAction, D, P> {
    /// Nothing to do.
    pub fn none() -> (r: Self)
        ensures
            r.app_action is None,
            r.focus_intent is None,
    {
        PageActionResult { app_action: None, focus_intent: None }
    }

    /// Run an application action.
    pub fn app(action: AppAction) -> (r: Self)
        ensures
            r.app_action == Some(action),
            r.focus_intent is None,
    {
        PageActionResult { app_action: Some(action), focus_intent: None }
    }

    /// Change focus.
    pub fn focus(intent: FocusIntent<D, P>) -> (r: Self)
        ensures
            r.app_action is None,
            r.focus_intent == Some(intent),
    {
        PageActionResult { app_action: None, focus_intent: Some(intent) }
    }

    /// Both, either, or neither.
    pub fn with(app_action: Option<AppAction>, focus_intent: Option<FocusIntent<D, P>>) -> (r: Self)
        ensures
            r.app_action == app_action,
            r.focus_intent == focus_intent,
    {
        PageActionResult { app_action, focus_intent }
    }
}

/// Implemented by the application: what a page does with an action, and with
/// a press of one of its buttons.
pub trait PageActionHandler<Action, AppAction, AppState, Error, D = (), P = ()> {
    fn handle_action(&mut self, app_state: &AppState, focus: &FocusTarget, action: &Action) -> Result<
        PageActionResult<AppAction, D, P>,
        Error,
    >;

    /// What a press of button `index` asks for; unless the page overrides
    /// it, nothing.
    fn handle_button(&mut self, index: usize) -> (r: Result<PageActionResult<AppAction, D, P>, Error>)
        default_ensures
            r matches Ok(res) && res.app_action is None && res.focus_intent is None,
    {
        Ok(PageActionResult::none())
    }
}

} // verus!
