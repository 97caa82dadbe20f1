use tui_pages::{
    BufferState, FocusController, FocusIntent, FocusManager, FocusTarget, FocusWrap,
    NavigationCoordinator, NavigationEvent, NavigationRouter,
};

#[derive(Debug, Clone, PartialEq, Eq)]
enum View {
    Home,
    Form,
}

#[derive(Debug)]
struct Router {
    current: View,
}

impl NavigationRouter<View> for Router {
    fn view_spec(&self) -> View {
        self.current.clone()
    }

    fn targets_spec(&self) -> Vec<FocusTarget> {
        self.focus_targets()
    }

    fn sync_to_view(&mut self, view: &View) {
        self.current = view.clone();
    }

    fn current_view(&self) -> View {
        self.current.clone()
    }

    fn focus_targets(&self) -> Vec<FocusTarget> {
        match self.current {
            View::Home => vec![FocusTarget::Button(0), FocusTarget::Button(1)],
            View::Form => vec![FocusTarget::CanvasField(0), FocusTarget::Button(0)],
        }
    }
}

#[test]
fn focus_manager_moves_between_buttons_without_wrapping() {
    let mut focus: FocusManager<(), ()> = FocusManager::new();
    focus.apply_focus_intent(FocusIntent::RegisterPage(vec![
        FocusTarget::Button(0),
        FocusTarget::Button(1),
    ]));

    assert_eq!(focus.current(), Some(FocusTarget::Button(0)));
    focus.apply_focus_intent(FocusIntent::Next);
    assert_eq!(focus.current(), Some(FocusTarget::Button(1)));
    focus.apply_focus_intent(FocusIntent::Next);
    assert_eq!(focus.current(), Some(FocusTarget::Button(1)));
}

#[test]
fn focus_wrap_is_opt_in() {
    let mut focus: FocusManager = FocusManager::new();
    focus.set_focus_wrap(FocusWrap::Wrap);
    focus.apply_focus_intent(FocusIntent::RegisterPage(vec![
        FocusTarget::Button(0),
        FocusTarget::Button(1),
    ]));

    focus.apply_focus_intent(FocusIntent::Next);
    assert_eq!(focus.current(), Some(FocusTarget::Button(1)));
    focus.apply_focus_intent(FocusIntent::Next);
    assert_eq!(focus.current(), Some(FocusTarget::Button(0)));
    focus.apply_focus_intent(FocusIntent::Prev);
    assert_eq!(focus.current(), Some(FocusTarget::Button(1)));

    let mut clamped: FocusManager = FocusManager::new();
    clamped.apply_focus_intent(FocusIntent::RegisterPage(vec![
        FocusTarget::Button(0),
        FocusTarget::Button(1),
    ]));
    clamped.apply_focus_intent(FocusIntent::Next);
    clamped.apply_focus_intent(FocusIntent::Next);
    assert_eq!(clamped.current(), Some(FocusTarget::Button(1)));
}

#[derive(Debug, Clone, PartialEq, Eq, Hash)]
enum Overlay {
    Palette,
    Sidebar,
}

#[test]
fn overlay_type_is_application_defined() {
    let mut focus: FocusManager<Overlay> = FocusManager::new();
    focus.register_page(vec![FocusTarget::Button(0)]);

    focus.apply_focus_intent(FocusIntent::Open(FocusTarget::Overlay(Overlay::Palette)));
    assert_eq!(focus.current(), Some(FocusTarget::Overlay(Overlay::Palette)));
    assert!(focus.is_overlay_open(&FocusTarget::Overlay(Overlay::Palette)));
    assert!(!focus.is_overlay_open(&FocusTarget::Overlay(Overlay::Sidebar)));

    focus.apply_focus_intent(FocusIntent::ClearOverlay);
    assert_eq!(focus.current(), Some(FocusTarget::Button(0)));
}

#[test]
fn navigation_returns_focus_registration_intent() {
    let mut router = Router {
        current: View::Home,
    };
    let mut buffer = BufferState::new(View::Home);

    let (result, focus_intent) = NavigationCoordinator::navigate(
        NavigationEvent::NavigateTo(View::Form),
        &mut router,
        &mut buffer,
        View::Home,
        FocusWrap::Clamp,
    );

    assert!(matches!(result, tui_pages::NavigationResult::Navigated { .. }));
    assert!(matches!(
        focus_intent,
        Some(FocusIntent::RegisterPage(targets)) if targets == vec![
            FocusTarget::CanvasField(0),
            FocusTarget::Button(0),
        ]
    ));
}

#[test]
fn buffer_switching_follows_the_wrap_policy() {
    let mut router = Router {
        current: View::Home,
    };
    let mut buffer = BufferState::new(View::Home);
    let _ = NavigationCoordinator::navigate(
        NavigationEvent::NavigateTo(View::Form),
        &mut router,
        &mut buffer,
        View::Home,
        FocusWrap::Clamp,
    );
    let (result, _) = NavigationCoordinator::navigate(
        NavigationEvent::NextBuffer,
        &mut router,
        &mut buffer,
        View::Home,
        FocusWrap::Clamp,
    );
    assert_eq!(
        result,
        tui_pages::NavigationResult::Switched {
            from: View::Form,
            to: View::Form
        }
    );
    let (result, intent) = NavigationCoordinator::navigate(
        NavigationEvent::NextBuffer,
        &mut router,
        &mut buffer,
        View::Home,
        FocusWrap::Wrap,
    );
    assert_eq!(
        result,
        tui_pages::NavigationResult::Switched {
            from: View::Form,
            to: View::Home
        }
    );
    assert!(matches!(intent, Some(FocusIntent::RegisterPage(_))));
    assert_eq!(router.current, View::Home);
}

#[test]
fn previous_wraps_to_last_navigable_target_and_skips_internal_fields() {
    let mut focus: FocusManager = FocusManager::new();
    focus.set_focus_wrap(FocusWrap::Wrap);
    focus.register_page(vec![
        FocusTarget::Button(0),
        FocusTarget::Button(1),
        FocusTarget::InternalCanvasField(0),
    ]);
    focus.prev();
    assert_eq!(focus.current(), Some(FocusTarget::Button(1)));
    focus.next();
    assert_eq!(focus.current(), Some(FocusTarget::Button(0)));
}

#[test]
fn set_focus_on_a_missing_target_keeps_an_open_overlay() {
    let mut focus: FocusManager<u8> = FocusManager::new();
    focus.register_page(vec![FocusTarget::Button(0), FocusTarget::Button(1)]);
    focus.set_focus(FocusTarget::Overlay(7));
    focus.set_focus(FocusTarget::Button(9));
    assert_eq!(focus.current(), Some(FocusTarget::Overlay(7)));
    focus.set_focus(FocusTarget::Button(1));
    assert_eq!(focus.current(), Some(FocusTarget::Button(1)));
    assert!(!focus.has_overlay());
}
