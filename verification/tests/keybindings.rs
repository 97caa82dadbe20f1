use tui_pages::keybindings::{
    navigation_action_infos, navigation_action_outcome, try_standard_navigation_action,
    try_standard_vim_action, vim_action_outcome, BuiltinNavigationPreset, NavigationAction,
    VimAction,
};
use tui_pages::{ActionOutcome, FocusIntent, TuiEffect};

#[derive(Debug, Clone, Copy, PartialEq, Eq)]
enum TestAction {
    Nav(NavigationAction),
    Custom,
}

impl From<NavigationAction> for TestAction {
    fn from(v: NavigationAction) -> Self {
        TestAction::Nav(v)
    }
}

#[test]
fn navigation_actions_round_trip_names() {
    for action in NavigationAction::all() {
        assert_eq!(action.as_name().parse::<NavigationAction>(), Ok(action));
        assert_eq!(action.to_string(), action.as_name());
    }
}

#[test]
fn navigation_actions_have_public_metadata() {
    assert_eq!(NavigationAction::FocusNext.label(), "Focus next");
    assert_eq!(NavigationAction::SplitVertical.category(), "Panes");
    assert_eq!(
        NavigationAction::infos().len(),
        NavigationAction::all().into_iter().count()
    );
}

#[test]
fn try_standard_navigation_action_dispatches_effects() {
    let action = TestAction::Nav(NavigationAction::FocusNext);
    let outcome: ActionOutcome<(), (), ()> =
        try_standard_navigation_action(&action).expect("nav action");
    assert_eq!(outcome.effects, vec![TuiEffect::Focus(FocusIntent::Next)]);
    assert!(
        try_standard_navigation_action::<TestAction, (), (), ()>(&TestAction::Custom).is_none()
    );
}

#[test]
fn try_standard_vim_action_dispatches_effects() {
    let action = TestAction::Nav(VimAction::FocusNext);
    let outcome: ActionOutcome<(), (), ()> = try_standard_vim_action(&action).expect("vim action");
    assert_eq!(outcome.effects, vec![TuiEffect::Focus(FocusIntent::Next)]);

    assert!(try_standard_vim_action::<TestAction, (), (), ()>(&TestAction::Custom).is_none());
}

#[test]
fn navigation_names_accept_aliases_and_case() {
    assert_eq!(
        "Previous-Buffer".parse::<NavigationAction>(),
        Ok(NavigationAction::PrevBuffer)
    );
    assert_eq!(
        "SPLIT_PANE_HORIZONTAL".parse::<NavigationAction>(),
        Ok(NavigationAction::SplitHorizontal)
    );
    let err = "jump".parse::<NavigationAction>().unwrap_err();
    assert_eq!(err.name(), "jump");
    assert_eq!(navigation_action_infos().len(), 13);
    assert_eq!(navigation_action_infos()[4].name, "quit");
    assert_eq!(NavigationAction::Quit.description(), "Request application shutdown.");
}

#[test]
fn navigation_outcomes_carry_one_effect() {
    let outcome: ActionOutcome<(), (), ()> = navigation_action_outcome(NavigationAction::SplitVertical);
    assert_eq!(
        outcome.effects,
        vec![TuiEffect::SplitPane(tui_pages::PaneSplit::Vertical)]
    );
    let outcome: ActionOutcome<(), (), ()> = vim_action_outcome(VimAction::PrevBuffer);
    assert_eq!(outcome.effects, vec![TuiEffect::PreviousBuffer]);
}

#[test]
fn builtin_preset_names_parse() {
    for preset in [
        BuiltinNavigationPreset::Vim,
        BuiltinNavigationPreset::Emacs,
        BuiltinNavigationPreset::Helix,
    ] {
        assert_eq!(
            preset.to_string().parse::<BuiltinNavigationPreset>(),
            Ok(preset)
        );
    }
    let err = "nano".parse::<BuiltinNavigationPreset>().unwrap_err();
    assert_eq!(err.name(), "nano");
}
