use tui_pages::input::{KeyCode, KeyModifiers, PipelineResponse};
use tui_pages::runtime::{layer_order, route_keymap_response, LayerOwner};
use tui_pages::{
    modes, navigation_action_outcome, ActionContext, ActionOutcome, FocusIntent, FocusTarget,
    InputLayerContext, KeyChord, KeyEvent, ModeId, NavigationAction, PageProvider, PageSpec,
    RuntimeContext, TuiActionHandler, TuiEffect, TuiPages, TuiPagesStatus,
};

#[derive(Debug, Clone, PartialEq, Eq)]
enum View {
    Home,
    Settings,
}

#[derive(Debug, Clone, PartialEq, Eq)]
enum Action {
    Next,
    Settings,
    Quit,
    Nav(NavigationAction),
}

impl From<NavigationAction> for Action {
    fn from(value: NavigationAction) -> Self {
        Action::Nav(value)
    }
}

#[derive(Default)]
struct State {
    handled: Vec<Action>,
    typed: Vec<KeyChord>,
}

#[derive(Clone, Copy)]
struct Handler;

impl TuiActionHandler<View, Action, State> for Handler {
    type Error = std::convert::Infallible;

    fn handle_action(
        &mut self,
        action: Action,
        _ctx: ActionContext<View>,
        state: &mut State,
        _runtime: RuntimeContext<'_, Action>,
    ) -> Result<ActionOutcome<View>, Self::Error> {
        state.handled.push(action.clone());
        Ok(match action {
            Action::Next => ActionOutcome::effect(TuiEffect::Focus(FocusIntent::Next)),
            Action::Settings => ActionOutcome::effect(TuiEffect::Navigate(View::Settings)),
            Action::Quit => ActionOutcome::effect(TuiEffect::Quit),
            Action::Nav(nav) => navigation_action_outcome(nav),
        })
    }

    fn handle_text(
        &mut self,
        chord: KeyChord,
        _ctx: ActionContext<View>,
        state: &mut State,
        _runtime: RuntimeContext<'_, Action>,
    ) -> Result<ActionOutcome<View>, Self::Error> {
        state.typed.push(chord);
        Ok(ActionOutcome::none())
    }
}

struct Pages;

impl PageProvider<View, State> for Pages {
    fn page_of(&self, view: View, state: &State, focus: Option<FocusTarget>) -> PageSpec {
        self.page_spec(&view, state, focus.as_ref())
    }

    fn page_spec(&self, view: &View, _state: &State, _focus: Option<&FocusTarget>) -> PageSpec {
        let modes = vec![ModeId::borrowed(modes::GENERAL), ModeId::borrowed(modes::GLOBAL)];
        match view {
            View::Home => PageSpec::new()
                .focus_targets(vec![FocusTarget::Button(0), FocusTarget::Button(1)])
                .modes(modes),
            View::Settings => PageSpec::new().focus_targets(vec![FocusTarget::Button(0)]).modes(modes),
        }
    }
}

fn key(code: KeyCode) -> KeyEvent {
    KeyEvent::new(code, KeyModifiers::empty())
}

#[test]
fn runtime_maps_user_actions_to_library_effects() {
    let mut tui = TuiPages::<View, Action>::builder(View::Home)
        .pages(Pages)
        .handler(Handler)
        .bind(modes::GENERAL, "tab", Action::Next)
        .bind(modes::GENERAL, "s", Action::Settings)
        .command("Quit", &["q", "quit"], Action::Quit)
        .build();

    let mut state = State::default();
    tui.refresh_page(&state);
    assert_eq!(tui.focus.current(), Some(FocusTarget::Button(0)));

    let output = tui.handle_key(key(KeyCode::Tab), &mut state).unwrap();
    assert_eq!(output.status, TuiPagesStatus::ActionHandled);
    assert_eq!(tui.focus.current(), Some(FocusTarget::Button(1)));

    tui.handle_key(key(KeyCode::Char('s')), &mut state).unwrap();
    assert_eq!(tui.current_view(), &View::Settings);
    assert_eq!(tui.focus.current(), Some(FocusTarget::Button(0)));

    let output = tui.submit_command("q", &mut state).unwrap();
    assert!(output.quit_requested);
    assert_eq!(state.handled, vec![Action::Next, Action::Settings, Action::Quit]);
}

#[test]
fn runtime_waits_on_sequences_types_unbound_keys_and_reports_commands() {
    let mut tui = TuiPages::<View, Action>::builder(View::Home)
        .pages(Pages)
        .handler(Handler)
        .bind(modes::GENERAL, "g s", Action::Settings)
        .command("Quit", &["quit"], Action::Quit)
        .build();
    let mut state = State::default();

    let output = tui.handle_key(key(KeyCode::Char('g')), &mut state).unwrap();
    assert!(matches!(output.status, TuiPagesStatus::Waiting(_)));
    let output = tui.handle_key(key(KeyCode::Char('s')), &mut state).unwrap();
    assert_eq!(output.status, TuiPagesStatus::ActionHandled);
    assert_eq!(tui.current_view(), &View::Settings);

    let output = tui.handle_key(key(KeyCode::Char('x')), &mut state).unwrap();
    assert_eq!(output.status, TuiPagesStatus::TextHandled);
    assert_eq!(state.typed, vec![KeyChord::new(KeyCode::Char('x'), KeyModifiers::empty())]);

    assert!(matches!(
        tui.submit_command("qu", &mut state).unwrap().status,
        TuiPagesStatus::CommandIncomplete(_)
    ));
    assert_eq!(tui.submit_command("zz", &mut state).unwrap().status, TuiPagesStatus::CommandUnknown);
    assert_eq!(tui.submit_command("  ", &mut state).unwrap().status, TuiPagesStatus::CommandEmpty);
    assert!(tui.submit_command("quit", &mut state).unwrap().quit_requested);
}

#[test]
fn effects_switch_and_close_buffers() {
    let mut tui = TuiPages::<View, Action>::builder(View::Home)
        .pages(Pages)
        .handler(Handler)
        .build();
    let state = State::default();
    assert!(!tui.apply_effect(TuiEffect::Navigate(View::Settings), &state));
    assert_eq!(tui.current_view(), &View::Settings);
    assert!(!tui.apply_effect(TuiEffect::NextBuffer, &state));
    assert_eq!(tui.current_view(), &View::Settings);
    assert!(!tui.apply_effect(TuiEffect::PreviousBuffer, &state));
    assert_eq!(tui.current_view(), &View::Home);
    assert!(!tui.apply_effect(TuiEffect::CloseBuffer, &state));
    assert_eq!(tui.current_view(), &View::Settings);
    assert!(!tui.apply_effect(TuiEffect::CloseBuffer, &state));
    assert_eq!(tui.current_view(), &View::Home);
    assert!(tui.apply_effect(TuiEffect::Quit, &state));
}

#[test]
fn layers_are_ordered_by_text_context() {
    assert_eq!(layer_order(0, None, false), vec![LayerOwner::Keymap]);
    assert_eq!(
        layer_order(2, None, true),
        vec![LayerOwner::Hook(0), LayerOwner::Hook(1), LayerOwner::Keymap]
    );
    assert_eq!(
        layer_order(3, Some((1, InputLayerContext::Command)), false),
        vec![LayerOwner::Keymap, LayerOwner::Hook(1), LayerOwner::Hook(0), LayerOwner::Hook(2)]
    );
    assert_eq!(
        layer_order(2, Some((1, InputLayerContext::Text)), false),
        vec![LayerOwner::Hook(1), LayerOwner::Keymap, LayerOwner::Hook(0)]
    );
}

#[test]
fn mapped_text_runs_its_action_only_where_the_focus_takes_it() {
    let chord = KeyChord::new(KeyCode::Char('a'), KeyModifiers::empty());
    assert!(matches!(
        route_keymap_response(PipelineResponse::Type(chord.clone()), true, Some(3u8)),
        PipelineResponse::Execute(3)
    ));
    assert!(matches!(
        route_keymap_response(PipelineResponse::Type(chord.clone()), false, Some(3u8)),
        PipelineResponse::Type(_)
    ));
    assert!(matches!(
        route_keymap_response::<u8>(PipelineResponse::Cancel, true, Some(3u8)),
        PipelineResponse::Cancel
    ));
}

#[test]
fn keys_for_lists_each_bound_sequence_sorted_once() {
    let tui = TuiPages::<View, Action>::builder(View::Home)
        .pages(Pages)
        .handler(Handler)
        .bind(modes::GENERAL, "tab", Action::Next)
        .bind(modes::GLOBAL, "ctrl+n", Action::Next)
        .bind(modes::GENERAL, "g g", Action::Next)
        .bind(modes::GLOBAL, "tab", Action::Next)
        .build();
    assert_eq!(
        tui.keys_for(&Action::Next),
        vec!["Ctrl+n".to_string(), "Tab".to_string(), "g g".to_string()]
    );
    assert_eq!(tui.key_for(&Action::Next), Some("Ctrl+n".to_string()));
    assert_eq!(tui.key_for(&Action::Quit), None);
    assert!(tui.keys_for(&Action::Quit).is_empty());
}

#[test]
fn runtime_remap_navigation_preset_toml_changes_live_keymap_and_resets_sequence() {
    let mut tui = TuiPages::<View, Action>::builder(View::Home)
        .pages(Pages)
        .handler(Handler)
        .helix_navigation_defaults()
        .build();
    let mut state = State::default();
    tui.refresh_page(&state);

    let output = tui.handle_key(key(KeyCode::Char('g')), &mut state).unwrap();
    assert!(matches!(output.status, TuiPagesStatus::Waiting(_)));
    assert!(tui.input.active());

    let remap = r#"
[general]
mode = "general"
next_buffer = ["n"]
"#;
    tui.remap_navigation_preset_toml(remap).unwrap();
    assert!(!tui.input.active());

    let output = tui.handle_key(key(KeyCode::Char('n')), &mut state).unwrap();
    assert_eq!(output.status, TuiPagesStatus::ActionHandled);
    assert_eq!(state.handled, vec![Action::Nav(NavigationAction::NextBuffer)]);
}

#[test]
fn builder_preset_defaults_bind_their_sections() {
    let mut tui = TuiPages::<View, Action>::builder(View::Home)
        .pages(Pages)
        .handler(Handler)
        .emacs_defaults()
        .build();
    let mut state = State::default();
    tui.refresh_page(&state);
    let ctrl_n = KeyEvent::new(KeyCode::Char('n'), KeyModifiers { control: true, ..KeyModifiers::empty() });
    let output = tui.handle_key(ctrl_n, &mut state).unwrap();
    assert_eq!(output.status, TuiPagesStatus::ActionHandled);
    assert_eq!(state.handled, vec![Action::Nav(NavigationAction::FocusNext)]);
}

#[test]
fn applying_an_invalid_preset_keeps_the_pending_sequence() {
    let mut tui = TuiPages::<View, Action>::builder(View::Home)
        .pages(Pages)
        .handler(Handler)
        .helix_navigation_defaults()
        .build();
    let mut state = State::default();
    tui.refresh_page(&state);
    let output = tui.handle_key(key(KeyCode::Char('g')), &mut state).unwrap();
    assert!(matches!(output.status, TuiPagesStatus::Waiting(_)));
    assert!(tui.apply_navigation_preset_toml("[general").is_err());
    assert!(tui.input.active());
    assert!(tui.apply_navigation_preset_toml("[general]\nmode = \"general\"\nquit = [\"ctrl+q\"]\n").is_ok());
    assert!(!tui.input.active());
}

#[test]
fn effects_apply_in_order_and_panes_follow() {
    let mut tui = TuiPages::<View, Action>::builder(View::Home).pages(Pages).handler(Handler).build();
    let state = State::default();
    tui.refresh_page(&state);
    let outcome = ActionOutcome {
        effects: vec![
            TuiEffect::Navigate(View::Settings),
            TuiEffect::SplitPane(tui_pages::PaneSplit::Horizontal),
            TuiEffect::ClosePane,
            TuiEffect::RefreshPage,
        ],
    };
    let quit = tui.apply_outcome(outcome, &state);
    assert!(!quit);
    assert_eq!(tui.current_view(), &View::Settings);
    assert_eq!(tui.buffer.workspace.panes.len(), 1);
    assert_eq!(tui.focus.current(), Some(FocusTarget::Button(0)));
}

#[test]
fn refreshing_an_unchanged_page_keeps_the_focus_position() {
    let mut tui = TuiPages::<View, Action>::builder(View::Home)
        .pages(Pages)
        .handler(Handler)
        .bind(modes::GENERAL, "tab", Action::Next)
        .build();
    let mut state = State::default();
    tui.refresh_page(&state);
    tui.handle_key(key(KeyCode::Tab), &mut state).unwrap();
    assert_eq!(tui.focus.current(), Some(FocusTarget::Button(1)));
    tui.refresh_page(&state);
    assert_eq!(tui.focus.current(), Some(FocusTarget::Button(1)));
}
