use tui_pages::input::BindableActionInfo;
use tui_pages::keybindings::KeybindingInheritance;
use tui_pages::runtime::modes;
use tui_pages::keybindings::export_to_toml;
use tui_pages::{
    try_parse_binding, ActionRegistry, BindingCatalog, BindingInfo, BindingLayer, BindingNotice,
    BindingSource, BindingStore, InputRegistry, KeyChord, KeybindingConfig, ModeId,
    NavigationAction,
};

#[derive(Debug, Clone, Copy, PartialEq, Eq)]
enum TestAction {
    Nav(NavigationAction),
}

impl From<NavigationAction> for TestAction {
    fn from(value: NavigationAction) -> Self {
        Self::Nav(value)
    }
}

fn seq(binding: &str) -> Vec<KeyChord> {
    try_parse_binding(binding).unwrap()
}

#[derive(Debug, Clone, PartialEq, Eq)]
enum App {
    DoTheThing,
    Nav(NavigationAction),
}

impl From<NavigationAction> for App {
    fn from(value: NavigationAction) -> Self {
        App::Nav(value)
    }
}

#[derive(Debug, Clone, PartialEq, Eq)]
enum Routed {
    Select,
    Execute,
}

fn routed_actions() -> ActionRegistry<Routed> {
    ActionRegistry::from_entries(vec![
        BindableActionInfo {
            action: Routed::Select,
            name: "nav_select",
            description: "",
            modes: &["general"],
        },
        BindableActionInfo {
            action: Routed::Execute,
            name: "command_execute",
            description: "",
            modes: &["command"],
        },
    ])
}

fn command_inherits_select() -> Vec<KeybindingInheritance<Routed>> {
    vec![KeybindingInheritance::new(
        ModeId::borrowed(modes::COMMAND),
        Routed::Execute,
        ModeId::borrowed(modes::GENERAL),
        Routed::Select,
    )]
}

#[test]
fn keymap_resolves_app_specific_action_names_via_registry() {
    // A name the crate has never heard of resolves through the app-supplied
    // registry — the whole point of the registry indirection.
    let registry = ActionRegistry::from_entries(vec![BindableActionInfo {
        action: App::DoTheThing,
        name: "do_the_thing",
        description: "",
        modes: &["global"],
    }]);
    let config = KeybindingConfig::from_toml("\n[keymap.global]\ndo_the_thing = \"ctrl+t\"\n").unwrap();
    let builtin = InputRegistry::<App>::empty();
    let (_store, registry_out, report) =
        BindingStore::with_user_config(&builtin, &config, &registry).unwrap();

    assert_eq!(registry_out.binding_in("global", &seq("ctrl+t")), Some(&App::DoTheThing));
    assert!(report
        .notices
        .iter()
        .all(|notice| !matches!(notice, BindingNotice::InvalidEntry(_))));
}

#[test]
fn reports_user_override_default_and_effective_registry_uses_user_binding() {
    let mut builtin = InputRegistry::empty();
    builtin
        .map_mut("global")
        .bind(seq("ctrl+c"), TestAction::Nav(NavigationAction::Quit));

    let config = KeybindingConfig::from_toml("\n[keymap.global]\nquit = \"ctrl+q\"\n").unwrap();

    let (store, registry, report) = BindingStore::<TestAction>::with_user_config(
        &builtin,
        &config,
        &ActionRegistry::navigation(),
    )
    .unwrap();

    assert_eq!(
        registry.binding_in("global", &seq("ctrl+q")),
        Some(&TestAction::Nav(NavigationAction::Quit))
    );
    assert!(registry.binding_in("global", &seq("ctrl+c")).is_none());
    assert!(report.notices.iter().any(|notice| matches!(
        notice,
        BindingNotice::UserOverridesDefault {
            mode,
            sequence,
            default_action: TestAction::Nav(NavigationAction::Quit),
            user_action: TestAction::Nav(NavigationAction::Quit),
        } if mode == "global" && *sequence == seq("ctrl+q")
    )));
    assert_eq!(store.effective_registry().total_bindings(), 1);
}

#[test]
fn inherited_keybinding_follows_source_user_override() {
    let mut builtin = InputRegistry::empty();
    builtin.map_mut("general").bind(seq("enter"), Routed::Select);
    builtin.map_mut("command").bind(seq("ctrl+x"), Routed::Execute);
    let config = KeybindingConfig::from_toml("\n[keymap.general]\nnav_select = \"ctrl+j\"\n").unwrap();

    let (_store, registry, _report) = BindingStore::with_user_config_and_inheritances(
        &builtin,
        &config,
        &routed_actions(),
        command_inherits_select(),
    )
    .unwrap();

    assert_eq!(registry.binding_in("command", &seq("ctrl+j")), Some(&Routed::Execute));
    assert!(registry.binding_in("command", &seq("ctrl+x")).is_none());
}

#[test]
fn inherited_keybinding_does_not_replace_explicit_target() {
    let mut builtin = InputRegistry::empty();
    builtin.map_mut("general").bind(seq("enter"), Routed::Select);
    builtin.map_mut("command").bind(seq("ctrl+x"), Routed::Execute);
    let config = KeybindingConfig::from_toml(
        "\n[keymap.general]\nnav_select = \"ctrl+j\"\n\n[keymap.command]\ncommand_execute = \"-\"\n",
    )
    .unwrap();

    let (_store, registry, _report) = BindingStore::with_user_config_and_inheritances(
        &builtin,
        &config,
        &routed_actions(),
        command_inherits_select(),
    )
    .unwrap();

    assert_eq!(registry.binding_in("command", &seq("-")), Some(&Routed::Execute));
    assert!(registry.binding_in("command", &seq("ctrl+j")).is_none());
    assert!(registry.binding_in("command", &seq("ctrl+x")).is_none());
}

#[test]
fn invalid_navigation_entries_are_not_all_or_nothing() {
    let mut builtin = InputRegistry::empty();
    builtin
        .map_mut("global")
        .bind(seq("ctrl+c"), TestAction::Nav(NavigationAction::Quit));

    let config = KeybindingConfig::from_toml(
        "\n[keymap.global]\nquit = \"ctrl+q\"\nnot_real = \"x\"\n\n[keymap.general]\nfocus_next = \"not+a+key\"\n",
    )
    .unwrap();

    let (_store, registry, report) = BindingStore::<TestAction>::with_user_config(
        &builtin,
        &config,
        &ActionRegistry::navigation(),
    )
    .unwrap();

    assert_eq!(
        registry.binding_in("global", &seq("ctrl+q")),
        Some(&TestAction::Nav(NavigationAction::Quit))
    );
    assert!(report
        .notices
        .iter()
        .any(|notice| matches!(notice, BindingNotice::InvalidEntry(_))));
}

fn info(mode: &str, keys: &str, action: NavigationAction, source: BindingSource) -> BindingInfo<NavigationAction> {
    BindingInfo {
        layer: BindingLayer::Keymap,
        mode: mode.to_string(),
        sequence: seq(keys),
        action,
        source,
    }
}

#[test]
fn runtime_layer_overrides_and_is_reported() {
    let mut builtin = InputRegistry::empty();
    builtin.map_mut("global").bind(seq("ctrl+c"), NavigationAction::Quit);
    builtin.map_mut("general").bind(seq("j"), NavigationAction::FocusNext);
    let user = InputRegistry::empty();
    let mut store = BindingStore::from_registries(&builtin, &user);
    assert_eq!(store.builtin_keymap.bindings.len(), 2);
    assert!(store.user_keymap.bindings.is_empty());

    let mut runtime = BindingCatalog::new();
    runtime.push(info("general", "j", NavigationAction::FocusPrev, BindingSource::Runtime));
    store.runtime_keymap = runtime;

    let registry = store.effective_registry();
    assert_eq!(registry.binding_in("general", &seq("j")), Some(&NavigationAction::FocusPrev));
    assert_eq!(registry.binding_in("global", &seq("ctrl+c")), Some(&NavigationAction::Quit));
    assert_eq!(registry.total_bindings(), 2);
    assert_eq!(store.builtin_registry().binding_in("general", &seq("j")), Some(&NavigationAction::FocusNext));

    let report = store.report(&["general", "global"]);
    assert_eq!(
        report.notices,
        vec![BindingNotice::RuntimeOverrides {
            mode: "general".to_string(),
            sequence: seq("j"),
            previous_source: BindingSource::Builtin,
            previous_action: NavigationAction::FocusNext,
            runtime_action: NavigationAction::FocusPrev,
        }]
    );
    assert!(!report.is_empty());
}

#[test]
fn report_lists_shadowed_bindings_of_the_effective_registry() {
    let mut builtin = InputRegistry::empty();
    builtin.map_mut("general").bind(seq("q"), NavigationAction::LeaveSection);
    builtin.map_mut("global").bind(seq("q"), NavigationAction::Quit);
    let store = BindingStore::from_registries(&builtin, &InputRegistry::empty());
    let report = store.report(&["general", "global"]);
    assert_eq!(report.notices.len(), 1);
    assert!(matches!(
        &report.notices[0],
        BindingNotice::SameLayerConflict(tui_pages::BindingConflict::ActiveModeShadow {
            first_mode,
            shadowed_mode,
            ..
        }) if first_mode == "general" && shadowed_mode == "global"
    ));
    assert!(BindingStore::<NavigationAction>::default().report(&["general"]).is_empty());
}

fn rebind_runtime(store: &mut BindingStore<TestAction>, mode: &str, binding: &str, action: TestAction) {
    store
        .runtime_keymap
        .bindings
        .retain(|info| !(info.mode == mode && info.action == action));
    store.runtime_keymap.push(BindingInfo {
        layer: BindingLayer::Keymap,
        mode: mode.to_string(),
        sequence: seq(binding),
        action,
        source: BindingSource::Runtime,
    });
}

fn quit_builtin() -> InputRegistry<TestAction> {
    let mut builtin = InputRegistry::empty();
    builtin
        .map_mut("global")
        .bind(seq("ctrl+c"), TestAction::Nav(NavigationAction::Quit));
    builtin
}

#[test]
fn export_keybindings_toml_round_trips_and_is_idempotent() {
    let builtin = quit_builtin();
    let actions = ActionRegistry::navigation();
    let config = KeybindingConfig::from_toml("[keymap.general]\nfocus_next = [\"j\"]\n").unwrap();
    let (mut store, _, _) = BindingStore::with_user_config(&builtin, &config, &actions).unwrap();
    rebind_runtime(&mut store, "global", "ctrl+q", TestAction::Nav(NavigationAction::Quit));

    let exported = export_to_toml(&store, &actions).unwrap();

    let reloaded_config = KeybindingConfig::from_toml(&exported).unwrap();
    let (reloaded, registry, _) =
        BindingStore::with_user_config(&builtin, &reloaded_config, &actions).unwrap();
    assert!(registry.binding_in("general", &seq("j")).is_some());
    assert!(registry.binding_in("global", &seq("ctrl+q")).is_some());

    assert_eq!(export_to_toml(&reloaded, &actions).unwrap(), exported);
}

#[test]
fn export_drops_user_binding_replaced_at_runtime() {
    let builtin = quit_builtin();
    let actions = ActionRegistry::navigation();
    let config = KeybindingConfig::from_toml("[keymap.global]\nquit = \"ctrl+x\"\n").unwrap();
    let (mut store, _, _) = BindingStore::with_user_config(&builtin, &config, &actions).unwrap();
    rebind_runtime(&mut store, "global", "ctrl+q", TestAction::Nav(NavigationAction::Quit));

    let exported = export_to_toml(&store, &actions).unwrap();
    assert_eq!(exported, "[global]\nquit = [\"Ctrl+q\"]\n");
}

#[test]
fn export_of_builtin_only_store_is_empty_document() {
    let store = BindingStore::<TestAction>::default();
    let exported = export_to_toml(&store, &ActionRegistry::navigation()).unwrap();
    assert_eq!(exported, "");
}
