use tui_pages::keybindings::{
    apply_navigation_preset_toml, bind_emacs_general_defaults, bind_emacs_global_defaults,
    bind_helix_general_defaults, bind_helix_navigation_defaults, bind_vim_general_defaults,
    bind_vim_global_defaults, remap_navigation_preset_toml, try_bind_builtin_section,
    BuiltinNavigationPreset, NavigationAction, NavigationPreset, NavigationPresetError,
    NavigationPresetIssue, VimAction,
};
use tui_pages::{
    modes, try_parse_binding, InputPipeline, InputRegistry, KeyCode, KeyEvent, KeyMap,
    KeyModifiers, PipelineResponse,
};

#[derive(Debug, Clone, Copy, PartialEq, Eq)]
enum TestAction {
    Nav(NavigationAction),
}

impl From<NavigationAction> for TestAction {
    fn from(value: NavigationAction) -> Self {
        TestAction::Nav(value)
    }
}

#[test]
fn preset_names_round_trip_through_traits() {
    for preset in [
        BuiltinNavigationPreset::Vim,
        BuiltinNavigationPreset::Emacs,
        BuiltinNavigationPreset::Helix,
    ] {
        assert_eq!(
            preset.to_string().parse::<BuiltinNavigationPreset>(),
            Ok(preset)
        );
        assert_eq!(preset.to_string(), preset.as_name());

        let parsed = NavigationPreset::from_toml(preset.toml()).unwrap();
        assert_eq!(parsed.sections().len(), 3);
    }
}

#[test]
fn builtin_vim_defaults_bind_focus_and_quit() {
    let mut registry = InputRegistry::empty();
    bind_vim_general_defaults(registry.map_mut(modes::GENERAL));
    bind_vim_global_defaults(registry.map_mut(modes::GLOBAL));
    let mut pipeline = InputPipeline::new(registry, 1000);

    let j = KeyEvent::new(KeyCode::Char('j'), KeyModifiers::empty());
    match pipeline.process(j, &[modes::GENERAL], false) {
        PipelineResponse::Execute(TestAction::Nav(NavigationAction::FocusNext)) => {}
        other => panic!("expected FocusNext, got {other:?}"),
    }

    let ctrl_c = KeyEvent::new(KeyCode::Char('c'), KeyModifiers::control());
    match pipeline.process(ctrl_c, &[modes::GLOBAL], false) {
        PipelineResponse::Execute(TestAction::Nav(NavigationAction::Quit)) => {}
        other => panic!("expected Quit, got {other:?}"),
    }
}

#[test]
fn builtin_emacs_defaults_bind_ctrl_n_and_ctrl_x_ctrl_c() {
    let mut registry = InputRegistry::empty();
    bind_emacs_general_defaults(registry.map_mut(modes::GENERAL));
    bind_emacs_global_defaults(registry.map_mut(modes::GLOBAL));
    let mut pipeline = InputPipeline::new(registry, 1000);

    let ctrl_n = KeyEvent::new(KeyCode::Char('n'), KeyModifiers::control());
    match pipeline.process(ctrl_n, &[modes::GENERAL], false) {
        PipelineResponse::Execute(TestAction::Nav(NavigationAction::FocusNext)) => {}
        other => panic!("expected FocusNext, got {other:?}"),
    }

    let ctrl_x = KeyEvent::new(KeyCode::Char('x'), KeyModifiers::control());
    let _ = pipeline.process(ctrl_x, &[modes::GLOBAL], false);
    let ctrl_c = KeyEvent::new(KeyCode::Char('c'), KeyModifiers::control());
    match pipeline.process(ctrl_c, &[modes::GLOBAL], false) {
        PipelineResponse::Execute(TestAction::Nav(NavigationAction::Quit)) => {}
        other => panic!("expected Quit after C-x C-c, got {other:?}"),
    }
}

#[test]
fn builtin_helix_defaults_bind_hjkl_and_gn() {
    let mut registry = InputRegistry::empty();
    bind_helix_general_defaults(registry.map_mut(modes::GENERAL));
    bind_helix_navigation_defaults(registry.map_mut(modes::GENERAL));
    let mut pipeline = InputPipeline::new(registry, 1000);

    let j = KeyEvent::new(KeyCode::Char('j'), KeyModifiers::empty());
    match pipeline.process(j, &[modes::GENERAL], false) {
        PipelineResponse::Execute(TestAction::Nav(NavigationAction::FocusNext)) => {}
        other => panic!("expected FocusNext, got {other:?}"),
    }

    let g = KeyEvent::new(KeyCode::Char('g'), KeyModifiers::empty());
    let _ = pipeline.process(g, &[modes::GENERAL], false);
    let n = KeyEvent::new(KeyCode::Char('n'), KeyModifiers::empty());
    match pipeline.process(n, &[modes::GENERAL], false) {
        PipelineResponse::Execute(TestAction::Nav(NavigationAction::NextBuffer)) => {}
        other => panic!("expected NextBuffer for g n, got {other:?}"),
    }
}

#[test]
fn toml_preset_applies_to_registry_modes() {
    let preset = r#"
[general]
mode = "general"
focus_next = ["j"]

[global]
mode = "global"
quit = "ctrl+c"
"#;
    let mut registry = InputRegistry::empty();
    apply_navigation_preset_toml::<TestAction>(&mut registry, preset).unwrap();
    let mut pipeline = InputPipeline::new(registry, 1000);

    let j = KeyEvent::new(KeyCode::Char('j'), KeyModifiers::empty());
    match pipeline.process(j, &[modes::GENERAL], false) {
        PipelineResponse::Execute(TestAction::Nav(NavigationAction::FocusNext)) => {}
        other => panic!("expected FocusNext, got {other:?}"),
    }

    let ctrl_c = KeyEvent::new(KeyCode::Char('c'), KeyModifiers::control());
    match pipeline.process(ctrl_c, &[modes::GLOBAL], false) {
        PipelineResponse::Execute(TestAction::Nav(NavigationAction::Quit)) => {}
        other => panic!("expected Quit, got {other:?}"),
    }
}

#[test]
fn toml_preset_reports_unknown_actions() {
    let preset = r#"
[general]
does_not_exist = ["j"]
"#;
    let err = NavigationPreset::from_toml(preset).unwrap_err();
    let NavigationPresetError::Issues(issues) = err else {
        panic!("expected validation issues");
    };
    assert!(issues
        .iter()
        .any(|issue| matches!(issue, NavigationPresetIssue::UnknownAction { .. })));
}

#[test]
fn toml_preset_collects_multiple_issues() {
    let preset = r#"
[general]
does_not_exist = ["j"]
focus_next = ["ctrl+shft+j"]
focus_prev = []
"#;
    let mut registry = InputRegistry::empty();
    let err = apply_navigation_preset_toml::<TestAction>(&mut registry, preset).unwrap_err();
    let NavigationPresetError::Issues(issues) = err else {
        panic!("expected validation issues");
    };
    assert_eq!(issues.len(), 3);
    assert!(issues
        .iter()
        .any(|issue| matches!(issue, NavigationPresetIssue::UnknownAction { .. })));
    assert!(issues
        .iter()
        .any(|issue| matches!(issue, NavigationPresetIssue::InvalidBinding { .. })));
    assert!(issues
        .iter()
        .any(|issue| matches!(issue, NavigationPresetIssue::EmptyBindings { .. })));
}

#[test]
fn toml_preset_reports_duplicate_bindings() {
    let preset = r#"
[general]
focus_next = ["j"]
focus_prev = ["j"]
"#;
    let err = NavigationPreset::from_toml(preset).unwrap_err();
    let NavigationPresetError::Issues(issues) = err else {
        panic!("expected validation issues");
    };
    assert!(issues
        .iter()
        .any(|issue| matches!(issue, NavigationPresetIssue::DuplicateBinding { .. })));
}

#[test]
fn toml_preset_detects_duplicate_binding_aliases() {
    let preset = r#"
[general]
focus_next = ["shift+tab"]
focus_prev = ["backtab"]
"#;
    let err = NavigationPreset::from_toml(preset).unwrap_err();
    let NavigationPresetError::Issues(issues) = err else {
        panic!("expected validation issues");
    };
    assert!(issues
        .iter()
        .any(|issue| matches!(issue, NavigationPresetIssue::DuplicateBinding { .. })));
}

#[test]
fn toml_remap_replaces_actions_it_mentions() {
    let mut registry = InputRegistry::empty();
    registry.map_mut(modes::GENERAL).bind(
        try_parse_binding("j").unwrap(),
        TestAction::Nav(NavigationAction::FocusNext),
    );

    let preset = r#"
[general]
mode = "general"
focus_next = ["ctrl+n"]
"#;
    remap_navigation_preset_toml::<TestAction>(&mut registry, preset).unwrap();
    let mut pipeline = InputPipeline::new(registry, 1000);

    let j = KeyEvent::new(KeyCode::Char('j'), KeyModifiers::empty());
    match pipeline.process(j, &[modes::GENERAL], false) {
        PipelineResponse::Type(_) => {}
        other => panic!("expected j to be unbound, got {other:?}"),
    }

    let ctrl_n = KeyEvent::new(KeyCode::Char('n'), KeyModifiers::control());
    match pipeline.process(ctrl_n, &[modes::GENERAL], false) {
        PipelineResponse::Execute(TestAction::Nav(NavigationAction::FocusNext)) => {}
        other => panic!("expected FocusNext, got {other:?}"),
    }
}

#[test]
fn toml_remap_rejects_conflicts_with_remaining_defaults() {
    let mut registry = InputRegistry::empty();
    registry.map_mut(modes::GENERAL).bind(
        try_parse_binding("ctrl+n").unwrap(),
        TestAction::Nav(NavigationAction::NextPane),
    );

    let preset = r#"
[general]
mode = "general"
focus_next = ["ctrl+n"]
"#;
    let err = remap_navigation_preset_toml::<TestAction>(&mut registry, preset).unwrap_err();
    let NavigationPresetError::Issues(issues) = err else {
        panic!("expected validation issues");
    };
    assert!(issues.iter().any(|issue| matches!(
        issue,
        NavigationPresetIssue::ExistingBindingConflict { .. }
    )));

    let mut pipeline = InputPipeline::new(registry, 1000);
    let ctrl_n = KeyEvent::new(KeyCode::Char('n'), KeyModifiers::control());
    match pipeline.process(ctrl_n, &[modes::GENERAL], false) {
        PipelineResponse::Execute(TestAction::Nav(NavigationAction::NextPane)) => {}
        other => panic!("expected existing NextPane binding to remain, got {other:?}"),
    }
}

#[test]
fn sections_are_looked_up_by_name_and_bound_checked() {
    let preset = NavigationPreset::from_toml(
        "[nav]\nmode = \"general\"\nnext_buffer = \"g n\"\nquit = [\"q\", \"ctrl+c\"]\n",
    )
    .unwrap();
    let section = preset.section("nav").expect("nav section");
    assert_eq!(section.mode, "general");
    assert_eq!(section.bindings.len(), 2);
    assert!(preset.section("missing").is_none());
    assert!(preset.validate().is_ok());

    let mut map: KeyMap<TestAction> = KeyMap::new("general");
    assert!(matches!(
        preset.bind_section_to_map("missing", &mut map),
        Err(NavigationPresetError::UnknownSection { .. })
    ));
    preset.bind_section_to_map("nav", &mut map).unwrap();
    assert_eq!(map.len(), 3);
    assert_eq!(
        map.get(&try_parse_binding("g n").unwrap()),
        Some(&TestAction::Nav(NavigationAction::NextBuffer))
    );

    let mut other: KeyMap<TestAction> = KeyMap::new("general");
    assert!(try_bind_builtin_section(BuiltinNavigationPreset::Vim, "navigation", &mut other));
    assert!(!try_bind_builtin_section(BuiltinNavigationPreset::Vim, "nowhere", &mut other));
    assert_eq!(other.len(), 8);
}

#[test]
fn malformed_sections_and_modes_are_issues() {
    let (preset, issues) = NavigationPreset::from_toml_lenient(
        "top = 1\n[a]\nmode = 3\nquit = 5\n[b]\nfocus_next = [\"j\", 2]\n",
    )
    .unwrap();
    assert_eq!(preset.sections().len(), 2);
    assert_eq!(preset.sections()[0].mode, "a");
    assert_eq!(
        issues,
        vec![
            NavigationPresetIssue::ModeNotString { section: "a".into() },
            NavigationPresetIssue::BindingsNotStringList {
                section: "a".into(),
                action: "quit".into()
            },
            NavigationPresetIssue::BindingsNotStringList {
                section: "b".into(),
                action: "focus_next".into()
            },
            NavigationPresetIssue::SectionNotTable { section: "top".into() },
        ]
    );
    assert!(matches!(
        NavigationPreset::from_toml("not [valid"),
        Err(NavigationPresetError::Toml(_))
    ));
    assert!(NavigationPreset::from_toml("   ").unwrap().sections().is_empty());
}

#[derive(Debug, Clone, Copy, PartialEq, Eq)]
enum VimTestAction {
    Vim(VimAction),
    Custom,
}

impl From<VimAction> for VimTestAction {
    fn from(v: VimAction) -> Self {
        VimTestAction::Vim(v)
    }
}

#[test]
fn vim_vim_defaults_bind_focus_and_quit() {
    let mut registry = InputRegistry::empty();
    bind_vim_general_defaults(registry.map_mut(modes::GENERAL));
    bind_vim_global_defaults(registry.map_mut(modes::GLOBAL));
    let mut pipeline = InputPipeline::new(registry, 1000);

    let j = KeyEvent::new(KeyCode::Char('j'), KeyModifiers::empty());
    match pipeline.process(j, &[modes::GENERAL], false) {
        PipelineResponse::Execute(VimTestAction::Vim(VimAction::FocusNext)) => {}
        other => panic!("expected FocusNext, got {other:?}"),
    }

    let ctrl_c = KeyEvent::new(KeyCode::Char('c'), KeyModifiers::control());
    match pipeline.process(ctrl_c, &[modes::GLOBAL], false) {
        PipelineResponse::Execute(VimTestAction::Vim(VimAction::Quit)) => {}
        other => panic!("expected Quit, got {other:?}"),
    }
    assert_ne!(VimTestAction::Custom, VimTestAction::Vim(VimAction::Quit));
}

#[test]
fn emacs_emacs_defaults_bind_ctrl_n_and_ctrl_x_ctrl_c() {
    let mut registry = InputRegistry::empty();
    bind_emacs_general_defaults(registry.map_mut(modes::GENERAL));
    bind_emacs_global_defaults(registry.map_mut(modes::GLOBAL));
    let mut pipeline = InputPipeline::new(registry, 1000);

    let ctrl_n = KeyEvent::new(KeyCode::Char('n'), KeyModifiers::control());
    match pipeline.process(ctrl_n, &[modes::GENERAL], false) {
        PipelineResponse::Execute(TestAction::Nav(NavigationAction::FocusNext)) => {}
        other => panic!("expected FocusNext, got {other:?}"),
    }

    let ctrl_x = KeyEvent::new(KeyCode::Char('x'), KeyModifiers::control());
    let _ = pipeline.process(ctrl_x, &[modes::GLOBAL], false);
    let ctrl_c = KeyEvent::new(KeyCode::Char('c'), KeyModifiers::control());
    match pipeline.process(ctrl_c, &[modes::GLOBAL], false) {
        PipelineResponse::Execute(TestAction::Nav(NavigationAction::Quit)) => {}
        other => panic!("expected Quit after C-x C-c, got {other:?}"),
    }
}

#[test]
fn helix_helix_defaults_bind_hjkl_and_gn() {
    let mut registry = InputRegistry::empty();
    bind_helix_general_defaults(registry.map_mut(modes::GENERAL));
    bind_helix_navigation_defaults(registry.map_mut(modes::GENERAL));
    let mut pipeline = InputPipeline::new(registry, 1000);

    let j = KeyEvent::new(KeyCode::Char('j'), KeyModifiers::empty());
    match pipeline.process(j, &[modes::GENERAL], false) {
        PipelineResponse::Execute(TestAction::Nav(NavigationAction::FocusNext)) => {}
        other => panic!("expected FocusNext, got {other:?}"),
    }

    let g = KeyEvent::new(KeyCode::Char('g'), KeyModifiers::empty());
    let _ = pipeline.process(g, &[modes::GENERAL], false);
    let n = KeyEvent::new(KeyCode::Char('n'), KeyModifiers::empty());
    match pipeline.process(n, &[modes::GENERAL], false) {
        PipelineResponse::Execute(TestAction::Nav(NavigationAction::NextBuffer)) => {}
        other => panic!("expected NextBuffer for g n, got {other:?}"),
    }
}
