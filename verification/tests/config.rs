use tui_pages::keybindings::{KeybindingConfig, KeybindingConfigError, NavigationPresetIssue};

#[test]
fn parses_keymap_section_from_unified_toml() {
    let config = KeybindingConfig::from_toml(
        r#"
[keymap.global]
quit = "ctrl+q"

[keymap.general]
focus_next = ["j", "down"]
"#,
    )
    .unwrap();

    let global = config
        .keymap
        .sections
        .iter()
        .find(|section| section.name == "global")
        .unwrap();
    assert_eq!(global.bindings.first().unwrap().name, "quit");
}

#[test]
fn parses_root_mode_sections_from_unified_toml() {
    let config = KeybindingConfig::from_toml(
        r#"
[global]
quit = "ctrl+q"

[general]
focus_next = ["j", "down"]
"#,
    )
    .unwrap();

    let global = config
        .keymap
        .sections
        .iter()
        .find(|section| section.name == "global")
        .unwrap();
    assert_eq!(global.bindings.first().unwrap().name, "quit");
}

#[test]
fn keymap_tables_come_before_root_tables_and_issues_are_kept() {
    let config = KeybindingConfig::from_toml(
        r#"
[canvas]
preset = "vim"

[zeta]
mode = "general"
custom_action = ["x", "y"]

[keymap.alpha]
empty = []
ok = "q"
"#,
    )
    .unwrap();
    let names: Vec<&str> = config
        .keymap
        .sections
        .iter()
        .map(|s| s.name.as_str())
        .collect();
    assert_eq!(names, vec!["alpha", "zeta"]);
    assert_eq!(config.keymap.sections[1].mode, "general");
    assert_eq!(config.keymap.sections[1].bindings[0].keys, vec!["x", "y"]);
    assert_eq!(
        config.keymap_issues,
        vec![NavigationPresetIssue::EmptyBindings {
            section: "alpha".into(),
            action: "empty".into()
        }]
    );
    assert!(matches!(
        KeybindingConfig::from_toml("[broken"),
        Err(KeybindingConfigError::Toml(_))
    ));
    assert!(KeybindingConfig::from_toml("")
        .unwrap()
        .keymap
        .sections
        .is_empty());
}
