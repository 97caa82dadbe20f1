use tui_pages::{
    BuiltinNavigationPreset, KeybindingConfig, KeybindingConfigError, NavigationAction,
    NavigationPresetError, NavigationPresetIssue, ParseKeyError,
};

#[test]
fn parse_key_error_messages() {
    assert_eq!(ParseKeyError::Empty.message(), "empty key binding");
    assert_eq!(
        ParseKeyError::UnknownKey("ctrl+foo".to_string()).message(),
        "unrecognised key token: \"ctrl+foo\""
    );
}

#[test]
fn parse_key_error_message_escapes_quotes() {
    assert_eq!(
        ParseKeyError::UnknownKey("a\"b".to_string()).message(),
        "unrecognised key token: \"a\\\"b\""
    );
}

#[test]
fn issue_messages_name_section_action_and_binding() {
    let unknown = NavigationPresetIssue::UnknownAction {
        section: "general".to_string(),
        action: "jump".to_string(),
    };
    assert_eq!(unknown.message(), "unknown navigation action \"jump\" in section \"general\"");

    let invalid = NavigationPresetIssue::InvalidBinding {
        section: "general".to_string(),
        action: NavigationAction::Quit,
        binding: "ctrl+".to_string(),
        source: ParseKeyError::UnknownKey("ctrl+".to_string()),
    };
    assert_eq!(
        invalid.message(),
        "invalid binding \"ctrl+\" for quit in section \"general\": unrecognised key token: \"ctrl+\""
    );

    let duplicate = NavigationPresetIssue::DuplicateBinding {
        section: "general".to_string(),
        mode: "general".to_string(),
        binding: "q".to_string(),
        first_action: NavigationAction::Quit,
        second_action: NavigationAction::FocusNext,
    };
    assert_eq!(
        duplicate.message(),
        "binding \"q\" in mode \"general\", section \"general\" is assigned to both quit and focus_next"
    );
}

#[test]
fn existing_conflict_message_without_known_action() {
    let conflict = NavigationPresetIssue::ExistingBindingConflict {
        section: "global".to_string(),
        mode: "global".to_string(),
        binding: "ctrl+c".to_string(),
        action: NavigationAction::Quit,
        existing_action: None,
    };
    assert_eq!(
        conflict.message(),
        "binding \"ctrl+c\" for quit in mode \"global\", section \"global\" conflicts with an existing application action"
    );
    assert_eq!(
        NavigationPresetIssue::RootNotTable.message(),
        "keybinding preset must be a TOML table"
    );
}

#[test]
fn preset_error_lists_each_issue() {
    let error = NavigationPresetError::Issues(vec![
        NavigationPresetIssue::SectionNotTable { section: "general".to_string() },
        NavigationPresetIssue::EmptyBindings {
            section: "general".to_string(),
            action: "quit".to_string(),
        },
    ]);
    assert_eq!(
        error.message(),
        "2 keybinding preset issue(s); keybinding section \"general\" must be a table; action \"quit\" in section \"general\" has no bindings"
    );
    let unknown = NavigationPresetError::UnknownSection { section: "extra".to_string() };
    assert_eq!(unknown.message(), "unknown keybinding section \"extra\"");
}

#[test]
fn config_error_messages_wrap_their_source() {
    assert_eq!(
        KeybindingConfigError::KeyBinding(ParseKeyError::Empty).message(),
        "invalid keybinding: empty key binding"
    );
    assert_eq!(
        KeybindingConfigError::CanvasPreset { preset: "kak".to_string() }.message(),
        "unknown canvas keybinding preset \"kak\""
    );
    let parse = KeybindingConfig::from_toml("[[").unwrap_err();
    assert!(parse.message().starts_with("invalid keybinding TOML: "));
    assert!(parse.message().len() > "invalid keybinding TOML: ".len());
}

#[test]
fn unknown_name_errors_quote_the_name() {
    let action = NavigationAction::parse_name("jump").unwrap_err();
    assert_eq!(action.message(), "unknown navigation action \"jump\"");
    let preset = BuiltinNavigationPreset::parse_name("kak").unwrap_err();
    assert_eq!(preset.message(), "unknown navigation preset \"kak\"");
}
