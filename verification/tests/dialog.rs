use tui_pages::dialog::layout::{dialog_rect, message_line_count};
use tui_pages::dialog::{
    self, DialogData, DialogKey, DialogKeyBindings, DialogPurposeClass, DialogPurposeStyle,
    DialogResult,
};
use tui_pages::{
    BuiltinNavigationPreset, FocusController, FocusIntent, FocusManager,
    FocusTarget, FocusWrap, KeyCode, KeyEvent, KeyModifiers, NavigationPresetError,
};

fn key(code: KeyCode) -> KeyEvent {
    KeyEvent::new(code, KeyModifiers::empty())
}

#[derive(Debug, Clone, PartialEq, Eq)]
enum Purpose {
    ConfirmDelete,
}

// O = () (no named overlays), M = DialogData<Purpose> (the modal payload).
type Focus = FocusManager<(), DialogData<Purpose>>;

#[test]
fn dialog_shows_navigates_and_resolves() {
    let mut focus: Focus = FocusManager::new();
    focus.register_page(vec![FocusTarget::Button(0)]);

    // Show a two-button dialog via the focus intent the dialog builds.
    let data = DialogData::new(
        "Delete?",
        "This cannot be undone.",
        &["Delete", "Cancel"],
        Purpose::ConfirmDelete,
    );
    focus.apply_focus_intent(data.show_intent());

    // The overlay is the dialog; focus reports the active button.
    assert_eq!(focus.current(), Some(FocusTarget::ModalItem(0)));
    assert_eq!(dialog::active_button(&focus), Some(0));
    assert_eq!(
        dialog::current_dialog(&focus).map(|d| d.button_count()),
        Some(2)
    );

    // Next moves between buttons (clamped, no wrap).
    focus.apply_focus_intent(FocusIntent::Next);
    assert_eq!(dialog::active_button(&focus), Some(1));
    focus.apply_focus_intent(FocusIntent::Next);
    assert_eq!(dialog::active_button(&focus), Some(1));

    // Resolve the selection, then close.
    let result = dialog::selection(&focus);
    assert_eq!(
        result,
        Some(DialogResult::Selected {
            purpose: Some(Purpose::ConfirmDelete),
            index: 1,
        })
    );

    focus.apply_focus_intent(FocusIntent::ClearOverlay);
    assert!(dialog::current_dialog(&focus).is_none());
    assert_eq!(focus.current(), Some(FocusTarget::Button(0)));
}

#[test]
fn handle_key_drives_the_conventional_bindings() {
    let mut focus: Focus = FocusManager::new();
    focus.register_page(vec![FocusTarget::Button(0)]);

    // With no dialog open, keys are left untouched for the rest of the loop.
    assert_eq!(dialog::handle_key(&mut focus, key(KeyCode::Enter)), DialogKey::Ignored);

    let data = DialogData::new("Delete?", "msg", &["Delete", "Cancel"], Purpose::ConfirmDelete);
    focus.apply_focus_intent(data.show_intent());

    // Tab/Right advance, BackTab/Left retreat — all consumed while modal.
    assert_eq!(dialog::handle_key(&mut focus, key(KeyCode::Tab)), DialogKey::Consumed);
    assert_eq!(dialog::active_button(&focus), Some(1));
    assert_eq!(dialog::handle_key(&mut focus, key(KeyCode::Left)), DialogKey::Consumed);
    assert_eq!(dialog::active_button(&focus), Some(0));
    // Unbound keys are swallowed by the modal rather than leaking through.
    assert_eq!(dialog::handle_key(&mut focus, key(KeyCode::Char('x'))), DialogKey::Consumed);

    // Enter resolves to the active button and closes the dialog.
    assert_eq!(
        dialog::handle_key(&mut focus, key(KeyCode::Enter)),
        DialogKey::Resolved(DialogResult::Selected {
            purpose: Some(Purpose::ConfirmDelete),
            index: 0,
        })
    );
    assert!(dialog::current_dialog(&focus).is_none());
    assert_eq!(focus.current(), Some(FocusTarget::Button(0)));

    // Esc dismisses and closes.
    focus.apply_focus_intent(
        DialogData::new("Delete?", "msg", &["Delete"], Purpose::ConfirmDelete).show_intent(),
    );
    assert_eq!(
        dialog::handle_key(&mut focus, key(KeyCode::Esc)),
        DialogKey::Resolved(DialogResult::Dismissed)
    );
    assert!(dialog::current_dialog(&focus).is_none());
}

#[test]
fn dialog_buttons_wrap_when_enabled() {
    let mut focus: Focus = FocusManager::new();
    focus.set_focus_wrap(FocusWrap::Wrap);
    let data = DialogData::new("Q", "m", &["A", "B"], Purpose::ConfirmDelete);
    focus.apply_focus_intent(data.show_intent());

    // index 0 -> Next -> 1 -> Next wraps -> 0
    focus.apply_focus_intent(FocusIntent::Next);
    assert_eq!(dialog::active_button(&focus), Some(1));
    focus.apply_focus_intent(FocusIntent::Next);
    assert_eq!(dialog::active_button(&focus), Some(0));
    // Prev off the first wraps to the last.
    focus.apply_focus_intent(FocusIntent::Prev);
    assert_eq!(dialog::active_button(&focus), Some(1));
}

#[test]
fn loading_dialog_has_no_buttons() {
    let mut focus: Focus = FocusManager::new();
    let data: DialogData<Purpose> = DialogData::loading("Please wait", "Saving…");
    focus.apply_focus_intent(data.show_intent());

    assert_eq!(
        dialog::current_dialog(&focus).map(|d| d.button_count()),
        Some(0)
    );
    assert!(dialog::current_dialog(&focus).map(|d| d.is_loading).unwrap());
}

#[test]
fn try_handle_key_uses_the_builtin_bindings() {
    let mut focus: Focus = FocusManager::new();
    focus.apply_focus_intent(
        DialogData::new("Q", "m", &["A", "B"], Purpose::ConfirmDelete).show_intent(),
    );
    assert_eq!(
        dialog::try_handle_key(&mut focus, key(KeyCode::Right)),
        Some(DialogKey::Consumed)
    );
    assert_eq!(dialog::active_button(&focus), Some(1));
}

#[test]
fn builtin_dialog_bindings_exist_for_every_preset() {
    for preset in [
        BuiltinNavigationPreset::Vim,
        BuiltinNavigationPreset::Emacs,
        BuiltinNavigationPreset::Helix,
    ] {
        assert!(DialogKeyBindings::try_builtin(preset).is_some());
    }
}

#[test]
fn custom_dialog_bindings_come_from_preset_toml() {
    let source = "[dialog]\nmode = \"dialog\"\nfocus_next = \"n\"\nactivate = \"y\"\n";
    let mut bindings = DialogKeyBindings::from_preset_toml(source).unwrap();

    let mut focus: Focus = FocusManager::new();
    focus.apply_focus_intent(
        DialogData::new("Q", "m", &["A", "B"], Purpose::ConfirmDelete).show_intent(),
    );
    assert_eq!(
        dialog::handle_key_with_bindings(&mut focus, key(KeyCode::Char('n')), &mut bindings),
        DialogKey::Consumed
    );
    assert_eq!(dialog::active_button(&focus), Some(1));
    // Tab is not bound by this preset, so it moves nothing.
    assert_eq!(
        dialog::handle_key_with_bindings(&mut focus, key(KeyCode::Tab), &mut bindings),
        DialogKey::Consumed
    );
    assert_eq!(dialog::active_button(&focus), Some(1));
    assert_eq!(
        dialog::handle_key_with_bindings(&mut focus, key(KeyCode::Char('y')), &mut bindings),
        DialogKey::Resolved(DialogResult::Selected {
            purpose: Some(Purpose::ConfirmDelete),
            index: 1,
        })
    );
}

#[test]
fn preset_without_dialog_section_is_refused() {
    let source = "[general]\nmode = \"general\"\nfocus_next = \"j\"\n";
    match DialogKeyBindings::from_preset_toml(source) {
        Err(NavigationPresetError::UnknownSection { section }) => assert_eq!(section, "dialog"),
        other => panic!("unexpected {:?}", other.map(|_| ())),
    }

    let mut bindings =
        DialogKeyBindings::from_preset_toml(dialog::dialog_preset_toml(BuiltinNavigationPreset::Vim))
            .unwrap();
    assert!(bindings.remap_preset_toml("not = [valid").is_err());
    let mut focus: Focus = FocusManager::new();
    focus.apply_focus_intent(
        DialogData::new("Q", "m", &["A", "B"], Purpose::ConfirmDelete).show_intent(),
    );
    // The failed remap left the Vim bindings in place.
    assert_eq!(
        dialog::handle_key_with_bindings(&mut focus, key(KeyCode::Tab), &mut bindings),
        DialogKey::Consumed
    );
    assert_eq!(dialog::active_button(&focus), Some(1));
}

#[test]
fn emacs_dialog_bindings_also_dismiss_with_ctrl_g() {
    let mut bindings = DialogKeyBindings::try_builtin(BuiltinNavigationPreset::Emacs).unwrap();
    let mut focus: Focus = FocusManager::new();
    focus.apply_focus_intent(
        DialogData::new("Q", "m", &["A"], Purpose::ConfirmDelete).show_intent(),
    );
    assert_eq!(
        dialog::handle_key_with_bindings(
            &mut focus,
            KeyEvent::new(KeyCode::Char('g'), KeyModifiers::control()),
            &mut bindings
        ),
        DialogKey::Resolved(DialogResult::Dismissed)
    );
    // The built-in presets themselves keep their three sections.
    assert!(!dialog::dialog_preset_toml(BuiltinNavigationPreset::Emacs).is_empty());
}

struct Outcome;

impl DialogPurposeStyle for Outcome {}

#[test]
fn purpose_style_defaults_to_neutral() {
    assert_eq!(Outcome.class(), DialogPurposeClass::Neutral);
}

#[test]
fn message_lines_follow_line_endings() {
    assert_eq!(message_line_count(""), 0);
    assert_eq!(message_line_count("a"), 1);
    assert_eq!(message_line_count("a\n"), 1);
    assert_eq!(message_line_count("a\nb"), 2);
    assert_eq!(message_line_count("a\n\nb"), 3);
}

#[test]
fn dialog_rect_is_centred_and_sized_to_content() {
    assert_eq!(dialog_rect((0, 0, 100, 40), "hello", 2), (20, 16, 60, 8));
    assert_eq!(dialog_rect((0, 0, 100, 40), "hello", 0), (20, 17, 60, 5));
    assert_eq!(dialog_rect((0, 0, 30, 40), "", 1), (5, 16, 20, 8));
    assert_eq!(dialog_rect((10, 5, 100, 2), "a\nb\nc", 2), (30, 5, 60, 3));
}
