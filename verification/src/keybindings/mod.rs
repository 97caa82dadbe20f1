//! Editor-style navigation actions and keybinding presets.

pub mod action;
pub mod action_registry;
pub mod builtin;
pub mod config;
pub mod export;
pub mod preset;
pub mod store;
pub mod toml_value;

pub use action::{
    navigation_action_infos, navigation_action_outcome, try_standard_navigation_action,
    NavigationAction, NavigationActionInfo, ParseNavigationActionError,
};
pub use action_registry::ActionRegistry;
pub use builtin::{
    bind_builtin_general_defaults, bind_builtin_global_defaults, bind_builtin_navigation_defaults,
    bind_emacs_general_defaults, bind_emacs_global_defaults, bind_emacs_navigation_defaults,
    bind_helix_general_defaults, bind_helix_global_defaults, bind_helix_navigation_defaults,
    bind_vim_general_defaults, bind_vim_global_defaults, bind_vim_navigation_defaults,
    emacs_preset_toml, helix_preset_toml, try_bind_builtin_section, try_standard_vim_action,
    vim_action_outcome, vim_preset_toml, BuiltinNavigationPreset,
    ParseBuiltinNavigationPresetError, VimAction,
};
pub use preset::{
    apply_navigation_preset_toml, remap_navigation_preset_toml, NavigationConflictPolicy,
    NavigationPreset, NavigationPresetBinding, NavigationPresetError, NavigationPresetIssue,
    NavigationPresetSection,
};
pub use config::{
    KeybindingConfig, KeybindingConfigError, KeybindingInheritance, RawKeymap, RawKeymapBinding,
    RawKeymapSection,
};
pub use store::{export_to_toml, BindingNotice, BindingStore, KeybindingReport};
pub use toml_value::TomlValue;
