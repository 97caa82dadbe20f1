//! Coordination runtime for keyboard-driven, page-based TUI applications:
//! focus, overlays, navigation, buffers, panes, key sequences, and command
//! resolution.

pub mod action;
mod assoc;
pub mod clock;
pub mod command;
pub mod dialog;
pub mod focus;
pub mod input;
pub mod keybindings;
pub mod text;

pub use focus::{
    FocusController, FocusIntent, FocusManager, FocusQuery, FocusTarget, FocusWrap, Focusable,
    OverlayFocus, PageFocusBuilder,
};
pub mod navigation;
pub mod picker;
pub mod runtime;

pub use navigation::{
    BufferState, NavigationCoordinator, NavigationEvent, NavigationResult, NavigationRouter,
    PaneId, PaneSession, PaneSplit, WorkspaceState,
};
pub use command::{CommandHint, CommandRegistry, CommandResolver, CommandResponse};
pub use runtime::{
    modes, ActionContext, ActionOutcome, InputLayerContext, ModeId, PageProvider, PageSpec,
    RuntimeContext, TuiActionHandler, TuiEffect, TuiPages, TuiPagesBuilder, TuiPagesError,
    TuiPagesOutput, TuiPagesStatus,
};
pub use keybindings::{
    apply_navigation_preset_toml, bind_builtin_general_defaults, bind_builtin_global_defaults,
    bind_builtin_navigation_defaults, bind_emacs_general_defaults, bind_emacs_global_defaults,
    bind_emacs_navigation_defaults, bind_helix_general_defaults, bind_helix_global_defaults,
    bind_helix_navigation_defaults, bind_vim_general_defaults, bind_vim_global_defaults,
    bind_vim_navigation_defaults, emacs_preset_toml, ActionRegistry, BindingNotice, BindingStore,
    KeybindingConfig, KeybindingConfigError, KeybindingReport,
    KeybindingInheritance, helix_preset_toml, navigation_action_infos,
    navigation_action_outcome, remap_navigation_preset_toml, try_standard_navigation_action,
    try_standard_vim_action, vim_action_outcome, vim_preset_toml, BuiltinNavigationPreset,
    NavigationAction, NavigationActionInfo, NavigationConflictPolicy, NavigationPreset,
    NavigationPresetBinding, NavigationPresetError, NavigationPresetIssue, NavigationPresetSection,
    ParseBuiltinNavigationPresetError, ParseNavigationActionError, VimAction,
};
pub use input::{
    analyze_keymap_bindings, navigation_bindable_actions, parse_binding, parse_key,
    try_parse_binding, try_parse_key, BindableActionInfo, BindingAnalysis, BindingCatalog,
    BindingConflict, BindingInfo, BindingLayer, BindingSource, CanvasRoutingPrecedence,
    ChordSequenceTracker, InputHint, InputPipeline, InputRegistry, KeyChord, KeyCode, KeyEvent,
    KeyMap, KeyModifiers, ParseKeyError, PipelineResponse,
};
pub use dialog::{DialogData, DialogKey, DialogResult};
pub use picker::{
    PickerEntry, PickerField, PickerFieldWeights, PickerHead, PickerHeadColumn, PickerLayout,
    PickerScope,
};
