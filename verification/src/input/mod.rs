//! Keys, chord sequences, keymaps, and the pipeline that turns key presses
//! into actions.

pub mod analysis;
pub mod key;
pub mod key_sequence;
pub mod pipeline;
pub mod registry;
pub mod report;
pub mod response;
pub mod sequence;

pub use analysis::{analyze_keymap_bindings, BindingAnalysis};
pub use key::{KeyChord, KeyCode, KeyEvent, KeyModifiers, MediaKeyCode, ModifierKeyCode};
pub use key_sequence::{parse_binding, parse_key, try_parse_binding, try_parse_key, ParseKeyError};
pub use pipeline::InputPipeline;
pub use registry::{InputRegistry, KeyMap};
pub use report::{
    navigation_bindable_actions, BindableActionInfo, BindingCatalog, BindingConflict, BindingInfo,
    BindingLayer, BindingSource, CanvasRoutingPrecedence,
};
pub use response::{InputHint, PipelineResponse};
pub use sequence::ChordSequenceTracker;
