mod builder;
mod focusable;
mod intent;
mod manager;
mod query;
mod target;

pub use builder::PageFocusBuilder;
pub use focusable::Focusable;
pub use intent::FocusIntent;
pub use manager::{
    compares_overlays, current_spec, intent_model, lemma_step_in_range, register_page_model, step_model, FocusController, FocusManager,
    FocusModel, FocusWrap, OverlayFocus,
};
pub use query::FocusQuery;
pub use target::{
    first_equal, lemma_first_equal_in_range, opt_target_cloned, overlay_kind_eq, target_cloned,
    target_eq, FocusTarget, OverlayKind,
};
