//! Modal dialogs: the dialog content, its result, and the key handling that
//! drives an open dialog through the focus manager.
//!
//! - **Show**: return `TuiEffect::Focus(data.show_intent())` from a handler.
//! - **Navigate**: `FocusIntent::Next` / `Prev` move between buttons.
//! - **Confirm**: read [`selection`] to get the chosen button and purpose,
//!   then close with `FocusIntent::ClearOverlay`.
mod keys;
pub mod layout;
mod state;

pub use keys::{
    apply_dialog_response, builtin_dialog_keys, builtin_dialog_ready, dialog_preset_toml,
    dialog_source, dialog_step, handle_key, handle_key_with_bindings, section_bindings_spec,
    try_handle_key, DialogKey, DialogKeyBindings,
};
pub use state::{DialogData, DialogPurposeClass, DialogPurposeStyle, DialogResult};

use vstd::prelude::*;
use crate::focus::{FocusIntent, FocusManager, FocusModel, OverlayFocus};

verus! {

pub const DIALOG_KEYBINDING_SECTION: &'static str = "dialog";

pub const DIALOG_MODE: &'static str = "dialog";

/// `b` is a clone of `a`, element by element.
pub open spec fn option_cloned<D: Clone>(a: Option<D>, b: Option<D>) -> bool {
    match a {
        None => b is None,
        Some(x) => b matches Some(y) && cloned(x, y),
    }
}

/// The open modal's content and active button, if a modal is open.
pub open spec fn open_dialog<O, D>(m: FocusModel<O, DialogData<D>>) -> Option<(DialogData<D>, usize)> {
    match m.overlay {
        Some(OverlayFocus::Modal { data, index, .. }) => Some((data, index)),
        _ => None,
    }
}

/// `r` describes the open dialog's active button and (a clone of) its
/// purpose; `None` when no dialog is open.
pub open spec fn selection_spec<O, D: Clone>(
    m: FocusModel<O, DialogData<D>>,
    r: Option<DialogResult<D>>,
) -> bool {
    match open_dialog(m) {
        Some((data, index)) => r matches Some(DialogResult::Selected { purpose, index: i }) && i
            == index && option_cloned(data.purpose, purpose),
        None => r is None,
    }
}

impl<D> DialogData<D> {
    /// The focus intent that opens this dialog as a modal overlay with one
    /// item per button.
    pub fn show_intent<O>(self) -> (r: FocusIntent<O, DialogData<D>>)
        ensures
            r == (FocusIntent::<O, DialogData<D>>::ShowModal {
                count: self.buttons@.len() as usize,
                data: self,
            }),
    {
        let buttons = self.buttons.len();
        FocusIntent::ShowModal { data: self, count: buttons }
    }
}

/// The dialog currently shown by the focus manager, if any.
pub fn current_dialog<O, D>(focus: &FocusManager<O, DialogData<D>>) -> (r: Option<&DialogData<D>>)
    ensures
        match open_dialog(focus@) {
            Some((data, _)) => r matches Some(d) && *d == data,
            None => r is None,
        },
{
    match focus.overlay() {
        Some(OverlayFocus::Modal { data, .. }) => Some(data),
        _ => None,
    }
}

/// The active (highlighted) button index of the shown dialog, if any.
pub fn active_button<O, D>(focus: &FocusManager<O, DialogData<D>>) -> (r: Option<usize>)
    ensures
        match open_dialog(focus@) {
            Some((_, index)) => r == Some(index),
            None => r is None,
        },
{
    match focus.overlay() {
        Some(OverlayFocus::Modal { index, .. }) => Some(*index),
        _ => None,
    }
}

/// Resolve the current dialog into a [`DialogResult`] describing the selected
/// button and the dialog's purpose; `None` when no dialog is open.
pub fn selection<O, D: Clone>(focus: &FocusManager<O, DialogData<D>>) -> (r: Option<DialogResult<D>>)
    ensures
        selection_spec(focus@, r),
{
    match focus.overlay() {
        Some(OverlayFocus::Modal { data, index, .. }) => Some(
            DialogResult::Selected { purpose: data.purpose.clone(), index: *index },
        ),
        _ => None,
    }
}

} // verus!
