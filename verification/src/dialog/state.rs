//! Dialog content and result types.
use vstd::prelude::*;
use crate::text::{strings_of, strings_view, strs_view};

verus! {

/// The content of a modal dialog.
///
/// `D` is an application-owned "purpose" payload (often an enum) that the app
/// uses to tell apart which dialog was answered. It is opaque to the library.
///
/// `DialogData` is stored as the focus manager's modal payload via
/// [`DialogData::show_intent`]; the focus manager tracks which button is
/// active and navigates between them.
#[derive(Debug, Clone, PartialEq, Eq)]
pub struct DialogData<D = ()> {
    pub title: String,
    pub message: String,
    pub buttons: Vec<String>,
    pub purpose: Option<D>,
    pub is_loading: bool,
}

impl<D> DialogData<D> {
    /// A dialog with a title, message, selectable buttons, and a purpose used
    /// to interpret the selection.
    pub fn new(title: &str, message: &str, buttons: &[&str], purpose: D) -> (r: Self)
        ensures
            r.title@ == title@,
            r.message@ == message@,
            strings_view(r.buttons@) == strs_view(buttons@),
            r.purpose == Some(purpose),
            !r.is_loading,
    {
        DialogData {
            title: title.to_string(),
            message: message.to_string(),
            buttons: strings_of(buttons),
            purpose: Some(purpose),
            is_loading: false,
        }
    }

    /// A buttonless "please wait" dialog. Replace it with [`DialogData::new`]
    /// once the work completes.
    pub fn loading(title: &str, message: &str) -> (r: Self)
        ensures
            r.title@ == title@,
            r.message@ == message@,
            r.buttons@.len() == 0,
            r.purpose is None,
            r.is_loading,
    {
        DialogData {
            title: title.to_string(),
            message: message.to_string(),
            buttons: Vec::new(),
            purpose: None,
            is_loading: true,
        }
    }

    pub fn button_count(&self) -> (r: usize)
        ensures
            r == self.buttons@.len(),
    {
        self.buttons.len()
    }
}

/// The outcome of a dialog interaction.
#[derive(Debug, Clone, PartialEq, Eq)]
pub enum DialogResult<D> {
    /// The dialog was closed without choosing a button (e.g. a loading dialog,
    /// or one dismissed with Esc).
    Dismissed,
    /// A button was chosen. `purpose` is the dialog's payload; `index` is which
    /// button (0-based, left to right).
    Selected { purpose: Option<D>, index: usize },
}

/// How a dialog's purpose should be colored.
#[derive(Debug, Clone, Copy, PartialEq, Eq)]
pub enum DialogPurposeClass {
    Success,
    Failure,
    Neutral,
}

/// Implement on your purpose type so the dialog theme can derive colors from
/// it. The default classifies every purpose as
/// [`DialogPurposeClass::Neutral`].
pub trait DialogPurposeStyle {
    fn class(&self) -> DialogPurposeClass {
        DialogPurposeClass::Neutral
    }
}

} // verus!
