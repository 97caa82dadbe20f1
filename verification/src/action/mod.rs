//! Routing resolved actions to page, canvas, or global logic.
mod decider;
mod handler;

pub use decider::{ActionDecider, ActionDispatcher, DefaultActionDecider, RoutedAction};
pub use handler::{ActionResolution, PageActionHandler, PageActionResult};
