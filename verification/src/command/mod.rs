mod registry;
mod resolver;
mod response;

pub use registry::{alias_key, CommandRegistry, hint_matches};
pub use resolver::{feedback_text, hint_text, hints_complete, hints_text, CommandResolver};
pub use response::{CommandHint, CommandResponse};
