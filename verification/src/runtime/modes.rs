//! Built-in mode identifiers shipped by the runtime.
//!
//! A mode is a string key, so applications may define their own modes for
//! their own components alongside these.

use vstd::prelude::*;

verus! {

/// Default page-navigation mode (Tab, arrows, Enter on buttons).
pub const GENERAL: &'static str = "general";

/// Read-only navigation within form fields.
pub const NORMAL: &'static str = "nor";

/// Typing into a text field; plain characters flow to the focused input.
pub const INSERT: &'static str = "ins";

/// Text selection / highlighting.
pub const SELECT: &'static str = "sel";

/// Command bar (`:`) is open.
pub const COMMAND: &'static str = "command";

/// Bindings shared across non-typing modes (active alongside `nor` and `sel`).
pub const COMMON: &'static str = "common";

/// Always active, regardless of the current mode.
pub const GLOBAL: &'static str = "global";

} // verus!
