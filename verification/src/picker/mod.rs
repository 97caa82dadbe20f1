//! Picker query parsing and picker content.

pub mod input;
pub mod query;
pub mod state;
pub mod widths;

pub use query::{
    parse_picker_command_query, parse_picker_command_query_with_specs, PickerCommandArgument,
    PickerCommandClause, PickerCommandQuery, PickerCommandSpec,
};
pub use input::PickerInputProvider;
pub use state::{
    PickerEntry, PickerField, PickerFieldWeights, PickerHead, PickerHeadColumn,
    PickerHeadColumnBuilder, PickerLayout, PickerScope,
};
