mod buffer;
mod coordinator;
mod workspace;

pub use buffer::{
    close_pane_post, first_equal_view, focus_pane_post, history_updated, split_pane_post, synced, BufferState,
};
pub use coordinator::{NavigationCoordinator, NavigationEvent, NavigationResult, NavigationRouter};
pub use workspace::{PaneId, PaneSession, PaneSplit, WorkspaceState};
