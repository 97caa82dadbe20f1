use vstd::prelude::*;

verus! {

/// Identifies a pane within a workspace.
#[derive(Debug, Clone, Copy, PartialEq, Eq, Hash, Structural)]
pub struct PaneId(pub usize);

/// One pane: the view it shows and its pane-local state.
#[derive(Debug)]
pub struct PaneSession<V, S = ()> {
    pub pane_id: PaneId,
    pub view: V,
    pub state: S,
}

/// How a workspace's panes are laid out.
#[derive(Debug, Clone, Copy, PartialEq, Eq, Structural)]
pub enum PaneSplit {
    Vertical,
    Horizontal,
}

/// The panes of a workspace, the active one, and the split direction.
#[derive(Debug)]
pub struct WorkspaceState<V, S = ()> {
    pub panes: Vec<PaneSession<V, S>>,
    pub active_pane: usize,
    pub split: Option<PaneSplit>,
    pub next_pane_id: usize,
}

impl<V> WorkspaceState<V> {
    /// A single unsplit pane showing `initial_view`.
    pub fn new(initial_view: V) -> (r: Self)
        ensures
            r.panes@ == seq![PaneSession { pane_id: PaneId(0), view: initial_view, state: () }],
            r.active_pane == 0,
            r.split is None,
            r.next_pane_id == 1,
    {
        Self::new_with_pane_state(initial_view, ())
    }
}

impl<V, S> WorkspaceState<V, S> {
    /// A single unsplit pane showing `initial_view` with `initial_state`.
    pub fn new_with_pane_state(initial_view: V, initial_state: S) -> (r: Self)
        ensures
            r.panes@ == seq![
                PaneSession { pane_id: PaneId(0), view: initial_view, state: initial_state },
            ],
            r.active_pane == 0,
            r.split is None,
            r.next_pane_id == 1,
    {
        let mut panes = Vec::new();
        panes.push(PaneSession { pane_id: PaneId(0), view: initial_view, state: initial_state });
        WorkspaceState { panes, active_pane: 0, split: None, next_pane_id: 1 }
    }
}

} // verus!
