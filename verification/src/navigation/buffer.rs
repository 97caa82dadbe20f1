use vstd::prelude::*;
use vstd::std_specs::cmp::PartialEqSpec;
use crate::focus::FocusWrap;
use crate::navigation::{PaneId, PaneSession, PaneSplit, WorkspaceState};

verus! {

/// The first position at or after `lo` whose view equals `v` under `V`'s `==`.
pub open spec fn first_equal_view<V: PartialEq>(s: Seq<V>, lo: int, v: V) -> Option<int>
    decreases s.len() - lo,
{
    if lo < 0 || lo >= s.len() {
        None
    } else if s[lo].eq_spec(&v) {
        Some(lo)
    } else {
        first_equal_view(s, lo + 1, v)
    }
}

proof fn lemma_first_equal_view_in_range<V: PartialEq>(s: Seq<V>, lo: int, v: V)
    ensures
        first_equal_view(s, lo, v) matches Some(j) ==> 0 <= lo <= j < s.len() && s[j].eq_spec(
            &v,
        ),
    decreases s.len() - lo,
{
    if 0 <= lo < s.len() && !s[lo].eq_spec(&v) {
        lemma_first_equal_view_in_range(s, lo + 1, v);
    }
}

fn position_of_view<V: PartialEq>(history: &Vec<V>, view: &V) -> (r: Option<usize>)
    ensures
        V::obeys_eq_spec() ==> match first_equal_view(history@, 0, *view) {
            Some(p) => r matches Some(q) && q as int == p,
            None => r is None,
        },
        r matches Some(p) ==> p < history@.len(),
{
    let mut k: usize = 0;
    while k < history.len()
        invariant
            k <= history@.len(),
            V::obeys_eq_spec() ==> first_equal_view(history@, 0, *view) == first_equal_view(
                history@,
                k as int,
                *view,
            ),
        decreases history@.len() - k,
    {
        if history[k] == *view {
            proof {
                lemma_first_equal_view_in_range(history@, k as int, *view);
            }
            return Some(k);
        }
        k = k + 1;
    }
    None
}

/// `after`/`active` is the history after making `view` active: an equal
/// view already open becomes active, otherwise `view` is appended.
pub open spec fn history_updated<V: PartialEq>(
    before: Seq<V>,
    after: Seq<V>,
    active: usize,
    view: V,
) -> bool {
    V::obeys_eq_spec() ==> match first_equal_view(before, 0, view) {
        Some(p) => after == before && active == p,
        None => after == before.push(view) && active == before.len(),
    }
}

/// `after` is `before` with the active pane showing a copy of the active
/// buffer (when both exist); nothing else changes.
pub open spec fn synced<V: Clone, S>(
    before: Seq<PaneSession<V, S>>,
    after: Seq<PaneSession<V, S>>,
    history: Seq<V>,
    active_index: usize,
    active_pane: usize,
) -> bool {
    if active_index < history.len() && active_pane < before.len() {
        &&& after.len() == before.len()
        &&& forall|j: int| 0 <= j < after.len() && j != active_pane ==> after[j] == before[j]
        &&& after[active_pane as int].pane_id == before[active_pane as int].pane_id
        &&& after[active_pane as int].state == before[active_pane as int].state
        &&& cloned(history[active_index as int], after[active_pane as int].view)
    } else {
        after == before
    }
}

/// The buffers after closing the active pane: nothing with a single pane;
/// otherwise the pane is removed, its neighbour becomes active and shows its
/// view as the active buffer.
pub open spec fn close_pane_post<V: Clone + PartialEq, S>(before: BufferState<V, S>, after: BufferState<V, S>, r: bool) -> bool {
    &&& r == (before.workspace.panes@.len() > 1)
    &&& r ==> after.active_index < after.history@.len()
        && after.workspace.active_pane < after.workspace.panes@.len()
    &&& !r ==> after == before
    &&& r ==> {
        let panes = before.workspace.panes@.remove(before.workspace.active_pane as int);
        let ap = if before.workspace.active_pane >= panes.len() {
            (panes.len() - 1) as usize
        } else {
            before.workspace.active_pane
        };
        &&& after.workspace.active_pane == ap
        &&& after.workspace.split == (if panes.len() == 1 {
            None
        } else {
            before.workspace.split
        })
        &&& after.workspace.next_pane_id == before.workspace.next_pane_id
        &&& exists|c: V|
            cloned(panes[ap as int].view, c) && #[trigger] history_updated(
                before.history@,
                after.history@,
                after.active_index,
                c,
            )
        &&& synced(
            panes,
            after.workspace.panes@,
            after.history@,
            after.active_index,
            ap,
        )
    }
}

/// The buffers after splitting the active pane: a copy of it is inserted
/// after it, under the next pane id, and becomes active.
pub open spec fn split_pane_post<V: Clone + PartialEq, S>(before: BufferState<V, S>, after: BufferState<V, S>, split: PaneSplit, r: bool) -> bool {
    &&& r == (before.workspace.active_pane < before.workspace.panes@.len())
    &&& !r ==> after == before
    &&& r ==> {
        let at = before.workspace.active_pane + 1;
        let old_panes = before.workspace.panes@;
        &&& after.workspace.active_pane == at
        &&& after.workspace.split == Some(split)
        &&& after.workspace.next_pane_id == before.workspace.next_pane_id + 1
        &&& after.workspace.panes@.len() == old_panes.len() + 1
        &&& forall|j: int|
            0 <= j < at ==> #[trigger] after.workspace.panes@[j] == old_panes[j]
        &&& forall|j: int|
            at < j < old_panes.len() + 1 ==> #[trigger] after.workspace.panes@[j]
                == old_panes[j - 1]
        &&& after.workspace.panes@[at].pane_id == PaneId(
            before.workspace.next_pane_id,
        )
        &&& after.active_index < after.history@.len()
        &&& cloned(
            after.history@[after.active_index as int],
            after.workspace.panes@[at].view,
        )
    }
}

/// What moving one pane in `forward` direction does.
pub open spec fn focus_pane_post<V: Clone + PartialEq, S>(
    before: BufferState<V, S>,
    after: BufferState<V, S>,
    forward: bool,
    wrap: FocusWrap,
    r: bool,
) -> bool {
    let len = before.workspace.panes@.len();
    &&& r == (len > 1)
    &&& !r ==> after == before
    &&& r ==> {
        let ap = wrap.step_spec(before.workspace.active_pane as int, len as int, forward);
        &&& after.workspace.active_pane == ap
        &&& 0 <= ap < len
        &&& after.workspace.split == before.workspace.split
        &&& after.workspace.next_pane_id == before.workspace.next_pane_id
        &&& exists|c: V|
            cloned(before.workspace.panes@[ap].view, c) && #[trigger] history_updated(
                before.history@,
                after.history@,
                after.active_index,
                c,
            )
        &&& synced(
            before.workspace.panes@,
            after.workspace.panes@,
            after.history@,
            after.active_index,
            ap as usize,
        )
    }
}

/// The open buffers (a history of views, one active) and the pane layout
/// that shows them.
#[derive(Debug)]
pub struct BufferState<V, S = ()> {
    pub history: Vec<V>,
    pub active_index: usize,
    pub workspace: WorkspaceState<V, S>,
}

impl<V: Clone + PartialEq> BufferState<V> {
    /// One buffer showing `initial_view` in a single pane.
    pub fn new(initial_view: V) -> (r: Self)
        ensures
            r.history@.len() == 1,
            cloned(initial_view, r.history@[0]),
            r.active_index == 0,
            r.workspace.panes@.len() == 1,
            r.workspace.panes@[0].pane_id == PaneId(0),
            r.workspace.panes@[0].view == initial_view,
            r.workspace.active_pane == 0,
            r.workspace.split is None,
            r.workspace.next_pane_id == 1,
    {
        Self::new_with_pane_state(initial_view, ())
    }
}

impl<V: Clone + PartialEq, S> BufferState<V, S> {
    /// One buffer showing `initial_view` in a single pane with
    /// `initial_state`.
    pub fn new_with_pane_state(initial_view: V, initial_state: S) -> (r: Self)
        ensures
            r.history@.len() == 1,
            cloned(initial_view, r.history@[0]),
            r.active_index == 0,
            r.workspace.panes@ == seq![
                PaneSession { pane_id: PaneId(0), view: initial_view, state: initial_state },
            ],
            r.workspace.active_pane == 0,
            r.workspace.split is None,
            r.workspace.next_pane_id == 1,
    {
        let mut history = Vec::new();
        history.push(initial_view.clone());
        BufferState {
            history,
            active_index: 0,
            workspace: WorkspaceState::new_with_pane_state(initial_view, initial_state),
        }
    }

    /// Make `view` the active buffer: an equal buffer already open becomes
    /// active, otherwise `view` is appended and becomes active. The active
    /// pane then shows the active buffer.
    pub fn update_history(&mut self, view: V)
        ensures
            history_updated(
                old(self).history@,
                final(self).history@,
                final(self).active_index,
                view,
            ),
            final(self).history@ == old(self).history@ || final(self).history@ == old(self).history@.push(view),
            final(self).active_index < final(self).history@.len(),
            synced(
                old(self).workspace.panes@,
                final(self).workspace.panes@,
                final(self).history@,
                final(self).active_index,
                old(self).workspace.active_pane,
            ),
            final(self).workspace.active_pane == old(self).workspace.active_pane,
            final(self).workspace.split == old(self).workspace.split,
            final(self).workspace.next_pane_id == old(self).workspace.next_pane_id,
    {
        proof {
            lemma_first_equal_view_in_range(self.history@, 0, view);
        }
        match position_of_view(&self.history, &view) {
            Some(position) => {
                assert(V::obeys_eq_spec() ==> first_equal_view(self.history@, 0, view) == Some(
                    position as int,
                ));
                self.active_index = position;
            },
            None => {
                self.history.push(view);
                self.active_index = self.history.len() - 1;
            },
        }
        self.sync_active_pane_to_active_buffer();
    }

    pub fn get_active_view(&self) -> (r: Option<&V>)
        ensures
            match r {
                Some(v) => self.active_index < self.history@.len() && *v
                    == self.history@[self.active_index as int],
                None => self.active_index >= self.history@.len(),
            },
    {
        if self.active_index < self.history.len() {
            Some(&self.history[self.active_index])
        } else {
            None
        }
    }

    pub fn is_split(&self) -> (r: bool)
        ensures
            r == (self.workspace.panes@.len() > 1),
    {
        self.workspace.panes.len() > 1
    }

    pub fn split_direction(&self) -> (r: Option<PaneSplit>)
        ensures
            r == self.workspace.split,
    {
        self.workspace.split
    }

    pub fn active_pane_index(&self) -> (r: usize)
        ensures
            r == self.workspace.active_pane,
    {
        self.workspace.active_pane
    }

    pub fn panes(&self) -> (r: &[PaneSession<V, S>])
        ensures
            r@ == self.workspace.panes@,
    {
        self.workspace.panes.as_slice()
    }

    /// Show a copy of the active buffer in the active pane.
    pub fn sync_active_pane_to_active_buffer(&mut self)
        ensures
            final(self).history@ == old(self).history@,
            final(self).active_index == old(self).active_index,
            final(self).workspace.active_pane == old(self).workspace.active_pane,
            final(self).workspace.split == old(self).workspace.split,
            final(self).workspace.next_pane_id == old(self).workspace.next_pane_id,
            synced(
                old(self).workspace.panes@,
                final(self).workspace.panes@,
                old(self).history@,
                old(self).active_index,
                old(self).workspace.active_pane,
            ),
    {
        if self.active_index >= self.history.len() {
            return ;
        }
        let view = self.history[self.active_index].clone();
        let ap = self.workspace.active_pane;
        if ap < self.workspace.panes.len() {
            let mut pane = self.workspace.panes.remove(ap);
            pane.view = view;
            self.workspace.panes.insert(ap, pane);
            assert forall|j: int|
                0 <= j < self.workspace.panes@.len() && j != ap implies
                #[trigger] self.workspace.panes@[j] == old(self).workspace.panes@[j] by {
                if j < ap {
                } else {
                }
            }
        }
    }

    /// Every pane showing a view equal to `from` shows a copy of `to`
    /// instead.
    pub fn replace_workspace_view(&mut self, from: &V, to: V)
        ensures
            final(self).history@ == old(self).history@,
            final(self).active_index == old(self).active_index,
            final(self).workspace.active_pane == old(self).workspace.active_pane,
            final(self).workspace.split == old(self).workspace.split,
            final(self).workspace.next_pane_id == old(self).workspace.next_pane_id,
            final(self).workspace.panes@.len() == old(self).workspace.panes@.len(),
            forall|j: int|
                0 <= j < final(self).workspace.panes@.len() ==> {
                    let before = #[trigger] old(self).workspace.panes@[j];
                    let after = final(self).workspace.panes@[j];
                    &&& after.pane_id == before.pane_id
                    &&& after.state == before.state
                    &&& (V::obeys_eq_spec() && before.view.eq_spec(from) ==> cloned(
                        to,
                        after.view,
                    ))
                    &&& (V::obeys_eq_spec() && !before.view.eq_spec(from) ==> after.view
                        == before.view)
                },
    {
        let mut i: usize = 0;
        while i < self.workspace.panes.len()
            invariant
                i <= self.workspace.panes@.len(),
                self.history@ == old(self).history@,
                self.active_index == old(self).active_index,
                self.workspace.active_pane == old(self).workspace.active_pane,
                self.workspace.split == old(self).workspace.split,
                self.workspace.next_pane_id == old(self).workspace.next_pane_id,
                self.workspace.panes@.len() == old(self).workspace.panes@.len(),
                forall|j: int|
                    i <= j < self.workspace.panes@.len() ==> #[trigger] self.workspace.panes@[j]
                        == old(self).workspace.panes@[j],
                forall|j: int|
                    0 <= j < i ==> {
                        let before = #[trigger] old(self).workspace.panes@[j];
                        let after = self.workspace.panes@[j];
                        &&& after.pane_id == before.pane_id
                        &&& after.state == before.state
                        &&& (V::obeys_eq_spec() && before.view.eq_spec(from) ==> cloned(
                            to,
                            after.view,
                        ))
                        &&& (V::obeys_eq_spec() && !before.view.eq_spec(from) ==> after.view
                            == before.view)
                    },
            decreases self.workspace.panes@.len() - i,
        {
            let matches = self.workspace.panes[i].view == *from;
            if matches {
                let copy = to.clone();
                let mut pane = self.workspace.panes.remove(i);
                pane.view = copy;
                self.workspace.panes.insert(i, pane);
            }
            i = i + 1;
        }
    }

    /// Close the active buffer, returning it. The buffer list is never left
    /// empty: `fallback` is opened in its place when the last one closes (or
    /// when the list was already empty, in which case `None` is returned).
    pub fn close_active_buffer(&mut self, fallback: V) -> (r: Option<V>)
        requires
            old(self).history@.len() > 0 ==> old(self).active_index < old(self).history@.len(),
        ensures
            old(self).history@.len() == 0 ==> r is None && final(self).history@ == seq![fallback]
                && final(self).active_index == 0,
            old(self).history@.len() > 0 ==> {
                let removed = old(self).history@.remove(old(self).active_index as int);
                &&& r == Some(old(self).history@[old(self).active_index as int])
                &&& final(self).history@ == (if removed.len() == 0 {
                    seq![fallback]
                } else {
                    removed
                })
                &&& final(self).active_index == (if old(self).active_index
                    >= final(self).history@.len() {
                    (final(self).history@.len() - 1) as usize
                } else {
                    old(self).active_index
                })
            },
            final(self).active_index < final(self).history@.len(),
            final(self).workspace.active_pane == old(self).workspace.active_pane,
            final(self).workspace.split == old(self).workspace.split,
            final(self).workspace.next_pane_id == old(self).workspace.next_pane_id,
            synced(
                old(self).workspace.panes@,
                final(self).workspace.panes@,
                final(self).history@,
                final(self).active_index,
                old(self).workspace.active_pane,
            ),
    {
        if self.history.len() == 0 {
            self.history.push(fallback);
            self.active_index = 0;
            self.sync_active_pane_to_active_buffer();
            return None;
        }
        let closed = self.history.remove(self.active_index);
        if self.history.len() == 0 {
            self.history.push(fallback);
        }
        if self.active_index >= self.history.len() {
            self.active_index = self.history.len() - 1;
        }
        self.sync_active_pane_to_active_buffer();
        Some(closed)
    }

    /// Close the active pane (never the last one); the next pane (or the new
    /// last) becomes active and the split is dropped once one pane remains.
    /// Returns whether a pane was closed.
    pub fn close_active_pane(&mut self) -> (r: bool)
        requires
            old(self).workspace.panes@.len() > 1 ==> old(self).workspace.active_pane < old(self).workspace.panes@.len(),
        ensures
            close_pane_post(*old(self), *final(self), r),
            r ==> final(self).active_index < final(self).history@.len()
                && final(self).workspace.active_pane < final(self).workspace.panes@.len(),
    {
        if self.workspace.panes.len() <= 1 {
            return false;
        }
        self.workspace.panes.remove(self.workspace.active_pane);
        if self.workspace.active_pane >= self.workspace.panes.len() {
            self.workspace.active_pane = self.workspace.panes.len() - 1;
        }
        if self.workspace.panes.len() == 1 {
            self.workspace.split = None;
        }
        let view = self.workspace.panes[self.workspace.active_pane].view.clone();
        let ghost c = view;
        let ghost before = self.history@;
        self.update_history(view);
        assert(history_updated(before, self.history@, self.active_index, c));
        true
    }

    /// Move to the next pane (wrapping or clamping per `wrap`) and show it as
    /// the active buffer. Returns whether there was more than one pane.
    pub fn focus_next_pane(&mut self, wrap: FocusWrap) -> (r: bool)
        requires
            old(self).workspace.panes@.len() > 1 ==> old(self).workspace.active_pane < old(self).workspace.panes@.len(),
        ensures
            focus_pane_post(*old(self), *final(self), true, wrap, r),
            r ==> final(self).active_index < final(self).history@.len(),
    {
        self.focus_pane(true, wrap)
    }

    /// Move to the previous pane; the mirror image of
    /// [`focus_next_pane`](Self::focus_next_pane).
    pub fn focus_previous_pane(&mut self, wrap: FocusWrap) -> (r: bool)
        requires
            old(self).workspace.panes@.len() > 1 ==> old(self).workspace.active_pane < old(self).workspace.panes@.len(),
        ensures
            focus_pane_post(*old(self), *final(self), false, wrap, r),
            r ==> final(self).active_index < final(self).history@.len(),
    {
        self.focus_pane(false, wrap)
    }

    fn focus_pane(&mut self, forward: bool, wrap: FocusWrap) -> (r: bool)
        requires
            old(self).workspace.panes@.len() > 1 ==> old(self).workspace.active_pane < old(self).workspace.panes@.len(),
        ensures
            focus_pane_post(*old(self), *final(self), forward, wrap, r),
            r ==> final(self).active_index < final(self).history@.len(),
    {
        let len = self.workspace.panes.len();
        if len <= 1 {
            return false;
        }
        let next = wrap.step(self.workspace.active_pane, len, forward);
        proof {
            if wrap == FocusWrap::Wrap {
                vstd::arithmetic::div_mod::lemma_mod_bound(
                    if forward {
                        self.workspace.active_pane + 1
                    } else {
                        self.workspace.active_pane + len - 1
                    },
                    len as int,
                );
            }
        }
        self.workspace.active_pane = next;
        let view = self.workspace.panes[next].view.clone();
        let ghost c = view;
        self.update_history(view);
        assert(history_updated(old(self).history@, self.history@, self.active_index, c));
        true
    }
}

impl<V: Clone + PartialEq, S: Default> BufferState<V, S> {
    /// Split the active pane: a new pane showing a copy of the active pane's
    /// view (with default pane state) is inserted right after it and becomes
    /// active. Returns whether a pane was split.
    pub fn split_active_pane(&mut self, split: PaneSplit) -> (r: bool)
        requires
            old(self).workspace.next_pane_id < usize::MAX,
        ensures
            split_pane_post(*old(self), *final(self), split, r),
            r ==> final(self).active_index < final(self).history@.len(),
    {
        let ap = self.workspace.active_pane;
        if ap >= self.workspace.panes.len() {
            return false;
        }
        let view = self.workspace.panes[ap].view.clone();
        let pane_id = PaneId(self.workspace.next_pane_id);
        self.workspace.next_pane_id = self.workspace.next_pane_id + 1;
        let insert_at = ap + 1;
        let second = view.clone();
        self.workspace.panes.insert(
            insert_at,
            PaneSession { pane_id, view: second, state: S::default() },
        );
        self.workspace.active_pane = insert_at;
        self.workspace.split = Some(split);
        let ghost mid = self.workspace.panes@;
        self.update_history(view);
        assert forall|j: int| 0 <= j < insert_at implies #[trigger] self.workspace.panes@[j]
            == old(self).workspace.panes@[j] by {
            assert(mid[j] == old(self).workspace.panes@[j]);
        }
        assert forall|j: int| insert_at < j < old(self).workspace.panes@.len() + 1 implies
            #[trigger] self.workspace.panes@[j] == old(self).workspace.panes@[j - 1] by {
            assert(mid[j] == old(self).workspace.panes@[j - 1]);
        }
        true
    }
}

} // verus!
