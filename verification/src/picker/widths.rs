//! How the columns of a picker's header share a row.

use vstd::prelude::*;
use crate::picker::state::{PickerHead, PickerHeadColumn};

verus! {

/// Columns of the row kept for the selection marker.
pub const ROW_MARKER_WIDTH: usize = 2;

/// Columns between two header columns.
pub const COLUMN_GAP_WIDTH: usize = 1;

/// The width left for the columns of a row `row_width` wide: the row less
/// the marker and the gaps between `n` columns, never below zero.
pub open spec fn usable_width(n: nat, row_width: nat) -> int {
    let gaps: int = if n > 0 { n - 1 } else { 0 };
    let after_marker: int = if row_width >= 2 { row_width - 2 } else { 0 };
    if after_marker >= gaps { after_marker - gaps } else { 0 }
}

/// The width still free after the fixed-width columns among the first `i`
/// have each taken their width, or what was left when less was left.
pub open spec fn free_after(cols: Seq<PickerHeadColumn>, start: int, i: int) -> int
    decreases i,
{
    if i <= 0 {
        start
    } else {
        let r = free_after(cols, start, i - 1);
        let w = cols[i - 1].width as int;
        if w == 0 {
            r
        } else if w < r {
            r - w
        } else {
            0
        }
    }
}

/// The number of flexible (zero-width) columns among the first `i`.
pub open spec fn flex_before(cols: Seq<PickerHeadColumn>, i: int) -> int
    decreases i,
{
    if i <= 0 {
        0
    } else {
        flex_before(cols, i - 1) + if cols[i - 1].width == 0 {
            1int
        } else {
            0int
        }
    }
}

/// The width column `i` gets: a fixed column its width, or what is free
/// when less is; the flexible columns share what the fixed ones left, the
/// first ones one column more when it does not divide evenly.
pub open spec fn column_width(cols: Seq<PickerHeadColumn>, start: int, i: int) -> int {
    let w = cols[i].width as int;
    let free = free_after(cols, start, i);
    if w != 0 {
        if w < free { w } else { free }
    } else {
        let rest = free_after(cols, start, cols.len() as int);
        let f = flex_before(cols, cols.len() as int);
        rest / f + if flex_before(cols, i) < rest % f { 1int } else { 0int }
    }
}

proof fn lemma_free_bounds(cols: Seq<PickerHeadColumn>, start: int, i: int)
    requires
        start >= 0,
    ensures
        0 <= free_after(cols, start, i) <= start,
    decreases i,
{
    if i > 0 {
        lemma_free_bounds(cols, start, i - 1);
    }
}

proof fn lemma_flex_bounds(cols: Seq<PickerHeadColumn>, i: int, j: int)
    requires
        0 <= i <= j,
    ensures
        0 <= flex_before(cols, i) <= flex_before(cols, j),
        flex_before(cols, j) <= j,
    decreases j,
{
    if j > i {
        lemma_flex_bounds(cols, i, j - 1);
    }
    if j > 0 && i == j {
        lemma_flex_bounds(cols, i - 1, j - 1);
    }
}

/// The width of each header column in a row `row_width` wide.
pub fn resolve_head_widths(head: &PickerHead, row_width: usize) -> (r: Vec<usize>)
    ensures
        r@.len() == head.columns@.len(),
        forall|i: int| 0 <= i < r@.len() ==> r@[i] as int == column_width(
            head.columns@,
            usable_width(head.columns@.len(), row_width as nat),
            i,
        ),
{
    let cols = &head.columns;
    let n = cols.len();
    let gaps: usize = if n > 0 { n - 1 } else { 0 };
    let after_marker: usize = if row_width >= ROW_MARKER_WIDTH { row_width - ROW_MARKER_WIDTH } else { 0 };
    let start: usize = if after_marker >= gaps { after_marker - gaps } else { 0 };
    let ghost s = start as int;
    assert(s == usable_width(n as nat, row_width as nat));
    let mut remaining = start;
    let mut widths: Vec<usize> = Vec::new();
    let mut flex: usize = 0;
    let mut i: usize = 0;
    while i < n
        invariant
            i <= n,
            n == cols@.len(),
            s == start,
            remaining as int == free_after(cols@, s, i as int),
            flex as int == flex_before(cols@, i as int),
            widths@.len() == i,
            forall|j: int| 0 <= j < i && cols@[j].width != 0 ==> widths@[j] as int == column_width(cols@, s, j),
        decreases n - i,
    {
        proof {
            lemma_flex_bounds(cols@, i as int, i as int);
        }
        let w = cols[i].width;
        if w == 0 {
            widths.push(0);
            flex = flex + 1;
        } else {
            let take = if w < remaining { w } else { remaining };
            widths.push(take);
            remaining = remaining - take;
        }
        i = i + 1;
    }
    if flex == 0 {
        assert forall|j: int| 0 <= j < n implies cols@[j].width != 0 by {
            if cols@[j].width == 0 {
                lemma_flex_bounds(cols@, j, j);
                lemma_flex_bounds(cols@, j + 1, n as int);
                assert(flex_before(cols@, j + 1) == flex_before(cols@, j) + 1);
            }
        }
        return widths;
    }
    let base = remaining / flex;
    let extra = remaining % flex;
    let mut t: usize = 0;
    let mut k: usize = 0;
    while k < n
        invariant
            k <= n,
            n == cols@.len(),
            s == start,
            remaining as int == free_after(cols@, s, n as int),
            flex as int == flex_before(cols@, n as int),
            flex > 0,
            base == remaining / flex,
            extra == remaining % flex,
            t as int == flex_before(cols@, k as int),
            widths@.len() == n,
            forall|j: int| 0 <= j < n && cols@[j].width != 0 ==> widths@[j] as int == column_width(cols@, s, j),
            forall|j: int| 0 <= j < k && cols@[j].width == 0 ==> widths@[j] as int == column_width(cols@, s, j),
        decreases n - k,
    {
        proof {
            lemma_flex_bounds(cols@, k as int, n as int);
            lemma_flex_bounds(cols@, k + 1, n as int);
        }
        if cols[k].width == 0 {
            let add: usize = if t < extra { 1 } else { 0 };
            assert(base + add <= remaining) by (nonlinear_arith)
                requires
                    base == remaining / flex,
                    extra == remaining % flex,
                    flex > 0,
                    add <= 1,
                    add == 1 ==> extra > 0,
            {
            }
            widths.set(k, base + add);
            t = t + 1;
        }
        k = k + 1;
    }
    widths
}

} // verus!
