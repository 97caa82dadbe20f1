//! Where a dialog is drawn within the area it is centred in.

use vstd::prelude::*;
use crate::text::chars_of;

verus! {

/// The number of lines `s` holds: its line feeds, plus one for a last line
/// that does not end in one.
pub open spec fn line_count(s: Seq<char>) -> nat {
    newline_count(s) + if s.len() > 0 && s.last() != '\n' {
        1nat
    } else {
        0nat
    }
}

/// The number of line feeds in `s`.
pub open spec fn newline_count(s: Seq<char>) -> nat
    decreases s.len(),
{
    if s.len() == 0 {
        0
    } else {
        newline_count(s.drop_last()) + if s.last() == '\n' {
            1nat
        } else {
            0nat
        }
    }
}

/// The number of lines of `s`, as `str::lines` yields them.
pub fn message_line_count(s: &str) -> (r: usize)
    ensures
        r == line_count(s@),
{
    let chars = chars_of(s);
    let mut newlines: usize = 0;
    let mut i: usize = 0;
    while i < chars.len()
        invariant
            i <= chars@.len(),
            chars@ == s@,
            newlines == newline_count(chars@.take(i as int)),
            newlines + if i > 0 && chars@[i - 1] != '\n' {
                1int
            } else {
                0int
            } <= i,
        decreases chars@.len() - i,
    {
        proof {
            let t = chars@.take(i + 1);
            assert(t.drop_last() =~= chars@.take(i as int));
            assert(t.last() == chars@[i as int]);
        }
        if chars[i] == '\n' {
            newlines = newlines + 1;
        }
        i = i + 1;
    }
    proof {
        assert(chars@.take(chars@.len() as int) =~= chars@);
    }
    if chars.len() > 0 && chars[chars.len() - 1] != '\n' {
        newlines + 1
    } else {
        newlines
    }
}

/// The dialog's rectangle `(x, y, width, height)` within the area
/// `(x, y, width, height)`: 60% of the area's width but at least 20 columns,
/// tall enough for the message's lines (at least one), a button row of
/// three when there are buttons, and four rows of border and margin, but no
/// taller than the area (or three rows); centred.
pub open spec fn dialog_rect_spec(area: (u16, u16, u16, u16), lines: int, buttons: int) -> (int, int, int, int) {
    let (ax, ay, aw, ah) = area;
    let message = if lines < 1 { 1 } else { lines };
    let button_row = if buttons == 0 { 0int } else { 3int };
    let cap = if ah < 3 { 3int } else { ah as int };
    let height = if message + button_row + 4 < cap { message + button_row + 4 } else { cap };
    let scaled = aw * 60 / 100;
    let width = if scaled < 20 { 20int } else if scaled > aw { aw as int } else { scaled as int };
    let x = ax + (aw - width) / 2;
    let y = ay + if ah > height { (ah - height) / 2 } else { 0int };
    (x, y, width, height)
}

/// The rectangle of a dialog showing `message` with `button_count` buttons
/// in `area`. The area must be at least 20 columns wide (the width is
/// clamped between 20 and the area's width) and small enough that the
/// arithmetic stays within `u16`.
pub fn dialog_rect(area: (u16, u16, u16, u16), message: &str, button_count: usize) -> (r: (
    u16,
    u16,
    u16,
    u16,
))
    requires
        20 <= area.2 <= 1092,
        area.0 + area.2 <= u16::MAX,
        area.1 + area.3 <= u16::MAX,
        line_count(message@) <= 65528,
    ensures
        (r.0 as int, r.1 as int, r.2 as int, r.3 as int) == dialog_rect_spec(
            area,
            line_count(message@) as int,
            button_count as int,
        ),
{
    let (ax, ay, aw, ah) = area;
    let lines = message_line_count(message);
    let message_height: u16 = if lines < 1 { 1 } else { lines as u16 };
    let button_row: u16 = if button_count == 0 { 0 } else { 3 };
    let cap: u16 = if ah < 3 { 3 } else { ah };
    let wanted: u16 = message_height + button_row + 4;
    let height: u16 = if wanted < cap { wanted } else { cap };
    let scaled: u16 = aw * 60 / 100;
    let width: u16 = if scaled < 20 { 20 } else if scaled > aw { aw } else { scaled };
    let x: u16 = ax + (aw - width) / 2;
    let y: u16 = ay + if ah > height { (ah - height) / 2 } else { 0 };
    (x, y, width, height)
}

} // verus!
