//! Where the terminal interface puts its output.
//!
//! The banner sits at the top, the input box at the bottom; output lines fill
//! the space between them downwards and, once it is used up, are inserted
//! above the input box so that the banner scrolls off.

use vstd::prelude::*;

verus! {

/// Rows taken by the banner.
pub const BANNER_HEIGHT: u16 = 9;

/// Rows taken by the input box and its footer.
pub const VIEWPORT_HEIGHT: u16 = 4;

/// How many captured lines are shown per frame at most, so that a busy
/// network cannot starve the key handling.
pub const DRAIN_PER_FRAME: usize = 200;

/// `a - b`, or 0 where `b` is larger.
pub open spec fn saturating_diff(a: u16, b: u16) -> u16 {
    if a > b {
        (a - b) as u16
    } else {
        0
    }
}

/// How many empty rows push the input box to the bottom of a terminal of
/// `rows` rows, below the banner.
pub fn bottom_padding(rows: u16) -> (gap: u16)
    ensures
        gap == saturating_diff(rows, (BANNER_HEIGHT + VIEWPORT_HEIGHT) as u16),
{
    rows.saturating_sub(BANNER_HEIGHT + VIEWPORT_HEIGHT)
}

/// Where the next output line goes.
pub enum Placement {
    /// Drawn directly on this row of the free space.
    At(u16),
    /// Inserted above the input box, scrolling what is above.
    Scroll,
}

/// Places the next output line: on row `next_row` while that row is still
/// free above the input box (and its blank row) of a terminal of `rows`
/// rows, and by scrolling otherwise. Returns where it goes and the row for
/// the line after it.
pub fn place_line(next_row: u16, rows: u16) -> (r: (Placement, u16))
    ensures
        next_row <= saturating_diff(rows, (VIEWPORT_HEIGHT + 1) as u16) ==> r.0 == Placement::At(next_row)
            && r.1 == next_row + 1,
        next_row > saturating_diff(rows, (VIEWPORT_HEIGHT + 1) as u16) ==> r.0 == Placement::Scroll
            && r.1 == next_row,
{
    let last_free_row = rows.saturating_sub(VIEWPORT_HEIGHT + 1);
    if next_row <= last_free_row {
        (Placement::At(next_row), next_row + 1)
    } else {
        (Placement::Scroll, next_row)
    }
}

} // verus!
