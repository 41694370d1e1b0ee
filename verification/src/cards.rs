//! The framed skill card shared by every page that lays skills out in a grid.
use vstd::prelude::*;

verus! {

/// Narrowest a card may get before the grid gives up a column. Below this
/// the name and description become too cramped to read.
pub const MIN_CARD_W: u16 = 40;

/// Four content lines: identity, two description lines, and source with
/// tags, inside two border rows.
pub const CARD_H: u16 = 6;

/// Status and selection share a slot, including a separator before the name.
pub const MARKER_W: usize = 4;

/// Columns of cards that fit in `width`, always at least one.
pub fn cols_for(width: u16) -> (r: usize)
    ensures
        r == (if width / MIN_CARD_W >= 1 {
            (width / MIN_CARD_W) as int
        } else {
            1
        }),
        r >= 1,
{
    let n = (width / MIN_CARD_W) as usize;
    if n >= 1 {
        n
    } else {
        1
    }
}

/// The checkbox that takes the status slot in selection mode.
pub fn checkbox_marker(checked: bool) -> (r: &'static str)
    ensures
        r == (if checked {
            "[✓] "
        } else {
            "[ ] "
        }),
{
    if checked {
        "[✓] "
    } else {
        "[ ] "
    }
}

} // verus!
