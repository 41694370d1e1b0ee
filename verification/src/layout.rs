//! Shared card geometry: how many columns fit, and how a card's frame is
//! drawn.
use crate::panel::Rect;
use crate::settings::LayoutMetrics;
use ratatui::layout::{Constraint, Direction, Layout};
use vstd::prelude::*;

verus! {

/// Columns of cards that fit in `width` with the configured minimum card
/// width, always at least one.
pub fn cols_for(width: u16, layout: &LayoutMetrics) -> (r: usize)
    ensures
        r == (if width / (if layout.min_card_width > 0 {
            layout.min_card_width
        } else {
            1
        }) >= 1 {
            width / (if layout.min_card_width > 0 {
                layout.min_card_width
            } else {
                1
            })
        } else {
            1
        }),
        r >= 1,
{
    let min: u16 = if layout.min_card_width > 0 {
        layout.min_card_width
    } else {
        1
    };
    let n = (width / min) as usize;
    if n >= 1 {
        n
    } else {
        1
    }
}

/// How a card's border is drawn.
#[derive(Debug, Clone, Copy, PartialEq, Eq, Structural)]
pub enum FrameStyle {
    /// The selection the keyboard is on: accent colour, bold.
    Focused,
    /// A selection that keeps its place while focus is elsewhere: bold.
    Selected,
    /// Any other card: dimmed.
    Plain,
}

/// The border of a card: `on` marks selection, `focused` says whether the
/// keyboard is on it.
pub fn frame_style(on: bool, focused: bool) -> (r: FrameStyle)
    ensures
        r == (if on && focused {
            FrameStyle::Focused
        } else if on {
            FrameStyle::Selected
        } else {
            FrameStyle::Plain
        }),
{
    if on && focused {
        FrameStyle::Focused
    } else if on {
        FrameStyle::Selected
    } else {
        FrameStyle::Plain
    }
}

/// A skill card cut short by the edge of its area keeps its lower edge open,
/// to show that it continues.
pub fn open_bottom(cell_height: u16, layout: &LayoutMetrics) -> (r: bool)
    ensures
        r == (cell_height < layout.card_height),
{
    cell_height < layout.card_height
}

/// The two panes of `area` for a first pane of `length` cells and a second
/// taking the rest, stacked when `vertical`, side by side otherwise: the
/// first pane takes `length` cells, or the whole area when it is smaller,
/// and the second starts where the first ends. The area is first cut to end
/// within the screen, as `Rect::new` does.
pub open spec fn two_panes(area: Rect, vertical: bool, length: u16) -> (Rect, Rect) {
    let a = Rect::spec_new(area.x, area.y, area.width, area.height);
    if vertical {
        let h = if length < a.height {
            length
        } else {
            a.height
        };
        (
            Rect { height: h, ..a },
            Rect { y: (a.y + h) as u16, height: (a.height - h) as u16, ..a },
        )
    } else {
        let w = if length < a.width {
            length
        } else {
            a.width
        };
        (
            Rect { width: w, ..a },
            Rect { x: (a.x + w) as u16, width: (a.width - w) as u16, ..a },
        )
    }
}

/// `ratatui::layout::Layout::split` (default `Flex::Start`, no margin or
/// spacing) with the constraints `Length(length)` and `Min(0)`. Claimed: the
/// length constraint is met as far as the area allows and the minimum takes
/// the rest, which is [`two_panes`] of the arguments.
#[verifier::external_body]
fn split_two(area: Rect, vertical: bool, length: u16) -> (r: (Rect, Rect))
    ensures
        r == two_panes(area, vertical, length),
{
    let direction = match vertical {
        true => Direction::Vertical,
        false => Direction::Horizontal,
    };
    let parts = Layout::default()
        .direction(direction)
        .constraints([Constraint::Length(length), Constraint::Min(0)])
        .split(ratatui::layout::Rect::new(area.x, area.y, area.width, area.height));
    let (a, b) = (parts[0], parts[1]);
    (Rect { x: a.x, y: a.y, width: a.width, height: a.height }, Rect { x: b.x, y: b.y, width: b.width, height: b.height })
}

/// How a list and its details share `area`: narrower than the breakpoint,
/// the list is stacked above, taking its share of the height up to a cap;
/// otherwise it sits left, at most half the width.
pub open spec fn spec_pane_plan(area: Rect, left_width: u16, layout: LayoutMetrics) -> (bool, u16) {
    if area.width < layout.pane_breakpoint {
        let share = (area.height * layout.stacked_pane_percent / 100) as u16;
        (true, if share < layout.stacked_pane_max_height {
            share
        } else {
            layout.stacked_pane_max_height
        })
    } else {
        let half = (area.width / 2) as u16;
        (false, if left_width < half {
            left_width
        } else {
            half
        })
    }
}

/// How a list and its details share `area` (see [`spec_pane_plan`]).
pub fn pane_plan(area: Rect, left_width: u16, layout: &LayoutMetrics) -> (r: (bool, u16))
    requires
        area.width < layout.pane_breakpoint ==> area.height * layout.stacked_pane_percent
            <= u16::MAX,
    ensures
        r == spec_pane_plan(area, left_width, *layout),
{
    if area.width < layout.pane_breakpoint {
        let share = area.height * layout.stacked_pane_percent / 100;
        (true, if share < layout.stacked_pane_max_height {
            share
        } else {
            layout.stacked_pane_max_height
        })
    } else {
        let half = area.width / 2;
        (false, if left_width < half {
            left_width
        } else {
            half
        })
    }
}

/// Keeps navigation lists compact and gives the remaining space to details;
/// narrow terminals stack the list above the content (see
/// [`spec_pane_plan`]).
pub fn split_panes(area: Rect, left_width: u16, layout: &LayoutMetrics) -> (r: (Rect, Rect))
    requires
        area.width < layout.pane_breakpoint ==> area.height * layout.stacked_pane_percent
            <= u16::MAX,
    ensures
        r == two_panes(
            area,
            spec_pane_plan(area, left_width, *layout).0,
            spec_pane_plan(area, left_width, *layout).1,
        ),
{
    let (vertical, length) = pane_plan(area, left_width, layout);
    split_two(area, vertical, length)
}

} // verus!
