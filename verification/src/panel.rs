//! Geometry of the search panel: an input, an optional header and the
//! results, framed separately or in one frame, and the keys the panel owns.
use crate::choice::Key;
use crate::download::{decimal, decimal_string};
use crate::group::{card_height, has_text, Ask, Kind};
use crate::text::{chars_of, concat, string_of};
use vstd::prelude::*;

verus! {

/// A rectangle of terminal cells.
#[derive(Debug, Clone, Copy, PartialEq, Eq, Structural)]
pub struct Rect {
    pub x: u16,
    pub y: u16,
    pub width: u16,
    pub height: u16,
}

/// `a + b`, held at `u16::MAX`.
pub open spec fn sat_add16(a: int, b: int) -> int {
    if a + b > u16::MAX {
        u16::MAX as int
    } else {
        a + b
    }
}

/// `a - b`, held at zero.
pub open spec fn sat_sub(a: int, b: int) -> int {
    if a > b {
        a - b
    } else {
        0
    }
}

impl Rect {
    /// The first column right of the rectangle.
    pub open spec fn spec_right(self) -> int {
        sat_add16(self.x as int, self.width as int)
    }

    /// The first row below the rectangle.
    pub open spec fn spec_bottom(self) -> int {
        sat_add16(self.y as int, self.height as int)
    }

    /// A rectangle whose size is cut so that it ends within the screen.
    pub open spec fn spec_new(x: u16, y: u16, width: u16, height: u16) -> Rect {
        Rect {
            x,
            y,
            width: (sat_add16(x as int, width as int) - x) as u16,
            height: (sat_add16(y as int, height as int) - y) as u16,
        }
    }

    /// A rectangle whose size is cut so that it ends within the screen.
    pub fn new(x: u16, y: u16, width: u16, height: u16) -> (r: Rect)
        ensures
            r == Rect::spec_new(x, y, width, height),
    {
        let w: u16 = if width > u16::MAX - x {
            u16::MAX - x
        } else {
            width
        };
        let h: u16 = if height > u16::MAX - y {
            u16::MAX - y
        } else {
            height
        };
        Rect { x, y, width: w, height: h }
    }

    /// The first column right of the rectangle.
    pub fn right(self) -> (r: u16)
        ensures
            r == self.spec_right(),
    {
        if self.width > u16::MAX - self.x {
            u16::MAX
        } else {
            self.x + self.width
        }
    }

    /// The first row below the rectangle.
    pub fn bottom(self) -> (r: u16)
        ensures
            r == self.spec_bottom(),
    {
        if self.height > u16::MAX - self.y {
            u16::MAX
        } else {
            self.y + self.height
        }
    }

    /// `self` lies within `outer`.
    pub open spec fn within(self, outer: Rect) -> bool {
        self.x >= outer.x && self.y >= outer.y && self.spec_right() <= outer.spec_right()
            && self.spec_bottom() <= outer.spec_bottom()
    }
}

/// The inside of a frame drawn with all four borders: one cell less on every
/// side, never leaving the rectangle.
pub open spec fn spec_bordered_inner(r: Rect) -> Rect {
    let x = if sat_add16(r.x as int, 1) < r.spec_right() {
        sat_add16(r.x as int, 1)
    } else {
        r.spec_right()
    };
    let y = if sat_add16(r.y as int, 1) < r.spec_bottom() {
        sat_add16(r.y as int, 1)
    } else {
        r.spec_bottom()
    };
    Rect {
        x: x as u16,
        y: y as u16,
        width: sat_sub(r.width as int, 2) as u16,
        height: sat_sub(r.height as int, 2) as u16,
    }
}

/// The inside of a frame drawn with all four borders (see
/// [`spec_bordered_inner`]).
pub fn bordered_inner(r: Rect) -> (out: Rect)
    ensures
        out == spec_bordered_inner(r),
{
    let right = r.right();
    let bottom = r.bottom();
    let x1: u16 = if r.x == u16::MAX {
        u16::MAX
    } else {
        r.x + 1
    };
    let y1: u16 = if r.y == u16::MAX {
        u16::MAX
    } else {
        r.y + 1
    };
    Rect {
        x: if x1 < right {
            x1
        } else {
            right
        },
        y: if y1 < bottom {
            y1
        } else {
            bottom
        },
        width: if r.width > 2 {
            r.width - 2
        } else {
            0
        },
        height: if r.height > 2 {
            r.height - 2
        } else {
            0
        },
    }
}

/// How the search input and its results are framed.
#[derive(Debug, Clone, Copy, PartialEq, Eq, Structural)]
pub enum PanelLayout {
    /// The input and the results each in a frame of their own.
    Separate,
    /// One frame, the input above a separator line.
    Unified,
}

impl Default for PanelLayout {
    fn default() -> (r: PanelLayout)
        ensures
            r == PanelLayout::Separate,
    {
        PanelLayout::Separate
    }
}

/// The regions of a drawn panel.
#[derive(Debug, Clone, Copy, PartialEq, Eq, Structural)]
pub struct PanelAreas {
    pub input: Rect,
    pub header: Rect,
    pub results: Rect,
    /// The bottom border row of the results frame, for the position; empty
    /// when the results have no frame.
    pub footer: Rect,
}

/// The empty rectangle at the origin.
pub open spec fn empty_rect() -> Rect {
    Rect { x: 0, y: 0, width: 0, height: 0 }
}

/// The column after `x`; the last column of the screen stays where it is
/// (an area there has no width).
pub open spec fn next_column(x: u16) -> u16 {
    if x < u16::MAX {
        (x + 1) as u16
    } else {
        x
    }
}

/// The column after `x` (see [`next_column`]).
fn step_column(x: u16) -> (r: u16)
    ensures
        r == next_column(x),
{
    if x < u16::MAX {
        x + 1
    } else {
        x
    }
}

/// The input line, the content below it and the footer row of a panel in
/// `area`. Separate: a three-row input frame when there are six rows, else
/// one bare input row when there are two; the results take the rest, framed
/// from three rows. Unified: one frame from three rows, an input row when the
/// inside has two rows and a separator when it has three.
pub open spec fn spec_panel_frames(layout: PanelLayout, area: Rect) -> (Rect, Rect, Rect) {
    match layout {
        PanelLayout::Separate => {
            let height: u16 = if area.height >= 6 {
                3
            } else if area.height > 1 {
                1
            } else {
                0
            };
            let top = Rect::spec_new(area.x, area.y, area.width, height);
            let bottom = Rect::spec_new(
                area.x,
                (area.y + height) as u16,
                area.width,
                sat_sub(area.height as int, height as int) as u16,
            );
            let input = if height >= 3 {
                spec_bordered_inner(top)
            } else {
                top
            };
            let footer = if bottom.height >= 3 {
                Rect::spec_new(
                    next_column(bottom.x),
                    (bottom.spec_bottom() - 1) as u16,
                    sat_sub(bottom.width as int, 2) as u16,
                    1,
                )
            } else {
                empty_rect()
            };
            let content = if bottom.height >= 3 {
                spec_bordered_inner(bottom)
            } else {
                bottom
            };
            (input, content, footer)
        },
        PanelLayout::Unified => {
            let footer = if area.height >= 3 {
                Rect::spec_new(
                    next_column(area.x),
                    (area.spec_bottom() - 1) as u16,
                    sat_sub(area.width as int, 2) as u16,
                    1,
                )
            } else {
                empty_rect()
            };
            let inner = if area.height >= 3 {
                spec_bordered_inner(area)
            } else {
                area
            };
            let ih: u16 = if inner.height > 1 {
                1
            } else {
                0
            };
            let separator: u16 = if inner.height > 2 {
                1
            } else {
                0
            };
            (
                Rect::spec_new(inner.x, inner.y, inner.width, ih),
                Rect::spec_new(
                    inner.x,
                    (inner.y + ih + separator) as u16,
                    inner.width,
                    sat_sub(inner.height as int, (ih + separator) as int) as u16,
                ),
                footer,
            )
        },
    }
}

/// The regions of a panel in `area` whose header asks for `header_height`
/// rows: the header takes them from the top of the content, leaving the
/// results at least one row when the content has one.
pub open spec fn spec_panel_areas(layout: PanelLayout, area: Rect, header_height: u16) -> PanelAreas {
    let (input, content, footer) = spec_panel_frames(layout, area);
    let hh = if (header_height as int) < sat_sub(content.height as int, 1) {
        header_height as int
    } else {
        sat_sub(content.height as int, 1)
    };
    PanelAreas {
        input,
        footer,
        header: Rect { height: hh as u16, ..content },
        results: Rect::spec_new(
            content.x,
            (content.y + hh) as u16,
            content.width,
            sat_sub(content.height as int, hh) as u16,
        ),
    }
}

/// Screen areas that end inside the screen.
pub open spec fn on_screen(area: Rect) -> bool {
    area.x + area.width <= u16::MAX && area.y + area.height <= u16::MAX
}

/// Whether `area` ends inside the screen (see [`on_screen`]).
pub fn on_screen_area(area: Rect) -> (r: bool)
    ensures
        r == on_screen(area),
{
    area.width <= u16::MAX - area.x && area.height <= u16::MAX - area.y
}

/// The regions of a panel drawn in `area` (see [`spec_panel_areas`]).
pub fn panel_areas(layout: PanelLayout, area: Rect, header_height: u16) -> (r: PanelAreas)
    requires
        on_screen(area),
    ensures
        r == spec_panel_areas(layout, area, header_height),
{
    let (input, content, footer) = match layout {
        PanelLayout::Separate => {
            let height: u16 = if area.height >= 6 {
                3
            } else if area.height > 1 {
                1
            } else {
                0
            };
            let top = Rect::new(area.x, area.y, area.width, height);
            let rest: u16 = if area.height > height {
                area.height - height
            } else {
                0
            };
            let bottom = Rect::new(area.x, area.y + height, area.width, rest);
            let input = if height >= 3 {
                bordered_inner(top)
            } else {
                top
            };
            let footer = if bottom.height >= 3 {
                let w: u16 = if bottom.width > 2 {
                    bottom.width - 2
                } else {
                    0
                };
                Rect::new(step_column(bottom.x), bottom.bottom() - 1, w, 1)
            } else {
                Rect { x: 0, y: 0, width: 0, height: 0 }
            };
            let content = if bottom.height >= 3 {
                bordered_inner(bottom)
            } else {
                bottom
            };
            (input, content, footer)
        },
        PanelLayout::Unified => {
            let footer = if area.height >= 3 {
                let w: u16 = if area.width > 2 {
                    area.width - 2
                } else {
                    0
                };
                Rect::new(step_column(area.x), area.bottom() - 1, w, 1)
            } else {
                Rect { x: 0, y: 0, width: 0, height: 0 }
            };
            let inner = if area.height >= 3 {
                bordered_inner(area)
            } else {
                area
            };
            let ih: u16 = if inner.height > 1 {
                1
            } else {
                0
            };
            let separator: u16 = if inner.height > 2 {
                1
            } else {
                0
            };
            let rest: u16 = if inner.height > ih + separator {
                inner.height - (ih + separator)
            } else {
                0
            };
            (
                Rect::new(inner.x, inner.y, inner.width, ih),
                Rect::new(inner.x, inner.y + ih + separator, inner.width, rest),
                footer,
            )
        },
    };
    let room: u16 = if content.height > 1 {
        content.height - 1
    } else {
        0
    };
    let hh: u16 = if header_height < room {
        header_height
    } else {
        room
    };
    let below: u16 = if content.height > hh {
        content.height - hh
    } else {
        0
    };
    PanelAreas {
        input,
        footer,
        header: Rect { height: hh, ..content },
        results: Rect::new(content.x, content.y + hh, content.width, below),
    }
}

/// Both frames keep the input, the header and the results inside the panel,
/// in that order from top to bottom without overlap, and leave the results a
/// row once the panel has five rows and three columns.
pub proof fn law_panel_regions_bounded_and_disjoint(
    layout: PanelLayout,
    area: Rect,
    header_height: u16,
)
    requires
        on_screen(area),
    ensures
        ({
            let r = spec_panel_areas(layout, area, header_height);
            &&& r.input.within(area)
            &&& r.header.within(area)
            &&& r.results.within(area)
            &&& r.input.spec_bottom() <= r.header.y
            &&& r.header.spec_bottom() <= r.results.y
            &&& (area.height >= 5 && area.width >= 3 ==> r.results.height > 0)
        }),
{
}

/// What a search panel makes of a key.
#[derive(Debug, Clone, Copy, PartialEq, Eq, Structural)]
pub enum SearchEvent {
    Ignored,
    Consumed,
    Changed,
    CursorMoved,
    Accepted,
    Results,
    Up,
    Escape,
}

/// What the panel does with a key before the input itself sees it.
#[derive(Debug, Clone, Copy, PartialEq, Eq, Structural)]
pub enum PanelKey {
    /// Move the completion highlight by this many rows.
    MoveCompletion(i32),
    /// Put the highlighted completion into the input.
    AcceptCompletion,
    /// Close the completion list.
    CloseCompletion,
    /// Empty the input.
    ClearInput,
    /// Report the event without touching the input.
    Report,
    /// Let the input handle the key, then report what it did.
    Edit,
}

/// The panel's answer to `key`: an open completion list owns Up, Down,
/// Enter and Esc; Esc then empties a non-empty input or leaves; Enter and
/// Down go to the results, Up above the panel; the input gets the rest.
pub open spec fn spec_search_key(completion_active: bool, key: Key, input_empty: bool) -> (
    PanelKey,
    SearchEvent,
) {
    if completion_active && key == Key::Up {
        (PanelKey::MoveCompletion(-1i32), SearchEvent::Consumed)
    } else if completion_active && key == Key::Down {
        (PanelKey::MoveCompletion(1i32), SearchEvent::Consumed)
    } else if completion_active && key == Key::Enter {
        (PanelKey::AcceptCompletion, SearchEvent::Accepted)
    } else if completion_active && key == Key::Esc {
        (PanelKey::CloseCompletion, SearchEvent::Consumed)
    } else if key == Key::Esc && !input_empty {
        (PanelKey::ClearInput, SearchEvent::Changed)
    } else if key == Key::Esc {
        (PanelKey::Report, SearchEvent::Escape)
    } else if key == Key::Enter || key == Key::Down {
        (PanelKey::Report, SearchEvent::Results)
    } else if key == Key::Up {
        (PanelKey::Report, SearchEvent::Up)
    } else {
        (PanelKey::Edit, SearchEvent::Ignored)
    }
}

/// The panel's answer to `key` (see [`spec_search_key`]); for
/// [`PanelKey::Edit`] the event comes from [`edit_event`].
pub fn search_key(completion_active: bool, key: Key, input_empty: bool) -> (r: (
    PanelKey,
    SearchEvent,
))
    ensures
        r == spec_search_key(completion_active, key, input_empty),
{
    if completion_active {
        match key {
            Key::Up => {
                return (PanelKey::MoveCompletion(-1), SearchEvent::Consumed);
            },
            Key::Down => {
                return (PanelKey::MoveCompletion(1), SearchEvent::Consumed);
            },
            Key::Enter => {
                return (PanelKey::AcceptCompletion, SearchEvent::Accepted);
            },
            Key::Esc => {
                return (PanelKey::CloseCompletion, SearchEvent::Consumed);
            },
            _ => {},
        }
    }
    match key {
        Key::Esc => if !input_empty {
            (PanelKey::ClearInput, SearchEvent::Changed)
        } else {
            (PanelKey::Report, SearchEvent::Escape)
        },
        Key::Enter | Key::Down => (PanelKey::Report, SearchEvent::Results),
        Key::Up => (PanelKey::Report, SearchEvent::Up),
        _ => (PanelKey::Edit, SearchEvent::Ignored),
    }
}

/// The event after the input handled a key: it changed the text, moved the
/// cursor from `before` to `after`, or did neither.
pub fn edit_event(changed: bool, before: usize, after: usize) -> (r: SearchEvent)
    ensures
        r == (if changed {
            SearchEvent::Changed
        } else if before != after {
            SearchEvent::CursorMoved
        } else {
            SearchEvent::Ignored
        }),
{
    if changed {
        SearchEvent::Changed
    } else if before != after {
        SearchEvent::CursorMoved
    } else {
        SearchEvent::Ignored
    }
}

/// What a navigation filter does with a key.
#[derive(Debug, Clone, Copy, PartialEq, Eq, Structural)]
pub enum FilterKey {
    /// Start editing the query.
    StartEditing,
    /// Empty the query without editing it.
    ClearQuery,
    /// Hand the key to the page.
    Pass,
    /// Hand the key to the search panel, then settle with [`filter_after`].
    Panel(Key),
}

/// A navigation filter's answer to `key` (`plain` when no modifier is
/// held): outside editing, a plain `q` counts as Esc, `/` starts editing and
/// Esc empties a query; the page keeps every other key. While editing the
/// panel takes the key.
pub open spec fn spec_filter_key(editing: bool, key: Key, plain: bool, query_empty: bool) -> FilterKey {
    let key = if !editing && key == Key::Char('q') && plain {
        Key::Esc
    } else {
        key
    };
    if !editing {
        if key == Key::Char('/') {
            FilterKey::StartEditing
        } else if key == Key::Esc && !query_empty {
            FilterKey::ClearQuery
        } else {
            FilterKey::Pass
        }
    } else {
        FilterKey::Panel(key)
    }
}

/// A navigation filter's answer to `key` (see [`spec_filter_key`]).
pub fn filter_key(editing: bool, key: Key, plain: bool, query_empty: bool) -> (r: FilterKey)
    ensures
        r == spec_filter_key(editing, key, plain, query_empty),
{
    let key = if !editing && key == Key::Char('q') && plain {
        Key::Esc
    } else {
        key
    };
    if !editing {
        if key == Key::Char('/') {
            FilterKey::StartEditing
        } else if key == Key::Esc && !query_empty {
            FilterKey::ClearQuery
        } else {
            FilterKey::Pass
        }
    } else {
        FilterKey::Panel(key)
    }
}

/// After the panel reported `event` while editing: whether editing goes on,
/// and whether the filter consumed the key. Up hands the key to the page;
/// results and a second Esc end editing.
pub fn filter_after(event: SearchEvent) -> (r: (bool, bool))
    ensures
        r == (match event {
            SearchEvent::Up => (true, false),
            SearchEvent::Results => (false, true),
            SearchEvent::Escape => (false, true),
            _ => (true, true),
        }),
{
    match event {
        SearchEvent::Up => (true, false),
        SearchEvent::Results => (false, true),
        SearchEvent::Escape => (false, true),
        _ => (true, true),
    }
}

/// The page keeps its own navigation: Esc on an empty input, Enter, Down and
/// Up are reported to the page rather than consumed by the panel, whatever
/// the input holds, once no completion is open.
pub proof fn law_panel_leaves_page_navigation(key: Key, input_empty: bool)
    ensures
        key == Key::Up ==> spec_search_key(false, key, input_empty).1 == SearchEvent::Up,
        key == Key::Enter || key == Key::Down ==> spec_search_key(false, key, input_empty).1
            == SearchEvent::Results,
        key == Key::Esc ==> spec_search_key(false, key, input_empty).1 == (if input_empty {
            SearchEvent::Escape
        } else {
            SearchEvent::Changed
        }),
{
}

/// The position shown in the results frame: the range of visible results
/// and the total, with a note when more follow.
pub open spec fn spec_position_text(start: usize, end: usize, total: usize) -> Seq<char> {
    " "@ + (if end < total {
        "↓ more · "@
    } else {
        ""@
    }) + decimal((start + 1) as nat) + "–"@ + decimal(end as nat) + " / "@ + decimal(total as nat)
        + " "@
}

fn text_of_count(n: usize) -> (r: Vec<char>)
    ensures
        r@ == decimal(n as nat),
{
    chars_of(decimal_string(n as u64).as_str())
}

/// The position of the `start..end` results of `total` in a footer of
/// `width` × `height`: nothing without results or room (see
/// [`spec_position_text`]).
pub fn position_text(start: usize, end: usize, total: usize, width: u16, height: u16) -> (r: Option<String>)
    requires
        start < usize::MAX,
    ensures
        r matches Some(t) ==> t@ == spec_position_text(start, end, total),
        r is None <==> (total == 0 || width < 5 || height == 0),
{
    if total == 0 || width < 5 || height == 0 {
        return None;
    }
    let more = if end < total {
        chars_of("↓ more · ")
    } else {
        chars_of("")
    };
    let t = concat(chars_of(" ").as_slice(), more.as_slice());
    let t = concat(t.as_slice(), text_of_count(start + 1).as_slice());
    let t = concat(t.as_slice(), chars_of("–").as_slice());
    let t = concat(t.as_slice(), text_of_count(end).as_slice());
    let t = concat(t.as_slice(), chars_of(" / ").as_slice());
    let t = concat(t.as_slice(), text_of_count(total).as_slice());
    let t = concat(t.as_slice(), chars_of(" ").as_slice());
    Some(string_of(t.as_slice()))
}

/// A `width` × `height` rectangle centred in `area`.
pub open spec fn spec_centered(area: Rect, width: u16, height: u16) -> Rect {
    Rect::spec_new(
        (area.x + (area.width - width) / 2) as u16,
        (area.y + (area.height - height) / 2) as u16,
        width,
        height,
    )
}

fn centered(area: Rect, width: u16, height: u16) -> (r: Rect)
    requires
        on_screen(area),
        width <= area.width,
        height <= area.height,
    ensures
        r == spec_centered(area, width, height),
{
    Rect::new(area.x + (area.width - width) / 2, area.y + (area.height - height) / 2, width, height)
}

/// The size of the group prompt in `area`: at most 56 columns, and the rows
/// its `rows` choices, input and preview of `preview_height` want (at least
/// eight), both a cell short of the area on each side.
pub open spec fn spec_prompt_size(area: Rect, rows: u16, preview_height: u16) -> (u16, u16) {
    let w = if 56 < sat_sub(area.width as int, 2) {
        56
    } else {
        sat_sub(area.width as int, 2)
    };
    let want = rows + 5 + preview_height;
    let tall = if want < 8 {
        8
    } else {
        want
    };
    let h = if tall < sat_sub(area.height as int, 2) {
        tall
    } else {
        sat_sub(area.height as int, 2)
    };
    (w as u16, h as u16)
}

/// Where the group prompt is drawn in `area` (see [`spec_prompt_size`]),
/// centred.
pub fn prompt_rect(area: Rect, rows: u16, preview_height: u16) -> (r: Rect)
    requires
        on_screen(area),
        rows + 5 + preview_height <= u16::MAX,
    ensures
        r == spec_centered(
            area,
            spec_prompt_size(area, rows, preview_height).0,
            spec_prompt_size(area, rows, preview_height).1,
        ),
        r.within(area),
{
    let room_w: u16 = if area.width > 2 {
        area.width - 2
    } else {
        0
    };
    let room_h: u16 = if area.height > 2 {
        area.height - 2
    } else {
        0
    };
    let w: u16 = if 56 < room_w {
        56
    } else {
        room_w
    };
    let want: u16 = rows + 5 + preview_height;
    let tall: u16 = if want < 8 {
        8
    } else {
        want
    };
    let h: u16 = if tall < room_h {
        tall
    } else {
        room_h
    };
    centered(area, w, h)
}

/// The prompt before a panel's input: an arrow in a separate frame, a
/// space in a unified one.
pub open spec fn spec_input_prefix(layout: PanelLayout) -> Seq<char> {
    match layout {
        PanelLayout::Separate => " › "@,
        PanelLayout::Unified => " "@,
    }
}

/// The prompt before a panel's input (see [`spec_input_prefix`]).
pub fn input_prefix(layout: PanelLayout) -> (r: &'static str)
    ensures
        r@ == spec_input_prefix(layout),
{
    match layout {
        PanelLayout::Separate => " › ",
        PanelLayout::Unified => " ",
    }
}

/// Where the prompt and the typed text go in the input row `input`: the
/// prompt takes its characters' count of cells (at most the row), the text
/// the rest.
pub open spec fn spec_input_parts(layout: PanelLayout, input: Rect) -> (Rect, Rect) {
    let n = spec_input_prefix(layout).len();
    let pw = if n < input.width {
        n as u16
    } else {
        input.width
    };
    (
        Rect { width: pw, ..input },
        Rect::spec_new((input.x + pw) as u16, input.y, (input.width - pw) as u16, input.height),
    )
}

/// Where the prompt and the typed text go (see [`spec_input_parts`]).
pub fn input_parts(layout: PanelLayout, input: Rect) -> (r: (Rect, Rect))
    requires
        input.x + input.width <= u16::MAX,
    ensures
        r == spec_input_parts(layout, input),
{
    let n: u16 = match layout {
        PanelLayout::Separate => 3,
        PanelLayout::Unified => 1,
    };
    proof {
        reveal_strlit(" › ");
        reveal_strlit(" ");
    }
    let pw: u16 = if n < input.width {
        n
    } else {
        input.width
    };
    (Rect { width: pw, ..input }, Rect::new(input.x + pw, input.y, input.width - pw, input.height))
}

/// The line between the input row and the results of a unified panel in
/// `area`: inside its frame, a cell in from each side, under the input row;
/// none when the inside has fewer than three rows.
pub open spec fn spec_separator(area: Rect) -> Option<Rect> {
    let inner = if area.height >= 3 {
        spec_bordered_inner(area)
    } else {
        area
    };
    if inner.height > 2 {
        Some(
            Rect::spec_new(
                (inner.x + if inner.width < 1 {
                    inner.width as int
                } else {
                    1
                }) as u16,
                (inner.y + 1) as u16,
                sat_sub(inner.width as int, 2) as u16,
                1,
            ),
        )
    } else {
        None
    }
}

/// The line under a unified panel's input (see [`spec_separator`]).
pub fn separator(area: Rect) -> (r: Option<Rect>)
    requires
        on_screen(area),
    ensures
        r == spec_separator(area),
{
    let inner = if area.height >= 3 {
        bordered_inner(area)
    } else {
        area
    };
    if inner.height > 2 {
        let step: u16 = if inner.width < 1 {
            inner.width
        } else {
            1
        };
        let w: u16 = if inner.width > 2 {
            inner.width - 2
        } else {
            0
        };
        Some(Rect::new(inner.x + step, inner.y + 1, w, 1))
    } else {
        None
    }
}

/// Where the position text of `width` cells goes in the footer row:
/// flush with its right end, a cell in.
pub open spec fn spec_position_rect(footer: Rect, width: u16) -> Rect {
    Rect::spec_new((footer.spec_right() - 1 - width) as u16, footer.y, width, 1)
}

/// Where the position text goes (see [`spec_position_rect`]); the text was
/// fitted to two cells less than the footer.
pub fn position_rect(footer: Rect, width: u16) -> (r: Rect)
    requires
        width + 2 <= footer.width,
        footer.x + footer.width <= u16::MAX,
    ensures
        r == spec_position_rect(footer, width),
        r.x > footer.x,
        r.x + r.width < footer.x + footer.width,
{
    Rect::new(footer.right() - 1 - width, footer.y, width, 1)
}

/// The height of the preview in the group prompt: one row for a tag, the
/// height of the preset's card (see [`crate::group::card_height`]) for a
/// preset with `description`.
pub open spec fn spec_preview_height(identity: Kind, description: Option<Seq<char>>) -> u16 {
    match identity {
        Kind::Tag => 1,
        Kind::Preset => (3 + match description {
            Some(d) => if has_text(d) {
                1int
            } else {
                0
            },
            None => 0,
        }) as u16,
    }
}

/// The height of the preview in the group prompt (see
/// [`spec_preview_height`]).
pub fn preview_height(identity: Kind, description: Option<&str>) -> (r: u16)
    ensures
        r == spec_preview_height(
            identity,
            match description {
                Some(d) => Some(d@),
                None => None,
            },
        ),
{
    match identity {
        Kind::Tag => 1,
        Kind::Preset => card_height(description),
    }
}

/// The regions of the group prompt.
#[derive(Debug, Clone, Copy, PartialEq, Eq, Structural)]
pub struct PromptFrame {
    /// The prompt, borders included.
    pub rect: Rect,
    /// Inside the borders.
    pub inner: Rect,
    /// The inside is under 4 × 4 cells: only a note to resize is shown, and
    /// the other regions are empty.
    pub too_small: bool,
    /// The text input, a cell in from each side.
    pub field: Rect,
    /// The preview below the input.
    pub swatch: Rect,
    /// The rows to choose from, below the preview.
    pub list: Rect,
}

/// An empty rectangle at the origin.
pub open spec fn no_rect() -> Rect {
    Rect { x: 0, y: 0, width: 0, height: 0 }
}

/// The regions of the group prompt in `area` with `rows` choices shown and
/// a preview of `preview` rows: the centred rectangle of
/// [`spec_prompt_size`]; inside its borders, the input on the first row, the
/// preview under it (at most what leaves three rows), and the rows below.
pub open spec fn spec_prompt_frame(area: Rect, rows: u16, preview: u16) -> PromptFrame {
    let (w, h) = spec_prompt_size(area, rows, preview);
    let rect = spec_centered(area, w, h);
    let inner = spec_bordered_inner(rect);
    if inner.height < 4 || inner.width < 4 {
        PromptFrame { rect, inner, too_small: true, field: no_rect(), swatch: no_rect(), list: no_rect() }
    } else {
        let field = Rect {
            x: (inner.x + 1) as u16,
            y: inner.y,
            width: (inner.width - 2) as u16,
            height: 1,
        };
        let sh = if preview < inner.height - 3 {
            preview
        } else {
            (inner.height - 3) as u16
        };
        let swatch = Rect { y: (inner.y + 1) as u16, height: sh, ..field };
        let top = swatch.y + sh + 1;
        let list = Rect {
            y: top as u16,
            height: sat_sub(inner.y + inner.height, top) as u16,
            ..inner
        };
        PromptFrame { rect, inner, too_small: false, field, swatch, list }
    }
}

/// The regions of the group prompt (see [`spec_prompt_frame`]).
pub fn prompt_frame(area: Rect, rows: u16, preview: u16) -> (r: PromptFrame)
    requires
        on_screen(area),
        rows + 5 + preview <= u16::MAX,
    ensures
        r == spec_prompt_frame(area, rows, preview),
        r.rect.within(area),
{
    let rect = prompt_rect(area, rows, preview);
    let inner = bordered_inner(rect);
    let empty = Rect { x: 0, y: 0, width: 0, height: 0 };
    if inner.height < 4 || inner.width < 4 {
        return PromptFrame { rect, inner, too_small: true, field: empty, swatch: empty, list: empty };
    }
    proof {
        assert(rect.x + rect.width <= u16::MAX && rect.y + rect.height <= u16::MAX);
    }
    let field = Rect { x: inner.x + 1, y: inner.y, width: inner.width - 2, height: 1 };
    let sh: u16 = if preview < inner.height - 3 {
        preview
    } else {
        inner.height - 3
    };
    let swatch = Rect { y: inner.y + 1, height: sh, ..field };
    let top: u16 = swatch.y + sh + 1;
    let end: u16 = inner.y + inner.height;
    let list = Rect {
        y: top,
        height: if end > top {
            end - top
        } else {
            0
        },
        ..inner
    };
    PromptFrame { rect, inner, too_small: false, field, swatch, list }
}

/// The title of the group prompt for `name`.
pub open spec fn spec_prompt_title(ask: Ask, name: Seq<char>) -> Seq<char> {
    match ask {
        Ask::Merge => " merge "@ + name + " into "@,
        Ask::Color => " colour of "@ + name + " "@,
    }
}

/// The title of the group prompt for `name` (see [`spec_prompt_title`]).
pub fn prompt_title(ask: Ask, name: &str) -> (r: String)
    ensures
        r@ == spec_prompt_title(ask, name@),
{
    let n = chars_of(name);
    let (head, tail) = match ask {
        Ask::Merge => (chars_of(" merge "), chars_of(" into ")),
        Ask::Color => (chars_of(" colour of "), chars_of(" ")),
    };
    let a = concat(head.as_slice(), n.as_slice());
    string_of(concat(a.as_slice(), tail.as_slice()).as_slice())
}

/// The placeholder of the group prompt's input.
pub fn prompt_placeholder(ask: Ask) -> (r: &'static str)
    ensures
        r == (match ask {
            Ask::Merge => "type to filter…",
            Ask::Color => "a name, or #rrggbb",
        }),
{
    match ask {
        Ask::Merge => "type to filter…",
        Ask::Color => "a name, or #rrggbb",
    }
}

/// The group prompt always fits in its area, and its rows never reach past
/// its inside: whatever the area, the prompt lies within it, and when it is
/// large enough to show its regions, they stack inside its borders.
pub proof fn law_prompt_frame_fits(area: Rect, rows: u16, preview: u16)
    requires
        on_screen(area),
        rows + 5 + preview <= u16::MAX,
    ensures
        ({
            let f = spec_prompt_frame(area, rows, preview);
            &&& f.rect.x >= area.x && f.rect.x + f.rect.width <= area.x + area.width
            &&& f.rect.y >= area.y && f.rect.y + f.rect.height <= area.y + area.height
            &&& !f.too_small ==> f.field.y == f.inner.y && f.swatch.y == f.inner.y + 1
                && f.list.y + f.list.height <= f.inner.y + f.inner.height
                && f.swatch.y + f.swatch.height < f.list.y + 1
        }),
{
    let (w, h) = spec_prompt_size(area, rows, preview);
    assert(w <= area.width && h <= area.height);
}

/// Where the name-conflict dialog is drawn in `area`: at most 110 × 24
/// cells, a cell short of the area on each side, centred.
pub fn dialog_rect(area: Rect) -> (r: Rect)
    requires
        on_screen(area),
    ensures
        r == spec_centered(
            area,
            (if sat_sub(area.width as int, 2) < 110 {
                sat_sub(area.width as int, 2)
            } else {
                110
            }) as u16,
            (if sat_sub(area.height as int, 2) < 24 {
                sat_sub(area.height as int, 2)
            } else {
                24
            }) as u16,
        ),
        r.within(area),
{
    let room_w: u16 = if area.width > 2 {
        area.width - 2
    } else {
        0
    };
    let room_h: u16 = if area.height > 2 {
        area.height - 2
    } else {
        0
    };
    let w: u16 = if room_w < 110 {
        room_w
    } else {
        110
    };
    let h: u16 = if room_h < 24 {
        room_h
    } else {
        24
    };
    centered(area, w, h)
}

/// The two footer buttons of a selection dialog in its footer `area`: at
/// most eleven columns each, side by side at the right end of the last row;
/// none in an empty area.
pub open spec fn spec_footer_buttons(area: Rect) -> (Rect, Rect) {
    if area.height == 0 || area.width == 0 {
        (empty_rect(), empty_rect())
    } else {
        let bw = if 11 < area.width / 2 {
            11
        } else {
            area.width / 2
        };
        let x = sat_sub(area.spec_right(), bw * 2);
        let y = area.spec_bottom() - 1;
        (
            Rect::spec_new(x as u16, y as u16, bw as u16, 1),
            Rect::spec_new((x + bw) as u16, y as u16, bw as u16, 1),
        )
    }
}

/// The two footer buttons (see [`spec_footer_buttons`]); the summary takes
/// the row to their left.
pub fn footer_buttons(area: Rect) -> (r: (Rect, Rect))
    requires
        on_screen(area),
    ensures
        r == spec_footer_buttons(area),
        r.0.within(area) || area.height == 0 || area.width == 0,
        r.1.within(area) || area.height == 0 || area.width == 0,
{
    if area.height == 0 || area.width == 0 {
        return (Rect { x: 0, y: 0, width: 0, height: 0 }, Rect { x: 0, y: 0, width: 0, height: 0 });
    }
    let half = area.width / 2;
    let bw: u16 = if 11 < half {
        11
    } else {
        half
    };
    let right = area.right();
    let x: u16 = if right > bw * 2 {
        right - bw * 2
    } else {
        0
    };
    let y = area.bottom() - 1;
    (Rect::new(x, y, bw, 1), Rect::new(x + bw, y, bw, 1))
}

/// The rule drawn across the top row of a footer of two rows or more,
/// inset by a column at each side, and the summary's place on the last row,
/// left of the buttons (see [`spec_footer_buttons`]).
pub open spec fn spec_footer_rows(area: Rect) -> (Option<Rect>, Rect) {
    let buttons = spec_footer_buttons(area);
    let rule = if area.height > 1 {
        Some(Rect::spec_new((area.x + 1) as u16, area.y, sat_sub(area.width as int, 2) as u16, 1))
    } else {
        None
    };
    (rule, Rect::spec_new(area.x, buttons.0.y, (buttons.0.x - area.x) as u16, 1))
}

/// The footer's rule and summary rectangles (see [`spec_footer_rows`]).
pub fn footer_rows(area: Rect) -> (r: (Option<Rect>, Rect))
    requires
        on_screen(area),
        area.width > 0,
        area.height > 0,
    ensures
        r == spec_footer_rows(area),
        r.1.within(area),
        r.0 matches Some(rule) ==> rule.within(area),
{
    let (apply, _) = footer_buttons(area);
    let rule = if area.height > 1 {
        let inner: u16 = if area.width > 2 {
            area.width - 2
        } else {
            0
        };
        Some(Rect::new(area.x + 1, area.y, inner, 1))
    } else {
        None
    };
    (rule, Rect::new(area.x, apply.y, apply.x - area.x, 1))
}

} // verus!
