//! A one-line strip of group badges: which badges are shown, where each is
//! drawn, and how many of a group's skills a preset covers.
//!
//! Every badge takes its rendered width plus one cell of gap. The strip
//! scrolls so that the selected badge is always shown, keeping its first
//! shown badge where it was when that still leaves room for the selected
//! one, and then shows as many following badges as fit.
use crate::install::string_views;
use crate::members::holds;
use crate::panel::Rect;
use vstd::prelude::*;

verus! {

/// The total width of the badges `from..to`.
pub open spec fn span_width(widths: Seq<usize>, from: int, to: int) -> int
    decreases to - from,
{
    if to <= from || from < 0 || to > widths.len() {
        0
    } else {
        span_width(widths, from, to - 1) + widths[to - 1]
    }
}

/// The first shown badge, from `from` on: the first one from which the
/// badges up to the selected one fit in `budget`, or the selected one itself.
pub open spec fn first_shown(widths: Seq<usize>, from: int, selected: int, budget: int) -> int
    decreases selected - from,
{
    if from >= selected || span_width(widths, from, selected + 1) <= budget {
        from
    } else {
        first_shown(widths, from + 1, selected, budget)
    }
}

/// Where the shown badges end: past `to`, as long as they still fit from
/// `start`.
pub open spec fn shown_end(widths: Seq<usize>, start: int, to: int, budget: int) -> int
    decreases widths.len() - to,
{
    if to >= widths.len() || span_width(widths, start, to + 1) > budget {
        to
    } else {
        shown_end(widths, start, to + 1, budget)
    }
}

/// The badges shown, `start..end`, for `selected` with the strip last
/// starting at `offset`.
pub open spec fn spec_window(widths: Seq<usize>, selected: int, offset: int, budget: int) -> (
    int,
    int,
) {
    if widths.len() == 0 {
        (0, 0)
    } else {
        let from = if offset < selected {
            offset
        } else {
            selected
        };
        let start = first_shown(widths, from, selected, budget);
        (start, shown_end(widths, start, selected + 1, budget))
    }
}

proof fn lemma_span_nonneg(widths: Seq<usize>, from: int, to: int)
    ensures
        span_width(widths, from, to) >= 0,
    decreases to - from,
{
    if !(to <= from || from < 0 || to > widths.len()) {
        lemma_span_nonneg(widths, from, to - 1);
    }
}

proof fn lemma_span_step(widths: Seq<usize>, from: int, to: int)
    requires
        0 <= from <= to < widths.len(),
    ensures
        span_width(widths, from, to + 1) == span_width(widths, from, to) + widths[to],
{
}

proof fn lemma_first_shown(widths: Seq<usize>, from: int, selected: int, budget: int)
    requires
        0 <= from <= selected < widths.len(),
    ensures
        from <= first_shown(widths, from, selected, budget) <= selected,
        first_shown(widths, from, selected, budget) == selected || span_width(
            widths,
            first_shown(widths, from, selected, budget),
            selected + 1,
        ) <= budget,
    decreases selected - from,
{
    if !(from >= selected || span_width(widths, from, selected + 1) <= budget) {
        lemma_first_shown(widths, from + 1, selected, budget);
    }
}

proof fn lemma_shown_end(widths: Seq<usize>, start: int, to: int, budget: int)
    requires
        0 <= start < to <= widths.len(),
        span_width(widths, start, to) <= budget || to == start + 1,
    ensures
        to <= shown_end(widths, start, to, budget) <= widths.len(),
        span_width(widths, start, shown_end(widths, start, to, budget)) <= budget
            || shown_end(widths, start, to, budget) == to,
    decreases widths.len() - to,
{
    if !(to >= widths.len() || span_width(widths, start, to + 1) > budget) {
        lemma_shown_end(widths, start, to + 1, budget);
    }
}

/// Whether the badges `from..to` fit in `budget` (see [`span_width`]).
fn fits(widths: &[usize], from: usize, to: usize, budget: usize) -> (r: bool)
    requires
        from <= to <= widths@.len(),
    ensures
        r == (span_width(widths@, from as int, to as int) <= budget),
{
    let mut used: usize = 0;
    let mut i: usize = from;
    while i < to
        invariant
            from <= i <= to <= widths@.len(),
            used == span_width(widths@, from as int, i as int),
            used <= budget,
        decreases to - i,
    {
        proof {
            lemma_span_step(widths@, from as int, i as int);
        }
        if widths[i] > budget - used {
            proof {
                lemma_span_grows(widths@, from as int, i + 1, to as int);
            }
            return false;
        }
        used = used + widths[i];
        i = i + 1;
    }
    true
}

proof fn lemma_span_grows(widths: Seq<usize>, from: int, mid: int, to: int)
    requires
        0 <= from <= mid <= to <= widths.len(),
    ensures
        span_width(widths, from, mid) <= span_width(widths, from, to),
    decreases to - mid,
{
    if mid < to {
        lemma_span_grows(widths, from, mid, to - 1);
    }
}

/// The badges shown, `start..end`, for `selected` in a strip last starting
/// at `offset` (see [`spec_window`]). The selected badge is shown, and the
/// shown badges fit in `budget` unless the selected one alone is wider.
pub fn window(widths: &[usize], selected: usize, offset: usize, budget: usize) -> (r: (usize, usize))
    requires
        widths@.len() > 0 ==> selected < widths@.len(),
    ensures
        (r.0 as int, r.1 as int) == spec_window(widths@, selected as int, offset as int, budget as int),
        widths@.len() > 0 ==> r.0 <= selected < r.1 <= widths@.len(),
        widths@.len() > 0 ==> span_width(widths@, r.0 as int, r.1 as int) <= budget || r.1 == r.0 + 1,
{
    if widths.len() == 0 {
        return (0, 0);
    }
    let mut start: usize = if offset < selected {
        offset
    } else {
        selected
    };
    let ghost from = start as int;
    proof {
        lemma_first_shown(widths@, from, selected as int, budget as int);
    }
    let past: usize = selected + 1;
    while start < selected && !fits(widths, start, past, budget)
        invariant
            from <= start <= selected < widths@.len(),
            past == selected + 1,
            first_shown(widths@, from, selected as int, budget as int) == first_shown(
                widths@,
                start as int,
                selected as int,
                budget as int,
            ),
        decreases selected - start,
    {
        start = start + 1;
    }
    let mut end: usize = selected + 1;
    proof {
        lemma_first_shown(widths@, start as int, selected as int, budget as int);
        lemma_shown_end(widths@, start as int, end as int, budget as int);
    }
    while end < widths.len() && fits(widths, start, end + 1, budget)
        invariant
            start < end <= widths@.len(),
            shown_end(widths@, start as int, selected + 1, budget as int) == shown_end(
                widths@,
                start as int,
                end as int,
                budget as int,
            ),
        decreases widths@.len() - end,
    {
        end = end + 1;
    }
    (start, end)
}

/// The x position of badge `k` of the shown ones `start..`, the first at `x`.
pub open spec fn badge_x(widths: Seq<usize>, start: int, k: int, x: int) -> int {
    x + span_width(widths, start, start + k)
}

/// Where the shown badges `start..end` are drawn on row `y` from column `x`:
/// one cell high, each as wide as its badge without the gap, one after the
/// other with a cell between.
pub fn badge_rects(widths: &[usize], start: usize, end: usize, x: u16, y: u16) -> (r: Vec<Rect>)
    requires
        start <= end <= widths@.len(),
        x + span_width(widths@, start as int, end as int) <= u16::MAX,
        forall|i: int| start <= i < end ==> widths@[i] >= 1,
    ensures
        r@.len() == end - start,
        forall|k: int|
            0 <= k < r@.len() ==> #[trigger] r@[k] == (Rect {
                x: badge_x(widths@, start as int, k, x as int) as u16,
                y,
                width: (widths@[start + k] - 1) as u16,
                height: 1,
            }),
        forall|k: int|
            0 <= k < r@.len() - 1 ==> #[trigger] r@[k + 1].x == r@[k].x + r@[k].width + 1,
{
    let mut out: Vec<Rect> = Vec::new();
    let mut at: u16 = x;
    let mut i: usize = start;
    while i < end
        invariant
            start <= i <= end <= widths@.len(),
            x + span_width(widths@, start as int, end as int) <= u16::MAX,
            forall|j: int| start <= j < end ==> widths@[j] >= 1,
            at == x + span_width(widths@, start as int, i as int),
            out@.len() == i - start,
            forall|k: int|
                0 <= k < out@.len() ==> #[trigger] out@[k] == (Rect {
                    x: badge_x(widths@, start as int, k, x as int) as u16,
                    y,
                    width: (widths@[start + k] - 1) as u16,
                    height: 1,
                }),
        decreases end - i,
    {
        proof {
            lemma_span_step(widths@, start as int, i as int);
            lemma_span_grows(widths@, start as int, i + 1, end as int);
            assert(start + (i - start) == i);
        }
        out.push(Rect { x: at, y, width: (widths[i] - 1) as u16, height: 1 });
        at = at + widths[i] as u16;
        i = i + 1;
    }
    proof {
        assert forall|k: int| 0 <= k < out@.len() - 1 implies #[trigger] out@[k + 1].x
            == out@[k].x + out@[k].width + 1 by {
            lemma_span_step(widths@, start as int, start + k);
            lemma_span_grows(widths@, start as int, start + k + 1, end as int);
            lemma_span_grows(widths@, start as int, start + k, end as int);
            let a = span_width(widths@, start as int, start + k);
            let b = span_width(widths@, start as int, start + k + 1);
            assert(b == a + widths@[start + k]);
            assert(x + b <= u16::MAX);
            assert(start + (k + 1) == start + k + 1);
            assert(out@[k].x == (x + a) as u16);
            assert(out@[k + 1].x == (x + b) as u16);
            assert(out@[k].width == (widths@[start + k] - 1) as u16);
            lemma_span_nonneg(widths@, start as int, start + k);
            assert(0 <= a);
            assert(widths@[start + k] >= 1);
            assert((x + a) as u16 == x + a);
            assert((x + b) as u16 == x + b);
            assert((widths@[start + k] - 1) as u16 == widths@[start + k] - 1);
        }
    }
    out
}

/// How many of a group's `keys` the `members` hold.
pub open spec fn covered(keys: Seq<Seq<char>>, members: Seq<Seq<char>>) -> nat {
    keys.filter(|k: Seq<char>| members.contains(k)).len()
}

/// How many of a group's `keys` the `members` hold (see [`covered`]).
pub fn coverage(keys: &[String], members: &[String]) -> (r: usize)
    ensures
        r == covered(string_views(keys@), string_views(members@)),
{
    let mut count: usize = 0;
    let mut i: usize = 0;
    while i < keys.len()
        invariant
            i <= keys@.len(),
            count == covered(string_views(keys@.take(i as int)), string_views(members@)),
            count <= i,
        decreases keys@.len() - i,
    {
        proof {
            reveal(Seq::filter);
            assert(string_views(keys@.take(i + 1)).drop_last() =~= string_views(
                keys@.take(i as int),
            ));
            assert(string_views(keys@.take(i + 1)).last() == keys@[i as int]@);
        }
        if holds(members, &keys[i]) {
            count = count + 1;
        }
        i = i + 1;
    }
    assert(keys@.take(keys@.len() as int) =~= keys@);
    count
}

/// The coverage of every group of a strip, in order (see [`covered`]).
pub fn coverages(groups: &[Vec<String>], members: &[String]) -> (r: Vec<usize>)
    ensures
        r@.len() == groups@.len(),
        forall|i: int|
            0 <= i < groups@.len() ==> #[trigger] r@[i] == covered(
                string_views(groups@[i]@),
                string_views(members@),
            ),
{
    let mut out: Vec<usize> = Vec::new();
    let mut i: usize = 0;
    while i < groups.len()
        invariant
            i <= groups@.len(),
            out@.len() == i,
            forall|j: int|
                0 <= j < i ==> #[trigger] out@[j] == covered(
                    string_views(groups@[j]@),
                    string_views(members@),
                ),
        decreases groups@.len() - i,
    {
        out.push(coverage(groups[i].as_slice(), members));
        i = i + 1;
    }
    out
}

/// The marks at the ends of a strip showing `start..end` of `count` badges:
/// one on the left when badges are hidden before, one on the right when
/// badges are hidden after.
pub fn strip_marks(start: usize, end: usize, count: usize) -> (r: (bool, bool))
    ensures
        r == (start > 0, end < count),
{
    (start > 0, end < count)
}

/// Where a preset's row of tag groups goes in `area`, and what is left for
/// its members: the row is drawn only when tags are on, a preset is selected
/// and the area has three rows; it takes the second row, with two cells of
/// margin on each side for its marks, and the members start two rows below.
pub open spec fn spec_tag_row(area: Rect, shown: bool) -> Option<(Rect, usize, Rect)> {
    if !shown || area.height < 3 {
        None
    } else {
        Some(
            (
                Rect { y: (area.y + 1) as u16, height: 1, ..area },
                (if area.width > 4 {
                    area.width - 4
                } else {
                    0
                }) as usize,
                Rect { y: (area.y + 3) as u16, height: (area.height - 3) as u16, ..area },
            ),
        )
    }
}

/// Where the row of tag groups goes (see [`spec_tag_row`]): the row, the
/// width its badges may take, and the rest of the area.
pub fn tag_row(area: Rect, shown: bool) -> (r: Option<(Rect, usize, Rect)>)
    requires
        area.y + area.height <= u16::MAX,
    ensures
        r == spec_tag_row(area, shown),
{
    if !shown || area.height < 3 {
        None
    } else {
        let budget: u16 = if area.width > 4 {
            area.width - 4
        } else {
            0
        };
        Some(
            (
                Rect { y: area.y + 1, height: 1, ..area },
                budget as usize,
                Rect { y: area.y + 3, height: area.height - 3, ..area },
            ),
        )
    }
}

/// The badge selected in a strip of presets followed by tags: the tag
/// under the tag cursor when tags have the focus, else the preset under the
/// preset cursor.
pub fn strip_selection(tags_focused: bool, presets: usize, preset_cursor: usize, tag_cursor: usize) -> (r: usize)
    requires
        presets + tag_cursor <= usize::MAX,
    ensures
        r == (if tags_focused {
            presets + tag_cursor
        } else {
            preset_cursor as int
        }),
{
    if tags_focused {
        presets + tag_cursor
    } else {
        preset_cursor
    }
}

} // verus!
