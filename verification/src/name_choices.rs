//! One explicit keep-or-none decision per conflicting name, staged until
//! applied.
//!
//! Each conflict group lists its candidates, then one more row, "keep none".
//! Nothing is decided for a group until its row is chosen, and the choices
//! apply only once every group has one.
use crate::choice::Key;
use crate::download::{decimal, decimal_string};
use crate::install::string_views;
use crate::panel::{bordered_inner, dialog_rect, no_rect, on_screen, sat_sub, spec_bordered_inner, spec_centered, Rect};
use crate::text::{chars_of, concat, string_of};
use vstd::prelude::*;

verus! {

/// The staged choices of a name-conflict dialog.
pub struct NameChoices {
    /// The number of candidates of each group.
    pub candidates: Vec<usize>,
    /// The row chosen in each group, if any: a candidate, or the last row
    /// for none.
    pub choices: Vec<Option<usize>>,
    /// The group shown.
    pub group: usize,
}

impl NameChoices {
    /// The choices are about the same groups, the shown group exists, and
    /// every choice is one of its group's rows.
    pub open spec fn wf(&self) -> bool {
        &&& self.candidates@.len() == self.choices@.len()
        &&& self.candidates@.len() > 0
        &&& self.group < self.candidates@.len()
        &&& forall|i: int| 0 <= i < self.candidates@.len() ==> #[trigger] self.candidates@[i] < usize::MAX
        &&& forall|i: int|
            0 <= i < self.choices@.len() ==> (#[trigger] self.choices@[i] matches Some(row) ==> row
                <= self.candidates@[i])
    }

    /// A dialog over groups with these numbers of candidates, showing the
    /// first, with nothing chosen.
    pub fn new(candidates: Vec<usize>) -> (r: NameChoices)
        requires
            candidates@.len() > 0,
            forall|i: int| 0 <= i < candidates@.len() ==> #[trigger] candidates@[i] < usize::MAX,
        ensures
            r.wf(),
            r.candidates@ == candidates@,
            r.group == 0,
            forall|i: int| 0 <= i < r.choices@.len() ==> #[trigger] r.choices@[i] is None,
    {
        let mut choices: Vec<Option<usize>> = Vec::new();
        let mut i: usize = 0;
        while i < candidates.len()
            invariant
                i <= candidates@.len(),
                choices@.len() == i,
                forall|j: int| 0 <= j < i ==> #[trigger] choices@[j] is None,
            decreases candidates@.len() - i,
        {
            choices.push(None);
            i = i + 1;
        }
        NameChoices { candidates, choices, group: 0 }
    }

    /// The rows of the shown group: its candidates and "keep none".
    pub fn len(&self) -> (r: usize)
        requires
            self.wf(),
        ensures
            r == self.candidates@[self.group as int] + 1,
    {
        self.candidates[self.group] + 1
    }

    /// Chooses the highlighted row (`None`: no row highlighted) for the
    /// shown group.
    pub fn pick(&mut self, selected: Option<usize>)
        requires
            old(self).wf(),
            selected matches Some(row) ==> row <= old(self).candidates@[old(self).group as int],
        ensures
            final(self).wf(),
            final(self).candidates@ == old(self).candidates@,
            final(self).group == old(self).group,
            final(self).choices@ == old(self).choices@.update(old(self).group as int, selected),
    {
        let g = self.group;
        self.choices.set(g, selected);
    }

    /// Shows the next group (`forward`) or the previous one, cycling; gives
    /// the row to highlight there: its choice, else the first row.
    pub fn move_group(&mut self, forward: bool) -> (row: usize)
        requires
            old(self).wf(),
        ensures
            final(self).wf(),
            final(self).candidates@ == old(self).candidates@,
            final(self).choices@ == old(self).choices@,
            final(self).group == spec_next_group(
                old(self).group as int,
                old(self).candidates@.len() as int,
                forward,
            ),
            row == (match final(self).choices@[final(self).group as int] {
                Some(r) => r,
                None => 0,
            }),
    {
        let n = self.candidates.len();
        self.group = if forward {
            if self.group + 1 == n {
                0
            } else {
                self.group + 1
            }
        } else if self.group == 0 {
            n - 1
        } else {
            self.group - 1
        };
        match self.choices[self.group] {
            Some(r) => r,
            None => 0,
        }
    }

    /// Every group has a choice.
    pub open spec fn spec_ready(&self) -> bool {
        forall|i: int| 0 <= i < self.choices@.len() ==> #[trigger] self.choices@[i] is Some
    }

    /// Whether every group has a choice.
    pub fn ready(&self) -> (r: bool)
        ensures
            r == self.spec_ready(),
    {
        let mut i: usize = 0;
        while i < self.choices.len()
            invariant
                i <= self.choices@.len(),
                forall|j: int| 0 <= j < i ==> #[trigger] self.choices@[j] is Some,
            decreases self.choices@.len() - i,
        {
            if self.choices[i].is_none() {
                return false;
            }
            i = i + 1;
        }
        true
    }

    /// The decisions to apply, once every group has a choice: for each group
    /// the candidate to keep, or none when "keep none" was chosen.
    pub fn decisions(&self) -> (r: Option<Vec<Option<usize>>>)
        requires
            self.wf(),
        ensures
            r is Some <==> self.spec_ready(),
            r matches Some(d) ==> d@.len() == self.choices@.len() && forall|i: int|
                0 <= i < d@.len() ==> #[trigger] d@[i] == (if self.choices@[i]->0
                    < self.candidates@[i] {
                    Some(self.choices@[i]->0)
                } else {
                    None
                }),
    {
        if !self.ready() {
            return None;
        }
        let mut out: Vec<Option<usize>> = Vec::new();
        let mut i: usize = 0;
        while i < self.choices.len()
            invariant
                self.wf(),
                self.spec_ready(),
                i <= self.choices@.len(),
                out@.len() == i,
                forall|j: int|
                    0 <= j < i ==> #[trigger] out@[j] == (if self.choices@[j]->0
                        < self.candidates@[j] {
                        Some(self.choices@[j]->0)
                    } else {
                        None
                    }),
            decreases self.choices@.len() - i,
        {
            let row = match self.choices[i] {
                Some(r) => r,
                None => 0,
            };
            assert(self.choices@[i as int] is Some);
            out.push(if row < self.candidates[i] {
                Some(row)
            } else {
                None
            });
            i = i + 1;
        }
        Some(out)
    }
}

/// The group after (or before) `group` of `count`, cycling.
pub open spec fn spec_next_group(group: int, count: int, forward: bool) -> int {
    if forward {
        if group + 1 == count {
            0
        } else {
            group + 1
        }
    } else if group == 0 {
        count - 1
    } else {
        group - 1
    }
}

/// Moving forward through every group comes back to the first one shown;
/// moving back undoes moving forward.
pub proof fn law_group_cycle(group: int, count: int)
    requires
        0 <= group < count,
    ensures
        spec_next_group(spec_next_group(group, count, true), count, false) == group,
        0 <= spec_next_group(group, count, true) < count,
        0 <= spec_next_group(group, count, false) < count,
{
}

/// What the dialog does with a key that its footer did not take.
#[derive(Debug, Clone, Copy, PartialEq, Eq, Structural)]
pub enum NameKey {
    /// Close the dialog without applying.
    Close,
    /// Move the highlight by one row, up or down.
    MoveRow(bool),
    /// Show the next or previous group.
    MoveGroup(bool),
    /// Choose the highlighted row.
    Choose,
    /// Apply the choices (refused until every group has one).
    Apply,
    /// Nothing.
    Ignore,
}

/// The list's keys: arrows move within and between groups, Enter and Space
/// choose, `a` applies; Esc and `q` close.
pub fn name_key(key: Key) -> (r: NameKey)
    ensures
        r == (match key {
            Key::Esc | Key::Char('q') => NameKey::Close,
            Key::Up => NameKey::MoveRow(false),
            Key::Down => NameKey::MoveRow(true),
            Key::Left => NameKey::MoveGroup(false),
            Key::Right => NameKey::MoveGroup(true),
            Key::Enter | Key::Char(' ') => NameKey::Choose,
            Key::Char('a') => NameKey::Apply,
            _ => NameKey::Ignore,
        }),
{
    match key {
        Key::Esc | Key::Char('q') => NameKey::Close,
        Key::Up => NameKey::MoveRow(false),
        Key::Down => NameKey::MoveRow(true),
        Key::Left => NameKey::MoveGroup(false),
        Key::Right => NameKey::MoveGroup(true),
        Key::Enter | Key::Char(' ') => NameKey::Choose,
        Key::Char('a') => NameKey::Apply,
        _ => NameKey::Ignore,
    }
}

/// What applying the dialog's choices does: nothing but an error while a
/// group has no choice; otherwise it asks for confirmation of these
/// decisions, and nothing is written before that confirmation is accepted.
#[derive(Debug, Clone, PartialEq, Eq)]
pub enum ApplyOutcome {
    /// Some group has no choice yet (see [`incomplete_message`]).
    Incomplete,
    /// Ask to confirm these decisions (see [`NameChoices::decisions`]).
    Confirm(Vec<Option<usize>>),
}

/// The error shown when applying before every group has a choice.
pub fn incomplete_message() -> (r: &'static str)
    ensures
        r == "Choose every conflicting name before applying",
{
    "Choose every conflicting name before applying"
}

impl NameChoices {
    /// What applying the choices does (see [`ApplyOutcome`]).
    pub fn apply(&self) -> (r: ApplyOutcome)
        requires
            self.wf(),
        ensures
            r is Incomplete <==> !self.spec_ready(),
            r matches ApplyOutcome::Confirm(d) ==> d@.len() == self.choices@.len() && forall|i: int|
                0 <= i < d@.len() ==> #[trigger] d@[i] == (if self.choices@[i]->0
                    < self.candidates@[i] {
                    Some(self.choices@[i]->0)
                } else {
                    None
                }),
    {
        match self.decisions() {
            None => ApplyOutcome::Incomplete,
            Some(d) => ApplyOutcome::Confirm(d),
        }
    }

    /// Whether `row` of the shown group is its chosen one.
    pub fn marked(&self, row: usize) -> (r: bool)
        requires
            self.wf(),
        ensures
            r == (self.choices@[self.group as int] == Some(row)),
    {
        match self.choices[self.group] {
            Some(chosen) => chosen == row,
            None => false,
        }
    }
}

/// The mark of a row: a tick when it is the chosen one.
pub open spec fn spec_mark(marked: bool) -> Seq<char> {
    if marked {
        "[✓]"@
    } else {
        "[ ]"@
    }
}

fn mark(marked: bool) -> (r: Vec<char>)
    ensures
        r@ == spec_mark(marked),
{
    if marked {
        chars_of("[✓]")
    } else {
        chars_of("[ ]")
    }
}

/// The row of a candidate: its mark, the key it keeps (an agent-owned entry
/// has none), its path, and a note when the others may be archived.
pub open spec fn spec_candidate_row(
    marked: bool,
    key: Option<Seq<char>>,
    path: Seq<char>,
    archived: bool,
) -> Seq<char> {
    spec_mark(marked) + " Keep "@ + (match key {
        Some(k) => k,
        None => "agent-owned entry"@,
    }) + " · "@ + path + (if archived {
        " (others may be archived)"@
    } else {
        Seq::<char>::empty()
    })
}

/// The row of a candidate (see [`spec_candidate_row`]).
pub fn candidate_row(marked: bool, key: Option<&str>, path: &str, archived: bool) -> (r: String)
    ensures
        r@ == spec_candidate_row(
            marked,
            match key {
                Some(k) => Some(k@),
                None => None,
            },
            path@,
            archived,
        ),
{
    let a = concat(mark(marked).as_slice(), chars_of(" Keep ").as_slice());
    let who = match key {
        Some(k) => chars_of(k),
        None => chars_of("agent-owned entry"),
    };
    let b = concat(a.as_slice(), who.as_slice());
    let c = concat(b.as_slice(), chars_of(" · ").as_slice());
    let d = concat(c.as_slice(), chars_of(path).as_slice());
    let note = if archived {
        chars_of(" (others may be archived)")
    } else {
        Vec::new()
    };
    string_of(concat(d.as_slice(), note.as_slice()).as_slice())
}

/// The last row of a group: keeping none of its candidates.
pub fn keep_none_row(marked: bool) -> (r: String)
    ensures
        r@ == spec_mark(marked) + " Keep none"@,
{
    string_of(concat(mark(marked).as_slice(), chars_of(" Keep none").as_slice()).as_slice())
}

/// The title of the dialog showing group `group` of `count`.
pub open spec fn spec_dialog_title(group: nat, count: nat) -> Seq<char> {
    " Name conflict · "@ + decimal(group + 1) + "/"@ + decimal(count) + " "@
}

/// The title of the dialog (see [`spec_dialog_title`]).
pub fn dialog_title(group: usize, count: usize) -> (r: String)
    requires
        group < count,
    ensures
        r@ == spec_dialog_title(group as nat, count as nat),
{
    let a = concat(
        chars_of(" Name conflict · ").as_slice(),
        chars_of(decimal_string((group + 1) as u64).as_str()).as_slice(),
    );
    let b = concat(a.as_slice(), chars_of("/").as_slice());
    let c = concat(b.as_slice(), chars_of(decimal_string(count as u64).as_str()).as_slice());
    string_of(concat(c.as_slice(), chars_of(" ").as_slice()).as_slice())
}

/// The regions of the name-conflict dialog.
#[derive(Debug, Clone, Copy, PartialEq, Eq, Structural)]
pub struct ChoicesFrame {
    /// The dialog, borders included (see [`dialog_rect`]).
    pub rect: Rect,
    /// Inside the borders.
    pub inner: Rect,
    /// Under eight rows inside: only a note to enlarge the terminal is
    /// shown, and the other regions are empty.
    pub too_small: bool,
    /// The name and target directory, three rows.
    pub header: Rect,
    /// The rows to choose from.
    pub list: Rect,
    /// The note that nothing changes until confirmed.
    pub hint: Rect,
    /// The footer with the two buttons.
    pub footer: Rect,
    /// The "previous" and "next" buttons, shown when there are several
    /// groups and at least 56 columns.
    pub previous: Rect,
    pub next: Rect,
}

/// The regions of the dialog in `area` with `groups` conflict groups.
pub open spec fn spec_choices_frame(area: Rect, groups: usize) -> ChoicesFrame {
    let w = (if sat_sub(area.width as int, 2) < 110 {
        sat_sub(area.width as int, 2)
    } else {
        110
    }) as u16;
    let h = (if sat_sub(area.height as int, 2) < 24 {
        sat_sub(area.height as int, 2)
    } else {
        24
    }) as u16;
    let rect = spec_centered(area, w, h);
    let inner = spec_bordered_inner(rect);
    if inner.height < 8 {
        ChoicesFrame {
            rect,
            inner,
            too_small: true,
            header: no_rect(),
            list: no_rect(),
            hint: no_rect(),
            footer: no_rect(),
            previous: no_rect(),
            next: no_rect(),
        }
    } else {
        let bottom = inner.y + inner.height;
        let buttons = inner.width >= 56 && groups > 1;
        ChoicesFrame {
            rect,
            inner,
            too_small: false,
            header: Rect { height: 3, ..inner },
            list: Rect { y: (inner.y + 3) as u16, height: (inner.height - 6) as u16, ..inner },
            hint: Rect { y: (bottom - 2) as u16, height: 1, ..inner },
            footer: Rect { y: (bottom - 1) as u16, height: 1, ..inner },
            previous: if buttons {
                Rect { x: inner.x, y: (bottom - 1) as u16, width: 12, height: 1 }
            } else {
                no_rect()
            },
            next: if buttons {
                Rect { x: (inner.x + 13) as u16, y: (bottom - 1) as u16, width: 10, height: 1 }
            } else {
                no_rect()
            },
        }
    }
}

/// The regions of the dialog (see [`spec_choices_frame`]).
pub fn choices_frame(area: Rect, groups: usize) -> (r: ChoicesFrame)
    requires
        on_screen(area),
    ensures
        r == spec_choices_frame(area, groups),
{
    let rect = dialog_rect(area);
    let inner = bordered_inner(rect);
    let empty = Rect { x: 0, y: 0, width: 0, height: 0 };
    if inner.height < 8 {
        return ChoicesFrame {
            rect,
            inner,
            too_small: true,
            header: empty,
            list: empty,
            hint: empty,
            footer: empty,
            previous: empty,
            next: empty,
        };
    }
    let bottom = inner.y + inner.height;
    let buttons = inner.width >= 56 && groups > 1;
    ChoicesFrame {
        rect,
        inner,
        too_small: false,
        header: Rect { height: 3, ..inner },
        list: Rect { y: inner.y + 3, height: inner.height - 6, ..inner },
        hint: Rect { y: bottom - 2, height: 1, ..inner },
        footer: Rect { y: bottom - 1, height: 1, ..inner },
        previous: if buttons {
            Rect { x: inner.x, y: bottom - 1, width: 12, height: 1 }
        } else {
            empty
        },
        next: if buttons {
            Rect { x: inner.x + 13, y: bottom - 1, width: 10, height: 1 }
        } else {
            empty
        },
    }
}

} // verus!
