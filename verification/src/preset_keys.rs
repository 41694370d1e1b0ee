//! How the presets page answers a key press.
//!
//! A key goes to an open colour prompt first, then to the membership
//! matrix, then, while the members of a preset have the focus, to the row of
//! tag groups above them or to the members panel, otherwise to the filter,
//! and only then to the list of presets. The caller owns the prompt, the
//! matrix, the panel, the filter and the list; it asks them when
//! [`presets_key`] says so, calls again with the answer, and carries out the
//! command.
use crate::choice::Key;
use crate::install::string_views;
use crate::prompt::{color_text, spec_color_text};
use vstd::prelude::*;

verus! {

/// What a key that needs a selected preset reports without one.
pub const NO_PRESET: &'static str = "no preset selected; press c to create one";

/// Where the presets page stands when a key arrives.
#[derive(Debug, Clone, Copy, PartialEq, Eq, Structural)]
pub struct PresetsPage {
    /// The colour prompt is open.
    pub prompt_open: bool,
    /// The members of the selected preset have the focus.
    pub focus_members: bool,
    /// Within the members, the row of tag groups has the focus.
    pub focus_tags: bool,
    /// The tag group under the cursor in that row.
    pub tag_cursor: usize,
    /// How many tag groups the row holds.
    pub tag_groups: usize,
    /// Tag groups are shown above the members.
    pub tags_enabled: bool,
    /// The members panel exists.
    pub panel_open: bool,
    /// The members panel shows its first row.
    pub panel_at_top: bool,
    /// The members panel can act on its selection (not while it shows the
    /// preview of a skill).
    pub panel_ready: bool,
    /// No modifier key is held.
    pub plain: bool,
    /// The row under the cursor in the list of presets, if any.
    pub selected: Option<usize>,
    /// How many members the selected preset lists.
    pub members: usize,
}

/// What the caller must find out before the key is settled.
#[derive(Debug, Clone, Copy, PartialEq, Eq, Structural)]
pub enum PresetQuestion {
    /// Whether the membership matrix takes the key.
    Matrix,
    /// Whether the filter takes the key.
    Filter,
    /// Whether the members panel takes a Left as a step back out of it.
    PanelBack,
}

/// What the presets page does with a key.
#[derive(Debug, Clone, Copy, PartialEq, Eq, Structural)]
pub enum PresetCommand {
    /// Give the key to the colour prompt.
    ToPrompt,
    /// Ask first, then call again with the answer.
    Ask(PresetQuestion),
    /// Put the focus on the members panel's list.
    FocusPanelList,
    /// Put the focus on the members panel's search input.
    FocusPanelInput,
    /// Add or remove, as a whole, the members of the tag group at this index.
    ToggleGroup(usize),
    /// Add the members of the tag group at this index.
    AddGroup(usize),
    /// Remove the members of the tag group at this index.
    RemoveGroup(usize),
    /// Put the focus on the panel's list and give it the key.
    ListKey,
    /// The filter took the key: filter the list again.
    Refilter,
    /// Remove the members selected in the panel from the preset.
    RemoveMembers,
    /// Add the members selected in the panel to the preset.
    AddMembers,
    /// Give the key to the members panel (then report with [`after_panel_key`]).
    ToPanel,
    /// Open the membership matrix.
    OpenMatrix,
    /// Go back to the search page.
    SwitchToSearch,
    /// Close the members panel and move the cursor down one preset.
    Down,
    /// Close the members panel and move the cursor up one preset.
    Up,
    /// Close the members panel and move the cursor to the first preset.
    First,
    /// Close the members panel and move the cursor to the last preset.
    Last,
    /// Up from the first preset: start editing the filter.
    EditFilter,
    /// Ask for the name of a new preset.
    NewPreset,
    /// Open the colour prompt for the selected preset.
    AskColor,
    /// Open the search to add members to the selected preset.
    AddToPreset,
    /// Ask for a description of the selected preset.
    Describe,
    /// Ask for a new name of the selected preset.
    Rename,
    /// Ask to confirm deleting the selected preset.
    DeletePreset,
    /// Report [`NO_PRESET`]: the key needs a selected preset.
    NoneSelected,
    /// Nothing more happens.
    Nothing,
}

/// A page as it stands once its tag groups are refreshed: the tag row is
/// shown exactly when it has groups, its cursor is on one of them, and only
/// a shown row can have the focus.
pub open spec fn presets_page_valid(page: PresetsPage) -> bool {
    &&& page.tags_enabled == (page.tag_groups > 0)
    &&& page.tags_enabled ==> page.tag_cursor < page.tag_groups
    &&& page.focus_tags ==> page.tags_enabled
}

/// A command on the selected preset: given only when one is selected.
pub open spec fn on_preset(page: PresetsPage, command: PresetCommand) -> PresetCommand {
    if page.selected is Some {
        command
    } else {
        PresetCommand::Nothing
    }
}

/// A command that needs the selected preset: without one, the user is told
/// how to create one.
pub open spec fn needs_preset(page: PresetsPage, command: PresetCommand) -> PresetCommand {
    if page.selected is Some {
        command
    } else {
        PresetCommand::NoneSelected
    }
}

/// The page after a step that only moves the focus or the tag cursor.
pub open spec fn with_focus(page: PresetsPage, members: bool, tags: bool, cursor: usize) -> PresetsPage {
    PresetsPage { focus_members: members, focus_tags: tags, tag_cursor: cursor, ..page }
}

/// A key on the focused row of tag groups.
pub open spec fn spec_tag_row_key(page: PresetsPage, key: Key) -> (PresetsPage, PresetCommand) {
    let cursor = page.tag_cursor;
    let keep = with_focus(page, true, true, cursor);
    let (left, char_h) = (key == Key::Left, key == Key::Char('h'));
    if (left || char_h) && cursor > 0 {
        (with_focus(page, true, true, (cursor - 1) as usize), PresetCommand::Nothing)
    } else if key == Key::Right || key == Key::Char('l') {
        let next = if cursor + 1 < page.tag_groups {
            (cursor + 1) as usize
        } else {
            (page.tag_groups - 1) as usize
        };
        (with_focus(page, true, true, next), PresetCommand::Nothing)
    } else if key == Key::Down || key == Key::Char('j') {
        (with_focus(page, true, false, cursor), PresetCommand::FocusPanelList)
    } else if key == Key::Up || key == Key::Char('k') || key == Key::Char('/') {
        (with_focus(page, true, false, cursor), PresetCommand::FocusPanelInput)
    } else if key == Key::Esc || left {
        (with_focus(page, false, false, cursor), PresetCommand::Nothing)
    } else if key == Key::Enter || key == Key::Char(' ') {
        (keep, PresetCommand::ToggleGroup(cursor))
    } else if key == Key::Char('a') {
        (keep, PresetCommand::AddGroup(cursor))
    } else if key == Key::Char('x') || key == Key::Delete {
        (keep, PresetCommand::RemoveGroup(cursor))
    } else if key == Key::Char('m') {
        (with_focus(page, true, false, cursor), PresetCommand::ListKey)
    } else {
        (keep, PresetCommand::Nothing)
    }
}

/// A key that reached the list of presets.
pub open spec fn spec_preset_list_key(page: PresetsPage, key: Key) -> (PresetsPage, PresetCommand) {
    match key {
        Key::Char('M') => (page, PresetCommand::OpenMatrix),
        Key::Char('q') | Key::Esc => (page, PresetCommand::SwitchToSearch),
        Key::Down | Key::Char('j') => (page, PresetCommand::Down),
        Key::Up | Key::Char('k') => if page.selected is None || page.selected == Some(0usize) {
            (page, PresetCommand::EditFilter)
        } else {
            (page, PresetCommand::Up)
        },
        Key::Home | Key::Char('g') => (page, PresetCommand::First),
        Key::End | Key::Char('G') => (page, PresetCommand::Last),
        Key::Enter | Key::Right | Key::Char('l') => if page.members > 0 || page.tags_enabled {
            (with_focus(page, true, page.tags_enabled, page.tag_cursor), PresetCommand::Nothing)
        } else {
            (page, PresetCommand::Nothing)
        },
        Key::Char('c') => (page, PresetCommand::NewPreset),
        Key::Char('C') => (page, on_preset(page, PresetCommand::AskColor)),
        Key::Char('a') => (page, needs_preset(page, PresetCommand::AddToPreset)),
        Key::Char('e') => (page, needs_preset(page, PresetCommand::Describe)),
        Key::Char('r') => (page, needs_preset(page, PresetCommand::Rename)),
        Key::Char('D') => (page, on_preset(page, PresetCommand::DeletePreset)),
        _ => (page, PresetCommand::Nothing),
    }
}

/// The next page and the command for `key`, given the answers the caller
/// has so far to the matrix, filter and panel questions.
///
/// The colour prompt takes every key, then the matrix may. While the tag
/// row has the focus, it moves its cursor, hands the focus to the panel,
/// leaves the members, or edits the preset by a whole group. Up at the top
/// of the panel moves to the tag row when there is one. Unless the members
/// have the focus, the filter may take the key. While they have it and the
/// panel is open, Left may step back out, `x`/Delete and `a` edit the
/// preset when the panel is ready and no modifier is held, and other keys go
/// to the panel. The rest reaches the list of presets.
pub open spec fn spec_presets_key(
    page: PresetsPage,
    key: Key,
    matrix_took: Option<bool>,
    filter_took: Option<bool>,
    panel_back: Option<bool>,
) -> (PresetsPage, PresetCommand) {
    if page.prompt_open {
        (page, PresetCommand::ToPrompt)
    } else if matrix_took is None {
        (page, PresetCommand::Ask(PresetQuestion::Matrix))
    } else if matrix_took == Some(true) {
        (page, PresetCommand::Nothing)
    } else if page.focus_members && page.focus_tags {
        spec_tag_row_key(page, key)
    } else if page.focus_members && page.panel_open && page.panel_at_top && key == Key::Up
        && page.tags_enabled {
        (with_focus(page, true, true, page.tag_cursor), PresetCommand::Nothing)
    } else if !page.focus_members && filter_took is None {
        (page, PresetCommand::Ask(PresetQuestion::Filter))
    } else if !page.focus_members && filter_took == Some(true) {
        (page, PresetCommand::Refilter)
    } else if page.focus_members && page.panel_open {
        if key == Key::Left && panel_back is None {
            (page, PresetCommand::Ask(PresetQuestion::PanelBack))
        } else if key == Key::Left && panel_back == Some(true) {
            (with_focus(page, false, page.focus_tags, page.tag_cursor), PresetCommand::Nothing)
        } else if page.panel_ready && page.plain && (key == Key::Char('x') || key == Key::Delete) {
            (page, PresetCommand::RemoveMembers)
        } else if page.panel_ready && page.plain && key == Key::Char('a') {
            (page, PresetCommand::AddMembers)
        } else {
            (page, PresetCommand::ToPanel)
        }
    } else {
        spec_preset_list_key(page, key)
    }
}

/// The page after the panel handled `key`: leaving its search input with
/// Down or Enter moves the focus on to the tag row, when there is one.
pub open spec fn spec_after_panel_key(page: PresetsPage, key: Key, was_editing: bool, editing: bool) -> PresetsPage {
    if was_editing && !editing && (key == Key::Down || key == Key::Enter) && page.tags_enabled {
        with_focus(page, page.focus_members, true, page.tag_cursor)
    } else {
        page
    }
}

fn focus(page: PresetsPage, members: bool, tags: bool, cursor: usize) -> (r: PresetsPage)
    ensures
        r == with_focus(page, members, tags, cursor),
{
    PresetsPage { focus_members: members, focus_tags: tags, tag_cursor: cursor, ..page }
}

fn preset_command(page: PresetsPage, command: PresetCommand) -> (r: PresetCommand)
    ensures
        r == on_preset(page, command),
{
    match page.selected {
        Some(_) => command,
        None => PresetCommand::Nothing,
    }
}

fn required_preset(page: PresetsPage, command: PresetCommand) -> (r: PresetCommand)
    ensures
        r == needs_preset(page, command),
{
    match page.selected {
        Some(_) => command,
        None => PresetCommand::NoneSelected,
    }
}

fn tag_row_key(page: PresetsPage, key: Key) -> (r: (PresetsPage, PresetCommand))
    requires
        presets_page_valid(page),
        page.focus_tags,
    ensures
        r == spec_tag_row_key(page, key),
{
    let cursor = page.tag_cursor;
    let keep = focus(page, true, true, cursor);
    let left = matches!(key, Key::Left);
    let char_h = matches!(key, Key::Char('h'));
    if (left || char_h) && cursor > 0 {
        (focus(page, true, true, cursor - 1), PresetCommand::Nothing)
    } else if matches!(key, Key::Right | Key::Char('l')) {
        let next = if cursor + 1 < page.tag_groups {
            cursor + 1
        } else {
            page.tag_groups - 1
        };
        (focus(page, true, true, next), PresetCommand::Nothing)
    } else if matches!(key, Key::Down | Key::Char('j')) {
        (focus(page, true, false, cursor), PresetCommand::FocusPanelList)
    } else if matches!(key, Key::Up | Key::Char('k') | Key::Char('/')) {
        (focus(page, true, false, cursor), PresetCommand::FocusPanelInput)
    } else if matches!(key, Key::Esc) || left {
        (focus(page, false, false, cursor), PresetCommand::Nothing)
    } else if matches!(key, Key::Enter | Key::Char(' ')) {
        (keep, PresetCommand::ToggleGroup(cursor))
    } else if matches!(key, Key::Char('a')) {
        (keep, PresetCommand::AddGroup(cursor))
    } else if matches!(key, Key::Char('x') | Key::Delete) {
        (keep, PresetCommand::RemoveGroup(cursor))
    } else if matches!(key, Key::Char('m')) {
        (focus(page, true, false, cursor), PresetCommand::ListKey)
    } else {
        (keep, PresetCommand::Nothing)
    }
}

fn preset_list_key(page: PresetsPage, key: Key) -> (r: (PresetsPage, PresetCommand))
    ensures
        r == spec_preset_list_key(page, key),
{
    match key {
        Key::Char('M') => (page, PresetCommand::OpenMatrix),
        Key::Char('q') | Key::Esc => (page, PresetCommand::SwitchToSearch),
        Key::Down | Key::Char('j') => (page, PresetCommand::Down),
        Key::Up | Key::Char('k') => match page.selected {
            Some(row) => if row == 0 {
                (page, PresetCommand::EditFilter)
            } else {
                (page, PresetCommand::Up)
            },
            None => (page, PresetCommand::EditFilter),
        },
        Key::Home | Key::Char('g') => (page, PresetCommand::First),
        Key::End | Key::Char('G') => (page, PresetCommand::Last),
        Key::Enter | Key::Right | Key::Char('l') => if page.members > 0 || page.tags_enabled {
            (focus(page, true, page.tags_enabled, page.tag_cursor), PresetCommand::Nothing)
        } else {
            (page, PresetCommand::Nothing)
        },
        Key::Char('c') => (page, PresetCommand::NewPreset),
        Key::Char('C') => (page, preset_command(page, PresetCommand::AskColor)),
        Key::Char('a') => (page, required_preset(page, PresetCommand::AddToPreset)),
        Key::Char('e') => (page, required_preset(page, PresetCommand::Describe)),
        Key::Char('r') => (page, required_preset(page, PresetCommand::Rename)),
        Key::Char('D') => (page, preset_command(page, PresetCommand::DeletePreset)),
        _ => (page, PresetCommand::Nothing),
    }
}

/// The next page and the command for `key` (see [`spec_presets_key`]).
pub fn presets_key(
    page: PresetsPage,
    key: Key,
    matrix_took: Option<bool>,
    filter_took: Option<bool>,
    panel_back: Option<bool>,
) -> (r: (PresetsPage, PresetCommand))
    requires
        presets_page_valid(page),
    ensures
        r == spec_presets_key(page, key, matrix_took, filter_took, panel_back),
{
    if page.prompt_open {
        return (page, PresetCommand::ToPrompt);
    }
    match matrix_took {
        None => {
            return (page, PresetCommand::Ask(PresetQuestion::Matrix));
        },
        Some(true) => {
            return (page, PresetCommand::Nothing);
        },
        Some(false) => {},
    }
    if page.focus_members && page.focus_tags {
        return tag_row_key(page, key);
    }
    if page.focus_members && page.panel_open && page.panel_at_top && matches!(key, Key::Up)
        && page.tags_enabled {
        return (focus(page, true, true, page.tag_cursor), PresetCommand::Nothing);
    }
    if !page.focus_members {
        match filter_took {
            None => {
                return (page, PresetCommand::Ask(PresetQuestion::Filter));
            },
            Some(true) => {
                return (page, PresetCommand::Refilter);
            },
            Some(false) => {},
        }
    }
    if page.focus_members && page.panel_open {
        if matches!(key, Key::Left) {
            match panel_back {
                None => {
                    return (page, PresetCommand::Ask(PresetQuestion::PanelBack));
                },
                Some(true) => {
                    return (focus(page, false, page.focus_tags, page.tag_cursor), PresetCommand::Nothing);
                },
                Some(false) => {},
            }
        }
        if page.panel_ready && page.plain {
            if matches!(key, Key::Char('x') | Key::Delete) {
                return (page, PresetCommand::RemoveMembers);
            }
            if matches!(key, Key::Char('a')) {
                return (page, PresetCommand::AddMembers);
            }
        }
        return (page, PresetCommand::ToPanel);
    }
    preset_list_key(page, key)
}

/// The page after the panel handled `key` (see [`spec_after_panel_key`]).
pub fn after_panel_key(page: PresetsPage, key: Key, was_editing: bool, editing: bool) -> (r:
    PresetsPage)
    ensures
        r == spec_after_panel_key(page, key, was_editing, editing),
{
    if was_editing && !editing && matches!(key, Key::Down | Key::Enter) && page.tags_enabled {
        focus(page, page.focus_members, true, page.tag_cursor)
    } else {
        page
    }
}

/// Every step keeps the page refreshed-valid (the tag cursor stays on a
/// group, and only a shown tag row gets the focus), and no key is settled
/// by asking again a question already answered.
pub proof fn law_presets_key_keeps_the_cursor(
    page: PresetsPage,
    key: Key,
    matrix_took: bool,
    filter_took: bool,
    panel_back: bool,
    was_editing: bool,
    editing: bool,
)
    requires
        presets_page_valid(page),
    ensures
        presets_page_valid(
            spec_presets_key(page, key, Some(matrix_took), Some(filter_took), Some(panel_back)).0,
        ),
        !(spec_presets_key(page, key, Some(matrix_took), Some(filter_took), Some(panel_back)).1 is Ask),
        presets_page_valid(spec_after_panel_key(page, key, was_editing, editing)),
{
}

/// What the colour prompt answers a key with: Enter submits, Esc closes,
/// any other key edits or moves within the prompt.
pub open spec fn spec_prompt_answer(key: Key) -> Option<bool> {
    match key {
        Key::Enter => Some(true),
        Key::Esc => Some(false),
        _ => None,
    }
}

/// What the colour prompt answers `key` with (see [`spec_prompt_answer`]).
pub fn prompt_answer(key: Key) -> (r: Option<bool>)
    ensures
        r == spec_prompt_answer(key),
{
    match key {
        Key::Enter => Some(true),
        Key::Esc => Some(false),
        _ => None,
    }
}

/// What becomes of the colour prompt after an answer.
#[derive(Debug, Clone, PartialEq, Eq)]
pub enum ColorOutcome {
    /// The prompt stays open, nothing is written.
    Open,
    /// The prompt closes, nothing is written.
    Closed,
    /// The prompt stays open and shows [`color_error`]; nothing is written.
    Invalid,
    /// The prompt closes and the preset is written with this colour (`None`:
    /// the default), its other fields unchanged (see [`recolor`]).
    Save(Option<String>),
}

/// The error shown for a submitted text that names no colour.
pub open spec fn spec_color_error() -> &'static str {
    "Use a colour name or #rrggbb"
}

/// The error shown for a submitted text that names no colour.
pub fn color_error() -> (r: &'static str)
    ensures
        r == spec_color_error(),
{
    "Use a colour name or #rrggbb"
}

/// The outcome, as character sequences, of the prompt's `answer` with
/// `typed` in its input and `chosen` the highlighted row: Esc closes, Enter
/// saves the colour the prompt reads (see [`spec_color_text`]) or, when it
/// reads none, reports the error and keeps the prompt open.
pub open spec fn spec_finish_color(
    answer: Option<bool>,
    typed: Seq<char>,
    chosen: Option<Seq<char>>,
) -> Option<Option<Option<Option<Seq<char>>>>> {
    match answer {
        None => None,
        Some(false) => Some(None),
        Some(true) => Some(Some(spec_color_text(typed, chosen))),
    }
}

/// The outcome of the colour prompt's `answer` (see [`spec_finish_color`]:
/// `None` is [`ColorOutcome::Open`], `Some(None)` [`ColorOutcome::Closed`],
/// `Some(Some(None))` [`ColorOutcome::Invalid`], and `Some(Some(Some(c)))`
/// [`ColorOutcome::Save`] of `c`).
pub fn finish_color(answer: Option<bool>, typed: &str, chosen: Option<&str>) -> (r: ColorOutcome)
    ensures
        ({
            let chosen_view = match chosen {
                Some(c) => Some(c@),
                None => None,
            };
            match spec_finish_color(answer, typed@, chosen_view) {
                None => r == ColorOutcome::Open,
                Some(None) => r == ColorOutcome::Closed,
                Some(Some(None)) => r == ColorOutcome::Invalid,
                Some(Some(Some(None))) => r == ColorOutcome::Save(None),
                Some(Some(Some(Some(c)))) => r matches ColorOutcome::Save(Some(s)) && s@ == c,
            }
        }),
{
    match answer {
        None => ColorOutcome::Open,
        Some(false) => ColorOutcome::Closed,
        Some(true) => match color_text(typed, chosen) {
            None => ColorOutcome::Invalid,
            Some(c) => ColorOutcome::Save(c),
        },
    }
}

/// A stored preset, as the colour prompt rewrites it.
#[derive(Debug, Clone)]
pub struct PresetRecord {
    pub name: String,
    pub description: Option<String>,
    pub color: Option<String>,
    pub skills: Vec<String>,
}

/// `preset` with the colour `color` and everything else unchanged.
pub fn recolor(preset: PresetRecord, color: Option<String>) -> (r: PresetRecord)
    ensures
        r.name == preset.name,
        r.description == preset.description,
        string_views(r.skills@) == string_views(preset.skills@),
        r.color == color,
{
    PresetRecord { color, ..preset }
}

/// The colour prompt writes only on Enter with a text that names a colour:
/// Esc closes it without writing, and Enter on anything else keeps it open
/// with nothing written; every other key leaves it open.
pub proof fn law_colour_prompt_writes_only_a_colour(key: Key, typed: Seq<char>, chosen: Option<Seq<char>>)
    ensures
        spec_finish_color(spec_prompt_answer(key), typed, chosen) matches Some(Some(Some(_)))
            ==> key == Key::Enter && spec_color_text(typed, chosen) is Some,
        key == Key::Esc ==> spec_finish_color(spec_prompt_answer(key), typed, chosen) == Some(
            None::<Option<Option<Seq<char>>>>,
        ),
        key == Key::Enter && spec_color_text(typed, chosen) is None ==> spec_finish_color(
            spec_prompt_answer(key),
            typed,
            chosen,
        ) == Some(Some(None::<Option<Seq<char>>>)),
        key != Key::Enter && key != Key::Esc ==> spec_finish_color(
            spec_prompt_answer(key),
            typed,
            chosen,
        ) is None,
{
}

/// While the members panel shows a skill preview (it is not ready to act),
/// `x`, Delete and `a` neither remove nor add members: they go to the panel
/// and the page stays as it is.
pub proof fn law_preview_blocks_member_edits(
    page: PresetsPage,
    key: Key,
    matrix_took: bool,
    filter_took: bool,
    panel_back: bool,
)
    requires
        !page.prompt_open,
        !matrix_took,
        page.focus_members,
        !page.focus_tags,
        page.panel_open,
        !page.panel_ready,
        key == Key::Char('x') || key == Key::Delete || key == Key::Char('a'),
    ensures
        spec_presets_key(page, key, Some(matrix_took), Some(filter_took), Some(panel_back)) == (
            page,
            PresetCommand::ToPanel,
        ),
{
}

/// In the tag-group row of the presets page (no prompt open, the matrix
/// declining the key, the row focused), `a` adds the members of the group
/// under the cursor, `x` or Delete removes them and Enter or Space toggles
/// them, the page unchanged but for the focus staying on the row. Whatever
/// the page and the key, adding a group's members is only ever asked for
/// by `a`, removing them only by `x` or Delete, and toggling only by Enter
/// or Space, each for the group under the cursor: adding never removes.
/// Likewise the panel's selected members are added only by `a` and removed
/// only by `x` or Delete.
pub proof fn law_group_keys_add_remove_toggle(
    page: PresetsPage,
    key: Key,
    matrix_took: Option<bool>,
    filter_took: Option<bool>,
    panel_back: Option<bool>,
)
    requires
        presets_page_valid(page),
    ensures
        !page.prompt_open && page.focus_members && page.focus_tags ==> {
            &&& spec_presets_key(page, Key::Char('a'), Some(false), filter_took, panel_back).1
                == PresetCommand::AddGroup(page.tag_cursor)
            &&& spec_presets_key(page, Key::Char('x'), Some(false), filter_took, panel_back).1
                == PresetCommand::RemoveGroup(page.tag_cursor)
            &&& spec_presets_key(page, Key::Delete, Some(false), filter_took, panel_back).1
                == PresetCommand::RemoveGroup(page.tag_cursor)
            &&& spec_presets_key(page, Key::Enter, Some(false), filter_took, panel_back).1
                == PresetCommand::ToggleGroup(page.tag_cursor)
            &&& spec_presets_key(page, Key::Char('a'), Some(false), filter_took, panel_back).0
                == page
        },
        spec_presets_key(page, key, matrix_took, filter_took, panel_back).1 matches PresetCommand::AddGroup(c)
            ==> key == Key::Char('a') && c == page.tag_cursor,
        spec_presets_key(page, key, matrix_took, filter_took, panel_back).1 matches PresetCommand::RemoveGroup(c)
            ==> (key == Key::Char('x') || key == Key::Delete) && c == page.tag_cursor,
        spec_presets_key(page, key, matrix_took, filter_took, panel_back).1 matches PresetCommand::ToggleGroup(c)
            ==> (key == Key::Enter || key == Key::Char(' ')) && c == page.tag_cursor,
        spec_presets_key(page, key, matrix_took, filter_took, panel_back).1 == PresetCommand::AddMembers
            ==> key == Key::Char('a'),
        spec_presets_key(page, key, matrix_took, filter_took, panel_back).1 == PresetCommand::RemoveMembers
            ==> key == Key::Char('x') || key == Key::Delete,
{
}

} // verus!
