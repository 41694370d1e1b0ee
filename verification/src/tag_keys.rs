//! How the tags page answers a key press.
//!
//! A key goes to an open prompt first, then, while the members of a tag have
//! the focus, to their panel, otherwise to the filter, and only then to the
//! list of tags. The caller owns the prompt, the panel, the filter and the
//! list; it asks the panel or the filter when [`tags_key`] says so and calls
//! again with the answer.
use crate::choice::Key;
use vstd::prelude::*;

verus! {

/// What the tags page knows about itself when a key arrives.
#[derive(Debug, Clone, Copy, PartialEq, Eq, Structural)]
pub struct TagsPage {
    /// A prompt (a colour or a name) is open.
    pub prompt_open: bool,
    /// The members of the selected tag have the focus.
    pub members_focused: bool,
    /// The members panel exists.
    pub panel_open: bool,
    /// The members panel can act on its selection.
    pub panel_ready: bool,
    /// No modifier key is held.
    pub plain: bool,
    /// The row under the cursor, if any.
    pub selected: Option<usize>,
    /// How many members the selected tag lists.
    pub members: usize,
    /// The row under the cursor is a tag that can be edited (not the row of
    /// untagged skills).
    pub actionable: bool,
}

/// What the caller must find out before the key is settled.
#[derive(Debug, Clone, Copy, PartialEq, Eq, Structural)]
pub enum Question {
    /// Whether the members panel takes a Left as a step back out of it.
    PanelBack,
    /// Whether the filter takes the key.
    Filter,
}

/// What the tags page does with a key.
#[derive(Debug, Clone, Copy, PartialEq, Eq, Structural)]
pub enum TagCommand {
    /// Give the key to the open prompt.
    ToPrompt,
    /// Ask first, then call again with the answer.
    Ask(Question),
    /// Move the focus back to the list of tags.
    LeaveMembers,
    /// Remove the members selected in the panel from the tag.
    RemoveMembers,
    /// Open the search to add members to the tag.
    AddMembers,
    /// Give the key to the members panel.
    ToPanel,
    /// The filter took the key: filter the list again.
    Refilter,
    /// Go back to the search page.
    SwitchToSearch,
    /// Move the cursor down one row, then show that tag's members.
    Down,
    /// Move the cursor up one row, then show that tag's members.
    Up,
    /// Move the cursor to the first row, then show that tag's members.
    First,
    /// Move the cursor to the last row, then show that tag's members.
    Last,
    /// Up from the first row: start editing the filter.
    EditFilter,
    /// Move the focus to the members of the tag.
    FocusMembers,
    /// Ask for a new name of the tag.
    Rename,
    /// Ask which tag to merge this one into.
    Merge,
    /// Ask for the name of a new tag.
    NewTag,
    /// Ask for a description of the tag.
    Describe,
    /// Ask for a colour of the tag.
    AskColor,
    /// Ask to confirm deleting the tag.
    DeleteTag,
    /// Nothing happens.
    Nothing,
}

/// A command that acts on the selected tag: given only when there is one to
/// act on.
pub open spec fn on_tag(page: TagsPage, command: TagCommand) -> TagCommand {
    if page.actionable {
        command
    } else {
        TagCommand::Nothing
    }
}

/// The command for a key that reached the list of tags.
pub open spec fn spec_list_key(page: TagsPage, key: Key) -> TagCommand {
    match key {
        Key::Char('q') | Key::Esc => TagCommand::SwitchToSearch,
        Key::Down | Key::Char('j') => TagCommand::Down,
        Key::Up | Key::Char('k') => if page.selected is None || page.selected == Some(0usize) {
            TagCommand::EditFilter
        } else {
            TagCommand::Up
        },
        Key::Home | Key::Char('g') => TagCommand::First,
        Key::End | Key::Char('G') => TagCommand::Last,
        Key::Enter | Key::Right | Key::Char('l') => if page.members > 0 {
            TagCommand::FocusMembers
        } else {
            TagCommand::Nothing
        },
        Key::Char('r') => on_tag(page, TagCommand::Rename),
        Key::Char('m') => on_tag(page, TagCommand::Merge),
        Key::Char('c') => TagCommand::NewTag,
        Key::Char('a') => on_tag(page, TagCommand::AddMembers),
        Key::Char('e') => on_tag(page, TagCommand::Describe),
        Key::Char('C') => on_tag(page, TagCommand::AskColor),
        Key::Char('D') | Key::Char('x') | Key::Delete => on_tag(page, TagCommand::DeleteTag),
        _ => TagCommand::Nothing,
    }
}

/// The command for `key` on the tags page, given the answers the caller
/// has so far: `panel_back` to [`Question::PanelBack`] and `filter_took` to
/// [`Question::Filter`].
///
/// An open prompt takes every key. While the members have the focus and
/// their panel is open, Left first asks the panel whether it steps back out
/// (then the focus leaves the members); `x` or Delete removes and `a` adds
/// members when the panel is ready and no modifier is held; any other key
/// goes to the panel. Otherwise, unless the members have the focus, the
/// filter is asked first and a key it takes filters again; the rest reaches
/// the list.
pub open spec fn spec_tags_key(
    page: TagsPage,
    key: Key,
    panel_back: Option<bool>,
    filter_took: Option<bool>,
) -> TagCommand {
    if page.prompt_open {
        TagCommand::ToPrompt
    } else if page.members_focused && page.panel_open {
        if key == Key::Left && panel_back is None {
            TagCommand::Ask(Question::PanelBack)
        } else if key == Key::Left && panel_back == Some(true) {
            TagCommand::LeaveMembers
        } else if page.panel_ready && page.plain && (key == Key::Char('x') || key == Key::Delete) {
            on_tag(page, TagCommand::RemoveMembers)
        } else if page.panel_ready && page.plain && key == Key::Char('a') {
            on_tag(page, TagCommand::AddMembers)
        } else {
            TagCommand::ToPanel
        }
    } else if !page.members_focused && filter_took is None {
        TagCommand::Ask(Question::Filter)
    } else if !page.members_focused && filter_took == Some(true) {
        TagCommand::Refilter
    } else {
        spec_list_key(page, key)
    }
}

fn on_selected_tag(page: TagsPage, command: TagCommand) -> (r: TagCommand)
    ensures
        r == on_tag(page, command),
{
    if page.actionable {
        command
    } else {
        TagCommand::Nothing
    }
}

fn list_key(page: TagsPage, key: Key) -> (r: TagCommand)
    ensures
        r == spec_list_key(page, key),
{
    match key {
        Key::Char('q') | Key::Esc => TagCommand::SwitchToSearch,
        Key::Down | Key::Char('j') => TagCommand::Down,
        Key::Up | Key::Char('k') => match page.selected {
            None => TagCommand::EditFilter,
            Some(row) => if row == 0 {
                TagCommand::EditFilter
            } else {
                TagCommand::Up
            },
        },
        Key::Home | Key::Char('g') => TagCommand::First,
        Key::End | Key::Char('G') => TagCommand::Last,
        Key::Enter | Key::Right | Key::Char('l') => if page.members > 0 {
            TagCommand::FocusMembers
        } else {
            TagCommand::Nothing
        },
        Key::Char('r') => on_selected_tag(page, TagCommand::Rename),
        Key::Char('m') => on_selected_tag(page, TagCommand::Merge),
        Key::Char('c') => TagCommand::NewTag,
        Key::Char('a') => on_selected_tag(page, TagCommand::AddMembers),
        Key::Char('e') => on_selected_tag(page, TagCommand::Describe),
        Key::Char('C') => on_selected_tag(page, TagCommand::AskColor),
        Key::Char('D') | Key::Char('x') | Key::Delete => on_selected_tag(
            page,
            TagCommand::DeleteTag,
        ),
        _ => TagCommand::Nothing,
    }
}

/// The command for `key` on the tags page (see [`spec_tags_key`]).
pub fn tags_key(page: TagsPage, key: Key, panel_back: Option<bool>, filter_took: Option<bool>) -> (r:
    TagCommand)
    ensures
        r == spec_tags_key(page, key, panel_back, filter_took),
{
    if page.prompt_open {
        return TagCommand::ToPrompt;
    }
    if page.members_focused && page.panel_open {
        let left = matches!(key, Key::Left);
        if left {
            match panel_back {
                None => {
                    return TagCommand::Ask(Question::PanelBack);
                },
                Some(true) => {
                    return TagCommand::LeaveMembers;
                },
                Some(false) => {},
            }
        }
        if page.panel_ready && page.plain {
            if matches!(key, Key::Char('x') | Key::Delete) {
                return on_selected_tag(page, TagCommand::RemoveMembers);
            }
            if matches!(key, Key::Char('a')) {
                return on_selected_tag(page, TagCommand::AddMembers);
            }
        }
        return TagCommand::ToPanel;
    }
    if !page.members_focused {
        match filter_took {
            None => {
                return TagCommand::Ask(Question::Filter);
            },
            Some(true) => {
                return TagCommand::Refilter;
            },
            Some(false) => {},
        }
    }
    list_key(page, key)
}

/// Every key is settled after at most two questions: a key never asks the
/// same question again once it is answered, and it asks about the filter
/// only when it has not gone to the prompt or the members panel.
pub proof fn law_tags_key_settles(page: TagsPage, key: Key, panel_back: bool, filter_took: bool)
    ensures
        !(spec_tags_key(page, key, Some(panel_back), Some(filter_took)) is Ask),
        spec_tags_key(page, key, None, None) == TagCommand::Ask(Question::Filter) ==> !page.prompt_open
            && !page.members_focused,
        spec_tags_key(page, key, Some(panel_back), None) matches TagCommand::Ask(q) ==> q
            == Question::Filter,
{
}

/// On the list of tags (no prompt open, the members not focused, the filter
/// declining the key), with an editable tag under the cursor, each command
/// key asks for its own action: `r` renames, `m` merges, `a` adds members,
/// `e` describes, `C` colours, `D`, `x` or Delete deletes, `c` creates a
/// tag. And whatever the page and the key, a rename is only ever asked for
/// by `r`, a merge only by `m`, deleting only by `D`, `x` or Delete, adding
/// members only by `a` and removing members only by `x` or Delete.
pub proof fn law_each_key_its_own_command(
    page: TagsPage,
    key: Key,
    panel_back: Option<bool>,
    filter_took: Option<bool>,
)
    ensures
        !page.prompt_open && !page.members_focused && page.actionable ==> {
            &&& spec_tags_key(page, Key::Char('r'), panel_back, Some(false)) == TagCommand::Rename
            &&& spec_tags_key(page, Key::Char('m'), panel_back, Some(false)) == TagCommand::Merge
            &&& spec_tags_key(page, Key::Char('a'), panel_back, Some(false)) == TagCommand::AddMembers
            &&& spec_tags_key(page, Key::Char('e'), panel_back, Some(false)) == TagCommand::Describe
            &&& spec_tags_key(page, Key::Char('C'), panel_back, Some(false)) == TagCommand::AskColor
            &&& spec_tags_key(page, Key::Char('D'), panel_back, Some(false)) == TagCommand::DeleteTag
            &&& spec_tags_key(page, Key::Char('x'), panel_back, Some(false)) == TagCommand::DeleteTag
            &&& spec_tags_key(page, Key::Delete, panel_back, Some(false)) == TagCommand::DeleteTag
            &&& spec_tags_key(page, Key::Char('c'), panel_back, Some(false)) == TagCommand::NewTag
        },
        spec_tags_key(page, key, panel_back, filter_took) == TagCommand::Rename ==> key == Key::Char('r'),
        spec_tags_key(page, key, panel_back, filter_took) == TagCommand::Merge ==> key == Key::Char('m'),
        spec_tags_key(page, key, panel_back, filter_took) == TagCommand::DeleteTag ==> key == Key::Char(
            'D',
        ) || key == Key::Char('x') || key == Key::Delete,
        spec_tags_key(page, key, panel_back, filter_took) == TagCommand::AddMembers ==> key == Key::Char(
            'a',
        ),
        spec_tags_key(page, key, panel_back, filter_took) == TagCommand::RemoveMembers ==> key
            == Key::Char('x') || key == Key::Delete,
{
}

} // verus!
