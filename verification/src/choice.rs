//! Keyboard focus of the footer shared by staged selection dialogs.
use vstd::prelude::*;

verus! {

/// The keys the dialogs and pages tell apart; every other key is `Other`.
#[derive(Debug, Clone, Copy, PartialEq, Eq, Structural)]
pub enum Key {
    Tab,
    BackTab,
    Up,
    Down,
    Left,
    Right,
    Home,
    End,
    Enter,
    Esc,
    Delete,
    Char(char),
    Other,
}

/// Where the keyboard is in a selection dialog: its list or one of the two
/// footer buttons.
#[derive(Debug, Clone, Copy, PartialEq, Eq, Structural)]
pub enum ChoiceFocus {
    List,
    Apply,
    Cancel,
}

impl Default for ChoiceFocus {
    fn default() -> (r: ChoiceFocus)
        ensures
            r == ChoiceFocus::List,
    {
        ChoiceFocus::List
    }
}

/// What a key did to the footer.
#[derive(Debug, Clone, Copy, PartialEq, Eq, Structural)]
pub enum ChoiceEvent {
    Moved,
    Apply,
    Cancel,
}

/// The focus after `key` and what the dialog is told, when the list is at
/// its last row exactly when `at_end`. Tab and BackTab cycle through list,
/// apply and cancel; Down leaves the list only from its end; Up returns to
/// it; Left and Right switch buttons; Enter and Space press a button. The
/// list keeps every other key (no event); on a button any other key is
/// swallowed as a move.
pub open spec fn spec_choice_step(focus: ChoiceFocus, key: Key, at_end: bool) -> (
    ChoiceFocus,
    Option<ChoiceEvent>,
) {
    let moved = Some(ChoiceEvent::Moved);
    match (key, focus) {
        (Key::Tab, ChoiceFocus::List) | (Key::BackTab, ChoiceFocus::Cancel) => (
            ChoiceFocus::Apply,
            moved,
        ),
        (Key::Tab, ChoiceFocus::Apply) | (Key::BackTab, ChoiceFocus::List) => (
            ChoiceFocus::Cancel,
            moved,
        ),
        (Key::Tab, ChoiceFocus::Cancel) | (Key::BackTab, ChoiceFocus::Apply) => (
            ChoiceFocus::List,
            moved,
        ),
        (Key::Down, ChoiceFocus::List) if at_end => (ChoiceFocus::Apply, moved),
        (Key::Up, ChoiceFocus::Apply) | (Key::Up, ChoiceFocus::Cancel) => (ChoiceFocus::List, moved),
        (Key::Left, ChoiceFocus::Apply) | (Key::Right, ChoiceFocus::Apply) => (
            ChoiceFocus::Cancel,
            moved,
        ),
        (Key::Left, ChoiceFocus::Cancel) | (Key::Right, ChoiceFocus::Cancel) => (
            ChoiceFocus::Apply,
            moved,
        ),
        (Key::Enter, ChoiceFocus::Apply) | (Key::Char(' '), ChoiceFocus::Apply) => (
            focus,
            Some(ChoiceEvent::Apply),
        ),
        (Key::Enter, ChoiceFocus::Cancel) | (Key::Char(' '), ChoiceFocus::Cancel) => (
            focus,
            Some(ChoiceEvent::Cancel),
        ),
        (_, ChoiceFocus::List) => (focus, None),
        _ => (focus, moved),
    }
}

impl ChoiceFocus {
    /// Applies `key` (see [`spec_choice_step`]).
    pub fn key(&mut self, key: Key, at_end: bool) -> (r: Option<ChoiceEvent>)
        ensures
            (*final(self), r) == spec_choice_step(*old(self), key, at_end),
    {
        let next = match (key, *self) {
            (Key::Tab, ChoiceFocus::List) | (Key::BackTab, ChoiceFocus::Cancel) => {
                ChoiceFocus::Apply
            },
            (Key::Tab, ChoiceFocus::Apply) | (Key::BackTab, ChoiceFocus::List) => {
                ChoiceFocus::Cancel
            },
            (Key::Tab, ChoiceFocus::Cancel) | (Key::BackTab, ChoiceFocus::Apply) => {
                ChoiceFocus::List
            },
            (Key::Down, ChoiceFocus::List) if at_end => ChoiceFocus::Apply,
            (Key::Up, ChoiceFocus::Apply) | (Key::Up, ChoiceFocus::Cancel) => ChoiceFocus::List,
            (Key::Left, ChoiceFocus::Apply) | (Key::Right, ChoiceFocus::Apply) => {
                ChoiceFocus::Cancel
            },
            (Key::Left, ChoiceFocus::Cancel) | (Key::Right, ChoiceFocus::Cancel) => {
                ChoiceFocus::Apply
            },
            (Key::Enter, ChoiceFocus::Apply) | (Key::Char(' '), ChoiceFocus::Apply) => {
                return Some(ChoiceEvent::Apply);
            },
            (Key::Enter, ChoiceFocus::Cancel) | (Key::Char(' '), ChoiceFocus::Cancel) => {
                return Some(ChoiceEvent::Cancel);
            },
            (_, ChoiceFocus::List) => {
                return None;
            },
            _ => {
                return Some(ChoiceEvent::Moved);
            },
        };
        *self = next;
        Some(ChoiceEvent::Moved)
    }
}

/// No key pressed while the list has the focus applies or cancels the
/// dialog: a decision always passes through a focused button.
pub proof fn law_list_never_decides(key: Key, at_end: bool)
    ensures
        spec_choice_step(ChoiceFocus::List, key, at_end).1 != Some(ChoiceEvent::Apply),
        spec_choice_step(ChoiceFocus::List, key, at_end).1 != Some(ChoiceEvent::Cancel),
{
}

/// Tab visits the list, apply and cancel in a cycle of three; BackTab undoes
/// one Tab.
pub proof fn law_tab_cycles(focus: ChoiceFocus, at_end: bool)
    ensures
        spec_choice_step(
            spec_choice_step(spec_choice_step(focus, Key::Tab, at_end).0, Key::Tab, at_end).0,
            Key::Tab,
            at_end,
        ).0 == focus,
        spec_choice_step(spec_choice_step(focus, Key::Tab, at_end).0, Key::BackTab, at_end).0
            == focus,
        spec_choice_step(focus, Key::Tab, at_end).0 != focus,
{
}

/// Pressing a button reports it and leaves the focus where it is.
pub proof fn law_press_keeps_focus(focus: ChoiceFocus, at_end: bool)
    ensures
        spec_choice_step(focus, Key::Enter, at_end).0 == focus,
        focus == ChoiceFocus::Apply ==> spec_choice_step(focus, Key::Enter, at_end).1 == Some(
            ChoiceEvent::Apply,
        ),
        focus == ChoiceFocus::Cancel ==> spec_choice_step(focus, Key::Enter, at_end).1 == Some(
            ChoiceEvent::Cancel,
        ),
{
}

/// How a footer button is drawn: its label; whether it has the focus,
/// drawn in the selection style and bold; and whether it is greyed out as
/// unavailable.
#[derive(Debug, Clone, Copy, PartialEq, Eq)]
pub struct ButtonLook {
    pub label: &'static str,
    pub focused: bool,
    pub greyed: bool,
}

/// The look of footer button `i` (0 applies, 1 cancels) under `focus`:
/// only the focused button is emphasised, and apply is greyed out while
/// nothing can be applied.
pub open spec fn spec_button_look(i: int, focus: ChoiceFocus, enabled: bool) -> ButtonLook {
    if i == 0 {
        ButtonLook { label: "[ ✓ Apply ]", focused: focus == ChoiceFocus::Apply, greyed: !enabled }
    } else {
        ButtonLook { label: "[ Cancel ]", focused: focus == ChoiceFocus::Cancel, greyed: false }
    }
}

/// The looks of the apply and cancel buttons (see [`spec_button_look`]).
pub fn footer_looks(focus: ChoiceFocus, enabled: bool) -> (r: (ButtonLook, ButtonLook))
    ensures
        r.0 == spec_button_look(0, focus, enabled),
        r.1 == spec_button_look(1, focus, enabled),
        !(r.0.focused && r.1.focused),
{
    let apply = ButtonLook {
        label: "[ ✓ Apply ]",
        focused: focus == ChoiceFocus::Apply,
        greyed: !enabled,
    };
    let cancel = ButtonLook { label: "[ Cancel ]", focused: focus == ChoiceFocus::Cancel, greyed: false };
    (apply, cancel)
}

} // verus!
