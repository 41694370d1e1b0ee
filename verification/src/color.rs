//! Terminal colours, the theme's named colours, and the opaque fills of labels.
use crate::text::contains_seq;
use ratatui::style::Color as TermColor;
use vstd::prelude::*;

verus! {

/// A terminal colour: one of the sixteen ANSI colours, the terminal's own
/// default (`Reset`), a 24-bit colour, or an entry of the 256-colour table.
#[derive(Debug, Clone, Copy, PartialEq, Eq, Structural)]
pub enum Color {
    Reset,
    Black,
    Red,
    Green,
    Yellow,
    Blue,
    Magenta,
    Cyan,
    Gray,
    DarkGray,
    LightRed,
    LightGreen,
    LightYellow,
    LightBlue,
    LightMagenta,
    LightCyan,
    White,
    Rgb(u8, u8, u8),
    Indexed(u8),
}

/// What `ratatui`'s `Color::from_str` makes of `text`, if it names a colour.
pub uninterp spec fn parsed_color(text: Seq<char>) -> Option<Color>;

/// The value of a hexadecimal digit, or -1.
pub open spec fn hex_digit(c: char) -> int {
    if '0' <= c && c <= '9' {
        c as int - '0' as int
    } else if 'a' <= c && c <= 'f' {
        c as int - 'a' as int + 10
    } else if 'A' <= c && c <= 'F' {
        c as int - 'A' as int + 10
    } else {
        -1
    }
}

/// `#` followed by six hexadecimal digits.
pub open spec fn is_hex_color(text: Seq<char>) -> bool {
    text.len() == 7 && text[0] == '#' && forall|i: int| 1 <= i < 7 ==> #[trigger] hex_digit(text[i]) >= 0
}

/// The byte written by the two hexadecimal digits at `at`.
pub open spec fn hex_byte(text: Seq<char>, at: int) -> u8 {
    (hex_digit(text[at]) * 16 + hex_digit(text[at + 1])) as u8
}

/// The value of a string of decimal digits.
pub open spec fn decimal_value(text: Seq<char>) -> int
    decreases text.len(),
{
    if text.len() == 0 {
        0
    } else {
        decimal_value(text.drop_last()) * 10 + (text.last() as int - '0' as int)
    }
}

/// A non-empty string of decimal digits.
pub open spec fn is_decimal(text: Seq<char>) -> bool {
    text.len() > 0 && forall|i: int| 0 <= i < text.len() ==> '0' <= #[trigger] text[i] && text[i] <= '9'
}

/// The colour a lower-case colour name without separators names.
pub open spec fn named_color(text: Seq<char>) -> Option<Color> {
    if text == "reset"@ { Some(Color::Reset) }
    else if text == "black"@ { Some(Color::Black) }
    else if text == "red"@ { Some(Color::Red) }
    else if text == "green"@ { Some(Color::Green) }
    else if text == "yellow"@ { Some(Color::Yellow) }
    else if text == "blue"@ { Some(Color::Blue) }
    else if text == "magenta"@ { Some(Color::Magenta) }
    else if text == "cyan"@ { Some(Color::Cyan) }
    else if text == "gray"@ { Some(Color::Gray) }
    else if text == "darkgray"@ { Some(Color::DarkGray) }
    else if text == "lightred"@ { Some(Color::LightRed) }
    else if text == "lightgreen"@ { Some(Color::LightGreen) }
    else if text == "lightyellow"@ { Some(Color::LightYellow) }
    else if text == "lightblue"@ { Some(Color::LightBlue) }
    else if text == "lightmagenta"@ { Some(Color::LightMagenta) }
    else if text == "lightcyan"@ { Some(Color::LightCyan) }
    else if text == "white"@ { Some(Color::White) }
    else { None }
}

/// A space, `-` or `_`, which colour names may hold anywhere.
pub open spec fn is_separator(c: char) -> bool {
    c == ' ' || c == '-' || c == '_'
}

/// Text made of lower-case ASCII letters and separators only.
pub open spec fn is_lower_word(text: Seq<char>) -> bool {
    forall|i: int| 0 <= i < text.len() ==> ('a' <= #[trigger] text[i] && text[i] <= 'z') || is_separator(text[i])
}

/// The text without its separators.
pub open spec fn without_separators(text: Seq<char>) -> Seq<char> {
    text.filter(|c: char| !is_separator(c))
}

/// Whether the text holds one of the alternative spellings that colour
/// names are rewritten from (`bright`, `grey`, `silver`, `lightblack`,
/// `lightwhite`, `lightgray`).
pub open spec fn has_alias(text: Seq<char>) -> bool {
    contains_seq(text, "bright"@) || contains_seq(text, "grey"@) || contains_seq(text, "silver"@)
        || contains_seq(text, "lightblack"@) || contains_seq(text, "lightwhite"@) || contains_seq(
        text,
        "lightgray"@,
    )
}

/// `ratatui::style::Color::from_str`: the colour `text` names (a colour
/// name, a table index or `#rrggbb`), carried over variant by variant.
/// Claimed: the result is [`parsed_color`] of the text; a lower-case colour
/// name without separators gives its colour, decimal digits worth at most
/// 255 give that entry of the colour table, and `#` with six hexadecimal
/// digits gives that 24-bit colour; lower-case letters and separators
/// that, without the separators and with no alternative spelling, name no
/// colour give none. The other spellings it accepts (upper case, `grey`,
/// `bright`, a `+` sign) are left to the name.
#[verifier::external_body]
pub(crate) fn parse_color(text: &str) -> (r: Option<Color>)
    ensures
        r == parsed_color(text@),
        named_color(text@) is Some ==> r == named_color(text@),
        is_decimal(text@) && decimal_value(text@) <= 255 ==> r == Some(
            Color::Indexed(decimal_value(text@) as u8),
        ),
        is_hex_color(text@) ==> r == Some(
            Color::Rgb(hex_byte(text@, 1), hex_byte(text@, 3), hex_byte(text@, 5)),
        ),
        r == parsed_color(text@) && (is_lower_word(text@) && !has_alias(without_separators(text@))
            ==> r == named_color(without_separators(text@))),
{
    Some(match text.parse::<TermColor>().ok()? {
        TermColor::Reset => Color::Reset, TermColor::Black => Color::Black,
        TermColor::Red => Color::Red, TermColor::Green => Color::Green,
        TermColor::Yellow => Color::Yellow, TermColor::Blue => Color::Blue,
        TermColor::Magenta => Color::Magenta, TermColor::Cyan => Color::Cyan,
        TermColor::Gray => Color::Gray, TermColor::DarkGray => Color::DarkGray,
        TermColor::LightRed => Color::LightRed, TermColor::LightGreen => Color::LightGreen,
        TermColor::LightYellow => Color::LightYellow, TermColor::LightBlue => Color::LightBlue,
        TermColor::LightMagenta => Color::LightMagenta, TermColor::LightCyan => Color::LightCyan,
        TermColor::White => Color::White, TermColor::Rgb(r, g, b) => Color::Rgb(r, g, b),
        TermColor::Indexed(i) => Color::Indexed(i),
    })
}

/// The parsed colour when there is one, else `fallback`.
pub fn choose_color(parsed: Option<Color>, fallback: Color) -> (r: Color)
    ensures
        r == (match parsed {
            Some(c) => c,
            None => fallback,
        }),
{
    match parsed {
        Some(c) => c,
        None => fallback,
    }
}

/// The colours every view draws with.
#[derive(Debug, Clone, Copy, PartialEq, Eq, Structural)]
pub struct Theme {
    pub accent: Color,
    pub dim: Color,
    pub placeholder: Color,
    pub usage: Color,
    pub source: Color,
    pub skill_count: Color,
    pub selection_bg: Color,
    pub ok: Color,
    pub warn: Color,
    pub err: Color,
    pub tag: Color,
    pub border: Color,
    pub border_focus: Color,
    /// Search matches, painted like a highlighter pen.
    pub match_bg: Color,
    pub match_fg: Color,
}

/// The default theme.
pub open spec fn default_theme() -> Theme {
    Theme {
        accent: Color::Cyan,
        dim: Color::Reset,
        placeholder: Color::Rgb(140, 140, 140),
        usage: Color::Rgb(184, 126, 84),
        source: Color::Rgb(155, 137, 172),
        skill_count: Color::Rgb(155, 137, 172),
        selection_bg: Color::Rgb(44, 50, 60),
        ok: Color::Green,
        warn: Color::Yellow,
        err: Color::Red,
        tag: Color::Rgb(140, 140, 140),
        border: Color::DarkGray,
        border_focus: Color::Cyan,
        match_bg: Color::Rgb(255, 214, 79),
        match_fg: Color::Rgb(24, 24, 24),
    }
}

impl Default for Theme {
    fn default() -> (r: Theme)
        ensures
            r == default_theme(),
    {
        Theme {
            accent: Color::Cyan,
            dim: Color::Reset,
            placeholder: Color::Rgb(140, 140, 140),
            usage: Color::Rgb(184, 126, 84),
            source: Color::Rgb(155, 137, 172),
            skill_count: Color::Rgb(155, 137, 172),
            selection_bg: Color::Rgb(44, 50, 60),
            ok: Color::Green,
            warn: Color::Yellow,
            err: Color::Red,
            tag: Color::Rgb(140, 140, 140),
            border: Color::DarkGray,
            border_focus: Color::Cyan,
            match_bg: Color::Rgb(255, 214, 79),
            match_fg: Color::Rgb(24, 24, 24),
        }
    }
}

/// The fill of each of the sixteen ANSI colours in a label. Labels own their
/// palette: a terminal may remap ANSI colours, which would make a computed
/// foreground wrong after a theme switch.
pub open spec fn palette(i: int) -> (u8, u8, u8) {
    if i == 0 {
        (32, 36, 44)
    } else if i == 1 {
        (196, 72, 72)
    } else if i == 2 {
        (112, 168, 88)
    } else if i == 3 {
        (224, 184, 80)
    } else if i == 4 {
        (112, 160, 224)
    } else if i == 5 {
        (192, 144, 200)
    } else if i == 6 {
        (88, 176, 184)
    } else if i == 7 {
        (208, 212, 220)
    } else if i == 8 {
        (96, 104, 116)
    } else if i == 9 {
        (240, 128, 128)
    } else if i == 10 {
        (156, 208, 128)
    } else if i == 11 {
        (248, 216, 128)
    } else if i == 12 {
        (156, 192, 248)
    } else if i == 13 {
        (224, 176, 232)
    } else if i == 14 {
        (144, 216, 224)
    } else {
        (248, 248, 248)
    }
}

fn palette_entry(i: u8) -> (r: (u8, u8, u8))
    requires
        i < 16,
    ensures
        r == palette(i as int),
{
    match i {
        0 => (32, 36, 44),
        1 => (196, 72, 72),
        2 => (112, 168, 88),
        3 => (224, 184, 80),
        4 => (112, 160, 224),
        5 => (192, 144, 200),
        6 => (88, 176, 184),
        7 => (208, 212, 220),
        8 => (96, 104, 116),
        9 => (240, 128, 128),
        10 => (156, 208, 128),
        11 => (248, 216, 128),
        12 => (156, 192, 248),
        13 => (224, 176, 232),
        14 => (144, 216, 224),
        _ => (248, 248, 248),
    }
}

/// The ANSI number of a named colour; the terminal default counts as gray.
pub open spec fn ansi_number(c: Color) -> int {
    match c {
        Color::Black => 0,
        Color::Red => 1,
        Color::Green => 2,
        Color::Yellow => 3,
        Color::Blue => 4,
        Color::Magenta => 5,
        Color::Cyan => 6,
        Color::Gray => 7,
        Color::DarkGray => 8,
        Color::LightRed => 9,
        Color::LightGreen => 10,
        Color::LightYellow => 11,
        Color::LightBlue => 12,
        Color::LightMagenta => 13,
        Color::LightCyan => 14,
        Color::White => 15,
        _ => 7,
    }
}

/// The six intensities of each channel in the 6×6×6 colour cube.
pub open spec fn cube_level(k: int) -> u8 {
    if k == 0 {
        0
    } else if k == 1 {
        95
    } else if k == 2 {
        135
    } else if k == 3 {
        175
    } else if k == 4 {
        215
    } else {
        255
    }
}

fn cube_level_of(k: u8) -> (r: u8)
    requires
        k < 6,
    ensures
        r == cube_level(k as int),
{
    match k {
        0 => 0,
        1 => 95,
        2 => 135,
        3 => 175,
        4 => 215,
        _ => 255,
    }
}

/// The theme's default fills of the sixteen ANSI colours.
pub fn default_pill_palette() -> (r: Vec<(u8, u8, u8)>)
    ensures
        r@.len() == 16,
        forall|i: int| 0 <= i < 16 ==> #[trigger] r@[i] == palette(i),
{
    let mut out: Vec<(u8, u8, u8)> = Vec::new();
    let mut i: u8 = 0;
    while i < 16
        invariant
            i <= 16,
            out@.len() == i,
            forall|j: int| 0 <= j < i ==> #[trigger] out@[j] == palette(j),
        decreases 16 - i,
    {
        out.push(palette_entry(i));
        i = i + 1;
    }
    out
}

/// The 24-bit colour a label is filled with: 24-bit colours stay, ANSI
/// colours (and the first sixteen table entries) take the theme's palette
/// `fills`, the table's gray ramp and colour cube take their standard
/// values.
pub open spec fn spec_pill_fill(c: Color, fills: Seq<(u8, u8, u8)>) -> Color {
    match c {
        Color::Rgb(_, _, _) => c,
        Color::Indexed(i) => if i < 16 {
            let (r, g, b) = fills[i as int];
            Color::Rgb(r, g, b)
        } else if i >= 232 {
            let v = (8 + (i - 232) * 10) as u8;
            Color::Rgb(v, v, v)
        } else {
            let k = i - 16;
            Color::Rgb(cube_level(k / 36), cube_level((k / 6) % 6), cube_level(k % 6))
        },
        _ => {
            let (r, g, b) = fills[ansi_number(c)];
            Color::Rgb(r, g, b)
        },
    }
}

/// The opaque 24-bit fill of a label drawn in `color` with the theme's
/// palette `fills` (see [`spec_pill_fill`]).
pub fn pill_fill(color: Color, fills: &[(u8, u8, u8)]) -> (r: Color)
    requires
        fills@.len() == 16,
    ensures
        r == spec_pill_fill(color, fills@),
        r is Rgb,
{
    let index: u8 = match color {
        Color::Black => 0,
        Color::Red => 1,
        Color::Green => 2,
        Color::Yellow => 3,
        Color::Blue => 4,
        Color::Magenta => 5,
        Color::Cyan => 6,
        Color::Gray => 7,
        Color::DarkGray => 8,
        Color::LightRed => 9,
        Color::LightGreen => 10,
        Color::LightYellow => 11,
        Color::LightBlue => 12,
        Color::LightMagenta => 13,
        Color::LightCyan => 14,
        Color::White => 15,
        Color::Reset => 7,
        Color::Rgb(_, _, _) => {
            return color;
        },
        Color::Indexed(i) => {
            if i < 16 {
                i
            } else if i >= 232 {
                let v: u8 = 8 + (i - 232) * 10;
                return Color::Rgb(v, v, v);
            } else {
                let k: u8 = i - 16;
                return Color::Rgb(cube_level_of(k / 36), cube_level_of((k / 6) % 6), cube_level_of(k % 6));
            }
        },
    };
    let (r, g, b) = fills[index as usize];
    Color::Rgb(r, g, b)
}

} // verus!
