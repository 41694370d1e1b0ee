//! Labels drawn as pills: a capsule with a name, and for a tag group the
//! share of its skills that a preset holds. Tag and preset badges, rows of
//! tag pills, the rows and preview of the group prompt, and group cards are
//! made of them.
use crate::compact::{spaces, spec_pad};
use crate::download::{decimal, decimal_string};
use crate::group::{coverage_mark, has_text, Ask, Kind};
use crate::icons::{preset_caps, spec_preset_caps, Icons};
use crate::install::string_views;
use crate::summary::{
    fitting, fitting_prefix, flat, graphemes, graphemes_of, markdown_lines, rendered_lines, text_width,
    width,
};
use crate::text::{chars_of, concat, join, join_from, string_of, views};
use vstd::prelude::*;

verus! {

/// The mark before a coverage count (see [`coverage_mark`]).
pub open spec fn spec_coverage_mark(installed: usize, total: usize) -> Seq<char> {
    if total == 0 {
        "◦ "@
    } else if installed == total {
        "✓ "@
    } else if installed == 0 {
        "◌ "@
    } else {
        "◐ "@
    }
}

/// The mark and the count a pill shows for a coverage: a mark and
/// ` installed/total`, or nothing without one.
pub open spec fn coverage_parts(coverage: Option<(usize, usize)>) -> (Seq<char>, Seq<char>) {
    match coverage {
        Some((installed, total)) => (
            spec_coverage_mark(installed, total),
            seq![' '] + decimal(installed as nat) + seq!['/'] + decimal(total as nat),
        ),
        None => (Seq::empty(), Seq::empty()),
    }
}

/// The caps, body and right cap of a pill in at most `max_width` columns:
/// nothing when the caps, the mark, the count and the two spaces of the
/// body do not fit; else the body is a space, the mark, the graphemes of
/// the name that fit in the room left, the count and a space.
pub open spec fn spec_pill_text(
    name: Seq<char>,
    coverage: Option<(usize, usize)>,
    left: Seq<char>,
    right: Seq<char>,
    max_width: int,
) -> Option<(Seq<char>, Seq<char>, Seq<char>)> {
    let (mark, count) = coverage_parts(coverage);
    let fixed = text_width(left) + text_width(right) + text_width(mark) + text_width(count) + 2;
    if max_width < fixed {
        None
    } else {
        let gs = graphemes_of(name);
        let shown = flat(gs, fitting(gs, max_width - fixed, 0, 0));
        Some((left, seq![' '] + mark + shown + count + seq![' '], right))
    }
}

/// The text views of a pill.
pub open spec fn pill_view(r: Option<(String, String, String)>) -> Option<(Seq<char>, Seq<char>, Seq<char>)> {
    match r {
        Some((a, b, c)) => Some((a@, b@, c@)),
        None => None,
    }
}

/// `a + b`, when `a` is known and the sum fits.
fn add_known(a: Option<usize>, b: usize) -> (r: Option<usize>)
    ensures
        r == (match a {
            Some(x) => if x + b <= usize::MAX {
                Some((x + b) as usize)
            } else {
                None
            },
            None => None,
        }),
{
    match a {
        Some(x) => if x > usize::MAX - b {
            None
        } else {
            Some(x + b)
        },
        None => None,
    }
}

/// The text of a pill named `name` with its caps `left` and `right` (see
/// [`spec_pill_text`]).
pub fn pill_text(
    name: &str,
    coverage: Option<(usize, usize)>,
    left: &str,
    right: &str,
    max_width: usize,
) -> (r: Option<(String, String, String)>)
    ensures
        pill_view(r) == spec_pill_text(name@, coverage, left@, right@, max_width as int),
{
    let (mark, count): (Vec<char>, Vec<char>) = match coverage {
        Some((installed, total)) => {
            let mark = chars_of(coverage_mark(installed, total));
            let a = concat(chars_of(" ").as_slice(), chars_of(decimal_string(installed as u64).as_str()).as_slice());
            let b = concat(a.as_slice(), chars_of("/").as_slice());
            let c = concat(b.as_slice(), chars_of(decimal_string(total as u64).as_str()).as_slice());
            (mark, c)
        },
        None => (Vec::new(), Vec::new()),
    };
    proof {
        reveal_strlit(" ");
        reveal_strlit("/");
        let (m, n) = coverage_parts(coverage);
        if let Some((installed, total)) = coverage {
            assert(installed as u64 as nat == installed as nat);
            assert(total as u64 as nat == total as nat);
        }
        assert(mark@ == m);
        assert(count@ == n);
    }
    let mark_text = string_of(mark.as_slice());
    let count_text = string_of(count.as_slice());
    let w1 = width(left);
    let w2 = width(right);
    let w3 = width(mark_text.as_str());
    let w4 = width(count_text.as_str());
    let fixed = match add_known(add_known(add_known(add_known(Some(w1), w2), w3), w4), 2) {
        Some(f) => f,
        None => {
            return None;
        },
    };
    if max_width < fixed {
        return None;
    }
    let gs = graphemes(name);
    let shown = fitting_prefix(&gs, max_width - fixed);
    let a = concat(chars_of(" ").as_slice(), mark.as_slice());
    let b = concat(a.as_slice(), shown.as_slice());
    let c = concat(b.as_slice(), count.as_slice());
    let body = concat(c.as_slice(), chars_of(" ").as_slice());
    proof {
        reveal_strlit(" ");
    }
    Some((left.to_owned(), string_of(body.as_slice()), right.to_owned()))
}

/// The ends of a tag badge: the configured cap glyphs with Nerd Font
/// icons, parentheses with plain words.
pub open spec fn spec_tag_caps(mode: Icons, glyphs: (&'static str, &'static str)) -> (&'static str, &'static str) {
    match mode {
        Icons::Nerd => glyphs,
        Icons::Text => ("(", ")"),
    }
}

/// The ends of a tag badge (see [`spec_tag_caps`]).
pub fn tag_caps(mode: Icons, glyphs: (&'static str, &'static str)) -> (r: (&'static str, &'static str))
    ensures
        r == spec_tag_caps(mode, glyphs),
{
    match mode {
        Icons::Nerd => glyphs,
        Icons::Text => ("(", ")"),
    }
}

/// The ends of a badge of `kind`: tag caps (see [`spec_tag_caps`]) or
/// the preset's package shape.
pub open spec fn badge_caps(kind: Kind, mode: Icons, glyphs: (&'static str, &'static str)) -> (
    &'static str,
    &'static str,
) {
    match kind {
        Kind::Tag => spec_tag_caps(mode, glyphs),
        Kind::Preset => spec_preset_caps(mode),
    }
}

/// A pill as drawn: its texts, and its emphasis: bold when selected, and
/// underlined too while its row has the focus.
#[derive(Debug, Clone, PartialEq, Eq)]
pub struct PillText {
    pub left: String,
    pub body: String,
    pub right: String,
    pub bold: bool,
    pub underlined: bool,
}

/// A drawn pill as plain values: its texts, then whether it is bold and
/// underlined.
pub open spec fn drawn_view(r: Option<PillText>) -> Option<(Seq<char>, Seq<char>, Seq<char>, bool, bool)> {
    match r {
        Some(p) => Some((p.left@, p.body@, p.right@, p.bold, p.underlined)),
        None => None,
    }
}

/// The pill's texts (see [`spec_pill_text`]) with its emphasis.
pub open spec fn spec_drawn(
    name: Seq<char>,
    coverage: Option<(usize, usize)>,
    left: Seq<char>,
    right: Seq<char>,
    max_width: int,
    selected: bool,
    focused: bool,
) -> Option<(Seq<char>, Seq<char>, Seq<char>, bool, bool)> {
    match spec_pill_text(name, coverage, left, right, max_width) {
        Some((a, b, c)) => Some((a, b, c, selected, selected && focused)),
        None => None,
    }
}

/// The pill's texts with its emphasis (see [`spec_drawn`]).
fn drawn(
    name: &str,
    coverage: Option<(usize, usize)>,
    left: &str,
    right: &str,
    max_width: usize,
    selected: bool,
    focused: bool,
) -> (r: Option<PillText>)
    ensures
        drawn_view(r) == spec_drawn(name@, coverage, left@, right@, max_width as int, selected, focused),
{
    match pill_text(name, coverage, left, right, max_width) {
        Some((left, body, right)) => Some(
            PillText { left, body, right, bold: selected, underlined: selected && focused },
        ),
        None => None,
    }
}

/// A label drawn as a capsule: a tag group's name on a preset's page, with
/// how many of its skills the preset holds.
pub struct Pill {
    pub name: String,
    pub coverage: Option<(usize, usize)>,
    pub selected: bool,
    pub focused: bool,
}

impl Pill {
    /// A plain pill: no coverage, not selected.
    pub fn new(name: String) -> (r: Pill)
        ensures
            r.name@ == name@,
            r.coverage is None,
            !r.selected,
            !r.focused,
    {
        Pill { name, coverage: None, selected: false, focused: false }
    }

    /// The pill between `left` and `right` in at most `max_width` columns
    /// (see [`spec_drawn`]).
    pub fn render(&self, left: &str, right: &str, max_width: usize) -> (r: Option<PillText>)
        ensures
            drawn_view(r) == spec_drawn(
                self.name@,
                self.coverage,
                left@,
                right@,
                max_width as int,
                self.selected,
                self.focused,
            ),
    {
        drawn(self.name.as_str(), self.coverage, left, right, max_width, self.selected, self.focused)
    }
}

/// A group's badge: a pill between the ends of its kind.
pub struct Badge {
    pub kind: Kind,
    pub name: String,
    pub coverage: Option<(usize, usize)>,
    pub selected: bool,
    pub focused: bool,
}

impl Badge {
    /// A plain tag badge.
    pub fn new(name: String) -> (r: Badge)
        ensures
            r.kind == Kind::Tag,
            r.name@ == name@,
            r.coverage is None,
            !r.selected,
            !r.focused,
    {
        Badge::for_kind(Kind::Tag, name)
    }

    /// A plain badge of `kind`.
    pub fn for_kind(kind: Kind, name: String) -> (r: Badge)
        ensures
            r.kind == kind,
            r.name@ == name@,
            r.coverage is None,
            !r.selected,
            !r.focused,
    {
        Badge { kind, name, coverage: None, selected: false, focused: false }
    }

    /// The badge in at most `max_width` columns, with the ends of its kind
    /// (see [`badge_caps`] and [`spec_drawn`]).
    pub fn render(&self, mode: Icons, glyphs: (&'static str, &'static str), max_width: usize) -> (r:
        Option<PillText>)
        ensures
            drawn_view(r) == spec_drawn(
                self.name@,
                self.coverage,
                badge_caps(self.kind, mode, glyphs).0@,
                badge_caps(self.kind, mode, glyphs).1@,
                max_width as int,
                self.selected,
                self.focused,
            ),
    {
        let (left, right) = match self.kind {
            Kind::Tag => tag_caps(mode, glyphs),
            Kind::Preset => preset_caps(mode),
        };
        drawn(self.name.as_str(), self.coverage, left, right, max_width, self.selected, self.focused)
    }
}

/// The leading graphemes of `text` that fit in `columns`.
pub open spec fn spec_fit_text(text: Seq<char>, columns: int) -> Seq<char> {
    let gs = graphemes_of(text);
    flat(gs, fitting(gs, columns, 0, 0))
}

/// A piece of a row of tag pills.
#[derive(Debug, Clone, PartialEq, Eq)]
pub enum TagPiece {
    /// The space between two pills.
    Gap,
    /// A pill: left cap, body, right cap.
    Pill(String, String, String),
    /// How many tags did not fit, as ` +n` cut to the room left.
    More(String),
}

/// A piece as plain values: 0 for a gap, 1 for a pill, 2 for the count,
/// with its texts.
pub type PieceView = (nat, Seq<char>, Seq<char>, Seq<char>);

/// A piece as plain values.
pub open spec fn piece_view(p: TagPiece) -> PieceView {
    match p {
        TagPiece::Gap => (0, Seq::empty(), Seq::empty(), Seq::empty()),
        TagPiece::Pill(a, b, c) => (1, a@, b@, c@),
        TagPiece::More(t) => (2, t@, Seq::empty(), Seq::empty()),
    }
}

/// The pieces as plain values.
pub open spec fn pieces_view(v: Seq<TagPiece>) -> Seq<PieceView> {
    v.map_values(|p: TagPiece| piece_view(p))
}

/// The columns a pill takes (none when it is not drawn).
pub open spec fn pill_columns(pill: Option<(Seq<char>, Seq<char>, Seq<char>)>) -> int {
    match pill {
        Some((a, b, c)) => (text_width(a) + text_width(b) + text_width(c)) as int,
        None => 0,
    }
}

/// The count of tags left over from `n`, as ` +n`.
pub open spec fn more_text(n: nat) -> Seq<char> {
    " +"@ + decimal(n)
}

/// The tags `i..` of a row in `max_width` columns, `used` of them taken:
/// each tag's pill, after a gap from the second on, as long as it fits
/// with room kept for the count of those after it; at the first that does
/// not, the count of the tags left, cut to the room left (nothing when none
/// of it fits).
pub open spec fn spec_tag_pills(
    tags: Seq<Seq<char>>,
    left: Seq<char>,
    right: Seq<char>,
    max_width: int,
    i: int,
    used: int,
) -> Seq<PieceView>
    decreases tags.len() - i,
{
    if i < 0 || i >= tags.len() {
        Seq::empty()
    } else {
        let pill = spec_pill_text(tags[i], None, left, right, usize::MAX as int);
        let w = pill_columns(pill) + if i > 0 {
            1int
        } else {
            0
        };
        let rest = tags.len() - i - 1;
        let reserve = if rest > 0 {
            text_width(more_text(rest as nat)) as int
        } else {
            0
        };
        if used + w + reserve > max_width {
            let count = spec_fit_text(more_text((rest + 1) as nat), if max_width > used {
                max_width - used
            } else {
                0
            });
            if count.len() == 0 {
                Seq::empty()
            } else {
                seq![(2nat, count, Seq::<char>::empty(), Seq::<char>::empty())]
            }
        } else {
            let gap: Seq<PieceView> = if i > 0 {
                seq![(0nat, Seq::<char>::empty(), Seq::<char>::empty(), Seq::<char>::empty())]
            } else {
                Seq::empty()
            };
            let drawn: Seq<PieceView> = match pill {
                Some((a, b, c)) => seq![(1nat, a, b, c)],
                None => Seq::empty(),
            };
            gap + drawn + spec_tag_pills(tags, left, right, max_width, i + 1, used + w)
        }
    }
}

/// `a + b + c`, when it fits.
fn sum3(a: usize, b: usize, c: usize) -> (r: Option<usize>)
    ensures
        r == (if a + b + c <= usize::MAX {
            Some((a + b + c) as usize)
        } else {
            None::<usize>
        }),
{
    add_known(add_known(Some(a), b), c)
}

/// The tags of a skill as pills between `caps` in `max_width` columns (see
/// [`spec_tag_pills`]).
pub fn tag_pills(tags: &[String], left: &str, right: &str, max_width: usize) -> (r: Vec<TagPiece>)
    ensures
        pieces_view(r@) == spec_tag_pills(string_views(tags@), left@, right@, max_width as int, 0, 0),
{
    let ghost names = string_views(tags@);
    let mut out: Vec<TagPiece> = Vec::new();
    let mut used: usize = 0;
    let mut i: usize = 0;
    while i < tags.len()
        invariant
            i <= tags@.len(),
            names == string_views(tags@),
            used <= max_width,
            spec_tag_pills(names, left@, right@, max_width as int, 0, 0) == pieces_view(out@)
                + spec_tag_pills(names, left@, right@, max_width as int, i as int, used as int),
        decreases tags@.len() - i,
    {
        let ghost before = pieces_view(out@);
        let pill = pill_text(tags[i].as_str(), None, left, right, usize::MAX);
        let pill_w: Option<usize> = match &pill {
            Some((a, b, c)) => sum3(width(a.as_str()), width(b.as_str()), width(c.as_str())),
            None => Some(0),
        };
        let rest = tags.len() - i - 1;
        let more = concat(chars_of(" +").as_slice(), chars_of(decimal_string(rest as u64).as_str()).as_slice());
        proof {
            reveal_strlit(" +");
            assert(rest as u64 as nat == rest as nat);
        }
        let reserve: usize = if rest > 0 {
            width(string_of(more.as_slice()).as_str())
        } else {
            0
        };
        let gap: usize = if i > 0 {
            1
        } else {
            0
        };
        let total = match pill_w {
            Some(w) => sum3(w, gap, reserve),
            None => None,
        };
        let fits = match total {
            Some(t) => t <= max_width && used <= max_width - t,
            None => false,
        };
        if !fits {
            let left_over = concat(chars_of(" +").as_slice(), chars_of(decimal_string((rest + 1) as u64).as_str()).as_slice());
            proof {
                assert((rest + 1) as u64 as nat == (rest + 1) as nat);
            }
            let count_graphemes = graphemes(string_of(left_over.as_slice()).as_str());
            let kept = fitting_prefix(&count_graphemes, max_width - used);
            if kept.len() > 0 {
                let count = string_of(kept.as_slice());
                out.push(TagPiece::More(count));
                assert(pieces_view(out@) =~= before.push(piece_view(TagPiece::More(count))));
            }
            return out;
        }
        let w = match pill_w {
            Some(w) => w + gap,
            None => 0,
        };
        if i > 0 {
            out.push(TagPiece::Gap);
        }
        match pill {
            Some((a, b, c)) => {
                out.push(TagPiece::Pill(a, b, c));
            },
            None => {},
        }
        proof {
            assert(pieces_view(out@) =~= before + (if i > 0 {
                seq![(0nat, Seq::<char>::empty(), Seq::<char>::empty(), Seq::<char>::empty())]
            } else {
                Seq::<PieceView>::empty()
            }) + match pill {
                Some((a, b, c)) => seq![(1nat, a@, b@, c@)],
                None => Seq::<PieceView>::empty(),
            });
        }
        used = used + w;
        i = i + 1;
    }
    assert(pieces_view(out@) + Seq::<PieceView>::empty() =~= pieces_view(out@));
    out
}

/// A row of the group prompt: a badge and a dimmed suffix, or a plain
/// dimmed text.
#[derive(Debug, Clone, PartialEq, Eq)]
pub enum PromptRow {
    Badge(Option<PillText>, String),
    Plain(String),
}

/// A prompt row as plain values.
pub open spec fn row_view(r: PromptRow) -> (Option<(Seq<char>, Seq<char>, Seq<char>, bool, bool)>, Seq<char>, bool) {
    match r {
        PromptRow::Badge(b, s) => (drawn_view(b), s@, false),
        PromptRow::Plain(t) => (None, t@, true),
    }
}

/// Row `row` of the prompt asking `ask` about `name`, a group of `identity`,
/// in `row_width` columns: merging shows each tag as a badge; a colour row
/// shows the group's own badge followed by the colour's name in at most
/// half the row, and the row without a colour says so.
pub open spec fn spec_prompt_row(
    ask: Ask,
    identity: Kind,
    name: Seq<char>,
    row: Seq<char>,
    mode: Icons,
    glyphs: (&'static str, &'static str),
    row_width: int,
) -> (Option<(Seq<char>, Seq<char>, Seq<char>, bool, bool)>, Seq<char>, bool) {
    match ask {
        Ask::Merge => {
            let caps = badge_caps(Kind::Tag, mode, glyphs);
            (spec_drawn(row, None, caps.0@, caps.1@, row_width, false, false), Seq::empty(), false)
        },
        Ask::Color => if row == "none"@ {
            (None, spec_fit_text("none — the default"@, row_width), true)
        } else {
            let suffix = spec_fit_text("  "@ + row, row_width / 2);
            let available = row_width - text_width(suffix);
            let caps = badge_caps(identity, mode, glyphs);
            (
                spec_drawn(name, None, caps.0@, caps.1@, if available > 0 { available } else { 0 }, false, false),
                suffix,
                false,
            )
        },
    }
}

/// A row of the group prompt (see [`spec_prompt_row`]).
pub fn prompt_row(
    ask: Ask,
    identity: Kind,
    name: &str,
    row: &str,
    mode: Icons,
    glyphs: (&'static str, &'static str),
    row_width: usize,
) -> (r: PromptRow)
    ensures
        row_view(r) == spec_prompt_row(ask, identity, name@, row@, mode, glyphs, row_width as int),
{
    match ask {
        Ask::Merge => {
            let badge = Badge::new(row.to_owned());
            PromptRow::Badge(badge.render(mode, glyphs, row_width), String::new())
        },
        Ask::Color => {
            let text = chars_of(row);
            if crate::text::same_chars(text.as_slice(), chars_of("none").as_slice()) {
                let gs = graphemes("none — the default");
                return PromptRow::Plain(string_of(fitting_prefix(&gs, row_width).as_slice()));
            }
            let label = concat(chars_of("  ").as_slice(), text.as_slice());
            let gs = graphemes(string_of(label.as_slice()).as_str());
            let suffix = string_of(fitting_prefix(&gs, row_width / 2).as_slice());
            let used = width(suffix.as_str());
            let available: usize = if row_width > used {
                row_width - used
            } else {
                0
            };
            let badge = Badge::for_kind(identity, name.to_owned());
            PromptRow::Badge(badge.render(mode, glyphs, available), suffix)
        },
    }
}

/// What the group prompt previews above its rows: the group's label, an
/// arrow and the label it merges into, or a note; or, for a preset with a
/// valid colour, its card.
#[derive(Debug, Clone, PartialEq, Eq)]
pub struct Preview {
    pub label: Option<PillText>,
    pub arrow: String,
    pub target: Option<PillText>,
    pub note: String,
    pub card: bool,
}

/// A preview as plain values.
pub open spec fn preview_view(p: Preview) -> (
    Option<(Seq<char>, Seq<char>, Seq<char>, bool, bool)>,
    Seq<char>,
    Option<(Seq<char>, Seq<char>, Seq<char>, bool, bool)>,
    Seq<char>,
    bool,
) {
    (drawn_view(p.label), p.arrow@, drawn_view(p.target), p.note@, p.card)
}

/// `a - b`, or 0 when that is negative.
pub open spec fn minus0(a: int, b: int) -> int {
    if a > b {
        a - b
    } else {
        0
    }
}

/// The preview of the prompt asking `ask` about `name`, a group of
/// `identity`, in a swatch `swatch_width` columns wide. Merging: two
/// columns, the tag's label in half of the rest after the arrow's room, the
/// arrow cut to what is left, then the tag it merges into (`into`) or
/// "nothing matches". Colour: the card of a preset whose typed colour is
/// valid (`valid`); else the tag's label in the swatch less two columns, or
/// "not a colour".
pub open spec fn spec_preview(
    ask: Ask,
    identity: Kind,
    name: Seq<char>,
    into: Option<Seq<char>>,
    valid: bool,
    mode: Icons,
    glyphs: (&'static str, &'static str),
    swatch_width: int,
) -> (
    Option<(Seq<char>, Seq<char>, Seq<char>, bool, bool)>,
    Seq<char>,
    Option<(Seq<char>, Seq<char>, Seq<char>, bool, bool)>,
    Seq<char>,
    bool,
) {
    let caps = badge_caps(Kind::Tag, mode, glyphs);
    let preview_width = minus0(swatch_width, 2);
    match ask {
        Ask::Merge => {
            let label = spec_drawn(name, None, caps.0@, caps.1@, minus0(preview_width, 3) / 2, false, false);
            let used = 2 + pill_columns(match label {
                Some((a, b, c, _, _)) => Some((a, b, c)),
                None => None,
            });
            let arrow = spec_fit_text(" → "@, minus0(swatch_width, used));
            let remaining = minus0(swatch_width, used + text_width(arrow));
            match into {
                Some(t) => (label, arrow, spec_drawn(t, None, caps.0@, caps.1@, remaining, false, false), Seq::empty(), false),
                None => (label, arrow, None, spec_fit_text("nothing matches"@, remaining), false),
            }
        },
        Ask::Color => if identity == Kind::Preset && valid {
            (None, Seq::empty(), None, Seq::empty(), true)
        } else if valid {
            (spec_drawn(name, None, caps.0@, caps.1@, preview_width, false, false), Seq::empty(), None, Seq::empty(), false)
        } else {
            (None, Seq::empty(), None, spec_fit_text("not a colour"@, preview_width), false)
        },
    }
}

/// The leading graphemes of `text` that fit in `columns`.
fn fitted(text: &str, columns: usize) -> (r: String)
    ensures
        r@ == spec_fit_text(text@, columns as int),
{
    let gs = graphemes(text);
    string_of(fitting_prefix(&gs, columns).as_slice())
}

/// The columns a drawn pill takes, or `usize::MAX` when they overflow.
fn drawn_columns(p: &Option<PillText>) -> (r: usize)
    ensures
        r == (match drawn_view(*p) {
            Some((a, b, c, _, _)) => if pill_columns(Some((a, b, c))) <= usize::MAX {
                pill_columns(Some((a, b, c)))
            } else {
                usize::MAX as int
            },
            None => 0,
        }),
{
    match p {
        Some(pill) => match add_known(add_known(Some(width(pill.left.as_str())), width(pill.body.as_str())), width(pill.right.as_str())) {
            Some(w) => w,
            None => usize::MAX,
        },
        None => 0,
    }
}

/// The preview of the group prompt (see [`spec_preview`]).
pub fn preview(
    ask: Ask,
    identity: Kind,
    name: &str,
    into: Option<&str>,
    valid: bool,
    mode: Icons,
    glyphs: (&'static str, &'static str),
    swatch_width: usize,
) -> (r: Preview)
    ensures
        preview_view(r) == spec_preview(
            ask,
            identity,
            name@,
            match into {
                Some(t) => Some(t@),
                None => None,
            },
            valid,
            mode,
            glyphs,
            swatch_width as int,
        ),
{
    let preview_width: usize = if swatch_width > 2 {
        swatch_width - 2
    } else {
        0
    };
    let empty = Preview { label: None, arrow: String::new(), target: None, note: String::new(), card: false };
    match ask {
        Ask::Merge => {
            let label_width: usize = if preview_width > 3 {
                (preview_width - 3) / 2
            } else {
                0
            };
            let label = Badge::new(name.to_owned()).render(mode, glyphs, label_width);
            let label_columns = drawn_columns(&label);
            let used: Option<usize> = add_known(Some(label_columns), 2);
            let arrow = match used {
                Some(u) => fitted(" → ", if swatch_width > u { swatch_width - u } else { 0 }),
                None => fitted(" → ", 0),
            };
            let remaining: usize = match add_known(used, width(arrow.as_str())) {
                Some(u) => if swatch_width > u {
                    swatch_width - u
                } else {
                    0
                },
                None => 0,
            };
            match into {
                Some(t) => {
                    let target = Badge::new(t.to_owned()).render(mode, glyphs, remaining);
                    Preview { label, arrow, target, note: String::new(), card: false }
                },
                None => Preview {
                    label,
                    arrow,
                    target: None,
                    note: fitted("nothing matches", remaining),
                    card: false,
                },
            }
        },
        Ask::Color => if identity == Kind::Preset && valid {
            Preview { card: true, ..empty }
        } else if valid {
            Preview { label: Badge::new(name.to_owned()).render(mode, glyphs, preview_width), ..empty }
        } else {
            Preview { note: fitted("not a colour", preview_width), ..empty }
        },
    }
}

/// The texts of a group card: its identity (a preset's badge, or a tag's
/// marker and name), the spaces before the count, the count, and the
/// description's line when it has one.
#[derive(Debug, Clone, PartialEq, Eq)]
pub struct GroupCard {
    pub badge: Option<PillText>,
    pub marker: String,
    pub name: String,
    pub gap: String,
    pub count: String,
    pub description: Option<String>,
}

/// A group card as plain values.
pub open spec fn group_card_view(c: GroupCard) -> (
    Option<(Seq<char>, Seq<char>, Seq<char>, bool, bool)>,
    Seq<char>,
    Seq<char>,
    Seq<char>,
    Seq<char>,
    Option<Seq<char>>,
) {
    (
        drawn_view(c.badge),
        c.marker@,
        c.name@,
        c.gap@,
        c.count@,
        match c.description {
            Some(d) => Some(d@),
            None => None,
        },
    )
}

/// The card of a group of `kind` in `columns`: the count cut to the row at
/// the right end, a space before it when there is room; in what is left, a
/// preset's badge or a tag's marker and its name padded to the rest;
/// spaces between; and a line of the description's rendered text, joined by
/// spaces and cut to the row, when it holds anything but white space.
pub open spec fn spec_group_card(
    kind: Kind,
    name: Seq<char>,
    count: Seq<char>,
    description: Option<Seq<char>>,
    mode: Icons,
    columns: int,
) -> (
    Option<(Seq<char>, Seq<char>, Seq<char>, bool, bool)>,
    Seq<char>,
    Seq<char>,
    Seq<char>,
    Seq<char>,
    Option<Seq<char>>,
) {
    let shown_count = spec_fit_text(count, columns);
    let cw = text_width(shown_count) as int;
    let room = minus0(columns, cw + if columns > cw {
        1int
    } else {
        0
    });
    let (badge, marker, label, used) = if kind == Kind::Preset {
        let caps = spec_preset_caps(mode);
        let b = spec_drawn(name, None, caps.0@, caps.1@, room, false, false);
        (b, Seq::<char>::empty(), Seq::<char>::empty(), pill_columns(match b {
            Some((x, y, z, _, _)) => Some((x, y, z)),
            None => None,
        }))
    } else {
        let m = spec_fit_text("● "@, room);
        let n = spec_pad(name, minus0(room, text_width(m) as int));
        (None, m, n, (text_width(m) + text_width(n)) as int)
    };
    let line = match description {
        Some(d) => if has_text(d) {
            Some(spec_fit_text(join(markdown_lines(d), seq![' ']), columns))
        } else {
            None
        },
        None => None,
    };
    (badge, marker, label, spaces(columns - (used + cw)), shown_count, line)
}

/// The card of a group (see [`spec_group_card`]).
pub fn group_card(
    kind: Kind,
    name: &str,
    count: &str,
    description: Option<&str>,
    mode: Icons,
    columns: usize,
) -> (r: GroupCard)
    ensures
        group_card_view(r) == spec_group_card(
            kind,
            name@,
            count@,
            match description {
                Some(d) => Some(d@),
                None => None,
            },
            mode,
            columns as int,
        ),
{
    let shown_count = fitted(count, columns);
    let cw = width(shown_count.as_str());
    let room: usize = if columns > cw {
        columns - cw - 1
    } else {
        0
    };
    let (badge, marker, label, used): (Option<PillText>, String, String, Option<usize>) = if kind == Kind::Preset {
        let b = Badge::for_kind(Kind::Preset, name.to_owned()).render(mode, ("", ""), room);
        let exact: Option<usize> = match &b {
            Some(p) => add_known(add_known(Some(width(p.left.as_str())), width(p.body.as_str())), width(p.right.as_str())),
            None => Some(0),
        };
        (b, String::new(), String::new(), exact)
    } else {
        let m = fitted("● ", room);
        let mw = width(m.as_str());
        let n = crate::compact::pad(name, if room > mw {
            room - mw
        } else {
            0
        });
        let nw = width(n.as_str());
        (None, m, n, add_known(Some(mw), nw))
    };
    let gap_len: usize = match add_known(used, cw) {
        Some(t) => if columns > t {
            columns - t
        } else {
            0
        },
        None => 0,
    };
    let line = match description {
        Some(d) => if crate::group::visible(d) {
            let lines = rendered_lines(d);
            let mut parts: Vec<Vec<char>> = Vec::new();
            let mut k: usize = 0;
            while k < lines.len()
                invariant
                    k <= lines@.len(),
                    views(parts@) == string_views(lines@).take(k as int),
                decreases lines@.len() - k,
            {
                let ghost before = parts@;
                let piece = chars_of(lines[k].as_str());
                parts.push(piece);
                assert(views(parts@) =~= views(before).push(lines@[k as int]@));
                assert(views(parts@) =~= string_views(lines@).take(k + 1));
                k = k + 1;
            }
            assert(views(parts@).skip(0) =~= string_views(lines@));
            let sep: Vec<char> = vec![' '];
            assert(sep@ =~= seq![' ']);
            let joined = join_from(&parts, 0, sep.as_slice());
            Some(fitted(string_of(joined.as_slice()).as_str(), columns))
        } else {
            None
        },
        None => None,
    };
    GroupCard { badge, marker, name: label, gap: crate::compact::spaces_of(gap_len), count: shown_count, description: line }
}

/// The count a group card shows: how many skills it has, or for a preset
/// on an agent's page how many of its skills are installed, of all.
pub open spec fn card_count(members: usize, coverage: Option<(usize, usize)>) -> Seq<char> {
    match coverage {
        Some((installed, total)) => decimal(installed as nat) + seq!['/'] + decimal(total as nat) + " skills"@,
        None => decimal(members as nat) + " skills"@,
    }
}

/// The count text (see [`card_count`]).
fn count_text(members: usize, coverage: Option<(usize, usize)>) -> (r: String)
    ensures
        r@ == card_count(members, coverage),
{
    let suffix = chars_of(" skills");
    match coverage {
        Some((installed, total)) => {
            proof {
                assert(installed as u64 as nat == installed as nat);
                assert(total as u64 as nat == total as nat);
                reveal_strlit("/");
            }
            let a = concat(chars_of(decimal_string(installed as u64).as_str()).as_slice(), chars_of("/").as_slice());
            let b = concat(a.as_slice(), chars_of(decimal_string(total as u64).as_str()).as_slice());
            string_of(concat(b.as_slice(), suffix.as_slice()).as_slice())
        },
        None => {
            proof {
                assert(members as u64 as nat == members as nat);
            }
            string_of(concat(chars_of(decimal_string(members as u64).as_str()).as_slice(), suffix.as_slice()).as_slice())
        },
    }
}

/// A navigation sidebar's card of a tag group: a coloured dot, the name,
/// and how many skills it has (see [`spec_group_card`]).
pub fn sidebar_card(name: &str, count: usize, description: Option<&str>, mode: Icons, columns: usize) -> (r: GroupCard)
    ensures
        group_card_view(r) == spec_group_card(
            Kind::Tag,
            name@,
            card_count(count, None),
            match description {
                Some(d) => Some(d@),
                None => None,
            },
            mode,
            columns as int,
        ),
{
    group_card(Kind::Tag, name, count_text(count, None).as_str(), description, mode, columns)
}

/// A preset's card: its badge and how many skills it has, or how many of
/// them are installed when `coverage` is given (see [`spec_group_card`]).
pub fn preset_card(
    name: &str,
    members: usize,
    coverage: Option<(usize, usize)>,
    description: Option<&str>,
    mode: Icons,
    columns: usize,
) -> (r: GroupCard)
    ensures
        group_card_view(r) == spec_group_card(
            Kind::Preset,
            name@,
            card_count(members, coverage),
            match description {
                Some(d) => Some(d@),
                None => None,
            },
            mode,
            columns as int,
        ),
{
    group_card(Kind::Preset, name, count_text(members, coverage).as_str(), description, mode, columns)
}

} // verus!
