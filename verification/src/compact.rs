//! The text of a compact skill row: the pointer, the status marker, the
//! name and source in their columns, the tags as pills, and the line that
//! shows where a search matched.
use crate::install::string_views;
use crate::pill::{pieces_view, spec_fit_text, spec_tag_pills, tag_pills, PieceView, TagPiece};
use crate::settings::LayoutMetrics;
use crate::skill::{
    compact_layout, detail_prefix, footer_source_width, identity_layout, minus, spec_compact_layout,
    spec_detail_prefix, spec_identity_layout, SkillPresentation, SkillRenderState,
};
use crate::summary::{fitting_prefix, graphemes, plain_text, spec_wrap, summary_lines, text_width, width};
use crate::text::{chars_of, concat, string_of};
use vstd::prelude::*;

verus! {

/// `n` spaces.
pub open spec fn spaces(n: int) -> Seq<char> {
    Seq::new(if n > 0 { n as nat } else { 0 }, |i: int| ' ')
}

/// `text` in a column of `columns`: its leading graphemes that fit, then
/// spaces up to the column's width.
pub open spec fn spec_pad(text: Seq<char>, columns: int) -> Seq<char> {
    let shown = spec_fit_text(text, columns);
    shown + spaces(columns - text_width(shown))
}

/// The leading graphemes of `text` that fit in `columns`.
fn fit(text: &str, columns: usize) -> (r: Vec<char>)
    ensures
        r@ == spec_fit_text(text@, columns as int),
{
    let gs = graphemes(text);
    fitting_prefix(&gs, columns)
}

/// `text` in a column of `columns` (see [`spec_pad`]).
pub(crate) fn pad(text: &str, columns: usize) -> (r: String)
    ensures
        r@ == spec_pad(text@, columns as int),
{
    let mut out = fit(text, columns);
    let used = width(string_of(out.as_slice()).as_str());
    let ghost shown = out@;
    let mut k: usize = used;
    while k < columns
        invariant
            used <= k <= columns || (used > columns && k == used),
            out@ == shown + spaces(k - used),
        decreases columns - k,
    {
        out.push(' ');
        assert(out@ =~= shown + spaces(k + 1 - used));
        k = k + 1;
    }
    assert(out@ =~= shown + spaces(columns - used));
    string_of(out.as_slice())
}

/// The marker text of a skill: a checkbox while choosing several, an arrow
/// when an update is available and nothing is wrong, else its status mark
/// between spaces; padded to the marker's column.
pub open spec fn spec_marker_text(mark: Seq<char>, warned: bool, checked: Option<bool>, update: bool) -> Seq<char> {
    match checked {
        Some(true) => "[✓] "@,
        Some(false) => "[ ] "@,
        None => if update && !warned {
            " ↑  "@
        } else {
            seq![' '] + mark + "  "@
        },
    }
}

/// The texts of a compact row.
#[derive(Debug, Clone, PartialEq, Eq)]
pub struct CompactText {
    /// The pointer: an arrow for the selected skill.
    pub pointer: String,
    /// The status marker in its column.
    pub marker: String,
    /// The name in its column.
    pub name: String,
    /// A space and the source in its column, when it has one.
    pub source: Option<String>,
    /// A space and the tags as pills, when they are shown.
    pub tags: Option<Vec<TagPiece>>,
    /// The second line: where the search matched, then the excerpt.
    pub details: Option<(String, String)>,
}

/// The texts of a compact row as plain values.
pub open spec fn compact_view(c: CompactText) -> (
    Seq<char>,
    Seq<char>,
    Seq<char>,
    Option<Seq<char>>,
    Option<Seq<PieceView>>,
    Option<(Seq<char>, Seq<char>)>,
) {
    (
        c.pointer@,
        c.marker@,
        c.name@,
        match c.source {
            Some(s) => Some(s@),
            None => None,
        },
        match c.tags {
            Some(t) => Some(pieces_view(t@)),
            None => None,
        },
        match c.details {
            Some((a, b)) => Some((a@, b@)),
            None => None,
        },
    )
}

/// The compact row of `skill` in `columns` (see [`spec_compact_layout`]):
/// the pointer and the padded marker cut to the row; the name and the
/// source padded to their columns; the tags as pills in what is left after
/// a space (see [`spec_tag_pills`]), when asked for, present and given
/// room; and, when match details are shown, the context of the match (see
/// [`spec_detail_prefix`]) cut to the row, then as much of the excerpt as
/// fits after it.
pub open spec fn spec_compact_text(
    name: Seq<char>,
    source: Seq<char>,
    tags: Seq<Seq<char>>,
    mark: Seq<char>,
    warned: bool,
    checked: Option<bool>,
    update: bool,
    excerpt: Option<Seq<char>>,
    context: Option<Seq<char>>,
    show_tags: bool,
    show_details: bool,
    layout: LayoutMetrics,
    columns: int,
    selected: bool,
    left: Seq<char>,
    right: Seq<char>,
) -> (Seq<char>, Seq<char>, Seq<char>, Option<Seq<char>>, Option<Seq<PieceView>>, Option<(Seq<char>, Seq<char>)>) {
    let cols = spec_compact_layout(columns, text_width(source) as int, layout);
    let pointer = spec_fit_text(if selected { "▸ "@ } else { "  "@ }, columns);
    let marker = spec_fit_text(
        spec_pad(spec_marker_text(mark, warned, checked, update), layout.marker_width as int),
        if columns > 2 { columns - 2 } else { 0 },
    );
    let shown_source = if cols.source_width > 0 {
        Some(seq![' '] + spec_pad(source, cols.source_width as int))
    } else {
        None
    };
    let shown_tags = if show_tags && tags.len() > 0 && cols.tags_width > 0 {
        Some(spec_tag_pills(tags, left, right, cols.tags_width - 1, 0, 0))
    } else {
        None
    };
    let details = if show_details {
        let prefix = spec_fit_text(spec_detail_prefix(context), columns);
        let room = columns - text_width(prefix);
        let text = match excerpt {
            Some(e) => e,
            None => Seq::empty(),
        };
        Some((prefix, spec_fit_text(text, if room > 0 { room } else { 0 })))
    } else {
        None
    };
    (pointer, marker, spec_pad(name, cols.name_width as int), shown_source, shown_tags, details)
}

/// The optional text as characters.
pub open spec fn opt_chars(s: Option<String>) -> Option<Seq<char>> {
    match s {
        Some(t) => Some(t@),
        None => None,
    }
}

/// The marker text before padding (see [`spec_marker_text`]).
fn marker_text(mark: &str, warned: bool, checked: Option<bool>, update: bool) -> (r: Vec<char>)
    ensures
        r@ == spec_marker_text(mark@, warned, checked, update),
{
    match checked {
        Some(true) => chars_of("[✓] "),
        Some(false) => chars_of("[ ] "),
        None => if update && !warned {
            chars_of(" ↑  ")
        } else {
            let a = concat(chars_of(" ").as_slice(), chars_of(mark).as_slice());
            proof {
                reveal_strlit(" ");
            }
            concat(a.as_slice(), chars_of("  ").as_slice())
        },
    }
}

/// The columns of a row of tag pieces: a gap takes one, a pill its three
/// parts, the count its text.
pub open spec fn pieces_columns(pieces: Seq<PieceView>) -> int
    decreases pieces.len(),
{
    if pieces.len() == 0 {
        0
    } else {
        let p = pieces.last();
        pieces_columns(pieces.drop_last()) + if p.0 == 0 {
            1int
        } else if p.0 == 1 {
            (text_width(p.1) + text_width(p.2) + text_width(p.3)) as int
        } else {
            text_width(p.1) as int
        }
    }
}

proof fn lemma_pieces_columns_grow(pieces: Seq<PieceView>)
    ensures
        pieces_columns(pieces) >= 0,
    decreases pieces.len(),
{
    if pieces.len() > 0 {
        lemma_pieces_columns_grow(pieces.drop_last());
    }
}

/// `x`, or `usize::MAX` when it is larger.
pub open spec fn capped(x: int) -> int {
    if x > usize::MAX {
        usize::MAX as int
    } else {
        x
    }
}

/// `a + b`, or `usize::MAX` when that overflows.
fn add_sat(a: usize, b: usize) -> (r: usize)
    ensures
        r == capped(a + b),
{
    if a > usize::MAX - b {
        usize::MAX
    } else {
        a + b
    }
}

/// The columns a row of tag pieces takes (see [`pieces_columns`]), at most
/// `usize::MAX`.
fn row_columns(pieces: &Vec<TagPiece>) -> (r: usize)
    ensures
        r == capped(pieces_columns(pieces_view(pieces@))),
{
    let mut total: usize = 0;
    let mut i: usize = 0;
    while i < pieces.len()
        invariant
            i <= pieces@.len(),
            total == capped(pieces_columns(pieces_view(pieces@).take(i as int))),
        decreases pieces@.len() - i,
    {
        let w: usize = match &pieces[i] {
            TagPiece::Gap => 1,
            TagPiece::Pill(a, b, c) => add_sat(add_sat(width(a.as_str()), width(b.as_str())), width(c.as_str())),
            TagPiece::More(t) => width(t.as_str()),
        };
        proof {
            let v = pieces_view(pieces@);
            assert(v.take(i + 1).drop_last() =~= v.take(i as int));
            lemma_pieces_columns_grow(v.take(i as int));
        }
        total = add_sat(total, w);
        i = i + 1;
    }
    assert(pieces_view(pieces@).take(pieces@.len() as int) =~= pieces_view(pieces@));
    total
}

/// The texts of a skill card: the marker, the name in its column and the
/// warning shown beside it; the two summary lines; then the source, the
/// spaces that push the tags to the right, and the tags.
#[derive(Debug, Clone, PartialEq, Eq)]
pub struct CardText {
    pub marker: String,
    pub name: String,
    pub warning: Option<String>,
    pub first_line: String,
    pub second_line: String,
    pub source: String,
    pub gap: String,
    pub tags: Vec<TagPiece>,
}

/// A card as plain values.
pub open spec fn card_view(c: CardText) -> (
    Seq<char>,
    Seq<char>,
    Option<Seq<char>>,
    Seq<char>,
    Seq<char>,
    Seq<char>,
    Seq<char>,
    Seq<PieceView>,
) {
    (
        c.marker@,
        c.name@,
        opt_chars(c.warning),
        c.first_line@,
        c.second_line@,
        c.source@,
        c.gap@,
        pieces_view(c.tags@),
    )
}

/// The warning beside a name while choosing several skills: ` ! ` and the
/// skill's warning label.
pub open spec fn card_warning(checked: Option<bool>, warning: Option<String>) -> Option<Seq<char>> {
    match (checked, warning) {
        (Some(_), Some(label)) => Some(" ! "@ + label@),
        _ => None,
    }
}

/// The card of `skill` in `columns` under `state`: the padded marker cut
/// to the row; the name in what the marker leaves, less the warning when
/// that leaves more than eight columns (see [`spec_identity_layout`]); the
/// two summary lines of the excerpt, or else of the description (see
/// [`spec_wrap`]); the tags as pills in half the row when shown; the source
/// line in what the tags leave, a space between them; and spaces that push
/// the tags to the right end.
pub open spec fn spec_card(
    skill: SkillPresentation,
    state: SkillRenderState,
    layout: LayoutMetrics,
    columns: int,
    left: Seq<char>,
    right: Seq<char>,
) -> (
    Seq<char>,
    Seq<char>,
    Option<Seq<char>>,
    Seq<char>,
    Seq<char>,
    Seq<char>,
    Seq<char>,
    Seq<PieceView>,
) {
    let warning = card_warning(state.checked, skill.warning);
    let warning_width = match warning {
        Some(w) => Some(text_width(w) as usize),
        None => None,
    };
    let (name_width, shown) = spec_identity_layout(columns, layout.marker_width as int, warning_width);
    let marker = spec_fit_text(
        spec_pad(
            spec_marker_text(skill.marker@, skill.warning is Some, state.checked, state.update_available),
            layout.marker_width as int,
        ),
        columns,
    );
    let markdown = match state.excerpt {
        Some(e) => e@,
        None => skill.description@,
    };
    let (first, second) = spec_wrap(plain_text(markdown), columns);
    let pieces = spec_tag_pills(string_views(skill.tags@), left, right, if state.show_tags {
        columns / 2
    } else {
        0
    }, 0, 0);
    let pills = capped(pieces_columns(pieces));
    let source = spec_fit_text(
        skill.spec_source(opt_chars(state.context)),
        minus(columns, pills + if pills > 0 {
            1int
        } else {
            0
        }),
    );
    (
        marker,
        spec_pad(skill.name@, name_width),
        if shown {
            warning
        } else {
            None
        },
        first,
        second,
        source,
        spaces(columns - (text_width(source) + pills)),
        pieces,
    )
}

/// `n` spaces.
pub(crate) fn spaces_of(n: usize) -> (r: String)
    ensures
        r@ == spaces(n as int),
{
    let mut out: Vec<char> = Vec::new();
    let mut k: usize = 0;
    while k < n
        invariant
            k <= n,
            out@ == spaces(k as int),
        decreases n - k,
    {
        out.push(' ');
        assert(out@ =~= spaces(k + 1));
        k = k + 1;
    }
    string_of(out.as_slice())
}

impl SkillPresentation {
    /// The compact row of this skill (see [`spec_compact_text`]), with tags
    /// drawn between `left` and `right`.
    pub fn compact(
        &self,
        state: &SkillRenderState,
        layout: &LayoutMetrics,
        columns: usize,
        selected: bool,
        left: &str,
        right: &str,
    ) -> (r: CompactText)
        requires
            layout.marker_width + 2 <= usize::MAX,
        ensures
            compact_view(r) == spec_compact_text(
                self.name@,
                self.source@,
                string_views(self.tags@),
                self.marker@,
                self.warning is Some,
                state.checked,
                state.update_available,
                opt_chars(state.excerpt),
                opt_chars(state.context),
                state.show_tags,
                state.show_match_details,
                *layout,
                columns as int,
                selected,
                left@,
                right@,
            ),
    {
        let cols = compact_layout(columns, width(self.source.as_str()), layout);
        let pointer = fit(if selected { "▸ " } else { "  " }, columns);
        let mark = marker_text(self.marker, self.warning.is_some(), state.checked, state.update_available);
        let padded = pad(string_of(mark.as_slice()).as_str(), layout.marker_width);
        let marker = fit(padded.as_str(), if columns > 2 { columns - 2 } else { 0 });
        let source = if cols.source_width > 0 {
            let column = pad(self.source.as_str(), cols.source_width);
            Some(string_of(concat(chars_of(" ").as_slice(), chars_of(column.as_str()).as_slice()).as_slice()))
        } else {
            None
        };
        proof {
            reveal_strlit(" ");
        }
        let tags = if state.show_tags && self.tags.len() > 0 && cols.tags_width > 0 {
            Some(tag_pills(self.tags.as_slice(), left, right, cols.tags_width - 1))
        } else {
            None
        };
        let details = if state.show_match_details {
            let context = match &state.context {
                Some(c) => Some(c.as_str()),
                None => None,
            };
            assert((match context {
                Some(c) => Some(c@),
                None => None,
            }) == opt_chars(state.context));
            let prefix = fit(detail_prefix(context).as_str(), columns);
            let prefix_text = string_of(prefix.as_slice());
            let used = width(prefix_text.as_str());
            let room: usize = if columns > used {
                columns - used
            } else {
                0
            };
            let excerpt = match &state.excerpt {
                Some(e) => fit(e.as_str(), room),
                None => {
                    proof {
                        reveal_strlit("");
                        assert(""@ =~= Seq::<char>::empty());
                    }
                    fit("", room)
                },
            };
            let ghost text = match opt_chars(state.excerpt) {
                Some(e) => e,
                None => Seq::<char>::empty(),
            };
            assert(excerpt@ == spec_fit_text(text, room as int));
            Some((prefix_text, string_of(excerpt.as_slice())))
        } else {
            None
        };
        CompactText {
            pointer: string_of(pointer.as_slice()),
            marker: string_of(marker.as_slice()),
            name: pad(self.name.as_str(), cols.name_width),
            source,
            tags,
            details,
        }
    }

    /// The card of this skill (see [`spec_card`]), with tags drawn between
    /// `left` and `right`.
    pub fn card(
        &self,
        state: &SkillRenderState,
        layout: &LayoutMetrics,
        columns: usize,
        left: &str,
        right: &str,
    ) -> (r: CardText)
        ensures
            card_view(r) == spec_card(*self, *state, *layout, columns as int, left@, right@),
    {
        let warning: Option<String> = match (&state.checked, &self.warning) {
            (Some(_), Some(label)) => Some(
                string_of(concat(chars_of(" ! ").as_slice(), chars_of(label.as_str()).as_slice()).as_slice()),
            ),
            _ => None,
        };
        let warning_width = match &warning {
            Some(w) => Some(width(w.as_str())),
            None => None,
        };
        let (name_width, shown) = identity_layout(columns, layout.marker_width, warning_width);
        let mark = marker_text(self.marker, self.warning.is_some(), state.checked, state.update_available);
        let padded = pad(string_of(mark.as_slice()).as_str(), layout.marker_width);
        let marker = fit(padded.as_str(), columns);
        let (first_line, second_line) = match &state.excerpt {
            Some(e) => summary_lines(e.as_str(), columns),
            None => summary_lines(self.description.as_str(), columns),
        };
        let tags = tag_pills(self.tags.as_slice(), left, right, if state.show_tags {
            columns / 2
        } else {
            0
        });
        let pills = row_columns(&tags);
        let source_text = self.source(state);
        let source_chars = fit(source_text.as_str(), footer_source_width(columns, pills));
        let source = string_of(source_chars.as_slice());
        let taken = add_sat(width(source.as_str()), pills);
        let gap = spaces_of(if columns > taken {
            columns - taken
        } else {
            0
        });
        CardText {
            marker: string_of(marker.as_slice()),
            name: pad(self.name.as_str(), name_width),
            warning: if shown {
                warning
            } else {
                None
            },
            first_line,
            second_line,
            source,
            gap,
            tags,
        }
    }

    /// The card of this skill in a list row of `columns`: the card two
    /// columns narrower, behind a pointer on its first line (an arrow when
    /// `selected`) and two spaces on the others, each cut to the row.
    pub fn list(
        &self,
        state: &SkillRenderState,
        layout: &LayoutMetrics,
        columns: usize,
        selected: bool,
        left: &str,
        right: &str,
    ) -> (r: (String, String, CardText))
        ensures
            r.0@ == spec_fit_text(
                if selected {
                    "▸ "@
                } else {
                    "  "@
                },
                columns as int,
            ),
            r.1@ == spec_fit_text("  "@, columns as int),
            card_view(r.2) == spec_card(*self, *state, *layout, minus(columns as int, 2), left@, right@),
    {
        let card = self.card(state, layout, if columns > 2 {
            columns - 2
        } else {
            0
        }, left, right);
        let first = fit(if selected {
            "▸ "
        } else {
            "  "
        }, columns);
        let rest = fit("  ", columns);
        (string_of(first.as_slice()), string_of(rest.as_slice()), card)
    }
}

} // verus!
