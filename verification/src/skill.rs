//! Skill identity and state, the same in cards, lists and compact rows.
//!
//! Pages supply semantic state; they never patch what is derived from it.
//! Entries owned by an agent use the same presentation even without a
//! Library record.
use crate::group::{has_text, visible};
use crate::icons::after_last;
use crate::meta::opt_view;
use crate::settings::LayoutMetrics;
use crate::text::{chars_of, concat, find_last, slice_of, string_of};
use vstd::prelude::*;

verus! {

/// The severity a marker is drawn with.
#[derive(Debug, Clone, Copy, PartialEq, Eq, Structural)]
pub enum Tone {
    Normal,
    Healthy,
    Warning,
    Error,
}

/// The health of a Library skill.
#[derive(Debug, Clone, PartialEq, Eq)]
pub enum SkillStatus {
    Local,
    Repository,
    MissingBaseline,
    Modified,
    Missing,
    Renamed { to: String },
    MissingSource,
    Invalid { reason: String },
    CorruptMeta { error: String },
}

/// The glyph and severity of a skill's health.
pub open spec fn spec_status_marker(status: SkillStatus) -> (&'static str, Tone) {
    match status {
        SkillStatus::Local | SkillStatus::Repository => ("●", Tone::Healthy),
        SkillStatus::MissingBaseline => ("●", Tone::Warning),
        SkillStatus::Modified => ("✎", Tone::Warning),
        SkillStatus::Missing => ("✗", Tone::Error),
        SkillStatus::Renamed { .. } => ("↪", Tone::Warning),
        SkillStatus::MissingSource => ("!", Tone::Warning),
        SkillStatus::Invalid { .. } | SkillStatus::CorruptMeta { .. } => ("!", Tone::Error),
    }
}

/// The glyph and severity of a skill's health (see [`spec_status_marker`]);
/// health badges and previews use the same pair as skill cards.
pub fn status_marker(status: &SkillStatus) -> (r: (&'static str, Tone))
    ensures
        r == spec_status_marker(*status),
{
    match status {
        SkillStatus::Local | SkillStatus::Repository => ("●", Tone::Healthy),
        SkillStatus::MissingBaseline => ("●", Tone::Warning),
        SkillStatus::Modified => ("✎", Tone::Warning),
        SkillStatus::Missing => ("✗", Tone::Error),
        SkillStatus::Renamed { .. } => ("↪", Tone::Warning),
        SkillStatus::MissingSource => ("!", Tone::Warning),
        SkillStatus::Invalid { .. } | SkillStatus::CorruptMeta { .. } => ("!", Tone::Error),
    }
}

/// How an agent's entry relates to the Library root.
#[derive(Debug, Clone, PartialEq, Eq)]
pub enum EntryState {
    /// A link to the Library's copy.
    Deployed,
    /// A link whose target the root no longer has.
    Broken,
    /// A copy that stands in for the Library's, with the same content or not.
    Shadow { same_content: bool },
    /// A link to somewhere outside the root.
    Foreign { target: String },
    /// Only in this agent.
    AgentOnly,
}

/// Human-facing identity of a Library skill: its declared name when that is
/// not blank, else the last component of its key.
pub open spec fn spec_display_name(name: Option<Seq<char>>, key: Seq<char>) -> Seq<char> {
    match name {
        Some(n) => if has_text(n) {
            n
        } else {
            after_last(key, '/')
        },
        None => after_last(key, '/'),
    }
}

/// Human-facing identity (see [`spec_display_name`]); filesystem and
/// deployment keys remain unchanged.
pub fn display_name(name: Option<&str>, key: &str) -> (r: String)
    ensures
        r@ == spec_display_name(
            match name {
                Some(n) => Some(n@),
                None => None,
            },
            key@,
        ),
{
    if let Some(n) = name {
        if visible(n) {
            return n.to_owned();
        }
    }
    let text = chars_of(key);
    match find_last(text.as_slice(), '/') {
        Some(k) => {
            assert(k < text.len());
            string_of(slice_of(text.as_slice(), k + 1, text.len()).as_slice())
        },
        None => key.to_owned(),
    }
}

/// Content shared by all densities and by both managed and agent-owned
/// skills.
pub struct SkillPresentation {
    pub name: String,
    pub description: String,
    pub source: String,
    pub tags: Vec<String>,
    pub marker: &'static str,
    pub tone: Tone,
    pub warning: Option<String>,
}

/// Transient selection and search state: input to presentation, never a
/// patch to its output. `checked: None` means ordinary single selection.
pub struct SkillRenderState {
    pub checked: Option<bool>,
    pub update_available: bool,
    pub excerpt: Option<String>,
    pub terms: Vec<String>,
    pub context: Option<String>,
    pub show_tags: bool,
    pub show_match_details: bool,
}

impl Default for SkillRenderState {
    fn default() -> (r: SkillRenderState)
        ensures
            r.checked is None,
            !r.update_available,
            r.excerpt is None,
            r.terms@.len() == 0,
            r.context is None,
            r.show_tags,
            !r.show_match_details,
    {
        SkillRenderState {
            checked: None,
            update_available: false,
            excerpt: None,
            terms: Vec::new(),
            context: None,
            show_tags: true,
            show_match_details: false,
        }
    }
}

/// The marker, severity and label of an agent entry.
pub open spec fn spec_entry_marker(state: Option<EntryState>) -> (&'static str, Tone, &'static str) {
    match state {
        Some(EntryState::Deployed) => ("✓", Tone::Healthy, "linked"),
        Some(EntryState::Broken) => ("!", Tone::Error, "broken link"),
        Some(EntryState::Shadow { same_content }) => if same_content {
            ("▪", Tone::Warning, "shadow")
        } else {
            ("▪", Tone::Warning, "shadow, differs")
        },
        Some(EntryState::Foreign { .. }) => ("→", Tone::Warning, "foreign"),
        Some(EntryState::AgentOnly) => ("▪", Tone::Normal, "the agent's own"),
        None => ("—", Tone::Normal, ""),
    }
}

/// What an entry says when it has no description of its own.
pub open spec fn spec_entry_fallback(state: Option<EntryState>) -> Seq<char> {
    match state {
        Some(EntryState::Broken) => "the link points at something the root no longer has"@,
        Some(EntryState::Foreign { target }) => "links outside the root to "@ + target@,
        Some(EntryState::AgentOnly) => "only in this agent, not in the root"@,
        _ => "No description"@,
    }
}

impl SkillPresentation {
    /// The presentation of an agent entry: the marker, severity and label of
    /// its state (see [`spec_entry_marker`]), its description unless blank
    /// (else [`spec_entry_fallback`]), the label as its source, no tags, and
    /// the label as a warning when the severity is a warning or an error.
    pub fn entry(name: &str, description: Option<&str>, state: Option<&EntryState>) -> (r:
        SkillPresentation)
        ensures
            r.name@ == name@,
            ({
                let s = match state {
                    Some(e) => Some(*e),
                    None => None,
                };
                let (marker, tone, label) = spec_entry_marker(s);
                &&& r.marker == marker
                &&& r.tone == tone
                &&& r.source@ == label@
                &&& opt_view(r.warning) == (if tone == Tone::Warning || tone == Tone::Error {
                    Some(label@)
                } else {
                    None
                })
                &&& r.description@ == (match description {
                    Some(d) => if has_text(d@) {
                        d@
                    } else {
                        spec_entry_fallback(s)
                    },
                    None => spec_entry_fallback(s),
                })
            }),
            r.tags@.len() == 0,
    {
        let (marker, tone, label): (&'static str, Tone, &'static str) = match state {
            Some(EntryState::Deployed) => ("✓", Tone::Healthy, "linked"),
            Some(EntryState::Broken) => ("!", Tone::Error, "broken link"),
            Some(EntryState::Shadow { same_content }) => if *same_content {
                ("▪", Tone::Warning, "shadow")
            } else {
                ("▪", Tone::Warning, "shadow, differs")
            },
            Some(EntryState::Foreign { .. }) => ("→", Tone::Warning, "foreign"),
            Some(EntryState::AgentOnly) => ("▪", Tone::Normal, "the agent's own"),
            None => ("—", Tone::Normal, ""),
        };
        let own = match description {
            Some(d) => if visible(d) {
                Some(d.to_owned())
            } else {
                None
            },
            None => None,
        };
        let description = match own {
            Some(d) => d,
            None => match state {
                Some(EntryState::Broken) => {
                    "the link points at something the root no longer has".to_owned()
                },
                Some(EntryState::Foreign { target }) => {
                    let text = concat(
                        chars_of("links outside the root to ").as_slice(),
                        chars_of(target.as_str()).as_slice(),
                    );
                    string_of(text.as_slice())
                },
                Some(EntryState::AgentOnly) => "only in this agent, not in the root".to_owned(),
                _ => "No description".to_owned(),
            },
        };
        let source = label.to_owned();
        let warning = match tone {
            Tone::Warning | Tone::Error => Some(label.to_owned()),
            _ => None,
        };
        SkillPresentation {
            name: name.to_owned(),
            description,
            source,
            tags: Vec::new(),
            marker,
            tone,
            warning,
        }
    }

    /// The source line: the source, then ` · ` and the page's context unless
    /// that is empty, `local` or `git`.
    pub open spec fn spec_source(&self, context: Option<Seq<char>>) -> Seq<char> {
        match context {
            Some(tail) => if tail.len() > 0 && tail != "local"@ && tail != "git"@ {
                self.source@ + " · "@ + tail
            } else {
                self.source@
            },
            None => self.source@,
        }
    }

    /// The source line for `state` (see [`SkillPresentation::spec_source`]).
    pub fn source(&self, state: &SkillRenderState) -> (r: String)
        ensures
            r@ == self.spec_source(
                match state.context {
                    Some(c) => Some(c@),
                    None => None,
                },
            ),
    {
        match &state.context {
            Some(tail) => {
                let t = chars_of(tail.as_str());
                let local = chars_of("local");
                let git = chars_of("git");
                let is_local = crate::text::same_chars(t.as_slice(), local.as_slice());
                let is_git = crate::text::same_chars(t.as_slice(), git.as_slice());
                if t.len() > 0 && !is_local && !is_git {
                    let head = concat(chars_of(self.source.as_str()).as_slice(), chars_of(" · ").as_slice());
                    string_of(concat(head.as_slice(), t.as_slice()).as_slice())
                } else {
                    self.source.clone()
                }
            },
            None => self.source.clone(),
        }
    }

    /// The leading slot's text and severity: a checkbox in selection mode
    /// (in the warning's severity when there is one, else accent when
    /// checked and normal when not); an update arrow for a healthy skill
    /// with an update; else the status marker.
    pub open spec fn spec_marker(&self, checked: Option<bool>, update_available: bool) -> (
        Seq<char>,
        Option<Tone>,
    ) {
        match checked {
            Some(c) => (
                if c {
                    "[✓] "@
                } else {
                    "[ ] "@
                },
                if self.warning is Some {
                    Some(self.tone)
                } else {
                    None
                },
            ),
            None => if update_available && self.warning is None {
                (" ↑  "@, None)
            } else {
                (" "@ + self.marker@ + "  "@, Some(self.tone))
            },
        }
    }

    /// The leading slot for `state` (see [`SkillPresentation::spec_marker`]);
    /// `None` as severity means the accent colour for a checked box or an
    /// update, the dim style for an unchecked one.
    pub fn marker_text(&self, state: &SkillRenderState) -> (r: (String, Option<Tone>))
        ensures
            (r.0@, r.1) == self.spec_marker(state.checked, state.update_available),
    {
        match state.checked {
            Some(c) => {
                let text = if c {
                    "[✓] ".to_owned()
                } else {
                    "[ ] ".to_owned()
                };
                let tone = if self.warning.is_some() {
                    Some(self.tone)
                } else {
                    None
                };
                (text, tone)
            },
            None => if state.update_available && self.warning.is_none() {
                (" ↑  ".to_owned(), None)
            } else {
                let head = concat(chars_of(" ").as_slice(), chars_of(self.marker).as_slice());
                let text = concat(head.as_slice(), chars_of("  ").as_slice());
                (string_of(text.as_slice()), Some(self.tone))
            },
        }
    }
}

/// `a - b`, held at zero.
pub open spec fn minus(a: int, b: int) -> int {
    if a > b {
        a - b
    } else {
        0
    }
}

/// The columns of a compact row.
#[derive(Debug, Clone, Copy, PartialEq, Eq, Structural)]
pub struct CompactLayout {
    /// The name's column.
    pub name_width: usize,
    /// The source's column, 0 when it is left out.
    pub source_width: usize,
    /// What is left for tags.
    pub tags_width: usize,
}

/// The columns of a compact row of `columns` whose source is `source_width`
/// wide: after the selection arrow and the marker, the source takes at most
/// half of the rest (with a space before it), the name at most its
/// configured width, and tags what remains.
pub open spec fn spec_compact_layout(columns: int, source_width: int, layout: LayoutMetrics) -> CompactLayout {
    let content = minus(columns, 2 + layout.marker_width);
    let source = if source_width < content / 2 {
        source_width
    } else {
        content / 2
    };
    let space = source + if source > 0 {
        1int
    } else {
        0
    };
    let name = if (layout.compact_name_width as int) < minus(content, space) {
        layout.compact_name_width as int
    } else {
        minus(content, space)
    };
    CompactLayout {
        name_width: name as usize,
        source_width: source as usize,
        tags_width: minus(content, name + space) as usize,
    }
}

/// What a compact row shows, beyond its columns.
#[derive(Debug, Clone, Copy)]
pub struct CompactRow {
    /// The pointer before the row: an arrow for the selected skill.
    pub pointer: &'static str,
    /// The source column is shown.
    pub source: bool,
    /// The tags are shown after the source.
    pub tags: bool,
    /// A second line shows where the search matched.
    pub details: bool,
    /// How many lines the row takes.
    pub lines: usize,
}

/// What a compact row in `layout` shows: the pointer of a selected row, the
/// source when it has a column, the tags when asked for, present and given
/// room, and a line of match details when asked for.
pub open spec fn spec_compact_row(
    layout: CompactLayout,
    selected: bool,
    show_tags: bool,
    tag_count: usize,
    show_details: bool,
) -> CompactRow {
    CompactRow {
        pointer: if selected {
            "▸ "
        } else {
            "  "
        },
        source: layout.source_width > 0,
        tags: show_tags && tag_count > 0 && layout.tags_width > 0,
        details: show_details,
        lines: if show_details {
            2
        } else {
            1
        },
    }
}

/// What a compact row shows (see [`spec_compact_row`]).
pub fn compact_row(
    layout: CompactLayout,
    selected: bool,
    show_tags: bool,
    tag_count: usize,
    show_details: bool,
) -> (r: CompactRow)
    ensures
        r == spec_compact_row(layout, selected, show_tags, tag_count, show_details),
{
    CompactRow {
        pointer: if selected {
            "▸ "
        } else {
            "  "
        },
        source: layout.source_width > 0,
        tags: show_tags && tag_count > 0 && layout.tags_width > 0,
        details: show_details,
        lines: if show_details {
            2
        } else {
            1
        },
    }
}

/// The start of the match-details line: an indent, then the context where
/// the search matched and a space, when there is one.
pub open spec fn spec_detail_prefix(context: Option<Seq<char>>) -> Seq<char> {
    match context {
        Some(c) => if c.len() > 0 {
            "    "@ + c + " "@
        } else {
            "    "@
        },
        None => "    "@,
    }
}

/// The start of the match-details line (see [`spec_detail_prefix`]).
pub fn detail_prefix(context: Option<&str>) -> (r: String)
    ensures
        r@ == spec_detail_prefix(
            match context {
                Some(c) => Some(c@),
                None => None,
            },
        ),
{
    let indent = chars_of("    ");
    match context {
        Some(c) => {
            let text = chars_of(c);
            if text.len() > 0 {
                let a = concat(indent.as_slice(), text.as_slice());
                string_of(concat(a.as_slice(), chars_of(" ").as_slice()).as_slice())
            } else {
                string_of(indent.as_slice())
            }
        },
        None => string_of(indent.as_slice()),
    }
}

/// The head line of a compact row fills its width exactly: the two pointer
/// cells, the marker, the name's column, the source's column with its
/// leading space, and the tags' room add up to `columns`.
pub proof fn law_compact_columns_fit(columns: int, source_width: int, layout: LayoutMetrics)
    requires
        2 + layout.marker_width <= columns <= usize::MAX,
        0 <= source_width <= usize::MAX,
    ensures
        ({
            let c = spec_compact_layout(columns, source_width, layout);
            let space = c.source_width + if c.source_width > 0 {
                1int
            } else {
                0
            };
            2 + layout.marker_width + c.name_width + space + c.tags_width == columns
        }),
{
}

/// The columns of a compact row (see [`spec_compact_layout`]).
pub fn compact_layout(columns: usize, source_width: usize, layout: &LayoutMetrics) -> (r:
    CompactLayout)
    requires
        layout.marker_width + 2 <= usize::MAX,
    ensures
        r == spec_compact_layout(columns as int, source_width as int, *layout),
{
    let fixed = 2 + layout.marker_width;
    let content: usize = if columns > fixed {
        columns - fixed
    } else {
        0
    };
    let source: usize = if source_width < content / 2 {
        source_width
    } else {
        content / 2
    };
    let space: usize = source + if source > 0 {
        1
    } else {
        0
    };
    let rest: usize = if content > space {
        content - space
    } else {
        0
    };
    let name: usize = if layout.compact_name_width < rest {
        layout.compact_name_width
    } else {
        rest
    };
    let tags: usize = if content > name + space {
        content - (name + space)
    } else {
        0
    };
    CompactLayout { name_width: name, source_width: source, tags_width: tags }
}

/// The identity row of a card of `columns`: the name's width, and whether
/// the warning of `warning_width` columns (shown only in selection mode)
/// fits beside it with eight columns to spare.
pub open spec fn spec_identity_layout(columns: int, marker_width: int, warning_width: Option<usize>) -> (int, bool) {
    let available = minus(columns, marker_width);
    match warning_width {
        Some(w) => if available > w + 8 {
            (available - w, true)
        } else {
            (available, false)
        },
        None => (available, false),
    }
}

/// The identity row of a card (see [`spec_identity_layout`]).
pub fn identity_layout(columns: usize, marker_width: usize, warning_width: Option<usize>) -> (r: (
    usize,
    bool,
))
    ensures
        (r.0 as int, r.1) == spec_identity_layout(columns as int, marker_width as int, warning_width),
{
    let available: usize = if columns > marker_width {
        columns - marker_width
    } else {
        0
    };
    match warning_width {
        Some(w) => if w < available && available - w > 8 {
            (available - w, true)
        } else {
            (available, false)
        },
        None => (available, false),
    }
}

/// The source's budget on a card's last line of `columns` beside tag
/// pills of `pills_width`, with a space between them when there are pills.
pub fn footer_source_width(columns: usize, pills_width: usize) -> (r: usize)
    ensures
        r == minus(columns as int, pills_width + if pills_width > 0 {
            1int
        } else {
            0
        }),
{
    if pills_width == 0 {
        columns
    } else if pills_width < columns && columns - pills_width > 1 {
        columns - pills_width - 1
    } else {
        0
    }
}

/// The fixed-width leading slot of a skill card, which a checkbox replaces
/// in selection mode.
pub fn health_marker(status: &SkillStatus) -> (r: (&'static str, Tone))
    ensures
        r == (match *status {
            SkillStatus::Local | SkillStatus::Repository => (" ●  ", Tone::Healthy),
            SkillStatus::MissingBaseline => (" ●  ", Tone::Warning),
            SkillStatus::MissingSource => ("!   ", Tone::Warning),
            SkillStatus::Modified => ("~   ", Tone::Warning),
            SkillStatus::Missing | SkillStatus::Invalid { .. } | SkillStatus::CorruptMeta { .. } => (
                "!   ",
                Tone::Error,
            ),
            SkillStatus::Renamed { .. } => ("!   ", Tone::Warning),
        }),
{
    match status {
        SkillStatus::Local | SkillStatus::Repository => (" ●  ", Tone::Healthy),
        SkillStatus::MissingBaseline => (" ●  ", Tone::Warning),
        SkillStatus::MissingSource => ("!   ", Tone::Warning),
        SkillStatus::Modified => ("~   ", Tone::Warning),
        SkillStatus::Missing | SkillStatus::Invalid { .. } | SkillStatus::CorruptMeta { .. } => (
            "!   ",
            Tone::Error,
        ),
        SkillStatus::Renamed { .. } => ("!   ", Tone::Warning),
    }
}

} // verus!
