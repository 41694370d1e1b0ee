//! The two-line readable summary of a skill card: Markdown rendered as
//! plain text, wrapped at a word when that leaves at least half a line,
//! otherwise at a grapheme; a second line that does not fit ends in `…`.
use crate::archive::is_control;
use crate::download::{trim_end_spaces, trim_start_spaces};
use crate::group::is_space;
use crate::install::string_views;
use crate::text::{chars_of, concat, join, join_from, last_index, slice_of, string_of, views};
use ratatui::style::Style;
use ratatui::text::Span;
use vstd::prelude::*;

verus! {

/// The lines of text `tui_markdown` renders `markdown` to.
pub uninterp spec fn markdown_lines(markdown: Seq<char>) -> Seq<Seq<char>>;

/// The graphemes `ratatui` draws `text` as, control characters left out.
pub uninterp spec fn graphemes_of(text: Seq<char>) -> Seq<Seq<char>>;

/// The number of terminal columns `text` takes.
pub uninterp spec fn text_width(text: Seq<char>) -> nat;

/// `tui_markdown::from_str`: the rendered lines of `markdown`, each as the
/// text it displays. Claimed: they are [`markdown_lines`] of the input.
#[verifier::external_body]
pub(crate) fn rendered_lines(markdown: &str) -> (r: Vec<String>)
    ensures
        string_views(r@) == markdown_lines(markdown@),
{
    tui_markdown::from_str(markdown).lines.iter().map(ToString::to_string).collect()
}

/// `text` holds no control character (general category Cc).
pub open spec fn no_control(text: Seq<char>) -> bool {
    forall|i: int| 0 <= i < text.len() ==> !is_control(#[trigger] text[i])
}

/// `ratatui`'s `Span::styled_graphemes`: the extended grapheme clusters of
/// `text` (`unicode-segmentation`), without those holding a control
/// character. Claimed: they are [`graphemes_of`] the text, and, as the
/// clusters split the text, a text without control characters is their
/// concatenation.
#[verifier::external_body]
pub(crate) fn graphemes(text: &str) -> (r: Vec<String>)
    ensures
        string_views(r@) == graphemes_of(text@),
        no_control(text@) ==> flat(string_views(r@), r@.len() as int) == text@,
{
    Span::raw(text).styled_graphemes(Style::default()).map(|g| g.symbol.to_string()).collect()
}

/// `ratatui`'s `Span::width`: the Unicode display width of `text`. Claimed:
/// it is [`text_width`] of the text.
#[verifier::external_body]
pub(crate) fn width(text: &str) -> (r: usize)
    ensures
        r == text_width(text@),
{
    Span::raw(text).width()
}

/// The words of `s`: its maximal runs of characters other than white space.
pub open spec fn words(s: Seq<char>) -> Seq<Seq<char>>
    decreases s.len(),
{
    if s.len() == 0 {
        Seq::<Seq<char>>::empty()
    } else {
        let before = words(s.drop_last());
        if is_space(s.last()) {
            before
        } else if s.len() >= 2 && !is_space(s[s.len() - 2]) && before.len() > 0 {
            before.update(before.len() - 1, before.last().push(s.last()))
        } else {
            before.push(seq![s.last()])
        }
    }
}

/// `s` with its words separated by single spaces.
pub open spec fn normalized(s: Seq<char>) -> Seq<char> {
    join(words(s), seq![' '])
}

/// The plain text of a Markdown description: its rendered lines joined,
/// with white space collapsed.
pub open spec fn plain_text(markdown: Seq<char>) -> Seq<char> {
    normalized(join(markdown_lines(markdown), seq![' ']))
}

/// How many leading graphemes of `gs`, from `i` on with `used` columns
/// taken, fit in `columns`.
pub open spec fn fitting(gs: Seq<Seq<char>>, columns: int, i: int, used: int) -> int
    decreases gs.len() - i,
{
    if i < 0 || i >= gs.len() {
        i
    } else if used + text_width(gs[i]) > columns {
        i
    } else {
        fitting(gs, columns, i + 1, used + text_width(gs[i]))
    }
}

/// The characters of the first `k` graphemes.
pub open spec fn flat(gs: Seq<Seq<char>>, k: int) -> Seq<char>
    decreases k,
{
    if k <= 0 || k > gs.len() {
        Seq::<char>::empty()
    } else {
        flat(gs, k - 1) + gs[k - 1]
    }
}

/// The total width of the first `k` graphemes.
pub open spec fn widths(gs: Seq<Seq<char>>, k: int) -> int
    decreases k,
{
    if k <= 0 || k > gs.len() {
        0
    } else {
        widths(gs, k - 1) + text_width(gs[k - 1])
    }
}

/// The graphemes of `plain` that fit in `columns` take at most that many
/// columns, and they are a prefix of the text: the cut falls between two
/// graphemes.
pub open spec fn cut_between_graphemes(plain: Seq<char>, columns: int) -> bool {
    let gs = graphemes_of(plain);
    let k = fitting(gs, columns, 0, 0);
    &&& widths(gs, k) <= columns
    &&& flat(gs, k) == plain.take(flat(gs, k).len() as int)
}

/// Where a first line may end: at the end of the text, at the cut after the
/// graphemes that fit, or at a space before that cut.
pub open spec fn first_line_end(plain: Seq<char>, columns: int, e: int) -> bool {
    let gs = graphemes_of(plain);
    let cut = flat(gs, fitting(gs, columns, 0, 0)).len() as int;
    e == plain.len() || e == cut || (0 <= e < cut && cut <= plain.len() && plain[e] == ' ')
}

/// The first of two summary lines is the whole text or the text up to a
/// permitted end (see [`first_line_end`]), without trailing spaces.
pub open spec fn first_line_breaks_cleanly(plain: Seq<char>, columns: int, first: Seq<char>) -> bool {
    first == plain || exists|e: int|
        first_line_end(plain, columns, e) && first == trim_end_spaces(#[trigger] plain.take(e))
}

/// Widths of graphemes are never negative, so the width of a prefix grows
/// with its length.
proof fn lemma_widths_monotonic(gs: Seq<Seq<char>>, j: int, n: int)
    requires
        0 <= j <= n <= gs.len(),
    ensures
        widths(gs, j) <= widths(gs, n),
    decreases n - j,
{
    if j < n {
        lemma_widths_monotonic(gs, j, n - 1);
    }
}

/// The graphemes [`fitting`] keeps take at most `columns`, and all of them
/// are kept when they all fit.
proof fn lemma_fitting(gs: Seq<Seq<char>>, columns: int, i: int, used: int)
    requires
        0 <= i <= gs.len(),
        used == widths(gs, i),
        used <= columns,
    ensures
        i <= fitting(gs, columns, i, used) <= gs.len(),
        widths(gs, fitting(gs, columns, i, used)) <= columns,
        widths(gs, gs.len() as int) <= columns ==> fitting(gs, columns, i, used) == gs.len(),
    decreases gs.len() - i,
{
    if i < gs.len() {
        if used + text_width(gs[i]) <= columns {
            lemma_fitting(gs, columns, i + 1, used + text_width(gs[i]));
        } else {
            lemma_widths_monotonic(gs, i + 1, gs.len() as int);
        }
    }
}

/// The characters of the first `k` graphemes begin those of the first `n`.
proof fn lemma_flat_prefix(gs: Seq<Seq<char>>, k: int, n: int)
    requires
        0 <= k <= n <= gs.len(),
    ensures
        flat(gs, k).len() <= flat(gs, n).len(),
        flat(gs, k) == flat(gs, n).take(flat(gs, k).len() as int),
    decreases n - k,
{
    if k < n {
        lemma_flat_prefix(gs, k, n - 1);
        let a = flat(gs, n - 1);
        assert(flat(gs, n) == a + gs[n - 1]);
        assert((a + gs[n - 1]).take(flat(gs, k).len() as int) =~= a.take(
            flat(gs, k).len() as int,
        ));
    } else {
        assert(flat(gs, n).take(flat(gs, n).len() as int) =~= flat(gs, n));
    }
}

/// A found last index holds the character, inside the sequence.
proof fn lemma_last_index_found(s: Seq<char>, c: char)
    ensures
        last_index(s, c) >= 0 ==> last_index(s, c) < s.len() && s[last_index(s, c)] == c,
        last_index(s, c) >= -1,
    decreases s.len(),
{
    if s.len() > 0 && s.last() != c {
        lemma_last_index_found(s.drop_last(), c);
    }
}

/// Where [`spec_wrap`] breaks a text whose graphemes make it up: between
/// graphemes that fit, or at a space before them; a text whose graphemes
/// all fit stays on the first line.
proof fn lemma_wrap_breaks(plain: Seq<char>, columns: int)
    requires
        columns > 0,
        flat(graphemes_of(plain), graphemes_of(plain).len() as int) == plain,
    ensures
        cut_between_graphemes(plain, columns),
        first_line_breaks_cleanly(plain, columns, spec_wrap(plain, columns).0),
        widths(graphemes_of(plain), graphemes_of(plain).len() as int) <= columns ==> spec_wrap(
            plain,
            columns,
        ) == (plain, Seq::<char>::empty()),
{
    let gs = graphemes_of(plain);
    lemma_fitting(gs, columns, 0, 0);
    let k = fitting(gs, columns, 0, 0);
    lemma_flat_prefix(gs, k, gs.len() as int);
    let cut = flat(gs, k).len() as int;
    if cut < plain.len() {
        let space = last_index(plain.take(cut), ' ');
        lemma_last_index_found(plain.take(cut), ' ');
        let end = if space >= 0 && text_width(plain.take(space)) >= columns / 2 {
            space
        } else {
            cut
        };
        assert(first_line_end(plain, columns, end));
        assert(spec_wrap(plain, columns).0 == trim_end_spaces(plain.take(end)));
    }
}

/// `text` when its width fits in `columns`; else its graphemes that fit in
/// one column less, then `…`.
pub open spec fn fit_or_cut(text: Seq<char>, columns: int) -> Seq<char> {
    if text_width(text) <= columns {
        text
    } else {
        let rg = graphemes_of(text);
        flat(rg, fitting(rg, columns - 1, 0, 0)).push('…')
    }
}

/// A line made by [`fit_or_cut`] from `text` stays within `columns`: it is
/// `text` whose width fits, or graphemes of `text` taking at most one column
/// less, followed by `…`.
pub open spec fn line_within(line: Seq<char>, text: Seq<char>, columns: int) -> bool {
    let rg = graphemes_of(text);
    let k = fitting(rg, columns - 1, 0, 0);
    (line == text && text_width(text) <= columns) || (widths(rg, k) <= columns - 1 && line
        == flat(rg, k).push('…'))
}

/// Whatever text a second line is cut from, it stays within its columns.
pub proof fn law_second_line_within(text: Seq<char>, columns: int)
    requires
        columns > 0,
    ensures
        line_within(fit_or_cut(text, columns), text, columns),
{
    lemma_fitting(graphemes_of(text), columns - 1, 0, 0);
}

/// Where the first line breaks when its graphemes fit up to `end0`: at the
/// last space before it when that keeps at least half a line, else there.
pub open spec fn break_at(plain: Seq<char>, columns: int, end0: int) -> int {
    let space = last_index(plain.take(end0), ' ');
    if space >= 0 && text_width(plain.take(space)) >= columns / 2 {
        space
    } else {
        end0
    }
}

/// The text the second line is made from: what follows the break, without
/// its leading spaces.
pub open spec fn second_source(plain: Seq<char>, columns: int, end0: int) -> Seq<char> {
    trim_start_spaces(plain.skip(break_at(plain, columns, end0)))
}

/// The text the second line of `plain` in `columns` is made from (see
/// [`second_source`]).
pub open spec fn wrap_source(plain: Seq<char>, columns: int) -> Seq<char> {
    let gs = graphemes_of(plain);
    let fit = flat(gs, fitting(gs, columns, 0, 0)).len();
    let end0 = if fit < plain.len() {
        fit as int
    } else {
        plain.len() as int
    };
    second_source(plain, columns, end0)
}

/// The two lines of `plain` in `columns`: the graphemes that fit, moved
/// back to the last space when that keeps at least half a line; then the
/// rest, or as much of it as fits before `…`. Lengths are counted in
/// characters, and the first line stops at the end of the text.
pub open spec fn spec_wrap(plain: Seq<char>, columns: int) -> (Seq<char>, Seq<char>) {
    if columns <= 0 {
        (Seq::<char>::empty(), Seq::<char>::empty())
    } else {
        let gs = graphemes_of(plain);
        let fit = flat(gs, fitting(gs, columns, 0, 0)).len();
        let end0 = if fit < plain.len() {
            fit as int
        } else {
            plain.len() as int
        };
        if end0 == plain.len() {
            (plain, Seq::<char>::empty())
        } else {
            let end = break_at(plain, columns, end0);
            let first = trim_end_spaces(plain.take(end));
            (first, fit_or_cut(second_source(plain, columns, end0), columns))
        }
    }
}

/// The characters of the leading graphemes of `gs` that fit in `columns`
/// (see [`fitting`] and [`flat`]).
pub(crate) fn fitting_prefix(gs: &Vec<String>, columns: usize) -> (r: Vec<char>)
    ensures
        r@ == flat(string_views(gs@), fitting(string_views(gs@), columns as int, 0, 0)),
{
    let ghost g = string_views(gs@);
    let mut out: Vec<char> = Vec::new();
    let mut used: usize = 0;
    let mut i: usize = 0;
    while i < gs.len()
        invariant
            i <= gs@.len(),
            g == string_views(gs@),
            used <= columns,
            fitting(g, columns as int, 0, 0) == fitting(g, columns as int, i as int, used as int),
            out@ == flat(g, i as int),
        decreases gs@.len() - i,
    {
        let w = width(gs[i].as_str());
        assert(g[i as int] == gs@[i as int]@);
        if w > columns - used {
            return out;
        }
        used = used + w;
        out = concat(out.as_slice(), chars_of(gs[i].as_str()).as_slice());
        i = i + 1;
    }
    out
}

/// `s` without leading and trailing white space, as chosen.
fn trim_spaces(s: &[char], start: bool, end: bool) -> (r: Vec<char>)
    ensures
        r@ == (if start && end {
            trim_end_spaces(trim_start_spaces(s@))
        } else if start {
            trim_start_spaces(s@)
        } else if end {
            trim_end_spaces(s@)
        } else {
            s@
        }),
{
    let mut from: usize = 0;
    assert(s@.skip(0) =~= s@);
    if start {
        while from < s.len() && is_space_char(s[from])
            invariant
                from <= s@.len(),
                trim_start_spaces(s@) == trim_start_spaces(s@.skip(from as int)),
            decreases s@.len() - from,
        {
            proof {
                assert(s@.skip(from as int).drop_first() =~= s@.skip(from + 1));
            }
            from = from + 1;
        }
        proof {
            let t = s@.skip(from as int);
            if t.len() > 0 {
                assert(t[0] == s@[from as int]);
            }
        }
    }
    let mut to: usize = s.len();
    if end {
        while to > from && is_space_char(s[to - 1])
            invariant
                from <= to <= s@.len(),
                trim_end_spaces(s@.subrange(from as int, s@.len() as int)) == trim_end_spaces(
                    s@.subrange(from as int, to as int),
                ),
            decreases to,
        {
            proof {
                assert(s@.subrange(from as int, to as int).drop_last() =~= s@.subrange(
                    from as int,
                    to - 1,
                ));
            }
            to = to - 1;
        }
        proof {
            let t = s@.subrange(from as int, to as int);
            if t.len() > 0 {
                assert(t.last() == s@[to - 1]);
            }
        }
    }
    proof {
        assert(s@.skip(from as int) =~= s@.subrange(from as int, s@.len() as int));
        assert(s@.skip(0) =~= s@);
    }
    slice_of(s, from, to)
}

fn is_space_char(c: char) -> (r: bool)
    ensures
        r == is_space(c),
{
    let n: u32 = c as u32;
    (0x9 <= n && n <= 0xd) || n == 0x20 || n == 0x85 || n == 0xa0 || n == 0x1680 || (0x2000 <= n
        && n <= 0x200a) || n == 0x2028 || n == 0x2029 || n == 0x202f || n == 0x205f || n == 0x3000
}

/// The two summary lines of `plain` in `columns` (see [`spec_wrap`]).
pub fn wrap_summary(plain: &str, columns: usize) -> (r: (String, String))
    ensures
        (r.0@, r.1@) == spec_wrap(plain@, columns as int),
        columns == 0 ==> r.0@.len() == 0 && r.1@.len() == 0,
        no_control(plain@) && columns > 0 ==> cut_between_graphemes(plain@, columns as int),
        no_control(plain@) && columns > 0 ==> first_line_breaks_cleanly(
            plain@,
            columns as int,
            r.0@,
        ),
        no_control(plain@) && columns > 0 && widths(
            graphemes_of(plain@),
            graphemes_of(plain@).len() as int,
        ) <= columns ==> r.0@ == plain@ && r.1@.len() == 0,
        columns > 0 ==> r.1@.len() == 0 || line_within(r.1@, wrap_source(plain@, columns as int), columns as int),
{
    proof {
        if columns > 0 {
            law_second_line_within(wrap_source(plain@, columns as int), columns as int);
        }
    }
    if columns == 0 {
        return (String::new(), String::new());
    }
    let text = chars_of(plain);
    let gs = graphemes(plain);
    proof {
        if no_control(plain@) {
            lemma_wrap_breaks(plain@, columns as int);
        }
    }
    let fit = fitting_prefix(&gs, columns).len();
    let end0 = if fit < text.len() {
        fit
    } else {
        text.len()
    };
    if end0 == text.len() {
        return (plain.to_owned(), String::new());
    }
    let head = slice_of(text.as_slice(), 0, end0);
    assert(head@ == plain@.take(end0 as int));
    let mut end = end0;
    match crate::text::find_last(head.as_slice(), ' ') {
        Some(space) => {
            let before = slice_of(text.as_slice(), 0, space);
            assert(before@ == plain@.take(space as int));
            if width(string_of(before.as_slice()).as_str()) >= columns / 2 {
                end = space;
            }
        },
        None => {},
    }
    let first = trim_spaces(slice_of(text.as_slice(), 0, end).as_slice(), false, true);
    assert(plain@.take(end as int) == text@.subrange(0, end as int));
    let rest = trim_spaces(slice_of(text.as_slice(), end, text.len()).as_slice(), true, false);
    assert(plain@.skip(end as int) == text@.subrange(end as int, text@.len() as int));
    let rest_text = string_of(rest.as_slice());
    let second = if width(rest_text.as_str()) <= columns {
        rest_text
    } else {
        let rg = graphemes(rest_text.as_str());
        let mut kept = fitting_prefix(&rg, columns - 1);
        kept.push('…');
        string_of(kept.as_slice())
    };
    (string_of(first.as_slice()), second)
}

/// `s` with its words separated by single spaces (see [`normalized`]).
fn normalize(s: &[char]) -> (r: Vec<char>)
    ensures
        r@ == normalized(s@),
{
    let mut words_found: Vec<Vec<char>> = Vec::new();
    let mut i: usize = 0;
    while i < s.len()
        invariant
            i <= s@.len(),
            views(words_found@) == words(s@.take(i as int)),
        decreases s@.len() - i,
    {
        let ghost t = s@.take(i + 1);
        proof {
            assert(t.drop_last() =~= s@.take(i as int));
            assert(t.last() == s@[i as int]);
        }
        let c = s[i];
        if is_space_char(c) {
        } else if i >= 1 && !is_space_char(s[i - 1]) && words_found.len() > 0 {
            proof {
                assert(t[t.len() - 2] == s@[i - 1]);
            }
            let k = words_found.len() - 1;
            let ghost before = views(words_found@);
            let mut last = words_found.pop().unwrap();
            last.push(c);
            words_found.push(last);
            assert(views(words_found@) =~= before.update(k as int, before.last().push(c)));
        } else {
            proof {
                if i >= 1 {
                    assert(t[t.len() - 2] == s@[i - 1]);
                }
            }
            let ghost before = views(words_found@);
            let mut w: Vec<char> = Vec::new();
            w.push(c);
            words_found.push(w);
            assert(views(words_found@) =~= before.push(seq![c]));
        }
        i = i + 1;
    }
    assert(s@.take(s@.len() as int) =~= s@);
    let space = [' '];
    assert(space@ =~= seq![' ']);
    let out = join_from(&words_found, 0, &space);
    assert(views(words_found@).skip(0) =~= views(words_found@));
    out
}

/// The plain text of a Markdown description (see [`plain_text`]).
pub fn plain_summary(markdown: &str) -> (r: String)
    ensures
        r@ == plain_text(markdown@),
{
    let lines = rendered_lines(markdown);
    let mut parts: Vec<Vec<char>> = Vec::new();
    let mut i: usize = 0;
    while i < lines.len()
        invariant
            i <= lines@.len(),
            views(parts@) == string_views(lines@).take(i as int),
        decreases lines@.len() - i,
    {
        let ghost before = views(parts@);
        parts.push(chars_of(lines[i].as_str()));
        assert(views(parts@) =~= before.push(lines@[i as int]@));
        assert(string_views(lines@).take(i + 1) =~= string_views(lines@).take(i as int).push(
            lines@[i as int]@,
        ));
        i = i + 1;
    }
    assert(string_views(lines@).take(lines@.len() as int) =~= string_views(lines@));
    let space = [' '];
    assert(space@ =~= seq![' ']);
    let joined = join_from(&parts, 0, &space);
    assert(views(parts@).skip(0) =~= views(parts@));
    string_of(normalize(joined.as_slice()).as_slice())
}

/// Renders Markdown as readable text and wraps it into two lines of
/// `columns`: at words where possible, at grapheme boundaries otherwise,
/// never splitting an emoji. No columns give two empty lines; for text
/// without control characters the graphemes kept on the first line fit in
/// `columns`, the line ends between graphemes or at a space before them, and
/// text whose graphemes all fit leaves the second line empty. The second
/// line is the rest when its width fits, else graphemes of the rest taking
/// at most one column less, then `…` (see [`line_within`]).
pub fn summary_lines(markdown: &str, columns: usize) -> (r: (String, String))
    ensures
        (r.0@, r.1@) == spec_wrap(plain_text(markdown@), columns as int),
        columns == 0 ==> r.0@.len() == 0 && r.1@.len() == 0,
        no_control(plain_text(markdown@)) && columns > 0 ==> cut_between_graphemes(
            plain_text(markdown@),
            columns as int,
        ),
        no_control(plain_text(markdown@)) && columns > 0 ==> first_line_breaks_cleanly(
            plain_text(markdown@),
            columns as int,
            r.0@,
        ),
        no_control(plain_text(markdown@)) && columns > 0 && widths(
            graphemes_of(plain_text(markdown@)),
            graphemes_of(plain_text(markdown@)).len() as int,
        ) <= columns ==> r.0@ == plain_text(markdown@) && r.1@.len() == 0,
        columns > 0 ==> r.1@.len() == 0 || line_within(
            r.1@,
            wrap_source(plain_text(markdown@), columns as int),
            columns as int,
        ),
{
    let plain = plain_summary(markdown);
    wrap_summary(plain.as_str(), columns)
}

} // verus!
