//! The colour chooser shared by tags and presets: which rows it offers,
//! where it starts, and which colour it would apply.
use crate::color::{parse_color, parsed_color, Color};
use crate::download::{trim_end_spaces, trim_start_spaces};
use crate::group::is_space;
use crate::install::string_views;
use crate::text::{chars_of, string_of};
use vstd::prelude::*;

verus! {

/// The row that takes a colour away again.
pub open spec fn no_color() -> Seq<char> {
    seq!['n', 'o', 'n', 'e']
}

/// The rows of a colour prompt: the theme's choices and "none", with the
/// current colour in front when it is neither.
pub open spec fn spec_color_rows(current: Option<Seq<char>>, palette: Seq<Seq<char>>) -> Seq<Seq<char>> {
    let base = palette.push(no_color());
    match current {
        Some(c) => if base.contains(c) {
            base
        } else {
            seq![c] + base
        },
        None => base,
    }
}

/// The index of the first row equal to `wanted`, if any.
pub open spec fn first_row(rows: Seq<Seq<char>>, wanted: Seq<char>) -> Option<int> {
    if rows.contains(wanted) {
        Some(choose|i: int| 0 <= i < rows.len() && rows[i] == wanted && forall|j: int| 0 <= j < i ==> rows[j] != wanted)
    } else {
        None
    }
}

fn same(a: &String, b: &[char]) -> (r: bool)
    ensures
        r == (a@ == b@),
{
    crate::text::same_chars(chars_of(a.as_str()).as_slice(), b)
}

/// The rows of a colour prompt and the one it starts on: the current
/// colour, or "none" without one (see [`spec_color_rows`]).
pub fn color_rows(current: Option<&str>, palette: &[String]) -> (r: (Vec<String>, Option<usize>))
    ensures
        string_views(r.0@) == spec_color_rows(
            match current {
                Some(c) => Some(c@),
                None => None,
            },
            string_views(palette@),
        ),
        match r.1 {
            Some(i) => first_row(string_views(r.0@), match current {
                Some(c) => c@,
                None => no_color(),
            }) == Some(i as int),
            None => first_row(string_views(r.0@), match current {
                Some(c) => c@,
                None => no_color(),
            }) is None,
        },
{
    let none = ['n', 'o', 'n', 'e'];
    assert(none@ == no_color());
    let mut rows: Vec<String> = Vec::new();
    let mut i: usize = 0;
    while i < palette.len()
        invariant
            i <= palette@.len(),
            string_views(rows@) == string_views(palette@).take(i as int),
        decreases palette@.len() - i,
    {
        let ghost before = rows@;
        rows.push(palette[i].clone());
        assert(string_views(rows@) =~= string_views(before).push(palette@[i as int]@));
        assert(string_views(palette@).take(i + 1) =~= string_views(palette@).take(i as int).push(
            palette@[i as int]@,
        ));
        i = i + 1;
    }
    assert(string_views(palette@).take(palette@.len() as int) =~= string_views(palette@));
    let ghost before = rows@;
    rows.push(string_of(&none));
    assert(string_views(rows@) =~= string_views(before).push(no_color()));
    let wanted: Vec<char> = match current {
        Some(c) => chars_of(c),
        None => crate::text::slice_of(&none, 0, 4),
    };
    assert(none@.subrange(0, 4) =~= none@);
    assert(wanted@ == match current {
        Some(c) => c@,
        None => no_color(),
    });
    if current.is_some() && find_row(&rows, wanted.as_slice()).is_none() {
        let ghost base = string_views(rows@);
        rows.insert(0, string_of(wanted.as_slice()));
        assert(string_views(rows@) =~= seq![wanted@] + base);
    }
    let selected = find_row(&rows, wanted.as_slice());
    (rows, selected)
}

fn find_row(rows: &Vec<String>, wanted: &[char]) -> (r: Option<usize>)
    ensures
        match r {
            Some(i) => first_row(string_views(rows@), wanted@) == Some(i as int),
            None => first_row(string_views(rows@), wanted@) is None,
        },
{
    let ghost v = string_views(rows@);
    let mut i: usize = 0;
    while i < rows.len()
        invariant
            i <= rows@.len(),
            v == string_views(rows@),
            forall|j: int| 0 <= j < i ==> v[j] != wanted@,
        decreases rows@.len() - i,
    {
        if same(&rows[i], wanted) {
            assert(v[i as int] == wanted@);
            assert(v.contains(wanted@));
            let ghost k = choose|k: int| 0 <= k < v.len() && v[k] == wanted@ && forall|j: int| 0 <= j < k ==> v[j] != wanted@;
            assert(0 <= i < v.len() && v[i as int] == wanted@ && forall|j: int| 0 <= j < i ==> v[j] != wanted@);
            assert(k == i) by {
                if k < i {
                    assert(v[k] != wanted@);
                } else if k > i {
                    assert(v[i as int] != wanted@);
                }
            }
            return Some(i);
        }
        i = i + 1;
    }
    assert(!v.contains(wanted@));
    None
}

fn is_space_char(c: char) -> (r: bool)
    ensures
        r == is_space(c),
{
    let n: u32 = c as u32;
    (0x9 <= n && n <= 0xd) || n == 0x20 || n == 0x85 || n == 0xa0 || n == 0x1680 || (0x2000 <= n
        && n <= 0x200a) || n == 0x2028 || n == 0x2029 || n == 0x202f || n == 0x205f || n == 0x3000
}

/// `s` without leading and trailing white space.
fn trimmed_text(s: &str) -> (r: String)
    ensures
        r@ == trim_end_spaces(trim_start_spaces(s@)),
{
    let t = chars_of(s);
    let mut from: usize = 0;
    assert(t@.skip(0) =~= t@);
    while from < t.len() && is_space_char(t[from])
        invariant
            from <= t@.len(),
            t@ == s@,
            trim_start_spaces(s@) == trim_start_spaces(t@.skip(from as int)),
        decreases t@.len() - from,
    {
        assert(t@.skip(from as int).drop_first() =~= t@.skip(from + 1));
        from = from + 1;
    }
    let ghost u = t@.skip(from as int);
    assert(u.len() > 0 ==> u[0] == t@[from as int]);
    assert(trim_start_spaces(u) == u);
    let mut to: usize = t.len();
    assert(t@.subrange(from as int, t@.len() as int) =~= u);
    while to > from && is_space_char(t[to - 1])
        invariant
            from <= to <= t@.len(),
            trim_end_spaces(u) == trim_end_spaces(t@.subrange(from as int, to as int)),
        decreases to,
    {
        assert(t@.subrange(from as int, to as int).drop_last() =~= t@.subrange(from as int, to - 1));
        to = to - 1;
    }
    let ghost w = t@.subrange(from as int, to as int);
    assert(w.len() > 0 ==> w.last() == t@[to - 1]);
    assert(trim_end_spaces(w) == w);
    string_of(crate::text::slice_of(t.as_slice(), from, to).as_slice())
}

/// The colour text a prompt would write: what was typed (trimmed) when it
/// names a colour; else the highlighted row, with "none" for no colour;
/// nothing when no row is highlighted.
pub open spec fn spec_color_text(typed: Seq<char>, chosen: Option<Seq<char>>) -> Option<Option<Seq<char>>> {
    let t = trim_end_spaces(trim_start_spaces(typed));
    if parsed_color(t) is Some {
        Some(Some(t))
    } else {
        match chosen {
            Some(name) => if name == no_color() {
                Some(None)
            } else {
                Some(Some(name))
            },
            None => None,
        }
    }
}

/// The colour text a prompt would write (see [`spec_color_text`]).
pub fn color_text(typed: &str, chosen: Option<&str>) -> (r: Option<Option<String>>)
    ensures
        match r {
            Some(Some(s)) => spec_color_text(typed@, match chosen {
                Some(c) => Some(c@),
                None => None,
            }) == Some(Some(s@)),
            Some(None) => spec_color_text(typed@, match chosen {
                Some(c) => Some(c@),
                None => None,
            }) == Some(None::<Seq<char>>),
            None => spec_color_text(typed@, match chosen {
                Some(c) => Some(c@),
                None => None,
            }) is None,
        },
{
    let t = trimmed_text(typed);
    if parse_color(t.as_str()).is_some() {
        return Some(Some(t));
    }
    let none = ['n', 'o', 'n', 'e'];
    assert(none@ == no_color());
    match chosen {
        Some(name) => if crate::text::same_chars(chars_of(name).as_slice(), &none) {
            Some(None)
        } else {
            Some(Some(name.to_owned()))
        },
        None => None,
    }
}

/// The colour a prompt would apply: the typed one when it parses; else the
/// highlighted row, "none" meaning no colour; nothing when no row is
/// highlighted or the row names no colour.
pub open spec fn spec_prompt_color(typed: Seq<char>, chosen: Option<Seq<char>>) -> Option<Option<Color>> {
    let t = trim_end_spaces(trim_start_spaces(typed));
    match parsed_color(t) {
        Some(c) => Some(Some(c)),
        None => match chosen {
            Some(name) => if name == no_color() {
                Some(None)
            } else {
                match parsed_color(name) {
                    Some(c) => Some(Some(c)),
                    None => None,
                }
            },
            None => None,
        },
    }
}

/// The colour a prompt would apply (see [`spec_prompt_color`]).
pub fn prompt_color(typed: &str, chosen: Option<&str>) -> (r: Option<Option<Color>>)
    ensures
        r == spec_prompt_color(typed@, match chosen {
            Some(c) => Some(c@),
            None => None,
        }),
{
    let t = trimmed_text(typed);
    if let Some(c) = parse_color(t.as_str()) {
        return Some(Some(c));
    }
    let none = ['n', 'o', 'n', 'e'];
    assert(none@ == no_color());
    match chosen {
        Some(name) => if crate::text::same_chars(chars_of(name).as_slice(), &none) {
            Some(None)
        } else {
            match parse_color(name) {
                Some(c) => Some(Some(c)),
                None => None,
            }
        },
        None => None,
    }
}

} // verus!
