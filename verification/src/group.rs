//! Shared presentation rules for tags and presets.
use crate::color::{choose_color, parse_color, parsed_color, Color, Theme};
use crate::icons::{preset_caps, spec_preset_caps, Icons};
use crate::download::{decimal, decimal_string};
use crate::install::{sort_strings, sorted_texts, string_views, text_lt};
use crate::text::{chars_of, concat, string_of};
use vstd::prelude::*;

verus! {

/// The two kinds of skill group.
#[derive(Debug, Clone, Copy, PartialEq, Eq, Structural)]
pub enum Kind {
    Tag,
    Preset,
}

impl Kind {
    /// The glyph that opens a group's identity: a dot for tags, the left cap
    /// of the package shape for presets.
    pub fn marker(self, icons: Icons) -> (r: &'static str)
        ensures
            r == (match self {
                Kind::Tag => "●",
                Kind::Preset => spec_preset_caps(icons).0,
            }),
    {
        match self {
            Kind::Tag => "●",
            Kind::Preset => preset_caps(icons).0,
        }
    }
}

/// What a group prompt asks for.
#[derive(Debug, Clone, Copy, PartialEq, Eq, Structural)]
pub enum Ask {
    /// Which tag the selected one is merged into.
    Merge,
    /// What colour identifies the selected tag or preset.
    Color,
}

/// The colour a group is drawn in: the one it names when that parses, else
/// the theme's tag colour.
pub open spec fn spec_group_color(explicit: Option<Seq<char>>, fallback: Color) -> Color {
    match explicit {
        Some(text) => match parsed_color(text) {
            Some(c) => c,
            None => fallback,
        },
        None => fallback,
    }
}

/// Tags and presets use the same neutral fallback for missing or invalid
/// colours (see [`spec_group_color`]).
pub fn color(explicit: Option<&str>, theme: &Theme) -> (r: Color)
    ensures
        r == spec_group_color(
            match explicit {
                Some(s) => Some(s@),
                None => None,
            },
            theme.tag,
        ),
{
    match explicit {
        Some(text) => choose_color(parse_color(text), theme.tag),
        None => theme.tag,
    }
}

/// A character of the Unicode `White_Space` property, which `str::trim`
/// removes.
pub open spec fn is_space(c: char) -> bool {
    let n = c as u32;
    (0x9 <= n && n <= 0xd) || n == 0x20 || n == 0x85 || n == 0xa0 || n == 0x1680 || (0x2000 <= n
        && n <= 0x200a) || n == 0x2028 || n == 0x2029 || n == 0x202f || n == 0x205f || n == 0x3000
}

/// `s` has a character that is not white space: it is not empty once
/// trimmed.
pub open spec fn has_text(s: Seq<char>) -> bool {
    exists|i: int| 0 <= i < s.len() && !is_space(#[trigger] s[i])
}

fn is_space_char(c: char) -> (r: bool)
    ensures
        r == is_space(c),
{
    let n: u32 = c as u32;
    (0x9 <= n && n <= 0xd) || n == 0x20 || n == 0x85 || n == 0xa0 || n == 0x1680 || (0x2000 <= n
        && n <= 0x200a) || n == 0x2028 || n == 0x2029 || n == 0x202f || n == 0x205f || n == 0x3000
}

/// Whether `s` holds anything but white space.
pub fn visible(s: &str) -> (r: bool)
    ensures
        r == has_text(s@),
{
    let text = chars_of(s);
    let mut i: usize = 0;
    while i < text.len()
        invariant
            i <= text@.len(),
            text@ == s@,
            forall|j: int| 0 <= j < i ==> is_space(#[trigger] text@[j]),
        decreases text@.len() - i,
    {
        if !is_space_char(text[i]) {
            return true;
        }
        i = i + 1;
    }
    false
}

/// One identity row plus the optional description, enclosed by two border
/// rows; a description of white space alone takes no row.
pub fn card_height(description: Option<&str>) -> (r: u16)
    ensures
        r == 3 + (match description {
            Some(d) => if has_text(d@) {
                1int
            } else {
                0
            },
            None => 0,
        }),
{
    match description {
        Some(d) => if visible(d) {
            4
        } else {
            3
        },
        None => 3,
    }
}

/// The mark before a coverage count: nothing to cover, all, none, or part.
pub fn coverage_mark(installed: usize, total: usize) -> (r: &'static str)
    ensures
        r == (if total == 0 {
            "◦ "
        } else if installed == total {
            "✓ "
        } else if installed == 0 {
            "◌ "
        } else {
            "◐ "
        }),
{
    if total == 0 {
        "◦ "
    } else if installed == total {
        "✓ "
    } else if installed == 0 {
        "◌ "
    } else {
        "◐ "
    }
}

/// The number of decimal digits of `n`.
pub open spec fn digits(n: int) -> int
    decreases n,
{
    if n < 10 {
        1
    } else {
        1 + digits(n / 10)
    }
}

/// The width of the ` +n` that stands for `n` hidden badges.
pub open spec fn reserve_width(n: int) -> int {
    if n > 0 {
        2 + digits(n)
    } else {
        0
    }
}

/// The width of the ` +n` that stands for `n` hidden badges (see
/// [`reserve_width`]).
pub fn reserve(n: usize) -> (r: usize)
    ensures
        r == reserve_width(n as int),
        r <= 22,
{
    if n == 0 {
        return 0;
    }
    proof {
        lemma_digits_bound(n as int);
    }
    let mut count: usize = 1;
    let mut rest: usize = n;
    while rest >= 10
        invariant
            1 <= count <= 20,
            count + digits(rest as int) == 1 + digits(n as int),
            digits(n as int) <= 20,
        decreases rest,
    {
        proof {
            lemma_digits_positive(rest as int / 10);
        }
        rest = rest / 10;
        count = count + 1;
    }
    2 + count
}

/// `10` to the power `k`.
pub open spec fn pow10(k: nat) -> int
    decreases k,
{
    if k == 0 {
        1
    } else {
        10 * pow10((k - 1) as nat)
    }
}

proof fn lemma_digits_positive(n: int)
    ensures
        digits(n) >= 1,
    decreases n,
{
    if n >= 10 {
        lemma_digits_positive(n / 10);
    }
}

proof fn lemma_digits_below(n: int, k: nat)
    requires
        0 <= n < pow10(k),
        k >= 1,
    ensures
        digits(n) <= k,
    decreases k,
{
    if n >= 10 {
        assert(k >= 2) by {
            if k == 1 {
                assert(pow10(1) == 10) by {
                    reveal_with_fuel(pow10, 2);
                }
            }
        }
        lemma_digits_below(n / 10, (k - 1) as nat);
    }
}

proof fn lemma_digits_bound(n: int)
    requires
        0 <= n <= usize::MAX,
    ensures
        1 <= digits(n) <= 20,
{
    lemma_digits_positive(n);
    assert(pow10(20) == 100000000000000000000) by {
        reveal_with_fuel(pow10, 21);
    }
    lemma_digits_below(n, 20);
}

/// The width a badge at `index` of `count` may be rendered in: the whole
/// budget less the room for the hidden count when only one name is shown,
/// unbounded otherwise.
pub fn badge_budget(index: usize, count: usize, max_width: usize, max_names: usize) -> (r: usize)
    requires
        index < count,
    ensures
        r == (if max_names == 1 {
            if max_width >= reserve_width(count - index - 1) {
                max_width - reserve_width(count - index - 1)
            } else {
                0
            }
        } else {
            usize::MAX as int
        }),
{
    if max_names == 1 {
        let held = reserve(count - index - 1);
        if max_width >= held {
            max_width - held
        } else {
            0
        }
    } else {
        usize::MAX
    }
}

/// How many badges of rendered widths `widths` fit from `index` on, with
/// `used` columns taken: a badge is placed when it is among the first
/// `max_names`, rendered to something, and fits with a space before it and
/// room for the count of those after it. Gives the number placed and the
/// columns they take.
pub open spec fn packed(widths: Seq<usize>, max_width: int, max_names: int, index: int, used: int) -> (
    int,
    int,
)
    decreases widths.len() - index,
{
    if index < 0 || index >= widths.len() {
        (index, used)
    } else {
        let w = widths[index] + if index > 0 {
            1int
        } else {
            0
        };
        let held = reserve_width(widths.len() - index - 1);
        if index >= max_names || widths[index] == 0 || used + w + held > max_width {
            (index, used)
        } else {
            packed(widths, max_width, max_names, index + 1, used + w)
        }
    }
}

/// One packing policy for membership badges in cards and detail rows (see
/// [`packed`]): the number of badges shown, then the columns they take;
/// the rest are summed up as `+n`.
pub fn pack_badges(widths: &[usize], max_width: usize, max_names: usize) -> (r: (usize, usize))
    ensures
        (r.0 as int, r.1 as int) == packed(widths@, max_width as int, max_names as int, 0, 0),
        r.0 <= widths@.len(),
        r.1 <= max_width,
{
    let n = widths.len();
    let mut used: usize = 0;
    let mut i: usize = 0;
    while i < n
        invariant
            n == widths@.len(),
            i <= n,
            used <= max_width,
            packed(widths@, max_width as int, max_names as int, 0, 0) == packed(
                widths@,
                max_width as int,
                max_names as int,
                i as int,
                used as int,
            ),
        decreases n - i,
    {
        let gap: usize = if i > 0 {
            1
        } else {
            0
        };
        let held = reserve(n - i - 1);
        if i >= max_names || widths[i] == 0 || widths[i] > max_width || max_width - widths[i] < gap
            || max_width - widths[i] - gap < used || max_width - widths[i] - gap - used < held {
            return (i, used);
        }
        used = used + widths[i] + gap;
        i = i + 1;
    }
    (i, used)
}

/// Packed badges never take more than the width they were given.
pub proof fn law_badges_fit(widths: Seq<usize>, max_width: int, max_names: int, index: int, used: int)
    requires
        0 <= used <= max_width,
    ensures
        packed(widths, max_width, max_names, index, used).1 <= max_width,
        packed(widths, max_width, max_names, index, used).1 >= used,
    decreases widths.len() - index,
{
    if 0 <= index < widths.len() {
        let w = widths[index] + if index > 0 {
            1int
        } else {
            0
        };
        let held = reserve_width(widths.len() - index - 1);
        if widths.len() - index - 1 > 0 {
            lemma_digits_positive(widths.len() - index - 1);
        }
        if !(index >= max_names || widths[index] == 0 || used + w + held > max_width) {
            law_badges_fit(widths, max_width, max_names, index + 1, used + w);
        }
    }
}

/// The count a group card ends with: members covered out of the total
/// when coverage is shown, else the number of members.
pub open spec fn spec_count_label(coverage: Option<(usize, usize)>, members: usize) -> Seq<char> {
    match coverage {
        Some((installed, total)) => decimal(installed as nat) + seq!['/'] + decimal(total as nat)
            + " skills"@,
        None => decimal(members as nat) + " skills"@,
    }
}

/// The count a group card ends with (see [`spec_count_label`]).
pub fn count_label(coverage: Option<(usize, usize)>, members: usize) -> (r: String)
    ensures
        r@ == spec_count_label(coverage, members),
{
    let suffix = chars_of(" skills");
    match coverage {
        Some((installed, total)) => {
            let a = chars_of(decimal_string(installed as u64).as_str());
            let b = chars_of(decimal_string(total as u64).as_str());
            let head = concat(a.as_slice(), &['/']);
            let head = concat(head.as_slice(), b.as_slice());
            string_of(concat(head.as_slice(), suffix.as_slice()).as_slice())
        },
        None => {
            let a = chars_of(decimal_string(members as u64).as_str());
            string_of(concat(a.as_slice(), suffix.as_slice()).as_slice())
        },
    }
}

/// Two texts neither of which orders before the other are equal.
proof fn lemma_text_order_total(a: Seq<char>, b: Seq<char>)
    ensures
        !text_lt(a, b) && !text_lt(b, a) ==> a == b,
    decreases a.len(),
{
    if a.len() > 0 && b.len() > 0 && a[0] == b[0] {
        lemma_text_order_total(a.drop_first(), b.drop_first());
        if !text_lt(a, b) && !text_lt(b, a) {
            assert(a =~= seq![a[0]] + a.drop_first());
            assert(b =~= seq![b[0]] + b.drop_first());
        }
    } else if a.len() > 0 && b.len() > 0 {
        if a[0] != b[0] {
            assert((a[0] as int) != (b[0] as int));
        }
    } else if a.len() == 0 && b.len() == 0 {
        assert(a =~= b);
    }
}

/// The names of a group's badges: each name once, in order.
pub fn badge_names(names: &[String]) -> (r: Vec<String>)
    ensures
        string_views(r@).to_set() == string_views(names@).to_set(),
        sorted_texts(string_views(r@)),
        forall|i: int, j: int|
            0 <= i < j < r@.len() ==> #[trigger] string_views(r@)[i] != #[trigger] string_views(
                r@,
            )[j],
{
    let mut all: Vec<String> = Vec::new();
    let mut i: usize = 0;
    while i < names.len()
        invariant
            i <= names@.len(),
            string_views(all@) == string_views(names@).take(i as int),
        decreases names@.len() - i,
    {
        let ghost before = all@;
        all.push(names[i].clone());
        assert(string_views(all@) =~= string_views(before).push(names@[i as int]@));
        assert(string_views(names@).take(i + 1) =~= string_views(names@).take(i as int).push(
            names@[i as int]@,
        ));
        i = i + 1;
    }
    assert(string_views(names@).take(names@.len() as int) =~= string_views(names@));
    let ghost unsorted = string_views(all@);
    sort_strings(&mut all);
    let ghost v = string_views(all@);
    proof {
        v.to_multiset_ensures();
        unsorted.to_multiset_ensures();
        assert forall|x: Seq<char>| v.contains(x) <==> unsorted.contains(x) by {
            assert(v.to_multiset().count(x) == unsorted.to_multiset().count(x));
        }
    }
    let mut out: Vec<String> = Vec::new();
    let ghost mut idx: Seq<int> = Seq::empty();
    let mut k: usize = 0;
    while k < all.len()
        invariant
            k <= all@.len(),
            v == string_views(all@),
            sorted_texts(v),
            idx.len() == out@.len(),
            forall|a: int| 0 <= a < idx.len() ==> 0 <= #[trigger] idx[a] < k && string_views(out@)[a]
                == v[idx[a]],
            forall|a: int, b: int| 0 <= a < b < idx.len() ==> #[trigger] idx[a] < #[trigger] idx[b],
            k > 0 ==> idx.len() > 0 && string_views(out@).last() == v[k - 1],
            forall|c: int| 0 <= c < k ==> #[trigger] string_views(out@).contains(v[c]),
            forall|a: int, b: int|
                0 <= a < b < out@.len() ==> #[trigger] string_views(out@)[a] != #[trigger] string_views(
                    out@,
                )[b],
        decreases all@.len() - k,
    {
        let ghost o = string_views(out@);
        let fresh = k == 0 || all[k] != all[k - 1];
        if fresh {
            proof {
                if k > 0 {
                    lemma_text_order_total(v[k - 1], v[k as int]);
                    assert(!text_lt(v[k as int], v[k - 1]));
                    assert(text_lt(v[k - 1], v[k as int]));
                }
                assert forall|a: int| 0 <= a < o.len() implies o[a] != v[k as int] by {
                    let c = idx[a];
                    if o[a] == v[k as int] {
                        assert(c <= k - 1);
                        if c < k - 1 {
                            assert(!text_lt(v[k - 1], v[c]));
                        }
                    }
                }
            }
            out.push(all[k].clone());
            proof {
                let n = string_views(out@);
                assert(n =~= o.push(v[k as int]));
                idx = idx.push(k as int);
                assert forall|c: int| 0 <= c < k + 1 implies #[trigger] n.contains(v[c]) by {
                    if c < k {
                        assert(o.contains(v[c]));
                        let b = choose|b: int| 0 <= b < o.len() && o[b] == v[c];
                        assert(n[b] == v[c]);
                    } else {
                        assert(n[o.len() as int] == v[c]);
                    }
                }
            }
        } else {
            proof {
                assert(v[k as int] == v[k - 1]);
                assert(o[o.len() - 1] == v[k - 1]);
                assert forall|c: int| 0 <= c < k + 1 implies #[trigger] o.contains(v[c]) by {
                    if c == k {
                        assert(o[o.len() - 1] == v[c]);
                    }
                }
            }
        }
        k = k + 1;
    }
    proof {
        let o = string_views(out@);
        assert forall|x: Seq<char>| o.to_set().contains(x) <==> unsorted.to_set().contains(x) by {
            if o.contains(x) {
                let a = choose|a: int| 0 <= a < o.len() && o[a] == x;
                assert(v.contains(v[idx[a]]));
            }
            if unsorted.contains(x) {
                assert(v.contains(x));
                let c = choose|c: int| 0 <= c < v.len() && v[c] == x;
                assert(o.contains(v[c]));
            }
        }
        assert(o.to_set() =~= unsorted.to_set());
        assert forall|a: int, b: int| 0 <= a < b < o.len() implies !text_lt(
            #[trigger] o[b],
            #[trigger] o[a],
        ) by {
            assert(idx[a] < idx[b]);
        }
    }
    out
}

} // verus!
