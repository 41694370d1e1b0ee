//! The HTTP archive transport's decisions: which URLs may be fetched, how the
//! downloader is asked to fetch them, where the tree may be published, and
//! what a failure reports.
use crate::archive::is_control;
use crate::group::is_space;
use crate::text::{chars_of, has_prefix, starts_with, string_of};
use vstd::prelude::*;

verus! {

/// `https://`.
pub open spec fn https_prefix() -> Seq<char> {
    seq!['h', 't', 't', 'p', 's', ':', '/', '/']
}

/// `http://`.
pub open spec fn http_prefix() -> Seq<char> {
    seq!['h', 't', 't', 'p', ':', '/', '/']
}

/// Archive URLs must use HTTP or HTTPS.
pub fn http_url(url: &str) -> (r: bool)
    ensures
        r == (starts_with(url@, https_prefix()) || starts_with(url@, http_prefix())),
{
    let text = chars_of(url);
    let https = ['h', 't', 't', 'p', 's', ':', '/', '/'];
    let http = ['h', 't', 't', 'p', ':', '/', '/'];
    assert(https@ == https_prefix());
    assert(http@ == http_prefix());
    has_prefix(text.as_slice(), &https) || has_prefix(text.as_slice(), &http)
}

/// The decimal digits of `n`.
pub open spec fn decimal(n: nat) -> Seq<char>
    decreases n,
{
    if n < 10 {
        seq![digit_char(n)]
    } else {
        decimal(n / 10).push(digit_char(n % 10))
    }
}

/// The digit character of `d` (below ten).
pub open spec fn digit_char(d: nat) -> char {
    ((d + 48) as u32) as char
}

/// The decimal text of `n`.
pub fn decimal_string(n: u64) -> (r: String)
    ensures
        r@ == decimal(n as nat),
{
    let mut digits: Vec<char> = Vec::new();
    let mut rest: u64 = n;
    // Collect the digits from the last one, then reverse.
    while rest >= 10
        invariant
            decimal(n as nat) == decimal(rest as nat) + digits@.reverse(),
        decreases rest,
    {
        let d: u64 = rest % 10;
        let c: char = char_of_digit(d);
        proof {
            assert(decimal(rest as nat) == decimal((rest / 10) as nat).push(digit_char((rest % 10) as nat)));
            assert(digits@.push(c).reverse() =~= seq![c] + digits@.reverse());
            assert(decimal((rest / 10) as nat).push(c) + digits@.reverse() =~= decimal((rest / 10) as nat) + (seq![c] + digits@.reverse()));
        }
        digits.push(c);
        rest = rest / 10;
    }
    let first = char_of_digit(rest);
    let mut out: Vec<char> = Vec::new();
    out.push(first);
    let mut i: usize = digits.len();
    while i > 0
        invariant
            i <= digits@.len(),
            out@ == seq![first] + digits@.subrange(i as int, digits@.len() as int).reverse(),
        decreases i,
    {
        i = i - 1;
        proof {
            assert(digits@.subrange(i as int, digits@.len() as int).reverse() =~= digits@.subrange(
                i + 1,
                digits@.len() as int,
            ).reverse().push(digits@[i as int]));
        }
        out.push(digits[i]);
    }
    proof {
        assert(digits@.subrange(0, digits@.len() as int) =~= digits@);
        assert(decimal(rest as nat) == seq![first]);
    }
    string_of(out.as_slice())
}

fn char_of_digit(d: u64) -> (c: char)
    requires
        d < 10,
    ensures
        c == digit_char(d as nat),
{
    match d {
        0 => '0',
        1 => '1',
        2 => '2',
        3 => '3',
        4 => '4',
        5 => '5',
        6 => '6',
        7 => '7',
        8 => '8',
        _ => '9',
    }
}

/// What is at the place a tree is published to.
#[derive(Debug, Clone, Copy, PartialEq, Eq, Structural)]
pub enum Destination {
    /// Nothing yet.
    Missing,
    /// A real directory, empty or not.
    Directory { empty: bool },
    /// A file, a symbolic link or anything else.
    Other,
}

/// Why a tree cannot be published at a destination.
#[derive(Debug, Clone, Copy, PartialEq, Eq, Structural)]
pub enum DestinationError {
    /// The directory already has contents.
    NotEmpty,
    /// A file or link stands where the directory would go.
    NotDirectory,
}

/// A download only publishes into an absent or empty directory.
pub fn check_destination(destination: Destination) -> (r: Result<(), DestinationError>)
    ensures
        r == (match destination {
            Destination::Missing => Ok(()),
            Destination::Directory { empty } => if empty {
                Ok(())
            } else {
                Err(DestinationError::NotEmpty)
            },
            Destination::Other => Err(DestinationError::NotDirectory),
        }),
{
    match destination {
        Destination::Missing => Ok(()),
        Destination::Directory { empty } => if empty {
            Ok(())
        } else {
            Err(DestinationError::NotEmpty)
        },
        Destination::Other => Err(DestinationError::NotDirectory),
    }
}

/// Where a download stands. The work is done in this order, and only
/// publishing touches the destination: everything before it happens in a
/// private work directory.
#[derive(Debug, Clone, Copy, PartialEq, Eq, Structural)]
pub enum DownloadStage {
    /// Check that the URL uses HTTP or HTTPS (see [`http_url`]).
    CheckUrl,
    /// Check the destination (see [`check_destination`]).
    CheckDestination,
    /// Fetch the archive into the work directory within its size limit.
    Fetch,
    /// Plan the extraction of the archive and write it into the work
    /// directory.
    Extract,
    /// Move the extracted tree into place at the destination.
    Publish,
    /// The tree is published.
    Done,
    /// Stopped by a failure at this stage; nothing more is done.
    Stopped(DownloadStop),
}

/// The stage whose work failed.
#[derive(Debug, Clone, Copy, PartialEq, Eq, Structural)]
pub enum DownloadStop {
    NotHttp,
    Destination,
    Fetch,
    Extract,
    Publish,
}

/// The stage after the work of `stage` succeeded (`ok`) or failed.
pub open spec fn spec_download_step(stage: DownloadStage, ok: bool) -> DownloadStage {
    match stage {
        DownloadStage::CheckUrl => if ok {
            DownloadStage::CheckDestination
        } else {
            DownloadStage::Stopped(DownloadStop::NotHttp)
        },
        DownloadStage::CheckDestination => if ok {
            DownloadStage::Fetch
        } else {
            DownloadStage::Stopped(DownloadStop::Destination)
        },
        DownloadStage::Fetch => if ok {
            DownloadStage::Extract
        } else {
            DownloadStage::Stopped(DownloadStop::Fetch)
        },
        DownloadStage::Extract => if ok {
            DownloadStage::Publish
        } else {
            DownloadStage::Stopped(DownloadStop::Extract)
        },
        DownloadStage::Publish => if ok {
            DownloadStage::Done
        } else {
            DownloadStage::Stopped(DownloadStop::Publish)
        },
        _ => stage,
    }
}

/// The stage after the work of `stage` (see [`spec_download_step`]).
pub fn download_step(stage: DownloadStage, ok: bool) -> (r: DownloadStage)
    ensures
        r == spec_download_step(stage, ok),
{
    match stage {
        DownloadStage::CheckUrl => if ok {
            DownloadStage::CheckDestination
        } else {
            DownloadStage::Stopped(DownloadStop::NotHttp)
        },
        DownloadStage::CheckDestination => if ok {
            DownloadStage::Fetch
        } else {
            DownloadStage::Stopped(DownloadStop::Destination)
        },
        DownloadStage::Fetch => if ok {
            DownloadStage::Extract
        } else {
            DownloadStage::Stopped(DownloadStop::Fetch)
        },
        DownloadStage::Extract => if ok {
            DownloadStage::Publish
        } else {
            DownloadStage::Stopped(DownloadStop::Extract)
        },
        DownloadStage::Publish => if ok {
            DownloadStage::Done
        } else {
            DownloadStage::Stopped(DownloadStop::Publish)
        },
        _ => stage,
    }
}

/// The stage a download reaches from its start through work whose outcomes
/// were `outcomes`, in order.
pub open spec fn download_run(outcomes: Seq<bool>) -> DownloadStage
    decreases outcomes.len(),
{
    if outcomes.len() == 0 {
        DownloadStage::CheckUrl
    } else {
        spec_download_step(download_run(outcomes.drop_last()), outcomes.last())
    }
}

/// How far a download that has not stopped has come.
pub open spec fn download_rank(stage: DownloadStage) -> int {
    match stage {
        DownloadStage::CheckUrl => 0,
        DownloadStage::CheckDestination => 1,
        DownloadStage::Fetch => 2,
        DownloadStage::Extract => 3,
        DownloadStage::Publish => 4,
        DownloadStage::Done => 5,
        DownloadStage::Stopped(_) => -1,
    }
}

proof fn lemma_stopped_stays(outcomes: Seq<bool>, more: Seq<bool>)
    requires
        download_run(outcomes) is Stopped,
    ensures
        download_run(outcomes + more) == download_run(outcomes),
    decreases more.len(),
{
    if more.len() == 0 {
        assert(outcomes + more =~= outcomes);
    } else {
        lemma_stopped_stays(outcomes, more.drop_last());
        assert((outcomes + more).drop_last() =~= outcomes + more.drop_last());
    }
}

proof fn lemma_download_progress(outcomes: Seq<bool>)
    ensures
        !(download_run(outcomes) is Stopped) ==> download_rank(download_run(outcomes)) == (if outcomes.len() < 5 {
            outcomes.len() as int
        } else {
            5
        }) && forall|i: int| 0 <= i < download_rank(download_run(outcomes)) ==> #[trigger] outcomes[i],
    decreases outcomes.len(),
{
    if outcomes.len() > 0 {
        let before = outcomes.drop_last();
        lemma_download_progress(before);
        if !(download_run(outcomes) is Stopped) {
            assert(!(download_run(before) is Stopped));
            assert forall|i: int| 0 <= i < download_rank(download_run(outcomes)) implies #[trigger] outcomes[i] by {
                if i < download_rank(download_run(before)) {
                    assert(before[i]);
                }
            }
        }
    }
}

/// Only a download whose every step succeeded touches the destination: it
/// publishes only after the URL check, the destination check, the fetch
/// and the extraction all passed, in that order, and a download stopped by
/// any failure stays stopped whatever is reported after it, so it never
/// reaches publishing.
pub proof fn law_only_a_full_pass_publishes(outcomes: Seq<bool>, more: Seq<bool>)
    ensures
        download_run(outcomes) == DownloadStage::Publish ==> outcomes.len() == 4 && outcomes[0]
            && outcomes[1] && outcomes[2] && outcomes[3],
        download_run(outcomes) == DownloadStage::Done ==> outcomes.len() >= 5 && outcomes[0]
            && outcomes[1] && outcomes[2] && outcomes[3] && outcomes[4],
        download_run(outcomes) is Stopped ==> download_run(outcomes + more) == download_run(
            outcomes,
        ),
{
    lemma_download_progress(outcomes);
    if download_run(outcomes) is Stopped {
        lemma_stopped_stays(outcomes, more);
    }
    if download_run(outcomes) == DownloadStage::Publish || download_run(outcomes)
        == DownloadStage::Done {
        assert(outcomes[0] && outcomes[1] && outcomes[2] && outcomes[3]);
    }
    if download_run(outcomes) == DownloadStage::Done {
        assert(outcomes[4]);
    }
}

/// The options given to the downloader before the limit and the URL: its
/// configuration files are ignored, it fails on HTTP errors, follows at most
/// five redirects, only over HTTP or HTTPS, and gives up on stalled or slow
/// transfers.
pub open spec fn fixed_options() -> Seq<Seq<char>> {
    seq![
        "--disable"@,
        "--silent"@,
        "--show-error"@,
        "--fail"@,
        "--location"@,
        "--globoff"@,
        "--max-redirs"@,
        "5"@,
        "--proto"@,
        "=http,https"@,
        "--proto-redir"@,
        "=http,https"@,
        "--connect-timeout"@,
        "15"@,
        "--max-time"@,
        "180"@,
        "--speed-time"@,
        "30"@,
        "--speed-limit"@,
        "1024"@,
    ]
}

/// The arguments of the downloader for `url` with a file size `limit`.
pub open spec fn spec_download_args(url: Seq<char>, limit: nat) -> Seq<Seq<char>> {
    fixed_options() + seq!["--max-filesize"@, decimal(limit), "--url"@, url]
}

/// The views of a list of strings.
pub open spec fn arg_views(v: Seq<String>) -> Seq<Seq<char>> {
    v.map_values(|s: String| s@)
}

fn push_arg(args: &mut Vec<String>, arg: &str)
    ensures
        arg_views(final(args)@) == arg_views(old(args)@).push(arg@),
{
    let ghost before = args@;
    args.push(arg.to_owned());
    assert(arg_views(args@) =~= arg_views(before).push(arg@));
}

/// The arguments of the downloader (see [`spec_download_args`]).
pub fn download_args(url: &str, limit: u64) -> (r: Vec<String>)
    ensures
        arg_views(r@) == spec_download_args(url@, limit as nat),
{
    let mut args: Vec<String> = Vec::new();
    assert(arg_views(args@) =~= Seq::<Seq<char>>::empty());
    push_arg(&mut args, "--disable");
    push_arg(&mut args, "--silent");
    push_arg(&mut args, "--show-error");
    push_arg(&mut args, "--fail");
    push_arg(&mut args, "--location");
    push_arg(&mut args, "--globoff");
    push_arg(&mut args, "--max-redirs");
    push_arg(&mut args, "5");
    push_arg(&mut args, "--proto");
    push_arg(&mut args, "=http,https");
    push_arg(&mut args, "--proto-redir");
    push_arg(&mut args, "=http,https");
    push_arg(&mut args, "--connect-timeout");
    push_arg(&mut args, "15");
    push_arg(&mut args, "--max-time");
    push_arg(&mut args, "180");
    push_arg(&mut args, "--speed-time");
    push_arg(&mut args, "30");
    push_arg(&mut args, "--speed-limit");
    push_arg(&mut args, "1024");
    push_arg(&mut args, "--max-filesize");
    let ghost before = args@;
    args.push(decimal_string(limit));
    assert(arg_views(args@) =~= arg_views(before).push(decimal(limit as nat)));
    push_arg(&mut args, "--url");
    push_arg(&mut args, url);
    assert(arg_views(args@) =~= spec_download_args(url@, limit as nat));
    args
}

/// `s` without its control characters.
pub open spec fn without_controls(s: Seq<char>) -> Seq<char> {
    s.filter(|c: char| !is_control(c))
}

/// `s` without leading white space.
pub open spec fn trim_start_spaces(s: Seq<char>) -> Seq<char>
    decreases s.len(),
{
    if s.len() > 0 && is_space(s[0]) {
        trim_start_spaces(s.drop_first())
    } else {
        s
    }
}

/// `s` without trailing white space.
pub open spec fn trim_end_spaces(s: Seq<char>) -> Seq<char>
    decreases s.len(),
{
    if s.len() > 0 && is_space(s.last()) {
        trim_end_spaces(s.drop_last())
    } else {
        s
    }
}

/// What a failed download reports of the downloader's error output: the
/// text without control characters, trimmed.
pub open spec fn spec_failure_detail(stderr: Seq<char>) -> Seq<char> {
    trim_end_spaces(trim_start_spaces(without_controls(stderr)))
}

proof fn lemma_trim_start_from(s: Seq<char>, i: int)
    requires
        0 <= i <= s.len(),
        forall|j: int| 0 <= j < i ==> is_space(#[trigger] s[j]),
    ensures
        trim_start_spaces(s) == trim_start_spaces(s.skip(i)),
    decreases i,
{
    if i > 0 {
        assert(s.drop_first().skip(i - 1) == s.skip(i));
        assert forall|j: int| 0 <= j < i - 1 implies is_space(#[trigger] s.drop_first()[j]) by {
            assert(s.drop_first()[j] == s[j + 1]);
        }
        lemma_trim_start_from(s.drop_first(), i - 1);
    } else {
        assert(s.skip(0) == s);
    }
}

proof fn lemma_trim_end_to(s: Seq<char>, i: int)
    requires
        0 <= i <= s.len(),
        forall|j: int| i <= j < s.len() ==> is_space(#[trigger] s[j]),
    ensures
        trim_end_spaces(s) == trim_end_spaces(s.take(i)),
    decreases s.len() - i,
{
    if i < s.len() {
        assert(s.drop_last().take(i) == s.take(i));
        assert forall|j: int| i <= j < s.len() - 1 implies is_space(#[trigger] s.drop_last()[j]) by {
            assert(s.drop_last()[j] == s[j]);
        }
        lemma_trim_end_to(s.drop_last(), i);
    } else {
        assert(s.take(i) == s);
    }
}

fn is_control_char(c: char) -> (r: bool)
    ensures
        r == is_control(c),
{
    let n: u32 = c as u32;
    n <= 0x1f || (0x7f <= n && n <= 0x9f)
}

fn is_space_char(c: char) -> (r: bool)
    ensures
        r == is_space(c),
{
    let n: u32 = c as u32;
    (0x9 <= n && n <= 0xd) || n == 0x20 || n == 0x85 || n == 0xa0 || n == 0x1680 || (0x2000 <= n
        && n <= 0x200a) || n == 0x2028 || n == 0x2029 || n == 0x202f || n == 0x205f || n == 0x3000
}

/// What a failed download reports (see [`spec_failure_detail`]).
pub fn failure_detail(stderr: &str) -> (r: String)
    ensures
        r@ == spec_failure_detail(stderr@),
{
    let text = chars_of(stderr);
    let mut kept: Vec<char> = Vec::new();
    let mut i: usize = 0;
    while i < text.len()
        invariant
            i <= text@.len(),
            text@ == stderr@,
            kept@ == without_controls(text@.take(i as int)),
        decreases text@.len() - i,
    {
        proof {
            assert(text@.take(i + 1).drop_last() =~= text@.take(i as int));
            assert(text@.take(i + 1).last() == text@[i as int]);
            reveal(Seq::filter);
        }
        if !is_control_char(text[i]) {
            kept.push(text[i]);
        }
        i = i + 1;
    }
    assert(text@.take(text@.len() as int) =~= text@);
    let mut start: usize = 0;
    while start < kept.len() && is_space_char(kept[start])
        invariant
            start <= kept@.len(),
            forall|j: int| 0 <= j < start ==> is_space(#[trigger] kept@[j]),
        decreases kept@.len() - start,
    {
        start = start + 1;
    }
    proof {
        lemma_trim_start_from(kept@, start as int);
    }
    let mut end: usize = kept.len();
    while end > start && is_space_char(kept[end - 1])
        invariant
            start <= end <= kept@.len(),
            forall|j: int| end <= j < kept@.len() ==> is_space(#[trigger] kept@[j]),
        decreases end,
    {
        end = end - 1;
    }
    let ghost rest = kept@.skip(start as int);
    proof {
        if rest.len() > 0 {
            assert(rest[0] == kept@[start as int]);
        }
        assert(trim_start_spaces(rest) == rest);
        assert forall|j: int| end - start <= j < rest.len() implies is_space(#[trigger] rest[j]) by {
            assert(rest[j] == kept@[j + start]);
        }
        lemma_trim_end_to(rest, end - start);
        assert(rest.take(end - start) =~= kept@.subrange(start as int, end as int));
        let t = kept@.subrange(start as int, end as int);
        if t.len() > 0 {
            assert(t.last() == kept@[end - 1]);
        }
        assert(trim_end_spaces(t) == t);
    }
    let mut out: Vec<char> = Vec::new();
    let mut k: usize = start;
    while k < end
        invariant
            start <= k <= end <= kept@.len(),
            out@ == kept@.subrange(start as int, k as int),
        decreases end - k,
    {
        out.push(kept[k]);
        assert(kept@.subrange(start as int, k + 1) =~= kept@.subrange(start as int, k as int).push(
            kept@[k as int],
        ));
        k = k + 1;
    }
    string_of(out.as_slice())
}

} // verus!
