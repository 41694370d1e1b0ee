//! Splitting text into plain and highlighted pieces around search matches.
use vstd::prelude::*;

verus! {

/// Match ranges that can be highlighted in a text of `len` units: each
/// range in order, within the text, starting no earlier than the previous
/// one ended.
pub open spec fn ranges_ordered(ranges: Seq<(usize, usize)>, len: int) -> bool {
    &&& forall|i: int| 0 <= i < ranges.len() ==> #[trigger] ranges[i].0 <= ranges[i].1 <= len
    &&& forall|i: int, j: int| 0 <= i < j < ranges.len() ==> #[trigger] ranges[i].1 <= #[trigger] ranges[j].0
}

/// The pieces of a text of `len` units highlighted at `ranges`, from the
/// `i`-th range on, with the text before `pos` already covered: a plain
/// piece before each match that does not start where the last piece ended,
/// the match itself, and a plain piece after the last match.
pub open spec fn pieces(ranges: Seq<(usize, usize)>, len: int, i: int, pos: int) -> Seq<(int, int, bool)>
    decreases ranges.len() - i,
{
    if i < 0 || i >= ranges.len() {
        if pos < len {
            seq![(pos, len, false)]
        } else {
            Seq::empty()
        }
    } else {
        let (s, e) = ranges[i];
        let before = if s > pos {
            seq![(pos, s as int, false)]
        } else {
            Seq::empty()
        };
        before + seq![(s as int, e as int, true)] + pieces(ranges, len, i + 1, e as int)
    }
}

/// The pieces with their bounds as integers.
pub open spec fn piece_views(p: Seq<(usize, usize, bool)>) -> Seq<(int, int, bool)> {
    p.map_values(|q: (usize, usize, bool)| (q.0 as int, q.1 as int, q.2))
}

/// The pieces of a text of `len` units highlighted at `ranges` (see
/// [`pieces`]): start, end and whether the piece is a match.
pub fn highlight_pieces(len: usize, ranges: &[(usize, usize)]) -> (r: Vec<(usize, usize, bool)>)
    requires
        ranges_ordered(ranges@, len as int),
    ensures
        piece_views(r@) == pieces(
            ranges@,
            len as int,
            0,
            0,
        ),
{
    let mut out: Vec<(usize, usize, bool)> = Vec::new();
    let mut pos: usize = 0;
    let mut i: usize = 0;
    while i < ranges.len()
        invariant
            i <= ranges@.len(),
            ranges_ordered(ranges@, len as int),
            pos <= len,
            i > 0 ==> pos == ranges@[i - 1].1,
            i == 0 ==> pos == 0,
            forall|j: int| i <= j < ranges@.len() ==> pos <= #[trigger] ranges@[j].0,
            piece_views(out@) + pieces(ranges@, len as int, i as int, pos as int) == pieces(
                ranges@,
                len as int,
                0,
                0,
            ),
        decreases ranges@.len() - i,
    {
        let (s, e) = ranges[i];
        let ghost old_out = out@;
        let ghost rest = pieces(ranges@, len as int, i + 1, e as int);
        if s > pos {
            out.push((pos, s, false));
        }
        out.push((s, e, true));
        proof {
            let before = if s > pos {
                seq![(pos as int, s as int, false)]
            } else {
                Seq::empty()
            };
            if s > pos {
                assert(out@ =~= old_out.push((pos, s, false)).push((s, e, true)));
                assert(piece_views(out@) =~= piece_views(old_out).push((pos as int, s as int, false)).push((s as int, e as int, true)));
            } else {
                assert(out@ =~= old_out.push((s, e, true)));
                assert(piece_views(out@) =~= piece_views(old_out).push((s as int, e as int, true)));
            }
            assert(piece_views(out@) =~= piece_views(old_out) + before + seq![(s as int, e as int, true)]);
            assert(pieces(ranges@, len as int, i as int, pos as int) == before + seq![(s as int, e as int, true)] + rest);
            assert(piece_views(out@) + rest =~= piece_views(old_out) + pieces(ranges@, len as int, i as int, pos as int));
            assert forall|j: int| i + 1 <= j < ranges@.len() implies e <= #[trigger] ranges@[j].0 by {
                assert(ranges@[i as int].1 <= ranges@[j].0);
            }
        }
        pos = e;
        i = i + 1;
    }
    let ghost old_out = out@;
    if pos < len {
        out.push((pos, len, false));
    }
    if pos < len {
        assert(piece_views(out@) =~= piece_views(old_out).push((pos as int, len as int, false)));
    } else {
        assert(piece_views(out@) =~= piece_views(old_out));
    }
    assert(piece_views(out@) =~= piece_views(old_out) + pieces(ranges@, len as int, i as int, pos as int));
    out
}

/// Highlighting never drops or repeats text: the pieces are non-empty and
/// tile the text from its start to its end, one after the other.
pub proof fn law_pieces_tile(ranges: Seq<(usize, usize)>, len: int, i: int, pos: int)
    requires
        ranges_ordered(ranges, len),
        0 <= i <= ranges.len(),
        0 <= pos <= len,
        forall|j: int| i <= j < ranges.len() ==> pos <= #[trigger] ranges[j].0,
    ensures
        ({
            let p = pieces(ranges, len, i, pos);
            &&& forall|k: int| 0 <= k < p.len() ==> #[trigger] p[k].0 <= p[k].1
            &&& forall|k: int| 0 <= k < p.len() ==> (#[trigger] p[k].2 || p[k].0 < p[k].1)
            &&& forall|k: int| 0 <= k < p.len() - 1 ==> #[trigger] p[k].1 == p[k + 1].0
            &&& (p.len() > 0 ==> p[0].0 == pos && p.last().1 == len)
            &&& (p.len() == 0 ==> pos == len)
        }),
    decreases ranges.len() - i,
{
    if i < ranges.len() {
        let (s, e) = ranges[i];
        assert forall|j: int| i + 1 <= j < ranges.len() implies e <= #[trigger] ranges[j].0 by {
            assert(ranges[i].1 <= ranges[j].0);
        }
        law_pieces_tile(ranges, len, i + 1, e as int);
        let rest = pieces(ranges, len, i + 1, e as int);
        let before = if s > pos {
            seq![(pos, s as int, false)]
        } else {
            Seq::empty()
        };
        let p = pieces(ranges, len, i, pos);
        assert(p == before + seq![(s as int, e as int, true)] + rest);
        assert forall|k: int| 0 <= k < p.len() - 1 implies #[trigger] p[k].1 == p[k + 1].0 by {
            if k < before.len() {
                assert(p[k] == before[k]);
                assert(p[k + 1] == (s as int, e as int, true));
            } else if k == before.len() {
                assert(p[k] == (s as int, e as int, true));
                assert(p[k + 1] == rest[0]);
            } else {
                assert(p[k] == rest[k - before.len() - 1]);
                assert(p[k + 1] == rest[k - before.len()]);
            }
        }
        assert forall|k: int| 0 <= k < p.len() implies #[trigger] p[k].0 <= p[k].1 && (p[k].2 || p[k].0 < p[k].1) by {
            if k < before.len() {
                assert(p[k] == before[k]);
            } else if k == before.len() {
                assert(p[k] == (s as int, e as int, true));
            } else {
                assert(p[k] == rest[k - before.len() - 1]);
            }
        }
        if rest.len() > 0 {
            assert(p.last() == rest.last());
        } else {
            assert(p.last() == (s as int, e as int, true));
        }
        if before.len() > 0 {
            assert(p[0] == before[0]);
        } else {
            assert(p[0] == (s as int, e as int, true));
        }
    }
}

} // verus!
