//! The region validator: code regions are opened by `{` and closed by `}` markers
//! and may not nest.
use vstd::prelude::*;
use crate::text::has_marker;
use crate::lexer::{numbered, records};

verus! {

/// Why the regions of a token sequence are not balanced. Line numbers are 1-based.
#[derive(Debug)]
pub enum RegionError {
    /// A region closes that was never opened.
    UnmatchedCloser { position: usize },
    /// A region opens while another is open, or stays open at the end.
    UnclosedRegion { position: usize },
}

/// How a token moves the region depth.
pub open spec fn delta(t: Seq<char>) -> int {
    if has_marker(t, '{') {
        1
    } else if has_marker(t, '}') {
        -1
    } else {
        0
    }
}

/// The region depth after all of `toks`.
pub open spec fn depth(toks: Seq<(Seq<char>, usize)>) -> int
    decreases toks.len(),
{
    if toks.len() == 0 {
        0
    } else {
        depth(toks.drop_last()) + delta(toks.last().0)
    }
}

pub open spec fn depth_ok(d: int) -> bool {
    0 <= d <= 1
}

/// The depth stays within 0 and 1 after each of the first `n` tokens.
pub open spec fn in_range_upto(toks: Seq<(Seq<char>, usize)>, n: int) -> bool {
    forall|k: int| 1 <= k <= n ==> depth_ok(#[trigger] depth(toks.subrange(0, k)))
}

/// The depth never leaves 0 and 1 and ends at 0.
pub open spec fn balanced(toks: Seq<(Seq<char>, usize)>) -> bool {
    in_range_upto(toks, toks.len() as int) && depth(toks) == 0
}

/// Token `i` is the first after which the depth leaves 0 and 1.
pub open spec fn first_out_of_range(toks: Seq<(Seq<char>, usize)>, i: int) -> bool {
    0 <= i < toks.len() && in_range_upto(toks, i) && !depth_ok(depth(toks.subrange(0, i + 1)))
}

/// What validating the regions of `input` yields.
pub open spec fn parse_outcome(
    input: Seq<(String, usize)>,
    r: Result<Vec<(String, usize)>, RegionError>,
) -> bool {
    let toks = records(input);
    match r {
        Ok(v) => v@ == input && balanced(toks),
        Err(RegionError::UnclosedRegion { position }) => {
            ||| exists|i: int|
                #[trigger] first_out_of_range(toks, i) && depth(toks.subrange(0, i + 1)) > 1
                    && position == toks[i].1 + 1
            ||| in_range_upto(toks, toks.len() as int) && depth(toks) > 0 && position == toks[0].1
                + 1
        },
        Err(RegionError::UnmatchedCloser { position }) => {
            ||| exists|i: int|
                #[trigger] first_out_of_range(toks, i) && depth(toks.subrange(0, i + 1)) < 0
                    && position == toks[i].1 + 1
            ||| in_range_upto(toks, toks.len() as int) && depth(toks) < 0 && position
                == toks.last().1 + 1
        },
    }
}

fn marker_is(s: &str, m: char) -> (r: bool)
    ensures
        r == has_marker(s@, m),
{
    s.unicode_len() > 3 && s.get_char(3) == m
}

/// Checks that regions open and close in turn, one at a time, and returns the
/// tokens unchanged when they do. The first token after which the depth leaves
/// 0 and 1 is blamed; a region left open at the end is blamed on the first token.
pub fn parse(tokens: Vec<(String, usize)>) -> (r: Result<Vec<(String, usize)>, RegionError>)
    requires
        numbered(tokens@),
    ensures
        parse_outcome(tokens@, r),
{
    let ghost toks = records(tokens@);
    let mut d: i64 = 0;
    let mut i: usize = 0;
    while i < tokens.len()
        invariant
            0 <= i <= tokens@.len(),
            toks == records(tokens@),
            numbered(tokens@),
            d == depth(toks.subrange(0, i as int)),
            depth_ok(d as int),
            in_range_upto(toks, i as int),
        decreases tokens@.len() - i,
    {
        let t = tokens[i].0.as_str();
        if marker_is(t, '{') {
            d = d + 1;
        } else if marker_is(t, '}') {
            d = d - 1;
        }
        assert(toks.subrange(0, i + 1).drop_last() =~= toks.subrange(0, i as int));
        if d > 1 {
            assert(first_out_of_range(toks, i as int));
            return Err(RegionError::UnclosedRegion { position: tokens[i].1 + 1 });
        } else if d < 0 {
            assert(first_out_of_range(toks, i as int));
            return Err(RegionError::UnmatchedCloser { position: tokens[i].1 + 1 });
        }
        i += 1;
    }
    assert(toks.subrange(0, i as int) =~= toks);
    if d < 0 {
        return Err(RegionError::UnmatchedCloser { position: tokens[tokens.len() - 1].1 + 1 });
    } else if d > 0 {
        return Err(RegionError::UnclosedRegion { position: tokens[0].1 + 1 });
    }
    Ok(tokens)
}

/// The region markers of `toks` in order: `true` for an opening, `false` for a closing.
pub open spec fn region_marks(toks: Seq<(Seq<char>, usize)>) -> Seq<bool>
    decreases toks.len(),
{
    if toks.len() == 0 {
        seq![]
    } else {
        let rest = region_marks(toks.drop_last());
        let t = toks.last().0;
        if has_marker(t, '{') {
            rest.push(true)
        } else if has_marker(t, '}') {
            rest.push(false)
        } else {
            rest
        }
    }
}

/// Openings and closings take turns, starting with an opening.
pub open spec fn alternating(m: Seq<bool>) -> bool {
    forall|i: int| 0 <= i < m.len() ==> #[trigger] m[i] == (i % 2 == 0)
}

/// Every opening is closed before the next one, and every closing has its opening.
pub open spec fn paired(m: Seq<bool>) -> bool {
    alternating(m) && m.len() % 2 == 0
}

proof fn lemma_depth_tracks_marks(toks: Seq<(Seq<char>, usize)>)
    ensures
        in_range_upto(toks, toks.len() as int) <==> alternating(region_marks(toks)),
        alternating(region_marks(toks)) ==> depth(toks) == region_marks(toks).len() % 2,
    decreases toks.len(),
{
    if toks.len() > 0 {
        let n = toks.len() as int;
        let rest = toks.drop_last();
        lemma_depth_tracks_marks(rest);
        let m = region_marks(toks);
        let mr = region_marks(rest);
        assert forall|k: int| 1 <= k <= n - 1 implies toks.subrange(0, k) == rest.subrange(0, k) by {
            assert(toks.subrange(0, k) =~= rest.subrange(0, k));
        }
        assert(toks.subrange(0, n) =~= toks);
        assert(in_range_upto(toks, n) <==> (in_range_upto(rest, n - 1) && depth_ok(depth(toks)))) by {
            if in_range_upto(toks, n) {
                assert forall|k: int| 1 <= k <= n - 1 implies depth_ok(
                    #[trigger] depth(rest.subrange(0, k)),
                ) by {
                    assert(depth_ok(depth(toks.subrange(0, k))));
                }
            }
            if in_range_upto(rest, n - 1) && depth_ok(depth(toks)) {
                assert forall|k: int| 1 <= k <= n implies depth_ok(
                    #[trigger] depth(toks.subrange(0, k)),
                ) by {
                    if k < n {
                        assert(depth_ok(depth(rest.subrange(0, k))));
                    }
                }
            }
        }
        if alternating(m) {
            assert forall|i: int| 0 <= i < mr.len() implies #[trigger] mr[i] == (i % 2 == 0) by {
                assert(m[i] == mr[i]);
            }
        }
        if alternating(mr) {
            let t = toks.last().0;
            if has_marker(t, '{') || has_marker(t, '}') {
                assert(alternating(m) <==> m[mr.len() as int] == (mr.len() % 2 == 0)) by {
                    if m[mr.len() as int] == (mr.len() % 2 == 0) {
                        assert forall|i: int| 0 <= i < m.len() implies #[trigger] m[i] == (i % 2
                            == 0) by {
                            if i < mr.len() {
                                assert(mr[i] == (i % 2 == 0));
                            }
                        }
                    }
                }
            } else {
                assert(m == mr);
            }
        }
    }
}

/// Validation accepts exactly the token sequences whose region markers pair up,
/// one region at a time, and then hands the tokens back unchanged.
pub proof fn parse_accepts_exactly_paired_regions(
    tokens: Seq<(String, usize)>,
    r: Result<Vec<(String, usize)>, RegionError>,
)
    requires
        parse_outcome(tokens, r),
    ensures
        r is Ok <==> paired(region_marks(records(tokens))),
        r matches Ok(v) ==> v@ == tokens,
{
    let toks = records(tokens);
    lemma_depth_tracks_marks(toks);
    match r {
        Err(RegionError::UnclosedRegion { position }) => {
            if exists|i: int| #[trigger] first_out_of_range(toks, i) {
                let i = choose|i: int| #[trigger] first_out_of_range(toks, i);
                assert(!depth_ok(depth(toks.subrange(0, i + 1))));
                assert(!in_range_upto(toks, toks.len() as int));
            }
        },
        Err(RegionError::UnmatchedCloser { position }) => {
            if exists|i: int| #[trigger] first_out_of_range(toks, i) {
                let i = choose|i: int| #[trigger] first_out_of_range(toks, i);
                assert(!depth_ok(depth(toks.subrange(0, i + 1))));
                assert(!in_range_upto(toks, toks.len() as int));
            }
        },
        Ok(_) => {},
    }
}

} // verus!
