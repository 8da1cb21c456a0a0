//! The annotation lexer: keeps the lines that carry the annotation prefix, trims
//! them, and checks that each one has a known marker and that a title exists.
use vstd::prelude::*;
use crate::text::{is_annotation, is_marker, is_title, starts_with4, trim, trim_spec};

verus! {

/// Why a listing could not be lexed. Line numbers are 1-based.
#[derive(Debug)]
pub enum LexError {
    /// No line starts with the annotation prefix.
    NoAnnotationsFound,
    /// The character after the prefix is not a marker (or there is none).
    InvalidMarker { line_text: String, position: usize },
    /// Annotations exist but none of them is a title.
    MissingTitle,
}

/// A listing as text and position of each line.
pub open spec fn records(v: Seq<(String, usize)>) -> Seq<(Seq<char>, usize)> {
    v.map_values(|p: (String, usize)| (p.0@, p.1))
}

/// Every position can be cited as a 1-based line number.
pub open spec fn numbered(v: Seq<(String, usize)>) -> bool {
    forall|i: int| 0 <= i < v.len() ==> #[trigger] v[i].1 < usize::MAX
}

/// The annotation lines of a listing, in order, each trimmed and with its position.
pub open spec fn annotations(lines: Seq<(Seq<char>, usize)>) -> Seq<(Seq<char>, usize)>
    decreases lines.len(),
{
    if lines.len() == 0 {
        seq![]
    } else {
        let rest = annotations(lines.drop_last());
        let l = lines.last();
        if is_annotation(l.0) {
            rest.push((trim_spec(l.0), l.1))
        } else {
            rest
        }
    }
}

pub open spec fn valid_token(t: Seq<char>) -> bool {
    t.len() > 3 && is_marker(t[3])
}

pub open spec fn all_valid(toks: Seq<(Seq<char>, usize)>) -> bool {
    forall|i: int| 0 <= i < toks.len() ==> valid_token(#[trigger] toks[i].0)
}

pub open spec fn has_title(toks: Seq<(Seq<char>, usize)>) -> bool {
    exists|i: int| 0 <= i < toks.len() && is_title(#[trigger] toks[i].0)
}

/// `i` is the first token whose marker is not valid.
pub open spec fn first_invalid(toks: Seq<(Seq<char>, usize)>, i: int) -> bool {
    &&& 0 <= i < toks.len()
    &&& !valid_token(toks[i].0)
    &&& forall|j: int| 0 <= j < i ==> valid_token(#[trigger] toks[j].0)
}

/// What checking the lexed tokens `toks` yields.
pub open spec fn check_outcome(toks: Seq<(Seq<char>, usize)>, r: Result<(), LexError>) -> bool {
    match r {
        Ok(()) => all_valid(toks) && has_title(toks),
        Err(LexError::InvalidMarker { line_text, position }) => exists|i: int|
            #[trigger] first_invalid(toks, i) && line_text@ == toks[i].0 && position == toks[i].1
                + 1,
        Err(LexError::MissingTitle) => all_valid(toks) && !has_title(toks),
        Err(LexError::NoAnnotationsFound) => false,
    }
}

/// What lexing the listing `lines` yields.
pub open spec fn lex_outcome(
    lines: Seq<(Seq<char>, usize)>,
    r: Result<Vec<(String, usize)>, LexError>,
) -> bool {
    let toks = annotations(lines);
    match r {
        Ok(v) => toks.len() > 0 && records(v@) == toks && all_valid(toks) && has_title(toks),
        Err(LexError::NoAnnotationsFound) => toks.len() == 0,
        Err(e) => toks.len() > 0 && check_outcome(toks, Err(e)),
    }
}

/// The regular expression that finds annotation lines.
pub open spec fn annotation_regex() -> Seq<char> {
    seq!['^', '\\', 's', '*', '/', '/', '@']
}

/// Relies on `regex::Regex::new` and `regex::Regex::is_match`: the pattern `^\s*//@`
/// compiles, and matches a line exactly when the line starts with `//@` after its
/// leading White_Space (the class `\s` of the crate).
#[verifier::external_body]
fn regex_is_match(pattern: &str, line: &str) -> (r: bool)
    requires
        pattern@ == annotation_regex(),
    ensures
        r == is_annotation(line@),
{
    regex::Regex::new(pattern).unwrap().is_match(line)
}

pub fn is_marker_char(c: char) -> (r: bool)
    ensures
        r == is_marker(c),
{
    c == '@' || c == ' ' || c == '{' || c == '}'
}

/// Checks lexed tokens: every marker must be valid (the first bad one is reported),
/// and at least one token must be a title.
pub fn validate_tokens(tokens: &Vec<(String, usize)>) -> (r: Result<(), LexError>)
    requires
        numbered(tokens@),
    ensures
        check_outcome(records(tokens@), r),
{
    let ghost toks = records(tokens@);
    let mut i: usize = 0;
    while i < tokens.len()
        invariant
            0 <= i <= tokens@.len(),
            toks == records(tokens@),
            numbered(tokens@),
            forall|j: int| 0 <= j < i ==> valid_token(#[trigger] toks[j].0),
        decreases tokens@.len() - i,
    {
        let t = tokens[i].0.as_str();
        let ok = t.unicode_len() > 3 && is_marker_char(t.get_char(3));
        if !ok {
            let r = Err(LexError::InvalidMarker { line_text: tokens[i].0.clone(), position: tokens[i].1 + 1 });
            assert(first_invalid(toks, i as int));
            return r;
        }
        i += 1;
    }
    let mut k: usize = 0;
    while k < tokens.len()
        invariant
            0 <= k <= tokens@.len(),
            toks == records(tokens@),
            all_valid(toks),
            forall|j: int| 0 <= j < k ==> !is_title(#[trigger] toks[j].0),
        decreases tokens@.len() - k,
    {
        if starts_with4(tokens[k].0.as_str(), '/', '/', '@', '@') {
            assert(is_title(toks[k as int].0));
            return Ok(());
        }
        k += 1;
    }
    Err(LexError::MissingTitle)
}

/// Lexes a listing: keeps its annotation lines, trimmed, in order, and checks them.
pub fn lex(source_tokens: Vec<(String, usize)>) -> (r: Result<Vec<(String, usize)>, LexError>)
    requires
        numbered(source_tokens@),
    ensures
        lex_outcome(records(source_tokens@), r),
{
    let ghost lines = records(source_tokens@);
    let mut kept: Vec<(String, usize)> = Vec::new();
    let mut i: usize = 0;
    while i < source_tokens.len()
        invariant
            0 <= i <= source_tokens@.len(),
            lines == records(source_tokens@),
            numbered(source_tokens@),
            numbered(kept@),
            records(kept@) == annotations(lines.subrange(0, i as int)),
        decreases source_tokens@.len() - i,
    {
        let line = source_tokens[i].0.as_str();
        assert(lines.subrange(0, i + 1).drop_last() =~= lines.subrange(0, i as int));
        let pattern = "^\\s*//@";
        proof {
            reveal_strlit("^\\s*//@");
            assert(pattern@ =~= annotation_regex());
        }
        if regex_is_match(pattern, line) {
            let t = trim(line).to_owned();
            let ghost before = kept@;
            kept.push((t, source_tokens[i].1));
            assert(records(kept@) =~= records(before).push((trim_spec(lines[i as int].0), lines[i as int].1)));
        }
        i += 1;
    }
    assert(lines.subrange(0, i as int) =~= lines);
    if kept.len() == 0 {
        return Err(LexError::NoAnnotationsFound);
    }
    match validate_tokens(&kept) {
        Ok(()) => Ok(kept),
        Err(e) => Err(e),
    }
}

/// A listing with no annotation line is refused with `NoAnnotationsFound`.
pub proof fn lex_refuses_listing_without_annotations(
    lines: Seq<(String, usize)>,
    r: Result<Vec<(String, usize)>, LexError>,
)
    requires
        lex_outcome(records(lines), r),
        forall|i: int| 0 <= i < lines.len() ==> !is_annotation(#[trigger] lines[i].0@),
    ensures
        r matches Err(LexError::NoAnnotationsFound),
{
    lemma_no_annotations(records(lines));
}

proof fn lemma_no_annotations(lines: Seq<(Seq<char>, usize)>)
    requires
        forall|i: int| 0 <= i < lines.len() ==> !is_annotation(#[trigger] lines[i].0),
    ensures
        annotations(lines).len() == 0,
    decreases lines.len(),
{
    if lines.len() > 0 {
        let rest = lines.drop_last();
        assert forall|i: int| 0 <= i < rest.len() implies !is_annotation(#[trigger] rest[i].0) by {
            assert(rest[i] == lines[i]);
        }
        lemma_no_annotations(rest);
        assert(!is_annotation(lines[lines.len() - 1].0));
    }
}

/// When the annotation at index `i` is the first whose marker is not valid, lexing
/// fails with `InvalidMarker` for that line, citing its 1-based line number.
pub proof fn lex_reports_first_invalid_marker(
    lines: Seq<(String, usize)>,
    i: int,
    r: Result<Vec<(String, usize)>, LexError>,
)
    requires
        lex_outcome(records(lines), r),
        first_invalid(annotations(records(lines)), i),
    ensures
        match r {
            Err(LexError::InvalidMarker { line_text, position }) => {
                &&& line_text@ == annotations(records(lines))[i].0
                &&& position == annotations(records(lines))[i].1 + 1
            },
            _ => false,
        },
{
    let toks = annotations(records(lines));
    match r {
        Err(LexError::InvalidMarker { line_text, position }) => {
            let j = choose|j: int|
                #[trigger] first_invalid(toks, j) && line_text@ == toks[j].0 && position
                    == toks[j].1 + 1;
            if j < i {
                assert(valid_token(toks[j].0));
            } else if i < j {
                assert(valid_token(toks[i].0));
            }
        },
        _ => {},
    }
}

/// Annotations whose markers are all valid but that hold no title are refused
/// with `MissingTitle`.
pub proof fn lex_refuses_untitled_annotations(
    lines: Seq<(String, usize)>,
    r: Result<Vec<(String, usize)>, LexError>,
)
    requires
        lex_outcome(records(lines), r),
        annotations(records(lines)).len() > 0,
        all_valid(annotations(records(lines))),
        !has_title(annotations(records(lines))),
    ensures
        r matches Err(LexError::MissingTitle),
{
    let toks = annotations(records(lines));
    match r {
        Err(LexError::InvalidMarker { line_text, position }) => {
            let j = choose|j: int|
                #[trigger] first_invalid(toks, j) && line_text@ == toks[j].0 && position
                    == toks[j].1 + 1;
            assert(valid_token(toks[j].0));
        },
        _ => {},
    }
}

} // verus!
