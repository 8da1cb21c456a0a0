//! The document generator: walks validated tokens once and renders one markdown
//! document per title, with code regions copied from the full listing.
use vstd::prelude::*;
use crate::text::{is_close, is_open, is_prose, is_title, starts_with4, trim_start, trim_start_spec};
use crate::lexer::records;

verus! {

/// Why no documents could be generated.
#[derive(Debug)]
pub enum GenerateError {
    /// Tags were asked for but the extension has no entry in the tag table.
    UnmappedLanguageTag,
}

/// The tag table: an extension's display label and its code block language.
pub open spec fn tag_entry(ext: Seq<char>) -> Option<(Seq<char>, Seq<char>)> {
    if ext == seq!['r', 's'] {
        Some((seq!['#', 'R', 'u', 's', 't'], seq!['r', 'u', 's', 't']))
    } else if ext == seq!['c'] {
        Some((seq!['#', 'C'], seq!['c']))
    } else if ext == seq!['j', 'a', 'v', 'a'] {
        Some((seq!['#', 'J', 'a', 'v', 'a'], seq!['j', 'a', 'v', 'a']))
    } else if ext == seq!['g', 'o'] {
        Some((seq!['#', 'G', 'o'], seq!['g', 'o']))
    } else {
        None
    }
}

/// The tag used while generating: none when tagging is off.
pub open spec fn tag_for(ext: Seq<char>, gen_tag: bool) -> Option<(Seq<char>, Seq<char>)> {
    if gen_tag {
        tag_entry(ext)
    } else {
        None
    }
}

/// The lines of `source` strictly between positions `s` and `e`, in listing order,
/// each followed by a newline.
pub open spec fn excerpt(source: Seq<(Seq<char>, usize)>, s: int, e: int) -> Seq<char>
    decreases source.len(),
{
    if source.len() == 0 {
        seq![]
    } else {
        let rest = excerpt(source.drop_last(), s, e);
        let l = source.last();
        if s < l.1 && l.1 < e {
            rest + l.0 + seq!['\n']
        } else {
            rest
        }
    }
}

/// A fenced code block with language `tag` around `code`, with a newline before it.
pub open spec fn fence(tag: Seq<char>, code: Seq<char>) -> Seq<char> {
    seq!['\n', '`', '`', '`'] + tag + seq!['\n'] + code + seq!['`', '`', '`', '\n']
}

/// The text of a title or prose token: what follows the marker, left-trimmed.
pub open spec fn after_marker(t: Seq<char>) -> Seq<char> {
    trim_start_spec(t.subrange(4, t.len() as int))
}

/// Documents as (title, body) pairs of text.
pub open spec fn doc_views(v: Seq<(String, String)>) -> Seq<(Seq<char>, Seq<char>)> {
    v.map_values(|p: (String, String)| (p.0@, p.1@))
}

/// Appends `extra` to the body of the last document.
pub open spec fn append_body(
    docs: Seq<(Seq<char>, Seq<char>)>,
    extra: Seq<char>,
) -> Seq<(Seq<char>, Seq<char>)> {
    docs.update(docs.len() - 1, (docs.last().0, docs.last().1 + extra))
}

/// The generator's state between two tokens.
pub struct GenState {
    pub docs: Seq<(Seq<char>, Seq<char>)>,
    pub code_tag: Seq<char>,
    pub printed: bool,
    pub start: int,
}

pub open spec fn initial_state() -> GenState {
    GenState { docs: seq![], code_tag: seq![], printed: false, start: 0 }
}

/// The display label of a tag, empty when there is none.
pub open spec fn tag_label(tag: Option<(Seq<char>, Seq<char>)>) -> Seq<char> {
    match tag {
        Some(p) => p.0,
        None => seq![],
    }
}

/// The code block language of a tag, empty when there is none.
pub open spec fn tag_lang(tag: Option<(Seq<char>, Seq<char>)>) -> Seq<char> {
    match tag {
        Some(p) => p.1,
        None => seq![],
    }
}

/// The prose line as it goes into the body, with the tag after it when one is due.
pub open spec fn prose_text(st: GenState, t: Seq<char>, tag: Option<(Seq<char>, Seq<char>)>) -> Seq<char> {
    if tag is Some && !st.printed {
        after_marker(t) + seq!['\n'] + tag_label(tag) + seq!['\n'] + seq!['\n']
    } else {
        after_marker(t) + seq!['\n']
    }
}

/// One token's effect. Prose and region ends before the first title are dropped.
pub open spec fn step(
    st: GenState,
    tok: (Seq<char>, usize),
    source: Seq<(Seq<char>, usize)>,
    tag: Option<(Seq<char>, Seq<char>)>,
) -> GenState {
    let t = tok.0;
    if is_title(t) {
        GenState { docs: st.docs.push((after_marker(t), seq![])), printed: false, ..st }
    } else if is_prose(t) {
        if st.docs.len() == 0 {
            st
        } else if tag is Some && !st.printed {
            GenState {
                docs: append_body(st.docs, prose_text(st, t, tag)),
                printed: true,
                code_tag: tag_lang(tag),
                ..st
            }
        } else {
            GenState { docs: append_body(st.docs, prose_text(st, t, tag)), ..st }
        }
    } else if is_open(t) {
        GenState { start: tok.1 as int, ..st }
    } else if is_close(t) {
        if st.docs.len() == 0 {
            st
        } else {
            GenState {
                docs: append_body(st.docs, fence(st.code_tag, excerpt(source, st.start, tok.1 as int))),
                ..st
            }
        }
    } else {
        st
    }
}

/// The state after all of `toks`.
pub open spec fn run(
    toks: Seq<(Seq<char>, usize)>,
    source: Seq<(Seq<char>, usize)>,
    tag: Option<(Seq<char>, Seq<char>)>,
) -> GenState
    decreases toks.len(),
{
    if toks.len() == 0 {
        initial_state()
    } else {
        step(run(toks.drop_last(), source, tag), toks.last(), source, tag)
    }
}

/// What generating from `toks` over the listing `source` yields.
pub open spec fn generate_outcome(
    toks: Seq<(Seq<char>, usize)>,
    source: Seq<(Seq<char>, usize)>,
    ext: Seq<char>,
    gen_tag: bool,
    r: Result<Vec<(String, String)>, GenerateError>,
) -> bool {
    match r {
        Err(GenerateError::UnmappedLanguageTag) => gen_tag && tag_entry(ext) is None,
        Ok(v) => !(gen_tag && tag_entry(ext) is None) && doc_views(v@) == run(
            toks,
            source,
            tag_for(ext, gen_tag),
        ).docs,
    }
}

fn str_eq(a: &str, b: &str) -> (r: bool)
    ensures
        r == (a@ == b@),
{
    let n = a.unicode_len();
    if n != b.unicode_len() {
        return false;
    }
    let mut i: usize = 0;
    while i < n
        invariant
            n == a@.len(),
            n == b@.len(),
            0 <= i <= n,
            forall|j: int| 0 <= j < i ==> a@[j] == b@[j],
        decreases n - i,
    {
        if a.get_char(i) != b.get_char(i) {
            return false;
        }
        i += 1;
    }
    assert(a@ =~= b@);
    true
}

/// Looks an extension up in the tag table.
fn lookup_tag(ext: &str) -> (r: Option<(&'static str, &'static str)>)
    ensures
        match r {
            Some(p) => tag_entry(ext@) == Some((p.0@, p.1@)),
            None => tag_entry(ext@) is None,
        },
{
    proof {
        reveal_strlit("rs");
        reveal_strlit("c");
        reveal_strlit("java");
        reveal_strlit("go");
        reveal_strlit("#Rust");
        reveal_strlit("rust");
        reveal_strlit("#C");
        reveal_strlit("#Java");
        reveal_strlit("#Go");
        assert("rs"@ =~= seq!['r', 's']);
        assert("c"@ =~= seq!['c']);
        assert("java"@ =~= seq!['j', 'a', 'v', 'a']);
        assert("go"@ =~= seq!['g', 'o']);
        assert("#Rust"@ =~= seq!['#', 'R', 'u', 's', 't']);
        assert("rust"@ =~= seq!['r', 'u', 's', 't']);
        assert("#C"@ =~= seq!['#', 'C']);
        assert("#Java"@ =~= seq!['#', 'J', 'a', 'v', 'a']);
        assert("#Go"@ =~= seq!['#', 'G', 'o']);
    }
    if str_eq(ext, "rs") {
        Some(("#Rust", "rust"))
    } else if str_eq(ext, "c") {
        Some(("#C", "c"))
    } else if str_eq(ext, "java") {
        Some(("#Java", "java"))
    } else if str_eq(ext, "go") {
        Some(("#Go", "go"))
    } else {
        None
    }
}

/// The lines of `source_tokens` whose position lies strictly between `start_line`
/// and `end_line`, in listing order, each followed by a newline.
pub fn get_code_snippet(start_line: usize, end_line: usize, source_tokens: &Vec<(String, usize)>) -> (r: String)
    ensures
        r@ == excerpt(records(source_tokens@), start_line as int, end_line as int),
{
    let ghost src = records(source_tokens@);
    let mut code_snippet = String::new();
    let mut i: usize = 0;
    while i < source_tokens.len()
        invariant
            0 <= i <= source_tokens@.len(),
            src == records(source_tokens@),
            code_snippet@ == excerpt(src.subrange(0, i as int), start_line as int, end_line as int),
        decreases source_tokens@.len() - i,
    {
        assert(src.subrange(0, i + 1).drop_last() =~= src.subrange(0, i as int));
        proof {
            reveal_strlit("\n");
        }
        if source_tokens[i].1 > start_line && source_tokens[i].1 < end_line {
            code_snippet.append(source_tokens[i].0.as_str());
            code_snippet.append("\n");
            assert("\n"@ =~= seq!['\n']);
        }
        i += 1;
    }
    assert(src.subrange(0, i as int) =~= src);
    code_snippet
}

/// Appends `extra` to the body of the last document.
fn append_last(docs: &mut Vec<(String, String)>, extra: &str)
    requires
        old(docs)@.len() > 0,
    ensures
        doc_views(final(docs)@) == append_body(doc_views(old(docs)@), extra@),
{
    let ghost before = docs@;
    match docs.pop() {
        Some(last) => {
            let (title, mut body) = last;
            body.append(extra);
            docs.push((title, body));
            assert(doc_views(docs@) =~= append_body(doc_views(before), extra@));
        },
        None => {},
    }
}

/// Wraps `code` in a fenced block with language `tag`.
fn fenced(tag: &str, code: &str) -> (r: String)
    ensures
        r@ == fence(tag@, code@),
{
    proof {
        reveal_strlit("\n```");
        reveal_strlit("\n");
        reveal_strlit("```\n");
    }
    let mut md = String::new();
    md.append("\n```");
    md.append(tag);
    md.append("\n");
    md.append(code);
    md.append("```\n");
    assert(md@ =~= fence(tag@, code@));
    md
}

/// Renders the documents: one per title token, in order. Prose lines go into the
/// current document's body; a region end brings in the lines of `source_tokens`
/// strictly between the region's start and end as a fenced code block. With
/// `gen_tag`, the first prose line of each document is followed by the label of
/// `ext` from the tag table, whose language then marks the code blocks. An
/// extension missing from that table is refused before any token is read. Prose
/// and region ends that come before the first title are dropped, and so are
/// tokens of no known kind, which lexing already excludes.
pub fn generate(
    tokens: Vec<(String, usize)>,
    source_tokens: &Vec<(String, usize)>,
    ext: String,
    gen_tag: bool,
) -> (r: Result<Vec<(String, String)>, GenerateError>)
    ensures
        generate_outcome(records(tokens@), records(source_tokens@), ext@, gen_tag, r),
{
    let mut label: Option<(&str, &str)> = None;
    if gen_tag {
        match lookup_tag(ext.as_str()) {
            Some(p) => {
                label = Some(p);
            },
            None => {
                return Err(GenerateError::UnmappedLanguageTag);
            },
        }
    }
    let ghost tag = tag_for(ext@, gen_tag);
    let ghost toks = records(tokens@);
    let ghost src = records(source_tokens@);
    proof {
        reveal_strlit("\n");
        assert("\n"@ =~= seq!['\n']);
    }
    let mut docs: Vec<(String, String)> = Vec::new();
    let mut code_tag = String::new();
    let mut printed = false;
    let mut start: usize = 0;
    let mut i: usize = 0;
    assert(toks.subrange(0, 0) =~= seq![]);
    assert(doc_views(docs@) =~= seq![]);
    while i < tokens.len()
        invariant
            0 <= i <= tokens@.len(),
            toks == records(tokens@),
            src == records(source_tokens@),
            tag == tag_for(ext@, gen_tag),
            match label {
                Some(p) => tag == Some((p.0@, p.1@)),
                None => tag is None,
            },
            "\n"@ == seq!['\n'],
            run(toks.subrange(0, i as int), src, tag) == (GenState {
                docs: doc_views(docs@),
                code_tag: code_tag@,
                printed: printed,
                start: start as int,
            }),
        decreases tokens@.len() - i,
    {
        assert(toks.subrange(0, i + 1).drop_last() =~= toks.subrange(0, i as int));
        let ghost st = run(toks.subrange(0, i as int), src, tag);
        let t = tokens[i].0.as_str();
        let pos = tokens[i].1;
        if starts_with4(t, '/', '/', '@', '@') {
            let n = t.unicode_len();
            let title = trim_start(t.substring_char(4, n)).to_owned();
            let ghost before = docs@;
            docs.push((title, String::new()));
            printed = false;
            assert(doc_views(docs@) =~= doc_views(before).push((after_marker(t@), seq![])));
        } else if starts_with4(t, '/', '/', '@', ' ') {
            if docs.len() > 0 {
                let n = t.unicode_len();
                let mut md = trim_start(t.substring_char(4, n)).to_owned();
                match label {
                    Some(p) => {
                        if !printed {
                            md.append("\n");
                            md.append(p.0);
                            md.append("\n");
                            code_tag = p.1.to_owned();
                            printed = true;
                        }
                    },
                    None => {},
                }
                md.append("\n");
                assert(md@ =~= prose_text(st, t@, tag));
                append_last(&mut docs, md.as_str());
            }
        } else if starts_with4(t, '/', '/', '@', '{') {
            start = pos;
        } else if starts_with4(t, '/', '/', '@', '}') {
            if docs.len() > 0 {
                let snippet = get_code_snippet(start, pos, source_tokens);
                let md = fenced(code_tag.as_str(), snippet.as_str());
                append_last(&mut docs, md.as_str());
            }
        }
        i += 1;
    }
    assert(toks.subrange(0, i as int) =~= toks);
    Ok(docs)
}

/// The texts of `lines`, each followed by a newline.
pub open spec fn lines_text(lines: Seq<(Seq<char>, usize)>) -> Seq<char>
    decreases lines.len(),
{
    if lines.len() == 0 {
        seq![]
    } else {
        lines_text(lines.drop_last()) + lines.last().0 + seq!['\n']
    }
}

/// Each line of the listing carries its own 0-based index as position.
pub open spec fn numbered_from_zero(source: Seq<(Seq<char>, usize)>) -> bool {
    forall|i: int| 0 <= i < source.len() ==> #[trigger] source[i].1 == i
}

pub open spec fn clip(x: int, n: int) -> int {
    if x < n {
        x
    } else {
        n
    }
}

/// The excerpt of a region from position `s` to position `e` of a listing is exactly
/// the run of its lines at positions `s + 1` up to `e - 1` (those that exist), in
/// ascending order, each followed by a newline.
pub proof fn excerpt_is_the_lines_between(source: Seq<(Seq<char>, usize)>, s: int, e: int)
    requires
        numbered_from_zero(source),
        0 <= s < e,
    ensures
        excerpt(source, s, e) == lines_text(
            source.subrange(clip(s + 1, source.len() as int), clip(e, source.len() as int)),
        ),
    decreases source.len(),
{
    let n = source.len() as int;
    if n == 0 {
        assert(source.subrange(0, 0) =~= seq![]);
    } else {
        let rest = source.drop_last();
        assert forall|i: int| 0 <= i < rest.len() implies #[trigger] rest[i].1 == i by {
            assert(rest[i] == source[i]);
        }
        excerpt_is_the_lines_between(rest, s, e);
        let lo = clip(s + 1, n);
        let hi = clip(e, n);
        let lo1 = clip(s + 1, n - 1);
        let hi1 = clip(e, n - 1);
        assert(source[n - 1].1 == n - 1);
        if s < n - 1 && n - 1 < e {
            assert(source.subrange(lo, hi).drop_last() =~= rest.subrange(lo1, hi1));
        } else if n - 1 <= s {
            assert(source.subrange(lo, hi) =~= seq![]);
            assert(rest.subrange(lo1, hi1) =~= seq![]);
        } else {
            assert(source.subrange(lo, hi) =~= rest.subrange(lo1, hi1));
        }
    }
}

/// Generating twice from the same tokens, listing and settings gives the same
/// outcome: the same error, or documents with the same titles and bodies.
pub proof fn generate_is_repeatable(
    tokens: Seq<(String, usize)>,
    source: Seq<(String, usize)>,
    ext: Seq<char>,
    gen_tag: bool,
    r1: Result<Vec<(String, String)>, GenerateError>,
    r2: Result<Vec<(String, String)>, GenerateError>,
)
    requires
        generate_outcome(records(tokens), records(source), ext, gen_tag, r1),
        generate_outcome(records(tokens), records(source), ext, gen_tag, r2),
    ensures
        r1 is Ok <==> r2 is Ok,
        r1 matches Ok(d1) ==> (r2 matches Ok(d2) && doc_views(d1@) == doc_views(d2@)),
{
}

} // verus!
