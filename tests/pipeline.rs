use notegen::{generate, get_code_snippet, lex, parse, validate_tokens, GenerateError, LexError, RegionError};

fn listing(lines: &[&str]) -> Vec<(String, usize)> {
    lines.iter().enumerate().map(|(i, l)| (l.to_string(), i)).collect()
}

fn run_all(lines: &[&str], ext: &str, gen_tag: bool) -> Vec<(String, String)> {
    let source = listing(lines);
    let lexed = lex(source.clone()).expect("lex");
    let parsed = parse(lexed).expect("parse");
    generate(parsed, &source, ext.to_string(), gen_tag).expect("generate")
}

#[test]
fn single_document_with_region() {
    let docs = run_all(&["//@@ Title One", "//@ Hello", "//@{", "fn a(){}", "//@}"], "rs", false);
    assert_eq!(docs.len(), 1);
    assert_eq!(docs[0].0, "Title One");
    assert_eq!(docs[0].1, "Hello\n\n```\nfn a(){}\n```\n");
}

#[test]
fn consecutive_titles_give_empty_first_body() {
    let docs = run_all(&["//@@ First", "//@@ Second", "//@ text"], "rs", false);
    assert_eq!(docs.len(), 2);
    assert_eq!(docs[0], ("First".to_string(), "".to_string()));
    assert_eq!(docs[1], ("Second".to_string(), "text\n".to_string()));
}

#[test]
fn closer_before_opener_is_unmatched() {
    let toks = lex(listing(&["//@@ T", "//@}", "//@{"])).expect("lex");
    match parse(toks) {
        Err(RegionError::UnmatchedCloser { position }) => assert_eq!(position, 2),
        other => panic!("unexpected {:?}", other),
    }
}

#[test]
fn no_annotations_found() {
    let r = lex(listing(&["fn main() {}", "let x = 1; // @ not a marker", "/ /@"]));
    assert!(matches!(r, Err(LexError::NoAnnotationsFound)));
    assert!(matches!(lex(vec![]), Err(LexError::NoAnnotationsFound)));
}

#[test]
fn annotation_must_start_the_line() {
    let r = lex(listing(&["let x = 1; //@@ trailing comment"]));
    assert!(matches!(r, Err(LexError::NoAnnotationsFound)));
}

#[test]
fn invalid_marker_cites_first_bad_line() {
    let r = lex(listing(&["//@@ T", "code", "  //@x bad", "//@y also bad"]));
    match r {
        Err(LexError::InvalidMarker { line_text, position }) => {
            assert_eq!(line_text, "//@x bad");
            assert_eq!(position, 3);
        }
        other => panic!("unexpected {:?}", other),
    }
}

#[test]
fn bare_prefix_is_an_invalid_marker() {
    let r = lex(listing(&["//@@ T", "//@   "]));
    match r {
        Err(LexError::InvalidMarker { line_text, position }) => {
            assert_eq!(line_text, "//@");
            assert_eq!(position, 2);
        }
        other => panic!("unexpected {:?}", other),
    }
}

#[test]
fn missing_title() {
    let r = lex(listing(&["//@ prose", "//@{", "x", "//@}"]));
    assert!(matches!(r, Err(LexError::MissingTitle)));
}

#[test]
fn validate_tokens_checks_markers_then_title() {
    assert!(validate_tokens(&listing(&["//@@ T", "//@ p"])).is_ok());
    assert!(matches!(validate_tokens(&listing(&["//@ p"])), Err(LexError::MissingTitle)));
    assert!(matches!(
        validate_tokens(&listing(&["//@@ T", "//@!"])),
        Err(LexError::InvalidMarker { position: 2, .. })
    ));
}

#[test]
fn lex_keeps_and_trims_annotation_lines() {
    let r = lex(listing(&["code", "\t  //@@ Title  ", "more", " //@ prose \u{a0}"])).expect("lex");
    assert_eq!(r, vec![("//@@ Title".to_string(), 1), ("//@ prose".to_string(), 3)]);
}

#[test]
fn parse_returns_balanced_tokens_unchanged() {
    let toks = listing(&["//@@ T", "//@{", "//@}", "//@ p", "//@{", "//@}"]);
    let r = parse(toks.clone()).expect("balanced");
    assert_eq!(r, toks);
    let empty: Vec<(String, usize)> = vec![];
    assert_eq!(parse(empty.clone()).expect("empty"), empty);
}

#[test]
fn nested_region_is_unclosed() {
    let toks = listing(&["//@@ T", "//@{", "//@{", "//@}", "//@}"]);
    match parse(toks) {
        Err(RegionError::UnclosedRegion { position }) => assert_eq!(position, 3),
        other => panic!("unexpected {:?}", other),
    }
}

#[test]
fn region_left_open_blames_first_token() {
    let toks = vec![("//@@ T".to_string(), 4), ("//@{".to_string(), 7)];
    match parse(toks) {
        Err(RegionError::UnclosedRegion { position }) => assert_eq!(position, 5),
        other => panic!("unexpected {:?}", other),
    }
}

#[test]
fn snippet_takes_lines_strictly_between() {
    let src = listing(&["a", "b", "c", "d", "e"]);
    assert_eq!(get_code_snippet(1, 4, &src), "c\nd\n");
    assert_eq!(get_code_snippet(0, 1, &src), "");
    assert_eq!(get_code_snippet(2, 100, &src), "d\ne\n");
}

#[test]
fn generate_twice_gives_the_same_documents() {
    let lines = ["//@@ A", "//@ one", "//@{", "x", "//@}", "//@@ B", "//@ two"];
    let source = listing(&lines);
    let toks = parse(lex(source.clone()).expect("lex")).expect("parse");
    let first = generate(toks.clone(), &source, "go".to_string(), true).expect("first");
    let second = generate(toks, &source, "go".to_string(), true).expect("second");
    assert_eq!(first, second);
}

#[test]
fn tags_follow_first_prose_line_of_each_document() {
    let lines = ["//@@ A", "//@ one", "//@ more", "//@{", "let x = 1;", "//@}", "//@@ B", "//@ two"];
    let docs = run_all(&lines, "rs", true);
    assert_eq!(docs[0].1, "one\n#Rust\n\nmore\n\n```rust\nlet x = 1;\n```\n");
    assert_eq!(docs[1].1, "two\n#Rust\n\n");
}

#[test]
fn tag_table_entries() {
    let lines = ["//@@ A", "//@ x", "//@{", "y", "//@}"];
    assert_eq!(run_all(&lines, "c", true)[0].1, "x\n#C\n\n\n```c\ny\n```\n");
    assert_eq!(run_all(&lines, "java", true)[0].1, "x\n#Java\n\n\n```java\ny\n```\n");
    assert_eq!(run_all(&lines, "go", true)[0].1, "x\n#Go\n\n\n```go\ny\n```\n");
}

#[test]
fn unmapped_extension_is_refused_only_with_tags() {
    let source = listing(&["//@@ A", "//@ x"]);
    let toks = lex(source.clone()).expect("lex");
    let r = generate(toks.clone(), &source, "py".to_string(), true);
    assert!(matches!(r, Err(GenerateError::UnmappedLanguageTag)));
    let docs = generate(toks, &source, "py".to_string(), false).expect("no tags");
    assert_eq!(docs, vec![("A".to_string(), "x\n".to_string())]);
}

#[test]
fn title_and_prose_text_are_left_trimmed() {
    let docs = run_all(&["  //@@    Spaced Title", "//@     indented prose"], "rs", false);
    assert_eq!(docs[0].0, "Spaced Title");
    assert_eq!(docs[0].1, "indented prose\n");
}

#[test]
fn tokens_before_first_title_are_dropped() {
    let docs = run_all(&["//@ early", "//@{", "z", "//@}", "//@@ T", "//@ late"], "rs", false);
    assert_eq!(docs, vec![("T".to_string(), "late\n".to_string())]);
}
