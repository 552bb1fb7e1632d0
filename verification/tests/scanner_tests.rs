//! The metadata scanner: block detection, pair parsing, the `<h1>` title
//! and line provenance.

use bikeshed::diagnostics::Diagnostic;
use bikeshed::scanner::{parse_metadata, Line};

fn lines_of(texts: &[&str]) -> Vec<Line> {
    texts
        .iter()
        .enumerate()
        .map(|(i, t)| Line::new(1 + i as u32, t.to_string()))
        .collect()
}

#[test]
fn scans_pre_metadata_block() {
    let lines = lines_of(&[
        "<pre class=\"metadata\">",
        "Title: Hello",
        "Status: LS",
        "</pre>",
        "body text",
    ]);
    let (md, out) = parse_metadata(&lines).unwrap();
    assert_eq!(md.title, Some("Hello".to_string()));
    assert_eq!(md.raw_status, Some("LS".to_string()));
    assert!(md.has_keys);
    assert_eq!(out.len(), 1);
    assert_eq!(out[0].text, "body text");
    assert_eq!(out[0].index, 5);
}

#[test]
fn scans_xmp_metadata_block() {
    let lines = lines_of(&[
        "<xmp class=metadata here>",
        "Shortname: sn",
        "</xmp>  ",
        "after",
    ]);
    let (md, out) = parse_metadata(&lines).unwrap();
    assert_eq!(md.shortname, Some("sn".to_string()));
    assert_eq!(out.len(), 1);
    assert_eq!(out[0].index, 4);
}

#[test]
fn block_lines_are_opaque_to_the_body() {
    let lines = lines_of(&[
        "before",
        "<pre lang=x class='y metadata z'>",
        "Group: g",
        "</pre>",
        "after",
    ]);
    let (_, out) = parse_metadata(&lines).unwrap();
    let indices: Vec<u32> = out.iter().map(|l| l.index).collect();
    assert_eq!(indices, vec![1, 5]);
    assert!(out.iter().all(|l| !l.text.contains("metadata")));
    assert!(out.iter().all(|l| !l.text.contains("Group")));
}

#[test]
fn provenance_indices_survive() {
    let lines = lines_of(&[
        "one",
        "<pre class=metadata x>",
        "Title: T",
        "</pre>",
        "five",
        "six",
    ]);
    let (_, out) = parse_metadata(&lines).unwrap();
    let got: Vec<(u32, String)> = out.iter().map(|l| (l.index, l.text.clone())).collect();
    assert_eq!(
        got,
        vec![
            (1, "one".to_string()),
            (5, "five".to_string()),
            (6, "six".to_string())
        ]
    );
}

#[test]
fn h1_supplies_title_when_unset() {
    let lines = lines_of(&[
        "<pre class=\"metadata\">",
        "Status: LS",
        "</pre>",
        "<h1>From H1</h1>",
        "body",
    ]);
    let (md, out) = parse_metadata(&lines).unwrap();
    assert_eq!(md.title, Some("From H1".to_string()));
    assert_eq!(out.len(), 2);
    assert_eq!(out[0].text, "<h1>From H1</h1>");
}

#[test]
fn h1_is_ignored_when_title_is_set() {
    let lines = lines_of(&[
        "<pre class=\"metadata\">",
        "Title: Hello",
        "</pre>",
        "<h1>Will be ignored because Title is set</h1>",
    ]);
    let (md, out) = parse_metadata(&lines).unwrap();
    assert_eq!(md.title, Some("Hello".to_string()));
    assert_eq!(out.len(), 1);
    assert_eq!(out[0].index, 4);
}

#[test]
fn h1_with_attributes_and_surroundings() {
    let lines = lines_of(&["  <h1 id=\"top\">Spaced Title</h1> tail"]);
    let (md, out) = parse_metadata(&lines).unwrap();
    assert_eq!(md.title, Some("Spaced Title".to_string()));
    assert_eq!(out.len(), 1);
}

#[test]
fn malformed_metadata_line_is_fatal() {
    let lines = lines_of(&[
        "<pre class=\"metadata\">",
        "no colon here",
        "</pre>",
    ]);
    match parse_metadata(&lines) {
        Err(Diagnostic::MalformedMetadataLine { line }) => assert_eq!(line, 2),
        _ => panic!("a pairless line inside the block must be fatal"),
    }
}

#[test]
fn unknown_key_in_block_is_fatal_with_line() {
    let lines = lines_of(&[
        "<pre class=\"metadata\">",
        "Widgets: 3",
        "</pre>",
    ]);
    match parse_metadata(&lines) {
        Err(Diagnostic::UnknownKey { key, line }) => {
            assert_eq!(key, "Widgets");
            assert_eq!(line, Some(2));
        },
        _ => panic!("unknown keys inside the block must be fatal"),
    }
}

#[test]
fn blank_line_continues_previous_key() {
    let lines = lines_of(&[
        "<pre class=\"metadata\">",
        "Abstract: one",
        "",
        "</pre>",
    ]);
    let (md, _) = parse_metadata(&lines).unwrap();
    assert_eq!(md.abs, vec!["one".to_string(), "".to_string()]);
}

#[test]
fn pair_value_loses_leading_whitespace_only() {
    let lines = lines_of(&[
        "<pre class=\"metadata\">",
        "Title:    padded value  ",
        "</pre>",
    ]);
    let (md, _) = parse_metadata(&lines).unwrap();
    assert_eq!(md.title, Some("padded value  ".to_string()));
}

#[test]
fn pair_splits_at_first_colon() {
    let lines = lines_of(&[
        "<pre class=\"metadata\">",
        "ED: https://example.test/ed",
        "</pre>",
    ]);
    let (md, _) = parse_metadata(&lines).unwrap();
    assert_eq!(md.ed, Some("https://example.test/ed".to_string()));
}

#[test]
fn end_tag_anywhere_in_line_closes_block() {
    let lines = lines_of(&[
        "<pre class=metadata x>",
        "Title: T",
        "text </pre> tail",
        "after",
    ]);
    let (md, out) = parse_metadata(&lines).unwrap();
    assert_eq!(md.title, Some("T".to_string()));
    assert_eq!(out.len(), 1);
    assert_eq!(out[0].index, 4);
}

#[test]
fn pre_block_is_not_closed_by_xmp_tag() {
    let lines = lines_of(&[
        "<pre class=metadata x>",
        "</xmp>",
        "</pre>",
    ]);
    match parse_metadata(&lines) {
        Err(Diagnostic::MalformedMetadataLine { line }) => assert_eq!(line, 2),
        _ => panic!("a stray closing tag inside the block is not a pair"),
    }
}

#[test]
fn first_h1_on_a_line_wins() {
    let lines = lines_of(&["<h1>a</h1> and <h1>b</h1>"]);
    let (md, _) = parse_metadata(&lines).unwrap();
    assert_eq!(md.title, Some("a".to_string()));
}

#[test]
fn plain_pre_without_metadata_class_passes_through() {
    let lines = lines_of(&["<pre class=\"example\">", "x", "</pre>"]);
    let (md, out) = parse_metadata(&lines).unwrap();
    assert!(!md.has_keys);
    assert_eq!(out.len(), 3);
}
