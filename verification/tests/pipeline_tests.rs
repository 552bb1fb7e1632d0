//! The whole assembly pipeline, macro expansion and the output-name rule.

use chrono::Datelike;
use bikeshed::assemble::{assemble_document, handle_oufile, AssembledSpec};
use bikeshed::boilerplate::add_header_footer;
use bikeshed::diagnostics::Diagnostic;
use bikeshed::macros::{replace_macros, MacroTable};
use bikeshed::record::Metadata;
use bikeshed::scanner::Line;

fn lines_of(texts: &[&str]) -> Vec<Line> {
    texts
        .iter()
        .enumerate()
        .map(|(i, t)| Line::new(1 + i as u32, t.to_string()))
        .collect()
}

fn baseline_with_date_now() -> Metadata {
    let mut b = Metadata::new();
    b.add_data("Date", "now", None).unwrap();
    b
}

fn chrono_today() -> (u16, u8, u8) {
    let d = chrono::offset::Utc::now().naive_utc().date();
    (d.year() as u16, d.month() as u8, d.day() as u8)
}

fn assemble(lines: &[&str]) -> Result<AssembledSpec, Diagnostic> {
    assemble_document(
        &lines_of(lines),
        &baseline_with_date_now(),
        &Metadata::new(),
        "HEADER",
        "FOOTER",
    )
}

#[test]
fn happy_path_assembles_and_expands() {
    let r = assemble(&[
        "<pre class=\"metadata\">",
        "Title: Hello",
        "Status: LS",
        "Shortname: hello",
        "Date: 2024-03-04",
        "</pre>",
        "<h1>Will be ignored because Title is set</h1>",
        "Body [TITLE] on [ISODATE].",
    ])
    .unwrap();
    assert_eq!(r.metadata.title, Some("Hello".to_string()));
    assert_eq!(r.metadata.raw_status, Some("LS".to_string()));
    assert_eq!(r.metadata.shortname, Some("hello".to_string()));
    let d = r.metadata.date.unwrap();
    assert_eq!((d.year, d.month, d.day), (2024, 3, 4));
    assert_eq!(r.macros.longstatus, Some("Living Standard".to_string()));
    assert_eq!(r.macros.isodate, Some("2024-03-04".to_string()));
    assert_eq!(r.macros.date, Some("4 March 2024".to_string()));
    assert!(r.html.contains("Body Hello on 2024-03-04."));
    let surviving: Vec<(u32, String)> =
        r.lines.iter().map(|l| (l.index, l.text.clone())).collect();
    assert_eq!(
        surviving,
        vec![
            (7, "<h1>Will be ignored because Title is set</h1>".to_string()),
            (8, "Body [TITLE] on [ISODATE].".to_string())
        ]
    );
    assert!(r.html.starts_with("HEADER\n"));
    assert!(r.html.ends_with("\nFOOTER"));
}

#[test]
fn h1_title_flows_into_merged_record() {
    let r = assemble(&[
        "<pre class=\"metadata\">",
        "Status: LS",
        "</pre>",
        "<h1>From H1</h1>",
        "Body [TITLE].",
    ])
    .unwrap();
    assert_eq!(r.metadata.title, Some("From H1".to_string()));
    assert!(r.html.contains("<h1>From H1</h1>"));
    assert!(r.html.contains("Body From H1."));
}

#[test]
fn date_now_from_baseline_reaches_macros() {
    let r = assemble(&[
        "<pre class=\"metadata\">",
        "Status: LS",
        "</pre>",
        "on [ISODATE] ([DATE])",
    ])
    .unwrap();
    let (y, m, d) = chrono_today();
    let dt = r.metadata.date.unwrap();
    assert_eq!((dt.year, dt.month, dt.day), (y, m, d));
    let iso = r.macros.isodate.clone().unwrap();
    assert_eq!(iso.len(), 10);
    assert_eq!(iso, format!("{:04}-{:02}-{:02}", y, m, d));
    let human = r.macros.date.clone().unwrap();
    assert!(human.starts_with(&format!("{} ", d)));
    assert!(human.ends_with(&format!(" {:04}", y)));
}

#[test]
fn unknown_key_aborts_assembly() {
    match assemble(&[
        "<pre class=\"metadata\">",
        "Widgets: 3",
        "</pre>",
    ]) {
        Err(d) => {
            let msg = d.message();
            assert!(msg.contains("Widgets"));
            assert!(msg.contains("at line 2"));
        },
        Ok(_) => panic!("unknown keys must abort assembly"),
    }
}

#[test]
fn merge_precedence_reaches_longstatus() {
    let mut baseline = baseline_with_date_now();
    baseline.add_data("Status", "LS", None).unwrap();
    let mut command_line = Metadata::new();
    command_line.add_data("Status", "w3c/CR", None).unwrap();
    let r = assemble_document(
        &lines_of(&[
            "<pre class=\"metadata\">",
            "Status: w3c/WD",
            "</pre>",
            "body",
        ]),
        &baseline,
        &command_line,
        "H",
        "F",
    )
    .unwrap();
    assert_eq!(r.metadata.raw_status, Some("w3c/CR".to_string()));
    assert_eq!(
        r.macros.longstatus,
        Some("W3C Candidate Recommendation".to_string())
    );
}

#[test]
fn unknown_status_aborts_at_macro_fill() {
    match assemble(&[
        "<pre class=\"metadata\">",
        "Status: XX",
        "</pre>",
    ]) {
        Err(Diagnostic::UnknownStatus { code }) => assert_eq!(code, "XX"),
        _ => panic!("an unknown status code must abort at macro fill"),
    }
}

#[test]
fn no_metadata_at_all_is_fatal() {
    let r = assemble_document(
        &lines_of(&["just a body line"]),
        &Metadata::new(),
        &Metadata::new(),
        "H",
        "F",
    );
    assert!(matches!(r, Err(Diagnostic::NoMetadata)));
}

#[test]
fn level_macro_only_when_nonempty() {
    let r = assemble(&[
        "<pre class=\"metadata\">",
        "Level: none",
        "</pre>",
        "L[LEVEL]L",
    ])
    .unwrap();
    assert_eq!(r.metadata.level, Some("".to_string()));
    assert_eq!(r.macros.level, None);
    assert!(r.html.contains("L[LEVEL]L"));

    let r2 = assemble(&[
        "<pre class=\"metadata\">",
        "Level: 2",
        "</pre>",
        "L[LEVEL]L",
    ])
    .unwrap();
    assert_eq!(r2.macros.level, Some("2".to_string()));
    assert!(r2.html.contains("L2L"));
}

#[test]
fn spectitle_is_an_alias_of_title() {
    let r = assemble(&[
        "<pre class=\"metadata\">",
        "Title: T",
        "</pre>",
        "[SPECTITLE]",
    ])
    .unwrap();
    assert_eq!(r.macros.spectitle, Some("T".to_string()));
    assert!(r.html.contains("\nT\n"));
}

fn table_with_title(title: &str) -> MacroTable {
    let mut t = MacroTable::new();
    t.title = Some(title.to_string());
    t
}

#[test]
fn expansion_is_not_recursive() {
    let t = table_with_title("x [DATE] y");
    assert_eq!(replace_macros("[TITLE]", &t), "x [DATE] y");
    assert_eq!(replace_macros("a[TITLE]b", &t), "ax [DATE] yb");
}

#[test]
fn unknown_macro_passes_through_verbatim() {
    let t = table_with_title("Hello");
    assert_eq!(replace_macros("[UNDEFINED]", &t), "[UNDEFINED]");
    assert_eq!(replace_macros("x [NOPE] y", &t), "x [NOPE] y");
}

#[test]
fn expansion_is_case_insensitive_on_the_name() {
    let t = table_with_title("Hello");
    assert_eq!(replace_macros("[TiTlE]", &t), "Hello");
    assert_eq!(replace_macros("[title]", &t), "Hello");
}

#[test]
fn expansion_edge_shapes() {
    let t = table_with_title("Hello");
    assert_eq!(replace_macros("", &t), "");
    assert_eq!(replace_macros("[title", &t), "[title");
    assert_eq!(replace_macros("title]", &t), "title]");
    assert_eq!(replace_macros("[[title]]", &t), "[Hello]");
    assert_eq!(replace_macros("[]", &t), "[]");
    assert_eq!(replace_macros("[title][title]", &t), "HelloHello");
}

#[test]
fn unset_macro_name_passes_through() {
    let t = MacroTable::new();
    assert_eq!(replace_macros("[TITLE]", &t), "[TITLE]");
}

#[test]
fn boilerplate_splices_with_newlines() {
    let mut html = "BODY".to_string();
    add_header_footer(&mut html, "HEAD", "FOOT");
    assert_eq!(html, "HEAD\nBODY\nFOOT");
}

#[test]
fn outfile_naming() {
    assert_eq!(handle_oufile("spec.bs", None), "spec.html");
    assert_eq!(handle_oufile("doc.src.html", None), "doc.html");
    assert_eq!(handle_oufile("notes.txt", None), "-");
    assert_eq!(handle_oufile("spec.bs", Some("given.html")), "given.html");
}
