//! Value parsers, dates, status codes and diagnostics.

use chrono::Datelike;
use bikeshed::date::{parse_date, Date};
use bikeshed::diagnostics::Diagnostic;
use bikeshed::parse::{parse_editor, parse_level, parse_value, parse_vec, ParseResult, ParseType};
use bikeshed::status::long_status;

fn chrono_today() -> (u16, u8, u8) {
    let d = chrono::offset::Utc::now().naive_utc().date();
    (d.year() as u16, d.month() as u8, d.day() as u8)
}

#[test]
fn level_none_is_empty() {
    assert_eq!(parse_level(&"none".to_string()), "");
}

#[test]
fn level_is_lowercased_and_trimmed() {
    assert_eq!(parse_level(&" None ".to_string()), "");
    assert_eq!(parse_level(&"NONE".to_string()), "");
    assert_eq!(parse_level(&"2".to_string()), "2");
    assert_eq!(parse_level(&" LS ".to_string()), "ls");
    assert_eq!(parse_level(&"".to_string()), "");
}

#[test]
fn vec_and_editor_are_single_element() {
    assert_eq!(parse_vec(&"one".to_string()), vec!["one".to_string()]);
    assert_eq!(parse_editor(&"A. Person".to_string()), vec!["A. Person".to_string()]);
}

#[test]
fn date_strict_form() {
    let d = parse_date("2024-03-04").unwrap();
    assert_eq!((d.year, d.month, d.day), (2024, 3, 4));
}

#[test]
fn date_rejects_bad_forms() {
    assert!(parse_date("2024-3-04").is_none());
    assert!(parse_date("2024-03-4").is_none());
    assert!(parse_date("2024-03-04 ").is_none());
    assert!(parse_date("24-03-04").is_none());
    assert!(parse_date("2024-13-01").is_none());
    assert!(parse_date("2024-00-10").is_none());
    assert!(parse_date("2024-02-30").is_none());
    assert!(parse_date("not a date").is_none());
}

#[test]
fn date_leap_years() {
    assert!(parse_date("2024-02-29").is_some());
    assert!(parse_date("2023-02-29").is_none());
    assert!(parse_date("1900-02-29").is_none());
    assert!(parse_date("2000-02-29").is_some());
}

#[test]
fn date_now_is_today_utc() {
    let d = parse_date("now").unwrap();
    let (y, m, dd) = chrono_today();
    assert_eq!((d.year, d.month, d.day), (y, m, dd));
}

#[test]
fn date_formats() {
    let d = Date { year: 2024, month: 3, day: 4 };
    assert_eq!(d.format_iso(), "2024-03-04");
    assert_eq!(d.format_human(), "4 March 2024");
    let d2 = Date { year: 4, month: 5, day: 31 };
    assert_eq!(d2.format_iso(), "0004-05-31");
    assert_eq!(d2.format_human(), "31 May 0004");
    let d3 = Date { year: 1999, month: 12, day: 25 };
    assert_eq!(d3.format_human(), "25 December 1999");
}

#[test]
fn parse_value_dispatch() {
    match parse_value(&ParseType::Literal, &"Hello".to_string()) {
        Some(ParseResult::Literal(s)) => assert_eq!(s, "Hello"),
        _ => panic!("literal parser changed shape"),
    }
    match parse_value(&ParseType::Level, &"None".to_string()) {
        Some(ParseResult::Literal(s)) => assert_eq!(s, ""),
        _ => panic!("level parser changed shape"),
    }
    match parse_value(&ParseType::LiteralList, &"one".to_string()) {
        Some(ParseResult::LiteralVec(v)) => assert_eq!(v, vec!["one".to_string()]),
        _ => panic!("list parser changed shape"),
    }
    match parse_value(&ParseType::Editor, &"E".to_string()) {
        Some(ParseResult::LiteralVec(v)) => assert_eq!(v, vec!["E".to_string()]),
        _ => panic!("editor parser changed shape"),
    }
    match parse_value(&ParseType::Date, &"2020-01-02".to_string()) {
        Some(ParseResult::Date(d)) => assert_eq!((d.year, d.month, d.day), (2020, 1, 2)),
        _ => panic!("date parser changed shape"),
    }
    assert!(parse_value(&ParseType::Date, &"nope".to_string()).is_none());
}

#[test]
fn status_codes() {
    assert_eq!(long_status("LS"), Some("Living Standard"));
    assert_eq!(long_status("w3c/CR"), Some("W3C Candidate Recommendation"));
    assert_eq!(long_status("iso/DIS"), Some("Draft International Standard"));
    assert_eq!(long_status("fido/PS"), Some("Proposed Standard"));
    assert_eq!(long_status("khronos/ED"), Some("Editor's Draft"));
    assert_eq!(long_status("tc39/STAGE2"), Some("Stage 2: Draft"));
    assert_eq!(long_status("ls"), None);
    assert_eq!(long_status("nonsense"), None);
}

#[test]
fn diagnostic_messages() {
    let d = Diagnostic::MalformedMetadataLine { line: 37 };
    assert_eq!(d.message(), "Incorrectly formatted metadata at line 37");
    let d = Diagnostic::UnknownKey { key: "Widgets".to_string(), line: Some(2) };
    assert_eq!(d.message(), "Unknown metadata key \"Widgets\" at line 2");
    let d = Diagnostic::UnknownKey { key: "Widgets".to_string(), line: None };
    assert_eq!(d.message(), "Unknown metadata key \"Widgets\"");
    let d = Diagnostic::BadDate { line: Some(4) };
    assert_eq!(d.message(), "The \"Date\" field must be in the format YYYY-MM-DD at line 4");
    let d = Diagnostic::NoMetadata;
    assert_eq!(d.message(), "No metadata provided");
    let d = Diagnostic::UnknownStatus { code: "XX".to_string() };
    assert_eq!(d.message(), "Unknown status \"XX\"");
}
