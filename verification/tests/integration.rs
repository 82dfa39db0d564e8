use std::collections::HashSet;

use codex_lomor::sse::parse_sse_event_types;

#[test]
fn parse_sse_event_types_extracts_all_types() {
    let raw = "event: response.created\ndata: {}\n\n\
               event: response.output_text.delta\ndata: {}\n\n\
               event: response.completed\ndata: {}\n\n";
    let types: HashSet<String> = parse_sse_event_types(raw).into_iter().collect();
    assert!(types.contains("response.created"));
    assert!(types.contains("response.output_text.delta"));
    assert!(types.contains("response.completed"));
    assert!(!types.contains("bogus"));
}

#[test]
fn parse_sse_event_types_empty_on_no_events() {
    let types: HashSet<String> = parse_sse_event_types("data: {}\n\n").into_iter().collect();
    assert!(types.is_empty());
}

#[test]
fn sse_event_types_are_distinct_in_order_of_first_mention() {
    let raw = "event: a\ndata: 1\n\nevent: b\n\nevent: a\nevent: c\nevent: b\n";
    assert_eq!(parse_sse_event_types(raw), vec!["a".to_string(), "b".to_string(), "c".to_string()]);
}

#[test]
fn sse_crlf_lines_lose_their_carriage_return() {
    let raw = "event: x\r\ndata: {}\r\n\r\nevent: y\r\n";
    assert_eq!(parse_sse_event_types(raw), vec!["x".to_string(), "y".to_string()]);
}

#[test]
fn sse_last_line_without_newline_is_read_and_keeps_carriage_return() {
    assert_eq!(parse_sse_event_types("data: 1\nevent: last\r"), vec!["last\r".to_string()]);
    assert_eq!(parse_sse_event_types("event: tail"), vec!["tail".to_string()]);
}

#[test]
fn sse_prefix_must_be_exact_and_at_line_start() {
    assert!(parse_sse_event_types("event:nospace\n event: indented\nEVENT: upper\n").is_empty());
    assert_eq!(parse_sse_event_types("event: \n"), vec!["".to_string()]);
    assert!(parse_sse_event_types("").is_empty());
    assert!(parse_sse_event_types("event:").is_empty());
}

#[test]
fn sse_non_ascii_types() {
    assert_eq!(parse_sse_event_types("event: h\u{e9}llo\u{2014}w\n"), vec!["h\u{e9}llo\u{2014}w".to_string()]);
}
