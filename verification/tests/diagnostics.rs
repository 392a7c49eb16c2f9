//! End-to-end and assembler-level tests: the two rules, ordering, and the
//! fatal-parse fallback.

use html_lint::analyze::{analyze_parsed, get_html_diagnostics};
use html_lint::diagnostic::{Diagnostic, Severity};
use html_lint::position::{chars_of, Position, Span};
use html_lint::tree::{Attr, HtmlDocument, Node, ParseError};

const CLASS_MESSAGE: &str = "Esto es un class";
const DUPLICATE_MESSAGE: &str = "No podes tener dos veces el mismo id en un mismo html";

fn id_attr(value: &str, lo: usize, hi: usize) -> Attr {
    Attr {
        name: "id".to_string(),
        value: Some(value.to_string()),
        span: Span { lo, hi },
    }
}

fn duplicates(diags: &[Diagnostic]) -> Vec<&Diagnostic> {
    diags.iter().filter(|d| d.message == DUPLICATE_MESSAGE).collect()
}

fn class_flags(diags: &[Diagnostic]) -> Vec<&Diagnostic> {
    diags.iter().filter(|d| d.message == CLASS_MESSAGE).collect()
}

#[test]
fn it_works() {
    let input = r##"
        <!DOCTYPE html>
        <html lang="en">
          <head>
            <meta charset="UTF-8" />
            <meta http-equiv="X-UA-Compatible" content="IE=edge" />
            <meta name="viewport" content="width=device-width, initial-scale=1.0" />
            <title>Document</title>
          </head>
          <body>
            <div id="#div">Hello</div>
            <div id="#div">Friend</div>
            <button class="super button" />
          </body>
        </html>
        "##
    .to_string();
    let _ = get_html_diagnostics("./input.html".to_string(), input);
}

#[test]
fn duplicate_id_is_reported_once_at_second_occurrence() {
    let input = r#"<div id="x"></div><div id="x"></div>"#.to_string();
    let out = get_html_diagnostics("doc.html".to_string(), input);
    let dups = duplicates(&out);
    assert_eq!(dups.len(), 1);
    let d = dups[0];
    // The second `id="x"` spans character offsets 23..29 on line 0.
    assert_eq!(d.range.start, Position { line: 0, column: 23 });
    assert_eq!(d.range.end, Position { line: 0, column: 29 });
    assert_eq!(d.severity, None);
    assert_eq!(d.code, None);
}

#[test]
fn class_attribute_is_reported_with_fixed_code() {
    let input = r#"<button class="a b"/>"#.to_string();
    let out = get_html_diagnostics("doc.html".to_string(), input);
    let flagged = class_flags(&out);
    assert_eq!(flagged.len(), 1);
    let d = flagged[0];
    // The `class="a b"` attribute spans character offsets 8..19 on line 0.
    assert_eq!(d.range.start, Position { line: 0, column: 8 });
    assert_eq!(d.range.end, Position { line: 0, column: 19 });
    assert_eq!(d.severity, Some(Severity::Error));
    assert_eq!(d.code, Some(12));
    assert_eq!(d.source.as_deref(), Some("doc.html"));
}

#[test]
fn nested_distinct_ids_yield_no_rule_diagnostics() {
    let input = r#"<div id="x"><div id="y"></div></div>"#.to_string();
    let out = get_html_diagnostics("doc.html".to_string(), input);
    assert_eq!(duplicates(&out).len(), 0);
    assert_eq!(class_flags(&out).len(), 0);
}

#[test]
fn nested_distinct_ids_tree_yields_empty_output() {
    let text = chars_of(r#"<div id="x"><div id="y"></div></div>"#);
    let inner = Node::Element {
        attrs: vec![id_attr("y", 17, 23)],
        children: vec![],
    };
    let outer = Node::Element {
        attrs: vec![id_attr("x", 5, 11)],
        children: vec![inner],
    };
    let doc = HtmlDocument { children: vec![outer] };
    let out = analyze_parsed(&"doc.html".to_string(), &text, &Ok((doc, vec![])));
    assert!(out.is_empty());
}

#[test]
fn fatal_parse_failure_yields_exactly_one_diagnostic() {
    let text = chars_of("a\nb<");
    let failure = ParseError {
        span: Span { lo: 2, hi: 3 },
        message: "could not parse".to_string(),
    };
    let out = analyze_parsed(&"doc.html".to_string(), &text, &Err(failure));
    assert_eq!(out.len(), 1);
    assert_eq!(out[0].message, "could not parse");
    assert_eq!(out[0].range.start, Position { line: 1, column: 0 });
    assert_eq!(out[0].range.end, Position { line: 1, column: 1 });
    assert_eq!(out[0].severity, None);
}

#[test]
fn third_occurrence_of_an_id_is_reported_again() {
    let text = chars_of(r#"<a id="x"/><a id="x"/><a id="x"/>"#);
    let doc = HtmlDocument {
        children: vec![
            Node::Element { attrs: vec![id_attr("x", 3, 9)], children: vec![] },
            Node::Element { attrs: vec![id_attr("x", 14, 20)], children: vec![] },
            Node::Element { attrs: vec![id_attr("x", 25, 31)], children: vec![] },
        ],
    };
    let out = analyze_parsed(&"doc.html".to_string(), &text, &Ok((doc, vec![])));
    assert_eq!(out.len(), 2);
    assert_eq!(out[0].message, DUPLICATE_MESSAGE);
    assert_eq!(out[0].range.start, Position { line: 0, column: 14 });
    assert_eq!(out[1].message, DUPLICATE_MESSAGE);
    assert_eq!(out[1].range.start, Position { line: 0, column: 25 });
}

#[test]
fn id_attribute_without_value_is_ignored() {
    let text = chars_of("<a id/><a id/>");
    let bare = || Attr { name: "id".to_string(), value: None, span: Span { lo: 3, hi: 5 } };
    let doc = HtmlDocument {
        children: vec![
            Node::Element { attrs: vec![bare()], children: vec![] },
            Node::Element { attrs: vec![bare()], children: vec![] },
        ],
    };
    let out = analyze_parsed(&"doc.html".to_string(), &text, &Ok((doc, vec![])));
    assert!(out.is_empty());
}

#[test]
fn nested_duplicate_of_outer_id_is_reported() {
    let input = r#"<div id="x"><div id="x"></div></div>"#.to_string();
    let out = get_html_diagnostics("doc.html".to_string(), input);
    let dups = duplicates(&out);
    assert_eq!(dups.len(), 1);
    // The inner `id="x"` spans character offsets 17..23 on line 0.
    assert_eq!(dups[0].range.start, Position { line: 0, column: 17 });
    assert_eq!(dups[0].range.end, Position { line: 0, column: 23 });
}

#[test]
fn rule_diagnostics_precede_parser_error_diagnostics() {
    let text = chars_of(r#"<a class="c"/>"#);
    let doc = HtmlDocument {
        children: vec![Node::Element {
            attrs: vec![Attr {
                name: "class".to_string(),
                value: Some("c".to_string()),
                span: Span { lo: 3, hi: 12 },
            }],
            children: vec![],
        }],
    };
    let errors = vec![
        ParseError { span: Span { lo: 0, hi: 1 }, message: "first syntax error".to_string() },
        ParseError { span: Span { lo: 1, hi: 2 }, message: "second syntax error".to_string() },
    ];
    let out = analyze_parsed(&"doc.html".to_string(), &text, &Ok((doc, errors)));
    assert_eq!(out.len(), 3);
    assert_eq!(out[0].message, CLASS_MESSAGE);
    assert_eq!(out[1].message, "first syntax error");
    assert_eq!(out[2].message, "second syntax error");
}

#[test]
fn class_attribute_without_value_is_still_reported() {
    let text = chars_of("<a class/>");
    let doc = HtmlDocument {
        children: vec![Node::Element {
            attrs: vec![Attr {
                name: "class".to_string(),
                value: None,
                span: Span { lo: 3, hi: 8 },
            }],
            children: vec![],
        }],
    };
    let out = analyze_parsed(&"doc.html".to_string(), &text, &Ok((doc, vec![])));
    assert_eq!(out.len(), 1);
    assert_eq!(out[0].message, CLASS_MESSAGE);
    assert_eq!(out[0].severity, Some(Severity::Error));
    assert_eq!(out[0].code, Some(12));
}

#[test]
fn recoverable_syntax_errors_are_appended_end_to_end() {
    // An unclosed comment parses with recoverable errors and no rule hits.
    let input = "<!-- never closed".to_string();
    let out = get_html_diagnostics("doc.html".to_string(), input);
    assert!(duplicates(&out).is_empty());
    assert!(class_flags(&out).is_empty());
    assert!(!out.is_empty());
    for d in &out {
        assert!(!d.message.is_empty());
    }
}

#[test]
fn empty_document_yields_no_rule_diagnostics() {
    let out = get_html_diagnostics("doc.html".to_string(), String::new());
    assert!(duplicates(&out).is_empty());
    assert!(class_flags(&out).is_empty());
}
