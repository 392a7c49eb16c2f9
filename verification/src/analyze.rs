//! The diagnostic assembler: the entry point parses the text, runs the rule
//! engine over the tree, and appends the parser's syntax errors, each mapped
//! to a position-anchored diagnostic. Parse failures become diagnostics,
//! never faults: no input makes this component fail.

use vstd::prelude::*;

use crate::diagnostic::{DiagView, Diagnostic};
use crate::engine::{run_diags, HtmlVisitor};
use crate::parse::{parse_document, spec_parse_document};
use crate::position::{chars_of, range_at, span_to_range};
use crate::tree::{doc_attrs, AttrView, HtmlDocument, ParseError, ParseErrorView};

verus! {

/// The diagnostic for one parser-reported syntax error: the error's mapped
/// span and its message, with default severity and no code or source label.
pub open spec fn error_diag(text: Seq<char>, e: ParseErrorView) -> DiagView {
    DiagView {
        range: range_at(text, e.span),
        message: e.message,
        severity: None,
        code: None,
        source: None,
    }
}

/// The diagnostics for a list of parser-reported syntax errors, in the
/// parser's order.
pub open spec fn error_diags(text: Seq<char>, es: Seq<ParseErrorView>) -> Seq<DiagView> {
    es.map_values(|e: ParseErrorView| error_diag(text, e))
}

/// What one analysis pass returns for a given parse outcome, stated over
/// the outcome's model — the attribute sequence and the error list: on
/// success, the rule engine's diagnostics followed by the mapped syntax
/// errors; on fatal failure, the single diagnostic describing it.
pub open spec fn spec_analyze_outcome(
    source: Seq<char>,
    text: Seq<char>,
    parsed: Result<(Seq<AttrView>, Seq<ParseErrorView>), ParseErrorView>,
) -> Seq<DiagView> {
    match parsed {
        Ok((attrs, errors)) => run_diags(text, source, Seq::empty(), attrs) + error_diags(
            text,
            errors,
        ),
        Err(e) => seq![error_diag(text, e)],
    }
}

/// The model of a parse outcome held in the library's types: the document's
/// depth-first attribute sequence and the error-list views.
pub open spec fn parsed_view(
    parsed: Result<(HtmlDocument, Vec<ParseError>), ParseError>,
) -> Result<(Seq<AttrView>, Seq<ParseErrorView>), ParseErrorView> {
    match parsed {
        Ok((doc, errors)) => Ok((doc_attrs(doc), errors.deep_view())),
        Err(e) => Err(e@),
    }
}

/// What one analysis pass returns for a given parse outcome.
pub open spec fn spec_analyze(
    source: Seq<char>,
    text: Seq<char>,
    parsed: Result<(HtmlDocument, Vec<ParseError>), ParseError>,
) -> Seq<DiagView> {
    spec_analyze_outcome(source, text, parsed_view(parsed))
}

/// The analysis output owed for a source label and a document text: the
/// diagnostics that `spec_analyze_outcome` assigns the parse outcome of the
/// text, spans rebased to start at 0.
pub open spec fn spec_diagnostics(source: Seq<char>, text: Seq<char>) -> Seq<DiagView> {
    spec_analyze_outcome(source, text, spec_parse_document(text))
}

/// Fatal-parse law: when the parser fails fatally, the analysis output has
/// length exactly one, and its only diagnostic carries the error's mapped
/// span and its message.
pub proof fn lemma_fatal_parse_single(source: Seq<char>, text: Seq<char>, e: ParseError)
    ensures
        spec_analyze(source, text, Err(e)).len() == 1,
        spec_analyze(source, text, Err(e))[0] == error_diag(text, e@),
        spec_analyze(source, text, Err(e))[0].range == range_at(text, e@.span),
{
}

/// Ordering law: on a successful parse the output is the rule-derived
/// diagnostics, in traversal order, followed by the parser-error
/// diagnostics, in the parser's order; nothing is sorted or interleaved.
pub proof fn lemma_rule_diagnostics_precede(
    source: Seq<char>,
    text: Seq<char>,
    doc: HtmlDocument,
    errors: Vec<ParseError>,
)
    ensures
        ({
            let out = spec_analyze(source, text, Ok((doc, errors)));
            let rules = run_diags(text, source, Seq::empty(), doc_attrs(doc));
            let from_parser = error_diags(text, errors.deep_view());
            &&& out == rules + from_parser
            &&& out.len() == rules.len() + from_parser.len()
            &&& forall|i: int| 0 <= i < rules.len() ==> out[i] == rules[i]
            &&& forall|i: int|
                0 <= i < from_parser.len() ==> out[rules.len() + i] == from_parser[i]
        }),
{
}

/// Maps one parser-reported error to a diagnostic against the document text.
pub fn error_to_diagnostic(error: &ParseError, text: &Vec<char>) -> (d: Diagnostic)
    ensures
        d@ == error_diag(text@, error@),
{
    Diagnostic::new_simple(span_to_range(text, &error.span), error.message.clone())
}

/// Runs the rule engine over a parse outcome and appends the mapped syntax
/// errors: the output is pinned exactly, for every outcome the parser can
/// hand over.
pub fn analyze_parsed(
    source: &String,
    text: &Vec<char>,
    parsed: &Result<(HtmlDocument, Vec<ParseError>), ParseError>,
) -> (r: Vec<Diagnostic>)
    ensures
        r.deep_view() == spec_analyze(source@, text@, *parsed),
{
    match parsed {
        Ok((doc, errors)) => {
            let mut visitor = HtmlVisitor::new(source.clone());
            visitor.visit_document(text, doc);
            let ghost rules = visitor.diagnostics.deep_view();
            let ghost ev = errors.deep_view();
            let mut j: usize = 0;
            while j < errors.len()
                invariant
                    j <= errors.len(),
                    ev == errors.deep_view(),
                    visitor.diagnostics.deep_view() == rules + error_diags(
                        text@,
                        ev.take(j as int),
                    ),
                decreases errors.len() - j,
            {
                let d = error_to_diagnostic(&errors[j], text);
                visitor.diagnostics.push(d);
                proof {
                    assert(d@ == error_diag(text@, ev[j as int]));
                    assert(visitor.diagnostics.deep_view() =~= (rules + error_diags(
                        text@,
                        ev.take(j as int),
                    )).push(d@));
                    assert(ev.take(j as int + 1) =~= ev.take(j as int).push(ev[j as int]));
                    assert(error_diags(text@, ev.take(j as int).push(ev[j as int])) =~= error_diags(
                        text@,
                        ev.take(j as int),
                    ).push(error_diag(text@, ev[j as int])));
                    assert(visitor.diagnostics.deep_view() =~= rules + error_diags(
                        text@,
                        ev.take(j as int + 1),
                    ));
                }
                j = j + 1;
            }
            proof {
                assert(ev.take(errors.len() as int) =~= ev);
                assert(visitor.diagnostics.deep_view() =~= spec_analyze(source@, text@, *parsed));
            }
            visitor.diagnostics
        },
        Err(e) => {
            let d = error_to_diagnostic(e, text);
            let mut out: Vec<Diagnostic> = Vec::new();
            out.push(d);
            proof {
                assert(out.deep_view() =~= spec_analyze(source@, text@, *parsed));
            }
            out
        },
    }
}

/// The analysis entry point: parses `document_content` and returns the
/// ordered diagnostic list — exactly `spec_diagnostics` of the label and
/// the text. On a successful parse that is the rule violations in traversal
/// order followed by the mapped syntax errors; on fatal failure, the single
/// fatal-parse diagnostic. Equal inputs give equal results. `source` is an
/// opaque label echoed into class-rule diagnostics.
pub fn get_html_diagnostics(source: String, document_content: String) -> (r: Vec<Diagnostic>)
    ensures
        r.deep_view() == spec_diagnostics(source@, document_content@),
{
    let text = chars_of(document_content.as_str());
    let parsed = parse_document(&document_content);
    let r = analyze_parsed(&source, &text, &parsed);
    proof {
        assert(parsed_view(parsed) == spec_parse_document(document_content@));
        assert(r.deep_view() == spec_diagnostics(source@, document_content@));
    }
    r
}

} // verus!
