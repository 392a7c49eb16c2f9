//! The parse boundary. The outside parser turns the document text into a
//! tree and a list of recoverable syntax errors, or fails fatally; wrappers
//! convert what it produces into the library's own types, and a verified
//! pass shifts the parser's positions — counted from base 1 — down to
//! zero-based offsets into the text. Spans keep the parser's units, byte
//! positions, which coincide with character offsets on ASCII text; the
//! mapper counts characters.

use vstd::prelude::*;

use crate::position::Span;
use crate::tree::{
    children_attrs, doc_attrs, lemma_children_attrs_push, node_attrs, Attr, AttrView,
    HtmlDocument, Node, ParseError, ParseErrorView,
};

verus! {

/// swc_html's parser error, held opaquely between the wrappers below.
#[verifier::external_type_specification]
#[verifier::external_body]
pub struct ExError(swc_html::parser::error::Error);

/// A child node of swc_html's document tree, held opaquely between wrappers.
#[verifier::external_type_specification]
#[verifier::external_body]
pub struct ExChild(swc_html::ast::Child);

/// An attribute node of swc_html's document tree, held opaquely between
/// wrappers.
#[verifier::external_type_specification]
#[verifier::external_body]
pub struct ExAttribute(swc_html::ast::Attribute);

/// What the parser produces for a given text, in the library's terms: on
/// success, the document's attributes in depth-first order — all the
/// analysis reads of the tree — and the recoverable syntax errors; on fatal
/// failure, the single error. The parse is a function of the text alone, so
/// naming its result is sound; spans here are the parser's own, counted
/// from base 1.
pub uninterp spec fn parse_of(text: Seq<char>) -> Result<
    (Seq<AttrView>, Seq<ParseErrorView>),
    ParseErrorView,
>;

/// Relies on swc_html's parse_file_as_document: it parses the text as one
/// HTML document, appending recoverable syntax errors to the error list and
/// returning an error value only when no document could be produced, all
/// deterministically from the text; and on swc_common's SourceFile, which
/// carries the text for the parser with byte positions counted from 1.
#[verifier::external_body]
fn parse_html(text: &String) -> (r: Result<(HtmlDocument, Vec<ParseError>), ParseError>)
    ensures
        r is Ok <==> parse_of(text@) is Ok,
        (r matches Ok(p) ==> (parse_of(text@) matches Ok(q) && doc_attrs(p.0) == q.0
            && p.1.deep_view() == q.1)),
        (r matches Err(e) ==> (parse_of(text@) matches Err(q) && e.deep_view() == q)),
{
    let anon = swc_common::sync::Lrc::new(swc_common::FileName::Anon);
    let src = text.clone().into();
    let file = swc_common::SourceFile::new(anon.clone(), false, anon, src, swc_common::BytePos(1));
    let mut errors = Vec::new();
    match swc_html::parser::parse_file_as_document(&file, Default::default(), &mut errors) {
        Ok(doc) => {
            let children = children_to_nodes(&doc.children);
            let list = errors.iter().map(error_to_parse_error).collect();
            Ok((HtmlDocument { children }, list))
        },
        Err(error) => Err(error_to_parse_error(&error)),
    }
}

/// Relies on the shape of swc_html's tree: an element node carries its
/// attributes and its child nodes (template contents count as children
/// here), the other node kinds carry none; document order is kept.
#[verifier::external_body]
fn child_to_node(c: &swc_html::ast::Child) -> (r: Node) {
    match c {
        swc_html::ast::Child::Element(e) => {
            let mut children = children_to_nodes(&e.children);
            if let Some(fragment) = &e.content {
                let mut more = children_to_nodes(&fragment.children);
                children.append(&mut more);
            }
            let attrs = e.attributes.iter().map(attribute_to_attr).collect();
            Node::Element { attrs, children }
        },
        swc_html::ast::Child::DocumentType(_) => Node::DocumentType,
        swc_html::ast::Child::Text(_) => Node::Text,
        swc_html::ast::Child::Comment(_) => Node::Comment,
    }
}

/// Relies on the same tree shape: converts each child node, keeping order.
#[verifier::external_body]
fn children_to_nodes(children: &Vec<swc_html::ast::Child>) -> (r: Vec<Node>) {
    children.iter().map(child_to_node).collect()
}

/// Relies on the attribute node's fields: `name` and `value` display as the
/// attribute's text, and `span` bounds the whole attribute in the source.
#[verifier::external_body]
fn attribute_to_attr(a: &swc_html::ast::Attribute) -> (r: Attr) {
    Attr {
        name: a.name.to_string(),
        value: a.value.as_ref().map(|v| v.to_string()),
        span: Span { lo: a.span.lo.0 as usize, hi: a.span.hi.0 as usize },
    }
}

/// Relies on the parser error's accessors: `into_inner` yields the span it
/// covers, `message` its human-readable text.
#[verifier::external_body]
fn error_to_parse_error(e: &swc_html::parser::error::Error) -> (r: ParseError) {
    let span = e.clone().into_inner().0;
    ParseError {
        span: Span { lo: span.lo.0 as usize, hi: span.hi.0 as usize },
        message: e.message().to_string(),
    }
}

/// `span`, with both ends shifted down by the parser's base of 1.
pub open spec fn spec_rebase_span(s: Span) -> Span {
    Span {
        lo: if s.lo >= 1 {
            (s.lo - 1) as usize
        } else {
            0
        },
        hi: if s.hi >= 1 {
            (s.hi - 1) as usize
        } else {
            0
        },
    }
}

/// An attribute with its span rebased.
pub open spec fn spec_rebase_attr(a: AttrView) -> AttrView {
    AttrView { name: a.name, value: a.value, span: spec_rebase_span(a.span) }
}

/// An attribute sequence with every span rebased.
pub open spec fn rebased_attrs(s: Seq<AttrView>) -> Seq<AttrView> {
    s.map_values(|a: AttrView| spec_rebase_attr(a))
}

/// A syntax error with its span rebased.
pub open spec fn spec_rebase_error(e: ParseErrorView) -> ParseErrorView {
    ParseErrorView { span: spec_rebase_span(e.span), message: e.message }
}

/// A syntax-error list with every span rebased.
pub open spec fn rebased_errors(s: Seq<ParseErrorView>) -> Seq<ParseErrorView> {
    s.map_values(|e: ParseErrorView| spec_rebase_error(e))
}

/// The parse outcome for `text` with every span rebased: what
/// `parse_document` returns.
pub open spec fn spec_parse_document(text: Seq<char>) -> Result<
    (Seq<AttrView>, Seq<ParseErrorView>),
    ParseErrorView,
> {
    match parse_of(text) {
        Ok((attrs, errors)) => Ok((rebased_attrs(attrs), rebased_errors(errors))),
        Err(e) => Err(spec_rebase_error(e)),
    }
}

fn rebase_span(s: &Span) -> (r: Span)
    ensures
        r == spec_rebase_span(*s),
{
    Span {
        lo: if s.lo >= 1 {
            s.lo - 1
        } else {
            0
        },
        hi: if s.hi >= 1 {
            s.hi - 1
        } else {
            0
        },
    }
}

fn rebase_attr(a: &Attr) -> (r: Attr)
    ensures
        r.deep_view() == spec_rebase_attr(a.deep_view()),
{
    Attr {
        name: a.name.clone(),
        value: match &a.value {
            Some(v) => Some(v.clone()),
            None => None,
        },
        span: rebase_span(&a.span),
    }
}

fn rebase_error(e: &ParseError) -> (r: ParseError)
    ensures
        r.deep_view() == spec_rebase_error(e.deep_view()),
{
    ParseError { span: rebase_span(&e.span), message: e.message.clone() }
}

/// Rebuilds `n` with every attribute span in it rebased.
#[verifier::loop_isolation(false)]
fn rebase_node(n: &Node) -> (r: Node)
    ensures
        node_attrs(r) == rebased_attrs(node_attrs(*n)),
    decreases *n,
{
    match n {
        Node::Element { attrs, children } => {
            let ghost av = attrs.deep_view();
            let mut new_attrs: Vec<Attr> = Vec::new();
            let mut i: usize = 0;
            while i < attrs.len()
                invariant
                    i <= attrs.len(),
                    av == attrs.deep_view(),
                    new_attrs.deep_view() == rebased_attrs(av.take(i as int)),
                decreases attrs.len() - i,
            {
                let na = rebase_attr(&attrs[i]);
                new_attrs.push(na);
                proof {
                    assert(av.take(i as int + 1) =~= av.take(i as int).push(av[i as int]));
                    assert(new_attrs.deep_view() =~= rebased_attrs(av.take(i as int)).push(
                        spec_rebase_attr(av[i as int]),
                    ));
                    assert(rebased_attrs(av.take(i as int).push(av[i as int])) =~= rebased_attrs(
                        av.take(i as int),
                    ).push(spec_rebase_attr(av[i as int])));
                }
                i = i + 1;
            }
            let ghost cv = children@;
            let mut new_children: Vec<Node> = Vec::new();
            let mut j: usize = 0;
            while j < children.len()
                invariant
                    j <= children.len(),
                    cv == children@,
                    children_attrs(new_children@) == rebased_attrs(
                        children_attrs(cv.take(j as int)),
                    ),
                decreases children.len() - j,
            {
                proof {
                    assert((*n)->Element_children == *children);
                    assert(decreases_to!(*n => (*n)->Element_children));
                    assert(decreases_to!(*children => children@));
                    assert(decreases_to!(children@ => children@[j as int]));
                }
                let child = rebase_node(&children[j]);
                proof {
                    lemma_children_attrs_push(new_children@, child);
                    lemma_children_attrs_push(cv.take(j as int), cv[j as int]);
                    assert(cv.take(j as int + 1) =~= cv.take(j as int).push(cv[j as int]));
                    assert(children_attrs(new_children@) + node_attrs(child) =~= rebased_attrs(
                        children_attrs(cv.take(j as int + 1)),
                    ));
                }
                new_children.push(child);
                j = j + 1;
            }
            proof {
                assert(av.take(attrs.len() as int) =~= av);
                assert(cv.take(children.len() as int) =~= cv);
            }
            let r = Node::Element { attrs: new_attrs, children: new_children };
            proof {
                assert(node_attrs(r) =~= rebased_attrs(node_attrs(*n)));
            }
            r
        },
        Node::DocumentType => {
            proof {
                assert(node_attrs(Node::DocumentType) =~= rebased_attrs(
                    node_attrs(Node::DocumentType),
                ));
            }
            Node::DocumentType
        },
        Node::Text => {
            proof {
                assert(node_attrs(Node::Text) =~= rebased_attrs(node_attrs(Node::Text)));
            }
            Node::Text
        },
        Node::Comment => {
            proof {
                assert(node_attrs(Node::Comment) =~= rebased_attrs(node_attrs(Node::Comment)));
            }
            Node::Comment
        },
    }
}

/// Rebuilds the document with every attribute span in it rebased.
fn rebase_document(d: HtmlDocument) -> (r: HtmlDocument)
    ensures
        doc_attrs(r) == rebased_attrs(doc_attrs(d)),
{
    let ghost cv = d.children@;
    let mut new_children: Vec<Node> = Vec::new();
    let mut j: usize = 0;
    while j < d.children.len()
        invariant
            j <= d.children.len(),
            cv == d.children@,
            children_attrs(new_children@) == rebased_attrs(children_attrs(cv.take(j as int))),
        decreases d.children.len() - j,
    {
        let child = rebase_node(&d.children[j]);
        proof {
            lemma_children_attrs_push(new_children@, child);
            lemma_children_attrs_push(cv.take(j as int), cv[j as int]);
            assert(cv.take(j as int + 1) =~= cv.take(j as int).push(cv[j as int]));
            assert(children_attrs(new_children@) + node_attrs(child) =~= rebased_attrs(
                children_attrs(cv.take(j as int + 1)),
            ));
        }
        new_children.push(child);
        j = j + 1;
    }
    proof {
        assert(cv.take(d.children.len() as int) =~= cv);
    }
    HtmlDocument { children: new_children }
}

/// Parses the document text. On success, the document tree and the list of
/// recoverable syntax errors come back; on fatal failure, the single error
/// the parser reported. Every span is shifted to start at 0, so it indexes
/// the text in the parser's units (byte positions, equal to character
/// offsets on ASCII text). The outcome is exactly `spec_parse_document` of
/// the text: the parse outcome under its name, rebased.
pub fn parse_document(text: &String) -> (r: Result<(HtmlDocument, Vec<ParseError>), ParseError>)
    ensures
        r is Ok <==> spec_parse_document(text@) is Ok,
        (r matches Ok(p) ==> (spec_parse_document(text@) matches Ok(q) && doc_attrs(p.0) == q.0
            && p.1.deep_view() == q.1)),
        (r matches Err(e) ==> (spec_parse_document(text@) matches Err(q) && e.deep_view() == q)),
{
    match parse_html(text) {
        Ok((doc, errors)) => {
            let doc = rebase_document(doc);
            let ghost ev = errors.deep_view();
            let mut issues: Vec<ParseError> = Vec::new();
            let mut j: usize = 0;
            while j < errors.len()
                invariant
                    j <= errors.len(),
                    ev == errors.deep_view(),
                    issues.deep_view() == rebased_errors(ev.take(j as int)),
                decreases errors.len() - j,
            {
                let e = rebase_error(&errors[j]);
                issues.push(e);
                proof {
                    assert(ev.take(j as int + 1) =~= ev.take(j as int).push(ev[j as int]));
                    assert(issues.deep_view() =~= rebased_errors(ev.take(j as int)).push(
                        spec_rebase_error(ev[j as int]),
                    ));
                    assert(rebased_errors(ev.take(j as int).push(ev[j as int])) =~= rebased_errors(
                        ev.take(j as int),
                    ).push(spec_rebase_error(ev[j as int])));
                }
                j = j + 1;
            }
            proof {
                assert(ev.take(errors.len() as int) =~= ev);
            }
            Ok((doc, issues))
        },
        Err(error) => Err(rebase_error(&error)),
    }
}

} // verus!
