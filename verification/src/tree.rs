//! The document model: a closed tree of node kinds as the parser reports
//! them. Only element nodes matter to the rules — they carry attributes and
//! children — but every kind is kept so the traversal mirrors the document.

use vstd::prelude::*;

use crate::position::Span;

verus! {

/// An attribute of an element: its name, its optional value, and the span of
/// the whole attribute in the document text.
#[derive(Clone, Debug)]
pub struct Attr {
    pub name: String,
    pub value: Option<String>,
    pub span: Span,
}

/// Mathematical model of an `Attr`.
#[verifier::ext_equal]
pub struct AttrView {
    pub name: Seq<char>,
    pub value: Option<Seq<char>>,
    pub span: Span,
}

impl View for Attr {
    type V = AttrView;

    open spec fn view(&self) -> AttrView {
        AttrView { name: self.name@, value: self.value.deep_view(), span: self.span }
    }
}

impl DeepView for Attr {
    type V = AttrView;

    open spec fn deep_view(&self) -> AttrView {
        self.view()
    }
}

/// A node of the document tree. Element nodes carry their attributes and
/// their children; the other kinds are kept only so that traversal order is
/// the document's.
pub enum Node {
    Element { attrs: Vec<Attr>, children: Vec<Node> },
    DocumentType,
    Text,
    Comment,
}

/// A parsed document: the roots of the node tree, in document order.
pub struct HtmlDocument {
    pub children: Vec<Node>,
}

/// A parser-reported syntax error: the span it covers in the document text
/// and its human-readable message.
#[derive(Clone, Debug)]
pub struct ParseError {
    pub span: Span,
    pub message: String,
}

/// Mathematical model of a `ParseError`.
#[verifier::ext_equal]
pub struct ParseErrorView {
    pub span: Span,
    pub message: Seq<char>,
}

impl View for ParseError {
    type V = ParseErrorView;

    open spec fn view(&self) -> ParseErrorView {
        ParseErrorView { span: self.span, message: self.message@ }
    }
}

impl DeepView for ParseError {
    type V = ParseErrorView;

    open spec fn deep_view(&self) -> ParseErrorView {
        self.view()
    }
}

/// The attributes of `n` and of all its descendants, in depth-first order:
/// an element's own attributes precede those of its children.
pub open spec fn node_attrs(n: Node) -> Seq<AttrView>
    decreases n,
{
    match n {
        Node::Element { attrs, children } => attrs.deep_view() + children_attrs(children@),
        _ => Seq::empty(),
    }
}

/// The attributes of a list of sibling nodes, in depth-first order.
pub open spec fn children_attrs(s: Seq<Node>) -> Seq<AttrView>
    decreases s,
{
    if s.len() == 0 {
        Seq::empty()
    } else {
        node_attrs(s[0]) + children_attrs(s.drop_first())
    }
}

/// Appending a sibling appends its attributes.
pub proof fn lemma_children_attrs_push(s: Seq<Node>, x: Node)
    ensures
        children_attrs(s.push(x)) == children_attrs(s) + node_attrs(x),
    decreases s.len(),
{
    if s.len() == 0 {
        assert(s.push(x)[0] == x);
        assert(s.push(x).drop_first() =~= Seq::<Node>::empty());
        assert(children_attrs(s) + node_attrs(x) =~= node_attrs(x) + children_attrs(
            Seq::<Node>::empty(),
        ));
    } else {
        assert(s.push(x)[0] == s[0]);
        assert(s.push(x).drop_first() =~= s.drop_first().push(x));
        lemma_children_attrs_push(s.drop_first(), x);
        assert(children_attrs(s.push(x)) =~= children_attrs(s) + node_attrs(x));
    }
}

/// The attributes of the whole document, in depth-first order.
pub open spec fn doc_attrs(d: HtmlDocument) -> Seq<AttrView> {
    children_attrs(d.children@)
}

} // verus!
