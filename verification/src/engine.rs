//! The rule engine: a depth-first walk over the document tree that applies
//! two fixed rules to every attribute node, accumulating diagnostics and the
//! set of identifier values seen so far. State is made fresh per analysis
//! pass and never shared.

use vstd::prelude::*;

use crate::diagnostic::{DiagView, Diagnostic, Severity};
use crate::position::{range_at, span_to_range, Span};
use crate::tree::{children_attrs, doc_attrs, lemma_children_attrs_push, node_attrs, Attr, AttrView, HtmlDocument, Node};

verus! {

/// Numeric code carried by every disallowed-class-attribute diagnostic.
pub const CLASS_ATTRIBUTE_CODE: u32 = 12;

/// Name of the disallowed styling attribute.
pub open spec fn class_name() -> Seq<char> {
    "class"@
}

/// Name of the identifier attribute.
pub open spec fn id_name() -> Seq<char> {
    "id"@
}

/// Message of the disallowed-class-attribute rule.
pub open spec fn class_message() -> Seq<char> {
    "Esto es un class"@
}

/// Message of the duplicate-identifier rule.
pub open spec fn duplicate_message() -> Seq<char> {
    "No podes tener dos veces el mismo id en un mismo html"@
}

/// The diagnostic the class-attribute rule emits for an attribute spanning
/// `span`: severity Error, the fixed code, the analyzer-source label.
pub open spec fn class_diag(text: Seq<char>, source: Seq<char>, span: Span) -> DiagView {
    DiagView {
        range: range_at(text, span),
        message: class_message(),
        severity: Some(Severity::Error),
        code: Some(CLASS_ATTRIBUTE_CODE),
        source: Some(source),
    }
}

/// The diagnostic the duplicate-identifier rule emits for an attribute
/// spanning `span`: a message alone, with default severity.
pub open spec fn duplicate_diag(text: Seq<char>, span: Span) -> DiagView {
    DiagView {
        range: range_at(text, span),
        message: duplicate_message(),
        severity: None,
        code: None,
        source: None,
    }
}

/// The value of an identifier attribute; `None` for any other attribute, and
/// for an identifier attribute without a value.
pub open spec fn id_value(a: AttrView) -> Option<Seq<char>> {
    if a.name == id_name() && a.value is Some {
        a.value
    } else {
        None
    }
}

/// The diagnostics that a single attribute yields, given the identifier
/// values seen before it: the class rule fires on the name `class`, the
/// duplicate rule on an identifier value seen before.
pub open spec fn attr_diags(
    text: Seq<char>,
    source: Seq<char>,
    seen: Seq<Seq<char>>,
    a: AttrView,
) -> Seq<DiagView> {
    let class_part = if a.name == class_name() {
        seq![class_diag(text, source, a.span)]
    } else {
        Seq::empty()
    };
    let dup_part = match id_value(a) {
        Some(v) => if seen.contains(v) {
            seq![duplicate_diag(text, a.span)]
        } else {
            Seq::empty()
        },
        None => Seq::empty(),
    };
    class_part + dup_part
}

/// The identifier values seen after handling `a`, given those seen before:
/// every identifier value is recorded, duplicate or not.
pub open spec fn seen_step(seen: Seq<Seq<char>>, a: AttrView) -> Seq<Seq<char>> {
    match id_value(a) {
        Some(v) => seen.push(v),
        None => seen,
    }
}

/// The diagnostics of a whole attribute sequence, threading the seen
/// identifier values left to right.
pub open spec fn run_diags(
    text: Seq<char>,
    source: Seq<char>,
    seen: Seq<Seq<char>>,
    attrs: Seq<AttrView>,
) -> Seq<DiagView>
    decreases attrs.len(),
{
    if attrs.len() == 0 {
        Seq::empty()
    } else {
        attr_diags(text, source, seen, attrs[0]) + run_diags(
            text,
            source,
            seen_step(seen, attrs[0]),
            attrs.drop_first(),
        )
    }
}

/// The identifier values seen after a whole attribute sequence.
pub open spec fn seen_after(seen: Seq<Seq<char>>, attrs: Seq<AttrView>) -> Seq<Seq<char>>
    decreases attrs.len(),
{
    if attrs.len() == 0 {
        seen
    } else {
        seen_after(seen_step(seen, attrs[0]), attrs.drop_first())
    }
}

/// Splitting an attribute sequence splits its diagnostics: the second part
/// runs with the identifier values that the first part has seen.
pub proof fn lemma_run_append(
    text: Seq<char>,
    source: Seq<char>,
    seen: Seq<Seq<char>>,
    a: Seq<AttrView>,
    b: Seq<AttrView>,
)
    ensures
        run_diags(text, source, seen, a + b) == run_diags(text, source, seen, a) + run_diags(
            text,
            source,
            seen_after(seen, a),
            b,
        ),
        seen_after(seen, a + b) == seen_after(seen_after(seen, a), b),
    decreases a.len(),
{
    if a.len() == 0 {
        assert(a + b =~= b);
        assert(run_diags(text, source, seen, a) + run_diags(text, source, seen, b) =~= run_diags(
            text,
            source,
            seen,
            b,
        ));
    } else {
        assert((a + b)[0] == a[0]);
        assert((a + b).drop_first() =~= a.drop_first() + b);
        lemma_run_append(text, source, seen_step(seen, a[0]), a.drop_first(), b);
        assert(run_diags(text, source, seen, a + b) =~= run_diags(text, source, seen, a)
            + run_diags(text, source, seen_after(seen, a), b));
    }
}

/// A one-attribute sequence runs to exactly that attribute's diagnostics.
pub proof fn lemma_run_single(
    text: Seq<char>,
    source: Seq<char>,
    seen: Seq<Seq<char>>,
    a: AttrView,
)
    ensures
        run_diags(text, source, seen, seq![a]) == attr_diags(text, source, seen, a),
        seen_after(seen, seq![a]) == seen_step(seen, a),
{
    reveal_with_fuel(run_diags, 2);
    reveal_with_fuel(seen_after, 2);
    assert(seq![a][0] == a);
    assert(seq![a].drop_first() =~= Seq::<AttrView>::empty());
    assert(attr_diags(text, source, seen, a) + Seq::<DiagView>::empty() =~= attr_diags(
        text,
        source,
        seen,
        a,
    ));
}

/// The identifier values seen after a run are those seen before it plus the
/// values that its identifier attributes carry, membership-wise.
pub proof fn lemma_seen_after_membership(seen: Seq<Seq<char>>, attrs: Seq<AttrView>, v: Seq<char>)
    ensures
        seen_after(seen, attrs).contains(v) <==> (seen.contains(v) || exists|j: int|
            0 <= j < attrs.len() && #[trigger] id_value(attrs[j]) == Some(v)),
    decreases attrs.len(),
{
    if attrs.len() == 0 {
    } else {
        let rest = attrs.drop_first();
        lemma_seen_after_membership(seen_step(seen, attrs[0]), rest, v);
        assert(seen_step(seen, attrs[0]).contains(v) <==> (seen.contains(v) || id_value(attrs[0])
            == Some(v))) by {
            match id_value(attrs[0]) {
                Some(x) => {
                    let p = seen.push(x);
                    assert(p[seen.len() as int] == x);
                    if seen.contains(v) {
                        let w = choose|i: int| 0 <= i < seen.len() && seen[i] == v;
                        assert(p[w] == v);
                    }
                    if p.contains(v) {
                        let w = choose|i: int| 0 <= i < p.len() && p[i] == v;
                        if w < seen.len() {
                            assert(seen[w] == v);
                        }
                    }
                },
                None => {},
            }
        }
        if exists|j: int| 0 <= j < rest.len() && #[trigger] id_value(rest[j]) == Some(v) {
            let j = choose|j: int| 0 <= j < rest.len() && #[trigger] id_value(rest[j]) == Some(v);
            assert(rest[j] == attrs[j + 1]);
            assert(id_value(attrs[j + 1]) == Some(v));
        }
        if exists|j: int| 1 <= j < attrs.len() && #[trigger] id_value(attrs[j]) == Some(v) {
            let j = choose|j: int| 1 <= j < attrs.len() && #[trigger] id_value(attrs[j]) == Some(
                v,
            );
            assert(rest[j - 1] == attrs[j]);
            assert(id_value(rest[j - 1]) == Some(v));
        }
    }
}

/// Duplicate-identifier law: in a run that starts with nothing seen, the
/// attribute at `i` yields the duplicate diagnostic if and only if it is an
/// identifier attribute carrying a value that some earlier identifier
/// attribute also carries. In particular, the first occurrence of a value
/// never yields it, and every later occurrence of that value does.
pub proof fn lemma_duplicate_detection(
    text: Seq<char>,
    source: Seq<char>,
    attrs: Seq<AttrView>,
    i: int,
)
    requires
        0 <= i < attrs.len(),
    ensures
        attr_diags(text, source, seen_after(Seq::empty(), attrs.take(i)), attrs[i]).contains(
            duplicate_diag(text, attrs[i].span),
        ) <==> (id_value(attrs[i]) is Some && exists|j: int|
            0 <= j < i && #[trigger] id_value(attrs[j]) == id_value(attrs[i])),
{
    let prior = seen_after(Seq::<Seq<char>>::empty(), attrs.take(i));
    let a = attrs[i];
    let here = attr_diags(text, source, prior, a);
    match id_value(a) {
        Some(v) => {
            lemma_seen_after_membership(Seq::empty(), attrs.take(i), v);
            assert forall|j: int| 0 <= j < i implies #[trigger] id_value(attrs.take(i)[j])
                == id_value(attrs[j]) by {
                assert(attrs.take(i)[j] == attrs[j]);
            }
            if prior.contains(v) {
                let cp_len: int = if a.name == class_name() {
                    1
                } else {
                    0
                };
                assert(here[cp_len] == duplicate_diag(text, a.span));
                let j = choose|j: int|
                    0 <= j < attrs.take(i).len() && #[trigger] id_value(attrs.take(i)[j]) == Some(
                        v,
                    );
                assert(id_value(attrs[j]) == id_value(a));
            } else {
                if here.contains(duplicate_diag(text, a.span)) {
                    let w = choose|w: int|
                        0 <= w < here.len() && here[w] == duplicate_diag(text, a.span);
                    assert(here[w].severity is Some);
                }
                if exists|j: int| 0 <= j < i && #[trigger] id_value(attrs[j]) == id_value(a) {
                    let j = choose|j: int|
                        0 <= j < i && #[trigger] id_value(attrs[j]) == id_value(a);
                    assert(id_value(attrs.take(i)[j]) == Some(v));
                }
            }
        },
        None => {
            if here.contains(duplicate_diag(text, a.span)) {
                let w = choose|w: int|
                    0 <= w < here.len() && here[w] == duplicate_diag(text, a.span);
                assert(here[w].severity is Some);
            }
        },
    }
}

/// Class-attribute law: an attribute named exactly `class` yields the
/// class-rule diagnostic and nothing else, whatever its value and whatever
/// identifiers were seen before it; an attribute named otherwise never yields
/// that diagnostic. The diagnostic carries severity Error, the fixed numeric
/// code, and the analyzer-source label.
pub proof fn lemma_class_attribute(
    text: Seq<char>,
    source: Seq<char>,
    seen: Seq<Seq<char>>,
    a: AttrView,
)
    ensures
        a.name == class_name() ==> attr_diags(text, source, seen, a) == seq![
            class_diag(text, source, a.span),
        ],
        a.name != class_name() ==> !attr_diags(text, source, seen, a).contains(
            class_diag(text, source, a.span),
        ),
        class_diag(text, source, a.span).severity == Some(Severity::Error),
        class_diag(text, source, a.span).code == Some(CLASS_ATTRIBUTE_CODE),
        class_diag(text, source, a.span).source == Some(source),
{
    let here = attr_diags(text, source, seen, a);
    if a.name == class_name() {
        assert(a.name != id_name()) by {
            reveal_strlit("class");
            reveal_strlit("id");
            assert(class_name().len() == 5);
            assert(id_name().len() == 2);
        }
        assert(here =~= seq![class_diag(text, source, a.span)]);
    } else {
        if here.contains(class_diag(text, source, a.span)) {
            let w = choose|w: int|
                0 <= w < here.len() && here[w] == class_diag(text, source, a.span);
            assert(here[w].severity is None);
        }
    }
}

/// The tree walker: accumulates diagnostics and seen identifier values while
/// visiting every attribute of the document, depth first.
pub struct HtmlVisitor {
    /// Analyzer-source label, echoed into class-rule diagnostics.
    pub source: String,
    /// Identifier values seen so far, in traversal order.
    pub ids: Vec<String>,
    /// Accumulated diagnostics, in traversal order.
    pub diagnostics: Vec<Diagnostic>,
}

impl HtmlVisitor {
    /// Fresh state for one analysis pass: nothing seen, nothing reported.
    pub fn new(source: String) -> (v: HtmlVisitor)
        ensures
            v.source == source,
            v.ids.deep_view() == Seq::<Seq<char>>::empty(),
            v.diagnostics.deep_view() == Seq::<DiagView>::empty(),
    {
        let v = HtmlVisitor { source, ids: Vec::new(), diagnostics: Vec::new() };
        proof {
            assert(v.ids.deep_view() =~= Seq::<Seq<char>>::empty());
            assert(v.diagnostics.deep_view() =~= Seq::<DiagView>::empty());
        }
        v
    }

    /// Whether `value` is among the identifier values seen so far.
    fn contains_id(&self, value: &String) -> (b: bool)
        ensures
            b == self.ids.deep_view().contains(value@),
    {
        let mut j: usize = 0;
        while j < self.ids.len()
            invariant
                j <= self.ids.len(),
                forall|k: int| 0 <= k < j ==> self.ids.deep_view()[k] != value@,
            decreases self.ids.len() - j,
        {
            if self.ids[j] == *value {
                proof {
                    assert(self.ids.deep_view()[j as int] == value@);
                }
                return true;
            }
            j = j + 1;
        }
        false
    }

    /// Applies both rules to one attribute: the class rule on its name, the
    /// duplicate rule on its identifier value, which is then recorded.
    pub fn visit_attribute(&mut self, text: &Vec<char>, n: &Attr)
        ensures
            final(self).source == old(self).source,
            final(self).ids.deep_view() == seen_step(old(self).ids.deep_view(), n@),
            final(self).diagnostics.deep_view() == old(self).diagnostics.deep_view() + attr_diags(
                text@,
                old(self).source@,
                old(self).ids.deep_view(),
                n@,
            ),
    {
        let ghost seen0 = self.ids.deep_view();
        let ghost diags0 = self.diagnostics.deep_view();
        let class_lit = class_name_string();
        if string_eq(&n.name, &class_lit) {
            let range = span_to_range(text, &n.span);
            let d = Diagnostic::new_with_code_number(
                range,
                Severity::Error,
                CLASS_ATTRIBUTE_CODE,
                Some(self.source.clone()),
                class_message_string(),
            );
            self.diagnostics.push(d);
        }
        let id_lit = id_name_string();
        if string_eq(&n.name, &id_lit) {
            match &n.value {
                Some(value) => {
                    if self.contains_id(value) {
                        let range = span_to_range(text, &n.span);
                        self.diagnostics.push(
                            Diagnostic::new_simple(range, duplicate_message_string()),
                        );
                    }
                    self.ids.push(value.clone());
                },
                None => {},
            }
        }
        proof {
            assert(self.ids.deep_view() =~= seen_step(seen0, n@));
            assert(self.diagnostics.deep_view() =~= diags0 + attr_diags(
                text@,
                old(self).source@,
                seen0,
                n@,
            ));
        }
    }

    /// Visits `n` and all its descendants, applying the rules to every
    /// attribute in depth-first order.
    #[verifier::loop_isolation(false)]
    pub fn visit_node(&mut self, text: &Vec<char>, n: &Node)
        ensures
            final(self).source == old(self).source,
            final(self).ids.deep_view() == seen_after(old(self).ids.deep_view(), node_attrs(*n)),
            final(self).diagnostics.deep_view() == old(self).diagnostics.deep_view() + run_diags(
                text@,
                old(self).source@,
                old(self).ids.deep_view(),
                node_attrs(*n),
            ),
        decreases *n,
    {
        match n {
            Node::Element { attrs, children } => {
                let ghost seen0 = self.ids.deep_view();
                let ghost diags0 = self.diagnostics.deep_view();
                let ghost av = attrs.deep_view();
                let mut i: usize = 0;
                while i < attrs.len()
                    invariant
                        i <= attrs.len(),
                        av == attrs.deep_view(),
                        self.source == old(self).source,
                        self.ids.deep_view() == seen_after(seen0, av.take(i as int)),
                        self.diagnostics.deep_view() == diags0 + run_diags(
                            text@,
                            old(self).source@,
                            seen0,
                            av.take(i as int),
                        ),
                    decreases attrs.len() - i,
                {
                    proof {
                        assert(av.take(i as int + 1) =~= av.take(i as int) + seq![av[i as int]]);
                        lemma_run_append(
                            text@,
                            old(self).source@,
                            seen0,
                            av.take(i as int),
                            seq![av[i as int]],
                        );
                        lemma_run_single(
                            text@,
                            old(self).source@,
                            seen_after(seen0, av.take(i as int)),
                            av[i as int],
                        );
                    }
                    self.visit_attribute(text, &attrs[i]);
                    i = i + 1;
                }
                proof {
                    assert(av.take(attrs.len() as int) =~= av);
                }
                let ghost cv = children@;
                let ghost seen1 = self.ids.deep_view();
                let ghost diags1 = self.diagnostics.deep_view();
                let mut j: usize = 0;
                while j < children.len()
                    invariant
                        j <= children.len(),
                        cv == children@,
                        self.source == old(self).source,
                        self.ids.deep_view() == seen_after(seen1, children_attrs(cv.take(j as int))),
                        self.diagnostics.deep_view() == diags1 + run_diags(
                            text@,
                            old(self).source@,
                            seen1,
                            children_attrs(cv.take(j as int)),
                        ),
                    decreases children.len() - j,
                {
                    proof {
                        assert(cv.take(j as int + 1) =~= cv.take(j as int).push(cv[j as int]));
                        lemma_children_attrs_push(cv.take(j as int), cv[j as int]);
                        lemma_run_append(
                            text@,
                            old(self).source@,
                            seen1,
                            children_attrs(cv.take(j as int)),
                            node_attrs(cv[j as int]),
                        );
                    }
                    proof {
                        assert((*n)->Element_children == *children);
                        assert(decreases_to!(*n => (*n)->Element_children));
                        assert(decreases_to!(*children => children@));
                        assert(decreases_to!(children@ => children@[j as int]));
                    }
                    self.visit_node(text, &children[j]);
                    j = j + 1;
                }
                proof {
                    assert(cv.take(children.len() as int) =~= cv);
                    assert(node_attrs(*n) == av + children_attrs(cv));
                    lemma_run_append(text@, old(self).source@, seen0, av, children_attrs(cv));
                    assert(self.diagnostics.deep_view() =~= diags0 + run_diags(
                        text@,
                        old(self).source@,
                        seen0,
                        node_attrs(*n),
                    ));
                }
            },
            _ => {
                proof {
                    assert(node_attrs(*n) =~= Seq::<AttrView>::empty());
                    assert(old(self).diagnostics.deep_view() + run_diags(
                        text@,
                        old(self).source@,
                        old(self).ids.deep_view(),
                        node_attrs(*n),
                    ) =~= old(self).diagnostics.deep_view());
                }
            },
        }
    }

    /// Visits every node of the document, depth first.
    pub fn visit_document(&mut self, text: &Vec<char>, d: &HtmlDocument)
        ensures
            final(self).source == old(self).source,
            final(self).ids.deep_view() == seen_after(old(self).ids.deep_view(), doc_attrs(*d)),
            final(self).diagnostics.deep_view() == old(self).diagnostics.deep_view() + run_diags(
                text@,
                old(self).source@,
                old(self).ids.deep_view(),
                doc_attrs(*d),
            ),
    {
        let ghost cv = d.children@;
        let ghost seen0 = self.ids.deep_view();
        let ghost diags0 = self.diagnostics.deep_view();
        let mut j: usize = 0;
        while j < d.children.len()
            invariant
                j <= d.children.len(),
                cv == d.children@,
                self.source == old(self).source,
                self.ids.deep_view() == seen_after(seen0, children_attrs(cv.take(j as int))),
                self.diagnostics.deep_view() == diags0 + run_diags(
                    text@,
                    old(self).source@,
                    seen0,
                    children_attrs(cv.take(j as int)),
                ),
            decreases d.children.len() - j,
        {
            proof {
                assert(cv.take(j as int + 1) =~= cv.take(j as int).push(cv[j as int]));
                lemma_children_attrs_push(cv.take(j as int), cv[j as int]);
                lemma_run_append(
                    text@,
                    old(self).source@,
                    seen0,
                    children_attrs(cv.take(j as int)),
                    node_attrs(cv[j as int]),
                );
            }
            self.visit_node(text, &d.children[j]);
            j = j + 1;
        }
        proof {
            assert(cv.take(d.children.len() as int) =~= cv);
        }
    }
}

/// String equality, stated over the views.
fn string_eq(a: &String, b: &String) -> (r: bool)
    ensures
        r == (a@ == b@),
{
    *a == *b
}

/// The string `class`, for comparing attribute names.
fn class_name_string() -> (s: String)
    ensures
        s@ == class_name(),
{
    "class".to_string()
}

/// The string `id`, for comparing attribute names.
fn id_name_string() -> (s: String)
    ensures
        s@ == id_name(),
{
    "id".to_string()
}

/// The class-rule message.
fn class_message_string() -> (s: String)
    ensures
        s@ == class_message(),
{
    "Esto es un class".to_string()
}

/// The duplicate-identifier message.
fn duplicate_message_string() -> (s: String)
    ensures
        s@ == duplicate_message(),
{
    "No podes tener dos veces el mismo id en un mismo html".to_string()
}

} // verus!
