//! Diagnostics: position-anchored findings reported to the editor. A
//! diagnostic is a self-contained value, never mutated after creation.

use vstd::prelude::*;

use crate::position::{Range, RangeView};

verus! {

/// Severity of a diagnostic, as an editor would display it.
#[derive(Clone, Copy, PartialEq, Eq, Structural, Debug)]
pub enum Severity {
    Error,
    Warning,
    Information,
    Hint,
}

/// A position-anchored finding: where it applies, what it says, and optional
/// severity, numeric code, and a label naming the analyzer it came from.
#[derive(Clone, Debug)]
pub struct Diagnostic {
    pub range: Range,
    pub message: String,
    pub severity: Option<Severity>,
    pub code: Option<u32>,
    pub source: Option<String>,
}

/// Mathematical model of a `Diagnostic`.
#[verifier::ext_equal]
pub struct DiagView {
    pub range: RangeView,
    pub message: Seq<char>,
    pub severity: Option<Severity>,
    pub code: Option<u32>,
    pub source: Option<Seq<char>>,
}

impl View for Diagnostic {
    type V = DiagView;

    open spec fn view(&self) -> DiagView {
        DiagView {
            range: self.range@,
            message: self.message@,
            severity: self.severity,
            code: self.code,
            source: self.source.deep_view(),
        }
    }
}

impl DeepView for Diagnostic {
    type V = DiagView;

    open spec fn deep_view(&self) -> DiagView {
        self.view()
    }
}

impl Diagnostic {
    /// A diagnostic carrying a message alone: no severity, no code, no
    /// source label.
    pub fn new_simple(range: Range, message: String) -> (d: Diagnostic)
        ensures
            d@ == (DiagView {
                range: range@,
                message: message@,
                severity: None,
                code: None,
                source: None,
            }),
    {
        Diagnostic { range, message, severity: None, code: None, source: None }
    }

    /// A diagnostic with a severity, a numeric code, and an optional source
    /// label.
    pub fn new_with_code_number(
        range: Range,
        severity: Severity,
        code: u32,
        source: Option<String>,
        message: String,
    ) -> (d: Diagnostic)
        ensures
            d@ == (DiagView {
                range: range@,
                message: message@,
                severity: Some(severity),
                code: Some(code),
                source: source.deep_view(),
            }),
    {
        Diagnostic { range, message, severity: Some(severity), code: Some(code), source }
    }
}

} // verus!
