//! Diagnostic type shared by parser, validator, and renderers.

use vstd::prelude::*;

use crate::span::Span;
use crate::text::{dec, push_dec, push_str, to_owned_string};

verus! {

#[derive(Clone, Copy, Debug, PartialEq, Eq, Hash, Structural)]
pub enum Severity {
    Error,
    Warning,
    Hint,
}

#[derive(Clone, Debug)]
pub struct Diagnostic {
    pub severity: Severity,
    /// A short machine-readable code, e.g. "parse.unclosed_paren".
    pub code: &'static str,
    /// Human-readable message.
    pub message: String,
    pub span: Span,
}

impl Diagnostic {
    pub fn error(code: &'static str, message: &str, span: Span) -> (r: Self)
        ensures
            r.severity == Severity::Error,
            r.code == code,
            r.message@ == message@,
            r.span == span,
    {
        Self { severity: Severity::Error, code, message: to_owned_string(message), span }
    }

    pub fn warning(code: &'static str, message: &str, span: Span) -> (r: Self)
        ensures
            r.severity == Severity::Warning,
            r.code == code,
            r.message@ == message@,
            r.span == span,
    {
        Self { severity: Severity::Warning, code, message: to_owned_string(message), span }
    }

    pub fn hint(code: &'static str, message: &str, span: Span) -> (r: Self)
        ensures
            r.severity == Severity::Hint,
            r.code == code,
            r.message@ == message@,
            r.span == span,
    {
        Self { severity: Severity::Hint, code, message: to_owned_string(message), span }
    }
}


/// A severity's name.
pub open spec fn severity_name(s: Severity) -> Seq<char> {
    match s {
        Severity::Error => "error"@,
        Severity::Warning => "warning"@,
        Severity::Hint => "hint"@,
    }
}

/// `severity: [code] message @ Lline:col`, with the position of the
/// diagnostic's start.
pub open spec fn diagnostic_line(d: Diagnostic) -> Seq<char> {
    severity_name(d.severity) + ": ["@ + d.code@ + "] "@ + d.message@ + " @ L"@ + dec(
        d.span.start.line as nat,
    ) + ":"@ + dec(d.span.start.col as nat)
}

/// One diagnostic as a line of text for a terminal.
pub fn format_diagnostic(d: &Diagnostic) -> (s: String)
    ensures
        s@ == diagnostic_line(*d),
{
    let sev = match d.severity {
        Severity::Error => "error",
        Severity::Warning => "warning",
        Severity::Hint => "hint",
    };
    let mut s = to_owned_string(sev);
    push_str(&mut s, ": [");
    push_str(&mut s, d.code);
    push_str(&mut s, "] ");
    push_str(&mut s, d.message.as_str());
    push_str(&mut s, " @ L");
    push_dec(&mut s, d.span.start.line as u64);
    push_str(&mut s, ":");
    push_dec(&mut s, d.span.start.col as u64);
    s
}
} // verus!
