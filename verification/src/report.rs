//! Diagnostics: what the validators report.

use vstd::prelude::*;
use vstd::string::*;
use crate::token::Loc;

verus! {

#[derive(Clone, Copy, Debug, PartialEq, Eq, Hash, Structural)]
pub enum Severity {
    Advice,
    Warning,
    Error,
}

/// The stable category of a diagnostic.
#[derive(Clone, Copy, Debug, PartialEq, Eq, Hash, Structural)]
pub enum ErrorKey {
    MissingField,
    DuplicateField,
    WrongComparator,
    TypeMismatch,
    InvalidChoice,
    NotAnInteger,
    NotANumber,
    WrongCount,
    MisplacedKey,
    UnknownField,
    MisplacedValue,
    MisplacedBlock,
    Unneeded,
    UnknownToken,
    ScopeMismatch,
    UndeclaredScope,
    Removed,
    CyclicDefinition,
    MissingItem,
    MissingLocalization,
    MissingFile,
    Duplicate,
    EventNamespace,
    Packaging,
    ReadError,
}

/// One report: severity, category, message, the place it is about, and
/// optionally a further sentence that explains the message and a second
/// place that the message refers to.
#[derive(Debug, PartialEq, Eq)]
pub struct Diagnostic {
    pub severity: Severity,
    pub key: ErrorKey,
    pub msg: String,
    pub loc: Loc,
    pub info: Option<String>,
    pub related: Option<Loc>,
}

/// A diagnostic as a mathematical value.
pub struct DiagnosticView {
    pub severity: Severity,
    pub key: ErrorKey,
    pub msg: Seq<char>,
    pub loc: Loc,
    pub info: Option<Seq<char>>,
    pub related: Option<Loc>,
}

impl View for Diagnostic {
    type V = DiagnosticView;

    open spec fn view(&self) -> DiagnosticView {
        DiagnosticView {
            severity: self.severity,
            key: self.key,
            msg: self.msg@,
            loc: self.loc,
            info: match self.info {
                Some(text) => Some(text@),
                None => None,
            },
            related: self.related,
        }
    }
}

/// The views of a sequence of diagnostics, in order.
pub open spec fn views(s: Seq<Diagnostic>) -> Seq<DiagnosticView> {
    Seq::new(s.len(), |i: int| s[i]@)
}

pub proof fn lemma_views_push(s: Seq<Diagnostic>, d: Diagnostic)
    ensures
        views(s.push(d)) == views(s).push(d@),
{
    assert(views(s.push(d)) =~= views(s).push(d@));
}

pub proof fn lemma_views_add(a: Seq<Diagnostic>, b: Seq<Diagnostic>)
    ensures
        views(a + b) == views(a) + views(b),
{
    assert(views(a + b) =~= views(a) + views(b));
}

pub open spec fn error_view(key: ErrorKey, msg: Seq<char>, loc: Loc) -> DiagnosticView {
    DiagnosticView { severity: Severity::Error, key, msg, loc, info: None, related: None }
}

pub open spec fn warning_view(key: ErrorKey, msg: Seq<char>, loc: Loc) -> DiagnosticView {
    DiagnosticView { severity: Severity::Warning, key, msg, loc, info: None, related: None }
}

pub open spec fn advice_view(key: ErrorKey, msg: Seq<char>, loc: Loc) -> DiagnosticView {
    DiagnosticView { severity: Severity::Advice, key, msg, loc, info: None, related: None }
}

impl Diagnostic {
    pub fn error(key: ErrorKey, msg: &str, loc: Loc) -> (d: Diagnostic)
        ensures
            d@ == error_view(key, msg@, loc),
    {
        Diagnostic {
            severity: Severity::Error,
            key,
            msg: String::from_str(msg),
            loc,
            info: None,
            related: None,
        }
    }

    pub fn warning(key: ErrorKey, msg: &str, loc: Loc) -> (d: Diagnostic)
        ensures
            d@ == warning_view(key, msg@, loc),
    {
        Diagnostic {
            severity: Severity::Warning,
            key,
            msg: String::from_str(msg),
            loc,
            info: None,
            related: None,
        }
    }

    pub fn advice(key: ErrorKey, msg: &str, loc: Loc) -> (d: Diagnostic)
        ensures
            d@ == advice_view(key, msg@, loc),
    {
        Diagnostic {
            severity: Severity::Advice,
            key,
            msg: String::from_str(msg),
            loc,
            info: None,
            related: None,
        }
    }

    /// The same diagnostic, pointing at a second place as well.
    pub fn with_related(self, other: Loc) -> (d: Diagnostic)
        ensures
            d@ == (DiagnosticView { related: Some(other), ..self@ }),
    {
        Diagnostic {
            severity: self.severity,
            key: self.key,
            msg: self.msg,
            loc: self.loc,
            info: self.info,
            related: Some(other),
        }
    }

    /// The same diagnostic, with a sentence that explains it.
    pub fn with_info(self, info: &str) -> (d: Diagnostic)
        ensures
            d@ == (DiagnosticView { info: Some(info@), ..self@ }),
    {
        Diagnostic {
            severity: self.severity,
            key: self.key,
            msg: self.msg,
            loc: self.loc,
            info: Some(String::from_str(info)),
            related: self.related,
        }
    }
}

/// Appends `more` to `reports`.
pub fn append_reports(reports: &mut Vec<Diagnostic>, more: Vec<Diagnostic>)
    ensures
        final(reports)@ == old(reports)@ + more@,
        views(final(reports)@) == views(old(reports)@) + views(more@),
{
    let mut more = more;
    proof {
        lemma_views_add(reports@, more@);
    }
    reports.append(&mut more);
}

} // verus!
