//! The [`ScopeContext`]: what is known, at one point of a script
//! expression, of the scope types in play.

use vstd::prelude::*;
use vstd::string::*;
use crate::report::{Diagnostic, DiagnosticView, ErrorKey, Severity, views};
use crate::scopes::{
    Scopes, ScopeName, Tables, accessor_diags, accessor_link, description, first_named,
    scope_to_scope,
};
use crate::text::lowercase;
use crate::text::str_eq;
use crate::token::Token;

verus! {

/// The named scopes that the first `n` bindings declare. A later binding
/// of a name replaces an earlier one.
pub open spec fn bindings(names: Seq<ScopeName>, n: int) -> Map<Seq<char>, Scopes>
    decreases n,
{
    if n <= 0 {
        Map::empty()
    } else {
        bindings(names, n - 1).insert(names[n - 1].name@, names[n - 1].scopes)
    }
}

/// A scope context as a mathematical value.
pub struct ScopeContextView {
    /// The type of the scope that the expression starts from.
    pub root: Scopes,
    /// The token that the context was made for.
    pub anchor: Token,
    /// The scopes that were saved under a name.
    pub named: Map<Seq<char>, Scopes>,
    /// What is known of the scope at the point that was reached.
    pub live: Scopes,
}

/// Tracks the scope types through one script expression. It is made for
/// one expression, changed while the expression is walked, and dropped.
pub struct ScopeContext {
    root: Scopes,
    anchor: Token,
    names: Vec<ScopeName>,
    live: Scopes,
}

impl View for ScopeContext {
    type V = ScopeContextView;

    closed spec fn view(&self) -> ScopeContextView {
        ScopeContextView {
            root: self.root,
            anchor: self.anchor,
            named: bindings(self.names@, self.names@.len() as int),
            live: self.live,
        }
    }
}

/// What narrowing `live` to the input `accepted` of a link gives: where
/// nothing is known yet, `accepted`; where the link accepts anything, what
/// is known; else what the two have in common, which must be something.
pub open spec fn narrowed(live: Scopes, accepted: Scopes, tables: &Tables) -> Option<Scopes> {
    if live == Scopes::spec_all(tables.game) {
        Some(accepted)
    } else if accepted == Scopes::spec_all(tables.game) {
        Some(live)
    } else if live.bits & accepted.bits == 0 {
        None
    } else {
        Some(live.spec_intersection(accepted))
    }
}

pub open spec fn msg_mismatch(token: Seq<char>, accepted: Seq<char>, live: Seq<char>) -> Seq<char> {
    "`"@ + token + "` is for "@ + accepted + " but scope seems to be "@ + live
}

/// The report that `token` accepts `accepted` but is applied to `live`.
pub open spec fn mismatch_view(token: Token, accepted: Scopes, live: Scopes, tables: &Tables) -> DiagnosticView {
    DiagnosticView {
        severity: Severity::Error,
        key: ErrorKey::ScopeMismatch,
        msg: msg_mismatch(token.s@, description(accepted, tables), description(live, tables)),
        loc: token.loc,
        info: None,
        related: None,
    }
}

/// What is known after one link: its output where its input fits, else
/// anything, so that one bad link does not spoil the rest of a chain.
pub open spec fn advanced(live: Scopes, input: Scopes, output: Scopes, tables: &Tables) -> Scopes {
    if narrowed(live, input, tables) is Some {
        output
    } else {
        Scopes::spec_all(tables.game)
    }
}

/// What one link reports.
pub open spec fn advance_diags(live: Scopes, input: Scopes, token: Token, tables: &Tables) -> Seq<
    DiagnosticView,
> {
    if narrowed(live, input, tables) is Some {
        Seq::empty()
    } else {
        seq![mismatch_view(token, input, live, tables)]
    }
}

pub open spec fn unknown_view(token: Token) -> DiagnosticView {
    DiagnosticView {
        severity: Severity::Error,
        key: ErrorKey::UnknownToken,
        msg: "unknown token `"@ + token.s@ + "`"@,
        loc: token.loc,
        info: None,
        related: None,
    }
}

/// What is known after the link that `token` names was followed from
/// `live`: anything where there is no such link.
pub open spec fn followed(live: Scopes, token: Token, tables: &Tables) -> Scopes {
    match accessor_link(tables, token.s@, live) {
        Some((input, output)) => advanced(live, input, output, tables),
        None => Scopes::spec_all(tables.game),
    }
}

/// What following the link that `token` names reports.
pub open spec fn follow_diags(live: Scopes, token: Token, tables: &Tables) -> Seq<DiagnosticView> {
    match accessor_link(tables, token.s@, live) {
        Some((input, output)) => accessor_diags(tables, token) + advance_diags(
            live,
            input,
            token,
            tables,
        ),
        None => seq![unknown_view(token)],
    }
}

pub open spec fn undeclared_view(token: Token) -> DiagnosticView {
    DiagnosticView {
        severity: Severity::Error,
        key: ErrorKey::UndeclaredScope,
        msg: "scope `"@ + token.s@ + "` was not saved"@,
        loc: token.loc,
        info: None,
        related: None,
    }
}

/// After a token that names no link, or one that the game has removed,
/// anything may follow: the next link, whatever it accepts, fits and
/// reports no mismatch, and what is known before it is what it accepts.
pub proof fn lemma_fallback_does_not_cascade(live: Scopes, token: Token, next: Scopes, tables: &Tables)
    requires
        first_named(tables.scope_to_scope@, lowercase(token.s@), 0) < 0,
    ensures
        followed(live, token, tables) == Scopes::spec_all(tables.game),
        narrowed(followed(live, token, tables), next, tables) == Some(next),
        follow_diags(live, token, tables).len() == 1,
{
}

/// Narrowing never widens: what is known after a link's input was fitted
/// is within what was known before, for a link whose input is of the
/// game's vocabulary.
pub proof fn lemma_narrowing_is_monotone(live: Scopes, accepted: Scopes, tables: &Tables)
    requires
        live.within(tables.game),
        accepted.within(tables.game),
        narrowed(live, accepted, tables) is Some,
    ensures
        narrowed(live, accepted, tables)->0@.subset_of(live@),
        narrowed(live, accepted, tables)->0@.subset_of(accepted@),
{
    if live != Scopes::spec_all(tables.game) && accepted != Scopes::spec_all(tables.game) {
        crate::scopes::lemma_intersection_tags(live, accepted);
    }
}

/// A link whose output is within its fitted input leaves what is known
/// within what was known before the link.
pub proof fn lemma_advance_is_monotone(live: Scopes, input: Scopes, output: Scopes, tables: &Tables)
    requires
        live.within(tables.game),
        input.within(tables.game),
        narrowed(live, input, tables) is Some,
        output@.subset_of(narrowed(live, input, tables)->0@),
    ensures
        advanced(live, input, output, tables)@.subset_of(live@),
{
    lemma_narrowing_is_monotone(live, input, tables);
}

impl ScopeContext {
    /// A context for an expression that starts from a scope of type
    /// `root`, with no named scopes.
    pub fn new_root(root: Scopes, anchor: Token) -> (sc: ScopeContext)
        ensures
            sc@ == (ScopeContextView { root, anchor, named: Map::empty(), live: root }),
    {
        ScopeContext { root, anchor, names: Vec::new(), live: root }
    }

    /// The type of the scope that the expression starts from.
    pub fn root(&self) -> (r: Scopes)
        ensures
            r == self@.root,
    {
        self.root
    }

    /// What is known of the scope at the point that was reached.
    pub fn live(&self) -> (r: Scopes)
        ensures
            r == self@.live,
    {
        self.live
    }

    /// The token that the context was made for.
    pub fn anchor(&self) -> (r: &Token)
        ensures
            *r == self@.anchor,
    {
        &self.anchor
    }

    /// Saves a scope of type `scopes` under `name`.
    pub fn push_named_scope(&mut self, name: &str, scopes: Scopes)
        ensures
            final(self)@ == (ScopeContextView {
                named: old(self)@.named.insert(name@, scopes),
                ..old(self)@
            }),
    {
        self.names.push(ScopeName { name: String::from_str(name), scopes });
        assert(self.names@.drop_last() =~= old(self).names@);
        assert(bindings(self.names@, self.names@.len() - 1) == bindings(
            old(self).names@,
            old(self).names@.len() as int,
        )) by {
            lemma_bindings_prefix(self.names@, old(self).names@, old(self).names@.len() as int);
        }
    }

    /// The type of the scope that was saved under `name`.
    pub fn resolve_named(&self, name: &str) -> (r: Option<Scopes>)
        ensures
            r == if self@.named.contains_key(name@) {
                Some(self@.named[name@])
            } else {
                None
            },
    {
        let mut i: usize = self.names.len();
        while i > 0
            invariant
                i <= self.names.len(),
                bindings(self.names@, self.names@.len() as int).contains_key(name@) == bindings(
                    self.names@,
                    i as int,
                ).contains_key(name@),
                bindings(self.names@, i as int).contains_key(name@) ==> bindings(
                    self.names@,
                    self.names@.len() as int,
                )[name@] == bindings(self.names@, i as int)[name@],
            decreases i,
        {
            i = i - 1;
            if str_eq(self.names[i].name.as_str(), name) {
                return Some(self.names[i].scopes);
            }
        }
        None
    }

    /// Goes to the scope that was saved under the name `token`. A name
    /// under which none was saved is reported, and anything may follow it.
    pub fn use_named(&mut self, token: &Token, tables: &Tables) -> (r: Vec<Diagnostic>)
        ensures
            final(self)@ == (ScopeContextView {
                live: if old(self)@.named.contains_key(token.s@) {
                    old(self)@.named[token.s@]
                } else {
                    Scopes::spec_all(tables.game)
                },
                ..old(self)@
            }),
            views(r@) == if old(self)@.named.contains_key(token.s@) {
                Seq::empty()
            } else {
                seq![undeclared_view(*token)]
            },
    {
        match self.resolve_named(token.as_str()) {
            Some(scopes) => {
                self.live = scopes;
                no_report()
            },
            None => {
                self.live = Scopes::all(tables.game);
                let mut msg = String::from_str("scope `");
                msg.append(token.as_str());
                msg.append("` was not saved");
                let d = Diagnostic::error(ErrorKey::UndeclaredScope, msg.as_str(), token.loc);
                let mut r: Vec<Diagnostic> = Vec::new();
                r.push(d);
                assert(views(r@) =~= seq![undeclared_view(*token)]);
                r
            },
        }
    }

    /// Starts again from the root scope.
    pub fn reset(&mut self)
        ensures
            final(self)@ == (ScopeContextView { live: old(self)@.root, ..old(self)@ }),
    {
        self.live = self.root;
    }

    /// Fits what is known to the input `accepted` of the link `token`.
    /// Where nothing was known, `accepted` is known now; where the link
    /// accepts anything, what was known stays; where the two have
    /// something in common, that; where they have nothing in common, that
    /// is reported and what was known stays.
    pub fn narrow(&mut self, accepted: Scopes, token: &Token, tables: &Tables) -> (r: Vec<
        Diagnostic,
    >)
        ensures
            final(self)@ == (ScopeContextView {
                live: match narrowed(old(self)@.live, accepted, tables) {
                    Some(s) => s,
                    None => old(self)@.live,
                },
                ..old(self)@
            }),
            views(r@) == advance_diags(old(self)@.live, accepted, *token, tables),
    {
        if self.live == Scopes::all(tables.game) {
            self.live = accepted;
            return no_report();
        }
        if accepted == Scopes::all(tables.game) {
            return no_report();
        }
        let common = self.live.intersection(accepted);
        if common.is_empty() {
            let mut msg = String::from_str("`");
            msg.append(token.as_str());
            msg.append("` is for ");
            msg.append(accepted.describe(tables).as_str());
            msg.append(" but scope seems to be ");
            msg.append(self.live.describe(tables).as_str());
            let d = Diagnostic::error(ErrorKey::ScopeMismatch, msg.as_str(), token.loc);
            let mut r: Vec<Diagnostic> = Vec::new();
            r.push(d);
            assert(views(r@) =~= seq![mismatch_view(*token, accepted, old(self)@.live, tables)]);
            return r;
        }
        self.live = common;
        no_report()
    }

    /// Replaces what is known by the output of a link.
    pub fn apply(&mut self, output: Scopes)
        ensures
            final(self)@ == (ScopeContextView { live: output, ..old(self)@ }),
    {
        self.live = output;
    }

    /// Takes one link of a chain: fits what is known to `input` and
    /// replaces it by `output`; where `input` does not fit, that is
    /// reported and anything may follow.
    pub fn advance(&mut self, input: Scopes, output: Scopes, token: &Token, tables: &Tables) -> (r:
        Vec<Diagnostic>)
        ensures
            final(self)@ == (ScopeContextView {
                live: advanced(old(self)@.live, input, output, tables),
                ..old(self)@
            }),
            views(r@) == advance_diags(old(self)@.live, input, *token, tables),
    {
        let r = self.narrow(input, token, tables);
        assert(views(r@).len() == r@.len());
        if r.len() == 0 {
            self.apply(output);
        } else {
            self.apply(Scopes::all(tables.game));
        }
        r
    }

    /// Follows the link that `token` names. A token that names no link is
    /// reported, and anything may follow it.
    pub fn follow(&mut self, token: &Token, tables: &Tables) -> (r: Vec<Diagnostic>)
        ensures
            final(self)@ == (ScopeContextView {
                live: followed(old(self)@.live, *token, tables),
                ..old(self)@
            }),
            views(r@) == follow_diags(old(self)@.live, *token, tables),
    {
        let (link, found) = scope_to_scope(token, self.live, tables);
        match link {
            Some((input, output)) => {
                let mut out = found;
                let more = self.advance(input, output, token, tables);
                crate::report::append_reports(&mut out, more);
                out
            },
            None => {
                self.apply(Scopes::all(tables.game));
                let mut msg = String::from_str("unknown token `");
                msg.append(token.as_str());
                msg.append("`");
                let d = Diagnostic::error(ErrorKey::UnknownToken, msg.as_str(), token.loc);
                let mut r: Vec<Diagnostic> = Vec::new();
                r.push(d);
                assert(views(r@) =~= seq![unknown_view(*token)]);
                r
            },
        }
    }
}

proof fn lemma_bindings_prefix(a: Seq<ScopeName>, b: Seq<ScopeName>, n: int)
    requires
        0 <= n <= a.len(),
        n <= b.len(),
        forall|i: int| 0 <= i < n ==> a[i] == b[i],
    ensures
        bindings(a, n) == bindings(b, n),
    decreases n,
{
    if n > 0 {
        lemma_bindings_prefix(a, b, n - 1);
    }
}

fn no_report() -> (r: Vec<Diagnostic>)
    ensures
        views(r@) == Seq::<DiagnosticView>::empty(),
{
    let r: Vec<Diagnostic> = Vec::new();
    assert(views(r@) =~= Seq::<DiagnosticView>::empty());
    r
}

} // verus!
