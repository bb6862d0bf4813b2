//! Loading definitions into catalogs: which of two definitions of one
//! name stays, and when the second is reported.

use vstd::prelude::*;
use vstd::string::*;
use crate::catalog::Catalog;
use crate::report::{Diagnostic, DiagnosticView, ErrorKey, Severity, views};
use crate::token::Token;

verus! {

/// Something that is defined under a key.
pub trait Keyed {
    spec fn spec_key(&self) -> Token;

    /// The key of the definition, with the place of the definition.
    fn key(&self) -> (r: &Token)
        ensures
            *r == self.spec_key(),
    ;
}

impl Keyed for Token {
    open spec fn spec_key(&self) -> Token {
        *self
    }

    fn key(&self) -> (r: &Token) {
        self
    }
}

pub open spec fn msg_dup(id: Seq<char>) -> Seq<char> {
    id + " redefines an existing "@ + id
}

/// The report that the definition at `key` repeats the one at `other`.
pub open spec fn dup_view(key: Token, other: Token, id: Seq<char>) -> DiagnosticView {
    DiagnosticView {
        severity: Severity::Error,
        key: ErrorKey::Duplicate,
        msg: msg_dup(id),
        loc: key.loc,
        info: None,
        related: Some(other.loc),
    }
}

/// The report that the definition at `key` repeats the one at `other`,
/// both being things of the kind `id`.
pub fn dup_error(key: &Token, other: &Token, id: &str) -> (d: Diagnostic)
    ensures
        d@ == dup_view(*key, *other, id@),
{
    let mut msg = String::from_str(id);
    msg.append(" redefines an existing ");
    msg.append(id);
    Diagnostic::error(ErrorKey::Duplicate, msg.as_str(), key.loc).with_related(other.loc)
}

/// What loading a definition with the key `key` reports: a duplicate,
/// where the catalog has a definition of that name from a file of the same
/// provenance rank.
pub open spec fn load_diags<T: Keyed>(catalog: Map<Seq<char>, T>, key: Token, id: Seq<char>) -> Seq<
    DiagnosticView,
> {
    if catalog.contains_key(key.s@) && catalog[key.s@].spec_key().loc.kind.rank()
        == key.loc.kind.rank() {
        seq![dup_view(key, catalog[key.s@].spec_key(), id)]
    } else {
        Seq::empty()
    }
}

/// The catalog after `item` was loaded: `item` is under its name, unless a
/// definition from a file of higher provenance rank is there already.
pub open spec fn loaded<T: Keyed>(catalog: Map<Seq<char>, T>, item: T) -> Map<Seq<char>, T> {
    let key = item.spec_key();
    if catalog.contains_key(key.s@) && catalog[key.s@].spec_key().loc.kind.rank()
        > key.loc.kind.rank() {
        catalog
    } else {
        catalog.insert(key.s@, item)
    }
}

/// A definition is a duplicate only within its own provenance rank: one
/// from a file of lower rank is never reported against one of higher rank,
/// nor one of higher rank against one of lower rank; and of two definitions
/// of different rank the one of higher rank stays, whichever came first.
pub proof fn lemma_load_precedence<T: Keyed>(catalog: Map<Seq<char>, T>, item: T, id: Seq<char>)
    requires
        catalog.contains_key(item.spec_key().s@),
    ensures
        ({
            let key = item.spec_key();
            let other = catalog[key.s@].spec_key();
            &&& other.loc.kind.rank() != key.loc.kind.rank() ==> load_diags(catalog, key, id).len()
                == 0
            &&& other.loc.kind.rank() == key.loc.kind.rank() ==> load_diags(catalog, key, id)
                == seq![dup_view(key, other, id)]
            &&& other.loc.kind.rank() > key.loc.kind.rank() ==> loaded(catalog, item)[key.s@]
                == catalog[key.s@]
            &&& other.loc.kind.rank() <= key.loc.kind.rank() ==> loaded(catalog, item)[key.s@]
                == item
        }),
{
}

/// Loads `item`, a thing of the kind `id`, into `catalog`.
pub fn load<T: Keyed>(catalog: &mut Catalog<T>, item: T, id: &str) -> (r: Vec<Diagnostic>)
    requires
        old(catalog).wf(),
    ensures
        final(catalog).wf(),
        final(catalog)@ == loaded(old(catalog)@, item),
        views(r@) == load_diags(old(catalog)@, item.spec_key(), id@),
{
    let mut reports: Vec<Diagnostic> = Vec::new();
    let name = item.key().s.clone();
    let rank = item.key().loc.kind.rank_number();
    let mut keep = false;
    match catalog.get(name.as_str()) {
        Some(other) => {
            let other_rank = other.key().loc.kind.rank_number();
            if other_rank == rank {
                reports.push(dup_error(item.key(), other.key(), id));
            }
            keep = other_rank > rank;
        },
        None => {},
    }
    assert(views(reports@) =~= load_diags(old(catalog)@, item.spec_key(), id@));
    if !keep {
        catalog.insert(name.as_str(), item);
    }
    reports
}

} // verus!
