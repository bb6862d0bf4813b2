//! Loyalty modifiers.

use vstd::prelude::*;
use crate::block::Block;
use crate::block::validator::{CheckView, Declaration, Validator, fresh, once};
use crate::db::{Db, DbEntry, DbKind};
use crate::everything::Everything;
use crate::helpers::{load_diags, loaded};
use crate::item::Item;
use crate::report::{Diagnostic, DiagnosticView, views};
use crate::token::Token;

verus! {

#[derive(Clone, Copy, Debug)]
pub struct Loyalty {}

/// An optional field `name` that holds a number.
pub open spec fn number_field(name: Seq<char>) -> Declaration {
    Declaration::Field { name, mode: once(), check: CheckView::Number }
}

/// What validation reports of a loyalty modifier: `value` must be there;
/// `value`, `min`, `max`, `yearly_decay` and `months` hold numbers; nothing
/// else may be there.
pub open spec fn loyalty_diags(block: Block, localization: Set<Seq<char>>) -> Seq<DiagnosticView> {
    fresh(block, localization).after(Declaration::Required { name: "value"@ }).after(
        number_field("value"@),
    ).after(number_field("min"@)).after(number_field("max"@)).after(
        number_field("yearly_decay"@),
    ).after(number_field("months"@)).finished()
}

impl Loyalty {
    /// Takes in the loyalty modifier `key`.
    pub fn add(db: &mut Db, key: Token, block: Block) -> (r: Vec<Diagnostic>)
        requires
            old(db).wf(),
        ensures
            final(db).wf(),
            final(db).catalog(Item::Loyalty) == loaded(
                old(db).catalog(Item::Loyalty),
                DbEntry { key, block },
            ),
            forall|other: Item|
                other != Item::Loyalty ==> final(db).catalog(other) == old(db).catalog(other),
            views(r@) == load_diags(old(db).catalog(Item::Loyalty), key, Item::Loyalty.spec_name()),
    {
        db.add(Item::Loyalty, key, block)
    }
}

impl DbKind for Loyalty {
    open spec fn found(&self, key: Token, block: Block, data: &Everything) -> Seq<DiagnosticView> {
        loyalty_diags(block, data.localization@)
    }

    fn validate(&self, _key: &Token, block: &Block, data: &Everything) -> (r: Vec<Diagnostic>) {
        let mut vd = Validator::new(block, data);

        vd.req_field("value");

        vd.field_numeric("value");
        vd.field_numeric("min");
        vd.field_numeric("max");
        vd.field_numeric("yearly_decay");
        vd.field_numeric("months");
        vd.warn_remaining()
    }
}

} // verus!
