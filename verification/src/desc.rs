//! Descriptions: the values that name the text shown for something.

use vstd::prelude::*;
use crate::block::BV;
use crate::everything::{Everything, missing_loca};
use crate::report::{Diagnostic, DiagnosticView, views};

verus! {

/// What a description reports: where it is a scalar, that it is no defined
/// localization key. A description that is a block is put together from
/// parts that are validated where they are used.
pub open spec fn desc_diags(value: BV, data: &Everything) -> Seq<DiagnosticView> {
    match value {
        BV::Value(t) => if data.localization@.contains(t.s@) {
            Seq::empty()
        } else {
            seq![missing_loca(t.s@, t)]
        },
        BV::Block(_) => Seq::empty(),
    }
}

/// Checks the localization key that a description names.
pub fn verify_desc_locas(value: &BV, data: &Everything) -> (r: Vec<Diagnostic>)
    ensures
        views(r@) == desc_diags(*value, data),
{
    match value {
        BV::Value(t) => data.verify_loca_exists(t.as_str(), t),
        BV::Block(_) => {
            let r: Vec<Diagnostic> = Vec::new();
            assert(views(r@) =~= Seq::<DiagnosticView>::empty());
            r
        },
    }
}

} // verus!
