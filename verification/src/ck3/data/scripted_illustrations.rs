//! Scripted illustrations.

use vstd::prelude::*;
use vstd::string::*;
use crate::block::{BV, Block};
use crate::block::validator::{
    CheckView, Declaration, Mode, Validator, expected_value, fresh, many, once,
};
use crate::db::{Db, DbEntry, DbKind};
use crate::everything::{Everything, missing_file, missing_item};
use crate::helpers::{load_diags, loaded};
use crate::item::Item;
use crate::report::{Diagnostic, DiagnosticView, views};
use crate::token::Token;

verus! {

#[derive(Clone, Copy, Debug)]
pub struct ScriptedIllustration {}

/// The path of the picture that `name` stands for.
pub open spec fn texture_path(name: Seq<char>) -> Seq<char> {
    "gfx/interface/illustrations/"@ + name
}

/// What a texture reports: the file that it names, where that is not
/// there.
pub open spec fn texture_diags(token: Token, data: &Everything) -> Seq<DiagnosticView> {
    if data.files@.contains(texture_path(token.s@)) {
        Seq::empty()
    } else {
        seq![missing_file(texture_path(token.s@), token)]
    }
}

/// What the value of `reference` in a texture block reports.
pub open spec fn texture_reference_diags(value: BV, data: &Everything) -> Seq<DiagnosticView> {
    match value {
        BV::Value(t) => texture_diags(t, data),
        BV::Block(b) => seq![expected_value(b)],
    }
}

/// What the value of a field `texture` reports: a scalar is a texture; a
/// block holds a texture under `reference` and may hold a `trigger`.
pub open spec fn texture_entry_diags(value: BV, data: &Everything) -> Seq<DiagnosticView> {
    match value {
        BV::Value(t) => texture_diags(t, data),
        BV::Block(b) => fresh(b, data.localization@).after(
            Declaration::Validated {
                name: "reference"@,
                mode: once(),
                found: |v: BV| texture_reference_diags(v, data),
            },
        ).after(
            Declaration::Field { name: "trigger"@, mode: once(), check: CheckView::Block },
        ).finished(),
    }
}

/// What the value of `reference` in an environment block reports.
pub open spec fn environment_reference_diags(value: BV, data: &Everything) -> Seq<DiagnosticView> {
    match value {
        BV::Value(t) => if data.has_item(Item::PortraitEnvironment, t.s@) {
            Seq::empty()
        } else {
            seq![missing_item(Item::PortraitEnvironment, t)]
        },
        BV::Block(b) => seq![expected_value(b)],
    }
}

/// What a block `environment` reports: it may name a portrait environment
/// under `reference` and may hold a `trigger`.
pub open spec fn environment_diags(block: Block, data: &Everything) -> Seq<DiagnosticView> {
    fresh(block, data.localization@).after(
        Declaration::Validated {
            name: "reference"@,
            mode: once(),
            found: |v: BV| environment_reference_diags(v, data),
        },
    ).after(
        Declaration::Field { name: "trigger"@, mode: once(), check: CheckView::Block },
    ).finished()
}

/// What validation reports of a scripted illustration: any number of
/// fields `texture` and of blocks `environment`, and nothing else.
pub open spec fn illustration_diags(block: Block, data: &Everything) -> Seq<DiagnosticView> {
    fresh(block, data.localization@).after(
        Declaration::Validated {
            name: "texture"@,
            mode: many(),
            found: |v: BV| texture_entry_diags(v, data),
        },
    ).after(
        Declaration::ValidatedBlocks {
            name: "environment"@,
            mode: many(),
            inside: |b: Block| environment_diags(b, data),
        },
    ).finished()
}

/// Checks that the picture that `token` names is there.
fn validate_texture(token: &Token, data: &Everything) -> (r: Vec<Diagnostic>)
    ensures
        views(r@) == texture_diags(*token, data),
{
    let mut path = String::from_str("gfx/interface/illustrations/");
    path.append(token.as_str());
    data.verify_file_exists(path.as_str(), token)
}

fn validate_texture_reference(value: &BV, data: &Everything) -> (r: Vec<Diagnostic>)
    ensures
        views(r@) == texture_reference_diags(*value, data),
{
    match value.expect_value() {
        (Some(t), _) => validate_texture(t, data),
        (None, found) => found,
    }
}

fn validate_texture_entry(value: &BV, data: &Everything) -> (r: Vec<Diagnostic>)
    ensures
        views(r@) == texture_entry_diags(*value, data),
{
    match value {
        BV::Value(token) => validate_texture(token, data),
        BV::Block(block) => {
            let mut vd = Validator::new(block, data);
            let handler = |v: &BV| -> (r: Vec<Diagnostic>)
                ensures
                    views(r@) == texture_reference_diags(*v, data),
                { validate_texture_reference(v, data) };
            vd.field_validated_as("reference", true, handler, Ghost(|v: BV| texture_reference_diags(v, data)));
            vd.field_block("trigger");
            vd.warn_remaining()
        },
    }
}

fn validate_environment_reference(value: &BV, data: &Everything) -> (r: Vec<Diagnostic>)
    ensures
        views(r@) == environment_reference_diags(*value, data),
{
    match value.expect_value() {
        (Some(t), _) => data.verify_exists(Item::PortraitEnvironment, t),
        (None, found) => found,
    }
}

fn validate_environment(block: &Block, data: &Everything) -> (r: Vec<Diagnostic>)
    ensures
        views(r@) == environment_diags(*block, data),
{
    let mut vd = Validator::new(block, data);
    let handler = |v: &BV| -> (r: Vec<Diagnostic>)
        ensures
            views(r@) == environment_reference_diags(*v, data),
        { validate_environment_reference(v, data) };
    vd.field_validated_as("reference", true, handler, Ghost(|v: BV| environment_reference_diags(v, data)));
    vd.field_block("trigger");
    vd.warn_remaining()
}

impl ScriptedIllustration {
    /// Takes in the scripted illustration `key`.
    pub fn add(db: &mut Db, key: Token, block: Block) -> (r: Vec<Diagnostic>)
        requires
            old(db).wf(),
        ensures
            final(db).wf(),
            final(db).catalog(Item::ScriptedIllustration) == loaded(
                old(db).catalog(Item::ScriptedIllustration),
                DbEntry { key, block },
            ),
            forall|other: Item|
                other != Item::ScriptedIllustration ==> final(db).catalog(other) == old(
                    db,
                ).catalog(other),
            views(r@) == load_diags(
                old(db).catalog(Item::ScriptedIllustration),
                key,
                Item::ScriptedIllustration.spec_name(),
            ),
    {
        db.add(Item::ScriptedIllustration, key, block)
    }
}

impl DbKind for ScriptedIllustration {
    open spec fn found(&self, key: Token, block: Block, data: &Everything) -> Seq<DiagnosticView> {
        illustration_diags(block, data)
    }

    fn validate(&self, _key: &Token, block: &Block, data: &Everything) -> (r: Vec<Diagnostic>) {
        let mut vd = Validator::new(block, data);
        let handler = |v: &BV| -> (r: Vec<Diagnostic>)
            ensures
                views(r@) == texture_entry_diags(*v, data),
            { validate_texture_entry(v, data) };
        vd.field_validated_as("texture", false, handler, Ghost(|v: BV| texture_entry_diags(v, data)));
        let handler = |b: &Block| -> (r: Vec<Diagnostic>)
            ensures
                views(r@) == environment_diags(*b, data),
            { validate_environment(b, data) };
        vd.field_validated_blocks_as("environment", false, handler, Ghost(|b: Block| environment_diags(b, data)));
        vd.warn_remaining()
    }
}

} // verus!
