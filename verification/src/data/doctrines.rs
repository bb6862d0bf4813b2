//! Doctrines of faiths, and the groups that they come in.

use vstd::prelude::*;
use vstd::string::*;
use crate::block::{BV, Block, BlockItem, Shape, last_field, pure_definitions, stray_items};
use crate::block::validator::{
    CheckView, Declaration, Mode, Validator, ValidatorView, checked_outs, declaration_diags,
    declared_diags, fresh, once, pairs_view, previous_of_kind, unclaimed,
};
use crate::catalog::{Catalog, NameSet};
use crate::desc::{desc_diags, verify_desc_locas};
use crate::everything::{Everything, define_index, missing_file, missing_item, missing_loca};
use crate::fileset::FileHandler;
use crate::helpers::{Keyed, load, load_diags, loaded};
use crate::item::Item;
use crate::report::{
    Diagnostic, DiagnosticView, ErrorKey, append_reports, views, warning_view,
};
use crate::text::{ends_with, has_suffix};
use crate::token::{FileKind, Token};

verus! {

/// A group of doctrines, of which a faith picks some.
#[derive(Debug)]
pub struct DoctrineGroup {
    pub key: Token,
    /// The entries of the group. Of a doctrine in it the key and the place
    /// are kept here; its block is kept with the doctrine.
    pub block: Block,
}

/// One doctrine.
#[derive(Debug)]
pub struct Doctrine {
    pub key: Token,
    pub block: Block,
    /// The key of the group that the doctrine is in.
    pub group: Token,
}

impl Keyed for DoctrineGroup {
    open spec fn spec_key(&self) -> Token {
        self.key
    }

    fn key(&self) -> (r: &Token) {
        &self.key
    }
}

impl Keyed for Doctrine {
    open spec fn spec_key(&self) -> Token {
        self.key
    }

    fn key(&self) -> (r: &Token) {
        &self.key
    }
}

/// The value of the define `name`.
pub open spec fn defined(data: &Everything, name: Seq<char>) -> Option<Seq<char>> {
    let i = define_index(data.defines@, name, 0);
    if i >= 0 {
        Some(data.defines@[i].value@)
    } else {
        None
    }
}

pub open spec fn msg_no_define(name: Seq<char>) -> Seq<char> {
    "define "@ + name + " not found"@
}

/// What looking up the define `name` reports: that it is not there.
pub open spec fn define_diags(data: &Everything, name: Seq<char>, at: Token) -> Seq<DiagnosticView> {
    if defined(data, name) is Some {
        Seq::empty()
    } else {
        seq![warning_view(ErrorKey::MissingItem, msg_no_define(name), at.loc)]
    }
}

/// The path of the icon `name` in the directory `dir`.
pub open spec fn icon_path(dir: Seq<char>, name: Seq<char>) -> Seq<char> {
    dir + "/"@ + name + ".dds"@
}

/// Whether a group needs an icon of its own: not where it is `special` or
/// `not_creatable`; else where no icon of its name is there.
pub open spec fn group_needs_icon(group: DoctrineGroup, data: &Everything) -> bool {
    let special = match group.block.spec_field_value("group"@) {
        Some(g) => g.s@ == "special"@ || g.s@ == "not_creatable"@,
        None => false,
    };
    if special {
        false
    } else {
        match defined(data, "NGameIcons::FAITH_DOCTRINE_GROUP_ICON_PATH"@) {
            Some(dir) => !data.files@.contains(icon_path(dir, group.key.s@)),
            None => true,
        }
    }
}

/// What finding that out reports: the define of the icons' directory,
/// where it is needed and not there.
pub open spec fn group_icon_diags(group: DoctrineGroup, data: &Everything) -> Seq<DiagnosticView> {
    let special = match group.block.spec_field_value("group"@) {
        Some(g) => g.s@ == "special"@ || g.s@ == "not_creatable"@,
        None => false,
    };
    if special {
        Seq::empty()
    } else {
        define_diags(data, "NGameIcons::FAITH_DOCTRINE_GROUP_ICON_PATH"@, group.key)
    }
}

/// What the name or description of the thing `key` reports: the value of
/// the field, where it is given; else the localization key that is made of
/// `key` and `suffix`.
pub open spec fn text_diags(given: Option<BV>, key: Token, suffix: Seq<char>, data: &Everything) -> Seq<
    DiagnosticView,
> {
    match given {
        Some(value) => desc_diags(value, data),
        None => if data.localization@.contains(key.s@ + suffix) {
            Seq::empty()
        } else {
            seq![missing_loca(key.s@ + suffix, key)]
        },
    }
}

/// An optional field `name` whose values are held to `check`.
pub open spec fn optional(name: Seq<char>, check: CheckView) -> Declaration {
    Declaration::Field { name, mode: once(), check }
}

/// One report for each of the first `n` of `pairs` whose value is no block.
pub open spec fn blocks_expected(pairs: Seq<(Token, BV)>, n: int) -> Seq<DiagnosticView>
    decreases n,
{
    if n <= 0 {
        Seq::empty()
    } else {
        blocks_expected(pairs, n - 1) + pairs[n - 1].1.block_expected()
    }
}

/// The state of the validator of a group before the keys that are left
/// are looked at.
pub open spec fn group_state(group: DoctrineGroup, data: &Everything) -> ValidatorView {
    fresh(group.block, data.localization@).after(optional("name"@, CheckView::Any)).reporting(
        text_diags(group.block.spec_field("name"@), group.key, "_name"@, data),
    ).after(optional("group"@, CheckView::Value)).after(
        optional("number_of_picks"@, CheckView::Integer),
    ).after(optional("is_available_on_create"@, CheckView::Block))
}

#[verifier::opaque]
/// What validation reports of a group: of its name, of the fields `group`,
/// `number_of_picks` and `is_available_on_create`, and of every other
/// entry with a key that it holds no block.
pub open spec fn group_diags(group: DoctrineGroup, data: &Everything) -> Seq<DiagnosticView> {
    let state = group_state(group, data);
    let left = unclaimed(state.entries(), state.claimed, state.entries().len() as int);
    state.reported + blocks_expected(left, left.len() as int)
}

/// What a numeric parameter reports.
pub open spec fn parameter_step(state: ValidatorView, item: BlockItem) -> ValidatorView {
    match (item.key, item.value) {
        (Some(k), BV::Value(v)) => if v.s@ == "yes"@ || v.s@ == "no"@ {
            state
        } else {
            state.after(optional(k.s@, CheckView::Number))
        },
        (Some(_), BV::Block(b)) => state.reporting(item.value.value_expected()),
        (None, _) => state,
    }
}

/// The state of the validator of a block of parameters after its first
/// `n` entries.
pub open spec fn parameters_state(block: Block, data: &Everything, n: int) -> ValidatorView
    decreases n,
{
    if n <= 0 {
        fresh(block, data.localization@)
    } else {
        parameter_step(parameters_state(block, data, n - 1), block.v@[n - 1])
    }
}

/// What a block of parameters reports: each parameter is `yes`, `no` or a
/// number.
pub open spec fn parameters_diags(block: Block, data: &Everything) -> Seq<DiagnosticView> {
    parameters_state(block, data, block.v@.len() as int).reported
}

/// What the name of a modifier reports.
pub open spec fn modifier_name_diags(block: Block, data: &Everything) -> Seq<DiagnosticView> {
    match block.spec_field_value("name"@) {
        Some(t) => if data.localization@.contains(t.s@) {
            Seq::empty()
        } else {
            seq![missing_loca(t.s@, t)]
        },
        None => Seq::empty(),
    }
}

/// What a block `character_modifier` reports: of its name. Its other
/// fields are modifiers, which are validated as such.
pub open spec fn character_modifier_diags(block: Block, data: &Everything) -> Seq<DiagnosticView> {
    fresh(block, data.localization@).after(optional("name"@, CheckView::Value)).reported
        + modifier_name_diags(block, data)
}

/// What a block `doctrine_character_modifier` reports: of the doctrine
/// that it names.
pub open spec fn doctrine_modifier_diags(block: Block, data: &Everything) -> Seq<DiagnosticView> {
    fresh(block, data.localization@).after(optional("doctrine"@, CheckView::Value)).reported
        + match block.spec_field_value("doctrine"@) {
        Some(t) => if data.has_item(Item::Doctrine, t.s@) {
            Seq::empty()
        } else {
            seq![missing_item(Item::Doctrine, t)]
        },
        None => Seq::empty(),
    }
}

/// What the icon of a doctrine reports, and the state of the validator
/// after it: where the directory of the icons is defined, the field `icon`
/// is declared, and the icon that it names must be there, or, where it
/// names none and the group has no icon of its own, the icon named after
/// the doctrine.
pub open spec fn icon_state(doctrine: Doctrine, needs_icon: bool, data: &Everything) -> ValidatorView {
    let start = fresh(doctrine.block, data.localization@).reporting(
        define_diags(data, "NGameIcons::FAITH_DOCTRINE_ICON_PATH"@, doctrine.key),
    );
    match defined(data, "NGameIcons::FAITH_DOCTRINE_ICON_PATH"@) {
        Some(dir) => {
            let declared = start.after(optional("icon"@, CheckView::Value));
            match doctrine.block.spec_field_value("icon"@) {
                Some(icon) => declared.reporting(
                    if data.files@.contains(icon_path(dir, icon.s@)) {
                        Seq::empty()
                    } else {
                        seq![missing_file(icon_path(dir, icon.s@), icon)]
                    },
                ),
                None => if needs_icon {
                    declared.reporting(
                        if data.files@.contains(icon_path(dir, doctrine.key.s@)) {
                            Seq::empty()
                        } else {
                            seq![missing_file(icon_path(dir, doctrine.key.s@), doctrine.key)]
                        },
                    )
                } else {
                    declared
                },
            }
        },
        None => start,
    }
}

/// What the blocks of modifiers of a doctrine report.
pub open spec fn modifiers_state(state: ValidatorView, doctrine: Doctrine, data: &Everything) -> ValidatorView {
    let first = state.after(optional("character_modifier"@, CheckView::Block)).reporting(
        match doctrine.block.spec_field_block("character_modifier"@) {
            Some(b) => character_modifier_diags(b, data),
            None => Seq::empty(),
        },
    );
    let second = first.after(optional("clergy_modifier"@, CheckView::Block));
    second.after(optional("doctrine_character_modifier"@, CheckView::Block)).reporting(
        match doctrine.block.spec_field_block("doctrine_character_modifier"@) {
            Some(b) => doctrine_modifier_diags(b, data),
            None => Seq::empty(),
        },
    )
}

/// What the texts and the plain fields of a doctrine report.
pub open spec fn basics_state(state: ValidatorView, doctrine: Doctrine, data: &Everything) -> ValidatorView {
    let block = doctrine.block;
    state.after(optional("name"@, CheckView::Any)).reporting(
        text_diags(block.spec_field("name"@), doctrine.key, "_name"@, data),
    ).after(optional("desc"@, CheckView::Any)).reporting(
        text_diags(block.spec_field("desc"@), doctrine.key, "_desc"@, data),
    ).after(optional("visible"@, CheckView::Bool)).after(
        Declaration::ValidatedBlocks {
            name: "parameters"@,
            mode: once(),
            inside: |b: Block| parameters_diags(b, data),
        },
    ).after(optional("piety_cost"@, CheckView::Any)).after(
        optional("is_shown"@, CheckView::Block),
    ).after(optional("can_pick"@, CheckView::Block))
}

#[verifier::opaque]
/// What validation reports of a doctrine, where `needs_icon` says whether
/// its group has no icon of its own: of its icon, of its name and
/// description, of its plain fields, of its blocks of modifiers, and of
/// `traits`. Keys that are not declared are not reported.
pub open spec fn doctrine_diags(doctrine: Doctrine, needs_icon: bool, data: &Everything) -> Seq<
    DiagnosticView,
> {
    modifiers_state(
        basics_state(icon_state(doctrine, needs_icon, data), doctrine, data),
        doctrine,
        data,
    ).after(optional("traits"@, CheckView::Block)).reported
}

fn none_found() -> (r: Vec<Diagnostic>)
    ensures
        views(r@) == Seq::<DiagnosticView>::empty(),
{
    let r: Vec<Diagnostic> = Vec::new();
    assert(views(r@) =~= Seq::<DiagnosticView>::empty());
    r
}

/// The value of the define `name`, and the report that it is not there.
fn get_defined_string_warn<'a>(data: &'a Everything, at: &Token, name: &str) -> (r: (
    Option<&'a str>,
    Vec<Diagnostic>,
))
    ensures
        match r.0 {
            Some(value) => defined(data, name@) == Some(value@),
            None => defined(data, name@) is None,
        },
        views(r.1@) == define_diags(data, name@, *at),
{
    match data.get_defined_string(name) {
        Some(value) => (Some(value), none_found()),
        None => {
            let mut msg = String::from_str("define ");
            msg.append(name);
            msg.append(" not found");
            let mut r: Vec<Diagnostic> = Vec::new();
            r.push(Diagnostic::warning(ErrorKey::MissingItem, msg.as_str(), at.loc));
            assert(views(r@) =~= define_diags(data, name@, *at));
            (None, r)
        },
    }
}

fn icon_file(dir: &str, name: &str) -> (r: String)
    ensures
        r@ == icon_path(dir@, name@),
{
    let mut path = String::from_str(dir);
    path.append("/");
    path.append(name);
    path.append(".dds");
    path
}

fn validate_text(given: Option<&BV>, key: &Token, suffix: &str, data: &Everything) -> (r: Vec<
    Diagnostic,
>)
    ensures
        views(r@) == text_diags(
            match given {
                Some(v) => Some(*v),
                None => None,
            },
            *key,
            suffix@,
            data,
        ),
{
    match given {
        Some(value) => verify_desc_locas(value, data),
        None => {
            let mut loca = String::from_str(key.as_str());
            loca.append(suffix);
            data.verify_loca_exists(loca.as_str(), key)
        },
    }
}

fn validate_parameters(block: &Block, data: &Everything) -> (r: Vec<Diagnostic>)
    ensures
        views(r@) == parameters_diags(*block, data),
{
    let mut vd = Validator::new(block, data);
    let mut i: usize = 0;
    while i < block.v.len()
        invariant
            i <= block.v.len(),
            vd@ == parameters_state(*block, data, i as int),
        decreases block.v.len() - i,
    {
        let item = &block.v[i];
        match &item.key {
            Some(param) => {
                let (value, found) = item.value.expect_value();
                match value {
                    Some(v) => {
                        if !(v.is("yes") || v.is("no")) {
                            vd.field_numeric(param.as_str());
                        }
                    },
                    None => {
                        vd.report(found);
                    },
                }
            },
            None => {},
        }
        i = i + 1;
    }
    // Every key was looked at above.
    vd.skip_remaining()
}

fn validate_character_modifier(block: &Block, data: &Everything) -> (r: Vec<Diagnostic>)
    ensures
        views(r@) == character_modifier_diags(*block, data),
{
    let mut vd = Validator::new(block, data);
    let name = vd.field_value("name");
    let mut out = vd.skip_remaining();
    match name {
        Some(t) => {
            append_reports(&mut out, data.verify_loca_exists(t.as_str(), t));
        },
        None => {
            assert(views(out@) =~= character_modifier_diags(*block, data));
        },
    }
    out
}

fn validate_doctrine_modifier(block: &Block, data: &Everything) -> (r: Vec<Diagnostic>)
    ensures
        views(r@) == doctrine_modifier_diags(*block, data),
{
    let mut vd = Validator::new(block, data);
    let doctrine = vd.field_value("doctrine");
    let mut out = vd.skip_remaining();
    match doctrine {
        Some(t) => {
            append_reports(&mut out, data.verify_exists(Item::Doctrine, t));
        },
        None => {
            assert(views(out@) =~= doctrine_modifier_diags(*block, data));
        },
    }
    out
}

impl DoctrineGroup {
    pub fn new(key: Token, block: Block) -> (group: DoctrineGroup)
        ensures
            group == (DoctrineGroup { key, block }),
    {
        Self { key, block }
    }

    /// Whether the doctrines of the group need icons of their own, and
    /// what there is to report of finding that out.
    pub fn needs_icon(&self, data: &Everything) -> (r: (bool, Vec<Diagnostic>))
        ensures
            r.0 == group_needs_icon(*self, data),
            views(r.1@) == group_icon_diags(*self, data),
    {
        match self.block.get_field_value("group") {
            Some(group) => {
                if group.is("special") || group.is("not_creatable") {
                    return (false, none_found());
                }
            },
            None => {},
        }
        let (dir, found) = get_defined_string_warn(
            data,
            &self.key,
            "NGameIcons::FAITH_DOCTRINE_GROUP_ICON_PATH",
        );
        match dir {
            Some(dir) => {
                let path = icon_file(dir, self.key.as_str());
                (!data.files.contains(path.as_str()), found)
            },
            None => (true, found),
        }
    }

    /// Validates what the group says of itself.
    pub fn validate(&self, data: &Everything) -> (r: Vec<Diagnostic>)
        ensures
            views(r@) == group_diags(*self, data),
    {
        proof {
            reveal(group_diags);
        }
        let mut vd = Validator::new(&self.block, data);

        let name = vd.field("name");
        vd.report(validate_text(name, &self.key, "_name", data));

        // doc says "grouping" but that's wrong
        vd.field_value("group");

        vd.field_integer("number_of_picks");

        vd.field_block("is_available_on_create");

        // Any remaining definitions are doctrines, so accept them all.
        // They are validated separately.
        let left = vd.unknown_keys();
        let mut out = vd.skip_remaining();
        let ghost reported = views(out@);
        let mut i: usize = 0;
        while i < left.len()
            invariant
                i <= left.len(),
                views(out@) == reported + blocks_expected(pairs_view(left@), i as int),
            decreases left.len() - i,
        {
            let (_, found) = left[i].1.expect_block();
            append_reports(&mut out, found);
            assert(pairs_view(left@)[i as int].1 == *left@[i as int].1);
            assert(views(out@) =~= reported + blocks_expected(pairs_view(left@), i + 1));
            i = i + 1;
        }
        out
    }
}

impl Doctrine {
    pub fn new(key: Token, block: Block, group: Token) -> (doctrine: Doctrine)
        ensures
            doctrine == (Doctrine { key, block, group }),
    {
        Self { key, block, group }
    }

    fn validate_icon(&self, vd: &mut Validator, data: &Everything, needs_icon: bool)
        requires
            old(vd)@ == fresh(self.block, data.localization@),
        ensures
            final(vd)@ == icon_state(*self, needs_icon, data),
    {
        let (dir, found) = get_defined_string_warn(
            data,
            &self.key,
            "NGameIcons::FAITH_DOCTRINE_ICON_PATH",
        );
        vd.report(found);
        match dir {
            Some(dir) => {
                vd.field_value("icon");
                match self.block.get_field_value("icon") {
                    Some(icon) => {
                        let path = icon_file(dir, icon.as_str());
                        vd.report(data.verify_file_exists(path.as_str(), icon));
                    },
                    None => {
                        if needs_icon {
                            let path = icon_file(dir, self.key.as_str());
                            vd.report(data.verify_file_exists(path.as_str(), &self.key));
                        }
                    },
                }
            },
            None => {},
        }
    }

    fn validate_basics(&self, vd: &mut Validator, data: &Everything)
        requires
            old(vd)@.block == self.block,
            old(vd)@.localization == data.localization@,
        ensures
            final(vd)@ == basics_state(old(vd)@, *self, data),
    {
        vd.field("name");
        vd.report(validate_text(self.block.get_field("name"), &self.key, "_name", data));

        vd.field("desc");
        vd.report(validate_text(self.block.get_field("desc"), &self.key, "_desc", data));

        vd.field_bool("visible");
        let parameters = |b: &Block| -> (r: Vec<Diagnostic>)
            ensures
                views(r@) == parameters_diags(*b, data),
            { validate_parameters(b, data) };
        vd.field_validated_blocks_as(
            "parameters",
            true,
            parameters,
            Ghost(|b: Block| parameters_diags(b, data)),
        );
        vd.field("piety_cost");
        vd.field_block("is_shown");
        vd.field_block("can_pick");
    }

    fn validate_modifiers(&self, vd: &mut Validator, data: &Everything)
        requires
            old(vd)@.block == self.block,
            old(vd)@.localization == data.localization@,
        ensures
            final(vd)@ == modifiers_state(old(vd)@, *self, data),
    {
        vd.field_block("character_modifier");
        match self.block.get_field_block("character_modifier") {
            Some(block) => {
                vd.report(validate_character_modifier(block, data));
            },
            None => {
                vd.report(none_found());
            },
        }

        // Not documented, but used in vanilla
        vd.field_block("clergy_modifier");

        // In the docs but not used in vanilla
        vd.field_block("doctrine_character_modifier");
        match self.block.get_field_block("doctrine_character_modifier") {
            Some(block) => {
                vd.report(validate_doctrine_modifier(block, data));
            },
            None => {
                vd.report(none_found());
            },
        }
    }

    /// Validates the doctrine. `needs_icon` says whether its group has no
    /// icon of its own.
    pub fn validate(&self, data: &Everything, needs_icon: bool) -> (r: Vec<Diagnostic>)
        ensures
            views(r@) == doctrine_diags(*self, needs_icon, data),
    {
        proof {
            reveal(doctrine_diags);
        }
        let mut vd = Validator::new(&self.block, data);
        self.validate_icon(&mut vd, data, needs_icon);
        self.validate_basics(&mut vd, data);
        self.validate_modifiers(&mut vd, data);
        vd.field_block("traits");
        vd.skip_remaining()
    }
}


/// Whether an entry of a group defines a doctrine: it is a block under a
/// key other than `is_available_on_create` and `name`.
pub open spec fn is_doctrine(item: BlockItem) -> bool {
    item.key matches Some(k) && item.value is Block && k.s@ != "is_available_on_create"@ && k.s@
        != "name"@
}

/// Whether `kept` is what the group keeps of its entry `item`: the entry
/// itself; or, of an entry that defines a doctrine, its key, its
/// comparator and the place of its block, the block itself being handed
/// to the doctrine.
pub open spec fn is_kept_of(kept: BlockItem, item: BlockItem) -> bool {
    if is_doctrine(item) {
        &&& kept.key == item.key
        &&& kept.comparator == item.comparator
        &&& kept.value is Block
        &&& kept.value->Block_0.loc == item.value->Block_0.loc
        &&& kept.value->Block_0.v@.len() == 0
    } else {
        kept == item
    }
}

/// The doctrines that the first `n` entries define, each as its key and
/// its block.
pub open spec fn doctrine_defs(entries: Seq<BlockItem>, n: int) -> Seq<(Token, Block)>
    decreases n,
{
    if n <= 0 {
        Seq::empty()
    } else if is_doctrine(entries[n - 1]) {
        doctrine_defs(entries, n - 1).push((entries[n - 1].key->0, entries[n - 1].value->Block_0))
    } else {
        doctrine_defs(entries, n - 1)
    }
}

/// Whether the entry sets a parameter called `name` to `yes` or `no`.
pub open spec fn sets_flag(item: BlockItem, name: Seq<char>) -> bool {
    item.has_key(name) && item.value is Value && (item.value->Value_0.s@ == "yes"@
        || item.value->Value_0.s@ == "no"@)
}

/// The parameters that the first `n` entries set to `yes` or `no`.
pub open spec fn flags_among(entries: Seq<BlockItem>, n: int) -> Set<Seq<char>> {
    Set::new(
        |name: Seq<char>|
            exists|i: int| 0 <= i < n && i < entries.len() && sets_flag(#[trigger] entries[i], name),
    )
}

/// The parameters that a doctrine sets to `yes` or `no`.
pub open spec fn boolean_parameters(block: Block) -> Set<Seq<char>> {
    match block.spec_field_block("parameters"@) {
        Some(p) => flags_among(p.v@, p.v@.len() as int),
        None => Set::empty(),
    }
}

/// The doctrines as a mathematical value.
pub struct DoctrinesView {
    pub groups: Map<Seq<char>, DoctrineGroup>,
    pub doctrines: Map<Seq<char>, Doctrine>,
    /// The parameters that some doctrine sets to `yes` or `no`.
    pub parameters: Set<Seq<char>>,
}

/// The doctrines after the first `n` of `defs`, all of the group `group`,
/// were loaded.
pub open spec fn doctrines_loaded(
    start: DoctrinesView,
    group: Token,
    defs: Seq<(Token, Block)>,
    n: int,
) -> DoctrinesView
    decreases n,
{
    if n <= 0 {
        start
    } else {
        let before = doctrines_loaded(start, group, defs, n - 1);
        DoctrinesView {
            groups: before.groups,
            doctrines: loaded(
                before.doctrines,
                Doctrine { key: defs[n - 1].0, block: defs[n - 1].1, group },
            ),
            parameters: before.parameters.union(boolean_parameters(defs[n - 1].1)),
        }
    }
}

/// What loading the first `n` of `defs` reports.
pub open spec fn doctrines_load_diags(
    start: DoctrinesView,
    group: Token,
    defs: Seq<(Token, Block)>,
    n: int,
) -> Seq<DiagnosticView>
    decreases n,
{
    if n <= 0 {
        Seq::empty()
    } else {
        doctrines_load_diags(start, group, defs, n - 1) + load_diags(
            doctrines_loaded(start, group, defs, n - 1).doctrines,
            defs[n - 1].0,
            "doctrine"@,
        )
    }
}

/// What validation reports of the first `n` of `groups`.
pub open spec fn groups_diags(groups: Seq<DoctrineGroup>, data: &Everything, n: int) -> Seq<
    DiagnosticView,
>
    decreases n,
{
    if n <= 0 {
        Seq::empty()
    } else {
        groups_diags(groups, data, n - 1) + group_diags(groups[n - 1], data)
    }
}

/// What validation reports of one doctrine, its group being looked up in
/// `groups`. A doctrine whose group is not there is held to need an icon.
pub open spec fn doctrine_in_groups_diags(
    doctrine: Doctrine,
    groups: Map<Seq<char>, DoctrineGroup>,
    data: &Everything,
) -> Seq<DiagnosticView> {
    if groups.contains_key(doctrine.group.s@) {
        let group = groups[doctrine.group.s@];
        group_icon_diags(group, data) + doctrine_diags(
            doctrine,
            group_needs_icon(group, data),
            data,
        )
    } else {
        doctrine_diags(doctrine, true, data)
    }
}

/// What validation reports of the first `n` of `doctrines`.
pub open spec fn all_doctrines_diags(
    doctrines: Seq<Doctrine>,
    groups: Map<Seq<char>, DoctrineGroup>,
    data: &Everything,
    n: int,
) -> Seq<DiagnosticView>
    decreases n,
{
    if n <= 0 {
        Seq::empty()
    } else {
        all_doctrines_diags(doctrines, groups, data, n - 1) + doctrine_in_groups_diags(
            doctrines[n - 1],
            groups,
            data,
        )
    }
}

/// Whether `group` is the group `key` as `block` defines it: it keeps
/// every entry of `block`, in order, but for the blocks of the doctrines.
pub open spec fn is_group_of(group: DoctrineGroup, key: Token, block: Block) -> bool {
    &&& group.key == key
    &&& group.block.loc == block.loc
    &&& group.block.v@.len() == block.v@.len()
    &&& forall|i: int|
        0 <= i < block.v@.len() ==> is_kept_of(#[trigger] group.block.v@[i], block.v@[i])
}

/// Whether two entries are alike for the validation of a group: they have
/// the same key and comparator, and either the same scalar or each a block
/// at the same place.
pub open spec fn alike(a: BlockItem, b: BlockItem) -> bool {
    &&& a.key == b.key
    &&& a.comparator == b.comparator
    &&& match (a.value, b.value) {
        (BV::Value(x), BV::Value(y)) => x == y,
        (BV::Block(x), BV::Block(y)) => x.loc == y.loc,
        _ => false,
    }
}

/// Whether `a` and `b` are alike entry by entry.
pub open spec fn all_alike(a: Seq<BlockItem>, b: Seq<BlockItem>) -> bool {
    a.len() == b.len() && forall|i: int| 0 <= i < a.len() ==> alike(#[trigger] a[i], b[i])
}

proof fn lemma_alike_previous(a: Seq<BlockItem>, b: Seq<BlockItem>, name: Seq<char>, kind: FileKind, n: int)
    requires
        all_alike(a, b),
        0 <= n <= a.len(),
    ensures
        previous_of_kind(a, name, kind, n) == previous_of_kind(b, name, kind, n),
    decreases n,
{
    if n > 0 {
        lemma_alike_previous(a, b, name, kind, n - 1);
        assert(alike(a[n - 1], b[n - 1]));
    }
}

proof fn lemma_alike_last_field(a: Seq<BlockItem>, b: Seq<BlockItem>, name: Seq<char>, shape: Shape, n: int)
    requires
        all_alike(a, b),
        0 <= n <= a.len(),
    ensures
        last_field(a, name, shape, n) == last_field(b, name, shape, n),
        -1 <= last_field(a, name, shape, n) < n,
        last_field(a, name, shape, n) >= 0 ==> a[last_field(a, name, shape, n)].has_key(name),
    decreases n,
{
    if n > 0 {
        lemma_alike_last_field(a, b, name, shape, n - 1);
        assert(alike(a[n - 1], b[n - 1]));
    }
}

/// Whether what a value reports under `check` depends on nothing inside
/// a block.
pub open spec fn shallow(check: CheckView) -> bool {
    !(check is List)
}

proof fn lemma_alike_declared(
    a: Seq<BlockItem>,
    b: Seq<BlockItem>,
    name: Seq<char>,
    mode: Mode,
    check: CheckView,
    loca: Set<Seq<char>>,
    n: int,
)
    requires
        all_alike(a, b),
        shallow(check),
        0 <= n <= a.len(),
    ensures
        declared_diags(a, name, mode, checked_outs(a, check, loca), n) == declared_diags(
            b,
            name,
            mode,
            checked_outs(b, check, loca),
            n,
        ),
    decreases n,
{
    if n > 0 {
        lemma_alike_declared(a, b, name, mode, check, loca, n - 1);
        assert(alike(a[n - 1], b[n - 1]));
        if a[n - 1].has_key(name) {
            lemma_alike_previous(a, b, name, a[n - 1].key->0.loc.kind, n - 1);
        }
    }
}

proof fn lemma_alike_field(
    a: Block,
    b: Block,
    loca: Set<Seq<char>>,
    name: Seq<char>,
    check: CheckView,
)
    requires
        all_alike(a.v@, b.v@),
        a.loc == b.loc,
        shallow(check),
    ensures
        declaration_diags(a, loca, optional(name, check)) == declaration_diags(
            b,
            loca,
            optional(name, check),
        ),
{
    lemma_alike_declared(a.v@, b.v@, name, once(), check, loca, a.v@.len() as int);
}

proof fn lemma_blocks_expected_prefix(a: Seq<(Token, BV)>, b: Seq<(Token, BV)>, n: int)
    requires
        0 <= n <= a.len(),
        n <= b.len(),
        forall|i: int| 0 <= i < n ==> a[i] == b[i],
    ensures
        blocks_expected(a, n) == blocks_expected(b, n),
    decreases n,
{
    if n > 0 {
        lemma_blocks_expected_prefix(a, b, n - 1);
    }
}

proof fn lemma_alike_left(a: Seq<BlockItem>, b: Seq<BlockItem>, claimed: Set<Seq<char>>, n: int)
    requires
        all_alike(a, b),
        0 <= n <= a.len(),
    ensures
        unclaimed(a, claimed, n).len() == unclaimed(b, claimed, n).len(),
        blocks_expected(unclaimed(a, claimed, n), unclaimed(a, claimed, n).len() as int)
            == blocks_expected(unclaimed(b, claimed, n), unclaimed(b, claimed, n).len() as int),
    decreases n,
{
    if n > 0 {
        lemma_alike_left(a, b, claimed, n - 1);
        assert(alike(a[n - 1], b[n - 1]));
        let ra = unclaimed(a, claimed, n - 1);
        let rb = unclaimed(b, claimed, n - 1);
        let xa = unclaimed(a, claimed, n);
        let xb = unclaimed(b, claimed, n);
        if xa.len() > ra.len() {
            lemma_blocks_expected_prefix(xa, ra, ra.len() as int);
            lemma_blocks_expected_prefix(xb, rb, rb.len() as int);
        }
    }
}

/// A group loses nothing by handing the blocks of its doctrines to the
/// doctrines: what its validation reports of the entries that it keeps is
/// what it would report of the block that defines it.
pub proof fn lemma_group_keeps_its_reports(
    group: DoctrineGroup,
    key: Token,
    block: Block,
    data: &Everything,
)
    requires
        is_group_of(group, key, block),
    ensures
        group_diags(group, data) == group_diags(DoctrineGroup { key, block }, data),
{
    reveal(group_diags);
    let whole = DoctrineGroup { key, block };
    let a = group.block;
    let b = block;
    let loca = data.localization@;
    assert(all_alike(a.v@, b.v@)) by {
        assert forall|i: int| 0 <= i < a.v@.len() implies alike(#[trigger] a.v@[i], b.v@[i]) by {
            assert(is_kept_of(a.v@[i], b.v@[i]));
        }
    }
    lemma_alike_field(a, b, loca, "name"@, CheckView::Any);
    lemma_alike_field(a, b, loca, "group"@, CheckView::Value);
    lemma_alike_field(a, b, loca, "number_of_picks"@, CheckView::Integer);
    lemma_alike_field(a, b, loca, "is_available_on_create"@, CheckView::Block);
    lemma_alike_last_field(a.v@, b.v@, "name"@, Shape::Any, a.v@.len() as int);
    let i = last_field(a.v@, "name"@, Shape::Any, a.v@.len() as int);
    if i >= 0 {
        assert(is_kept_of(a.v@[i], b.v@[i]));
        assert(!is_doctrine(b.v@[i]));
    }
    assert(a.spec_field("name"@) == b.spec_field("name"@));
    let sa = group_state(group, data);
    let sb = group_state(whole, data);
    assert(sa.reported == sb.reported);
    assert(sa.claimed == sb.claimed);
    lemma_alike_left(a.v@, b.v@, sa.claimed, a.v@.len() as int);
}

/// `after` and `diags` are what the doctrines are, and what is reported,
/// when the group `key` with the doctrines that `block` defines is loaded
/// into `before`: the group, which keeps the entries of `block` but for
/// the blocks of the doctrines, and then each doctrine in turn.
pub open spec fn group_loaded(
    before: DoctrinesView,
    key: Token,
    block: Block,
    after: DoctrinesView,
    diags: Seq<DiagnosticView>,
) -> bool {
    let entries = block.v@;
    let n = entries.len() as int;
    let defs = doctrine_defs(entries, n);
    exists|group: DoctrineGroup|
        {
            let start = DoctrinesView { groups: loaded(before.groups, group), ..before };
            &&& #[trigger] is_group_of(group, key, block)
            &&& after == doctrines_loaded(start, key, defs, defs.len() as int)
            &&& diags == load_diags(before.groups, key, "doctrine group"@) + doctrines_load_diags(
                start,
                key,
                defs,
                defs.len() as int,
            )
        }
}

/// The first `n` of `parts`, one after the other.
pub open spec fn concat_all(parts: Seq<Seq<DiagnosticView>>, n: int) -> Seq<DiagnosticView>
    decreases n,
{
    if n <= 0 {
        Seq::empty()
    } else {
        concat_all(parts, n - 1) + parts[n - 1]
    }
}

/// `states` and `parts` are what the doctrines are after each of `items`,
/// and what each reports, when they are loaded into `before` one group
/// after the other.
pub open spec fn groups_loaded(
    before: DoctrinesView,
    items: Seq<(Token, Block)>,
    states: Seq<DoctrinesView>,
    parts: Seq<Seq<DiagnosticView>>,
) -> bool {
    &&& states.len() == items.len() + 1
    &&& parts.len() == items.len()
    &&& states[0] == before
    &&& forall|i: int|
        #![trigger parts[i]]
        0 <= i < items.len() ==> group_loaded(
            states[i],
            items[i].0,
            items[i].1,
            states[i + 1],
            parts[i],
        )
}

proof fn lemma_concat_all_prefix(a: Seq<Seq<DiagnosticView>>, b: Seq<Seq<DiagnosticView>>, n: int)
    requires
        0 <= n <= a.len(),
        n <= b.len(),
        forall|i: int| 0 <= i < n ==> a[i] == b[i],
    ensures
        concat_all(a, n) == concat_all(b, n),
    decreases n,
{
    if n > 0 {
        lemma_concat_all_prefix(a, b, n - 1);
    }
}

/// The doctrines and their groups, by name.
pub struct Doctrines {
    groups: Catalog<DoctrineGroup>,
    doctrines: Catalog<Doctrine>,
    parameters: NameSet,  // only the boolean parameters
}

impl View for Doctrines {
    type V = DoctrinesView;

    closed spec fn view(&self) -> DoctrinesView {
        DoctrinesView {
            groups: self.groups@,
            doctrines: self.doctrines@,
            parameters: self.parameters@,
        }
    }
}

impl Doctrines {
    /// The catalogs are in order.
    pub closed spec fn wf(&self) -> bool {
        self.groups.wf() && self.doctrines.wf()
    }

    /// The groups, in the order in which their names came.
    pub closed spec fn group_things(&self) -> Seq<DoctrineGroup> {
        self.groups.things()
    }

    /// The doctrines, in the order in which their names came.
    pub closed spec fn doctrine_things(&self) -> Seq<Doctrine> {
        self.doctrines.things()
    }

    /// No doctrines.
    pub fn new() -> (d: Doctrines)
        ensures
            d.wf(),
            d@ == (DoctrinesView {
                groups: Map::empty(),
                doctrines: Map::empty(),
                parameters: Set::empty(),
            }),
    {
        Doctrines { groups: Catalog::new(), doctrines: Catalog::new(), parameters: NameSet::new() }
    }

    /// Notes the parameters that `block` sets to `yes` or `no`.
    fn note_parameters(&mut self, block: &Block)
        ensures
            final(self).groups == old(self).groups,
            final(self).doctrines == old(self).doctrines,
            final(self).parameters@ == old(self).parameters@.union(boolean_parameters(*block)),
    {
        match block.get_field_block("parameters") {
            Some(p) => {
                let mut i: usize = 0;
                assert(self.parameters@ =~= old(self).parameters@.union(flags_among(p.v@, 0)));
                while i < p.v.len()
                    invariant
                        i <= p.v.len(),
                        self.groups == old(self).groups,
                        self.doctrines == old(self).doctrines,
                        self.parameters@ == old(self).parameters@.union(
                            flags_among(p.v@, i as int),
                        ),
                    decreases p.v.len() - i,
                {
                    let item = &p.v[i];
                    match (&item.key, &item.value) {
                        (Some(k), BV::Value(v)) => {
                            if v.is("yes") || v.is("no") {
                                self.parameters.insert(k.as_str());
                                assert(sets_flag(p.v@[i as int], k.s@));
                            }
                        },
                        _ => {},
                    }
                    assert(self.parameters@ =~= old(self).parameters@.union(
                        flags_among(p.v@, i + 1),
                    )) by {
                        assert forall|n: Seq<char>|
                            flags_among(p.v@, i + 1).contains(n) == (flags_among(
                                p.v@,
                                i as int,
                            ).contains(n) || sets_flag(p.v@[i as int], n)) by {
                            if flags_among(p.v@, i + 1).contains(n) {
                                let j = choose|j: int|
                                    0 <= j < i + 1 && j < p.v@.len() && sets_flag(
                                        #[trigger] p.v@[j],
                                        n,
                                    );
                                if j < i {
                                    assert(flags_among(p.v@, i as int).contains(n));
                                }
                            }
                            if flags_among(p.v@, i as int).contains(n) {
                                let j = choose|j: int|
                                    0 <= j < i && j < p.v@.len() && sets_flag(
                                        #[trigger] p.v@[j],
                                        n,
                                    );
                                assert(sets_flag(p.v@[j], n));
                            }
                        }
                    }
                    i = i + 1;
                }
            },
            None => {
                assert(self.parameters@ =~= old(self).parameters@.union(
                    boolean_parameters(*block),
                ));
            },
        }
    }

    /// Takes in the group `key` with the doctrines that `block` defines.
    /// The group keeps every entry of `block`, but for the blocks of the
    /// doctrines, which go to the doctrines.
    pub fn load_item(&mut self, key: Token, block: Block) -> (r: Vec<Diagnostic>)
        requires
            old(self).wf(),
        ensures
            final(self).wf(),
            group_loaded(old(self)@, key, block, final(self)@, views(r@)),
    {
        let ghost entries = block.v@;
        let loc = block.loc;
        let mut rest: Vec<BlockItem> = Vec::new();
        let mut defs: Vec<(Token, Block)> = Vec::new();
        for item in it: block.v
            invariant
                it.seq() == entries,
                rest@.len() == it.index(),
                forall|i: int| 0 <= i < it.index() ==> is_kept_of(#[trigger] rest@[i], entries[i]),
                defs@ == doctrine_defs(entries, it.index()),
        {
            let doctrine = match (&item.key, &item.value) {
                (Some(k), BV::Block(_)) => !k.is("is_available_on_create") && !k.is("name"),
                _ => false,
            };
            if doctrine {
                let comparator = item.comparator;
                match (item.key, item.value) {
                    (Some(k), BV::Block(b)) => {
                        rest.push(
                            BlockItem {
                                key: Some(k.clone()),
                                comparator,
                                value: BV::Block(Block::new(b.loc)),
                            },
                        );
                        defs.push((k, b));
                    },
                    _ => {},
                }
            } else {
                rest.push(item);
            }
        }
        let group = DoctrineGroup::new(key.clone(), Block { v: rest, loc });
        let ghost kept = group;
        let mut out = load(&mut self.groups, group, "doctrine group");
        let ghost start = self@;
        let ghost all = defs@;
        assert(views(out@) =~= load_diags(old(self)@.groups, key, "doctrine group"@)
            + doctrines_load_diags(start, key, all, 0));
        for def in it: defs
            invariant
                it.seq() == all,
                self.wf(),
                self@ == doctrines_loaded(start, key, all, it.index()),
                views(out@) == load_diags(old(self)@.groups, key, "doctrine group"@)
                    + doctrines_load_diags(start, key, all, it.index()),
        {
            let ghost before = self@;
            self.note_parameters(&def.1);
            let found = load(
                &mut self.doctrines,
                Doctrine::new(def.0, def.1, key.clone()),
                "doctrine",
            );
            append_reports(&mut out, found);
            assert(views(out@) =~= load_diags(old(self)@.groups, key, "doctrine group"@)
                + doctrines_load_diags(start, key, all, it.index() + 1));
        }
        assert(is_group_of(kept, key, block));
        out
    }

    /// Validates every group and every doctrine.
    pub fn validate(&self, data: &Everything) -> (r: Vec<Diagnostic>)
        requires
            self.wf(),
        ensures
            views(r@) == groups_diags(self.group_things(), data, self.group_things().len() as int)
                + all_doctrines_diags(
                self.doctrine_things(),
                self@.groups,
                data,
                self.doctrine_things().len() as int,
            ),
    {
        let groups = self.groups.values();
        let mut out: Vec<Diagnostic> = Vec::new();
        assert(views(out@) =~= groups_diags(groups@, data, 0));
        let mut i: usize = 0;
        while i < groups.len()
            invariant
                i <= groups.len(),
                views(out@) == groups_diags(groups@, data, i as int),
            decreases groups.len() - i,
        {
            append_reports(&mut out, groups[i].validate(data));
            i = i + 1;
        }
        let doctrines = self.doctrines.values();
        let ghost first = views(out@);
        let mut j: usize = 0;
        assert(views(out@) =~= first + all_doctrines_diags(doctrines@, self@.groups, data, 0));
        while j < doctrines.len()
            invariant
                j <= doctrines.len(),
                self.wf(),
                views(out@) == first + all_doctrines_diags(
                    doctrines@,
                    self@.groups,
                    data,
                    j as int,
                ),
            decreases doctrines.len() - j,
        {
            let doctrine = &doctrines[j];
            let needs_icon = match self.groups.get(doctrine.group.as_str()) {
                Some(group) => {
                    let (needs, found) = group.needs_icon(data);
                    append_reports(&mut out, found);
                    needs
                },
                None => true,
            };
            append_reports(&mut out, doctrine.validate(data, needs_icon));
            assert(views(out@) =~= first + all_doctrines_diags(
                doctrines@,
                self@.groups,
                data,
                j + 1,
            ));
            j = j + 1;
        }
        out
    }

    /// Whether `key` names a doctrine.
    pub fn is_defined(&self, key: &str) -> (r: bool)
        requires
            self.wf(),
        ensures
            r == self@.doctrines.contains_key(key@),
    {
        self.doctrines.contains(key)
    }

    /// Whether some doctrine sets the parameter `key` to `yes` or `no`.
    pub fn parameter_exists(&self, key: &str) -> (r: bool)
        ensures
            r == self@.parameters.contains(key@),
    {
        self.parameters.contains(key)
    }
}

impl FileHandler for Doctrines {
    open spec fn ready(&self) -> bool {
        self.wf()
    }

    fn subpath(&self) -> (r: &'static str)
        ensures
            r@ == "common/religion/doctrines"@,
    {
        "common/religion/doctrines"
    }

    /// Takes in the groups of a file whose name ends in `.txt`, one after
    /// the other as `load_item` does; other files are left alone.
    fn handle_file(&mut self, filename: &str, block: Block) -> (r: Vec<Diagnostic>)
        ensures
            ({
                let items = pure_definitions(block.v@, block.v@.len() as int);
                if has_suffix(filename@, ".txt"@) {
                    exists|states: Seq<DoctrinesView>, parts: Seq<Seq<DiagnosticView>>|
                        #[trigger] groups_loaded(old(self)@, items, states, parts) && final(self)@
                            == states[items.len() as int] && views(r@) == stray_items(
                            block.v@,
                            block.v@.len() as int,
                        ) + concat_all(parts, parts.len() as int)
                } else {
                    &&& final(self)@ == old(self)@
                    &&& views(r@) == Seq::<DiagnosticView>::empty()
                }
            }),
    {
        let mut out: Vec<Diagnostic> = Vec::new();
        if !ends_with(filename, ".txt") {
            assert(views(out@) =~= Seq::<DiagnosticView>::empty());
            return out;
        }
        let (items, stray) = block.into_pure_definitions();
        let ghost all = items@;
        let ghost strays = views(stray@);
        let ghost mut states: Seq<DoctrinesView> = seq![self@];
        let ghost mut parts: Seq<Seq<DiagnosticView>> = Seq::empty();
        append_reports(&mut out, stray);
        assert(views(out@) =~= strays + concat_all(parts, 0));
        for item in it: items
            invariant
                it.seq() == all,
                self.wf(),
                states.len() == it.index() + 1,
                parts.len() == it.index(),
                states[0] == old(self)@,
                states[it.index()] == self@,
                forall|i: int|
                    #![trigger parts[i]]
                    0 <= i < it.index() ==> group_loaded(
                        states[i],
                        all[i].0,
                        all[i].1,
                        states[i + 1],
                        parts[i],
                    ),
                views(out@) == strays + concat_all(parts, it.index()),
        {
            let ghost before = parts;
            let more = self.load_item(item.0, item.1);
            proof {
                states = states.push(self@);
                parts = parts.push(views(more@));
                lemma_concat_all_prefix(before, parts, it.index());
            }
            append_reports(&mut out, more);
            assert(views(out@) =~= strays + concat_all(parts, it.index() + 1));
        }
        assert(groups_loaded(old(self)@, all, states, parts));
        out
    }
}

} // verus!
