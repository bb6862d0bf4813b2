//! Events, and the scripted triggers and effects that event files define.

use vstd::prelude::*;
use vstd::string::*;
use crate::block::{BV, Block, DefinitionItem, definitions, stray_blocks};
use crate::block::validator::{
    CheckView, Declaration, Validator, ValidatorView, fresh, many, once, words,
};
use crate::catalog::Catalog;
use crate::desc::{desc_diags, verify_desc_locas};
use crate::everything::{Everything, missing_loca};
use crate::fileset::FileHandler;
use crate::helpers::{Keyed, load, load_diags, loaded};
use crate::report::{
    Diagnostic, DiagnosticView, ErrorKey, append_reports, error_view, views, warning_view,
};
use crate::text::{
    chars_of, digits_end, digits_to_end, ends_with, find_char, first_char, has_suffix,
    prefix_among,
};
use crate::token::{FileKind, Token};

verus! {

/// One event.
#[derive(Debug)]
pub struct Event {
    pub key: Token,
    pub block: Block,
}

/// A scripted trigger that an event file defines.
#[derive(Debug)]
pub struct ScriptedTrigger {
    pub key: Token,
    pub block: Block,
}

/// A scripted effect that an event file defines.
#[derive(Debug)]
pub struct ScriptedEffect {
    pub key: Token,
    pub block: Block,
}

impl Keyed for Event {
    open spec fn spec_key(&self) -> Token {
        self.key
    }

    fn key(&self) -> (r: &Token) {
        &self.key
    }
}

impl Keyed for ScriptedTrigger {
    open spec fn spec_key(&self) -> Token {
        self.key
    }

    fn key(&self) -> (r: &Token) {
        &self.key
    }
}

impl Keyed for ScriptedEffect {
    open spec fn spec_key(&self) -> Token {
        self.key
    }

    fn key(&self) -> (r: &Token) {
        &self.key
    }
}

impl ScriptedTrigger {
    pub fn new(key: Token, block: Block) -> (t: ScriptedTrigger)
        ensures
            t == (ScriptedTrigger { key, block }),
    {
        Self { key, block }
    }
}

impl ScriptedEffect {
    pub fn new(key: Token, block: Block) -> (e: ScriptedEffect)
        ensures
            e == (ScriptedEffect { key, block }),
    {
        Self { key, block }
    }
}

/// An optional field `name` whose values are held to `check`.
pub open spec fn optional(name: Seq<char>, check: CheckView) -> Declaration {
    Declaration::Field { name, mode: once(), check }
}

/// A field `name` that may be repeated and holds a block each time.
pub open spec fn blocks(name: Seq<char>) -> Declaration {
    Declaration::Field { name, mode: many(), check: CheckView::Block }
}

/// What an animation that depends on a trigger reports.
pub open spec fn triggered_animation_diags(block: Block, data: &Everything) -> Seq<DiagnosticView> {
    fresh(block, data.localization@).after(Declaration::Required { name: "trigger"@ }).after(
        Declaration::Required { name: "animation"@ },
    ).after(optional("trigger"@, CheckView::Block)).after(
        optional("animation"@, CheckView::Value),
    ).finished()
}

/// What an outfit that depends on a trigger reports.
pub open spec fn triggered_outfit_diags(block: Block, data: &Everything) -> Seq<DiagnosticView> {
    fresh(block, data.localization@).after(optional("trigger"@, CheckView::Block)).after(
        optional("outfit_tags"@, CheckView::List),
    ).after(optional("remove_default_outfit"@, CheckView::Bool)).after(
        optional("hide_info"@, CheckView::Bool),
    ).finished()
}

/// What a portrait reports: nothing where it is a scalar; else what its
/// block holds.
pub open spec fn portrait_diags(value: BV, data: &Everything) -> Seq<DiagnosticView> {
    match value {
        BV::Value(_) => Seq::empty(),
        BV::Block(b) => fresh(b, data.localization@).after(
            Declaration::Required { name: "character"@ },
        ).after(optional("character"@, CheckView::Value)).after(
            optional("trigger"@, CheckView::Block),
        ).after(optional("animation"@, CheckView::Value)).after(
            optional("scripted_animation"@, CheckView::Any),
        ).after(
            Declaration::ValidatedBlocks {
                name: "triggered_animation"@,
                mode: many(),
                inside: |inner: Block| triggered_animation_diags(inner, data),
            },
        ).after(optional("outfit_tags"@, CheckView::List)).after(
            optional("remove_default_outfit"@, CheckView::Bool),
        ).after(optional("hide_info"@, CheckView::Bool)).after(
            Declaration::ValidatedBlocks {
                name: "triggered_outfit"@,
                mode: many(),
                inside: |inner: Block| triggered_outfit_diags(inner, data),
            },
        ).after(optional("override_imprisonment_visuals"@, CheckView::Bool)).finished(),
    }
}

/// The places that an artifact can be shown in.
pub open spec fn artifact_positions() -> Seq<Seq<char>> {
    seq!["lower_left_portrait"@, "lower_center_portrait"@, "lower_right_portrait"@]
}

/// What an artifact reports.
pub open spec fn artifact_diags(block: Block, data: &Everything) -> Seq<DiagnosticView> {
    fresh(block, data.localization@).after(Declaration::Required { name: "target"@ }).after(
        Declaration::Required { name: "position"@ },
    ).after(optional("target"@, CheckView::Value)).after(
        optional("position"@, CheckView::Choice(artifact_positions())),
    ).after(optional("trigger"@, CheckView::Block)).finished()
}

/// What a court scene reports.
pub open spec fn court_scene_diags(block: Block, data: &Everything) -> Seq<DiagnosticView> {
    fresh(block, data.localization@).after(
        Declaration::Required { name: "button_position_character"@ },
    ).after(optional("button_position_character"@, CheckView::Value)).after(
        optional("court_event_force_open"@, CheckView::Bool),
    ).after(optional("show_timeout_info"@, CheckView::Bool)).after(
        optional("should_pause_time"@, CheckView::Bool),
    ).after(optional("court_owner"@, CheckView::Value)).after(
        optional("scripted_animation"@, CheckView::Any),
    ).after(blocks("roles"@)).finished()
}

/// What a text of an option reports: a scalar must be a localization key;
/// a block must hold a description under `text`.
pub open spec fn option_text_diags(given: Option<BV>, no_text: Seq<char>, data: &Everything) -> Seq<
    DiagnosticView,
> {
    match given {
        None => Seq::empty(),
        Some(BV::Value(t)) => if data.localization@.contains(t.s@) {
            Seq::empty()
        } else {
            seq![missing_loca(t.s@, t)]
        },
        Some(BV::Block(b)) => match b.spec_field("text"@) {
            Some(text) => desc_diags(text, data),
            None => seq![warning_view(ErrorKey::MissingField, no_text, b.loc)],
        },
    }
}

/// What an option reports: of its name and of its tooltip.
pub open spec fn option_diags(block: Block, data: &Everything) -> Seq<DiagnosticView> {
    option_text_diags(block.spec_field("name"@), "event option name with no text"@, data)
        + option_text_diags(
        block.spec_field("custom_tooltip"@),
        "event option tooltip with no text"@,
        data,
    )
}

/// The kinds of event.
pub open spec fn event_types() -> Seq<Seq<char>> {
    seq![
        "letter_event"@,
        "character_event"@,
        "court_event"@,
        "duel_event"@,
        "fullscreen_event"@,
        "empty"@,
    ]
}

/// The kind that an event says it is.
pub open spec fn event_type(block: Block) -> Seq<char> {
    match block.spec_field_value("type"@) {
        Some(t) => t.s@,
        None => "missing"@,
    }
}

/// Whether an event says that it is hidden.
pub open spec fn event_hidden(block: Block) -> bool {
    match block.spec_field_value("hidden"@) {
        Some(t) => t.s@ == "yes"@,
        None => false,
    }
}

/// The state after a field that may hold a description.
pub open spec fn described(state: ValidatorView, name: Seq<char>, data: &Everything) -> ValidatorView {
    state.after(optional(name, CheckView::Any)).reporting(
        match state.block.spec_field(name) {
            Some(value) => desc_diags(value, data),
            None => Seq::empty(),
        },
    )
}

/// A field `name` that may be repeated and holds a portrait each time.
pub open spec fn portrait_field(name: Seq<char>, data: &Everything) -> Declaration {
    Declaration::Validated { name, mode: many(), found: |v: BV| portrait_diags(v, data) }
}

/// A field `name` that is not needed, with the reason.
pub open spec fn unneeded(name: Seq<char>, msg: Seq<char>) -> Declaration {
    Declaration::Advice { name, msg }
}

/// The state after the fields that every event may have.
pub open spec fn head_state(block: Block, data: &Everything) -> ValidatorView {
    let plain = fresh(block, data.localization@).after(optional("hidden"@, CheckView::Bool)).after(
        optional("major"@, CheckView::Bool),
    ).after(optional("major_trigger"@, CheckView::Block)).after(
        optional("type"@, CheckView::Choice(event_types())),
    ).after(optional("scope"@, CheckView::Value)).after(
        optional("immediate"@, CheckView::Block),
    ).after(optional("trigger"@, CheckView::Block)).after(
        optional("on_trigger_fail"@, CheckView::Block),
    ).after(optional("weight_multiplier"@, CheckView::Block));
    described(described(plain, "title"@, data), "desc"@, data)
}

/// The state after the fields of the portraits: a letter has an opening
/// and must have a sender, which other events do not need; a court event
/// needs no portraits at its sides.
pub open spec fn portraits_state(state: ValidatorView, data: &Everything) -> ValidatorView {
    let kind = event_type(state.block);
    let letter = if kind == "letter_event"@ {
        described(state, "opening"@, data).after(Declaration::Required { name: "sender"@ }).after(
            portrait_field("sender"@, data),
        )
    } else {
        state.after(unneeded("opening"@, "only needed for letter_event"@)).after(
            unneeded("sender"@, "only needed for letter_event"@),
        )
    };
    let sides = if kind == "court_event"@ {
        letter.after(unneeded("left_portrait"@, "not needed for court_event"@)).after(
            unneeded("right_portrait"@, "not needed for court_event"@),
        )
    } else {
        letter.after(portrait_field("left_portrait"@, data)).after(
            portrait_field("right_portrait"@, data),
        )
    };
    sides.after(portrait_field("lower_left_portrait"@, data)).after(
        portrait_field("lower_center_portrait"@, data),
    ).after(portrait_field("lower_right_portrait"@, data))
}

/// The state after the fields of the scene: artifacts, the court scene,
/// the theme and what overrides it. A court event needs no background.
pub open spec fn scene_state(state: ValidatorView, data: &Everything) -> ValidatorView {
    let themed = state.after(
        Declaration::ValidatedBlocks {
            name: "artifact"@,
            mode: many(),
            inside: |b: Block| artifact_diags(b, data),
        },
    ).after(
        Declaration::ValidatedBlocks {
            name: "court_scene"@,
            mode: once(),
            inside: |b: Block| court_scene_diags(b, data),
        },
    ).after(optional("theme"@, CheckView::Value));
    let background = if event_type(state.block) == "court_event"@ {
        themed.after(unneeded("override_background"@, "not needed for court_event"@))
    } else {
        themed.after(blocks("override_background"@))
    };
    background.after(blocks("override_icon"@)).after(blocks("override_sound"@))
}

/// The state after the options and the fields that follow them. An event
/// that is not hidden must have an option.
pub open spec fn tail_state(state: ValidatorView, data: &Everything) -> ValidatorView {
    let required = if event_hidden(state.block) {
        state
    } else {
        state.after(Declaration::Required { name: "option"@ })
    };
    required.after(
        Declaration::ValidatedBlocks {
            name: "option"@,
            mode: many(),
            inside: |b: Block| option_diags(b, data),
        },
    ).after(optional("after"@, CheckView::Block)).after(
        optional("cooldown"@, CheckView::Block),
    ).after(optional("soundeffect"@, CheckView::Value)).after(
        optional("orphan"@, CheckView::Bool),
    ).after(optional("widget"@, CheckView::Any)).after(optional("widgets"@, CheckView::Block))
}

#[verifier::opaque]
/// What validation reports of an event: of each field that an event of
/// its kind may have, and of every entry that is none of them.
pub open spec fn event_diags(event: Event, data: &Everything) -> Seq<DiagnosticView> {
    tail_state(
        scene_state(portraits_state(head_state(event.block, data), data), data),
        data,
    ).finished()
}

fn none_found() -> (r: Vec<Diagnostic>)
    ensures
        views(r@) == Seq::<DiagnosticView>::empty(),
{
    let r: Vec<Diagnostic> = Vec::new();
    assert(views(r@) =~= Seq::<DiagnosticView>::empty());
    r
}

fn one_found(d: Diagnostic) -> (r: Vec<Diagnostic>)
    ensures
        views(r@) == seq![d@],
{
    let mut r: Vec<Diagnostic> = Vec::new();
    r.push(d);
    assert(views(r@) =~= seq![d@]);
    r
}

fn validate_option_text(given: Option<&BV>, no_text: &str, data: &Everything) -> (r: Vec<
    Diagnostic,
>)
    ensures
        views(r@) == option_text_diags(
            match given {
                Some(v) => Some(*v),
                None => None,
            },
            no_text@,
            data,
        ),
{
    match given {
        None => none_found(),
        Some(BV::Value(t)) => data.verify_loca_exists(t.as_str(), t),
        Some(BV::Block(b)) => match b.get_field("text") {
            Some(text) => verify_desc_locas(text, data),
            None => one_found(Diagnostic::warning(ErrorKey::MissingField, no_text, b.loc)),
        },
    }
}

fn validate_event_option(block: &Block, data: &Everything) -> (r: Vec<Diagnostic>)
    ensures
        views(r@) == option_diags(*block, data),
{
    let mut out = validate_option_text(
        block.get_field("name"),
        "event option name with no text",
        data,
    );
    let more = validate_option_text(
        block.get_field("custom_tooltip"),
        "event option tooltip with no text",
        data,
    );
    append_reports(&mut out, more);
    out
}

fn validate_court_scene(block: &Block, data: &Everything) -> (r: Vec<Diagnostic>)
    ensures
        views(r@) == court_scene_diags(*block, data),
{
    let mut vd = Validator::new(block, data);

    vd.req_field("button_position_character");
    vd.field_value("button_position_character");
    vd.field_bool("court_event_force_open");
    vd.field_bool("show_timeout_info");
    vd.field_bool("should_pause_time");
    vd.field_value("court_owner");
    vd.field("scripted_animation");
    vd.field_blocks("roles");
    vd.warn_remaining()
}

fn position_choices() -> (r: Vec<&'static str>)
    ensures
        words(r@) == artifact_positions(),
{
    let mut r: Vec<&'static str> = Vec::new();
    r.push("lower_left_portrait");
    r.push("lower_center_portrait");
    r.push("lower_right_portrait");
    assert(words(r@) =~= artifact_positions());
    r
}

fn validate_artifact(block: &Block, data: &Everything) -> (r: Vec<Diagnostic>)
    ensures
        views(r@) == artifact_diags(*block, data),
{
    let mut vd = Validator::new(block, data);
    let positions = position_choices();

    vd.req_field("target");
    vd.req_field("position");
    vd.field_value("target");
    vd.field_choice("position", positions.as_slice());
    vd.field_block("trigger");
    vd.warn_remaining()
}

fn validate_triggered_animation(block: &Block, data: &Everything) -> (r: Vec<Diagnostic>)
    ensures
        views(r@) == triggered_animation_diags(*block, data),
{
    let mut vd = Validator::new(block, data);

    vd.req_field("trigger");
    vd.req_field("animation");
    vd.field_block("trigger");
    vd.field_value("animation");
    vd.warn_remaining()
}

fn validate_triggered_outfit(block: &Block, data: &Everything) -> (r: Vec<Diagnostic>)
    ensures
        views(r@) == triggered_outfit_diags(*block, data),
{
    let mut vd = Validator::new(block, data);

    // trigger is apparently optional
    vd.field_block("trigger");
    vd.field_list("outfit_tags");
    vd.field_bool("remove_default_outfit");
    vd.field_bool("hide_info");
    vd.warn_remaining()
}

fn validate_portrait(v: &BV, data: &Everything) -> (r: Vec<Diagnostic>)
    ensures
        views(r@) == portrait_diags(*v, data),
{
    match v {
        BV::Value(_) => none_found(),
        BV::Block(b) => {
            let mut vd = Validator::new(b, data);

            vd.req_field("character");
            vd.field_value("character");
            vd.field_block("trigger");
            vd.field_value("animation");
            vd.field("scripted_animation");
            let animation = |inner: &Block| -> (r: Vec<Diagnostic>)
                ensures
                    views(r@) == triggered_animation_diags(*inner, data),
                { validate_triggered_animation(inner, data) };
            vd.field_validated_blocks_as(
                "triggered_animation",
                false,
                animation,
                Ghost(|inner: Block| triggered_animation_diags(inner, data)),
            );
            vd.field_list("outfit_tags");
            vd.field_bool("remove_default_outfit");
            vd.field_bool("hide_info");
            let outfit = |inner: &Block| -> (r: Vec<Diagnostic>)
                ensures
                    views(r@) == triggered_outfit_diags(*inner, data),
                { validate_triggered_outfit(inner, data) };
            vd.field_validated_blocks_as(
                "triggered_outfit",
                false,
                outfit,
                Ghost(|inner: Block| triggered_outfit_diags(inner, data)),
            );
            vd.field_bool("override_imprisonment_visuals");
            vd.warn_remaining()
        },
    }
}

fn type_choices() -> (r: Vec<&'static str>)
    ensures
        words(r@) == event_types(),
{
    let mut r: Vec<&'static str> = Vec::new();
    r.push("letter_event");
    r.push("character_event");
    r.push("court_event");
    r.push("duel_event");
    r.push("fullscreen_event");
    r.push("empty");
    assert(words(r@) =~= event_types());
    r
}

/// Declares a field that may hold a description, and checks it.
fn field_described(vd: &mut Validator, block: &Block, name: &str, data: &Everything)
    requires
        old(vd)@.block == *block,
        old(vd)@.localization == data.localization@,
    ensures
        final(vd)@ == described(old(vd)@, name@, data),
{
    vd.field(name);
    match block.get_field(name) {
        Some(value) => {
            vd.report(verify_desc_locas(value, data));
        },
        None => {
            vd.report(none_found());
        },
    }
}

/// Declares a field that may be repeated and holds a portrait each time.
fn field_portrait(vd: &mut Validator, name: &str, data: &Everything)
    requires
        old(vd)@.localization == data.localization@,
    ensures
        final(vd)@ == old(vd)@.after(portrait_field(name@, data)),
{
    let portrait = |v: &BV| -> (r: Vec<Diagnostic>)
        ensures
            views(r@) == portrait_diags(*v, data),
        { validate_portrait(v, data) };
    vd.field_validated_as(name, false, portrait, Ghost(|v: BV| portrait_diags(v, data)));
}

impl Event {
    pub fn new(key: Token, block: Block) -> (e: Event)
        ensures
            e == (Event { key, block }),
    {
        Self { key, block }
    }

    fn is_kind(&self, kind: &str) -> (r: bool)
        ensures
            r == (event_type(self.block) == kind@),
    {
        match self.block.get_field_value("type") {
            Some(t) => t.is(kind),
            None => crate::text::str_eq("missing", kind),
        }
    }

    fn validate_head(&self, vd: &mut Validator, data: &Everything)
        requires
            old(vd)@ == fresh(self.block, data.localization@),
        ensures
            final(vd)@ == head_state(self.block, data),
    {
        let types = type_choices();
        vd.field_bool("hidden");
        vd.field_bool("major");
        vd.field_block("major_trigger");  // trigger
        vd.field_choice("type", types.as_slice());
        vd.field_value("scope");  // the expected scope type
        vd.field_block("immediate");  // effect
        vd.field_block("trigger");  // trigger
        vd.field_block("on_trigger_fail");  // effect
        vd.field_block("weight_multiplier");  // modifier
        field_described(vd, &self.block, "title", data);
        field_described(vd, &self.block, "desc", data);
    }

    fn validate_portraits(&self, vd: &mut Validator, data: &Everything)
        requires
            old(vd)@.block == self.block,
            old(vd)@.localization == data.localization@,
        ensures
            final(vd)@ == portraits_state(old(vd)@, data),
    {
        if self.is_kind("letter_event") {
            field_described(vd, &self.block, "opening", data);
            vd.req_field("sender");
            field_portrait(vd, "sender", data);
        } else {
            vd.advice_field("opening", "only needed for letter_event");
            vd.advice_field("sender", "only needed for letter_event");
        }
        if self.is_kind("court_event") {
            vd.advice_field("left_portrait", "not needed for court_event");
            vd.advice_field("right_portrait", "not needed for court_event");
        } else {
            field_portrait(vd, "left_portrait", data);
            field_portrait(vd, "right_portrait", data);
        }
        field_portrait(vd, "lower_left_portrait", data);
        field_portrait(vd, "lower_center_portrait", data);
        field_portrait(vd, "lower_right_portrait", data);
    }

    fn validate_scene(&self, vd: &mut Validator, data: &Everything)
        requires
            old(vd)@.block == self.block,
            old(vd)@.localization == data.localization@,
        ensures
            final(vd)@ == scene_state(old(vd)@, data),
    {
        let artifact = |b: &Block| -> (r: Vec<Diagnostic>)
            ensures
                views(r@) == artifact_diags(*b, data),
            { validate_artifact(b, data) };
        vd.field_validated_blocks_as(
            "artifact",
            false,
            artifact,
            Ghost(|b: Block| artifact_diags(b, data)),
        );
        let court_scene = |b: &Block| -> (r: Vec<Diagnostic>)
            ensures
                views(r@) == court_scene_diags(*b, data),
            { validate_court_scene(b, data) };
        vd.field_validated_blocks_as(
            "court_scene",
            true,
            court_scene,
            Ghost(|b: Block| court_scene_diags(b, data)),
        );
        vd.field_value("theme");
        if self.is_kind("court_event") {
            vd.advice_field("override_background", "not needed for court_event");
        } else {
            vd.field_blocks("override_background");
        }
        vd.field_blocks("override_icon");
        vd.field_blocks("override_sound");
    }

    fn validate_tail(&self, vd: &mut Validator, data: &Everything)
        requires
            old(vd)@.block == self.block,
            old(vd)@.localization == data.localization@,
        ensures
            final(vd)@ == tail_state(old(vd)@, data),
    {
        let hidden = match self.block.get_field_bool("hidden") {
            Some(b) => b,
            None => false,
        };
        if !hidden {
            vd.req_field("option");
        }
        let option = |b: &Block| -> (r: Vec<Diagnostic>)
            ensures
                views(r@) == option_diags(*b, data),
            { validate_event_option(b, data) };
        vd.field_validated_blocks_as(
            "option",
            false,
            option,
            Ghost(|b: Block| option_diags(b, data)),
        );
        vd.field_block("after");  // effect
        vd.field_block("cooldown");
        vd.field_value("soundeffect");
        vd.field_bool("orphan");
        vd.field("widget");
        vd.field_block("widgets");
    }

    /// Validates the event.
    pub fn validate(&self, data: &Everything) -> (r: Vec<Diagnostic>)
        ensures
            views(r@) == event_diags(*self, data),
    {
        proof {
            reveal(event_diags);
        }
        let mut vd = Validator::new(&self.block, data);
        self.validate_head(&mut vd, data);
        self.validate_portraits(&mut vd, data);
        self.validate_scene(&mut vd, data);
        self.validate_tail(&mut vd, data);
        vd.warn_remaining()
    }
}


/// The events as a mathematical value.
pub struct EventsView {
    pub events: Map<Seq<char>, Event>,
    pub scripted_triggers: Map<Seq<char>, ScriptedTrigger>,
    pub scripted_effects: Map<Seq<char>, ScriptedEffect>,
    /// The events that are there but whose names are not in order.
    pub error_events: Map<Seq<char>, Token>,
}

/// How the name of an event stands to the namespaces of its file.
pub enum NameCheck {
    /// The file has declared no namespace.
    NoNamespace,
    /// The name is a declared namespace, a point and a number.
    Fine,
    /// The name has the right form, but its namespace is not declared.
    WrongNamespace,
    /// The name is not a namespace, a point and a number.
    BadForm,
}

/// Whether `prefix` is one of `namespaces`.
pub open spec fn namespaces_have(namespaces: Seq<String>, prefix: Seq<char>) -> bool {
    exists|i: int| 0 <= i < namespaces.len() && (#[trigger] namespaces[i])@ == prefix
}

pub open spec fn event_name_check(key: Seq<char>, namespaces: Seq<String>) -> NameCheck {
    let point = first_char(key, '.', 0);
    if namespaces.len() == 0 {
        NameCheck::NoNamespace
    } else if point < 0 || digits_end(key, point + 1) != key.len() {
        NameCheck::BadForm
    } else if namespaces_have(namespaces, key.take(point)) {
        NameCheck::Fine
    } else {
        NameCheck::WrongNamespace
    }
}

/// What the name of an event reports.
pub open spec fn event_name_diags(key: Token, namespaces: Seq<String>) -> Seq<DiagnosticView> {
    match event_name_check(key.s@, namespaces) {
        NameCheck::NoNamespace => seq![
            error_view(
                ErrorKey::EventNamespace,
                "Event files must start with a namespace declaration"@,
                key.loc,
            ),
        ],
        NameCheck::Fine => Seq::empty(),
        NameCheck::WrongNamespace => seq![
            DiagnosticView {
                info: Some(
                    "If the event doesn't match its namespace, the game can't properly find the event when triggering it."@,
                ),
                ..warning_view(
                    ErrorKey::EventNamespace,
                    "Event name should start with namespace"@,
                    key.loc,
                )
            },
        ],
        NameCheck::BadForm => seq![
            DiagnosticView {
                info: Some(
                    "where NAMESPACE is the namespace declared at the top of the file, and NUMBER is a series of digits."@,
                ),
                ..warning_view(
                    ErrorKey::EventNamespace,
                    "Event names should be in the form NAMESPACE.NUMBER"@,
                    key.loc,
                )
            },
        ],
    }
}

/// The events after the event `key` was loaded: it is among the events
/// where its name is in order, else among the events in error.
pub open spec fn event_loaded(
    before: EventsView,
    key: Token,
    block: Block,
    namespaces: Seq<String>,
) -> EventsView {
    if event_name_check(key.s@, namespaces) is Fine {
        EventsView { events: loaded(before.events, Event { key, block }), ..before }
    } else {
        EventsView { error_events: before.error_events.insert(key.s@, key), ..before }
    }
}

/// What loading the event `key` reports.
pub open spec fn event_load_diags(before: EventsView, key: Token, namespaces: Seq<String>) -> Seq<
    DiagnosticView,
> {
    event_name_diags(key, namespaces) + if event_name_check(key.s@, namespaces) is Fine {
        load_diags(before.events, key, "event"@)
    } else {
        Seq::empty()
    }
}

/// What the next definition of an event file is taken to be.
#[derive(Clone, Copy, Debug, PartialEq, Eq, Structural)]
pub enum Expecting {
    Event,
    ScriptedTrigger,
    ScriptedEffect,
}

/// Where the loading of an event file stands.
pub struct Loading {
    pub catalogs: EventsView,
    /// The namespaces that the file has declared so far.
    pub namespaces: Seq<String>,
    pub expecting: Expecting,
    pub reported: Seq<DiagnosticView>,
}

pub open spec fn msg_with_equals(key: Seq<char>) -> Seq<char> {
    "`"@ + key + "` should be used without `=`"@
}

/// Where the loading stands after one more item of the file.
pub open spec fn loading_step(l: Loading, item: DefinitionItem) -> Loading {
    match item {
        DefinitionItem::Assignment(key, value) => if key.s@ == "namespace"@ {
            Loading { namespaces: l.namespaces.push(value.s), ..l }
        } else if key.s@ == "scripted_trigger"@ || key.s@ == "scripted_effect"@ {
            Loading {
                reported: l.reported.push(
                    error_view(ErrorKey::MisplacedKey, msg_with_equals(key.s@), key.loc),
                ),
                ..l
            }
        } else {
            Loading {
                reported: l.reported.push(
                    error_view(
                        ErrorKey::UnknownField,
                        "unknown setting in event files, expected only `namespace`"@,
                        key.loc,
                    ),
                ),
                ..l
            }
        },
        DefinitionItem::Keyword(key) => if l.expecting == Expecting::Event && key.s@
            == "scripted_trigger"@ {
            Loading { expecting: Expecting::ScriptedTrigger, ..l }
        } else if l.expecting == Expecting::Event && key.s@ == "scripted_effect"@ {
            Loading { expecting: Expecting::ScriptedEffect, ..l }
        } else {
            Loading {
                reported: l.reported.push(
                    DiagnosticView {
                        info: Some("Did you forget an = ?"@),
                        ..error_view(ErrorKey::MisplacedValue, "unexpected token"@, key.loc)
                    },
                ),
                ..l
            }
        },
        DefinitionItem::Definition(key, b) => if key.s@ == "namespace"@ {
            Loading {
                reported: l.reported.push(
                    error_view(
                        ErrorKey::EventNamespace,
                        "expected namespace to have a simple string value"@,
                        b.loc,
                    ),
                ),
                ..l
            }
        } else {
            match l.expecting {
                Expecting::ScriptedTrigger => Loading {
                    catalogs: EventsView {
                        scripted_triggers: loaded(
                            l.catalogs.scripted_triggers,
                            ScriptedTrigger { key, block: b },
                        ),
                        ..l.catalogs
                    },
                    expecting: Expecting::Event,
                    reported: l.reported + load_diags(
                        l.catalogs.scripted_triggers,
                        key,
                        "scripted trigger"@,
                    ),
                    ..l
                },
                Expecting::ScriptedEffect => Loading {
                    catalogs: EventsView {
                        scripted_effects: loaded(
                            l.catalogs.scripted_effects,
                            ScriptedEffect { key, block: b },
                        ),
                        ..l.catalogs
                    },
                    expecting: Expecting::Event,
                    reported: l.reported + load_diags(
                        l.catalogs.scripted_effects,
                        key,
                        "scripted effect"@,
                    ),
                    ..l
                },
                Expecting::Event => Loading {
                    catalogs: event_loaded(l.catalogs, key, b, l.namespaces),
                    reported: l.reported + event_load_diags(l.catalogs, key, l.namespaces),
                    ..l
                },
            }
        },
    }
}

/// Where the loading stands after the first `n` items of the file.
pub open spec fn loading_run(l: Loading, items: Seq<DefinitionItem>, n: int) -> Loading
    decreases n,
{
    if n <= 0 {
        l
    } else {
        loading_step(loading_run(l, items, n - 1), items[n - 1])
    }
}

/// What validation reports of the first `n` of `events`. The events of
/// the base game are taken as they are.
pub open spec fn events_diags(events: Seq<Event>, data: &Everything, n: int) -> Seq<DiagnosticView>
    decreases n,
{
    if n <= 0 {
        Seq::empty()
    } else {
        events_diags(events, data, n - 1) + if events[n - 1].key.loc.kind == FileKind::Vanilla {
            Seq::empty()
        } else {
            event_diags(events[n - 1], data)
        }
    }
}

/// The events, and the scripted triggers and effects of the event files,
/// by name.
pub struct Events {
    events: Catalog<Event>,
    scripted_triggers: Catalog<ScriptedTrigger>,
    scripted_effects: Catalog<ScriptedEffect>,
    // These events are known to exist, so don't warn about them not being found,
    // but they had errors on validation.
    error_events: Catalog<Token>,
}

impl View for Events {
    type V = EventsView;

    closed spec fn view(&self) -> EventsView {
        EventsView {
            events: self.events@,
            scripted_triggers: self.scripted_triggers@,
            scripted_effects: self.scripted_effects@,
            error_events: self.error_events@,
        }
    }
}

impl Events {
    /// The catalogs are in order.
    pub closed spec fn wf(&self) -> bool {
        &&& self.events.wf()
        &&& self.scripted_triggers.wf()
        &&& self.scripted_effects.wf()
        &&& self.error_events.wf()
    }

    /// The events, in the order in which their names came.
    pub closed spec fn event_things(&self) -> Seq<Event> {
        self.events.things()
    }

    /// No events.
    pub fn new() -> (e: Events)
        ensures
            e.wf(),
            e@ == (EventsView {
                events: Map::empty(),
                scripted_triggers: Map::empty(),
                scripted_effects: Map::empty(),
                error_events: Map::empty(),
            }),
    {
        Events {
            events: Catalog::new(),
            scripted_triggers: Catalog::new(),
            scripted_effects: Catalog::new(),
            error_events: Catalog::new(),
        }
    }

    fn check_name(key: &Token, namespaces: &Vec<String>) -> (r: (bool, Vec<Diagnostic>))
        ensures
            r.0 == (event_name_check(key.s@, namespaces@) is Fine),
            views(r.1@) == event_name_diags(*key, namespaces@),
    {
        if namespaces.len() == 0 {
            return (
                false,
                one_found(
                    Diagnostic::error(
                        ErrorKey::EventNamespace,
                        "Event files must start with a namespace declaration",
                        key.loc,
                    ),
                ),
            );
        }
        let cs = chars_of(key.as_str());
        match find_char(&cs, '.') {
            Some(point) => {
                if digits_to_end(&cs, point + 1) {
                    if prefix_among(&cs, point, namespaces) {
                        return (true, none_found());
                    }
                    return (
                        false,
                        one_found(
                            Diagnostic::warning(
                                ErrorKey::EventNamespace,
                                "Event name should start with namespace",
                                key.loc,
                            ).with_info(
                                "If the event doesn't match its namespace, the game can't properly find the event when triggering it.",
                            ),
                        ),
                    );
                }
            },
            None => {},
        }
        (
            false,
            one_found(
                Diagnostic::warning(
                    ErrorKey::EventNamespace,
                    "Event names should be in the form NAMESPACE.NUMBER",
                    key.loc,
                ).with_info(
                    "where NAMESPACE is the namespace declared at the top of the file, and NUMBER is a series of digits.",
                ),
            ),
        )
    }

    /// Takes in the event `key` of a file that has declared `namespaces`.
    pub fn load_event(&mut self, key: Token, block: Block, namespaces: &Vec<String>) -> (r: Vec<
        Diagnostic,
    >)
        requires
            old(self).wf(),
        ensures
            final(self).wf(),
            final(self)@ == event_loaded(old(self)@, key, block, namespaces@),
            views(r@) == event_load_diags(old(self)@, key, namespaces@),
    {
        let (fine, mut out) = Events::check_name(&key, namespaces);
        if fine {
            let found = load(&mut self.events, Event::new(key, block), "event");
            append_reports(&mut out, found);
        } else {
            let name = key.s.clone();
            self.error_events.insert(name.as_str(), key);
            assert(views(out@) =~= event_load_diags(old(self)@, key, namespaces@));
        }
        out
    }

    /// Takes in the scripted trigger `key`.
    pub fn load_scripted_trigger(&mut self, key: Token, block: Block) -> (r: Vec<Diagnostic>)
        requires
            old(self).wf(),
        ensures
            final(self).wf(),
            final(self)@ == (EventsView {
                scripted_triggers: loaded(
                    old(self)@.scripted_triggers,
                    ScriptedTrigger { key, block },
                ),
                ..old(self)@
            }),
            views(r@) == load_diags(old(self)@.scripted_triggers, key, "scripted trigger"@),
    {
        load(&mut self.scripted_triggers, ScriptedTrigger::new(key, block), "scripted trigger")
    }

    /// Takes in the scripted effect `key`.
    pub fn load_scripted_effect(&mut self, key: Token, block: Block) -> (r: Vec<Diagnostic>)
        requires
            old(self).wf(),
        ensures
            final(self).wf(),
            final(self)@ == (EventsView {
                scripted_effects: loaded(
                    old(self)@.scripted_effects,
                    ScriptedEffect { key, block },
                ),
                ..old(self)@
            }),
            views(r@) == load_diags(old(self)@.scripted_effects, key, "scripted effect"@),
    {
        load(&mut self.scripted_effects, ScriptedEffect::new(key, block), "scripted effect")
    }

    /// Validates every event that does not come from the base game.
    pub fn validate(&self, data: &Everything) -> (r: Vec<Diagnostic>)
        ensures
            views(r@) == events_diags(self.event_things(), data, self.event_things().len() as int),
    {
        let items = self.events.values();
        let mut out: Vec<Diagnostic> = Vec::new();
        assert(views(out@) =~= events_diags(items@, data, 0));
        let mut i: usize = 0;
        while i < items.len()
            invariant
                i <= items.len(),
                views(out@) == events_diags(items@, data, i as int),
            decreases items.len() - i,
        {
            let item = &items[i];
            match item.key.loc.kind {
                FileKind::Vanilla => {
                    assert(views(out@) =~= events_diags(items@, data, i + 1));
                },
                FileKind::Mod => {
                    append_reports(&mut out, item.validate(data));
                },
            }
            i = i + 1;
        }
        out
    }

    /// Takes in one item of an event file.
    fn load_definition(
        &mut self,
        item: DefinitionItem,
        namespaces: &mut Vec<String>,
        expecting: Expecting,
        out: &mut Vec<Diagnostic>,
    ) -> (next: Expecting)
        requires
            old(self).wf(),
        ensures
            final(self).wf(),
            ({
                let before = Loading {
                    catalogs: old(self)@,
                    namespaces: old(namespaces)@,
                    expecting,
                    reported: views(old(out)@),
                };
                (Loading {
                    catalogs: final(self)@,
                    namespaces: final(namespaces)@,
                    expecting: next,
                    reported: views(final(out)@),
                }) == loading_step(before, item)
            }),
    {
        match item {
            DefinitionItem::Assignment(key, value) => {
                if key.is("namespace") {
                    namespaces.push(value.s);
                } else if key.is("scripted_trigger") || key.is("scripted_effect") {
                    let mut msg = String::from_str("`");
                    msg.append(key.as_str());
                    msg.append("` should be used without `=`");
                    let d = Diagnostic::error(ErrorKey::MisplacedKey, msg.as_str(), key.loc);
                    proof {
                        crate::report::lemma_views_push(out@, d);
                    }
                    out.push(d);
                } else {
                    let d = Diagnostic::error(
                        ErrorKey::UnknownField,
                        "unknown setting in event files, expected only `namespace`",
                        key.loc,
                    );
                    proof {
                        crate::report::lemma_views_push(out@, d);
                    }
                    out.push(d);
                }
                expecting
            },
            DefinitionItem::Keyword(key) => {
                let free = match expecting {
                    Expecting::Event => true,
                    _ => false,
                };
                if free && key.is("scripted_trigger") {
                    Expecting::ScriptedTrigger
                } else if free && key.is("scripted_effect") {
                    Expecting::ScriptedEffect
                } else {
                    let d = Diagnostic::error(
                        ErrorKey::MisplacedValue,
                        "unexpected token",
                        key.loc,
                    ).with_info("Did you forget an = ?");
                    proof {
                        crate::report::lemma_views_push(out@, d);
                    }
                    out.push(d);
                    expecting
                }
            },
            DefinitionItem::Definition(key, b) => {
                if key.is("namespace") {
                    let d = Diagnostic::error(
                        ErrorKey::EventNamespace,
                        "expected namespace to have a simple string value",
                        b.loc,
                    );
                    proof {
                        crate::report::lemma_views_push(out@, d);
                    }
                    out.push(d);
                    expecting
                } else {
                    let found = match expecting {
                        Expecting::ScriptedTrigger => self.load_scripted_trigger(key, b),
                        Expecting::ScriptedEffect => self.load_scripted_effect(key, b),
                        Expecting::Event => self.load_event(key, b, namespaces),
                    };
                    append_reports(out, found);
                    Expecting::Event
                }
            },
        }
    }
}

impl FileHandler for Events {
    open spec fn ready(&self) -> bool {
        self.wf()
    }

    fn subpath(&self) -> (r: &'static str)
        ensures
            r@ == "events"@,
    {
        "events"
    }

    /// Takes in the items of an event file whose name ends in `.txt`, one
    /// after the other; other files are left alone. The file declares its
    /// namespaces; the word `scripted_trigger` or `scripted_effect` by
    /// itself says that the next definition is one; every other definition
    /// is an event. Of a file of the base game nothing is reported.
    fn handle_file(&mut self, filename: &str, block: Block) -> (r: Vec<Diagnostic>)
        ensures
            ({
                let items = definitions(block.v@, block.v@.len() as int);
                let start = Loading {
                    catalogs: old(self)@,
                    namespaces: Seq::empty(),
                    expecting: Expecting::Event,
                    reported: stray_blocks(block.v@, block.v@.len() as int),
                };
                let end = loading_run(start, items, items.len() as int);
                if has_suffix(filename@, ".txt"@) {
                    &&& final(self)@ == end.catalogs
                    &&& views(r@) == if block.loc.kind == FileKind::Vanilla {
                        Seq::empty()
                    } else {
                        end.reported
                    }
                } else {
                    &&& final(self)@ == old(self)@
                    &&& views(r@) == Seq::<DiagnosticView>::empty()
                }
            }),
    {
        if !ends_with(filename, ".txt") {
            return none_found();
        }
        let kind = block.loc.kind;
        let (items, stray) = block.into_definitions();
        let ghost all = items@;
        let ghost start = Loading {
            catalogs: old(self)@,
            namespaces: Seq::empty(),
            expecting: Expecting::Event,
            reported: stray_blocks(block.v@, block.v@.len() as int),
        };
        let mut out = stray;
        let mut namespaces: Vec<String> = Vec::new();
        let mut expecting = Expecting::Event;

        for def in it: items
            invariant
                it.seq() == all,
                self.wf(),
                (Loading {
                    catalogs: self@,
                    namespaces: namespaces@,
                    expecting,
                    reported: views(out@),
                }) == loading_run(start, all, it.index()),
        {
            expecting = self.load_definition(def, &mut namespaces, expecting, &mut out);
        }
        match kind {
            FileKind::Vanilla => none_found(),
            FileKind::Mod => out,
        }
    }
}

} // verus!
