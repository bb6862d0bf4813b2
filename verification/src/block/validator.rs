//! The [`Validator`]: a caller declares, field by field, what a block may
//! hold; the validator reports what does not fit, and at the end whatever
//! was never declared.

use vstd::prelude::*;
use vstd::string::*;
use crate::block::{BV, Block, BlockItem, Comparator, Shape, last_field, listed_values};
use crate::everything::Everything;
use crate::names::{lemma_name_set_add, lemma_name_set_push, listed, name_set};
use crate::report::{
    Diagnostic, DiagnosticView, ErrorKey, Severity, advice_view, append_reports, error_view,
    lemma_views_push, views, warning_view,
};
use crate::text::{
    is_date, is_integer, is_number, parses_as_date, parses_as_integer, parses_as_number, str_eq,
};
use crate::token::{FileKind, Loc, Token};

verus! {

/// The rule that the value of a field is held to.
#[derive(Clone, Copy, Debug)]
enum Check<'a> {
    /// Anything goes.
    Any,
    /// A scalar.
    Value,
    /// A block.
    Block,
    /// `yes` or `no`.
    Bool,
    /// A 32-bit integer.
    Integer,
    /// A number, whole or not.
    Number,
    /// One of the listed words.
    Choice(&'a [&'a str]),
    /// A block of loose scalars.
    List,
    /// A scalar that is a defined localization key.
    Loca,
}

/// A [`Check`] as a mathematical value.
pub enum CheckView {
    Any,
    Value,
    Block,
    Bool,
    Integer,
    Number,
    Choice(Seq<Seq<char>>),
    List,
    Loca,
}

/// The words of a list of choices.
pub open spec fn words(choices: Seq<&str>) -> Seq<Seq<char>> {
    Seq::new(choices.len(), |i: int| choices[i]@)
}

impl<'a> View for Check<'a> {
    type V = CheckView;

    closed spec fn view(&self) -> CheckView {
        match *self {
            Check::Any => CheckView::Any,
            Check::Value => CheckView::Value,
            Check::Block => CheckView::Block,
            Check::Bool => CheckView::Bool,
            Check::Integer => CheckView::Integer,
            Check::Number => CheckView::Number,
            Check::Choice(choices) => CheckView::Choice(words(choices@)),
            Check::List => CheckView::List,
            Check::Loca => CheckView::Loca,
        }
    }
}

pub open spec fn msg_missing(name: Seq<char>) -> Seq<char> {
    "required field `"@ + name + "` missing"@
}

pub open spec fn msg_duplicate(key: Seq<char>) -> Seq<char> {
    "multiple definitions of `"@ + key + "`, expected only one."@
}

pub open spec fn msg_comparator(key: Seq<char>, comparator: Comparator) -> Seq<char> {
    "expected `"@ + key + " =`, found `"@ + comparator.spec_symbol() + "`"@
}

pub open spec fn msg_misplaced_key(key: Seq<char>) -> Seq<char> {
    "found key `"@ + key + "`, expected only values"@
}

pub open spec fn msg_unknown_field(key: Seq<char>) -> Seq<char> {
    "unknown field `"@ + key + "`"@
}

pub open spec fn msg_missing_loca(key: Seq<char>) -> Seq<char> {
    "missing localization for `"@ + key + "`"@
}

/// The first `n` words, separated by a comma and a space.
pub open spec fn joined(names: Seq<Seq<char>>, n: int) -> Seq<char>
    decreases n,
{
    if n <= 0 {
        Seq::empty()
    } else if n == 1 {
        names[0]
    } else {
        joined(names, n - 1) + ", "@ + names[n - 1]
    }
}

pub open spec fn msg_choices(names: Seq<Seq<char>>) -> Seq<char> {
    "expected one of "@ + joined(names, names.len() as int)
}

/// The decimal digits of `n`.
pub open spec fn decimal_text(n: nat) -> Seq<char>
    decreases n,
{
    if n < 10 {
        seq![(('0' as u8) + (n as u8)) as char]
    } else {
        decimal_text(n / 10).push((('0' as u8) + ((n % 10) as u8)) as char)
    }
}

pub open spec fn msg_count(expect: nat) -> Seq<char> {
    "expected "@ + decimal_text(expect) + " integers"@
}

pub open spec fn expected_value(b: Block) -> DiagnosticView {
    error_view(ErrorKey::TypeMismatch, "expected value, found block"@, b.loc)
}

pub open spec fn expected_block(t: Token) -> DiagnosticView {
    error_view(ErrorKey::TypeMismatch, "expected block, found value"@, t.loc)
}

/// What a list reports of its first `n` entries: each key, and each nested
/// block.
pub open spec fn list_diags(inner: Seq<BlockItem>, n: int) -> Seq<DiagnosticView>
    decreases n,
{
    if n <= 0 {
        Seq::empty()
    } else {
        let item = inner[n - 1];
        let keyed = match item.key {
            Some(k) => seq![warning_view(ErrorKey::MisplacedKey, msg_misplaced_key(k.s@), k.loc)],
            None => Seq::empty(),
        };
        let nested = match item.value {
            BV::Value(_) => Seq::empty(),
            BV::Block(b) => seq![expected_value(b)],
        };
        list_diags(inner, n - 1) + keyed + nested
    }
}

/// What a scalar reports under `check`.
pub open spec fn token_diags(check: CheckView, t: Token, loca: Set<Seq<char>>) -> Seq<
    DiagnosticView,
> {
    match check {
        CheckView::Any | CheckView::Value => Seq::empty(),
        CheckView::Block | CheckView::List => seq![expected_block(t)],
        CheckView::Bool => if t.s@ == "yes"@ || t.s@ == "no"@ {
            Seq::empty()
        } else {
            seq![error_view(ErrorKey::InvalidChoice, "expected yes or no"@, t.loc)]
        },
        CheckView::Integer => if is_integer(t.s@) {
            Seq::empty()
        } else {
            seq![error_view(ErrorKey::NotAnInteger, "expected integer"@, t.loc)]
        },
        CheckView::Number => if is_number(t.s@) {
            Seq::empty()
        } else {
            seq![error_view(ErrorKey::NotANumber, "expected number"@, t.loc)]
        },
        CheckView::Choice(names) => if names.contains(t.s@) {
            Seq::empty()
        } else {
            seq![error_view(ErrorKey::InvalidChoice, msg_choices(names), t.loc)]
        },
        CheckView::Loca => if loca.contains(t.s@) {
            Seq::empty()
        } else {
            seq![warning_view(ErrorKey::MissingLocalization, msg_missing_loca(t.s@), t.loc)]
        },
    }
}

/// What a value reports under `check`.
pub open spec fn value_diags(check: CheckView, value: BV, loca: Set<Seq<char>>) -> Seq<
    DiagnosticView,
> {
    match value {
        BV::Value(t) => token_diags(check, t, loca),
        BV::Block(b) => match check {
            CheckView::Any | CheckView::Block => Seq::empty(),
            CheckView::List => list_diags(b.v@, b.v@.len() as int),
            _ => seq![expected_value(b)],
        },
    }
}

/// The place of the key of the last of the first `n` entries that has the
/// key `name` and comes from a file of kind `kind`.
pub open spec fn previous_of_kind(
    entries: Seq<BlockItem>,
    name: Seq<char>,
    kind: FileKind,
    n: int,
) -> Option<Loc>
    decreases n,
{
    if n <= 0 {
        None
    } else if entries[n - 1].has_key(name) && entries[n - 1].key->0.loc.kind == kind {
        Some(entries[n - 1].key->0.loc)
    } else {
        previous_of_kind(entries, name, kind, n - 1)
    }
}

/// The report of a repeated field: where entry `i` is not the first with
/// its key among the entries of its own provenance rank. Entries of another
/// rank never count against it.
pub open spec fn duplicate_diags(entries: Seq<BlockItem>, name: Seq<char>, i: int) -> Seq<
    DiagnosticView,
> {
    let key = entries[i].key->0;
    match previous_of_kind(entries, name, key.loc.kind, i) {
        Some(other) => seq![
            DiagnosticView {
                severity: Severity::Warning,
                key: ErrorKey::DuplicateField,
                msg: msg_duplicate(key.s@),
                loc: key.loc,
                info: None,
                related: Some(other),
            },
        ],
        None => Seq::empty(),
    }
}

pub open spec fn comparator_diags(key: Token, comparator: Comparator) -> Seq<DiagnosticView> {
    if comparator == Comparator::Eq {
        Seq::empty()
    } else {
        seq![error_view(ErrorKey::WrongComparator, msg_comparator(key.s@, comparator), key.loc)]
    }
}

/// How a field is declared: whether it may occur only once, and whether it
/// may be written with another comparator than `=`.
#[derive(Clone, Copy, Debug, PartialEq, Eq, Structural)]
pub struct Mode {
    pub single: bool,
    pub any_comparator: bool,
}

/// What entry `i` reports under a declaration of the field `name`, where
/// `out` is what was found in its value.
pub open spec fn occurrence_diags(
    entries: Seq<BlockItem>,
    name: Seq<char>,
    mode: Mode,
    i: int,
    out: Seq<DiagnosticView>,
) -> Seq<DiagnosticView> {
    if entries[i].has_key(name) {
        (if mode.single {
            duplicate_diags(entries, name, i)
        } else {
            Seq::empty()
        }) + (if mode.any_comparator {
            Seq::empty()
        } else {
            comparator_diags(entries[i].key->0, entries[i].comparator)
        }) + out
    } else {
        Seq::empty()
    }
}

/// What the first `n` entries report under a declaration of the field
/// `name`, where `outs[i]` is what was found in the value of entry `i`.
pub open spec fn declared_diags(
    entries: Seq<BlockItem>,
    name: Seq<char>,
    mode: Mode,
    outs: Seq<Seq<DiagnosticView>>,
    n: int,
) -> Seq<DiagnosticView>
    decreases n,
{
    if n <= 0 {
        Seq::empty()
    } else {
        declared_diags(entries, name, mode, outs, n - 1) + occurrence_diags(
            entries,
            name,
            mode,
            n - 1,
            outs[n - 1],
        )
    }
}

/// What each value reports under `check`.
pub open spec fn checked_outs(entries: Seq<BlockItem>, check: CheckView, loca: Set<Seq<char>>) -> Seq<
    Seq<DiagnosticView>,
> {
    Seq::new(entries.len(), |i: int| value_diags(check, entries[i].value, loca))
}

/// What a block reports under a declaration of the field `name` whose
/// values are held to `check`.
pub open spec fn field_diags(
    entries: Seq<BlockItem>,
    name: Seq<char>,
    mode: Mode,
    check: CheckView,
    loca: Set<Seq<char>>,
) -> Seq<DiagnosticView> {
    declared_diags(entries, name, mode, checked_outs(entries, check, loca), entries.len() as int)
}

/// Whether some entry has the key `name`.
pub open spec fn has_field(entries: Seq<BlockItem>, name: Seq<char>) -> bool {
    exists|i: int| 0 <= i < entries.len() && (#[trigger] entries[i]).has_key(name)
}

/// What a handler returned for each entry, as mathematical values.
pub open spec fn out_views(outs: Seq<Vec<Diagnostic>>) -> Seq<Seq<DiagnosticView>> {
    Seq::new(outs.len(), |i: int| views(outs[i]@))
}

/// `outs[i]` is a result of `f` on the value of entry `i`, for each entry
/// with the key `name`.
pub open spec fn handled<F: Fn(&BV) -> Vec<Diagnostic>>(
    f: F,
    entries: Seq<BlockItem>,
    name: Seq<char>,
    outs: Seq<Vec<Diagnostic>>,
) -> bool {
    &&& outs.len() == entries.len()
    &&& forall|i: int|
        0 <= i < entries.len() && (#[trigger] entries[i]).has_key(name) ==> call_ensures(
            f,
            (&entries[i].value,),
            outs[i],
        )
}

/// `f` may be called on the value of each entry with the key `name`.
pub open spec fn handles<F: Fn(&BV) -> Vec<Diagnostic>>(
    f: F,
    entries: Seq<BlockItem>,
    name: Seq<char>,
) -> bool {
    forall|i: int|
        0 <= i < entries.len() && (#[trigger] entries[i]).has_key(name) ==> call_requires(
            f,
            (&entries[i].value,),
        )
}

/// Declarations whose entries agree on what was found in the values of the
/// entries with the key `name` report the same.
pub proof fn lemma_declared_diags_agree(
    entries: Seq<BlockItem>,
    name: Seq<char>,
    mode: Mode,
    a: Seq<Seq<DiagnosticView>>,
    b: Seq<Seq<DiagnosticView>>,
    n: int,
)
    requires
        0 <= n <= entries.len(),
        forall|i: int| 0 <= i < n && (#[trigger] entries[i]).has_key(name) ==> a[i] == b[i],
    ensures
        declared_diags(entries, name, mode, a, n) == declared_diags(entries, name, mode, b, n),
    decreases n,
{
    if n > 0 {
        lemma_declared_diags_agree(entries, name, mode, a, b, n - 1);
        assert(entries[n - 1].has_key(name) ==> a[n - 1] == b[n - 1]);
    }
}

/// A declaration that needs no handler, as a mathematical value.
pub enum Declaration {
    /// The field must be there.
    Required { name: Seq<char> },
    /// The field may be there, declared as `mode` says, its values held
    /// to `check`.
    Field { name: Seq<char>, mode: Mode, check: CheckView },
    /// The field is tolerated; `msg` is given as advice where it is there.
    Advice { name: Seq<char>, msg: Seq<char> },
    /// Loose scalars are expected, `expect` of them integers.
    Integers { expect: nat },
    /// Loose blocks are expected.
    LooseBlocks,
    /// The field may be there, declared as `mode` says; `found` is what a
    /// handler finds in each of its values.
    Validated { name: Seq<char>, mode: Mode, found: spec_fn(BV) -> Seq<DiagnosticView> },
    /// The field may be there, declared as `mode` says, and holds a block;
    /// `found` is what a handler finds in each of its blocks.
    ValidatedBlocks { name: Seq<char>, mode: Mode, inside: spec_fn(Block) -> Seq<DiagnosticView> },
    /// Every key of the block is declared, for a caller that sees to the
    /// keys that are left by other means.
    Rest,
}

/// What `found` finds in the value of each entry.
pub open spec fn found_outs(
    entries: Seq<BlockItem>,
    found: spec_fn(BV) -> Seq<DiagnosticView>,
) -> Seq<Seq<DiagnosticView>> {
    Seq::new(entries.len(), |i: int| found(entries[i].value))
}

/// What `found` finds in the block of each entry, and for each scalar the
/// report that a block was expected.
pub open spec fn block_outs(
    entries: Seq<BlockItem>,
    found: spec_fn(Block) -> Seq<DiagnosticView>,
) -> Seq<Seq<DiagnosticView>> {
    Seq::new(
        entries.len(),
        |i: int|
            match entries[i].value {
                BV::Value(t) => seq![expected_block(t)],
                BV::Block(b) => found(b),
            },
    )
}

/// The keys of the entries.
pub open spec fn all_keys(entries: Seq<BlockItem>) -> Set<Seq<char>> {
    Set::new(|name: Seq<char>| has_field(entries, name))
}

/// What `declaration` reports of `block`.
pub open spec fn declaration_diags(
    block: Block,
    localization: Set<Seq<char>>,
    declaration: Declaration,
) -> Seq<DiagnosticView> {
    let entries = block.v@;
    match declaration {
        Declaration::Required { name } => if has_field(entries, name) {
            Seq::empty()
        } else {
            seq![error_view(ErrorKey::MissingField, msg_missing(name), block.loc)]
        },
        Declaration::Field { name, mode, check } => field_diags(
            entries,
            name,
            mode,
            check,
            localization,
        ),
        Declaration::Advice { name, msg } => {
            let i = last_field(entries, name, Shape::Any, entries.len() as int);
            if i >= 0 {
                seq![advice_view(ErrorKey::Unneeded, msg, entries[i].key->0.loc)]
            } else {
                Seq::empty()
            }
        },
        Declaration::Integers { expect } => loose_integer_diags(entries, entries.len() as int) + if
            loose_integer_count(entries, entries.len() as int) == expect {
            Seq::empty()
        } else {
            seq![error_view(ErrorKey::WrongCount, msg_count(expect), block.loc)]
        },
        Declaration::LooseBlocks => Seq::empty(),
        Declaration::Validated { name, mode, found } => declared_diags(
            entries,
            name,
            mode,
            found_outs(entries, found),
            entries.len() as int,
        ),
        Declaration::ValidatedBlocks { name, mode, inside } => declared_diags(
            entries,
            name,
            mode,
            block_outs(entries, inside),
            entries.len() as int,
        ),
        Declaration::Rest => Seq::empty(),
    }
}

/// The state of a validator as a mathematical value.
pub struct ValidatorView {
    /// The block under validation.
    pub block: Block,
    /// The localization keys that are defined.
    pub localization: Set<Seq<char>>,
    /// The names of the fields declared so far.
    pub claimed: Set<Seq<char>>,
    /// Whether loose scalars are expected.
    pub accepts_tokens: bool,
    /// Whether loose blocks are expected.
    pub accepts_blocks: bool,
    /// What has been reported so far, in order.
    pub reported: Seq<DiagnosticView>,
}

impl ValidatorView {
    /// The entries of the block under validation.
    pub open spec fn entries(self) -> Seq<BlockItem> {
        self.block.v@
    }

    /// The state after the field `name` was declared and `diags` reported.
    pub open spec fn declared(self, name: Seq<char>, diags: Seq<DiagnosticView>) -> ValidatorView {
        ValidatorView {
            claimed: self.claimed.insert(name),
            reported: self.reported + diags,
            ..self
        }
    }

    /// The state after `diags` was reported.
    pub open spec fn reporting(self, diags: Seq<DiagnosticView>) -> ValidatorView {
        ValidatorView { reported: self.reported + diags, ..self }
    }
    /// The state after `declaration`.
    pub open spec fn after(self, declaration: Declaration) -> ValidatorView {
        let diags = declaration_diags(self.block, self.localization, declaration);
        match declaration {
            Declaration::Required { name } => self.declared(name, diags),
            Declaration::Field { name, mode, check } => self.declared(name, diags),
            Declaration::Advice { name, msg } => self.declared(name, diags),
            Declaration::Integers { expect } => ValidatorView {
                accepts_tokens: true,
                ..self.reporting(diags)
            },
            Declaration::LooseBlocks => ValidatorView { accepts_blocks: true, ..self },
            Declaration::Validated { name, mode, found } => self.declared(name, diags),
            Declaration::ValidatedBlocks { name, mode, inside } => self.declared(name, diags),
            Declaration::Rest => ValidatorView {
                claimed: self.claimed.union(all_keys(self.entries())),
                ..self
            },
        }
    }

    /// The state after each of `declarations`, in order.
    pub open spec fn after_all(self, declarations: Seq<Declaration>) -> ValidatorView
        decreases declarations.len(),
    {
        if declarations.len() == 0 {
            self
        } else {
            self.after_all(declarations.drop_last()).after(declarations.last())
        }
    }

    /// What the final sweep adds: a report for every key that was never
    /// declared and for every loose scalar or block that is not expected.
    pub open spec fn swept(self) -> Seq<DiagnosticView> {
        sweep_diags(
            self.entries(),
            self.claimed,
            self.accepts_tokens,
            self.accepts_blocks,
            self.entries().len() as int,
        )
    }

    /// Everything that validation reports, the final sweep included.
    pub open spec fn finished(self) -> Seq<DiagnosticView> {
        self.reported + self.swept()
    }
}

/// The state of a validator of `block` that has heard no declaration.
pub open spec fn fresh(block: Block, localization: Set<Seq<char>>) -> ValidatorView {
    ValidatorView {
        block,
        localization,
        claimed: Set::empty(),
        accepts_tokens: false,
        accepts_blocks: false,
        reported: Seq::empty(),
    }
}

/// Checks a block against the declarations of its caller.
///
/// The caller declares each field that the block may have; what does not
/// fit a declaration is noted at once, and nothing stops the validation.
/// The reports are handed out at the end only, and only in one of two
/// ways: by `warn_remaining`, which first reports every entry that no
/// declaration covers, or by `skip_remaining`, which says in so many words
/// that the entries that are left are seen to elsewhere.
pub struct Validator<'a> {
    // The block being validated
    block: &'a Block,
    // The registries of everything that was loaded
    data: &'a Everything,
    // Fields that have been declared so far
    known_fields: Vec<String>,
    // Whether loose tokens are expected
    accepted_tokens: bool,
    // Whether subblocks are expected
    accepted_blocks: bool,
    // What was found so far
    reports: Vec<Diagnostic>,
}

impl<'a> View for Validator<'a> {
    type V = ValidatorView;

    closed spec fn view(&self) -> ValidatorView {
        ValidatorView {
            block: *self.block,
            localization: self.data.localization@,
            claimed: name_set(self.known_fields@),
            accepts_tokens: self.accepted_tokens,
            accepts_blocks: self.accepted_blocks,
            reported: views(self.reports@),
        }
    }
}

fn text3(a: &str, b: &str, c: &str) -> (r: String)
    ensures
        r@ == a@ + b@ + c@,
{
    let mut m = String::from_str(a);
    m.append(b);
    m.append(c);
    m
}

fn text5(a: &str, b: &str, c: &str, d: &str, e: &str) -> (r: String)
    ensures
        r@ == a@ + b@ + c@ + d@ + e@,
{
    let mut m = String::from_str(a);
    m.append(b);
    m.append(c);
    m.append(d);
    m.append(e);
    m
}

fn found_block(b: &Block) -> (d: Diagnostic)
    ensures
        d@ == expected_value(*b),
{
    Diagnostic::error(ErrorKey::TypeMismatch, "expected value, found block", b.loc)
}

fn found_value(t: &Token) -> (d: Diagnostic)
    ensures
        d@ == expected_block(*t),
{
    Diagnostic::error(ErrorKey::TypeMismatch, "expected block, found value", t.loc)
}

fn one(d: Diagnostic) -> (r: Vec<Diagnostic>)
    ensures
        views(r@) == seq![d@],
{
    let mut r: Vec<Diagnostic> = Vec::new();
    r.push(d);
    assert(views(r@) =~= seq![d@]);
    r
}

fn nothing() -> (r: Vec<Diagnostic>)
    ensures
        views(r@) == Seq::<DiagnosticView>::empty(),
{
    let r: Vec<Diagnostic> = Vec::new();
    assert(views(r@) =~= Seq::<DiagnosticView>::empty());
    r
}

fn push_report(reports: &mut Vec<Diagnostic>, d: Diagnostic)
    ensures
        views(final(reports)@) == views(old(reports)@).push(d@),
{
    proof {
        lemma_views_push(reports@, d);
    }
    reports.push(d);
}


fn in_choices(choices: &[&str], word: &str) -> (r: bool)
    ensures
        r == words(choices@).contains(word@),
{
    let mut i: usize = 0;
    while i < choices.len()
        invariant
            i <= choices.len(),
            forall|j: int| 0 <= j < i ==> words(choices@)[j] != word@,
        decreases choices.len() - i,
    {
        if str_eq(choices[i], word) {
            assert(words(choices@)[i as int] == word@);
            return true;
        }
        i = i + 1;
    }
    false
}

fn choices_text(choices: &[&str]) -> (r: String)
    ensures
        r@ == msg_choices(words(choices@)),
{
    let mut m = String::from_str("expected one of ");
    let mut i: usize = 0;
    while i < choices.len()
        invariant
            i <= choices.len(),
            m@ == "expected one of "@ + joined(words(choices@), i as int),
        decreases choices.len() - i,
    {
        let ghost before = m@;
        if i > 0 {
            m.append(", ");
        }
        m.append(choices[i]);
        proof {
            let names = words(choices@);
            assert(names[i as int] == choices@[i as int]@);
            if i == 0 {
                assert(joined(names, 0) =~= Seq::<char>::empty());
                assert(m@ =~= "expected one of "@ + joined(names, 1));
            } else {
                assert(m@ =~= "expected one of "@ + joined(names, i + 1));
            }
        }
        i = i + 1;
    }
    m
}

fn check_token(check: &Check, t: &Token, data: &Everything) -> (r: Vec<Diagnostic>)
    ensures
        views(r@) == token_diags(check@, *t, data.localization@),
{
    match check {
        Check::Any => nothing(),
        Check::Value => nothing(),
        Check::Block => one(found_value(t)),
        Check::List => one(found_value(t)),
        Check::Bool => {
            if t.is("yes") || t.is("no") {
                nothing()
            } else {
                one(Diagnostic::error(ErrorKey::InvalidChoice, "expected yes or no", t.loc))
            }
        },
        Check::Integer => {
            if parses_as_integer(t.as_str()) {
                nothing()
            } else {
                one(Diagnostic::error(ErrorKey::NotAnInteger, "expected integer", t.loc))
            }
        },
        Check::Number => {
            if parses_as_number(t.as_str()) {
                nothing()
            } else {
                one(Diagnostic::error(ErrorKey::NotANumber, "expected number", t.loc))
            }
        },
        Check::Choice(choices) => {
            if in_choices(choices, t.as_str()) {
                nothing()
            } else {
                let msg = choices_text(choices);
                one(Diagnostic::error(ErrorKey::InvalidChoice, msg.as_str(), t.loc))
            }
        },
        Check::Loca => {
            if data.localization.contains(t.as_str()) {
                nothing()
            } else {
                let msg = text3("missing localization for `", t.as_str(), "`");
                one(Diagnostic::warning(ErrorKey::MissingLocalization, msg.as_str(), t.loc))
            }
        },
    }
}

fn check_list(b: &Block) -> (r: Vec<Diagnostic>)
    ensures
        views(r@) == list_diags(b.v@, b.v@.len() as int),
{
    let mut out = nothing();
    let mut i: usize = 0;
    while i < b.v.len()
        invariant
            i <= b.v.len(),
            views(out@) == list_diags(b.v@, i as int),
        decreases b.v.len() - i,
    {
        let item = &b.v[i];
        let ghost before = views(out@);
        match &item.key {
            Some(k) => {
                let msg = text3("found key `", k.as_str(), "`, expected only values");
                push_report(
                    &mut out,
                    Diagnostic::warning(ErrorKey::MisplacedKey, msg.as_str(), k.loc),
                );
            },
            None => {},
        }
        match &item.value {
            BV::Value(_) => {},
            BV::Block(inner) => {
                push_report(&mut out, found_block(inner));
            },
        }
        assert(views(out@) =~= list_diags(b.v@, i + 1));
        i = i + 1;
    }
    out
}

fn check_value(check: &Check, value: &BV, data: &Everything) -> (r: Vec<Diagnostic>)
    ensures
        views(r@) == value_diags(check@, *value, data.localization@),
{
    match value {
        BV::Value(t) => check_token(check, t, data),
        BV::Block(b) => match check {
            Check::Any => nothing(),
            Check::Block => nothing(),
            Check::List => check_list(b),
            _ => one(found_block(b)),
        },
    }
}

/// Walks the entries with the key `name`, reporting what the declaration
/// `mode` asks for and what `f` finds in each value. Returns the reports,
/// whether the key occurs, and what `f` returned for each entry.
fn scan<F: Fn(&BV) -> Vec<Diagnostic>>(block: &Block, name: &str, mode: Mode, f: F) -> (r: (
    Vec<Diagnostic>,
    bool,
    Ghost<Seq<Vec<Diagnostic>>>,
))
    requires
        handles(f, block.v@, name@),
    ensures
        handled(f, block.v@, name@, r.2@),
        views(r.0@) == declared_diags(
            block.v@,
            name@,
            mode,
            out_views(r.2@),
            block.v@.len() as int,
        ),
        r.1 == has_field(block.v@, name@),
{
    let ghost entries = block.v@;
    let ghost mut outs: Seq<Vec<Diagnostic>> = Seq::empty();
    let mut out = nothing();
    let mut found = false;
    let mut last_vanilla: Option<Loc> = None;
    let mut last_mod: Option<Loc> = None;
    let mut i: usize = 0;
    while i < block.v.len()
        invariant
            i <= block.v.len(),
            entries == block.v@,
            handles(f, entries, name@),
            outs.len() == i,
            forall|j: int|
                0 <= j < i && (#[trigger] entries[j]).has_key(name@) ==> call_ensures(
                    f,
                    (&entries[j].value,),
                    outs[j],
                ),
            views(out@) == declared_diags(entries, name@, mode, out_views(outs), i as int),
            found == (exists|j: int| 0 <= j < i && (#[trigger] entries[j]).has_key(name@)),
            last_vanilla == previous_of_kind(entries, name@, FileKind::Vanilla, i as int),
            last_mod == previous_of_kind(entries, name@, FileKind::Mod, i as int),
        decreases block.v.len() - i,
    {
        let item = &block.v[i];
        let ghost before = outs;
        let ghost reported = views(out@);
        match &item.key {
            Some(key) => {
                if key.is(name) {
                    assert(entries[i as int].has_key(name@));
                    let previous = match key.loc.kind {
                        FileKind::Vanilla => last_vanilla,
                        FileKind::Mod => last_mod,
                    };
                    if mode.single {
                        match previous {
                            Some(other) => {
                                let msg = text3(
                                    "multiple definitions of `",
                                    key.as_str(),
                                    "`, expected only one.",
                                );
                                push_report(
                                    &mut out,
                                    Diagnostic::warning(
                                        ErrorKey::DuplicateField,
                                        msg.as_str(),
                                        key.loc,
                                    ).with_related(other),
                                );
                            },
                            None => {},
                        }
                    }
                    match key.loc.kind {
                        FileKind::Vanilla => {
                            last_vanilla = Some(key.loc);
                        },
                        FileKind::Mod => {
                            last_mod = Some(key.loc);
                        },
                    }
                    if !mode.any_comparator {
                        match item.comparator {
                            Comparator::Eq => {},
                            _ => {
                                let msg = text5(
                                    "expected `",
                                    key.as_str(),
                                    " =`, found `",
                                    item.comparator.symbol(),
                                    "`",
                                );
                                push_report(
                                    &mut out,
                                    Diagnostic::error(
                                        ErrorKey::WrongComparator,
                                        msg.as_str(),
                                        key.loc,
                                    ),
                                );
                            },
                        }
                    }
                    let result = f(&item.value);
                    proof {
                        outs = outs.push(result);
                        crate::report::lemma_views_add(out@, result@);
                    }
                    let mut result = result;
                    out.append(&mut result);
                    found = true;
                } else {
                    proof {
                        outs = outs.push(arbitrary());
                    }
                }
            },
            None => {
                proof {
                    outs = outs.push(arbitrary());
                }
            },
        }
        proof {
            lemma_declared_diags_agree(
                entries,
                name@,
                mode,
                out_views(before),
                out_views(outs),
                i as int,
            );
            assert(out_views(outs)[i as int] == views(outs[i as int]@));
            assert(views(out@) =~= reported + occurrence_diags(
                entries,
                name@,
                mode,
                i as int,
                out_views(outs)[i as int],
            ));
        }
        i = i + 1;
    }
    (out, found, Ghost(outs))
}


/// A field that may occur once, written with `=`.
pub open spec fn once() -> Mode {
    Mode { single: true, any_comparator: false }
}

/// A field that may occur any number of times, written with `=`.
pub open spec fn many() -> Mode {
    Mode { single: false, any_comparator: false }
}

impl<'a> Validator<'a> {
    /// A validator for `block` that has heard no declaration yet.
    pub fn new(block: &'a Block, data: &'a Everything) -> (vd: Self)
        ensures
            vd@ == fresh(*block, data.localization@),
    {
        let vd = Validator {
            block,
            data,
            known_fields: Vec::new(),
            accepted_tokens: false,
            accepted_blocks: false,
            reports: Vec::new(),
        };
        assert(vd@.claimed =~= Set::<Seq<char>>::empty());
        assert(vd@.reported =~= Seq::<DiagnosticView>::empty());
        vd
    }

    /// Notes that `name` was declared and adds `diags` to the reports.
    fn record(&mut self, name: &str, diags: Vec<Diagnostic>)
        ensures
            final(self)@ == old(self)@.declared(name@, views(diags@)),
            final(self).block == old(self).block,
            final(self).data == old(self).data,
    {
        let owned = String::from_str(name);
        proof {
            lemma_name_set_push(self.known_fields@, owned);
        }
        self.known_fields.push(owned);
        append_reports(&mut self.reports, diags);
    }

    /// Adds to the reports what the caller found by other means.
    pub fn report(&mut self, diags: Vec<Diagnostic>)
        ensures
            final(self)@ == old(self)@.reporting(views(diags@)),
    {
        append_reports(&mut self.reports, diags);
    }

    /// Whether `name` has been declared.
    fn is_known(&self, name: &str) -> (r: bool)
        ensures
            r == self@.claimed.contains(name@),
    {
        let mut i: usize = 0;
        while i < self.known_fields.len()
            invariant
                i <= self.known_fields.len(),
                !listed(self.known_fields@, name@, i as int),
            decreases self.known_fields.len() - i,
        {
            if str_eq(self.known_fields[i].as_str(), name) {
                assert(self.known_fields@[i as int]@ == name@);
                return true;
            }
            i = i + 1;
        }
        false
    }

    /// Declares the field `name`, whose values are held to `check`.
    fn declare(&mut self, name: &str, mode: Mode, check: Check) -> (found: bool)
        ensures
            final(self)@ == old(self)@.declared(
                name@,
                field_diags(old(self)@.entries(), name@, mode, check@, old(self)@.localization),
            ),
            found == has_field(old(self)@.entries(), name@),
            final(self).block == old(self).block,
            final(self).data == old(self).data,
    {
        let block = self.block;
        let data = self.data;
        let f = |v: &BV| -> (r: Vec<Diagnostic>)
            ensures
                views(r@) == value_diags(check@, *v, data.localization@),
            { check_value(&check, v, data) };
        let (diags, found, Ghost(outs)) = scan(block, name, mode, f);
        proof {
            let entries = block.v@;
            let expected = checked_outs(entries, check@, data.localization@);
            assert forall|i: int|
                0 <= i < entries.len() && (#[trigger] entries[i]).has_key(name@) implies out_views(
                outs,
            )[i] == expected[i] by {
                assert(call_ensures(f, (&entries[i].value,), outs[i]));
            }
            lemma_declared_diags_agree(
                entries,
                name@,
                mode,
                out_views(outs),
                expected,
                entries.len() as int,
            );
        }
        self.record(name, diags);
        found
    }

    /// The field `name` must be there: reports it where it is missing.
    /// Returns whether it is there.
    pub fn req_field(&mut self, name: &str) -> (found: bool)
        ensures
            found == has_field(old(self)@.entries(), name@),
            final(self)@ == old(self)@.after(Declaration::Required { name: name@ }),
    {
        let block = self.block;
        let found = block.get_key(name).is_some();
        proof {
            let entries = block.v@;
            crate::block::lemma_last_field(entries, name@, Shape::Any, entries.len() as int);
            let last = last_field(entries, name@, Shape::Any, entries.len() as int);
            if last >= 0 {
                assert(entries[last].has_key(name@));
            }
        }
        let diags = if found {
            nothing()
        } else {
            let msg = text3("required field `", name, "` missing");
            one(Diagnostic::error(ErrorKey::MissingField, msg.as_str(), block.loc))
        };
        self.record(name, diags);
        found
    }

    /// Declares a field that may occur once and has `f` look at its value.
    /// Returns whether the field is there.
    pub fn field_check<F: Fn(&BV) -> Vec<Diagnostic>>(&mut self, name: &str, f: F) -> (found: bool)
        requires
            handles(f, old(self)@.entries(), name@),
        ensures
            found == has_field(old(self)@.entries(), name@),
            exists|outs: Seq<Vec<Diagnostic>>|
                #[trigger] handled(f, old(self)@.entries(), name@, outs) && final(self)@ == old(
                    self,
                )@.declared(
                    name@,
                    declared_diags(
                        old(self)@.entries(),
                        name@,
                        once(),
                        out_views(outs),
                        old(self)@.entries().len() as int,
                    ),
                ),
    {
        let block = self.block;
        let (diags, found, Ghost(outs)) = scan(
            block,
            name,
            Mode { single: true, any_comparator: false },
            f,
        );
        self.record(name, diags);
        assert(handled(f, old(self)@.entries(), name@, outs));
        found
    }

    /// Declares a field that may occur once, with any value. Returns the
    /// value of its last occurrence.
    pub fn field(&mut self, name: &str) -> (r: Option<&'a BV>)
        ensures
            final(self)@ == old(self)@.after(
                Declaration::Field { name: name@, mode: once(), check: CheckView::Any },
            ),
            ({
                let entries = old(self)@.entries();
                let i = last_field(entries, name@, Shape::Any, entries.len() as int);
                r == if i >= 0 {
                    Some(&entries[i].value)
                } else {
                    None
                }
            }),
    {
        let block = self.block;
        self.declare(name, Mode { single: true, any_comparator: false }, Check::Any);
        block.get_field(name)
    }

    /// Declares a field that may occur once, with any value and any
    /// comparator. Returns the value of its last occurrence.
    pub fn field_any_comparator(&mut self, name: &str) -> (r: Option<&'a BV>)
        ensures
            final(self)@ == old(self)@.after(
                Declaration::Field { name: name@, mode: (Mode { single: true, any_comparator: true }), check: CheckView::Any },
            ),
            ({
                let entries = old(self)@.entries();
                let i = last_field(entries, name@, Shape::Any, entries.len() as int);
                r == if i >= 0 {
                    Some(&entries[i].value)
                } else {
                    None
                }
            }),
    {
        let block = self.block;
        self.declare(name, Mode { single: true, any_comparator: true }, Check::Any);
        block.get_field(name)
    }

    /// Declares a field that may occur once and holds a scalar. Returns
    /// the last scalar given for it.
    pub fn field_value(&mut self, name: &str) -> (r: Option<&'a Token>)
        ensures
            final(self)@ == old(self)@.after(
                Declaration::Field { name: name@, mode: once(), check: CheckView::Value },
            ),
            ({
                let entries = old(self)@.entries();
                let i = last_field(entries, name@, Shape::Value, entries.len() as int);
                r == if i >= 0 {
                    Some(&entries[i].value->Value_0)
                } else {
                    None
                }
            }),
    {
        let block = self.block;
        self.declare(name, Mode { single: true, any_comparator: false }, Check::Value);
        block.get_field_value(name)
    }

    /// Declares a field that may occur once and holds a localization key.
    pub fn field_value_loca(&mut self, name: &str)
        ensures
            final(self)@ == old(self)@.after(
                Declaration::Field { name: name@, mode: once(), check: CheckView::Loca },
            ),
    {
        self.declare(name, Mode { single: true, any_comparator: false }, Check::Loca);
    }

    /// Declares a field that may occur once and holds a block. Returns
    /// whether the field is there.
    pub fn field_block(&mut self, name: &str) -> (found: bool)
        ensures
            found == has_field(old(self)@.entries(), name@),
            final(self)@ == old(self)@.after(
                Declaration::Field { name: name@, mode: once(), check: CheckView::Block },
            ),
    {
        self.declare(name, Mode { single: true, any_comparator: false }, Check::Block)
    }

    /// Declares a field that may occur once and holds `yes` or `no`.
    /// Returns whether the field is there.
    pub fn field_bool(&mut self, name: &str) -> (found: bool)
        ensures
            found == has_field(old(self)@.entries(), name@),
            final(self)@ == old(self)@.after(
                Declaration::Field { name: name@, mode: once(), check: CheckView::Bool },
            ),
    {
        self.declare(name, Mode { single: true, any_comparator: false }, Check::Bool)
    }

    /// Declares a field that may occur once and holds an integer. Returns
    /// whether the field is there.
    pub fn field_integer(&mut self, name: &str) -> (found: bool)
        ensures
            found == has_field(old(self)@.entries(), name@),
            final(self)@ == old(self)@.after(
                Declaration::Field { name: name@, mode: once(), check: CheckView::Integer },
            ),
    {
        self.declare(name, Mode { single: true, any_comparator: false }, Check::Integer)
    }

    /// Declares a field that may occur once and holds a number, written as
    /// the standard library reads a floating-point number. Returns whether
    /// the field is there.
    pub fn field_float(&mut self, name: &str) -> (found: bool)
        ensures
            found == has_field(old(self)@.entries(), name@),
            final(self)@ == old(self)@.after(
                Declaration::Field { name: name@, mode: once(), check: CheckView::Number },
            ),
    {
        self.declare(name, Mode { single: true, any_comparator: false }, Check::Number)
    }

    /// Declares a field that may occur once and holds a number, whole or
    /// not, written as the standard library reads a floating-point number.
    /// Returns whether the field is there.
    pub fn field_numeric(&mut self, name: &str) -> (found: bool)
        ensures
            found == has_field(old(self)@.entries(), name@),
            final(self)@ == old(self)@.after(
                Declaration::Field { name: name@, mode: once(), check: CheckView::Number },
            ),
    {
        self.declare(name, Mode { single: true, any_comparator: false }, Check::Number)
    }

    /// Declares a field that may occur once and holds one of `choices`.
    /// Returns whether the field is there.
    pub fn field_choice(&mut self, name: &str, choices: &[&str]) -> (found: bool)
        ensures
            found == has_field(old(self)@.entries(), name@),
            final(self)@ == old(self)@.after(
                Declaration::Field { name: name@, mode: once(), check: CheckView::Choice(words(choices@)) },
            ),
    {
        self.declare(name, Mode { single: true, any_comparator: false }, Check::Choice(choices))
    }

    /// Declares a field that may occur once and holds a block of loose
    /// scalars. Returns whether the field is there.
    pub fn field_list(&mut self, name: &str) -> (found: bool)
        ensures
            found == has_field(old(self)@.entries(), name@),
            final(self)@ == old(self)@.after(
                Declaration::Field { name: name@, mode: once(), check: CheckView::List },
            ),
    {
        self.declare(name, Mode { single: true, any_comparator: false }, Check::List)
    }

    /// Declares a field that may occur any number of times and holds a
    /// block of loose scalars each time. Returns the scalars, in order.
    pub fn field_values(&mut self, name: &str) -> (r: Vec<Token>)
        ensures
            r@ == listed_values(old(self)@.entries(), name@, old(self)@.entries().len() as int),
            final(self)@ == old(self)@.after(
                Declaration::Field { name: name@, mode: many(), check: CheckView::List },
            ),
    {
        let block = self.block;
        self.declare(name, Mode { single: false, any_comparator: false }, Check::List);
        block.get_listed_values(name)
    }

    /// Declares a field that may occur any number of times, with any
    /// value. Returns whether the field is there.
    pub fn fields(&mut self, name: &str) -> (found: bool)
        ensures
            found == has_field(old(self)@.entries(), name@),
            final(self)@ == old(self)@.after(
                Declaration::Field { name: name@, mode: many(), check: CheckView::Any },
            ),
    {
        self.declare(name, Mode { single: false, any_comparator: false }, Check::Any)
    }

    /// Declares a field that may occur any number of times and holds a
    /// block each time. Returns whether the field is there.
    pub fn field_blocks(&mut self, name: &str) -> (found: bool)
        ensures
            found == has_field(old(self)@.entries(), name@),
            final(self)@ == old(self)@.after(
                Declaration::Field { name: name@, mode: many(), check: CheckView::Block },
            ),
    {
        self.declare(name, Mode { single: false, any_comparator: false }, Check::Block)
    }

    /// Declares a field that may occur any number of times and has `f` look
    /// at each value. Returns whether the field is there.
    pub fn field_validated<F: Fn(&BV) -> Vec<Diagnostic>>(&mut self, name: &str, f: F) -> (found:
        bool)
        requires
            handles(f, old(self)@.entries(), name@),
        ensures
            found == has_field(old(self)@.entries(), name@),
            exists|outs: Seq<Vec<Diagnostic>>|
                #[trigger] handled(f, old(self)@.entries(), name@, outs) && final(self)@ == old(
                    self,
                )@.declared(
                    name@,
                    declared_diags(
                        old(self)@.entries(),
                        name@,
                        many(),
                        out_views(outs),
                        old(self)@.entries().len() as int,
                    ),
                ),
    {
        let block = self.block;
        let (diags, found, Ghost(outs)) = scan(
            block,
            name,
            Mode { single: false, any_comparator: false },
            f,
        );
        self.record(name, diags);
        assert(handled(f, old(self)@.entries(), name@, outs));
        found
    }
}


/// `f` may be called on each block given for the key `name`.
pub open spec fn handles_blocks<F: Fn(&Block) -> Vec<Diagnostic>>(
    f: F,
    entries: Seq<BlockItem>,
    name: Seq<char>,
) -> bool {
    forall|i: int|
        0 <= i < entries.len() && (#[trigger] entries[i]).has_key(name) && entries[i].value is Block
            ==> call_requires(f, (&entries[i].value->Block_0,))
}

/// For each entry with the key `name`, `outs[i]` is a result of `f` on its
/// block, or the report that a scalar stands where a block is expected.
pub open spec fn handled_blocks<F: Fn(&Block) -> Vec<Diagnostic>>(
    f: F,
    entries: Seq<BlockItem>,
    name: Seq<char>,
    outs: Seq<Vec<Diagnostic>>,
) -> bool {
    &&& outs.len() == entries.len()
    &&& forall|i: int|
        0 <= i < entries.len() && (#[trigger] entries[i]).has_key(name) ==> match entries[i].value {
            BV::Value(t) => views(outs[i]@) == seq![expected_block(t)],
            BV::Block(b) => call_ensures(f, (&b,), outs[i]),
        }
}

/// Whether the entry is keyed by a calendar date.
pub open spec fn is_history_entry(item: BlockItem) -> bool {
    item.key matches Some(k) && is_date(k.s@)
}

/// What entry `i` reports as part of a history, where `out` is what was
/// found in its block.
pub open spec fn history_occurrence(entries: Seq<BlockItem>, i: int, out: Seq<DiagnosticView>) -> Seq<
    DiagnosticView,
> {
    if is_history_entry(entries[i]) {
        comparator_diags(entries[i].key->0, entries[i].comparator) + match entries[i].value {
            BV::Value(t) => seq![expected_block(t)],
            BV::Block(_) => out,
        }
    } else {
        Seq::empty()
    }
}

/// What the date-keyed entries among the first `n` report.
pub open spec fn history_diags(entries: Seq<BlockItem>, outs: Seq<Seq<DiagnosticView>>, n: int) -> Seq<
    DiagnosticView,
>
    decreases n,
{
    if n <= 0 {
        Seq::empty()
    } else {
        history_diags(entries, outs, n - 1) + history_occurrence(entries, n - 1, outs[n - 1])
    }
}

/// The keys among the first `n` entries that are calendar dates.
pub open spec fn history_keys(entries: Seq<BlockItem>, n: int) -> Set<Seq<char>> {
    Set::new(
        |name: Seq<char>|
            exists|i: int|
                0 <= i < n && i < entries.len() && is_date(name) && (#[trigger] entries[i]).has_key(
                    name,
                ),
    )
}

/// `f` may be called on each block that is keyed by a date.
pub open spec fn handles_history<F: Fn(&Token, &Block, &Block) -> Vec<Diagnostic>>(
    f: F,
    parent: Block,
) -> bool {
    forall|i: int|
        0 <= i < parent.v@.len() && is_history_entry(#[trigger] parent.v@[i])
            && parent.v@[i].value is Block ==> call_requires(
            f,
            (&parent.v@[i].key->0, &parent.v@[i].value->Block_0, &parent),
        )
}

/// `outs[i]` is a result of `f` on each block that is keyed by a date.
pub open spec fn handled_history<F: Fn(&Token, &Block, &Block) -> Vec<Diagnostic>>(
    f: F,
    parent: Block,
    outs: Seq<Vec<Diagnostic>>,
) -> bool {
    &&& outs.len() == parent.v@.len()
    &&& forall|i: int|
        0 <= i < parent.v@.len() && is_history_entry(#[trigger] parent.v@[i])
            && parent.v@[i].value is Block ==> call_ensures(
            f,
            (&parent.v@[i].key->0, &parent.v@[i].value->Block_0, &parent),
            outs[i],
        )
}

proof fn lemma_history_diags_agree(
    entries: Seq<BlockItem>,
    a: Seq<Seq<DiagnosticView>>,
    b: Seq<Seq<DiagnosticView>>,
    n: int,
)
    requires
        0 <= n <= entries.len(),
        forall|i: int| 0 <= i < n ==> a[i] == b[i],
    ensures
        history_diags(entries, a, n) == history_diags(entries, b, n),
    decreases n,
{
    if n > 0 {
        lemma_history_diags_agree(entries, a, b, n - 1);
    }
}

/// The number of loose scalars among the first `n` entries that are
/// integers.
pub open spec fn loose_integer_count(entries: Seq<BlockItem>, n: int) -> nat
    decreases n,
{
    if n <= 0 {
        0
    } else {
        let item = entries[n - 1];
        loose_integer_count(entries, n - 1) + if item.key is None && item.value is Value
            && is_integer(item.value->Value_0.s@) {
            1nat
        } else {
            0nat
        }
    }
}

/// One report for each loose scalar among the first `n` entries that is no
/// integer.
pub open spec fn loose_integer_diags(entries: Seq<BlockItem>, n: int) -> Seq<DiagnosticView>
    decreases n,
{
    if n <= 0 {
        Seq::empty()
    } else {
        let item = entries[n - 1];
        loose_integer_diags(entries, n - 1) + if item.key is None && item.value is Value
            && !is_integer(item.value->Value_0.s@) {
            seq![error_view(ErrorKey::NotAnInteger, "expected integer"@, item.value->Value_0.loc)]
        } else {
            Seq::empty()
        }
    }
}

/// What the final sweep reports of one entry: a key that was never
/// declared, or a loose scalar or block where none is expected.
pub open spec fn sweep_entry(
    item: BlockItem,
    claimed: Set<Seq<char>>,
    accepts_tokens: bool,
    accepts_blocks: bool,
) -> Seq<DiagnosticView> {
    match item.key {
        Some(k) => if claimed.contains(k.s@) {
            Seq::empty()
        } else {
            seq![warning_view(ErrorKey::UnknownField, msg_unknown_field(k.s@), k.loc)]
        },
        None => match item.value {
            BV::Value(t) => if accepts_tokens {
                Seq::empty()
            } else {
                seq![
                    warning_view(
                        ErrorKey::MisplacedValue,
                        "found loose value, expected only `key =`"@,
                        t.loc,
                    ),
                ]
            },
            BV::Block(b) => if accepts_blocks {
                Seq::empty()
            } else {
                seq![
                    warning_view(
                        ErrorKey::MisplacedBlock,
                        "found sub-block, expected only `key =`"@,
                        b.loc,
                    ),
                ]
            },
        },
    }
}

/// What the final sweep reports of the first `n` entries.
pub open spec fn sweep_diags(
    entries: Seq<BlockItem>,
    claimed: Set<Seq<char>>,
    accepts_tokens: bool,
    accepts_blocks: bool,
    n: int,
) -> Seq<DiagnosticView>
    decreases n,
{
    if n <= 0 {
        Seq::empty()
    } else {
        sweep_diags(entries, claimed, accepts_tokens, accepts_blocks, n - 1) + sweep_entry(
            entries[n - 1],
            claimed,
            accepts_tokens,
            accepts_blocks,
        )
    }
}

fn digit_text(d: usize) -> (r: &'static str)
    requires
        d < 10,
    ensures
        r@ == seq![(('0' as u8) + (d as u8)) as char],
{
    proof {
        reveal_strlit("0");
        reveal_strlit("1");
        reveal_strlit("2");
        reveal_strlit("3");
        reveal_strlit("4");
        reveal_strlit("5");
        reveal_strlit("6");
        reveal_strlit("7");
        reveal_strlit("8");
        reveal_strlit("9");
    }
    let r = if d == 0 {
        "0"
    } else if d == 1 {
        "1"
    } else if d == 2 {
        "2"
    } else if d == 3 {
        "3"
    } else if d == 4 {
        "4"
    } else if d == 5 {
        "5"
    } else if d == 6 {
        "6"
    } else if d == 7 {
        "7"
    } else if d == 8 {
        "8"
    } else {
        "9"
    };
    assert(r@ =~= seq![(('0' as u8) + (d as u8)) as char]);
    r
}

/// Appends the decimal digits of `n` to `out`.
fn push_decimal(out: &mut String, n: usize)
    ensures
        final(out)@ == old(out)@ + decimal_text(n as nat),
    decreases n,
{
    if n >= 10 {
        push_decimal(out, n / 10);
    }
    out.append(digit_text(n % 10));
    assert(out@ =~= old(out)@ + decimal_text(n as nat));
}

impl<'a> Validator<'a> {
    /// Declares a field that may occur any number of times and holds a
    /// block each time, and has `f` look at each block. Returns whether the
    /// field is there.
    pub fn field_validated_blocks<F: Fn(&Block) -> Vec<Diagnostic>>(
        &mut self,
        name: &str,
        f: F,
    ) -> (found: bool)
        requires
            handles_blocks(f, old(self)@.entries(), name@),
        ensures
            found == has_field(old(self)@.entries(), name@),
            exists|outs: Seq<Vec<Diagnostic>>|
                #[trigger] handled_blocks(f, old(self)@.entries(), name@, outs) && final(self)@
                    == old(self)@.declared(
                    name@,
                    declared_diags(
                        old(self)@.entries(),
                        name@,
                        many(),
                        out_views(outs),
                        old(self)@.entries().len() as int,
                    ),
                ),
    {
        self.declare_blocks(name, Mode { single: false, any_comparator: false }, f)
    }

    /// Declares a field that may occur once and holds a block, and has `f`
    /// look at the block. Returns whether the field is there.
    pub fn field_validated_block<F: Fn(&Block) -> Vec<Diagnostic>>(
        &mut self,
        name: &str,
        f: F,
    ) -> (found: bool)
        requires
            handles_blocks(f, old(self)@.entries(), name@),
        ensures
            found == has_field(old(self)@.entries(), name@),
            exists|outs: Seq<Vec<Diagnostic>>|
                #[trigger] handled_blocks(f, old(self)@.entries(), name@, outs) && final(self)@
                    == old(self)@.declared(
                    name@,
                    declared_diags(
                        old(self)@.entries(),
                        name@,
                        once(),
                        out_views(outs),
                        old(self)@.entries().len() as int,
                    ),
                ),
    {
        self.declare_blocks(name, Mode { single: true, any_comparator: false }, f)
    }

    fn declare_blocks<F: Fn(&Block) -> Vec<Diagnostic>>(
        &mut self,
        name: &str,
        mode: Mode,
        f: F,
    ) -> (found: bool)
        requires
            handles_blocks(f, old(self)@.entries(), name@),
        ensures
            found == has_field(old(self)@.entries(), name@),
            exists|outs: Seq<Vec<Diagnostic>>|
                #[trigger] handled_blocks(f, old(self)@.entries(), name@, outs) && final(self)@
                    == old(self)@.declared(
                    name@,
                    declared_diags(
                        old(self)@.entries(),
                        name@,
                        mode,
                        out_views(outs),
                        old(self)@.entries().len() as int,
                    ),
                ),
    {
        let block = self.block;
        let handler = &f;
        let g = |v: &BV| -> (r: Vec<Diagnostic>)
            requires
                v matches BV::Block(b) ==> call_requires(handler, (&b,)),
            ensures
                match *v {
                    BV::Value(t) => views(r@) == seq![expected_block(t)],
                    BV::Block(b) => call_ensures(handler, (&b,), r),
                },
            {
                match v {
                    BV::Value(t) => one(found_value(t)),
                    BV::Block(b) => handler(b),
                }
            };
        assert(handles(g, block.v@, name@)) by {
            assert forall|i: int|
                0 <= i < block.v@.len() && (#[trigger] block.v@[i]).has_key(
                    name@,
                ) implies call_requires(g, (&block.v@[i].value,)) by {
                if block.v@[i].value is Block {
                    assert(call_requires(f, (&block.v@[i].value->Block_0,)));
                }
            }
        }
        let (diags, found, Ghost(outs)) = scan(block, name, mode, g);
        self.record(name, diags);
        assert(handled_blocks(f, old(self)@.entries(), name@, outs)) by {
            let entries = block.v@;
            assert forall|i: int|
                0 <= i < entries.len() && (#[trigger] entries[i]).has_key(
                    name@,
                ) implies match entries[i].value {
                BV::Value(t) => views(outs[i]@) == seq![expected_block(t)],
                BV::Block(b) => call_ensures(f, (&b,), outs[i]),
            } by {
                assert(call_ensures(g, (&entries[i].value,), outs[i]));
            }
        }
        found
    }

    /// Expects loose scalars in the block, exactly `expect` of them
    /// integers: reports each that is no integer, and a wrong count.
    pub fn req_tokens_integers_exactly(&mut self, expect: usize)
        ensures
            final(self)@ == old(self)@.after(Declaration::Integers { expect: expect as nat }),
    {
        let block = self.block;
        self.accepted_tokens = true;
        let mut out = nothing();
        let mut found: usize = 0;
        let mut i: usize = 0;
        while i < block.v.len()
            invariant
                i <= block.v.len(),
                found == loose_integer_count(block.v@, i as int),
                found <= i,
                views(out@) == loose_integer_diags(block.v@, i as int),
            decreases block.v.len() - i,
        {
            let item = &block.v[i];
            if item.key.is_none() {
                match &item.value {
                    BV::Value(t) => {
                        if parses_as_integer(t.as_str()) {
                            found = found + 1;
                        } else {
                            push_report(
                                &mut out,
                                Diagnostic::error(ErrorKey::NotAnInteger, "expected integer", t.loc),
                            );
                        }
                    },
                    BV::Block(_) => {},
                }
            }
            assert(views(out@) =~= loose_integer_diags(block.v@, i + 1));
            i = i + 1;
        }
        if found != expect {
            let mut msg = String::from_str("expected ");
            push_decimal(&mut msg, expect);
            msg.append(" integers");
            push_report(&mut out, Diagnostic::error(ErrorKey::WrongCount, msg.as_str(), block.loc));
        }
        assert(views(out@) =~= loose_integer_diags(block.v@, block.v@.len() as int) + if found
            == expect {
            Seq::<DiagnosticView>::empty()
        } else {
            seq![error_view(ErrorKey::WrongCount, msg_count(expect as nat), block.loc)]
        });
        append_reports(&mut self.reports, out);
        assert(final(self)@.reported =~= old(self)@.reported + loose_integer_diags(
            block.v@,
            block.v@.len() as int,
        ) + if found == expect {
            Seq::<DiagnosticView>::empty()
        } else {
            seq![error_view(ErrorKey::WrongCount, msg_count(expect as nat), block.loc)]
        });
    }

    /// Expects loose blocks in the block.
    pub fn accept_blocks(&mut self)
        ensures
            final(self)@ == old(self)@.after(Declaration::LooseBlocks),
    {
        self.accepted_blocks = true;
    }

    /// Declares a field that is tolerated but not needed: where it is
    /// there, `msg` is given as advice at its last occurrence.
    pub fn advice_field(&mut self, name: &str, msg: &str)
        ensures
            final(self)@ == old(self)@.after(Declaration::Advice { name: name@, msg: msg@ }),
    {
        let block = self.block;
        let diags = match block.get_key(name) {
            Some(key) => one(Diagnostic::advice(ErrorKey::Unneeded, msg, key.loc)),
            None => nothing(),
        };
        self.record(name, diags);
    }

    /// The final sweep: reports every key that was never declared and
    /// every loose scalar or block that is not expected, and hands out all
    /// reports.
    pub fn warn_remaining(self) -> (r: Vec<Diagnostic>)
        ensures
            views(r@) == self@.finished(),
    {
        let block = self.block;
        let mut out = nothing();
        let mut i: usize = 0;
        while i < block.v.len()
            invariant
                i <= block.v.len(),
                block == self.block,
                views(out@) == sweep_diags(
                    block.v@,
                    self@.claimed,
                    self@.accepts_tokens,
                    self@.accepts_blocks,
                    i as int,
                ),
            decreases block.v.len() - i,
        {
            let item = &block.v[i];
            match &item.key {
                Some(key) => {
                    if !self.is_known(key.as_str()) {
                        let msg = text3("unknown field `", key.as_str(), "`");
                        push_report(
                            &mut out,
                            Diagnostic::warning(ErrorKey::UnknownField, msg.as_str(), key.loc),
                        );
                    }
                },
                None => match &item.value {
                    BV::Value(t) => {
                        if !self.accepted_tokens {
                            push_report(
                                &mut out,
                                Diagnostic::warning(
                                    ErrorKey::MisplacedValue,
                                    "found loose value, expected only `key =`",
                                    t.loc,
                                ),
                            );
                        }
                    },
                    BV::Block(b) => {
                        if !self.accepted_blocks {
                            push_report(
                                &mut out,
                                Diagnostic::warning(
                                    ErrorKey::MisplacedBlock,
                                    "found sub-block, expected only `key =`",
                                    b.loc,
                                ),
                            );
                        }
                    },
                },
            }
            assert(views(out@) =~= sweep_diags(
                block.v@,
                self@.claimed,
                self@.accepts_tokens,
                self@.accepts_blocks,
                i + 1,
            ));
            i = i + 1;
        }
        let mut reports = self.reports;
        append_reports(&mut reports, out);
        reports
    }

    /// Hands out the reports without the final sweep: for a block whose
    /// other entries are validated elsewhere.
    pub fn skip_remaining(self) -> (r: Vec<Diagnostic>)
        ensures
            views(r@) == self@.reported,
    {
        self.reports
    }
}


impl<'a> Validator<'a> {
    /// Declares every key that is a calendar date, as a field that holds a
    /// block, and has `f` look at the date, the block and the block under
    /// validation. Other keys are left for other declarations.
    pub fn validate_history_blocks<F: Fn(&Token, &Block, &Block) -> Vec<Diagnostic>>(
        &mut self,
        f: F,
    )
        requires
            handles_history(f, old(self)@.block),
        ensures
            exists|outs: Seq<Vec<Diagnostic>>|
                #[trigger] handled_history(f, old(self)@.block, outs) && final(self)@
                    == (ValidatorView {
                    claimed: old(self)@.claimed.union(
                        history_keys(old(self)@.entries(), old(self)@.entries().len() as int),
                    ),
                    reported: old(self)@.reported + history_diags(
                        old(self)@.entries(),
                        out_views(outs),
                        old(self)@.entries().len() as int,
                    ),
                    ..old(self)@
                }),
    {
        let block = self.block;
        let ghost entries = block.v@;
        let ghost mut outs: Seq<Vec<Diagnostic>> = Seq::empty();
        let mut keys: Vec<String> = Vec::new();
        let mut out = nothing();
        let mut i: usize = 0;
        assert(name_set(keys@) =~= history_keys(entries, 0));
        while i < block.v.len()
            invariant
                i <= block.v.len(),
                entries == block.v@,
                handles_history(f, *block),
                outs.len() == i,
                forall|j: int|
                    0 <= j < i && is_history_entry(#[trigger] entries[j]) && entries[j].value is Block
                        ==> call_ensures(
                        f,
                        (&entries[j].key->0, &entries[j].value->Block_0, block),
                        outs[j],
                    ),
                views(out@) == history_diags(entries, out_views(outs), i as int),
                name_set(keys@) == history_keys(entries, i as int),
            decreases block.v.len() - i,
        {
            let item = &block.v[i];
            let ghost before = outs;
            let ghost reported = views(out@);
            let ghost known = keys@;
            let mut dated = false;
            match &item.key {
                Some(key) => {
                    if parses_as_date(key.as_str()) {
                        dated = true;
                        assert(is_history_entry(entries[i as int]));
                        let owned = key.s.clone();
                        proof {
                            lemma_name_set_push(keys@, owned);
                        }
                        keys.push(owned);
                        match item.comparator {
                            Comparator::Eq => {},
                            _ => {
                                let msg = text5(
                                    "expected `",
                                    key.as_str(),
                                    " =`, found `",
                                    item.comparator.symbol(),
                                    "`",
                                );
                                push_report(
                                    &mut out,
                                    Diagnostic::error(
                                        ErrorKey::WrongComparator,
                                        msg.as_str(),
                                        key.loc,
                                    ),
                                );
                            },
                        }
                        match &item.value {
                            BV::Value(t) => {
                                push_report(&mut out, found_value(t));
                                proof {
                                    outs = outs.push(arbitrary());
                                }
                            },
                            BV::Block(b) => {
                                let result = f(key, b, block);
                                proof {
                                    outs = outs.push(result);
                                    crate::report::lemma_views_add(out@, result@);
                                }
                                let mut result = result;
                                out.append(&mut result);
                            },
                        }
                    }
                },
                None => {},
            }
            proof {
                if !dated {
                    outs = outs.push(arbitrary());
                }
                lemma_history_diags_agree(entries, out_views(before), out_views(outs), i as int);
                assert(out_views(outs)[i as int] == views(outs[i as int]@));
                assert(views(out@) =~= reported + history_occurrence(
                    entries,
                    i as int,
                    out_views(outs)[i as int],
                ));
                assert(name_set(keys@) =~= history_keys(entries, i + 1)) by {
                    assert forall|n: Seq<char>|
                        history_keys(entries, i + 1).contains(n) == (history_keys(
                            entries,
                            i as int,
                        ).contains(n) || (is_date(n) && entries[i as int].has_key(n))) by {
                        if history_keys(entries, i + 1).contains(n) {
                            let j = choose|j: int|
                                0 <= j < i + 1 && j < entries.len() && is_date(n) && (
                                #[trigger] entries[j]).has_key(n);
                            if j < i {
                                assert(history_keys(entries, i as int).contains(n));
                            }
                        }
                        if history_keys(entries, i as int).contains(n) {
                            let j = choose|j: int|
                                0 <= j < i && j < entries.len() && is_date(n) && (
                                #[trigger] entries[j]).has_key(n);
                            assert(entries[j].has_key(n));
                        }
                    }
                }
            }
            i = i + 1;
        }
        proof {
            lemma_name_set_add(self.known_fields@, keys@);
        }
        self.known_fields.append(&mut keys);
        append_reports(&mut self.reports, out);
        assert(handled_history(f, old(self)@.block, outs));
    }
}


/// The keyed entries among the first `n` whose key is not in `claimed`,
/// each as its key and its value.
pub open spec fn unclaimed(entries: Seq<BlockItem>, claimed: Set<Seq<char>>, n: int) -> Seq<
    (Token, BV),
>
    decreases n,
{
    if n <= 0 {
        Seq::empty()
    } else {
        let rest = unclaimed(entries, claimed, n - 1);
        match entries[n - 1].key {
            Some(k) => if claimed.contains(k.s@) {
                rest
            } else {
                rest.push((k, entries[n - 1].value))
            },
            None => rest,
        }
    }
}

/// The keys and values in `pairs`.
pub open spec fn pairs_view(pairs: Seq<(&Token, &BV)>) -> Seq<(Token, BV)> {
    Seq::new(pairs.len(), |i: int| (*pairs[i].0, *pairs[i].1))
}

impl BV {
    /// What it reports of a value that a block is expected: nothing of a
    /// block.
    pub open spec fn block_expected(self) -> Seq<DiagnosticView> {
        match self {
            BV::Value(t) => seq![expected_block(t)],
            BV::Block(_) => Seq::empty(),
        }
    }

    /// What it reports of a value that a scalar is expected: nothing of a
    /// scalar.
    pub open spec fn value_expected(self) -> Seq<DiagnosticView> {
        match self {
            BV::Value(_) => Seq::empty(),
            BV::Block(b) => seq![expected_value(b)],
        }
    }

    /// The block, where the value is one; else the report that it is none.
    pub fn expect_block(&self) -> (r: (Option<&Block>, Vec<Diagnostic>))
        ensures
            r.0 == match *self {
                BV::Value(_) => None,
                BV::Block(b) => Some(&b),
            },
            views(r.1@) == self.block_expected(),
    {
        match self {
            BV::Value(t) => (None, one(found_value(t))),
            BV::Block(b) => (Some(b), nothing()),
        }
    }

    /// The scalar, where the value is one; else the report that it is none.
    pub fn expect_value(&self) -> (r: (Option<&Token>, Vec<Diagnostic>))
        ensures
            r.0 == match *self {
                BV::Value(t) => Some(&t),
                BV::Block(_) => None,
            },
            views(r.1@) == self.value_expected(),
    {
        match self {
            BV::Value(t) => (Some(t), nothing()),
            BV::Block(b) => (None, one(found_block(b))),
        }
    }
}

impl<'a> Validator<'a> {
    /// As `field_validated`, or `field_check` where the field may occur
    /// once, for a handler of which it is known what it finds.
    pub(crate) fn field_validated_as<F: Fn(&BV) -> Vec<Diagnostic>>(
        &mut self,
        name: &str,
        single: bool,
        f: F,
        Ghost(found): Ghost<spec_fn(BV) -> Seq<DiagnosticView>>,
    ) -> (r: bool)
        requires
            forall|v: &BV| call_requires(f, (v,)),
            forall|v: &BV, out: Vec<Diagnostic>|
                call_ensures(f, (v,), out) ==> views(out@) == found(*v),
        ensures
            r == has_field(old(self)@.entries(), name@),
            final(self)@ == old(self)@.after(
                Declaration::Validated {
                    name: name@,
                    mode: (Mode { single, any_comparator: false }),
                    found,
                },
            ),
    {
        let block = self.block;
        let ghost entries = block.v@;
        let ghost mode = Mode { single, any_comparator: false };
        let (diags, r, Ghost(outs)) = scan(block, name, Mode { single, any_comparator: false }, f);
        self.record(name, diags);
        proof {
            lemma_declared_diags_agree(
                entries,
                name@,
                mode,
                out_views(outs),
                found_outs(entries, found),
                entries.len() as int,
            );
        }
        r
    }

    /// As `field_validated_blocks`, or `field_validated_block` where `mode`
    /// says that the field may occur once, for a handler of which it is
    /// known what it finds.
    pub(crate) fn field_validated_blocks_as<F: Fn(&Block) -> Vec<Diagnostic>>(
        &mut self,
        name: &str,
        single: bool,
        f: F,
        Ghost(found): Ghost<spec_fn(Block) -> Seq<DiagnosticView>>,
    ) -> (r: bool)
        requires
            forall|b: &Block| call_requires(f, (b,)),
            forall|b: &Block, out: Vec<Diagnostic>|
                call_ensures(f, (b,), out) ==> views(out@) == found(*b),
        ensures
            r == has_field(old(self)@.entries(), name@),
            final(self)@ == old(self)@.after(
                Declaration::ValidatedBlocks {
                    name: name@,
                    mode: (Mode { single, any_comparator: false }),
                    inside: found,
                },
            ),
    {
        let ghost entries = self@.entries();
        let ghost mode = Mode { single, any_comparator: false };
        let r = self.declare_blocks(name, Mode { single, any_comparator: false }, f);
        proof {
            let outs = choose|outs: Seq<Vec<Diagnostic>>|
                #[trigger] handled_blocks(f, entries, name@, outs) && final(self)@ == old(
                    self,
                )@.declared(
                    name@,
                    declared_diags(entries, name@, mode, out_views(outs), entries.len() as int),
                );
            assert forall|i: int|
                0 <= i < entries.len() && (#[trigger] entries[i]).has_key(name@) implies out_views(
                outs,
            )[i] == block_outs(entries, found)[i] by {
                match entries[i].value {
                    BV::Value(t) => {},
                    BV::Block(b) => {
                        assert(call_ensures(f, (&b,), outs[i]));
                    },
                }
            }
            lemma_declared_diags_agree(
                entries,
                name@,
                mode,
                out_views(outs),
                block_outs(entries, found),
                entries.len() as int,
            );
        }
        r
    }

    /// Declares every key of the block, and returns the entries whose keys
    /// had not been declared before, for the caller to see to.
    pub fn unknown_keys(&mut self) -> (r: Vec<(&'a Token, &'a BV)>)
        ensures
            final(self)@ == old(self)@.after(Declaration::Rest),
            pairs_view(r@) == unclaimed(
                old(self)@.entries(),
                old(self)@.claimed,
                old(self)@.entries().len() as int,
            ),
    {
        let block = self.block;
        let mut out: Vec<(&'a Token, &'a BV)> = Vec::new();
        let mut keys: Vec<String> = Vec::new();
        let mut i: usize = 0;
        assert(pairs_view(out@) =~= unclaimed(block.v@, self@.claimed, 0));
        while i < block.v.len()
            invariant
                i <= block.v.len(),
                block == self.block,
                pairs_view(out@) == unclaimed(block.v@, self@.claimed, i as int),
                forall|n: Seq<char>|
                    name_set(keys@).contains(n) <==> exists|j: int|
                        0 <= j < i && (#[trigger] block.v@[j]).has_key(n),
            decreases block.v.len() - i,
        {
            let item = &block.v[i];
            let ghost before = keys@;
            match &item.key {
                Some(key) => {
                    if !self.is_known(key.as_str()) {
                        out.push((key, &item.value));
                    }
                    let owned = key.s.clone();
                    proof {
                        lemma_name_set_push(keys@, owned);
                    }
                    keys.push(owned);
                },
                None => {},
            }
            assert(pairs_view(out@) =~= unclaimed(block.v@, self@.claimed, i + 1));
            assert forall|n: Seq<char>|
                name_set(keys@).contains(n) <==> exists|j: int|
                    0 <= j < i + 1 && (#[trigger] block.v@[j]).has_key(n) by {
                if name_set(before).contains(n) {
                    let j = choose|j: int| 0 <= j < i && (#[trigger] block.v@[j]).has_key(n);
                    assert(block.v@[j].has_key(n));
                }
                if exists|j: int| 0 <= j < i + 1 && (#[trigger] block.v@[j]).has_key(n) {
                    let j = choose|j: int| 0 <= j < i + 1 && (#[trigger] block.v@[j]).has_key(n);
                    if j < i {
                        assert(name_set(before).contains(n));
                    }
                }
                if block.v@[i as int].has_key(n) {
                }
            }
            i = i + 1;
        }
        proof {
            lemma_name_set_add(self.known_fields@, keys@);
            assert(name_set(keys@) =~= all_keys(block.v@));
        }
        self.known_fields.append(&mut keys);
        out
    }
}

} // verus!
