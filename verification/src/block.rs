//! The parsed form of a script file: blocks of `key = value` entries, loose
//! values and nested blocks.

use vstd::prelude::*;
use crate::report::{Diagnostic, DiagnosticView, ErrorKey, lemma_views_push, views, warning_view};
use crate::token::{Loc, Token};

pub mod laws;
pub mod validator;

verus! {

/// The operator between a key and its value.
#[derive(Clone, Copy, Debug, PartialEq, Eq, Hash, Structural)]
pub enum Comparator {
    /// `=`
    Eq,
    /// `>`
    Gt,
    /// `<`
    Lt,
    /// `>=`
    Ge,
    /// `<=`
    Le,
    /// `?=`
    QEq,
}

impl Comparator {
    pub open spec fn spec_symbol(self) -> Seq<char> {
        match self {
            Comparator::Eq => "="@,
            Comparator::Gt => ">"@,
            Comparator::Lt => "<"@,
            Comparator::Ge => ">="@,
            Comparator::Le => "<="@,
            Comparator::QEq => "?="@,
        }
    }

    /// The operator as it is written in script.
    pub fn symbol(self) -> (r: &'static str)
        ensures
            r@ == self.spec_symbol(),
    {
        match self {
            Comparator::Eq => "=",
            Comparator::Gt => ">",
            Comparator::Lt => "<",
            Comparator::Ge => ">=",
            Comparator::Le => "<=",
            Comparator::QEq => "?=",
        }
    }
}

/// What stands to the right of a key, or loose in a block.
#[derive(Debug, PartialEq, Eq)]
pub enum BV {
    Value(Token),
    Block(Block),
}

/// One entry of a block.
#[derive(Debug, PartialEq, Eq)]
pub struct BlockItem {
    pub key: Option<Token>,
    pub comparator: Comparator,
    pub value: BV,
}

/// An ordered sequence of entries, with the place where the block starts.
#[derive(Debug, PartialEq, Eq)]
pub struct Block {
    pub v: Vec<BlockItem>,
    pub loc: Loc,
}

/// The shape that a caller wants a value to have.
#[derive(Clone, Copy, Debug, PartialEq, Eq, Structural)]
pub enum Shape {
    Any,
    Value,
    Block,
}

impl BV {
    pub open spec fn has_shape(self, shape: Shape) -> bool {
        match shape {
            Shape::Any => true,
            Shape::Value => self is Value,
            Shape::Block => self is Block,
        }
    }

    pub open spec fn spec_loc(self) -> Loc {
        match self {
            BV::Value(t) => t.loc,
            BV::Block(b) => b.loc,
        }
    }

    /// The place of the token, or of the start of the block.
    pub fn loc(&self) -> (loc: Loc)
        ensures
            loc == self.spec_loc(),
    {
        match self {
            BV::Value(t) => t.loc,
            BV::Block(b) => b.loc,
        }
    }

    fn shaped(&self, shape: Shape) -> (r: bool)
        ensures
            r == self.has_shape(shape),
    {
        match shape {
            Shape::Any => true,
            Shape::Value => match self {
                BV::Value(_) => true,
                BV::Block(_) => false,
            },
            Shape::Block => match self {
                BV::Value(_) => false,
                BV::Block(_) => true,
            },
        }
    }
}

impl BlockItem {
    /// Whether the entry is written `name <comparator> ...`.
    pub open spec fn has_key(self, name: Seq<char>) -> bool {
        self.key matches Some(k) && k.s@ == name
    }

    /// Whether the entry is written `name <comparator> ...`.
    pub fn key_is(&self, name: &str) -> (r: bool)
        ensures
            r == self.has_key(name@),
    {
        match &self.key {
            Some(k) => k.is(name),
            None => false,
        }
    }
}

/// The index of the last of the first `n` entries that has the key `name`
/// and a value of shape `shape`, or -1 where there is none.
pub open spec fn last_field(entries: Seq<BlockItem>, name: Seq<char>, shape: Shape, n: int) -> int
    decreases n,
{
    if n <= 0 {
        -1
    } else if entries[n - 1].has_key(name) && entries[n - 1].value.has_shape(shape) {
        n - 1
    } else {
        last_field(entries, name, shape, n - 1)
    }
}

pub proof fn lemma_last_field(entries: Seq<BlockItem>, name: Seq<char>, shape: Shape, n: int)
    requires
        0 <= n <= entries.len(),
    ensures
        -1 <= last_field(entries, name, shape, n) < n,
        last_field(entries, name, shape, n) >= 0 ==> {
            let i = last_field(entries, name, shape, n);
            entries[i].has_key(name) && entries[i].value.has_shape(shape)
        },
        forall|j: int|
            last_field(entries, name, shape, n) < j < n ==> !((#[trigger] entries[j]).has_key(name)
                && entries[j].value.has_shape(shape)),
    decreases n,
{
    if n > 0 && !(entries[n - 1].has_key(name) && entries[n - 1].value.has_shape(shape)) {
        lemma_last_field(entries, name, shape, n - 1);
    }
}

/// The scalar values of the first `n` entries that have the key `name`, in order.
pub open spec fn field_values(entries: Seq<BlockItem>, name: Seq<char>, n: int) -> Seq<Token>
    decreases n,
{
    if n <= 0 {
        Seq::empty()
    } else {
        let rest = field_values(entries, name, n - 1);
        if entries[n - 1].has_key(name) && entries[n - 1].value is Value {
            rest.push(entries[n - 1].value->Value_0)
        } else {
            rest
        }
    }
}

/// The loose scalar values among the first `n` entries, in order.
pub open spec fn loose_values(entries: Seq<BlockItem>, n: int) -> Seq<Token>
    decreases n,
{
    if n <= 0 {
        Seq::empty()
    } else {
        let rest = loose_values(entries, n - 1);
        if entries[n - 1].key is None && entries[n - 1].value is Value {
            rest.push(entries[n - 1].value->Value_0)
        } else {
            rest
        }
    }
}

impl Block {
    /// The value of the last entry `name = <scalar>`.
    pub open spec fn spec_field_value(&self, name: Seq<char>) -> Option<Token> {
        let i = last_field(self.v@, name, Shape::Value, self.v@.len() as int);
        if i >= 0 {
            Some(self.v@[i].value->Value_0)
        } else {
            None
        }
    }

    /// The block of the last entry `name = { ... }`.
    pub open spec fn spec_field_block(&self, name: Seq<char>) -> Option<Block> {
        let i = last_field(self.v@, name, Shape::Block, self.v@.len() as int);
        if i >= 0 {
            Some(self.v@[i].value->Block_0)
        } else {
            None
        }
    }

    /// The value of the last entry with the key `name`.
    pub open spec fn spec_field(&self, name: Seq<char>) -> Option<BV> {
        let i = last_field(self.v@, name, Shape::Any, self.v@.len() as int);
        if i >= 0 {
            Some(self.v@[i].value)
        } else {
            None
        }
    }

    /// The loose scalars inside the last entry `name = { ... }`.
    pub open spec fn spec_field_list(&self, name: Seq<char>) -> Option<Seq<Token>> {
        match self.spec_field_block(name) {
            Some(b) => Some(loose_values(b.v@, b.v@.len() as int)),
            None => None,
        }
    }

    /// A block without entries.
    pub fn new(loc: Loc) -> (b: Block)
        ensures
            b.v@ == Seq::<BlockItem>::empty(),
            b.loc == loc,
    {
        Block { v: Vec::new(), loc }
    }

    /// Appends the entry `key <comparator> value`.
    pub fn add_key_value(&mut self, key: Token, comparator: Comparator, value: BV)
        ensures
            final(self).v@ == old(self).v@.push(BlockItem { key: Some(key), comparator, value }),
            final(self).loc == old(self).loc,
    {
        self.v.push(BlockItem { key: Some(key), comparator, value });
    }

    /// Appends a loose value.
    pub fn add_value(&mut self, value: Token)
        ensures
            final(self).v@ == old(self).v@.push(
                BlockItem { key: None, comparator: Comparator::Eq, value: BV::Value(value) },
            ),
            final(self).loc == old(self).loc,
    {
        self.v.push(BlockItem { key: None, comparator: Comparator::Eq, value: BV::Value(value) });
    }

    /// Appends a loose block.
    pub fn add_block(&mut self, block: Block)
        ensures
            final(self).v@ == old(self).v@.push(
                BlockItem { key: None, comparator: Comparator::Eq, value: BV::Block(block) },
            ),
            final(self).loc == old(self).loc,
    {
        self.v.push(BlockItem { key: None, comparator: Comparator::Eq, value: BV::Block(block) });
    }

    /// The index of the last entry with the key `name` and a value of
    /// shape `shape`.
    fn find_last(&self, name: &str, shape: Shape) -> (r: Option<usize>)
        ensures
            match r {
                Some(i) => i == last_field(self.v@, name@, shape, self.v@.len() as int),
                None => last_field(self.v@, name@, shape, self.v@.len() as int) == -1,
            },
            r matches Some(i) ==> i < self.v@.len() && self.v@[i as int].has_key(name@)
                && self.v@[i as int].value.has_shape(shape),
    {
        let mut i: usize = self.v.len();
        while i > 0
            invariant
                i <= self.v.len(),
                last_field(self.v@, name@, shape, self.v@.len() as int) == last_field(
                    self.v@,
                    name@,
                    shape,
                    i as int,
                ),
            decreases i,
        {
            i = i - 1;
            if self.v[i].key_is(name) && self.v[i].value.shaped(shape) {
                return Some(i);
            }
        }
        None
    }

    /// The value of the last entry with the key `name`.
    pub fn get_field(&self, name: &str) -> (r: Option<&BV>)
        ensures
            ({
                let i = last_field(self.v@, name@, Shape::Any, self.v@.len() as int);
                r == if i >= 0 {
                    Some(&self.v@[i].value)
                } else {
                    None
                }
            }),
    {
        match self.find_last(name, Shape::Any) {
            Some(i) => Some(&self.v[i].value),
            None => None,
        }
    }

    /// The key token of the last entry with the key `name`.
    pub fn get_key(&self, name: &str) -> (r: Option<&Token>)
        ensures
            ({
                let i = last_field(self.v@, name@, Shape::Any, self.v@.len() as int);
                r == if i >= 0 {
                    Some(&self.v@[i].key->0)
                } else {
                    None
                }
            }),
    {
        match self.find_last(name, Shape::Any) {
            Some(i) => match &self.v[i].key {
                Some(k) => Some(k),
                None => None,
            },
            None => None,
        }
    }

    /// The value of the last entry `name = <scalar>`.
    pub fn get_field_value(&self, name: &str) -> (r: Option<&Token>)
        ensures
            ({
                let i = last_field(self.v@, name@, Shape::Value, self.v@.len() as int);
                r == if i >= 0 {
                    Some(&self.v@[i].value->Value_0)
                } else {
                    None
                }
            }),
    {
        match self.find_last(name, Shape::Value) {
            Some(i) => match &self.v[i].value {
                BV::Value(t) => Some(t),
                BV::Block(_) => None,
            },
            None => None,
        }
    }

    /// The block of the last entry `name = { ... }`.
    pub fn get_field_block(&self, name: &str) -> (r: Option<&Block>)
        ensures
            ({
                let i = last_field(self.v@, name@, Shape::Block, self.v@.len() as int);
                r == if i >= 0 {
                    Some(&self.v@[i].value->Block_0)
                } else {
                    None
                }
            }),
    {
        match self.find_last(name, Shape::Block) {
            Some(i) => match &self.v[i].value {
                BV::Value(_) => None,
                BV::Block(b) => Some(b),
            },
            None => None,
        }
    }

    /// Whether the last entry `name = <scalar>` says `yes`.
    pub fn get_field_bool(&self, name: &str) -> (r: Option<bool>)
        ensures
            ({
                let i = last_field(self.v@, name@, Shape::Value, self.v@.len() as int);
                r == if i >= 0 {
                    Some(self.v@[i].value->Value_0.s@ == "yes"@)
                } else {
                    None
                }
            }),
    {
        match self.get_field_value(name) {
            Some(t) => Some(t.is("yes")),
            None => None,
        }
    }

    /// The scalar values of all entries with the key `name`, in order.
    pub fn get_field_values(&self, name: &str) -> (r: Vec<Token>)
        ensures
            r@ == field_values(self.v@, name@, self.v@.len() as int),
    {
        let mut out: Vec<Token> = Vec::new();
        let mut i: usize = 0;
        while i < self.v.len()
            invariant
                i <= self.v.len(),
                out@ == field_values(self.v@, name@, i as int),
            decreases self.v.len() - i,
        {
            if self.v[i].key_is(name) {
                match &self.v[i].value {
                    BV::Value(t) => {
                        out.push(t.clone());
                    },
                    BV::Block(_) => {},
                }
            }
            i = i + 1;
        }
        out
    }

    /// The loose scalar values of the block, in order.
    pub fn get_values(&self) -> (r: Vec<Token>)
        ensures
            r@ == loose_values(self.v@, self.v@.len() as int),
    {
        let mut out: Vec<Token> = Vec::new();
        let mut i: usize = 0;
        while i < self.v.len()
            invariant
                i <= self.v.len(),
                out@ == loose_values(self.v@, i as int),
            decreases self.v.len() - i,
        {
            if self.v[i].key.is_none() {
                match &self.v[i].value {
                    BV::Value(t) => {
                        out.push(t.clone());
                    },
                    BV::Block(_) => {},
                }
            }
            i = i + 1;
        }
        out
    }

    /// The loose scalar values inside all the entries `name = { ... }`,
    /// in order.
    pub fn get_listed_values(&self, name: &str) -> (r: Vec<Token>)
        ensures
            r@ == listed_values(self.v@, name@, self.v@.len() as int),
    {
        let mut out: Vec<Token> = Vec::new();
        let mut i: usize = 0;
        while i < self.v.len()
            invariant
                i <= self.v.len(),
                out@ == listed_values(self.v@, name@, i as int),
            decreases self.v.len() - i,
        {
            if self.v[i].key_is(name) {
                match &self.v[i].value {
                    BV::Value(_) => {},
                    BV::Block(inner) => {
                        let mut more = inner.get_values();
                        out.append(&mut more);
                    },
                }
            }
            i = i + 1;
        }
        out
    }

    /// The loose scalar values inside the last entry `name = { ... }`.
    pub fn get_field_list(&self, name: &str) -> (r: Option<Vec<Token>>)
        ensures
            ({
                let i = last_field(self.v@, name@, Shape::Block, self.v@.len() as int);
                if i >= 0 {
                    let inner = self.v@[i].value->Block_0.v@;
                    r is Some && r->0@ == loose_values(inner, inner.len() as int)
                } else {
                    r is None
                }
            }),
    {
        match self.get_field_block(name) {
            Some(b) => Some(b.get_values()),
            None => None,
        }
    }
}


/// The loose scalars inside the blocks that the first `n` entries give for
/// the key `name`, in order.
pub open spec fn listed_values(entries: Seq<BlockItem>, name: Seq<char>, n: int) -> Seq<Token>
    decreases n,
{
    if n <= 0 {
        Seq::empty()
    } else {
        let rest = listed_values(entries, name, n - 1);
        if entries[n - 1].has_key(name) && entries[n - 1].value is Block {
            let inner = entries[n - 1].value->Block_0.v@;
            rest + loose_values(inner, inner.len() as int)
        } else {
            rest
        }
    }
}

/// One top-level entry of a file of definitions.
#[derive(Debug, PartialEq, Eq)]
pub enum DefinitionItem {
    /// `key = value`
    Assignment(Token, Token),
    /// A word by itself.
    Keyword(Token),
    /// `key = { ... }`
    Definition(Token, Block),
}

/// The report of a block that stands loose among definitions.
pub open spec fn stray_block(b: Block) -> DiagnosticView {
    warning_view(ErrorKey::MisplacedBlock, "unexpected block, expected a definition"@, b.loc)
}

/// The report of a word that stands loose among definitions.
pub open spec fn stray_value(t: Token) -> DiagnosticView {
    warning_view(ErrorKey::MisplacedValue, "unexpected value, expected a definition"@, t.loc)
}

/// The report of an assignment among definitions.
pub open spec fn stray_assignment(key: Token) -> DiagnosticView {
    warning_view(ErrorKey::TypeMismatch, "unexpected assignment, expected a definition"@, key.loc)
}

/// The first `n` entries as items of a file of definitions: every entry
/// but the loose blocks, in order.
pub open spec fn definitions(entries: Seq<BlockItem>, n: int) -> Seq<DefinitionItem>
    decreases n,
{
    if n <= 0 {
        Seq::empty()
    } else {
        let rest = definitions(entries, n - 1);
        match (entries[n - 1].key, entries[n - 1].value) {
            (Some(k), BV::Value(t)) => rest.push(DefinitionItem::Assignment(k, t)),
            (Some(k), BV::Block(b)) => rest.push(DefinitionItem::Definition(k, b)),
            (None, BV::Value(t)) => rest.push(DefinitionItem::Keyword(t)),
            (None, BV::Block(_)) => rest,
        }
    }
}

/// One report for each loose block among the first `n` entries.
pub open spec fn stray_blocks(entries: Seq<BlockItem>, n: int) -> Seq<DiagnosticView>
    decreases n,
{
    if n <= 0 {
        Seq::empty()
    } else {
        let rest = stray_blocks(entries, n - 1);
        match (entries[n - 1].key, entries[n - 1].value) {
            (None, BV::Block(b)) => rest.push(stray_block(b)),
            _ => rest,
        }
    }
}

/// The definitions `key = { ... }` among the first `n` entries, in order.
pub open spec fn pure_definitions(entries: Seq<BlockItem>, n: int) -> Seq<(Token, Block)>
    decreases n,
{
    if n <= 0 {
        Seq::empty()
    } else {
        let rest = pure_definitions(entries, n - 1);
        match (entries[n - 1].key, entries[n - 1].value) {
            (Some(k), BV::Block(b)) => rest.push((k, b)),
            _ => rest,
        }
    }
}

/// One report for each of the first `n` entries that is no definition.
pub open spec fn stray_items(entries: Seq<BlockItem>, n: int) -> Seq<DiagnosticView>
    decreases n,
{
    if n <= 0 {
        Seq::empty()
    } else {
        let rest = stray_items(entries, n - 1);
        match (entries[n - 1].key, entries[n - 1].value) {
            (Some(k), BV::Value(_)) => rest.push(stray_assignment(k)),
            (Some(_), BV::Block(_)) => rest,
            (None, BV::Value(t)) => rest.push(stray_value(t)),
            (None, BV::Block(b)) => rest.push(stray_block(b)),
        }
    }
}

fn push_view(reports: &mut Vec<Diagnostic>, d: Diagnostic)
    ensures
        views(final(reports)@) == views(old(reports)@).push(d@),
{
    proof {
        lemma_views_push(reports@, d);
    }
    reports.push(d);
}

impl Block {
    /// Takes the block apart into the items of a file of definitions, and
    /// reports the loose blocks, which are none.
    pub fn into_definitions(self) -> (r: (Vec<DefinitionItem>, Vec<Diagnostic>))
        ensures
            r.0@ == definitions(self.v@, self.v@.len() as int),
            views(r.1@) == stray_blocks(self.v@, self.v@.len() as int),
    {
        let ghost entries = self.v@;
        let mut items: Vec<DefinitionItem> = Vec::new();
        let mut reports: Vec<Diagnostic> = Vec::new();
        assert(views(reports@) =~= stray_blocks(entries, 0));
        for item in it: self.v
            invariant
                it.seq() == entries,
                items@ == definitions(entries, it.index()),
                views(reports@) == stray_blocks(entries, it.index()),
        {
            match (item.key, item.value) {
                (Some(k), BV::Value(t)) => {
                    items.push(DefinitionItem::Assignment(k, t));
                },
                (Some(k), BV::Block(b)) => {
                    items.push(DefinitionItem::Definition(k, b));
                },
                (None, BV::Value(t)) => {
                    items.push(DefinitionItem::Keyword(t));
                },
                (None, BV::Block(b)) => {
                    push_view(
                        &mut reports,
                        Diagnostic::warning(
                            ErrorKey::MisplacedBlock,
                            "unexpected block, expected a definition",
                            b.loc,
                        ),
                    );
                },
            }
        }
        (items, reports)
    }

    /// Takes the block apart into its definitions `key = { ... }`, and
    /// reports every other entry.
    pub fn into_pure_definitions(self) -> (r: (Vec<(Token, Block)>, Vec<Diagnostic>))
        ensures
            r.0@ == pure_definitions(self.v@, self.v@.len() as int),
            views(r.1@) == stray_items(self.v@, self.v@.len() as int),
    {
        let ghost entries = self.v@;
        let mut items: Vec<(Token, Block)> = Vec::new();
        let mut reports: Vec<Diagnostic> = Vec::new();
        assert(views(reports@) =~= stray_items(entries, 0));
        for item in it: self.v
            invariant
                it.seq() == entries,
                items@ == pure_definitions(entries, it.index()),
                views(reports@) == stray_items(entries, it.index()),
        {
            match (item.key, item.value) {
                (Some(k), BV::Value(_)) => {
                    push_view(
                        &mut reports,
                        Diagnostic::warning(
                            ErrorKey::TypeMismatch,
                            "unexpected assignment, expected a definition",
                            k.loc,
                        ),
                    );
                },
                (Some(k), BV::Block(b)) => {
                    items.push((k, b));
                },
                (None, BV::Value(t)) => {
                    push_view(
                        &mut reports,
                        Diagnostic::warning(
                            ErrorKey::MisplacedValue,
                            "unexpected value, expected a definition",
                            t.loc,
                        ),
                    );
                },
                (None, BV::Block(b)) => {
                    push_view(
                        &mut reports,
                        Diagnostic::warning(
                            ErrorKey::MisplacedBlock,
                            "unexpected block, expected a definition",
                            b.loc,
                        ),
                    );
                },
            }
        }
        (items, reports)
    }
}

} // verus!
