//! Scripted triggers: the triggers that script defines under a name.

use vstd::prelude::*;
use crate::block::{Block, pure_definitions, stray_items};
use crate::catalog::Catalog;
use crate::everything::Everything;
use crate::fileset::FileHandler;
use crate::helpers::{Keyed, load, load_diags, loaded};
use crate::report::{Diagnostic, DiagnosticView, ErrorKey, append_reports, error_view, views};
use crate::text::{ends_with, has_suffix};
use crate::token::Token;

verus! {

/// One scripted trigger.
#[derive(Debug)]
pub struct Trigger {
    pub key: Token,
    pub block: Block,
}

impl Keyed for Trigger {
    open spec fn spec_key(&self) -> Token {
        self.key
    }

    fn key(&self) -> (r: &Token) {
        &self.key
    }
}

impl Trigger {
    pub fn new(key: Token, block: Block) -> (t: Trigger)
        ensures
            t == (Trigger { key, block }),
    {
        Trigger { key, block }
    }

    /// A scripted trigger is validated where it is used, with the scopes of
    /// its caller: by itself it reports nothing.
    pub fn validate(&self, _data: &Everything) -> (r: Vec<Diagnostic>)
        ensures
            r@.len() == 0,
    {
        Vec::new()
    }
}

/// The scripted triggers, by name.
pub struct Triggers {
    triggers: Catalog<Trigger>,
}

impl View for Triggers {
    type V = Map<Seq<char>, Trigger>;

    closed spec fn view(&self) -> Map<Seq<char>, Trigger> {
        self.triggers@
    }
}

/// The catalog after the first `n` of `items` were loaded, in order.
pub open spec fn triggers_loaded(
    catalog: Map<Seq<char>, Trigger>,
    items: Seq<(Token, Block)>,
    n: int,
) -> Map<Seq<char>, Trigger>
    decreases n,
{
    if n <= 0 {
        catalog
    } else {
        loaded(
            triggers_loaded(catalog, items, n - 1),
            Trigger { key: items[n - 1].0, block: items[n - 1].1 },
        )
    }
}

/// What loading the first `n` of `items` reports.
pub open spec fn triggers_load_diags(
    catalog: Map<Seq<char>, Trigger>,
    items: Seq<(Token, Block)>,
    n: int,
) -> Seq<DiagnosticView>
    decreases n,
{
    if n <= 0 {
        Seq::empty()
    } else {
        triggers_load_diags(catalog, items, n - 1) + load_diags(
            triggers_loaded(catalog, items, n - 1),
            items[n - 1].0,
            "scripted trigger"@,
        )
    }
}

pub open spec fn missing_trigger(item: Token) -> DiagnosticView {
    error_view(
        ErrorKey::MissingItem,
        "trigger not defined in common/scripted_triggers/"@,
        item.loc,
    )
}

impl Triggers {
    /// The catalog is in order.
    pub closed spec fn wf(&self) -> bool {
        self.triggers.wf()
    }

    /// No scripted triggers.
    pub fn new() -> (t: Triggers)
        ensures
            t.wf(),
            t@ == Map::<Seq<char>, Trigger>::empty(),
    {
        Triggers { triggers: Catalog::new() }
    }

    /// Takes in the scripted trigger `key`.
    pub fn load_item(&mut self, key: Token, block: Block) -> (r: Vec<Diagnostic>)
        requires
            old(self).wf(),
        ensures
            final(self).wf(),
            final(self)@ == loaded(old(self)@, Trigger { key, block }),
            views(r@) == load_diags(old(self)@, key, "scripted trigger"@),
    {
        load(&mut self.triggers, Trigger::new(key, block), "scripted trigger")
    }

    /// Reports `item` where it names no scripted trigger.
    pub fn verify_exists(&self, item: &Token) -> (r: Vec<Diagnostic>)
        requires
            self.wf(),
        ensures
            views(r@) == if self@.contains_key(item.s@) {
                Seq::empty()
            } else {
                seq![missing_trigger(*item)]
            },
    {
        let mut r: Vec<Diagnostic> = Vec::new();
        if !self.triggers.contains(item.as_str()) {
            r.push(
                Diagnostic::error(
                    ErrorKey::MissingItem,
                    "trigger not defined in common/scripted_triggers/",
                    item.loc,
                ),
            );
        }
        assert(views(r@) =~= if self@.contains_key(item.s@) {
            Seq::empty()
        } else {
            seq![missing_trigger(*item)]
        });
        r
    }

    /// Reports `item` where it is given and names no scripted trigger.
    pub fn verify_exists_opt(&self, item: Option<&Token>) -> (r: Vec<Diagnostic>)
        requires
            self.wf(),
        ensures
            views(r@) == match item {
                Some(t) => if self@.contains_key(t.s@) {
                    Seq::empty()
                } else {
                    seq![missing_trigger(*t)]
                },
                None => Seq::empty(),
            },
    {
        match item {
            Some(t) => self.verify_exists(t),
            None => {
                let r: Vec<Diagnostic> = Vec::new();
                assert(views(r@) =~= Seq::<DiagnosticView>::empty());
                r
            },
        }
    }

    /// Whether `item` names a scripted trigger.
    pub fn is_defined(&self, item: &Token) -> (r: bool)
        requires
            self.wf(),
        ensures
            r == self@.contains_key(item.s@),
    {
        self.triggers.contains(item.as_str())
    }

    /// Validates every scripted trigger. A scripted trigger reports
    /// nothing by itself.
    pub fn validate(&self, data: &Everything) -> (r: Vec<Diagnostic>)
        ensures
            r@.len() == 0,
    {
        let items = self.triggers.values();
        let mut out: Vec<Diagnostic> = Vec::new();
        let mut i: usize = 0;
        while i < items.len()
            invariant
                i <= items.len(),
                out@.len() == 0,
            decreases items.len() - i,
        {
            let mut found = items[i].validate(data);
            out.append(&mut found);
            i = i + 1;
        }
        out
    }
}

impl FileHandler for Triggers {
    open spec fn ready(&self) -> bool {
        self.wf()
    }

    fn subpath(&self) -> (r: &'static str)
        ensures
            r@ == "common/scripted_triggers"@,
    {
        "common/scripted_triggers"
    }

    /// Takes in the scripted triggers of a file whose name ends in `.txt`;
    /// other files are left alone.
    fn handle_file(&mut self, filename: &str, block: Block) -> (r: Vec<Diagnostic>)
        ensures
            ({
                let items = pure_definitions(block.v@, block.v@.len() as int);
                if has_suffix(filename@, ".txt"@) {
                    &&& final(self)@ == triggers_loaded(old(self)@, items, items.len() as int)
                    &&& views(r@) == stray_items(block.v@, block.v@.len() as int)
                        + triggers_load_diags(old(self)@, items, items.len() as int)
                } else {
                    &&& final(self)@ == old(self)@
                    &&& views(r@) == Seq::<DiagnosticView>::empty()
                }
            }),
    {
        let mut out: Vec<Diagnostic> = Vec::new();
        if !ends_with(filename, ".txt") {
            assert(views(out@) =~= Seq::<DiagnosticView>::empty());
            return out;
        }
        let (items, stray) = block.into_pure_definitions();
        let ghost all = items@;
        append_reports(&mut out, stray);
        assert(views(out@) =~= stray_items(block.v@, block.v@.len() as int) + triggers_load_diags(
            old(self)@,
            all,
            0,
        ));
        for item in it: items
            invariant
                it.seq() == all,
                self.wf(),
                self@ == triggers_loaded(old(self)@, all, it.index()),
                views(out@) == stray_items(block.v@, block.v@.len() as int) + triggers_load_diags(
                    old(self)@,
                    all,
                    it.index(),
                ),
        {
            let ghost before = views(out@);
            let found = self.load_item(item.0, item.1);
            append_reports(&mut out, found);
            assert(views(out@) =~= stray_items(block.v@, block.v@.len() as int)
                + triggers_load_diags(old(self)@, all, it.index() + 1));
        }
        out
    }
}

} // verus!
