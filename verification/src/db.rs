//! The database of the things whose kinds need no catalog type of their
//! own: each is kept as its key and its block, under its kind.

use vstd::prelude::*;
use crate::block::Block;
use crate::catalog::Catalog;
use crate::ck3::data::scripted_illustrations::ScriptedIllustration;
use crate::everything::Everything;
use crate::helpers::{Keyed, load, load_diags, loaded};
use crate::imperator::data::loyalty::Loyalty;
use crate::item::Item;
use crate::report::{Diagnostic, DiagnosticView, append_reports, views};
use crate::token::Token;

verus! {

/// One thing in the database.
#[derive(Debug)]
pub struct DbEntry {
    pub key: Token,
    pub block: Block,
}

impl Keyed for DbEntry {
    open spec fn spec_key(&self) -> Token {
        self.key
    }

    fn key(&self) -> (r: &Token) {
        &self.key
    }
}

/// A kind of thing in the database, which knows how its things are
/// validated.
pub trait DbKind {
    /// What validation reports of the thing `key` with the body `block`.
    spec fn found(&self, key: Token, block: Block, data: &Everything) -> Seq<DiagnosticView>;

    fn validate(&self, key: &Token, block: &Block, data: &Everything) -> (r: Vec<Diagnostic>)
        ensures
            views(r@) == self.found(*key, *block, data),
    ;
}

/// The things of one kind.
pub struct DbTable {
    item: Item,
    entries: Catalog<DbEntry>,
}

/// The database.
pub struct Db {
    tables: Vec<DbTable>,
}

/// The index of the first of the first `n` tables that is for `item`, or -1.
spec fn table_index(tables: Seq<DbTable>, item: Item, n: int) -> int
    decreases n,
{
    if n <= 0 {
        -1
    } else if table_index(tables, item, n - 1) >= 0 {
        table_index(tables, item, n - 1)
    } else if tables[n - 1].item == item {
        n - 1
    } else {
        -1
    }
}

proof fn lemma_table_index(tables: Seq<DbTable>, item: Item, n: int)
    requires
        0 <= n <= tables.len(),
    ensures
        -1 <= table_index(tables, item, n) < n,
        table_index(tables, item, n) >= 0 ==> tables[table_index(tables, item, n)].item == item,
        table_index(tables, item, n) == -1 ==> forall|j: int|
            0 <= j < n ==> (#[trigger] tables[j]).item != item,
    decreases n,
{
    if n > 0 {
        lemma_table_index(tables, item, n - 1);
    }
}

proof fn lemma_table_index_same(a: Seq<DbTable>, b: Seq<DbTable>, item: Item, n: int)
    requires
        0 <= n <= a.len(),
        n <= b.len(),
        forall|j: int| 0 <= j < n ==> (#[trigger] a[j]).item == b[j].item,
    ensures
        table_index(a, item, n) == table_index(b, item, n),
    decreases n,
{
    if n > 0 {
        lemma_table_index_same(a, b, item, n - 1);
    }
}

/// What validation reports of one thing of kind `item`.
pub open spec fn entry_diags(item: Item, entry: DbEntry, data: &Everything) -> Seq<DiagnosticView> {
    match item {
        Item::Loyalty => (Loyalty {  }).found(entry.key, entry.block, data),
        Item::ScriptedIllustration => (ScriptedIllustration {  }).found(
            entry.key,
            entry.block,
            data,
        ),
        _ => Seq::empty(),
    }
}

/// What validation reports of the first `n` of `things`, all of kind
/// `item`.
pub open spec fn table_diags(item: Item, things: Seq<DbEntry>, data: &Everything, n: int) -> Seq<
    DiagnosticView,
>
    decreases n,
{
    if n <= 0 {
        Seq::empty()
    } else {
        table_diags(item, things, data, n - 1) + entry_diags(item, things[n - 1], data)
    }
}

/// The things of kind `item` in `tables`, by name.
spec fn catalog_in(tables: Seq<DbTable>, item: Item) -> Map<Seq<char>, DbEntry> {
    let i = table_index(tables, item, tables.len() as int);
    if i >= 0 {
        tables[i].entries@
    } else {
        Map::empty()
    }
}

impl Db {
    /// The database is in order.
    pub closed spec fn wf(&self) -> bool {
        forall|i: int| 0 <= i < self.tables@.len() ==> (#[trigger] self.tables@[i]).entries.wf()
    }

    /// The kinds that have things, in the order in which they came.
    pub closed spec fn kinds(&self) -> Seq<Item> {
        Seq::new(self.tables@.len(), |i: int| self.tables@[i].item)
    }

    /// The things of kind `item`, by name.
    pub closed spec fn catalog(&self, item: Item) -> Map<Seq<char>, DbEntry> {
        catalog_in(self.tables@, item)
    }

    /// The things of the kind at place `i` of `kinds`, in the order in
    /// which their names came.
    pub closed spec fn things(&self, i: int) -> Seq<DbEntry> {
        self.tables@[i].entries.things()
    }

    /// What validation reports of the first `n` kinds.
    pub open spec fn diags(&self, data: &Everything, n: int) -> Seq<DiagnosticView>
        decreases n,
    {
        if n <= 0 {
            Seq::empty()
        } else {
            self.diags(data, n - 1) + table_diags(
                self.kinds()[n - 1],
                self.things(n - 1),
                data,
                self.things(n - 1).len() as int,
            )
        }
    }

    /// A database with nothing in it.
    pub fn new() -> (db: Db)
        ensures
            db.wf(),
            db.kinds() == Seq::<Item>::empty(),
            forall|item: Item| db.catalog(item) == Map::<Seq<char>, DbEntry>::empty(),
    {
        let db = Db { tables: Vec::new() };
        assert(db.kinds() =~= Seq::<Item>::empty());
        db
    }

    fn find(&self, item: Item) -> (r: Option<usize>)
        ensures
            match r {
                Some(i) => i == table_index(self.tables@, item, self.tables@.len() as int),
                None => table_index(self.tables@, item, self.tables@.len() as int) == -1,
            },
            r matches Some(i) ==> i < self.tables@.len(),
    {
        let mut i: usize = 0;
        while i < self.tables.len()
            invariant
                i <= self.tables.len(),
                table_index(self.tables@, item, i as int) == -1,
            decreases self.tables.len() - i,
        {
            if self.tables[i].item == item {
                proof {
                    lemma_table_index_rest(self.tables@, item, i + 1, self.tables@.len() as int);
                }
                return Some(i);
            }
            i = i + 1;
        }
        None
    }

    /// Takes in the thing `key` of kind `item`.
    pub fn add(&mut self, item: Item, key: Token, block: Block) -> (r: Vec<Diagnostic>)
        requires
            old(self).wf(),
        ensures
            final(self).wf(),
            final(self).catalog(item) == loaded(old(self).catalog(item), DbEntry { key, block }),
            forall|other: Item|
                other != item ==> final(self).catalog(other) == old(self).catalog(other),
            views(r@) == load_diags(old(self).catalog(item), key, item.spec_name()),
    {
        let ghost start = self.tables@;
        let at = match self.find(item) {
            Some(i) => i,
            None => {
                self.tables.push(DbTable { item, entries: Catalog::new() });
                proof {
                    let n = start.len() as int;
                    let grown = self.tables@;
                    lemma_table_index_same(grown, start, item, n);
                    assert(table_index(grown, item, n + 1) == n);
                    assert(catalog_in(grown, item) == catalog_in(start, item));
                    assert forall|other: Item| other != item implies catalog_in(grown, other)
                        == catalog_in(start, other) by {
                        lemma_table_index_same(grown, start, other, n);
                        lemma_table_index(start, other, n);
                    }
                }
                self.tables.len() - 1
            },
        };
        let ghost middle = self.tables@;
        let ghost n = middle.len() as int;
        assert(table_index(middle, item, n) == at);
        assert(middle[at as int].item == item) by {
            lemma_table_index(middle, item, n);
        }
        assert(forall|other: Item| catalog_in(middle, other) == catalog_in(start, other));
        let mut table = self.tables.remove(at);
        let r = load(&mut table.entries, DbEntry { key, block }, item.name());
        self.tables.insert(at, table);
        proof {
            let last = self.tables@;
            assert(last.len() == n);
            assert forall|j: int| 0 <= j < n implies (#[trigger] last[j]).item == middle[j].item
                && (j != at ==> last[j] == middle[j]) by {}
            assert forall|other: Item| table_index(last, other, n) == table_index(
                middle,
                other,
                n,
            ) by {
                lemma_table_index_same(last, middle, other, n);
            }
            assert forall|other: Item| other != item implies catalog_in(last, other) == catalog_in(
                middle,
                other,
            ) by {
                lemma_table_index(middle, other, n);
            }
            assert(catalog_in(last, item) == last[at as int].entries@);
        }
        r
    }

    /// Validates every thing in the database, kind by kind.
    pub fn validate(&self, data: &Everything) -> (r: Vec<Diagnostic>)
        ensures
            views(r@) == self.diags(data, self.kinds().len() as int),
    {
        let mut out: Vec<Diagnostic> = Vec::new();
        assert(views(out@) =~= self.diags(data, 0));
        let mut i: usize = 0;
        while i < self.tables.len()
            invariant
                i <= self.tables.len(),
                views(out@) == self.diags(data, i as int),
            decreases self.tables.len() - i,
        {
            let table = &self.tables[i];
            let things = table.entries.values();
            let ghost before = views(out@);
            let mut j: usize = 0;
            while j < things.len()
                invariant
                    j <= things.len(),
                    things@ == self.things(i as int),
                    table.item == self.kinds()[i as int],
                    views(out@) == before + table_diags(table.item, things@, data, j as int),
                decreases things.len() - j,
            {
                let entry = &things[j];
                let ghost sofar = views(out@);
                let found = match table.item {
                    Item::Loyalty => (Loyalty {  }).validate(&entry.key, &entry.block, data),
                    Item::ScriptedIllustration => (ScriptedIllustration {  }).validate(
                        &entry.key,
                        &entry.block,
                        data,
                    ),
                    _ => {
                        let none: Vec<Diagnostic> = Vec::new();
                        assert(views(none@) =~= Seq::<DiagnosticView>::empty());
                        none
                    },
                };
                append_reports(&mut out, found);
                assert(views(out@) =~= before + table_diags(table.item, things@, data, j + 1));
                j = j + 1;
            }
            i = i + 1;
        }
        out
    }
}

proof fn lemma_table_index_rest(tables: Seq<DbTable>, item: Item, from: int, n: int)
    requires
        1 <= from <= n <= tables.len(),
        table_index(tables, item, from - 1) == -1,
        tables[from - 1].item == item,
    ensures
        table_index(tables, item, n) == from - 1,
    decreases n - from,
{
    if from < n {
        lemma_table_index_rest(tables, item, from, n - 1);
    }
}

} // verus!
