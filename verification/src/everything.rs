//! What validation may ask about the rest of the loaded game and mod files.

use vstd::prelude::*;
use vstd::string::*;
use crate::item::Item;
use crate::catalog::NameSet;
use crate::report::{Diagnostic, DiagnosticView, ErrorKey, error_view, views};
use crate::text::str_eq;
use crate::token::Token;

verus! {

/// A name in one of the catalogs.
pub struct ItemName {
    pub kind: Item,
    pub name: String,
}

/// A list that script declares, to be walked like a built-in iterator. It
/// is walked as the iterator named `base` is.
pub struct ScriptedList {
    pub name: String,
    pub base: Token,
}

/// A named constant of the game's settings.
pub struct Define {
    pub name: String,
    pub value: String,
}

/// The registries that validation consults. They are filled before any
/// validation starts and only read afterwards.
pub struct Everything {
    /// The localization keys that are defined.
    pub localization: NameSet,
    /// The paths of the files that exist, relative to the game directory.
    pub files: NameSet,
    /// The names that the catalogs hold.
    pub items: Vec<ItemName>,
    /// The scripted lists.
    pub scripted_lists: Vec<ScriptedList>,
    /// The string constants of the game's settings.
    pub defines: Vec<Define>,
}

/// Whether one of the first `n` catalog entries is `name` of kind `kind`.
pub open spec fn item_listed(items: Seq<ItemName>, kind: Item, name: Seq<char>, n: int) -> bool {
    exists|i: int|
        0 <= i < n && i < items.len() && (#[trigger] items[i]).kind == kind && items[i].name@
            == name
}

/// The index of the first scripted list at or after `from` that is called
/// `name`, or -1.
pub open spec fn list_index(lists: Seq<ScriptedList>, name: Seq<char>, from: int) -> int
    decreases lists.len() - from,
{
    if from < 0 || from >= lists.len() {
        -1
    } else if lists[from].name@ == name {
        from
    } else {
        list_index(lists, name, from + 1)
    }
}

/// The index of the first define at or after `from` that is called `name`,
/// or -1.
pub open spec fn define_index(defines: Seq<Define>, name: Seq<char>, from: int) -> int
    decreases defines.len() - from,
{
    if from < 0 || from >= defines.len() {
        -1
    } else if defines[from].name@ == name {
        from
    } else {
        define_index(defines, name, from + 1)
    }
}

pub open spec fn msg_not_defined(kind: Item, name: Seq<char>) -> Seq<char> {
    kind.spec_name() + " `"@ + name + "` not defined"@
}

/// The report that `item` is not in the catalog `kind`.
pub open spec fn missing_item(kind: Item, item: Token) -> DiagnosticView {
    error_view(ErrorKey::MissingItem, msg_not_defined(kind, item.s@), item.loc)
}

pub open spec fn msg_no_file(path: Seq<char>) -> Seq<char> {
    "file "@ + path + " does not exist"@
}

/// The report that the file `path`, which `item` stands for, is not there.
pub open spec fn missing_file(path: Seq<char>, item: Token) -> DiagnosticView {
    error_view(ErrorKey::MissingFile, msg_no_file(path), item.loc)
}

pub open spec fn msg_no_loca(key: Seq<char>) -> Seq<char> {
    "missing localization for `"@ + key + "`"@
}

/// The report that the localization key `key`, which `item` stands for,
/// is not defined.
pub open spec fn missing_loca(key: Seq<char>, item: Token) -> DiagnosticView {
    DiagnosticView {
        severity: crate::report::Severity::Warning,
        key: ErrorKey::MissingLocalization,
        msg: msg_no_loca(key),
        loc: item.loc,
        info: None,
        related: None,
    }
}

impl Everything {
    /// Reports `item` where the catalog `kind` does not hold it.
    pub fn verify_exists(&self, kind: Item, item: &Token) -> (r: Vec<Diagnostic>)
        ensures
            views(r@) == if self.has_item(kind, item.s@) {
                Seq::empty()
            } else {
                seq![missing_item(kind, *item)]
            },
    {
        let mut r: Vec<Diagnostic> = Vec::new();
        if !self.item_exists(kind, item.as_str()) {
            let mut msg = String::from_str(kind.name());
            msg.append(" `");
            msg.append(item.as_str());
            msg.append("` not defined");
            r.push(Diagnostic::error(ErrorKey::MissingItem, msg.as_str(), item.loc));
        }
        assert(views(r@) =~= if self.has_item(kind, item.s@) {
            Seq::empty()
        } else {
            seq![missing_item(kind, *item)]
        });
        r
    }

    /// Reports, at `item`, the file `path` where it is not there.
    pub fn verify_file_exists(&self, path: &str, item: &Token) -> (r: Vec<Diagnostic>)
        ensures
            views(r@) == if self.files@.contains(path@) {
                Seq::empty()
            } else {
                seq![missing_file(path@, *item)]
            },
    {
        let mut r: Vec<Diagnostic> = Vec::new();
        if !self.files.contains(path) {
            let mut msg = String::from_str("file ");
            msg.append(path);
            msg.append(" does not exist");
            r.push(Diagnostic::error(ErrorKey::MissingFile, msg.as_str(), item.loc));
        }
        assert(views(r@) =~= if self.files@.contains(path@) {
            Seq::empty()
        } else {
            seq![missing_file(path@, *item)]
        });
        r
    }

    /// Reports, at `item`, the localization key `key` where it is not
    /// defined.
    pub fn verify_loca_exists(&self, key: &str, item: &Token) -> (r: Vec<Diagnostic>)
        ensures
            views(r@) == if self.localization@.contains(key@) {
                Seq::empty()
            } else {
                seq![missing_loca(key@, *item)]
            },
    {
        let mut r: Vec<Diagnostic> = Vec::new();
        if !self.localization.contains(key) {
            let mut msg = String::from_str("missing localization for `");
            msg.append(key);
            msg.append("`");
            r.push(Diagnostic::warning(ErrorKey::MissingLocalization, msg.as_str(), item.loc));
        }
        assert(views(r@) =~= if self.localization@.contains(key@) {
            Seq::empty()
        } else {
            seq![missing_loca(key@, *item)]
        });
        r
    }

    /// Registries with nothing in them.
    pub fn new() -> (data: Everything)
        ensures
            data.localization@ == Set::<Seq<char>>::empty(),
            data.files@ == Set::<Seq<char>>::empty(),
            data.items@ == Seq::<ItemName>::empty(),
            data.scripted_lists@ == Seq::<ScriptedList>::empty(),
            data.defines@ == Seq::<Define>::empty(),
    {
        Everything {
            localization: NameSet::new(),
            files: NameSet::new(),
            items: Vec::new(),
            scripted_lists: Vec::new(),
            defines: Vec::new(),
        }
    }

    /// Whether the catalog `kind` holds `name`.
    pub open spec fn has_item(&self, kind: Item, name: Seq<char>) -> bool {
        item_listed(self.items@, kind, name, self.items@.len() as int)
    }

    /// Adds `name` to the catalog `kind`.
    pub fn add_item(&mut self, kind: Item, name: &str)
        ensures
            final(self).localization == old(self).localization,
            final(self).files == old(self).files,
            final(self).scripted_lists == old(self).scripted_lists,
            final(self).defines == old(self).defines,
            forall|k: Item, n: Seq<char>|
                final(self).has_item(k, n) == (old(self).has_item(k, n) || (k == kind && n
                    == name@)),
    {
        let ghost before = self.items@;
        self.items.push(ItemName { kind, name: String::from_str(name) });
        proof {
            let after = self.items@;
            assert forall|k: Item, n: Seq<char>|
                item_listed(after, k, n, after.len() as int) == (item_listed(
                    before,
                    k,
                    n,
                    before.len() as int,
                ) || (k == kind && n == name@)) by {
                if item_listed(after, k, n, after.len() as int) {
                    let i = choose|i: int|
                        0 <= i < after.len() && (#[trigger] after[i]).kind == k && after[i].name@
                            == n;
                    if i < before.len() {
                        assert(before[i].kind == k);
                    }
                }
                if item_listed(before, k, n, before.len() as int) {
                    let i = choose|i: int|
                        0 <= i < before.len() && (#[trigger] before[i]).kind == k
                            && before[i].name@ == n;
                    assert(after[i].kind == k);
                }
                if k == kind && n == name@ {
                    assert(after[before.len() as int].kind == k);
                }
            }
        }
    }

    /// Whether the catalog `kind` holds `name`.
    pub fn item_exists(&self, kind: Item, name: &str) -> (r: bool)
        ensures
            r == self.has_item(kind, name@),
    {
        let mut i: usize = 0;
        while i < self.items.len()
            invariant
                i <= self.items.len(),
                !item_listed(self.items@, kind, name@, i as int),
            decreases self.items.len() - i,
        {
            if self.items[i].kind == kind && str_eq(self.items[i].name.as_str(), name) {
                assert(self.items@[i as int].kind == kind);
                return true;
            }
            i = i + 1;
        }
        false
    }

    /// The place of the first scripted list called `name`.
    pub fn find_scripted_list(&self, name: &str) -> (r: Option<usize>)
        ensures
            match r {
                Some(i) => i == list_index(self.scripted_lists@, name@, 0) && i
                    < self.scripted_lists@.len(),
                None => list_index(self.scripted_lists@, name@, 0) == -1,
            },
    {
        let mut i: usize = 0;
        while i < self.scripted_lists.len()
            invariant
                i <= self.scripted_lists.len(),
                list_index(self.scripted_lists@, name@, 0) == list_index(
                    self.scripted_lists@,
                    name@,
                    i as int,
                ),
            decreases self.scripted_lists.len() - i,
        {
            if str_eq(self.scripted_lists[i].name.as_str(), name) {
                return Some(i);
            }
            i = i + 1;
        }
        None
    }

    /// The first scripted list called `name`.
    pub fn scripted_list(&self, name: &str) -> (r: Option<&ScriptedList>)
        ensures
            ({
                let i = list_index(self.scripted_lists@, name@, 0);
                r == if i >= 0 {
                    Some(&self.scripted_lists@[i])
                } else {
                    None
                }
            }),
    {
        match self.find_scripted_list(name) {
            Some(i) => Some(&self.scripted_lists[i]),
            None => None,
        }
    }

    /// The value of the first define called `name`.
    pub fn get_defined_string(&self, name: &str) -> (r: Option<&str>)
        ensures
            ({
                let i = define_index(self.defines@, name@, 0);
                if i >= 0 {
                    r is Some && r->0@ == self.defines@[i].value@
                } else {
                    r is None
                }
            }),
    {
        let mut i: usize = 0;
        while i < self.defines.len()
            invariant
                i <= self.defines.len(),
                define_index(self.defines@, name@, 0) == define_index(
                    self.defines@,
                    name@,
                    i as int,
                ),
            decreases self.defines.len() - i,
        {
            if str_eq(self.defines[i].name.as_str(), name) {
                return Some(self.defines[i].value.as_str());
            }
            i = i + 1;
        }
        None
    }
}

} // verus!
