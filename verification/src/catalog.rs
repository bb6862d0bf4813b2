//! Catalogs: the things of one kind that the game and mod files define,
//! found by name.

use vstd::prelude::*;
use vstd::string::*;

verus! {

/// The hasher of the `fnv` crate, of which nothing is said: it is only
/// named in the types of the maps and sets below.
#[verifier::external_type_specification]
#[verifier::external_body]
pub struct ExFnvHasher(fnv::FnvHasher);

/// The standard library's maker of hashers from their default values, of
/// which nothing is said either.
#[verifier::external_type_specification]
#[verifier::external_body]
#[verifier::reject_recursive_types(H)]
pub struct ExBuildHasherDefault<H>(core::hash::BuildHasherDefault<H>);

/// What a map from names to positions holds.
pub uninterp spec fn index_entries(map: fnv::FnvHashMap<String, usize>) -> Map<Seq<char>, usize>;

/// `FnvHashMap::default`, which is `HashMap::default` with the hasher of
/// the `fnv` crate: a map that holds nothing.
#[verifier::external_body]
fn index_new() -> (map: fnv::FnvHashMap<String, usize>)
    ensures
        index_entries(map) =~= Map::empty(),
{
    fnv::FnvHashMap::default()
}

/// `HashMap::get` on a map with the hasher of the `fnv` crate: the position
/// that the map holds for the key with the characters of `key`, if it
/// holds one.
#[verifier::external_body]
fn index_get(map: &fnv::FnvHashMap<String, usize>, key: &str) -> (r: Option<usize>)
    ensures
        r == if index_entries(*map).contains_key(key@) {
            Some(index_entries(*map)[key@])
        } else {
            None
        },
{
    map.get(key).copied()
}

/// `HashMap::insert` on a map with the hasher of the `fnv` crate: the map
/// then holds `value` for the key with the characters of `key`, and for
/// every other key what it held before.
#[verifier::external_body]
fn index_insert(map: &mut fnv::FnvHashMap<String, usize>, key: String, value: usize)
    ensures
        index_entries(*final(map)) == index_entries(*old(map)).insert(key@, value),
{
    map.insert(key, value);
}

/// What a set of names holds.
pub uninterp spec fn name_entries(set: fnv::FnvHashSet<String>) -> Set<Seq<char>>;

/// `FnvHashSet::default`, which is `HashSet::default` with the hasher of
/// the `fnv` crate: a set that holds nothing.
#[verifier::external_body]
fn names_new() -> (set: fnv::FnvHashSet<String>)
    ensures
        name_entries(set) =~= Set::empty(),
{
    fnv::FnvHashSet::default()
}

/// `HashSet::contains` on a set with the hasher of the `fnv` crate: whether
/// the set holds a string with the characters of `name`.
#[verifier::external_body]
fn names_contains(set: &fnv::FnvHashSet<String>, name: &str) -> (r: bool)
    ensures
        r == name_entries(*set).contains(name@),
{
    set.contains(name)
}

/// `HashSet::insert` on a set with the hasher of the `fnv` crate: the set
/// then holds `name` besides what it held before.
#[verifier::external_body]
fn names_insert(set: &mut fnv::FnvHashSet<String>, name: String)
    ensures
        name_entries(*final(set)) == name_entries(*old(set)).insert(name@),
{
    set.insert(name);
}

/// A set of names.
pub struct NameSet {
    set: fnv::FnvHashSet<String>,
}

impl View for NameSet {
    type V = Set<Seq<char>>;

    closed spec fn view(&self) -> Set<Seq<char>> {
        name_entries(self.set)
    }
}

impl NameSet {
    /// A set with no name in it.
    pub fn new() -> (s: NameSet)
        ensures
            s@ == Set::<Seq<char>>::empty(),
    {
        NameSet { set: names_new() }
    }

    /// Adds `name` to the set.
    pub fn insert(&mut self, name: &str)
        ensures
            final(self)@ == old(self)@.insert(name@),
    {
        names_insert(&mut self.set, String::from_str(name));
    }

    /// Whether `name` is in the set.
    pub fn contains(&self, name: &str) -> (r: bool)
        ensures
            r == self@.contains(name@),
    {
        names_contains(&self.set, name)
    }
}

/// Things found by name. A name has one thing; what is put under a name
/// that is taken replaces what was there.
pub struct Catalog<T> {
    index: fnv::FnvHashMap<String, usize>,
    names: Vec<String>,
    items: Vec<T>,
}

impl<T> View for Catalog<T> {
    type V = Map<Seq<char>, T>;

    closed spec fn view(&self) -> Map<Seq<char>, T> {
        Map::new(
            |name: Seq<char>| index_entries(self.index).contains_key(name),
            |name: Seq<char>| self.items@[index_entries(self.index)[name] as int],
        )
    }
}

impl<T> Catalog<T> {
    /// The catalog is in order: the index leads from each name to the
    /// place of its thing, and each thing is under one name.
    pub closed spec fn wf(&self) -> bool {
        &&& self.names@.len() == self.items@.len()
        &&& forall|i: int|
            0 <= i < self.names@.len() ==> index_entries(self.index).contains_key(
                (#[trigger] self.names@[i])@,
            ) && index_entries(self.index)[self.names@[i]@] == i
        &&& forall|name: Seq<char>| #[trigger]
            index_entries(self.index).contains_key(name) ==> index_entries(self.index)[name]
                < self.names@.len() && self.names@[index_entries(self.index)[name] as int]@
                == name
    }

    /// The names in the catalog, in the order in which they first came.
    pub closed spec fn names(&self) -> Seq<Seq<char>> {
        Seq::new(self.names@.len(), |i: int| self.names@[i]@)
    }

    /// The things in the catalog, each at the place of its name.
    pub closed spec fn things(&self) -> Seq<T> {
        self.items@
    }

    /// The names and the things of a catalog are those of its map.
    pub proof fn lemma_names_and_things(&self)
        requires
            self.wf(),
        ensures
            self.names().len() == self.things().len(),
            forall|i: int|
                0 <= i < self.names().len() ==> self@.contains_key(#[trigger] self.names()[i])
                    && self@[self.names()[i]] == self.things()[i],
            forall|name: Seq<char>| #[trigger]
                self@.contains_key(name) ==> exists|i: int|
                    0 <= i < self.names().len() && self.names()[i] == name && self.things()[i]
                        == self@[name],
    {
        assert forall|name: Seq<char>| #[trigger] self@.contains_key(name) implies exists|i: int|
            0 <= i < self.names().len() && self.names()[i] == name && self.things()[i]
                == self@[name] by {
            let i = index_entries(self.index)[name] as int;
            assert(self.names()[i] == name);
        }
        assert forall|i: int| 0 <= i < self.names().len() implies self@.contains_key(
            #[trigger] self.names()[i],
        ) && self@[self.names()[i]] == self.things()[i] by {
            assert(index_entries(self.index).contains_key(self.names@[i]@));
        }
    }

    /// A catalog with nothing in it.
    pub fn new() -> (c: Catalog<T>)
        ensures
            c.wf(),
            c@ == Map::<Seq<char>, T>::empty(),
            c.things() == Seq::<T>::empty(),
    {
        let c = Catalog { index: index_new(), names: Vec::new(), items: Vec::new() };
        assert(c@ =~= Map::<Seq<char>, T>::empty());
        c
    }

    /// Whether something is under `name`.
    pub fn contains(&self, name: &str) -> (r: bool)
        requires
            self.wf(),
        ensures
            r == self@.contains_key(name@),
    {
        index_get(&self.index, name).is_some()
    }

    /// What is under `name`.
    pub fn get(&self, name: &str) -> (r: Option<&T>)
        requires
            self.wf(),
        ensures
            r == if self@.contains_key(name@) {
                Some(&self@[name@])
            } else {
                None
            },
    {
        match index_get(&self.index, name) {
            Some(i) => Some(&self.items[i]),
            None => None,
        }
    }

    /// Puts `item` under `name`, in place of what was there.
    pub fn insert(&mut self, name: &str, item: T)
        requires
            old(self).wf(),
        ensures
            final(self).wf(),
            final(self)@ == old(self)@.insert(name@, item),
    {
        match index_get(&self.index, name) {
            Some(i) => {
                self.items.set(i, item);
                assert(final(self)@ =~= old(self)@.insert(name@, item)) by {
                    assert forall|n: Seq<char>| #[trigger]
                        old(self)@.contains_key(n) && n != name@ implies final(self)@[n] == old(
                        self,
                    )@[n] by {
                        let j = index_entries(self.index)[n] as int;
                        assert(self.names@[j]@ == n);
                    }
                }
            },
            None => {
                let owned = String::from_str(name);
                let at = self.items.len();
                self.names.push(owned);
                self.items.push(item);
                index_insert(&mut self.index, String::from_str(name), at);
                assert(final(self)@ =~= old(self)@.insert(name@, item));
                assert forall|i: int| 0 <= i < self.names@.len() implies index_entries(
                    self.index,
                ).contains_key((#[trigger] self.names@[i])@) && index_entries(
                    self.index,
                )[self.names@[i]@] == i by {
                    if i < at {
                        assert(old(self).names@[i] == self.names@[i]);
                    }
                }
            },
        }
    }

    /// The things in the catalog.
    pub fn values(&self) -> (r: &Vec<T>)
        ensures
            r@ == self.things(),
    {
        &self.items
    }
}

} // verus!
