//! The [`Scopes`] type, which tracks what is known about the type of an
//! in-game value, and the lookup of the links that lead from one scope type
//! to another.

use vstd::prelude::*;
use vstd::string::*;
use crate::everything::{Everything, list_index};
use crate::game::Game;
use crate::item::Item;
use crate::report::{Diagnostic, DiagnosticView, ErrorKey, Severity, views};
use crate::text::{lowercase, str_eq, to_lowercase};
use crate::token::Token;
use crate::vic3::scopes::{
    BUILDING, BUILDING_TYPE, COMMANDER_ORDER, COMMANDER_ORDER_TYPE, INSTITUTION, INSTITUTION_TYPE,
    INTEREST_GROUP, INTEREST_GROUP_TYPE, LAW, LAW_TYPE,
};

verus! {

/// Whether tag number `i` is in the set that `bits` encodes.
pub open spec fn has_tag(bits: u64, i: nat) -> bool {
    i < 64 && (bits >> (i as u64)) & 1 == 1
}

/// A set of scope types. In most places it has been narrowed down to a
/// single type, but not always.
///
/// Each scope type is one tag, numbered from 0 to 63. The first four tags
/// are the same in every game; what the others mean depends on the game, so
/// sets made for different games must be kept apart.
#[derive(Clone, Copy, Debug, PartialEq, Eq, Hash, Structural)]
pub struct Scopes {
    pub bits: u64,
}

impl View for Scopes {
    type V = Set<nat>;

    /// The numbers of the tags in the set.
    open spec fn view(&self) -> Set<nat> {
        Set::new(|i: nat| has_tag(self.bits, i))
    }
}

pub const NONE: u64 = 0x0000_0001;
pub const VALUE: u64 = 0x0000_0002;
pub const BOOL: u64 = 0x0000_0004;
pub const FLAG: u64 = 0x0000_0008;
pub const COLOR: u64 = 0x0000_0010;
pub const COUNTRY: u64 = 0x0000_0020;
pub const CHARACTER: u64 = 0x0000_0040;
pub const CULTURE: u64 = 0x0000_0080;
pub const PROVINCE: u64 = 0x0000_0100;
pub const POP: u64 = 0x0000_0200;
pub const PARTY: u64 = 0x0000_0400;
pub const RELIGION: u64 = 0x0000_0800;
pub const STATE: u64 = 0x0000_1000;
pub const WAR: u64 = 0x0000_2000;

/// Every tag of Crusader Kings 3: the universal four, character, culture,
/// province, religion and war, and tags 16 to 51.
pub const ALL_CK3: u64 = 0x000f_ffff_ffff_29cf;
/// Every tag of Victoria 3: tags 0 to 13 and 16 to 58.
pub const ALL_VIC3: u64 = 0x07ff_ffff_ffff_3fff;
/// Every tag of Imperator: tags 0 to 13 and 16 to 30.
pub const ALL_IMPERATOR: u64 = 0x0000_0000_7fff_3fff;

/// The tags that `game` defines, as a bit pattern.
pub open spec fn vocabulary(game: Game) -> u64 {
    match game {
        Game::Ck3 => ALL_CK3,
        Game::Vic3 => ALL_VIC3,
        Game::Imperator => ALL_IMPERATOR,
    }
}

proof fn lemma_or_tags(a: u64, b: u64)
    ensures
        forall|i: nat| has_tag(a | b, i) == (has_tag(a, i) || has_tag(b, i)),
{
    assert forall|i: nat| has_tag(a | b, i) == (has_tag(a, i) || has_tag(b, i)) by {
        if i < 64 {
            let k = i as u64;
            assert((((a | b) >> k) & 1 == 1) == (((a >> k) & 1 == 1) || ((b >> k) & 1 == 1)))
                by (bit_vector);
        }
    }
}

proof fn lemma_and_tags(a: u64, b: u64)
    ensures
        forall|i: nat| has_tag(a & b, i) == (has_tag(a, i) && has_tag(b, i)),
{
    assert forall|i: nat| has_tag(a & b, i) == (has_tag(a, i) && has_tag(b, i)) by {
        if i < 64 {
            let k = i as u64;
            assert((((a & b) >> k) & 1 == 1) == (((a >> k) & 1 == 1) && ((b >> k) & 1 == 1)))
                by (bit_vector);
        }
    }
}

proof fn lemma_and_not_tags(a: u64, b: u64)
    ensures
        forall|i: nat| has_tag(a & !b, i) == (has_tag(a, i) && !has_tag(b, i)),
{
    assert forall|i: nat| has_tag(a & !b, i) == (has_tag(a, i) && !has_tag(b, i)) by {
        if i < 64 {
            let k = i as u64;
            assert((((a & !b) >> k) & 1 == 1) == (((a >> k) & 1 == 1) && !((b >> k) & 1 == 1)))
                by (bit_vector)
                requires
                    k < 64,
            ;
        }
    }
}

proof fn lemma_zero_tags()
    ensures
        forall|i: nat| !has_tag(0, i),
{
    assert forall|i: nat| !has_tag(0, i) by {
        if i < 64 {
            let k = i as u64;
            assert((0u64 >> k) & 1 == 0) by (bit_vector);
        }
    }
}

/// Two different bit patterns differ in some tag below `hi`, where neither
/// has a tag at `hi` or above.
proof fn lemma_differing_tag(a: u64, b: u64, hi: u64) -> (i: u64)
    requires
        a != b,
        hi <= 64,
        hi < 64 ==> a >> hi == 0 && b >> hi == 0,
    ensures
        i < hi,
        ((a >> i) & 1 == 1) != ((b >> i) & 1 == 1),
    decreases hi,
{
    assert(hi != 0) by (bit_vector)
        requires
            a != b,
            hi < 64 ==> a >> hi == 0 && b >> hi == 0,
    ;
    if (a & 1 == 1) != (b & 1 == 1) {
        assert((a >> 0) & 1 == a & 1 && (b >> 0) & 1 == b & 1) by (bit_vector);
        0
    } else {
        let lower = (hi - 1) as u64;
        assert(a >> 1 != b >> 1 && (lower < 64 ==> (a >> 1) >> lower == 0 && (b >> 1) >> lower
            == 0)) by (bit_vector)
            requires
                a != b,
                (a & 1 == 1) == (b & 1 == 1),
                1 <= hi <= 64,
                lower == hi - 1,
                hi < 64 ==> a >> hi == 0 && b >> hi == 0,
        ;
        let j = lemma_differing_tag(a >> 1, b >> 1, lower);
        let i = (j + 1) as u64;
        assert(((a >> 1) >> j) & 1 == (a >> i) & 1 && ((b >> 1) >> j) & 1 == (b >> i) & 1)
            by (bit_vector)
            requires
                j < 63,
                i == j + 1,
        ;
        i
    }
}

/// Sets with the same tags are the same set.
pub proof fn lemma_same_tags_same_set(a: Scopes, b: Scopes)
    requires
        a@ == b@,
    ensures
        a == b,
{
    if a.bits != b.bits {
        let i = lemma_differing_tag(a.bits, b.bits, 64);
        let k = i as nat;
        assert(k as u64 == i);
        assert(has_tag(a.bits, k) != has_tag(b.bits, k));
        assert(a@.contains(k) == has_tag(a.bits, k));
        assert(b@.contains(k) == has_tag(b.bits, k));
    }
}

impl Scopes {
    /// The set that `bits` encodes.
    pub fn from_bits(bits: u64) -> (s: Scopes)
        ensures
            s.bits == bits,
    {
        Scopes { bits }
    }

    /// The set with no tag in it.
    pub fn empty() -> (s: Scopes)
        ensures
            s@ == Set::<nat>::empty(),
            s.bits == 0,
    {
        proof {
            lemma_zero_tags();
        }
        let s = Scopes { bits: 0 };
        assert(s@ =~= Set::<nat>::empty());
        s
    }

    /// Every tag of `game`.
    pub fn all(game: Game) -> (s: Scopes)
        ensures
            s.bits == vocabulary(game),
    {
        match game {
            Game::Ck3 => Scopes { bits: ALL_CK3 },
            Game::Vic3 => Scopes { bits: ALL_VIC3 },
            Game::Imperator => Scopes { bits: ALL_IMPERATOR },
        }
    }

    pub open spec fn spec_all(game: Game) -> Scopes {
        Scopes { bits: vocabulary(game) }
    }

    /// Whether every tag of the set belongs to `game`.
    pub open spec fn within(self, game: Game) -> bool {
        self@.subset_of(Self::spec_all(game)@)
    }

    pub open spec fn spec_none() -> Scopes {
        Scopes { bits: NONE }
    }

    pub open spec fn spec_primitive() -> Scopes {
        Scopes { bits: VALUE | BOOL | FLAG }
    }

    pub open spec fn spec_universal() -> Scopes {
        Scopes { bits: NONE | VALUE | BOOL | FLAG }
    }

    pub open spec fn spec_non_primitive(game: Game) -> Scopes {
        Scopes { bits: vocabulary(game) & !(NONE | VALUE | BOOL | FLAG) }
    }

    pub open spec fn spec_all_but_none(game: Game) -> Scopes {
        Scopes { bits: vocabulary(game) & !NONE }
    }

    /// The bit pattern that encodes the set.
    pub fn bits(self) -> (bits: u64)
        ensures
            bits == self.bits,
    {
        self.bits
    }

    /// Whether every tag of the set belongs to `game`.
    pub fn is_within(self, game: Game) -> (r: bool)
        ensures
            r == self.within(game),
    {
        Scopes::all(game).contains(self)
    }

    /// Whether `self` has no tags.
    pub fn is_empty(self) -> (r: bool)
        ensures
            r == (self@ == Set::<nat>::empty()),
            r == (self.bits == 0),
    {
        proof {
            lemma_zero_tags();
            if self.bits == 0 {
                assert(self@ =~= Set::<nat>::empty());
            } else {
                let i = lemma_differing_tag(self.bits, 0, 64);
                let k = i as nat;
                assert(k as u64 == i);
                assert(!has_tag(0, k));
                assert(has_tag(self.bits, k));
                assert(self@.contains(k));
            }
        }
        self.bits == 0
    }

    /// The tags in either set.
    pub fn union(self, other: Scopes) -> (s: Scopes)
        ensures
            s@ == self@.union(other@),
            s.bits == self.bits | other.bits,
    {
        proof {
            lemma_or_tags(self.bits, other.bits);
        }
        let s = Scopes { bits: self.bits | other.bits };
        assert(s@ =~= self@.union(other@));
        s
    }

    /// The tags in both sets.
    pub fn intersection(self, other: Scopes) -> (s: Scopes)
        ensures
            s@ == self@.intersect(other@),
            s.bits == self.bits & other.bits,
    {
        proof {
            lemma_and_tags(self.bits, other.bits);
        }
        let s = Scopes { bits: self.bits & other.bits };
        assert(s@ =~= self@.intersect(other@));
        s
    }

    /// The tags of `self` that are not in `other`.
    pub fn difference(self, other: Scopes) -> (s: Scopes)
        ensures
            s@ == self@.difference(other@),
            s.bits == self.bits & !other.bits,
    {
        proof {
            lemma_and_not_tags(self.bits, other.bits);
        }
        let s = Scopes { bits: self.bits & !other.bits };
        assert(s@ =~= self@.difference(other@));
        s
    }

    /// Whether every tag of `other` is in `self`.
    pub fn contains(self, other: Scopes) -> (r: bool)
        ensures
            r == other@.subset_of(self@),
    {
        let common = self.intersection(other);
        proof {
            if common == other {
                assert(other@ =~= self@.intersect(other@));
            } else {
                if other@.subset_of(self@) {
                    assert(self@.intersect(other@) =~= other@);
                    lemma_same_tags_same_set(common, other);
                }
            }
        }
        common.bits == other.bits
    }

    /// Whether the two sets share a tag.
    pub fn intersects(self, other: Scopes) -> (r: bool)
        ensures
            r == !self@.disjoint(other@),
    {
        let common = self.intersection(other);
        let none = common.is_empty();
        proof {
            if none {
                assert forall|i: nat| !(self@.contains(i) && other@.contains(i)) by {
                    assert(!common@.contains(i));
                }
            } else {
                assert(common@ !~= Set::<nat>::empty());
                let i = choose|i: nat| common@.contains(i);
                assert(self@.contains(i) && other@.contains(i));
            }
        }
        !none
    }

    /// The scope type of something that is no scope at all.
    pub fn none() -> (s: Scopes)
        ensures
            s == Self::spec_none(),
    {
        Scopes { bits: NONE }
    }

    /// The three universal value types: value, bool and flag.
    pub fn primitive() -> (s: Scopes)
        ensures
            s == Self::spec_primitive(),
    {
        Scopes { bits: VALUE | BOOL | FLAG }
    }

    /// Every tag of `game` except the four universal ones.
    pub fn non_primitive(game: Game) -> (s: Scopes)
        ensures
            s == Self::spec_non_primitive(game),
            s@ == Self::spec_all(game)@.difference(Self::spec_universal()@),
    {
        Scopes::all(game).difference(Scopes { bits: NONE | VALUE | BOOL | FLAG })
    }

    /// Every tag of `game` except `none`.
    pub fn all_but_none(game: Game) -> (s: Scopes)
        ensures
            s == Self::spec_all_but_none(game),
            s@ == Self::spec_all(game)@.difference(Self::spec_none()@),
    {
        Scopes::all(game).difference(Scopes { bits: NONE })
    }
}


impl Scopes {
    pub open spec fn spec_union(self, other: Scopes) -> Scopes {
        Scopes { bits: self.bits | other.bits }
    }

    pub open spec fn spec_intersection(self, other: Scopes) -> Scopes {
        Scopes { bits: self.bits & other.bits }
    }

    pub open spec fn spec_difference(self, other: Scopes) -> Scopes {
        Scopes { bits: self.bits & !other.bits }
    }

    pub open spec fn spec_contains(self, other: Scopes) -> bool {
        other@.subset_of(self@)
    }

    pub open spec fn spec_empty() -> Scopes {
        Scopes { bits: 0 }
    }
}

/// The tags of an intersection are those of both sets.
pub proof fn lemma_intersection_tags(a: Scopes, b: Scopes)
    ensures
        a.spec_intersection(b)@ == a@.intersect(b@),
{
    lemma_and_tags(a.bits, b.bits);
    assert(a.spec_intersection(b)@ =~= a@.intersect(b@));
}

/// Sets of one game stay sets of that game: what is made of two of them
/// by union, intersection or difference has no tag of another game.
pub proof fn lemma_operations_stay_within(a: Scopes, b: Scopes, game: Game)
    requires
        a.within(game),
        b.within(game),
    ensures
        a.spec_union(b).within(game),
        a.spec_intersection(b).within(game),
        a.spec_difference(b).within(game),
{
    lemma_or_tags(a.bits, b.bits);
    lemma_and_tags(a.bits, b.bits);
    lemma_and_not_tags(a.bits, b.bits);
}

/// The union of two sets contains both.
pub proof fn lemma_union_contains_both(a: Scopes, b: Scopes)
    ensures
        a.spec_union(b)@ == a@.union(b@),
        a.spec_union(b).spec_contains(a),
        a.spec_union(b).spec_contains(b),
{
    lemma_or_tags(a.bits, b.bits);
    assert(a.spec_union(b)@ =~= a@.union(b@));
}

/// What is left of a set when the set itself is taken away is empty.
pub proof fn lemma_difference_with_self_is_empty(a: Scopes)
    ensures
        a.spec_difference(a) == Scopes::spec_empty(),
        a.spec_difference(a)@ == Set::<nat>::empty(),
{
    let bits = a.bits;
    assert(bits & !bits == 0) by (bit_vector);
    lemma_zero_tags();
    assert(Scopes::spec_empty()@ =~= Set::<nat>::empty());
}

/// What is left of all the tags of a game when the four universal tags are
/// taken away is the set of its non-primitive tags.
pub proof fn lemma_non_primitive_is_all_but_universal(game: Game)
    ensures
        Scopes::spec_all(game).spec_difference(
            Scopes::spec_none().spec_union(Scopes { bits: VALUE }).spec_union(
                Scopes { bits: BOOL },
            ).spec_union(Scopes { bits: FLAG }),
        ) == Scopes::spec_non_primitive(game),
        Scopes::spec_non_primitive(game)@ == Scopes::spec_all(game)@.difference(
            Scopes::spec_universal()@,
        ),
{
    assert(((NONE | VALUE) | BOOL) | FLAG == NONE | VALUE | BOOL | FLAG) by (bit_vector);
    lemma_and_not_tags(vocabulary(game), NONE | VALUE | BOOL | FLAG);
    assert(Scopes::spec_non_primitive(game)@ =~= Scopes::spec_all(game)@.difference(
        Scopes::spec_universal()@,
    ));
}

/// Something that a table lists by name.
pub trait Named {
    spec fn name_view(&self) -> Seq<char>;

    fn name(&self) -> (r: &str)
        ensures
            r@ == self.name_view(),
    ;
}

/// A link from scope types to scope types: `name` takes a value of one of
/// the types in `from` and gives one of the types in `to`.
pub struct Link {
    pub from: Scopes,
    pub name: String,
    pub to: Scopes,
}

/// A prefix that looks up a named thing, as in `character:name`. Where
/// `catalog` is given, the name after the prefix must be in that catalog.
pub struct PrefixLink {
    pub from: Scopes,
    pub name: String,
    pub to: Scopes,
    pub catalog: Option<Item>,
}

/// A link that the game no longer has, with the version that removed it
/// and what to write instead.
pub struct Removed {
    pub name: String,
    pub version: String,
    pub explanation: String,
}

/// The name of a scope type in script.
pub struct ScopeName {
    pub name: String,
    pub scopes: Scopes,
}

impl Named for Link {
    open spec fn name_view(&self) -> Seq<char> {
        self.name@
    }

    fn name(&self) -> (r: &str) {
        self.name.as_str()
    }
}

impl Named for PrefixLink {
    open spec fn name_view(&self) -> Seq<char> {
        self.name@
    }

    fn name(&self) -> (r: &str) {
        self.name.as_str()
    }
}

impl Named for Removed {
    open spec fn name_view(&self) -> Seq<char> {
        self.name@
    }

    fn name(&self) -> (r: &str) {
        self.name.as_str()
    }
}

impl Named for ScopeName {
    open spec fn name_view(&self) -> Seq<char> {
        self.name@
    }

    fn name(&self) -> (r: &str) {
        self.name.as_str()
    }
}

/// The vocabulary and the link tables of one game.
pub struct Tables {
    pub game: Game,
    /// The names of the game's own scope types.
    pub scope_names: Vec<ScopeName>,
    /// The links written after a point, as in `this.culture`.
    pub scope_to_scope: Vec<Link>,
    pub scope_to_scope_removed: Vec<Removed>,
    /// The prefixes, as in `character:name`.
    pub scope_from_prefix: Vec<PrefixLink>,
    /// The iterators, under the name that follows `any_`, `every_`,
    /// `random_` or `ordered_`.
    pub scope_iterator: Vec<Link>,
    pub scope_removed_iterator: Vec<Removed>,
}

impl Tables {
    /// The tables of `game` with the names of its scope types and no links
    /// yet.
    pub fn new(game: Game) -> (tables: Tables)
        ensures
            tables.game == game,
            names_view(tables.scope_names@) == match game {
                Game::Ck3 => crate::ck3::scopes::spec_scope_names(),
                Game::Vic3 => crate::vic3::scopes::spec_scope_names(),
                Game::Imperator => crate::imperator::scopes::spec_scope_names(),
            },
            tables.scope_to_scope@.len() == 0,
            tables.scope_to_scope_removed@.len() == 0,
            tables.scope_from_prefix@.len() == 0,
            tables.scope_iterator@.len() == 0,
            tables.scope_removed_iterator@.len() == 0,
    {
        let scope_names = match game {
            Game::Ck3 => crate::ck3::scopes::scope_names(),
            Game::Vic3 => crate::vic3::scopes::scope_names(),
            Game::Imperator => crate::imperator::scopes::scope_names(),
        };
        Tables {
            game,
            scope_names,
            scope_to_scope: Vec::new(),
            scope_to_scope_removed: Vec::new(),
            scope_from_prefix: Vec::new(),
            scope_iterator: Vec::new(),
            scope_removed_iterator: Vec::new(),
        }
    }
}

/// The index of the first entry at or after `from` whose name is `name`,
/// or -1.
pub open spec fn first_named<T: Named>(table: Seq<T>, name: Seq<char>, from: int) -> int
    decreases table.len() - from,
{
    if from < 0 || from >= table.len() {
        -1
    } else if table[from].name_view() == name {
        from
    } else {
        first_named(table, name, from + 1)
    }
}

fn find_named<T: Named>(table: &Vec<T>, name: &str) -> (r: Option<usize>)
    ensures
        match r {
            Some(i) => i == first_named(table@, name@, 0) && i < table@.len()
                && table@[i as int].name_view() == name@,
            None => first_named(table@, name@, 0) == -1,
        },
{
    let mut i: usize = 0;
    while i < table.len()
        invariant
            i <= table.len(),
            first_named(table@, name@, 0) == first_named(table@, name@, i as int),
        decreases table.len() - i,
    {
        if str_eq(table[i].name(), name) {
            return Some(i);
        }
        i = i + 1;
    }
    None
}

/// `kind` where `inscopes` holds the whole of `of`, else nothing.
pub open spec fn kind_of(inscopes: Scopes, of: u64, kind: u64) -> u64 {
    if inscopes.bits & of == of {
        kind
    } else {
        0
    }
}

/// What Victoria 3's link `type` leads to: for each scope type in
/// `inscopes` that has a type of its own, that type.
pub open spec fn type_output(inscopes: Scopes) -> Scopes {
    Scopes {
        bits: kind_of(inscopes, BUILDING, BUILDING_TYPE) | kind_of(
            inscopes,
            COMMANDER_ORDER,
            COMMANDER_ORDER_TYPE,
        ) | kind_of(inscopes, INSTITUTION, INSTITUTION_TYPE) | kind_of(
            inscopes,
            INTEREST_GROUP,
            INTEREST_GROUP_TYPE,
        ) | kind_of(inscopes, LAW, LAW_TYPE),
    }
}

fn kind_where(inscopes: Scopes, of: u64, kind: u64) -> (r: u64)
    ensures
        r == kind_of(inscopes, of, kind),
{
    if inscopes.bits & of == of {
        kind
    } else {
        0
    }
}

pub open spec fn msg_removed(name: Seq<char>, what: Seq<char>, removed: Removed) -> Seq<char> {
    "`"@ + name + what + removed.version@
}

/// The advice that `name` was removed from the game, with what to write
/// instead as its explanation.
pub open spec fn removed_view(name: Token, what: Seq<char>, removed: Removed) -> DiagnosticView {
    DiagnosticView {
        severity: Severity::Advice,
        key: ErrorKey::Removed,
        msg: msg_removed(name.s@, what, removed),
        loc: name.loc,
        info: Some(removed.explanation@),
        related: None,
    }
}

fn removed_report(name: &Token, what: &str, removed: &Removed) -> (r: Vec<Diagnostic>)
    ensures
        views(r@) == seq![removed_view(*name, what@, *removed)],
{
    let mut msg = String::from_str("`");
    msg.append(name.as_str());
    msg.append(what);
    msg.append(removed.version.as_str());
    let d = Diagnostic::advice(ErrorKey::Removed, msg.as_str(), name.loc).with_info(
        removed.explanation.as_str(),
    );
    let mut r: Vec<Diagnostic> = Vec::new();
    r.push(d);
    assert(views(r@) =~= seq![removed_view(*name, what@, *removed)]);
    r
}

fn no_report() -> (r: Vec<Diagnostic>)
    ensures
        views(r@) == Seq::<DiagnosticView>::empty(),
{
    let r: Vec<Diagnostic> = Vec::new();
    assert(views(r@) =~= Seq::<DiagnosticView>::empty());
    r
}

/// The link that stands under the lower-case name `folded` in the table of
/// links: the first entry of that name; for a name that the game has
/// removed, a link that takes anything and gives anything; else none.
/// Victoria 3's `type` leads to the types of what `inscopes` holds, where
/// it holds any that has one.
pub open spec fn accessor_link_of(tables: &Tables, folded: Seq<char>, inscopes: Scopes) -> Option<
    (Scopes, Scopes),
> {
    let i = first_named(tables.scope_to_scope@, folded, 0);
    if i >= 0 {
        let link = tables.scope_to_scope@[i];
        if tables.game == Game::Vic3 && link.name@ == "type"@ && type_output(inscopes).bits != 0 {
            Some((link.from, type_output(inscopes)))
        } else {
            Some((link.from, link.to))
        }
    } else if first_named(tables.scope_to_scope_removed@, folded, 0) >= 0 {
        Some((Scopes::spec_all(tables.game), Scopes::spec_all(tables.game)))
    } else {
        None
    }
}

/// What looking up the token `name`, whose lower-case form is `folded`,
/// reports: that the game has removed the link, where it has.
pub open spec fn accessor_diags_of(tables: &Tables, folded: Seq<char>, name: Token) -> Seq<
    DiagnosticView,
> {
    let j = first_named(tables.scope_to_scope_removed@, folded, 0);
    if first_named(tables.scope_to_scope@, folded, 0) < 0 && j >= 0 {
        seq![removed_view(name, "` was removed in "@, tables.scope_to_scope_removed@[j])]
    } else {
        Seq::empty()
    }
}

/// The link that `name` stands for after a point, whatever the case of its
/// letters: the link under the lower-case form of `name`.
pub open spec fn accessor_link(tables: &Tables, name: Seq<char>, inscopes: Scopes) -> Option<
    (Scopes, Scopes),
> {
    accessor_link_of(tables, lowercase(name), inscopes)
}

/// What looking up `name` as a link reports.
pub open spec fn accessor_diags(tables: &Tables, name: Token) -> Seq<DiagnosticView> {
    accessor_diags_of(tables, lowercase(name.s@), name)
}

/// Looks up the link of the token `name`, whose lower-case form is
/// `folded`.
pub fn scope_to_scope_folded(name: &Token, folded: &str, inscopes: Scopes, tables: &Tables) -> (r: (
    Option<(Scopes, Scopes)>,
    Vec<Diagnostic>,
))
    ensures
        r.0 == accessor_link_of(tables, folded@, inscopes),
        views(r.1@) == accessor_diags_of(tables, folded@, *name),
{
    match find_named(&tables.scope_to_scope, folded) {
        Some(i) => {
            let link = &tables.scope_to_scope[i];
            if tables.game == Game::Vic3 && str_eq(link.name.as_str(), "type") {
                let out = kind_where(inscopes, BUILDING, BUILDING_TYPE) | kind_where(
                    inscopes,
                    COMMANDER_ORDER,
                    COMMANDER_ORDER_TYPE,
                ) | kind_where(inscopes, INSTITUTION, INSTITUTION_TYPE) | kind_where(
                    inscopes,
                    INTEREST_GROUP,
                    INTEREST_GROUP_TYPE,
                ) | kind_where(inscopes, LAW, LAW_TYPE);
                if out != 0 {
                    return (Some((link.from, Scopes { bits: out })), no_report());
                }
            }
            (Some((link.from, link.to)), no_report())
        },
        None => match find_named(&tables.scope_to_scope_removed, folded) {
            Some(j) => (
                Some((Scopes::all(tables.game), Scopes::all(tables.game))),
                removed_report(name, "` was removed in ", &tables.scope_to_scope_removed[j]),
            ),
            None => (None, no_report()),
        },
    }
}

/// Looks up a link: a script token that leads from a scope value to
/// something related to it. The case of its letters does not matter.
///
/// `inscopes` is what is known of the scope that the token is applied to.
/// Returns the scope types that the token accepts and those that it may
/// give, and what there is to report.
pub fn scope_to_scope(name: &Token, inscopes: Scopes, tables: &Tables) -> (r: (
    Option<(Scopes, Scopes)>,
    Vec<Diagnostic>,
))
    ensures
        r.0 == accessor_link(tables, name.s@, inscopes),
        views(r.1@) == accessor_diags(tables, *name),
{
    let folded = to_lowercase(name.as_str());
    scope_to_scope_folded(name, folded.as_str(), inscopes, tables)
}

/// The link that stands under the lower-case name `folded` in the table of
/// prefixes: the first entry of that name.
pub open spec fn prefix_link_of(tables: &Tables, folded: Seq<char>) -> Option<(Scopes, Scopes)> {
    let i = first_named(tables.scope_from_prefix@, folded, 0);
    if i >= 0 {
        Some((tables.scope_from_prefix@[i].from, tables.scope_from_prefix@[i].to))
    } else {
        None
    }
}

/// The link that the prefix `prefix` stands for, whatever the case of its
/// letters.
pub open spec fn prefix_link(tables: &Tables, prefix: Seq<char>) -> Option<(Scopes, Scopes)> {
    prefix_link_of(tables, lowercase(prefix))
}

/// Looks up the prefix whose lower-case form is `folded`.
pub fn scope_prefix_folded(folded: &str, tables: &Tables) -> (r: Option<(Scopes, Scopes)>)
    ensures
        r == prefix_link_of(tables, folded@),
{
    match find_named(&tables.scope_from_prefix, folded) {
        Some(i) => Some((tables.scope_from_prefix[i].from, tables.scope_from_prefix[i].to)),
        None => None,
    }
}

/// Looks up a prefix: a token that fetches a named thing, such as
/// `character` in `character:alexander_the_great`. The case of its letters
/// does not matter.
///
/// Returns the scope types that it accepts (none where it needs no input)
/// and those that it may give.
pub fn scope_prefix(prefix: &str, tables: &Tables) -> (r: Option<(Scopes, Scopes)>)
    ensures
        r == prefix_link(tables, prefix@),
{
    let folded = to_lowercase(prefix);
    scope_prefix_folded(folded.as_str(), tables)
}

/// Tokens that differ only in the case of their letters stand for the same
/// link, and prefixes for the same prefix.
pub proof fn lemma_lookup_ignores_case(tables: &Tables, a: Token, b: Token, inscopes: Scopes)
    requires
        lowercase(a.s@) == lowercase(b.s@),
    ensures
        accessor_link(tables, a.s@, inscopes) == accessor_link(tables, b.s@, inscopes),
        accessor_diags(tables, a).len() == accessor_diags(tables, b).len(),
        prefix_link(tables, a.s@) == prefix_link(tables, b.s@),
{
}

pub open spec fn msg_missing_item(prefix: Seq<char>, arg: Seq<char>) -> Seq<char> {
    "`"@ + arg + "` not found as "@ + prefix
}

/// What a reference to `arg` reports under the prefix whose lower-case
/// form is `folded`: that `arg` is not in the catalog of the prefix, where
/// the prefix has one and `arg` is not in it.
pub open spec fn prefix_reference_diags_of(
    tables: &Tables,
    data: &Everything,
    folded: Seq<char>,
    arg: Token,
) -> Seq<DiagnosticView> {
    let i = first_named(tables.scope_from_prefix@, folded, 0);
    if i >= 0 && tables.scope_from_prefix@[i].catalog is Some && !data.has_item(
        tables.scope_from_prefix@[i].catalog->0,
        arg.s@,
    ) {
        seq![
            DiagnosticView {
                severity: Severity::Error,
                key: ErrorKey::MissingItem,
                msg: msg_missing_item(tables.scope_from_prefix@[i].name@, arg.s@),
                loc: arg.loc,
                info: None,
                related: None,
            },
        ]
    } else {
        Seq::empty()
    }
}

/// What a reference `prefix:arg` reports, whatever the case of the letters
/// of `prefix`.
pub open spec fn prefix_reference_diags(
    tables: &Tables,
    data: &Everything,
    prefix: Token,
    arg: Token,
) -> Seq<DiagnosticView> {
    prefix_reference_diags_of(tables, data, lowercase(prefix.s@), arg)
}

/// Checks the name `arg` after the prefix whose lower-case form is
/// `folded`.
pub fn validate_prefix_reference_folded(
    folded: &str,
    arg: &Token,
    data: &Everything,
    tables: &Tables,
) -> (r: Vec<Diagnostic>)
    ensures
        views(r@) == prefix_reference_diags_of(tables, data, folded@, *arg),
{
    match find_named(&tables.scope_from_prefix, folded) {
        Some(i) => {
            let entry = &tables.scope_from_prefix[i];
            match entry.catalog {
                Some(kind) => {
                    if data.item_exists(kind, arg.as_str()) {
                        no_report()
                    } else {
                        let mut msg = String::from_str("`");
                        msg.append(arg.as_str());
                        msg.append("` not found as ");
                        msg.append(entry.name.as_str());
                        let d = Diagnostic::error(ErrorKey::MissingItem, msg.as_str(), arg.loc);
                        let mut r: Vec<Diagnostic> = Vec::new();
                        r.push(d);
                        assert(views(r@) =~= prefix_reference_diags_of(
                            tables,
                            data,
                            folded@,
                            *arg,
                        ));
                        r
                    }
                },
                None => no_report(),
            }
        },
        None => no_report(),
    }
}

/// Checks that the name after a prefix is there in the catalog that the
/// prefix looks it up in.
pub fn validate_prefix_reference(prefix: &Token, arg: &Token, data: &Everything, tables: &Tables) -> (r:
    Vec<Diagnostic>)
    ensures
        views(r@) == prefix_reference_diags(tables, data, *prefix, *arg),
{
    let folded = to_lowercase(prefix.as_str());
    validate_prefix_reference_folded(folded.as_str(), arg, data, tables)
}

/// Whether entry `i` says that `arg` is a thing of type `scopes`.
pub open spec fn prefix_fits(
    tables: &Tables,
    data: &Everything,
    arg: Seq<char>,
    scopes: Scopes,
    i: int,
) -> bool {
    let entry = tables.scope_from_prefix@[i];
    entry.to == scopes && entry.catalog is Some && data.has_item(entry.catalog->0, arg)
}

/// The index of the first prefix at or after `from` that gives `scopes`
/// and in whose catalog `arg` is, or -1.
pub open spec fn fitting_prefix(
    tables: &Tables,
    data: &Everything,
    arg: Seq<char>,
    scopes: Scopes,
    from: int,
) -> int
    decreases tables.scope_from_prefix@.len() - from,
{
    if from < 0 || from >= tables.scope_from_prefix@.len() {
        -1
    } else if prefix_fits(tables, data, arg, scopes, from) {
        from
    } else {
        fitting_prefix(tables, data, arg, scopes, from + 1)
    }
}

/// For a token that is no valid target: the prefix that it may be
/// missing. `scopes` is the one scope type that is wanted.
///
/// Where `arg` is `irish` and `scopes` is the culture type, the result is
/// `culture`, to say that `culture:irish` was meant.
pub fn needs_prefix<'a>(arg: &str, data: &Everything, scopes: Scopes, tables: &'a Tables) -> (r:
    Option<&'a str>)
    ensures
        ({
            let i = fitting_prefix(tables, data, arg@, scopes, 0);
            if i >= 0 {
                r is Some && r->0@ == tables.scope_from_prefix@[i].name@
            } else {
                r is None
            }
        }),
{
    let mut i: usize = 0;
    while i < tables.scope_from_prefix.len()
        invariant
            i <= tables.scope_from_prefix.len(),
            fitting_prefix(tables, data, arg@, scopes, 0) == fitting_prefix(
                tables,
                data,
                arg@,
                scopes,
                i as int,
            ),
        decreases tables.scope_from_prefix.len() - i,
    {
        let entry = &tables.scope_from_prefix[i];
        if entry.to == scopes {
            match entry.catalog {
                Some(kind) => {
                    if data.item_exists(kind, arg) {
                        return Some(entry.name.as_str());
                    }
                },
                None => {},
            }
        }
        i = i + 1;
    }
    None
}

/// What the name of an iterator is found to be.
#[derive(Clone, Copy, Debug, PartialEq, Eq, Structural)]
pub enum IteratorStep {
    /// A built-in iterator, with what it accepts and gives.
    Found(Scopes, Scopes),
    /// An iterator that the game has removed: its place in the table.
    Gone(usize),
    /// A scripted list: its place among the scripted lists.
    Based(usize),
    /// Nothing of that name.
    Unknown,
}

/// What the name `name`, whose lower-case form is `folded`, is found to
/// be: a built-in iterator of the name `folded`; else one of that name
/// that the game has removed; else a scripted list called `name`.
pub open spec fn iterator_step_of(
    tables: &Tables,
    data: &Everything,
    folded: Seq<char>,
    name: Seq<char>,
) -> IteratorStep {
    let i = first_named(tables.scope_iterator@, folded, 0);
    let j = first_named(tables.scope_removed_iterator@, folded, 0);
    let k = list_index(data.scripted_lists@, name, 0);
    if i >= 0 {
        IteratorStep::Found(tables.scope_iterator@[i].from, tables.scope_iterator@[i].to)
    } else if j >= 0 {
        IteratorStep::Gone(j as usize)
    } else if k >= 0 {
        IteratorStep::Based(k as usize)
    } else {
        IteratorStep::Unknown
    }
}

/// How the lookup of an iterator ends.
pub enum IteratorLookup {
    /// A built-in iterator, with what it accepts and gives.
    Found(Scopes, Scopes),
    /// An iterator that the game has removed: its place in the table.
    Gone(usize),
    /// A scripted list whose bases lead on without end.
    Cyclic,
    /// Nothing of that name.
    Unknown,
}

/// Looks up the iterator `name`, whatever the case of its letters,
/// following at most `depth` scripted lists to their bases.
pub open spec fn iterator_lookup(tables: &Tables, data: &Everything, name: Seq<char>, depth: nat) -> IteratorLookup
    decreases depth,
{
    match iterator_step_of(tables, data, lowercase(name), name) {
        IteratorStep::Found(from, to) => IteratorLookup::Found(from, to),
        IteratorStep::Gone(j) => IteratorLookup::Gone(j),
        IteratorStep::Based(k) => if depth == 0 {
            IteratorLookup::Cyclic
        } else {
            iterator_lookup(tables, data, data.scripted_lists@[k as int].base.s@, (depth - 1) as nat)
        },
        IteratorStep::Unknown => IteratorLookup::Unknown,
    }
}

/// The token that the lookup of `name` ends at.
pub open spec fn iterator_end(tables: &Tables, data: &Everything, name: Token, depth: nat) -> Token
    decreases depth,
{
    match iterator_step_of(tables, data, lowercase(name.s@), name.s@) {
        IteratorStep::Based(k) => if depth == 0 {
            name
        } else {
            iterator_end(tables, data, data.scripted_lists@[k as int].base, (depth - 1) as nat)
        },
        _ => name,
    }
}

/// The link that a lookup gives: for an iterator that was removed, and for
/// a list without end, one that takes and gives anything.
pub open spec fn iterator_link(tables: &Tables, found: IteratorLookup) -> Option<(Scopes, Scopes)> {
    match found {
        IteratorLookup::Found(from, to) => Some((from, to)),
        IteratorLookup::Gone(_) => Some((Scopes::spec_all(tables.game), Scopes::spec_all(tables.game))),
        IteratorLookup::Cyclic => Some(
            (Scopes::spec_all(tables.game), Scopes::spec_all(tables.game)),
        ),
        IteratorLookup::Unknown => None,
    }
}

pub open spec fn cyclic_view(name: Token) -> DiagnosticView {
    DiagnosticView {
        severity: Severity::Error,
        key: ErrorKey::CyclicDefinition,
        msg: "scripted list `"@ + name.s@ + "` is based on itself"@,
        loc: name.loc,
        info: None,
        related: None,
    }
}

/// What a lookup reports, where `end` is the token that it ended at.
pub open spec fn iterator_diags(tables: &Tables, found: IteratorLookup, end: Token) -> Seq<
    DiagnosticView,
> {
    match found {
        IteratorLookup::Gone(j) => seq![
            removed_view(
                end,
                "` iterators were removed in "@,
                tables.scope_removed_iterator@[j as int],
            ),
        ],
        IteratorLookup::Cyclic => seq![cyclic_view(end)],
        _ => Seq::empty(),
    }
}

/// Finds what the name `name` of an iterator, whose lower-case form is
/// `folded`, is.
pub fn scope_iterator_step(name: &str, folded: &str, data: &Everything, tables: &Tables) -> (r:
    IteratorStep)
    ensures
        r == iterator_step_of(tables, data, folded@, name@),
        r matches IteratorStep::Gone(j) ==> j < tables.scope_removed_iterator@.len(),
        r matches IteratorStep::Based(k) ==> k < data.scripted_lists@.len(),
{
    match find_named(&tables.scope_iterator, folded) {
        Some(i) => {
            return IteratorStep::Found(tables.scope_iterator[i].from, tables.scope_iterator[i].to);
        },
        None => {},
    }
    match find_named(&tables.scope_removed_iterator, folded) {
        Some(j) => {
            return IteratorStep::Gone(j);
        },
        None => {},
    }
    match data.find_scripted_list(name) {
        Some(k) => IteratorStep::Based(k),
        None => IteratorStep::Unknown,
    }
}

/// Looks up an iterator: a script element that runs its block once for
/// each of a number of scope values. It may be built in or a scripted list.
///
/// `name` is the iterator's name without `any_`, `every_`, `random_` or
/// `ordered_`; the case of its letters does not matter where it is built
/// in. A scripted list is walked as its base is; no more lists are
/// followed than there are, and a chain that is longer is reported as
/// based on itself.
///
/// Returns the scope types that it accepts (none where it needs no input)
/// and those that it may give, and what there is to report.
pub fn scope_iterator(name: &Token, data: &Everything, tables: &Tables) -> (r: (
    Option<(Scopes, Scopes)>,
    Vec<Diagnostic>,
))
    ensures
        ({
            let depth = data.scripted_lists@.len();
            let found = iterator_lookup(tables, data, name.s@, depth);
            &&& r.0 == iterator_link(tables, found)
            &&& views(r.1@) == iterator_diags(
                tables,
                found,
                iterator_end(tables, data, *name, depth),
            )
        }),
{
    let ghost whole = data.scripted_lists@.len();
    let mut current: &Token = name;
    let mut left: usize = data.scripted_lists.len();
    loop
        invariant
            left <= whole,
            whole == data.scripted_lists@.len(),
            iterator_lookup(tables, data, name.s@, whole) == iterator_lookup(
                tables,
                data,
                current.s@,
                left as nat,
            ),
            iterator_end(tables, data, *name, whole) == iterator_end(
                tables,
                data,
                *current,
                left as nat,
            ),
        decreases left,
    {
        let folded = to_lowercase(current.as_str());
        match scope_iterator_step(current.as_str(), folded.as_str(), data, tables) {
            IteratorStep::Found(from, to) => {
                return (Some((from, to)), no_report());
            },
            IteratorStep::Gone(j) => {
                return (
                    Some((Scopes::all(tables.game), Scopes::all(tables.game))),
                    removed_report(
                        current,
                        "` iterators were removed in ",
                        &tables.scope_removed_iterator[j],
                    ),
                );
            },
            IteratorStep::Based(k) => {
                if left == 0 {
                    let mut msg = String::from_str("scripted list `");
                    msg.append(current.as_str());
                    msg.append("` is based on itself");
                    let d = Diagnostic::error(
                        ErrorKey::CyclicDefinition,
                        msg.as_str(),
                        current.loc,
                    );
                    let mut r: Vec<Diagnostic> = Vec::new();
                    r.push(d);
                    assert(views(r@) =~= seq![cyclic_view(*current)]);
                    return (Some((Scopes::all(tables.game), Scopes::all(tables.game))), r);
                }
                left = left - 1;
                current = &data.scripted_lists[k].base;
            },
            IteratorStep::Unknown => {
                return (None, no_report());
            },
        }
    }
}

/// The names in a table with the bit patterns that they stand for.
pub open spec fn names_view(names: Seq<ScopeName>) -> Seq<(Seq<char>, u64)> {
    Seq::new(names.len(), |i: int| (names[i].name@, names[i].scopes.bits))
}

/// Adds to `names` the name `name` for the scope type with the bit
/// pattern `bits`.
pub fn add_scope_name(names: &mut Vec<ScopeName>, name: &str, bits: u64)
    ensures
        names_view(final(names)@) == names_view(old(names)@).push((name@, bits)),
{
    names.push(ScopeName { name: String::from_str(name), scopes: Scopes { bits } });
    assert(names_view(names@) =~= names_view(old(names)@).push((name@, bits)));
}

/// The names of the tags of a game with their bit patterns: the four
/// universal ones first, then the game's own in the order of its table.
pub open spec fn tag_names(names: Seq<ScopeName>) -> Seq<(Seq<char>, u64)> {
    seq![("none"@, NONE), ("value"@, VALUE), ("bool"@, BOOL), ("flag"@, FLAG)] + names_view(names)
}

/// The names of those of the first `n` tags that `bits` holds, separated
/// by strokes.
pub open spec fn listing(bits: u64, names: Seq<(Seq<char>, u64)>, n: int) -> Seq<char>
    decreases n,
{
    if n <= 0 {
        Seq::empty()
    } else {
        listed_with(listing(bits, names, n - 1), bits, names[n - 1])
    }
}

/// `rest` with the name of the tag `entry` added, where `bits` holds it.
pub open spec fn listed_with(rest: Seq<char>, bits: u64, entry: (Seq<char>, u64)) -> Seq<char> {
    if entry.1 != 0 && bits & entry.1 == entry.1 {
        if rest.len() == 0 {
            entry.0
        } else {
            rest + "/"@ + entry.0
        }
    } else {
        rest
    }
}

/// How a set of scope types reads in a message.
pub open spec fn description(scopes: Scopes, tables: &Tables) -> Seq<char> {
    if scopes == Scopes::spec_all(tables.game) {
        "any scope"@
    } else if scopes == Scopes::spec_primitive() {
        "any primitive scope"@
    } else if scopes == Scopes::spec_non_primitive(tables.game) {
        "non-primitive scope"@
    } else if scopes == Scopes::spec_all_but_none(tables.game) {
        "any except none scope"@
    } else {
        listing(scopes.bits, tag_names(tables.scope_names@), 4 + tables.scope_names@.len() as int)
    }
}

/// The scope type that `s` names: one of the four universal ones, or the
/// first entry of the game's table with that name.
pub open spec fn named_scopes(s: Seq<char>, tables: &Tables) -> Option<Scopes> {
    if s == "none"@ {
        Some(Scopes { bits: NONE })
    } else if s == "value"@ {
        Some(Scopes { bits: VALUE })
    } else if s == "bool"@ {
        Some(Scopes { bits: BOOL })
    } else if s == "flag"@ {
        Some(Scopes { bits: FLAG })
    } else {
        let i = first_named(tables.scope_names@, s, 0);
        if i >= 0 {
            Some(tables.scope_names@[i].scopes)
        } else {
            None
        }
    }
}

fn list_tag(out: &mut String, bits: u64, name: &str, tag: u64)
    ensures
        final(out)@ == listed_with(old(out)@, bits, (name@, tag)),
{
    if tag != 0 && bits & tag == tag {
        if out.as_str().is_empty() {
            out.append(name);
            assert(out@ =~= name@);
        } else {
            out.append("/");
            out.append(name);
        }
    }
}

impl Scopes {
    /// The scope type that is written `s` in script.
    pub fn from_snake_case(s: &str, tables: &Tables) -> (r: Option<Scopes>)
        ensures
            r == named_scopes(s@, tables),
    {
        if str_eq(s, "none") {
            return Some(Scopes { bits: NONE });
        }
        if str_eq(s, "value") {
            return Some(Scopes { bits: VALUE });
        }
        if str_eq(s, "bool") {
            return Some(Scopes { bits: BOOL });
        }
        if str_eq(s, "flag") {
            return Some(Scopes { bits: FLAG });
        }
        match find_named(&tables.scope_names, s) {
            Some(i) => Some(tables.scope_names[i].scopes),
            None => None,
        }
    }

    /// The set as it reads in a message: a phrase for each of the four
    /// sets that have one, else the names of its tags.
    pub fn describe(self, tables: &Tables) -> (r: String)
        ensures
            r@ == description(self, tables),
    {
        if self == Scopes::all(tables.game) {
            return String::from_str("any scope");
        }
        if self == Scopes::primitive() {
            return String::from_str("any primitive scope");
        }
        if self == Scopes::non_primitive(tables.game) {
            return String::from_str("non-primitive scope");
        }
        if self == Scopes::all_but_none(tables.game) {
            return String::from_str("any except none scope");
        }
        let ghost names = tag_names(tables.scope_names@);
        let mut out = String::new();
        list_tag(&mut out, self.bits, "none", NONE);
        list_tag(&mut out, self.bits, "value", VALUE);
        list_tag(&mut out, self.bits, "bool", BOOL);
        list_tag(&mut out, self.bits, "flag", FLAG);
        proof {
            reveal_with_fuel(listing, 5);
            assert(out@ == listing(self.bits, names, 4));
        }
        let mut i: usize = 0;
        while i < tables.scope_names.len()
            invariant
                i <= tables.scope_names.len(),
                names == tag_names(tables.scope_names@),
                out@ == listing(self.bits, names, 4 + i),
            decreases tables.scope_names.len() - i,
        {
            let entry = &tables.scope_names[i];
            list_tag(&mut out, self.bits, entry.name.as_str(), entry.scopes.bits);
            assert(names[4 + i] == (entry.name@, entry.scopes.bits));
            i = i + 1;
        }
        out
    }
}

} // verus!
