use tiger_lib::context::ScopeContext;
use tiger_lib::everything::{Everything, ScriptedList};
use tiger_lib::game::Game;
use tiger_lib::item::Item;
use tiger_lib::report::{ErrorKey, Severity};
use tiger_lib::scopes::{
    needs_prefix, scope_iterator, scope_iterator_step, scope_prefix, scope_prefix_folded,
    scope_to_scope, scope_to_scope_folded, validate_prefix_reference,
    validate_prefix_reference_folded, IteratorStep, Link,
    PrefixLink, Removed, ScopeName, Scopes, Tables, ALL_CK3, ALL_IMPERATOR, ALL_VIC3, BOOL,
    CHARACTER, CULTURE, FLAG, NONE, PROVINCE, VALUE,
};
use tiger_lib::token::{FileKind, Loc, Token};
use tiger_lib::{ck3, imperator, vic3};

fn loc(line: u32, column: u32) -> Loc {
    Loc::new(FileKind::Mod, 0, line, column)
}

fn tok(s: &str, line: u32, column: u32) -> Token {
    Token::new(s, loc(line, column))
}

fn s(bits: u64) -> Scopes {
    Scopes::from_bits(bits)
}

fn link(from: u64, name: &str, to: u64) -> Link {
    Link { from: s(from), name: name.to_string(), to: s(to) }
}

fn removed(name: &str, version: &str, explanation: &str) -> Removed {
    Removed {
        name: name.to_string(),
        version: version.to_string(),
        explanation: explanation.to_string(),
    }
}

fn scope_name(name: &str, bits: u64) -> ScopeName {
    ScopeName { name: name.to_string(), scopes: s(bits) }
}

fn ck3_tables() -> Tables {
    Tables {
        game: Game::Ck3,
        scope_names: vec![
            scope_name("character", CHARACTER),
            scope_name("culture", CULTURE),
            scope_name("province", PROVINCE),
            scope_name("faith", ck3::scopes::FAITH),
            scope_name("doctrine", ck3::scopes::DOCTRINE),
        ],
        scope_to_scope: vec![
            link(CHARACTER, "culture", CULTURE),
            link(ck3::scopes::FAITH, "faith_doctrine", ck3::scopes::DOCTRINE),
            link(CHARACTER | PROVINCE, "faith", ck3::scopes::FAITH),
            link(CHARACTER, "faith", CULTURE),
            link(CHARACTER, "type", CULTURE),
        ],
        scope_to_scope_removed: vec![removed("primary_heir_old", "1.9", "use primary_heir")],
        scope_from_prefix: vec![
            PrefixLink {
                from: s(NONE),
                name: "character".to_string(),
                to: s(CHARACTER),
                catalog: Some(Item::Character),
            },
            PrefixLink {
                from: s(NONE),
                name: "culture".to_string(),
                to: s(CULTURE),
                catalog: Some(Item::Culture),
            },
            PrefixLink { from: s(NONE), name: "scope".to_string(), to: s(ALL_CK3), catalog: None },
        ],
        scope_iterator: vec![link(CHARACTER, "child", CHARACTER), link(NONE, "county", PROVINCE)],
        scope_removed_iterator: vec![removed("spouse_candidate", "1.5", "no longer there")],
    }
}

fn vic3_tables() -> Tables {
    Tables {
        game: Game::Vic3,
        scope_names: vec![scope_name("building", vic3::scopes::BUILDING)],
        scope_to_scope: vec![link(
            vic3::scopes::BUILDING | vic3::scopes::LAW | vic3::scopes::INSTITUTION,
            "type",
            vic3::scopes::BUILDING_TYPE | vic3::scopes::LAW_TYPE | vic3::scopes::INSTITUTION_TYPE,
        )],
        scope_to_scope_removed: vec![],
        scope_from_prefix: vec![],
        scope_iterator: vec![],
        scope_removed_iterator: vec![],
    }
}

#[test]
fn union_contains_both() {
    let a = s(CHARACTER | VALUE);
    let b = s(CULTURE | VALUE);
    let u = a.union(b);
    assert_eq!(u.bits(), CHARACTER | CULTURE | VALUE);
    assert!(u.contains(a));
    assert!(u.contains(b));
    assert!(!a.contains(u));
}

#[test]
fn difference_with_itself_is_empty() {
    let a = s(CHARACTER | VALUE | PROVINCE);
    assert!(a.difference(a).is_empty());
    assert_eq!(a.difference(a), Scopes::empty());
    assert_eq!(a.difference(s(VALUE)).bits(), CHARACTER | PROVINCE);
}

#[test]
fn all_without_the_universal_tags_is_non_primitive() {
    for game in [Game::Ck3, Game::Vic3, Game::Imperator] {
        let universal = Scopes::none().union(s(VALUE)).union(s(BOOL)).union(s(FLAG));
        assert_eq!(Scopes::all(game).difference(universal), Scopes::non_primitive(game));
    }
    assert_eq!(Scopes::non_primitive(Game::Ck3).bits(), 0x000f_ffff_ffff_29c0);
    assert_eq!(Scopes::non_primitive(Game::Imperator).bits(), 0x7fff_3ff0);
}

#[test]
fn named_sets() {
    assert_eq!(Scopes::none().bits(), 1);
    assert_eq!(Scopes::primitive().bits(), 0xe);
    assert_eq!(Scopes::all_but_none(Game::Vic3).bits(), 0x07ff_ffff_ffff_3ffe);
    assert_eq!(Scopes::all(Game::Ck3).bits(), ALL_CK3);
    assert_eq!(Scopes::all(Game::Vic3).bits(), ALL_VIC3);
    assert_eq!(Scopes::all(Game::Imperator).bits(), ALL_IMPERATOR);
    assert!(Scopes::empty().is_empty());
    assert!(!Scopes::none().is_empty());
}

#[test]
fn vocabularies_are_the_sums_of_their_tags() {
    let universal = NONE | VALUE | BOOL | FLAG;
    let ck3_shared = ck3::scopes::CHARACTER
        | ck3::scopes::CULTURE
        | ck3::scopes::PROVINCE
        | ck3::scopes::RELIGION
        | ck3::scopes::WAR;
    let mut ck3_own = 0u64;
    let mut bit = ck3::scopes::ACCOLADE;
    while bit <= ck3::scopes::TAX_SLOT {
        ck3_own |= bit;
        bit <<= 1;
    }
    assert_eq!(universal | ck3_shared | ck3_own, ALL_CK3);

    let shared = vic3::scopes::COLOR
        | vic3::scopes::COUNTRY
        | vic3::scopes::CHARACTER
        | vic3::scopes::CULTURE
        | vic3::scopes::PROVINCE
        | vic3::scopes::POP
        | vic3::scopes::PARTY
        | vic3::scopes::RELIGION
        | vic3::scopes::STATE
        | vic3::scopes::WAR;
    let mut vic3_own = 0u64;
    let mut bit = vic3::scopes::BATTLE;
    while bit <= vic3::scopes::TRADE_ROUTE {
        vic3_own |= bit;
        bit <<= 1;
    }
    assert_eq!(universal | shared | vic3_own, ALL_VIC3);

    let mut imperator_own = 0u64;
    let mut bit = imperator::scopes::AREA;
    while bit <= imperator::scopes::UNIT {
        imperator_own |= bit;
        bit <<= 1;
    }
    assert_eq!(universal | shared | imperator_own, ALL_IMPERATOR);
    assert_eq!(ck3::scopes::TAX_SLOT, 0x0008_0000_0000_0000);
    assert_eq!(ck3::scopes::FAITH, 0x0000_0004_0000_0000);
    assert_eq!(vic3::scopes::TRADE_ROUTE, 0x0400_0000_0000_0000);
    assert_eq!(vic3::scopes::LAW, 0x0000_1000_0000_0000);
    assert_eq!(imperator::scopes::UNIT, 0x4000_0000);
}

#[test]
fn intersection_and_intersects() {
    let a = s(CHARACTER | VALUE);
    let b = s(CULTURE | VALUE);
    assert_eq!(a.intersection(b), s(VALUE));
    assert!(a.intersects(b));
    assert!(!a.intersects(s(CULTURE)));
    assert!(a.contains(Scopes::empty()));
}

#[test]
fn within_a_game() {
    assert!(s(CHARACTER).is_within(Game::Ck3));
    assert!(!s(tiger_lib::scopes::COUNTRY).is_within(Game::Ck3));
    assert!(s(tiger_lib::scopes::COUNTRY).is_within(Game::Imperator));
    assert!(!s(vic3::scopes::TRADE_ROUTE).is_within(Game::Imperator));
}

#[test]
fn from_snake_case_knows_the_universal_names_and_the_table() {
    let tables = ck3_tables();
    assert_eq!(Scopes::from_snake_case("none", &tables), Some(s(NONE)));
    assert_eq!(Scopes::from_snake_case("value", &tables), Some(s(VALUE)));
    assert_eq!(Scopes::from_snake_case("bool", &tables), Some(s(BOOL)));
    assert_eq!(Scopes::from_snake_case("flag", &tables), Some(s(FLAG)));
    assert_eq!(Scopes::from_snake_case("faith", &tables), Some(s(ck3::scopes::FAITH)));
    assert_eq!(Scopes::from_snake_case("Faith", &tables), None);
    assert_eq!(Scopes::from_snake_case("building", &tables), None);
    assert_eq!(Scopes::from_snake_case("", &tables), None);
}

#[test]
fn describe_names_the_four_sets_and_lists_the_rest() {
    let tables = ck3_tables();
    assert_eq!(Scopes::all(Game::Ck3).describe(&tables), "any scope");
    assert_eq!(Scopes::primitive().describe(&tables), "any primitive scope");
    assert_eq!(Scopes::non_primitive(Game::Ck3).describe(&tables), "non-primitive scope");
    assert_eq!(Scopes::all_but_none(Game::Ck3).describe(&tables), "any except none scope");
    assert_eq!(s(CHARACTER).describe(&tables), "character");
    assert_eq!(s(CHARACTER | BOOL | ck3::scopes::FAITH).describe(&tables), "bool/character/faith");
    assert_eq!(s(NONE | VALUE).describe(&tables), "none/value");
    assert_eq!(Scopes::empty().describe(&tables), "");
    // A tag that the table has no name for is not listed.
    assert_eq!(s(ck3::scopes::ARMY | CULTURE).describe(&tables), "culture");
    // Another game has another vocabulary.
    assert_eq!(s(vic3::scopes::BUILDING | BOOL).describe(&vic3_tables()), "bool/building");
    assert_eq!(Scopes::all(Game::Vic3).describe(&vic3_tables()), "any scope");
}

#[test]
fn link_lookup_ignores_case_and_takes_the_first_entry() {
    let tables = ck3_tables();
    let (found, diags) = scope_to_scope(&tok("Culture", 1, 1), s(CHARACTER), &tables);
    assert_eq!(found, Some((s(CHARACTER), s(CULTURE))));
    assert_eq!(diags, vec![]);
    let (found, _) = scope_to_scope(&tok("FAITH", 1, 1), s(CHARACTER), &tables);
    assert_eq!(found, Some((s(CHARACTER | PROVINCE), s(ck3::scopes::FAITH))));
    let (found, diags) = scope_to_scope(&tok("nothing", 1, 1), s(CHARACTER), &tables);
    assert_eq!(found, None);
    assert_eq!(diags, vec![]);
}

#[test]
fn removed_link_is_advised_and_permissive() {
    let tables = ck3_tables();
    let (found, diags) = scope_to_scope(&tok("primary_heir_old", 4, 2), s(CHARACTER), &tables);
    assert_eq!(found, Some((Scopes::all(Game::Ck3), Scopes::all(Game::Ck3))));
    assert_eq!(diags.len(), 1);
    assert_eq!(diags[0].key, ErrorKey::Removed);
    assert_eq!(diags[0].severity, Severity::Advice);
    assert_eq!(diags[0].loc, loc(4, 2));
    assert_eq!(diags[0].msg, "`primary_heir_old` was removed in 1.9");
    assert_eq!(diags[0].info, Some("use primary_heir".to_string()));
    // Whatever the case of its letters.
    let (found, diags) = scope_to_scope(&tok("Primary_Heir_OLD", 4, 2), s(CHARACTER), &tables);
    assert_eq!(found, Some((Scopes::all(Game::Ck3), Scopes::all(Game::Ck3))));
    assert_eq!(diags[0].msg, "`Primary_Heir_OLD` was removed in 1.9");
}

#[test]
fn type_depends_on_the_scope_in_victoria() {
    let tables = vic3_tables();
    let from = s(vic3::scopes::BUILDING | vic3::scopes::LAW | vic3::scopes::INSTITUTION);
    let (found, _) = scope_to_scope(&tok("type", 1, 1), s(vic3::scopes::BUILDING), &tables);
    assert_eq!(found, Some((from, s(vic3::scopes::BUILDING_TYPE))));
    let (found, _) = scope_to_scope(
        &tok("type", 1, 1),
        s(vic3::scopes::LAW | vic3::scopes::INSTITUTION | vic3::scopes::CHARACTER),
        &tables,
    );
    assert_eq!(found, Some((from, s(vic3::scopes::LAW_TYPE | vic3::scopes::INSTITUTION_TYPE))));
    let (found, _) = scope_to_scope(
        &tok("type", 1, 1),
        s(vic3::scopes::COMMANDER_ORDER | vic3::scopes::INTEREST_GROUP),
        &tables,
    );
    assert_eq!(
        found,
        Some((
            from,
            s(vic3::scopes::COMMANDER_ORDER_TYPE | vic3::scopes::INTEREST_GROUP_TYPE)
        ))
    );
    // Nothing in the scope has a type of its own: the table's output stands.
    let (found, _) = scope_to_scope(&tok("type", 1, 1), s(vic3::scopes::CHARACTER), &tables);
    assert_eq!(
        found,
        Some((
            from,
            s(vic3::scopes::BUILDING_TYPE | vic3::scopes::LAW_TYPE | vic3::scopes::INSTITUTION_TYPE)
        ))
    );
    // In another game `type` is a link like any other.
    let (found, _) = scope_to_scope(&tok("type", 1, 1), s(vic3::scopes::BUILDING), &ck3_tables());
    assert_eq!(found, Some((s(CHARACTER), s(CULTURE))));
}

#[test]
fn prefix_lookup() {
    let tables = ck3_tables();
    assert_eq!(scope_prefix("character", &tables), Some((s(NONE), s(CHARACTER))));
    assert_eq!(scope_prefix("CULTURE", &tables), Some((s(NONE), s(CULTURE))));
    assert_eq!(scope_prefix("title", &tables), None);
}

#[test]
fn prefix_reference_must_be_in_its_catalog() {
    let tables = ck3_tables();
    let mut data = Everything::new();
    data.add_item(Item::Culture, "irish");
    data.add_item(Item::Character, "12345");
    let diags = validate_prefix_reference(&tok("culture", 1, 1), &tok("irish", 1, 9), &data, &tables);
    assert_eq!(diags, vec![]);
    let diags =
        validate_prefix_reference(&tok("Character", 1, 1), &tok("irish", 1, 11), &data, &tables);
    assert_eq!(diags.len(), 1);
    assert_eq!(diags[0].key, ErrorKey::MissingItem);
    assert_eq!(diags[0].loc, loc(1, 11));
    assert_eq!(diags[0].msg, "`irish` not found as character");
    // A prefix without a catalog, and an unknown prefix, report nothing.
    assert_eq!(
        validate_prefix_reference(&tok("scope", 1, 1), &tok("x", 1, 7), &data, &tables),
        vec![]
    );
    assert_eq!(
        validate_prefix_reference(&tok("title", 1, 1), &tok("x", 1, 7), &data, &tables),
        vec![]
    );
}

#[test]
fn missing_prefix_is_suggested() {
    let tables = ck3_tables();
    let mut data = Everything::new();
    data.add_item(Item::Culture, "irish");
    assert_eq!(needs_prefix("irish", &data, s(CULTURE), &tables), Some("culture"));
    assert_eq!(needs_prefix("irish", &data, s(CHARACTER), &tables), None);
    assert_eq!(needs_prefix("french", &data, s(CULTURE), &tables), None);
    assert_eq!(needs_prefix("irish", &data, s(ALL_CK3), &tables), None);
}

#[test]
fn iterator_lookup() {
    let tables = ck3_tables();
    let data = Everything::new();
    let (found, diags) = scope_iterator(&tok("Child", 1, 1), &data, &tables);
    assert_eq!(found, Some((s(CHARACTER), s(CHARACTER))));
    assert_eq!(diags, vec![]);
    let (found, diags) = scope_iterator(&tok("nothing", 1, 1), &data, &tables);
    assert_eq!(found, None);
    assert_eq!(diags, vec![]);
    let (found, diags) = scope_iterator(&tok("spouse_candidate", 3, 3), &data, &tables);
    assert_eq!(found, Some((Scopes::all(Game::Ck3), Scopes::all(Game::Ck3))));
    assert_eq!(diags.len(), 1);
    assert_eq!(diags[0].key, ErrorKey::Removed);
    assert_eq!(diags[0].msg, "`spouse_candidate` iterators were removed in 1.5");
    assert_eq!(diags[0].info, Some("no longer there".to_string()));
    assert_eq!(diags[0].loc, loc(3, 3));
}

#[test]
fn scripted_list_is_walked_as_its_base() {
    let tables = ck3_tables();
    let mut data = Everything::new();
    data.scripted_lists.push(ScriptedList { name: "my_kids".to_string(), base: tok("child", 9, 9) });
    data.scripted_lists
        .push(ScriptedList { name: "my_favourites".to_string(), base: tok("my_kids", 8, 8) });
    data.scripted_lists
        .push(ScriptedList { name: "gone".to_string(), base: tok("spouse_candidate", 7, 7) });
    let (found, diags) = scope_iterator(&tok("my_favourites", 1, 1), &data, &tables);
    assert_eq!(found, Some((s(CHARACTER), s(CHARACTER))));
    assert_eq!(diags, vec![]);
    let (found, diags) = scope_iterator(&tok("gone", 1, 1), &data, &tables);
    assert_eq!(found, Some((Scopes::all(Game::Ck3), Scopes::all(Game::Ck3))));
    assert_eq!(diags.len(), 1);
    assert_eq!(diags[0].loc, loc(7, 7));
    // A list's own name is looked up as it is written.
    let (found, _) = scope_iterator(&tok("My_Kids", 1, 1), &data, &tables);
    assert_eq!(found, None);
}

#[test]
fn scripted_list_based_on_itself_is_reported() {
    let tables = ck3_tables();
    let mut data = Everything::new();
    data.scripted_lists.push(ScriptedList { name: "a".to_string(), base: tok("b", 2, 2) });
    data.scripted_lists.push(ScriptedList { name: "b".to_string(), base: tok("a", 3, 3) });
    let (found, diags) = scope_iterator(&tok("a", 1, 1), &data, &tables);
    assert_eq!(found, Some((Scopes::all(Game::Ck3), Scopes::all(Game::Ck3))));
    assert_eq!(diags.len(), 1);
    assert_eq!(diags[0].key, ErrorKey::CyclicDefinition);
    assert_eq!(diags[0].severity, Severity::Error);
    assert_eq!(diags[0].msg, "scripted list `a` is based on itself");

    let mut data = Everything::new();
    data.scripted_lists.push(ScriptedList { name: "self".to_string(), base: tok("self", 2, 2) });
    let (_, diags) = scope_iterator(&tok("self", 1, 1), &data, &tables);
    assert_eq!(diags.len(), 1);
    assert_eq!(diags[0].key, ErrorKey::CyclicDefinition);
    assert_eq!(diags[0].loc, loc(2, 2));
}

#[test]
fn new_context_knows_its_root() {
    let sc = ScopeContext::new_root(s(CHARACTER), tok("my_event", 1, 1));
    assert_eq!(sc.root(), s(CHARACTER));
    assert_eq!(sc.live(), s(CHARACTER));
    assert_eq!(sc.anchor(), &tok("my_event", 1, 1));
    assert_eq!(sc.resolve_named("anything"), None);
}

#[test]
fn named_scopes() {
    let mut sc = ScopeContext::new_root(s(CHARACTER), tok("my_event", 1, 1));
    sc.push_named_scope("target", s(CULTURE));
    sc.push_named_scope("other", s(PROVINCE));
    assert_eq!(sc.resolve_named("target"), Some(s(CULTURE)));
    assert_eq!(sc.resolve_named("other"), Some(s(PROVINCE)));
    assert_eq!(sc.resolve_named("Target"), None);
    sc.push_named_scope("target", s(PROVINCE));
    assert_eq!(sc.resolve_named("target"), Some(s(PROVINCE)));
    assert_eq!(sc.live(), s(CHARACTER));
}

#[test]
fn narrowing_keeps_what_is_in_common() {
    let tables = ck3_tables();
    let mut sc = ScopeContext::new_root(s(CHARACTER | CULTURE | PROVINCE), tok("x", 1, 1));
    assert_eq!(sc.narrow(s(CHARACTER | CULTURE | VALUE), &tok("a", 1, 1), &tables), vec![]);
    assert_eq!(sc.live(), s(CHARACTER | CULTURE));
    assert_eq!(sc.narrow(s(CULTURE | PROVINCE), &tok("b", 1, 1), &tables), vec![]);
    assert_eq!(sc.live(), s(CULTURE));
    assert_eq!(sc.root(), s(CHARACTER | CULTURE | PROVINCE));
}

#[test]
fn narrowing_from_anything_adopts_the_input() {
    let tables = ck3_tables();
    let mut sc = ScopeContext::new_root(Scopes::all(Game::Ck3), tok("x", 1, 1));
    assert_eq!(sc.narrow(s(CHARACTER), &tok("a", 1, 1), &tables), vec![]);
    assert_eq!(sc.live(), s(CHARACTER));
}

#[test]
fn narrowing_to_nothing_is_a_mismatch() {
    let tables = ck3_tables();
    let mut sc = ScopeContext::new_root(s(PROVINCE), tok("x", 1, 1));
    let diags = sc.narrow(s(CHARACTER | CULTURE), &tok("culture", 5, 6), &tables);
    assert_eq!(diags.len(), 1);
    assert_eq!(diags[0].key, ErrorKey::ScopeMismatch);
    assert_eq!(diags[0].severity, Severity::Error);
    assert_eq!(diags[0].loc, loc(5, 6));
    assert_eq!(
        diags[0].msg,
        "`culture` is for character/culture but scope seems to be province"
    );
    assert_eq!(sc.live(), s(PROVINCE));
}

#[test]
fn steps_narrow_and_apply() {
    let tables = ck3_tables();
    let mut sc = ScopeContext::new_root(s(CHARACTER | PROVINCE), tok("x", 1, 1));
    assert_eq!(sc.advance(s(CHARACTER), s(CULTURE), &tok("culture", 1, 1), &tables), vec![]);
    assert_eq!(sc.live(), s(CULTURE));
    sc.apply(s(VALUE));
    assert_eq!(sc.live(), s(VALUE));
    sc.reset();
    assert_eq!(sc.live(), s(CHARACTER | PROVINCE));
}

#[test]
fn successive_narrowing_never_widens() {
    let tables = ck3_tables();
    let inputs = [
        CHARACTER | CULTURE | PROVINCE | VALUE,
        CHARACTER | CULTURE | BOOL,
        CULTURE | PROVINCE | CHARACTER,
        CHARACTER,
    ];
    let mut sc = ScopeContext::new_root(Scopes::all(Game::Ck3), tok("x", 1, 1));
    let mut before = sc.live();
    for input in inputs {
        assert_eq!(sc.narrow(s(input), &tok("t", 1, 1), &tables), vec![]);
        assert!(before.contains(sc.live()));
        before = sc.live();
    }
    assert_eq!(sc.live(), s(CHARACTER));
}

#[test]
fn one_bad_link_gives_one_mismatch() {
    let tables = ck3_tables();
    // root.culture.faith_doctrine, from a root that is no character.
    let mut sc = ScopeContext::new_root(s(PROVINCE), tok("my_event", 1, 1));
    let mut diags = Vec::new();
    sc.reset();
    diags.extend(sc.follow(&tok("culture", 3, 10), &tables));
    assert_eq!(sc.live(), Scopes::all(Game::Ck3));
    diags.extend(sc.follow(&tok("faith_doctrine", 3, 18), &tables));
    assert_eq!(sc.live(), s(ck3::scopes::DOCTRINE));
    assert_eq!(diags.len(), 1);
    assert_eq!(diags[0].key, ErrorKey::ScopeMismatch);
    assert_eq!(diags[0].loc, loc(3, 10));
    assert_eq!(diags[0].msg, "`culture` is for character but scope seems to be province");
}

#[test]
fn good_chain_reports_nothing() {
    let tables = ck3_tables();
    let mut sc = ScopeContext::new_root(s(CHARACTER), tok("my_event", 1, 1));
    assert_eq!(sc.follow(&tok("faith", 3, 10), &tables), vec![]);
    assert_eq!(sc.live(), s(ck3::scopes::FAITH));
    assert_eq!(sc.follow(&tok("faith_doctrine", 3, 16), &tables), vec![]);
    assert_eq!(sc.live(), s(ck3::scopes::DOCTRINE));
    // The next link does not fit what the chain has reached.
    let diags = sc.follow(&tok("culture", 3, 31), &tables);
    assert_eq!(diags.len(), 1);
    assert_eq!(diags[0].msg, "`culture` is for character but scope seems to be doctrine");
}

#[test]
fn unknown_and_removed_tokens_do_not_cascade() {
    let tables = ck3_tables();
    let mut sc = ScopeContext::new_root(s(CHARACTER), tok("my_event", 1, 1));
    let diags = sc.follow(&tok("no_such_link", 3, 10), &tables);
    assert_eq!(diags.len(), 1);
    assert_eq!(diags[0].key, ErrorKey::UnknownToken);
    assert_eq!(diags[0].msg, "unknown token `no_such_link`");
    assert_eq!(sc.live(), Scopes::all(Game::Ck3));
    assert_eq!(sc.follow(&tok("faith_doctrine", 3, 23), &tables), vec![]);

    let mut sc = ScopeContext::new_root(s(CHARACTER), tok("my_event", 1, 1));
    let diags = sc.follow(&tok("primary_heir_old", 3, 10), &tables);
    assert_eq!(diags.len(), 1);
    assert_eq!(diags[0].key, ErrorKey::Removed);
    assert_eq!(sc.live(), Scopes::all(Game::Ck3));
    assert_eq!(sc.follow(&tok("culture", 3, 27), &tables), vec![]);
    assert_eq!(sc.live(), s(CULTURE));
}

#[test]
fn link_that_takes_none_may_follow_a_removed_one() {
    let mut tables = ck3_tables();
    tables.scope_to_scope.push(link(NONE, "global_thing", VALUE));
    let mut sc = ScopeContext::new_root(s(CHARACTER), tok("my_event", 1, 1));
    let diags = sc.follow(&tok("primary_heir_old", 3, 10), &tables);
    assert_eq!(diags.len(), 1);
    assert_eq!(sc.follow(&tok("global_thing", 3, 27), &tables), vec![]);
    assert_eq!(sc.live(), s(VALUE));
    // From a character itself it is a mismatch.
    let mut sc = ScopeContext::new_root(s(CHARACTER), tok("my_event", 1, 1));
    let diags = sc.follow(&tok("global_thing", 3, 10), &tables);
    assert_eq!(diags.len(), 1);
    assert_eq!(diags[0].key, ErrorKey::ScopeMismatch);
}

#[test]
fn link_that_accepts_anything_leaves_what_is_known() {
    let tables = ck3_tables();
    let mut sc = ScopeContext::new_root(s(CHARACTER | PROVINCE), tok("x", 1, 1));
    assert_eq!(sc.narrow(Scopes::all(Game::Ck3), &tok("a", 1, 1), &tables), vec![]);
    assert_eq!(sc.live(), s(CHARACTER | PROVINCE));
    let mut sc = ScopeContext::new_root(Scopes::empty(), tok("x", 1, 1));
    assert_eq!(sc.narrow(Scopes::all(Game::Ck3), &tok("a", 1, 1), &tables), vec![]);
    assert_eq!(sc.live(), Scopes::empty());
    assert_eq!(sc.follow(&tok("primary_heir_old", 1, 1), &tables).len(), 1);
    assert_eq!(sc.live(), Scopes::all(Game::Ck3));
}

#[test]
fn letters_of_any_script_are_folded() {
    let mut tables = ck3_tables();
    tables.scope_to_scope.push(link(CHARACTER, "\u{e9}poux", CHARACTER));
    tables.scope_from_prefix.push(PrefixLink {
        from: s(NONE),
        name: "\u{e9}tat".to_string(),
        to: s(PROVINCE),
        catalog: None,
    });
    tables.scope_iterator.push(link(CHARACTER, "\u{e9}l\u{e8}ve", CHARACTER));
    let small = scope_to_scope(&tok("\u{e9}poux", 1, 1), s(CHARACTER), &tables);
    let capital = scope_to_scope(&tok("\u{c9}POUX", 1, 1), s(CHARACTER), &tables);
    assert_eq!(small.0, Some((s(CHARACTER), s(CHARACTER))));
    assert_eq!(capital.0, small.0);
    assert_eq!(scope_prefix("\u{c9}tat", &tables), Some((s(NONE), s(PROVINCE))));
    assert_eq!(scope_prefix("\u{e9}TAT", &tables), scope_prefix("\u{c9}tat", &tables));
    let data = Everything::new();
    let (found, _) = scope_iterator(&tok("\u{c9}L\u{c8}VE", 1, 1), &data, &tables);
    assert_eq!(found, Some((s(CHARACTER), s(CHARACTER))));
    assert_eq!(
        validate_prefix_reference(&tok("\u{c9}TAT", 1, 1), &tok("x", 1, 6), &data, &tables),
        vec![]
    );
}

#[test]
fn lookups_by_the_lower_case_form() {
    let tables = ck3_tables();
    let mut data = Everything::new();
    data.scripted_lists.push(ScriptedList { name: "Mine".to_string(), base: tok("child", 9, 9) });
    let (found, diags) =
        scope_to_scope_folded(&tok("CULTURE", 1, 1), "culture", s(CHARACTER), &tables);
    assert_eq!(found, Some((s(CHARACTER), s(CULTURE))));
    assert_eq!(diags, vec![]);
    // The name is taken as it is given: it is the caller who folds it.
    let (found, _) = scope_to_scope_folded(&tok("culture", 1, 1), "Culture", s(CHARACTER), &tables);
    assert_eq!(found, None);
    assert_eq!(scope_prefix_folded("culture", &tables), Some((s(NONE), s(CULTURE))));
    assert_eq!(scope_prefix_folded("CULTURE", &tables), None);
    let diags = validate_prefix_reference_folded("culture", &tok("irish", 2, 2), &data, &tables);
    assert_eq!(diags.len(), 1);
    assert_eq!(diags[0].loc, loc(2, 2));
    assert_eq!(
        scope_iterator_step("Child", "child", &data, &tables),
        IteratorStep::Found(s(CHARACTER), s(CHARACTER))
    );
    assert_eq!(
        scope_iterator_step("spouse_candidate", "spouse_candidate", &data, &tables),
        IteratorStep::Gone(0)
    );
    assert_eq!(scope_iterator_step("Mine", "mine", &data, &tables), IteratorStep::Based(0));
    assert_eq!(scope_iterator_step("mine", "mine", &data, &tables), IteratorStep::Unknown);
    assert_eq!(data.find_scripted_list("Mine"), Some(0));
    assert_eq!(data.find_scripted_list("other"), None);
}


#[test]
fn every_tag_of_a_game_has_a_name() {
    for (game, names) in [
        (Game::Ck3, ck3::scopes::scope_names()),
        (Game::Vic3, vic3::scopes::scope_names()),
        (Game::Imperator, imperator::scopes::scope_names()),
    ] {
        let mut named = NONE | VALUE | BOOL | FLAG;
        for entry in &names {
            assert_eq!(entry.scopes.bits().count_ones(), 1, "{}", entry.name);
            assert_eq!(named & entry.scopes.bits(), 0, "{}", entry.name);
            assert_eq!(entry.name, entry.name.to_lowercase());
            named |= entry.scopes.bits();
        }
        assert_eq!(named, Scopes::all(game).bits());
    }
}

#[test]
fn names_of_the_games() {
    let tables = Tables::new(Game::Ck3);
    assert_eq!(Scopes::from_snake_case("landed_title", &tables), Some(s(ck3::scopes::LANDED_TITLE)));
    assert_eq!(
        Scopes::from_snake_case("title_and_vassal_change", &tables),
        Some(s(0x0000_2000_0000_0000))
    );
    assert_eq!(Scopes::from_snake_case("character", &tables), Some(s(0x40)));
    assert_eq!(Scopes::from_snake_case("country", &tables), None);
    assert_eq!(
        s(ck3::scopes::FAITH | ck3::scopes::ACCOLADE | CHARACTER).describe(&tables),
        "character/accolade/faith"
    );
    let tables = Tables::new(Game::Vic3);
    assert!(tables.scope_to_scope.is_empty() && tables.scope_iterator.is_empty());
    assert_eq!(Scopes::from_snake_case("journalentry", &tables), Some(s(0x0000_0800_0000_0000)));
    assert_eq!(Scopes::from_snake_case("hq", &tables), Some(s(vic3::scopes::HQ)));
    assert_eq!(Scopes::from_snake_case("country", &tables), Some(s(0x20)));
    let tables = Tables::new(Game::Imperator);
    assert_eq!(tables.game, Game::Imperator);
    assert_eq!(Scopes::from_snake_case("sub_unit", &tables), Some(s(0x1000_0000)));
    assert_eq!(Scopes::from_snake_case("hq", &tables), None);
    assert_eq!(s(imperator::scopes::AREA | imperator::scopes::POP).describe(&tables), "pop/area");
}

#[test]
fn undeclared_named_scope_is_reported() {
    let tables = ck3_tables();
    let mut sc = ScopeContext::new_root(s(CHARACTER), tok("my_event", 1, 1));
    sc.push_named_scope("target", s(CULTURE));
    assert_eq!(sc.use_named(&tok("target", 2, 2), &tables), vec![]);
    assert_eq!(sc.live(), s(CULTURE));
    let diags = sc.use_named(&tok("other", 3, 3), &tables);
    assert_eq!(diags.len(), 1);
    assert_eq!(diags[0].key, ErrorKey::UndeclaredScope);
    assert_eq!(diags[0].severity, Severity::Error);
    assert_eq!(diags[0].loc, loc(3, 3));
    assert_eq!(diags[0].msg, "scope `other` was not saved");
    assert_eq!(sc.live(), Scopes::all(Game::Ck3));
    assert_eq!(sc.narrow(s(PROVINCE), &tok("x", 4, 4), &tables), vec![]);
}
