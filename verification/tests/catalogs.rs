use tiger_lib::block::{Block, Comparator, BV};
use tiger_lib::catalog::{Catalog, NameSet};
use tiger_lib::ck3::data::scripted_illustrations::ScriptedIllustration;
use tiger_lib::data::doctrines::{Doctrine, DoctrineGroup, Doctrines};
use tiger_lib::data::events::{Event, Events, ScriptedEffect, ScriptedTrigger};
use tiger_lib::data::scripted_triggers::{Trigger, Triggers};
use tiger_lib::db::{Db, DbKind};
use tiger_lib::desc::verify_desc_locas;
use tiger_lib::everything::{Define, Everything};
use tiger_lib::fileset::FileHandler;
use tiger_lib::helpers::{dup_error, load};
use tiger_lib::imperator::data::loyalty::Loyalty;
use tiger_lib::item::Item;
use tiger_lib::modfile::{dirpath_from, modpath_from, ModFile};
use tiger_lib::report::{Diagnostic, ErrorKey, Severity};
use tiger_lib::token::{FileKind, Loc, Token};

fn loc(line: u32, column: u32) -> Loc {
    Loc::new(FileKind::Mod, 0, line, column)
}

fn vanilla(line: u32, column: u32) -> Loc {
    Loc::new(FileKind::Vanilla, 1, line, column)
}

fn tok(s: &str, line: u32, column: u32) -> Token {
    Token::new(s, loc(line, column))
}

fn kv(b: &mut Block, key: &str, value: &str, line: u32) {
    b.add_key_value(tok(key, line, 1), Comparator::Eq, BV::Value(tok(value, line, 20)));
}

fn kb(b: &mut Block, key: &str, inner: Block, line: u32) {
    b.add_key_value(tok(key, line, 1), Comparator::Eq, BV::Block(inner));
}

fn keys(diags: &[Diagnostic]) -> Vec<ErrorKey> {
    diags.iter().map(|d| d.key).collect()
}

#[test]
fn name_set() {
    let mut names = NameSet::new();
    assert!(!names.contains("a"));
    names.insert("a");
    names.insert("b");
    names.insert("a");
    assert!(names.contains("a"));
    assert!(names.contains("b"));
    assert!(!names.contains("c"));
    assert!(!names.contains(""));
}

#[test]
fn catalog_finds_by_name_and_replaces() {
    let mut c: Catalog<u32> = Catalog::new();
    assert_eq!(c.get("a"), None);
    assert!(!c.contains("a"));
    c.insert("a", 1);
    c.insert("b", 2);
    assert_eq!(c.get("a"), Some(&1));
    assert_eq!(c.get("b"), Some(&2));
    assert_eq!(c.get("c"), None);
    c.insert("a", 3);
    assert_eq!(c.get("a"), Some(&3));
    assert_eq!(c.get("b"), Some(&2));
    assert!(c.contains("b"));
    assert_eq!(c.values(), &vec![3, 2]);
}

#[test]
fn duplicate_only_within_a_rank() {
    let mut triggers = Triggers::new();
    let first = Token::new("my_trigger", vanilla(1, 1));
    assert_eq!(triggers.load_item(first, Block::new(vanilla(1, 14))), vec![]);
    // A mod may replace what the base game defines.
    assert_eq!(triggers.load_item(tok("my_trigger", 5, 1), Block::new(loc(5, 14))), vec![]);
    // Within the mod a second definition is a duplicate.
    let diags = triggers.load_item(tok("my_trigger", 9, 1), Block::new(loc(9, 14)));
    assert_eq!(diags.len(), 1);
    assert_eq!(diags[0].key, ErrorKey::Duplicate);
    assert_eq!(diags[0].severity, Severity::Error);
    assert_eq!(diags[0].loc, loc(9, 1));
    assert_eq!(diags[0].related, Some(loc(5, 1)));
    assert_eq!(diags[0].msg, "scripted trigger redefines an existing scripted trigger");
    // The base game's definition coming late is no duplicate either, and does not replace.
    let late = Token::new("my_trigger", vanilla(2, 1));
    assert_eq!(triggers.load_item(late, Block::new(vanilla(2, 14))), vec![]);
    let diags = triggers.load_item(tok("my_trigger", 12, 1), Block::new(loc(12, 14)));
    assert_eq!(diags[0].related, Some(loc(9, 1)));
}

#[test]
fn higher_rank_stays_whichever_comes_first() {
    let mut c: Catalog<Token> = Catalog::new();
    assert_eq!(load(&mut c, tok("x", 1, 1), "thing"), vec![]);
    assert_eq!(load(&mut c, Token::new("x", vanilla(2, 2)), "thing"), vec![]);
    assert_eq!(c.get("x"), Some(&tok("x", 1, 1)));
    let mut c: Catalog<Token> = Catalog::new();
    assert_eq!(load(&mut c, Token::new("x", vanilla(2, 2)), "thing"), vec![]);
    assert_eq!(load(&mut c, tok("x", 1, 1), "thing"), vec![]);
    assert_eq!(c.get("x"), Some(&tok("x", 1, 1)));
    let diags = load(&mut c, tok("x", 3, 3), "thing");
    assert_eq!(diags, vec![dup_error(&tok("x", 3, 3), &tok("x", 1, 1), "thing")]);
    assert_eq!(c.get("x"), Some(&tok("x", 3, 3)));
}

#[test]
fn triggers_exist_or_are_reported() {
    let mut triggers = Triggers::new();
    triggers.load_item(tok("known", 1, 1), Block::new(loc(1, 9)));
    assert!(triggers.is_defined(&tok("known", 5, 5)));
    assert!(!triggers.is_defined(&tok("unknown", 5, 5)));
    assert_eq!(triggers.verify_exists(&tok("known", 5, 5)), vec![]);
    let diags = triggers.verify_exists(&tok("unknown", 6, 7));
    assert_eq!(diags.len(), 1);
    assert_eq!(diags[0].key, ErrorKey::MissingItem);
    assert_eq!(diags[0].loc, loc(6, 7));
    assert_eq!(diags[0].msg, "trigger not defined in common/scripted_triggers/");
    assert_eq!(triggers.verify_exists_opt(None), vec![]);
    assert_eq!(triggers.verify_exists_opt(Some(&tok("unknown", 6, 7))), diags);
    assert_eq!(triggers.validate(&Everything::new()), vec![]);
    let t = Trigger::new(tok("t", 1, 1), Block::new(loc(1, 3)));
    assert_eq!(t.validate(&Everything::new()), vec![]);
}

#[test]
fn trigger_files() {
    let mut triggers = Triggers::new();
    assert_eq!(triggers.subpath(), "common/scripted_triggers");
    let mut file = Block::new(loc(1, 1));
    kb(&mut file, "first", Block::new(loc(1, 9)), 1);
    kv(&mut file, "stray", "value", 2);
    file.add_value(tok("loose", 3, 1));
    file.add_block(Block::new(loc(4, 1)));
    kb(&mut file, "first", Block::new(loc(5, 9)), 5);
    let diags = triggers.handle_file("my_triggers.txt", file);
    assert_eq!(
        keys(&diags),
        vec![
            ErrorKey::TypeMismatch,
            ErrorKey::MisplacedValue,
            ErrorKey::MisplacedBlock,
            ErrorKey::Duplicate
        ]
    );
    assert_eq!(diags[0].loc, loc(2, 1));
    assert_eq!(diags[3].loc, loc(5, 1));
    assert!(triggers.is_defined(&tok("first", 1, 1)));

    let mut other = Block::new(loc(1, 1));
    kb(&mut other, "second", Block::new(loc(1, 9)), 1);
    assert_eq!(triggers.handle_file("readme.md", other), vec![]);
    assert!(!triggers.is_defined(&tok("second", 1, 1)));
}

#[test]
fn database_keeps_kinds_apart() {
    let mut db = Db::new();
    assert_eq!(Loyalty::add(&mut db, tok("same_name", 1, 1), Block::new(loc(1, 12))), vec![]);
    assert_eq!(
        ScriptedIllustration::add(&mut db, tok("same_name", 2, 1), Block::new(loc(2, 12))),
        vec![]
    );
    let diags = Loyalty::add(&mut db, tok("same_name", 3, 1), Block::new(loc(3, 12)));
    assert_eq!(diags.len(), 1);
    assert_eq!(diags[0].key, ErrorKey::Duplicate);
    assert_eq!(diags[0].related, Some(loc(1, 1)));
    assert_eq!(diags[0].msg, "loyalty redefines an existing loyalty");
    let diags = db.add(Item::ScriptedIllustration, tok("same_name", 4, 1), Block::new(loc(4, 12)));
    assert_eq!(diags[0].related, Some(loc(2, 1)));
    assert_eq!(diags[0].msg, "scripted illustration redefines an existing scripted illustration");
}

#[test]
fn database_validates_each_kind_by_its_rules() {
    let mut db = Db::new();
    let mut loyalty = Block::new(loc(1, 12));
    kv(&mut loyalty, "value", "ten", 2);
    Loyalty::add(&mut db, tok("loyal", 1, 1), loyalty);
    let mut illustration = Block::new(loc(5, 12));
    kv(&mut illustration, "texture", "missing.dds", 6);
    kv(&mut illustration, "value", "ten", 7);
    ScriptedIllustration::add(&mut db, tok("picture", 5, 1), illustration);
    db.add(Item::Title, tok("k_somewhere", 9, 1), Block::new(loc(9, 12)));
    let diags = db.validate(&Everything::new());
    assert_eq!(
        keys(&diags),
        vec![ErrorKey::NotANumber, ErrorKey::MissingFile, ErrorKey::UnknownField]
    );
    assert_eq!(diags[0].loc, loc(2, 20));
    assert_eq!(
        diags[1].msg,
        "file gfx/interface/illustrations/missing.dds does not exist"
    );
    assert_eq!(diags[2].loc, loc(7, 1));
}

#[test]
fn scripted_illustration() {
    let mut data = Everything::new();
    data.files.insert("gfx/interface/illustrations/there.dds");
    data.add_item(Item::PortraitEnvironment, "throne_room");

    let mut texture = Block::new(loc(3, 12));
    kv(&mut texture, "reference", "there.dds", 4);
    kb(&mut texture, "trigger", Block::new(loc(5, 12)), 5);
    let mut bad_texture = Block::new(loc(6, 12));
    kv(&mut bad_texture, "reference", "gone.dds", 7);
    kv(&mut bad_texture, "trigger", "yes", 8);
    let mut environment = Block::new(loc(9, 16));
    kv(&mut environment, "reference", "throne_room", 10);
    let mut bad_environment = Block::new(loc(11, 16));
    kv(&mut bad_environment, "reference", "cellar", 12);
    kv(&mut bad_environment, "extra", "1", 13);

    let mut b = Block::new(loc(1, 12));
    kv(&mut b, "texture", "there.dds", 2);
    kb(&mut b, "texture", texture, 3);
    kb(&mut b, "texture", bad_texture, 6);
    kb(&mut b, "environment", environment, 9);
    kb(&mut b, "environment", bad_environment, 11);
    kv(&mut b, "environment", "throne_room", 14);

    let diags = (ScriptedIllustration {}).validate(&tok("picture", 1, 1), &b, &data);
    assert_eq!(
        keys(&diags),
        vec![
            ErrorKey::MissingFile,
            ErrorKey::TypeMismatch,
            ErrorKey::MissingItem,
            ErrorKey::UnknownField,
            ErrorKey::TypeMismatch
        ]
    );
    assert_eq!(diags[0].loc, loc(7, 20));
    assert_eq!(diags[1].loc, loc(8, 20));
    assert_eq!(diags[2].loc, loc(12, 20));
    assert_eq!(diags[2].msg, "portrait environment `cellar` not defined");
    assert_eq!(diags[3].loc, loc(13, 1));
    assert_eq!(diags[4].loc, loc(14, 20));
}

#[test]
fn descriptions() {
    let mut data = Everything::new();
    data.localization.insert("known");
    assert_eq!(verify_desc_locas(&BV::Value(tok("known", 1, 1)), &data), vec![]);
    assert_eq!(verify_desc_locas(&BV::Block(Block::new(loc(1, 1))), &data), vec![]);
    let diags = verify_desc_locas(&BV::Value(tok("unknown", 2, 3)), &data);
    assert_eq!(diags.len(), 1);
    assert_eq!(diags[0].key, ErrorKey::MissingLocalization);
    assert_eq!(diags[0].loc, loc(2, 3));
}

#[test]
fn registries() {
    let mut data = Everything::new();
    assert!(!data.item_exists(Item::Faith, "catholic"));
    data.add_item(Item::Faith, "catholic");
    assert!(data.item_exists(Item::Faith, "catholic"));
    assert!(!data.item_exists(Item::Religion, "catholic"));
    assert!(!data.item_exists(Item::Faith, "orthodox"));
    assert_eq!(data.verify_exists(Item::Faith, &tok("catholic", 1, 1)), vec![]);
    let diags = data.verify_exists(Item::Faith, &tok("orthodox", 2, 2));
    assert_eq!(diags[0].msg, "faith `orthodox` not defined");
    assert_eq!(diags[0].key, ErrorKey::MissingItem);

    data.defines.push(Define { name: "A".to_string(), value: "first".to_string() });
    data.defines.push(Define { name: "A".to_string(), value: "second".to_string() });
    assert_eq!(data.get_defined_string("A"), Some("first"));
    assert_eq!(data.get_defined_string("B"), None);

    data.files.insert("a/b.dds");
    assert_eq!(data.verify_file_exists("a/b.dds", &tok("x", 1, 1)), vec![]);
    let diags = data.verify_file_exists("a/c.dds", &tok("x", 3, 4));
    assert_eq!(diags[0].msg, "file a/c.dds does not exist");
    assert_eq!(diags[0].key, ErrorKey::MissingFile);
    assert_eq!(diags[0].loc, loc(3, 4));
    assert!(data.scripted_list("x").is_none());
}

fn doctrine_data() -> Everything {
    let mut data = Everything::new();
    data.defines.push(Define {
        name: "NGameIcons::FAITH_DOCTRINE_ICON_PATH".to_string(),
        value: "gfx/icons/doctrines".to_string(),
    });
    data.defines.push(Define {
        name: "NGameIcons::FAITH_DOCTRINE_GROUP_ICON_PATH".to_string(),
        value: "gfx/icons/groups".to_string(),
    });
    data
}

#[test]
fn group_needs_icon_unless_special_or_there() {
    let mut data = doctrine_data();
    let mut block = Block::new(loc(1, 12));
    kv(&mut block, "group", "main_group", 2);
    let group = DoctrineGroup::new(tok("my_group", 1, 1), block);
    assert_eq!(group.needs_icon(&data), (true, vec![]));
    data.files.insert("gfx/icons/groups/my_group.dds");
    assert_eq!(group.needs_icon(&data), (false, vec![]));

    for special in ["special", "not_creatable"] {
        let mut block = Block::new(loc(1, 12));
        kv(&mut block, "group", special, 2);
        let group = DoctrineGroup::new(tok("other_group", 1, 1), block);
        assert_eq!(group.needs_icon(&data), (false, vec![]));
    }

    let group = DoctrineGroup::new(tok("other_group", 4, 5), Block::new(loc(1, 12)));
    let (needs, diags) = group.needs_icon(&Everything::new());
    assert!(needs);
    assert_eq!(diags.len(), 1);
    assert_eq!(diags[0].key, ErrorKey::MissingItem);
    assert_eq!(diags[0].severity, Severity::Warning);
    assert_eq!(diags[0].loc, loc(4, 5));
    assert_eq!(diags[0].msg, "define NGameIcons::FAITH_DOCTRINE_GROUP_ICON_PATH not found");
}

#[test]
fn group_validation() {
    let mut data = doctrine_data();
    data.localization.insert("my_group_name");
    let mut block = Block::new(loc(1, 12));
    kv(&mut block, "group", "main_group", 2);
    kv(&mut block, "number_of_picks", "two", 3);
    kv(&mut block, "stray", "value", 4);
    let group = DoctrineGroup::new(tok("my_group", 1, 1), block);
    let diags = group.validate(&data);
    assert_eq!(keys(&diags), vec![ErrorKey::NotAnInteger, ErrorKey::TypeMismatch]);
    assert_eq!(diags[0].loc, loc(3, 20));
    assert_eq!(diags[1].loc, loc(4, 20));

    let group = DoctrineGroup::new(tok("other_group", 1, 1), Block::new(loc(1, 12)));
    let diags = group.validate(&data);
    assert_eq!(keys(&diags), vec![ErrorKey::MissingLocalization]);
    assert_eq!(diags[0].msg, "missing localization for `other_group_name`");
    assert_eq!(diags[0].loc, loc(1, 1));
}

#[test]
fn doctrine_validation() {
    let mut data = doctrine_data();
    data.localization.insert("my_doctrine_name");
    data.localization.insert("my_doctrine_desc");
    data.files.insert("gfx/icons/doctrines/my_icon.dds");
    data.add_item(Item::Doctrine, "other_doctrine");

    let mut parameters = Block::new(loc(4, 14));
    kv(&mut parameters, "flag_parameter", "yes", 5);
    kv(&mut parameters, "number_parameter", "1.5", 6);
    kv(&mut parameters, "bad_parameter", "much", 7);
    kb(&mut parameters, "block_parameter", Block::new(loc(8, 20)), 8);
    let mut modifier = Block::new(loc(9, 22));
    kv(&mut modifier, "name", "no_such_key", 10);
    kv(&mut modifier, "monthly_piety", "1", 11);
    let mut doctrine_modifier = Block::new(loc(12, 30));
    kv(&mut doctrine_modifier, "doctrine", "no_such_doctrine", 13);

    let mut block = Block::new(loc(1, 15));
    kv(&mut block, "icon", "my_icon", 2);
    kv(&mut block, "visible", "perhaps", 3);
    kb(&mut block, "parameters", parameters, 4);
    kb(&mut block, "character_modifier", modifier, 9);
    kb(&mut block, "doctrine_character_modifier", doctrine_modifier, 12);
    kv(&mut block, "traits", "none", 14);
    kv(&mut block, "not_declared", "1", 15);

    let doctrine = Doctrine::new(tok("my_doctrine", 1, 1), block, tok("my_group", 0, 1));
    let diags = doctrine.validate(&data, true);
    assert_eq!(
        keys(&diags),
        vec![
            ErrorKey::InvalidChoice,
            ErrorKey::NotANumber,
            ErrorKey::TypeMismatch,
            ErrorKey::MissingLocalization,
            ErrorKey::MissingItem,
            ErrorKey::TypeMismatch
        ]
    );
    assert_eq!(diags[0].loc, loc(3, 20));
    assert_eq!(diags[1].loc, loc(7, 20));
    assert_eq!(diags[2].loc, loc(8, 20));
    assert_eq!(diags[3].loc, loc(10, 20));
    assert_eq!(diags[4].msg, "doctrine `no_such_doctrine` not defined");
    assert_eq!(diags[5].loc, loc(14, 20));
}

#[test]
fn doctrine_icon() {
    let data = doctrine_data();
    let mut block = Block::new(loc(1, 15));
    kv(&mut block, "name", "x", 2);
    kv(&mut block, "desc", "y", 3);
    let mut data_with_text = doctrine_data();
    data_with_text.localization.insert("x");
    data_with_text.localization.insert("y");
    let doctrine = Doctrine::new(tok("my_doctrine", 1, 1), block, tok("my_group", 0, 1));
    // The group has an icon: the doctrine needs none.
    assert_eq!(doctrine.validate(&data_with_text, false), vec![]);
    // The group has none: the doctrine's own icon must be there.
    let diags = doctrine.validate(&data_with_text, true);
    assert_eq!(keys(&diags), vec![ErrorKey::MissingFile]);
    assert_eq!(diags[0].msg, "file gfx/icons/doctrines/my_doctrine.dds does not exist");
    assert_eq!(diags[0].loc, loc(1, 1));
    // Without its texts the keys made of its name are looked up.
    let diags = Doctrine::new(tok("d", 1, 1), Block::new(loc(1, 3)), tok("g", 0, 1))
        .validate(&data, false);
    assert_eq!(keys(&diags), vec![ErrorKey::MissingLocalization, ErrorKey::MissingLocalization]);
    assert_eq!(diags[0].msg, "missing localization for `d_name`");
    assert_eq!(diags[1].msg, "missing localization for `d_desc`");
    // Without the define nothing is said of icons but that the define is missing.
    let diags = Doctrine::new(tok("d", 1, 1), Block::new(loc(1, 3)), tok("g", 0, 1))
        .validate(&Everything::new(), true);
    assert_eq!(
        keys(&diags),
        vec![ErrorKey::MissingItem, ErrorKey::MissingLocalization, ErrorKey::MissingLocalization]
    );
}

fn doctrine_group_block() -> Block {
    let mut parameters = Block::new(loc(5, 14));
    kv(&mut parameters, "can_do_this", "yes", 6);
    kv(&mut parameters, "cost", "5", 7);
    kv(&mut parameters, "can_do_that", "no", 8);
    let mut first = Block::new(loc(4, 20));
    kb(&mut first, "parameters", parameters, 5);
    let mut block = Block::new(loc(1, 12));
    kv(&mut block, "group", "main_group", 2);
    kb(&mut block, "is_available_on_create", Block::new(loc(3, 30)), 3);
    kb(&mut block, "first_doctrine", first, 4);
    kb(&mut block, "second_doctrine", Block::new(loc(9, 20)), 9);
    kb(&mut block, "name", Block::new(loc(10, 8)), 10);
    block
}

#[test]
fn doctrines_are_loaded_with_their_group() {
    let mut doctrines = Doctrines::new();
    assert_eq!(doctrines.subpath(), "common/religion/doctrines");
    assert_eq!(doctrines.load_item(tok("my_group", 1, 1), doctrine_group_block()), vec![]);
    assert!(doctrines.is_defined("first_doctrine"));
    assert!(doctrines.is_defined("second_doctrine"));
    assert!(!doctrines.is_defined("is_available_on_create"));
    assert!(!doctrines.is_defined("name"));
    assert!(!doctrines.is_defined("my_group"));
    assert!(doctrines.parameter_exists("can_do_this"));
    assert!(doctrines.parameter_exists("can_do_that"));
    assert!(!doctrines.parameter_exists("cost"));

    let diags = doctrines.load_item(tok("my_group", 21, 1), doctrine_group_block());
    assert_eq!(keys(&diags), vec![ErrorKey::Duplicate, ErrorKey::Duplicate, ErrorKey::Duplicate]);
    assert_eq!(diags[0].msg, "doctrine group redefines an existing doctrine group");
    assert_eq!(diags[0].loc, loc(21, 1));
    assert_eq!(diags[1].msg, "doctrine redefines an existing doctrine");
    assert_eq!(diags[1].loc, loc(4, 1));
}

#[test]
fn group_field_written_as_a_block_is_reported_for_the_group() {
    let mut data = doctrine_data();
    for key in ["my_group_name", "group_name", "group_desc"] {
        data.localization.insert(key);
    }
    data.files.insert("gfx/icons/groups/my_group.dds");
    let mut block = Block::new(loc(1, 12));
    kb(&mut block, "group", Block::new(loc(2, 9)), 2);
    block.add_key_value(tok("number_of_picks", 3, 1), Comparator::Gt, BV::Block(Block::new(loc(3, 19))));
    let mut doctrines = Doctrines::new();
    assert_eq!(doctrines.load_item(tok("my_group", 1, 1), block), vec![]);
    // As a block under a key it is a doctrine too.
    assert!(doctrines.is_defined("group"));
    assert!(doctrines.is_defined("number_of_picks"));
    let diags = doctrines.validate(&data);
    assert_eq!(diags[0].key, ErrorKey::TypeMismatch);
    assert_eq!(diags[0].msg, "expected value, found block");
    assert_eq!(diags[0].loc, loc(2, 9));
    assert_eq!(diags[1].key, ErrorKey::WrongComparator);
    assert_eq!(diags[1].loc, loc(3, 1));
    assert_eq!(diags[2].key, ErrorKey::TypeMismatch);
    assert_eq!(diags[2].loc, loc(3, 19));
}

#[test]
fn doctrines_validate_groups_then_doctrines() {
    let mut data = doctrine_data();
    for key in [
        "my_group_name",
        "first_doctrine_name",
        "first_doctrine_desc",
        "second_doctrine_name",
    ] {
        data.localization.insert(key);
    }
    data.files.insert("gfx/icons/groups/my_group.dds");
    let mut doctrines = Doctrines::new();
    let mut file = Block::new(loc(0, 1));
    kb(&mut file, "my_group", doctrine_group_block(), 1);
    kv(&mut file, "stray", "1", 30);
    let diags = doctrines.handle_file("doctrines.txt", file);
    assert_eq!(keys(&diags), vec![ErrorKey::TypeMismatch]);
    let diags = doctrines.validate(&data);
    assert_eq!(keys(&diags), vec![ErrorKey::MissingLocalization]);
    assert_eq!(diags[0].msg, "missing localization for `second_doctrine_desc`");

    // Without the group's icon each doctrine needs its own.
    let mut data = doctrine_data();
    for key in [
        "my_group_name",
        "first_doctrine_name",
        "first_doctrine_desc",
        "second_doctrine_name",
        "second_doctrine_desc",
    ] {
        data.localization.insert(key);
    }
    data.files.insert("gfx/icons/doctrines/first_doctrine.dds");
    let diags = doctrines.validate(&data);
    assert_eq!(keys(&diags), vec![ErrorKey::MissingFile]);
    assert_eq!(diags[0].msg, "file gfx/icons/doctrines/second_doctrine.dds does not exist");

    let mut other = Doctrines::new();
    let mut file = Block::new(loc(0, 1));
    kb(&mut file, "my_group", doctrine_group_block(), 1);
    assert_eq!(other.handle_file("doctrines.yml", file), vec![]);
    assert!(!other.is_defined("first_doctrine"));
}

fn namespaces(names: &[&str]) -> Vec<String> {
    names.iter().map(|s| s.to_string()).collect()
}

#[test]
fn event_names() {
    let mut events = Events::new();
    let ns = namespaces(&["my_events", "other"]);
    assert_eq!(events.load_event(tok("my_events.1", 1, 1), Block::new(loc(1, 14)), &ns), vec![]);
    assert_eq!(events.load_event(tok("other.0042", 2, 1), Block::new(loc(2, 14)), &ns), vec![]);
    assert_eq!(events.load_event(tok("other.", 2, 1), Block::new(loc(2, 14)), &ns), vec![]);

    let diags = events.load_event(tok("my_events.1", 3, 1), Block::new(loc(3, 14)), &ns);
    assert_eq!(keys(&diags), vec![ErrorKey::Duplicate]);
    assert_eq!(diags[0].msg, "event redefines an existing event");
    assert_eq!(diags[0].related, Some(loc(1, 1)));

    let diags = events.load_event(tok("elsewhere.1", 4, 1), Block::new(loc(4, 14)), &ns);
    assert_eq!(keys(&diags), vec![ErrorKey::EventNamespace]);
    assert_eq!(diags[0].severity, Severity::Warning);
    assert_eq!(diags[0].msg, "Event name should start with namespace");
    assert_eq!(
        diags[0].info,
        Some(
            "If the event doesn't match its namespace, the game can't properly find the event \
             when triggering it."
                .to_string()
        )
    );
    // An event in error is not among the events: loading it again is no duplicate.
    let diags = events.load_event(tok("elsewhere.1", 5, 1), Block::new(loc(5, 14)), &ns);
    assert_eq!(keys(&diags), vec![ErrorKey::EventNamespace]);

    for bad in ["my_events", "my_events.one", "my_events.1.2", "my_events.1a", ".x"] {
        let diags = events.load_event(tok(bad, 6, 1), Block::new(loc(6, 14)), &ns);
        assert_eq!(keys(&diags), vec![ErrorKey::EventNamespace], "{}", bad);
        assert_eq!(diags[0].msg, "Event names should be in the form NAMESPACE.NUMBER");
        assert_eq!(
            diags[0].info,
            Some(
                "where NAMESPACE is the namespace declared at the top of the file, and NUMBER \
                 is a series of digits."
                    .to_string()
            )
        );
    }

    let diags = events.load_event(tok("my_events.2", 7, 1), Block::new(loc(7, 14)), &[].to_vec());
    assert_eq!(keys(&diags), vec![ErrorKey::EventNamespace]);
    assert_eq!(diags[0].severity, Severity::Error);
    assert_eq!(diags[0].msg, "Event files must start with a namespace declaration");
}

#[test]
fn scripted_triggers_and_effects_of_event_files() {
    let mut events = Events::new();
    assert_eq!(events.load_scripted_trigger(tok("t", 1, 1), Block::new(loc(1, 3))), vec![]);
    assert_eq!(events.load_scripted_effect(tok("t", 2, 1), Block::new(loc(2, 3))), vec![]);
    let diags = events.load_scripted_trigger(tok("t", 3, 1), Block::new(loc(3, 3)));
    assert_eq!(diags[0].msg, "scripted trigger redefines an existing scripted trigger");
    assert_eq!(diags[0].related, Some(loc(1, 1)));
    let diags = events.load_scripted_effect(tok("t", 4, 1), Block::new(loc(4, 3)));
    assert_eq!(diags[0].msg, "scripted effect redefines an existing scripted effect");
    assert_eq!(diags[0].related, Some(loc(2, 1)));
    let t = ScriptedTrigger::new(tok("t", 1, 1), Block::new(loc(1, 3)));
    assert_eq!(t.key, tok("t", 1, 1));
    let e = ScriptedEffect::new(tok("e", 1, 1), Block::new(loc(1, 3)));
    assert_eq!(e.block, Block::new(loc(1, 3)));
}

fn hidden_event() -> Block {
    let mut b = Block::new(loc(1, 14));
    kv(&mut b, "hidden", "yes", 2);
    b
}

#[test]
fn event_file() {
    let mut events = Events::new();
    assert_eq!(events.subpath(), "events");
    let mut file = Block::new(loc(0, 1));
    kb(&mut file, "early.1", hidden_event(), 1);
    kv(&mut file, "namespace", "my_events", 2);
    kv(&mut file, "scripted_trigger", "x", 3);
    kv(&mut file, "setting", "x", 4);
    file.add_value(tok("scripted_trigger", 5, 1));
    file.add_value(tok("scripted_effect", 6, 1));
    kb(&mut file, "my_trigger", Block::new(loc(7, 14)), 7);
    file.add_value(tok("scripted_effect", 8, 1));
    kb(&mut file, "my_effect", Block::new(loc(9, 14)), 9);
    file.add_value(tok("something", 10, 1));
    kb(&mut file, "namespace", Block::new(loc(11, 14)), 11);
    file.add_block(Block::new(loc(12, 1)));
    kb(&mut file, "my_events.1", hidden_event(), 13);
    kb(&mut file, "my_effect", hidden_event(), 14);

    let diags = events.handle_file("my_events.txt", file);
    assert_eq!(
        keys(&diags),
        vec![
            ErrorKey::MisplacedBlock,
            ErrorKey::EventNamespace,
            ErrorKey::MisplacedKey,
            ErrorKey::UnknownField,
            ErrorKey::MisplacedValue,
            ErrorKey::MisplacedValue,
            ErrorKey::EventNamespace,
            ErrorKey::EventNamespace
        ]
    );
    assert_eq!(diags[0].loc, loc(12, 1));
    assert_eq!(diags[1].msg, "Event files must start with a namespace declaration");
    assert_eq!(diags[2].msg, "`scripted_trigger` should be used without `=`");
    assert_eq!(diags[3].msg, "unknown setting in event files, expected only `namespace`");
    assert_eq!(diags[4].loc, loc(6, 1));
    assert_eq!(diags[4].msg, "unexpected token");
    assert_eq!(diags[4].info, Some("Did you forget an = ?".to_string()));
    assert_eq!(diags[5].loc, loc(10, 1));
    assert_eq!(diags[6].loc, loc(11, 14));
    assert_eq!(diags[7].loc, loc(14, 1));
    assert_eq!(diags[7].msg, "Event names should be in the form NAMESPACE.NUMBER");

    // The trigger and the effect were taken as such: loading them again is a duplicate.
    let diags = events.load_scripted_trigger(tok("my_trigger", 20, 1), Block::new(loc(20, 3)));
    assert_eq!(keys(&diags), vec![ErrorKey::Duplicate]);
    let diags = events.load_scripted_effect(tok("my_effect", 21, 1), Block::new(loc(21, 3)));
    assert_eq!(keys(&diags), vec![ErrorKey::Duplicate]);
    let diags = events.load_event(
        tok("my_events.1", 22, 1),
        hidden_event(),
        &vec!["my_events".to_string()],
    );
    assert_eq!(keys(&diags), vec![ErrorKey::Duplicate]);

    let mut other = Block::new(loc(0, 1));
    kv(&mut other, "namespace", "x", 1);
    kb(&mut other, "x.1", hidden_event(), 2);
    assert_eq!(events.handle_file("notes.info", other), vec![]);
}

#[test]
fn event_file_of_the_base_game_is_loaded_in_silence() {
    let mut events = Events::new();
    let mut file = Block::new(vanilla(0, 1));
    file.add_key_value(
        Token::new("early.1", vanilla(1, 1)),
        Comparator::Eq,
        BV::Block(Block::new(vanilla(1, 10))),
    );
    file.add_key_value(
        Token::new("namespace", vanilla(2, 1)),
        Comparator::Eq,
        BV::Value(Token::new("base", vanilla(2, 20))),
    );
    file.add_value(Token::new("stray", vanilla(3, 1)));
    file.add_key_value(
        Token::new("base.1", vanilla(4, 1)),
        Comparator::Eq,
        BV::Block(Block::new(vanilla(4, 10))),
    );
    assert_eq!(events.handle_file("base_events.txt", file), vec![]);
    // The event is there all the same: the mod may replace it, and a second one is a duplicate.
    let ns = vec!["base".to_string()];
    assert_eq!(events.load_event(tok("base.1", 5, 1), hidden_event(), &ns), vec![]);
    let diags = events.load_event(tok("base.1", 6, 1), hidden_event(), &ns);
    assert_eq!(keys(&diags), vec![ErrorKey::Duplicate]);
    assert_eq!(diags[0].related, Some(loc(5, 1)));
}

#[test]
fn events_of_the_base_game_are_not_reported_on() {
    let mut events = Events::new();
    let ns = vec!["e".to_string()];
    let mut bad = Block::new(loc(1, 5));
    kv(&mut bad, "hidden", "perhaps", 2);
    kv(&mut bad, "hidden_too", "yes", 3);
    events.load_event(tok("e.1", 1, 1), bad, &ns);
    let mut bad = Block::new(vanilla(1, 5));
    bad.add_key_value(
        Token::new("major", vanilla(2, 1)),
        Comparator::Eq,
        BV::Value(Token::new("perhaps", vanilla(2, 20))),
    );
    events.load_event(Token::new("e.2", vanilla(1, 1)), bad, &ns);
    let diags = events.validate(&Everything::new());
    assert_eq!(
        keys(&diags),
        vec![ErrorKey::InvalidChoice, ErrorKey::MissingField, ErrorKey::UnknownField]
    );
    assert_eq!(diags[0].loc, loc(2, 20));
    assert_eq!(diags[1].msg, "required field `option` missing");
    assert_eq!(diags[2].loc, loc(3, 1));
}

#[test]
fn letter_event() {
    let mut data = Everything::new();
    data.localization.insert("my_title");
    let mut option = Block::new(loc(6, 10));
    kv(&mut option, "name", "my_option", 7);
    let mut tooltip = Block::new(loc(8, 20));
    kv(&mut tooltip, "other", "x", 9);
    kb(&mut option, "custom_tooltip", tooltip, 8);
    let mut sender = Block::new(loc(10, 10));
    kv(&mut sender, "animation", "happy", 11);
    let mut b = Block::new(loc(1, 14));
    kv(&mut b, "type", "letter_event", 2);
    kv(&mut b, "title", "my_title", 3);
    kv(&mut b, "desc", "my_desc", 4);
    kv(&mut b, "opening", "my_opening", 5);
    kb(&mut b, "option", option, 6);
    kb(&mut b, "sender", sender, 10);
    kv(&mut b, "left_portrait", "root", 12);
    kv(&mut b, "override_background", "throne_room", 13);
    let event = Event::new(tok("e.1", 1, 1), b);
    let diags = event.validate(&data);
    assert_eq!(
        keys(&diags),
        vec![
            ErrorKey::MissingLocalization,
            ErrorKey::MissingLocalization,
            ErrorKey::MissingField,
            ErrorKey::TypeMismatch,
            ErrorKey::MissingLocalization,
            ErrorKey::MissingField
        ]
    );
    assert_eq!(diags[0].loc, loc(4, 20));
    assert_eq!(diags[1].loc, loc(5, 20));
    assert_eq!(diags[2].msg, "required field `character` missing");
    assert_eq!(diags[2].loc, loc(10, 10));
    assert_eq!(diags[3].loc, loc(13, 20));
    assert_eq!(diags[4].msg, "missing localization for `my_option`");
    assert_eq!(diags[5].msg, "event option tooltip with no text");
    assert_eq!(diags[5].severity, Severity::Warning);
    assert_eq!(diags[5].loc, loc(8, 20));
}

#[test]
fn court_event() {
    let data = Everything::new();
    let mut artifact = Block::new(loc(5, 12));
    kv(&mut artifact, "target", "scope:a", 6);
    kv(&mut artifact, "position", "upper_left", 7);
    let mut scene = Block::new(loc(8, 15));
    kv(&mut scene, "court_owner", "root", 9);
    let mut outfit = Block::new(loc(12, 20));
    kv(&mut outfit, "outfit_tags", "one", 13);
    let mut animation = Block::new(loc(14, 24));
    kv(&mut animation, "animation", "sad", 15);
    let mut portrait = Block::new(loc(11, 24));
    kv(&mut portrait, "character", "root", 11);
    kb(&mut portrait, "triggered_outfit", outfit, 12);
    kb(&mut portrait, "triggered_animation", animation, 14);
    let mut b = Block::new(loc(1, 14));
    kv(&mut b, "type", "duel", 2);
    kv(&mut b, "hidden", "yes", 2);
    kv(&mut b, "opening", "x", 3);
    kv(&mut b, "left_portrait", "root", 4);
    kb(&mut b, "artifact", artifact, 5);
    kb(&mut b, "court_scene", scene, 8);
    kv(&mut b, "override_background", "x", 10);
    kb(&mut b, "lower_left_portrait", portrait, 11);
    kv(&mut b, "type", "court_event", 16);
    let event = Event::new(tok("e.1", 1, 1), b);
    let diags = event.validate(&data);
    assert_eq!(
        keys(&diags),
        vec![
            ErrorKey::InvalidChoice,
            ErrorKey::DuplicateField,
            ErrorKey::Unneeded,
            ErrorKey::Unneeded,
            ErrorKey::MissingField,
            ErrorKey::TypeMismatch,
            ErrorKey::InvalidChoice,
            ErrorKey::MissingField,
            ErrorKey::Unneeded,
        ]
    );
    assert_eq!(
        diags[0].msg,
        "expected one of letter_event, character_event, court_event, duel_event, \
         fullscreen_event, empty"
    );
    assert_eq!(diags[1].loc, loc(16, 1));
    assert_eq!(diags[2].msg, "only needed for letter_event");
    assert_eq!(diags[3].msg, "not needed for court_event");
    assert_eq!(diags[3].loc, loc(4, 1));
    assert_eq!(diags[4].msg, "required field `trigger` missing");
    assert_eq!(diags[5].loc, loc(13, 20));
    assert_eq!(
        diags[6].msg,
        "expected one of lower_left_portrait, lower_center_portrait, lower_right_portrait"
    );
    assert_eq!(diags[7].msg, "required field `button_position_character` missing");
    assert_eq!(diags[8].loc, loc(10, 1));
}

#[test]
fn event_of_another_kind_has_portraits_and_background() {
    let data = Everything::new();
    let mut b = Block::new(loc(1, 14));
    kv(&mut b, "type", "character_event", 2);
    kv(&mut b, "left_portrait", "root", 3);
    kv(&mut b, "override_background", "x", 4);
    kv(&mut b, "sender", "x", 5);
    let event = Event::new(tok("e.1", 1, 1), b);
    let diags = event.validate(&data);
    assert_eq!(
        keys(&diags),
        vec![ErrorKey::Unneeded, ErrorKey::TypeMismatch, ErrorKey::MissingField]
    );
    assert_eq!(diags[0].loc, loc(5, 1));
    assert_eq!(diags[1].loc, loc(4, 20));
    assert_eq!(diags[2].msg, "required field `option` missing");
}

#[test]
fn mod_descriptor() {
    let mut tags = Block::new(loc(5, 8));
    tags.add_value(tok("Fixes", 5, 10));
    tags.add_value(tok("Events", 5, 18));
    let mut b = Block::new(loc(1, 1));
    kv(&mut b, "name", "My Mod", 1);
    kv(&mut b, "path", "mod/my_mod", 2);
    kv(&mut b, "replace_path", "history", 3);
    kv(&mut b, "replace_path", "events", 4);
    kb(&mut b, "tags", tags, 5);
    kv(&mut b, "picture", "cover.png", 6);
    kv(&mut b, "version", "0.1", 7);
    let (modfile, diags) = ModFile::read("/games/ck3/mod/my_mod.mod", b);
    assert_eq!(modfile.name, Some(tok("My Mod", 1, 20)));
    assert_eq!(modfile.path, Some(tok("mod/my_mod", 2, 20)));
    assert_eq!(modfile.replace_path, vec![tok("history", 3, 20), tok("events", 4, 20)]);
    assert_eq!(modfile.tags, Some(vec![tok("Fixes", 5, 10), tok("Events", 5, 18)]));
    assert_eq!(modfile.version, Some(tok("0.1", 7, 20)));
    assert_eq!(modfile.supported_version, None);
    assert_eq!(modfile.pathname, "/games/ck3/mod/my_mod.mod");
    assert_eq!(diags.len(), 1);
    assert_eq!(diags[0].key, ErrorKey::Packaging);
    assert_eq!(diags[0].severity, Severity::Warning);
    assert_eq!(diags[0].loc, loc(6, 20));
    assert_eq!(diags[0].msg, "Steam ignores picture= and always uses thumbnail.png.");

    assert_eq!(modfile.dirpath(), "/games/ck3/mod");
    assert_eq!(modfile.modpath_candidate(), "/games/ck3/mod/mod/my_mod");
    assert_eq!(modfile.modpath(true), "/games/ck3/mod/mod/my_mod");
    assert_eq!(modfile.modpath(false), "/games/ck3/mod");
}

#[test]
fn mod_descriptor_paths() {
    let mut b = Block::new(loc(1, 1));
    kv(&mut b, "picture", "thumbnail.png", 1);
    let (modfile, diags) = ModFile::read("my_mod.mod", b);
    assert_eq!(diags, vec![]);
    assert_eq!(modfile.tags, None);
    assert_eq!(modfile.dirpath(), ".");
    assert_eq!(modfile.modpath_candidate(), ".");
    assert_eq!(modfile.modpath(true), ".");

    let mut b = Block::new(loc(1, 1));
    kv(&mut b, "path", "/abs/my_mod", 1);
    let (modfile, _) = ModFile::read("/my_mod.mod", b);
    assert_eq!(modfile.dirpath(), "/");
    assert_eq!(modfile.modpath_candidate(), "/abs/my_mod");

    let mut b = Block::new(loc(1, 1));
    kv(&mut b, "path", "my_mod", 1);
    let (modfile, _) = ModFile::read("/my_mod.mod", b);
    assert_eq!(modfile.modpath_candidate(), "/my_mod");
    let mut b = Block::new(loc(1, 1));
    kv(&mut b, "path", "my_mod", 1);
    let (modfile, _) = ModFile::read("mods/my_mod.mod", b);
    assert_eq!(modfile.modpath_candidate(), "mods/my_mod");
    assert_eq!(modfile.modpath(false), "mods");
}

#[test]
fn mod_descriptor_decisions() {
    assert_eq!(dirpath_from(None, 0), ".");
    assert_eq!(dirpath_from(None, 3), ".");
    assert_eq!(dirpath_from(Some("".to_string()), 0), ".");
    assert_eq!(dirpath_from(Some("a/b".to_string()), 2), "a/b");
    assert_eq!(modpath_from("dir".to_string(), "dir/mod".to_string(), true), "dir/mod");
    assert_eq!(modpath_from("dir".to_string(), "dir/mod".to_string(), false), "dir");
}

#[test]
fn block_accessors() {
    let mut list = Block::new(loc(4, 8));
    list.add_value(tok("a", 4, 10));
    kv(&mut list, "k", "v", 5);
    list.add_value(tok("b", 6, 10));
    let mut b = Block::new(loc(1, 1));
    kv(&mut b, "x", "1", 1);
    kb(&mut b, "x", Block::new(loc(2, 8)), 2);
    kv(&mut b, "flag", "yes", 3);
    kb(&mut b, "list", list, 4);
    kv(&mut b, "flag", "no", 7);
    assert_eq!(b.get_field("x"), Some(&BV::Block(Block::new(loc(2, 8)))));
    assert_eq!(b.get_field_value("x"), Some(&tok("1", 1, 20)));
    assert_eq!(b.get_field_block("x"), Some(&Block::new(loc(2, 8))));
    assert_eq!(b.get_field_block("flag"), None);
    assert_eq!(b.get_key("flag"), Some(&tok("flag", 7, 1)));
    assert_eq!(b.get_key("none"), None);
    assert_eq!(b.get_field_bool("flag"), Some(false));
    assert_eq!(b.get_field_bool("x"), Some(false));
    assert_eq!(b.get_field_bool("none"), None);
    assert_eq!(b.get_field_values("flag"), vec![tok("yes", 3, 20), tok("no", 7, 20)]);
    assert_eq!(b.get_field_list("list"), Some(vec![tok("a", 4, 10), tok("b", 6, 10)]));
    assert_eq!(b.get_field_list("x"), Some(vec![]));
    assert_eq!(b.get_field_list("flag"), None);
    assert_eq!(b.get_listed_values("list"), vec![tok("a", 4, 10), tok("b", 6, 10)]);
    assert_eq!(b.get_listed_values("x"), vec![]);
    assert_eq!(b.get_values(), vec![]);
    assert_eq!(BV::Value(tok("v", 3, 4)).loc(), loc(3, 4));
    assert_eq!(FileKind::Vanilla.rank_number(), 0);
    assert_eq!(FileKind::Mod.rank_number(), 1);
    assert_eq!(Item::ScriptedTrigger.name(), "scripted trigger");
}
