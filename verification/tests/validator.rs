use tiger_lib::block::validator::Validator;
use tiger_lib::block::{Block, Comparator, BV};
use tiger_lib::db::DbKind;
use tiger_lib::everything::Everything;
use tiger_lib::imperator::data::loyalty::Loyalty;
use tiger_lib::report::{Diagnostic, ErrorKey, Severity};
use tiger_lib::token::{FileKind, Loc, Token};

fn loc(line: u32, column: u32) -> Loc {
    Loc::new(FileKind::Mod, 0, line, column)
}

fn vanilla(line: u32, column: u32) -> Loc {
    Loc::new(FileKind::Vanilla, 1, line, column)
}

fn tok(s: &str, line: u32, column: u32) -> Token {
    Token::new(s, loc(line, column))
}

/// Adds `key = value` on line `line`, the key in column 1 and the value in column 20.
fn kv(b: &mut Block, key: &str, value: &str, line: u32) {
    b.add_key_value(tok(key, line, 1), Comparator::Eq, BV::Value(tok(value, line, 20)));
}

fn kb(b: &mut Block, key: &str, inner: Block, line: u32) {
    b.add_key_value(tok(key, line, 1), Comparator::Eq, BV::Block(inner));
}

fn keys(diags: &[Diagnostic]) -> Vec<ErrorKey> {
    diags.iter().map(|d| d.key).collect()
}

fn validate_loyalty(b: &Block) -> Vec<Diagnostic> {
    let data = Everything::new();
    let key = tok("loyalty_test", 1, 1);
    (Loyalty {}).validate(&key, b, &data)
}

#[test]
fn complete_block_reports_nothing() {
    let mut b = Block::new(loc(1, 1));
    kv(&mut b, "value", "10", 2);
    kv(&mut b, "min", "0", 3);
    kv(&mut b, "max", "100", 4);
    assert_eq!(validate_loyalty(&b), vec![]);
}

#[test]
fn word_for_number_is_reported_once() {
    let mut b = Block::new(loc(1, 1));
    kv(&mut b, "value", "abc", 2);
    let diags = validate_loyalty(&b);
    assert_eq!(diags.len(), 1);
    assert_eq!(diags[0].key, ErrorKey::NotANumber);
    assert_eq!(diags[0].severity, Severity::Error);
    assert_eq!(diags[0].loc, loc(2, 20));
    assert_eq!(diags[0].msg, "expected number");
}

#[test]
fn second_occurrence_is_the_duplicate() {
    let mut b = Block::new(loc(1, 1));
    kv(&mut b, "value", "10", 2);
    kv(&mut b, "value", "20", 3);
    let diags = validate_loyalty(&b);
    assert_eq!(diags.len(), 1);
    assert_eq!(diags[0].key, ErrorKey::DuplicateField);
    assert_eq!(diags[0].severity, Severity::Warning);
    assert_eq!(diags[0].loc, loc(3, 1));
    assert_eq!(diags[0].related, Some(loc(2, 1)));
    assert_eq!(diags[0].msg, "multiple definitions of `value`, expected only one.");
}

#[test]
fn undeclared_field_is_reported_by_the_sweep() {
    let mut b = Block::new(loc(1, 1));
    kv(&mut b, "value", "10", 2);
    kv(&mut b, "bogus", "1", 3);
    let data = Everything::new();
    let mut vd = Validator::new(&b, &data);
    vd.req_field("value");
    vd.field_numeric("value");
    let diags = vd.warn_remaining();
    assert_eq!(diags.len(), 1);
    assert_eq!(diags[0].key, ErrorKey::UnknownField);
    assert_eq!(diags[0].loc, loc(3, 1));
    assert_eq!(diags[0].msg, "unknown field `bogus`");
}

#[test]
fn skipping_the_sweep_reports_no_unknown_field() {
    let mut b = Block::new(loc(1, 1));
    kv(&mut b, "value", "10", 2);
    kv(&mut b, "bogus", "1", 3);
    let data = Everything::new();
    let mut vd = Validator::new(&b, &data);
    vd.field_numeric("value");
    assert_eq!(vd.skip_remaining(), vec![]);
}

#[test]
fn missing_required_field() {
    let b = Block::new(loc(7, 3));
    let diags = validate_loyalty(&b);
    assert_eq!(diags.len(), 1);
    assert_eq!(diags[0].key, ErrorKey::MissingField);
    assert_eq!(diags[0].severity, Severity::Error);
    assert_eq!(diags[0].loc, loc(7, 3));
    assert_eq!(diags[0].msg, "required field `value` missing");
}

#[test]
fn req_field_says_whether_the_field_is_there() {
    let mut b = Block::new(loc(1, 1));
    kv(&mut b, "a", "1", 2);
    let data = Everything::new();
    let mut vd = Validator::new(&b, &data);
    assert!(vd.req_field("a"));
    assert!(!vd.req_field("b"));
    let diags = vd.warn_remaining();
    assert_eq!(keys(&diags), vec![ErrorKey::MissingField]);
}

#[test]
fn validation_twice_reports_the_same() {
    let mut b = Block::new(loc(1, 1));
    kv(&mut b, "value", "abc", 2);
    kv(&mut b, "value", "7", 3);
    b.add_key_value(tok("min", 4, 1), Comparator::Gt, BV::Value(tok("x", 4, 20)));
    kv(&mut b, "bogus", "1", 5);
    b.add_value(tok("loose", 6, 1));
    let first = validate_loyalty(&b);
    let second = validate_loyalty(&b);
    assert_eq!(first.len(), 6);
    assert_eq!(first, second);
}

#[test]
fn repeated_declaration_reports_again() {
    let mut b = Block::new(loc(1, 1));
    kv(&mut b, "n", "abc", 2);
    let data = Everything::new();
    let mut vd = Validator::new(&b, &data);
    vd.field_integer("n");
    vd.field_integer("n");
    let diags = vd.warn_remaining();
    assert_eq!(keys(&diags), vec![ErrorKey::NotAnInteger, ErrorKey::NotAnInteger]);
    assert_eq!(diags[0], diags[1]);
}

#[test]
fn every_entry_is_claimed_reported_or_permitted() {
    let mut b = Block::new(loc(1, 1));
    kv(&mut b, "known", "1", 2);
    kv(&mut b, "unknown", "1", 3);
    b.add_value(tok("5", 4, 1));
    b.add_block(Block::new(loc(5, 1)));
    let data = Everything::new();

    // Nothing loose is expected: the unknown key, the loose value and the loose block are reported.
    let mut vd = Validator::new(&b, &data);
    vd.field("known");
    let diags = vd.warn_remaining();
    assert_eq!(
        keys(&diags),
        vec![ErrorKey::UnknownField, ErrorKey::MisplacedValue, ErrorKey::MisplacedBlock]
    );
    assert_eq!(diags[0].loc, loc(3, 1));
    assert_eq!(diags[1].loc, loc(4, 1));
    assert_eq!(diags[1].msg, "found loose value, expected only `key =`");
    assert_eq!(diags[2].loc, loc(5, 1));
    assert_eq!(diags[2].msg, "found sub-block, expected only `key =`");

    // Loose values and blocks are expected: only the unknown key is reported.
    let mut vd = Validator::new(&b, &data);
    vd.field("known");
    vd.req_tokens_integers_exactly(1);
    vd.accept_blocks();
    let diags = vd.warn_remaining();
    assert_eq!(keys(&diags), vec![ErrorKey::UnknownField]);
}

#[test]
fn other_rank_is_no_duplicate() {
    let mut b = Block::new(loc(1, 1));
    b.add_key_value(
        Token::new("value", vanilla(2, 1)),
        Comparator::Eq,
        BV::Value(Token::new("1", vanilla(2, 20))),
    );
    kv(&mut b, "value", "2", 3);
    let data = Everything::new();
    let mut vd = Validator::new(&b, &data);
    vd.field_integer("value");
    assert_eq!(vd.warn_remaining(), vec![]);

    // The other way round.
    let mut b = Block::new(loc(1, 1));
    kv(&mut b, "value", "2", 2);
    b.add_key_value(
        Token::new("value", vanilla(3, 1)),
        Comparator::Eq,
        BV::Value(Token::new("1", vanilla(3, 20))),
    );
    let mut vd = Validator::new(&b, &data);
    vd.field_integer("value");
    assert_eq!(vd.warn_remaining(), vec![]);
}

#[test]
fn duplicate_points_at_the_last_of_its_own_rank() {
    let mut b = Block::new(loc(1, 1));
    kv(&mut b, "value", "1", 2);
    b.add_key_value(
        Token::new("value", vanilla(3, 1)),
        Comparator::Eq,
        BV::Value(Token::new("1", vanilla(3, 20))),
    );
    kv(&mut b, "value", "3", 4);
    kv(&mut b, "value", "4", 5);
    let data = Everything::new();
    let mut vd = Validator::new(&b, &data);
    vd.field_integer("value");
    let diags = vd.warn_remaining();
    assert_eq!(keys(&diags), vec![ErrorKey::DuplicateField, ErrorKey::DuplicateField]);
    assert_eq!(diags[0].loc, loc(4, 1));
    assert_eq!(diags[0].related, Some(loc(2, 1)));
    assert_eq!(diags[1].loc, loc(5, 1));
    assert_eq!(diags[1].related, Some(loc(4, 1)));
}

#[test]
fn wrong_comparator() {
    let mut b = Block::new(loc(1, 1));
    b.add_key_value(tok("age", 2, 1), Comparator::Ge, BV::Value(tok("16", 2, 20)));
    let data = Everything::new();
    let mut vd = Validator::new(&b, &data);
    assert!(vd.field_integer("age"));
    let diags = vd.warn_remaining();
    assert_eq!(diags.len(), 1);
    assert_eq!(diags[0].key, ErrorKey::WrongComparator);
    assert_eq!(diags[0].loc, loc(2, 1));
    assert_eq!(diags[0].msg, "expected `age =`, found `>=`");
}

#[test]
fn any_comparator_is_permitted_where_declared() {
    let mut b = Block::new(loc(1, 1));
    b.add_key_value(tok("age", 2, 1), Comparator::Lt, BV::Value(tok("16", 2, 20)));
    let data = Everything::new();
    let mut vd = Validator::new(&b, &data);
    let value = vd.field_any_comparator("age");
    assert_eq!(value, Some(&BV::Value(tok("16", 2, 20))));
    assert_eq!(vd.warn_remaining(), vec![]);
}

#[test]
fn comparator_symbols() {
    assert_eq!(Comparator::Eq.symbol(), "=");
    assert_eq!(Comparator::Gt.symbol(), ">");
    assert_eq!(Comparator::Lt.symbol(), "<");
    assert_eq!(Comparator::Ge.symbol(), ">=");
    assert_eq!(Comparator::Le.symbol(), "<=");
    assert_eq!(Comparator::QEq.symbol(), "?=");
}

#[test]
fn block_for_value_and_value_for_block() {
    let mut b = Block::new(loc(1, 1));
    kb(&mut b, "name", Block::new(loc(2, 8)), 2);
    kv(&mut b, "trigger", "yes", 3);
    let data = Everything::new();
    let mut vd = Validator::new(&b, &data);
    assert_eq!(vd.field_value("name"), None);
    assert!(vd.field_block("trigger"));
    let diags = vd.warn_remaining();
    assert_eq!(keys(&diags), vec![ErrorKey::TypeMismatch, ErrorKey::TypeMismatch]);
    assert_eq!(diags[0].loc, loc(2, 8));
    assert_eq!(diags[0].msg, "expected value, found block");
    assert_eq!(diags[1].loc, loc(3, 20));
    assert_eq!(diags[1].msg, "expected block, found value");
}

#[test]
fn field_returns_the_last_occurrence() {
    let mut b = Block::new(loc(1, 1));
    kv(&mut b, "a", "1", 2);
    kv(&mut b, "a", "2", 3);
    let data = Everything::new();
    let mut vd = Validator::new(&b, &data);
    assert_eq!(vd.field("a"), Some(&BV::Value(tok("2", 3, 20))));
    assert_eq!(vd.field("b"), None);
    assert_eq!(vd.field_value("a"), Some(&tok("2", 3, 20)));
    let diags = vd.warn_remaining();
    assert_eq!(keys(&diags), vec![ErrorKey::DuplicateField, ErrorKey::DuplicateField]);
}

#[test]
fn bool_field() {
    let mut b = Block::new(loc(1, 1));
    kv(&mut b, "a", "yes", 2);
    kv(&mut b, "b", "no", 3);
    kv(&mut b, "c", "maybe", 4);
    let data = Everything::new();
    let mut vd = Validator::new(&b, &data);
    assert!(vd.field_bool("a"));
    assert!(vd.field_bool("b"));
    assert!(vd.field_bool("c"));
    assert!(!vd.field_bool("d"));
    let diags = vd.warn_remaining();
    assert_eq!(diags.len(), 1);
    assert_eq!(diags[0].key, ErrorKey::InvalidChoice);
    assert_eq!(diags[0].loc, loc(4, 20));
    assert_eq!(diags[0].msg, "expected yes or no");
}

#[test]
fn integer_field() {
    let mut b = Block::new(loc(1, 1));
    kv(&mut b, "a", "-12", 2);
    kv(&mut b, "b", "1.5", 3);
    let data = Everything::new();
    let mut vd = Validator::new(&b, &data);
    vd.field_integer("a");
    vd.field_integer("b");
    let diags = vd.warn_remaining();
    assert_eq!(diags.len(), 1);
    assert_eq!(diags[0].key, ErrorKey::NotAnInteger);
    assert_eq!(diags[0].loc, loc(3, 20));
    assert_eq!(diags[0].msg, "expected integer");
}

#[test]
fn float_field() {
    let mut b = Block::new(loc(1, 1));
    kv(&mut b, "a", "-12", 2);
    kv(&mut b, "b", "1.5", 3);
    kv(&mut b, "c", "1.5.2", 4);
    let data = Everything::new();
    let mut vd = Validator::new(&b, &data);
    vd.field_float("a");
    vd.field_float("b");
    vd.field_float("c");
    let diags = vd.warn_remaining();
    assert_eq!(diags.len(), 1);
    assert_eq!(diags[0].key, ErrorKey::NotANumber);
    assert_eq!(diags[0].loc, loc(4, 20));
}

#[test]
fn choice_field() {
    let mut b = Block::new(loc(1, 1));
    kv(&mut b, "kind", "b", 2);
    kv(&mut b, "other", "d", 3);
    let data = Everything::new();
    let mut vd = Validator::new(&b, &data);
    assert!(vd.field_choice("kind", &["a", "b", "c"]));
    assert!(vd.field_choice("other", &["a", "b", "c"]));
    assert!(!vd.field_choice("none", &["a"]));
    let diags = vd.warn_remaining();
    assert_eq!(diags.len(), 1);
    assert_eq!(diags[0].key, ErrorKey::InvalidChoice);
    assert_eq!(diags[0].loc, loc(3, 20));
    assert_eq!(diags[0].msg, "expected one of a, b, c");
}

#[test]
fn choice_field_with_one_choice() {
    let mut b = Block::new(loc(1, 1));
    kv(&mut b, "kind", "b", 2);
    let data = Everything::new();
    let mut vd = Validator::new(&b, &data);
    vd.field_choice("kind", &["a"]);
    let diags = vd.warn_remaining();
    assert_eq!(diags[0].msg, "expected one of a");
}

#[test]
fn list_field() {
    let mut inner = Block::new(loc(2, 8));
    inner.add_value(tok("a", 2, 10));
    inner.add_key_value(tok("k", 2, 12), Comparator::Eq, BV::Value(tok("b", 2, 16)));
    inner.add_block(Block::new(loc(2, 18)));
    let mut b = Block::new(loc(1, 1));
    kb(&mut b, "tags", inner, 2);
    kv(&mut b, "more", "x", 3);
    let data = Everything::new();
    let mut vd = Validator::new(&b, &data);
    assert!(vd.field_list("tags"));
    assert!(vd.field_list("more"));
    let diags = vd.warn_remaining();
    assert_eq!(
        keys(&diags),
        vec![ErrorKey::MisplacedKey, ErrorKey::TypeMismatch, ErrorKey::TypeMismatch]
    );
    assert_eq!(diags[0].severity, Severity::Warning);
    assert_eq!(diags[0].loc, loc(2, 12));
    assert_eq!(diags[0].msg, "found key `k`, expected only values");
    assert_eq!(diags[1].loc, loc(2, 18));
    assert_eq!(diags[1].msg, "expected value, found block");
    assert_eq!(diags[2].loc, loc(3, 20));
    assert_eq!(diags[2].msg, "expected block, found value");
}

#[test]
fn values_of_lists() {
    let mut first = Block::new(loc(2, 8));
    first.add_value(tok("a", 2, 10));
    first.add_key_value(tok("k", 2, 12), Comparator::Eq, BV::Value(tok("b", 2, 16)));
    first.add_value(tok("c", 2, 18));
    let mut second = Block::new(loc(4, 8));
    second.add_value(tok("d", 4, 10));
    second.add_block(Block::new(loc(4, 12)));
    let mut b = Block::new(loc(1, 1));
    kb(&mut b, "path", first, 2);
    kv(&mut b, "path", "e", 3);
    kb(&mut b, "path", second, 4);
    kv(&mut b, "other", "f", 5);
    let data = Everything::new();
    let mut vd = Validator::new(&b, &data);
    let values = vd.field_values("path");
    assert_eq!(values, vec![tok("a", 2, 10), tok("c", 2, 18), tok("d", 4, 10)]);
    assert_eq!(vd.field_values("nothing"), vec![]);
    vd.fields("other");
    let diags = vd.warn_remaining();
    assert_eq!(
        keys(&diags),
        vec![ErrorKey::MisplacedKey, ErrorKey::TypeMismatch, ErrorKey::TypeMismatch]
    );
    assert_eq!(diags[0].loc, loc(2, 12));
    assert_eq!(diags[1].loc, loc(3, 20));
    assert_eq!(diags[1].msg, "expected block, found value");
    assert_eq!(diags[2].loc, loc(4, 12));
}

#[test]
fn repeated_blocks() {
    let mut b = Block::new(loc(1, 1));
    kb(&mut b, "option", Block::new(loc(2, 8)), 2);
    kb(&mut b, "option", Block::new(loc(3, 8)), 3);
    kv(&mut b, "option", "x", 4);
    let data = Everything::new();
    let mut vd = Validator::new(&b, &data);
    assert!(vd.field_blocks("option"));
    assert!(!vd.field_blocks("nothing"));
    let diags = vd.warn_remaining();
    assert_eq!(keys(&diags), vec![ErrorKey::TypeMismatch]);
    assert_eq!(diags[0].loc, loc(4, 20));
}

#[test]
fn localization_field() {
    let mut b = Block::new(loc(1, 1));
    kv(&mut b, "name", "known_key", 2);
    kv(&mut b, "desc", "unknown_key", 3);
    let mut data = Everything::new();
    data.localization.insert("known_key");
    let mut vd = Validator::new(&b, &data);
    vd.field_value_loca("name");
    vd.field_value_loca("desc");
    let diags = vd.warn_remaining();
    assert_eq!(diags.len(), 1);
    assert_eq!(diags[0].key, ErrorKey::MissingLocalization);
    assert_eq!(diags[0].severity, Severity::Warning);
    assert_eq!(diags[0].loc, loc(3, 20));
    assert_eq!(diags[0].msg, "missing localization for `unknown_key`");
}

#[test]
fn handler_sees_each_value_in_order() {
    let mut b = Block::new(loc(1, 1));
    kv(&mut b, "a", "1", 2);
    kv(&mut b, "b", "2", 3);
    kv(&mut b, "a", "3", 4);
    let data = Everything::new();
    let mut vd = Validator::new(&b, &data);
    let found = vd.field_check("a", |v: &BV| {
        vec![Diagnostic::advice(ErrorKey::Unneeded, "seen", v.loc())]
    });
    assert!(found);
    vd.field("b");
    let diags = vd.warn_remaining();
    assert_eq!(
        keys(&diags),
        vec![ErrorKey::Unneeded, ErrorKey::DuplicateField, ErrorKey::Unneeded]
    );
    assert_eq!(diags[0].loc, loc(2, 20));
    assert_eq!(diags[2].loc, loc(4, 20));
}

#[test]
fn validated_field_may_repeat() {
    let mut b = Block::new(loc(1, 1));
    kv(&mut b, "a", "1", 2);
    kv(&mut b, "a", "3", 4);
    let data = Everything::new();
    let mut vd = Validator::new(&b, &data);
    let found = vd.field_validated("a", |v: &BV| {
        vec![Diagnostic::advice(ErrorKey::Unneeded, "seen", v.loc())]
    });
    assert!(found);
    assert!(!vd.field_validated("z", |_v: &BV| vec![]));
    let diags = vd.warn_remaining();
    assert_eq!(keys(&diags), vec![ErrorKey::Unneeded, ErrorKey::Unneeded]);
}

#[test]
fn validated_blocks() {
    let mut b = Block::new(loc(1, 1));
    kb(&mut b, "a", Block::new(loc(2, 8)), 2);
    kv(&mut b, "a", "x", 3);
    kb(&mut b, "a", Block::new(loc(4, 8)), 4);
    let data = Everything::new();

    let mut vd = Validator::new(&b, &data);
    let found = vd.field_validated_blocks("a", |inner: &Block| {
        vec![Diagnostic::advice(ErrorKey::Unneeded, "seen", inner.loc)]
    });
    assert!(found);
    let diags = vd.warn_remaining();
    assert_eq!(keys(&diags), vec![ErrorKey::Unneeded, ErrorKey::TypeMismatch, ErrorKey::Unneeded]);
    assert_eq!(diags[1].loc, loc(3, 20));
    assert_eq!(diags[2].loc, loc(4, 8));

    let mut vd = Validator::new(&b, &data);
    vd.field_validated_block("a", |inner: &Block| {
        vec![Diagnostic::advice(ErrorKey::Unneeded, "seen", inner.loc)]
    });
    let diags = vd.warn_remaining();
    assert_eq!(
        keys(&diags),
        vec![
            ErrorKey::Unneeded,
            ErrorKey::DuplicateField,
            ErrorKey::TypeMismatch,
            ErrorKey::DuplicateField,
            ErrorKey::Unneeded
        ]
    );
}

#[test]
fn loose_integers_are_counted() {
    let mut b = Block::new(loc(5, 5));
    b.add_value(tok("1", 6, 1));
    b.add_value(tok("two", 6, 3));
    b.add_value(tok("3", 6, 7));
    kv(&mut b, "4", "5", 7);
    let data = Everything::new();

    let mut vd = Validator::new(&b, &data);
    vd.field("4");
    vd.req_tokens_integers_exactly(2);
    let diags = vd.warn_remaining();
    assert_eq!(keys(&diags), vec![ErrorKey::NotAnInteger]);
    assert_eq!(diags[0].loc, loc(6, 3));

    let mut vd = Validator::new(&b, &data);
    vd.field("4");
    vd.req_tokens_integers_exactly(120);
    let diags = vd.warn_remaining();
    assert_eq!(keys(&diags), vec![ErrorKey::NotAnInteger, ErrorKey::WrongCount]);
    assert_eq!(diags[1].loc, loc(5, 5));
    assert_eq!(diags[1].msg, "expected 120 integers");
}

#[test]
fn count_message_with_one_digit_and_zero() {
    let b = Block::new(loc(5, 5));
    let data = Everything::new();
    let mut vd = Validator::new(&b, &data);
    vd.req_tokens_integers_exactly(7);
    let diags = vd.warn_remaining();
    assert_eq!(diags[0].msg, "expected 7 integers");
    let mut vd = Validator::new(&b, &data);
    vd.req_tokens_integers_exactly(0);
    assert_eq!(vd.warn_remaining(), vec![]);
}

#[test]
fn advice_on_the_last_occurrence() {
    let mut b = Block::new(loc(1, 1));
    kv(&mut b, "old", "1", 2);
    kv(&mut b, "old", "2", 3);
    let data = Everything::new();
    let mut vd = Validator::new(&b, &data);
    vd.advice_field("old", "not needed");
    vd.advice_field("older", "not needed either");
    let diags = vd.warn_remaining();
    assert_eq!(diags.len(), 1);
    assert_eq!(diags[0].key, ErrorKey::Unneeded);
    assert_eq!(diags[0].severity, Severity::Advice);
    assert_eq!(diags[0].loc, loc(3, 1));
    assert_eq!(diags[0].msg, "not needed");
}

#[test]
fn history_blocks() {
    let mut b = Block::new(loc(1, 1));
    kb(&mut b, "867.1.1", Block::new(loc(2, 10)), 2);
    kv(&mut b, "1066.9.15", "x", 3);
    b.add_key_value(tok("1100.2.28", 4, 1), Comparator::Gt, BV::Block(Block::new(loc(4, 12))));
    kb(&mut b, "1100.2.29", Block::new(loc(5, 12)), 5);
    kv(&mut b, "name", "x", 6);
    let data = Everything::new();
    let mut vd = Validator::new(&b, &data);
    vd.validate_history_blocks(|date: &Token, inner: &Block, parent: &Block| {
        assert_eq!(parent.loc, loc(1, 1));
        vec![Diagnostic::advice(ErrorKey::Unneeded, date.as_str(), inner.loc)]
    });
    let diags = vd.warn_remaining();
    assert_eq!(
        keys(&diags),
        vec![
            ErrorKey::Unneeded,
            ErrorKey::TypeMismatch,
            ErrorKey::WrongComparator,
            ErrorKey::Unneeded,
            ErrorKey::UnknownField,
            ErrorKey::UnknownField
        ]
    );
    assert_eq!(diags[0].msg, "867.1.1");
    assert_eq!(diags[1].loc, loc(3, 20));
    assert_eq!(diags[3].msg, "1100.2.28");
    // No such day: the key is left for other declarations.
    assert_eq!(diags[4].loc, loc(5, 1));
    assert_eq!(diags[5].loc, loc(6, 1));
}

#[test]
fn unknown_keys_are_handed_out_and_claimed() {
    let mut b = Block::new(loc(1, 1));
    kv(&mut b, "known", "1", 2);
    kv(&mut b, "left", "2", 3);
    kb(&mut b, "over", Block::new(loc(4, 8)), 4);
    b.add_value(tok("loose", 5, 1));
    let data = Everything::new();
    let mut vd = Validator::new(&b, &data);
    vd.field("known");
    let left = vd.unknown_keys();
    assert_eq!(left.len(), 2);
    assert_eq!(left[0].0, &tok("left", 3, 1));
    assert_eq!(left[0].1, &BV::Value(tok("2", 3, 20)));
    assert_eq!(left[1].0, &tok("over", 4, 1));
    let diags = vd.warn_remaining();
    assert_eq!(keys(&diags), vec![ErrorKey::MisplacedValue]);
}

#[test]
fn reports_of_the_caller_keep_their_place() {
    let mut b = Block::new(loc(1, 1));
    kv(&mut b, "a", "x", 2);
    kv(&mut b, "b", "y", 3);
    let data = Everything::new();
    let mut vd = Validator::new(&b, &data);
    vd.field_integer("a");
    vd.report(vec![Diagnostic::warning(ErrorKey::Packaging, "between", loc(9, 9))]);
    vd.field_integer("b");
    let diags = vd.warn_remaining();
    assert_eq!(
        keys(&diags),
        vec![ErrorKey::NotAnInteger, ErrorKey::Packaging, ErrorKey::NotAnInteger]
    );
}

#[test]
fn expect_block_and_value() {
    let value = BV::Value(tok("x", 1, 1));
    let block = BV::Block(Block::new(loc(2, 2)));
    let (b, diags) = value.expect_block();
    assert_eq!(b, None);
    assert_eq!(keys(&diags), vec![ErrorKey::TypeMismatch]);
    let (b, diags) = block.expect_block();
    assert_eq!(b, Some(&Block::new(loc(2, 2))));
    assert_eq!(diags, vec![]);
    let (t, diags) = value.expect_value();
    assert_eq!(t, Some(&tok("x", 1, 1)));
    assert_eq!(diags, vec![]);
    let (t, diags) = block.expect_value();
    assert_eq!(t, None);
    assert_eq!(diags[0].loc, loc(2, 2));
}
