use tiger_lib::text::{
    chars_of, ends_with, parses_as_date, parses_as_integer, parses_as_number, str_eq,
};

#[test]
fn characters_of_a_string() {
    assert_eq!(chars_of("aé£"), vec!['a', 'é', '£']);
    assert_eq!(chars_of(""), Vec::<char>::new());
}

#[test]
fn string_equality() {
    assert!(str_eq("abc", "abc"));
    assert!(str_eq("", ""));
    assert!(!str_eq("abc", "abd"));
    assert!(!str_eq("abc", "ab"));
    assert!(!str_eq("é", "e"));
}

#[test]
fn integers() {
    for s in ["0", "7", "-7", "+7", "007", "2147483647", "-2147483648", "+2147483647"] {
        assert!(parses_as_integer(s), "{}", s);
    }
    for s in [
        "", "-", "+", "1.0", "1e3", " 1", "1 ", "abc", "2147483648", "-2147483649",
        "99999999999999999999999", "--1", "1-",
    ] {
        assert!(!parses_as_integer(s), "{}", s);
    }
}

#[test]
fn integers_agree_with_the_standard_parser() {
    for s in ["12", "-0", "+0", "00000000000000000000001", "4294967296", "-2147483648", "٣"] {
        assert_eq!(parses_as_integer(s), s.parse::<i32>().is_ok(), "{}", s);
    }
}

#[test]
fn numbers() {
    for s in [
        "0", "10", "-1.5", "+2.25", "1.", ".5", "-.5", "100", "0.001", "1e5", "1E5", "1.5e-3",
        "2.e+7", ".5e0", "-1e10", "inf", "-inf", "+Infinity", "INF", "nan", "NaN", "-nan",
    ] {
        assert!(parses_as_number(s), "{}", s);
    }
    for s in [
        "", "-", ".", "-.", "abc", "1.5.2", "1,5", " 1", "1-", "e5", ".e5", "1e", "1e+", "1e5.0",
        "1e5e5", "in", "infinit", "infinityy", "na", "nane", "1f", "0x10", "--1", "+-1",
    ] {
        assert!(!parses_as_number(s), "{}", s);
    }
}

#[test]
fn numbers_agree_with_the_standard_parser() {
    for s in [
        "", "0", "-0", "+0.", "1.5", ".5", "5.", ".", "-", "+", "1e5", "1E-5", "1e+5", "1e",
        "e1", "1.e1", ".1e1", ".e1", "1e1.5", "inf", "Inf", "iNf", "infinity", "INFINITY",
        "infinit", "-infinity", "+inf", "nan", "NAN", "-NaN", "nan0", "abc", "1 ", " 1", "1_000",
        "٣", "1e٣", "0x1p3", "1d5", "12345678901234567890123456789", "1e1000", "--1",
    ] {
        assert_eq!(parses_as_number(s), s.parse::<f64>().is_ok(), "{}", s);
    }
}

#[test]
fn dates() {
    for s in ["867.1.1", "1066.9.15", "1.1.1", "1100.2.28", "1453.12.31", "0.04.30", "9999.01.01"]
    {
        assert!(parses_as_date(s), "{}", s);
    }
    for s in [
        "", "867", "867.1", "867.1.1.1", "867.13.1", "867.0.1", "867.1.0", "867.1.32",
        "1100.2.29", "1100.4.31", "12345.1.1", "867.001.1", "867.1.001", "a.1.1", "867..1",
        "867.1.", ".1.1", "-867.1.1", "867-1-1",
    ] {
        assert!(!parses_as_date(s), "{}", s);
    }
}

#[test]
fn suffixes() {
    assert!(ends_with("events.txt", ".txt"));
    assert!(ends_with(".txt", ".txt"));
    assert!(ends_with("anything", ""));
    assert!(!ends_with("events.txt.bak", ".txt"));
    assert!(!ends_with("txt", ".txt"));
    assert!(!ends_with("events.TXT", ".txt"));
}
