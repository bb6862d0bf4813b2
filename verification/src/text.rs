//! Character-level helpers: comparing strings and recognising the literal
//! forms (integers, numbers, calendar dates) that appear as scalar
//! tokens in script files.

use vstd::prelude::*;
use vstd::utf8::{encode_utf8, encode_utf8_decode_utf8};

verus! {

/// The characters of `s`, as a vector.
pub fn chars_of(s: &str) -> (v: Vec<char>)
    ensures
        v@ == s@,
{
    broadcast use vstd::string::group_string_axioms;

    let mut v: Vec<char> = Vec::new();
    for c in it: s.chars()
        invariant
            it.seq() == s@,
            v@ == s@.take(it.index()),
    {
        v.push(c);
        assert(s@.take(it.index() + 1) =~= s@.take(it.index()).push(c));
    }
    assert(s@.take(s@.len() as int) =~= s@);
    v
}

/// Whether two strings hold the same characters.
pub fn str_eq(a: &str, b: &str) -> (r: bool)
    ensures
        r == (a@ == b@),
{
    let x = a.as_bytes();
    let y = b.as_bytes();
    proof {
        encode_utf8_decode_utf8(a@);
        encode_utf8_decode_utf8(b@);
    }
    if x.len() != y.len() {
        return false;
    }
    let mut i: usize = 0;
    while i < x.len()
        invariant
            i <= x.len(),
            x.len() == y.len(),
            x@ == encode_utf8(a@),
            y@ == encode_utf8(b@),
            forall|j: int| 0 <= j < i ==> x@[j] == y@[j],
        decreases x.len() - i,
    {
        if x[i] != y[i] {
            assert(x@[i as int] != y@[i as int]);
            return false;
        }
        i = i + 1;
    }
    assert(x@ =~= y@);
    true
}

/// The lower-case form of `s`, as `str::to_lowercase` of the standard
/// library gives it: each character replaced by what the Unicode
/// character database says is its lower case.
pub uninterp spec fn lowercase(s: Seq<char>) -> Seq<char>;

/// `str::to_lowercase`: the lower-case form of `s`. The result is a
/// function of the characters of `s` alone; nothing more is said of it.
#[verifier::external_body]
pub(crate) fn to_lowercase(s: &str) -> (r: String)
    ensures
        r@ == lowercase(s@),
{
    s.to_lowercase()
}

pub open spec fn is_digit(c: char) -> bool {
    '0' <= c && c <= '9'
}

pub open spec fn digit_value(c: char) -> nat {
    (c as u8 - '0' as u8) as nat
}

/// The index of the first character at or after `from` that is no decimal
/// digit, or the length of `s` when digits run to the end.
pub open spec fn digits_end(s: Seq<char>, from: int) -> int
    decreases s.len() - from,
{
    if 0 <= from < s.len() && is_digit(s[from]) {
        digits_end(s, from + 1)
    } else {
        from
    }
}

/// The number that the decimal digits `s[from..to]` write.
pub open spec fn decimal_value(s: Seq<char>, from: int, to: int) -> nat
    decreases to - from,
{
    if from < to {
        10 * decimal_value(s, from, to - 1) + digit_value(s[to - 1])
    } else {
        0
    }
}

/// Length of an optional leading `+` or `-`.
pub open spec fn sign_len(s: Seq<char>) -> int {
    if s.len() > 0 && (s[0] == '-' || s[0] == '+') {
        1
    } else {
        0
    }
}

/// A 32-bit signed integer literal: an optional sign, then one or more
/// decimal digits and nothing else, whose value fits in 32 bits.
pub open spec fn is_integer(s: Seq<char>) -> bool {
    let start = sign_len(s);
    let magnitude = decimal_value(s, start, s.len() as int);
    &&& start < s.len()
    &&& digits_end(s, start) == s.len()
    &&& if start == 1 && s[0] == '-' {
        magnitude <= 2147483648
    } else {
        magnitude <= 2147483647
    }
}

/// Whether `c` is the letter that is written `small` or `capital`.
pub open spec fn is_letter(c: char, small: char, capital: char) -> bool {
    c == small || c == capital
}

/// Whether `s` from `from` on is the word `inf`, `infinity` or `nan`, in
/// letters of either case.
pub open spec fn is_special_number(s: Seq<char>, from: int) -> bool {
    let inf = is_letter(s[from], 'i', 'I') && is_letter(s[from + 1], 'n', 'N') && is_letter(
        s[from + 2],
        'f',
        'F',
    );
    let inity = is_letter(s[from + 3], 'i', 'I') && is_letter(s[from + 4], 'n', 'N')
        && is_letter(s[from + 5], 'i', 'I') && is_letter(s[from + 6], 't', 'T') && is_letter(
        s[from + 7],
        'y',
        'Y',
    );
    let nan = is_letter(s[from], 'n', 'N') && is_letter(s[from + 1], 'a', 'A') && is_letter(
        s[from + 2],
        'n',
        'N',
    );
    if s.len() - from == 3 {
        inf || nan
    } else if s.len() - from == 8 {
        inf && inity
    } else {
        false
    }
}

/// Where the digits and the decimal point of a number end that starts at
/// `start`: after the digits, and after the point and the digits that
/// follow it where there is a point.
pub open spec fn mantissa_end(s: Seq<char>, start: int) -> int {
    let dot = digits_end(s, start);
    if dot < s.len() && s[dot] == '.' {
        digits_end(s, dot + 1)
    } else {
        dot
    }
}

/// How many digits the number has that starts at `start`, before its
/// exponent.
pub open spec fn mantissa_digits(s: Seq<char>, start: int) -> int {
    let dot = digits_end(s, start);
    if dot < s.len() && s[dot] == '.' {
        (dot - start) + (digits_end(s, dot + 1) - (dot + 1))
    } else {
        dot - start
    }
}

/// Length of a `+` or `-` at `at`.
pub open spec fn sign_len_at(s: Seq<char>, at: int) -> int {
    if 0 <= at < s.len() && (s[at] == '-' || s[at] == '+') {
        1
    } else {
        0
    }
}

/// A number literal, as the standard library reads a floating-point
/// number: an optional sign; then either one of the words `inf`,
/// `infinity` and `nan`, in letters of either case, or digits with at most
/// one decimal point among them, at least one digit, and optionally an
/// exponent, which is `e` or `E`, an optional sign and one or more digits.
pub open spec fn is_number(s: Seq<char>) -> bool {
    let start = sign_len(s);
    let end = mantissa_end(s, start);
    let exponent = end + 1 + sign_len_at(s, end + 1);
    is_special_number(s, start) || (mantissa_digits(s, start) >= 1 && (end == s.len() || (
    is_letter(s[end], 'e', 'E') && exponent < s.len() && digits_end(s, exponent) == s.len())))
}

/// Days in each month of the fixed 365-day calendar that the games use.
pub open spec fn days_in_month(month: nat) -> nat {
    if month == 2 {
        28
    } else if month == 4 || month == 6 || month == 9 || month == 11 {
        30
    } else {
        31
    }
}

/// A calendar date `year.month.day`: three runs of decimal digits separated
/// by single points, a year of one to four digits, a month from 1 to 12 and
/// a day that exists in that month.
pub open spec fn is_date(s: Seq<char>) -> bool {
    let a = digits_end(s, 0);
    let b = digits_end(s, a + 1);
    let c = digits_end(s, b + 1);
    let month = decimal_value(s, a + 1, b);
    let day = decimal_value(s, b + 1, c);
    &&& 1 <= a <= 4
    &&& a < s.len() && s[a] == '.'
    &&& 1 <= b - (a + 1) <= 2
    &&& b < s.len() && s[b] == '.'
    &&& 1 <= c - (b + 1) <= 2
    &&& c == s.len()
    &&& 1 <= month <= 12
    &&& 1 <= day <= days_in_month(month)
}

proof fn lemma_digits_end_bounds(s: Seq<char>, from: int)
    requires
        0 <= from <= s.len(),
    ensures
        from <= digits_end(s, from) <= s.len(),
        forall|j: int| from <= j < digits_end(s, from) ==> is_digit(#[trigger] s[j]),
        digits_end(s, from) < s.len() ==> !is_digit(s[digits_end(s, from)]),
    decreases s.len() - from,
{
    if from < s.len() && is_digit(s[from]) {
        lemma_digits_end_bounds(s, from + 1);
    }
}

proof fn lemma_digits_end_unique(s: Seq<char>, from: int, end: int)
    requires
        0 <= from <= end <= s.len(),
        forall|j: int| from <= j < end ==> is_digit(#[trigger] s[j]),
        end < s.len() ==> !is_digit(s[end]),
    ensures
        digits_end(s, from) == end,
    decreases end - from,
{
    if from < end {
        lemma_digits_end_unique(s, from + 1, end);
    }
}

proof fn lemma_decimal_value_grows(s: Seq<char>, from: int, mid: int, to: int)
    requires
        from <= mid <= to,
    ensures
        decimal_value(s, from, mid) <= decimal_value(s, from, to),
    decreases to - mid,
{
    if mid < to {
        lemma_decimal_value_grows(s, from, mid, to - 1);
    }
}

/// The end of the run of decimal digits that starts at `from`.
fn scan_digits(cs: &Vec<char>, from: usize) -> (end: usize)
    requires
        from <= cs.len(),
    ensures
        end == digits_end(cs@, from as int),
        from <= end <= cs.len(),
{
    let mut i: usize = from;
    while i < cs.len() && cs[i] >= '0' && cs[i] <= '9'
        invariant
            from <= i <= cs.len(),
            forall|j: int| from <= j < i ==> is_digit(#[trigger] cs@[j]),
        decreases cs.len() - i,
    {
        i = i + 1;
    }
    proof {
        lemma_digits_end_unique(cs@, from as int, i as int);
    }
    i
}

/// The value of the digits `cs[from..to]`, where it is at most `limit`.
fn digits_value(cs: &Vec<char>, from: usize, to: usize, limit: u64) -> (r: Option<u64>)
    requires
        from <= to <= cs.len(),
        forall|j: int| from <= j < to ==> is_digit(#[trigger] cs@[j]),
        limit <= 0xffff_ffff,
    ensures
        r == if decimal_value(cs@, from as int, to as int) <= limit {
            Some(decimal_value(cs@, from as int, to as int) as u64)
        } else {
            None
        },
{
    let mut acc: u64 = 0;
    let mut i: usize = from;
    while i < to
        invariant
            from <= i <= to <= cs.len(),
            forall|j: int| from <= j < to ==> is_digit(#[trigger] cs@[j]),
            acc == decimal_value(cs@, from as int, i as int),
            acc <= limit <= 0xffff_ffff,
        decreases to - i,
    {
        let c = cs[i];
        assert(is_digit(cs@[i as int]));
        let d: u64 = (c as u8 - '0' as u8) as u64;
        let next: u64 = acc * 10 + d;
        assert(next == decimal_value(cs@, from as int, i + 1));
        if next > limit {
            proof {
                lemma_decimal_value_grows(cs@, from as int, i + 1, to as int);
            }
            return None;
        }
        acc = next;
        i = i + 1;
    }
    Some(acc)
}

fn sign_length(cs: &Vec<char>) -> (n: usize)
    ensures
        n == sign_len(cs@),
{
    if cs.len() > 0 && (cs[0] == '-' || cs[0] == '+') {
        1
    } else {
        0
    }
}

/// Whether `s` is a 32-bit signed integer literal.
pub fn parses_as_integer(s: &str) -> (r: bool)
    ensures
        r == is_integer(s@),
{
    let cs = chars_of(s);
    let start = sign_length(&cs);
    if start >= cs.len() {
        return false;
    }
    let end = scan_digits(&cs, start);
    if end != cs.len() {
        return false;
    }
    proof {
        lemma_digits_end_bounds(cs@, start as int);
    }
    let limit: u64 = if start == 1 && cs[0] == '-' {
        2147483648
    } else {
        2147483647
    };
    digits_value(&cs, start, end, limit).is_some()
}

fn letter(c: char, small: char, capital: char) -> (r: bool)
    ensures
        r == is_letter(c, small, capital),
{
    c == small || c == capital
}

fn special_number(cs: &Vec<char>, from: usize) -> (r: bool)
    requires
        from <= cs.len(),
    ensures
        r == is_special_number(cs@, from as int),
{
    let left = cs.len() - from;
    if left != 3 && left != 8 {
        return false;
    }
    let inf = letter(cs[from], 'i', 'I') && letter(cs[from + 1], 'n', 'N') && letter(
        cs[from + 2],
        'f',
        'F',
    );
    if left == 3 {
        let nan = letter(cs[from], 'n', 'N') && letter(cs[from + 1], 'a', 'A') && letter(
            cs[from + 2],
            'n',
            'N',
        );
        return inf || nan;
    }
    inf && letter(cs[from + 3], 'i', 'I') && letter(cs[from + 4], 'n', 'N') && letter(
        cs[from + 5],
        'i',
        'I',
    ) && letter(cs[from + 6], 't', 'T') && letter(cs[from + 7], 'y', 'Y')
}

/// Whether `s` is a number literal.
pub fn parses_as_number(s: &str) -> (r: bool)
    ensures
        r == is_number(s@),
{
    let cs = chars_of(s);
    let start = sign_length(&cs);
    if special_number(&cs, start) {
        return true;
    }
    let dot = scan_digits(&cs, start);
    let mut end = dot;
    let mut digits = dot - start;
    if dot < cs.len() && cs[dot] == '.' {
        end = scan_digits(&cs, dot + 1);
        digits = digits + (end - (dot + 1));
    }
    if digits < 1 {
        return false;
    }
    if end == cs.len() {
        return true;
    }
    if !letter(cs[end], 'e', 'E') {
        return false;
    }
    let mut exponent = end + 1;
    if exponent < cs.len() && (cs[exponent] == '-' || cs[exponent] == '+') {
        exponent = exponent + 1;
    }
    if exponent >= cs.len() {
        return false;
    }
    scan_digits(&cs, exponent) == cs.len()
}

/// Whether `s` is a calendar date.
pub fn parses_as_date(s: &str) -> (r: bool)
    ensures
        r == is_date(s@),
{
    let cs = chars_of(s);
    let a = scan_digits(&cs, 0);
    if a < 1 || a > 4 || a >= cs.len() || cs[a] != '.' {
        return false;
    }
    let b = scan_digits(&cs, a + 1);
    if b < a + 2 || b > a + 3 || b >= cs.len() || cs[b] != '.' {
        return false;
    }
    let c = scan_digits(&cs, b + 1);
    if c < b + 2 || c > b + 3 || c != cs.len() {
        return false;
    }
    proof {
        lemma_digits_end_bounds(cs@, a + 1);
        lemma_digits_end_bounds(cs@, b + 1);
    }
    let month = match digits_value(&cs, a + 1, b, 12) {
        Some(m) => m,
        None => {
            return false;
        },
    };
    if month < 1 {
        return false;
    }
    let last: u64 = if month == 2 {
        28
    } else if month == 4 || month == 6 || month == 9 || month == 11 {
        30
    } else {
        31
    };
    match digits_value(&cs, b + 1, c, last) {
        Some(d) => d >= 1,
        None => false,
    }
}


/// Whether `s` ends with `suffix`.
pub open spec fn has_suffix(s: Seq<char>, suffix: Seq<char>) -> bool {
    s.len() >= suffix.len() && s.subrange(s.len() - suffix.len(), s.len() as int) == suffix
}

/// Whether `s` ends with `suffix`.
pub fn ends_with(s: &str, suffix: &str) -> (r: bool)
    ensures
        r == has_suffix(s@, suffix@),
{
    let cs = chars_of(s);
    let tail = chars_of(suffix);
    if cs.len() < tail.len() {
        return false;
    }
    let start = cs.len() - tail.len();
    let mut i: usize = 0;
    while i < tail.len()
        invariant
            i <= tail.len(),
            start + tail.len() == cs.len(),
            cs@ == s@,
            tail@ == suffix@,
            forall|j: int| 0 <= j < i ==> cs@[start + j] == tail@[j],
        decreases tail.len() - i,
    {
        if cs[start + i] != tail[i] {
            assert(s@.subrange(s@.len() - suffix@.len(), s@.len() as int)[i as int]
                != suffix@[i as int]);
            return false;
        }
        i = i + 1;
    }
    assert(s@.subrange(s@.len() - suffix@.len(), s@.len() as int) =~= suffix@);
    true
}


/// The index of the first `c` at or after `from`, or -1.
pub open spec fn first_char(s: Seq<char>, c: char, from: int) -> int
    decreases s.len() - from,
{
    if from < 0 || from >= s.len() {
        -1
    } else if s[from] == c {
        from
    } else {
        first_char(s, c, from + 1)
    }
}

/// The index of the first `c` in `cs`.
pub fn find_char(cs: &Vec<char>, c: char) -> (r: Option<usize>)
    ensures
        match r {
            Some(i) => i == first_char(cs@, c, 0) && i < cs@.len(),
            None => first_char(cs@, c, 0) == -1,
        },
{
    let mut i: usize = 0;
    while i < cs.len()
        invariant
            i <= cs.len(),
            first_char(cs@, c, 0) == first_char(cs@, c, i as int),
        decreases cs.len() - i,
    {
        if cs[i] == c {
            return Some(i);
        }
        i = i + 1;
    }
    None
}

/// Whether `cs` holds nothing but decimal digits from `from` on.
pub fn digits_to_end(cs: &Vec<char>, from: usize) -> (r: bool)
    requires
        from <= cs.len(),
    ensures
        r == (digits_end(cs@, from as int) == cs@.len()),
{
    scan_digits(cs, from) == cs.len()
}

/// Whether the first `n` characters of `cs` spell one of `names`.
pub fn prefix_among(cs: &Vec<char>, n: usize, names: &Vec<String>) -> (r: bool)
    requires
        n <= cs.len(),
    ensures
        r == (exists|i: int| 0 <= i < names@.len() && (#[trigger] names@[i])@ == cs@.take(n as int)),
{
    let mut i: usize = 0;
    while i < names.len()
        invariant
            i <= names.len(),
            n <= cs.len(),
            forall|j: int| 0 <= j < i ==> (#[trigger] names@[j])@ != cs@.take(n as int),
        decreases names.len() - i,
    {
        let name = chars_of(names[i].as_str());
        if name.len() == n {
            let mut k: usize = 0;
            let mut same = true;
            while k < n
                invariant
                    k <= n,
                    n <= cs.len(),
                    name@.len() == n,
                    same == (forall|j: int| 0 <= j < k ==> name@[j] == cs@[j]),
                decreases n - k,
            {
                if name[k] != cs[k] {
                    same = false;
                }
                k = k + 1;
            }
            if same {
                assert(name@ =~= cs@.take(n as int));
                return true;
            } else {
                proof {
                    let j = choose|j: int| 0 <= j < n && name@[j] != cs@[j];
                    assert(cs@.take(n as int)[j] == cs@[j]);
                }
            }
        }
        i = i + 1;
    }
    false
}

} // verus!
