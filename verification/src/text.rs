//! Text helpers: decimal and hexadecimal numbers, prefixes and ASCII case, each
//! stated over the characters of the text.
use vstd::prelude::*;
use vstd::string::{StrSliceExecFns, StringExecFns};

verus! {

/// `str` equality compares the characters (`<str as PartialEq>::eq`).
#[verifier::external_body]
pub(crate) fn same(a: &str, b: &str) -> (equal: bool)
    ensures
        equal == (a@ == b@),
{
    a == b
}

/// `String::push` appends one character.
pub assume_specification[ String::push ](s: &mut String, c: char)
    ensures
        final(s)@ == old(s)@.push(c),
;

/// The characters of `s`, one by one.
pub(crate) fn chars_of(s: &str) -> (chars: Vec<char>)
    ensures
        chars@ == s@,
{
    let mut chars: Vec<char> = Vec::new();
    for c in it: s.chars()
        invariant
            it.seq() == s@,
            chars@ == s@.take(it.index() as int),
    {
        chars.push(c);
        assert(s@.take(it.index() as int).push(c) =~= s@.take(it.index() + 1));
    }
    assert(s@.take(s@.len() as int) =~= s@);
    chars
}

/// The text with the given characters from `from` to `to`.
pub(crate) fn string_between(chars: &Vec<char>, from: usize, to: usize) -> (s: String)
    requires
        from <= to <= chars@.len(),
    ensures
        s@ == chars@.subrange(from as int, to as int),
{
    let mut s = String::new();
    let mut i: usize = from;
    while i < to
        invariant
            from <= i <= to <= chars@.len(),
            s@ == chars@.subrange(from as int, i as int),
        decreases to - i,
    {
        s.push(chars[i]);
        i = i + 1;
        assert(chars@.subrange(from as int, i - 1).push(chars@[i - 1]) =~= chars@.subrange(
            from as int,
            i as int,
        ));
    }
    s
}

/// The text with the given characters.
pub(crate) fn string_of(chars: &Vec<char>) -> (s: String)
    ensures
        s@ == chars@,
{
    let s = string_between(chars, 0, chars.len());
    assert(chars@.subrange(0, chars@.len() as int) =~= chars@);
    s
}

/// `a` followed by `b`.
pub(crate) fn joined(a: &str, b: &str) -> (s: String)
    ensures
        s@ == a@ + b@,
{
    let mut s = a.to_owned();
    s.append(b);
    s
}

// --- decimal numbers ---

pub open spec fn is_digit(c: char) -> bool {
    '0' <= c && c <= '9'
}

pub open spec fn digit_value(c: char) -> nat {
    (c as int - '0' as int) as nat
}

/// The number that a run of decimal digits spells.
pub open spec fn digits_value(s: Seq<char>) -> nat
    decreases s.len(),
{
    if s.len() == 0 {
        0
    } else {
        digits_value(s.drop_last()) * 10 + digit_value(s.last())
    }
}

pub open spec fn digit_char(d: nat) -> char {
    (48 + d) as char
}

/// The shortest decimal spelling of `n`.
pub open spec fn decimal(n: nat) -> Seq<char>
    decreases n,
{
    if n < 10 {
        seq![digit_char(n)]
    } else {
        decimal(n / 10).push(digit_char(n % 10))
    }
}

/// The decimal spelling of an integer, with a leading minus where it is negative.
pub open spec fn decimal_int(n: int) -> Seq<char> {
    if n < 0 {
        seq!['-'] + decimal((-n) as nat)
    } else {
        decimal(n as nat)
    }
}

pub open spec fn all_digits(s: Seq<char>) -> bool {
    forall|i: int| 0 <= i < s.len() ==> is_digit(#[trigger] s[i])
}

/// The unsigned number of at most `max` that `s` spells: an optional plus sign and
/// at least one decimal digit.
pub open spec fn parsed_unsigned(s: Seq<char>, max: nat) -> Option<nat> {
    let body = if s.len() > 0 && s[0] == '+' {
        s.skip(1)
    } else {
        s
    };
    if body.len() > 0 && all_digits(body) && digits_value(body) <= max {
        Some(digits_value(body))
    } else {
        None
    }
}

/// The signed number between `min` and `max` that `s` spells: an optional sign and
/// at least one decimal digit.
pub open spec fn parsed_signed(s: Seq<char>, min: int, max: int) -> Option<int> {
    let negative = s.len() > 0 && s[0] == '-';
    let body = if s.len() > 0 && (s[0] == '+' || s[0] == '-') {
        s.skip(1)
    } else {
        s
    };
    let value = if negative {
        -(digits_value(body) as int)
    } else {
        digits_value(body) as int
    };
    if body.len() > 0 && all_digits(body) && min <= value <= max {
        Some(value)
    } else {
        None
    }
}

proof fn lemma_decimal(n: nat)
    ensures
        decimal(n).len() > 0,
        all_digits(decimal(n)),
        digits_value(decimal(n)) == n,
    decreases n,
{
    if n < 10 {
        reveal_with_fuel(digits_value, 2);
        assert(decimal(n).drop_last() =~= Seq::<char>::empty());
        assert(decimal(n).last() == digit_char(n));
    } else {
        lemma_decimal(n / 10);
        assert(decimal(n).drop_last() =~= decimal(n / 10));
        assert(decimal(n).last() == digit_char(n % 10));
    }
}

/// Reading back a printed number gives the number.
pub proof fn decimal_reads_back(n: nat, max: nat)
    requires
        n <= max,
    ensures
        parsed_unsigned(decimal(n), max) == Some(n),
        all_digits(decimal(n)),
{
    lemma_decimal(n);
    assert(is_digit(decimal(n)[0]));
}

/// Reading back a printed signed number gives the number.
pub proof fn decimal_int_reads_back(n: int, min: int, max: int)
    requires
        min <= n <= max,
    ensures
        parsed_signed(decimal_int(n), min, max) == Some(n),
{
    if n < 0 {
        lemma_decimal((-n) as nat);
        assert(decimal_int(n).skip(1) =~= decimal((-n) as nat));
    } else {
        lemma_decimal(n as nat);
        assert(is_digit(decimal(n as nat)[0]));
    }
}

proof fn lemma_digits_value_grows(s: Seq<char>, n: int)
    requires
        0 <= n <= s.len(),
    ensures
        digits_value(s.take(n)) <= digits_value(s),
    decreases s.len() - n,
{
    if n < s.len() {
        lemma_digits_value_grows(s, n + 1);
        assert(s.take(n + 1).drop_last() =~= s.take(n));
    } else {
        assert(s.take(n) =~= s);
    }
}

/// Print `n` in decimal.
pub(crate) fn print_decimal(n: u64) -> (s: String)
    ensures
        s@ == decimal(n as nat),
    decreases n,
{
    if n < 10 {
        let mut s = String::new();
        s.push((48u8 + n as u8) as char);
        s
    } else {
        let mut s = print_decimal(n / 10);
        s.push((48u8 + (n % 10) as u8) as char);
        s
    }
}

/// Print `n` in decimal.
pub(crate) fn print_decimal_int(n: i64) -> (s: String)
    ensures
        s@ == decimal_int(n as int),
{
    if n < 0 {
        let magnitude: u64 = if n == i64::MIN {
            0x8000_0000_0000_0000
        } else {
            (-n) as u64
        };
        let digits = print_decimal(magnitude);
        joined_char('-', &digits)
    } else {
        print_decimal(n as u64)
    }
}

fn joined_char(c: char, tail: &str) -> (s: String)
    ensures
        s@ == seq![c] + tail@,
{
    let mut s = String::new();
    s.push(c);
    s.append(tail);
    assert(s@ =~= seq![c] + tail@);
    s
}

/// The value of the digits from `from` on, or `None` where there is none, one is
/// no digit, or the value passes `max`.
fn parse_digits(chars: &Vec<char>, from: usize, max: u64) -> (value: Option<u64>)
    requires
        from <= chars@.len(),
    ensures
        ({
            let body = chars@.skip(from as int);
            value == if body.len() > 0 && all_digits(body) && digits_value(body) <= max {
                Some(digits_value(body) as u64)
            } else {
                None::<u64>
            }
        }),
{
    let ghost body = chars@.skip(from as int);
    if from == chars.len() {
        return None;
    }
    let mut value: u64 = 0;
    let mut i: usize = from;
    while i < chars.len()
        invariant
            from <= i <= chars@.len(),
            body == chars@.skip(from as int),
            all_digits(body.take(i - from)),
            value == digits_value(body.take(i - from)),
            value <= max,
        decreases chars@.len() - i,
    {
        let c = chars[i];
        let ghost head = body.take(i - from + 1);
        assert(head.drop_last() =~= body.take(i - from));
        assert(head.last() == c);
        if !('0' <= c && c <= '9') {
            assert(body[i - from] == c);
            return None;
        }
        let d: u64 = (c as u32 - 48) as u64;
        proof {
            lemma_digits_value_grows(body, i - from + 1);
        }
        if value > (u64::MAX - d) / 10 || value * 10 + d > max {
            return None;
        }
        value = value * 10 + d;
        i = i + 1;
    }
    assert(body.take(body.len() as int) =~= body);
    Some(value)
}

/// Read an unsigned number of at most `max`.
pub(crate) fn parse_unsigned(s: &str, max: u64) -> (value: Option<u64>)
    ensures
        match parsed_unsigned(s@, max as nat) {
            Some(n) => value == Some(n as u64) && n <= max,
            None => value is None,
        },
{
    let chars = chars_of(s);
    if chars.len() > 0 && chars[0] == '+' {
        parse_digits(&chars, 1, max)
    } else {
        assert(chars@.skip(0) =~= chars@);
        parse_digits(&chars, 0, max)
    }
}

/// Read a signed 64-bit number.
pub(crate) fn parse_i64(s: &str) -> (value: Option<i64>)
    ensures
        match parsed_signed(s@, i64::MIN as int, i64::MAX as int) {
            Some(n) => value == Some(n as i64) && i64::MIN <= n <= i64::MAX,
            None => value is None,
        },
{
    let chars = chars_of(s);
    if chars.len() > 0 && chars[0] == '-' {
        match parse_digits(&chars, 1, 0x8000_0000_0000_0000) {
            Some(v) => {
                if v == 0x8000_0000_0000_0000 {
                    Some(i64::MIN)
                } else {
                    Some(-(v as i64))
                }
            },
            None => None,
        }
    } else {
        let from: usize = if chars.len() > 0 && chars[0] == '+' {
            1
        } else {
            0
        };
        assert(chars@.skip(0) =~= chars@);
        match parse_digits(&chars, from, i64::MAX as u64) {
            Some(v) => Some(v as i64),
            None => None,
        }
    }
}

// --- prefixes ---

pub open spec fn starts_with(s: Seq<char>, prefix: Seq<char>) -> bool {
    prefix.len() <= s.len() && s.take(prefix.len() as int) == prefix
}

pub open spec fn ends_with(s: Seq<char>, suffix: Seq<char>) -> bool {
    suffix.len() <= s.len() && s.skip(s.len() - suffix.len()) == suffix
}

/// Whether `s` starts with `prefix`.
pub(crate) fn has_prefix(s: &str, prefix: &str) -> (yes: bool)
    ensures
        yes == starts_with(s@, prefix@),
{
    let n = prefix.unicode_len();
    if n > s.unicode_len() {
        return false;
    }
    same(s.substring_char(0, n), prefix)
}

/// What follows `prefix` in `s`.
pub(crate) fn after_prefix<'a>(s: &'a str, prefix: &str) -> (rest: Option<&'a str>)
    ensures
        match rest {
            Some(r) => starts_with(s@, prefix@) && r@ == s@.skip(prefix@.len() as int),
            None => !starts_with(s@, prefix@),
        },
{
    if has_prefix(s, prefix) {
        let rest = s.substring_char(prefix.unicode_len(), s.unicode_len());
        assert(rest@ =~= s@.skip(prefix@.len() as int));
        Some(rest)
    } else {
        None
    }
}

// --- ASCII case ---

/// The lower case of an ASCII letter; any other character stays.
pub open spec fn ascii_lower_char(c: char) -> char {
    if 'A' <= c && c <= 'Z' {
        (c as u32 + 32) as char
    } else {
        c
    }
}

/// A text with its ASCII letters in lower case.
pub open spec fn ascii_lower(s: Seq<char>) -> Seq<char> {
    s.map_values(|c: char| ascii_lower_char(c))
}

fn lower_char(c: char) -> (lower: char)
    ensures
        lower == ascii_lower_char(c),
{
    if 'A' <= c && c <= 'Z' {
        let code: u8 = c as u8 + 32;
        code as char
    } else {
        c
    }
}

/// The text with its ASCII letters in lower case.
pub(crate) fn lowercased(s: &str) -> (lower: String)
    ensures
        lower@ == ascii_lower(s@),
{
    let chars = chars_of(s);
    let mut lower = String::new();
    let mut i: usize = 0;
    while i < chars.len()
        invariant
            i <= chars@.len(),
            lower@ == ascii_lower(chars@.take(i as int)),
        decreases chars@.len() - i,
    {
        lower.push(lower_char(chars[i]));
        i = i + 1;
        assert(lower@ =~= ascii_lower(chars@.take(i as int)));
    }
    assert(chars@.take(i as int) =~= chars@);
    lower
}

/// The upper case of an ASCII letter; any other character stays.
pub open spec fn ascii_upper_char(c: char) -> char {
    if 'a' <= c && c <= 'z' {
        (c as u32 - 32) as char
    } else {
        c
    }
}

/// A text with its ASCII letters in upper case.
pub open spec fn ascii_upper(s: Seq<char>) -> Seq<char> {
    s.map_values(|c: char| ascii_upper_char(c))
}

fn upper_char(c: char) -> (upper: char)
    ensures
        upper == ascii_upper_char(c),
{
    if 'a' <= c && c <= 'z' {
        let code: u8 = c as u8 - 32;
        code as char
    } else {
        c
    }
}

/// The text with its ASCII letters in upper case.
pub(crate) fn uppercased(s: &str) -> (upper: String)
    ensures
        upper@ == ascii_upper(s@),
{
    let chars = chars_of(s);
    let mut upper = String::new();
    let mut i: usize = 0;
    while i < chars.len()
        invariant
            i <= chars@.len(),
            upper@ == ascii_upper(chars@.take(i as int)),
        decreases chars@.len() - i,
    {
        upper.push(upper_char(chars[i]));
        i = i + 1;
        assert(upper@ =~= ascii_upper(chars@.take(i as int)));
    }
    assert(chars@.take(i as int) =~= chars@);
    upper
}

/// `a`, `b` and `c` in a row.
pub(crate) fn joined3(a: &str, b: &str, c: &str) -> (s: String)
    ensures
        s@ == a@ + b@ + c@,
{
    let mut s = a.to_owned();
    s.append(b);
    s.append(c);
    s
}

/// The first position of `c` from `from` on, or the end.
pub open spec fn position_of(s: Seq<char>, c: char, from: int) -> int
    decreases s.len() - from,
{
    if 0 <= from < s.len() && s[from] != c {
        position_of(s, c, from + 1)
    } else {
        from
    }
}

pub(crate) proof fn lemma_position(s: Seq<char>, c: char, from: int)
    requires
        0 <= from <= s.len(),
    ensures
        from <= position_of(s, c, from) <= s.len(),
        forall|i: int| from <= i < position_of(s, c, from) ==> #[trigger] s[i] != c,
        position_of(s, c, from) < s.len() ==> s[position_of(s, c, from)] == c,
    decreases s.len() - from,
{
    if from < s.len() && s[from] != c {
        lemma_position(s, c, from + 1);
    }
}

/// The first position of `c`, or the end.
pub(crate) fn find_char(chars: &Vec<char>, c: char, from: usize) -> (at: usize)
    requires
        from <= chars@.len(),
    ensures
        at == position_of(chars@, c, from as int),
        from <= at <= chars@.len(),
{
    let mut at: usize = from;
    while at < chars.len() && chars[at] != c
        invariant
            from <= at <= chars@.len(),
            position_of(chars@, c, from as int) == position_of(chars@, c, at as int),
        decreases chars@.len() - at,
    {
        at = at + 1;
    }
    at
}

} // verus!
