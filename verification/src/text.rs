//! Small text helpers: decimal numbers and path joining.

use vstd::prelude::*;
use vstd::string::*;

verus! {

/// The character of a decimal digit.
pub open spec fn digit_char(d: nat) -> Seq<char>
    recommends
        d < 10,
{
    if d == 0 {
        "0"@
    } else if d == 1 {
        "1"@
    } else if d == 2 {
        "2"@
    } else if d == 3 {
        "3"@
    } else if d == 4 {
        "4"@
    } else if d == 5 {
        "5"@
    } else if d == 6 {
        "6"@
    } else if d == 7 {
        "7"@
    } else if d == 8 {
        "8"@
    } else {
        "9"@
    }
}

/// A number written in decimal, without leading zeros.
pub open spec fn decimal_text(n: nat) -> Seq<char>
    decreases n,
{
    if n < 10 {
        digit_char(n)
    } else {
        decimal_text(n / 10) + digit_char(n % 10)
    }
}

/// The text of one decimal digit.
fn digit_str(d: u64) -> (s: &'static str)
    requires
        d < 10,
    ensures
        s@ == digit_char(d as nat),
{
    if d == 0 {
        "0"
    } else if d == 1 {
        "1"
    } else if d == 2 {
        "2"
    } else if d == 3 {
        "3"
    } else if d == 4 {
        "4"
    } else if d == 5 {
        "5"
    } else if d == 6 {
        "6"
    } else if d == 7 {
        "7"
    } else if d == 8 {
        "8"
    } else {
        "9"
    }
}

/// Writes `n` in decimal.
pub fn decimal(n: u64) -> (s: String)
    ensures
        s@ == decimal_text(n as nat),
    decreases n,
{
    if n < 10 {
        String::from_str(digit_str(n))
    } else {
        let mut s: String = decimal(n / 10);
        s.append(digit_str(n % 10));
        s
    }
}

/// `a` followed by `b`.
pub fn join2(a: &str, b: &str) -> (s: String)
    ensures
        s@ == a@ + b@,
{
    let mut s: String = String::from_str(a);
    s.append(b);
    s
}

/// `a`, `b` and `c` in a row.
pub fn join3(a: &str, b: &str, c: &str) -> (s: String)
    ensures
        s@ == a@ + b@ + c@,
{
    let mut s: String = String::from_str(a);
    s.append(b);
    s.append(c);
    s
}

/// `a`, `b`, `c` and `d` in a row.
pub fn join4(a: &str, b: &str, c: &str, d: &str) -> (s: String)
    ensures
        s@ == a@ + b@ + c@ + d@,
{
    let mut s: String = String::from_str(a);
    s.append(b);
    s.append(c);
    s.append(d);
    s
}

/// The characters of a text, for indexed access.
pub fn to_chars(s: &str) -> (chars: Vec<char>)
    ensures
        chars@ == s@,
{
    let n: usize = s.unicode_len();
    let mut chars: Vec<char> = Vec::new();
    let mut i: usize = 0;
    while i < n
        invariant
            n == s@.len(),
            i <= n,
            chars@ == s@.take(i as int),
        decreases n - i,
    {
        chars.push(s.get_char(i));
        assert(s@.take(i as int).push(s@[i as int]) =~= s@.take(i + 1));
        i = i + 1;
    }
    assert(s@.take(n as int) =~= s@);
    chars
}

/// Whether `part` stands in `text` at the position `at`.
pub open spec fn occurs_at(text: Seq<char>, part: Seq<char>, at: int) -> bool {
    0 <= at && at + part.len() <= text.len() && text.subrange(at, at + part.len()) == part
}

/// Whether `part` stands somewhere in `text`.
pub open spec fn contains_text(text: Seq<char>, part: Seq<char>) -> bool {
    exists|at: int| occurs_at(text, part, at)
}

/// Whether `text` begins with `part`.
pub open spec fn starts_with_text(text: Seq<char>, part: Seq<char>) -> bool {
    occurs_at(text, part, 0)
}

/// Whether `text` ends with `part`.
pub open spec fn ends_with_text(text: Seq<char>, part: Seq<char>) -> bool {
    occurs_at(text, part, text.len() - part.len())
}

/// Whether `part` stands in `text` at the position `at`.
pub fn matches_at(text: &Vec<char>, part: &Vec<char>, at: usize) -> (yes: bool)
    ensures
        yes == occurs_at(text@, part@, at as int),
{
    if part.len() > text.len() || at > text.len() - part.len() {
        return false;
    }
    let mut k: usize = 0;
    while k < part.len()
        invariant
            k <= part.len(),
            at + part.len() <= text.len(),
            forall|j: int| 0 <= j < k ==> text@[at + j] == part@[j],
        decreases part.len() - k,
    {
        if text[at + k] != part[k] {
            assert(text@.subrange(at as int, at + part@.len())[k as int] == text@[at + k]);
            return false;
        }
        k = k + 1;
    }
    assert(text@.subrange(at as int, at + part@.len()) =~= part@);
    true
}

/// The first position at which `part` stands in `text`, if there is one.
pub fn find_text(text: &Vec<char>, part: &Vec<char>) -> (found: Option<usize>)
    ensures
        found.is_some() == contains_text(text@, part@),
        found.is_some() ==> occurs_at(text@, part@, found.unwrap() as int),
        found.is_some() ==> forall|at: int|
            0 <= at < found.unwrap() ==> !occurs_at(text@, part@, at),
{
    if part.len() > text.len() {
        return None;
    }
    let last: usize = text.len() - part.len();
    let mut at: usize = 0;
    loop
        invariant
            at <= last,
            last == text.len() - part.len(),
            forall|k: int| 0 <= k < at ==> !occurs_at(text@, part@, k),
        decreases last - at,
    {
        if matches_at(text, part, at) {
            return Some(at);
        }
        if at == last {
            return None;
        }
        at = at + 1;
    }
}

/// Whether `part` stands somewhere in `text`.
pub fn text_contains(text: &Vec<char>, part: &Vec<char>) -> (yes: bool)
    ensures
        yes == contains_text(text@, part@),
{
    find_text(text, part).is_some()
}

/// Whether `text` begins with `part`.
pub fn text_starts_with(text: &Vec<char>, part: &Vec<char>) -> (yes: bool)
    ensures
        yes == starts_with_text(text@, part@),
{
    matches_at(text, part, 0)
}

/// Whether `text` ends with `part`.
pub fn text_ends_with(text: &Vec<char>, part: &Vec<char>) -> (yes: bool)
    ensures
        yes == ends_with_text(text@, part@),
{
    if part.len() > text.len() {
        return false;
    }
    matches_at(text, part, text.len() - part.len())
}

/// A path with another joined to it: `rest` alone where it is absolute or
/// `base` is empty, else `base`, a separator unless `base` ends in one, and
/// `rest`.
pub open spec fn joined_path(base: Seq<char>, rest: Seq<char>) -> Seq<char> {
    if rest.len() > 0 && rest[0] == '/' {
        rest
    } else if base.len() == 0 {
        rest
    } else if base.last() == '/' {
        base + rest
    } else {
        base + "/"@ + rest
    }
}

/// Joins `rest` to the path `base`.
pub fn join_path(base: &str, rest: &str) -> (path: String)
    ensures
        path@ == joined_path(base@, rest@),
{
    let base_len: usize = base.unicode_len();
    let rest_len: usize = rest.unicode_len();
    if rest_len > 0 && rest.get_char(0) == '/' {
        String::from_str(rest)
    } else if base_len == 0 {
        String::from_str(rest)
    } else if base.get_char(base_len - 1) == '/' {
        join2(base, rest)
    } else {
        join3(base, "/", rest)
    }
}

/// Whether a character is a decimal digit.
pub open spec fn is_digit_char(c: char) -> bool {
    48 <= c as u32 <= 57
}

/// The value of a character as a decimal digit; 0 for any other character.
pub open spec fn digit_value(c: char) -> nat {
    if is_digit_char(c) {
        (c as u32 - 48) as nat
    } else {
        0
    }
}

/// The number that a run of decimal digits spells.
pub open spec fn digits_value(s: Seq<char>) -> nat
    decreases s.len(),
{
    if s.len() == 0 {
        0
    } else {
        digits_value(s.drop_last()) * 10 + digit_value(s.last())
    }
}

/// Whether every character of a text is a decimal digit.
pub open spec fn all_digits(s: Seq<char>) -> bool {
    forall|i: int| 0 <= i < s.len() ==> is_digit_char(s[i])
}

/// A text without its leading plus sign, if it has one.
pub open spec fn unsigned_part(s: Seq<char>) -> Seq<char> {
    if s.len() > 0 && s[0] == '+' {
        s.skip(1)
    } else {
        s
    }
}

/// The number that a text spells: an optional plus sign, then one or more
/// decimal digits whose value fits in 64 bits. `None` for anything else.
pub open spec fn parsed_u64(s: Seq<char>) -> Option<u64> {
    let body = unsigned_part(s);
    if body.len() > 0 && all_digits(body) && digits_value(body) <= u64::MAX {
        Some(digits_value(body) as u64)
    } else {
        None
    }
}

/// The value of the first digits of a run is at most the value of the run.
pub proof fn lemma_digits_value_prefix(s: Seq<char>, k: int)
    requires
        0 <= k <= s.len(),
    ensures
        digits_value(s.take(k)) <= digits_value(s),
    decreases s.len() - k,
{
    if k == s.len() {
        assert(s.take(k) =~= s);
    } else {
        lemma_digits_value_prefix(s, k + 1);
        assert(s.take(k + 1).drop_last() =~= s.take(k));
    }
}

/// Reads a number as [`parsed_u64`] defines it.
pub fn parse_u64(text: &str) -> (value: Option<u64>)
    ensures
        value == parsed_u64(text@),
{
    let chars: Vec<char> = to_chars(text);
    let start: usize = if chars.len() > 0 && chars[0] == '+' {
        1
    } else {
        0
    };
    let ghost body = unsigned_part(text@);
    assert(body =~= chars@.skip(start as int));
    if start == chars.len() {
        return None;
    }
    let mut value: u64 = 0;
    let mut i: usize = start;
    assert(body.take(0) =~= Seq::<char>::empty());
    while i < chars.len()
        invariant
            start <= i <= chars.len(),
            body == chars@.skip(start as int),
            body == unsigned_part(text@),
            all_digits(body.take(i - start)),
            value == digits_value(body.take(i - start)),
        decreases chars.len() - i,
    {
        let c: char = chars[i];
        let code: u32 = c as u32;
        assert(body[i - start] == c);
        if code < 48 || code > 57 {
            return None;
        }
        let digit: u64 = (code - 48) as u64;
        proof {
            lemma_digits_value_prefix(body, i + 1 - start);
            assert(body.take(i + 1 - start).drop_last() =~= body.take(i - start));
            assert(body.take(i + 1 - start).last() == c);
        }
        let scaled: u64 = match value.checked_mul(10) {
            Some(v) => v,
            None => {
                return None;
            },
        };
        value = match scaled.checked_add(digit) {
            Some(v) => v,
            None => {
                return None;
            },
        };
        let ghost longer = body.take(i + 1 - start);
        let ghost shorter = body.take(i - start);
        assert forall|k: int| 0 <= k < longer.len() implies is_digit_char(#[trigger] longer[k]) by {
            if k < i - start {
                assert(shorter[k] == body[k]);
            }
        }
        i = i + 1;
    }
    assert(body.take(chars@.len() - start) =~= body);
    Some(value)
}

/// Whether two texts are the same.
pub fn same_text(a: &str, b: &str) -> (same: bool)
    ensures
        same == (a@ == b@),
{
    let left: String = String::from_str(a);
    let right: String = String::from_str(b);
    left == right
}

/// Whether `part` stands somewhere in `text`.
pub fn str_contains(text: &str, part: &str) -> (yes: bool)
    ensures
        yes == contains_text(text@, part@),
{
    let t: Vec<char> = to_chars(text);
    let p: Vec<char> = to_chars(part);
    text_contains(&t, &p)
}

/// Whether `text` ends with `part`.
pub fn str_ends_with(text: &str, part: &str) -> (yes: bool)
    ensures
        yes == ends_with_text(text@, part@),
{
    let t: Vec<char> = to_chars(text);
    let p: Vec<char> = to_chars(part);
    text_ends_with(&t, &p)
}

/// Whether `text` begins with `part`.
pub fn str_starts_with(text: &str, part: &str) -> (yes: bool)
    ensures
        yes == starts_with_text(text@, part@),
{
    let t: Vec<char> = to_chars(text);
    let p: Vec<char> = to_chars(part);
    text_starts_with(&t, &p)
}

/// The last position at which `part` stands in `text`, if there is one.
pub fn rfind_text(text: &Vec<char>, part: &Vec<char>) -> (found: Option<usize>)
    ensures
        found.is_some() == contains_text(text@, part@),
        found.is_some() ==> occurs_at(text@, part@, found.unwrap() as int),
        found.is_some() ==> forall|at: int| found.unwrap() < at ==> !occurs_at(text@, part@, at),
{
    if part.len() > text.len() {
        return None;
    }
    let last: usize = text.len() - part.len();
    let mut at: usize = last;
    loop
        invariant
            at <= last,
            last == text.len() - part.len(),
            forall|k: int| at < k ==> !occurs_at(text@, part@, k),
        decreases at,
    {
        if matches_at(text, part, at) {
            return Some(at);
        }
        if at == 0 {
            return None;
        }
        at = at - 1;
    }
}

/// The first `count` characters of a text.
pub fn prefix_of(text: &str, count: usize) -> (prefix: String)
    requires
        count <= text@.len(),
    ensures
        prefix@ == text@.take(count as int),
{
    let part: &str = text.substring_char(0, count);
    assert(part@ =~= text@.take(count as int));
    String::from_str(part)
}

} // verus!
