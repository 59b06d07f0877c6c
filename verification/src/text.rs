//! Text handling shared by the filters, the configuration checks and the
//! record writers. A string is seen as the sequence of its characters.

use crate::collections::texts;
use vstd::prelude::*;
use vstd::utf8::*;

verus! {

/// The lower-case form of a text, as `str::to_lowercase` gives it.
pub uninterp spec fn lowercase(text: Seq<char>) -> Seq<char>;

/// The text of a byte string, with a replacement character for what is not
/// UTF-8, as `String::from_utf8_lossy` gives it.
pub uninterp spec fn utf8_lossy(bytes: Seq<u8>) -> Seq<char>;

/// `needle` occurs in `text` at position `at`.
pub open spec fn occurs_at(text: Seq<char>, needle: Seq<char>, at: int) -> bool {
    &&& 0 <= at
    &&& at + needle.len() <= text.len()
    &&& text.subrange(at, at + needle.len()) == needle
}

/// `needle` occurs somewhere in `text`.
pub open spec fn has_substring(text: Seq<char>, needle: Seq<char>) -> bool {
    exists|at: int| occurs_at(text, needle, at)
}

/// The first `n` characters of a text, or all of it when it is shorter.
pub open spec fn first_chars(text: Seq<char>, n: nat) -> Seq<char> {
    if text.len() <= n {
        text
    } else {
        text.subrange(0, n as int)
    }
}

/// The digits that a text begins with, at most `max` of them.
pub open spec fn leading_digits(text: Seq<char>, max: nat) -> Seq<char>
    decreases max,
{
    if max == 0 || text.len() == 0 || !is_digit(text[0]) {
        Seq::empty()
    } else {
        seq![text[0]] + leading_digits(text.drop_first(), (max - 1) as nat)
    }
}

/// The text of an optional string.
pub open spec fn opt_text(s: Option<String>) -> Option<Seq<char>> {
    match s {
        Some(x) => Some(x@),
        None => None,
    }
}

/// The parts of a text between the occurrences of a separator.
pub open spec fn split_text(text: Seq<char>, sep: char) -> Seq<Seq<char>>
    decreases text.len(),
{
    if text.len() == 0 {
        seq![Seq::empty()]
    } else {
        let init = split_text(text.drop_last(), sep);
        if text.last() == sep {
            init.push(Seq::empty())
        } else {
            init.drop_last().push(init.last().push(text.last()))
        }
    }
}

/// The value of a digit sequence.
pub open spec fn digits_value(digits: Seq<char>) -> nat
    decreases digits.len(),
{
    if digits.len() == 0 {
        0
    } else {
        (digits_value(digits.drop_last()) * 10 + (digits.last() as int - '0' as int)) as nat
    }
}

/// A sequence of digits only.
pub open spec fn all_digits(text: Seq<char>) -> bool {
    forall|i: int| 0 <= i < text.len() ==> is_digit(#[trigger] text[i])
}

/// The digits of a number in decimal notation, without the plus sign that may
/// stand before them.
pub open spec fn unsigned_digits(text: Seq<char>) -> Seq<char> {
    if text.len() > 0 && text[0] == '+' {
        text.skip(1)
    } else {
        text
    }
}

/// The number that a text writes in decimal notation: digits, at least one,
/// with an optional plus sign before them, of a value not above a limit.
pub open spec fn parsed_number(text: Seq<char>, max: nat) -> Option<nat> {
    let digits = unsigned_digits(text);
    if digits.len() > 0 && all_digits(digits) && digits_value(digits) <= max {
        Some(digits_value(digits))
    } else {
        None
    }
}

/// A decimal digit.
pub open spec fn is_digit(c: char) -> bool {
    '0' <= c && c <= '9'
}

/// The digit with value `d`.
pub open spec fn digit_char(d: nat) -> char {
    (('0' as int) + d) as char
}

/// The decimal notation of a number, without leading zeros.
pub open spec fn decimal(n: nat) -> Seq<char>
    decreases n,
{
    if n < 10 {
        seq![digit_char(n)]
    } else {
        decimal(n / 10).push(digit_char(n % 10))
    }
}

/// `String::push` appends the character to the end of the string.
pub assume_specification[ String::push ](s: &mut String, c: char)
    ensures
        final(s)@ == old(s)@.push(c),
;

/// `str::to_lowercase`: the contract names the result and says nothing of
/// which characters have a lower-case form.
#[verifier::external_body]
pub(crate) fn to_lowercase(text: &str) -> (lower: String)
    ensures
        lower@ == lowercase(text@),
{
    text.to_lowercase()
}

/// `String::from_utf8_lossy`: the contract names the text.
#[verifier::external_body]
pub(crate) fn decode_lossy(bytes: &Vec<u8>) -> (text: String)
    ensures
        text@ == utf8_lossy(bytes@),
{
    String::from_utf8_lossy(bytes).to_string()
}

/// Whether two texts are the same.
pub fn same(a: &str, b: &str) -> (r: bool)
    ensures
        r == (a@ == b@),
{
    let x = a.as_bytes();
    let y = b.as_bytes();
    if x.len() != y.len() {
        return false;
    }
    let mut i: usize = 0;
    while i < x.len()
        invariant
            x@ == encode_utf8(a@),
            y@ == encode_utf8(b@),
            x@.len() == y@.len(),
            i <= x@.len(),
            forall|j: int| 0 <= j < i ==> x@[j] == y@[j],
        decreases x@.len() - i,
    {
        if x[i] != y[i] {
            return false;
        }
        i += 1;
    }
    proof {
        assert(x@ == y@);
        encode_utf8_decode_utf8(a@);
        encode_utf8_decode_utf8(b@);
    }
    true
}

/// The characters of a text.
pub fn to_chars(text: &str) -> (chars: Vec<char>)
    ensures
        chars@ == text@,
{
    let mut chars: Vec<char> = Vec::new();
    for c in it: text.chars()
        invariant
            it.seq() == text@,
            chars@ == text@.take(it.index()),
    {
        chars.push(c);
        assert(text@.take(it.index() + 1) == text@.take(it.index()).push(c));
    }
    assert(text@.take(text@.len() as int) == text@);
    chars
}

/// Whether `text` begins with `prefix`.
pub fn starts_with(text: &str, prefix: &str) -> (b: bool)
    ensures
        b == prefix@.is_prefix_of(text@),
{
    let t = to_chars(text);
    let p = to_chars(prefix);
    if p.len() > t.len() {
        return false;
    }
    chars_match_at(&t, &p, 0)
}

/// Whether `text` ends with `suffix`.
pub fn ends_with(text: &str, suffix: &str) -> (b: bool)
    ensures
        b == suffix@.is_suffix_of(text@),
{
    let t = to_chars(text);
    let p = to_chars(suffix);
    if p.len() > t.len() {
        return false;
    }
    chars_match_at(&t, &p, t.len() - p.len())
}

fn chars_match_at(t: &Vec<char>, p: &Vec<char>, at: usize) -> (b: bool)
    requires
        at + p.len() <= t.len(),
    ensures
        b == (t@.subrange(at as int, at + p@.len()) == p@),
{
    let mut i: usize = 0;
    while i < p.len()
        invariant
            i <= p.len(),
            at + p.len() <= t.len(),
            forall|j: int| 0 <= j < i ==> t@[at + j] == p@[j],
        decreases p@.len() - i,
    {
        if t[at + i] != p[i] {
            assert(t@.subrange(at as int, at + p@.len())[i as int] != p@[i as int]);
            return false;
        }
        i += 1;
    }
    assert(t@.subrange(at as int, at + p@.len()) == p@);
    true
}

/// Whether `needle` occurs in `text`.
pub fn contains(text: &str, needle: &str) -> (b: bool)
    ensures
        b == has_substring(text@, needle@),
{
    let t = to_chars(text);
    let p = to_chars(needle);
    if p.len() > t.len() {
        return false;
    }
    let last: usize = t.len() - p.len();
    let mut at: usize = 0;
    while at <= last
        invariant
            t@ == text@,
            p@ == needle@,
            last + p@.len() == t@.len(),
            at <= last + 1,
            forall|k: int| 0 <= k < at ==> !occurs_at(text@, needle@, k),
        decreases last + 1 - at,
    {
        if chars_match_at(&t, &p, at) {
            assert(occurs_at(text@, needle@, at as int));
            return true;
        }
        if at == last {
            return false;
        }
        at += 1;
    }
    false
}

/// The first `n` characters of a text.
pub fn take_chars(text: &str, n: usize) -> (head: String)
    ensures
        head@ == first_chars(text@, n as nat),
{
    let len: usize = text.unicode_len();
    if len <= n {
        text.to_owned()
    } else {
        text.substring_char(0, n).to_owned()
    }
}

/// The text of a character sequence.
pub fn from_chars(chars: &Vec<char>) -> (text: String)
    ensures
        text@ == chars@,
{
    let mut text = String::new();
    let mut i: usize = 0;
    while i < chars.len()
        invariant
            i <= chars@.len(),
            text@ == chars@.take(i as int),
        decreases chars@.len() - i,
    {
        text.push(chars[i]);
        assert(chars@.take(i + 1) == chars@.take(i as int).push(chars@[i as int]));
        i += 1;
    }
    assert(chars@.take(chars@.len() as int) == chars@);
    text
}

/// The digits that follow position `from` of a text, at most `max` of them.
pub fn take_digits(text: &Vec<char>, from: usize, max: usize) -> (digits: String)
    requires
        from <= text.len(),
    ensures
        digits@ == leading_digits(text@.skip(from as int), max as nat),
{
    let mut digits = String::new();
    let mut i: usize = from;
    let mut left: usize = max;
    while left > 0 && i < text.len() && '0' <= text[i] && text[i] <= '9'
        invariant
            from <= i <= text.len(),
            digits@ + leading_digits(text@.skip(i as int), left as nat) == leading_digits(
                text@.skip(from as int),
                max as nat,
            ),
        decreases left,
    {
        digits.push(text[i]);
        proof {
            let rest = text@.skip(i as int);
            assert(rest[0] == text@[i as int]);
            assert(rest.drop_first() == text@.skip(i + 1));
            let tail = leading_digits(text@.skip(i + 1), (left - 1) as nat);
            assert(leading_digits(rest, left as nat) == seq![rest[0]] + tail);
        }
        i += 1;
        left -= 1;
    }
    assert(leading_digits(text@.skip(i as int), left as nat) == Seq::<char>::empty());
    digits
}

/// Splits a text at a separator.
pub fn split(text: &str, sep: char) -> (parts: Vec<String>)
    ensures
        texts(parts@) == split_text(text@, sep),
{
    let chars = to_chars(text);
    let mut parts: Vec<String> = Vec::new();
    let mut part = String::new();
    let mut i: usize = 0;
    while i < chars.len()
        invariant
            i <= chars.len(),
            texts(parts@).push(part@) == split_text(chars@.take(i as int), sep),
        decreases chars.len() - i,
    {
        let ghost before = texts(parts@);
        let ghost here = part@;
        let ghost next = chars@.take(i + 1);
        assert(next.drop_last() == chars@.take(i as int));
        assert(before.push(here).drop_last() == before);
        if chars[i] == sep {
            parts.push(part);
            part = String::new();
            assert(texts(parts@) =~= before.push(here));
        } else {
            part.push(chars[i]);
        }
        assert(texts(parts@).push(part@) =~= split_text(next, sep));
        i += 1;
    }
    assert(chars@.take(i as int) == text@);
    let ghost before = texts(parts@);
    let ghost here = part@;
    parts.push(part);
    assert(texts(parts@) =~= before.push(here));
    parts
}

proof fn digits_value_grows(digits: Seq<char>, n: int)
    requires
        0 <= n <= digits.len(),
        all_digits(digits),
    ensures
        digits_value(digits.take(n)) <= digits_value(digits),
    decreases digits.len() - n,
{
    if n < digits.len() {
        let next = digits.take(n + 1);
        assert(next.drop_last() == digits.take(n));
        assert(next.last() == digits[n]);
        digits_value_grows(digits, n + 1);
    } else {
        assert(digits.take(n) == digits);
    }
}

/// Reads a number in decimal notation, not above a limit.
pub fn parse_number(text: &str, max: u64) -> (n: Option<u64>)
    ensures
        match parsed_number(text@, max as nat) {
            Some(v) => n == Some(v as u64) && v <= max,
            None => n is None,
        },
{
    let chars = to_chars(text);
    let from: usize = if chars.len() > 0 && chars[0] == '+' {
        1
    } else {
        0
    };
    let ghost digits = unsigned_digits(text@);
    assert(digits == chars@.skip(from as int));
    if from == chars.len() {
        return None;
    }
    let mut value: u64 = 0;
    let mut i: usize = from;
    while i < chars.len()
        invariant
            from <= i <= chars.len(),
            chars@ == text@,
            digits == unsigned_digits(text@),
            digits == chars@.skip(from as int),
            digits.len() > 0,
            value <= max,
            value == digits_value(digits.take(i - from)),
            forall|j: int| 0 <= j < i - from ==> is_digit(#[trigger] digits[j]),
        decreases chars.len() - i,
    {
        let c = chars[i];
        assert(digits[i - from] == c);
        if !('0' <= c && c <= '9') {
            assert(!all_digits(digits));
            return None;
        }
        let d: u64 = (c as u32 - '0' as u32) as u64;
        let ghost next = digits.take(i - from + 1);
        assert(next.drop_last() == digits.take(i - from));
        let wide: u128 = value as u128 * 10 + d as u128;
        assert(wide == digits_value(next));
        if wide > max as u128 {
            proof {
                if all_digits(digits) {
                    digits_value_grows(digits, i - from + 1);
                }
            }
            return None;
        }
        value = wide as u64;
        i += 1;
    }
    assert(digits.take(digits.len() as int) == digits);
    Some(value)
}

/// A copy of an optional string.
pub fn copy_opt(s: &Option<String>) -> (copy: Option<String>)
    ensures
        opt_text(copy) == opt_text(*s),
        copy == *s,
{
    match s {
        Some(x) => Some(x.clone()),
        None => None,
    }
}

fn digit(d: u64) -> (c: char)
    requires
        d < 10,
    ensures
        c == digit_char(d as nat),
{
    if d == 0 {
        '0'
    } else if d == 1 {
        '1'
    } else if d == 2 {
        '2'
    } else if d == 3 {
        '3'
    } else if d == 4 {
        '4'
    } else if d == 5 {
        '5'
    } else if d == 6 {
        '6'
    } else if d == 7 {
        '7'
    } else if d == 8 {
        '8'
    } else {
        '9'
    }
}

/// A number in decimal notation.
pub fn number(n: u64) -> (text: String)
    ensures
        text@ == decimal(n as nat),
    decreases n,
{
    if n < 10 {
        let mut text = String::new();
        text.push(digit(n));
        assert(text@ == decimal(n as nat));
        text
    } else {
        let mut text = number(n / 10);
        text.push(digit(n % 10));
        text
    }
}

/// A number in decimal, with a sign if it is negative.
pub open spec fn signed_decimal(n: int) -> Seq<char> {
    if n < 0 {
        seq!['-'] + decimal((-n) as nat)
    } else {
        decimal(n as nat)
    }
}

/// A number in decimal, with a sign if it is negative.
pub fn signed_number(n: i64) -> (text: String)
    ensures
        text@ == signed_decimal(n as int),
{
    if n < 0 {
        let size: u64 = (-(n as i128)) as u64;
        let mut text = String::new();
        text.push('-');
        let digits = number(size);
        text.append(digits.as_str());
        assert(text@ =~= signed_decimal(n as int));
        text
    } else {
        number(n as u64)
    }
}

/// Whether a text has no characters.
pub fn is_blank(text: &str) -> (b: bool)
    ensures
        b == (text@.len() == 0),
{
    proof {
        reveal_strlit("");
        if text@.len() == 0 {
            assert(text@ =~= ""@);
        }
    }
    same(text, "")
}

/// The upper-case hexadecimal digit of a number below sixteen.
pub open spec fn hex_char(d: nat) -> char {
    if d < 10 {
        digit_char(d)
    } else {
        ('A' as u32 + d - 10) as char
    }
}

/// The last hexadecimal digits of a number, as many as a width says.
pub open spec fn hex_digits(n: nat, width: nat) -> Seq<char>
    decreases width,
{
    if width == 0 {
        seq![]
    } else {
        hex_digits(n / 16, (width - 1) as nat).push(hex_char(n % 16))
    }
}

fn hex_digit(d: u64) -> (c: char)
    requires
        d < 16,
    ensures
        c == hex_char(d as nat),
{
    if d < 10 {
        digit(d)
    } else if d == 10 {
        'A'
    } else if d == 11 {
        'B'
    } else if d == 12 {
        'C'
    } else if d == 13 {
        'D'
    } else if d == 14 {
        'E'
    } else {
        'F'
    }
}

/// Appends the last hexadecimal digits of a number to a text.
pub fn push_hex(text: &mut String, n: u64, width: u32)
    ensures
        final(text)@ == old(text)@ + hex_digits(n as nat, width as nat),
    decreases width,
{
    if width > 0 {
        push_hex(text, n / 16, width - 1);
        text.push(hex_digit(n % 16));
    }
    assert(text@ =~= old(text)@ + hex_digits(n as nat, width as nat));
}

} // verus!
