//! What the words mean that the rest of the library is told in: texts, numbers,
//! times and networks.

use crate::collections::{holds_prefix, text_set, texts, StringMap, StringSet};
use crate::listener::random::{next_number, RandomSource};
use crate::net::{net_contains, IpAddr, IpNet};
use crate::text::{
    all_digits, decimal, digits_value, first_chars, has_substring, hex_digits, is_digit,
    leading_digits, occurs_at, parsed_number, signed_decimal, split_text, unsigned_digits,
};
use crate::time::{
    day_number, elapsed_nanos, not_after, utc_day_from_sunday, utc_hour, utc_minute, utc_not_after,
    weekday_from_monday, Duration, Instant, TimeOfDay, UtcTime,
};
use vstd::prelude::*;

verus! {

/// A text holds another one exactly when it is that one with something before
/// it and something behind it.
pub proof fn texts_hold_their_parts(text: Seq<char>, needle: Seq<char>)
    ensures
        has_substring(text, needle) <==> exists|a: Seq<char>, b: Seq<char>|
            text == #[trigger] (a + needle + b),
{
    if has_substring(text, needle) {
        let at = choose|at: int| occurs_at(text, needle, at);
        let a = text.take(at);
        let b = text.skip(at + needle.len());
        assert(text =~= a + needle + b);
    }
    if exists|a: Seq<char>, b: Seq<char>| text == #[trigger] (a + needle + b) {
        let (a, b) = choose|a: Seq<char>, b: Seq<char>| text == #[trigger] (a + needle + b);
        assert(text.subrange(a.len() as int, a.len() as int + needle.len()) =~= needle);
        assert(occurs_at(text, needle, a.len() as int));
    }
}

/// The beginning of a text is as long as it may be, and begins the text.
pub proof fn beginnings_begin_the_text(text: Seq<char>, n: nat)
    ensures
        first_chars(text, n).is_prefix_of(text),
        text.len() <= n ==> first_chars(text, n) == text,
        text.len() > n ==> first_chars(text, n).len() == n,
{
}

/// The parts of a text, put together again with the separator between them, are
/// the text, and none of them holds the separator.
pub proof fn parts_make_the_text(a: Seq<char>, b: Seq<char>, sep: char)
    requires
        !a.contains(sep),
        !b.contains(sep),
    ensures
        split_text(a, sep) == seq![a],
        split_text(a + seq![sep] + b, sep) == seq![a, b],
    decreases b.len(),
{
    one_part(a, sep);
    if b.len() == 0 {
        assert((a + seq![sep] + b).drop_last() =~= a);
        assert((a + seq![sep] + b).last() == sep);
        assert(b =~= Seq::empty());
        assert(seq![a].push(Seq::empty()) =~= seq![a, b]);
    } else {
        let front = b.drop_last();
        assert forall|c: char| front.contains(c) implies b.contains(c) by {
            let i = choose|i: int| 0 <= i < front.len() && front[i] == c;
            assert(b[i] == c);
        }
        parts_make_the_text(a, front, sep);
        assert((a + seq![sep] + b).drop_last() =~= a + seq![sep] + front);
        assert(b.contains(b.last()));
        assert(front.push(b.last()) =~= b);
        assert(seq![a, front].drop_last().push(seq![a, front].last().push(b.last())) =~= seq![a, b]);
    }
}

proof fn one_part(a: Seq<char>, sep: char)
    requires
        !a.contains(sep),
    ensures
        split_text(a, sep) == seq![a],
    decreases a.len(),
{
    if a.len() > 0 {
        let front = a.drop_last();
        assert forall|c: char| front.contains(c) implies a.contains(c) by {
            let i = choose|i: int| 0 <= i < front.len() && front[i] == c;
            assert(a[i] == c);
        }
        one_part(front, sep);
        assert(a.contains(a.last()));
        assert(front.push(a.last()) =~= a);
        assert(seq![front].drop_last().push(seq![front].last().push(a.last())) =~= seq![a]);
    } else {
        assert(a =~= Seq::empty());
    }
}

/// A number is read back from its decimal notation, which has only digits and
/// no zero before them.
pub proof fn numbers_are_read_back(n: nat, max: nat)
    requires
        n <= max,
    ensures
        parsed_number(decimal(n), max) == Some(n),
        n >= 10 ==> decimal(n)[0] != '0',
        n < 10 ==> decimal(n).len() == 1,
{
    digits_are_read_back(n);
    assert(decimal(n)[0] != '+');
}

proof fn digits_are_read_back(n: nat)
    ensures
        decimal(n).len() > 0,
        all_digits(decimal(n)),
        digits_value(decimal(n)) == n,
        n > 0 ==> decimal(n)[0] != '0',
        is_digit(decimal(n)[0]),
        n < 10 ==> decimal(n).len() == 1,
    decreases n,
{
    if n >= 10 {
        digits_are_read_back(n / 10);
        assert(decimal(n).drop_last() =~= decimal(n / 10));
        assert(n == 10 * (n / 10) + n % 10);
        assert forall|i: int| 0 <= i < decimal(n).len() implies is_digit(
            #[trigger] decimal(n)[i],
        ) by {
            if i < decimal(n / 10).len() {
                assert(decimal(n)[i] == decimal(n / 10)[i]);
            }
        }
        assert(decimal(n)[0] == decimal(n / 10)[0]);
    } else {
        assert(decimal(n).drop_last() =~= Seq::empty());
        reveal_with_fuel(digits_value, 2);
    }
}

/// A number is read from digits alone, with or without a plus sign before them,
/// and only where it is not too great.
pub proof fn numbers_are_digits(text: Seq<char>, max: nat)
    ensures
        parsed_number(text, max) is Some ==> text.len() > 0 && forall|i: int|
            0 < i < text.len() ==> '0' <= #[trigger] text[i] <= '9',
        parsed_number(text, max) is Some ==> text[0] == '+' || '0' <= text[0] <= '9',
        parsed_number(text, max) is Some ==> parsed_number(text, max)->0 <= max,
        parsed_number(Seq::empty(), max) is None,
        text.len() > 0 && text[0] != '+' ==> parsed_number(seq!['+'] + text, max) == parsed_number(
            text,
            max,
        ),
{
    let digits = unsigned_digits(text);
    if parsed_number(text, max) is Some {
        assert forall|i: int| 0 < i < text.len() implies '0' <= #[trigger] text[i] <= '9' by {
            if text[0] == '+' {
                assert(is_digit(digits[i - 1]));
            } else {
                assert(is_digit(digits[i]));
            }
        }
        if text[0] != '+' {
            assert(is_digit(digits[0]));
        }
    }
    assert((seq!['+'] + text).skip(1) =~= text);
}

/// The value of digits grows by their place, and a number below zero has a sign
/// before its digits.
pub proof fn digits_count_by_their_place(digits: Seq<char>, c: char, n: nat)
    requires
        '0' <= c <= '9',
    ensures
        digits_value(Seq::empty()) == 0,
        digits_value(digits.push(c)) == digits_value(digits) * 10 + (c as int - '0' as int),
        n > 0 ==> signed_decimal(-(n as int)) == seq!['-'] + decimal(n),
        signed_decimal(n as int) == decimal(n),
{
    assert(digits.push(c).drop_last() =~= digits);
}

/// The digits that a text begins with are as many as there are, up to the most
/// that are asked for.
pub proof fn leading_digits_begin_the_text(text: Seq<char>, max: nat)
    ensures
        leading_digits(text, max).is_prefix_of(text),
        leading_digits(text, max).len() <= max,
        all_digits(leading_digits(text, max)),
        leading_digits(text, max).len() < max && leading_digits(text, max).len() < text.len()
            ==> !is_digit(text[leading_digits(text, max).len() as int]),
    decreases max,
{
    if max > 0 && text.len() > 0 && is_digit(text[0]) {
        let rest = text.drop_first();
        leading_digits_begin_the_text(rest, (max - 1) as nat);
        let tail = leading_digits(rest, (max - 1) as nat);
        let all = leading_digits(text, max);
        assert(all =~= text.subrange(0, all.len() as int)) by {
            assert forall|i: int| 0 <= i < all.len() implies all[i] == text[i] by {
                if i > 0 {
                    assert(tail[i - 1] == rest[i - 1]);
                }
            }
        }
    } else {
        assert(leading_digits(text, max) =~= text.subrange(0, 0));
    }
}

/// A number in hexadecimal notation has as many digits as it is given, each one
/// for sixteen times as much as the next.
pub proof fn hexadecimal_digits_count_by_sixteen(n: nat, width: nat)
    ensures
        hex_digits(n, width).len() == width,
        width > 0 ==> hex_digits(n, width).drop_last() == hex_digits(n / 16, (width - 1) as nat),
        width > 0 && n % 16 < 10 ==> hex_digits(n, width).last() as int == '0' as int + n % 16,
        width > 0 && n % 16 >= 10 ==> hex_digits(n, width).last() as int == 'A' as int + n % 16
            - 10,
    decreases width,
{
    if width > 0 {
        hexadecimal_digits_count_by_sixteen(n / 16, (width - 1) as nat);
        assert(hex_digits(n, width).drop_last() =~= hex_digits(n / 16, (width - 1) as nat));
    }
}

/// A set of texts holds what is in the list that it is made of, and a prefix of
/// a text where one of them begins the text.
pub proof fn sets_hold_their_texts(items: Seq<String>, text: Seq<char>)
    ensures
        text_set(items).contains(text) <==> exists|i: int|
            0 <= i < items.len() && #[trigger] items[i]@ == text,
        texts(items).len() == items.len(),
        holds_prefix(text_set(items), text) <==> exists|p: Seq<char>|
            #[trigger] text_set(items).contains(p) && p.is_prefix_of(text),
{
    if text_set(items).contains(text) {
        let i = choose|i: int| 0 <= i < texts(items).len() && texts(items)[i] == text;
        assert(items[i]@ == text);
    }
    if exists|i: int| 0 <= i < items.len() && #[trigger] items[i]@ == text {
        let i = choose|i: int| 0 <= i < items.len() && #[trigger] items[i]@ == text;
        assert(texts(items)[i] == text);
        assert(texts(items).contains(text));
    }
}

/// Time passes from the earlier moment to the later one, and none passes
/// backwards.
pub proof fn time_passes_forwards(from: Instant, to: Instant)
    ensures
        to.nanos <= from.nanos ==> elapsed_nanos(from, to) == 0,
        to.nanos > from.nanos && to.nanos - from.nanos <= 0xffff_ffff_ffff_ffff
            ==> elapsed_nanos(from, to) == to.nanos - from.nanos,
{
}

/// The hours, minutes and seconds of a day, and the days before it, make the
/// count of seconds. The first day of the count was a Thursday, and each day is
/// followed by the next day of the week.
pub proof fn days_have_hours_and_minutes(day: int, h: int, m: int, sec: int)
    requires
        0 <= h < 24,
        0 <= m < 60,
        0 <= sec < 60,
    ensures
        utc_hour(day * 86_400 + h * 3_600 + m * 60 + sec) == h,
        utc_minute(day * 86_400 + h * 3_600 + m * 60 + sec) == m,
        day_number(day * 86_400 + h * 3_600 + m * 60 + sec) == day,
        utc_day_from_sunday(day * 86_400) == (day + 4) % 7,
        utc_day_from_sunday(0) == 4,
{
    let rest = h * 3_600 + m * 60 + sec;
    let secs = day * 86_400 + rest;
    assert(0 <= rest < 86_400);
    vstd::arithmetic::div_mod::lemma_fundamental_div_mod_converse(secs, 86_400, day, rest);
    assert(secs % 86_400 == rest);
    assert(rest / 3_600 == h);
    let low = m * 60 + sec;
    assert(secs == (day * 24 + h) * 3_600 + low);
    vstd::arithmetic::div_mod::lemma_fundamental_div_mod_converse(
        secs,
        3_600,
        day * 24 + h,
        low,
    );
    assert(low / 60 == m);
    assert(day * 86_400 / 86_400 == day) by {
        vstd::arithmetic::div_mod::lemma_fundamental_div_mod_converse(
            day * 86_400,
            86_400,
            day,
            0,
        );
    }
}

/// The days of the week follow each other from Monday on.
pub proof fn weekdays_follow_each_other(n: int)
    ensures
        weekday_from_monday(0) is Mon,
        weekday_from_monday(1) is Tue,
        weekday_from_monday(2) is Wed,
        weekday_from_monday(3) is Thu,
        weekday_from_monday(4) is Fri,
        weekday_from_monday(5) is Sat,
        weekday_from_monday(6) is Sun,
        weekday_from_monday(n + 7) == weekday_from_monday(n),
{
}

/// Of two times one is not after the other, and both only where they are the
/// same; seconds count before nanoseconds.
pub proof fn times_are_ordered(a: TimeOfDay, b: TimeOfDay, s: UtcTime, t: UtcTime)
    ensures
        not_after(a, b) || not_after(b, a),
        not_after(a, b) && not_after(b, a) ==> a == b,
        not_after(a, a),
        a.secs < b.secs ==> not_after(a, b) && !not_after(b, a),
        utc_not_after(s, t) || utc_not_after(t, s),
        utc_not_after(s, t) && utc_not_after(t, s) ==> s == t,
        utc_not_after(s, s),
        s.secs < t.secs ==> utc_not_after(s, t) && !utc_not_after(t, s),
{
}

/// An address lies in a network of its own kind with which it shares the bits
/// that count: with none, every address of the kind, and with all, only one.
pub proof fn networks_share_their_bits(a: u32, b: u32, c: u128, d: u128, bits: u8)
    ensures
        net_contains(IpNet { addr: IpAddr::V4(a), prefix_len: 0 }, IpAddr::V4(b)),
        net_contains(IpNet { addr: IpAddr::V4(a), prefix_len: 32 }, IpAddr::V4(b)) <==> a == b,
        0 < bits < 32 ==> (net_contains(
            IpNet { addr: IpAddr::V4(a), prefix_len: bits },
            IpAddr::V4(b),
        ) <==> a >> ((32 - bits) as u32) == b >> ((32 - bits) as u32)),
        net_contains(IpNet { addr: IpAddr::V6(c), prefix_len: 0 }, IpAddr::V6(d)),
        net_contains(IpNet { addr: IpAddr::V6(c), prefix_len: 128 }, IpAddr::V6(d)) <==> c == d,
        0 < bits < 128 ==> (net_contains(
            IpNet { addr: IpAddr::V6(c), prefix_len: bits },
            IpAddr::V6(d),
        ) <==> c >> ((128 - bits) as u128) == d >> ((128 - bits) as u128)),
        !net_contains(IpNet { addr: IpAddr::V4(a), prefix_len: bits }, IpAddr::V6(d)),
        !net_contains(IpNet { addr: IpAddr::V6(c), prefix_len: bits }, IpAddr::V4(b)),
        net_contains(IpNet { addr: IpAddr::V4(a), prefix_len: bits }, IpAddr::V4(a)),
        net_contains(IpNet { addr: IpAddr::V6(c), prefix_len: bits }, IpAddr::V6(c)),
{
}

/// A span of time is told in the unit in which it is given, and a thousand of
/// one unit are one of the next. Of two spans the longer one is at least as
/// long.
pub proof fn spans_are_told_in_their_unit(
    n: u64,
    secs: Duration,
    millis: Duration,
    micros: Duration,
    in_secs: u64,
    in_millis: u128,
    in_micros: u128,
    longer: bool,
)
    requires
        call_ensures(Duration::from_secs, (n,), secs),
        call_ensures(Duration::from_millis, (n,), millis),
        call_ensures(Duration::from_micros, (n,), micros),
        call_ensures(Duration::as_secs, (&secs,), in_secs),
        call_ensures(Duration::as_millis, (&millis,), in_millis),
        call_ensures(Duration::as_micros, (&micros,), in_micros),
        call_ensures(Duration::at_least, (&secs, &millis), longer),
    ensures
        in_secs == n,
        in_millis == n,
        in_micros == n,
        secs@ == 1_000 * millis@,
        millis@ == 1_000 * micros@,
        longer,
{
}

/// What is put under a key is found under it, and under every other key what
/// was there before.
pub proof fn values_are_found_by_key(
    map: &mut StringMap<String>,
    key: String,
    value: String,
    other: &str,
    before: Option<&String>,
)
    requires
        call_ensures(StringMap::<String>::insert, (map, key, value), ()),
        call_ensures(StringMap::<String>::get, (&*old(map), other), before),
    ensures
        final(map)@.contains_key(key@) && final(map)@[key@] == value,
        other@ != key@ ==> (before is Some <==> final(map)@.contains_key(other@)),
        other@ != key@ ==> (before matches Some(v) ==> final(map)@[other@] == *v),
{
}

/// What is taken out is handed back, and no longer there; everything else
/// stays.
pub proof fn values_are_taken_out(
    map: &mut StringMap<String>,
    key: &str,
    value: Option<String>,
    other: Seq<char>,
)
    requires
        call_ensures(StringMap::<String>::remove, (map, key), value),
    ensures
        value is Some <==> old(map)@.contains_key(key@),
        value matches Some(v) ==> v == old(map)@[key@],
        !final(map)@.contains_key(key@),
        other != key@ ==> (final(map)@.contains_key(other) <==> old(map)@.contains_key(other)),
{
}

/// A set holds what is put into it and does not hold what is taken out; it is
/// said whether that changed anything.
pub proof fn sets_hold_what_is_put_in(
    filled: &mut StringSet,
    item: String,
    added: bool,
    emptied: &mut StringSet,
    gone: &str,
    removed: bool,
    other: Seq<char>,
)
    requires
        call_ensures(StringSet::insert, (filled, item), added),
        call_ensures(StringSet::remove, (emptied, gone), removed),
    ensures
        final(filled)@.contains(item@),
        added <==> !old(filled)@.contains(item@),
        other != item@ ==> (final(filled)@.contains(other) <==> old(filled)@.contains(other)),
        !final(emptied)@.contains(gone@),
        removed <==> old(emptied)@.contains(gone@),
        other != gone@ ==> (final(emptied)@.contains(other) <==> old(emptied)@.contains(other)),
{
}

/// A source of numbers goes on from its last number; without one it begins with
/// the number that it is given.
pub proof fn random_numbers_follow_each_other(
    source: &mut RandomSource,
    start: u64,
    r: u64,
)
    requires
        call_ensures(RandomSource::random_from::<u64>, (source, start), r),
    ensures
        r == final(source).state(),
        old(source).state() != 0 ==> r == next_number(old(source).state()),
        old(source).state() == 0 ==> r == next_number(start),
{
}

} // verus!
