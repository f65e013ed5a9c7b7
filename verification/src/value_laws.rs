//! How points in time, texts and written numbers compare and are counted, told by seconds and
//! nanoseconds, bytes and digits.

use crate::pool::{
    all_digits, digits_value, is_digit, parse_u32, unsigned_part, written_u32, PoolConfig,
};
use crate::text::{bytes_before, comes_before};
use crate::timestamp::{calendar_day, lemma_parses_to, rfc3339_text, Timestamp};
use vstd::prelude::*;
use vstd::utf8::encode_utf8;

verus! {

// ---- points in time ----

/// A point in time lies before another exactly if its second is earlier, or if the seconds are the
/// same and its nanosecond is earlier; so of two different points one lies before the other.
pub proof fn law_earlier_point_lies_before(a: Timestamp, b: Timestamp, before: bool, after: bool)
    requires
        call_ensures(Timestamp::is_before, (&a, &b), before),
        call_ensures(Timestamp::is_before, (&b, &a), after),
    ensures
        a.secs() < b.secs() ==> before && !after,
        a.secs() == b.secs() && a.nanos() < b.nanos() ==> before && !after,
        a.secs() == b.secs() && a.nanos() == b.nanos() ==> !before && !after,
{
}

/// A point in time has the second and the nanosecond it was made from. There is one for every
/// second of the calendar and every nanosecond within it, and beyond that only for a leap second at
/// the end of a minute.
pub proof fn law_point_is_made_of_its_parts(
    secs: i64,
    nanos: u32,
    point: Option<Timestamp>,
    t: Timestamp,
    parts: (i64, u32),
)
    requires
        call_ensures(Timestamp::new, (secs, nanos), point),
        call_ensures(Timestamp::parts, (&t,), parts),
    ensures
        point is Some <==> -8_334_601_228_800 <= secs <= 8_210_266_876_799 && (nanos
            < 1_000_000_000 || (nanos < 2_000_000_000 && secs % 60 == 59)),
        point is Some ==> point->Some_0.secs() == secs && point->Some_0.nanos() == nanos,
        parts == (t.secs(), t.nanos()),
{
}

/// The seconds from one point to another are the whole seconds in the distance between them, so
/// that the distance back is the same with the other sign. Leap seconds are left out.
pub proof fn law_seconds_measure_the_distance(
    to: Timestamp,
    from: Timestamp,
    count: i64,
    back: i64,
)
    requires
        call_ensures(Timestamp::seconds_since, (&to, &from), count),
        call_ensures(Timestamp::seconds_since, (&from, &to), back),
        to.nanos() < 1_000_000_000,
        from.nanos() < 1_000_000_000,
    ensures
        ({
            let distance = (to.secs() - from.secs()) * 1_000_000_000 + (to.nanos() - from.nanos());
            distance >= 0 ==> count * 1_000_000_000 <= distance < (count + 1) * 1_000_000_000
        }),
        back == -count,
{
}

/// Going back by days goes back by 86400 seconds for each, to the same nanosecond. Leap seconds are
/// left out.
pub proof fn law_days_are_taken_off(t: Timestamp, days: i64, earlier: Option<Timestamp>)
    requires
        call_ensures(Timestamp::minus_days, (&t, days), earlier),
        t.nanos() < 1_000_000_000,
    ensures
        earlier is Some ==> earlier->Some_0.secs() + days * 86_400 == t.secs()
            && earlier->Some_0.nanos() == t.nanos(),
        earlier is None ==> !(-8_334_601_228_800 <= t.secs() - days * 86_400
            <= 8_210_266_876_799),
{
}

/// A point in time of a year with four digits is read back from the text it is written as.
pub proof fn law_written_point_is_read_back(
    t: Timestamp,
    text: String,
    stored: &str,
    read: Option<Timestamp>,
    day: String,
)
    requires
        call_ensures(Timestamp::to_rfc3339, (&t,), text),
        call_ensures(Timestamp::parse_from_rfc3339, (stored,), read),
        call_ensures(Timestamp::format_day, (&t,), day),
        -62_167_219_200 <= t.secs() <= 253_402_300_799,
        stored@ == text@,
    ensures
        text@ == rfc3339_text(t.secs(), t.nanos()),
        read == Some(t),
        day@ == calendar_day(t.secs(), t.nanos()),
{
    lemma_parses_to(text@, t);
}

// ---- the order of texts ----

proof fn lemma_same_beginning(a: Seq<u8>, b: Seq<u8>, i: int)
    requires
        0 <= i <= a.len(),
        i <= b.len(),
        a.take(i) == b.take(i),
    ensures
        bytes_before(a, b) == bytes_before(a.skip(i), b.skip(i)),
    decreases i,
{
    if i == 0 {
        assert(a.skip(0) =~= a);
        assert(b.skip(0) =~= b);
    } else {
        assert(a[0] == a.take(i)[0] && b[0] == b.take(i)[0]);
        let x = a.drop_first();
        let y = b.drop_first();
        assert(x.take(i - 1) =~= a.take(i).drop_first());
        assert(y.take(i - 1) =~= b.take(i).drop_first());
        lemma_same_beginning(x, y, i - 1);
        assert(x.skip(i - 1) =~= a.skip(i));
        assert(y.skip(i - 1) =~= b.skip(i));
    }
}

/// The first byte in which two texts differ decides which comes before the other: the one with the
/// lower byte there. A text that ends where they still agree comes before one that goes on.
pub proof fn law_first_different_byte_decides(a: &str, b: &str, before: bool, i: int)
    requires
        call_ensures(comes_before, (a, b), before),
        0 <= i <= encode_utf8(a@).len(),
        i <= encode_utf8(b@).len(),
        encode_utf8(a@).take(i) == encode_utf8(b@).take(i),
    ensures
        i < encode_utf8(a@).len() && i < encode_utf8(b@).len() && encode_utf8(a@)[i]
            != encode_utf8(b@)[i] ==> before == (encode_utf8(a@)[i] < encode_utf8(b@)[i]),
        i == encode_utf8(a@).len() ==> before == (i < encode_utf8(b@).len()),
        i == encode_utf8(b@).len() ==> !before,
{
    let left = encode_utf8(a@);
    let right = encode_utf8(b@);
    lemma_same_beginning(left, right, i);
    if i < left.len() {
        assert(left.skip(i)[0] == left[i]);
    }
    if i < right.len() {
        assert(right.skip(i)[0] == right[i]);
    }
}

// ---- written numbers ----

/// One more digit makes ten times the number and the digit, as long as that fits.
pub proof fn law_one_more_digit(
    text: &str,
    longer: &str,
    digit: char,
    number: Option<u32>,
    next: Option<u32>,
)
    requires
        call_ensures(parse_u32, (text,), number),
        call_ensures(parse_u32, (longer,), next),
        longer@ == text@.push(digit),
        number is Some,
        '0' <= digit <= '9',
    ensures
        ({
            let grown = 10 * number->Some_0 + (digit as int - '0' as int);
            &&& grown <= u32::MAX ==> next == Some(grown as u32)
            &&& grown > u32::MAX ==> next is None
        }),
{
    lemma_one_more_digit(text@, digit);
}

proof fn lemma_one_more_digit(text: Seq<char>, digit: char)
    requires
        written_u32(text) is Some,
        '0' <= digit <= '9',
    ensures
        ({
            let grown = 10 * written_u32(text)->Some_0 + (digit as int - '0' as int);
            &&& grown <= u32::MAX ==> written_u32(text.push(digit)) == Some(grown as u32)
            &&& grown > u32::MAX ==> written_u32(text.push(digit)) is None
        }),
{
    let digits = unsigned_part(text);
    let longer = unsigned_part(text.push(digit));
    assert(longer =~= digits.push(digit));
    assert(longer.drop_last() =~= digits);
    assert(digits_value(longer) == 10 * digits_value(digits) + (digit as int - '0' as int));
    assert forall|i: int| 0 <= i < longer.len() implies is_digit(
        #[trigger] longer[i],
    ) by {
        if i < digits.len() {
            assert(is_digit(digits[i]));
        }
    }
}

/// A single digit writes itself, with or without a plus sign before it. A text without digits, or
/// with anything else among them, writes no number.
pub proof fn law_what_writes_a_number(text: &str, number: Option<u32>, i: int)
    requires
        call_ensures(parse_u32, (text,), number),
    ensures
        text@.len() == 1 && '0' <= text@[0] <= '9' ==> number == Some(
            (text@[0] as int - '0' as int) as u32,
        ),
        text@.len() == 2 && text@[0] == '+' && '0' <= text@[1] <= '9' ==> number == Some(
            (text@[1] as int - '0' as int) as u32,
        ),
        text@.len() == 0 ==> number is None,
        text@.len() == 1 && text@[0] == '+' ==> number is None,
        0 < i < text@.len() && !('0' <= text@[i] <= '9') ==> number is None,
        text@.len() > 0 && !('0' <= text@[0] <= '9') && text@[0] != '+' ==> number is None,
{
    let digits = unsigned_part(text@);
    reveal_with_fuel(digits_value, 3);
    if digits.len() == 1 {
        assert(digits.drop_last() =~= Seq::<char>::empty());
        assert(is_digit(digits[0]) ==> all_digits(digits));
    }
    if 0 < i < text@.len() && !('0' <= text@[i] <= '9') {
        let k = if text@[0] == '+' { i - 1 } else { i };
        assert(digits[k] == text@[i]);
        assert(!is_digit(digits[k]));
    }
    if text@.len() > 0 && !('0' <= text@[0] <= '9') && text@[0] != '+' {
        assert(digits[0] == text@[0]);
        assert(!is_digit(digits[0]));
    }
}

/// Once a text of digits writes a number that does not fit, more digits do not make it fit.
pub proof fn law_too_large_stays_too_large(
    text: &str,
    longer: &str,
    c: char,
    number: Option<u32>,
    next: Option<u32>,
)
    requires
        call_ensures(parse_u32, (text,), number),
        call_ensures(parse_u32, (longer,), next),
        longer@ == text@.push(c),
        number is None,
        text@.len() > 1,
    ensures
        next is None,
{
    let digits = unsigned_part(text@);
    let more = unsigned_part(longer@);
    assert(more =~= digits.push(c));
    assert(more.drop_last() =~= digits);
    if all_digits(more) {
        assert forall|i: int| 0 <= i < digits.len() implies is_digit(
            #[trigger] digits[i],
        ) by {
            assert(more[i] == digits[i]);
        }
        assert(is_digit(more[more.len() - 1]));
    }
}

/// Each setting is the number that its variable writes, and else its standard: two, ten and thirty.
pub proof fn law_settings_come_from_their_variables(
    min: Option<String>,
    max: Option<String>,
    timeout_secs: Option<String>,
    config: PoolConfig,
    text: &str,
    number: Option<u32>,
    plain: PoolConfig,
)
    requires
        call_ensures(PoolConfig::from_env, (min, max, timeout_secs), config),
        call_ensures(parse_u32, (text,), number),
        call_ensures(<PoolConfig as Default>::default, (), plain),
    ensures
        min is None ==> config.min == 2,
        max is None ==> config.max == 10,
        timeout_secs is None ==> config.timeout_secs == 30,
        min is Some && min->Some_0@ == text@ ==> config.min == if number is Some {
            number->Some_0
        } else {
            2
        },
        max is Some && max->Some_0@ == text@ ==> config.max == if number is Some {
            number->Some_0
        } else {
            10
        },
        timeout_secs is Some && timeout_secs->Some_0@ == text@ ==> config.timeout_secs
            == if number is Some {
            number->Some_0
        } else {
            30
        },
        plain == (PoolConfig { min: 2, max: 10, timeout_secs: 30 }),
{
}

} // verus!
