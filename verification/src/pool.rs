//! Settings of the database connection.

use crate::text::opt_text;
use vstd::prelude::*;

verus! {

/// How connections are pooled. One connection is used, so only the time-out has an effect.
#[derive(Debug, Clone, Copy, PartialEq, Eq, Structural)]
pub struct PoolConfig {
    pub min: u32,
    pub max: u32,
    pub timeout_secs: u32,
}

impl PoolConfig {
    /// The settings where none are given.
    pub open spec fn standard() -> PoolConfig {
        PoolConfig { min: 2, max: 10, timeout_secs: 30 }
    }
}

impl Default for PoolConfig {
    fn default() -> (config: PoolConfig)
        ensures
            config == PoolConfig::standard(),
    {
        PoolConfig { min: 2, max: 10, timeout_secs: 30 }
    }
}

/// Whether a character is a decimal digit.
pub open spec fn is_digit(c: char) -> bool {
    '0' <= c <= '9'
}

/// The number that decimal digits write.
pub open spec fn digits_value(digits: Seq<char>) -> nat
    decreases digits.len(),
{
    if digits.len() == 0 {
        0
    } else {
        10 * digits_value(digits.drop_last()) + (digits.last() as int - '0' as int) as nat
    }
}

/// Whether all characters are decimal digits.
pub open spec fn all_digits(text: Seq<char>) -> bool {
    forall|i: int| 0 <= i < text.len() ==> is_digit(#[trigger] text[i])
}

/// A text without the plus sign it may begin with.
pub open spec fn unsigned_part(text: Seq<char>) -> Seq<char> {
    if text.len() > 0 && text[0] == '+' {
        text.drop_first()
    } else {
        text
    }
}

/// The number that a text writes: decimal digits, with a plus sign before them or none, for a
/// number that fits.
pub open spec fn written_u32(text: Seq<char>) -> Option<u32> {
    let digits = unsigned_part(text);
    if digits.len() > 0 && all_digits(digits) && digits_value(digits) <= u32::MAX {
        Some(digits_value(digits) as u32)
    } else {
        None
    }
}

proof fn lemma_digits_grow(digits: Seq<char>, n: int)
    requires
        0 <= n <= digits.len(),
    ensures
        digits_value(digits.take(n)) <= digits_value(digits),
    decreases digits.len() - n,
{
    if n < digits.len() {
        lemma_digits_grow(digits, n + 1);
        assert(digits.take(n + 1).drop_last() =~= digits.take(n));
    } else {
        assert(digits.take(n) =~= digits);
    }
}

/// The number that a text writes.
pub fn parse_u32(text: &str) -> (number: Option<u32>)
    ensures
        number == written_u32(text@),
{
    let len: usize = text.unicode_len();
    let from: usize = if len > 0 && text.get_char(0) == '+' {
        1
    } else {
        0
    };
    if from >= len {
        return None;
    }
    let ghost digits = unsigned_part(text@);
    let mut value: u32 = 0;
    let mut i: usize = from;
    assert(digits.take(0) =~= Seq::<char>::empty());
    while i < len
        invariant
            len == text@.len(),
            from <= i <= len,
            from <= 1,
            digits.len() == len - from,
            forall|k: int| 0 <= k < digits.len() ==> digits[k] == text@[from + k],
            digits == unsigned_part(text@),
            forall|k: int| 0 <= k < i - from ==> is_digit(#[trigger] digits[k]),
            value == digits_value(digits.take(i - from)),
        decreases len - i,
    {
        let c: char = text.get_char(i);
        assert(digits[i - from] == c);
        if c < '0' || c > '9' {
            assert(!is_digit(digits[i - from]));
            return None;
        }
        let digit: u32 = c as u32 - '0' as u32;
        proof {
            assert(digits.take(i - from + 1).drop_last() =~= digits.take(i - from));
            lemma_digits_grow(digits, i - from + 1);
        }
        if value > (u32::MAX - digit) / 10 {
            assert(10 * value + digit > u32::MAX);
            return None;
        }
        value = value * 10 + digit;
        i = i + 1;
    }
    assert(digits.take(len - from) =~= digits);
    Some(value)
}

/// A setting as its variable writes it, or the standard value where the variable is not set or
/// writes no number.
pub open spec fn setting(variable: Option<Seq<char>>, standard: u32) -> u32 {
    match variable {
        Some(text) => match written_u32(text) {
            Some(number) => number,
            None => standard,
        },
        None => standard,
    }
}

fn read_setting(variable: &Option<String>, standard: u32) -> (value: u32)
    ensures
        value == setting(opt_text(*variable), standard),
{
    match variable {
        Some(text) => match parse_u32(text.as_str()) {
            Some(number) => number,
            None => standard,
        },
        None => standard,
    }
}

impl PoolConfig {
    /// The settings that the environment variables `DB_POOL_MIN`, `DB_POOL_MAX` and
    /// `DB_POOL_TIMEOUT_SECS` hold, handed in as they are set.
    pub fn from_env(
        min: Option<String>,
        max: Option<String>,
        timeout_secs: Option<String>,
    ) -> (config: PoolConfig)
        ensures
            config.min == setting(opt_text(min), 2),
            config.max == setting(opt_text(max), 10),
            config.timeout_secs == setting(opt_text(timeout_secs), 30),
    {
        PoolConfig {
            min: read_setting(&min, 2),
            max: read_setting(&max, 10),
            timeout_secs: read_setting(&timeout_secs, 30),
        }
    }
}

} // verus!
