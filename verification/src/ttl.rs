//! The time-to-live of cache entries and the setting it is resolved from.
use vstd::prelude::*;

verus! {

/// The number of days an entry stays valid when no usable setting is given.
pub const DEFAULT_CACHE_DAYS: u64 = 1;

/// The byte of the plus sign.
const PLUS: u8 = 0x2b;

/// The byte of the digit zero.
const DIGIT_ZERO: u8 = 0x30;

/// The byte of the digit nine.
const DIGIT_NINE: u8 = 0x39;

/// Nanoseconds in one second.
pub const NANOS_PER_SECOND: u128 = 1_000_000_000;

/// Nanoseconds in one millisecond.
pub const NANOS_PER_MILLI: u128 = 1_000_000;

/// Nanoseconds in one day.
pub const NANOS_PER_DAY: u128 = 86_400_000_000_000;

/// The maximum age, in nanoseconds, below which an entry is still valid.
///
/// Every count of days that fits a `u64` has an exact time-to-live: the
/// nanosecond count is wide enough that no setting overflows it.
#[derive(Clone, Copy, Debug, PartialEq, Eq, Structural)]
pub struct Ttl {
    pub nanos: u128,
}

/// The time-to-live of `days` whole days: `days * 86400` seconds.
pub open spec fn ttl_of_days(days: u64) -> Ttl {
    Ttl { nanos: (days * 86_400 * 1_000_000_000) as u128 }
}

impl Ttl {
    /// The time-to-live of `days` whole days: `days * 86400` seconds.
    pub fn from_days(days: u64) -> (ttl: Ttl)
        ensures
            ttl == ttl_of_days(days),
            ttl.nanos == days * 86_400 * 1_000_000_000,
    {
        Ttl { nanos: (days as u128) * NANOS_PER_DAY }
    }

    /// The time-to-live of `secs` whole seconds.
    pub fn from_secs(secs: u64) -> (ttl: Ttl)
        ensures
            ttl.nanos == secs * 1_000_000_000,
    {
        Ttl { nanos: (secs as u128) * NANOS_PER_SECOND }
    }

    /// The time-to-live of `millis` whole milliseconds.
    pub fn from_millis(millis: u64) -> (ttl: Ttl)
        ensures
            ttl.nanos == millis * 1_000_000,
    {
        Ttl { nanos: (millis as u128) * NANOS_PER_MILLI }
    }

    /// The whole seconds of this time-to-live.
    pub fn as_secs(&self) -> (secs: u128)
        ensures
            secs == self.nanos / 1_000_000_000,
    {
        self.nanos / NANOS_PER_SECOND
    }
}

/// Whether `c` is one of the ten decimal digits.
pub open spec fn is_decimal_digit(c: char) -> bool {
    '0' <= c && c <= '9'
}

/// The number a decimal digit stands for; zero for any other character.
pub open spec fn digit_value(c: char) -> nat {
    if is_decimal_digit(c) {
        (c as int - '0' as int) as nat
    } else {
        0
    }
}

/// The number a run of decimal digits stands for.
pub open spec fn decimal_value(digits: Seq<char>) -> nat
    decreases digits.len(),
{
    if digits.len() == 0 {
        0
    } else {
        decimal_value(digits.drop_last()) * 10 + digit_value(digits.last())
    }
}

/// A setting without the plus sign that may stand in front of it.
pub open spec fn unsigned_part(text: Seq<char>) -> Seq<char> {
    if text.len() > 0 && text[0] == '+' {
        text.skip(1)
    } else {
        text
    }
}

/// The count of days a setting names.
///
/// A setting names a count if it is a run of one or more decimal digits,
/// with at most a single plus sign in front and nothing else around it, and
/// the number fits a `u64`. Any other text names none.
pub open spec fn parsed_days(text: Seq<char>) -> Option<u64> {
    let digits = unsigned_part(text);
    if digits.len() > 0 && (forall|i: int|
        0 <= i < digits.len() ==> is_decimal_digit(#[trigger] digits[i])) && decimal_value(digits)
        <= u64::MAX {
        Some(decimal_value(digits) as u64)
    } else {
        None
    }
}

/// The time-to-live that a setting resolves to: the days it names, or
/// [`DEFAULT_CACHE_DAYS`] where the setting is absent or names none.
pub open spec fn resolved_days(setting: Option<Seq<char>>) -> u64 {
    match setting {
        Some(text) => match parsed_days(text) {
            Some(days) => days,
            None => DEFAULT_CACHE_DAYS,
        },
        None => DEFAULT_CACHE_DAYS,
    }
}

proof fn lemma_prefix_value_is_no_larger(digits: Seq<char>, k: int)
    requires
        0 <= k <= digits.len(),
    ensures
        decimal_value(digits.take(k)) <= decimal_value(digits),
    decreases digits.len(),
{
    if k == digits.len() {
        assert(digits.take(k) =~= digits);
    } else {
        assert(digits.drop_last().take(k) =~= digits.take(k));
        lemma_prefix_value_is_no_larger(digits.drop_last(), k);
    }
}

/// Reads a count of days from a setting.
pub fn parse_days(text: &str) -> (days: Option<u64>)
    ensures
        days == parsed_days(text@),
{
    let ghost digits = unsigned_part(text@);
    if !text.is_ascii() {
        proof {
            let i = choose|i: int|
                0 <= i < text@.len() && !('\0' <= #[trigger] text@[i] <= '\u{7f}');
            if i > 0 || text@[0] != '+' {
                let j = if digits.len() == text@.len() {
                    i
                } else {
                    i - 1
                };
                assert(!is_decimal_digit(digits[j]));
            }
        }
        return None;
    }
    proof {
        vstd::string::is_ascii_spec_bytes(text);
    }
    let bytes = text.as_bytes();
    let len = bytes.len();
    let start: usize = if len > 0 && bytes[0] == PLUS {
        1
    } else {
        0
    };
    proof {
        if len > 0 {
            lemma_ascii_char_is_its_byte(text@[0]);
        }
        assert(digits =~= text@.skip(start as int));
    }
    if start == len {
        return None;
    }
    let mut value: u64 = 0;
    let mut i: usize = start;
    while i < len
        invariant
            len == text@.len(),
            vstd::string::is_ascii(text),
            bytes@ == Seq::new(text@.len(), |k: int| text@[k] as u8),
            start <= i <= len,
            digits == text@.skip(start as int),
            digits == unsigned_part(text@),
            forall|j: int| 0 <= j < i - start ==> is_decimal_digit(#[trigger] digits[j]),
            value == decimal_value(digits.take(i - start)),
        decreases len - i,
    {
        let byte = bytes[i];
        let ghost c = text@[i as int];
        proof {
            lemma_ascii_char_is_its_byte(c);
            assert(c == digits[i - start]);
            assert(digits.take(i - start + 1).drop_last() =~= digits.take(i - start));
            assert(digits.take(i - start + 1).last() == c);
            assert(decimal_value(digits.take(i - start + 1)) == value * 10 + digit_value(c));
            lemma_prefix_value_is_no_larger(digits, i - start + 1);
        }
        if byte < DIGIT_ZERO || byte > DIGIT_NINE {
            return None;
        }
        let digit: u64 = (byte - DIGIT_ZERO) as u64;
        let tens = match value.checked_mul(10) {
            Some(tens) => tens,
            None => {
                return None;
            },
        };
        value = match tens.checked_add(digit) {
            Some(sum) => sum,
            None => {
                return None;
            },
        };
        i += 1;
    }
    proof {
        assert(digits.take(len - start) =~= digits);
    }
    Some(value)
}

proof fn lemma_ascii_char_is_its_byte(c: char)
    requires
        '\0' <= c <= '\u{7f}',
    ensures
        c as u8 as int == c as int,
        (c == '+') == (c as u8 == PLUS),
        is_decimal_digit(c) == (DIGIT_ZERO <= c as u8 && c as u8 <= DIGIT_NINE),
        is_decimal_digit(c) ==> digit_value(c) == c as u8 - DIGIT_ZERO,
{
}

/// Resolves the time-to-live from the setting the host found, if it found
/// one.
pub fn resolve_ttl(setting: Option<&str>) -> (ttl: Ttl)
    ensures
        ttl == ttl_of_days(resolved_days(
            match setting {
                Some(text) => Some(text@),
                None => None,
            },
        )),
{
    let days = match setting {
        Some(text) => match parse_days(text) {
            Some(days) => days,
            None => DEFAULT_CACHE_DAYS,
        },
        None => DEFAULT_CACHE_DAYS,
    };
    Ttl::from_days(days)
}

} // verus!
