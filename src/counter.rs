use vstd::prelude::*;
use crate::errors::{DbError, StoreFailure};

verus! {

/// What a read of a counter document found.
#[derive(Debug, Clone, PartialEq, Eq)]
pub enum CounterRead {
    /// The read failed: the counter does not exist yet.
    Absent,
    /// The document holds an integer.
    Number(i64),
    /// The document holds a string.
    Text(String),
    /// The document holds anything else.
    Other,
}

pub open spec fn is_digit(c: char) -> bool {
    '0' <= c && c <= '9'
}

pub open spec fn digit_value(c: char) -> int {
    (c as u32) - ('0' as u32)
}

/// The number written by the decimal digits `s`.
pub open spec fn digits_value(s: Seq<char>) -> int
    decreases s.len(),
{
    if s.len() == 0 {
        0
    } else {
        digits_value(s.drop_last()) * 10 + digit_value(s.last())
    }
}

pub open spec fn all_digits(s: Seq<char>) -> bool {
    s.len() > 0 && forall|i: int| 0 <= i < s.len() ==> is_digit(#[trigger] s[i])
}

/// The integer written by `s`: an optional sign followed by at least one
/// decimal digit, and nothing else.
pub open spec fn decimal_int(s: Seq<char>) -> Option<int> {
    if s.len() > 0 && s[0] == '-' && all_digits(s.skip(1)) {
        Some(-digits_value(s.skip(1)))
    } else if s.len() > 0 && s[0] == '+' && all_digits(s.skip(1)) {
        Some(digits_value(s.skip(1)))
    } else if all_digits(s) {
        Some(digits_value(s))
    } else {
        None
    }
}

/// `s` read as an `i64`, if it writes one in range.
pub open spec fn parsed_i64(s: Seq<char>) -> Option<i64> {
    match decimal_int(s) {
        Some(v) => if i64::MIN <= v && v <= i64::MAX {
            Some(v as i64)
        } else {
            None
        },
        None => None,
    }
}

pub open spec fn digit_char(d: nat) -> char {
    if d == 0 {
        '0'
    } else if d == 1 {
        '1'
    } else if d == 2 {
        '2'
    } else if d == 3 {
        '3'
    } else if d == 4 {
        '4'
    } else if d == 5 {
        '5'
    } else if d == 6 {
        '6'
    } else if d == 7 {
        '7'
    } else if d == 8 {
        '8'
    } else {
        '9'
    }
}

/// The decimal digits of `n`, without leading zeros.
pub open spec fn decimal_digits(n: nat) -> Seq<char>
    decreases n,
{
    if n < 10 {
        seq![digit_char(n)]
    } else {
        decimal_digits(n / 10).push(digit_char(n % 10))
    }
}

/// `n` in decimal, with a leading `-` when negative.
pub open spec fn decimal_text(n: int) -> Seq<char> {
    if n < 0 {
        seq!['-'] + decimal_digits((-n) as nat)
    } else {
        decimal_digits(n as nat)
    }
}

/// Relies on `<i64 as FromStr>::from_str`: it accepts an optional `+` or `-`
/// followed by one or more ASCII digits, nothing else, and fails when the
/// value is out of range.
#[verifier::external_body]
fn parse_i64(s: &str) -> (r: Option<i64>)
    ensures
        r == parsed_i64(s@),
{
    s.parse::<i64>().ok()
}

/// Relies on `<i64 as Display>` through `to_string`: the value in decimal, with
/// a `-` before a negative value and no padding.
#[verifier::external_body]
fn i64_text(n: i64) -> (r: String)
    ensures
        r@ == decimal_text(n as int),
{
    n.to_string()
}

pub open spec fn incremented(n: i64) -> Result<i64, DbError> {
    if n < i64::MAX {
        Ok((n + 1) as i64)
    } else {
        Err(DbError::Overflow)
    }
}

/// The value a counter takes, given what the read of it found: an initial
/// value, when one is given, wins over anything stored; a missing counter
/// starts at one; otherwise the stored number, or numeric string, goes up by one.
pub open spec fn counter_target(read: CounterRead, initial: Option<u32>) -> Result<i64, DbError> {
    match initial {
        Some(v) => Ok(v as i64),
        None => match read {
            CounterRead::Absent => Ok(1),
            CounterRead::Number(n) => incremented(n),
            CounterRead::Text(s) => match parsed_i64(s@) {
                Some(n) => incremented(n),
                None => Err(DbError::Format),
            },
            CounterRead::Other => Err(DbError::Format),
        },
    }
}

fn increment(n: i64) -> (r: Result<i64, DbError>)
    ensures
        r == incremented(n),
{
    if n < i64::MAX {
        Ok(n + 1)
    } else {
        Err(DbError::Overflow)
    }
}

/// Decides the value to write to a counter from what reading it found; the
/// caller writes it and hands the write's outcome to `counter_reply`.
pub fn get_next_counter_key(read: &CounterRead, initial: Option<u32>) -> (r: Result<i64, DbError>)
    ensures
        r == counter_target(*read, initial),
{
    match initial {
        Some(v) => Ok(v as i64),
        None => match read {
            CounterRead::Absent => Ok(1),
            CounterRead::Number(n) => increment(*n),
            CounterRead::Text(s) => match parse_i64(s.as_str()) {
                Some(n) => increment(n),
                None => Err(DbError::Format),
            },
            CounterRead::Other => Err(DbError::Format),
        },
    }
}

/// The counter's new value as text once it has been written, or the write's
/// failure unchanged.
pub fn counter_reply(value: i64, written: Result<(), StoreFailure>) -> (r: Result<String, DbError>)
    ensures
        match written {
            Ok(_) => r matches Ok(s) && s@ == decimal_text(value as int),
            Err(f) => r == Err::<String, DbError>(DbError::Store(f)),
        },
{
    match written {
        Ok(_) => Ok(i64_text(value)),
        Err(f) => Err(DbError::Store(f)),
    }
}

/// A new counter reads `1`; read back, a written value `v` becomes `v + 1`, so
/// the next call reads `2`; and an initial value, when given, is what the
/// counter becomes, whatever was stored.
pub proof fn lemma_counter_steps(prior: CounterRead, v: i64, init: u32)
    ensures
        counter_target(CounterRead::Absent, None) == Ok::<i64, DbError>(1),
        decimal_text(1) == seq!['1'],
        counter_target(CounterRead::Number(1), None) == Ok::<i64, DbError>(2),
        decimal_text(2) == seq!['2'],
        v < i64::MAX ==> counter_target(CounterRead::Number(v), None) == Ok::<i64, DbError>(
            (v + 1) as i64,
        ),
        counter_target(prior, Some(init)) == Ok::<i64, DbError>(init as i64),
{
    assert(decimal_digits(1) == seq!['1']);
    assert(decimal_digits(2) == seq!['2']);
}

} // verus!
