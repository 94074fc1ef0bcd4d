//! The number by which an issue is ranked: the decimal suffix of a key such as
//! `ZEP-42`, and the decimal text of a number.

use crate::text::{chars_of};
use vstd::prelude::*;

verus! {

/// Why a key cannot be ranked.
#[derive(Debug, Clone, Copy, PartialEq, Eq, Structural)]
pub enum MalformedKeyError {
    /// The key holds no `-`.
    NoSeparator,
    /// What follows the last `-` is not a number that fits in 64 bits.
    BadNumber,
}

/// The position of the last `-` in `s`, or -1 if there is none.
pub open spec fn last_dash(s: Seq<char>) -> int
    decreases s.len(),
{
    if s.len() == 0 {
        -1
    } else if s.last() == '-' {
        s.len() - 1
    } else {
        last_dash(s.drop_last())
    }
}

pub open spec fn is_digit(c: char) -> bool {
    '0' <= c <= '9'
}

/// The value of a decimal digit; 0 for any other character.
pub open spec fn digit_value(c: char) -> nat {
    if is_digit(c) {
        (c as u32 - 48) as nat
    } else {
        0
    }
}

pub open spec fn all_digits(s: Seq<char>) -> bool {
    forall|i: int| 0 <= i < s.len() ==> is_digit(#[trigger] s[i])
}

/// The number that the digits of `s` denote in base ten, the first digit counting
/// most.
pub open spec fn decimal_value(s: Seq<char>) -> nat
    decreases s.len(),
{
    if s.len() == 0 {
        0
    } else {
        decimal_value(s.drop_last()) * 10 + digit_value(s.last())
    }
}

/// `s` without a leading `+`.
pub open spec fn unsigned_part(s: Seq<char>) -> Seq<char> {
    if s.len() > 0 && s[0] == '+' {
        s.subrange(1, s.len() as int)
    } else {
        s
    }
}

/// The non-negative integer that `s` denotes: one or more decimal digits, which a
/// single `+` may precede. `None` for any other text.
pub open spec fn numeric_value(s: Seq<char>) -> Option<nat> {
    let digits = unsigned_part(s);
    if digits.len() > 0 && all_digits(digits) {
        Some(decimal_value(digits))
    } else {
        None
    }
}

/// What follows the last `-` of `key`; `None` where `key` holds no `-`.
pub open spec fn key_suffix(key: Seq<char>) -> Option<Seq<char>> {
    if last_dash(key) < 0 {
        None
    } else {
        Some(key.subrange(last_dash(key) + 1, key.len() as int))
    }
}

/// The rank of an issue key: the number after its last `-`.
pub open spec fn numeric_order(key: Seq<char>) -> Result<u64, MalformedKeyError> {
    match key_suffix(key) {
        None => Err(MalformedKeyError::NoSeparator),
        Some(suffix) => match numeric_value(suffix) {
            Some(n) if n <= u64::MAX => Ok(n as u64),
            _ => Err(MalformedKeyError::BadNumber),
        },
    }
}

/// `last_dash` is the greatest position that holds a `-`.
pub proof fn lemma_last_dash(s: Seq<char>)
    ensures
        -1 <= last_dash(s) < s.len(),
        last_dash(s) >= 0 ==> s[last_dash(s)] == '-',
        forall|i: int| last_dash(s) < i < s.len() ==> s[i] != '-',
    decreases s.len(),
{
    if s.len() > 0 && s.last() != '-' {
        let head = s.drop_last();
        lemma_last_dash(head);
        assert forall|i: int| last_dash(s) < i < s.len() implies s[i] != '-' by {
            if i < head.len() {
                assert(head[i] == s[i]);
            }
        }
    }
}

/// The value of a prefix of `s` is at most the value of `s`.
pub proof fn lemma_decimal_value_grows(s: Seq<char>, k: int)
    requires
        0 <= k <= s.len(),
    ensures
        decimal_value(s.subrange(0, k)) <= decimal_value(s),
    decreases s.len() - k,
{
    if k == s.len() {
        assert(s.subrange(0, k) == s);
    } else {
        lemma_decimal_value_grows(s, k + 1);
        assert(s.subrange(0, k + 1).drop_last() == s.subrange(0, k));
    }
}

/// The rank of the issue with the key `key`: the number that stands after the last
/// `-`, in decimal digits with at most one `+` before them.
pub fn num_of_key(key: &str) -> (r: Result<u64, MalformedKeyError>)
    ensures
        r == numeric_order(key@),
{
    let chars = chars_of(key);
    let n = chars.len();
    let mut start: usize = n;
    assert(chars@.subrange(0, n as int) == chars@);
    while start > 0 && chars[start - 1] != '-'
        invariant
            start <= n == chars@.len(),
            last_dash(chars@) == last_dash(chars@.subrange(0, start as int)),
        decreases start,
    {
        start -= 1;
        assert(chars@.subrange(0, start + 1).drop_last() == chars@.subrange(0, start as int));
    }
    if start == 0 {
        return Err(MalformedKeyError::NoSeparator);
    }
    let ghost suffix = chars@.subrange(start as int, n as int);
    assert(key_suffix(key@) == Some(suffix));
    let mut first: usize = start;
    if first < n && chars[first] == '+' {
        first += 1;
    }
    let ghost digits = chars@.subrange(first as int, n as int);
    assert(digits == unsigned_part(suffix));
    if first == n {
        return Err(MalformedKeyError::BadNumber);
    }
    let mut value: u64 = 0;
    let mut i: usize = first;
    while i < n
        invariant
            first <= i <= n == chars@.len(),
            digits == chars@.subrange(first as int, n as int),
            key_suffix(key@) == Some(suffix),
            digits == unsigned_part(suffix),
            all_digits(digits.subrange(0, i - first)),
            value == decimal_value(digits.subrange(0, i - first)),
        decreases n - i,
    {
        let c = chars[i];
        proof {
            lemma_decimal_value_grows(digits, i - first + 1);
            assert(digits.subrange(0, i - first + 1).drop_last() == digits.subrange(
                0,
                i - first,
            ));
            assert(digits[i - first] == c);
        }
        if c < '0' || c > '9' {
            return Err(MalformedKeyError::BadNumber);
        }
        let d: u64 = (c as u32 - 48) as u64;
        if value > (u64::MAX - d) / 10 {
            return Err(MalformedKeyError::BadNumber);
        }
        value = value * 10 + d;
        i += 1;
    }
    assert(digits.subrange(0, i - first) == digits);
    Ok(value)
}

/// The character that writes the digit `d`.
pub open spec fn digit_char(d: nat) -> char {
    if d == 0 {
        '0'
    } else if d == 1 {
        '1'
    } else if d == 2 {
        '2'
    } else if d == 3 {
        '3'
    } else if d == 4 {
        '4'
    } else if d == 5 {
        '5'
    } else if d == 6 {
        '6'
    } else if d == 7 {
        '7'
    } else if d == 8 {
        '8'
    } else {
        '9'
    }
}

/// `n` in decimal digits, without leading zeros.
pub open spec fn decimal_digits(n: nat) -> Seq<char>
    decreases n,
{
    if n < 10 {
        seq![digit_char(n)]
    } else {
        decimal_digits(n / 10).push(digit_char(n % 10))
    }
}

fn digit_of(d: u64) -> (c: char)
    requires
        d < 10,
    ensures
        c == digit_char(d as nat),
{
    if d == 0 {
        '0'
    } else if d == 1 {
        '1'
    } else if d == 2 {
        '2'
    } else if d == 3 {
        '3'
    } else if d == 4 {
        '4'
    } else if d == 5 {
        '5'
    } else if d == 6 {
        '6'
    } else if d == 7 {
        '7'
    } else if d == 8 {
        '8'
    } else {
        '9'
    }
}

/// The decimal text of `n`.
pub fn decimal_text(n: u64) -> (s: String)
    ensures
        s@ == decimal_digits(n as nat),
    decreases n,
{
    if n < 10 {
        let mut s = String::new();
        s.push(digit_of(n));
        assert(s@ == seq![digit_char(n as nat)]);
        s
    } else {
        let mut s = decimal_text(n / 10);
        s.push(digit_of(n % 10));
        s
    }
}

/// The decimal text of a number is made of digits and denotes that number.
pub proof fn lemma_decimal_digits(n: nat)
    ensures
        decimal_digits(n).len() > 0,
        all_digits(decimal_digits(n)),
        decimal_value(decimal_digits(n)) == n,
        numeric_value(decimal_digits(n)) == Some(n),
    decreases n,
{
    let s = decimal_digits(n);
    if n < 10 {
        assert(s.drop_last() == Seq::<char>::empty());
        assert(decimal_value(s.drop_last()) == 0);
    } else {
        lemma_decimal_digits(n / 10);
        assert(s.drop_last() == decimal_digits(n / 10));
    }
    assert(s[0] != '+');
}

/// A key made of any prefix, a `-` and the decimal text of `n` is ranked as `n`.
pub proof fn lemma_key_of_number(prefix: Seq<char>, n: u64)
    ensures
        numeric_order(prefix.push('-') + decimal_digits(n as nat)) == Ok::<
            u64,
            MalformedKeyError,
        >(n),
{
    let digits = decimal_digits(n as nat);
    let key = prefix.push('-') + digits;
    lemma_decimal_digits(n as nat);
    lemma_last_dash_before_digits(prefix.push('-'), digits);
    lemma_last_dash(prefix.push('-'));
    assert(last_dash(prefix.push('-')) == prefix.len());
    assert(key.subrange(prefix.len() as int + 1, key.len() as int) == digits);
}

/// Digits at the end of a text hold no `-`: the last one stands before them.
pub proof fn lemma_last_dash_before_digits(head: Seq<char>, digits: Seq<char>)
    requires
        all_digits(digits),
    ensures
        last_dash(head + digits) == last_dash(head),
    decreases digits.len(),
{
    if digits.len() == 0 {
        assert(head + digits == head);
    } else {
        let whole = head + digits;
        assert(whole.last() == digits.last());
        assert(is_digit(digits[digits.len() - 1]));
        assert(whole.drop_last() == head + digits.drop_last());
        lemma_last_dash_before_digits(head, digits.drop_last());
    }
}

} // verus!
