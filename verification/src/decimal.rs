//! Decimal numbers in text.

use vstd::prelude::*;

verus! {

/// One of the ten decimal digits.
pub open spec fn is_digit(c: char) -> bool {
    '0' <= c <= '9'
}

/// The number that a digit stands for.
pub open spec fn digit_value(c: char) -> nat {
    (c as u32 - '0' as u32) as nat
}

/// Every character is a decimal digit.
pub open spec fn all_digits(s: Seq<char>) -> bool {
    forall|i: int| 0 <= i < s.len() ==> is_digit(#[trigger] s[i])
}

/// The number that a run of digits writes, most significant digit first.
pub open spec fn digits_value(s: Seq<char>) -> nat
    decreases s.len(),
{
    if s.len() == 0 {
        0
    } else {
        digits_value(s.drop_last()) * 10 + digit_value(s.last())
    }
}

/// The number written by one or more digits, where it fits 32 bits.
pub open spec fn decimal_u32(s: Seq<char>) -> Option<u32> {
    if s.len() > 0 && all_digits(s) && digits_value(s) <= u32::MAX {
        Some(digits_value(s) as u32)
    } else {
        None
    }
}

/// The number written by one or more digits, where it is no more than `limit`.
pub open spec fn bounded_digits(s: Seq<char>, limit: nat) -> Option<u64> {
    if s.len() > 0 && all_digits(s) && digits_value(s) <= limit && limit <= u64::MAX {
        Some(digits_value(s) as u64)
    } else {
        None
    }
}

/// White space, as Unicode defines it.
pub open spec fn is_space(c: char) -> bool {
    let code = c as u32;
    ||| 0x09 <= code <= 0x0d
    ||| code == 0x20
    ||| code == 0x85
    ||| code == 0xa0
    ||| code == 0x1680
    ||| 0x2000 <= code <= 0x200a
    ||| code == 0x2028
    ||| code == 0x2029
    ||| code == 0x202f
    ||| code == 0x205f
    ||| code == 0x3000
}

/// The text without the white space at its two ends.
pub open spec fn trimmed(s: Seq<char>) -> Seq<char>
    decreases s.len(),
{
    if s.len() > 0 && is_space(s[0]) {
        trimmed(s.drop_first())
    } else if s.len() > 0 && is_space(s.last()) {
        trimmed(s.drop_last())
    } else {
        s
    }
}

/// The text without a sign in front.
pub open spec fn unsigned_part(s: Seq<char>) -> Seq<char> {
    if s.len() > 0 && (s[0] == '-' || s[0] == '+') {
        s.drop_first()
    } else {
        s
    }
}

/// The number written by an optional sign and one or more digits, where it
/// fits 64 bits.
pub open spec fn decimal_i64(s: Seq<char>) -> Option<i64> {
    let digits = unsigned_part(s);
    let value = if s.len() > 0 && s[0] == '-' {
        -digits_value(digits)
    } else {
        digits_value(digits) as int
    };
    if digits.len() > 0 && all_digits(digits) && i64::MIN <= value <= i64::MAX {
        Some(value as i64)
    } else {
        None
    }
}

/// Digits, among which one decimal point may stand, and at least one digit.
pub open spec fn is_measurement(s: Seq<char>) -> bool {
    &&& forall|i: int| 0 <= i < s.len() ==> is_digit(#[trigger] s[i]) || s[i] == '.'
    &&& exists|i: int| 0 <= i < s.len() && is_digit(#[trigger] s[i])
    &&& forall|i: int, j: int|
        0 <= i < j < s.len() ==> !(#[trigger] s[i] == '.' && #[trigger] s[j] == '.')
}

/// More digits never write a smaller number.
pub proof fn lemma_digits_value_grows(s: Seq<char>, shorter: int, longer: int)
    requires
        0 <= shorter <= longer <= s.len(),
    ensures
        digits_value(s.take(shorter)) <= digits_value(s.take(longer)),
    decreases longer - shorter,
{
    if shorter < longer {
        lemma_digits_value_grows(s, shorter, longer - 1);
        assert(s.take(longer).drop_last() =~= s.take(longer - 1));
    }
}

/// Whether `c` is a decimal digit.
pub fn char_is_digit(c: char) -> (digit: bool)
    ensures
        digit == is_digit(c),
{
    '0' <= c && c <= '9'
}

/// Reads the digits of `text` between the positions `from` and `to` as a
/// decimal number. An empty range, anything but a digit in it, and a number
/// above `limit` give `None`.
pub fn parse_digits(text: &str, from: usize, to: usize, limit: u64) -> (number: Option<u64>)
    requires
        from <= to <= text@.len(),
    ensures
        number == bounded_digits(text@.subrange(from as int, to as int), limit as nat),
{
    if from == to {
        return None;
    }
    let ghost digits = text@.subrange(from as int, to as int);
    let mut value: u128 = 0;
    let mut i: usize = from;
    while i < to
        invariant
            from <= i <= to <= text@.len(),
            digits == text@.subrange(from as int, to as int),
            all_digits(digits.take(i - from)),
            value == digits_value(digits.take(i - from)),
            value <= limit,
        decreases to - i,
    {
        let c = text.get_char(i);
        if !char_is_digit(c) {
            assert(digits[i - from] == c);
            return None;
        }
        let digit: u128 = (c as u32 - '0' as u32) as u128;
        proof {
            let longer = digits.take(i - from + 1);
            assert(longer.drop_last() =~= digits.take(i - from));
            assert(longer.last() == c);
            assert forall|k: int| 0 <= k < longer.len() implies is_digit(#[trigger] longer[k]) by {
                if k < i - from {
                    assert(digits.take(i - from)[k] == longer[k]);
                }
            }
        }
        value = value * 10 + digit;
        i += 1;
        if value > limit as u128 {
            proof {
                lemma_digits_value_grows(digits, i - from, to - from);
                assert(digits.take(to - from) =~= digits);
            }
            return None;
        }
    }
    assert(digits.take(to - from) =~= digits);
    Some(value as u64)
}

/// Reads an unsigned decimal number of one or more digits. Anything else,
/// and a number beyond 32 bits, gives `None`.
pub fn parse_u32(text: &str) -> (number: Option<u32>)
    ensures
        number == decimal_u32(text@),
{
    let count = text.unicode_len();
    assert(text@.subrange(0, count as int) =~= text@);
    match parse_digits(text, 0, count, u32::MAX as u64) {
        Some(value) => Some(value as u32),
        None => None,
    }
}

/// Whether `c` is white space.
pub fn char_is_space(c: char) -> (space: bool)
    ensures
        space == is_space(c),
{
    let code: u32 = c as u32;
    (0x09 <= code && code <= 0x0d) || code == 0x20 || code == 0x85 || code == 0xa0 || code
        == 0x1680 || (0x2000 <= code && code <= 0x200a) || code == 0x2028 || code == 0x2029
        || code == 0x202f || code == 0x205f || code == 0x3000
}

/// Reads a signed decimal number: white space around it is passed over, a
/// sign may stand before the digits, and there is at least one digit.
/// Anything else, and a number beyond 64 bits, gives `None`.
pub fn parse_i64(text: &str) -> (number: Option<i64>)
    ensures
        number == decimal_i64(trimmed(text@)),
{
    let count = text.unicode_len();
    let mut from: usize = 0;
    assert(text@.subrange(0, count as int) =~= text@);
    while from < count && char_is_space(text.get_char(from))
        invariant
            from <= count == text@.len(),
            trimmed(text@) == trimmed(text@.subrange(from as int, count as int)),
        decreases count - from,
    {
        assert(text@.subrange(from as int, count as int).drop_first() =~= text@.subrange(
            from + 1,
            count as int,
        ));
        from += 1;
    }
    let mut to: usize = count;
    while to > from && char_is_space(text.get_char(to - 1))
        invariant
            from <= to <= count == text@.len(),
            from < count ==> !is_space(text@[from as int]),
            trimmed(text@) == trimmed(text@.subrange(from as int, to as int)),
        decreases to,
    {
        assert(text@.subrange(from as int, to as int).drop_last() =~= text@.subrange(
            from as int,
            to - 1,
        ));
        to -= 1;
    }
    let ghost body = text@.subrange(from as int, to as int);
    assert(trimmed(body) == body);
    if from == to {
        return None;
    }
    let first = text.get_char(from);
    assert(body[0] == first);
    let signed = first == '-' || first == '+';
    let start: usize = if signed {
        from + 1
    } else {
        from
    };
    assert(unsigned_part(body) =~= text@.subrange(start as int, to as int));
    if first == '-' {
        match parse_digits(text, start, to, 0x8000_0000_0000_0000) {
            Some(magnitude) => {
                if magnitude == 0x8000_0000_0000_0000 {
                    Some(i64::MIN)
                } else {
                    Some(-(magnitude as i64))
                }
            },
            None => None,
        }
    } else {
        match parse_digits(text, start, to, 0x7fff_ffff_ffff_ffff) {
            Some(magnitude) => Some(magnitude as i64),
            None => None,
        }
    }
}

/// Whether `text` is a measurement as the sampling tool prints it: digits,
/// among which one decimal point may stand, and at least one digit.
pub fn is_measurement_text(text: &str) -> (valid: bool)
    ensures
        valid == is_measurement(text@),
{
    let count = text.unicode_len();
    let mut digits: bool = false;
    let mut point: bool = false;
    let mut i: usize = 0;
    while i < count
        invariant
            i <= count == text@.len(),
            forall|k: int| 0 <= k < i ==> is_digit(#[trigger] text@[k]) || text@[k] == '.',
            digits == (exists|k: int| 0 <= k < i && is_digit(#[trigger] text@[k])),
            point == (exists|k: int| 0 <= k < i && #[trigger] text@[k] == '.'),
            forall|j: int, k: int|
                0 <= j < k < i ==> !(#[trigger] text@[j] == '.' && #[trigger] text@[k] == '.'),
        decreases count - i,
    {
        let c = text.get_char(i);
        if c == '.' {
            if point {
                let ghost earlier = choose|k: int| 0 <= k < i && #[trigger] text@[k] == '.';
                assert(text@[earlier] == '.' && text@[i as int] == '.');
                return false;
            }
            point = true;
        } else if char_is_digit(c) {
            digits = true;
        } else {
            assert(!(is_digit(text@[i as int]) || text@[i as int] == '.'));
            return false;
        }
        i += 1;
    }
    digits
}

} // verus!
