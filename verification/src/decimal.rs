//! Unsigned decimal numbers as text: reading one from characters and writing
//! one out.

use vstd::prelude::*;

verus! {

/// Whether `c` is one of the ten decimal digits.
pub open spec fn is_digit(c: char) -> bool {
    '0' <= c && c <= '9'
}

/// The number that a decimal digit stands for.
pub open spec fn digit_value(c: char) -> int {
    c as u32 as int - 48
}

/// Whether every character is a decimal digit.
pub open spec fn all_digits(s: Seq<char>) -> bool {
    forall|i: int| 0 <= i < s.len() ==> is_digit(#[trigger] s[i])
}

/// The number written by a sequence of decimal digits, most significant first.
pub open spec fn decimal_value(s: Seq<char>) -> int
    decreases s.len(),
{
    if s.len() == 0 {
        0
    } else {
        decimal_value(s.drop_last()) * 10 + digit_value(s.last())
    }
}

/// The digits of a number text, after an optional leading plus sign.
pub open spec fn digits_of(s: Seq<char>) -> Seq<char> {
    if s.len() > 0 && s[0] == '+' {
        s.skip(1)
    } else {
        s
    }
}

/// The number that a text denotes: an optional plus sign, then one or more decimal
/// digits whose value fits in 64 bits. Anything else denotes no number.
pub open spec fn parsed_u64(s: Seq<char>) -> Option<u64> {
    let digits = digits_of(s);
    if digits.len() > 0 && all_digits(digits) && decimal_value(digits) <= u64::MAX {
        Some(decimal_value(digits) as u64)
    } else {
        None
    }
}

/// The decimal digits of a number, most significant first, without leading zeros
/// (the number zero is written as one digit).
pub open spec fn decimal_digits(n: nat) -> Seq<char>
    decreases n,
{
    if n < 10 {
        seq![digit_char(n)]
    } else {
        decimal_digits(n / 10).push(digit_char(n % 10))
    }
}

/// The digit that stands for a number below ten.
pub open spec fn digit_char(d: nat) -> char {
    if d == 0 {
        '0'
    } else if d == 1 {
        '1'
    } else if d == 2 {
        '2'
    } else if d == 3 {
        '3'
    } else if d == 4 {
        '4'
    } else if d == 5 {
        '5'
    } else if d == 6 {
        '6'
    } else if d == 7 {
        '7'
    } else if d == 8 {
        '8'
    } else {
        '9'
    }
}

/// A prefix of a digit sequence is worth no more than the whole.
pub proof fn lemma_prefix_value(s: Seq<char>, k: int)
    requires
        all_digits(s),
        0 <= k <= s.len(),
    ensures
        0 <= decimal_value(s.take(k)) <= decimal_value(s),
    decreases s.len() - k,
{
    if k == s.len() {
        assert(s.take(k) == s);
        lemma_value_nonnegative(s);
    } else {
        lemma_prefix_value(s, k + 1);
        let longer = s.take(k + 1);
        assert(longer.drop_last() == s.take(k));
        assert(longer.last() == s[k]);
        assert(is_digit(s[k]));
        lemma_value_nonnegative(s.take(k));
    }
}

/// A digit sequence is worth at least zero.
pub proof fn lemma_value_nonnegative(s: Seq<char>)
    requires
        all_digits(s),
    ensures
        0 <= decimal_value(s),
    decreases s.len(),
{
    if s.len() > 0 {
        lemma_value_nonnegative(s.drop_last());
        assert(is_digit(s.last()));
    }
}

/// Writing a number and reading it back gives the number.
pub proof fn lemma_digits_roundtrip(n: nat)
    ensures
        decimal_digits(n).len() > 0,
        all_digits(decimal_digits(n)),
        decimal_value(decimal_digits(n)) == n,
        decimal_digits(n)[0] != '+',
    decreases n,
{
    if n < 10 {
        let s = decimal_digits(n);
        assert(s.drop_last() == Seq::<char>::empty());
        assert(decimal_value(s.drop_last()) == 0);
    } else {
        lemma_digits_roundtrip(n / 10);
        let s = decimal_digits(n);
        assert(s.drop_last() == decimal_digits(n / 10));
        assert(s.last() == digit_char(n % 10));
        assert forall|i: int| 0 <= i < s.len() implies is_digit(#[trigger] s[i]) by {
            if i < s.len() - 1 {
                assert(s[i] == decimal_digits(n / 10)[i]);
            }
        }
    }
}

/// The text of a number denotes that number.
pub proof fn lemma_written_number_parses(n: u64)
    ensures
        parsed_u64(decimal_digits(n as nat)) == Some(n),
{
    lemma_digits_roundtrip(n as nat);
    assert(digits_of(decimal_digits(n as nat)) == decimal_digits(n as nat));
}

/// The value of a digit character, or `None` for any other character.
pub fn digit_of(c: char) -> (d: Option<u8>)
    ensures
        d is Some <==> is_digit(c),
        d matches Some(v) ==> v == digit_value(c) && v < 10,
{
    if c == '0' {
        Some(0)
    } else if c == '1' {
        Some(1)
    } else if c == '2' {
        Some(2)
    } else if c == '3' {
        Some(3)
    } else if c == '4' {
        Some(4)
    } else if c == '5' {
        Some(5)
    } else if c == '6' {
        Some(6)
    } else if c == '7' {
        Some(7)
    } else if c == '8' {
        Some(8)
    } else if c == '9' {
        Some(9)
    } else {
        None
    }
}

/// Reads an unsigned number: an optional plus sign, then decimal digits. Gives
/// `None` for an empty text, a character that is no digit, or a value above
/// `u64::MAX`.
pub fn parse_u64(chars: &Vec<char>) -> (n: Option<u64>)
    ensures
        n == parsed_u64(chars@),
{
    let len = chars.len();
    let start: usize = if len > 0 && chars[0] == '+' {
        1
    } else {
        0
    };
    let ghost digits = digits_of(chars@);
    assert(digits == chars@.skip(start as int));
    if start == len {
        return None;
    }
    let mut value: u64 = 0;
    let mut i: usize = start;
    while i < len
        invariant
            start <= i <= len,
            len == chars.len(),
            digits == digits_of(chars@),
            digits == chars@.skip(start as int),
            all_digits(digits.take(i - start)),
            value == decimal_value(digits.take(i - start)),
        decreases len - i,
    {
        let ghost before = digits.take(i - start);
        let ghost after = digits.take(i - start + 1);
        proof {
            assert(after.drop_last() == before);
            assert(after.last() == chars@[i as int]);
        }
        let digit = match digit_of(chars[i]) {
            Some(d) => d,
            None => {
                assert(digits[i - start] == chars@[i as int]);
                return None;
            },
        };
        proof {
            assert forall|k: int| 0 <= k < after.len() implies is_digit(#[trigger] after[k]) by {
                if k < after.len() - 1 {
                    assert(after[k] == before[k]);
                }
            }
        }
        let next = match value.checked_mul(10) {
            Some(tens) => tens.checked_add(digit as u64),
            None => None,
        };
        match next {
            Some(v) => {
                value = v;
            },
            None => {
                proof {
                    assert(decimal_value(after) > u64::MAX);
                    if all_digits(digits) {
                        lemma_prefix_value(digits, i - start + 1);
                    }
                }
                return None;
            },
        }
        i += 1;
    }
    assert(digits.take(len - start) == digits);
    Some(value)
}

/// Writes a number in decimal digits.
pub fn write_u64(n: u64) -> (digits: Vec<char>)
    ensures
        digits@ == decimal_digits(n as nat),
    decreases n,
{
    if n < 10 {
        let mut digits: Vec<char> = Vec::new();
        digits.push(digit_to_char(n as u8));
        assert(digits@ == seq![digit_char(n as nat)]);
        digits
    } else {
        let mut digits = write_u64(n / 10);
        digits.push(digit_to_char((n % 10) as u8));
        digits
    }
}

/// The digit character for a number below ten.
pub fn digit_to_char(d: u8) -> (c: char)
    requires
        d < 10,
    ensures
        c == digit_char(d as nat),
{
    if d == 0 {
        '0'
    } else if d == 1 {
        '1'
    } else if d == 2 {
        '2'
    } else if d == 3 {
        '3'
    } else if d == 4 {
        '4'
    } else if d == 5 {
        '5'
    } else if d == 6 {
        '6'
    } else if d == 7 {
        '7'
    } else if d == 8 {
        '8'
    } else {
        '9'
    }
}

} // verus!
