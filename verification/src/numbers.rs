//! Decimal and hexadecimal numbers in texts.

use vstd::prelude::*;

use crate::text::{chars_of, digit};

verus! {

broadcast use vstd::string::group_string_axioms;

/// Why a text is no number.
#[derive(Clone, Copy, Debug, PartialEq, Eq, Structural)]
pub enum NumberError {
    Empty,
    InvalidDigit,
    Overflow,
}

/// The text of each reason.
pub open spec fn number_error_text(e: NumberError) -> Seq<char> {
    match e {
        NumberError::Empty => "cannot parse integer from empty string"@,
        NumberError::InvalidDigit => "invalid digit found in string"@,
        NumberError::Overflow => "number too large to fit in target type"@,
    }
}

impl NumberError {
    /// The text of the reason.
    pub fn message(&self) -> (r: &'static str)
        ensures
            r@ == number_error_text(*self),
    {
        match self {
            NumberError::Empty => "cannot parse integer from empty string",
            NumberError::InvalidDigit => "invalid digit found in string",
            NumberError::Overflow => "number too large to fit in target type",
        }
    }
}

/// The value of a digit in a base of at most sixteen.
pub open spec fn digit_value(c: char, base: int) -> Option<int> {
    let v = if '0' <= c <= '9' {
        c as int - '0' as int
    } else if 'a' <= c <= 'f' {
        c as int - 'a' as int + 10
    } else if 'A' <= c <= 'F' {
        c as int - 'A' as int + 10
    } else {
        99
    };
    if v < base {
        Some(v)
    } else {
        None
    }
}

/// All characters are digits of the base.
pub open spec fn digits_of(s: Seq<char>, base: int) -> bool {
    forall|i: int| 0 <= i < s.len() ==> digit_value(#[trigger] s[i], base) is Some
}

/// The number that the digits of `s` write in the base.
pub open spec fn number_value(s: Seq<char>, base: int) -> int
    decreases s.len(),
{
    if s.len() == 0 {
        0
    } else {
        number_value(s.drop_last(), base) * base + digit_value(s.last(), base)->0
    }
}

/// `s` without a leading plus sign.
pub open spec fn without_plus(s: Seq<char>) -> Seq<char> {
    if s.len() > 0 && s[0] == '+' {
        s.skip(1)
    } else {
        s
    }
}

/// The number that a text writes in the base, up to `max`.
pub open spec fn unsigned_number(s: Seq<char>, base: int, max: int) -> Option<int> {
    let digits = without_plus(s);
    if digits.len() > 0 && digits_of(digits, base) && number_value(digits, base) <= max {
        Some(number_value(digits, base))
    } else {
        None
    }
}

/// The first `n` characters are digits, and the number that they write is too large.
pub open spec fn too_large(digits: Seq<char>, n: int, base: int, max: int) -> bool {
    0 <= n <= digits.len() && digits_of(digits.take(n), base) && number_value(
        digits.take(n),
        base,
    ) > max
}

/// The reason why a text is no number up to `max` in the base: what is wrong first, from the
/// left.
pub open spec fn unsigned_fault(s: Seq<char>, base: int, max: int) -> NumberError {
    if s.len() == 0 {
        NumberError::Empty
    } else if exists|n: int| too_large(without_plus(s), n, base, max) {
        NumberError::Overflow
    } else {
        NumberError::InvalidDigit
    }
}

proof fn value_is_nonnegative(s: Seq<char>, base: int)
    requires
        digits_of(s, base),
        base == 10 || base == 16,
    ensures
        number_value(s, base) >= 0,
    decreases s.len(),
{
    if s.len() > 0 {
        let front = s.drop_last();
        assert forall|i: int| 0 <= i < front.len() implies digit_value(#[trigger] front[i], base)
            is Some by {
            assert(front[i] == s[i]);
        }
        value_is_nonnegative(front, base);
        assert(digit_value(s[s.len() - 1], base) is Some);
        assert(number_value(front, base) * base >= 0) by (nonlinear_arith)
            requires
                number_value(front, base) >= 0,
                base >= 0,
        ;
    }
}

proof fn value_grows(s: Seq<char>, base: int, n: int)
    requires
        digits_of(s, base),
        base == 10 || base == 16,
        0 <= n <= s.len(),
    ensures
        number_value(s.take(n), base) <= number_value(s, base),
    decreases s.len(),
{
    if n < s.len() {
        let front = s.drop_last();
        assert forall|i: int| 0 <= i < front.len() implies digit_value(#[trigger] front[i], base)
            is Some by {
            assert(front[i] == s[i]);
        }
        assert(front.take(n) =~= s.take(n));
        value_grows(front, base, n);
        value_is_nonnegative(front, base);
        assert(digit_value(s[s.len() - 1], base) is Some);
        assert(number_value(front, base) <= number_value(front, base) * base) by (nonlinear_arith)
            requires
                number_value(front, base) >= 0,
                base >= 1,
        ;
    } else {
        assert(s.take(n) =~= s);
    }
}

fn value_of_digit(c: char, base: u64) -> (r: Option<u64>)
    requires
        base <= 16,
    ensures
        match r {
            Some(v) => digit_value(c, base as int) == Some(v as int) && v < base,
            None => digit_value(c, base as int) is None,
        },
{
    let code: u32 = c as u32;
    let v: u32 = if '0' <= c && c <= '9' {
        code - 48
    } else if 'a' <= c && c <= 'f' {
        code - 87
    } else if 'A' <= c && c <= 'F' {
        code - 55
    } else {
        99
    };
    if (v as u64) < base {
        Some(v as u64)
    } else {
        None
    }
}

proof fn large_from_here_on(digits: Seq<char>, base: int, max: int, n: int)
    requires
        base == 10 || base == 16,
        too_large(digits, n, base, max),
        digits_of(digits, base),
    ensures
        number_value(digits, base) > max,
{
    value_grows(digits, base, n);
}

/// The number that a text writes in base ten or sixteen, up to `max`.
#[verifier::loop_isolation(false)]
pub fn parse_unsigned(s: &str, base: u64, max: u64) -> (r: Result<u64, NumberError>)
    requires
        base == 10 || base == 16,
    ensures
        match r {
            Ok(v) => unsigned_number(s@, base as int, max as int) == Some(v as int),
            Err(e) => unsigned_number(s@, base as int, max as int) is None && e == unsigned_fault(
                s@,
                base as int,
                max as int,
            ),
        },
{
    let v = chars_of(s);
    if v.len() == 0 {
        return Err(NumberError::Empty);
    }
    let from: usize = if v[0] == '+' {
        1
    } else {
        0
    };
    let ghost digits = without_plus(s@);
    let ghost b = base as int;
    let ghost m = max as int;
    proof {
        assert(digits =~= v@.skip(from as int));
    }
    let mut value: u64 = 0;
    let mut i: usize = from;
    proof {
        assert(digits.take(0) =~= Seq::<char>::empty());
    }
    while i < v.len()
        invariant
            from <= i <= v@.len(),
            forall|j: int| 0 <= j < i - from ==> digit_value(#[trigger] digits[j], b) is Some,
            value == number_value(digits.take(i - from), b),
            value <= max,
            forall|n: int| 0 <= n <= i - from ==> !#[trigger] too_large(digits, n, b, m),
        decreases v@.len() - i,
    {
        let ghost k = i - from;
        let ghost before = number_value(digits.take(k), b);
        proof {
            assert(digits[k] == v@[i as int]);
            assert(digits.take(k + 1).drop_last() =~= digits.take(k));
        }
        match value_of_digit(v[i], base) {
            None => {
                proof {
                    assert(digit_value(digits[k], b) is None);
                    assert forall|n: int| !#[trigger] too_large(digits, n, b, m) by {
                        if k < n <= digits.len() {
                            assert(digits.take(n)[k] == digits[k]);
                        }
                    }
                }
                return Err(NumberError::InvalidDigit);
            },
            Some(d) => {
                let ghost after = number_value(digits.take(k + 1), b);
                proof {
                    assert(after == before * b + d);
                    assert(digits_of(digits.take(k + 1), b)) by {
                        assert forall|j: int| 0 <= j < k + 1 implies digit_value(
                            #[trigger] digits.take(k + 1)[j],
                            b,
                        ) is Some by {
                            assert(digits.take(k + 1)[j] == digits[j]);
                        }
                    }
                }
                let next: Option<u64> = match value.checked_mul(base) {
                    None => None,
                    Some(product) => product.checked_add(d),
                };
                match next {
                    Some(sum) if sum <= max => {
                        value = sum;
                    },
                    _ => {
                        proof {
                            assert(too_large(digits, k + 1, b, m));
                            if digits_of(digits, b) {
                                large_from_here_on(digits, b, m, k + 1);
                            }
                        }
                        return Err(NumberError::Overflow);
                    },
                }
            },
        }
        i = i + 1;
    }
    proof {
        assert(digits.take(digits.len() as int) =~= digits);
    }
    if from == v.len() {
        proof {
            assert forall|n: int| !#[trigger] too_large(digits, n, b, m) by {}
        }
        return Err(NumberError::InvalidDigit);
    }
    Ok(value)
}

/// The unsigned decimal number of 64 bits that a text writes.
pub open spec fn decimal_u64(s: Seq<char>) -> Option<u64> {
    match unsigned_number(s, 10, u64::MAX as int) {
        Some(v) => Some(v as u64),
        None => None,
    }
}

/// The unsigned decimal number of 64 bits that a text writes.
pub fn parse_u64(s: &str) -> (r: Option<u64>)
    ensures
        r == decimal_u64(s@),
{
    match parse_unsigned(s, 10, u64::MAX) {
        Ok(v) => Some(v),
        Err(_) => None,
    }
}

/// The unsigned decimal number of 32 bits that a text writes.
pub open spec fn decimal_u32(s: Seq<char>) -> Option<u32> {
    match unsigned_number(s, 10, u32::MAX as int) {
        Some(v) => Some(v as u32),
        None => None,
    }
}

/// The unsigned decimal number of 32 bits that a text writes.
pub fn parse_u32(s: &str) -> (r: Option<u32>)
    ensures
        r == decimal_u32(s@),
{
    match parse_unsigned(s, 10, u32::MAX as u64) {
        Ok(v) => Some(v as u32),
        Err(_) => None,
    }
}

/// The hexadecimal number of 16 bits that a text writes.
pub open spec fn hexadecimal_u16(s: Seq<char>) -> Option<u16> {
    match unsigned_number(s, 16, u16::MAX as int) {
        Some(v) => Some(v as u16),
        None => None,
    }
}

/// The hexadecimal number of 16 bits that a text writes.
pub fn parse_hex_u16(s: &str) -> (r: Option<u16>)
    ensures
        r == hexadecimal_u16(s@),
{
    match parse_unsigned(s, 16, u16::MAX as u64) {
        Ok(v) => Some(v as u16),
        Err(_) => None,
    }
}

/// The decimal digits of a number, without superfluous zeros.
pub open spec fn decimal_text(n: nat) -> Seq<char>
    decreases n,
{
    if n < 10 {
        seq![(48 + n) as char]
    } else {
        decimal_text(n / 10).push((48 + n % 10) as char)
    }
}

/// The decimal digits of a number.
pub fn decimal(n: u64) -> (r: String)
    ensures
        r@ == decimal_text(n as nat),
    decreases n,
{
    let last: char = (48 + (n % 10) as u8) as char;
    if n < 10 {
        let mut r = String::new();
        r.push(last);
        proof {
            assert(r@ =~= seq![(48 + n as nat) as char]);
        }
        r
    } else {
        let mut r = decimal(n / 10);
        r.push(last);
        r
    }
}

proof fn decimal_digits(n: nat)
    ensures
        decimal_text(n).len() > 0,
        digits_of(decimal_text(n), 10),
        number_value(decimal_text(n), 10) == n,
    decreases n,
{
    let s = decimal_text(n);
    if n < 10 {
        assert(s.drop_last() =~= Seq::<char>::empty());
        assert(number_value(s.drop_last(), 10) == 0);
        assert(s.last() as int == 48 + n);
    } else {
        decimal_digits(n / 10);
        let front = decimal_text(n / 10);
        assert(s.drop_last() =~= front);
        assert(s.last() as int == 48 + n % 10);
        assert forall|i: int| 0 <= i < s.len() implies digit_value(#[trigger] s[i], 10) is Some by {
            if i < front.len() {
                assert(s[i] == front[i]);
            }
        }
    }
}

/// A number that is written in decimal is read back as it was, with or without a plus sign,
/// where it is not too large.
pub proof fn written_numbers_are_read_back(n: nat, max: int)
    ensures
        unsigned_number(decimal_text(n), 10, max) == (if n <= max {
            Some(n as int)
        } else {
            None
        }),
        unsigned_number("+"@ + decimal_text(n), 10, max) == (if n <= max {
            Some(n as int)
        } else {
            None
        }),
{
    decimal_digits(n);
    let s = decimal_text(n);
    reveal_strlit("+");
    assert(("+"@ + s).skip(1) =~= s);
    assert(digit_value(s[0], 10) is Some);
}

/// A text with anything but digits in it, after a plus sign or not, is no number.
pub proof fn only_digits_are_read(s: Seq<char>, k: int, max: int)
    requires
        0 <= k < s.len(),
        !('0' <= s[k] <= '9'),
        k > 0 || s[0] != '+',
    ensures
        unsigned_number(s, 10, max) is None,
{
    let d = without_plus(s);
    let j = k - (s.len() - d.len());
    assert(d[j] == s[k]);
    assert(digit_value(d[j], 10) is None);
}

} // verus!
