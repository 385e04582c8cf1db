//! Decimal numerals: what a string of digits denotes, how a number is
//! written, and executable conversions in both directions.

use vstd::prelude::*;

verus! {

/// Why a piece of text does not denote a number of the wanted type.
#[derive(Clone, Copy, Debug, PartialEq, Eq, Structural)]
pub enum NumberError {
    /// The text is empty.
    Empty,
    /// A character that is no decimal digit stands where a digit is needed.
    InvalidDigit,
    /// The digits denote a number above the largest allowed value.
    TooLarge,
    /// The digits denote a number below the smallest allowed value.
    TooSmall,
}

/// `c` is one of the characters `0` to `9`.
pub open spec fn is_digit(c: char) -> bool {
    '0' <= c && c <= '9'
}

/// The number that the digit `c` stands for.
pub open spec fn digit_value(c: char) -> nat
    recommends
        is_digit(c),
{
    (c as u32 - '0' as u32) as nat
}

/// The digit that stands for `d`.
pub open spec fn digit_char(d: nat) -> char
    recommends
        d < 10,
{
    (('0' as u32) + d) as char
}

/// Every character of `s` is a decimal digit.
pub open spec fn all_digits(s: Seq<char>) -> bool {
    forall|i: int| 0 <= i < s.len() ==> is_digit(#[trigger] s[i])
}

/// The number that a string of digits denotes, most significant digit first.
pub open spec fn value_of(s: Seq<char>) -> nat
    decreases s.len(),
{
    if s.len() == 0 {
        0
    } else {
        value_of(s.drop_last()) * 10 + digit_value(s.last())
    }
}

/// Reading `s` from the left, digit by digit, with `limit` as the largest
/// value allowed: the value, or the first thing that goes wrong.
pub open spec fn magnitude(s: Seq<char>, limit: nat) -> Result<nat, NumberError>
    decreases s.len(),
{
    if s.len() == 0 {
        Ok(0)
    } else {
        match magnitude(s.drop_last(), limit) {
            Err(e) => Err(e),
            Ok(v) => if !is_digit(s.last()) {
                Err(NumberError::InvalidDigit)
            } else if v * 10 + digit_value(s.last()) > limit {
                Err(NumberError::TooLarge)
            } else {
                Ok(v * 10 + digit_value(s.last()))
            },
        }
    }
}

/// A reading succeeds exactly on digits whose value is within the limit, and
/// then yields that value.
pub proof fn magnitude_is_value(s: Seq<char>, limit: nat)
    ensures
        magnitude(s, limit) is Ok <==> all_digits(s) && value_of(s) <= limit,
        magnitude(s, limit) is Ok ==> magnitude(s, limit) == Ok::<nat, NumberError>(value_of(s)),
    decreases s.len(),
{
    if s.len() > 0 {
        let head = s.drop_last();
        magnitude_is_value(head, limit);
        if all_digits(s) {
            assert forall|i: int| 0 <= i < head.len() implies is_digit(#[trigger] head[i]) by {
                assert(head[i] == s[i]);
            }
        }
        if all_digits(head) && is_digit(s.last()) {
            assert forall|i: int| 0 <= i < s.len() implies is_digit(#[trigger] s[i]) by {
                if i < head.len() {
                    assert(head[i] == s[i]);
                }
            }
        }
    }
}

/// Whether `c` is a decimal digit.
pub fn is_digit_char(c: char) -> (b: bool)
    ensures
        b == is_digit(c),
{
    '0' <= c && c <= '9'
}

/// Reads a run of digits as a number no larger than `limit`.
pub fn parse_magnitude(digits: &[char], limit: u64) -> (r: Result<u64, NumberError>)
    ensures
        match magnitude(digits@, limit as nat) {
            Ok(v) => r == Ok::<u64, NumberError>(v as u64),
            Err(e) => r == Err::<u64, NumberError>(e),
        },
{
    let mut acc: u64 = 0;
    let mut i: usize = 0;
    while i < digits.len()
        invariant
            0 <= i <= digits@.len(),
            acc <= limit,
            magnitude(digits@.take(i as int), limit as nat) == Ok::<nat, NumberError>(acc as nat),
        decreases digits@.len() - i,
    {
        let c: char = digits[i];
        proof {
            let next = digits@.take(i + 1);
            assert(next.drop_last() =~= digits@.take(i as int));
            assert(next.last() == c);
            stays_failed(digits@, i + 1, limit as nat);
        }
        if !is_digit_char(c) {
            return Err(NumberError::InvalidDigit);
        }
        let d: u64 = (c as u32 - '0' as u32) as u64;
        if limit < d || acc > (limit - d) / 10 {
            assert(acc * 10 + d > limit) by (nonlinear_arith)
                requires
                    limit < d || acc > (limit - d) / 10,
            ;
            return Err(NumberError::TooLarge);
        }
        assert(acc * 10 + d <= limit) by (nonlinear_arith)
            requires
                acc <= (limit - d) / 10,
                d <= limit,
        ;
        acc = acc * 10 + d;
        i = i + 1;
    }
    proof {
        assert(digits@.take(i as int) =~= digits@);
    }
    Ok(acc)
}

/// Once a prefix fails to read, the whole string fails the same way.
pub proof fn stays_failed(s: Seq<char>, k: int, limit: nat)
    requires
        0 <= k <= s.len(),
    ensures
        magnitude(s.take(k), limit) is Err ==> magnitude(s, limit) == magnitude(s.take(k), limit),
    decreases s.len() - k,
{
    if k < s.len() {
        stays_failed(s, k + 1, limit);
        assert(s.take(k + 1).drop_last() =~= s.take(k));
    } else {
        assert(s.take(k) =~= s);
    }
}

/// `c` is a plus or a minus sign.
pub open spec fn is_sign(c: char) -> bool {
    c == '+' || c == '-'
}

/// What a text denotes as an unsigned number no larger than `limit`: an
/// optional plus sign, then digits.
pub open spec fn unsigned_reading(s: Seq<char>, limit: nat) -> Result<nat, NumberError> {
    if s.len() == 0 {
        Err(NumberError::Empty)
    } else if s.len() == 1 && is_sign(s[0]) {
        Err(NumberError::InvalidDigit)
    } else if s[0] == '+' {
        magnitude(s.skip(1), limit)
    } else {
        magnitude(s, limit)
    }
}

/// What a text denotes as a signed number between `min` and `max`: an
/// optional sign, then digits.
pub open spec fn signed_reading(s: Seq<char>, min: int, max: int) -> Result<int, NumberError>
    recommends
        min <= 0 <= max,
{
    if s.len() == 0 {
        Err(NumberError::Empty)
    } else if s.len() == 1 && is_sign(s[0]) {
        Err(NumberError::InvalidDigit)
    } else if s[0] == '-' {
        match magnitude(s.skip(1), (-min) as nat) {
            Ok(v) => Ok(-(v as int)),
            Err(NumberError::TooLarge) => Err(NumberError::TooSmall),
            Err(e) => Err(e),
        }
    } else if s[0] == '+' {
        match magnitude(s.skip(1), max as nat) {
            Ok(v) => Ok(v as int),
            Err(e) => Err(e),
        }
    } else {
        match magnitude(s, max as nat) {
            Ok(v) => Ok(v as int),
            Err(e) => Err(e),
        }
    }
}

/// Reads `text` as an unsigned number no larger than `limit`.
pub fn parse_unsigned(text: &[char], limit: u64) -> (r: Result<u64, NumberError>)
    ensures
        match unsigned_reading(text@, limit as nat) {
            Ok(v) => r == Ok::<u64, NumberError>(v as u64),
            Err(e) => r == Err::<u64, NumberError>(e),
        },
{
    let n: usize = text.len();
    if n == 0 {
        return Err(NumberError::Empty);
    }
    let first: char = text[0];
    if n == 1 && (first == '+' || first == '-') {
        return Err(NumberError::InvalidDigit);
    }
    if first == '+' {
        let rest: &[char] = vstd::slice::slice_subrange(text, 1, n);
        assert(rest@ =~= text@.skip(1));
        parse_magnitude(rest, limit)
    } else {
        parse_magnitude(text, limit)
    }
}

/// Reads `text` as a signed number between `min` and `max`.
pub fn parse_signed(text: &[char], min: i64, max: i64) -> (r: Result<i64, NumberError>)
    requires
        min <= 0 <= max,
    ensures
        match signed_reading(text@, min as int, max as int) {
            Ok(v) => r == Ok::<i64, NumberError>(v as i64),
            Err(e) => r == Err::<i64, NumberError>(e),
        },
{
    let n: usize = text.len();
    if n == 0 {
        return Err(NumberError::Empty);
    }
    let first: char = text[0];
    if n == 1 && (first == '+' || first == '-') {
        return Err(NumberError::InvalidDigit);
    }
    if first == '-' {
        let rest: &[char] = vstd::slice::slice_subrange(text, 1, n);
        assert(rest@ =~= text@.skip(1));
        let bound: u64 = if min == i64::MIN {
            9223372036854775808u64
        } else {
            (-min) as u64
        };
        match parse_magnitude(rest, bound) {
            Ok(v) => {
                if v == 9223372036854775808u64 {
                    Ok(i64::MIN)
                } else {
                    Ok(-(v as i64))
                }
            },
            Err(NumberError::TooLarge) => Err(NumberError::TooSmall),
            Err(e) => Err(e),
        }
    } else if first == '+' {
        let rest: &[char] = vstd::slice::slice_subrange(text, 1, n);
        assert(rest@ =~= text@.skip(1));
        match parse_magnitude(rest, max as u64) {
            Ok(v) => Ok(v as i64),
            Err(e) => Err(e),
        }
    } else {
        match parse_magnitude(text, max as u64) {
            Ok(v) => Ok(v as i64),
            Err(e) => Err(e),
        }
    }
}

/// How a number is written in decimal, without leading zeros.
pub open spec fn decimal_repr(n: nat) -> Seq<char>
    decreases n,
{
    if n < 10 {
        seq![digit_char(n)]
    } else {
        decimal_repr(n / 10).push(digit_char(n % 10))
    }
}

/// How a signed number is written in decimal: a minus sign before the digits
/// of a negative one.
pub open spec fn signed_repr(n: int) -> Seq<char> {
    if n < 0 {
        seq!['-'] + decimal_repr((-n) as nat)
    } else {
        decimal_repr(n as nat)
    }
}

/// Appends the decimal digits of `n` to `out`.
pub fn render_into(n: u64, out: &mut Vec<char>)
    ensures
        final(out)@ == old(out)@ + decimal_repr(n as nat),
    decreases n,
{
    if n >= 10 {
        render_into(n / 10, out);
    }
    let d: u32 = (n % 10) as u32;
    let c: char = char_of_digit(d);
    out.push(c);
    assert(out@ =~= old(out)@ + decimal_repr(n as nat));
}

/// The decimal digits of `n`.
pub fn render(n: u64) -> (out: Vec<char>)
    ensures
        out@ == decimal_repr(n as nat),
{
    let mut out: Vec<char> = Vec::new();
    render_into(n, &mut out);
    assert(out@ =~= decimal_repr(n as nat));
    out
}

/// The decimal digits of `n`, after a minus sign where `n` is negative.
pub fn render_signed(n: i64) -> (out: Vec<char>)
    ensures
        out@ == signed_repr(n as int),
{
    let mut out: Vec<char> = Vec::new();
    if n < 0 {
        out.push('-');
        let m: u64 = if n == i64::MIN {
            9223372036854775808u64
        } else {
            (-n) as u64
        };
        render_into(m, &mut out);
        assert(out@ =~= signed_repr(n as int));
    } else {
        render_into(n as u64, &mut out);
        assert(out@ =~= signed_repr(n as int));
    }
    out
}

/// The digit character for a number below ten.
pub fn char_of_digit(d: u32) -> (c: char)
    requires
        d < 10,
    ensures
        c == digit_char(d as nat),
        is_digit(c),
        digit_value(c) == d,
{
    let c: char = match d {
        0 => '0',
        1 => '1',
        2 => '2',
        3 => '3',
        4 => '4',
        5 => '5',
        6 => '6',
        7 => '7',
        8 => '8',
        _ => '9',
    };
    c
}

/// Writing a number and reading it back gives the number: the digits of `n`
/// are all digits, start with no zero unless `n` is zero, and denote `n`.
pub proof fn repr_denotes(n: nat)
    ensures
        all_digits(decimal_repr(n)),
        value_of(decimal_repr(n)) == n,
        decimal_repr(n).len() >= 1,
        n > 0 ==> decimal_repr(n)[0] != '0',
    decreases n,
{
    if n >= 10 {
        repr_denotes(n / 10);
        let head = decimal_repr(n / 10);
        let whole = decimal_repr(n);
        assert(whole.drop_last() =~= head);
        assert(whole.last() == digit_char(n % 10));
        assert forall|i: int| 0 <= i < whole.len() implies is_digit(#[trigger] whole[i]) by {
            if i < head.len() {
                assert(whole[i] == head[i]);
            }
        }
        assert(whole[0] == head[0]);
    } else {
        let whole = decimal_repr(n);
        assert(whole.drop_last() =~= Seq::<char>::empty());
        assert(value_of(whole.drop_last()) == 0);
    }
}

/// A number within the limit is read back from its own digits.
pub proof fn repr_reads_back(n: nat, limit: nat)
    requires
        n <= limit,
    ensures
        unsigned_reading(decimal_repr(n), limit) == Ok::<nat, NumberError>(n),
{
    repr_denotes(n);
    magnitude_is_value(decimal_repr(n), limit);
}

/// The wording for each way in which a text fails to denote a number.
pub open spec fn error_text(e: NumberError) -> Seq<char> {
    match e {
        NumberError::Empty => "cannot parse integer from empty string"@,
        NumberError::InvalidDigit => "invalid digit found in string"@,
        NumberError::TooLarge => "number too large to fit in target type"@,
        NumberError::TooSmall => "number too small to fit in target type"@,
    }
}

impl NumberError {
    /// The wording for this failure.
    pub fn describe(&self) -> (s: &'static str)
        ensures
            s@ == error_text(*self),
    {
        match self {
            NumberError::Empty => "cannot parse integer from empty string",
            NumberError::InvalidDigit => "invalid digit found in string",
            NumberError::TooLarge => "number too large to fit in target type",
            NumberError::TooSmall => "number too small to fit in target type",
        }
    }
}

/// Whether every character of `s` is a decimal digit.
pub fn all_digit_chars(s: &[char]) -> (b: bool)
    ensures
        b == all_digits(s@),
{
    let mut i: usize = 0;
    while i < s.len()
        invariant
            0 <= i <= s@.len(),
            forall|j: int| 0 <= j < i ==> is_digit(#[trigger] s@[j]),
        decreases s@.len() - i,
    {
        if !is_digit_char(s[i]) {
            return false;
        }
        i = i + 1;
    }
    true
}

/// A text that starts with no minus sign denotes no negative number.
pub proof fn unsigned_text_is_not_negative(s: Seq<char>, min: int, max: int)
    requires
        min <= 0 <= max,
        s.len() == 0 || s[0] != '-',
    ensures
        signed_reading(s, min, max) is Ok ==> signed_reading(s, min, max)->Ok_0 >= 0,
{
}

} // verus!
