//! Numbers as octal and decimal text.

use vstd::prelude::*;

use crate::text::chars_of;

verus! {

/// The ASCII digit for `d`, which is below ten.
pub open spec fn digit_byte(d: nat) -> u8 {
    (0x30 + d) as u8
}

/// The octal digits of `v`, most significant first, without leading zeros.
pub open spec fn octal_digits(v: nat) -> Seq<u8>
    decreases v,
{
    if v < 8 {
        seq![digit_byte(v)]
    } else {
        octal_digits(v / 8).push(digit_byte(v % 8))
    }
}

/// `n` times the ASCII digit zero.
pub open spec fn zero_digits(n: nat) -> Seq<u8> {
    Seq::new(n, |i: int| 0x30u8)
}

/// `v` in octal, padded with zeros on the left to at least `width` digits.
/// A number with more digits than `width` keeps them all.
pub open spec fn octal_field(v: nat, width: nat) -> Seq<u8> {
    let digits = octal_digits(v);
    if digits.len() >= width {
        digits
    } else {
        zero_digits((width - digits.len()) as nat) + digits
    }
}

/// Appends the octal digits of `v`.
fn push_octal_digits(buf: &mut Vec<u8>, v: u128)
    ensures
        final(buf)@ == old(buf)@ + octal_digits(v as nat),
    decreases v,
{
    if v >= 8 {
        push_octal_digits(buf, v / 8);
    }
    buf.push((0x30 + (v % 8)) as u8);
    assert(buf@ =~= old(buf)@ + octal_digits(v as nat));
}

/// Appends `v` in octal, zero-padded to at least `width` digits.
pub fn push_octal(buf: &mut Vec<u8>, v: u128, width: usize)
    ensures
        final(buf)@ == old(buf)@ + octal_field(v as nat, width as nat),
{
    let mut digits: Vec<u8> = Vec::new();
    push_octal_digits(&mut digits, v);
    assert(digits@ =~= octal_digits(v as nat));
    if digits.len() < width {
        let pad: usize = width - digits.len();
        let mut i: usize = 0;
        while i < pad
            invariant
                i <= pad,
                buf@ == old(buf)@ + zero_digits(i as nat),
            decreases pad - i,
        {
            buf.push(0x30u8);
            i += 1;
            assert(buf@ =~= old(buf)@ + zero_digits(i as nat));
        }
    }
    buf.extend_from_slice(digits.as_slice());
    assert(buf@ =~= old(buf)@ + octal_field(v as nat, width as nat));
}

/// The text of the decimal digit `d`.
pub open spec fn digit_text(d: nat) -> Seq<char> {
    if d == 0 {
        "0"@
    } else if d == 1 {
        "1"@
    } else if d == 2 {
        "2"@
    } else if d == 3 {
        "3"@
    } else if d == 4 {
        "4"@
    } else if d == 5 {
        "5"@
    } else if d == 6 {
        "6"@
    } else if d == 7 {
        "7"@
    } else if d == 8 {
        "8"@
    } else {
        "9"@
    }
}

/// `v` in decimal, without leading zeros.
pub open spec fn decimal_text(v: nat) -> Seq<char>
    decreases v,
{
    if v < 10 {
        digit_text(v)
    } else {
        decimal_text(v / 10) + digit_text(v % 10)
    }
}

/// The decimal digit `d` as text.
fn digit_str(d: u64) -> (s: &'static str)
    requires
        d < 10,
    ensures
        s@ == digit_text(d as nat),
{
    if d == 0 {
        "0"
    } else if d == 1 {
        "1"
    } else if d == 2 {
        "2"
    } else if d == 3 {
        "3"
    } else if d == 4 {
        "4"
    } else if d == 5 {
        "5"
    } else if d == 6 {
        "6"
    } else if d == 7 {
        "7"
    } else if d == 8 {
        "8"
    } else {
        "9"
    }
}

/// Appends `v` in decimal.
pub fn push_decimal(out: &mut String, v: u64)
    ensures
        final(out)@ == old(out)@ + decimal_text(v as nat),
    decreases v,
{
    if v >= 10 {
        push_decimal(out, v / 10);
    }
    vstd::string::StringExecFns::append(out, digit_str(v % 10));
    assert(out@ =~= old(out)@ + decimal_text(v as nat));
}

/// `v` in decimal.
pub fn decimal_string(v: u64) -> (s: String)
    ensures
        s@ == decimal_text(v as nat),
{
    let mut s = String::new();
    push_decimal(&mut s, v);
    assert(s@ =~= decimal_text(v as nat));
    s
}

/// Why a text is no number.
#[derive(Debug, Clone, Copy, PartialEq, Eq, Structural)]
pub enum NumberFailure {
    /// The text is empty.
    Empty,
    /// The text holds something else than digits after an optional `+`.
    InvalidDigit,
    /// The number is beyond the largest that is accepted.
    Overflow,
}

/// The value of a decimal digit.
pub open spec fn digit_value(c: char) -> Option<nat> {
    if '0' <= c && c <= '9' {
        Some((c as u32 - 0x30) as nat)
    } else {
        None
    }
}

/// The number that the first `k` characters of `digits` stand for, where no
/// number beyond `max` is accepted. The characters are read from the left,
/// and the first that is no digit, or that takes the number beyond `max`,
/// decides the failure.
pub open spec fn digits_value(digits: Seq<char>, k: int, max: nat) -> Result<nat, NumberFailure>
    decreases k,
{
    if k <= 0 {
        Ok(0)
    } else {
        match digits_value(digits, k - 1, max) {
            Err(failure) => Err(failure),
            Ok(value) => match digit_value(digits[k - 1]) {
                None => Err(NumberFailure::InvalidDigit),
                Some(d) => if value * 10 + d > max {
                    Err(NumberFailure::Overflow)
                } else {
                    Ok(value * 10 + d)
                },
            },
        }
    }
}

/// The number that a text stands for: decimal digits, after an optional `+`,
/// for a number up to `max`.
pub open spec fn number_of(text: Seq<char>, max: nat) -> Result<nat, NumberFailure> {
    if text.len() == 0 {
        Err(NumberFailure::Empty)
    } else {
        let digits = if text[0] == '+' {
            text.subrange(1, text.len() as int)
        } else {
            text
        };
        if digits.len() == 0 {
            Err(NumberFailure::InvalidDigit)
        } else {
            digits_value(digits, digits.len() as int, max)
        }
    }
}

/// What is said of a failure.
pub open spec fn failure_text(failure: NumberFailure) -> Seq<char> {
    match failure {
        NumberFailure::Empty => "cannot parse integer from empty string"@,
        NumberFailure::InvalidDigit => "invalid digit found in string"@,
        NumberFailure::Overflow => "number too large to fit in target type"@,
    }
}

/// Once a character has decided the failure, later characters change
/// nothing.
proof fn lemma_digits_failure_stays(digits: Seq<char>, j: int, k: int, max: nat)
    requires
        0 <= j <= k,
    ensures
        digits_value(digits, j, max) is Err ==> digits_value(digits, k, max) == digits_value(
            digits,
            j,
            max,
        ),
    decreases k - j,
{
    if j < k {
        lemma_digits_failure_stays(digits, j, k - 1, max);
    }
}

/// Reads a number up to `max` from decimal text.
pub fn parse_number(text: &str, max: u64) -> (result: Result<u64, NumberFailure>)
    ensures
        match number_of(text@, max as nat) {
            Ok(value) => result == Ok::<u64, NumberFailure>(value as u64),
            Err(failure) => result == Err::<u64, NumberFailure>(failure),
        },
{
    let chars = chars_of(text);
    if chars.len() == 0 {
        return Err(NumberFailure::Empty);
    }
    let first: usize = if chars[0] == '+' {
        1
    } else {
        0
    };
    if first == chars.len() {
        return Err(NumberFailure::InvalidDigit);
    }
    let ghost digits = text@.subrange(first as int, text@.len() as int);
    let mut value: u64 = 0;
    let mut i: usize = first;
    while i < chars.len()
        invariant
            first <= i <= chars.len(),
            first < chars.len(),
            chars@ == text@,
            first == (if text@[0] == '+' {
                1int
            } else {
                0int
            }),
            digits == text@.subrange(first as int, text@.len() as int),
            value <= max,
            digits_value(digits, i - first, max as nat) == Ok::<nat, NumberFailure>(value as nat),
        decreases chars.len() - i,
    {
        let c: char = chars[i];
        assert(digits[i - first] == c);
        proof {
            lemma_digits_failure_stays(digits, i - first + 1, digits.len() as int, max as nat);
            assert(text@.subrange(0, text@.len() as int) =~= text@);
        }
        if !(c >= '0' && c <= '9') {
            return Err(NumberFailure::InvalidDigit);
        }
        let d: u64 = (c as u32 - 0x30) as u64;
        if d > max || value > (max - d) / 10 {
            return Err(NumberFailure::Overflow);
        }
        value = value * 10 + d;
        i += 1;
    }
    assert(text@.subrange(0, text@.len() as int) =~= text@);
    Ok(value)
}

/// The text of a failure.
pub fn failure_message(failure: &NumberFailure) -> (message: &'static str)
    ensures
        message@ == failure_text(*failure),
{
    match failure {
        NumberFailure::Empty => "cannot parse integer from empty string",
        NumberFailure::InvalidDigit => "invalid digit found in string",
        NumberFailure::Overflow => "number too large to fit in target type",
    }
}

/// The character of the decimal digit `d`.
pub open spec fn digit_char(d: nat) -> char {
    if d == 0 {
        '0'
    } else if d == 1 {
        '1'
    } else if d == 2 {
        '2'
    } else if d == 3 {
        '3'
    } else if d == 4 {
        '4'
    } else if d == 5 {
        '5'
    } else if d == 6 {
        '6'
    } else if d == 7 {
        '7'
    } else if d == 8 {
        '8'
    } else {
        '9'
    }
}

/// The text of a digit is its one character, which stands for the digit.
pub proof fn lemma_digit_text(d: nat)
    requires
        d < 10,
    ensures
        digit_text(d) == seq![digit_char(d)],
        digit_value(digit_char(d)) == Some(d),
        digit_char(d) != '+',
{
    reveal_strlit("0");
    reveal_strlit("1");
    reveal_strlit("2");
    reveal_strlit("3");
    reveal_strlit("4");
    reveal_strlit("5");
    reveal_strlit("6");
    reveal_strlit("7");
    reveal_strlit("8");
    reveal_strlit("9");
    assert(digit_text(d) =~= seq![digit_char(d)]);
}

/// The number that the first characters stand for depends on them alone.
proof fn lemma_digits_value_same(a: Seq<char>, b: Seq<char>, k: int, max: nat)
    requires
        0 <= k <= a.len(),
        k <= b.len(),
        forall|i: int| 0 <= i < k ==> a[i] == b[i],
    ensures
        digits_value(a, k, max) == digits_value(b, k, max),
    decreases k,
{
    if k > 0 {
        lemma_digits_value_same(a, b, k - 1, max);
    }
}

proof fn lemma_decimal_digits(n: nat, max: nat)
    requires
        n <= max,
    ensures
        decimal_text(n).len() >= 1,
        decimal_text(n)[0] != '+',
        digits_value(decimal_text(n), decimal_text(n).len() as int, max) == Ok::<
            nat,
            NumberFailure,
        >(n),
    decreases n,
{
    lemma_digit_text(n % 10);
    if n < 10 {
        assert(digits_value(decimal_text(n), 0, max) == Ok::<nat, NumberFailure>(0));
    } else {
        let head = decimal_text(n / 10);
        let text = decimal_text(n);
        lemma_decimal_digits(n / 10, max);
        assert(text =~= head.push(digit_char(n % 10)));
        lemma_digits_value_same(head, text, head.len() as int, max);
        assert(text[head.len() as int] == digit_char(n % 10));
        assert(text[0] == head[0]);
    }
}

/// A number that is written in decimal reads back as itself.
pub proof fn lemma_number_of_decimal(n: nat, max: nat)
    requires
        n <= max,
    ensures
        number_of(decimal_text(n), max) == Ok::<nat, NumberFailure>(n),
{
    lemma_decimal_digits(n, max);
}

} // verus!
