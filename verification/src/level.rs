use crate::chars::{digit_char, digit_value, from_digit, is_digit, to_digit};
use vstd::prelude::*;

verus! {

/// The lowest height level that a cell can have.
pub const MIN_LEVEL: i8 = -50;

/// The highest height level that a cell can have.
pub const MAX_LEVEL: i8 = 50;

/// Whether a number is a height level: between `MIN_LEVEL` and `MAX_LEVEL`,
/// both included.
pub open spec fn level_in_range(level: int) -> bool {
    MIN_LEVEL <= level <= MAX_LEVEL
}

/// Tells whether `level` may be stored in a cell.
pub fn is_valid_level(level: i8) -> (valid: bool)
    ensures
        valid == level_in_range(level as int),
{
    MIN_LEVEL <= level && level <= MAX_LEVEL
}

/// Whether every character of a text is a decimal digit.
pub open spec fn all_digits(text: Seq<char>) -> bool {
    forall|i: int| 0 <= i < text.len() ==> is_digit(#[trigger] text[i])
}

/// The number that a run of decimal digits denotes, the empty run being 0.
pub open spec fn digits_value(digits: Seq<char>) -> int
    decreases digits.len(),
{
    if digits.len() == 0 {
        0
    } else {
        digits_value(digits.drop_last()) * 10 + digit_value(digits.last())
    }
}

/// Whether a literal begins with a sign.
pub open spec fn has_sign(literal: Seq<char>) -> bool {
    literal.len() > 0 && (literal[0] == '-' || literal[0] == '+')
}

/// What is left of a literal once its sign, if it has one, is taken off.
pub open spec fn unsigned_part(literal: Seq<char>) -> Seq<char> {
    if has_sign(literal) {
        literal.drop_first()
    } else {
        literal
    }
}

/// The number that a signed decimal literal denotes: an optional `+` or `-`
/// followed by one decimal digit or more, and nothing else. Any other text
/// denotes nothing.
pub open spec fn literal_value(literal: Seq<char>) -> Option<int> {
    let digits = unsigned_part(literal);
    if digits.len() == 0 || !all_digits(digits) {
        None
    } else if literal[0] == '-' {
        Some(-digits_value(digits))
    } else {
        Some(digits_value(digits))
    }
}

/// The height level that a literal denotes: its number, where that is a
/// height level.
pub open spec fn level_of_literal(literal: Seq<char>) -> Option<i8> {
    match literal_value(literal) {
        Some(value) if level_in_range(value) => Some(value as i8),
        _ => None,
    }
}

/// The decimal digits of a natural number, without leading zeros.
pub open spec fn decimal_digits(n: nat) -> Seq<char>
    decreases n,
{
    if n < 10 {
        seq![digit_char(n as int)]
    } else {
        decimal_digits(n / 10).push(digit_char((n % 10) as int))
    }
}

/// The decimal literal of an integer: its digits, after a `-` where it is
/// negative.
pub open spec fn decimal(value: int) -> Seq<char> {
    if value < 0 {
        seq!['-'] + decimal_digits((-value) as nat)
    } else {
        decimal_digits(value as nat)
    }
}

/// The token that stands for a height level in a pattern's text: its decimal
/// literal where that is a single character, and else the literal between
/// parentheses.
pub open spec fn level_token(level: i8) -> Seq<char> {
    let literal = decimal(level as int);
    if literal.len() == 1 {
        literal
    } else {
        seq!['('] + literal + seq![')']
    }
}

/// A run of digits denotes at least as much as any run that it starts with.
proof fn lemma_digits_value_grows(digits: Seq<char>, n: int)
    requires
        all_digits(digits),
        0 <= n <= digits.len(),
    ensures
        0 <= digits_value(digits.take(n)) <= digits_value(digits),
    decreases digits.len() - n,
{
    if n == digits.len() {
        assert(digits.take(n) == digits);
        lemma_digits_value_nonnegative(digits);
    } else {
        lemma_digits_value_grows(digits, n + 1);
        let longer = digits.take(n + 1);
        assert(longer.drop_last() == digits.take(n));
        assert(is_digit(longer.last()));
        lemma_digits_value_nonnegative(digits.take(n));
    }
}

proof fn lemma_digits_value_nonnegative(digits: Seq<char>)
    requires
        all_digits(digits),
    ensures
        0 <= digits_value(digits),
    decreases digits.len(),
{
    if digits.len() > 0 {
        lemma_digits_value_nonnegative(digits.drop_last());
    }
}

/// Reads a signed decimal literal as a height level. The result is `None`
/// where the text is no such literal and where its number is no height level.
pub fn parse_level(literal: &[char]) -> (level: Option<i8>)
    ensures
        level == level_of_literal(literal@),
{
    let n = literal.len();
    if n == 0 {
        return None;
    }
    let negative = literal[0] == '-';
    let start: usize = if negative || literal[0] == '+' {
        1
    } else {
        0
    };
    if start == n {
        return None;
    }
    let ghost digits = unsigned_part(literal@);
    assert(digits == literal@.subrange(start as int, n as int));
    let mut magnitude: i8 = 0;
    let mut i: usize = start;
    while i < n
        invariant
            start <= i <= n,
            n == literal@.len(),
            digits == unsigned_part(literal@),
            digits == literal@.subrange(start as int, n as int),
            all_digits(digits.take(i - start)),
            magnitude == digits_value(digits.take(i - start)),
            0 <= magnitude <= MAX_LEVEL,
        decreases n - i,
    {
        let ghost seen = digits.take(i - start);
        let ghost next = digits.take(i + 1 - start);
        assert(next.drop_last() == seen);
        assert(next.last() == literal@[i as int]);
        match to_digit(literal[i]) {
            None => {
                assert(!is_digit(digits[i - start]));
                return None;
            },
            Some(d) => {
                assert(all_digits(next)) by {
                    assert forall|j: int| 0 <= j < next.len() implies is_digit(
                        #[trigger] next[j],
                    ) by {
                        if j < seen.len() {
                            assert(next[j] == seen[j]);
                        }
                    }
                }
                let longer: i16 = magnitude as i16 * 10 + d as i16;
                if longer > MAX_LEVEL as i16 {
                    proof {
                        if all_digits(digits) {
                            lemma_digits_value_grows(digits, i + 1 - start);
                        }
                    }
                    return None;
                }
                magnitude = longer as i8;
            },
        }
        i += 1;
    }
    assert(digits.take(n - start) == digits);
    if negative {
        Some(-magnitude)
    } else {
        Some(magnitude)
    }
}

/// Appends the decimal literal of `level` to `out`.
fn push_decimal(out: &mut String, level: i8)
    ensures
        final(out)@ == old(out)@ + decimal(level as int),
{
    let magnitude: u8 = if level < 0 {
        out.push('-');
        (-(level as i16)) as u8
    } else {
        level as u8
    };
    let ghost signed = out@;
    assert(decimal(level as int) == if level < 0 {
        seq!['-'] + decimal_digits(magnitude as nat)
    } else {
        decimal_digits(magnitude as nat)
    });
    reveal_with_fuel(decimal_digits, 3);
    if magnitude >= 100 {
        out.push(from_digit(magnitude / 100));
        out.push(from_digit(magnitude / 10 % 10));
    } else if magnitude >= 10 {
        out.push(from_digit(magnitude / 10));
    }
    out.push(from_digit(magnitude % 10));
    assert(out@ == signed + decimal_digits(magnitude as nat));
    assert(out@ == old(out)@ + decimal(level as int));
}

/// Appends the token that stands for `level` to `out`.
pub fn push_level_token(out: &mut String, level: i8)
    ensures
        final(out)@ == old(out)@ + level_token(level),
{
    proof {
        lemma_single_character_literals(level as int);
    }
    if 0 <= level && level <= 9 {
        out.push(from_digit(level as u8));
        assert(decimal(level as int) == seq![digit_char(level as int)]);
        assert(out@ == old(out)@ + level_token(level));
    } else {
        out.push('(');
        push_decimal(out, level);
        out.push(')');
        assert(out@ == old(out)@ + level_token(level));
    }
}

/// The decimal digits of a number are digits, at least one of them, and
/// denote that number.
pub proof fn lemma_decimal_digits(n: nat)
    ensures
        decimal_digits(n).len() >= 1,
        decimal_digits(n).len() == 1 <==> n < 10,
        all_digits(decimal_digits(n)),
        digits_value(decimal_digits(n)) == n,
    decreases n,
{
    if n < 10 {
        let digits = decimal_digits(n);
        assert(digits.drop_last().len() == 0);
        assert(digits_value(digits) == digits_value(digits.drop_last()) * 10 + digit_value(
            digits.last(),
        ));
    } else {
        lemma_decimal_digits(n / 10);
        let shorter = decimal_digits(n / 10);
        let digits = decimal_digits(n);
        assert(digits.drop_last() == shorter);
        assert(digits_value(digits) == digits_value(shorter) * 10 + digit_value(digits.last()));
    }
}

/// The decimal literal of an integer is one character long exactly for the
/// integers 0 to 9.
pub proof fn lemma_single_character_literals(value: int)
    ensures
        decimal(value).len() == 1 <==> 0 <= value <= 9,
{
    if value < 0 {
        lemma_decimal_digits((-value) as nat);
    } else {
        lemma_decimal_digits(value as nat);
    }
}

/// Reading the decimal literal of an integer gives that integer back.
pub proof fn lemma_decimal_round_trip(value: int)
    ensures
        literal_value(decimal(value)) == Some(value),
{
    let literal = decimal(value);
    if value < 0 {
        let digits = decimal_digits((-value) as nat);
        lemma_decimal_digits((-value) as nat);
        assert(literal[0] == '-');
        assert(literal.drop_first() == digits);
    } else {
        lemma_decimal_digits(value as nat);
        assert(is_digit(literal[0]));
    }
}

/// Reading the decimal literal of a height level gives that level back.
pub proof fn lemma_level_round_trip(level: i8)
    requires
        level_in_range(level as int),
    ensures
        level_of_literal(decimal(level as int)) == Some(level),
{
    lemma_decimal_round_trip(level as int);
}

} // verus!
