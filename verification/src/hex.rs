//! The text form of a 128-bit identifier: thirty-two lower-case hexadecimal
//! digits, most significant first.

use vstd::prelude::*;

verus! {

/// How many digits the text of an identifier has.
pub const TEXT_LEN: usize = 32;

/// The character that stands for a digit below sixteen.
pub open spec fn digit_char(digit: nat) -> u8 {
    if digit < 10 {
        (0x30 + digit) as u8
    } else {
        (0x57 + digit) as u8
    }
}

/// The digit that a character stands for, if it is one of `0-9a-f`.
pub open spec fn digit_value(character: u8) -> Option<nat> {
    if 0x30 <= character <= 0x39 {
        Some((character - 0x30) as nat)
    } else if 0x61 <= character <= 0x66 {
        Some((character - 0x57) as nat)
    } else {
        None
    }
}

/// The last `count` hexadecimal digits of `value`, most significant first.
pub open spec fn hex_digits(value: nat, count: nat) -> Seq<u8>
    decreases count,
{
    if count == 0 {
        Seq::empty()
    } else {
        hex_digits(value / 16, (count - 1) as nat).push(digit_char(value % 16))
    }
}

/// The number that a run of hexadecimal digits denotes, if every character
/// is a digit. The empty run denotes zero.
pub open spec fn hex_value(text: Seq<u8>) -> Option<nat>
    decreases text.len(),
{
    if text.len() == 0 {
        Some(0)
    } else {
        match (hex_value(text.drop_last()), digit_value(text.last())) {
            (Some(high), Some(low)) => Some(high * 16 + low),
            _ => None,
        }
    }
}

/// Sixteen to the power `exponent`.
pub open spec fn sixteen_to(exponent: nat) -> nat
    decreases exponent,
{
    if exponent == 0 {
        1
    } else {
        16 * sixteen_to((exponent - 1) as nat)
    }
}

/// The text of an identifier.
pub open spec fn identifier_text(value: u128) -> Seq<u8> {
    hex_digits(value as nat, TEXT_LEN as nat)
}

/// The identifier that a text denotes: the text must be exactly thirty-two
/// digits of `0-9a-f`.
pub open spec fn parsed_identifier(text: Seq<u8>) -> Option<u128> {
    if text.len() != TEXT_LEN {
        None
    } else {
        match hex_value(text) {
            Some(value) => Some(value as u128),
            None => None,
        }
    }
}

/// A run of hexadecimal digits has as many characters as were asked for, and
/// each of them is one of `0-9a-f`.
pub proof fn lemma_hex_digits_shape(value: nat, count: nat)
    ensures
        hex_digits(value, count).len() == count,
        forall|i: int|
            0 <= i < count ==> digit_value(#[trigger] hex_digits(value, count)[i]) is Some,
    decreases count,
{
    if count > 0 {
        lemma_hex_digits_shape(value / 16, (count - 1) as nat);
    }
}

/// The powers of sixteen grow with the exponent.
pub proof fn lemma_sixteen_to_grows(smaller: nat, larger: nat)
    requires
        smaller <= larger,
    ensures
        0 < sixteen_to(smaller) <= sixteen_to(larger),
    decreases larger,
{
    if larger == 0 {
    } else if smaller == larger {
        lemma_sixteen_to_grows((smaller - 1) as nat, (larger - 1) as nat);
    } else {
        lemma_sixteen_to_grows(smaller, (larger - 1) as nat);
    }
}

/// Sixteen to the thirty-second power is two to the hundred and
/// twenty-eighth: one more than the largest 128-bit number.
pub proof fn lemma_sixteen_to_text_len()
    ensures
        sixteen_to(TEXT_LEN as nat) == u128::MAX + 1,
{
    reveal_with_fuel(sixteen_to, 33);
}

/// The number that a run of digits denotes is below sixteen to the power of
/// its length.
pub proof fn lemma_hex_value_bound(text: Seq<u8>)
    requires
        hex_value(text) is Some,
    ensures
        hex_value(text)->0 < sixteen_to(text.len()),
    decreases text.len(),
{
    if text.len() > 0 {
        lemma_hex_value_bound(text.drop_last());
    }
}

/// A run of characters with a non-digit among its first `end` denotes no number.
pub proof fn lemma_hex_value_prefix(text: Seq<u8>, end: int)
    requires
        0 <= end <= text.len(),
        hex_value(text.subrange(0, end)) is None,
    ensures
        hex_value(text) is None,
    decreases text.len(),
{
    if end < text.len() {
        assert(text.drop_last().subrange(0, end) =~= text.subrange(0, end));
        lemma_hex_value_prefix(text.drop_last(), end);
    } else {
        assert(text.subrange(0, end) =~= text);
    }
}

/// Reading back the digits of a number gives the number, if the digits were
/// enough to hold it.
pub proof fn lemma_hex_round_trip(value: nat, count: nat)
    requires
        value < sixteen_to(count),
    ensures
        hex_value(hex_digits(value, count)) == Some(value),
    decreases count,
{
    if count > 0 {
        let shorter = hex_digits(value / 16, (count - 1) as nat);
        lemma_hex_round_trip(value / 16, (count - 1) as nat);
        assert(hex_digits(value, count).drop_last() =~= shorter);
        assert(hex_digits(value, count).last() == digit_char(value % 16));
    }
}

/// Writing out the number that a run of digits denotes gives the run back.
pub proof fn lemma_hex_canonical(text: Seq<u8>)
    requires
        hex_value(text) is Some,
    ensures
        hex_digits(hex_value(text)->0, text.len()) == text,
    decreases text.len(),
{
    if text.len() > 0 {
        lemma_hex_canonical(text.drop_last());
        let high = hex_value(text.drop_last())->0;
        let low = digit_value(text.last())->0;
        assert((high * 16 + low) / 16 == high);
        assert((high * 16 + low) % 16 == low);
        assert(digit_char(low) == text.last());
        assert(hex_digits(high * 16 + low, text.len()) =~= text);
    }
}

/// Parsing the text of an identifier gives the identifier.
pub proof fn lemma_parse_inverts_text(value: u128)
    ensures
        parsed_identifier(identifier_text(value)) == Some(value),
{
    lemma_sixteen_to_text_len();
    lemma_hex_digits_shape(value as nat, TEXT_LEN as nat);
    lemma_hex_round_trip(value as nat, TEXT_LEN as nat);
}

/// A text that parses is the text of the identifier it parses to: every
/// identifier has exactly one text.
pub proof fn lemma_text_inverts_parse(text: Seq<u8>)
    requires
        parsed_identifier(text) is Some,
    ensures
        identifier_text(parsed_identifier(text)->0) == text,
{
    lemma_sixteen_to_text_len();
    lemma_hex_value_bound(text);
    lemma_hex_canonical(text);
}

/// The character for a digit below sixteen.
fn digit_to_char(digit: u8) -> (character: u8)
    requires
        digit < 16,
    ensures
        character == digit_char(digit as nat),
{
    if digit < 10 {
        0x30 + digit
    } else {
        0x57 + digit
    }
}

/// The digit that a character stands for.
fn char_to_digit(character: u8) -> (digit: Option<u8>)
    ensures
        match digit {
            Some(d) => digit_value(character) == Some(d as nat),
            None => digit_value(character) is None,
        },
{
    if 0x30 <= character && character <= 0x39 {
        Some(character - 0x30)
    } else if 0x61 <= character && character <= 0x66 {
        Some(character - 0x57)
    } else {
        None
    }
}

/// Writes an identifier as thirty-two lower-case hexadecimal digits.
pub fn encode_identifier(value: u128) -> (text: Vec<u8>)
    ensures
        text@ == identifier_text(value),
        text@.len() == TEXT_LEN,
{
    let mut text: Vec<u8> = Vec::new();
    let mut filled: usize = 0;
    while filled < TEXT_LEN
        invariant
            filled <= TEXT_LEN,
            text@.len() == filled,
        decreases TEXT_LEN - filled,
    {
        text.push(0x30);
        filled += 1;
    }
    let mut rest: u128 = value;
    let mut left: usize = TEXT_LEN;
    while left > 0
        invariant
            left <= TEXT_LEN,
            text@.len() == TEXT_LEN,
            identifier_text(value) == hex_digits(rest as nat, left as nat) + text@.subrange(
                left as int,
                TEXT_LEN as int,
            ),
        decreases left,
    {
        let ghost before = text@;
        let digit: u8 = (rest % 16) as u8;
        left -= 1;
        text.set(left, digit_to_char(digit));
        proof {
            let shorter = hex_digits((rest / 16) as nat, left as nat);
            assert(hex_digits(rest as nat, (left + 1) as nat) == shorter.push(
                digit_char((rest % 16) as nat),
            ));
            assert(text@.subrange(left as int, TEXT_LEN as int) =~= seq![
                digit_char((rest % 16) as nat),
            ] + before.subrange(left + 1, TEXT_LEN as int));
            assert(shorter.push(digit_char((rest % 16) as nat)) + before.subrange(
                left + 1,
                TEXT_LEN as int,
            ) =~= shorter + text@.subrange(left as int, TEXT_LEN as int));
        }
        rest = rest / 16;
    }
    proof {
        assert(text@.subrange(0, TEXT_LEN as int) =~= text@);
        assert(hex_digits(rest as nat, 0) + text@ =~= text@);
        lemma_hex_digits_shape(value as nat, TEXT_LEN as nat);
    }
    text
}

/// Reads an identifier from its text.
///
/// Succeeds exactly on thirty-two characters of `0-9a-f`; upper-case digits,
/// other characters and any other length give `None`.
pub fn decode_identifier(text: &[u8]) -> (value: Option<u128>)
    ensures
        value == parsed_identifier(text@),
{
    if text.len() != TEXT_LEN {
        return None;
    }
    let mut sum: u128 = 0;
    let mut read: usize = 0;
    while read < TEXT_LEN
        invariant
            read <= TEXT_LEN,
            text@.len() == TEXT_LEN,
            hex_value(text@.subrange(0, read as int)) == Some(sum as nat),
        decreases TEXT_LEN - read,
    {
        let ghost longer = text@.subrange(0, read + 1);
        proof {
            assert(longer.drop_last() =~= text@.subrange(0, read as int));
            assert(longer.last() == text@[read as int]);
        }
        match char_to_digit(text[read]) {
            Some(digit) => {
                proof {
                    lemma_hex_value_bound(longer);
                    lemma_sixteen_to_grows(longer.len(), TEXT_LEN as nat);
                    lemma_sixteen_to_text_len();
                }
                sum = sum * 16 + digit as u128;
            },
            None => {
                proof {
                    lemma_hex_value_prefix(text@, read + 1);
                }
                return None;
            },
        }
        read += 1;
    }
    proof {
        assert(text@.subrange(0, TEXT_LEN as int) =~= text@);
    }
    Some(sum)
}

} // verus!
