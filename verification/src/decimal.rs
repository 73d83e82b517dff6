//! The text form of a user identifier: decimal digits.

use vstd::prelude::*;

verus! {

/// The digit that a character stands for, if it is one of `0-9`.
pub open spec fn decimal_digit(character: u8) -> Option<nat> {
    if 0x30 <= character <= 0x39 {
        Some((character - 0x30) as nat)
    } else {
        None
    }
}

/// The number that a run of decimal digits denotes, if every character is a
/// digit. The empty run denotes zero.
pub open spec fn decimal_value(text: Seq<u8>) -> Option<nat>
    decreases text.len(),
{
    if text.len() == 0 {
        Some(0)
    } else {
        match (decimal_value(text.drop_last()), decimal_digit(text.last())) {
            (Some(high), Some(low)) => Some(high * 10 + low),
            _ => None,
        }
    }
}

/// The user identifier that a text denotes: the text must be one or more
/// decimal digits and nothing else, and the number must fit in 64 bits.
/// Leading zeros do not matter.
pub open spec fn parsed_user_id(text: Seq<u8>) -> Option<u64> {
    if text.len() == 0 {
        None
    } else {
        match decimal_value(text) {
            Some(value) => if value <= u64::MAX {
                Some(value as u64)
            } else {
                None
            },
            None => None,
        }
    }
}

/// Every beginning of a run of digits is a run of digits, and denotes no
/// more than the whole.
pub proof fn lemma_decimal_value_grows(text: Seq<u8>, end: int)
    requires
        0 <= end <= text.len(),
        decimal_value(text) is Some,
    ensures
        decimal_value(text.subrange(0, end)) is Some,
        decimal_value(text.subrange(0, end))->0 <= decimal_value(text)->0,
    decreases text.len(),
{
    if end < text.len() {
        assert(text.drop_last().subrange(0, end) =~= text.subrange(0, end));
        lemma_decimal_value_grows(text.drop_last(), end);
    } else {
        assert(text.subrange(0, end) =~= text);
    }
}

/// Reads a user identifier from its decimal text.
///
/// Succeeds exactly on one or more digits `0-9` that denote a number of at
/// most 64 bits; a sign, whitespace or any other character gives `None`.
pub fn parse_user_id(text: &[u8]) -> (id: Option<u64>)
    ensures
        id == parsed_user_id(text@),
{
    let len = text.len();
    if len == 0 {
        return None;
    }
    let mut sum: u64 = 0;
    let mut read: usize = 0;
    while read < len
        invariant
            read <= len == text@.len(),
            decimal_value(text@.subrange(0, read as int)) == Some(sum as nat),
        decreases len - read,
    {
        let ghost longer = text@.subrange(0, read + 1);
        proof {
            assert(longer.drop_last() =~= text@.subrange(0, read as int));
            assert(longer.last() == text@[read as int]);
        }
        let character = text[read];
        if character < 0x30 || character > 0x39 {
            proof {
                if decimal_value(text@) is Some {
                    lemma_decimal_value_grows(text@, read + 1);
                }
            }
            return None;
        }
        let digit: u64 = (character - 0x30) as u64;
        if sum > (u64::MAX - digit) / 10 {
            proof {
                if decimal_value(text@) is Some {
                    lemma_decimal_value_grows(text@, read + 1);
                }
            }
            return None;
        }
        sum = sum * 10 + digit;
        read += 1;
    }
    proof {
        assert(text@.subrange(0, len as int) =~= text@);
    }
    Some(sum)
}

} // verus!
