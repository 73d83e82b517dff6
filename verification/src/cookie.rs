//! The session cookie: reading a token out of a request's cookie header, and
//! writing the pair that carries one to the client.

use vstd::prelude::*;
use vstd::slice::slice_subrange;
use crate::hex::{
    decode_identifier, digit_value, encode_identifier, identifier_text, lemma_hex_digits_shape,
    lemma_parse_inverts_text, parsed_identifier, TEXT_LEN,
};
use crate::session::SessionToken;
use crate::text::{holds_at, is_space, trimmed, trimmed_bounds};

verus! {

/// The byte between two pairs of a cookie header: `;`.
pub const PAIR_SEPARATOR: u8 = 0x3b;

/// The byte between a cookie's name and its value: `=`.
pub const VALUE_SEPARATOR: u8 = 0x3d;

/// How many bytes stand before the first `;` of a text: all of them where
/// it has none.
pub open spec fn first_separator(text: Seq<u8>) -> nat
    decreases text.len(),
{
    if text.len() == 0 || text.first() == PAIR_SEPARATOR {
        0
    } else {
        1 + first_separator(text.drop_first())
    }
}

/// The value that one pair gives to a name: the pair, without the whitespace
/// around it, must be the name, `=`, and then the value.
pub open spec fn pair_value(pair: Seq<u8>, name: Seq<u8>) -> Option<Seq<u8>> {
    let tight = trimmed(pair);
    if tight.len() > name.len() && tight.subrange(0, name.len() as int) == name
        && tight[name.len() as int] == VALUE_SEPARATOR {
        Some(tight.subrange(name.len() as int + 1, tight.len() as int))
    } else {
        None
    }
}

/// The value of a cookie in a header of pairs separated by `;`: that of the
/// first pair that carries the name.
pub open spec fn cookie_value(header: Seq<u8>, name: Seq<u8>) -> Option<Seq<u8>>
    decreases header.len(),
{
    let end = first_separator(header);
    let found = pair_value(header.subrange(0, end as int), name);
    if found is Some || end >= header.len() {
        found
    } else {
        cookie_value(header.subrange(end as int + 1, header.len() as int), name)
    }
}

/// The session token that a cookie header presents under a name: the
/// cookie's value, read as the text of an identifier.
pub open spec fn cookie_token(header: Seq<u8>, name: Seq<u8>) -> Option<u128> {
    match cookie_value(header, name) {
        Some(text) => parsed_identifier(text),
        None => None,
    }
}

/// The pair that carries a token to the client: the name, `=`, and the
/// token's text.
pub open spec fn cookie_pair(name: Seq<u8>, token: u128) -> Seq<u8> {
    name.push(VALUE_SEPARATOR) + identifier_text(token)
}

/// Whether a byte string can name a cookie here: it is not empty and holds
/// no whitespace, `;` or `=`.
pub open spec fn is_cookie_name(name: Seq<u8>) -> bool {
    name.len() > 0 && forall|i: int|
        0 <= i < name.len() ==> !is_space(#[trigger] name[i]) && name[i] != PAIR_SEPARATOR
            && name[i] != VALUE_SEPARATOR
}

/// The first `;` of a text stands where no `;` stands before.
pub proof fn lemma_first_separator_is(text: Seq<u8>, at: int)
    requires
        0 <= at <= text.len(),
        forall|i: int| 0 <= i < at ==> text[i] != PAIR_SEPARATOR,
        at == text.len() || text[at] == PAIR_SEPARATOR,
    ensures
        first_separator(text) == at,
    decreases text.len(),
{
    if at > 0 {
        let rest = text.drop_first();
        assert forall|i: int| 0 <= i < at - 1 implies rest[i] != PAIR_SEPARATOR by {
            assert(rest[i] == text[i + 1]);
        }
        lemma_first_separator_is(rest, at - 1);
    }
}

/// The cookie that was written for a token reads back as that token.
pub proof fn lemma_written_cookie_reads_back(name: Seq<u8>, token: u128)
    requires
        is_cookie_name(name),
    ensures
        cookie_token(cookie_pair(name, token), name) == Some(token),
{
    let digits = identifier_text(token);
    let header = cookie_pair(name, token);
    lemma_hex_digits_shape(token as nat, TEXT_LEN as nat);
    assert forall|i: int| 0 <= i < header.len() implies header[i] != PAIR_SEPARATOR by {
        if i < name.len() {
            assert(header[i] == name[i]);
        } else if i > name.len() {
            assert(header[i] == digits[i - name.len() - 1]);
            assert(digit_value(digits[i - name.len() - 1]) is Some);
        }
    }
    lemma_first_separator_is(header, header.len() as int);
    assert(header.subrange(0, header.len() as int) =~= header);
    assert(header.first() == name[0]);
    assert(header.last() == digits[TEXT_LEN - 1]);
    assert(digit_value(digits[TEXT_LEN - 1]) is Some);
    assert(trimmed(header) == header);
    assert(header.subrange(0, name.len() as int) =~= name);
    assert(header[name.len() as int] == VALUE_SEPARATOR);
    assert(header.subrange(name.len() as int + 1, header.len() as int) =~= digits);
    lemma_parse_inverts_text(token);
}

/// Finds the value of a cookie in a request's cookie header.
///
/// The header is a run of pairs separated by `;`, each with optional
/// whitespace around it. The first pair that is the name, `=` and a value
/// decides; its value is returned as it stands in the header.
pub fn find_cookie<'a>(header: &'a [u8], name: &[u8]) -> (found: Option<&'a [u8]>)
    ensures
        match found {
            Some(value) => cookie_value(header@, name@) == Some(value@),
            None => cookie_value(header@, name@) is None,
        },
{
    let len = header.len();
    let mut from: usize = 0;
    proof {
        assert(header@.subrange(0, len as int) =~= header@);
    }
    loop
        invariant
            from <= len == header@.len(),
            cookie_value(header@, name@) == cookie_value(
                header@.subrange(from as int, len as int),
                name@,
            ),
        decreases len - from,
    {
        let ghost rest = header@.subrange(from as int, len as int);
        let mut end: usize = from;
        while end < len && header[end] != PAIR_SEPARATOR
            invariant
                from <= end <= len == header@.len(),
                forall|i: int| from <= i < end ==> header@[i] != PAIR_SEPARATOR,
            decreases len - end,
        {
            end += 1;
        }
        proof {
            assert forall|i: int| 0 <= i < end - from implies rest[i] != PAIR_SEPARATOR by {
                assert(rest[i] == header@[from + i]);
            }
            lemma_first_separator_is(rest, end - from);
            assert(rest.subrange(0, end - from) =~= header@.subrange(from as int, end as int));
        }
        let bounds = trimmed_bounds(header, from, end);
        let ghost tight = header@.subrange(bounds.0 as int, bounds.1 as int);
        if bounds.1 - bounds.0 > name.len() {
            proof {
                assert(tight.subrange(0, name@.len() as int) =~= header@.subrange(
                    bounds.0 as int,
                    bounds.0 + name@.len(),
                ));
                assert(tight[name@.len() as int] == header@[bounds.0 + name@.len()]);
            }
            if holds_at(header, bounds.0, name) && header[bounds.0 + name.len()]
                == VALUE_SEPARATOR {
                let value = slice_subrange(header, bounds.0 + name.len() + 1, bounds.1);
                proof {
                    assert(value@ =~= tight.subrange(name@.len() as int + 1, tight.len() as int));
                }
                return Some(value);
            }
        }
        if end >= len {
            return None;
        }
        proof {
            assert(rest.subrange(end - from + 1, rest.len() as int) =~= header@.subrange(
                end + 1,
                len as int,
            ));
        }
        from = end + 1;
    }
}

/// Reads the session token that a cookie header presents under a name.
///
/// There is a token exactly when the header has a cookie of that name whose
/// value is thirty-two digits of `0-9a-f`.
pub fn read_session_cookie(header: &[u8], name: &[u8]) -> (token: Option<SessionToken>)
    ensures
        match token {
            Some(token) => cookie_token(header@, name@) == Some(token.value),
            None => cookie_token(header@, name@) is None,
        },
{
    match find_cookie(header, name) {
        Some(text) => match decode_identifier(text) {
            Some(value) => Some(SessionToken { value }),
            None => None,
        },
        None => None,
    }
}

/// Writes the pair that carries a session token to the client.
pub fn write_session_cookie(name: &[u8], token: SessionToken) -> (pair: Vec<u8>)
    ensures
        pair@ == cookie_pair(name@, token.value),
{
    let mut pair: Vec<u8> = Vec::new();
    let mut copied: usize = 0;
    while copied < name.len()
        invariant
            copied <= name@.len(),
            pair@ == name@.subrange(0, copied as int),
        decreases name@.len() - copied,
    {
        pair.push(name[copied]);
        proof {
            assert(pair@ =~= name@.subrange(0, copied + 1));
        }
        copied += 1;
    }
    proof {
        assert(name@.subrange(0, copied as int) =~= name@);
    }
    pair.push(VALUE_SEPARATOR);
    let mut digits = encode_identifier(token.value);
    pair.append(&mut digits);
    pair
}

} // verus!
