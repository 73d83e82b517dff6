//! The shared secret: taken from storage when it is there, made anew and
//! handed back for storing when it is not.

use vstd::prelude::*;
use crate::entropy::{draw_identifier, EntropyError};
use crate::hex::{
    digit_value, encode_identifier, identifier_text, lemma_hex_digits_shape, TEXT_LEN,
};
use crate::text::{is_tight, lemma_trimmed_idempotent, trim, trimmed};

verus! {

/// The single long-lived credential, as raw bytes.
pub struct Secret {
    pub bytes: Vec<u8>,
}

impl View for Secret {
    type V = Seq<u8>;

    open spec fn view(&self) -> Seq<u8> {
        self.bytes@
    }
}

/// What startup has to go on with: the secret, and whether it is new and has
/// to be written to storage, verbatim, before the first request is served.
pub struct Bootstrap {
    pub secret: Secret,
    pub persist: bool,
}

/// The secret that startup arrives at, given what storage holds and the
/// identifier that would be drawn if a new secret were needed.
pub open spec fn bootstrapped_secret(stored: Option<Seq<u8>>, drawn: u128) -> Seq<u8> {
    match stored {
        Some(contents) => trimmed(contents),
        None => identifier_text(drawn),
    }
}

/// What storage holds once startup is over: what it held, or else the new
/// secret exactly as returned.
pub open spec fn storage_after_bootstrap(stored: Option<Seq<u8>>, drawn: u128) -> Option<Seq<u8>> {
    match stored {
        Some(contents) => Some(contents),
        None => Some(identifier_text(drawn)),
    }
}

/// The text of an identifier has no whitespace in it, so trimming keeps it.
pub proof fn lemma_identifier_text_is_tight(drawn: u128)
    ensures
        is_tight(identifier_text(drawn)),
        trimmed(identifier_text(drawn)) == identifier_text(drawn),
{
    let text = identifier_text(drawn);
    lemma_hex_digits_shape(drawn as nat, TEXT_LEN as nat);
    assert(digit_value(text[0]) is Some);
    assert(digit_value(text[TEXT_LEN - 1]) is Some);
    assert(text.first() == text[0]);
    assert(text.last() == text[TEXT_LEN - 1]);
}

/// Startup is idempotent: a second startup on what the first one left in
/// storage arrives at the same secret and has nothing more to store,
/// whatever identifier it would have drawn.
pub proof fn lemma_bootstrap_idempotent(stored: Option<Seq<u8>>, first: u128, second: u128)
    ensures
        storage_after_bootstrap(stored, first) is Some,
        bootstrapped_secret(storage_after_bootstrap(stored, first), second) == bootstrapped_secret(
            stored,
            first,
        ),
        storage_after_bootstrap(storage_after_bootstrap(stored, first), second)
            == storage_after_bootstrap(stored, first),
{
    lemma_identifier_text_is_tight(first);
}

/// A secret that startup arrived at reads back unchanged: storing it and
/// trimming on the next read cannot alter it.
pub proof fn lemma_bootstrapped_secret_is_tight(stored: Option<Seq<u8>>, drawn: u128)
    ensures
        trimmed(bootstrapped_secret(stored, drawn)) == bootstrapped_secret(stored, drawn),
{
    match stored {
        Some(contents) => {
            lemma_trimmed_idempotent(contents);
        },
        None => {
            lemma_identifier_text_is_tight(drawn);
        },
    }
}

/// Takes the secret over from what storage holds: its contents without the
/// whitespace around them, byte for byte.
pub fn adopt_secret(contents: &[u8]) -> (secret: Secret)
    ensures
        secret@ == trimmed(contents@),
{
    Secret { bytes: trim(contents) }
}

/// Makes a new secret out of a drawn identifier: its thirty-two hexadecimal
/// digits.
pub fn mint_secret(drawn: u128) -> (secret: Secret)
    ensures
        secret@ == identifier_text(drawn),
{
    Secret { bytes: encode_identifier(drawn) }
}

/// Starts up on empty storage, with the outcome of drawing an identifier:
/// a drawn identifier becomes the secret, which has to be stored; without
/// one there is no secret.
pub fn mint_bootstrap(drawn: Result<u128, EntropyError>) -> (outcome: Result<
    Bootstrap,
    EntropyError,
>)
    ensures
        match drawn {
            Ok(value) => outcome matches Ok(bootstrap) && bootstrap.persist && bootstrap.secret@
                == bootstrapped_secret(None, value),
            Err(error) => outcome matches Err(same) && same == error,
        },
{
    match drawn {
        Ok(value) => Ok(Bootstrap { secret: mint_secret(value), persist: true }),
        Err(error) => Err(error),
    }
}

/// Obtains the secret at startup.
///
/// `stored` is what storage holds, or `None` where it holds nothing yet. With
/// contents the secret is their trimmed form and nothing is to be stored.
/// Without, an identifier is drawn, its text is the secret, and the caller
/// has to store exactly those bytes; only then can drawing fail.
pub fn obtain_secret(stored: Option<&[u8]>) -> (outcome: Result<Bootstrap, EntropyError>)
    ensures
        match stored {
            Some(contents) => outcome matches Ok(bootstrap) && !bootstrap.persist
                && bootstrap.secret@ == trimmed(contents@),
            None => match outcome {
                Ok(bootstrap) => bootstrap.persist && exists|drawn: u128|
                    bootstrap.secret@ == #[trigger] bootstrapped_secret(None, drawn),
                Err(error) => error == EntropyError::Unavailable,
            },
        },
{
    match stored {
        Some(contents) => Ok(Bootstrap { secret: adopt_secret(contents), persist: false }),
        None => mint_bootstrap(draw_identifier()),
    }
}

} // verus!
