//! Random identifiers from the operating system's generator.

use vstd::prelude::*;

verus! {

/// The error of the `getrandom` crate. Nothing inside it is read here: it is
/// only told apart from success.
#[verifier::external_type_specification]
#[verifier::external_body]
pub struct ExGetrandomError(getrandom::Error);

/// `getrandom::u64` asks the operating system for eight random bytes. It
/// reports failure as an error value; nothing is claimed of the number.
pub assume_specification[ getrandom::u64 ]() -> (drawn: Result<u64, getrandom::Error>);

/// Why no identifier could be drawn.
#[derive(Clone, Copy, Debug, PartialEq, Eq, Structural)]
pub enum EntropyError {
    /// The operating system's generator reported a failure.
    Unavailable,
}

/// The number whose upper 64 bits are `high` and whose lower 64 bits are `low`.
pub open spec fn join_halves(high: u64, low: u64) -> int {
    high * 0x1_0000_0000_0000_0000 + low
}

/// Puts two 64-bit halves together.
pub fn join(high: u64, low: u64) -> (joined: u128)
    ensures
        joined == join_halves(high, low),
{
    assert(high * 0x1_0000_0000_0000_0000 <= 0xffff_ffff_ffff_ffff * 0x1_0000_0000_0000_0000)
        by (nonlinear_arith)
        requires
            high <= 0xffff_ffff_ffff_ffff,
    ;
    high as u128 * 0x1_0000_0000_0000_0000u128 + low as u128
}

/// One draw as this library sees it: the number, or that none was to be had.
pub fn checked_draw(drawn: Result<u64, getrandom::Error>) -> (half: Result<u64, EntropyError>)
    ensures
        half == match drawn {
            Ok(value) => Ok::<u64, EntropyError>(value),
            Err(_) => Err(EntropyError::Unavailable),
        },
{
    match drawn {
        Ok(value) => Ok(value),
        Err(_) => Err(EntropyError::Unavailable),
    }
}

/// Draws a 128-bit random identifier, as two draws of 64 bits.
///
/// The draws come from outside, so the contract says nothing of the number; an
/// error is always `EntropyError::Unavailable`.
pub fn draw_identifier() -> (drawn: Result<u128, EntropyError>)
    ensures
        drawn is Err ==> drawn == Err::<u128, EntropyError>(EntropyError::Unavailable),
{
    let high = checked_draw(getrandom::u64());
    let low = checked_draw(getrandom::u64());
    join_draws(high, low)
}

/// The identifier that two draws give: the two halves joined where both
/// draws gave a number, and no identifier where either did not.
pub open spec fn joined_draws(
    high: Result<u64, EntropyError>,
    low: Result<u64, EntropyError>,
) -> Result<u128, EntropyError> {
    match (high, low) {
        (Ok(upper), Ok(lower)) => Ok(join_halves(upper, lower) as u128),
        _ => Err(EntropyError::Unavailable),
    }
}

/// Makes an identifier of the outcomes of two draws, the upper half first.
pub fn join_draws(high: Result<u64, EntropyError>, low: Result<u64, EntropyError>) -> (drawn:
    Result<u128, EntropyError>)
    ensures
        drawn == joined_draws(high, low),
{
    match (high, low) {
        (Ok(upper), Ok(lower)) => Ok(join(upper, lower)),
        _ => Err(EntropyError::Unavailable),
    }
}

} // verus!
