//! Checking presented credentials against the directory, with a comparison
//! whose amount of work does not depend on where the inputs differ.

use vstd::prelude::*;
use vstd::slice::slice_to_vec;
use crate::decimal::{parse_user_id, parsed_user_id};
use crate::directory::{Identity, UserDirectory};

verus! {

/// `core::hint::black_box` hands its argument back unchanged; it only keeps
/// the compiler from reasoning about the value.
pub assume_specification<T>[ core::hint::black_box::<T> ](dummy: T) -> (kept: T)
    ensures
        kept == dummy,
;

/// What a login request presents: the identifier it claims and its token.
pub struct Credentials {
    pub user_id: u64,
    pub token: Vec<u8>,
}

impl Credentials {
    /// The credentials that a login form presents in its two fields, if the
    /// identifier field is a decimal number. The token is taken as it is.
    pub fn from_form(user_id: &[u8], token: &[u8]) -> (credentials: Option<Credentials>)
        ensures
            match credentials {
                Some(presented) => parsed_user_id(user_id@) == Some(presented.user_id)
                    && presented.token@ == token@,
                None => parsed_user_id(user_id@) is None,
            },
    {
        match parse_user_id(user_id) {
            Some(id) => Some(Credentials { user_id: id, token: slice_to_vec(token) }),
            None => None,
        }
    }
}

/// The result of a timing-safe comparison, with the number of byte
/// positions that it examined.
#[derive(Clone, Copy, Debug, PartialEq, Eq, Structural)]
pub struct Comparison {
    pub equal: bool,
    pub steps: usize,
}

/// How many byte positions a comparison examines: as many as the longer of
/// the two operands has. The shorter one counts as padded with zero bytes.
pub open spec fn comparison_steps(expected: Seq<u8>, presented: Seq<u8>) -> nat {
    if expected.len() >= presented.len() {
        expected.len()
    } else {
        presented.len()
    }
}

/// Whether the directory accepts a token for an identifier: the identifier
/// is known and the token equals its verification bytes, byte for byte.
pub open spec fn accepts(directory: Map<u64, Seq<u8>>, user_id: u64, token: Seq<u8>) -> bool {
    directory.contains_key(user_id) && directory[user_id] == token
}

/// Whether the directory accepts what a login form presents: the identifier
/// field denotes an identifier, and the directory accepts the token for it.
pub open spec fn accepts_form(directory: Map<u64, Seq<u8>>, user_id: Seq<u8>, token: Seq<u8>) -> bool {
    match parsed_user_id(user_id) {
        Some(id) => accepts(directory, id, token),
        None => false,
    }
}

/// The work of a comparison depends on the lengths alone: two presented
/// tokens of one length take the same number of steps, however long a
/// prefix each shares with the expected bytes.
pub proof fn lemma_steps_ignore_contents(expected: Seq<u8>, first: Seq<u8>, second: Seq<u8>)
    requires
        first.len() == second.len(),
    ensures
        comparison_steps(expected, first) == comparison_steps(expected, second),
        comparison_steps(expected, first) >= expected.len(),
        comparison_steps(expected, first) >= first.len(),
{
}

/// The provisioned identifier with the secret as token is accepted.
pub proof fn lemma_right_credentials_accepted(
    directory: Map<u64, Seq<u8>>,
    user_id: u64,
    secret: Seq<u8>,
)
    ensures
        accepts(directory.insert(user_id, secret), user_id, secret),
{
}

/// An unknown identifier is rejected whatever the token, and so is a token
/// of another length than the verification bytes or with another byte at
/// some position.
pub proof fn lemma_wrong_credentials_rejected(
    directory: Map<u64, Seq<u8>>,
    user_id: u64,
    token: Seq<u8>,
)
    requires
        !directory.contains_key(user_id) || token.len() != directory[user_id].len() || exists|
            i: int,
        |
            0 <= i < token.len() && token[i] != directory[user_id][i],
    ensures
        !accepts(directory, user_id, token),
{
}

/// Compares two byte strings in a number of steps that their lengths fix.
///
/// Every position up to the longer length is examined, whether or not a
/// difference was already seen, and the lengths themselves are part of what
/// is compared.
pub fn timing_safe_eq(expected: &[u8], presented: &[u8]) -> (verdict: Comparison)
    ensures
        verdict.equal <==> expected@ == presented@,
        verdict.steps == comparison_steps(expected@, presented@),
{
    let longer: usize = if expected.len() >= presented.len() {
        expected.len()
    } else {
        presented.len()
    };
    let mut difference: u8 = if expected.len() == presented.len() {
        0
    } else {
        1
    };
    let mut step: usize = 0;
    while step < longer
        invariant
            step <= longer,
            longer == comparison_steps(expected@, presented@),
            difference == 0 <==> (expected@.len() == presented@.len() && forall|i: int|
                0 <= i < step ==> expected@[i] == presented@[i]),
        decreases longer - step,
    {
        let left: u8 = if step < expected.len() {
            expected[step]
        } else {
            0
        };
        let right: u8 = if step < presented.len() {
            presented[step]
        } else {
            0
        };
        let mixed: u8 = difference | (left ^ right);
        assert(mixed == 0 <==> (difference == 0 && left == right)) by (bit_vector)
            requires
                mixed == difference | (left ^ right),
        ;
        difference = core::hint::black_box(mixed);
        step += 1;
    }
    proof {
        if difference == 0 {
            assert(expected@ =~= presented@);
        }
    }
    Comparison { equal: difference == 0, steps: step }
}

/// Verifies credentials against the directory.
///
/// Returns the identity exactly when the claimed identifier is known and the
/// token equals its verification bytes. A failed attempt is `None`, never an
/// error, and says nothing of which of the two was wrong.
pub fn authenticate<'a>(directory: &'a UserDirectory, credentials: &Credentials) -> (outcome:
    Option<Identity<'a>>)
    ensures
        match outcome {
            Some(identity) => accepts(directory@, credentials.user_id, credentials.token@)
                && identity.id == credentials.user_id && identity.verifier@
                == credentials.token@,
            None => !accepts(directory@, credentials.user_id, credentials.token@),
        },
{
    match directory.lookup(credentials.user_id) {
        Some(identity) => {
            let verdict = timing_safe_eq(identity.verifier, credentials.token.as_slice());
            if verdict.equal {
                Some(identity)
            } else {
                None
            }
        },
        None => None,
    }
}

} // verus!
