//! The provisioned identities, by identifier.

use std::collections::HashMap;
use vstd::prelude::*;
use vstd::slice::slice_to_vec;
use crate::secret::Secret;

verus! {

broadcast use vstd::std_specs::hash::group_hash_axioms;

/// The record of a provisioned user: an opaque identifier, and the bytes
/// that a presented token has to equal. The bytes stay where the directory
/// keeps them; the record borrows them.
#[derive(Clone, Copy, Debug, PartialEq, Eq)]
pub struct Identity<'a> {
    pub id: u64,
    pub verifier: &'a [u8],
}

/// The identities that the process knows, each under its identifier.
///
/// One entry is provisioned at startup; the mapping leaves room for more.
pub struct UserDirectory {
    verifiers: HashMap<u64, Vec<u8>>,
}

impl UserDirectory {
    /// The directory as a map from identifier to verification bytes.
    pub closed spec fn view(&self) -> Map<u64, Seq<u8>> {
        Map::new(|id: u64| self.verifiers@.contains_key(id), |id: u64| self.verifiers@[id]@)
    }

    /// A directory that knows nobody.
    pub fn new() -> (directory: Self)
        ensures
            directory@ == Map::<u64, Seq<u8>>::empty(),
    {
        let directory = UserDirectory { verifiers: HashMap::new() };
        assert(directory@ =~= Map::<u64, Seq<u8>>::empty());
        directory
    }

    /// Provisions an identity whose verification bytes are the secret's
    /// bytes. An identity already under that identifier is replaced.
    pub fn provision(&mut self, id: u64, secret: &Secret)
        ensures
            final(self)@ == old(self)@.insert(id, secret@),
    {
        self.verifiers.insert(id, slice_to_vec(secret.bytes.as_slice()));
        assert(self@ =~= old(self)@.insert(id, secret@));
    }

    /// The directory of the single-user system: one identity, bound to the
    /// secret.
    pub fn with_identity(id: u64, secret: &Secret) -> (directory: Self)
        ensures
            directory@ == Map::<u64, Seq<u8>>::empty().insert(id, secret@),
    {
        let mut directory = UserDirectory::new();
        directory.provision(id, secret);
        directory
    }

    /// Looks an identity up by its identifier.
    pub fn lookup<'a>(&'a self, id: u64) -> (found: Option<Identity<'a>>)
        ensures
            match found {
                Some(identity) => self@.contains_key(id) && identity.id == id
                    && identity.verifier@ == self@[id],
                None => !self@.contains_key(id),
            },
    {
        match self.verifiers.get(&id) {
            Some(bytes) => Some(Identity { id, verifier: bytes.as_slice() }),
            None => None,
        }
    }
}

} // verus!
