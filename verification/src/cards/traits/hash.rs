use crate::rng::random_u128;
use core::hash::Hasher;
use std::collections::hash_map::DefaultHasher;
use vstd::prelude::*;
use vstd::std_specs::hash::DefaultHasherAdditionalSpecFns;

verus! {

pub type ValueHashT = u32;

/// What has a value identity: a number that depends on nothing but what the thing is worth,
/// so that two copies of one card share it.
pub trait ValueHash {
    /// The value identity.
    spec fn value_hash_spec(&self) -> ValueHashT;

    fn value_hash(&self) -> (hash: ValueHashT)
        ensures
            hash == self.value_hash_spec(),
    ;
}

/// The value identity of what is made of two parts with the places `first` and `second` in
/// their enumerations: what std's default hasher makes of the two, each written as one byte,
/// cut to the width of a value identity.
pub open spec fn hash_of_orders(first: u8, second: u8) -> ValueHashT {
    DefaultHasher::spec_finish(seq![seq![first], seq![second]]) as ValueHashT
}

/// Computes `hash_of_orders`.
pub fn hash_orders(first: u8, second: u8) -> (hash: ValueHashT)
    ensures
        hash == hash_of_orders(first, second),
{
    let mut hasher = DefaultHasher::new();
    let first_byte: [u8; 1] = [first];
    let second_byte: [u8; 1] = [second];
    hasher.write(first_byte.as_slice());
    hasher.write(second_byte.as_slice());
    proof {
        assert(first_byte@ =~= seq![first]);
        assert(second_byte@ =~= seq![second]);
        assert(hasher@ =~= seq![seq![first], seq![second]]);
    }
    let full: u64 = hasher.finish();
    #[verifier::truncate]
    (full as ValueHashT)
}

pub type UniqueHashT = u128;

/// What carries a unique identity: a random token that tells one instance from another.
pub trait UniqueHash: Sized {
    /// The token that the instance carries.
    spec fn unique_hash_spec(&self) -> UniqueHashT;

    /// Whether `self` is `other` in all but the token.
    spec fn same_but_unique_hash(&self, other: &Self) -> bool;

    /// A fresh token. Any number may come.
    fn calculate_unique_hash_from_instance(&self) -> UniqueHashT {
        Self::calculate_unique_hash()
    }

    /// A fresh token. Any number may come.
    fn calculate_unique_hash() -> UniqueHashT {
        random_u128()
    }

    /// Gives the instance a fresh token and leaves the rest of it alone.
    fn update_unique_hash(&mut self)
        ensures
            final(self).same_but_unique_hash(old(self)),
    {
        let hash = Self::calculate_unique_hash();
        self.set_unique_hash(hash);
    }

    fn unique_hash(&self) -> (hash: UniqueHashT)
        ensures
            hash == self.unique_hash_spec(),
    ;

    fn set_unique_hash(&mut self, hash: UniqueHashT)
        ensures
            final(self).unique_hash_spec() == hash,
            final(self).same_but_unique_hash(old(self)),
    ;
}

} // verus!
