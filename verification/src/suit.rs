use vstd::prelude::*;

verus! {

/// The four suits, as names only: no suit ranks above another.
#[derive(PartialEq, Eq, Structural, Clone, Copy, Debug)]
pub enum Suit {
    Spade,
    Heart,
    Diamond,
    Club,
}

/// The four suits in rising order: club, diamond, heart, spade.
#[derive(PartialOrd, Ord, PartialEq, Eq, Structural, Clone, Copy, Debug)]
pub enum OrderedSuit {
    Club,
    Diamond,
    Heart,
    Spade,
}

} // verus!
