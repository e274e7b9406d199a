use super::suit::Suit;
use super::value::Value;
use core::cmp::Ordering;
use vstd::prelude::*;
use vstd::std_specs::cmp::PartialEqSpecImpl;
use vstd::std_specs::cmp::PartialOrdSpecImpl;

verus! {

/// A card that is compared by its value alone: the suit plays no part in `==` or `<`.
#[derive(Debug)]
pub struct Card {
    pub suit: Suit,
    pub value: Value,
}

impl Card {
    pub fn new(suit: Suit, value: Value) -> (card: Self)
        ensures
            card.suit == suit,
            card.value == value,
    {
        Card { suit: suit, value: value }
    }

    /// How the two cards stand to each other: as their values do.
    pub open spec fn cmp_spec(&self, other: &Self) -> Ordering {
        if self.value.strength_spec() < other.value.strength_spec() {
            Ordering::Less
        } else if self.value.strength_spec() > other.value.strength_spec() {
            Ordering::Greater
        } else {
            Ordering::Equal
        }
    }

    /// Compares the two cards by their values.
    pub fn cmp(&self, other: &Self) -> (ordering: Ordering)
        ensures
            ordering == self.cmp_spec(other),
    {
        let mine: u8 = self.value.strength();
        let theirs: u8 = other.value.strength();
        if mine < theirs {
            Ordering::Less
        } else if mine > theirs {
            Ordering::Greater
        } else {
            Ordering::Equal
        }
    }
}

impl PartialEq for Card {
    fn eq(&self, other: &Self) -> (r: bool) {
        self.value == other.value
    }
}

impl PartialEqSpecImpl for Card {
    open spec fn obeys_eq_spec() -> bool {
        true
    }

    open spec fn eq_spec(&self, other: &Self) -> bool {
        self.value == other.value
    }
}

impl Eq for Card {

}

impl PartialOrd for Card {
    fn partial_cmp(&self, other: &Self) -> (r: Option<Ordering>) {
        Some(self.cmp(other))
    }
}

impl PartialOrdSpecImpl for Card {
    open spec fn obeys_partial_cmp_spec() -> bool {
        true
    }

    open spec fn partial_cmp_spec(&self, other: &Self) -> Option<Ordering> {
        Some(self.cmp_spec(other))
    }
}

} // verus!
