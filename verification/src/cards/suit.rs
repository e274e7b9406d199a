use super::traits::hash::{ValueHash, ValueHashT};
use super::traits::{order::Order, value::Value};
use vstd::prelude::*;

verus! {

/// The four suits.
#[derive(Clone, Copy, Hash, PartialEq, Eq, Structural, Debug)]
pub enum Suit {
    Spade,
    Heart,
    Diamond,
    Club,
}

impl Order for Suit {
    open spec fn order_spec(&self) -> u64 {
        match *self {
            Suit::Spade => 0,
            Suit::Heart => 1,
            Suit::Diamond => 2,
            Suit::Club => 3,
        }
    }

    fn order(&self) -> (order: u64) {
        match *self {
            Suit::Spade => 0,
            Suit::Heart => 1,
            Suit::Diamond => 2,
            Suit::Club => 3,
        }
    }
}

impl Value for Suit {
    open spec fn value_spec(&self) -> i32 {
        self.order_spec() as i32
    }

    fn value(&self) -> (value: i32) {
        self.order() as i32
    }
}

impl ValueHash for Suit {
    open spec fn value_hash_spec(&self) -> ValueHashT {
        self.order_spec() as ValueHashT
    }

    fn value_hash(&self) -> (hash: ValueHashT) {
        self.value() as ValueHashT
    }
}

pub const ALL_SUIT_NUM: usize = 4;

/// The four suits, each at the place that `order` gives it.
pub fn all_suits() -> (suits: [Suit; ALL_SUIT_NUM])
    ensures
        forall|idx: int| 0 <= idx < ALL_SUIT_NUM ==> (#[trigger] suits[idx]).order_spec() == idx,
{
    [Suit::Spade, Suit::Heart, Suit::Diamond, Suit::Club]
}

} // verus!
