use crate::cards::traits::{order::Order, value::Value};
use vstd::prelude::*;

verus! {

/// The thirteen numbers of a suit, from the ace to the king.
#[derive(Clone, Copy, Hash, PartialEq, Eq, Structural, Debug)]
pub enum Number {
    Ace,
    Two,
    Three,
    Four,
    Five,
    Six,
    Seven,
    Eight,
    Nine,
    Ten,
    Jack,
    Queen,
    King,
}

impl Order for Number {
    open spec fn order_spec(&self) -> u64 {
        match *self {
            Number::Ace => 0,
            Number::Two => 1,
            Number::Three => 2,
            Number::Four => 3,
            Number::Five => 4,
            Number::Six => 5,
            Number::Seven => 6,
            Number::Eight => 7,
            Number::Nine => 8,
            Number::Ten => 9,
            Number::Jack => 10,
            Number::Queen => 11,
            Number::King => 12,
        }
    }

    fn order(&self) -> (order: u64) {
        match *self {
            Number::Ace => 0,
            Number::Two => 1,
            Number::Three => 2,
            Number::Four => 3,
            Number::Five => 4,
            Number::Six => 5,
            Number::Seven => 6,
            Number::Eight => 7,
            Number::Nine => 8,
            Number::Ten => 9,
            Number::Jack => 10,
            Number::Queen => 11,
            Number::King => 12,
        }
    }
}

impl Value for Number {
    /// What a number counts for in baccarat: the ace for 1, the two to the nine for what
    /// they show, and the ten and the court cards for nothing.
    open spec fn value_spec(&self) -> i32 {
        match *self {
            Number::Ace => 1,
            Number::Two => 2,
            Number::Three => 3,
            Number::Four => 4,
            Number::Five => 5,
            Number::Six => 6,
            Number::Seven => 7,
            Number::Eight => 8,
            Number::Nine => 9,
            Number::Ten => 0,
            Number::Jack => 0,
            Number::Queen => 0,
            Number::King => 0,
        }
    }

    fn value(&self) -> (value: i32) {
        match *self {
            Number::Ace => 1,
            Number::Two => 2,
            Number::Three => 3,
            Number::Four => 4,
            Number::Five => 5,
            Number::Six => 6,
            Number::Seven => 7,
            Number::Eight => 8,
            Number::Nine => 9,
            Number::Ten => 0,
            Number::Jack => 0,
            Number::Queen => 0,
            Number::King => 0,
        }
    }
}

pub const ALL_NUMBER_NUM: usize = 13;

/// The thirteen numbers, each at the place that `order` gives it.
pub fn all_numbers() -> (numbers: [Number; ALL_NUMBER_NUM])
    ensures
        forall|idx: int|
            0 <= idx < ALL_NUMBER_NUM ==> (#[trigger] numbers[idx]).order_spec() == idx,
{
    [
        Number::Ace,
        Number::Two,
        Number::Three,
        Number::Four,
        Number::Five,
        Number::Six,
        Number::Seven,
        Number::Eight,
        Number::Nine,
        Number::Ten,
        Number::Jack,
        Number::Queen,
        Number::King,
    ]
}

} // verus!
