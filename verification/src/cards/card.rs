use super::number::{all_numbers, Number, ALL_NUMBER_NUM};
use super::suit::{all_suits, Suit, ALL_SUIT_NUM};
use super::traits::hash::{
    hash_of_orders, hash_orders, UniqueHash, UniqueHashT, ValueHash, ValueHashT,
};
use super::traits::order::Order;
use super::traits::value::Value;
use vstd::prelude::*;
use vstd::std_specs::cmp::PartialEqSpecImpl;

verus! {

pub const ALL_CARDS_NUM: usize = ALL_SUIT_NUM * ALL_NUMBER_NUM;

/// A card with a suit, a number and a token of its own. Two cards are equal where they
/// agree in suit and number: the token plays no part in `==`.
#[derive(Clone, Copy, Debug)]
pub struct Card {
    pub suit: Suit,
    pub number: Number,
    pub unique_hash: UniqueHashT,
}

impl Card {
    /// A card of the suit and number, with a token of its own.
    pub fn new(suit: Suit, number: Number) -> (card: Self)
        ensures
            card.suit == suit,
            card.number == number,
    {
        Card { suit: suit, number: number, unique_hash: Self::calculate_unique_hash() }
    }
}

impl PartialEq for Card {
    fn eq(&self, other: &Self) -> (equal: bool) {
        self.suit == other.suit && self.number == other.number
    }
}

impl PartialEqSpecImpl for Card {
    open spec fn obeys_eq_spec() -> bool {
        true
    }

    open spec fn eq_spec(&self, other: &Self) -> bool {
        self.suit == other.suit && self.number == other.number
    }
}

impl Order for Card {
    /// The place of the card in the canonical deck: every card has one of its own.
    open spec fn order_spec(&self) -> u64 {
        // Spade Ace and Heart Ace can be seen as the same order.
        // But, here we give every card a unique order.
        (self.suit.order_spec() * (ALL_NUMBER_NUM as u64) + self.number.order_spec()) as u64
    }

    fn order(&self) -> (order: u64) {
        self.suit.order() * (ALL_NUMBER_NUM as u64) + self.number.order()
    }
}

impl Value for Card {
    /// We take the number as the card value.
    open spec fn value_spec(&self) -> i32 {
        self.number.value_spec()
    }

    fn value(&self) -> (value: i32) {
        self.number.value()
    }
}

impl ValueHash for Card {
    /// The value identity of a card depends on its suit and number alone.
    open spec fn value_hash_spec(&self) -> ValueHashT {
        hash_of_orders(self.suit.order_spec() as u8, self.number.order_spec() as u8)
    }

    fn value_hash(&self) -> (hash: ValueHashT) {
        hash_orders(self.suit.order() as u8, self.number.order() as u8)
    }
}

impl UniqueHash for Card {
    open spec fn unique_hash_spec(&self) -> UniqueHashT {
        self.unique_hash
    }

    open spec fn same_but_unique_hash(&self, other: &Self) -> bool {
        self.suit == other.suit && self.number == other.number
    }

    fn set_unique_hash(&mut self, hash: UniqueHashT) {
        self.unique_hash = hash;
        assert(self.unique_hash_spec() == hash);
    }

    fn unique_hash(&self) -> (hash: UniqueHashT) {
        self.unique_hash
    }
}

/// The canonical deck: the fifty-two cards, each at the place that `order` gives it, and
/// each with a token of its own.
pub fn all_cards() -> (cards: Vec<Card>)
    ensures
        cards@.len() == ALL_CARDS_NUM,
        forall|idx: int| 0 <= idx < ALL_CARDS_NUM ==> (#[trigger] cards@[idx]).order_spec() == idx,
{
    let all_numbers = all_numbers();
    let all_suits = all_suits();
    let mut all_cards: Vec<Card> = Vec::with_capacity(ALL_CARDS_NUM);
    let mut idx: usize = 0;
    while idx < ALL_CARDS_NUM
        invariant
            idx <= ALL_CARDS_NUM,
            all_cards@.len() == idx,
            forall|suit_idx: int|
                0 <= suit_idx < ALL_SUIT_NUM ==> (#[trigger] all_suits[suit_idx]).order_spec()
                    == suit_idx,
            forall|number_idx: int|
                0 <= number_idx < ALL_NUMBER_NUM ==> (
                #[trigger] all_numbers[number_idx]).order_spec() == number_idx,
            forall|built: int|
                0 <= built < idx ==> (#[trigger] all_cards@[built]).order_spec() == built,
        decreases ALL_CARDS_NUM - idx,
    {
        let suit_idx = idx / ALL_NUMBER_NUM;
        let number_idx = idx % ALL_NUMBER_NUM;
        all_cards.push(Card::new(all_suits[suit_idx], all_numbers[number_idx]));
        idx += 1;
    }
    all_cards
}

} // verus!
