use super::number::{all_numbers, Number, ALL_NUMBER_NUM};
use crate::cards::suit::{all_suits, Suit, ALL_SUIT_NUM};
use crate::cards::traits::hash::{
    hash_of_orders, hash_orders, UniqueHash, UniqueHashT, ValueHash, ValueHashT,
};
use crate::cards::traits::order::Order;
use crate::cards::traits::value::Value;
use vstd::prelude::*;

verus! {

pub const ALL_CARDS_NUM: usize = ALL_SUIT_NUM * ALL_NUMBER_NUM;

/// A card of a baccarat shoe: its suit, its number, and a random token that tells it from
/// the other cards of its suit and number.
#[derive(Clone, Copy, Debug)]
pub struct Card {
    pub suit: Suit,
    pub number: Number,
    pub unique_hash: UniqueHashT,
}

impl Card {
    /// A card of the suit and number, with a token of its own.
    pub fn new(suit: Suit, number: Number) -> (card: Self)
        ensures
            card.suit == suit,
            card.number == number,
    {
        Card { suit: suit, number: number, unique_hash: Self::calculate_unique_hash() }
    }
}

impl Value for Card {
    /// A card counts for what its number counts for.
    open spec fn value_spec(&self) -> i32 {
        self.number.value_spec()
    }

    fn value(&self) -> (value: i32) {
        self.number.value()
    }
}

impl ValueHash for Card {
    /// The value identity of a card depends on its suit and number alone.
    open spec fn value_hash_spec(&self) -> ValueHashT {
        hash_of_orders(self.suit.order_spec() as u8, self.number.order_spec() as u8)
    }

    fn value_hash(&self) -> (hash: ValueHashT) {
        hash_orders(self.suit.order() as u8, self.number.order() as u8)
    }
}

impl UniqueHash for Card {
    open spec fn unique_hash_spec(&self) -> UniqueHashT {
        self.unique_hash
    }

    open spec fn same_but_unique_hash(&self, other: &Self) -> bool {
        self.suit == other.suit && self.number == other.number
    }

    fn set_unique_hash(&mut self, hash: UniqueHashT) {
        self.unique_hash = hash;
        assert(self.unique_hash_spec() == hash);
    }

    fn unique_hash(&self) -> (hash: UniqueHashT) {
        self.unique_hash
    }
}

/// Whether `card` is the card at place `idx` of the canonical deck, which runs through the
/// suits in their order and, within each suit, through the numbers in theirs.
pub open spec fn canonical(card: Card, idx: int) -> bool {
    card.suit.order_spec() == idx / (ALL_NUMBER_NUM as int) && card.number.order_spec() == idx % (
    ALL_NUMBER_NUM as int)
}

/// The canonical deck: the fifty-two cards in their order, each with a token of its own.
pub fn all_cards() -> (cards: Vec<Card>)
    ensures
        cards@.len() == ALL_CARDS_NUM,
        forall|idx: int| 0 <= idx < ALL_CARDS_NUM ==> canonical(#[trigger] cards@[idx], idx),
{
    let all_numbers = all_numbers();
    let all_suits = all_suits();
    let mut cards: Vec<Card> = Vec::with_capacity(ALL_CARDS_NUM);
    let mut idx: usize = 0;
    while idx < ALL_CARDS_NUM
        invariant
            idx <= ALL_CARDS_NUM,
            cards@.len() == idx,
            forall|suit_idx: int|
                0 <= suit_idx < ALL_SUIT_NUM ==> (#[trigger] all_suits[suit_idx]).order_spec()
                    == suit_idx,
            forall|number_idx: int|
                0 <= number_idx < ALL_NUMBER_NUM ==> (
                #[trigger] all_numbers[number_idx]).order_spec() == number_idx,
            forall|built: int| 0 <= built < idx ==> canonical(#[trigger] cards@[built], built),
        decreases ALL_CARDS_NUM - idx,
    {
        let suit_idx = idx / ALL_NUMBER_NUM;
        let number_idx = idx % ALL_NUMBER_NUM;
        cards.push(Card::new(all_suits[suit_idx], all_numbers[number_idx]));
        idx += 1;
    }
    cards
}

} // verus!
