use super::card::{all_cards, Card, ALL_CARDS_NUM};
use super::traits::deck::{exchanged, Deck as DeckTrait};
use super::traits::order::Order;
use crate::arrays::vec_into_array;
use vstd::pervasive::unreached;
use vstd::prelude::*;

verus! {

/// One deck of fifty-two cards.
#[derive(Clone)]
pub struct Deck {
    pub cards: [Card; ALL_CARDS_NUM],
}

impl Deck {
    /// The canonical deck.
    pub fn new() -> (deck: Deck)
        ensures
            forall|idx: int|
                0 <= idx < ALL_CARDS_NUM ==> (#[trigger] deck.cards@[idx]).order_spec() == idx,
    {
        match vec_into_array::<Card, ALL_CARDS_NUM>(all_cards()) {
            Ok(cards) => Deck { cards: cards },
            Err(_) => unreached(),
        }
    }
}

impl DeckTrait for Deck {
    type Card = Card;

    open spec fn slots(&self) -> Seq<Card> {
        self.cards@
    }

    /// A deck of fifty-two slots has nothing to hold beside them.
    open spec fn deck_inv(&self) -> bool {
        true
    }

    open spec fn same_but_cards(&self, other: &Self) -> bool {
        true
    }

    proof fn lemma_same_but_cards(&self, middle: &Self, other: &Self) {
    }

    fn card_num(&self) -> (num: usize) {
        self.cards.len()
    }

    fn swap(&mut self, idx1: usize, idx2: usize) {
        let card1 = self.cards[idx1];
        let card2 = self.cards[idx2];
        self.cards[idx1] = card2;
        self.cards[idx2] = card1;
        proof {
            assert(self.slots() =~= exchanged(old(self).slots(), idx1 as int, idx2 as int));
        }
    }
}

} // verus!
