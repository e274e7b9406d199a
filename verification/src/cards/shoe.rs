use super::card::{all_cards, Card, ALL_CARDS_NUM};
use super::traits::deck::{exchanged, lemma_exchanged_keeps_cards};
use super::traits::order::Order;
use super::traits::shoe::ShoeError;
use crate::arrays::vec_into_array;
use crate::rng::gen_range;
use vstd::pervasive::unreached;
use vstd::prelude::*;

verus! {

/// A shoe without an index: cards in a row, and the next draw position.
#[derive(Clone)]
pub struct Shoe {
    pub cards: Vec<Card>,
    pub card_idx: usize,
}

/// Whether `draws` are draws that a shuffle of `card_num` cards from `start_idx` on can make:
/// one for each slot from `start_idx` to the last, and each a slot that is not before the
/// slot it is drawn for.
pub open spec fn draws_fit(draws: Seq<usize>, start_idx: int, card_num: int) -> bool {
    &&& draws.len() == if start_idx < card_num {
        card_num - start_idx
    } else {
        0
    }
    &&& forall|turn: int|
        0 <= turn < draws.len() ==> start_idx + turn <= #[trigger] draws[turn] < card_num
}

/// What the draws make of `cards`: slot by slot from `start_idx` on, the card of the slot
/// changes places with the card of the slot that was drawn for it.
pub open spec fn shuffled(cards: Seq<Card>, start_idx: int, draws: Seq<usize>) -> Seq<Card>
    decreases draws.len(),
{
    if draws.len() == 0 {
        cards
    } else {
        exchanged(
            shuffled(cards, start_idx, draws.drop_last()),
            start_idx + draws.len() - 1,
            draws.last() as int,
        )
    }
}

impl Shoe {
    /// A shoe of `deck_num` copies of one canonical deck, one after another, ready to deal
    /// from the top. A card of a later copy is the card of the first, token and all.
    pub fn new(deck_num: usize) -> (shoe: Shoe)
        requires
            ALL_CARDS_NUM * deck_num <= usize::MAX,
        ensures
            shoe.card_idx == 0,
            shoe.cards@.len() == ALL_CARDS_NUM * deck_num,
            forall|idx: int|
                0 <= idx < shoe.cards@.len() ==> (#[trigger] shoe.cards@[idx]).order_spec() == idx
                    % (ALL_CARDS_NUM as int),
            forall|idx: int|
                0 <= idx < shoe.cards@.len() ==> #[trigger] shoe.cards@[idx] == shoe.cards@[idx
                    % (ALL_CARDS_NUM as int)],
    {
        let cards = all_cards();
        let card_num = cards.len() * deck_num;
        let mut shoe_cards: Vec<Card> = Vec::with_capacity(card_num);
        let mut idx: usize = 0;
        while idx < card_num
            invariant
                idx <= card_num,
                card_num == ALL_CARDS_NUM * deck_num,
                shoe_cards@.len() == idx,
                cards@.len() == ALL_CARDS_NUM,
                forall|place: int|
                    0 <= place < ALL_CARDS_NUM ==> (#[trigger] cards@[place]).order_spec()
                        == place,
                forall|built: int|
                    0 <= built < idx ==> #[trigger] shoe_cards@[built] == cards@[built % (
                    ALL_CARDS_NUM as int)],
            decreases card_num - idx,
        {
            shoe_cards.push(cards[idx % cards.len()]);
            idx += 1;
        }
        Shoe { cards: shoe_cards, card_idx: 0 }
    }

    /// Shuffles the whole shoe: for each slot from the first to the last, chance draws a slot
    /// that is not before it, and the cards of the two change places. So the shoe holds the
    /// same cards as before, in an order that the draws make. The next draw position stays.
    pub fn shuffle(&mut self)
        ensures
            final(self).card_idx == old(self).card_idx,
            final(self).cards@.len() == old(self).cards@.len(),
            final(self).cards@.to_multiset() == old(self).cards@.to_multiset(),
            exists|draws: Seq<usize>|
                #[trigger] draws_fit(draws, 0, old(self).cards@.len() as int)
                    && final(self).cards@ == shuffled(old(self).cards@, 0, draws),
    {
        self.shuffle_from(0);
    }

    /// Shuffles the cards from `start_idx` on among themselves: for each slot from
    /// `start_idx` to the last, chance draws a slot that is not before it, and the cards of
    /// the two change places. So the cards before `start_idx` stay where they are, and the
    /// shoe holds the same cards as before. The next draw position stays.
    pub fn shuffle_from(&mut self, start_idx: usize)
        ensures
            final(self).card_idx == old(self).card_idx,
            final(self).cards@.len() == old(self).cards@.len(),
            final(self).cards@.to_multiset() == old(self).cards@.to_multiset(),
            forall|idx: int|
                0 <= idx < start_idx && idx < old(self).cards@.len() ==> final(self).cards@[idx]
                    == old(self).cards@[idx],
            exists|draws: Seq<usize>|
                #[trigger] draws_fit(draws, start_idx as int, old(self).cards@.len() as int)
                    && final(self).cards@ == shuffled(old(self).cards@, start_idx as int, draws),
    {
        let card_num = self.cards.len();
        let ghost mut draws: Seq<usize> = Seq::empty();
        let mut idx = start_idx;
        while idx < card_num
            invariant
                start_idx <= idx,
                card_num == self.cards@.len(),
                self.card_idx == old(self).card_idx,
                self.cards@.len() == old(self).cards@.len(),
                self.cards@.to_multiset() == old(self).cards@.to_multiset(),
                forall|kept: int|
                    0 <= kept < start_idx && kept < card_num ==> self.cards@[kept] == old(
                        self,
                    ).cards@[kept],
                draws.len() == idx - start_idx,
                forall|turn: int|
                    0 <= turn < draws.len() ==> start_idx + turn <= #[trigger] draws[turn]
                        < card_num,
                self.cards@ == shuffled(old(self).cards@, start_idx as int, draws),
            decreases card_num - idx,
        {
            let mut rng = rand::thread_rng();
            let target_idx = gen_range(&mut rng, idx, card_num);
            let ghost before = self.cards@;
            let card = self.cards[idx];
            let target = self.cards[target_idx];
            self.cards[idx] = target;
            self.cards[target_idx] = card;
            proof {
                assert(self.cards@ == exchanged(before, idx as int, target_idx as int));
                lemma_exchanged_keeps_cards(before, idx as int, target_idx as int);
                assert(draws.push(target_idx).drop_last() == draws);
                draws = draws.push(target_idx);
            }
            idx += 1;
        }
        proof {
            assert(draws_fit(draws, start_idx as int, old(self).cards@.len() as int));
        }
    }

    /// Starts to deal from the top again.
    pub fn redraw(&mut self)
        ensures
            final(self).card_idx == 0,
            final(self).cards == old(self).cards,
    {
        self.card_idx = 0;
    }

    /// Draws the next `SIZE` cards, or none at all where fewer are left.
    #[inline]
    pub fn draw_n<const SIZE: usize>(&mut self) -> (drawn: Result<[Card; SIZE], ShoeError>)
        ensures
            final(self).cards == old(self).cards,
            match drawn {
                Ok(cards) => {
                    &&& old(self).card_idx + SIZE <= old(self).cards@.len()
                    &&& cards@ == old(self).cards@.subrange(
                        old(self).card_idx as int,
                        old(self).card_idx + SIZE,
                    )
                    &&& final(self).card_idx == old(self).card_idx + SIZE
                },
                Err(error) => {
                    &&& error == ShoeError::ExhaustedShoe
                    &&& old(self).card_idx + SIZE > old(self).cards@.len()
                    &&& final(self).card_idx == old(self).card_idx
                },
            },
    {
        if self.card_idx > self.cards.len() || SIZE > self.cards.len() - self.card_idx {
            return Err(ShoeError::ExhaustedShoe);
        }
        let mut cards: Vec<Card> = Vec::with_capacity(SIZE);
        let mut idx: usize = 0;
        while idx < SIZE
            invariant
                idx <= SIZE,
                self.card_idx + SIZE <= self.cards@.len() <= usize::MAX,
                cards@ == self.cards@.subrange(self.card_idx as int, self.card_idx + idx),
            decreases SIZE - idx,
        {
            cards.push(self.cards[self.card_idx + idx]);
            idx += 1;
        }
        self.card_idx += SIZE;
        match vec_into_array::<Card, SIZE>(cards) {
            Ok(cards) => Ok(cards),
            Err(_) => unreached(),
        }
    }

    /// Draws the next card, where one is left.
    pub fn draw(&mut self) -> (drawn: Result<Card, ShoeError>)
        ensures
            final(self).cards == old(self).cards,
            match drawn {
                Ok(card) => {
                    &&& old(self).card_idx < old(self).cards@.len()
                    &&& card == old(self).cards@[old(self).card_idx as int]
                    &&& final(self).card_idx == old(self).card_idx + 1
                },
                Err(error) => {
                    &&& error == ShoeError::ExhaustedShoe
                    &&& old(self).card_idx >= old(self).cards@.len()
                    &&& final(self).card_idx == old(self).card_idx
                },
            },
    {
        match self.draw_n::<1>() {
            Ok(cards) => Ok(cards[0]),
            Err(error) => Err(error),
        }
    }

    /// Draws the next two cards, or none at all where fewer are left.
    pub fn draw_two(&mut self) -> (drawn: Result<[Card; 2], ShoeError>)
        ensures
            final(self).cards == old(self).cards,
            match drawn {
                Ok(cards) => {
                    &&& old(self).card_idx + 2 <= old(self).cards@.len()
                    &&& cards@ == old(self).cards@.subrange(
                        old(self).card_idx as int,
                        old(self).card_idx + 2,
                    )
                    &&& final(self).card_idx == old(self).card_idx + 2
                },
                Err(error) => {
                    &&& error == ShoeError::ExhaustedShoe
                    &&& old(self).card_idx + 2 > old(self).cards@.len()
                    &&& final(self).card_idx == old(self).card_idx
                },
            },
    {
        self.draw_n::<2>()
    }

    /// Draws the next three cards, or none at all where fewer are left.
    pub fn draw_three(&mut self) -> (drawn: Result<[Card; 3], ShoeError>)
        ensures
            final(self).cards == old(self).cards,
            match drawn {
                Ok(cards) => {
                    &&& old(self).card_idx + 3 <= old(self).cards@.len()
                    &&& cards@ == old(self).cards@.subrange(
                        old(self).card_idx as int,
                        old(self).card_idx + 3,
                    )
                    &&& final(self).card_idx == old(self).card_idx + 3
                },
                Err(error) => {
                    &&& error == ShoeError::ExhaustedShoe
                    &&& old(self).card_idx + 3 > old(self).cards@.len()
                    &&& final(self).card_idx == old(self).card_idx
                },
            },
    {
        self.draw_n::<3>()
    }

    /// Draws the next four cards, or none at all where fewer are left.
    pub fn draw_four(&mut self) -> (drawn: Result<[Card; 4], ShoeError>)
        ensures
            final(self).cards == old(self).cards,
            match drawn {
                Ok(cards) => {
                    &&& old(self).card_idx + 4 <= old(self).cards@.len()
                    &&& cards@ == old(self).cards@.subrange(
                        old(self).card_idx as int,
                        old(self).card_idx + 4,
                    )
                    &&& final(self).card_idx == old(self).card_idx + 4
                },
                Err(error) => {
                    &&& error == ShoeError::ExhaustedShoe
                    &&& old(self).card_idx + 4 > old(self).cards@.len()
                    &&& final(self).card_idx == old(self).card_idx
                },
            },
    {
        self.draw_n::<4>()
    }
}

} // verus!
