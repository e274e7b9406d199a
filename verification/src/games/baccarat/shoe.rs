//! The shoe of a baccarat table.

use super::card::{all_cards, canonical, Card, ALL_CARDS_NUM};
use super::number::Number;
use crate::arrays::vec_into_array;
use crate::cards::suit::Suit;
use crate::cards::traits::deck::{
    exchanged, lemma_map_keeps_multiset, lemma_same_cards_same_unique_hashes, unique_hashes, Deck,
};
use crate::cards::traits::hash::{UniqueHash, ValueHash, ValueHashT};
use crate::cards::traits::order::Order;
use crate::cards::index::{ascending, indexes, list_of, move_entry, relocated};
use crate::cards::traits::shoe::{Shoe as ShoeTrait, ShoeError};
use std::collections::hash_map::Entry;
use std::collections::HashMap;
use vstd::pervasive::unreached;
use vstd::prelude::*;
use vstd::seq_lib::to_multiset_build;

verus! {

/// The shoe of a baccarat table: decks in a row, the next draw position, and for each value
/// identity the rising list of the slots where a card of it lies. `deck_inv` says what holds
/// of the four together.
#[derive(Clone)]
pub struct Shoe {
    pub deck_num: usize,
    pub cards: Vec<Card>,
    pub card_idx: usize,  // next draw position
    pub card_pos: HashMap<ValueHashT, Vec<usize>>,  // card's value_hash -> vector of card position
}

/// How many cards of `slots` are of the suit and number.
pub open spec fn count_of(slots: Seq<Card>, suit: Suit, number: Number) -> nat {
    slots.filter(|card: Card| card.suit == suit && card.number == number).len()
}

/// A row of canonical decks, which may end inside a deck, holds a card once for each whole
/// deck, and once more where the last, broken deck reaches the card's place.
proof fn lemma_count_in_canonical_decks(slots: Seq<Card>, suit: Suit, number: Number)
    requires
        forall|idx: int|
            0 <= idx < slots.len() ==> canonical(
                #[trigger] slots[idx],
                idx % (ALL_CARDS_NUM as int),
            ),
    ensures
        count_of(slots, suit, number) == slots.len() / 52 + if slots.len() % 52 > suit.order_spec()
            * 13 + number.order_spec() {
            1int
        } else {
            0int
        },
    decreases slots.len(),
{
    reveal(Seq::filter);
    if slots.len() > 0 {
        let head = slots.drop_last();
        assert forall|idx: int| 0 <= idx < head.len() implies canonical(
            #[trigger] head[idx],
            idx % (ALL_CARDS_NUM as int),
        ) by {
            assert(head[idx] == slots[idx]);
        }
        lemma_count_in_canonical_decks(head, suit, number);
        let last = slots.last();
        assert(canonical(slots[slots.len() - 1], (slots.len() - 1) % (ALL_CARDS_NUM as int)));
        assert((last.suit == suit && last.number == number) <==> (slots.len() - 1) % 52
            == suit.order_spec() * 13 + number.order_spec());
    }
}

/// The cards of a suit and number are as many as the cards of the row that pass for one.
proof fn lemma_count_is_multiplicity(slots: Seq<Card>, suit: Suit, number: Number)
    ensures
        count_of(slots, suit, number) == slots.map_values(
            |card: Card| card.suit == suit && card.number == number,
        ).to_multiset().count(true),
    decreases slots.len(),
{
    reveal(Seq::filter);
    let is_one = |card: Card| card.suit == suit && card.number == number;
    if slots.len() == 0 {
        slots.map_values(is_one).to_multiset_ensures();
        assert(slots.map_values(is_one).to_multiset().len() == 0);
    } else {
        let head = slots.drop_last();
        lemma_count_is_multiplicity(head, suit, number);
        assert(slots.map_values(is_one) =~= head.map_values(is_one).push(is_one(slots.last())));
        to_multiset_build(head.map_values(is_one), is_one(slots.last()));
    }
}

/// Two rows of the same cards hold as many cards of each suit and number: where cards only
/// change places, the make-up of the shoe stays.
pub proof fn lemma_same_cards_same_counts(
    before: Seq<Card>,
    after: Seq<Card>,
    suit: Suit,
    number: Number,
)
    requires
        before.to_multiset() == after.to_multiset(),
    ensures
        count_of(before, suit, number) == count_of(after, suit, number),
{
    lemma_count_is_multiplicity(before, suit, number);
    lemma_count_is_multiplicity(after, suit, number);
    lemma_map_keeps_multiset(
        before,
        after,
        |card: Card| card.suit == suit && card.number == number,
    );
}

/// The lists of a positional index as sequences.
pub open spec fn lists_of(card_pos: Map<ValueHashT, Vec<usize>>) -> Map<ValueHashT, Seq<usize>> {
    Map::new(|hash: ValueHashT| card_pos.contains_key(hash), |hash: ValueHashT| card_pos[hash]@)
}

impl Shoe {
    /// A shoe of `deck_num` canonical decks, one after another, ready to deal from the top.
    /// Each card has a token of its own.
    pub fn new(deck_num: usize) -> (shoe: Shoe)
        requires
            ALL_CARDS_NUM * deck_num <= usize::MAX,
        ensures
            shoe.deck_inv(),
            shoe.deck_num == deck_num,
            shoe.card_idx == 0,
            shoe.cards@.len() == ALL_CARDS_NUM * deck_num,
            forall|idx: int|
                0 <= idx < shoe.cards@.len() ==> canonical(
                    #[trigger] shoe.cards@[idx],
                    idx % (ALL_CARDS_NUM as int),
                ),
            forall|suit: Suit, number: Number|
                #[trigger] count_of(shoe.cards@, suit, number) == deck_num,
    {
        let all = all_cards();
        let card_num = ALL_CARDS_NUM * deck_num;

        // repeatly copy deck
        let mut cards: Vec<Card> = Vec::with_capacity(card_num);
        let mut idx: usize = 0;
        while idx < card_num
            invariant
                idx <= card_num,
                cards@.len() == idx,
                all@.len() == ALL_CARDS_NUM,
                forall|place: int|
                    0 <= place < ALL_CARDS_NUM ==> canonical(#[trigger] all@[place], place),
                forall|built: int|
                    0 <= built < idx ==> canonical(
                        #[trigger] cards@[built],
                        built % (ALL_CARDS_NUM as int),
                    ),
            decreases card_num - idx,
        {
            cards.push(all[idx % ALL_CARDS_NUM]);
            idx += 1;
        }

        // update unique hash
        let mut idx: usize = 0;
        while idx < card_num
            invariant
                idx <= card_num,
                cards@.len() == card_num,
                forall|built: int|
                    0 <= built < card_num ==> canonical(
                        #[trigger] cards@[built],
                        built % (ALL_CARDS_NUM as int),
                    ),
            decreases card_num - idx,
        {
            let mut card = cards[idx];
            card.update_unique_hash();
            cards[idx] = card;
            idx += 1;
        }

        // calculate card_pos
        let mut card_pos: HashMap<ValueHashT, Vec<usize>> = HashMap::new();
        let mut idx: usize = 0;
        while idx < card_num
            invariant
                idx <= card_num,
                cards@.len() == card_num,
                forall|hash: ValueHashT|
                    {
                        &&& ascending(#[trigger] list_of(lists_of(card_pos@), hash))
                        &&& lists_of(card_pos@).contains_key(hash) ==> list_of(
                            lists_of(card_pos@),
                            hash,
                        ).len() > 0
                        &&& forall|slot: usize|
                            #[trigger] list_of(lists_of(card_pos@), hash).contains(slot) <==> slot
                                < idx && cards@[slot as int].value_hash_spec() == hash
                    },
            decreases card_num - idx,
        {
            let hash = cards[idx].value_hash();
            let ghost before = lists_of(card_pos@);
            let ghost listed = list_of(before, hash);
            match card_pos.entry(hash) {
                Entry::Occupied(entry) => {
                    let card_idxes = entry.into_mut();
                    card_idxes.push(idx);
                },
                Entry::Vacant(entry) => {
                    let card_idxes = entry.insert(Vec::with_capacity(deck_num));
                    card_idxes.push(idx);
                },
            }
            proof {
                let after = lists_of(card_pos@);
                assert(after =~= before.insert(hash, listed.push(idx)));
                assert forall|other: ValueHashT| other != hash implies list_of(after, other)
                    == list_of(before, other) by {}
                assert(list_of(after, hash) == listed.push(idx));
                assert forall|slot: usize| #[trigger]
                    listed.push(idx).contains(slot) <==> slot < idx + 1
                        && cards@[slot as int].value_hash_spec() == hash by {
                    if listed.push(idx).contains(slot) {
                        let at = choose|at: int|
                            0 <= at < listed.push(idx).len() && listed.push(idx)[at] == slot;
                        if at < listed.len() {
                            assert(listed[at] == slot);
                            assert(listed.contains(slot));
                        }
                    }
                    if slot < idx + 1 && cards@[slot as int].value_hash_spec() == hash {
                        if slot < idx {
                            assert(listed.contains(slot));
                            let at = choose|at: int| 0 <= at < listed.len() && listed[at] == slot;
                            assert(listed.push(idx)[at] == slot);
                        } else {
                            assert(listed.push(idx)[listed.len() as int] == slot);
                        }
                    }
                }
                assert(ascending(listed.push(idx))) by {
                    assert forall|lower: int, upper: int|
                        0 <= lower < upper < listed.push(idx).len() implies listed.push(
                        idx,
                    )[lower] < listed.push(idx)[upper] by {
                        if upper == listed.len() {
                            assert(listed.contains(listed[lower]));
                        }
                    }
                }
            }
            idx += 1;
        }
        proof {
            assert(cards@.len() == 52 * deck_num) by (nonlinear_arith)
                requires
                    cards@.len() == ALL_CARDS_NUM * deck_num,
                    ALL_CARDS_NUM == 52,
            ;
            assert forall|suit: Suit, number: Number| #[trigger]
                count_of(cards@, suit, number) == deck_num by {
                lemma_count_in_canonical_decks(cards@, suit, number);
            }
        }
        Shoe { deck_num: deck_num, cards: cards, card_idx: 0, card_pos: card_pos }
    }

    /// Two shoes that hold as many cards are made of as many decks.
    pub proof fn lemma_deck_num(&self, other: &Shoe)
        requires
            self.deck_inv(),
            other.deck_inv(),
            self.cards@.len() == other.cards@.len(),
        ensures
            self.deck_num == other.deck_num,
    {
        let per_deck = ALL_CARDS_NUM as int;
        let mine = self.deck_num as int;
        let theirs = other.deck_num as int;
        assert(mine == theirs) by (nonlinear_arith)
            requires
                per_deck * mine == per_deck * theirs,
                per_deck == 52,
        ;
    }

    /// In the index, makes the slot `idx_from` of the card that lies there into `idx_to`. The
    /// cards stay where they are.
    fn move_card_idx(&mut self, idx_from: usize, idx_to: usize)
        requires
            idx_from < old(self).cards@.len(),
            ascending(
                list_of(
                    lists_of(old(self).card_pos@),
                    old(self).cards@[idx_from as int].value_hash_spec(),
                ),
            ),
            list_of(
                lists_of(old(self).card_pos@),
                old(self).cards@[idx_from as int].value_hash_spec(),
            ).contains(idx_from),
        ensures
            final(self).cards == old(self).cards,
            final(self).deck_num == old(self).deck_num,
            final(self).card_idx == old(self).card_idx,
            lists_of(final(self).card_pos@) == lists_of(old(self).card_pos@).insert(
                old(self).cards@[idx_from as int].value_hash_spec(),
                list_of(
                    lists_of(final(self).card_pos@),
                    old(self).cards@[idx_from as int].value_hash_spec(),
                ),
            ),
            relocated(
                list_of(
                    lists_of(old(self).card_pos@),
                    old(self).cards@[idx_from as int].value_hash_spec(),
                ),
                list_of(
                    lists_of(final(self).card_pos@),
                    old(self).cards@[idx_from as int].value_hash_spec(),
                ),
                idx_from,
                idx_to,
            ),
    {
        let hash = self.cards[idx_from].value_hash();
        match self.card_pos.entry(hash) {
            Entry::Occupied(entry) => {
                move_entry(entry.into_mut(), idx_from, idx_to);
            },
            Entry::Vacant(_) => {},
        }
        proof {
            assert(lists_of(self.card_pos@) =~= lists_of(old(self).card_pos@).insert(
                hash,
                list_of(lists_of(self.card_pos@), hash),
            ));
        }
    }

    /// Shuffles the whole shoe and starts to deal from the top again.
    pub fn shuffle(&mut self)
        requires
            old(self).deck_inv(),
        ensures
            final(self).deck_inv(),
            final(self).deck_num == old(self).deck_num,
            final(self).card_idx == 0,
            final(self).cards@.len() == old(self).cards@.len(),
            final(self).cards@.to_multiset() == old(self).cards@.to_multiset(),
            unique_hashes(final(self).cards@).to_multiset() == unique_hashes(
                old(self).cards@,
            ).to_multiset(),
    {
        Deck::shuffle(self);
        self.reset_card_idx();
        proof {
            self.lemma_deck_num(old(self));
            lemma_same_cards_same_unique_hashes(old(self).cards@, self.cards@);
        }
    }
}

impl Deck for Shoe {
    type Card = Card;

    open spec fn slots(&self) -> Seq<Card> {
        self.cards@
    }

    /// The invariant of the shoe: it holds whole decks, the next draw position lies in it or
    /// at its end, and the index tells where the cards lie.
    open spec fn deck_inv(&self) -> bool {
        &&& self.cards@.len() == ALL_CARDS_NUM * self.deck_num <= usize::MAX
        &&& self.card_idx <= self.cards@.len()
        &&& indexes(lists_of(self.card_pos@), self.cards@)
    }

    open spec fn same_but_cards(&self, other: &Self) -> bool {
        self.deck_num == other.deck_num && self.card_idx == other.card_idx
    }

    proof fn lemma_same_but_cards(&self, middle: &Self, other: &Self) {
    }

    fn card_num(&self) -> (num: usize) {
        self.cards.len()
    }

    /// Exchanges the cards at `idx1` and `idx2`, and tells the index first. Two cards of one
    /// value identity change places with nothing to tell: the index lists both slots under
    /// that identity before and after.
    fn swap(&mut self, idx1: usize, idx2: usize) {
        assert(self.slots() == self.cards@);
        let ghost hash1 = self.cards@[idx1 as int].value_hash_spec();
        let ghost hash2 = self.cards@[idx2 as int].value_hash_spec();
        let ghost before = lists_of(self.card_pos@);
        if idx1 == idx2 {
            assert(exchanged(self.cards@, idx1 as int, idx2 as int) =~= self.cards@);
            return ;
        }
        if self.cards[idx1].value_hash() != self.cards[idx2].value_hash() {
            proof {
                assert(list_of(before, hash1).contains(idx1));
                assert(list_of(before, hash2).contains(idx2));
            }
            self.move_card_idx(idx1, idx2);
            proof {
                assert(list_of(lists_of(self.card_pos@), hash2) == list_of(before, hash2));
            }
            self.move_card_idx(idx2, idx1);
        }
        let card1 = self.cards[idx1];
        let card2 = self.cards[idx2];
        self.cards[idx1] = card2;
        self.cards[idx2] = card1;
        proof {
            let after = lists_of(self.card_pos@);
            let cards = old(self).cards@;
            assert(self.cards@ == exchanged(cards, idx1 as int, idx2 as int));
            assert(hash1 != hash2 ==> !list_of(before, hash1).contains(idx2));
            assert(hash1 != hash2 ==> !list_of(before, hash2).contains(idx1));
            assert forall|hash: ValueHashT|
                {
                    &&& ascending(#[trigger] list_of(after, hash))
                    &&& after.contains_key(hash) ==> list_of(after, hash).len() > 0
                    &&& forall|slot: usize|
                        #[trigger] list_of(after, hash).contains(slot) <==> slot < self.cards@.len()
                            && self.cards@[slot as int].value_hash_spec() == hash
                } by {
                if hash1 == hash2 || (hash != hash1 && hash != hash2) {
                    assert(list_of(after, hash) == list_of(before, hash));
                }
                assert forall|slot: usize| #[trigger]
                    list_of(after, hash).contains(slot) <==> slot < self.cards@.len()
                        && self.cards@[slot as int].value_hash_spec() == hash by {
                    assert(list_of(before, hash).contains(slot) <==> slot < cards.len()
                        && cards[slot as int].value_hash_spec() == hash);
                }
            }
        }
    }
}

impl ShoeTrait<Card> for Shoe {
    open spec fn cursor(&self) -> nat {
        self.card_idx as nat
    }

    open spec fn card_map(&self) -> Map<ValueHashT, Seq<usize>> {
        lists_of(self.card_pos@)
    }

    proof fn lemma_shoe_inv(&self) {
    }

    proof fn lemma_shoe_same_but_cards(&self, other: &Self) {
    }

    fn draw_n<const SIZE: usize>(&mut self) -> (drawn: Result<[Card; SIZE], ShoeError>) {
        if SIZE > self.cards.len() - self.card_idx {
            return Err(ShoeError::ExhaustedShoe);
        }
        let mut cards: Vec<Card> = Vec::with_capacity(SIZE);
        let mut idx: usize = 0;
        while idx < SIZE
            invariant
                idx <= SIZE,
                self.card_idx + SIZE <= self.cards@.len() <= usize::MAX,
                cards@ == self.cards@.subrange(self.card_idx as int, self.card_idx + idx),
            decreases SIZE - idx,
        {
            cards.push(self.cards[self.card_idx + idx]);
            idx += 1;
        }
        self.card_idx += SIZE;
        match vec_into_array::<Card, SIZE>(cards) {
            Ok(cards) => Ok(cards),
            Err(_) => unreached(),
        }
    }

    fn get_card_idx(&self) -> (card_idx: usize) {
        self.card_idx
    }

    fn reset_card_idx(&mut self) {
        self.card_idx = 0;
    }

    fn inc_card_idx(&mut self) {
        self.card_idx += 1;
    }

    fn get_card_ref(&self, idx: usize) -> (card: &Card) {
        &self.cards[idx]
    }

    fn get_card_map(&self, card: &Card) -> (list: Option<&Vec<usize>>) {
        let hash = card.value_hash();
        self.card_pos.get(&hash)
    }

    fn get_mut_card_map_from_idx(&mut self, idx: usize) -> (list: Option<&mut Vec<usize>>) {
        let hash = self.cards[idx].value_hash();
        match self.card_pos.entry(hash) {
            Entry::Occupied(entry) => Some(entry.into_mut()),
            Entry::Vacant(_) => None,
        }
    }
}

} // verus!
