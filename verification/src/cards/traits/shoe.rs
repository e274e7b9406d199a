//! The shoe: a deck that deals from the front, keeps a positional index of its cards, and
//! can be made to deal a card of a wanted value identity next.

use super::deck::{exchanged, lemma_exchanged_keeps_cards, Deck};
use super::hash::{ValueHash, ValueHashT};
use crate::cards::index::{
    ascending, binary_search, first_after, indexes, lemma_first_after, lemma_first_after_unique,
    list_of, move_entry, relocated,
};
use vstd::prelude::*;

verus! {

/// Why a shoe could not do what it was asked.
#[derive(Clone, Copy, PartialEq, Eq, Structural, Debug)]
pub enum ShoeError {
    /// More cards were asked for than are left to draw.
    ExhaustedShoe,
    /// No card of the wanted value identity lies at or after the next draw position.
    RankUnavailable,
}

/// Forcing a card and then drawing one. The card that is forced lies at the draw position,
/// and the shoe holds the same cards as before. Since the card that is forced is dealt with
/// it, the draw after it takes the card behind it: that one is of the forced value identity
/// as well exactly where the two next cards were both of it before.
pub proof fn lemma_set_card_then_draw<C: ValueHash>(slots: Seq<C>, cursor: int, hash: ValueHashT)
    requires
        0 <= cursor,
        first_after(slots, hash, cursor) < slots.len(),
        cursor + 1 < slots.len(),
    ensures
        ({
            let forced = exchanged(slots, cursor, first_after(slots, hash, cursor));
            &&& forced[cursor].value_hash_spec() == hash
            &&& forced.to_multiset() == slots.to_multiset()
            &&& forced[cursor + 1].value_hash_spec() == hash <==> slots[cursor].value_hash_spec()
                == hash && slots[cursor + 1].value_hash_spec() == hash
        }),
{
    lemma_first_after(slots, hash, cursor);
    lemma_exchanged_keeps_cards(slots, cursor, first_after(slots, hash, cursor));
}

/// A deck that deals from the front and knows where its cards lie.
///
/// Beside the cards it keeps the next draw position and a positional index: for each value
/// identity the rising list of the slots that hold a card of it. A card that was drawn stays
/// in the index.
pub trait Shoe<Card: Sized + Copy + ValueHash>: Deck<Card = Card> {
    /// The next draw position: the slots before it are drawn.
    spec fn cursor(&self) -> nat;

    /// The positional index.
    spec fn card_map(&self) -> Map<ValueHashT, Seq<usize>>;

    /// The invariant of a shoe holds the cursor inside the shoe and the index to the cards.
    proof fn lemma_shoe_inv(&self)
        requires
            self.deck_inv(),
        ensures
            self.cursor() <= self.slots().len() <= usize::MAX,
            indexes(self.card_map(), self.slots()),
    ;

    /// Two shoes that are alike but for their cards have one cursor.
    proof fn lemma_shoe_same_but_cards(&self, other: &Self)
        requires
            self.same_but_cards(other),
        ensures
            self.cursor() == other.cursor(),
    ;

    //
    // Draw cards
    //
    /// Draws the next `SIZE` cards, or none at all where fewer are left.
    fn draw_n<const SIZE: usize>(&mut self) -> (drawn: Result<[Card; SIZE], ShoeError>)
        requires
            old(self).deck_inv(),
        ensures
            final(self).deck_inv(),
            final(self).slots() == old(self).slots(),
            final(self).card_map() == old(self).card_map(),
            match drawn {
                Ok(cards) => {
                    &&& old(self).cursor() + SIZE <= old(self).slots().len()
                    &&& cards@ == old(self).slots().subrange(
                        old(self).cursor() as int,
                        old(self).cursor() + SIZE,
                    )
                    &&& final(self).cursor() == old(self).cursor() + SIZE
                },
                Err(error) => {
                    &&& error == ShoeError::ExhaustedShoe
                    &&& old(self).cursor() + SIZE > old(self).slots().len()
                    &&& final(self).cursor() == old(self).cursor()
                },
            },
    ;

    /// Draws the next card, where one is left.
    fn draw(&mut self) -> (drawn: Result<Card, ShoeError>)
        requires
            old(self).deck_inv(),
        ensures
            final(self).deck_inv(),
            final(self).slots() == old(self).slots(),
            final(self).card_map() == old(self).card_map(),
            match drawn {
                Ok(card) => {
                    &&& old(self).cursor() < old(self).slots().len()
                    &&& card == old(self).slots()[old(self).cursor() as int]
                    &&& final(self).cursor() == old(self).cursor() + 1
                },
                Err(error) => {
                    &&& error == ShoeError::ExhaustedShoe
                    &&& old(self).cursor() >= old(self).slots().len()
                    &&& final(self).cursor() == old(self).cursor()
                },
            },
    {
        match self.draw_n::<1>() {
            Ok(cards) => {
                Ok(cards[0])
            },
            Err(error) => Err(error),
        }
    }

    /// Draws the next two cards, or none at all where fewer are left.
    fn draw_two(&mut self) -> (drawn: Result<[Card; 2], ShoeError>)
        requires
            old(self).deck_inv(),
        ensures
            final(self).deck_inv(),
            final(self).slots() == old(self).slots(),
            final(self).card_map() == old(self).card_map(),
            match drawn {
                Ok(cards) => {
                    &&& old(self).cursor() + 2 <= old(self).slots().len()
                    &&& cards@ == old(self).slots().subrange(
                        old(self).cursor() as int,
                        old(self).cursor() as int + 2,
                    )
                    &&& final(self).cursor() == old(self).cursor() + 2
                },
                Err(error) => {
                    &&& error == ShoeError::ExhaustedShoe
                    &&& old(self).cursor() + 2 > old(self).slots().len()
                    &&& final(self).cursor() == old(self).cursor()
                },
            },
    {
        self.draw_n::<2>()
    }

    /// Draws the next three cards, or none at all where fewer are left.
    fn draw_three(&mut self) -> (drawn: Result<[Card; 3], ShoeError>)
        requires
            old(self).deck_inv(),
        ensures
            final(self).deck_inv(),
            final(self).slots() == old(self).slots(),
            final(self).card_map() == old(self).card_map(),
            match drawn {
                Ok(cards) => {
                    &&& old(self).cursor() + 3 <= old(self).slots().len()
                    &&& cards@ == old(self).slots().subrange(
                        old(self).cursor() as int,
                        old(self).cursor() as int + 3,
                    )
                    &&& final(self).cursor() == old(self).cursor() + 3
                },
                Err(error) => {
                    &&& error == ShoeError::ExhaustedShoe
                    &&& old(self).cursor() + 3 > old(self).slots().len()
                    &&& final(self).cursor() == old(self).cursor()
                },
            },
    {
        self.draw_n::<3>()
    }

    /// Draws the next four cards, or none at all where fewer are left.
    fn draw_four(&mut self) -> (drawn: Result<[Card; 4], ShoeError>)
        requires
            old(self).deck_inv(),
        ensures
            final(self).deck_inv(),
            final(self).slots() == old(self).slots(),
            final(self).card_map() == old(self).card_map(),
            match drawn {
                Ok(cards) => {
                    &&& old(self).cursor() + 4 <= old(self).slots().len()
                    &&& cards@ == old(self).slots().subrange(
                        old(self).cursor() as int,
                        old(self).cursor() as int + 4,
                    )
                    &&& final(self).cursor() == old(self).cursor() + 4
                },
                Err(error) => {
                    &&& error == ShoeError::ExhaustedShoe
                    &&& old(self).cursor() + 4 > old(self).slots().len()
                    &&& final(self).cursor() == old(self).cursor()
                },
            },
    {
        self.draw_n::<4>()
    }

    //
    // Manipulate card
    //
    fn get_card_idx(&self) -> (card_idx: usize)
        ensures
            card_idx == self.cursor(),
    ;

    fn reset_card_idx(&mut self)
        requires
            old(self).deck_inv(),
        ensures
            final(self).deck_inv(),
            final(self).cursor() == 0,
            final(self).slots() == old(self).slots(),
            final(self).card_map() == old(self).card_map(),
    ;

    fn inc_card_idx(&mut self)
        requires
            old(self).deck_inv(),
            old(self).cursor() < old(self).slots().len(),
        ensures
            final(self).deck_inv(),
            final(self).cursor() == old(self).cursor() + 1,
            final(self).slots() == old(self).slots(),
            final(self).card_map() == old(self).card_map(),
    ;

    /// The slots of the cards that share the value identity of `card`.
    fn get_card_map(&self, card: &Card) -> (list: Option<&Vec<usize>>)
        ensures
            match list {
                Some(list) => self.card_map().contains_key(card.value_hash_spec()) && list@
                    == self.card_map()[card.value_hash_spec()],
                None => !self.card_map().contains_key(card.value_hash_spec()),
            },
    ;

    /// The list of the index that holds the slot `idx`, to be changed in place: what the
    /// caller leaves in it is what the index then holds.
    fn get_mut_card_map_from_idx(&mut self, idx: usize) -> (list: Option<&mut Vec<usize>>)
        requires
            idx < old(self).slots().len(),
        ensures
            final(self).slots() == old(self).slots(),
            final(self).same_but_cards(old(self)),
            match list {
                Some(list) => {
                    &&& old(self).card_map().contains_key(
                        old(self).slots()[idx as int].value_hash_spec(),
                    )
                    &&& list@ == old(self).card_map()[old(
                        self,
                    ).slots()[idx as int].value_hash_spec()]
                    &&& final(self).card_map() == old(self).card_map().insert(
                        old(self).slots()[idx as int].value_hash_spec(),
                        final(list)@,
                    )
                },
                None => {
                    &&& !old(self).card_map().contains_key(
                        old(self).slots()[idx as int].value_hash_spec(),
                    )
                    &&& final(self).card_map() == old(self).card_map()
                },
            },
    ;

    fn get_card_ref(&self, idx: usize) -> (card: &Card)
        requires
            idx < self.slots().len(),
        ensures
            *card == self.slots()[idx as int],
    ;

    /// The first slot at or after `after` that holds a card of the value identity of `card`,
    /// if there is one.
    fn find_card_idx_after(&self, card: &Card, after: usize) -> (found: Option<usize>)
        requires
            self.deck_inv(),
        ensures
            match found {
                Some(slot) => {
                    &&& after <= slot < self.slots().len()
                    &&& slot == first_after(self.slots(), card.value_hash_spec(), after as int)
                    &&& self.slots()[slot as int].value_hash_spec() == card.value_hash_spec()
                    &&& forall|skipped: int|
                        after <= skipped < slot ==> self.slots()[skipped].value_hash_spec()
                            != card.value_hash_spec()
                },
                None => {
                    &&& first_after(self.slots(), card.value_hash_spec(), after as int)
                        == self.slots().len()
                    &&& forall|skipped: int|
                        after <= skipped < self.slots().len()
                            ==> self.slots()[skipped].value_hash_spec() != card.value_hash_spec()
                },
            },
    {
        proof {
            self.lemma_shoe_inv();
        }
        let ghost hash = card.value_hash_spec();
        let ghost listed = list_of(self.card_map(), hash);
        let card_map = self.get_card_map(card);
        let found = match card_map {
            Some(card_map) => {
                let at = match binary_search(card_map, after) {
                    Ok(idx) => idx,
                    Err(idx) => idx,
                };
                if at < card_map.len() {
                    proof {
                        assert(listed.contains(listed[at as int]));
                        let slots = self.slots();
                        assert forall|skipped: int|
                            after <= skipped < listed[at as int] implies slots[skipped].value_hash_spec()
                            != hash by {
                            if slots[skipped].value_hash_spec() == hash {
                                assert(listed.contains(skipped as usize));
                                let lower = choose|lower: int|
                                    0 <= lower < listed.len() && listed[lower] == skipped as usize;
                                assert(lower < at);
                            }
                        }
                    }
                    Some(card_map[at])
                } else {
                    None
                }
            },
            None => None,
        };
        proof {
            match found {
                Some(slot) => {
                    lemma_first_after_unique(self.slots(), hash, after as int, slot as int);
                },
                None => {
                    let slots = self.slots();
                    assert forall|skipped: int|
                        after <= skipped < slots.len() implies slots[skipped].value_hash_spec()
                        != hash by {
                        if slots[skipped].value_hash_spec() == hash {
                            assert(listed.contains(skipped as usize));
                        }
                    }
                    if after <= self.slots().len() {
                        lemma_first_after_unique(
                            self.slots(),
                            hash,
                            after as int,
                            self.slots().len() as int,
                        );
                    }
                },
            }
        }
        found
    }

    /// Tells the index that the card at `idx_from` goes to `idx_to`: in the list that holds
    /// `idx_from`, that entry becomes `idx_to` and moves to where the rising order wants it.
    /// No other list changes. Where the list holds `idx_to` already, the two cards are alike
    /// and nothing changes.
    ///
    /// The cards themselves stay: until they are exchanged too, the index is ahead of them.
    fn move_idx(&mut self, idx_from: usize, idx_to: usize)
        requires
            idx_from < old(self).slots().len(),
            ascending(
                list_of(old(self).card_map(), old(self).slots()[idx_from as int].value_hash_spec()),
            ),
            list_of(
                old(self).card_map(),
                old(self).slots()[idx_from as int].value_hash_spec(),
            ).contains(idx_from),
        ensures
            final(self).slots() == old(self).slots(),
            final(self).same_but_cards(old(self)),
            final(self).card_map() == old(self).card_map().insert(
                old(self).slots()[idx_from as int].value_hash_spec(),
                list_of(
                    final(self).card_map(),
                    old(self).slots()[idx_from as int].value_hash_spec(),
                ),
            ),
            relocated(
                list_of(old(self).card_map(), old(self).slots()[idx_from as int].value_hash_spec()),
                list_of(
                    final(self).card_map(),
                    old(self).slots()[idx_from as int].value_hash_spec(),
                ),
                idx_from,
                idx_to,
            ),
    {
        let ghost hash = self.slots()[idx_from as int].value_hash_spec();
        proof {
            self.lemma_same_but_cards(self, self);
            assert(self.card_map().insert(hash, list_of(self.card_map(), hash))
                == self.card_map());
        }
        if idx_from == idx_to {
            return ;
        }
        match self.get_mut_card_map_from_idx(idx_from) {
            None => {
                return ;
            },
            Some(card_map) => {
                move_entry(card_map, idx_from, idx_to);
            },
        }
    }

    /// Makes the next card dealt one of the value identity of `target_card`, and deals it:
    /// the first such card at or after the next draw position changes places with the card at
    /// that position, and the position moves on by one. The shoe holds the same cards as
    /// before, and no card that was drawn has moved.
    ///
    /// Where no such card is left, nothing changes.
    fn set_card(&mut self, target_card: &Card) -> (set: Result<(), ShoeError>)
        requires
            old(self).deck_inv(),
        ensures
            final(self).deck_inv(),
            match set {
                Ok(()) => {
                    let found = first_after(
                        old(self).slots(),
                        target_card.value_hash_spec(),
                        old(self).cursor() as int,
                    );
                    &&& old(self).cursor() <= found < old(self).slots().len()
                    &&& final(self).slots() == exchanged(
                        old(self).slots(),
                        old(self).cursor() as int,
                        found,
                    )
                    &&& final(self).cursor() == old(self).cursor() + 1
                    &&& final(self).slots()[old(self).cursor() as int].value_hash_spec()
                        == target_card.value_hash_spec()
                    &&& final(self).slots().to_multiset() == old(self).slots().to_multiset()
                    &&& forall|drawn: int|
                        0 <= drawn < old(self).cursor() ==> final(self).slots()[drawn] == old(
                            self,
                        ).slots()[drawn]
                },
                Err(error) => {
                    &&& error == ShoeError::RankUnavailable
                    &&& first_after(
                        old(self).slots(),
                        target_card.value_hash_spec(),
                        old(self).cursor() as int,
                    ) == old(self).slots().len()
                    &&& final(self).slots() == old(self).slots()
                    &&& final(self).cursor() == old(self).cursor()
                    &&& final(self).card_map() == old(self).card_map()
                },
            },
    {
        proof {
            self.lemma_shoe_inv();
        }
        let card_idx = self.get_card_idx();
        if card_idx < self.card_num() && target_card.value_hash() == self.get_card_ref(
            card_idx,
        ).value_hash() {
            proof {
                lemma_first_after_unique(
                    self.slots(),
                    target_card.value_hash_spec(),
                    card_idx as int,
                    card_idx as int,
                );
                assert(exchanged(self.slots(), card_idx as int, card_idx as int) =~= self.slots());
            }
            self.inc_card_idx();
            return Ok(());
        }
        let target_idx = self.find_card_idx_after(target_card, card_idx);
        let target_idx = match target_idx {
            Some(target_idx) => target_idx,
            None => {
                return Err(ShoeError::RankUnavailable);
            },
        };
        proof {
            lemma_exchanged_keeps_cards(self.slots(), card_idx as int, target_idx as int);
        }
        let ghost before = *self;
        self.swap(card_idx, target_idx);
        proof {
            self.lemma_shoe_same_but_cards(&before);
        }
        self.inc_card_idx();
        Ok(())
    }
}

} // verus!
