use super::card::{canonical, Card, ALL_CARDS_NUM};
use super::rule::{
    contain_natural, contain_natural_spec, should_banker_hit, should_banker_hit_spec,
    should_player_hit, should_player_hit_spec,
};
use super::{hand::Hand, hand::Hands, shoe::Shoe};
use crate::cards::traits::deck::Deck;
use crate::cards::traits::shoe::Shoe as ShoeTrait;
use crate::cards::traits::shoe::ShoeError;
use crate::cards::traits::value::Value;
use vstd::prelude::*;

verus! {

/// A table of baccarat: the shoe, the hands of the round that is being dealt, and the record
/// of the rounds that were played.
pub struct Game {
    pub shoe: Shoe,
    pub hands: Hands,
    pub results: Vec<Result>,
}

/// A round as it is recorded: the hands at its end, and who won.
pub struct Result {
    pub hands: Hands,
    pub winner: Winner,
}

/// Who won a round.
#[derive(PartialEq, Eq, Structural, Clone, Copy, Debug)]
pub enum Winner {
    PLAYER,
    BANKER,
    TIE,
}

/// The hands of the player and the banker after the first four cards from `cursor`: the
/// cards go to the two in turn, the player first.
pub open spec fn first_two(slots: Seq<Card>, cursor: int) -> (Hand, Hand) {
    (
        Hand { first: slots[cursor], second: slots[cursor + 2], third: None },
        Hand { first: slots[cursor + 1], second: slots[cursor + 3], third: None },
    )
}

/// Whether the player takes a third card: neither hand is natural, and the player's asks
/// for one.
pub open spec fn player_takes(player: Hand, banker: Hand) -> bool {
    !contain_natural_spec(&player, &banker) && should_player_hit_spec(&player)
}

/// The player's hand after the player's turn to take a third card, which is `card` if the
/// player takes one.
pub open spec fn player_after(player: Hand, banker: Hand, card: Card) -> Hand {
    if player_takes(player, banker) {
        Hand { first: player.first, second: player.second, third: Some(card) }
    } else {
        player
    }
}

/// Whether the banker takes a third card, once the player holds `player_now`: neither of
/// the first hands was natural, and the banker's asks for one.
pub open spec fn banker_takes(player: Hand, banker: Hand, player_now: Hand) -> bool {
    !contain_natural_spec(&player, &banker) && should_banker_hit_spec(&player_now.third, &banker)
}

/// The hands that a round dealt from `slots` at `cursor` ends with, where the shoe has the
/// cards for it.
pub open spec fn round_hands(slots: Seq<Card>, cursor: int) -> (Hand, Hand) {
    let (player, banker) = first_two(slots, cursor);
    let player_now = player_after(player, banker, slots[cursor + 4]);
    let banker_card = if player_takes(player, banker) {
        slots[cursor + 5]
    } else {
        slots[cursor + 4]
    };
    let banker_now = if banker_takes(player, banker, player_now) {
        Hand { first: banker.first, second: banker.second, third: Some(banker_card) }
    } else {
        banker
    };
    (player_now, banker_now)
}

/// The number of cards that a round dealt from `slots` at `cursor` takes: four, and one
/// more for each third card.
pub open spec fn round_size(slots: Seq<Card>, cursor: int) -> int {
    let (player, banker) = first_two(slots, cursor);
    let player_now = player_after(player, banker, slots[cursor + 4]);
    4 + if player_takes(player, banker) {
        1int
    } else {
        0int
    } + if banker_takes(player, banker, player_now) {
        1int
    } else {
        0int
    }
}

/// The hand that counts for more wins, and two that count alike tie.
pub open spec fn winner_of(player: Hand, banker: Hand) -> Winner {
    if player.value_spec() > banker.value_spec() {
        Winner::PLAYER
    } else if player.value_spec() < banker.value_spec() {
        Winner::BANKER
    } else {
        Winner::TIE
    }
}

/// What a round dealt from `slots` at `cursor` is recorded as.
pub open spec fn round_result(slots: Seq<Card>, cursor: int) -> Result {
    let (player, banker) = round_hands(slots, cursor);
    Result {
        hands: Hands { player: Some(player), banker: Some(banker) },
        winner: winner_of(player, banker),
    }
}

impl Game {
    /// A game at a fresh shoe of `deck_num` decks, with no hand dealt and nothing recorded.
    pub fn new(deck_num: usize) -> (game: Game)
        requires
            ALL_CARDS_NUM * deck_num <= usize::MAX,
        ensures
            game.shoe.deck_inv(),
            game.shoe.deck_num == deck_num,
            game.shoe.card_idx == 0,
            game.shoe.cards@.len() == ALL_CARDS_NUM * deck_num,
            forall|idx: int|
                0 <= idx < game.shoe.cards@.len() ==> canonical(
                    #[trigger] game.shoe.cards@[idx],
                    idx % (ALL_CARDS_NUM as int),
                ),
            game.hands == (Hands { player: None, banker: None }),
            game.results@.len() == 0,
    {
        Game {
            shoe: Shoe::new(deck_num),
            hands: Hands { player: None, banker: None },
            results: Vec::new(),
        }
    }

    /// Deals two cards to each hand, or nothing where the shoe has fewer than four left.
    fn draw_first_two(&mut self) -> (dealt: core::result::Result<(), ShoeError>)
        requires
            old(self).shoe.deck_inv(),
        ensures
            final(self).shoe.deck_inv(),
            final(self).shoe.cards@ == old(self).shoe.cards@,
            final(self).shoe.card_map() == old(self).shoe.card_map(),
            final(self).shoe.deck_num == old(self).shoe.deck_num,
            final(self).results == old(self).results,
            match dealt {
                Ok(()) => {
                    let (player, banker) = first_two(
                        old(self).shoe.cards@,
                        old(self).shoe.card_idx as int,
                    );
                    &&& old(self).shoe.card_idx + 4 <= old(self).shoe.cards@.len()
                    &&& final(self).shoe.card_idx == old(self).shoe.card_idx + 4
                    &&& final(self).hands == (Hands { player: Some(player), banker: Some(banker) })
                },
                Err(error) => {
                    &&& error == ShoeError::ExhaustedShoe
                    &&& old(self).shoe.card_idx + 4 > old(self).shoe.cards@.len()
                    &&& final(self).shoe.card_idx == old(self).shoe.card_idx
                    &&& final(self).hands == old(self).hands
                },
            },
    {
        let drawn = self.shoe.draw_four();
        proof {
            self.shoe.lemma_deck_num(&old(self).shoe);
        }
        let cards = match drawn {
            Ok(cards) => cards,
            Err(error) => {
                return Err(error);
            },
        };
        let player_hand = Hand::new(cards[0], cards[2]);
        let banker_hand = Hand::new(cards[1], cards[3]);
        self.hands.player = Some(player_hand);
        self.hands.banker = Some(banker_hand);
        Ok(())
    }

    /// Deals the third cards that the rules ask for, the player's first. Where the shoe runs
    /// out, the cards dealt so far stay dealt.
    fn draw_third(&mut self) -> (dealt: core::result::Result<(), ShoeError>)
        requires
            old(self).shoe.deck_inv(),
        ensures
            final(self).shoe.deck_inv(),
            final(self).shoe.cards@ == old(self).shoe.cards@,
            final(self).shoe.card_map() == old(self).shoe.card_map(),
            final(self).shoe.deck_num == old(self).shoe.deck_num,
            final(self).results == old(self).results,
            match (old(self).hands.player, old(self).hands.banker) {
                (Some(player), Some(banker)) => {
                    let slots = old(self).shoe.cards@;
                    let cursor = old(self).shoe.card_idx as int;
                    let player_short = player_takes(player, banker) && cursor >= slots.len();
                    let player_now = player_after(player, banker, slots[cursor]);
                    let banker_at = if player_takes(player, banker) {
                        cursor + 1
                    } else {
                        cursor
                    };
                    let banker_short = banker_takes(player, banker, player_now) && banker_at
                        >= slots.len();
                    if player_short {
                        &&& dealt == Err::<(), ShoeError>(ShoeError::ExhaustedShoe)
                        &&& final(self).hands == old(self).hands
                        &&& final(self).shoe.card_idx == cursor
                    } else if banker_short {
                        &&& dealt == Err::<(), ShoeError>(ShoeError::ExhaustedShoe)
                        &&& final(self).hands == (Hands {
                            player: Some(player_now),
                            banker: Some(banker),
                        })
                        &&& final(self).shoe.card_idx == banker_at
                    } else {
                        &&& dealt == Ok::<(), ShoeError>(())
                        &&& final(self).hands == (Hands {
                            player: Some(player_now),
                            banker: Some(
                                if banker_takes(player, banker, player_now) {
                                    Hand {
                                        first: banker.first,
                                        second: banker.second,
                                        third: Some(slots[banker_at]),
                                    }
                                } else {
                                    banker
                                },
                            ),
                        })
                        &&& final(self).shoe.card_idx == banker_at + if banker_takes(
                            player,
                            banker,
                            player_now,
                        ) {
                            1int
                        } else {
                            0int
                        }
                    }
                },
                _ => {
                    &&& dealt == Ok::<(), ShoeError>(())
                    &&& final(self).hands == old(self).hands
                    &&& final(self).shoe.card_idx == old(self).shoe.card_idx
                },
            },
    {
        let (mut player_hand, mut banker_hand) = match (self.hands.player, self.hands.banker) {
            (Some(player_hand), Some(banker_hand)) => (player_hand, banker_hand),
            _ => {
                return Ok(());
            },
        };
        if !contain_natural(&player_hand, &banker_hand) {
            if should_player_hit(&player_hand) {
                let drawn = self.shoe.draw();
                proof {
                    self.shoe.lemma_deck_num(&old(self).shoe);
                }
                let card = match drawn {
                    Ok(card) => card,
                    Err(error) => {
                        return Err(error);
                    },
                };
                player_hand.third = Some(card);
                self.hands.player = Some(player_hand);
            }
            if should_banker_hit(&player_hand.third, &banker_hand) {
                let drawn = self.shoe.draw();
                proof {
                    self.shoe.lemma_deck_num(&old(self).shoe);
                }
                let card = match drawn {
                    Ok(card) => card,
                    Err(error) => {
                        return Err(error);
                    },
                };
                banker_hand.third = Some(card);
                self.hands.banker = Some(banker_hand);
            }
        }
        Ok(())
    }

    /// The winner between the two hands, where both are dealt.
    fn get_winner(&self) -> (winner: Option<Winner>)
        ensures
            winner == match (self.hands.player, self.hands.banker) {
                (Some(player), Some(banker)) => Some(winner_of(player, banker)),
                _ => None,
            },
    {
        match (self.hands.player, self.hands.banker) {
            (Some(player_hand), Some(banker_hand)) => {
                Some(
                    if player_hand.value() > banker_hand.value() {
                        Winner::PLAYER
                    } else if player_hand.value() < banker_hand.value() {
                        Winner::BANKER
                    } else {
                        Winner::TIE
                    },
                )
            },
            _ => None,
        }
    }

    /// Plays one round from the shoe: deals the hands, lets the rules give the third cards,
    /// and records the hands with their winner. The hands are then cleared for the next
    /// round.
    ///
    /// Where the shoe has not all the cards that the round takes, nothing is dealt and
    /// nothing recorded: the game stays as it was.
    pub fn play_one_round(&mut self) -> (played: core::result::Result<(), ShoeError>)
        requires
            old(self).shoe.deck_inv(),
        ensures
            final(self).shoe.deck_inv(),
            final(self).shoe.deck_num == old(self).shoe.deck_num,
            final(self).shoe.cards@ == old(self).shoe.cards@,
            final(self).shoe.card_map() == old(self).shoe.card_map(),
            match played {
                Ok(()) => {
                    &&& old(self).shoe.card_idx + round_size(
                        old(self).shoe.cards@,
                        old(self).shoe.card_idx as int,
                    ) <= old(self).shoe.cards@.len()
                    &&& final(self).shoe.card_idx == old(self).shoe.card_idx + round_size(
                        old(self).shoe.cards@,
                        old(self).shoe.card_idx as int,
                    )
                    &&& final(self).hands == (Hands { player: None, banker: None })
                    &&& final(self).results@ == old(self).results@.push(
                        round_result(old(self).shoe.cards@, old(self).shoe.card_idx as int),
                    )
                },
                Err(error) => {
                    &&& error == ShoeError::ExhaustedShoe
                    &&& old(self).shoe.card_idx + round_size(
                        old(self).shoe.cards@,
                        old(self).shoe.card_idx as int,
                    ) > old(self).shoe.cards@.len()
                    &&& final(self).shoe.card_idx == old(self).shoe.card_idx
                    &&& final(self).hands == old(self).hands
                    &&& final(self).results@ == old(self).results@
                },
            },
    {
        let card_idx = self.shoe.get_card_idx();
        let hands = self.hands;
        match self.draw_first_two() {
            Ok(()) => {},
            Err(error) => {
                return Err(error);
            },
        }
        match self.draw_third() {
            Ok(()) => {},
            Err(error) => {
                // the round is off: the cards go back
                self.shoe.card_idx = card_idx;
                self.hands = hands;
                return Err(error);
            },
        }
        if let Some(winner) = self.get_winner() {
            let mut hands = Hands { player: None, banker: None };
            core::mem::swap(&mut self.hands, &mut hands);
            self.results.push(Result { hands: hands, winner: winner });
        }
        Ok(())
    }
}

} // verus!
