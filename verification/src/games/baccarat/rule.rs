use super::card::Card;
use super::hand::Hand;
use crate::cards::traits::value::Value;
use vstd::prelude::*;

verus! {

/// A hand is natural where it counts for 8 or 9.
pub open spec fn is_natural_spec(hand: &Hand) -> bool {
    hand.value_spec() == 8 || hand.value_spec() == 9
}

pub fn is_natural(hand: &Hand) -> (natural: bool)
    ensures
        natural == is_natural_spec(hand),
{
    let value = hand.value();
    value == 8 || value == 9
}

pub open spec fn contain_natural_spec(hand1: &Hand, hand2: &Hand) -> bool {
    is_natural_spec(hand1) || is_natural_spec(hand2)
}

pub fn contain_natural(hand1: &Hand, hand2: &Hand) -> (natural: bool)
    ensures
        natural == contain_natural_spec(hand1, hand2),
{
    is_natural(hand1) || is_natural(hand2)
}

/// The player takes a third card on 5 or less.
pub open spec fn should_player_hit_spec(hand: &Hand) -> bool {
    hand.value_spec() <= 5
}

pub fn should_player_hit(hand: &Hand) -> (hit: bool)
    ensures
        hit == should_player_hit_spec(hand),
{
    hand.value() <= 5
}

/// Whether the banker takes a third card. Where the player took none, the banker does on 5
/// or less. Else it depends on what the banker holds and on what the player's third card
/// counts for: on 2 or less the banker always draws, on 3 unless that card counts for 8, on
/// 4 where it counts for 2 to 7, on 5 for 4 to 7, on 6 for 6 or 7, and on more never.
pub open spec fn should_banker_hit_spec(player_third: &Option<Card>, hand: &Hand) -> bool {
    let value = hand.value_spec();
    match player_third {
        Some(card) => {
            let third = card.value_spec();
            ||| value <= 2
            ||| value == 3 && third != 8
            ||| value == 4 && 2 <= third <= 7
            ||| value == 5 && 4 <= third <= 7
            ||| value == 6 && 6 <= third <= 7
        },
        None => value <= 5,
    }
}

pub fn should_banker_hit(player_third: &Option<Card>, hand: &Hand) -> (hit: bool)
    ensures
        hit == should_banker_hit_spec(player_third, hand),
{
    let value = hand.value();
    match player_third {
        Some(ref card) => {
            let player_third = card.value();
            if value <= 2 {
                true
            } else if value == 3 {
                player_third != 8
            } else if value == 4 {
                player_third >= 2 && player_third <= 7
            } else if value == 5 {
                player_third >= 4 && player_third <= 7
            } else if value == 6 {
                player_third == 6 || player_third == 7
            } else {
                false
            }
        },
        None => value <= 5,
    }
}

} // verus!
