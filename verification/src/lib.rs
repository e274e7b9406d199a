//! Playing cards, a multi-deck shoe that keeps track of where every card lies,
//! and the rules of baccarat dealt from such a shoe.

mod arrays;
pub mod card;
pub mod cards;
pub mod games;
pub mod rng;
pub mod suit;
pub mod value;
