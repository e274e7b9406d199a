pub mod card;
pub mod game;
pub mod hand;
pub mod number;
pub mod rule;
pub mod shoe;
