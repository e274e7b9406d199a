pub mod card;
pub mod deck;
pub mod index;
pub mod number;
pub mod shoe;
pub mod suit;
pub mod traits;
pub mod value;
