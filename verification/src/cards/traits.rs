pub mod deck;
pub mod hash;
pub mod order;
pub mod shoe;
pub mod value;
