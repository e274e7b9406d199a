use vstd::prelude::*;

verus! {

/// The face value of a card, from the two, the weakest, up to the ace.
#[derive(PartialOrd, Ord, PartialEq, Eq, Structural, Clone, Copy, Hash, Debug)]
pub enum Value {
    Two,
    Three,
    Four,
    Five,
    Six,
    Seven,
    Eight,
    Nine,
    Ten,
    Jack,
    Queen,
    King,
    Ace,
}

impl Value {
    /// The thirteen values in rising order.
    pub fn all_values() -> (values: [Value; 13])
        ensures
            values@ =~= seq![
                Value::Two,
                Value::Three,
                Value::Four,
                Value::Five,
                Value::Six,
                Value::Seven,
                Value::Eight,
                Value::Nine,
                Value::Ten,
                Value::Jack,
                Value::Queen,
                Value::King,
                Value::Ace,
            ],
    {
        [
            Value::Two,
            Value::Three,
            Value::Four,
            Value::Five,
            Value::Six,
            Value::Seven,
            Value::Eight,
            Value::Nine,
            Value::Ten,
            Value::Jack,
            Value::Queen,
            Value::King,
            Value::Ace,
        ]
    }
}

} // verus!
