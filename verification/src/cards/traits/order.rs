use vstd::prelude::*;

verus! {

/// What has a fixed place in an enumeration.
pub trait Order {
    /// The place, counted from 0.
    spec fn order_spec(&self) -> u64;

    fn order(&self) -> (order: u64)
        ensures
            order == self.order_spec(),
    ;
}

} // verus!
