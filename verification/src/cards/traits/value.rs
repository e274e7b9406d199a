use vstd::prelude::*;

verus! {

/// What counts for a number of points.
pub trait Value {
    /// The points.
    spec fn value_spec(&self) -> i32;

    fn value(&self) -> (value: i32)
        ensures
            value == self.value_spec(),
    ;
}

} // verus!
