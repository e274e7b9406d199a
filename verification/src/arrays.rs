use vstd::prelude::*;

verus! {

/// `TryFrom<Vec<T>>` for `[T; N]`: std turns a vector of exactly `N` elements into the array
/// of those elements in their order, and hands any other vector back as it came.
#[verifier::external_body]
pub(crate) fn vec_into_array<T, const N: usize>(elements: Vec<T>) -> (array: Result<[T; N], Vec<T>>)
    ensures
        match array {
            Ok(array) => elements@.len() == N && array@ == elements@,
            Err(back) => elements@.len() != N && back@ == elements@,
        },
{
    elements.try_into()
}

} // verus!
