use vstd::prelude::*;

verus! {

/// The number of items to insert into the filter.
pub type ItemsCount = u32;

/// The number of hash functions to use.
pub type HashFunctionCount = u32;

} // verus!
