use vstd::prelude::*;

verus! {

/// Why a sizing computation or a reconstruction was refused.
#[derive(Clone, Copy, Debug, PartialEq, Eq, Structural)]
pub enum FilterError {
    /// An item count of zero, a bit length of zero or beyond what a bit
    /// array can hold, or a number of hash functions beyond 32 bits.
    InvalidParameter,
    /// A compiled filter that is empty, too long for a bit array, or holds a
    /// byte other than `0` and `1`.
    InvalidCompiledFilter,
}

impl FilterError {
    /// The name of the condition, as shown to callers.
    pub fn message(&self) -> (text: String)
        ensures
            text@ == (match *self {
                FilterError::InvalidParameter => "InvalidParameter"@,
                FilterError::InvalidCompiledFilter => "InvalidCompiledFilter"@,
            }),
    {
        match self {
            FilterError::InvalidParameter => "InvalidParameter".to_string(),
            FilterError::InvalidCompiledFilter => "InvalidCompiledFilter".to_string(),
        }
    }
}

} // verus!
