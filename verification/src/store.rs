use vstd::prelude::*;
use bitvec::order::Lsb0;
use bitvec::vec::BitVec;

verus! {

/// A fixed-length array of bits, kept in a `bitvec::vec::BitVec`. What is
/// known of it is what the contracts of its methods say of `bits_of`; every
/// index handed to `set` is proved beforehand to lie inside the array.
#[verifier::external_body]
pub struct BitArray {
    inner: BitVec<usize, Lsb0>,
}

/// The bits that a bit array holds, in index order.
pub uninterp spec fn bits_of(array: BitArray) -> Seq<bool>;

/// The longest bit array that can be allocated: an eighth of the address
/// space, counted in bits.
pub open spec fn max_bits() -> nat {
    (usize::MAX / 8) as nat
}

impl BitArray {
    /// `BitVec::repeat` with `false`: an array of `len` unset bits. The call
    /// panics on a length above `BitSlice::MAX_BITS`, which is
    /// `usize::MAX >> 3`.
    #[verifier::external_body]
    pub(crate) fn zeroed(len: usize) -> (array: BitArray)
        requires
            len <= max_bits(),
        ensures
            bits_of(array) == Seq::new(len as nat, |i: int| false),
    {
        BitArray { inner: BitVec::repeat(false, len) }
    }

    /// `BitVec::len`: the number of bits held.
    #[verifier::external_body]
    pub(crate) fn len(&self) -> (len: usize)
        ensures
            len == bits_of(*self).len(),
    {
        self.inner.len()
    }

    /// `BitSlice::set`: writes `value` at `index` and leaves every other bit
    /// as it was. The call panics on an index outside the array, and on no
    /// other.
    #[verifier::external_body]
    pub(crate) fn set(&mut self, index: usize, value: bool)
        requires
            index < bits_of(*old(self)).len(),
        ensures
            bits_of(*final(self)) == bits_of(*old(self)).update(index as int, value),
        no_unwind
    {
        self.inner.set(index, value)
    }

    /// `BitSlice::get` with a single index: the bit at `index`, or `None`
    /// where the index is outside the array.
    #[verifier::external_body]
    pub(crate) fn get(&self, index: usize) -> (bit: Option<bool>)
        ensures
            bit == (if index < bits_of(*self).len() {
                Some(bits_of(*self)[index as int])
            } else {
                None
            }),
    {
        self.inner.get(index).as_deref().copied()
    }
}

} // verus!
