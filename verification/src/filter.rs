use vstd::prelude::*;
use vstd::utf8::encode_utf8;
use crate::consts::{HashFunctionCount, ItemsCount};
use crate::error::FilterError;
use crate::index::{modulo, slot};
use crate::lemmas::{
    lemma_fresh_filter_is_empty, lemma_insert_keeps_members, lemma_inserted_item_is_found, lemma_round_trip,
};
use crate::size::{calculate_required_hash_functions, lemma_hash_count_at_most_bits, optimal_hash_count};
use crate::store::{bits_of, max_bits, BitArray};

verus! {

/// Whether one of the first `hash_fns` hash functions sends `item` to
/// `index`, in an array of `len` bits.
pub open spec fn selects(item: Seq<u8>, hash_fns: nat, len: nat, index: int) -> bool {
    exists|ordinal: nat| ordinal < hash_fns && #[trigger] slot(item, ordinal, len) == index
}

/// Whether every byte of a compiled filter is `0` or `1`, and their number
/// is that of a bit array: at least one, at most `max_bits()`.
pub open spec fn valid_compiled(bytes: Seq<u8>) -> bool {
    &&& 1 <= bytes.len() <= max_bits()
    &&& forall|index: int| 0 <= index < bytes.len() ==> bytes[index] <= 1
}

/// What a filter is: its bits, in index order, and its number of hash
/// functions.
pub struct FilterState {
    pub bits: Seq<bool>,
    pub hash_fns: nat,
}

impl FilterState {
    /// The filter of `size` unset bits, with the number of hash functions
    /// that is optimal for `item_count` items.
    pub open spec fn fresh(item_count: nat, size: nat) -> FilterState {
        FilterState {
            bits: Seq::new(size, |index: int| false),
            hash_fns: optimal_hash_count(size, item_count),
        }
    }

    /// The filter that a compiled form stands for: bit `i` is set where byte
    /// `i` is `1`.
    pub open spec fn decoded(bytes: Seq<u8>, hash_fns: nat) -> FilterState {
        FilterState { bits: Seq::new(bytes.len(), |index: int| bytes[index] == 1u8), hash_fns }
    }

    /// The compiled form: one byte per bit, `1` where the bit is set.
    pub open spec fn compiled(self) -> Seq<u8> {
        Seq::new(
            self.bits.len(),
            |index: int|
                if self.bits[index] {
                    1u8
                } else {
                    0u8
                },
        )
    }

    /// The filter after `item` went in: the bits that were set, and those
    /// that the hash functions select for the item.
    pub open spec fn insert(self, item: Seq<u8>) -> FilterState {
        FilterState {
            bits: Seq::new(
                self.bits.len(),
                |index: int| self.bits[index] || selects(item, self.hash_fns, self.bits.len(), index),
            ),
            hash_fns: self.hash_fns,
        }
    }

    /// Whether every bit that the hash functions select for `item` is set.
    pub open spec fn query(self, item: Seq<u8>) -> bool {
        forall|ordinal: nat|
            ordinal < self.hash_fns ==> self.bits[#[trigger] slot(item, ordinal, self.bits.len())]
    }
}

/// A bloom filter over strings.
pub struct Zoomies {
    bits: BitArray,
    hash_fns: HashFunctionCount,
}

impl View for Zoomies {
    type V = FilterState;

    closed spec fn view(&self) -> FilterState {
        FilterState { bits: bits_of(self.bits), hash_fns: self.hash_fns as nat }
    }
}

impl Zoomies {
    #[verifier::type_invariant]
    spec fn well_formed(self) -> bool {
        1 <= bits_of(self.bits).len() <= max_bits()
    }

    /// Creates an empty filter of `size` bits for `item_count` expected
    /// items, with the optimal number of hash functions for the two.
    pub fn new(item_count: ItemsCount, size: u32) -> (result: Result<Zoomies, FilterError>)
        ensures
            match result {
                Ok(filter) => {
                    &&& item_count >= 1
                    &&& 1 <= size <= max_bits()
                    &&& filter@ == FilterState::fresh(item_count as nat, size as nat)
                    &&& forall|item: Seq<u8>| !#[trigger] filter@.query(item)
                },
                Err(error) => {
                    &&& error == FilterError::InvalidParameter
                    &&& (item_count == 0 || size == 0 || size > max_bits())
                },
            },
    {
        if size == 0 || size as usize > usize::MAX / 8 {
            return Err(FilterError::InvalidParameter);
        }
        proof {
            if item_count >= 1 {
                lemma_hash_count_at_most_bits(size as nat, item_count as nat);
            }
        }
        match calculate_required_hash_functions(size as usize, item_count) {
            Ok(hash_fns) => {
                let filter = Zoomies { bits: BitArray::zeroed(size as usize), hash_fns };
                assert forall|item: Seq<u8>| !#[trigger] filter@.query(item) by {
                    lemma_fresh_filter_is_empty(item_count as nat, size as nat, item);
                }
                Ok(filter)
            },
            Err(error) => Err(error),
        }
    }

    /// Rebuilds a filter from its compiled form and the number of hash
    /// functions that it was built with, which is taken as given.
    pub fn new_from_compiled_filter(bit_filter: &[u8], hash_fns: HashFunctionCount) -> (result: Result<Zoomies, FilterError>)
        ensures
            match result {
                Ok(filter) => {
                    &&& valid_compiled(bit_filter@)
                    &&& filter@ == FilterState::decoded(bit_filter@, hash_fns as nat)
                },
                Err(error) => {
                    &&& error == FilterError::InvalidCompiledFilter
                    &&& !valid_compiled(bit_filter@)
                },
            },
    {
        let length: usize = bit_filter.len();
        if length == 0 || length > usize::MAX / 8 {
            return Err(FilterError::InvalidCompiledFilter);
        }
        let mut new_filter = BitArray::zeroed(length);
        let mut i: usize = 0;
        while i < length
            invariant
                i <= length,
                length == bit_filter@.len(),
                1 <= length <= max_bits(),
                bits_of(new_filter).len() == length,
                forall|index: int| 0 <= index < i ==> bit_filter@[index] <= 1,
                forall|index: int| 0 <= index < i ==> bits_of(new_filter)[index] == (bit_filter@[index] == 1u8),
            decreases length - i,
        {
            let byte: u8 = bit_filter[i];
            if byte > 1 {
                return Err(FilterError::InvalidCompiledFilter);
            }
            new_filter.set(i, byte == 1);
            i = i + 1;
        }
        let filter = Zoomies { bits: new_filter, hash_fns };
        assert(filter@.bits =~= FilterState::decoded(bit_filter@, hash_fns as nat).bits);
        Ok(filter)
    }

    /// Insert an address into the filter
    pub fn insert_address(&mut self, item: String)
        ensures
            final(self)@ == old(self)@.insert(encode_utf8(item@)),
            final(self)@.hash_fns == old(self)@.hash_fns,
            final(self)@.bits.len() == old(self)@.bits.len(),
            forall|index: int|
                0 <= index < old(self)@.bits.len() && old(self)@.bits[index] ==> final(self)@.bits[index],
            final(self)@.query(encode_utf8(item@)),
            forall|other: Seq<u8>| old(self)@.query(other) ==> #[trigger] final(self)@.query(other),
    {
        proof {
            use_type_invariant(&*self);
        }
        let length: usize = self.bits.len();
        let ghost bytes = encode_utf8(item@);
        let ghost before = bits_of(self.bits);
        let mut i: u32 = 0;
        while i < self.hash_fns
            invariant
                i <= self.hash_fns,
                self.hash_fns == old(self).hash_fns,
                bytes == encode_utf8(item@),
                before == bits_of(old(self).bits),
                length == before.len(),
                1 <= length <= max_bits(),
                bits_of(self.bits).len() == length,
                forall|index: int|
                    0 <= index < length ==> bits_of(self.bits)[index] == (before[index] || selects(
                        bytes,
                        i as nat,
                        length as nat,
                        index,
                    )),
            decreases self.hash_fns - i,
        {
            let index: usize = modulo(item.as_str(), i as usize, length);
            let ghost earlier = bits_of(self.bits);
            self.bits.set(index, true);
            assert forall|other: int| 0 <= other < length implies bits_of(self.bits)[other] == (before[other]
                || selects(bytes, (i + 1) as nat, length as nat, other)) by {
                assert(slot(bytes, i as nat, length as nat) == index);
                assert(earlier[other] == (before[other] || selects(bytes, i as nat, length as nat, other)));
                if other != index && selects(bytes, (i + 1) as nat, length as nat, other) {
                    let ordinal = choose|ordinal: nat|
                        ordinal < (i + 1) as nat && #[trigger] slot(bytes, ordinal, length as nat) == other;
                    assert(ordinal < i as nat);
                }
                if selects(bytes, i as nat, length as nat, other) {
                    let ordinal = choose|ordinal: nat|
                        ordinal < i as nat && #[trigger] slot(bytes, ordinal, length as nat) == other;
                    assert(ordinal < (i + 1) as nat);
                }
            }
            i = i + 1;
        }
        assert(self@.bits =~= old(self)@.insert(bytes).bits);
        proof {
            lemma_inserted_item_is_found(old(self)@, bytes);
            assert forall|other: Seq<u8>| old(self)@.query(other) implies #[trigger] self@.query(other) by {
                lemma_insert_keeps_members(old(self)@, other, bytes);
            }
        }
    }

    /// Query the filter for an address: `false` says that the item was never
    /// inserted, `true` that it may have been.
    pub fn query_address(&self, item: String) -> (found: bool)
        ensures
            found == self@.query(encode_utf8(item@)),
    {
        proof {
            use_type_invariant(self);
        }
        let length: usize = self.bits.len();
        let ghost bytes = encode_utf8(item@);
        let mut i: u32 = 0;
        while i < self.hash_fns
            invariant
                i <= self.hash_fns,
                bytes == encode_utf8(item@),
                length == bits_of(self.bits).len(),
                1 <= length,
                forall|ordinal: nat|
                    ordinal < i ==> bits_of(self.bits)[#[trigger] slot(bytes, ordinal, length as nat)],
            decreases self.hash_fns - i,
        {
            let index: usize = modulo(item.as_str(), i as usize, length);
            if !self.bits.get(index).unwrap() {
                assert(!self@.bits[slot(bytes, i as nat, self@.bits.len())]);
                return false;
            }
            i = i + 1;
        }
        true
    }

    /// The compiled form of the filter: one byte per bit, in index order.
    pub fn extract_compiled_filter(&self) -> (bit_filter: Vec<u8>)
        ensures
            bit_filter@ == self@.compiled(),
            valid_compiled(bit_filter@),
            FilterState::decoded(bit_filter@, self@.hash_fns) == self@,
    {
        proof {
            use_type_invariant(self);
        }
        let length: usize = self.bits.len();
        let mut i: usize = 0;
        let mut bit_filter = Vec::<u8>::new();
        while i < length
            invariant
                i <= length,
                length == bits_of(self.bits).len(),
                bit_filter@.len() == i,
                forall|index: int|
                    0 <= index < i ==> bit_filter@[index] == (if bits_of(self.bits)[index] {
                        1u8
                    } else {
                        0u8
                    }),
            decreases length - i,
        {
            if self.bits.get(i).unwrap() {
                bit_filter.push(1);
            } else {
                bit_filter.push(0);
            }
            i = i + 1;
        }
        assert(bit_filter@ =~= self@.compiled());
        proof {
            lemma_round_trip(self@);
        }
        bit_filter
    }

    /// The number of hash functions that each insertion and query uses.
    pub fn get_hash_fns(&self) -> (hash_fns: HashFunctionCount)
        ensures
            hash_fns == self@.hash_fns,
    {
        self.hash_fns
    }

    /// The number of bits in the filter.
    pub fn bit_length(&self) -> (length: usize)
        ensures
            length == self@.bits.len(),
            1 <= length <= max_bits(),
    {
        proof {
            use_type_invariant(self);
        }
        self.bits.len()
    }
}

} // verus!
