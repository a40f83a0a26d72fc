use vstd::prelude::*;
use crate::filter::{selects, valid_compiled, FilterState};
use crate::index::slot;
use crate::store::max_bits;

verus! {

impl FilterState {
    /// The filter after every item of `items` went in, in order.
    pub open spec fn insert_all(self, items: Seq<Seq<u8>>) -> FilterState
        decreases items.len(),
    {
        if items.len() == 0 {
            self
        } else {
            self.insert_all(items.drop_last()).insert(items.last())
        }
    }

    /// How many of `probes` the filter reports as possibly present.
    pub open spec fn positives(self, probes: Seq<Seq<u8>>) -> nat
        decreases probes.len(),
    {
        if probes.len() == 0 {
            0
        } else {
            self.positives(probes.drop_last()) + if self.query(probes.last()) {
                1nat
            } else {
                0nat
            }
        }
    }
}

/// Every position that a hash function selects lies inside the array.
pub proof fn lemma_slot_in_range(item: Seq<u8>, ordinal: nat, len: nat)
    requires
        len > 0,
    ensures
        0 <= slot(item, ordinal, len) < len,
{
}

/// Inserting changes neither the length of the array nor the number of hash
/// functions, and never unsets a bit.
pub proof fn lemma_insert_only_sets(state: FilterState, item: Seq<u8>)
    ensures
        state.insert(item).bits.len() == state.bits.len(),
        state.insert(item).hash_fns == state.hash_fns,
        forall|index: int|
            0 <= index < state.bits.len() && state.bits[index] ==> #[trigger] state.insert(item).bits[index],
{
}

/// An item is reported as possibly present right after it was inserted.
pub proof fn lemma_inserted_item_is_found(state: FilterState, item: Seq<u8>)
    requires
        state.bits.len() > 0,
    ensures
        state.insert(item).query(item),
{
    let len = state.bits.len();
    assert forall|ordinal: nat| ordinal < state.hash_fns implies state.insert(item).bits[#[trigger] slot(
        item,
        ordinal,
        len,
    )] by {
        lemma_slot_in_range(item, ordinal, len);
        assert(selects(item, state.hash_fns, len, slot(item, ordinal, len)));
    }
}

/// An item that is reported as possibly present stays so when another item
/// is inserted.
pub proof fn lemma_insert_keeps_members(state: FilterState, present: Seq<u8>, added: Seq<u8>)
    requires
        state.bits.len() > 0,
        state.query(present),
    ensures
        state.insert(added).query(present),
{
    let len = state.bits.len();
    assert forall|ordinal: nat| ordinal < state.hash_fns implies state.insert(added).bits[#[trigger] slot(
        present,
        ordinal,
        len,
    )] by {
        lemma_slot_in_range(present, ordinal, len);
    }
}

/// Inserting any number of items changes neither the length of the array
/// nor the number of hash functions.
pub proof fn lemma_insert_all_keeps_shape(state: FilterState, items: Seq<Seq<u8>>)
    ensures
        state.insert_all(items).bits.len() == state.bits.len(),
        state.insert_all(items).hash_fns == state.hash_fns,
    decreases items.len(),
{
    if items.len() > 0 {
        lemma_insert_all_keeps_shape(state, items.drop_last());
    }
}

/// An item that is reported as possibly present stays so however many items
/// are inserted afterwards.
pub proof fn lemma_insert_all_keeps_members(state: FilterState, present: Seq<u8>, later: Seq<Seq<u8>>)
    requires
        state.bits.len() > 0,
        state.query(present),
    ensures
        state.insert_all(later).query(present),
    decreases later.len(),
{
    if later.len() > 0 {
        lemma_insert_all_keeps_members(state, present, later.drop_last());
        lemma_insert_all_keeps_shape(state, later.drop_last());
        lemma_insert_keeps_members(state.insert_all(later.drop_last()), present, later.last());
    }
}

/// No false negatives: an inserted item is reported as possibly present
/// right away, and after any further insertions.
pub proof fn lemma_no_false_negatives(state: FilterState, item: Seq<u8>, later: Seq<Seq<u8>>)
    requires
        state.bits.len() > 0,
    ensures
        state.insert(item).query(item),
        state.insert(item).insert_all(later).query(item),
{
    lemma_inserted_item_is_found(state, item);
    lemma_insert_all_keeps_members(state.insert(item), item, later);
}

/// Inserting an item a second time changes nothing.
pub proof fn lemma_insert_idempotent(state: FilterState, item: Seq<u8>)
    ensures
        state.insert(item).insert(item) == state.insert(item),
{
    assert(state.insert(item).insert(item).bits =~= state.insert(item).bits);
}

/// Compiling a filter and decoding the result gives the filter back, so the
/// two answer every query alike.
pub proof fn lemma_round_trip(state: FilterState)
    requires
        1 <= state.bits.len() <= max_bits(),
    ensures
        valid_compiled(state.compiled()),
        FilterState::decoded(state.compiled(), state.hash_fns) == state,
        forall|item: Seq<u8>|
            #[trigger] FilterState::decoded(state.compiled(), state.hash_fns).query(item) == state.query(item),
{
    assert(FilterState::decoded(state.compiled(), state.hash_fns).bits =~= state.bits);
}

/// The number of probes that a filter reports as possibly present never goes
/// down when an item is inserted.
pub proof fn lemma_insert_keeps_positives(state: FilterState, added: Seq<u8>, probes: Seq<Seq<u8>>)
    requires
        state.bits.len() > 0,
    ensures
        state.positives(probes) <= state.insert(added).positives(probes),
    decreases probes.len(),
{
    if probes.len() > 0 {
        lemma_insert_keeps_positives(state, added, probes.drop_last());
        if state.query(probes.last()) {
            lemma_insert_keeps_members(state, probes.last(), added);
        }
    }
}

/// The number of probes that a filter reports as possibly present never goes
/// down, however many items are inserted.
pub proof fn lemma_positives_never_decrease(state: FilterState, added: Seq<Seq<u8>>, probes: Seq<Seq<u8>>)
    requires
        state.bits.len() > 0,
    ensures
        state.positives(probes) <= state.insert_all(added).positives(probes),
    decreases added.len(),
{
    if added.len() > 0 {
        lemma_positives_never_decrease(state, added.drop_last(), probes);
        lemma_insert_all_keeps_shape(state, added.drop_last());
        lemma_insert_keeps_positives(state.insert_all(added.drop_last()), added.last(), probes);
    }
}

/// A filter with no bit set and at least one hash function reports every
/// item as absent.
pub proof fn lemma_fresh_filter_is_empty(item_count: nat, size: nat, item: Seq<u8>)
    requires
        size > 0,
    ensures
        !FilterState::fresh(item_count, size).query(item),
{
    lemma_slot_in_range(item, 0, size);
    let fresh = FilterState::fresh(item_count, size);
    assert(0 < fresh.hash_fns);
    assert(!fresh.bits[slot(item, 0, fresh.bits.len())]);
}

} // verus!
