use vstd::prelude::*;
use crate::consts::{HashFunctionCount, ItemsCount};
use crate::error::FilterError;

verus! {

/// The natural logarithm of two in fixed point: its first eighteen decimal
/// places, as a multiple of `1 / LN2_SCALE`.
pub const LN2_SCALED: u64 = 693_147_180_559_945_309;

/// The denominator of `LN2_SCALED`.
pub const LN2_SCALE: u64 = 1_000_000_000_000_000_000;

/// The quotient `a / b`, rounded up to a whole number.
pub open spec fn ceil_div(a: nat, b: nat) -> nat
    recommends
        b > 0,
{
    if a % b == 0 {
        a / b
    } else {
        a / b + 1
    }
}

/// The number of hash functions that minimises the false-positive rate of a
/// filter of `bits` bits holding `items` items: `(bits / items) * ln 2`,
/// rounded up, and at least one.
pub open spec fn optimal_hash_count(bits: nat, items: nat) -> nat
    recommends
        items > 0,
{
    let count = ceil_div(bits * (LN2_SCALED as nat), items * (LN2_SCALE as nat));
    if count < 1 {
        1
    } else {
        count
    }
}

/// What `calculate_required_hash_functions` returns: the optimal count where
/// there are items to hold and the count fits the result type.
pub open spec fn required_hash_functions(bits: nat, items: nat) -> Result<HashFunctionCount, FilterError> {
    if items == 0 || optimal_hash_count(bits, items) > u32::MAX {
        Err(FilterError::InvalidParameter)
    } else {
        Ok(optimal_hash_count(bits, items) as u32)
    }
}

/// Calculates the optimal number of hash functions to use:
/// `(bits / items_count) * ln 2`, rounded up, never less than one.
pub fn calculate_required_hash_functions(bits: usize, items_count: ItemsCount) -> (result: Result<HashFunctionCount, FilterError>)
    ensures
        result == required_hash_functions(bits as nat, items_count as nat),
        result matches Ok(count) ==> count >= 1,
        items_count == 0 ==> result == Err::<HashFunctionCount, FilterError>(FilterError::InvalidParameter),
{
    if items_count == 0 {
        return Err(FilterError::InvalidParameter);
    }
    assert(bits as nat * (LN2_SCALED as nat) <= 0xffff_ffff_ffff_ffff * 693_147_180_559_945_309) by (nonlinear_arith)
        requires
            bits <= 0xffff_ffff_ffff_ffff,
            LN2_SCALED == 693_147_180_559_945_309,
    ;
    let scaled: u128 = (bits as u128) * (LN2_SCALED as u128);
    let unit: u128 = (items_count as u128) * (LN2_SCALE as u128);
    let whole: u128 = scaled / unit;
    let count: u128 = if scaled % unit == 0 {
        whole
    } else {
        whole + 1
    };
    if count > u32::MAX as u128 {
        Err(FilterError::InvalidParameter)
    } else if count == 0 {
        Ok(1)
    } else {
        Ok(count as u32)
    }
}

/// Whether `count` is no less than `(bits / items) * ln 2`.
pub open spec fn reaches_optimum(count: nat, bits: nat, items: nat) -> bool {
    count * (items * LN2_SCALE) >= bits * LN2_SCALED
}

/// The optimal count is the least whole number, from one on, that is no less
/// than `(bits / items) * ln 2`.
pub proof fn lemma_hash_count_is_least(bits: nat, items: nat)
    requires
        items > 0,
    ensures
        optimal_hash_count(bits, items) >= 1,
        reaches_optimum(optimal_hash_count(bits, items), bits, items),
        forall|fewer: nat|
            1 <= fewer < optimal_hash_count(bits, items) ==> !#[trigger] reaches_optimum(fewer, bits, items),
{
    let scaled = bits * (LN2_SCALED as nat);
    let unit = items * (LN2_SCALE as nat);
    let count = optimal_hash_count(bits, items);
    assert(unit > 0) by (nonlinear_arith)
        requires
            unit == items * 1_000_000_000_000_000_000,
            items > 0,
    ;
    vstd::arithmetic::div_mod::lemma_fundamental_div_mod(scaled as int, unit as int);
    assert(count * unit >= scaled) by (nonlinear_arith)
        requires
            scaled == unit * (scaled / unit) + scaled % unit,
            0 <= scaled % unit < unit,
            count >= ceil_div(scaled, unit),
            ceil_div(scaled, unit) == if scaled % unit == 0 {
                scaled / unit
            } else {
                scaled / unit + 1
            },
    ;
    assert forall|fewer: nat| 1 <= fewer < count implies !#[trigger] reaches_optimum(fewer, bits, items) by {
        assert(fewer * unit < scaled) by (nonlinear_arith)
            requires
                scaled == unit * (scaled / unit) + scaled % unit,
                0 <= scaled % unit < unit,
                fewer < ceil_div(scaled, unit),
                ceil_div(scaled, unit) == if scaled % unit == 0 {
                    scaled / unit
                } else {
                    scaled / unit + 1
                },
        ;
    }
}

/// A filter never needs more hash functions than it has bits, nor more than
/// one where it has no bits.
pub proof fn lemma_hash_count_at_most_bits(bits: nat, items: nat)
    requires
        items > 0,
    ensures
        1 <= optimal_hash_count(bits, items),
        optimal_hash_count(bits, items) <= bits || optimal_hash_count(bits, items) == 1,
{
    let scaled = bits * (LN2_SCALED as nat);
    let unit = items * (LN2_SCALE as nat);
    assert(scaled <= bits * unit) by (nonlinear_arith)
        requires
            scaled == bits * 693_147_180_559_945_309,
            unit == items * 1_000_000_000_000_000_000,
            items >= 1,
    ;
    assert(ceil_div(scaled, unit) <= bits) by (nonlinear_arith)
        requires
            scaled <= bits * unit,
            unit > 0,
            ceil_div(scaled, unit) == if scaled % unit == 0 {
                scaled / unit
            } else {
                scaled / unit + 1
            },
    ;
}

} // verus!
