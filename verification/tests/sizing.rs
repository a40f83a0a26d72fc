use zoomies::{calculate_required_hash_functions, FilterError};

#[test]
fn hash_functions_for_959_bits_and_100_items() {
    assert_eq!(calculate_required_hash_functions(959, 100), Ok(7));
}

#[test]
fn hash_functions_round_up() {
    assert_eq!(calculate_required_hash_functions(1000, 10), Ok(70));
    assert_eq!(calculate_required_hash_functions(100, 7), Ok(10));
    assert_eq!(calculate_required_hash_functions(9586, 1000), Ok(7));
    assert_eq!(calculate_required_hash_functions(20, 10), Ok(2));
    assert_eq!(calculate_required_hash_functions(3, 1), Ok(3));
    assert_eq!(calculate_required_hash_functions(2, 1), Ok(2));
}

#[test]
fn hash_functions_never_fewer_than_one() {
    assert_eq!(calculate_required_hash_functions(1, 1_000_000), Ok(1));
    assert_eq!(calculate_required_hash_functions(10, 10), Ok(1));
    assert_eq!(calculate_required_hash_functions(1, 1), Ok(1));
    assert_eq!(calculate_required_hash_functions(0, 5), Ok(1));
    assert_eq!(calculate_required_hash_functions(1, u32::MAX), Ok(1));
}

#[test]
fn hash_functions_reject_zero_items() {
    assert_eq!(calculate_required_hash_functions(959, 0), Err(FilterError::InvalidParameter));
    assert_eq!(calculate_required_hash_functions(0, 0), Err(FilterError::InvalidParameter));
    assert_eq!(calculate_required_hash_functions(usize::MAX, 0), Err(FilterError::InvalidParameter));
}

#[test]
fn hash_functions_for_the_largest_32_bit_length() {
    assert_eq!(calculate_required_hash_functions(4_294_967_295, 1), Ok(2_977_044_472));
}

#[test]
fn hash_functions_reject_a_count_beyond_32_bits() {
    let fits: u64 = 6_196_328_017;
    let too_many: u64 = 6_196_328_018;
    if let (Ok(fits), Ok(too_many)) = (usize::try_from(fits), usize::try_from(too_many)) {
        assert_eq!(calculate_required_hash_functions(fits, 1), Ok(u32::MAX));
        assert_eq!(calculate_required_hash_functions(too_many, 1), Err(FilterError::InvalidParameter));
        assert_eq!(calculate_required_hash_functions(too_many, 2), Ok(2_147_483_648));
        assert_eq!(calculate_required_hash_functions(usize::MAX, 1), Err(FilterError::InvalidParameter));
    }
}

#[test]
fn hash_functions_agree_with_the_floating_point_formula() {
    let cases: [(usize, u32); 6] = [(959, 100), (1000, 10), (100, 7), (9586, 1000), (4793, 500), (64, 3)];
    for (bits, items) in cases {
        let expected = ((bits as f64) / (items as f64) * f64::ln(2.0)).ceil().max(1.0) as u32;
        assert_eq!(calculate_required_hash_functions(bits, items), Ok(expected));
    }
}

#[test]
fn error_messages_name_the_condition() {
    assert_eq!(FilterError::InvalidParameter.message(), "InvalidParameter");
    assert_eq!(FilterError::InvalidCompiledFilter.message(), "InvalidCompiledFilter");
}
