use zoomies::{hash, modulo, reduce};

#[test]
fn hash_matches_the_published_xxh64_digests() {
    assert_eq!(hash("", 0), 0xEF46_DB37_51D8_E999);
    assert_eq!(hash("a", 0), 0xD24E_C4F1_A98C_6E5B);
    assert_eq!(hash("abc", 0), 0x44BC_2CF5_AD77_0999);
}

#[test]
fn hash_depends_on_the_seed() {
    assert_eq!(hash("0x1234", 0), 0x8aa0_93d5_8dfb_aef1);
    assert_eq!(hash("0x1234", 1), 0x4ce7_ca65_1316_9534);
    assert_eq!(hash("0x1234", 2), 0x662a_eb67_eb7d_738b);
    assert_eq!(hash("0x1234", 6), 0x281d_d4ae_1606_9cf4);
}

#[test]
fn hash_reads_the_utf8_bytes_of_the_item() {
    assert_eq!(hash("héllo", 0), 0x3bd0_6310_388e_bbe4);
    assert_eq!(hash("The quick brown fox jumps over the lazy dog, twice over.", 2), 0x0eac_3745_4880_5a04);
}

#[test]
fn hash_is_deterministic() {
    for seed in 0..16usize {
        assert_eq!(hash("0xdeadbeef", seed), hash("0xdeadbeef", seed));
    }
}

#[test]
fn reduce_is_the_remainder() {
    assert_eq!(reduce(1000, 7), 6);
    assert_eq!(reduce(0, 959), 0);
    assert_eq!(reduce(958, 959), 958);
    assert_eq!(reduce(959, 959), 0);
    assert_eq!(reduce(u64::MAX, 1), 0);
    assert_eq!(reduce(0x8aa0_93d5_8dfb_aef1, 959), 337);
    assert_eq!(reduce(0x8aa0_93d5_8dfb_aef1, 1_000_003), 504_294);
}

#[test]
fn modulo_gives_the_position_of_each_ordinal() {
    let expected: [usize; 7] = [337, 542, 575, 581, 489, 73, 636];
    for (seed, position) in expected.iter().enumerate() {
        assert_eq!(modulo("0x1234", seed, 959), *position);
    }
    let other: [usize; 7] = [52, 770, 903, 413, 732, 921, 634];
    for (seed, position) in other.iter().enumerate() {
        assert_eq!(modulo("0x9999", seed, 959), *position);
    }
}

#[test]
fn modulo_is_hash_then_reduce() {
    for seed in 0..8usize {
        for size in [1usize, 2, 16, 959, 1_000_003] {
            assert_eq!(modulo("0xbeef", seed, size), reduce(hash("0xbeef", seed), size));
            assert!(modulo("0xbeef", seed, size) < size);
        }
    }
}

#[test]
fn modulo_of_a_single_bit_array_is_zero() {
    assert_eq!(modulo("0x1234", 0, 1), 0);
    assert_eq!(modulo("anything", 5, 1), 0);
}
