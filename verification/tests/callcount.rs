use hash_bench::callcount::{perms_per_msg, HashId, ALL_HASHES};
use hash_bench::workload::{PoseidonParams, Role};

fn p2() -> PoseidonParams {
    PoseidonParams { width: 16, rate: 8, bytes_per_elem: 4 }
}

#[test]
fn sha256_padding_boundaries() {
    assert_eq!(perms_per_msg(HashId::Sha256, 0, &p2()), 1);
    assert_eq!(perms_per_msg(HashId::Sha256, 55, &p2()), 1); // 55+9 = 64
    assert_eq!(perms_per_msg(HashId::Sha256, 56, &p2()), 2); // spills
    assert_eq!(perms_per_msg(HashId::Sha256, 64, &p2()), 2); // 2-to-1 merkle
}

#[test]
fn sha3_rate_boundaries() {
    assert_eq!(perms_per_msg(HashId::Sha3_256, 0, &p2()), 1);
    assert_eq!(perms_per_msg(HashId::Sha3_256, 135, &p2()), 1);
    assert_eq!(perms_per_msg(HashId::Sha3_256, 136, &p2()), 2); // pad spills
}

#[test]
fn blake3_chunks_and_parents() {
    assert_eq!(perms_per_msg(HashId::Blake3, 0, &p2()), 1);
    assert_eq!(perms_per_msg(HashId::Blake3, 64, &p2()), 1);
    assert_eq!(perms_per_msg(HashId::Blake3, 1024, &p2()), 16);
    // 2048B = 2 chunks * 16 compressions + 1 parent
    assert_eq!(perms_per_msg(HashId::Blake3, 2048, &p2()), 33);
}

#[test]
fn poseidon_absorb() {
    // 64B / 4Bpe = 16 elems / rate 8 = 2 permutations
    assert_eq!(perms_per_msg(HashId::Poseidon, 64, &p2()), 2);
    assert_eq!(perms_per_msg(HashId::Poseidon, 32, &p2()), 1);
}

#[test]
fn poseidon_empty_and_partial_elements() {
    // the empty message still absorbs one element
    assert_eq!(perms_per_msg(HashId::Poseidon, 0, &p2()), 1);
    // 33 bytes = 9 elements -> 2 permutations
    assert_eq!(perms_per_msg(HashId::Poseidon, 33, &p2()), 2);
    let wide = PoseidonParams { width: 24, rate: 16, bytes_per_elem: 8 };
    assert_eq!(perms_per_msg(HashId::Poseidon, 1000, &wide), 8); // 125 elems / 16
}

#[test]
fn perms_at_extreme_lengths_do_not_overflow() {
    let max = u64::MAX;
    assert_eq!(perms_per_msg(HashId::Sha256, max, &p2()), 288230376151711745);
    assert_eq!(perms_per_msg(HashId::Sha3_256, max, &p2()), 135637824071393762);
    assert_eq!(perms_per_msg(HashId::Blake3, max, &p2()), 306244774661193727);
}

#[test]
fn blake3_parent_count_for_three_chunks() {
    // 2049 B = 33 compressions over 3 chunks + 2 parents
    assert_eq!(perms_per_msg(HashId::Blake3, 2049, &p2()), 35);
    assert_eq!(perms_per_msg(HashId::Blake3, 1, &p2()), 1);
    assert_eq!(perms_per_msg(HashId::Blake3, 65, &p2()), 2);
}

#[test]
fn perms_never_below_one_and_monotone() {
    for &h in ALL_HASHES.iter() {
        let mut prev = 0u64;
        for len in 0..3000u64 {
            let n = perms_per_msg(h, len, &p2());
            assert!(n >= 1);
            assert!(n >= prev);
            prev = n;
        }
    }
}

#[test]
fn hash_names() {
    assert_eq!(HashId::Sha256.name(), "SHA-256");
    assert_eq!(HashId::Sha3_256.name(), "SHA3-256");
    assert_eq!(HashId::Blake3.name(), "BLAKE3");
    assert_eq!(HashId::Poseidon.name(), "Poseidon");
    assert_eq!(ALL_HASHES.len(), 4);
}

#[test]
fn role_dimensions() {
    assert!(Role::Native.native());
    assert!(!Role::Native.circuit());
    assert!(!Role::Circuit.native());
    assert!(Role::Circuit.circuit());
    assert!(Role::Both.native());
    assert!(Role::Both.circuit());
}
