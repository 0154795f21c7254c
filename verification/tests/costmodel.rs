use hash_bench::callcount::HashId;
use hash_bench::costmodel::{next_power_of_two, padded_height, usecase_counts};
use hash_bench::workload::{PoseidonParams, Role};

fn p2() -> PoseidonParams {
    PoseidonParams { width: 16, rate: 8, bytes_per_elem: 4 }
}

#[test]
fn next_power_of_two_values() {
    assert_eq!(next_power_of_two(0), 1);
    assert_eq!(next_power_of_two(1), 1);
    assert_eq!(next_power_of_two(2), 2);
    assert_eq!(next_power_of_two(5), 8);
    assert_eq!(next_power_of_two(1024), 1024);
    assert_eq!(next_power_of_two(1025), 2048);
    assert_eq!(next_power_of_two(1u64 << 63), 1u64 << 63);
    for n in 0..5000u64 {
        assert_eq!(next_power_of_two(n), n.next_power_of_two());
    }
}

#[test]
fn padded_height_floors_at_min() {
    assert_eq!(padded_height(100, 1024), 1024);
    assert_eq!(padded_height(3000, 1024), 4096);
    assert_eq!(padded_height(0, 1024), 1024);
    assert_eq!(padded_height(4096, 1024), 4096);
}

#[test]
fn padded_height_steps_and_doubling() {
    // constant inside one power-of-two step
    for h in 2049..=4096u64 {
        assert_eq!(padded_height(h, 16), 4096);
    }
    // doubling the trace at most doubles the padded height
    for h in 0..3000u64 {
        assert!(padded_height(2 * h, 1024) <= 2 * padded_height(h, 1024));
    }
}

#[test]
fn circuit_usecase_counts() {
    let c = usecase_counts(HashId::Sha256, 64, 8, Role::Circuit, 128, 1024, &p2());
    assert_eq!(c.perms_per_msg, 2);
    assert_eq!(c.total_perms, 16);
    assert_eq!(c.trace_height, Some(2048));
    assert_eq!(c.padded_height, Some(2048));
}

#[test]
fn native_usecase_counts_have_no_trace() {
    let c = usecase_counts(HashId::Sha3_256, 200, 10, Role::Native, 256, 1024, &p2());
    assert_eq!(c.perms_per_msg, 2);
    assert_eq!(c.total_perms, 20);
    assert_eq!(c.trace_height, None);
    assert_eq!(c.padded_height, None);
}

#[test]
fn both_role_usecase_counts() {
    let c = usecase_counts(HashId::Poseidon, 64, 3, Role::Both, 2, 1024, &p2());
    assert_eq!(c.perms_per_msg, 2);
    assert_eq!(c.total_perms, 6);
    assert_eq!(c.trace_height, Some(12));
    assert_eq!(c.padded_height, Some(1024));
}
