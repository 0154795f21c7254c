use hash_bench::calibration::{default_prover_name, placeholder_rows_per_perm, PLACEHOLDER_MIN_HEIGHT};
use hash_bench::callcount::HashId;
use hash_bench::cli::arg_value;

fn args(v: &[&str]) -> Vec<String> {
    v.iter().map(|s| s.to_string()).collect()
}

#[test]
fn flag_value_follows_flag() {
    let a = args(&["report", "--workload", "x.toml", "--out", "o.json"]);
    assert_eq!(arg_value(&a, "--workload", "d.toml"), "x.toml");
    assert_eq!(arg_value(&a, "--out", "results.json"), "o.json");
}

#[test]
fn flag_absent_or_last_gives_default() {
    let a = args(&["report", "--workload"]);
    assert_eq!(arg_value(&a, "--workload", "d.toml"), "d.toml");
    assert_eq!(arg_value(&a, "--calibration", "calibration.json"), "calibration.json");
    assert_eq!(arg_value(&[], "--out", "results.json"), "results.json");
}

#[test]
fn first_occurrence_wins() {
    let a = args(&["--out", "a.json", "--out", "b.json"]);
    assert_eq!(arg_value(&a, "--out", "r.json"), "a.json");
}

#[test]
fn default_prover_is_flock() {
    assert_eq!(default_prover_name(), "flock");
}

#[test]
fn placeholder_circuit_footprint() {
    assert_eq!(placeholder_rows_per_perm(HashId::Poseidon), 2);
    assert_eq!(placeholder_rows_per_perm(HashId::Blake3), 64);
    assert_eq!(placeholder_rows_per_perm(HashId::Sha256), 128);
    assert_eq!(placeholder_rows_per_perm(HashId::Sha3_256), 256);
    assert_eq!(PLACEHOLDER_MIN_HEIGHT, 1 << 10);
}
