use hash_bench::workload::{PoseidonParams, Role};
use hash_bench::zkvm::{
    default_poseidon, expand, fold_levels, native_usecases, topology, verify_usecases, Aggregation,
    CircuitSpec, MerklePathCounts, ZkvmMeta, ZkvmSpec,
};

fn circuit(name: &str, log_trace: u32, rounds: u32) -> CircuitSpec {
    CircuitSpec {
        name: name.to_string(),
        log_trace,
        log_inv_rate: 1,
        fri_fold_rounds: rounds,
        num_queries: 5,
        batch_size: 100,
        opening_points: 2,
        grind_batch: 1,
        grind_query: 2,
        grind_deep: 3,
        verifies: None,
    }
}

fn meta() -> ZkvmMeta {
    ZkvmMeta {
        name: "toy".to_string(),
        version: "1".to_string(),
        base_elem_bytes: 4,
        ext_elem_bytes: 16,
        digest_bytes: 32,
    }
}

fn spec(circuits: Vec<CircuitSpec>, segments: u64) -> ZkvmSpec {
    ZkvmSpec {
        zkvm: meta(),
        aggregation: Aggregation { num_app_segments: segments, leaf_arity: 2, internal_arity: 2 },
        poseidon: default_poseidon(),
        circuits,
    }
}

fn paths(levels: usize) -> MerklePathCounts {
    MerklePathCounts { init_paths: 7, fold_paths: vec![3; levels] }
}

#[test]
fn domain_and_cols() {
    let c = circuit("app", 3, 3);
    assert_eq!(c.domain(), 16);
    assert_eq!(c.cols_per_leaf(), 50);
}

#[test]
fn circuit_lookup() {
    let s = spec(vec![circuit("app", 3, 3), circuit("leaf", 2, 2)], 4);
    assert_eq!(s.circuit("leaf").unwrap().log_trace, 2);
    assert_eq!(s.circuit("internal").unwrap_err(), "spec has no circuit named 'internal'");
}

#[test]
fn native_usecases_of_small_circuit() {
    let c = circuit("app", 3, 3); // domain 16
    let u = native_usecases(&c, &meta(), 4);
    let names: Vec<&str> = u.iter().map(|x| x.name.as_str()).collect();
    assert_eq!(names, vec!["app:commit-leaves", "app:commit-tree", "app:fold-leaves", "app:fold-trees", "app:grinding"]);
    assert_eq!(u[0].msg_len, 200);
    assert_eq!(u[0].num_calls, 16);
    assert_eq!(u[1].msg_len, 64);
    assert_eq!(u[1].num_calls, 15);
    assert_eq!(u[2].msg_len, 32);
    assert_eq!(u[2].num_calls, 8 + 4 + 2);
    assert_eq!(u[3].num_calls, 7 + 3 + 1);
    assert_eq!(u[4].num_calls, 2 + 4 + 8);
    assert!(u.iter().all(|x| x.weight == 4 && x.role == Role::Native));
}

#[test]
fn native_fold_rounds_stop_at_empty_tree() {
    let c = circuit("app", 3, 10); // 8, 4, 2, 1, then empty
    let u = native_usecases(&c, &meta(), 1);
    assert_eq!(u[2].num_calls, 15);
    assert_eq!(u[3].num_calls, 11);
}

#[test]
fn verifier_fold_levels() {
    assert_eq!(fold_levels(&circuit("app", 3, 10)), vec![8, 4, 2]);
    assert_eq!(fold_levels(&circuit("app", 3, 2)), vec![8, 4]);
    assert_eq!(fold_levels(&circuit("app", 0, 5)), Vec::<u64>::new());
}

#[test]
fn verify_usecases_of_small_circuit() {
    let c = circuit("leaf", 3, 10);
    let p = MerklePathCounts { init_paths: 9, fold_paths: vec![4, 3, 1] };
    let u = verify_usecases(&c, &meta(), 2, &p);
    let names: Vec<&str> = u.iter().map(|x| x.name.as_str()).collect();
    assert_eq!(
        names,
        vec!["verify-leaf:transcript", "verify-leaf:leaves", "verify-leaf:init-paths", "verify-leaf:fold-leaves", "verify-leaf:fold-paths"]
    );
    assert_eq!(u[0].num_calls, 26);
    assert_eq!(u[1].num_calls, 5);
    assert_eq!(u[1].msg_len, 200);
    assert_eq!(u[2].num_calls, 9);
    assert_eq!(u[3].num_calls, 15);
    assert_eq!(u[3].msg_len, 32);
    assert_eq!(u[4].num_calls, 8);
    assert!(u.iter().all(|x| x.weight == 2 && x.role == Role::Circuit));
}

#[test]
fn topology_of_ten_segments() {
    let t = topology(&Aggregation { num_app_segments: 10, leaf_arity: 2, internal_arity: 2 });
    assert_eq!(t.app_proofs, 10);
    assert_eq!(t.leaf_proofs, 5);
    assert_eq!(t.internal_proofs, 6);
    assert_eq!(t.leaf_verified, 5);
    assert_eq!(t.internal_verified, 5);
    // every leaf and internal proof but the root is verified once
    assert_eq!(t.leaf_verified + t.internal_verified + 1, t.leaf_proofs + t.internal_proofs);
}

#[test]
fn topology_with_single_leaf() {
    let t = topology(&Aggregation { num_app_segments: 3, leaf_arity: 4, internal_arity: 2 });
    assert_eq!(t.leaf_proofs, 1);
    assert_eq!(t.internal_proofs, 0);
    assert_eq!(t.leaf_verified, 0);
    assert_eq!(t.internal_verified, 0);
}

#[test]
fn expand_two_leaves() {
    let s = spec(vec![circuit("app", 3, 3), circuit("leaf", 2, 2), circuit("internal", 2, 2)], 4);
    let wl = expand(&s, &paths(3), &paths(2), &paths(2)).unwrap();
    assert_eq!(wl.model.sweep_num_calls, vec![1, 8, 64, 1024, 32768]);
    assert_eq!(wl.poseidon, PoseidonParams { width: 16, rate: 8, bytes_per_elem: 4 });
    assert_eq!(wl.usecases.len(), 25);
    let weights: Vec<u64> = wl.usecases.iter().map(|u| u.weight).collect();
    assert_eq!(&weights[0..5], &[4; 5]); // app native
    assert_eq!(&weights[5..10], &[2; 5]); // leaf native
    assert_eq!(&weights[10..15], &[4; 5]); // app verified once each
    assert_eq!(&weights[15..20], &[1; 5]); // internal (root) native
    assert_eq!(&weights[20..25], &[2; 5]); // leaf proofs verified by the root
    assert_eq!(wl.usecases[15].name, "internal:commit-leaves");
    assert_eq!(wl.usecases[20].name, "verify-leaf:transcript");
}

#[test]
fn expand_deep_aggregation_verifies_internal() {
    let s = spec(vec![circuit("app", 3, 3), circuit("leaf", 2, 2), circuit("internal", 2, 2)], 10);
    let wl = expand(&s, &paths(3), &paths(2), &paths(2)).unwrap();
    assert_eq!(wl.usecases.len(), 30);
    assert_eq!(wl.usecases[25].name, "verify-internal:transcript");
    assert_eq!(wl.usecases[25].weight, 5);
}

#[test]
fn expand_single_segment_has_no_internal_level() {
    let s = spec(vec![circuit("app", 3, 3), circuit("leaf", 2, 2), circuit("internal", 2, 2)], 1);
    let wl = expand(&s, &paths(3), &paths(2), &paths(2)).unwrap();
    assert_eq!(wl.usecases.len(), 15);
}

#[test]
fn expand_reports_missing_circuit() {
    let s = spec(vec![circuit("app", 3, 3), circuit("internal", 2, 2)], 4);
    let e = expand(&s, &paths(3), &paths(2), &paths(2)).unwrap_err();
    assert_eq!(e, "spec has no circuit named 'leaf'");
    let s = spec(vec![], 4);
    let e = expand(&s, &paths(3), &paths(2), &paths(2)).unwrap_err();
    assert_eq!(e, "spec has no circuit named 'app'");
}
