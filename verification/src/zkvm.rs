//! zkVM workload expansion: a FRI-STARK zkVM description (Merkle commitments,
//! FRI folding, grinding, and a continuation/aggregation topology) becomes an
//! ordinary list of use cases, each weighted by how often it occurs in one
//! continuation run.

use vstd::prelude::*;
use vstd::string::StringExecFns;
use vstd::arithmetic::power2::pow2;
use crate::callcount::{ceil_div, div_ceil_u64};
use crate::workload::{ModelParams, PoseidonParams, Role};

verus! {

/// Description of a zkVM's proof system and aggregation.
#[derive(Clone, Debug)]
pub struct ZkvmSpec {
    pub zkvm: ZkvmMeta,
    pub aggregation: Aggregation,
    pub poseidon: PoseidonParams,
    pub circuits: Vec<CircuitSpec>,
}

/// Field and digest sizes of the zkVM.
#[derive(Clone, Debug)]
pub struct ZkvmMeta {
    pub name: String,
    pub version: String,
    pub base_elem_bytes: u64,
    pub ext_elem_bytes: u64,
    pub digest_bytes: u64,
}

/// Continuation topology: app segments are verified by leaf proofs, `leaf_arity`
/// at a time; leaf and internal proofs are verified `internal_arity` at a
/// time until a single root remains.
#[derive(Clone, Debug)]
pub struct Aggregation {
    pub num_app_segments: u64,
    pub leaf_arity: u64,
    pub internal_arity: u64,
}

/// FRI parameters of one circuit (app, leaf or internal).
#[derive(Clone, Debug)]
pub struct CircuitSpec {
    pub name: String,
    pub log_trace: u32,
    pub log_inv_rate: u32,
    pub fri_fold_rounds: u32,
    pub num_queries: u64,
    pub batch_size: u64,
    pub opening_points: u64,
    pub grind_batch: u32,
    pub grind_query: u32,
    pub grind_deep: u32,
    /// Which circuit this one verifies; the topology is resolved by name, so
    /// this is documentation only.
    pub verifies: Option<String>,
}

/// Poseidon parameters used when a description names none: width 16, rate 8,
/// 4 bytes per field element.
pub fn default_poseidon() -> (r: PoseidonParams)
    ensures
        r == (PoseidonParams { width: 16, rate: 8, bytes_per_elem: 4 }),
{
    PoseidonParams { width: 16, rate: 8, bytes_per_elem: 4 }
}

/// Size of the low-degree-extension domain: `2^(log_trace + log_inv_rate)`.
pub open spec fn spec_domain(c: CircuitSpec) -> nat {
    pow2((c.log_trace + c.log_inv_rate) as nat)
}

/// The domain size fits in a `u64`.
pub open spec fn domain_ok(c: CircuitSpec) -> bool {
    c.log_trace + c.log_inv_rate < 64
}

/// Committed columns per Merkle leaf: `batch_size / opening_points`.
pub open spec fn spec_cols_per_leaf(c: CircuitSpec) -> nat {
    (c.batch_size / c.opening_points) as nat
}

impl CircuitSpec {
    /// Size of the LDE domain, `2^(log_trace + log_inv_rate)`.
    pub fn domain(&self) -> (r: u64)
        requires
            domain_ok(*self),
        ensures
            r == spec_domain(*self),
            r >= 1,
    {
        let k: u64 = (self.log_trace + self.log_inv_rate) as u64;
        proof {
            vstd::bits::lemma_u64_pow2_no_overflow(k as nat);
            vstd::bits::lemma_u64_shl_is_mul(1, k);
            vstd::arithmetic::power2::lemma_pow2_pos(k as nat);
        }
        1u64 << k
    }

    /// Committed columns per Merkle leaf, `batch_size / opening_points`.
    pub fn cols_per_leaf(&self) -> (r: u64)
        requires
            self.opening_points > 0,
        ensures
            r == spec_cols_per_leaf(*self),
    {
        self.batch_size / self.opening_points
    }
}

/// Index of the first circuit named `name`, if any.
pub open spec fn spec_find_circuit(circuits: Seq<CircuitSpec>, name: Seq<char>) -> Option<int> {
    if exists|i: int| 0 <= i < circuits.len() && (#[trigger] circuits[i]).name@ == name {
        Some(
            choose|i: int|
                0 <= i < circuits.len() && (#[trigger] circuits[i]).name@ == name && forall|j: int|
                    0 <= j < i ==> (#[trigger] circuits[j]).name@ != name,
        )
    } else {
        None
    }
}

/// The first circuit named `name`, if any.
pub open spec fn spec_circuit(spec: ZkvmSpec, name: Seq<char>) -> Option<CircuitSpec> {
    match spec_find_circuit(spec.circuits@, name) {
        Some(i) => Some(spec.circuits@[i]),
        None => None,
    }
}

/// The error for a missing circuit: `spec has no circuit named '<name>'`.
pub open spec fn missing_circuit_message(name: Seq<char>) -> Seq<char> {
    "spec has no circuit named '"@ + name + "'"@
}

impl ZkvmSpec {
    /// The first circuit named `name`, or an error naming it.
    pub fn circuit(&self, name: &str) -> (r: Result<&CircuitSpec, String>)
        ensures
            match r {
                Ok(c) => exists|i: int|
                    0 <= i < self.circuits.len() && self.circuits[i] == *c && c.name@ == name@
                        && forall|j: int| 0 <= j < i ==> (#[trigger] self.circuits[j]).name@ != name@,
                Err(e) => (forall|i: int|
                    0 <= i < self.circuits.len() ==> (#[trigger] self.circuits[i]).name@ != name@)
                    && e@ == missing_circuit_message(name@),
            },
            match r {
                Ok(c) => spec_circuit(*self, name@) == Some(*c),
                Err(_) => spec_circuit(*self, name@).is_none(),
            },
    {
        let target = name.to_owned();
        let mut i: usize = 0;
        while i < self.circuits.len()
            invariant
                i <= self.circuits.len(),
                target@ == name@,
                forall|j: int| 0 <= j < i ==> (#[trigger] self.circuits[j]).name@ != name@,
            decreases self.circuits.len() - i,
        {
            if self.circuits[i].name == target {
                proof {
                    let circuits = self.circuits@;
                    assert(circuits[i as int].name@ == name@);
                    let k = choose|k: int|
                        0 <= k < circuits.len() && (#[trigger] circuits[k]).name@ == name@ && forall|j: int|
                            0 <= j < k ==> (#[trigger] circuits[j]).name@ != name@;
                    assert(0 <= k < circuits.len() && circuits[k].name@ == name@ && forall|j: int|
                            0 <= j < k ==> (#[trigger] circuits[j]).name@ != name@);
                    assert(k == i as int);
                }
                return Ok(&self.circuits[i]);
            }
            i = i + 1;
        }
        let mut e = "spec has no circuit named '".to_owned();
        e.append(name);
        e.append("'");
        Err(e)
    }
}

/// Proofs produced by the internal levels that reduce `n` proofs, `arity` at
/// a time, to a single root.
pub open spec fn tree_proofs(n: nat, arity: nat) -> nat
    decreases n,
{
    if n <= 1 || arity < 2 {
        0
    } else {
        let parents = ceil_div(n as int, arity as int) as nat;
        proof {
            lemma_ceil_div_shrinks(n as int, arity as int);
        }
        parents + tree_proofs(parents, arity)
    }
}

/// Proofs verified inside a parent while `n` proofs are reduced, `arity` at a
/// time, to a single root.
pub open spec fn tree_verified(n: nat, arity: nat) -> nat
    decreases n,
{
    if n <= 1 || arity < 2 {
        0
    } else {
        let parents = ceil_div(n as int, arity as int) as nat;
        proof {
            lemma_ceil_div_shrinks(n as int, arity as int);
        }
        n + tree_verified(parents, arity)
    }
}

/// Grouping `n > 1` proofs `arity >= 2` at a time leaves between one and
/// fewer than `n` groups.
pub proof fn lemma_ceil_div_shrinks(n: int, arity: int)
    ensures
        n > 1 && arity >= 2 ==> 1 <= ceil_div(n, arity) < n,
{
    if n > 1 && arity >= 2 {
        assert(1 <= ceil_div(n, arity) < n) by (nonlinear_arith)
            requires
                n > 1,
                arity >= 2,
        {
            assert(n + arity - 1 >= arity);
            assert(n + arity - 1 < arity * n) by (nonlinear_arith)
                requires
                    n > 1,
                    arity >= 2,
            ;
        }
    }
}

/// Proof counts of one continuation run.
#[derive(Clone, Copy, Debug, PartialEq, Eq)]
pub struct Topology {
    /// App segment proofs produced (each verified once, inside a leaf proof).
    pub app_proofs: u64,
    /// Leaf proofs produced: `ceil(num_app_segments / leaf_arity)`.
    pub leaf_proofs: u64,
    /// Internal proofs produced while reducing the leaf proofs to one root.
    pub internal_proofs: u64,
    /// Leaf proofs verified inside the first internal level.
    pub leaf_verified: u64,
    /// Internal proofs verified inside higher internal levels.
    pub internal_verified: u64,
}

/// Leaf proofs of a run: `ceil(num_app_segments / leaf_arity)`.
pub open spec fn spec_leaf_proofs(agg: Aggregation) -> nat {
    ceil_div(agg.num_app_segments as int, agg.leaf_arity as int) as nat
}

/// Whether `topology` can run on `agg`: the leaf arity is positive, the
/// internal arity reduces (it is at least 2 whenever there is more than one
/// leaf proof), and the internal proof count fits in a `u64`.
pub open spec fn aggregation_ok(agg: Aggregation) -> bool {
    &&& agg.leaf_arity > 0
    &&& spec_leaf_proofs(agg) > 1 ==> agg.internal_arity >= 2
    &&& tree_proofs(spec_leaf_proofs(agg), agg.internal_arity as nat) <= u64::MAX
}

/// The proof counts that `topology` computes.
pub open spec fn spec_topology(agg: Aggregation) -> Topology {
    let l = spec_leaf_proofs(agg);
    let a = agg.internal_arity as nat;
    Topology {
        app_proofs: agg.num_app_segments,
        leaf_proofs: l as u64,
        internal_proofs: tree_proofs(l, a) as u64,
        leaf_verified: if l > 1 { l as u64 } else { 0 },
        internal_verified: if l > 1 { tree_verified(ceil_div(l as int, a as int) as nat, a) as u64 } else { 0 },
    }
}

/// Reducing `n > 1` proofs to a root verifies every proof but the root once:
/// verified + 1 == n + proofs produced.
pub proof fn lemma_tree_counts(n: nat, arity: nat)
    requires
        n > 1,
        arity >= 2,
    ensures
        tree_verified(n, arity) + 1 == n + tree_proofs(n, arity),
        tree_proofs(n, arity) >= 1,
    decreases n,
{
    let p = ceil_div(n as int, arity as int) as nat;
    lemma_ceil_div_shrinks(n as int, arity as int);
    if p > 1 {
        lemma_tree_counts(p, arity);
    } else {
        assert(tree_verified(p, arity) == 0);
        assert(tree_proofs(p, arity) == 0);
    }
}

proof fn lemma_leaf_proofs_bound(agg: Aggregation)
    requires
        agg.leaf_arity > 0,
    ensures
        spec_leaf_proofs(agg) <= agg.num_app_segments,
{
    let s = agg.num_app_segments as int;
    let a = agg.leaf_arity as int;
    assert(ceil_div(s, a) <= s) by (nonlinear_arith)
        requires
            s >= 0,
            a >= 1,
    {
        if s >= 1 {
            assert(s + a - 1 <= a * s) by (nonlinear_arith)
                requires
                    s >= 1,
                    a >= 1,
            ;
        }
    }
}

/// Proof counts of one continuation run: how many app, leaf and internal
/// proofs it produces and how many of them are verified inside a parent.
pub fn topology(agg: &Aggregation) -> (r: Topology)
    requires
        aggregation_ok(*agg),
    ensures
        r == spec_topology(*agg),
{
    let s = agg.num_app_segments;
    let l = div_ceil_u64(s, agg.leaf_arity);
    let a = agg.internal_arity;
    let mut internal_proofs: u64 = 0;
    let mut leaf_verified: u64 = 0;
    let mut internal_verified: u64 = 0;
    let mut n = l;
    let mut first_level = true;
    while n > 1
        invariant
            l == spec_leaf_proofs(*agg),
            a == agg.internal_arity,
            l > 1 ==> a >= 2,
            tree_proofs(l as nat, a as nat) <= u64::MAX,
            internal_proofs + tree_proofs(n as nat, a as nat) == tree_proofs(l as nat, a as nat),
            first_level ==> n == l && internal_proofs == 0 && leaf_verified == 0 && internal_verified == 0,
            !first_level ==> tree_verified(ceil_div(l as int, a as int) as nat, a as nat) < tree_proofs(l as nat, a as nat),
            !first_level ==> l > 1 && leaf_verified == l
                && internal_verified + tree_verified(n as nat, a as nat)
                    == tree_verified(ceil_div(l as int, a as int) as nat, a as nat),
        decreases n,
    {
        let parents = div_ceil_u64(n, a);
        proof {
            lemma_ceil_div_shrinks(n as int, a as int);
            if first_level {
                lemma_tree_counts(l as nat, a as nat);
                if parents > 1 {
                    lemma_tree_counts(parents as nat, a as nat);
                } else {
                    assert(tree_verified(parents as nat, a as nat) == 0);
                }
            }
        }
        internal_proofs = internal_proofs + parents;
        if first_level {
            leaf_verified = leaf_verified + n;
            first_level = false;
        } else {
            internal_verified = internal_verified + n;
        }
        n = parents;
    }
    Topology {
        app_proofs: s,
        leaf_proofs: l,
        internal_proofs,
        leaf_verified,
        internal_verified,
    }
}

/// Every proof of a run except the single root is verified exactly once
/// inside a parent: with more than one leaf proof, the leaf and internal
/// proofs verified plus the root equal all leaf and internal proofs produced;
/// with at most one leaf proof there is no internal level at all.
pub proof fn lemma_topology_verifies_all_but_root(agg: Aggregation)
    requires
        aggregation_ok(agg),
    ensures
        ({
            let t = spec_topology(agg);
            &&& t.leaf_proofs > 1 ==> t.leaf_verified + t.internal_verified + 1
                == t.leaf_proofs + t.internal_proofs
            &&& t.leaf_proofs > 1 ==> t.internal_proofs >= 1
            &&& t.leaf_proofs <= 1 ==> t.internal_proofs == 0 && t.leaf_verified == 0
                && t.internal_verified == 0
        }),
{
    let l = spec_leaf_proofs(agg);
    let a = agg.internal_arity as nat;
    lemma_leaf_proofs_bound(agg);
    if l > 1 {
        lemma_tree_counts(l, a);
        let p = ceil_div(l as int, a as int) as nat;
        lemma_ceil_div_shrinks(l as int, a as int);
        if p > 1 {
            lemma_tree_counts(p, a);
        } else {
            assert(tree_verified(p, a) == 0);
        }
    }
}

/// A use case derived from a zkVM description, weighted by how many times it
/// occurs in one continuation run.
#[derive(Clone, Debug)]
pub struct WeightedUseCase {
    pub name: String,
    /// Occurrences per continuation run (unnormalized weight).
    pub weight: u64,
    pub msg_len: u64,
    pub num_calls: u64,
    pub role: Role,
}

/// Mathematical view of a `WeightedUseCase`.
pub struct UseCaseModel {
    pub name: Seq<char>,
    pub weight: nat,
    pub msg_len: nat,
    pub num_calls: nat,
    pub role: Role,
}

impl View for WeightedUseCase {
    type V = UseCaseModel;

    open spec fn view(&self) -> UseCaseModel {
        UseCaseModel {
            name: self.name@,
            weight: self.weight as nat,
            msg_len: self.msg_len as nat,
            num_calls: self.num_calls as nat,
            role: self.role,
        }
    }
}

/// Views of a list of use cases.
pub open spec fn models(v: Seq<WeightedUseCase>) -> Seq<UseCaseModel> {
    v.map_values(|u: WeightedUseCase| u@)
}

/// Leaves of the FRI fold trees over `rounds` rounds starting from `cur`
/// leaves: `cur/2 + cur/4 + ...`, `rounds` terms (`sum_i D >> (i+1)`).
pub open spec fn fold_leaves_sum(cur: nat, rounds: nat) -> nat
    decreases rounds,
{
    if rounds == 0 {
        0
    } else {
        cur / 2 + fold_leaves_sum(cur / 2, (rounds - 1) as nat)
    }
}

/// Internal nodes of those fold trees: each tree of `n >= 1` leaves has
/// `n - 1` of them.
pub open spec fn fold_tree_sum(cur: nat, rounds: nat) -> nat
    decreases rounds,
{
    if rounds == 0 {
        0
    } else {
        (if cur / 2 >= 1 { (cur / 2 - 1) as nat } else { 0 }) + fold_tree_sum(cur / 2, (rounds - 1) as nat)
    }
}

/// Grinding hash calls: `2^grind_batch + 2^grind_query + 2^grind_deep`.
pub open spec fn grinding_calls(c: CircuitSpec) -> nat {
    pow2(c.grind_batch as nat) + pow2(c.grind_query as nat) + pow2(c.grind_deep as nat)
}

/// Bytes of a Merkle leaf of committed columns: `cols_per_leaf * base_elem_bytes`.
pub open spec fn leaf_msg_bytes(c: CircuitSpec, m: ZkvmMeta) -> nat {
    (spec_cols_per_leaf(c) * m.base_elem_bytes) as nat
}

/// Prover-side (native) use cases of producing one proof of circuit `c`, each
/// weighted by `w`: the trace commitment (leaves and tree), the FRI fold
/// commitments (leaves and trees) and grinding.
pub open spec fn spec_native_usecases(c: CircuitSpec, m: ZkvmMeta, w: nat) -> Seq<UseCaseModel> {
    let d = spec_domain(c);
    let compress = (2 * m.digest_bytes) as nat;
    seq![
        UseCaseModel { name: c.name@ + ":commit-leaves"@, weight: w, msg_len: leaf_msg_bytes(c, m), num_calls: d, role: Role::Native },
        UseCaseModel { name: c.name@ + ":commit-tree"@, weight: w, msg_len: compress, num_calls: (d - 1) as nat, role: Role::Native },
        UseCaseModel { name: c.name@ + ":fold-leaves"@, weight: w, msg_len: (2 * m.ext_elem_bytes) as nat, num_calls: fold_leaves_sum(d, c.fri_fold_rounds as nat), role: Role::Native },
        UseCaseModel { name: c.name@ + ":fold-trees"@, weight: w, msg_len: compress, num_calls: fold_tree_sum(d, c.fri_fold_rounds as nat), role: Role::Native },
        UseCaseModel { name: c.name@ + ":grinding"@, weight: w, msg_len: compress, num_calls: grinding_calls(c), role: Role::Native },
    ]
}

/// Whether `native_usecases` can run on `c`: its domain and grinding counts
/// fit in a `u64`, a leaf has at least one opening point, and the message
/// sizes fit in a `u64`.
pub open spec fn native_ok(c: CircuitSpec, m: ZkvmMeta) -> bool {
    &&& domain_ok(c)
    &&& c.opening_points > 0
    &&& leaf_msg_bytes(c, m) <= u64::MAX
    &&& 2 * m.digest_bytes <= u64::MAX
    &&& 2 * m.ext_elem_bytes <= u64::MAX
    &&& c.grind_batch < 64 && c.grind_query < 64 && c.grind_deep < 64
    &&& grinding_calls(c) <= u64::MAX
}

proof fn lemma_fold_sums_bounded(cur: nat, rounds: nat)
    ensures
        fold_leaves_sum(cur, rounds) <= cur,
        fold_tree_sum(cur, rounds) <= fold_leaves_sum(cur, rounds),
        cur == 0 ==> fold_leaves_sum(cur, rounds) == 0 && fold_tree_sum(cur, rounds) == 0,
    decreases rounds,
{
    if rounds > 0 {
        lemma_fold_sums_bounded(cur / 2, (rounds - 1) as nat);
    }
}

/// Halving a power of two: `2^L / 2 == 2^(L-1)` for `L >= 1`, and `1 / 2 == 0`.
proof fn lemma_pow2_half(e: nat)
    ensures
        e >= 1 ==> pow2(e) / 2 == pow2((e - 1) as nat) && pow2((e - 1) as nat) >= 1
            && pow2(e) == 2 * pow2((e - 1) as nat),
        e >= 2 ==> pow2((e - 1) as nat) >= 2,
        pow2(0) == 1,
{
    vstd::arithmetic::power2::lemma_pow2(0);
    vstd::arithmetic::power::lemma_pow0(2);
    if e >= 1 {
        vstd::arithmetic::power2::lemma_pow2_unfold(e);
        vstd::arithmetic::power2::lemma_pow2_pos((e - 1) as nat);
    }
    if e >= 2 {
        vstd::arithmetic::power2::lemma_pow2_unfold((e - 1) as nat);
        vstd::arithmetic::power2::lemma_pow2_pos((e - 2) as nat);
    }
}

/// Over a domain of `2^L` points, `k` fold rounds commit
/// `2^(L-1) + ... + 2^(L-k)` leaves, that is `2^L - 2^(L-k)`, and once the
/// trees are exhausted (`k > L`) all `2^L - 1` of them; the fold trees have
/// one internal node fewer than leaves per non-empty tree, so
/// `min(k, L)` fewer nodes than leaves in all.
pub proof fn lemma_fold_sums_closed_form(log_domain: nat, rounds: nat)
    ensures
        fold_leaves_sum(pow2(log_domain), rounds) == if rounds <= log_domain {
            pow2(log_domain) - pow2((log_domain - rounds) as nat)
        } else {
            pow2(log_domain) - 1
        },
        fold_tree_sum(pow2(log_domain), rounds) + (if rounds <= log_domain { rounds } else { log_domain })
            == fold_leaves_sum(pow2(log_domain), rounds),
    decreases rounds,
{
    lemma_pow2_half(log_domain);
    if rounds > 0 {
        if log_domain == 0 {
            lemma_fold_sums_bounded(0, (rounds - 1) as nat);
        } else {
            lemma_fold_sums_closed_form((log_domain - 1) as nat, (rounds - 1) as nat);
            if rounds <= log_domain {
                vstd::arithmetic::power2::lemma_pow2_pos((log_domain - rounds) as nat);
            }
        }
    }
}

/// The verifier opens the fold trees of `2^(L-1), 2^(L-2), ...` leaves, one
/// per round, stopping before a tree of a single leaf: `min(k, L - 1)` trees.
pub proof fn lemma_fold_levels_closed_form(log_domain: nat, rounds: nat)
    ensures
        verify_fold_levels(pow2(log_domain), rounds).len() == if log_domain == 0 {
            0
        } else if rounds <= log_domain - 1 {
            rounds
        } else {
            (log_domain - 1) as nat
        },
        forall|i: int|
            0 <= i < verify_fold_levels(pow2(log_domain), rounds).len() ==> #[trigger] verify_fold_levels(
                pow2(log_domain),
                rounds,
            )[i] == pow2((log_domain - 1 - i) as nat),
    decreases rounds,
{
    lemma_pow2_half(log_domain);
    if rounds > 0 && log_domain >= 2 {
        lemma_pow2_half((log_domain - 1) as nat);
        vstd::arithmetic::power2::lemma_pow2_unfold((log_domain - 1) as nat);
        lemma_fold_levels_closed_form((log_domain - 1) as nat, (rounds - 1) as nat);
        let v = verify_fold_levels(pow2(log_domain), rounds);
        let tail = verify_fold_levels(pow2((log_domain - 1) as nat), (rounds - 1) as nat);
        assert(v == seq![pow2((log_domain - 1) as nat)] + tail);
        assert forall|i: int| 0 <= i < v.len() implies #[trigger] v[i] == pow2((log_domain - 1 - i) as nat) by {
            if i > 0 {
                assert(v[i] == tail[i - 1]);
            }
        }
    } else if log_domain == 1 {
        vstd::arithmetic::power2::lemma_pow2_unfold(1);
    }
}

/// Number of fold trees the verifier opens over a domain of `2^log_domain`
/// points in `rounds` rounds: `min(rounds, log_domain - 1)`.
pub open spec fn opened_fold_trees(log_domain: nat, rounds: nat) -> nat {
    if log_domain == 0 {
        0
    } else if rounds <= log_domain - 1 {
        rounds
    } else {
        (log_domain - 1) as nat
    }
}

/// `2^k` as a `u64`, for `k < 64`.
fn pow2_u64(k: u32) -> (r: u64)
    requires
        k < 64,
    ensures
        r == pow2(k as nat),
{
    proof {
        vstd::bits::lemma_u64_pow2_no_overflow(k as nat);
        vstd::bits::lemma_u64_shl_is_mul(1, k as u64);
    }
    1u64 << (k as u64)
}

/// `base` followed by `suffix`.
fn suffixed(base: &String, suffix: &str) -> (r: String)
    ensures
        r@ == base@ + suffix@,
{
    let mut name = base.clone();
    name.append(suffix);
    name
}

/// `"verify-"`, then `base`, then `suffix`.
fn verify_name(base: &String, suffix: &str) -> (r: String)
    ensures
        r@ == "verify-"@ + base@ + suffix@,
{
    let mut name = "verify-".to_owned();
    name.append(base.as_str());
    name.append(suffix);
    name
}

/// Native (prover-side) use cases of producing one proof of circuit `c`,
/// each weighted by `w`, the number of such proofs in one continuation run.
pub fn native_usecases(c: &CircuitSpec, m: &ZkvmMeta, w: u64) -> (r: Vec<WeightedUseCase>)
    requires
        native_ok(*c, *m),
    ensures
        models(r@) == spec_native_usecases(*c, *m, w as nat),
        r@.len() == 5,
        forall|i: int| 0 <= i < 5 ==> (#[trigger] r@[i]).weight == w && r@[i].role == Role::Native,
        r@[0].msg_len == c.batch_size / c.opening_points * m.base_elem_bytes,
        r@[1].msg_len == 2 * m.digest_bytes,
        r@[2].msg_len == 2 * m.ext_elem_bytes,
        r@[3].msg_len == 2 * m.digest_bytes,
        r@[4].msg_len == 2 * m.digest_bytes,
        r@[0].num_calls == pow2((c.log_trace + c.log_inv_rate) as nat),
        r@[1].num_calls + 1 == r@[0].num_calls,
        r@[3].num_calls <= r@[2].num_calls <= r@[0].num_calls,
        r@[4].num_calls == pow2(c.grind_batch as nat) + pow2(c.grind_query as nat) + pow2(c.grind_deep as nat),
        r@[2].num_calls == if c.fri_fold_rounds <= c.log_trace + c.log_inv_rate {
            pow2((c.log_trace + c.log_inv_rate) as nat) - pow2((c.log_trace + c.log_inv_rate - c.fri_fold_rounds) as nat)
        } else {
            pow2((c.log_trace + c.log_inv_rate) as nat) - 1
        },
        r@[3].num_calls + (if c.fri_fold_rounds <= c.log_trace + c.log_inv_rate {
            c.fri_fold_rounds as int
        } else {
            c.log_trace + c.log_inv_rate
        }) == r@[2].num_calls,
{
    let d = c.domain();
    let compress = 2 * m.digest_bytes;
    let leaf_msg = c.cols_per_leaf() * m.base_elem_bytes;
    let mut fold_leaves: u64 = 0;
    let mut fold_tree: u64 = 0;
    let mut cur = d;
    let mut i: u32 = 0;
    proof {
        lemma_fold_sums_bounded(d as nat, c.fri_fold_rounds as nat);
    }
    while i < c.fri_fold_rounds
        invariant
            i <= c.fri_fold_rounds,
            cur <= d,
            fold_leaves + fold_leaves_sum(cur as nat, (c.fri_fold_rounds - i) as nat)
                == fold_leaves_sum(d as nat, c.fri_fold_rounds as nat),
            fold_tree + fold_tree_sum(cur as nat, (c.fri_fold_rounds - i) as nat)
                == fold_tree_sum(d as nat, c.fri_fold_rounds as nat),
            fold_leaves_sum(d as nat, c.fri_fold_rounds as nat) <= d,
            fold_tree_sum(d as nat, c.fri_fold_rounds as nat) <= d,
        ensures
            fold_leaves == fold_leaves_sum(d as nat, c.fri_fold_rounds as nat),
            fold_tree == fold_tree_sum(d as nat, c.fri_fold_rounds as nat),
        decreases c.fri_fold_rounds - i,
    {
        let leaves = cur / 2;
        if leaves == 0 {
            proof {
                lemma_fold_sums_bounded(0, (c.fri_fold_rounds - i - 1) as nat);
            }
            break;
        }
        proof {
            lemma_fold_sums_bounded(leaves as nat, (c.fri_fold_rounds - i - 1) as nat);
        }
        fold_leaves = fold_leaves + leaves;
        fold_tree = fold_tree + (leaves - 1);
        cur = leaves;
        i = i + 1;
    }
    let grinding = pow2_u64(c.grind_batch) + pow2_u64(c.grind_query) + pow2_u64(c.grind_deep);
    let mut v: Vec<WeightedUseCase> = Vec::new();
    v.push(WeightedUseCase { name: suffixed(&c.name, ":commit-leaves"), weight: w, msg_len: leaf_msg, num_calls: d, role: Role::Native });
    v.push(WeightedUseCase { name: suffixed(&c.name, ":commit-tree"), weight: w, msg_len: compress, num_calls: d - 1, role: Role::Native });
    v.push(WeightedUseCase { name: suffixed(&c.name, ":fold-leaves"), weight: w, msg_len: 2 * m.ext_elem_bytes, num_calls: fold_leaves, role: Role::Native });
    v.push(WeightedUseCase { name: suffixed(&c.name, ":fold-trees"), weight: w, msg_len: compress, num_calls: fold_tree, role: Role::Native });
    v.push(WeightedUseCase { name: suffixed(&c.name, ":grinding"), weight: w, msg_len: compress, num_calls: grinding, role: Role::Native });
    assert(models(v@) =~= spec_native_usecases(*c, *m, w as nat));
    proof {
        lemma_native_usecases_shape(*c, *m, w as nat);
        lemma_fold_sums_closed_form((c.log_trace + c.log_inv_rate) as nat, c.fri_fold_rounds as nat);
        lemma_models_index(v@);
    }
    v
}

/// Leaf counts of the FRI fold trees that the verifier opens: halve `cur`
/// once per round, for at most `rounds` rounds, while more than one leaf
/// remains.
pub open spec fn verify_fold_levels(cur: nat, rounds: nat) -> Seq<nat>
    decreases rounds,
{
    if rounds == 0 || cur / 2 <= 1 {
        Seq::empty()
    } else {
        seq![cur / 2] + verify_fold_levels(cur / 2, (rounds - 1) as nat)
    }
}

/// The fold-tree leaf counts that the verifier of circuit `c` opens.
pub open spec fn spec_fold_levels(c: CircuitSpec) -> Seq<nat> {
    verify_fold_levels(spec_domain(c), c.fri_fold_rounds as nat)
}

/// Sum of a sequence of counts.
pub open spec fn seq_sum(s: Seq<u64>) -> nat
    decreases s.len(),
{
    if s.len() == 0 {
        0
    } else {
        seq_sum(s.drop_last()) + s.last() as nat
    }
}

/// Expected Merkle multi-proof hash counts (the eMP term) of verifying one
/// proof of a circuit: for the trace commitment over the whole domain, and for
/// each fold tree that the verifier opens, in the order `fold_levels` lists
/// them.
#[derive(Clone, Debug)]
pub struct MerklePathCounts {
    pub init_paths: u64,
    pub fold_paths: Vec<u64>,
}

/// Verifier-side (proven) use cases of verifying one proof of circuit `c`
/// inside an aggregation circuit, each weighted by `w`: transcript hashing,
/// trace leaves, trace Merkle paths, fold leaves and fold Merkle paths.
pub open spec fn spec_verify_usecases(
    c: CircuitSpec,
    m: ZkvmMeta,
    w: nat,
    paths: MerklePathCounts,
) -> Seq<UseCaseModel> {
    let t = c.num_queries as nat;
    let compress = (2 * m.digest_bytes) as nat;
    seq![
        UseCaseModel { name: "verify-"@ + c.name@ + ":transcript"@, weight: w, msg_len: compress, num_calls: (c.fri_fold_rounds + 16) as nat, role: Role::Circuit },
        UseCaseModel { name: "verify-"@ + c.name@ + ":leaves"@, weight: w, msg_len: leaf_msg_bytes(c, m), num_calls: t, role: Role::Circuit },
        UseCaseModel { name: "verify-"@ + c.name@ + ":init-paths"@, weight: w, msg_len: compress, num_calls: paths.init_paths as nat, role: Role::Circuit },
        UseCaseModel { name: "verify-"@ + c.name@ + ":fold-leaves"@, weight: w, msg_len: (2 * m.ext_elem_bytes) as nat, num_calls: t * spec_fold_levels(c).len(), role: Role::Circuit },
        UseCaseModel { name: "verify-"@ + c.name@ + ":fold-paths"@, weight: w, msg_len: compress, num_calls: seq_sum(paths.fold_paths@), role: Role::Circuit },
    ]
}

/// Whether `verify_usecases` can run on `c` and `paths`: the domain fits in a
/// `u64`, a leaf has at least one opening point, the sizes and counts fit in
/// their integer types, and `paths` gives one count per opened fold tree.
pub open spec fn verify_ok(c: CircuitSpec, m: ZkvmMeta, paths: MerklePathCounts) -> bool {
    &&& domain_ok(c)
    &&& c.opening_points > 0
    &&& leaf_msg_bytes(c, m) <= u64::MAX
    &&& 2 * m.digest_bytes <= u64::MAX
    &&& 2 * m.ext_elem_bytes <= u64::MAX
    &&& c.fri_fold_rounds + 16 <= u32::MAX
    &&& c.num_queries * spec_fold_levels(c).len() <= u64::MAX
    &&& paths.fold_paths@.len() == spec_fold_levels(c).len()
    &&& seq_sum(paths.fold_paths@) <= u64::MAX
}

proof fn lemma_fold_levels_len(cur: nat, rounds: nat)
    ensures
        verify_fold_levels(cur, rounds).len() <= rounds,
        forall|i: int|
            0 <= i < verify_fold_levels(cur, rounds).len() ==> 1 < #[trigger] verify_fold_levels(
                cur,
                rounds,
            )[i] <= cur,
    decreases rounds,
{
    if rounds > 0 && cur / 2 > 1 {
        lemma_fold_levels_len(cur / 2, (rounds - 1) as nat);
        let tail = verify_fold_levels(cur / 2, (rounds - 1) as nat);
        assert forall|i: int|
            0 <= i < verify_fold_levels(cur, rounds).len() implies 1 < #[trigger] verify_fold_levels(
                cur,
                rounds,
            )[i] <= cur by {
            if i > 0 {
                assert(verify_fold_levels(cur, rounds)[i] == tail[i - 1]);
            }
        }
    }
}

/// The leaf counts of the fold trees that the verifier of circuit `c` opens.
pub fn fold_levels(c: &CircuitSpec) -> (r: Vec<u64>)
    requires
        domain_ok(*c),
    ensures
        r@.map_values(|x: u64| x as nat) == spec_fold_levels(*c),
        r@.len() == opened_fold_trees((c.log_trace + c.log_inv_rate) as nat, c.fri_fold_rounds as nat),
        forall|i: int| 0 <= i < r@.len() ==> #[trigger] r@[i] == pow2((c.log_trace + c.log_inv_rate - 1 - i) as nat),
{
    proof {
        lemma_fold_levels_closed_form((c.log_trace + c.log_inv_rate) as nat, c.fri_fold_rounds as nat);
    }
    let d = c.domain();
    let mut cur = d;
    let mut i: u32 = 0;
    let mut v: Vec<u64> = Vec::new();
    while i < c.fri_fold_rounds
        invariant
            i <= c.fri_fold_rounds,
            v@.map_values(|x: u64| x as nat) + verify_fold_levels(cur as nat, (c.fri_fold_rounds - i) as nat)
                == spec_fold_levels(*c),
            d == spec_domain(*c),
        ensures
            v@.map_values(|x: u64| x as nat) == spec_fold_levels(*c),
        decreases c.fri_fold_rounds - i,
    {
        let leaves = cur / 2;
        if leaves <= 1 {
            assert(v@.map_values(|x: u64| x as nat) =~= v@.map_values(|x: u64| x as nat) + Seq::<nat>::empty());
            break;
        }
        let ghost old_v = v@;
        v.push(leaves);
        assert(v@.map_values(|x: u64| x as nat) =~= old_v.map_values(|x: u64| x as nat) + seq![leaves as nat]);
        cur = leaves;
        i = i + 1;
    }
    proof {
        let mv = v@.map_values(|x: u64| x as nat);
        assert(mv.len() == v@.len());
        assert forall|k: int| 0 <= k < v@.len() implies #[trigger] v@[k] == pow2(
            (c.log_trace + c.log_inv_rate - 1 - k) as nat,
        ) by {
            assert(mv[k] == v@[k] as nat);
        }
    }
    v
}

/// Verifier-side (proven) use cases of verifying one proof of circuit `c`
/// inside an aggregation circuit, each weighted by `w`, the number of such
/// verifications in one continuation run. `paths` holds the expected Merkle
/// multi-proof hash counts of the trace tree and of each opened fold tree.
pub fn verify_usecases(c: &CircuitSpec, m: &ZkvmMeta, w: u64, paths: &MerklePathCounts) -> (r: Vec<WeightedUseCase>)
    requires
        verify_ok(*c, *m, *paths),
    ensures
        models(r@) == spec_verify_usecases(*c, *m, w as nat, *paths),
        r@.len() == 5,
        forall|i: int| 0 <= i < 5 ==> (#[trigger] r@[i]).weight == w && r@[i].role == Role::Circuit,
        r@[0].msg_len == 2 * m.digest_bytes,
        r@[1].msg_len == c.batch_size / c.opening_points * m.base_elem_bytes,
        r@[2].msg_len == 2 * m.digest_bytes,
        r@[3].msg_len == 2 * m.ext_elem_bytes,
        r@[4].msg_len == 2 * m.digest_bytes,
        r@[0].num_calls == c.fri_fold_rounds + 16,
        r@[1].num_calls == c.num_queries,
        r@[2].num_calls == paths.init_paths,
        r@[3].num_calls == c.num_queries * paths.fold_paths@.len(),
        r@[3].num_calls == c.num_queries * opened_fold_trees(
            (c.log_trace + c.log_inv_rate) as nat,
            c.fri_fold_rounds as nat,
        ),
        r@[4].num_calls == seq_sum(paths.fold_paths@),
{
    let t = c.num_queries;
    let compress = 2 * m.digest_bytes;
    let levels = fold_levels(c);
    proof {
        lemma_fold_levels_len(spec_domain(*c), c.fri_fold_rounds as nat);
        assert(levels@.len() == spec_fold_levels(*c).len());
    }
    let mut fold_leaves: u64 = 0;
    let mut fold_paths: u64 = 0;
    let mut i: usize = 0;
    while i < levels.len()
        invariant
            i <= levels@.len(),
            levels@.len() == spec_fold_levels(*c).len(),
            paths.fold_paths@.len() == levels@.len(),
            t == c.num_queries,
            t * levels@.len() <= u64::MAX,
            seq_sum(paths.fold_paths@) <= u64::MAX,
            fold_leaves == t * i,
            fold_paths == seq_sum(paths.fold_paths@.take(i as int)),
        decreases levels@.len() - i,
    {
        proof {
            assert(t * (i + 1) <= t * levels@.len()) by (nonlinear_arith)
                requires
                    i + 1 <= levels@.len(),
            ;
            assert(t * (i + 1) == t * i + t) by (nonlinear_arith);
            lemma_seq_sum_prefix(paths.fold_paths@, i as int + 1);
            assert(paths.fold_paths@.take(i as int + 1).drop_last() =~= paths.fold_paths@.take(i as int));
        }
        fold_leaves = fold_leaves + t;
        fold_paths = fold_paths + paths.fold_paths[i];
        i = i + 1;
    }
    assert(paths.fold_paths@.take(i as int) =~= paths.fold_paths@);
    let mut v: Vec<WeightedUseCase> = Vec::new();
    v.push(WeightedUseCase { name: verify_name(&c.name, ":transcript"), weight: w, msg_len: compress, num_calls: (c.fri_fold_rounds + 16) as u64, role: Role::Circuit });
    v.push(WeightedUseCase { name: verify_name(&c.name, ":leaves"), weight: w, msg_len: c.cols_per_leaf() * m.base_elem_bytes, num_calls: t, role: Role::Circuit });
    v.push(WeightedUseCase { name: verify_name(&c.name, ":init-paths"), weight: w, msg_len: compress, num_calls: paths.init_paths, role: Role::Circuit });
    v.push(WeightedUseCase { name: verify_name(&c.name, ":fold-leaves"), weight: w, msg_len: 2 * m.ext_elem_bytes, num_calls: fold_leaves, role: Role::Circuit });
    v.push(WeightedUseCase { name: verify_name(&c.name, ":fold-paths"), weight: w, msg_len: compress, num_calls: fold_paths, role: Role::Circuit });
    assert(models(v@) =~= spec_verify_usecases(*c, *m, w as nat, *paths));
    proof {
        lemma_verify_usecases_shape(*c, *m, w as nat, *paths);
        lemma_fold_levels_closed_form((c.log_trace + c.log_inv_rate) as nat, c.fri_fold_rounds as nat);
        lemma_models_index(v@);
    }
    v
}

/// A prefix sum is at most the whole sum, and extends by the next element.
proof fn lemma_seq_sum_prefix(s: Seq<u64>, k: int)
    requires
        0 < k <= s.len(),
    ensures
        seq_sum(s.take(k)) == seq_sum(s.take(k - 1)) + s[k - 1],
        seq_sum(s.take(k)) <= seq_sum(s),
    decreases s.len(),
{
    assert(s.take(k).drop_last() =~= s.take(k - 1));
    if k < s.len() {
        lemma_seq_sum_prefix(s.drop_last(), k);
        assert(s.drop_last().take(k) =~= s.take(k));
        assert(s.drop_last().take(k - 1) =~= s.take(k - 1));
    } else {
        assert(s.take(k) =~= s);
    }
}

/// A use-case workload derived from a zkVM description, with each use case
/// weighted by its occurrences per continuation run.
#[derive(Clone, Debug)]
pub struct DerivedWorkload {
    pub model: ModelParams,
    pub poseidon: PoseidonParams,
    pub usecases: Vec<WeightedUseCase>,
}

/// The views of a list of use cases are the views of its elements.
proof fn lemma_models_index(v: Seq<WeightedUseCase>)
    ensures
        models(v).len() == v.len(),
        forall|i: int| 0 <= i < v.len() ==> #[trigger] models(v)[i] == v[i]@,
{
}

/// Prover-side hashing of one proof: the trace commitment hashes one leaf of
/// committed columns per domain point and compresses pairs of digests in a
/// binary tree with one node fewer than leaves; the fold commitments hash
/// pairs of extension elements as leaves and compress pairs of digests in
/// trees of no more nodes than leaves; grinding hashes pairs of digests. Every
/// Merkle compression hashes exactly two digests, whatever the element sizes.
pub proof fn lemma_native_usecases_shape(c: CircuitSpec, m: ZkvmMeta, w: nat)
    requires
        native_ok(c, m),
    ensures
        ({
            let u = spec_native_usecases(c, m, w);
            &&& u.len() == 5
            &&& forall|i: int| 0 <= i < 5 ==> (#[trigger] u[i]).weight == w && u[i].role == Role::Native
            &&& u[0].msg_len == c.batch_size / c.opening_points * m.base_elem_bytes
            &&& u[1].msg_len == 2 * m.digest_bytes
            &&& u[2].msg_len == 2 * m.ext_elem_bytes
            &&& u[3].msg_len == 2 * m.digest_bytes
            &&& u[4].msg_len == 2 * m.digest_bytes
            &&& u[3].msg_len == u[1].msg_len
            &&& u[0].num_calls == pow2((c.log_trace + c.log_inv_rate) as nat)
            &&& u[1].num_calls + 1 == u[0].num_calls
            &&& u[3].num_calls <= u[2].num_calls <= u[0].num_calls
            &&& u[4].num_calls == pow2(c.grind_batch as nat) + pow2(c.grind_query as nat) + pow2(
                c.grind_deep as nat,
            )
        }),
{
    let d = spec_domain(c);
    vstd::arithmetic::power2::lemma_pow2_pos((c.log_trace + c.log_inv_rate) as nat);
    lemma_fold_sums_bounded(d, c.fri_fold_rounds as nat);
}

/// Verifier-side hashing of one proof: transcript absorption and the Merkle
/// paths (trace and fold trees) hash pairs of digests, the opened trace
/// leaves hash committed columns, and the opened fold leaves hash pairs of
/// extension elements, once per query and opened fold tree.
pub proof fn lemma_verify_usecases_shape(c: CircuitSpec, m: ZkvmMeta, w: nat, paths: MerklePathCounts)
    requires
        verify_ok(c, m, paths),
    ensures
        ({
            let u = spec_verify_usecases(c, m, w, paths);
            &&& u.len() == 5
            &&& forall|i: int| 0 <= i < 5 ==> (#[trigger] u[i]).weight == w && u[i].role == Role::Circuit
            &&& u[0].msg_len == 2 * m.digest_bytes
            &&& u[1].msg_len == c.batch_size / c.opening_points * m.base_elem_bytes
            &&& u[2].msg_len == 2 * m.digest_bytes
            &&& u[3].msg_len == 2 * m.ext_elem_bytes
            &&& u[4].msg_len == 2 * m.digest_bytes
            &&& u[4].msg_len == u[2].msg_len
            &&& u[0].num_calls == c.fri_fold_rounds + 16
            &&& u[1].num_calls == c.num_queries
            &&& u[2].num_calls == paths.init_paths
            &&& u[3].num_calls == c.num_queries * paths.fold_paths@.len()
            &&& u[4].num_calls == seq_sum(paths.fold_paths@)
        }),
{
}

/// Weights and roles of an expanded workload. The app proofs' native and
/// verifier use cases (entries 0..5 and 10..15) carry the number of app
/// segments; the leaf proofs' native use cases (entries 5..10) carry the
/// number of leaf proofs `l = ceil(num_app_segments / leaf_arity)`. Only with
/// more than one leaf proof follow the internal proofs' native use cases
/// (15..20) and the leaf proofs' verifier use cases (20..25, each leaf proof
/// verified once), and possibly the internal proofs' verifier use cases
/// (25..30). Every leaf and internal proof except the root is verified once:
/// verified leaf + verified internal + 1 == leaf proofs + internal proofs.
/// Native use cases are exactly those of producing proofs. With at least one
/// app segment every use case has a nonzero weight.
pub open spec fn expanded_weights_ok(u: Seq<WeightedUseCase>, segments: u64, leaf_arity: u64) -> bool {
    let l = (segments + leaf_arity - 1) / (leaf_arity as int);
    &&& u.len() == 15 || u.len() == 25 || u.len() == 30
    &&& forall|i: int| 0 <= i < 5 ==> (#[trigger] u[i]).weight == segments
    &&& forall|i: int| 5 <= i < 10 ==> (#[trigger] u[i]).weight == l
    &&& forall|i: int| 10 <= i < 15 ==> (#[trigger] u[i]).weight == segments
    &&& (u.len() == 15 <==> l <= 1)
    &&& u.len() > 15 ==> forall|i: int| 15 <= i < 20 ==> (#[trigger] u[i]).weight == u[15].weight
    &&& u.len() > 15 ==> forall|i: int| 20 <= i < 25 ==> (#[trigger] u[i]).weight == l
    &&& u.len() == 30 ==> forall|i: int| 25 <= i < 30 ==> (#[trigger] u[i]).weight == u[25].weight
    &&& u.len() == 25 ==> u[20].weight + 1 == u[5].weight + u[15].weight
    &&& u.len() == 30 ==> u[20].weight + u[25].weight + 1 == u[5].weight + u[15].weight
    &&& forall|i: int| 0 <= i < u.len() ==> ((#[trigger] u[i]).role == Role::Native <==> (i < 10 || 15 <= i < 20))
    &&& forall|i: int| 0 <= i < u.len() ==> ((#[trigger] u[i]).role == Role::Circuit <==> !(i < 10 || 15 <= i < 20))
    &&& segments >= 1 ==> forall|i: int| 0 <= i < u.len() ==> (#[trigger] u[i]).weight >= 1
}

/// Every proof of a run is weighted by how many such proofs the run produces
/// or verifies: app proofs by the segment count, leaf proofs by
/// `ceil(num_app_segments / leaf_arity)` (at least one when there is a
/// segment), and nothing of a run produces a use case of weight zero.
pub proof fn lemma_expand_weights(
    spec: ZkvmSpec,
    app: CircuitSpec,
    leaf: CircuitSpec,
    internal: CircuitSpec,
    app_paths: MerklePathCounts,
    leaf_paths: MerklePathCounts,
    internal_paths: MerklePathCounts,
)
    requires
        aggregation_ok(spec.aggregation),
    ensures
        ({
            let u = spec_expand_usecases(spec, app, leaf, internal, app_paths, leaf_paths, internal_paths);
            let s = spec.aggregation.num_app_segments;
            let la = spec.aggregation.leaf_arity;
            let l = (s + la - 1) / (la as int);
            &&& u.len() == 15 || u.len() == 25 || u.len() == 30
            &&& forall|i: int| 0 <= i < 5 ==> (#[trigger] u[i]).weight == s
            &&& forall|i: int| 5 <= i < 10 ==> (#[trigger] u[i]).weight == l
            &&& forall|i: int| 10 <= i < 15 ==> (#[trigger] u[i]).weight == s
            &&& (u.len() == 15 <==> l <= 1)
            &&& u.len() > 15 ==> forall|i: int| 15 <= i < 20 ==> (#[trigger] u[i]).weight == u[15].weight
            &&& u.len() > 15 ==> forall|i: int| 20 <= i < 25 ==> (#[trigger] u[i]).weight == l
            &&& u.len() == 30 ==> forall|i: int| 25 <= i < 30 ==> (#[trigger] u[i]).weight == u[25].weight
            &&& u.len() == 25 ==> u[20].weight + 1 == u[5].weight + u[15].weight
            &&& u.len() == 30 ==> u[20].weight + u[25].weight + 1 == u[5].weight + u[15].weight
            &&& forall|i: int| 0 <= i < u.len() ==> ((#[trigger] u[i]).role == Role::Native <==> (i < 10 || 15 <= i < 20))
            &&& forall|i: int| 0 <= i < u.len() ==> ((#[trigger] u[i]).role == Role::Circuit <==> !(i < 10 || 15 <= i < 20))
            &&& s >= 1 ==> forall|i: int| 0 <= i < u.len() ==> (#[trigger] u[i]).weight >= 1
        }),
{
    let agg = spec.aggregation;
    let s = agg.num_app_segments;
    let la = agg.leaf_arity;
    let t = spec_topology(agg);
    let m = spec.zkvm;
    lemma_leaf_proofs_bound(agg);
    lemma_topology_verifies_all_but_root(agg);
    let l = spec_leaf_proofs(agg);
    if s >= 1 {
        assert(l >= 1) by (nonlinear_arith)
            requires
                s >= 1,
                la >= 1,
                l == (s + la - 1) / (la as int),
        {
            assert(s + la - 1 >= la);
        }
    }
    let n1 = spec_native_usecases(app, m, t.app_proofs as nat);
    let n2 = spec_native_usecases(leaf, m, t.leaf_proofs as nat);
    let v1 = spec_verify_usecases(app, m, t.app_proofs as nat, app_paths);
    let always = n1 + n2 + v1;
    assert(always.len() == 15);
    assert forall|i: int| 0 <= i < 15 implies #[trigger] always[i] == (if i < 5 {
        n1[i]
    } else if i < 10 {
        n2[i - 5]
    } else {
        v1[i - 10]
    }) by {}
    let u = spec_expand_usecases(spec, app, leaf, internal, app_paths, leaf_paths, internal_paths);
    if t.internal_proofs > 0 {
        let n3 = spec_native_usecases(internal, m, t.internal_proofs as nat);
        let v2 = spec_verify_usecases(leaf, m, t.leaf_verified as nat, leaf_paths);
        let lvl = n3 + v2;
        if t.internal_verified > 0 {
            let v3 = spec_verify_usecases(internal, m, t.internal_verified as nat, internal_paths);
            assert(u == always + lvl + v3);
            assert forall|i: int| 0 <= i < u.len() implies #[trigger] u[i] == (if i < 15 {
                always[i]
            } else if i < 20 {
                n3[i - 15]
            } else if i < 25 {
                v2[i - 20]
            } else {
                v3[i - 25]
            }) by {}
        } else {
            assert(u == always + lvl);
            assert forall|i: int| 0 <= i < u.len() implies #[trigger] u[i] == (if i < 15 {
                always[i]
            } else if i < 20 {
                n3[i - 15]
            } else {
                v2[i - 20]
            }) by {}
        }
    } else {
        assert(u == always);
    }
}

/// Use cases of one continuation run of `spec`: producing the app and leaf
/// proofs and verifying the app proofs always; when there is an internal
/// level, producing the internal proofs and verifying the leaf proofs; and
/// verifying internal proofs when higher internal levels exist.
pub open spec fn spec_expand_usecases(
    spec: ZkvmSpec,
    app: CircuitSpec,
    leaf: CircuitSpec,
    internal: CircuitSpec,
    app_paths: MerklePathCounts,
    leaf_paths: MerklePathCounts,
    internal_paths: MerklePathCounts,
) -> Seq<UseCaseModel> {
    let t = spec_topology(spec.aggregation);
    let m = spec.zkvm;
    let always = spec_native_usecases(app, m, t.app_proofs as nat) + spec_native_usecases(
        leaf,
        m,
        t.leaf_proofs as nat,
    ) + spec_verify_usecases(app, m, t.app_proofs as nat, app_paths);
    if t.internal_proofs > 0 {
        let internal_level = spec_native_usecases(internal, m, t.internal_proofs as nat)
            + spec_verify_usecases(leaf, m, t.leaf_verified as nat, leaf_paths);
        if t.internal_verified > 0 {
            always + internal_level + spec_verify_usecases(
                internal,
                m,
                t.internal_verified as nat,
                internal_paths,
            )
        } else {
            always + internal_level
        }
    } else {
        always
    }
}

/// Whether `expand` can run: when the app, leaf and internal circuits are all
/// present, the aggregation reduces and every circuit used by the run fits the
/// requirements of `native_usecases` and `verify_usecases`.
pub open spec fn expand_ok(
    spec: ZkvmSpec,
    app_paths: MerklePathCounts,
    leaf_paths: MerklePathCounts,
    internal_paths: MerklePathCounts,
) -> bool {
    let m = spec.zkvm;
    let t = spec_topology(spec.aggregation);
    spec_circuit(spec, "app"@) matches Some(app) ==> spec_circuit(spec, "leaf"@) matches Some(leaf)
        ==> spec_circuit(spec, "internal"@) matches Some(internal) ==> {
        &&& aggregation_ok(spec.aggregation)
        &&& native_ok(app, m) && verify_ok(app, m, app_paths)
        &&& native_ok(leaf, m)
        &&& t.internal_proofs > 0 ==> native_ok(internal, m) && verify_ok(leaf, m, leaf_paths)
        &&& t.internal_verified > 0 ==> verify_ok(internal, m, internal_paths)
    }
}

/// Expands a zkVM description into a use-case workload weighted by
/// occurrences per continuation run (unnormalized). The expected Merkle
/// multi-proof hash counts of verifying one app, leaf and internal proof are
/// given in `app_paths`, `leaf_paths` and `internal_paths`. Fails, naming the
/// first one missing, when the description lacks the `app`, `leaf` or
/// `internal` circuit.
pub fn expand(
    spec: &ZkvmSpec,
    app_paths: &MerklePathCounts,
    leaf_paths: &MerklePathCounts,
    internal_paths: &MerklePathCounts,
) -> (r: Result<DerivedWorkload, String>)
    requires
        expand_ok(*spec, *app_paths, *leaf_paths, *internal_paths),
    ensures
        match r {
            Ok(wl) => {
                &&& spec_circuit(*spec, "app"@) is Some
                &&& spec_circuit(*spec, "leaf"@) is Some
                &&& spec_circuit(*spec, "internal"@) is Some
                &&& models(wl.usecases@) == spec_expand_usecases(
                    *spec,
                    spec_circuit(*spec, "app"@).unwrap(),
                    spec_circuit(*spec, "leaf"@).unwrap(),
                    spec_circuit(*spec, "internal"@).unwrap(),
                    *app_paths,
                    *leaf_paths,
                    *internal_paths,
                )
                &&& wl.poseidon == spec.poseidon
                &&& wl.model.sweep_num_calls@ == seq![1u64, 8, 64, 1024, 32768]
                &&& expanded_weights_ok(
                    wl.usecases@,
                    spec.aggregation.num_app_segments,
                    spec.aggregation.leaf_arity,
                )
            },
            Err(e) => {
                ||| spec_circuit(*spec, "app"@) is None && e@ == missing_circuit_message("app"@)
                ||| spec_circuit(*spec, "app"@) is Some && spec_circuit(*spec, "leaf"@) is None
                    && e@ == missing_circuit_message("leaf"@)
                ||| spec_circuit(*spec, "app"@) is Some && spec_circuit(*spec, "leaf"@) is Some
                    && spec_circuit(*spec, "internal"@) is None && e@ == missing_circuit_message(
                    "internal"@,
                )
            },
        },
{
    let app = match spec.circuit("app") {
        Ok(c) => c,
        Err(e) => {
            return Err(e);
        },
    };
    let leaf = match spec.circuit("leaf") {
        Ok(c) => c,
        Err(e) => {
            return Err(e);
        },
    };
    let internal = match spec.circuit("internal") {
        Ok(c) => c,
        Err(e) => {
            return Err(e);
        },
    };
    let m = &spec.zkvm;
    let t = topology(&spec.aggregation);

    let mut usecases = native_usecases(app, m, t.app_proofs);
    let mut more = native_usecases(leaf, m, t.leaf_proofs);
    usecases.append(&mut more);
    let mut more = verify_usecases(app, m, t.app_proofs, app_paths);
    usecases.append(&mut more);
    if t.internal_proofs > 0 {
        let mut more = native_usecases(internal, m, t.internal_proofs);
        usecases.append(&mut more);
        let mut more = verify_usecases(leaf, m, t.leaf_verified, leaf_paths);
        usecases.append(&mut more);
        if t.internal_verified > 0 {
            let mut more = verify_usecases(internal, m, t.internal_verified, internal_paths);
            usecases.append(&mut more);
        }
    }
    let mut sweep: Vec<u64> = Vec::new();
    sweep.push(1);
    sweep.push(8);
    sweep.push(64);
    sweep.push(1024);
    sweep.push(32768);
    assert(sweep@ =~= seq![1u64, 8, 64, 1024, 32768]);
    proof {
        lemma_expand_weights(
            *spec,
            spec_circuit(*spec, "app"@).unwrap(),
            spec_circuit(*spec, "leaf"@).unwrap(),
            spec_circuit(*spec, "internal"@).unwrap(),
            *app_paths,
            *leaf_paths,
            *internal_paths,
        );
        lemma_models_index(usecases@);
        let u = spec_expand_usecases(
            *spec,
            spec_circuit(*spec, "app"@).unwrap(),
            spec_circuit(*spec, "leaf"@).unwrap(),
            spec_circuit(*spec, "internal"@).unwrap(),
            *app_paths,
            *leaf_paths,
            *internal_paths,
        );
        assert(models(usecases@) =~= u);
        assert forall|i: int| 0 <= i < usecases@.len() implies (#[trigger] usecases@[i]).weight
            == u[i].weight && usecases@[i].role == u[i].role by {
            assert(models(usecases@)[i] == usecases@[i]@);
        }
        assert(expanded_weights_ok(
            usecases@,
            spec.aggregation.num_app_segments,
            spec.aggregation.leaf_arity,
        ));
    }
    Ok(DerivedWorkload {
        model: ModelParams { sweep_num_calls: sweep },
        poseidon: spec.poseidon,
        usecases,
    })
}

} // verus!
