//! Integer core of the cost model: permutation totals and the padded trace
//! height of a repetitive circuit.
//!
//! Native:  total_perms = num_calls * perms(msg_len)
//! Circuit: height = total_perms * rows_per_perm
//!          padded = max(next_pow2(height), min_height)

use vstd::prelude::*;
use crate::callcount::{HashId, perms_per_msg, spec_perms_per_msg, poseidon_params_ok};
use crate::workload::{PoseidonParams, Role};

verus! {

/// Smallest power of two that is at least `n` (1 for `n <= 1`).
pub open spec fn next_pow2(n: nat) -> nat
    decreases n,
{
    if n <= 1 {
        1
    } else {
        2 * next_pow2(((n + 1) / 2) as nat)
    }
}

/// `x` is a power of two.
pub open spec fn is_pow2(x: nat) -> bool
    decreases x,
{
    if x == 1 {
        true
    } else if x >= 2 && x % 2 == 0 {
        is_pow2((x / 2) as nat)
    } else {
        false
    }
}

/// Height a trace of `height` rows is padded to: the next power of two,
/// floored at the prover's minimum height.
pub open spec fn spec_padded_height(height: nat, min_height: nat) -> nat {
    if next_pow2(height) >= min_height {
        next_pow2(height)
    } else {
        min_height
    }
}

/// The largest height that `next_power_of_two` handles: beyond it the next
/// power of two does not fit in a `u64`.
pub open spec fn max_pow2_input() -> nat {
    0x8000_0000_0000_0000
}

/// `next_pow2` is a power of two, at least `n`, and less than `2 * n` for `n >= 1`.
pub proof fn lemma_next_pow2_basics(n: nat)
    ensures
        is_pow2(next_pow2(n)),
        next_pow2(n) >= n,
        next_pow2(n) >= 1,
        n >= 1 ==> next_pow2(n) < 2 * n,
    decreases n,
{
    if n > 1 {
        let m = ((n + 1) / 2) as nat;
        lemma_next_pow2_basics(m);
        let q = next_pow2(m);
        assert((2 * q) / 2 == q);
        assert((2 * q) % 2 == 0);
    }
}

/// `next_pow2` is monotone.
pub proof fn lemma_next_pow2_monotone(a: nat, b: nat)
    requires
        a <= b,
    ensures
        next_pow2(a) <= next_pow2(b),
    decreases b,
{
    if a > 1 {
        lemma_next_pow2_monotone(((a + 1) / 2) as nat, ((b + 1) / 2) as nat);
    } else {
        lemma_next_pow2_basics(b);
    }
}

/// Doubling the height doubles the next power of two.
pub proof fn lemma_next_pow2_double(n: nat)
    requires
        n >= 1,
    ensures
        next_pow2(2 * n) == 2 * next_pow2(n),
{
    assert(((2 * n + 1) / 2) as nat == n);
}

/// A power of two is its own next power of two.
pub proof fn lemma_next_pow2_of_pow2(x: nat)
    requires
        is_pow2(x),
    ensures
        next_pow2(x) == x,
    decreases x,
{
    if x > 1 {
        lemma_next_pow2_of_pow2((x / 2) as nat);
        assert(((x + 1) / 2) as nat == (x / 2) as nat);
    }
}

/// `next_pow2(n)` is the least power of two that is at least `n`.
pub proof fn lemma_next_pow2_least(n: nat, x: nat)
    requires
        is_pow2(x),
        x >= n,
    ensures
        next_pow2(n) <= x,
{
    lemma_next_pow2_monotone(n, x);
    lemma_next_pow2_of_pow2(x);
}

proof fn lemma_next_pow2_step(n: int, p: int)
    requires
        p >= 1,
        p < n,
    ensures
        next_pow2(((n + p - 1) / p) as nat) == 2 * next_pow2(((n + 2 * p - 1) / (2 * p)) as nat),
{
    let c = (n + p - 1) / p;
    assert(c >= 2) by (nonlinear_arith)
        requires
            p >= 1,
            p < n,
            c == (n + p - 1) / p,
    {
        assert(n + p - 1 >= 2 * p);
    }
    lemma_nested_ceil(n, p);
    assert(((c as nat + 1) / 2) as nat == ((n + 2 * p - 1) / (2 * p)) as nat);
}

proof fn lemma_nested_ceil(n: int, p: int)
    requires
        n >= 0,
        p >= 1,
    ensures
        ((n + p - 1) / p + 1) / 2 == (n + 2 * p - 1) / (2 * p),
{
    let c = (n + p - 1) / p;
    let r = (n + p - 1) % p;
    vstd::arithmetic::div_mod::lemma_fundamental_div_mod(n + p - 1, p);
    vstd::arithmetic::div_mod::lemma_mod_bound(n + p - 1, p);
    let q = (c + 1) / 2;
    let s = (c + 1) % 2;
    assert(c + 1 == 2 * q + s);
    // n + 2p - 1 == p * c + r + p == p * (c + 1) + r == 2p * q + (s * p + r)
    assert(n + 2 * p - 1 == (2 * p) * q + (s * p + r)) by (nonlinear_arith)
        requires
            n + p - 1 == p * c + r,
            c + 1 == 2 * q + s,
    ;
    assert(0 <= s * p + r < 2 * p) by (nonlinear_arith)
        requires
            0 <= s <= 1,
            0 <= r < p,
    ;
    vstd::arithmetic::div_mod::lemma_div_multiples_vanish_fancy(q, s * p + r, 2 * p);
    assert((2 * p) * q == q * (2 * p)) by (nonlinear_arith);
}

/// Smallest power of two that is at least `n` (1 for `n = 0`).
pub fn next_power_of_two(n: u64) -> (r: u64)
    requires
        n <= max_pow2_input(),
    ensures
        r == next_pow2(n as nat),
{
    let mut p: u64 = 1;
    while p < n
        invariant
            1 <= p,
            n <= max_pow2_input(),
            next_pow2(n as nat) == p * next_pow2(((n + p - 1) / p as int) as nat),
        decreases u64::MAX - p,
    {
        proof {
            lemma_next_pow2_step(n as int, p as int);
            let a = next_pow2(((n + 2 * p - 1) / (2 * p as int)) as nat);
            assert(p * (2 * a) == (2 * p) * a) by (nonlinear_arith);
        }
        p = p * 2;
    }
    proof {
        let c = (n + p - 1) / (p as int);
        assert(0 <= c <= 1) by (nonlinear_arith)
            requires
                p >= 1,
                n <= p,
                c == (n + p - 1) / (p as int),
        {
            assert(n + p - 1 < 2 * p);
        }
        assert(next_pow2(c as nat) == 1);
        assert(p * 1 == p);
    }
    p
}

/// Trace height padded to the next power of two, floored at `min_height`.
pub fn padded_height(height: u64, min_height: u64) -> (r: u64)
    requires
        height <= max_pow2_input(),
    ensures
        r == spec_padded_height(height as nat, min_height as nat),
{
    let p = next_power_of_two(height);
    if p >= min_height { p } else { min_height }
}

/// The padded height covers the trace and the prover's minimum.
pub proof fn lemma_padded_covers(height: nat, min_height: nat)
    ensures
        spec_padded_height(height, min_height) >= height,
        spec_padded_height(height, min_height) >= min_height,
        is_pow2(min_height) ==> is_pow2(spec_padded_height(height, min_height)),
{
    lemma_next_pow2_basics(height);
}

/// A taller trace is never padded to a smaller height.
pub proof fn lemma_padded_monotone(h1: nat, h2: nat, min_height: nat)
    requires
        h1 <= h2,
    ensures
        spec_padded_height(h1, min_height) <= spec_padded_height(h2, min_height),
{
    lemma_next_pow2_monotone(h1, h2);
}

/// Heights that fall into the same power-of-two step are padded alike: the
/// padded height stays constant as repetition fills the padded trace.
pub proof fn lemma_padded_step(h1: nat, h2: nat, min_height: nat)
    requires
        h1 <= h2 <= next_pow2(h1),
    ensures
        spec_padded_height(h1, min_height) == spec_padded_height(h2, min_height),
{
    lemma_next_pow2_basics(h1);
    lemma_next_pow2_monotone(h1, h2);
    lemma_next_pow2_least(h2, next_pow2(h1));
}

/// Doubling the trace at most doubles the padded height, so the padded rows
/// per repetition never grow as repetitions are doubled.
pub proof fn lemma_padded_doubling(h: nat, min_height: nat)
    ensures
        spec_padded_height(2 * h, min_height) <= 2 * spec_padded_height(h, min_height),
{
    if h >= 1 {
        lemma_next_pow2_double(h);
    }
}

/// Integer counts of one (use case, hash) pair.
#[derive(Clone, Copy, Debug, PartialEq, Eq)]
pub struct UseCaseCounts {
    /// Permutation calls per message.
    pub perms_per_msg: u64,
    /// Permutation calls over all `num_calls` messages.
    pub total_perms: u64,
    /// Trace height before padding; `None` for a native-only use case.
    pub trace_height: Option<u64>,
    /// Padded trace height; `None` for a native-only use case.
    pub padded_height: Option<u64>,
}

/// Trace height of `num_calls` messages of `msg_len` bytes at `rows_per_perm`
/// rows per permutation.
pub open spec fn spec_trace_height(
    hash: HashId,
    msg_len: nat,
    num_calls: nat,
    rows_per_perm: nat,
    p: PoseidonParams,
) -> int {
    spec_perms_per_msg(hash, msg_len as int, p) * num_calls * rows_per_perm
}

/// Whether the counts of a use case fit the machine: the permutation total
/// fits in a `u64`, and, for a proven use case, the trace height has a next
/// power of two in a `u64`.
pub open spec fn counts_fit(
    hash: HashId,
    msg_len: nat,
    num_calls: nat,
    role: Role,
    rows_per_perm: nat,
    p: PoseidonParams,
) -> bool {
    &&& spec_perms_per_msg(hash, msg_len as int, p) * num_calls <= u64::MAX
    &&& (role == Role::Circuit || role == Role::Both) ==> spec_trace_height(
        hash,
        msg_len,
        num_calls,
        rows_per_perm,
        p,
    ) <= max_pow2_input()
}

/// Permutation totals and, for a proven use case, the trace and padded
/// heights of hashing `num_calls` messages of `msg_len` bytes with `hash`.
pub fn usecase_counts(
    hash: HashId,
    msg_len: u64,
    num_calls: u64,
    role: Role,
    rows_per_perm: u64,
    min_height: u64,
    p: &PoseidonParams,
) -> (r: UseCaseCounts)
    requires
        hash == HashId::Poseidon ==> poseidon_params_ok(*p),
        counts_fit(hash, msg_len as nat, num_calls as nat, role, rows_per_perm as nat, *p),
    ensures
        r.perms_per_msg == spec_perms_per_msg(hash, msg_len as int, *p),
        r.total_perms == r.perms_per_msg * num_calls,
        (role == Role::Circuit || role == Role::Both) ==> {
            &&& r.trace_height matches Some(h) && h == r.total_perms * rows_per_perm
            &&& r.padded_height matches Some(ph) && ph == spec_padded_height(
                (r.total_perms * rows_per_perm) as nat,
                min_height as nat,
            )
        },
        role == Role::Native ==> r.trace_height.is_none() && r.padded_height.is_none(),
{
    let perms = perms_per_msg(hash, msg_len, p);
    assert(perms * num_calls <= u64::MAX);
    let total_perms = perms * num_calls;
    if role.circuit() {
        assert(total_perms * rows_per_perm <= max_pow2_input());
        let height = total_perms * rows_per_perm;
        let padded = padded_height(height, min_height);
        UseCaseCounts {
            perms_per_msg: perms,
            total_perms,
            trace_height: Some(height),
            padded_height: Some(padded),
        }
    } else {
        UseCaseCounts { perms_per_msg: perms, total_perms, trace_height: None, padded_height: None }
    }
}

} // verus!
