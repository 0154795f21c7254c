//! Analytic call-count model: number of core-permutation / compression
//! invocations needed to hash one message, as a function of its length.

use vstd::prelude::*;
use crate::workload::PoseidonParams;

verus! {

/// The hash functions under comparison.
#[derive(Clone, Copy, Debug, PartialEq, Eq, Hash)]
#[allow(non_camel_case_types)]
pub enum HashId {
    Sha256,
    Sha3_256,
    Blake3,
    Poseidon,
}

/// Every hash under comparison, in report order.
pub const ALL_HASHES: [HashId; 4] = [HashId::Sha256, HashId::Sha3_256, HashId::Blake3, HashId::Poseidon];

/// Display name of each hash.
pub open spec fn spec_hash_name(h: HashId) -> Seq<char> {
    match h {
        HashId::Sha256 => "SHA-256"@,
        HashId::Sha3_256 => "SHA3-256"@,
        HashId::Blake3 => "BLAKE3"@,
        HashId::Poseidon => "Poseidon"@,
    }
}

impl HashId {
    /// Display name: "SHA-256", "SHA3-256", "BLAKE3" or "Poseidon".
    pub fn name(self) -> (r: &'static str)
        ensures
            r@ == spec_hash_name(self),
    {
        match self {
            HashId::Sha256 => "SHA-256",
            HashId::Sha3_256 => "SHA3-256",
            HashId::Blake3 => "BLAKE3",
            HashId::Poseidon => "Poseidon",
        }
    }
}

/// Ceiling of `a / b` for `b > 0`.
pub open spec fn ceil_div(a: int, b: int) -> int {
    (a + b - 1) / b
}

/// The larger of two integers.
pub open spec fn max_int(a: int, b: int) -> int {
    if a >= b { a } else { b }
}

/// Permutation / compression calls to hash one message of `len` bytes.
///
/// - SHA-256 (Merkle-Damgard, 64-byte blocks, padding `0x80 || zeros || 8-byte
///   length`): `floor((len + 8) / 64) + 1` blocks.
/// - SHA3-256 (sponge, rate 136 bytes, pad10*1 adds at least one bit):
///   `ceil((len + 1) / 136)`.
/// - BLAKE3 (64-byte compressions in 1024-byte chunks, plus one parent
///   compression per non-root tree node): `max(ceil(len/64), 1) + max(ceil(len/1024), 1) - 1`.
/// - Poseidon (sponge over field elements): `ceil(max(ceil(len/bpe), 1) / rate)`.
pub open spec fn spec_perms_per_msg(hash: HashId, len: int, p: PoseidonParams) -> int {
    match hash {
        HashId::Sha256 => (len + 8) / 64 + 1,
        HashId::Sha3_256 => ceil_div(len + 1, 136),
        HashId::Blake3 => max_int(ceil_div(len, 64), 1) + (max_int(ceil_div(len, 1024), 1) - 1),
        HashId::Poseidon => ceil_div(max_int(ceil_div(len, p.bytes_per_elem as int), 1), p.rate as int),
    }
}

/// Whether `perms_per_msg` can run on these parameters: the Poseidon sponge
/// divides by its packing width and rate.
pub open spec fn poseidon_params_ok(p: PoseidonParams) -> bool {
    p.bytes_per_elem > 0 && p.rate > 0
}

/// `ceil(a / b)`, computed without overflow.
pub(crate) fn div_ceil_u64(a: u64, b: u64) -> (r: u64)
    requires
        b > 0,
    ensures
        r == ceil_div(a as int, b as int),
        r <= a,
        a > 0 ==> r >= 1,
{
    let q = a / b;
    let rem = a % b;
    if rem == 0 {
        assert(ceil_div(a as int, b as int) == q) by (nonlinear_arith)
            requires
                b > 0,
                q == a / b,
                a % b == 0,
        {
            assert(a == b * q);
            assert(a + b - 1 == b * q + (b - 1));
        }
        assert(q <= a) by (nonlinear_arith)
            requires
                b > 0,
                q == a / b,
        ;
        assert(a > 0 ==> q >= 1) by (nonlinear_arith)
            requires
                b > 0,
                q == a / b,
                a % b == 0,
        ;
        q
    } else {
        assert(ceil_div(a as int, b as int) == q + 1) by (nonlinear_arith)
            requires
                b > 0,
                q == a / b,
                rem == a % b,
                rem > 0,
        {
            assert(a == b * q + rem);
            assert(a + b - 1 == b * (q + 1) + (rem - 1));
        }
        assert(q < a) by (nonlinear_arith)
            requires
                b > 0,
                q == a / b,
                rem == a % b,
                rem > 0,
        {
            assert(a == b * q + rem);
        }
        q + 1
    }
}

/// Permutation / compression calls to hash one message of `len` bytes.
pub fn perms_per_msg(hash: HashId, len: u64, p: &PoseidonParams) -> (r: u64)
    requires
        hash == HashId::Poseidon ==> poseidon_params_ok(*p),
    ensures
        r == spec_perms_per_msg(hash, len as int, *p),
{
    match hash {
        HashId::Sha256 => {
            // (len + 8) / 64 + 1, written so that it cannot overflow
            let r = len / 64 + (len % 64 + 8) / 64 + 1;
            assert((len as int + 8) / 64 == len as int / 64 + (len as int % 64 + 8) / 64);
            r
        },
        HashId::Sha3_256 => {
            // ceil((len + 1) / 136) == floor(len / 136) + 1
            assert(ceil_div(len as int + 1, 136) == len as int / 136 + 1);
            len / 136 + 1
        },
        HashId::Blake3 => {
            let c = div_ceil_u64(len, 64);
            let compressions = if c >= 1 { c } else { 1 };
            let k = div_ceil_u64(len, 1024);
            let chunks = if k >= 1 { k } else { 1 };
            assert(compressions <= len / 64 + 1);
            assert(chunks <= len / 1024 + 1);
            compressions + (chunks - 1)
        },
        HashId::Poseidon => {
            let e = div_ceil_u64(len, p.bytes_per_elem as u64);
            let elems = if e >= 1 { e } else { 1 };
            div_ceil_u64(elems, p.rate as u64)
        },
    }
}

proof fn lemma_ceil_div_monotone(a1: int, a2: int, b: int)
    requires
        0 <= a1 <= a2,
        b > 0,
    ensures
        ceil_div(a1, b) <= ceil_div(a2, b),
        ceil_div(a1, b) >= 0,
{
    vstd::arithmetic::div_mod::lemma_div_is_ordered(a1 + b - 1, a2 + b - 1, b);
    vstd::arithmetic::div_mod::lemma_div_pos_is_pos(a1 + b - 1, b);
}

/// Every message, the empty one included, costs at least one permutation or
/// compression call.
pub proof fn lemma_perms_at_least_one(hash: HashId, len: int, p: PoseidonParams)
    requires
        len >= 0,
        hash == HashId::Poseidon ==> poseidon_params_ok(p),
    ensures
        spec_perms_per_msg(hash, len, p) >= 1,
{
    if hash == HashId::Poseidon {
        let e = max_int(ceil_div(len, p.bytes_per_elem as int), 1);
        lemma_ceil_div_monotone(1, e, p.rate as int);
        assert(ceil_div(1, p.rate as int) == 1) by {
            vstd::arithmetic::div_mod::lemma_div_plus_one(0, p.rate as int);
        }
    }
}

/// A longer message never costs fewer permutation / compression calls.
pub proof fn lemma_perms_monotone(hash: HashId, len1: int, len2: int, p: PoseidonParams)
    requires
        0 <= len1 <= len2,
        hash == HashId::Poseidon ==> poseidon_params_ok(p),
    ensures
        spec_perms_per_msg(hash, len1, p) <= spec_perms_per_msg(hash, len2, p),
{
    if hash == HashId::Poseidon {
        let b = p.bytes_per_elem as int;
        lemma_ceil_div_monotone(len1, len2, b);
        lemma_ceil_div_monotone(
            max_int(ceil_div(len1, b), 1),
            max_int(ceil_div(len2, b), 1),
            p.rate as int,
        );
    }
}

/// `q` is the number of `b`-sized blocks needed to hold `n` units:
/// `b * (q - 1) < n <= b * q`.
pub open spec fn holds_in_blocks(n: int, b: int, q: int) -> bool {
    b * (q - 1) < n <= b * q
}

proof fn lemma_ceil_div_blocks(n: int, b: int)
    requires
        n >= 1,
        b >= 1,
    ensures
        holds_in_blocks(n, b, ceil_div(n, b)),
{
    let q = ceil_div(n, b);
    vstd::arithmetic::div_mod::lemma_fundamental_div_mod(n + b - 1, b);
    let r = (n + b - 1) % b;
    vstd::arithmetic::div_mod::lemma_mod_bound(n + b - 1, b);
    assert(b * (q - 1) < n <= b * q) by (nonlinear_arith)
        requires
            n + b - 1 == b * q + r,
            0 <= r < b,
    ;
}

/// The call counts are the block counts of each construction: SHA-256 needs
/// as many 64-byte blocks as hold the message plus its 9 padding bytes;
/// SHA3-256 as many 136-byte rate blocks as hold the message plus one padding
/// byte; BLAKE3 one compression per 64-byte block and one parent per chunk
/// beyond the first 1024-byte chunk; Poseidon as many rate-sized absorptions
/// as hold the message's field elements (`bytes_per_elem` bytes each). An
/// empty message counts as one block, chunk or element.
pub proof fn lemma_perms_are_block_counts(hash: HashId, len: int, p: PoseidonParams)
    requires
        len >= 0,
        hash == HashId::Poseidon ==> poseidon_params_ok(p),
    ensures
        hash == HashId::Sha256 ==> holds_in_blocks(len + 9, 64, spec_perms_per_msg(hash, len, p)),
        hash == HashId::Sha3_256 ==> holds_in_blocks(len + 1, 136, spec_perms_per_msg(hash, len, p)),
        hash == HashId::Blake3 ==> exists|blocks: int, chunks: int|
            holds_in_blocks(max_int(len, 1), 64, blocks) && holds_in_blocks(max_int(len, 1), 1024, chunks)
                && spec_perms_per_msg(hash, len, p) == blocks + chunks - 1,
        hash == HashId::Poseidon ==> exists|elems: int|
            holds_in_blocks(max_int(len, 1), p.bytes_per_elem as int, elems) && holds_in_blocks(
                elems,
                p.rate as int,
                spec_perms_per_msg(hash, len, p),
            ),
{
    let n = max_int(len, 1);
    match hash {
        HashId::Sha256 => {},
        HashId::Sha3_256 => {},
        HashId::Blake3 => {
            lemma_ceil_div_blocks(n, 64);
            lemma_ceil_div_blocks(n, 1024);
            assert(max_int(ceil_div(len, 64), 1) == ceil_div(n, 64));
            assert(max_int(ceil_div(len, 1024), 1) == ceil_div(n, 1024));
        },
        HashId::Poseidon => {
            let b = p.bytes_per_elem as int;
            lemma_ceil_div_blocks(n, b);
            assert(max_int(ceil_div(len, b), 1) == ceil_div(n, b)) by {
                if len == 0 {
                    assert(ceil_div(0, b) == 0) by (nonlinear_arith)
                        requires
                            b >= 1,
                    {
                        assert(0 <= b - 1 < b);
                    }
                    assert(ceil_div(1, b) == 1) by (nonlinear_arith)
                        requires
                            b >= 1,
                    {
                        assert(b <= b < 2 * b);
                    }
                } else {
                    assert(ceil_div(len, b) >= 1) by (nonlinear_arith)
                        requires
                            b >= 1,
                            len >= 1,
                    {
                        assert(len + b - 1 >= b);
                    }
                }
            }
            let e = ceil_div(n, b);
            assert(e >= 1) by (nonlinear_arith)
                requires
                    holds_in_blocks(n, b, e),
                    n >= 1,
                    b >= 1,
            ;
            lemma_ceil_div_blocks(e, p.rate as int);
        },
    }
}

} // verus!
