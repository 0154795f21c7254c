//! Native backends: the real hash implementations, used only to calibrate the
//! native cost atoms by timing them.

use vstd::prelude::*;
use sha2::Digest;
use crate::callcount::HashId;

verus! {

/// The SHA-256 digest of a message, as `sha2` computes it.
pub uninterp spec fn sha256_of(msg: Seq<u8>) -> Seq<u8>;

/// The SHA3-256 digest of a message, as `sha3` computes it.
pub uninterp spec fn sha3_256_of(msg: Seq<u8>) -> Seq<u8>;

/// The BLAKE3 hash (default 32-byte output) of a message, as `blake3` computes it.
pub uninterp spec fn blake3_of(msg: Seq<u8>) -> Seq<u8>;

/// Calls `sha2::Sha256::digest`. Trusted: the result is the digest named by
/// `sha256_of`, 32 bytes long (the output size of SHA-256).
#[verifier::external_body]
fn sha256_digest(msg: &[u8]) -> (r: Vec<u8>)
    ensures
        r@ == sha256_of(msg@),
        r@.len() == 32,
{
    sha2::Sha256::digest(msg).to_vec()
}

/// Calls `sha3::Sha3_256::digest`. Trusted: the result is the digest named by
/// `sha3_256_of`, 32 bytes long (the output size of SHA3-256).
#[verifier::external_body]
fn sha3_256_digest(msg: &[u8]) -> (r: Vec<u8>)
    ensures
        r@ == sha3_256_of(msg@),
        r@.len() == 32,
{
    sha3::Sha3_256::digest(msg).to_vec()
}

/// Calls `blake3::hash`. Trusted: the result is the hash named by
/// `blake3_of`, 32 bytes long (`blake3::OUT_LEN`).
#[verifier::external_body]
fn blake3_digest(msg: &[u8]) -> (r: Vec<u8>)
    ensures
        r@ == blake3_of(msg@),
        r@.len() == 32,
{
    blake3::hash(msg).as_bytes().to_vec()
}

/// A native implementation of one of the hashes under comparison.
pub trait HashBackend {
    /// Which hash this backend implements.
    spec fn spec_id(&self) -> HashId;

    /// What this backend computes for a message.
    spec fn spec_hash(&self, msg: Seq<u8>) -> Seq<u8>;

    /// Which hash this backend implements.
    fn id(&self) -> (r: HashId)
        ensures
            r == self.spec_id(),
    ;

    /// Hashes one message.
    fn hash(&self, msg: &[u8]) -> (r: Vec<u8>)
        ensures
            r@ == self.spec_hash(msg@),
    ;
}

/// SHA-256 through the `sha2` crate.
#[derive(Clone, Copy, Debug)]
pub struct Sha256Backend;

impl HashBackend for Sha256Backend {
    open spec fn spec_id(&self) -> HashId {
        HashId::Sha256
    }

    open spec fn spec_hash(&self, msg: Seq<u8>) -> Seq<u8> {
        sha256_of(msg)
    }

    fn id(&self) -> (r: HashId) {
        HashId::Sha256
    }

    fn hash(&self, msg: &[u8]) -> (r: Vec<u8>) {
        sha256_digest(msg)
    }
}

/// SHA3-256 through the `sha3` crate.
#[derive(Clone, Copy, Debug)]
pub struct Sha3Backend;

impl HashBackend for Sha3Backend {
    open spec fn spec_id(&self) -> HashId {
        HashId::Sha3_256
    }

    open spec fn spec_hash(&self, msg: Seq<u8>) -> Seq<u8> {
        sha3_256_of(msg)
    }

    fn id(&self) -> (r: HashId) {
        HashId::Sha3_256
    }

    fn hash(&self, msg: &[u8]) -> (r: Vec<u8>) {
        sha3_256_digest(msg)
    }
}

/// BLAKE3 through the `blake3` crate.
#[derive(Clone, Copy, Debug)]
pub struct Blake3Backend;

impl HashBackend for Blake3Backend {
    open spec fn spec_id(&self) -> HashId {
        HashId::Blake3
    }

    open spec fn spec_hash(&self, msg: Seq<u8>) -> Seq<u8> {
        blake3_of(msg)
    }

    fn id(&self) -> (r: HashId) {
        HashId::Blake3
    }

    fn hash(&self, msg: &[u8]) -> (r: Vec<u8>) {
        blake3_digest(msg)
    }
}

/// One of the native backends, as `available_backends` hands it out.
#[derive(Clone, Copy, Debug)]
pub enum NativeBackend {
    Sha256(Sha256Backend),
    Sha3(Sha3Backend),
    Blake3(Blake3Backend),
}

impl HashBackend for NativeBackend {
    open spec fn spec_id(&self) -> HashId {
        match self {
            NativeBackend::Sha256(_) => HashId::Sha256,
            NativeBackend::Sha3(_) => HashId::Sha3_256,
            NativeBackend::Blake3(_) => HashId::Blake3,
        }
    }

    open spec fn spec_hash(&self, msg: Seq<u8>) -> Seq<u8> {
        match self {
            NativeBackend::Sha256(_) => sha256_of(msg),
            NativeBackend::Sha3(_) => sha3_256_of(msg),
            NativeBackend::Blake3(_) => blake3_of(msg),
        }
    }

    fn id(&self) -> (r: HashId) {
        match self {
            NativeBackend::Sha256(b) => b.id(),
            NativeBackend::Sha3(b) => b.id(),
            NativeBackend::Blake3(b) => b.id(),
        }
    }

    fn hash(&self, msg: &[u8]) -> (r: Vec<u8>) {
        match self {
            NativeBackend::Sha256(b) => b.hash(msg),
            NativeBackend::Sha3(b) => b.hash(msg),
            NativeBackend::Blake3(b) => b.hash(msg),
        }
    }
}

/// The backends that `measure` times, in report order: SHA-256, SHA3-256,
/// BLAKE3. Poseidon has no native backend.
pub fn available_backends() -> (r: Vec<NativeBackend>)
    ensures
        r.len() == 3,
        r[0].spec_id() == HashId::Sha256,
        r[1].spec_id() == HashId::Sha3_256,
        r[2].spec_id() == HashId::Blake3,
        forall|m: Seq<u8>| #[trigger] r[0].spec_hash(m) == sha256_of(m),
        forall|m: Seq<u8>| #[trigger] r[1].spec_hash(m) == sha3_256_of(m),
        forall|m: Seq<u8>| #[trigger] r[2].spec_hash(m) == blake3_of(m),
{
    let mut v: Vec<NativeBackend> = Vec::new();
    v.push(NativeBackend::Sha256(Sha256Backend));
    v.push(NativeBackend::Sha3(Sha3Backend));
    v.push(NativeBackend::Blake3(Blake3Backend));
    v
}

} // verus!
