use hash_bench::backends::{available_backends, Blake3Backend, HashBackend, Sha256Backend, Sha3Backend};
use hash_bench::callcount::HashId;

fn hex(bytes: &[u8]) -> String {
    bytes.iter().map(|b| format!("{:02x}", b)).collect()
}

#[test]
fn sha256_backend_digest() {
    let d = Sha256Backend.hash(b"abc");
    assert_eq!(hex(&d), "ba7816bf8f01cfea414140de5dae2223b00361a396177a9cb410ff61f20015ad");
    assert_eq!(Sha256Backend.id(), HashId::Sha256);
}

#[test]
fn sha3_backend_digest() {
    let d = Sha3Backend.hash(b"abc");
    assert_eq!(hex(&d), "3a985da74fe225b2045c172d6bd390bd855f086e3e9d525b46bfe24511431532");
    assert_eq!(Sha3Backend.id(), HashId::Sha3_256);
}

#[test]
fn blake3_backend_digest() {
    let d = Blake3Backend.hash(b"abc");
    assert_eq!(d.len(), 32);
    assert_eq!(d, blake3::hash(b"abc").as_bytes().to_vec());
    assert_ne!(d, b"abc".to_vec());
    assert_eq!(Blake3Backend.id(), HashId::Blake3);
}

#[test]
fn available_backends_in_order() {
    let b = available_backends();
    assert_eq!(b.len(), 3);
    assert_eq!(b[0].id(), HashId::Sha256);
    assert_eq!(b[1].id(), HashId::Sha3_256);
    assert_eq!(b[2].id(), HashId::Blake3);
    for backend in b.iter() {
        let d = backend.hash(&[0xab; 100]);
        assert_eq!(d.len(), 32);
    }
    assert_eq!(b[0].hash(b"abc"), Sha256Backend.hash(b"abc"));
}
