use debrep::checksum::{checksums, hasher, Algorithm, ChecksumEngine};

const MD5_ABC: &str = "900150983cd24fb0d6963f7d28e17f72";
const SHA1_ABC: &str = "a9993e364706816aba3e25717850c26c9cd0d89d";
const SHA256_ABC: &str = "ba7816bf8f01cfea414140de5dae2223b00361a396177a9cb410ff61f20015ad";
const SHA512_ABC: &str = "ddaf35a193617abacc417349ae20413112e6fa4e89a97ea20a9eeee64b55d39a2192992a274fc1a836ba3c23a3feebbd454d4423643ce80e2a9ac94fa54ca49f";

#[test]
fn digests_of_a_known_text() {
    let sums = ChecksumEngine::new().update(b"abc").finish();
    assert_eq!(sums.md5, MD5_ABC);
    assert_eq!(sums.sha1, SHA1_ABC);
    assert_eq!(sums.sha256, SHA256_ABC);
    assert_eq!(sums.sha512, SHA512_ABC);
}

#[test]
fn digests_do_not_depend_on_the_chunks() {
    let sums = ChecksumEngine::new().update(b"a").update(b"").update(b"bc").finish();
    assert_eq!(sums.md5, MD5_ABC);
    assert_eq!(sums.sha1, SHA1_ABC);
    assert_eq!(sums.sha256, SHA256_ABC);
    assert_eq!(sums.sha512, SHA512_ABC);
    let sums = checksums(&vec![b"ab".to_vec(), b"c".to_vec()]);
    assert_eq!(sums.md5, MD5_ABC);
    assert_eq!(sums.sha512, SHA512_ABC);
}

#[test]
fn digests_of_nothing() {
    let sums = ChecksumEngine::new().finish();
    assert_eq!(sums.md5, "d41d8cd98f00b204e9800998ecf8427e");
    assert_eq!(sums.sha1, "da39a3ee5e6b4b0d3255bfef95601890afd80709");
    assert_eq!(
        sums.sha256,
        "e3b0c44298fc1c149afbf4c8996fb92427ae41e4649b934ca495991b7852b855"
    );
    assert_eq!(sums.sha512.len(), 128);
}

#[test]
fn one_digest_of_a_stream() {
    let chunks = vec![b"a".to_vec(), b"bc".to_vec()];
    assert_eq!(hasher(Algorithm::Md5, &chunks), MD5_ABC);
    assert_eq!(hasher(Algorithm::Sha1, &chunks), SHA1_ABC);
    assert_eq!(hasher(Algorithm::Sha256, &chunks), SHA256_ABC);
    assert_eq!(hasher(Algorithm::Sha512, &chunks), SHA512_ABC);
}

#[test]
fn a_large_archive_is_hashed_in_chunks() {
    let chunk = vec![0x61u8; 8 * 1024];
    let mut engine = ChecksumEngine::new();
    for _ in 0..128 {
        engine = engine.update(&chunk);
    }
    let streamed = engine.finish();
    let whole = ChecksumEngine::new().update(&vec![0x61u8; 128 * 8 * 1024]).finish();
    assert_eq!(streamed.md5, whole.md5);
    assert_eq!(streamed.sha256, whole.sha256);
}
