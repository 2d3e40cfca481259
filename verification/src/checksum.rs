//! Digests of an archive.
//!
//! An archive is hashed as it is read: each chunk is handed to four
//! hashers, and none of them ever holds the whole file.

use digest::Digest;
use vstd::prelude::*;
use crate::compress::{chunk_views, stream_of};
use crate::repo::entries::Checksums;

verus! {

/// The MD5 hasher `md5::Md5`, carried through unseen.
#[verifier::external_type_specification]
#[verifier::external_body]
pub struct ExMd5(md5::Md5);

/// The SHA-1 hasher `sha1::Sha1`, carried through unseen.
#[verifier::external_type_specification]
#[verifier::external_body]
pub struct ExSha1(sha1::Sha1);

/// The SHA-256 hasher `sha2::Sha256`, carried through unseen.
#[verifier::external_type_specification]
#[verifier::external_body]
pub struct ExSha256(sha2::Sha256);

/// The SHA-512 hasher `sha2::Sha512`, carried through unseen.
#[verifier::external_type_specification]
#[verifier::external_body]
pub struct ExSha512(sha2::Sha512);

/// The bytes that were handed to a MD5 hasher so far.
pub uninterp spec fn md5_input(hasher: md5::Md5) -> Seq<u8>;

/// The MD5 digest of `data`, as `md5::Md5` computes it.
pub uninterp spec fn md5_of(data: Seq<u8>) -> Seq<u8>;

/// Makes a hasher with `md5::Md5::new`: nothing was handed to it yet.
#[verifier::external_body]
fn md5_new() -> (hasher: md5::Md5)
    ensures
        md5_input(hasher) == Seq::<u8>::empty(),
{
    md5::Md5::new()
}

/// Hands `data` to the hasher with `Digest::update`: the hasher has then
/// been handed what it had before, followed by `data`.
#[verifier::external_body]
fn md5_update(hasher: md5::Md5, data: &[u8]) -> (after: md5::Md5)
    ensures
        md5_input(after) == md5_input(hasher) + data@,
{
    let mut hasher = hasher;
    hasher.update(data);
    hasher
}

/// Ends the hasher with `Digest::finalize`: the result is the MD5
/// digest of all that was handed to it.
#[verifier::external_body]
fn md5_finalize(hasher: md5::Md5) -> (digest: Vec<u8>)
    ensures
        digest@ == md5_of(md5_input(hasher)),
{
    hasher.finalize().as_slice().to_vec()
}

/// The bytes that were handed to a SHA-1 hasher so far.
pub uninterp spec fn sha1_input(hasher: sha1::Sha1) -> Seq<u8>;

/// The SHA-1 digest of `data`, as `sha1::Sha1` computes it.
pub uninterp spec fn sha1_of(data: Seq<u8>) -> Seq<u8>;

/// Makes a hasher with `sha1::Sha1::new`: nothing was handed to it yet.
#[verifier::external_body]
fn sha1_new() -> (hasher: sha1::Sha1)
    ensures
        sha1_input(hasher) == Seq::<u8>::empty(),
{
    sha1::Sha1::new()
}

/// Hands `data` to the hasher with `Digest::update`: the hasher has then
/// been handed what it had before, followed by `data`.
#[verifier::external_body]
fn sha1_update(hasher: sha1::Sha1, data: &[u8]) -> (after: sha1::Sha1)
    ensures
        sha1_input(after) == sha1_input(hasher) + data@,
{
    let mut hasher = hasher;
    hasher.update(data);
    hasher
}

/// Ends the hasher with `Digest::finalize`: the result is the SHA-1
/// digest of all that was handed to it.
#[verifier::external_body]
fn sha1_finalize(hasher: sha1::Sha1) -> (digest: Vec<u8>)
    ensures
        digest@ == sha1_of(sha1_input(hasher)),
{
    hasher.finalize().as_slice().to_vec()
}

/// The bytes that were handed to a SHA-256 hasher so far.
pub uninterp spec fn sha256_input(hasher: sha2::Sha256) -> Seq<u8>;

/// The SHA-256 digest of `data`, as `sha2::Sha256` computes it.
pub uninterp spec fn sha256_of(data: Seq<u8>) -> Seq<u8>;

/// Makes a hasher with `sha2::Sha256::new`: nothing was handed to it yet.
#[verifier::external_body]
fn sha256_new() -> (hasher: sha2::Sha256)
    ensures
        sha256_input(hasher) == Seq::<u8>::empty(),
{
    sha2::Sha256::new()
}

/// Hands `data` to the hasher with `Digest::update`: the hasher has then
/// been handed what it had before, followed by `data`.
#[verifier::external_body]
fn sha256_update(hasher: sha2::Sha256, data: &[u8]) -> (after: sha2::Sha256)
    ensures
        sha256_input(after) == sha256_input(hasher) + data@,
{
    let mut hasher = hasher;
    hasher.update(data);
    hasher
}

/// Ends the hasher with `Digest::finalize`: the result is the SHA-256
/// digest of all that was handed to it.
#[verifier::external_body]
fn sha256_finalize(hasher: sha2::Sha256) -> (digest: Vec<u8>)
    ensures
        digest@ == sha256_of(sha256_input(hasher)),
{
    hasher.finalize().as_slice().to_vec()
}

/// The bytes that were handed to a SHA-512 hasher so far.
pub uninterp spec fn sha512_input(hasher: sha2::Sha512) -> Seq<u8>;

/// The SHA-512 digest of `data`, as `sha2::Sha512` computes it.
pub uninterp spec fn sha512_of(data: Seq<u8>) -> Seq<u8>;

/// Makes a hasher with `sha2::Sha512::new`: nothing was handed to it yet.
#[verifier::external_body]
fn sha512_new() -> (hasher: sha2::Sha512)
    ensures
        sha512_input(hasher) == Seq::<u8>::empty(),
{
    sha2::Sha512::new()
}

/// Hands `data` to the hasher with `Digest::update`: the hasher has then
/// been handed what it had before, followed by `data`.
#[verifier::external_body]
fn sha512_update(hasher: sha2::Sha512, data: &[u8]) -> (after: sha2::Sha512)
    ensures
        sha512_input(after) == sha512_input(hasher) + data@,
{
    let mut hasher = hasher;
    hasher.update(data);
    hasher
}

/// Ends the hasher with `Digest::finalize`: the result is the SHA-512
/// digest of all that was handed to it.
#[verifier::external_body]
fn sha512_finalize(hasher: sha2::Sha512) -> (digest: Vec<u8>)
    ensures
        digest@ == sha512_of(sha512_input(hasher)),
{
    hasher.finalize().as_slice().to_vec()
}

/// The character of a hexadecimal digit, in lower case.
pub open spec fn hex_digit(d: nat) -> char {
    if d == 0 {
        '0'
    } else if d == 1 {
        '1'
    } else if d == 2 {
        '2'
    } else if d == 3 {
        '3'
    } else if d == 4 {
        '4'
    } else if d == 5 {
        '5'
    } else if d == 6 {
        '6'
    } else if d == 7 {
        '7'
    } else if d == 8 {
        '8'
    } else if d == 9 {
        '9'
    } else if d == 10 {
        'a'
    } else if d == 11 {
        'b'
    } else if d == 12 {
        'c'
    } else if d == 13 {
        'd'
    } else if d == 14 {
        'e'
    } else {
        'f'
    }
}

/// Bytes written in hexadecimal: two lower-case digits for each byte.
pub open spec fn hex_lower(bytes: Seq<u8>) -> Seq<char>
    decreases bytes.len(),
{
    if bytes.len() == 0 {
        Seq::empty()
    } else {
        hex_lower(bytes.drop_last()).push(hex_digit((bytes.last() / 16) as nat)).push(
            hex_digit((bytes.last() % 16) as nat),
        )
    }
}

/// Formats bytes with `hex_view::HexView` and `{:x}`, which writes each
/// byte as two lower-case hexadecimal digits.
#[verifier::external_body]
fn to_hex(bytes: &[u8]) -> (text: String)
    ensures
        text@ == hex_lower(bytes@),
{
    format!("{:x}", hex_view::HexView::from(bytes))
}

/// The algorithms that an archive is hashed with.
#[derive(Clone, Copy, PartialEq, Eq, Debug, Structural)]
pub enum Algorithm {
    Md5,
    Sha1,
    Sha256,
    Sha512,
}

/// The digest of `data` under `algorithm`.
pub open spec fn digest_of(algorithm: Algorithm, data: Seq<u8>) -> Seq<u8> {
    match algorithm {
        Algorithm::Md5 => md5_of(data),
        Algorithm::Sha1 => sha1_of(data),
        Algorithm::Sha256 => sha256_of(data),
        Algorithm::Sha512 => sha512_of(data),
    }
}

/// Four hashers that are handed the same bytes.
pub struct ChecksumEngine {
    md5: md5::Md5,
    sha1: sha1::Sha1,
    sha256: sha2::Sha256,
    sha512: sha2::Sha512,
}

impl ChecksumEngine {
    #[verifier::type_invariant]
    spec fn in_step(self) -> bool {
        &&& sha1_input(self.sha1) == md5_input(self.md5)
        &&& sha256_input(self.sha256) == md5_input(self.md5)
        &&& sha512_input(self.sha512) == md5_input(self.md5)
    }

    /// The bytes that were handed to the engine so far.
    pub closed spec fn input(self) -> Seq<u8> {
        md5_input(self.md5)
    }

    /// An engine that was handed nothing yet.
    pub fn new() -> (engine: ChecksumEngine)
        ensures
            engine.input() == Seq::<u8>::empty(),
    {
        ChecksumEngine {
            md5: md5_new(),
            sha1: sha1_new(),
            sha256: sha256_new(),
            sha512: sha512_new(),
        }
    }

    /// Hands the next chunk of the archive to all four hashers.
    pub fn update(self, chunk: &[u8]) -> (engine: ChecksumEngine)
        ensures
            engine.input() == self.input() + chunk@,
    {
        proof {
            use_type_invariant(&self);
        }
        ChecksumEngine {
            md5: md5_update(self.md5, chunk),
            sha1: sha1_update(self.sha1, chunk),
            sha256: sha256_update(self.sha256, chunk),
            sha512: sha512_update(self.sha512, chunk),
        }
    }

    /// The four digests of all that was handed to the engine, each in
    /// lower-case hexadecimal.
    pub fn finish(self) -> (sums: Checksums)
        ensures
            sums.md5@ == hex_lower(md5_of(self.input())),
            sums.sha1@ == hex_lower(sha1_of(self.input())),
            sums.sha256@ == hex_lower(sha256_of(self.input())),
            sums.sha512@ == hex_lower(sha512_of(self.input())),
    {
        proof {
            use_type_invariant(&self);
        }
        let md5 = md5_finalize(self.md5);
        let sha1 = sha1_finalize(self.sha1);
        let sha256 = sha256_finalize(self.sha256);
        let sha512 = sha512_finalize(self.sha512);
        Checksums {
            md5: to_hex(md5.as_slice()),
            sha1: to_hex(sha1.as_slice()),
            sha256: to_hex(sha256.as_slice()),
            sha512: to_hex(sha512.as_slice()),
        }
    }
}

/// The four digests of the archive that the chunks make, in their order.
pub fn checksums(chunks: &Vec<Vec<u8>>) -> (sums: Checksums)
    ensures
        sums.md5@ == hex_lower(md5_of(stream_of(chunk_views(chunks@)))),
        sums.sha1@ == hex_lower(sha1_of(stream_of(chunk_views(chunks@)))),
        sums.sha256@ == hex_lower(sha256_of(stream_of(chunk_views(chunks@)))),
        sums.sha512@ == hex_lower(sha512_of(stream_of(chunk_views(chunks@)))),
{
    let mut engine = ChecksumEngine::new();
    let mut i: usize = 0;
    proof {
        assert(chunk_views(chunks@).take(0) =~= Seq::empty());
    }
    while i < chunks.len()
        invariant
            i <= chunks.len(),
            engine.input() == stream_of(chunk_views(chunks@).take(i as int)),
        decreases chunks.len() - i,
    {
        proof {
            let next = chunk_views(chunks@).take(i + 1);
            assert(next.drop_last() =~= chunk_views(chunks@).take(i as int));
            assert(next.last() == chunks@[i as int]@);
        }
        engine = engine.update(chunks[i].as_slice());
        i += 1;
    }
    proof {
        assert(chunk_views(chunks@).take(chunks@.len() as int) =~= chunk_views(chunks@));
    }
    engine.finish()
}

fn md5_stream(chunks: &Vec<Vec<u8>>) -> (digest: Vec<u8>)
    ensures
        digest@ == md5_of(stream_of(chunk_views(chunks@))),
{
    let mut hasher = md5_new();
    let mut i: usize = 0;
    proof {
        assert(chunk_views(chunks@).take(0) =~= Seq::empty());
    }
    while i < chunks.len()
        invariant
            i <= chunks.len(),
            md5_input(hasher) == stream_of(chunk_views(chunks@).take(i as int)),
        decreases chunks.len() - i,
    {
        proof {
            let next = chunk_views(chunks@).take(i + 1);
            assert(next.drop_last() =~= chunk_views(chunks@).take(i as int));
            assert(next.last() == chunks@[i as int]@);
        }
        hasher = md5_update(hasher, chunks[i].as_slice());
        i += 1;
    }
    proof {
        assert(chunk_views(chunks@).take(chunks@.len() as int) =~= chunk_views(chunks@));
    }
    md5_finalize(hasher)
}

fn sha1_stream(chunks: &Vec<Vec<u8>>) -> (digest: Vec<u8>)
    ensures
        digest@ == sha1_of(stream_of(chunk_views(chunks@))),
{
    let mut hasher = sha1_new();
    let mut i: usize = 0;
    proof {
        assert(chunk_views(chunks@).take(0) =~= Seq::empty());
    }
    while i < chunks.len()
        invariant
            i <= chunks.len(),
            sha1_input(hasher) == stream_of(chunk_views(chunks@).take(i as int)),
        decreases chunks.len() - i,
    {
        proof {
            let next = chunk_views(chunks@).take(i + 1);
            assert(next.drop_last() =~= chunk_views(chunks@).take(i as int));
            assert(next.last() == chunks@[i as int]@);
        }
        hasher = sha1_update(hasher, chunks[i].as_slice());
        i += 1;
    }
    proof {
        assert(chunk_views(chunks@).take(chunks@.len() as int) =~= chunk_views(chunks@));
    }
    sha1_finalize(hasher)
}

fn sha256_stream(chunks: &Vec<Vec<u8>>) -> (digest: Vec<u8>)
    ensures
        digest@ == sha256_of(stream_of(chunk_views(chunks@))),
{
    let mut hasher = sha256_new();
    let mut i: usize = 0;
    proof {
        assert(chunk_views(chunks@).take(0) =~= Seq::empty());
    }
    while i < chunks.len()
        invariant
            i <= chunks.len(),
            sha256_input(hasher) == stream_of(chunk_views(chunks@).take(i as int)),
        decreases chunks.len() - i,
    {
        proof {
            let next = chunk_views(chunks@).take(i + 1);
            assert(next.drop_last() =~= chunk_views(chunks@).take(i as int));
            assert(next.last() == chunks@[i as int]@);
        }
        hasher = sha256_update(hasher, chunks[i].as_slice());
        i += 1;
    }
    proof {
        assert(chunk_views(chunks@).take(chunks@.len() as int) =~= chunk_views(chunks@));
    }
    sha256_finalize(hasher)
}

fn sha512_stream(chunks: &Vec<Vec<u8>>) -> (digest: Vec<u8>)
    ensures
        digest@ == sha512_of(stream_of(chunk_views(chunks@))),
{
    let mut hasher = sha512_new();
    let mut i: usize = 0;
    proof {
        assert(chunk_views(chunks@).take(0) =~= Seq::empty());
    }
    while i < chunks.len()
        invariant
            i <= chunks.len(),
            sha512_input(hasher) == stream_of(chunk_views(chunks@).take(i as int)),
        decreases chunks.len() - i,
    {
        proof {
            let next = chunk_views(chunks@).take(i + 1);
            assert(next.drop_last() =~= chunk_views(chunks@).take(i as int));
            assert(next.last() == chunks@[i as int]@);
        }
        hasher = sha512_update(hasher, chunks[i].as_slice());
        i += 1;
    }
    proof {
        assert(chunk_views(chunks@).take(chunks@.len() as int) =~= chunk_views(chunks@));
    }
    sha512_finalize(hasher)
}

/// The digest of the stream that the chunks make, under one algorithm, in
/// lower-case hexadecimal.
pub fn hasher(algorithm: Algorithm, chunks: &Vec<Vec<u8>>) -> (text: String)
    ensures
        text@ == hex_lower(digest_of(algorithm, stream_of(chunk_views(chunks@)))),
{
    let digest = match algorithm {
        Algorithm::Md5 => md5_stream(chunks),
        Algorithm::Sha1 => sha1_stream(chunks),
        Algorithm::Sha256 => sha256_stream(chunks),
        Algorithm::Sha512 => sha512_stream(chunks),
    };
    to_hex(digest.as_slice())
}

} // verus!
