//! Content fingerprinting.
//!
//! A file's fingerprint is the lowercase hex rendering of the SHA-256
//! digest of its full content. Hashing is incremental over bounded chunks,
//! so arbitrarily large files never sit in memory; the host feeds the
//! chunks it reads, this module owns the hashing state.

use vstd::prelude::*;

verus! {

/// Declares sha2's streaming SHA-256 hasher so it can live in a field.
#[verifier::external_type_specification]
#[verifier::external_body]
pub struct ExSha256(sha2::Sha256);

/// Name for the bytes a hasher has absorbed so far.
pub uninterp spec fn sha256_absorbed(h: sha2::Sha256) -> Seq<u8>;

/// Name for the 32-byte SHA-256 digest of a byte string.
pub uninterp spec fn sha256_digest_of(data: Seq<u8>) -> Seq<u8>;

/// Relies on sha2's Digest::new: a fresh hasher has absorbed nothing.
#[verifier::external_body]
fn sha256_new() -> (r: sha2::Sha256)
    ensures
        sha256_absorbed(r) == Seq::<u8>::empty(),
{
    <sha2::Sha256 as sha2::Digest>::new()
}

/// Relies on sha2's Digest::update: appends the chunk to what the hasher
/// has absorbed.
#[verifier::external_body]
fn sha256_update(h: &mut sha2::Sha256, chunk: &[u8])
    ensures
        sha256_absorbed(*final(h)) == sha256_absorbed(*old(h)) + chunk@,
{
    sha2::Digest::update(h, chunk);
}

/// Relies on sha2's Digest::finalize: the 32-byte SHA-256 digest of all
/// absorbed bytes.
#[verifier::external_body]
fn sha256_finalize(h: sha2::Sha256) -> (r: Vec<u8>)
    ensures
        r@ == sha256_digest_of(sha256_absorbed(h)),
        r@.len() == 32,
{
    sha2::Digest::finalize(h).to_vec()
}

/// The sixteen lowercase hex digit characters, indexable by value.
pub const HEX_LOWER: [char; 16] = [
    '0',
    '1',
    '2',
    '3',
    '4',
    '5',
    '6',
    '7',
    '8',
    '9',
    'a',
    'b',
    'c',
    'd',
    'e',
    'f',
];

/// Lowercase hex rendering of a byte string, two digits per byte.
pub open spec fn spec_hex_lower(data: Seq<u8>) -> Seq<char>
    decreases data.len(),
{
    if data.len() == 0 {
        seq![]
    } else {
        seq![
            HEX_LOWER[(data.first() / 16) as int],
            HEX_LOWER[(data.first() % 16) as int],
        ] + spec_hex_lower(data.drop_first())
    }
}

/// Relies on hex::encode: the lowercase hex rendering, two digits per byte,
/// exactly [`spec_hex_lower`].
#[verifier::external_body]
fn hex_encode(data: &[u8]) -> (r: String)
    ensures
        r@ == spec_hex_lower(data@),
{
    hex::encode(data)
}

/// Incremental content fingerprinting: absorbs the file's bytes chunk by
/// chunk and finishes with the hex fingerprint of the whole content.
pub struct Fingerprinter {
    inner: sha2::Sha256,
}

impl Fingerprinter {
    /// The bytes absorbed so far.
    pub closed spec fn absorbed(&self) -> Seq<u8> {
        sha256_absorbed(self.inner)
    }

    /// A fresh fingerprinter that has absorbed nothing.
    pub fn new() -> (r: Fingerprinter)
        ensures
            r.absorbed() == Seq::<u8>::empty(),
    {
        Fingerprinter { inner: sha256_new() }
    }

    /// Absorbs one chunk of content.
    pub fn update(&mut self, chunk: &[u8])
        ensures
            final(self).absorbed() == old(self).absorbed() + chunk@,
    {
        sha256_update(&mut self.inner, chunk);
    }

    /// The fingerprint of everything absorbed: the lowercase hex rendering
    /// of the SHA-256 digest.
    pub fn finish(self) -> (r: String)
        ensures
            r@ == spec_hex_lower(sha256_digest_of(self.absorbed())),
    {
        let digest = sha256_finalize(self.inner);
        hex_encode(digest.as_slice())
    }
}

/// One-shot fingerprint of a byte string held in memory.
pub fn fingerprint_bytes(data: &[u8]) -> (r: String)
    ensures
        r@ == spec_hex_lower(sha256_digest_of(data@)),
{
    let mut fp = Fingerprinter::new();
    fp.update(data);
    proof {
        assert(fp.absorbed() =~= data@);
    }
    fp.finish()
}

} // verus!
