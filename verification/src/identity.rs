//! Content identity of a file: a streaming SHA-256 hasher and the builder
//! of the content-addressed record for one discovered file.
//!
//! Opening and reading the file is input/output and lives with the
//! caller, which streams the bytes through the hasher chunk by chunk; the
//! identity itself — what the hash text is a function of — is pinned down
//! here.
use crate::schema::Image;
use crate::schema::now_timestamp_millis;
use sha2::Digest;
use vstd::prelude::*;

verus! {

/// The lowercase hexadecimal SHA-256 digest of a byte sequence, as sha2
/// computes it. Left uninterpreted: that the text is a function of the
/// bytes alone is all the library relies on.
pub uninterp spec fn sha256_hex_of(bytes: Seq<u8>) -> Seq<char>;

/// A streaming SHA-256 hasher. It holds sha2's state; the byte content
/// absorbed so far exists only in specifications, through `absorbed`.
#[verifier::external_body]
pub struct Sha256Hasher {
    inner: sha2::Sha256,
}

/// The bytes a hasher has absorbed since it was created.
pub uninterp spec fn absorbed(h: Sha256Hasher) -> Seq<u8>;

impl Sha256Hasher {
    /// Relies on sha2::Sha256::new: a fresh hasher has absorbed nothing.
    #[verifier::external_body]
    pub fn new() -> (h: Sha256Hasher)
        ensures
            absorbed(h) == Seq::<u8>::empty(),
    {
        Sha256Hasher { inner: sha2::Sha256::new() }
    }

    /// Relies on sha2::Sha256::update: absorbing a chunk appends it to
    /// the absorbed content.
    #[verifier::external_body]
    pub fn update(&mut self, chunk: &[u8])
        ensures
            absorbed(*final(self)) == absorbed(*old(self)) + chunk@,
    {
        self.inner.update(chunk);
    }

    /// Relies on sha2::Sha256::finalize and its lowercase-hex formatting:
    /// the digest text is a function of the absorbed bytes alone, and the
    /// 32 digest bytes print as exactly 64 hexadecimal characters.
    #[verifier::external_body]
    pub fn finalize_hex(self) -> (r: String)
        ensures
            r@ == sha256_hex_of(absorbed(self)),
            r@.len() == 64,
    {
        format!("{:x}", self.inner.finalize())
    }
}

/// Law: content identity is idempotent — the same byte content, hashed
/// twice, under whatever paths, yields the same hash text.
pub proof fn lemma_hash_deterministic(b1: Seq<u8>, b2: Seq<u8>)
    requires
        b1 == b2,
    ensures
        sha256_hex_of(b1) == sha256_hex_of(b2),
{
}

/// Builds the content-addressed record for one discovered file whose
/// bytes were streamed through `hasher`. The creation timestamp is
/// best-effort: when the filesystem exposed none, the present time — the
/// processing timestamp — stands in for it.
pub fn create_hashed_image_file(path: String, created: Option<i64>, hasher: Sha256Hasher) -> (img:
    Image)
    ensures
        img.path == path,
        img.creation_timestamp == (match created {
            Some(t) => t,
            None => img.processing_timestamp,
        }),
        img.hash@ == sha256_hex_of(absorbed(hasher)),
        img.hash@.len() == 64,
{
    let now: i64 = now_timestamp_millis();
    let creation: i64 = match created {
        Some(t) => t,
        None => now,
    };
    let hash = hasher.finalize_hex();
    Image { path, creation_timestamp: creation, processing_timestamp: now, hash }
}

} // verus!
