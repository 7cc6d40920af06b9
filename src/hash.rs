use sha2::Digest;
use vstd::prelude::*;

verus! {

/// The lowercase hex SHA-256 digest of the UTF-8 bytes of a path.
pub uninterp spec fn path_digest(path: Seq<char>) -> Seq<char>;

/// Identity of a path for deduplication: a hex SHA-256 digest of its bytes,
/// independent of the file's content.
/// Relies on sha2::Sha256 (`new`, `update`, `finalize`) and its `LowerHex`
/// formatting: the digest is a function of the bytes alone, 64 hex digits.
#[verifier::external_body]
pub fn hash_path_buff_sha_256(input: &str) -> (r: String)
    ensures
        r@ == path_digest(input@),
        r@.len() == 64,
{
    let mut hasher = sha2::Sha256::new();
    hasher.update(input.as_bytes());
    let digest = hasher.finalize();
    format!("{:x}", digest)
}

} // verus!
