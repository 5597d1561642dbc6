//! The cryptographic primitives that the library calls, and the wiping of secrets.
use sha2::Digest;
use vstd::prelude::*;
use zeroize::Zeroize;

verus! {

/// Length of the authentication tag that closes a sealed message.
pub const AEAD_TAG_BYTES: usize = 16;

/// The SHA-256 digest of `message`.
pub uninterp spec fn sha256(message: Seq<u8>) -> Seq<u8>;

/// The 32 bytes that HKDF with SHA-256 expands `secret` to, under `salt` and `label`.
pub uninterp spec fn hkdf_sha256(salt: Seq<u8>, label: Seq<u8>, secret: Seq<u8>) -> Seq<u8>;

/// The message of `size` bytes that `sealed` holds under `key`, `None` where `sealed` has
/// another size or does not authenticate.
pub uninterp spec fn aead_opened(key: Seq<u8>, size: nat, sealed: Seq<u8>) -> Option<Seq<u8>>;

/// `sha2::Sha256::digest`: the digest of `message`, 32 bytes.
#[verifier::external_body]
pub(crate) fn digest(message: &[u8]) -> (r: [u8; 32])
    ensures
        r@ == sha256(message@),
{
    sha2::Sha256::digest(message).into()
}

/// `age_core::primitives::hkdf`: HKDF with SHA-256, expanded to 32 bytes.
#[verifier::external_body]
pub(crate) fn hkdf(salt: &[u8], label: &[u8], secret: &[u8]) -> (r: [u8; 32])
    ensures
        r@ == hkdf_sha256(salt@, label@, secret@),
{
    age_core::primitives::hkdf(salt, label, secret)
}

/// `age_core::primitives::aead_decrypt`: ChaCha20-Poly1305 with a zero nonce. It refuses a
/// ciphertext that is not the message and a tag long, and what it opens has the size asked for.
#[verifier::external_body]
pub(crate) fn aead_decrypt(key: &[u8; 32], size: usize, sealed: &[u8]) -> (r: Option<Vec<u8>>)
    requires
        size <= usize::MAX - AEAD_TAG_BYTES,
    ensures
        match r {
            Some(message) => aead_opened(key@, size as nat, sealed@) == Some(message@),
            None => aead_opened(key@, size as nat, sealed@) is None,
        },
        sealed@.len() != size + AEAD_TAG_BYTES ==> r is None,
        r matches Some(message) ==> message@.len() == size,
{
    age_core::primitives::aead_decrypt(key, size, sealed).ok()
}

/// `zeroize::Zeroize` for a vector of bytes: overwrites them and leaves the vector empty.
#[verifier::external_body]
pub(crate) fn wipe_bytes(secret: &mut Vec<u8>)
    ensures
        final(secret)@ == Seq::<u8>::empty(),
{
    secret.zeroize();
}

/// `zeroize::Zeroize` for an array of bytes: overwrites each with zero.
#[verifier::external_body]
pub(crate) fn wipe_array(secret: &mut [u8; 16])
    ensures
        final(secret)@ == Seq::new(16, |i: int| 0u8),
{
    secret.zeroize();
}

/// `zeroize::Zeroize` for a string: overwrites its bytes and leaves it empty.
#[verifier::external_body]
pub(crate) fn wipe_text(secret: &mut String)
    ensures
        final(secret)@ == Seq::<char>::empty(),
{
    secret.zeroize();
}

} // verus!
