//! P-256 public keys, held as plain bytes.
use p256::elliptic_curve::sec1::ToEncodedPoint;
use vstd::prelude::*;

verus! {

/// Length of a compressed point: one byte for the parity of `y`, then `x`.
pub const COMPRESSED_BYTES: usize = 33;

/// Length of an uncompressed point: a marker byte, then `x`, then `y`.
pub const UNCOMPRESSED_BYTES: usize = 65;

/// The compressed form of the key that `p256::PublicKey::from_sec1_bytes` reads from `bytes`,
/// `None` where it refuses them.
pub uninterp spec fn p256_point(bytes: Seq<u8>) -> Option<Seq<u8>>;

/// The uncompressed form, by `to_encoded_point(false)`, of the key whose compressed form is
/// `compressed`.
pub uninterp spec fn p256_uncompressed(compressed: Seq<u8>) -> Seq<u8>;

/// What the form of the bytes alone says of the key read from them. `sec1` has the same
/// `x`. A compressed encoding is its own compressed form; of an uncompressed one the last
/// byte gives the parity of `y`.
pub open spec fn compresses_to(bytes: Seq<u8>, sec1: Seq<u8>) -> bool {
    &&& sec1.len() == COMPRESSED_BYTES
    &&& sec1[0] == 2 || sec1[0] == 3
    &&& bytes.len() == COMPRESSED_BYTES || bytes.len() == UNCOMPRESSED_BYTES
    &&& bytes.subrange(1, 33) == sec1.subrange(1, 33)
    &&& bytes.len() == COMPRESSED_BYTES ==> bytes[0] == 2 || bytes[0] == 3 || bytes[0] == 5
    &&& bytes[0] == 2 || bytes[0] == 3 ==> bytes == sec1
    &&& bytes.len() == UNCOMPRESSED_BYTES ==> bytes[0] == 4 && sec1[0] == 2 + bytes[64] % 2
}

/// `p256::PublicKey::from_sec1_bytes`, its result written by `to_encoded_point(true)`. It reads
/// a compressed, compact or uncompressed point of the curve other than the identity. The
/// contract names the result, says what the form of the bytes shows of it, and that reading
/// a compressed form again gives the same key.
#[verifier::external_body]
fn p256_read(bytes: &[u8]) -> (r: Option<[u8; 33]>)
    ensures
        match r {
            Some(sec1) => p256_point(bytes@) == Some(sec1@),
            None => p256_point(bytes@) is None,
        },
        r matches Some(sec1) ==> compresses_to(bytes@, sec1@) && p256_point(sec1@) == Some(sec1@),
{
    let key = p256::PublicKey::from_sec1_bytes(bytes).ok()?;
    key.to_encoded_point(true).as_bytes().try_into().ok()
}

/// `to_encoded_point(false)` of the `p256::PublicKey` whose compressed form is `sec1`: the
/// marker byte 4, then both coordinates. Reading it gives the same key.
#[verifier::external_body]
fn p256_uncompress(sec1: &[u8; 33]) -> (r: Vec<u8>)
    requires
        p256_point(sec1@) == Some(sec1@),
    ensures
        r@ == p256_uncompressed(sec1@),
        r@.len() == UNCOMPRESSED_BYTES,
        p256_point(r@) == Some(sec1@),
        compresses_to(r@, sec1@),
{
    let key = p256::PublicKey::from_sec1_bytes(sec1).expect("a compressed point of the curve");
    key.to_encoded_point(false).as_bytes().to_vec()
}

/// A point of the P-256 curve other than the identity. Its view is its compressed form.
#[derive(Clone, Copy, Debug, PartialEq, Eq)]
pub struct PublicKey {
    sec1: [u8; 33],
}

impl View for PublicKey {
    type V = Seq<u8>;

    closed spec fn view(&self) -> Seq<u8> {
        self.sec1@
    }
}

impl PublicKey {
    #[verifier::type_invariant]
    spec fn on_curve(self) -> bool {
        &&& p256_point(self.sec1@) == Some(self.sec1@)
        &&& self.sec1@[0] == 2 || self.sec1@[0] == 3
    }

    /// Reads a key from its SEC1 encoding, compressed or not.
    pub fn from_sec1_bytes(bytes: &[u8]) -> (r: Option<PublicKey>)
        ensures
            match r {
                Some(key) => p256_point(bytes@) == Some(key@) && compresses_to(bytes@, key@),
                None => p256_point(bytes@) is None,
            },
    {
        match p256_read(bytes) {
            Some(sec1) => Some(PublicKey { sec1 }),
            None => None,
        }
    }

    /// The SEC1 encoding of the key.
    pub fn to_encoded_point(&self, compress: bool) -> (r: Vec<u8>)
        ensures
            r@ == if compress {
                self@
            } else {
                p256_uncompressed(self@)
            },
            r@.len() == if compress {
                COMPRESSED_BYTES
            } else {
                UNCOMPRESSED_BYTES
            },
            p256_point(r@) == Some(self@),
            compresses_to(r@, self@),
    {
        proof {
            use_type_invariant(self);
        }
        if compress {
            let mut out: Vec<u8> = Vec::new();
            out.extend_from_slice(&self.sec1);
            assert(out@ =~= self.sec1@);
            out
        } else {
            p256_uncompress(&self.sec1)
        }
    }
}

} // verus!
