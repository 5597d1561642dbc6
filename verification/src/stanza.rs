//! `piv-p256` stanza parsing and AEAD-based file-key unwrapping.
//!
//! The wire format is that of age-plugin-yubikey, so files encrypted with that plugin
//! decrypt unchanged.
use vstd::prelude::*;

use crate::crypto::{aead_decrypt, hkdf, wipe_array, wipe_bytes};
use crate::encoding::base64_decode;
use crate::keys::PublicKey;
use crate::protocol::TAG_BYTES;

verus! {

/// HKDF label used when deriving the file-key-wrapping AEAD key: `piv-p256` in ASCII.
pub const STANZA_KEY_LABEL: [u8; 8] = [0x70, 0x69, 0x76, 0x2d, 0x70, 0x32, 0x35, 0x36];

/// Length of the encoded ephemeral key in a stanza.
pub const EPK_BYTES: usize = 33;

/// Length of a stanza's body.
pub const ENCRYPTED_FILE_KEY_BYTES: usize = 32;

/// Length of an age file key.
pub const FILE_KEY_BYTES: usize = 16;

/// Length of an encoded [`IdentityStub`].
pub const STUB_BYTES: usize = 9;

/// The four bytes of `n`, least significant first.
pub open spec fn le_bytes(n: u32) -> Seq<u8> {
    seq![
        (n % 0x100) as u8,
        (n / 0x100 % 0x100) as u8,
        (n / 0x1_0000 % 0x100) as u8,
        (n / 0x100_0000) as u8,
    ]
}

/// `bytes` as an array, if there are as many as it holds.
pub fn to_array<const N: usize>(bytes: &[u8]) -> (r: Option<[u8; N]>)
    ensures
        match r {
            Some(a) => a@ == bytes@,
            None => bytes@.len() != N,
        },
{
    if bytes.len() != N {
        return None;
    }
    let mut out = [0u8; N];
    let mut i: usize = 0;
    while i < N
        invariant
            i <= N,
            bytes@.len() == N,
            forall|j: int| 0 <= j < i ==> out@[j] == bytes@[j],
        decreases N - i,
    {
        out[i] = bytes[i];
        i += 1;
    }
    assert(out@ =~= bytes@);
    Some(out)
}

/// Secret bytes as an array, if there are as many as it holds. The bytes themselves are wiped.
pub(crate) fn take_array<const N: usize>(bytes: &mut Vec<u8>) -> (r: Option<[u8; N]>)
    ensures
        match r {
            Some(a) => a@ == old(bytes)@,
            None => old(bytes)@.len() != N,
        },
        final(bytes)@.len() == 0,
{
    let r = to_array::<N>(bytes);
    wipe_bytes(bytes);
    r
}

/// The number whose four bytes, least significant first, are the arguments.
fn from_le_bytes(b0: u8, b1: u8, b2: u8, b3: u8) -> (r: u32)
    ensures
        le_bytes(r) == seq![b0, b1, b2, b3],
{
    let n: u32 = b0 as u32 + 0x100 * (b1 as u32) + 0x1_0000 * (b2 as u32) + 0x100_0000 * (
    b3 as u32);
    assert(n % 0x100 == b0);
    assert(n / 0x100 == b1 as u32 + 0x100 * (b2 as u32) + 0x1_0000 * (b3 as u32));
    assert(n / 0x1_0000 == b2 as u32 + 0x100 * (b3 as u32));
    assert(n / 0x100_0000 == b3);
    n
}

/// A reference to one of the user's YubiKey identities.
///
/// Its encoding, which is its view, is age-plugin-yubikey's: serial (4 bytes, little
/// endian), slot (1), tag (4).
#[derive(Clone, Copy, Debug, PartialEq, Eq)]
pub struct IdentityStub {
    pub serial: u32,
    pub slot: u8,
    pub tag: [u8; TAG_BYTES],
}

impl View for IdentityStub {
    type V = Seq<u8>;

    open spec fn view(&self) -> Seq<u8> {
        le_bytes(self.serial) + seq![self.slot] + self.tag@
    }
}

impl IdentityStub {
    /// Reads a stub from the first bytes of `bytes` and gives what follows it.
    pub fn read_from_prefix(bytes: &[u8]) -> (r: Result<(IdentityStub, &[u8]), ()>)
        ensures
            match r {
                Ok((stub, rest)) => bytes@ == stub@ + rest@,
                Err(_) => bytes@.len() < STUB_BYTES,
            },
    {
        if bytes.len() < STUB_BYTES {
            return Err(());
        }
        let serial: u32 = from_le_bytes(bytes[0], bytes[1], bytes[2], bytes[3]);
        let stub = IdentityStub {
            serial,
            slot: bytes[4],
            tag: [bytes[5], bytes[6], bytes[7], bytes[8]],
        };
        let rest = &bytes[STUB_BYTES..bytes.len()];
        assert(stub@ + rest@ =~= bytes@);
        Ok((stub, rest))
    }
}

proof fn lemma_le_bytes_injective(a: u32, b: u32)
    requires
        le_bytes(a) == le_bytes(b),
    ensures
        a == b,
{
    let s = le_bytes(a);
    let t = le_bytes(b);
    assert(s[0] == t[0] && s[1] == t[1] && s[2] == t[2] && s[3] == t[3]);
    assert(a % 0x100 == b % 0x100);
    assert(a / 0x100 % 0x100 == b / 0x100 % 0x100);
    assert(a / 0x1_0000 % 0x100 == b / 0x1_0000 % 0x100);
    assert(a / 0x100_0000 == b / 0x100_0000);
    assert(a / 0x1_0000 == b / 0x1_0000);
    assert(a / 0x100 == b / 0x100);
}

/// An encoding reads as one stub only: two stubs that begin the same bytes are the same.
pub proof fn law_stub_prefix_unique(a: IdentityStub, b: IdentityStub, x: Seq<u8>, y: Seq<u8>)
    requires
        a@ + x == b@ + y,
    ensures
        a == b,
        x == y,
{
    let s = a@ + x;
    let t = b@ + y;
    assert(a@.len() == STUB_BYTES && b@.len() == STUB_BYTES);
    assert(le_bytes(a.serial) =~= s.take(4));
    assert(le_bytes(b.serial) =~= t.take(4));
    lemma_le_bytes_injective(a.serial, b.serial);
    assert(a.slot == s[4] && b.slot == t[4]);
    assert(a.tag@ =~= s.subrange(5, 9));
    assert(b.tag@ =~= t.subrange(5, 9));
    assert forall|i: int| 0 <= i < TAG_BYTES implies a.tag[i] == b.tag[i] by {
        assert(a.tag@[i] == b.tag@[i]);
    }
    assert(a.tag =~= b.tag);
    assert(x =~= s.skip(STUB_BYTES as int));
    assert(y =~= t.skip(STUB_BYTES as int));
}

/// A recipient stanza of an age file: a tag, arguments and a body.
#[derive(Clone, Debug, PartialEq, Eq)]
pub struct Stanza {
    pub tag: String,
    pub args: Vec<String>,
    pub body: Vec<u8>,
}

/// What is left of a file key that was overwritten.
pub open spec fn wiped_key() -> Seq<u8> {
    Seq::new(FILE_KEY_BYTES as nat, |i: int| 0u8)
}

/// An age file key. Its view is its bytes.
#[derive(PartialEq, Eq)]
pub struct FileKey {
    bytes: [u8; FILE_KEY_BYTES],
}

impl View for FileKey {
    type V = Seq<u8>;

    closed spec fn view(&self) -> Seq<u8> {
        self.bytes@
    }
}

impl FileKey {
    /// The bytes of the key.
    pub fn expose_secret(&self) -> (r: &[u8; FILE_KEY_BYTES])
        ensures
            r@ == self@,
    {
        &self.bytes
    }

    /// Overwrites the key.
    pub fn wipe(&mut self)
        ensures
            final(self)@ == wiped_key(),
    {
        wipe_array(&mut self.bytes);
    }
}

/// A parsed `piv-p256` recipient stanza extracted from an age file.
#[derive(Clone, Copy, Debug, PartialEq, Eq)]
pub struct PivP256Stanza {
    /// Tag from the stanza's first arg, identifies which recipient identity this stanza is
    /// for.
    pub tag: [u8; TAG_BYTES],
    /// Validated ephemeral public key from the second arg.
    pub ephemeral_pubkey: PublicKey,
    /// The 32-byte AEAD-wrapped file key (stanza body).
    pub encrypted_file_key: [u8; ENCRYPTED_FILE_KEY_BYTES],
}

/// A [`PivP256Stanza`] as sequences of bytes.
pub struct PivP256StanzaView {
    pub tag: Seq<u8>,
    pub ephemeral_pubkey: Seq<u8>,
    pub encrypted_file_key: Seq<u8>,
}

impl View for PivP256Stanza {
    type V = PivP256StanzaView;

    open spec fn view(&self) -> PivP256StanzaView {
        PivP256StanzaView {
            tag: self.tag@,
            ephemeral_pubkey: self.ephemeral_pubkey@,
            encrypted_file_key: self.encrypted_file_key@,
        }
    }
}

/// What the tag, the ephemeral key and the body of a stanza tagged `piv-p256` amount to, where
/// `None` stands for a key that could not be read.
pub open spec fn assembled(tag: Seq<u8>, key: Option<Seq<u8>>, body: Seq<u8>) -> Result<
    PivP256StanzaView,
    (),
> {
    match key {
        Some(key) if body.len() == ENCRYPTED_FILE_KEY_BYTES => Ok(
            PivP256StanzaView { tag, ephemeral_pubkey: key, encrypted_file_key: body },
        ),
        _ => Err(()),
    }
}

/// What a stanza says: nothing to us under another tag; else two arguments, the Base64 of
/// a recipient's tag and of an encoded ephemeral key, and a body of the right length.
pub open spec fn parsed_stanza(s: Stanza) -> Option<Result<PivP256StanzaView, ()>> {
    if s.tag@ != "piv-p256"@ {
        None
    } else if s.args@.len() != 2 {
        Some(Err(()))
    } else {
        match (
            crate::encoding::base64_decoded(s.args@[0]@),
            crate::encoding::base64_decoded(s.args@[1]@),
        ) {
            (Some(tag), Some(point)) if tag.len() == TAG_BYTES && point.len() == EPK_BYTES => Some(
                assembled(tag, crate::keys::p256_point(point), s.body@),
            ),
            _ => Some(Err(())),
        }
    }
}

/// A parse result with the stanza as sequences of bytes.
pub open spec fn parse_view(r: Result<PivP256Stanza, ()>) -> Result<PivP256StanzaView, ()> {
    match r {
        Ok(stanza) => Ok(stanza@),
        Err(e) => Err(e),
    }
}

/// The key that seals the file key in a stanza: both public keys salt the shared secret.
pub open spec fn wrapping_key(
    ephemeral_pubkey: Seq<u8>,
    recipient_pubkey: Seq<u8>,
    shared_secret: Seq<u8>,
) -> Seq<u8> {
    crate::crypto::hkdf_sha256(
        ephemeral_pubkey + recipient_pubkey,
        STANZA_KEY_LABEL@,
        shared_secret,
    )
}

/// The file key that a stanza holds for the owner of `recipient_pubkey`.
pub open spec fn unwrapped(
    stanza: PivP256StanzaView,
    shared_secret: Seq<u8>,
    recipient_pubkey: Seq<u8>,
) -> Option<Seq<u8>> {
    crate::crypto::aead_opened(
        wrapping_key(stanza.ephemeral_pubkey, recipient_pubkey, shared_secret),
        FILE_KEY_BYTES as nat,
        stanza.encrypted_file_key,
    )
}

/// The file key that an opened message is, wiping the message.
pub fn file_key(opened: Option<Vec<u8>>) -> (r: Result<FileKey, ()>)
    requires
        opened matches Some(message) ==> message@.len() == FILE_KEY_BYTES,
    ensures
        match opened {
            Some(message) => r matches Ok(key) && key@ == message@,
            None => r is Err,
        },
{
    match opened {
        Some(mut message) => match take_array::<FILE_KEY_BYTES>(&mut message) {
            Some(bytes) => Ok(FileKey { bytes }),
            None => Err(()),
        },
        None => Err(()),
    }
}

impl PivP256Stanza {
    /// Puts the parts of a stanza tagged `piv-p256` together, given the ephemeral key as far as
    /// it could be read.
    pub fn assemble(
        tag: [u8; TAG_BYTES],
        ephemeral_pubkey: Option<PublicKey>,
        body: &[u8],
    ) -> (r: Result<PivP256Stanza, ()>)
        ensures
            parse_view(r) == assembled(
                tag@,
                match ephemeral_pubkey {
                    Some(key) => Some(key@),
                    None => None,
                },
                body@,
            ),
    {
        match ephemeral_pubkey {
            Some(ephemeral_pubkey) => match to_array::<ENCRYPTED_FILE_KEY_BYTES>(body) {
                Some(encrypted_file_key) => Ok(
                    PivP256Stanza { tag, ephemeral_pubkey, encrypted_file_key },
                ),
                None => Err(()),
            },
            None => Err(()),
        }
    }

    /// Parses a generic [`Stanza`] as a `piv-p256` stanza.
    ///
    /// - `None`: different tag; the stanza isn't ours (skip silently).
    /// - `Some(Err(()))`: tagged `piv-p256` but malformed (bad arg count, invalid point
    ///   encoding, wrong body length).
    /// - `Some(Ok(_))`: a valid `piv-p256` stanza.
    #[must_use]
    pub fn from_stanza(s: &Stanza) -> (r: Option<Result<PivP256Stanza, ()>>)
        ensures
            match r {
                Some(parsed) => parsed_stanza(*s) == Some(parse_view(parsed)),
                None => parsed_stanza(*s) is None,
            },
    {
        if s.tag != String::from_str("piv-p256") {
            return None;
        }
        if s.args.len() != 2 {
            return Some(Err(()));
        }
        let tag = match base64_decode(s.args[0].as_str()) {
            Some(bytes) => match to_array::<TAG_BYTES>(&bytes) {
                Some(tag) => tag,
                None => return Some(Err(())),
            },
            None => return Some(Err(())),
        };
        let point = match base64_decode(s.args[1].as_str()) {
            Some(bytes) => bytes,
            None => return Some(Err(())),
        };
        if point.len() != EPK_BYTES {
            return Some(Err(()));
        }
        Some(PivP256Stanza::assemble(tag, PublicKey::from_sec1_bytes(&point), &s.body))
    }

    /// Derives the file key from the shared secret returned by the daemon.
    ///
    /// Fails if AEAD decryption fails (wrong shared secret, wrong recipient public key, or
    /// tampered ciphertext).
    pub fn derive_file_key(
        &self,
        shared_secret: &[u8; 32],
        recipient_pubkey: &PublicKey,
    ) -> (r: Result<FileKey, ()>)
        ensures
            match r {
                Ok(key) => unwrapped(self@, shared_secret@, recipient_pubkey@) == Some(key@),
                Err(_) => unwrapped(self@, shared_secret@, recipient_pubkey@) is None,
            },
    {
        let mut salt = self.ephemeral_pubkey.to_encoded_point(true);
        let mut recipient = recipient_pubkey.to_encoded_point(true);
        salt.append(&mut recipient);
        let label = STANZA_KEY_LABEL;
        let key = hkdf(&salt, &label, shared_secret);
        file_key(aead_decrypt(&key, FILE_KEY_BYTES, &self.encrypted_file_key))
    }
}

/// A stanza that carries, in Base64, a recipient's tag and a compressed ephemeral key, and whose
/// body seals a file key under the wrapping key, parses, and gives that file key to whoever
/// knows the shared secret and the recipient's public key.
pub proof fn law_written_stanza_opens(
    s: Stanza,
    tag: Seq<u8>,
    ephemeral_pubkey: Seq<u8>,
    recipient_pubkey: Seq<u8>,
    shared_secret: Seq<u8>,
    file_key: Seq<u8>,
)
    requires
        s.tag@ == "piv-p256"@,
        s.args@.len() == 2,
        s.args@[0]@ == crate::encoding::base64_text(tag),
        s.args@[1]@ == crate::encoding::base64_text(ephemeral_pubkey),
        s.body@.len() == ENCRYPTED_FILE_KEY_BYTES,
        tag.len() == TAG_BYTES,
        ephemeral_pubkey.len() == EPK_BYTES,
        crate::keys::p256_point(ephemeral_pubkey) == Some(ephemeral_pubkey),
        crate::crypto::aead_opened(
            wrapping_key(ephemeral_pubkey, recipient_pubkey, shared_secret),
            FILE_KEY_BYTES as nat,
            s.body@,
        ) == Some(file_key),
    ensures
        parsed_stanza(s) matches Some(Ok(parsed)) && parsed.tag == tag && unwrapped(
            parsed,
            shared_secret,
            recipient_pubkey,
        ) == Some(file_key),
{
    crate::encoding::law_base64_round_trip(tag);
    crate::encoding::law_base64_round_trip(ephemeral_pubkey);
}

/// A stub's encoding is nine bytes: the serial number with its least significant byte first,
/// then the slot, then the tag.
pub proof fn law_stub_layout(stub: IdentityStub)
    ensures
        stub@.len() == 9,
        stub@[0] + 0x100 * stub@[1] + 0x1_0000 * stub@[2] + 0x100_0000 * stub@[3] == stub.serial,
        stub@[4] == stub.slot,
        forall|i: int| 0 <= i < 4 ==> stub@[5 + i] == #[trigger] stub.tag@[i],
{
    let n = stub.serial;
    assert(n / 0x100_0000 < 0x100);
    assert(n == n % 0x100 + 0x100 * (n / 0x100 % 0x100) + 0x1_0000 * (n / 0x1_0000 % 0x100)
        + 0x100_0000 * (n / 0x100_0000));
}

/// A stanza under another tag is passed over, and no other is.
pub proof fn law_foreign_stanza_is_passed_over(s: Stanza)
    ensures
        parsed_stanza(s) is None <==> s.tag@ != "piv-p256"@,
{
}

/// Every stanza tagged `piv-p256` with two arguments, the Base64 of four bytes and of the 33 bytes
/// of an encoded point of the curve, and a body of 32 bytes, is well formed. It parses to those
/// four bytes, that point and that body, whatever they are.
pub proof fn law_well_formed_stanza_parses(
    s: Stanza,
    tag: Seq<u8>,
    point: Seq<u8>,
    sec1: Seq<u8>,
    parsed: PivP256Stanza,
)
    requires
        s.tag@ == "piv-p256"@,
        s.args@.len() == 2,
        s.args@[0]@ == crate::encoding::base64_text(tag),
        s.args@[1]@ == crate::encoding::base64_text(point),
        tag.len() == 4,
        point.len() == 33,
        crate::keys::p256_point(point) == Some(sec1),
        s.body@.len() == 32,
    ensures
        parsed_stanza(s) matches Some(Ok(p)) && p.tag == tag && p.ephemeral_pubkey == sec1
            && p.encrypted_file_key == s.body@,
        parsed_stanza(s) == Some(parse_view(Ok(parsed))) ==> parsed.tag@ == tag
            && parsed.ephemeral_pubkey@ == sec1 && parsed.encrypted_file_key@ == s.body@,
        parsed_stanza(s) != Some(parse_view(Err(()))),
{
    crate::encoding::law_base64_round_trip(tag);
    crate::encoding::law_base64_round_trip(point);
}

/// Only such a stanza is well formed: what was parsed was written in it.
pub proof fn law_parsed_stanza_was_written(s: Stanza, parsed: PivP256Stanza)
    requires
        parsed_stanza(s) == Some(parse_view(Ok(parsed))),
    ensures
        s.tag@ == "piv-p256"@,
        s.args@.len() == 2,
        s.args@[0]@ == crate::encoding::base64_text(parsed.tag@),
        exists|point: Seq<u8>|
            point.len() == 33 && #[trigger] crate::encoding::base64_text(point) == s.args@[1]@
                && crate::keys::p256_point(point) == Some(parsed.ephemeral_pubkey@),
        s.body@ == parsed.encrypted_file_key@,
        s.body@.len() == 32,
        parsed.tag@.len() == 4,
{
    let tag = crate::encoding::base64_decoded(s.args@[0]@)->0;
    let point = crate::encoding::base64_decoded(s.args@[1]@)->0;
    crate::encoding::law_decoding_undoes_encoding(s.args@[0]@, tag);
    crate::encoding::law_decoding_undoes_encoding(s.args@[1]@, point);
}

/// Parts put together make a stanza exactly if the key could be read and the body has 32 bytes.
pub proof fn law_parts_make_a_stanza(tag: Seq<u8>, key: Option<Seq<u8>>, body: Seq<u8>)
    ensures
        assembled(tag, key, body) is Ok <==> key is Some && body.len() == 32,
        assembled(tag, key, body) matches Ok(p) ==> p.tag == tag && key == Some(p.ephemeral_pubkey)
            && p.encrypted_file_key == body,
{
}

/// The HKDF label is the stanza's tag in ASCII.
pub proof fn law_label_is_the_tag(i: int)
    ensures
        STANZA_KEY_LABEL@.len() == "piv-p256"@.len(),
        0 <= i < STANZA_KEY_LABEL@.len() ==> STANZA_KEY_LABEL@[i] as int == "piv-p256"@[i] as int,
{
    reveal_strlit("piv-p256");
}

/// The file key of a stanza is what its body opens to, at 16 bytes, under the HKDF of the shared
/// secret with the label `piv-p256`, salted with the ephemeral key and the recipient's key in that
/// order, for every stanza, secret and key.
pub proof fn law_file_key_is_what_the_body_opens_to(
    stanza: PivP256Stanza,
    shared_secret: Seq<u8>,
    recipient_pubkey: Seq<u8>,
    label: Seq<u8>,
)
    requires
        label.len() == "piv-p256"@.len(),
        forall|i: int| 0 <= i < label.len() ==> label[i] as int == "piv-p256"@[i] as int,
    ensures
        unwrapped(stanza@, shared_secret, recipient_pubkey) == crate::crypto::aead_opened(
            crate::crypto::hkdf_sha256(
                stanza.ephemeral_pubkey@ + recipient_pubkey,
                label,
                shared_secret,
            ),
            16,
            stanza.encrypted_file_key@,
        ),
{
    reveal_strlit("piv-p256");
    assert(label =~= STANZA_KEY_LABEL@);
}

/// Nothing but zeros is left of a wiped file key.
pub proof fn law_wiped_key_is_zeros(i: int)
    ensures
        wiped_key().len() == 16,
        0 <= i < 16 ==> wiped_key()[i] == 0,
{
}

} // verus!
