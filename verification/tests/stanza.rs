use age_core::primitives::{aead_encrypt, hkdf};
use age_plugin_yubikey_agent::encoding::base64_decode;
use age_plugin_yubikey_agent::keys::PublicKey;
use age_plugin_yubikey_agent::stanza::{
    file_key, to_array, IdentityStub, PivP256Stanza, Stanza, FILE_KEY_BYTES, STANZA_KEY_LABEL,
};
use base64::prelude::{Engine, BASE64_STANDARD_NO_PAD};
use p256::ecdh::EphemeralSecret;
use p256::elliptic_curve::sec1::ToEncodedPoint;
use sha2::{Digest, Sha256};

// The generator of the curve: its x, and its y, which is odd.
const GX: [u8; 32] = [
    0x6b, 0x17, 0xd1, 0xf2, 0xe1, 0x2c, 0x42, 0x47, 0xf8, 0xbc, 0xe6, 0xe5, 0x63, 0xa4, 0x40, 0xf2,
    0x77, 0x03, 0x7d, 0x81, 0x2d, 0xeb, 0x33, 0xa0, 0xf4, 0xa1, 0x39, 0x45, 0xd8, 0x98, 0xc2, 0x96,
];
const GY: [u8; 32] = [
    0x4f, 0xe3, 0x42, 0xe2, 0xfe, 0x1a, 0x7f, 0x9b, 0x8e, 0xe7, 0xeb, 0x4a, 0x7c, 0x0f, 0x9e, 0x16,
    0x2b, 0xce, 0x33, 0x57, 0x6b, 0x31, 0x5e, 0xce, 0xcb, 0xb6, 0x40, 0x68, 0x37, 0xbf, 0x51, 0xf5,
];

fn compressed_generator() -> Vec<u8> {
    let mut bytes = vec![3];
    bytes.extend_from_slice(&GX);
    bytes
}

fn uncompressed_generator() -> Vec<u8> {
    let mut bytes = vec![4];
    bytes.extend_from_slice(&GX);
    bytes.extend_from_slice(&GY);
    bytes
}

fn key(pk: &p256::PublicKey) -> PublicKey {
    PublicKey::from_sec1_bytes(pk.to_encoded_point(true).as_bytes()).unwrap()
}

// ── IdentityStub ────────────────────────────────────────────────────

#[test]
fn stub_parse_valid() {
    let mut bytes = Vec::new();
    bytes.extend_from_slice(&42u32.to_le_bytes());
    bytes.push(0x82);
    bytes.extend_from_slice(&[0xAA, 0xBB, 0xCC, 0xDD]);
    let (stub, _) = IdentityStub::read_from_prefix(bytes.as_slice()).unwrap();
    assert_eq!(stub.serial, 42);
    assert_eq!(stub.slot, 0x82);
    assert_eq!(stub.tag, [0xAA, 0xBB, 0xCC, 0xDD]);
}

#[test]
fn stub_reject_too_short() {
    assert!(IdentityStub::read_from_prefix([0; 8].as_slice()).is_err());
    assert!(IdentityStub::read_from_prefix([].as_slice()).is_err());
}

#[test]
fn stub_accept_exactly_9_bytes() {
    assert!(IdentityStub::read_from_prefix([0; 9].as_slice()).is_ok());
}

#[test]
fn stub_accept_extra_bytes() {
    assert!(IdentityStub::read_from_prefix([0; 20].as_slice()).is_ok());
}

#[test]
fn stub_serial_is_little_endian_and_the_rest_is_left() {
    let bytes = [0x04, 0x03, 0x02, 0x01, 0x95, 1, 2, 3, 4, 9, 8];
    let (stub, rest) = IdentityStub::read_from_prefix(&bytes).unwrap();
    assert_eq!(stub.serial, 0x0102_0304);
    assert_eq!(stub.slot, 0x95);
    assert_eq!(stub.tag, [1, 2, 3, 4]);
    assert_eq!(rest, [9, 8]);
    let (max, _) = IdentityStub::read_from_prefix(&[0xFF; 9]).unwrap();
    assert_eq!(max.serial, u32::MAX);
}

// ── PivP256Stanza ───────────────────────────────────────────────────

fn make_valid_stanza() -> (Stanza, p256::PublicKey) {
    let sk = p256::SecretKey::random(&mut rand::thread_rng());
    let pk = sk.public_key();
    let compressed = pk.to_encoded_point(true);
    let tag = [0x01, 0x02, 0x03, 0x04];
    let stanza = Stanza {
        tag: "piv-p256".to_string(),
        args: vec![
            BASE64_STANDARD_NO_PAD.encode(tag),
            BASE64_STANDARD_NO_PAD.encode(compressed.as_bytes()),
        ],
        body: vec![0xAA; 32],
    };
    (stanza, pk)
}

#[test]
fn stanza_parse_valid() {
    let (stanza, _) = make_valid_stanza();
    let parsed = PivP256Stanza::from_stanza(&stanza).unwrap().unwrap();
    assert_eq!(parsed.tag, [0x01, 0x02, 0x03, 0x04]);
    assert_eq!(parsed.encrypted_file_key, [0xAA; 32]);
}

#[test]
fn stanza_parse_keeps_the_ephemeral_key() {
    let (stanza, pk) = make_valid_stanza();
    let parsed = PivP256Stanza::from_stanza(&stanza).unwrap().unwrap();
    assert_eq!(parsed.ephemeral_pubkey, key(&pk));
}

#[test]
fn stanza_ignore_non_piv_p256() {
    let stanza = Stanza {
        tag: "X25519".to_string(),
        args: vec!["foo".to_string()],
        body: vec![0; 32],
    };
    assert!(PivP256Stanza::from_stanza(&stanza).is_none());
}

#[test]
fn stanza_reject_wrong_arg_count() {
    let stanza = Stanza {
        tag: "piv-p256".to_string(),
        args: vec!["only_one".to_string()],
        body: vec![0; 32],
    };
    assert!(matches!(PivP256Stanza::from_stanza(&stanza), Some(Err(()))));
}

#[test]
fn stanza_reject_wrong_body_length() {
    let (mut stanza, _) = make_valid_stanza();
    stanza.body = vec![0; 16];
    assert!(matches!(PivP256Stanza::from_stanza(&stanza), Some(Err(()))));
}

#[test]
fn stanza_reject_bad_args() {
    let (valid, _) = make_valid_stanza();
    let bad_tags = ["AQIDBA==", "AQID", "AQIDBAU", "AQIDB", "AQID*A", ""];
    for tag in bad_tags {
        let mut stanza = valid.clone();
        stanza.args[0] = tag.to_string();
        assert!(matches!(PivP256Stanza::from_stanza(&stanza), Some(Err(()))));
    }
    let mut off_curve = vec![2u8];
    off_curve.extend_from_slice(&[0xFF; 32]);
    let bad_keys = [off_curve, uncompressed_generator(), vec![0], vec![4; 33], vec![]];
    for bytes in bad_keys {
        let mut stanza = valid.clone();
        stanza.args[1] = BASE64_STANDARD_NO_PAD.encode(bytes);
        assert!(matches!(PivP256Stanza::from_stanza(&stanza), Some(Err(()))));
    }
    let mut three = valid.clone();
    three.args.push("AQID".to_string());
    assert!(matches!(PivP256Stanza::from_stanza(&three), Some(Err(()))));
    let mut no_key = valid.clone();
    no_key.args[1] = "not base64!".to_string();
    assert!(matches!(PivP256Stanza::from_stanza(&no_key), Some(Err(()))));
}

#[test]
fn parts_of_a_stanza_put_together() {
    let g = PublicKey::from_sec1_bytes(&compressed_generator()).unwrap();
    let parsed = PivP256Stanza::assemble([1, 2, 3, 4], Some(g), &[7; 32]).unwrap();
    assert_eq!(parsed.tag, [1, 2, 3, 4]);
    assert_eq!(parsed.ephemeral_pubkey, g);
    assert_eq!(parsed.encrypted_file_key, [7; 32]);
    assert!(PivP256Stanza::assemble([1, 2, 3, 4], None, &[7; 32]).is_err());
    assert!(PivP256Stanza::assemble([1, 2, 3, 4], Some(g), &[7; 31]).is_err());
}

#[test]
fn epk_decompression_produces_65_bytes() {
    let (stanza, _) = make_valid_stanza();
    let parsed = PivP256Stanza::from_stanza(&stanza).unwrap().unwrap();
    let uncompressed = parsed.ephemeral_pubkey.to_encoded_point(false);
    assert_eq!(uncompressed.len(), 65);
    assert_eq!(uncompressed.as_slice()[0], 0x04);
}

// ── KDF compatibility ───────────────────────────────────────────────

#[test]
fn kdf_wrap_then_unwrap_matches() {
    let recipient_pk = p256::SecretKey::random(&mut rand::thread_rng()).public_key();
    let recipient_compressed = recipient_pk.to_encoded_point(true);
    let file_key_bytes: [u8; FILE_KEY_BYTES] = [0x42; FILE_KEY_BYTES];

    let esk = EphemeralSecret::random(&mut rand::thread_rng());
    let epk = esk.public_key();
    let shared_secret = esk.diffie_hellman(&recipient_pk);
    let epk_compressed = epk.to_encoded_point(true);

    let tag_hash = Sha256::digest(recipient_compressed.as_bytes());
    let tag: [u8; 4] = tag_hash[..4].try_into().unwrap();

    let mut salt = Vec::new();
    salt.extend_from_slice(epk_compressed.as_bytes());
    salt.extend_from_slice(recipient_compressed.as_bytes());

    let enc_key = hkdf(
        &salt,
        &STANZA_KEY_LABEL,
        shared_secret.raw_secret_bytes().as_slice(),
    );
    let encrypted = aead_encrypt(&enc_key, &file_key_bytes);
    let mut encrypted_file_key = [0u8; 32];
    encrypted_file_key.copy_from_slice(&encrypted);

    let stanza = Stanza {
        tag: "piv-p256".to_string(),
        args: vec![
            BASE64_STANDARD_NO_PAD.encode(tag),
            BASE64_STANDARD_NO_PAD.encode(epk_compressed.as_bytes()),
        ],
        body: encrypted_file_key.to_vec(),
    };

    let parsed = PivP256Stanza::from_stanza(&stanza).unwrap().unwrap();
    let mut daemon_shared_secret = [0u8; 32];
    daemon_shared_secret.copy_from_slice(shared_secret.raw_secret_bytes().as_slice());

    let recovered = parsed
        .derive_file_key(&daemon_shared_secret, &key(&recipient_pk))
        .expect("file key derivation should succeed");

    assert_eq!(recovered.expose_secret(), &file_key_bytes);
}

#[test]
fn kdf_wrong_shared_secret_fails() {
    let recipient_pk = p256::SecretKey::random(&mut rand::thread_rng()).public_key();
    let recipient_compressed = recipient_pk.to_encoded_point(true);
    let file_key_bytes: [u8; FILE_KEY_BYTES] = [0x42; FILE_KEY_BYTES];

    let esk = EphemeralSecret::random(&mut rand::thread_rng());
    let shared_secret = esk.diffie_hellman(&recipient_pk);
    let epk_compressed = esk.public_key().to_encoded_point(true);
    let tag_hash = Sha256::digest(recipient_compressed.as_bytes());
    let tag: [u8; 4] = tag_hash[..4].try_into().unwrap();

    let mut salt = Vec::new();
    salt.extend_from_slice(epk_compressed.as_bytes());
    salt.extend_from_slice(recipient_compressed.as_bytes());
    let enc_key = hkdf(
        &salt,
        &STANZA_KEY_LABEL,
        shared_secret.raw_secret_bytes().as_slice(),
    );
    let encrypted = aead_encrypt(&enc_key, &file_key_bytes);
    let mut encrypted_file_key = [0u8; 32];
    encrypted_file_key.copy_from_slice(&encrypted);

    let stanza = Stanza {
        tag: "piv-p256".to_string(),
        args: vec![
            BASE64_STANDARD_NO_PAD.encode(tag),
            BASE64_STANDARD_NO_PAD.encode(epk_compressed.as_bytes()),
        ],
        body: encrypted_file_key.to_vec(),
    };
    let parsed = PivP256Stanza::from_stanza(&stanza).unwrap().unwrap();
    let wrong_secret = [0xFF; 32];
    assert!(parsed
        .derive_file_key(&wrong_secret, &key(&recipient_pk))
        .is_err());
}

#[test]
fn kdf_wrong_recipient_pk_fails() {
    let recipient_pk = p256::SecretKey::random(&mut rand::thread_rng()).public_key();
    let recipient_compressed = recipient_pk.to_encoded_point(true);
    let file_key_bytes: [u8; FILE_KEY_BYTES] = [0x42; FILE_KEY_BYTES];

    let esk = EphemeralSecret::random(&mut rand::thread_rng());
    let shared_secret = esk.diffie_hellman(&recipient_pk);
    let epk_compressed = esk.public_key().to_encoded_point(true);
    let tag_hash = Sha256::digest(recipient_compressed.as_bytes());
    let tag: [u8; 4] = tag_hash[..4].try_into().unwrap();

    let mut salt = Vec::new();
    salt.extend_from_slice(epk_compressed.as_bytes());
    salt.extend_from_slice(recipient_compressed.as_bytes());
    let enc_key = hkdf(
        &salt,
        &STANZA_KEY_LABEL,
        shared_secret.raw_secret_bytes().as_slice(),
    );
    let encrypted = aead_encrypt(&enc_key, &file_key_bytes);
    let mut encrypted_file_key = [0u8; 32];
    encrypted_file_key.copy_from_slice(&encrypted);

    let stanza = Stanza {
        tag: "piv-p256".to_string(),
        args: vec![
            BASE64_STANDARD_NO_PAD.encode(tag),
            BASE64_STANDARD_NO_PAD.encode(epk_compressed.as_bytes()),
        ],
        body: encrypted_file_key.to_vec(),
    };
    let parsed = PivP256Stanza::from_stanza(&stanza).unwrap().unwrap();
    let mut ss = [0u8; 32];
    ss.copy_from_slice(shared_secret.raw_secret_bytes().as_slice());
    let wrong_pk = p256::SecretKey::random(&mut rand::thread_rng()).public_key();
    assert!(parsed.derive_file_key(&ss, &key(&wrong_pk)).is_err());
}

#[test]
fn tampered_body_fails() {
    let g = PublicKey::from_sec1_bytes(&compressed_generator()).unwrap();
    let mut salt = compressed_generator();
    salt.extend_from_slice(&compressed_generator());
    let sealed = aead_encrypt(&hkdf(&salt, b"piv-p256", &[9; 32]), &[5; 16]);
    let opened = PivP256Stanza::assemble([0; 4], Some(g), &sealed)
        .unwrap()
        .derive_file_key(&[9; 32], &g);
    assert!(opened.is_ok_and(|k| k.expose_secret() == &[5; 16]));
    let mut tampered = sealed.clone();
    tampered[0] ^= 1;
    assert!(PivP256Stanza::assemble([0; 4], Some(g), &tampered)
        .unwrap()
        .derive_file_key(&[9; 32], &g)
        .is_err());
}

#[test]
fn key_label_is_the_stanza_tag() {
    assert_eq!(STANZA_KEY_LABEL.as_slice(), b"piv-p256");
}

#[test]
fn file_key_from_an_opened_message() {
    let key = file_key(Some(vec![3; 16]));
    assert!(key.is_ok_and(|mut k| {
        let was = *k.expose_secret();
        k.wipe();
        was == [3; 16] && k.expose_secret() == &[0; 16]
    }));
    assert!(file_key(None).is_err());
}

// ── Keys and encodings ──────────────────────────────────────────────

#[test]
fn keys_read_and_write_both_forms() {
    let g = PublicKey::from_sec1_bytes(&compressed_generator()).unwrap();
    assert_eq!(g.to_encoded_point(true), compressed_generator());
    assert_eq!(g.to_encoded_point(false), uncompressed_generator());
    assert_eq!(PublicKey::from_sec1_bytes(&uncompressed_generator()), Some(g));
    let mut negated = compressed_generator();
    negated[0] = 2;
    let minus_g = PublicKey::from_sec1_bytes(&negated).unwrap();
    assert_ne!(minus_g, g);
    assert_eq!(minus_g.to_encoded_point(true), negated);
}

#[test]
fn compact_key_reads_as_one_of_the_compressed_ones() {
    let mut compact = compressed_generator();
    compact[0] = 5;
    let read = PublicKey::from_sec1_bytes(&compact).unwrap().to_encoded_point(true);
    assert!(read[0] == 2 || read[0] == 3);
    assert_eq!(read[1..], GX);
}

#[test]
fn bytes_that_are_no_key() {
    let mut wrong_y = uncompressed_generator();
    wrong_y[64] ^= 2;
    for bytes in [vec![], vec![0], vec![2; 32], compressed_generator()[..32].to_vec(), wrong_y] {
        assert!(PublicKey::from_sec1_bytes(&bytes).is_none());
    }
}

#[test]
fn base64_exact_values() {
    assert_eq!(base64_decode(""), Some(vec![]));
    assert_eq!(base64_decode("AQIDBA"), Some(vec![1, 2, 3, 4]));
    assert_eq!(base64_decode("+/8"), Some(vec![0xFB, 0xFF]));
    assert_eq!(base64_decode("AQIDBA=="), None);
    assert_eq!(base64_decode("A"), None);
    // The unused bits of the last symbol must be zero.
    assert_eq!(base64_decode("AQIDBB"), None);
    assert_eq!(base64_decode("-_8"), None);
    assert_eq!(base64_decode("AQ ID"), None);
    assert_eq!(base64_decode("é"), None);
}

#[test]
fn base64_round_trip() {
    for n in 0..40u8 {
        let data: Vec<u8> = (0..n).map(|i| i.wrapping_mul(37).wrapping_add(n)).collect();
        let text = BASE64_STANDARD_NO_PAD.encode(&data);
        assert_eq!(base64_decode(&text), Some(data));
    }
}

#[test]
fn arrays_of_the_right_length_only() {
    assert_eq!(to_array::<3>(&[1, 2, 3]), Some([1, 2, 3]));
    assert_eq!(to_array::<3>(&[1, 2]), None);
    assert_eq!(to_array::<3>(&[1, 2, 3, 4]), None);
    assert_eq!(to_array::<0>(&[]), Some([]));
}
