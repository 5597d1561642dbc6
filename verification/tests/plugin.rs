use age_core::primitives::{aead_encrypt, hkdf};
use age_plugin_yubikey_agent::attempt::{
    begin, decrypt_result, process_candidate, Attempt, AttemptAction, AttemptEvent, DecryptResult,
    SecretReply,
};
use age_plugin_yubikey_agent::batch::{Batch, Unwrapping};
use age_plugin_yubikey_agent::convert_identities::convert_line;
use age_plugin_yubikey_agent::keys::PublicKey;
use age_plugin_yubikey_agent::plugin::{Candidate, IdentityError, IdentityPlugin, PLUGIN_NAME};
use age_plugin_yubikey_agent::protocol::{EcdhError, EcdhResponse, EcdhResult, ProbeKeyResult};
use age_plugin_yubikey_agent::stanza::{file_key, PivP256Stanza, Stanza};
use base64::prelude::{Engine, BASE64_STANDARD_NO_PAD};
use p256::elliptic_curve::sec1::ToEncodedPoint;

const SECRET: [u8; 32] = [9; 32];

fn generator() -> PublicKey {
    let point = p256::PublicKey::from_affine(p256::AffinePoint::GENERATOR)
        .unwrap()
        .to_encoded_point(true);
    PublicKey::from_sec1_bytes(point.as_bytes()).unwrap()
}

// A stanza for the owner of the generator, with the generator as its ephemeral key.
fn stanza(tag: [u8; 4], file_key: [u8; 16]) -> Stanza {
    let g = generator().to_encoded_point(true);
    let wrapping_key = hkdf(&[g.clone(), g.clone()].concat(), b"piv-p256", &SECRET);
    Stanza {
        tag: "piv-p256".to_string(),
        args: vec![
            BASE64_STANDARD_NO_PAD.encode(tag),
            BASE64_STANDARD_NO_PAD.encode(g),
        ],
        body: aead_encrypt(&wrapping_key, &file_key),
    }
}

fn foreign() -> Stanza {
    Stanza { tag: "X25519".to_string(), args: vec![], body: vec![] }
}

fn malformed() -> Stanza {
    Stanza { tag: "piv-p256".to_string(), args: vec![], body: vec![] }
}

fn stub(serial: u32, slot: u8, tag: [u8; 4]) -> Vec<u8> {
    let mut bytes = serial.to_le_bytes().to_vec();
    bytes.push(slot);
    bytes.extend_from_slice(&tag);
    bytes
}

fn plugin(stubs: &[Vec<u8>]) -> IdentityPlugin {
    let mut plugin = IdentityPlugin::default();
    for (i, bytes) in stubs.iter().enumerate() {
        assert_eq!(plugin.add_identity(i, PLUGIN_NAME, bytes), Ok(()));
    }
    plugin
}

fn identity_error(index: usize, message: &str) -> IdentityError {
    IdentityError::Identity { index, message: message.to_string() }
}

fn response() -> EcdhResult {
    Ok(EcdhResponse { shared_secret: SECRET, recipient_pubkey: generator() })
}

// ── Identities ──────────────────────────────────────────────────────

#[test]
fn identities_of_other_plugins_are_refused() {
    let mut plugin = IdentityPlugin::default();
    assert_eq!(PLUGIN_NAME, "yubikey-agent");
    assert_eq!(
        plugin.add_identity(3, "yubikey", &stub(1, 0x82, [0; 4])),
        Err(identity_error(3, "unknown plugin: yubikey"))
    );
    assert!(plugin.match_stanzas(&[stanza([0; 4], [1; 16])]).is_empty());
}

#[test]
fn converted_identities_are_accepted() {
    // Under the prefix AGE-PLUGIN-YUBIKEY-AGENT- age names the plugin so.
    let mut plugin = IdentityPlugin::default();
    let bytes = [42, 0, 0, 0, 0x82, 0xAA, 0xBB, 0xCC, 0xDD];
    assert_eq!(plugin.add_identity(0, "yubikey-agent", &bytes), Ok(()));

    let hrp = bech32::Hrp::parse("age-plugin-yubikey-").unwrap();
    let line = bech32::encode_upper::<bech32::Bech32>(hrp, &bytes).unwrap();
    let new = convert_line(&line).unwrap().unwrap();
    let (hrp, payload) = bech32::decode(&new).unwrap();
    let hrp = hrp.to_lowercase();
    let name = hrp.strip_prefix("age-plugin-").unwrap().strip_suffix('-').unwrap();
    assert_eq!(plugin.add_identity(1, name, &payload), Ok(()));
    assert_eq!(
        plugin.add_identity(2, "yubikey-daemon", &payload),
        Err(identity_error(2, "unknown plugin: yubikey-daemon"))
    );
}

#[test]
fn short_identities_are_refused() {
    let mut plugin = IdentityPlugin::default();
    assert_eq!(
        plugin.add_identity(0, "yubikey-agent", &[0; 8]),
        Err(identity_error(0, "invalid identity encoding (8 bytes)"))
    );
    assert_eq!(
        plugin.add_identity(1, "yubikey-agent", &[]),
        Err(identity_error(1, "invalid identity encoding (0 bytes)"))
    );
    assert_eq!(plugin.add_identity(2, "yubikey-agent", &[0; 9]), Ok(()));
    assert_eq!(plugin.add_identity(3, "yubikey-agent", &[0; 12]), Ok(()));
}

// ── Candidates ──────────────────────────────────────────────────────

#[test]
fn stanzas_join_identities_on_the_tag() {
    let plugin = plugin(&[
        stub(7, 0x82, [1; 4]),
        stub(8, 0x83, [2; 4]),
        stub(9, 0x84, [2; 4]),
    ]);
    let stanzas = [
        foreign(),
        stanza([2; 4], [1; 16]),
        malformed(),
        stanza([3; 4], [1; 16]),
        stanza([1; 4], [1; 16]),
    ];
    let found = plugin.match_stanzas(&stanzas);
    let summary: Vec<_> = found
        .iter()
        .map(|c| (c.stanza_index, c.identity_index, c.serial, c.slot, c.tag))
        .collect();
    assert_eq!(
        summary,
        [(1, 1, 8, 0x83, [2; 4]), (4, 0, 7, 0x82, [1; 4])]
    );
    assert_eq!(found[0].parsed.ephemeral_pubkey, generator());
    assert!(plugin.match_stanzas(&[]).is_empty());
}

#[test]
fn one_stanza_joins_the_first_identity() {
    let plugin = plugin(&[stub(7, 0x82, [1; 4]), stub(8, 0x83, [1; 4])]);
    let parsed = PivP256Stanza::from_stanza(&stanza([1; 4], [1; 16]));
    let c = plugin.match_stanza(5, parsed).unwrap();
    assert_eq!((c.stanza_index, c.identity_index, c.serial), (5, 0, 7));
    assert!(plugin.match_stanza(5, Some(Err(()))).is_none());
    assert!(plugin.match_stanza(5, None).is_none());
}

// ── Attempts ────────────────────────────────────────────────────────

fn candidate() -> Candidate {
    plugin(&[stub(12345, 0x82, [1; 4])]).match_stanzas(&[stanza([1; 4], [4; 16])])[0]
}

fn after(events: Vec<AttemptEvent>) -> (Attempt, AttemptAction) {
    let candidate = candidate();
    let (mut attempt, mut action) = begin(&candidate);
    for event in events {
        (attempt, action) = process_candidate(&candidate, attempt, event);
    }
    (attempt, action)
}

fn matched() -> AttemptEvent {
    AttemptEvent::Probed(Ok(ProbeKeyResult::Match))
}

fn need_pin() -> AttemptEvent {
    AttemptEvent::Agreed(Ok(Err(EcdhError::NeedPin)))
}

fn given() -> AttemptEvent {
    AttemptEvent::Secret(SecretReply::Given("654321".to_string()))
}

fn finished(events: Vec<AttemptEvent>) -> DecryptResult {
    match after(events) {
        (Attempt::Ended, AttemptAction::Finish(result)) => result,
        _ => panic!("the attempt goes on"),
    }
}

fn failed(events: Vec<AttemptEvent>) -> IdentityError {
    match finished(events) {
        DecryptResult::Failed(e) => e,
        _ => panic!("no failure"),
    }
}

fn decrypted(events: Vec<AttemptEvent>) -> [u8; 16] {
    match finished(events) {
        DecryptResult::Decrypted(key) => *key.expose_secret(),
        _ => panic!("not decrypted"),
    }
}

#[test]
fn attempt_probes_first() {
    match after(vec![]) {
        (Attempt::Probing, AttemptAction::ProbeKey(key)) => {
            assert_eq!((key.serial, key.slot, key.tag), (12345, 0x82, [1; 4]));
        }
        _ => panic!("no probe"),
    }
}

#[test]
fn attempt_agrees_without_the_pin_on_a_match() {
    match after(vec![matched()]) {
        (Attempt::Agreeing, AttemptAction::Ecdh { key, ephemeral_pubkey, pin }) => {
            assert_eq!((key.serial, key.slot, key.tag), (12345, 0x82, [1; 4]));
            assert_eq!(ephemeral_pubkey, generator());
            assert_eq!(pin, None);
        }
        _ => panic!("no ECDH request"),
    }
    let reply = AttemptEvent::Agreed(Ok(response()));
    assert_eq!(decrypted(vec![matched(), reply]), [4; 16]);
}

#[test]
fn attempt_skips_another_yubikey() {
    let reply = AttemptEvent::Probed(Ok(ProbeKeyResult::SerialMismatch));
    assert!(matches!(finished(vec![reply]), DecryptResult::SerialMismatch));
}

#[test]
fn attempt_reports_what_the_probe_found() {
    let cases = [
        (ProbeKeyResult::Disconnected, "YubiKey disconnected"),
        (ProbeKeyResult::WorkerDropped, "worker dropped reply channel"),
        (ProbeKeyResult::WorkerExited, "worker exited"),
        (ProbeKeyResult::ChipUnavailable, "YubiKey not available"),
        (ProbeKeyResult::InvalidSlot(0x9a), "invalid slot: 0x9a"),
        (
            ProbeKeyResult::SlotCheck(EcdhError::TagMismatch { slot: 0x82 }),
            "tag mismatch in slot 0x82",
        ),
    ];
    for (result, message) in cases {
        assert_eq!(
            failed(vec![AttemptEvent::Probed(Ok(result))]),
            identity_error(0, message)
        );
    }
}

#[test]
fn attempt_reports_failed_calls() {
    let expected = IdentityError::Internal { message: "Daemon RPC error: gone".to_string() };
    let gone = || AttemptEvent::Agreed(Err("gone".to_string()));
    assert_eq!(
        failed(vec![AttemptEvent::Probed(Err("gone".to_string()))]),
        expected
    );
    assert_eq!(failed(vec![matched(), gone()]), expected);
    assert_eq!(
        failed(vec![matched(), need_pin(), given(), AttemptEvent::Announced, gone()]),
        expected
    );
}

#[test]
fn attempt_asks_for_the_pin_once() {
    match after(vec![matched(), need_pin()]) {
        (Attempt::AskingPin, AttemptAction::RequestSecret(prompt)) => {
            assert_eq!(prompt, "Enter PIN for YubiKey serial 12345");
        }
        _ => panic!("no prompt"),
    }
    match after(vec![matched(), need_pin(), given()]) {
        (Attempt::Announcing(pin), AttemptAction::Message(text)) => {
            assert_eq!(pin, "654321");
            assert_eq!(text, "Touch your YubiKey");
        }
        _ => panic!("no message"),
    }
    match after(vec![matched(), need_pin(), given(), AttemptEvent::Announced]) {
        (Attempt::AgreeingWithPin, AttemptAction::Ecdh { pin, .. }) => {
            assert_eq!(pin.as_deref(), Some("654321"));
        }
        _ => panic!("no ECDH request"),
    }
    let with_pin = |reply| vec![matched(), need_pin(), given(), AttemptEvent::Announced, reply];
    let reply = AttemptEvent::Agreed(Ok(response()));
    assert_eq!(decrypted(with_pin(reply)), [4; 16]);
    assert_eq!(
        failed(with_pin(need_pin())),
        identity_error(0, "YubiKey PIN required")
    );
    assert_eq!(
        failed(with_pin(AttemptEvent::Agreed(Ok(Err(EcdhError::WrongPin {
            tries: 1
        }))))),
        identity_error(0, "wrong PIN (1 tries remaining)")
    );
}

#[test]
fn attempt_without_a_pin() {
    let declined = AttemptEvent::Secret(SecretReply::Declined);
    assert_eq!(
        failed(vec![matched(), need_pin(), declined]),
        identity_error(0, "PIN required for YubiKey serial 12345")
    );
    let broken = AttemptEvent::Secret(SecretReply::Broken);
    assert!(matches!(
        after(vec![matched(), need_pin(), broken]),
        (Attempt::Ended, AttemptAction::Abort)
    ));
}

#[test]
fn attempt_reports_ecdh_errors() {
    let reply = AttemptEvent::Agreed(Ok(Err(EcdhError::SerialMismatch)));
    assert_eq!(
        failed(vec![matched(), reply]),
        identity_error(0, "serial mismatch: daemon serves a different YubiKey")
    );
}

#[test]
fn attempt_with_the_wrong_secret() {
    let wrong = EcdhResponse { shared_secret: [8; 32], recipient_pubkey: generator() };
    let reply = AttemptEvent::Agreed(Ok(Ok(wrong)));
    assert!(matches!(
        finished(vec![matched(), reply]),
        DecryptResult::AeadFailed
    ));
    assert!(matches!(decrypt_result(Err(())), DecryptResult::AeadFailed));
    assert!(matches!(
        decrypt_result(file_key(Some(vec![1; 16]))),
        DecryptResult::Decrypted(_)
    ));
}

// ── Batches ─────────────────────────────────────────────────────────

fn start(plugin: &IdentityPlugin, files: Vec<Vec<Stanza>>) -> Batch {
    match plugin.unwrap_file_keys(&files, true) {
        Unwrapping::Started(batch) => batch,
        Unwrapping::Unreachable(_) => panic!("not started"),
    }
}

fn key(byte: u8) -> DecryptResult {
    decrypt_result(file_key(Some(vec![byte; 16])))
}

fn next(batch: &Batch) -> Option<(usize, u32)> {
    batch.candidate().map(|c| (c.stanza_index, c.serial))
}

#[test]
fn unreachable_daemon() {
    let plugin = plugin(&[stub(7, 0x82, [1; 4])]);
    match plugin.unwrap_file_keys(&vec![vec![stanza([1; 4], [1; 16])]], false) {
        Unwrapping::Unreachable(e) => assert_eq!(
            e,
            IdentityError::Internal {
                message: "age-plugin-yubikey-daemon is not running.".to_string()
            }
        ),
        Unwrapping::Started(_) => panic!("started"),
    }
}

#[test]
fn batch_goes_through_files_in_order() {
    let plugin = plugin(&[stub(7, 0x82, [1; 4]), stub(8, 0x83, [2; 4])]);
    let files = vec![
        vec![foreign()],
        vec![stanza([1; 4], [1; 16]), stanza([2; 4], [1; 16])],
        vec![],
        vec![foreign(), stanza([2; 4], [1; 16])],
        vec![stanza([1; 4], [1; 16])],
        vec![stanza([2; 4], [1; 16])],
    ];
    let batch = start(&plugin, files);
    assert_eq!(next(&batch), Some((0, 7)));
    let batch = batch.record(DecryptResult::AeadFailed);
    assert_eq!(next(&batch), Some((1, 8)));
    // The key outweighs the failure before it.
    let batch = batch.record(key(1));
    assert_eq!(next(&batch), Some((1, 8)));
    let batch = batch.record(DecryptResult::AeadFailed);
    assert_eq!(next(&batch), Some((0, 7)));
    let batch = batch.record(DecryptResult::SerialMismatch);
    assert_eq!(next(&batch), Some((0, 8)));
    let batch = batch.record(DecryptResult::Failed(identity_error(1, "PIN locked")));
    assert_eq!(next(&batch), None);

    let map = batch.finish();
    assert_eq!(map.len(), 3);
    assert!(matches!(&map[&1], Ok(k) if k.expose_secret() == &[1; 16]));
    let aead_failed = IdentityError::Stanza {
        file_index: 3,
        stanza_index: 1,
        message: "AEAD decryption failed".to_string(),
    };
    assert!(matches!(&map[&3], Err(errors) if errors == &[aead_failed]));
    assert!(matches!(&map[&5], Err(errors) if errors == &[identity_error(1, "PIN locked")]));
}

#[test]
fn opened_file_needs_no_other_candidate() {
    let plugin = plugin(&[stub(7, 0x82, [1; 4])]);
    let files = vec![
        vec![stanza([1; 4], [1; 16]), stanza([1; 4], [2; 16])],
        vec![stanza([1; 4], [3; 16])],
    ];
    let batch = start(&plugin, files).record(key(5)).record(key(6));
    assert_eq!(next(&batch), None);
    let map = batch.finish();
    assert!(matches!(&map[&0], Ok(k) if k.expose_secret() == &[5; 16]));
    assert!(matches!(&map[&1], Ok(k) if k.expose_secret() == &[6; 16]));
}

#[test]
fn errors_of_a_file_are_kept_in_order() {
    let plugin = plugin(&[stub(7, 0x82, [1; 4])]);
    let three = vec![stanza([1; 4], [1; 16]), foreign(), stanza([1; 4], [2; 16])];
    let batch = start(&plugin, vec![three])
        .record(DecryptResult::Failed(identity_error(0, "first")))
        .record(DecryptResult::AeadFailed);
    let map = batch.finish();
    match &map[&0] {
        Err(errors) => {
            assert_eq!(errors.len(), 2);
            assert_eq!(errors[0], identity_error(0, "first"));
            assert!(matches!(
                &errors[1],
                IdentityError::Stanza { file_index: 0, stanza_index: 2, .. }
            ));
        }
        Ok(_) => panic!("no errors"),
    }
}

#[test]
fn pure_serial_mismatch_is_a_skip() {
    let plugin = plugin(&[stub(7, 0x82, [1; 4])]);
    let two = vec![stanza([1; 4], [1; 16]), stanza([1; 4], [2; 16])];
    let batch = start(&plugin, vec![two])
        .record(DecryptResult::SerialMismatch)
        .record(DecryptResult::SerialMismatch);
    assert!(batch.finish().is_empty());
}

#[test]
fn abandoned_batch_keeps_no_key() {
    let plugin = plugin(&[stub(7, 0x82, [1; 4])]);
    let file = || vec![stanza([1; 4], [1; 16])];
    let batch = start(&plugin, vec![file(), file(), file(), file()])
        .record(key(5))
        .record(DecryptResult::Failed(identity_error(0, "PIN locked")))
        .record(DecryptResult::SerialMismatch);
    let map = batch.abandon();
    assert_eq!(map.len(), 2);
    assert!(matches!(&map[&0], Ok(k) if k.expose_secret() == &[0; 16]));
    assert!(matches!(&map[&1], Err(errors) if errors == &[identity_error(0, "PIN locked")]));
}

#[test]
fn attempt_knows_what_it_waits_for() {
    let (probing, _) = after(vec![]);
    assert!(probing.expects(&matched()));
    assert!(!probing.expects(&need_pin()));
    let (agreeing, _) = after(vec![matched()]);
    assert!(agreeing.expects(&need_pin()));
    assert!(!agreeing.expects(&given()));
    let (asking, _) = after(vec![matched(), need_pin()]);
    assert!(asking.expects(&given()));
    assert!(!asking.expects(&AttemptEvent::Announced));
    let (announcing, _) = after(vec![matched(), need_pin(), given()]);
    assert!(announcing.expects(&AttemptEvent::Announced));
    let with_pin = vec![matched(), need_pin(), given(), AttemptEvent::Announced];
    assert!(after(with_pin).0.expects(&need_pin()));
    assert!(!Attempt::Ended.expects(&matched()));
}

#[test]
fn nothing_to_try() {
    let plugin = plugin(&[]);
    let batch = start(&plugin, vec![vec![stanza([1; 4], [1; 16])], vec![]]);
    assert_eq!(next(&batch), None);
    assert!(batch.finish().is_empty());
}

#[test]
fn written_stanza_is_decrypted() {
    let plugin = plugin(&[stub(12345, 0x82, [1; 4])]);
    let batch = start(&plugin, vec![vec![stanza([1; 4], [0x42; 16])]]);
    let candidate = *batch.candidate().unwrap();
    let (attempt, _) = begin(&candidate);
    let (attempt, _) = process_candidate(&candidate, attempt, matched());
    let reply = AttemptEvent::Agreed(Ok(response()));
    let outcome = match process_candidate(&candidate, attempt, reply) {
        (_, AttemptAction::Finish(outcome)) => outcome,
        _ => panic!("the attempt goes on"),
    };
    let map = batch.record(outcome).finish();
    assert!(matches!(&map[&0], Ok(k) if k.expose_secret() == &[0x42; 16]));
}
