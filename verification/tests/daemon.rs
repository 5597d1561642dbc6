use age_plugin_yubikey_agent::daemon::{
    check_tag, ecdh, handle_ecdh, handle_probe_key, is_session_fatal, probe_key, read_slot_pubkey,
    run, same_tag, serve as serve_request, serve_ecdh, CardCommand, CardError, CardEvent, Delivery, KeyRef, ListenerAction,
    ListenerEvent, Session, SlotCertificate, Worker, WorkerRequest, WorkerStep,
};
use age_plugin_yubikey_agent::keys::PublicKey;
use age_plugin_yubikey_agent::protocol::{EcdhError, EcdhResult, ProbeKeyResult};
use age_plugin_yubikey_agent::worker_loop::{
    begin, yubikey_worker, Answer, LoopAction, LoopEvent, WorkerLoop,
};
use p256::elliptic_curve::sec1::ToEncodedPoint;

const SERIAL: u32 = 12345;

// The first bytes of the SHA-256 digest of the compressed generator.
const TAG: [u8; 4] = [0x5b, 0xaf, 0xf8, 0x9d];

fn generator() -> Vec<u8> {
    p256::PublicKey::from_affine(p256::AffinePoint::GENERATOR)
        .unwrap()
        .to_encoded_point(false)
        .as_bytes()
        .to_vec()
}

fn certificate() -> CardEvent {
    CardEvent::CertificateRead(Ok(SlotCertificate::EcP256(generator())))
}

fn ephemeral() -> PublicKey {
    let pk = p256::SecretKey::random(&mut rand::thread_rng()).public_key();
    PublicKey::from_sec1_bytes(pk.to_encoded_point(true).as_bytes()).unwrap()
}

fn key() -> KeyRef {
    KeyRef { serial: SERIAL, slot: 0x82, tag: TAG }
}

fn probe(key: KeyRef) -> WorkerRequest {
    WorkerRequest::ProbeKey(key)
}

fn agree(key: KeyRef, pin: Option<&str>) -> WorkerRequest {
    WorkerRequest::Ecdh { key, ephemeral_pubkey: ephemeral(), pin: pin.map(str::to_string) }
}

fn opened() -> CardEvent {
    CardEvent::Opened(Ok(Some(SERIAL)))
}

fn verified() -> Worker {
    Worker::Idle(Some(Session { serial: SERIAL, pin_verified: true }))
}

fn unverified() -> Worker {
    Worker::Idle(Some(Session { serial: SERIAL, pin_verified: false }))
}

// What the commands to the card were, in order.
fn name(command: &CardCommand) -> String {
    match command {
        CardCommand::Open => "open".to_string(),
        CardCommand::VerifyPin(pin) => format!("verify {pin}"),
        CardCommand::ReadCertificate(slot) => format!("read {slot:02x}"),
        CardCommand::Decrypt { slot, .. } => format!("decrypt {slot:02x}"),
    }
}

// Serves a request with a card that does as the events say.
fn serve(
    worker: Worker,
    request: WorkerRequest,
    events: Vec<CardEvent>,
) -> (Worker, WorkerStep, Vec<String>) {
    let mut commands = Vec::new();
    let (mut worker, mut step) = worker.accept(request);
    for event in events {
        match &step {
            WorkerStep::Command(command) => commands.push(name(command)),
            _ => panic!("answered before the card did all"),
        }
        (worker, step) = worker.resume(event);
    }
    (worker, step, commands)
}

fn probed(
    worker: Worker,
    key: KeyRef,
    events: Vec<CardEvent>,
) -> (Option<Session>, ProbeKeyResult, Vec<String>) {
    match serve(worker, probe(key), events) {
        (Worker::Idle(session), WorkerStep::ProbeKeyReply(r), commands) => (session, r, commands),
        _ => panic!("not the answer to a probe"),
    }
}

fn agreed(
    worker: Worker,
    key: KeyRef,
    pin: Option<&str>,
    events: Vec<CardEvent>,
) -> (Option<Session>, EcdhResult, Vec<String>) {
    match serve(worker, agree(key, pin), events) {
        (Worker::Idle(session), WorkerStep::EcdhReply(r), commands) => (session, r, commands),
        _ => panic!("not the answer to an ECDH request"),
    }
}

#[test]
fn probe_matches() {
    let (session, r, commands) = probed(Worker::new(), key(), vec![opened(), certificate()]);
    assert_eq!(r, ProbeKeyResult::Match);
    assert_eq!(session, Some(Session { serial: SERIAL, pin_verified: false }));
    assert_eq!(commands, ["open", "read 82"]);
}

#[test]
fn probe_of_another_yubikey_or_slot() {
    let other = KeyRef { serial: 1, ..key() };
    let (session, r, _) = probed(unverified(), other, vec![]);
    assert_eq!(r, ProbeKeyResult::SerialMismatch);
    assert!(session.is_some());
    for slot in [0x00, 0x81, 0x96, 0x9a, 0xff] {
        let (session, r, _) = probed(unverified(), KeyRef { slot, ..key() }, vec![]);
        assert_eq!(r, ProbeKeyResult::InvalidSlot(slot));
        assert!(session.is_some());
    }
    for slot in 0x82..=0x95 {
        let (_, r, _) = probed(unverified(), KeyRef { slot, ..key() }, vec![certificate()]);
        assert_eq!(r, ProbeKeyResult::Match);
    }
}

#[test]
fn probe_reports_the_slot() {
    let tag = [0; 4];
    let (_, r, _) = probed(unverified(), KeyRef { tag, ..key() }, vec![certificate()]);
    assert_eq!(
        r,
        ProbeKeyResult::SlotCheck(EcdhError::TagMismatch { slot: 0x82 })
    );
    let events = vec![CardEvent::CertificateRead(Err(CardError::Other))];
    let (session, r, _) = probed(unverified(), key(), events);
    assert_eq!(r, ProbeKeyResult::SlotCheck(EcdhError::CertRead(0x82)));
    assert!(session.is_some());
}

#[test]
fn probe_without_a_card() {
    for event in [CardEvent::Opened(Ok(None)), CardEvent::Opened(Err(CardError::Pcsc))] {
        let (session, r, commands) = probed(Worker::new(), key(), vec![event]);
        assert_eq!(r, ProbeKeyResult::ChipUnavailable);
        assert!(session.is_none());
        assert_eq!(commands, ["open"]);
    }
}

#[test]
fn lost_card_drops_the_session() {
    let events = vec![CardEvent::CertificateRead(Err(CardError::Pcsc))];
    let (session, r, _) = probed(verified(), key(), events);
    assert_eq!(r, ProbeKeyResult::Disconnected);
    assert!(session.is_none());
    // The next request opens the card anew, and the new session has no PIN verified.
    let (session, r, commands) = agreed(Worker::Idle(session), key(), None, vec![opened()]);
    assert_eq!(r, Err(EcdhError::NeedPin));
    assert_eq!(session, Some(Session { serial: SERIAL, pin_verified: false }));
    assert_eq!(commands, ["open"]);
}

#[test]
fn ecdh_with_pin_then_without() {
    let secret = vec![0xCC; 32];
    let events = vec![
        opened(),
        CardEvent::PinVerified(Ok(())),
        certificate(),
        CardEvent::Decrypted(Ok(secret.clone())),
    ];
    let (session, r, commands) = agreed(Worker::new(), key(), Some("654321"), events);
    let response = r.unwrap();
    assert_eq!(response.shared_secret, [0xCC; 32]);
    assert_eq!(
        Some(response.recipient_pubkey),
        PublicKey::from_sec1_bytes(&generator())
    );
    assert_eq!(session, Some(Session { serial: SERIAL, pin_verified: true }));
    assert_eq!(commands, ["open", "verify 654321", "read 82", "decrypt 82"]);

    let events = vec![certificate(), CardEvent::Decrypted(Ok(secret))];
    let (session, r, commands) = agreed(Worker::Idle(session), key(), None, events);
    assert!(r.is_ok());
    assert_eq!(session, Some(Session { serial: SERIAL, pin_verified: true }));
    assert_eq!(commands, ["read 82", "decrypt 82"]);
}

#[test]
fn card_gets_the_uncompressed_ephemeral_key() {
    let ephemeral_pubkey = ephemeral();
    let (worker, _) = verified().accept(WorkerRequest::Ecdh {
        key: key(),
        ephemeral_pubkey,
        pin: None,
    });
    match worker.resume(certificate()).1 {
        WorkerStep::Command(CardCommand::Decrypt { slot, point }) => {
            assert_eq!(slot, 0x82);
            assert_eq!(point, ephemeral_pubkey.to_encoded_point(false));
            assert_eq!(point.len(), 65);
        }
        _ => panic!("no multiplication"),
    }
}

#[test]
fn ecdh_needs_the_pin() {
    let (session, r, commands) = agreed(unverified(), key(), None, vec![]);
    assert_eq!(r, Err(EcdhError::NeedPin));
    assert!(session.is_some());
    assert!(commands.is_empty());
}

#[test]
fn serial_comes_before_the_pin() {
    let other = KeyRef { serial: 1, ..key() };
    for pin in [None, Some("654321")] {
        let (session, r, _) = agreed(unverified(), other, pin, vec![]);
        assert_eq!(r, Err(EcdhError::SerialMismatch));
        assert_eq!(session, Some(Session { serial: SERIAL, pin_verified: false }));
    }
}

#[test]
fn refused_pins() {
    let cases = [
        (CardError::WrongPin { tries: 2 }, EcdhError::WrongPin { tries: 2 }),
        (CardError::PinLocked, EcdhError::PinLocked),
        (CardError::Other, EcdhError::PinRejected),
    ];
    for (card, answer) in cases {
        let events = vec![CardEvent::PinVerified(Err(card))];
        let (session, r, _) = agreed(unverified(), key(), Some("1"), events);
        assert_eq!(r, Err(answer));
        assert_eq!(session, Some(Session { serial: SERIAL, pin_verified: false }));
    }
    let events = vec![CardEvent::PinVerified(Err(CardError::Pcsc))];
    let (session, r, _) = agreed(unverified(), key(), Some("1"), events);
    assert_eq!(r, Err(EcdhError::Disconnected));
    assert!(session.is_none());
}

#[test]
fn pin_stays_verified_though_the_slot_is_invalid() {
    let bad = KeyRef { slot: 0x9a, ..key() };
    let events = vec![CardEvent::PinVerified(Ok(()))];
    let (session, r, _) = agreed(unverified(), bad, Some("654321"), events);
    assert_eq!(r, Err(EcdhError::InvalidSlot(0x9a)));
    assert_eq!(session, Some(Session { serial: SERIAL, pin_verified: true }));
}

#[test]
fn ecdh_checks_the_certificate() {
    let cases = [
        (Ok(SlotCertificate::Other), EcdhError::CertNotP256(0x82)),
        (
            Ok(SlotCertificate::EcP256(vec![4; 65])),
            EcdhError::CertInvalidKey,
        ),
        (Ok(SlotCertificate::EcP256(vec![])), EcdhError::CertInvalidKey),
        (
            Err(CardError::WrongPin { tries: 1 }),
            EcdhError::CertRead(0x82),
        ),
    ];
    for (read, answer) in cases {
        let events = vec![CardEvent::CertificateRead(read)];
        let (session, r, _) = agreed(verified(), key(), None, events);
        assert_eq!(r, Err(answer));
        assert!(session.is_some());
    }
    let mut tag = TAG;
    tag[3] ^= 1;
    let (_, r, commands) = agreed(verified(), KeyRef { tag, ..key() }, None, vec![certificate()]);
    assert_eq!(r, Err(EcdhError::TagMismatch { slot: 0x82 }));
    assert_eq!(commands, ["read 82"]);
}

#[test]
fn ecdh_on_the_card_can_fail() {
    let cases = [
        (Err(CardError::Other), EcdhError::EcdhFailed),
        (Err(CardError::PinLocked), EcdhError::EcdhFailed),
        (Ok(vec![0; 31]), EcdhError::SharedSecretLength { got: 31 }),
        (Ok(vec![]), EcdhError::SharedSecretLength { got: 0 }),
        (Ok(vec![0; 33]), EcdhError::SharedSecretLength { got: 33 }),
    ];
    for (secret, answer) in cases {
        let events = vec![certificate(), CardEvent::Decrypted(secret)];
        let (session, r, _) = agreed(verified(), key(), None, events);
        assert_eq!(r, Err(answer));
        assert!(session.is_some());
    }
    let events = vec![certificate(), CardEvent::Decrypted(Err(CardError::Pcsc))];
    let (session, r, _) = agreed(verified(), key(), None, events);
    assert_eq!(r, Err(EcdhError::Disconnected));
    assert!(session.is_none());
}

#[test]
fn ecdh_without_a_card() {
    for event in [CardEvent::Opened(Ok(None)), CardEvent::Opened(Err(CardError::Other))] {
        let (session, r, _) = agreed(Worker::new(), key(), Some("654321"), vec![event]);
        assert_eq!(r, Err(EcdhError::Disconnected));
        assert!(session.is_none());
    }
}

#[test]
fn sessions_from_what_opening_gave() {
    assert_eq!(
        Session::new(Ok(Some(7))),
        Ok(Session { serial: 7, pin_verified: false })
    );
    assert_eq!(Session::new(Ok(None)), Err(EcdhError::Disconnected));
    assert_eq!(Session::new(Err(CardError::Pcsc)), Err(EcdhError::ChipUnavailable));
}

#[test]
fn only_a_connection_error_ends_a_session() {
    assert!(is_session_fatal(&CardError::Pcsc));
    assert!(!is_session_fatal(&CardError::Other));
    assert!(!is_session_fatal(&CardError::PinLocked));
    assert!(!is_session_fatal(&CardError::WrongPin { tries: 3 }));
}

#[test]
fn handlers_begin_with_the_session() {
    let session = Session { serial: SERIAL, pin_verified: false };
    assert!(matches!(
        handle_probe_key(session, key()).1,
        WorkerStep::Command(CardCommand::ReadCertificate(0x82))
    ));
    assert!(matches!(
        handle_ecdh(session, key(), ephemeral(), &mut None).1,
        WorkerStep::EcdhReply(Err(EcdhError::NeedPin))
    ));
}

#[test]
fn no_pin_is_left_behind() {
    let session = Session { serial: SERIAL, pin_verified: false };
    let verified = Session { serial: SERIAL, pin_verified: true };
    let pin = || Some("654321".to_string());

    // The card gets it.
    let mut handed_on = pin();
    assert!(matches!(
        handle_ecdh(session, key(), ephemeral(), &mut handed_on).1,
        WorkerStep::Command(CardCommand::VerifyPin(pin)) if pin == "654321"
    ));
    assert_eq!(handed_on, None);

    // Nobody needs it.
    let mut unneeded = pin();
    handle_ecdh(verified, key(), ephemeral(), &mut unneeded);
    assert_eq!(unneeded.as_deref(), Some(""));
    let mut other_card = pin();
    let other = KeyRef { serial: 1, ..key() };
    handle_ecdh(session, other, ephemeral(), &mut other_card);
    assert_eq!(other_card.as_deref(), Some(""));
    let mut no_card = pin();
    assert!(matches!(
        serve_ecdh(None, key(), ephemeral(), &mut no_card).1,
        WorkerStep::EcdhReply(Err(EcdhError::Disconnected))
    ));
    assert_eq!(no_card.as_deref(), Some(""));

    for session in [None, Some(session), Some(verified)] {
        let mut request = agree(key(), Some("654321"));
        serve_request(session, &mut request);
        match request {
            WorkerRequest::Ecdh { pin, .. } => assert_eq!(pin.unwrap_or_default(), ""),
            WorkerRequest::ProbeKey(_) => panic!("another request"),
        }
    }
}

#[test]
fn tags_come_from_the_digest() {
    let g = PublicKey::from_sec1_bytes(&generator()).unwrap();
    let mut digest = [0; 32];
    digest[..4].copy_from_slice(&[1, 2, 3, 4]);
    assert_eq!(check_tag(g, &digest, 0x83, [1, 2, 3, 4]), Ok(g));
    assert_eq!(
        check_tag(g, &digest, 0x83, [1, 2, 3, 5]),
        Err(EcdhError::TagMismatch { slot: 0x83 })
    );
    let read = Ok(SlotCertificate::EcP256(g.to_encoded_point(true)));
    assert_eq!(read_slot_pubkey(read, 0x82, TAG), Ok(g));
    assert!(same_tag(&TAG, &TAG));
    assert!(!same_tag(&TAG, &[0x5b, 0xaf, 0xf8, 0]));
    assert!(!same_tag(&TAG, &[0, 0xaf, 0xf8, 0x9d]));
}

#[test]
fn requests_that_never_reach_the_worker() {
    assert_eq!(probe_key(Delivery::NotSent), ProbeKeyResult::WorkerExited);
    assert_eq!(probe_key(Delivery::Dropped), ProbeKeyResult::WorkerDropped);
    assert_eq!(
        probe_key(Delivery::Answered(ProbeKeyResult::Match)),
        ProbeKeyResult::Match
    );
    assert_eq!(ecdh(Delivery::NotSent), Err(EcdhError::Disconnected));
    assert_eq!(ecdh(Delivery::Dropped), Err(EcdhError::Disconnected));
    assert_eq!(
        ecdh(Delivery::Answered(Err(EcdhError::NeedPin))),
        Err(EcdhError::NeedPin)
    );
}

#[test]
fn listener_serves_until_told_to_stop() {
    assert_eq!(run(ListenerEvent::Connection), ListenerAction::Serve);
    assert_eq!(run(ListenerEvent::AcceptError), ListenerAction::Ignore);
    assert_eq!(run(ListenerEvent::Interrupt), ListenerAction::Stop);
    assert_eq!(run(ListenerEvent::Terminate), ListenerAction::Stop);
    assert_eq!(run(ListenerEvent::Closed), ListenerAction::Stop);
}

// ── The loop ────────────────────────────────────────────────────────

// Runs the loop on requests that the card answers as the events say, and gives the answers. The
// receivers of the answers are there or not.
fn run_loop(
    requests: Vec<WorkerRequest>,
    card: Vec<CardEvent>,
    sent: bool,
) -> (Vec<Answer>, Vec<bool>, Vec<String>) {
    let mut requests = requests.into_iter();
    let mut card = card.into_iter();
    let (mut answers, mut kept, mut commands) = (Vec::new(), Vec::new(), Vec::new());
    let (mut state, mut action) = begin();
    loop {
        let event = match action {
            LoopAction::Receive => match requests.next() {
                Some(request) => LoopEvent::Received(request),
                None => LoopEvent::Closed,
            },
            LoopAction::Command(command) => {
                commands.push(name(&command));
                LoopEvent::Card(card.next().expect("an event for each command"))
            }
            LoopAction::Reply { answer, keep_card } => {
                answers.push(answer);
                kept.push(keep_card);
                LoopEvent::Sent(sent)
            }
            LoopAction::Stop => {
                assert!(matches!(state, WorkerLoop::Stopped));
                assert!(card.next().is_none());
                return (answers, kept, commands);
            }
        };
        assert!(state.awaits(&event));
        (state, action) = yubikey_worker(state, event);
    }
}

#[test]
fn loop_answers_each_request_in_order() {
    for sent in [true, false] {
        let requests = vec![
            probe(key()),
            agree(key(), None),
            agree(key(), Some("654321")),
            probe(KeyRef { serial: 1, ..key() }),
            agree(key(), None),
        ];
        let card = vec![
            opened(),
            certificate(),
            CardEvent::PinVerified(Ok(())),
            certificate(),
            CardEvent::Decrypted(Ok(vec![7; 32])),
            certificate(),
            CardEvent::Decrypted(Err(CardError::Pcsc)),
        ];
        let (answers, kept, commands) = run_loop(requests, card, sent);
        assert_eq!(answers.len(), 5);
        assert!(matches!(answers[0], Answer::ProbeKey(ProbeKeyResult::Match)));
        assert!(matches!(answers[1], Answer::Ecdh(Err(EcdhError::NeedPin))));
        assert!(matches!(&answers[2], Answer::Ecdh(Ok(r)) if r.shared_secret == [7; 32]));
        assert!(matches!(answers[3], Answer::ProbeKey(ProbeKeyResult::SerialMismatch)));
        assert!(matches!(answers[4], Answer::Ecdh(Err(EcdhError::Disconnected))));
        assert_eq!(kept, [true, true, true, true, false]);
        assert_eq!(
            commands,
            ["open", "read 82", "verify 654321", "read 82", "decrypt 82", "read 82", "decrypt 82"]
        );
    }
}

#[test]
fn loop_ends_with_the_queue() {
    let (answers, _, commands) = run_loop(vec![], vec![], true);
    assert!(answers.is_empty());
    assert!(commands.is_empty());
}

#[test]
fn loop_without_a_card_opens_it_for_each_request() {
    let requests = vec![probe(key()), agree(key(), Some("1"))];
    let card = vec![CardEvent::Opened(Ok(None)), CardEvent::Opened(Ok(None))];
    let (answers, kept, commands) = run_loop(requests, card, true);
    assert!(matches!(answers[0], Answer::ProbeKey(ProbeKeyResult::ChipUnavailable)));
    assert!(matches!(answers[1], Answer::Ecdh(Err(EcdhError::Disconnected))));
    assert_eq!(kept, [false, false]);
    assert_eq!(commands, ["open", "open"]);
}

#[test]
fn loop_opens_the_card_again_only_after_losing_it() {
    let secret = || CardEvent::Decrypted(Ok(vec![7; 32]));
    let requests = vec![
        agree(key(), Some("654321")),
        agree(key(), None),
        probe(key()),
        agree(key(), None),
        probe(key()),
    ];
    let card = vec![
        opened(),
        CardEvent::PinVerified(Ok(())),
        certificate(),
        secret(),
        certificate(),
        secret(),
        CardEvent::CertificateRead(Err(CardError::Pcsc)),
        opened(),
        certificate(),
    ];
    let (answers, kept, commands) = run_loop(requests, card, true);
    assert!(matches!(answers[0], Answer::Ecdh(Ok(_))));
    assert!(matches!(answers[1], Answer::Ecdh(Ok(_))));
    assert!(matches!(answers[2], Answer::ProbeKey(ProbeKeyResult::Disconnected)));
    assert!(matches!(answers[3], Answer::Ecdh(Err(EcdhError::NeedPin))));
    assert!(matches!(answers[4], Answer::ProbeKey(ProbeKeyResult::Match)));
    assert_eq!(kept, [true, true, false, true, true]);
    assert_eq!(
        commands,
        [
            "open",
            "verify 654321",
            "read 82",
            "decrypt 82",
            "read 82",
            "decrypt 82",
            "read 82",
            "open",
            "read 82"
        ]
    );
}

#[test]
fn events_that_nobody_waits_for() {
    let (receiving, _) = begin();
    assert!(receiving.awaits(&LoopEvent::Closed));
    assert!(receiving.awaits(&LoopEvent::Received(probe(key()))));
    assert!(!receiving.awaits(&LoopEvent::Sent(true)));
    assert!(!receiving.awaits(&LoopEvent::Card(opened())));
    let (serving, _) = yubikey_worker(receiving, LoopEvent::Received(probe(key())));
    assert!(serving.awaits(&LoopEvent::Card(opened())));
    assert!(!serving.awaits(&LoopEvent::Card(certificate())));
    assert!(!serving.awaits(&LoopEvent::Closed));
    assert!(!WorkerLoop::Stopped.awaits(&LoopEvent::Closed));
    assert!(!Worker::new().awaits(&opened()));
    let (reading, _) = verified().accept(agree(key(), None));
    assert!(reading.awaits(&certificate()));
    assert!(!reading.awaits(&CardEvent::Decrypted(Ok(vec![]))));
    let (agreeing, _) = reading.resume(certificate());
    assert!(agreeing.awaits(&CardEvent::Decrypted(Ok(vec![]))));
    let (checking, _) = unverified().accept(agree(key(), Some("1")));
    assert!(checking.awaits(&CardEvent::PinVerified(Ok(()))));
}
