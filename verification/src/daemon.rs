//! The daemon's decisions: what to do with the card for each request, and what to answer.
//!
//! The card is outside. A step of the worker names a command for the card or the answer to the
//! request; what the card did comes back as an event.
use vstd::prelude::*;

use crate::crypto::{digest, wipe_text};
use crate::keys::PublicKey;
use crate::protocol::{EcdhError, EcdhResponse, EcdhResult, ProbeKeyResult, TAG_BYTES};
use crate::stanza::take_array;

verus! {

/// What went wrong on the card, as far as it matters here.
#[derive(Clone, Copy, Debug, PartialEq, Eq, Structural)]
pub enum CardError {
    /// The connection to the card failed.
    Pcsc,
    WrongPin { tries: u8 },
    PinLocked,
    Other,
}

/// Heuristic to determine if the YubiKey needs to be reconnected.
pub fn is_session_fatal(err: &CardError) -> (r: bool)
    ensures
        r == (*err == CardError::Pcsc),
{
    matches!(*err, CardError::Pcsc)
}

/// The public key that the certificate in a slot certifies.
#[derive(Clone, Debug, PartialEq, Eq)]
pub enum SlotCertificate {
    /// A P-256 key, in SEC1 encoding.
    EcP256(Vec<u8>),
    /// A key of another kind.
    Other,
}

/// A connection to a YubiKey.
#[derive(Clone, Copy, Debug, PartialEq, Eq, Structural)]
pub struct Session {
    pub serial: u32,
    pub pin_verified: bool,
}

impl Session {
    /// The session with the first YubiKey, given what opening it gave: its serial number, or
    /// nothing where none is connected.
    pub fn new(opened: Result<Option<u32>, CardError>) -> (r: Result<Session, EcdhError>)
        ensures
            r == match opened {
                Ok(Some(serial)) => Ok(Session { serial, pin_verified: false }),
                Ok(None) => Err(EcdhError::Disconnected),
                Err(_) => Err(EcdhError::ChipUnavailable),
            },
    {
        match opened {
            Ok(Some(serial)) => Ok(Session { serial, pin_verified: false }),
            Ok(None) => Err(EcdhError::Disconnected),
            Err(_) => Err(EcdhError::ChipUnavailable),
        }
    }
}

/// Whether a byte names one of the twenty retired key management slots of a PIV card.
pub open spec fn is_retired_slot(slot: u8) -> bool {
    0x82 <= slot <= 0x95
}

/// The tag of a recipient: the first bytes of the digest of its compressed point.
pub open spec fn recipient_tag(sec1: Seq<u8>) -> Seq<u8> {
    crate::crypto::sha256(sec1).take(TAG_BYTES as int)
}

/// The key in a slot, given its certificate, if it is the one that the tag asks for.
pub open spec fn slot_pubkey(
    certificate: Result<SlotCertificate, CardError>,
    slot: u8,
    expected_tag: Seq<u8>,
) -> Result<Seq<u8>, EcdhError> {
    match certificate {
        Err(CardError::Pcsc) => Err(EcdhError::Disconnected),
        Err(_) => Err(EcdhError::CertRead(slot)),
        Ok(SlotCertificate::Other) => Err(EcdhError::CertNotP256(slot)),
        Ok(SlotCertificate::EcP256(point)) => match crate::keys::p256_point(point@) {
            None => Err(EcdhError::CertInvalidKey),
            Some(sec1) => if recipient_tag(sec1) == expected_tag {
                Ok(sec1)
            } else {
                Err(EcdhError::TagMismatch { slot })
            },
        },
    }
}

/// Whether two tags are the same.
pub fn same_tag(a: &[u8; TAG_BYTES], b: &[u8; TAG_BYTES]) -> (r: bool)
    ensures
        r == (a@ == b@),
{
    let r = a[0] == b[0] && a[1] == b[1] && a[2] == b[2] && a[3] == b[3];
    if r {
        assert(a@ =~= b@);
    }
    r
}

/// Accepts the key of a slot if its digest begins with the expected tag.
pub fn check_tag(
    key: PublicKey,
    key_digest: &[u8; 32],
    slot: u8,
    expected_tag: [u8; TAG_BYTES],
) -> (r: Result<PublicKey, EcdhError>)
    ensures
        r == if key_digest@.take(TAG_BYTES as int) == expected_tag@ {
            Ok(key)
        } else {
            Err(EcdhError::TagMismatch { slot })
        },
{
    let computed_tag = [key_digest[0], key_digest[1], key_digest[2], key_digest[3]];
    assert(computed_tag@ =~= key_digest@.take(TAG_BYTES as int));
    if same_tag(&computed_tag, &expected_tag) {
        Ok(key)
    } else {
        Err(EcdhError::TagMismatch { slot })
    }
}

/// A result with the key as its compressed form.
pub open spec fn key_view(r: Result<PublicKey, EcdhError>) -> Result<Seq<u8>, EcdhError> {
    match r {
        Ok(key) => Ok(key@),
        Err(e) => Err(e),
    }
}

/// The P-256 public key of a PIV slot, from the certificate read there, if its tag (first 4
/// bytes of SHA-256 of the compressed point) is the expected one.
pub fn read_slot_pubkey(
    certificate: Result<SlotCertificate, CardError>,
    slot: u8,
    expected_tag: [u8; TAG_BYTES],
) -> (r: Result<PublicKey, EcdhError>)
    ensures
        key_view(r) == slot_pubkey(certificate, slot, expected_tag@),
{
    let certificate = match certificate {
        Ok(c) => c,
        Err(e) => {
            if is_session_fatal(&e) {
                return Err(EcdhError::Disconnected);
            }
            return Err(EcdhError::CertRead(slot));
        },
    };
    let point = match certificate {
        SlotCertificate::EcP256(point) => point,
        SlotCertificate::Other => return Err(EcdhError::CertNotP256(slot)),
    };
    match PublicKey::from_sec1_bytes(&point) {
        Some(key) => {
            let key_digest = digest(&key.to_encoded_point(true));
            check_tag(key, &key_digest, slot, expected_tag)
        },
        None => Err(EcdhError::CertInvalidKey),
    }
}

/// The key that a request is about: the YubiKey it is on, its slot and its recipient tag.
#[derive(Clone, Copy, Debug, PartialEq, Eq)]
pub struct KeyRef {
    pub serial: u32,
    pub slot: u8,
    pub tag: [u8; TAG_BYTES],
}

/// A request that reached the worker.
pub enum WorkerRequest {
    ProbeKey(KeyRef),
    Ecdh { key: KeyRef, ephemeral_pubkey: PublicKey, pin: Option<String> },
}

/// What the card is to do next.
pub enum CardCommand {
    /// Open the first YubiKey.
    Open,
    VerifyPin(String),
    /// Read the certificate in a slot.
    ReadCertificate(u8),
    /// Multiply an uncompressed point by the private key in a slot.
    Decrypt { slot: u8, point: Vec<u8> },
}

/// What the card did.
pub enum CardEvent {
    /// The serial number of the YubiKey opened, nothing where none is connected.
    Opened(Result<Option<u32>, CardError>),
    PinVerified(Result<(), CardError>),
    CertificateRead(Result<SlotCertificate, CardError>),
    /// The raw shared secret.
    Decrypted(Result<Vec<u8>, CardError>),
}

/// What the worker does next: a command to the card, or the answer to the request.
pub enum WorkerStep {
    Command(CardCommand),
    ProbeKeyReply(ProbeKeyResult),
    EcdhReply(EcdhResult),
}

/// A [`WorkerStep`] as plain sequences.
pub enum StepView {
    Open,
    VerifyPin(Seq<char>),
    ReadCertificate(u8),
    Decrypt { slot: u8, point: Seq<u8> },
    ProbeKeyReply(ProbeKeyResult),
    EcdhReply(Result<crate::protocol::EcdhResponseView, EcdhError>),
}

impl View for WorkerStep {
    type V = StepView;

    open spec fn view(&self) -> StepView {
        match *self {
            WorkerStep::Command(CardCommand::Open) => StepView::Open,
            WorkerStep::Command(CardCommand::VerifyPin(pin)) => StepView::VerifyPin(pin@),
            WorkerStep::Command(CardCommand::ReadCertificate(slot)) => StepView::ReadCertificate(
                slot,
            ),
            WorkerStep::Command(CardCommand::Decrypt { slot, point }) => StepView::Decrypt {
                slot,
                point: point@,
            },
            WorkerStep::ProbeKeyReply(r) => StepView::ProbeKeyReply(r),
            WorkerStep::EcdhReply(r) => StepView::EcdhReply(crate::protocol::ecdh_view(r)),
        }
    }
}

/// Where the worker stands: idle, or waiting for the card to carry out a command.
pub enum Worker {
    /// Between requests, with the session if there is one.
    Idle(Option<Session>),
    /// Opening a session to serve a request.
    Opening(WorkerRequest),
    /// Reading a certificate to answer a probe.
    Probing(Session, KeyRef),
    /// Having the PIN checked before an ECDH with an ephemeral key.
    CheckingPin(Session, KeyRef, PublicKey),
    /// Reading a certificate before an ECDH with an ephemeral key.
    ReadingKey(Session, KeyRef, PublicKey),
    /// Waiting for the shared secret, with the recipient's key.
    Agreeing(Session, KeyRef, PublicKey),
}

/// A [`Worker`] with its keys as sequences of bytes.
pub enum WorkerView {
    Idle(Option<Session>),
    Opening(WorkerRequest),
    Probing(Session, KeyRef),
    CheckingPin(Session, KeyRef, Seq<u8>),
    ReadingKey(Session, KeyRef, Seq<u8>),
    Agreeing(Session, KeyRef, Seq<u8>),
}

impl View for Worker {
    type V = WorkerView;

    open spec fn view(&self) -> WorkerView {
        match *self {
            Worker::Idle(session) => WorkerView::Idle(session),
            Worker::Opening(request) => WorkerView::Opening(request),
            Worker::Probing(session, key) => WorkerView::Probing(session, key),
            Worker::CheckingPin(session, key, pk) => WorkerView::CheckingPin(session, key, pk@),
            Worker::ReadingKey(session, key, pk) => WorkerView::ReadingKey(session, key, pk@),
            Worker::Agreeing(session, key, pk) => WorkerView::Agreeing(session, key, pk@),
        }
    }
}

/// A worker and what it does next.
pub type Turn = (WorkerView, StepView);

/// Answers an ECDH request. A worker that lost the card drops its session.
pub open spec fn ecdh_answered(
    session: Session,
    r: Result<crate::protocol::EcdhResponseView, EcdhError>,
) -> Turn {
    (
        WorkerView::Idle(
            if r == Err::<crate::protocol::EcdhResponseView, _>(EcdhError::Disconnected) {
                None
            } else {
                Some(session)
            },
        ),
        StepView::EcdhReply(r),
    )
}

/// Answers a probe. A worker that lost the card drops its session.
pub open spec fn probe_answered(session: Session, r: ProbeKeyResult) -> Turn {
    (
        WorkerView::Idle(
            if r == ProbeKeyResult::Disconnected {
                None
            } else {
                Some(session)
            },
        ),
        StepView::ProbeKeyReply(r),
    )
}

/// A probe, up to the card: serial number and slot come first.
pub open spec fn probe_begun(session: Session, key: KeyRef) -> Turn {
    if session.serial != key.serial {
        probe_answered(session, ProbeKeyResult::SerialMismatch)
    } else if !is_retired_slot(key.slot) {
        probe_answered(session, ProbeKeyResult::InvalidSlot(key.slot))
    } else {
        (WorkerView::Probing(session, key), StepView::ReadCertificate(key.slot))
    }
}

/// The rest of a probe.
pub open spec fn probe_ended(
    session: Session,
    key: KeyRef,
    certificate: Result<SlotCertificate, CardError>,
) -> Turn {
    probe_answered(
        session,
        match slot_pubkey(certificate, key.slot, key.tag@) {
            Ok(_) => ProbeKeyResult::Match,
            Err(EcdhError::Disconnected) => ProbeKeyResult::Disconnected,
            Err(e) => ProbeKeyResult::SlotCheck(e),
        },
    )
}

/// An ECDH, up to the card: serial number first, then the PIN, unless it was verified before.
pub open spec fn ecdh_begun(
    session: Session,
    key: KeyRef,
    ephemeral_pubkey: Seq<u8>,
    pin: Option<Seq<char>>,
) -> Turn {
    if session.serial != key.serial {
        ecdh_answered(session, Err(EcdhError::SerialMismatch))
    } else if session.pin_verified {
        slot_entered(session, key, ephemeral_pubkey)
    } else {
        match pin {
            None => ecdh_answered(session, Err(EcdhError::NeedPin)),
            Some(pin) => (
                WorkerView::CheckingPin(session, key, ephemeral_pubkey),
                StepView::VerifyPin(pin),
            ),
        }
    }
}

/// An ECDH with the PIN verified: the slot comes next.
pub open spec fn slot_entered(session: Session, key: KeyRef, ephemeral_pubkey: Seq<u8>) -> Turn {
    if !is_retired_slot(key.slot) {
        ecdh_answered(session, Err(EcdhError::InvalidSlot(key.slot)))
    } else {
        (
            WorkerView::ReadingKey(session, key, ephemeral_pubkey),
            StepView::ReadCertificate(key.slot),
        )
    }
}

/// An ECDH after the card checked the PIN.
pub open spec fn pin_checked(
    session: Session,
    key: KeyRef,
    ephemeral_pubkey: Seq<u8>,
    outcome: Result<(), CardError>,
) -> Turn {
    match outcome {
        Ok(_) => slot_entered(
            Session { serial: session.serial, pin_verified: true },
            key,
            ephemeral_pubkey,
        ),
        Err(CardError::Pcsc) => ecdh_answered(session, Err(EcdhError::Disconnected)),
        Err(CardError::WrongPin { tries }) => ecdh_answered(
            session,
            Err(EcdhError::WrongPin { tries }),
        ),
        Err(CardError::PinLocked) => ecdh_answered(session, Err(EcdhError::PinLocked)),
        Err(CardError::Other) => ecdh_answered(session, Err(EcdhError::PinRejected)),
    }
}

/// An ECDH after the card gave the certificate in the slot.
pub open spec fn key_read(
    session: Session,
    key: KeyRef,
    ephemeral_pubkey: Seq<u8>,
    certificate: Result<SlotCertificate, CardError>,
) -> Turn {
    match slot_pubkey(certificate, key.slot, key.tag@) {
        Ok(recipient_pubkey) => (
            WorkerView::Agreeing(session, key, recipient_pubkey),
            StepView::Decrypt {
                slot: key.slot,
                point: crate::keys::p256_uncompressed(ephemeral_pubkey),
            },
        ),
        Err(e) => ecdh_answered(session, Err(e)),
    }
}

/// An ECDH after the card computed the shared secret.
pub open spec fn secret_computed(
    session: Session,
    recipient_pubkey: Seq<u8>,
    secret: Result<Vec<u8>, CardError>,
) -> Turn {
    ecdh_answered(
        session,
        match secret {
            Ok(raw) => if raw@.len() == 32 {
                Ok(
                    crate::protocol::EcdhResponseView {
                        shared_secret: raw@,
                        recipient_pubkey,
                    },
                )
            } else {
                Err(EcdhError::SharedSecretLength { got: raw@.len() as usize })
            },
            Err(CardError::Pcsc) => Err(EcdhError::Disconnected),
            Err(_) => Err(EcdhError::EcdhFailed),
        },
    )
}

/// The PIN of a request as a sequence of characters.
pub open spec fn pin_view(pin: Option<String>) -> Option<Seq<char>> {
    match pin {
        Some(pin) => Some(pin@),
        None => None,
    }
}

/// Serves a request with the session at hand, or refuses it without one.
pub open spec fn served(session: Option<Session>, request: WorkerRequest) -> Turn {
    match (session, request) {
        (Some(session), WorkerRequest::ProbeKey(key)) => probe_begun(session, key),
        (Some(session), WorkerRequest::Ecdh { key, ephemeral_pubkey, pin }) => ecdh_begun(
            session,
            key,
            ephemeral_pubkey@,
            pin_view(pin),
        ),
        (None, WorkerRequest::ProbeKey(_)) => (
            WorkerView::Idle(None),
            StepView::ProbeKeyReply(ProbeKeyResult::ChipUnavailable),
        ),
        (None, WorkerRequest::Ecdh { .. }) => (
            WorkerView::Idle(None),
            StepView::EcdhReply(Err(EcdhError::Disconnected)),
        ),
    }
}

/// A request reaches an idle worker, which opens a session first if it has none.
pub open spec fn accepted(session: Option<Session>, request: WorkerRequest) -> Turn {
    match session {
        Some(_) => served(session, request),
        None => (WorkerView::Opening(request), StepView::Open),
    }
}

/// The session that opening the card gave, if it gave one.
pub open spec fn session_opened(opened: Result<Option<u32>, CardError>) -> Option<Session> {
    match opened {
        Ok(Some(serial)) => Some(Session { serial, pin_verified: false }),
        _ => None,
    }
}

/// Whether `event` is what a worker waits for.
pub open spec fn awaits(worker: WorkerView, event: CardEvent) -> bool {
    match worker {
        WorkerView::Idle(_) => false,
        WorkerView::Opening(_) => event is Opened,
        WorkerView::CheckingPin(_, _, _) => event is PinVerified,
        WorkerView::Probing(_, _) | WorkerView::ReadingKey(_, _, _) => event is CertificateRead,
        WorkerView::Agreeing(_, _, _) => event is Decrypted,
    }
}

/// What a worker does when the card has carried out its command.
pub open spec fn resumed(worker: WorkerView, event: CardEvent) -> Turn {
    match (worker, event) {
        (WorkerView::Opening(request), CardEvent::Opened(opened)) => served(
            session_opened(opened),
            request,
        ),
        (WorkerView::Probing(session, key), CardEvent::CertificateRead(certificate)) => probe_ended(
            session,
            key,
            certificate,
        ),
        (
            WorkerView::CheckingPin(session, key, ephemeral_pubkey),
            CardEvent::PinVerified(outcome),
        ) => pin_checked(session, key, ephemeral_pubkey, outcome),
        (
            WorkerView::ReadingKey(session, key, ephemeral_pubkey),
            CardEvent::CertificateRead(certificate),
        ) => key_read(session, key, ephemeral_pubkey, certificate),
        (
            WorkerView::Agreeing(session, key, recipient_pubkey),
            CardEvent::Decrypted(secret),
        ) => secret_computed(session, recipient_pubkey, secret),
        _ => arbitrary(),
    }
}

fn answer_ecdh(session: Session, r: EcdhResult) -> (t: (Worker, WorkerStep))
    ensures
        (t.0@, t.1@) == ecdh_answered(session, crate::protocol::ecdh_view(r)),
{
    let kept = if matches!(r, Err(EcdhError::Disconnected)) {
        None
    } else {
        Some(session)
    };
    (Worker::Idle(kept), WorkerStep::EcdhReply(r))
}

fn answer_probe(session: Session, r: ProbeKeyResult) -> (t: (Worker, WorkerStep))
    ensures
        (t.0@, t.1@) == probe_answered(session, r),
{
    let kept = if matches!(r, ProbeKeyResult::Disconnected) {
        None
    } else {
        Some(session)
    };
    (Worker::Idle(kept), WorkerStep::ProbeKeyReply(r))
}

/// Whether nothing of a PIN is left: it was handed on, or wiped.
pub open spec fn is_gone(pin: Option<String>) -> bool {
    pin matches Some(pin) ==> pin@.len() == 0
}

/// Wipes a PIN that nobody needs.
fn discard_pin(pin: &mut Option<String>)
    ensures
        is_gone(*final(pin)),
        *final(pin) is Some <==> *old(pin) is Some,
{
    if let Some(pin) = pin {
        wipe_text(pin);
    }
}

fn retired_slot(slot: u8) -> (r: bool)
    ensures
        r == is_retired_slot(slot),
{
    0x82 <= slot && slot <= 0x95
}

/// Checks whether the connected YubiKey can have a P-256 key with the given serial and slot,
/// and asks for the slot's certificate. No PIN or touch required.
pub fn handle_probe_key(session: Session, key: KeyRef) -> (t: (Worker, WorkerStep))
    ensures
        (t.0@, t.1@) == probe_begun(session, key),
{
    if session.serial != key.serial {
        return answer_probe(session, ProbeKeyResult::SerialMismatch);
    }
    if !retired_slot(key.slot) {
        return answer_probe(session, ProbeKeyResult::InvalidSlot(key.slot));
    }
    (
        Worker::Probing(session, key),
        WorkerStep::Command(CardCommand::ReadCertificate(key.slot)),
    )
}

fn finish_probe_key(
    session: Session,
    key: KeyRef,
    certificate: Result<SlotCertificate, CardError>,
) -> (t: (Worker, WorkerStep))
    ensures
        (t.0@, t.1@) == probe_ended(session, key, certificate),
{
    match read_slot_pubkey(certificate, key.slot, key.tag) {
        Ok(_) => answer_probe(session, ProbeKeyResult::Match),
        Err(EcdhError::Disconnected) => answer_probe(session, ProbeKeyResult::Disconnected),
        Err(e) => answer_probe(session, ProbeKeyResult::SlotCheck(e)),
    }
}

fn enter_slot(session: Session, key: KeyRef, ephemeral_pubkey: PublicKey) -> (t: (
    Worker,
    WorkerStep,
))
    ensures
        (t.0@, t.1@) == slot_entered(session, key, ephemeral_pubkey@),
{
    if !retired_slot(key.slot) {
        return answer_ecdh(session, Err(EcdhError::InvalidSlot(key.slot)));
    }
    (
        Worker::ReadingKey(session, key, ephemeral_pubkey),
        WorkerStep::Command(CardCommand::ReadCertificate(key.slot)),
    )
}

/// Begins a P-256 ECDH on the YubiKey: the card is to multiply the ephemeral public key (from
/// the stanza) by the private key in the given PIV slot. Serial, PIN, slot and tag are
/// verified before the card is touched. Afterwards the PIN is gone: the card gets it, or it is
/// wiped.
pub fn handle_ecdh(
    session: Session,
    key: KeyRef,
    ephemeral_pubkey: PublicKey,
    pin: &mut Option<String>,
) -> (t: (Worker, WorkerStep))
    ensures
        (t.0@, t.1@) == ecdh_begun(session, key, ephemeral_pubkey@, pin_view(*old(pin))),
        is_gone(*final(pin)),
{
    if session.serial != key.serial {
        discard_pin(pin);
        return answer_ecdh(session, Err(EcdhError::SerialMismatch));
    }
    if session.pin_verified {
        discard_pin(pin);
        return enter_slot(session, key, ephemeral_pubkey);
    }
    match pin.take() {
        None => answer_ecdh(session, Err(EcdhError::NeedPin)),
        Some(pin) => (
            Worker::CheckingPin(session, key, ephemeral_pubkey),
            WorkerStep::Command(CardCommand::VerifyPin(pin)),
        ),
    }
}

fn continue_with_pin(
    session: Session,
    key: KeyRef,
    ephemeral_pubkey: PublicKey,
    outcome: Result<(), CardError>,
) -> (t: (Worker, WorkerStep))
    ensures
        (t.0@, t.1@) == pin_checked(session, key, ephemeral_pubkey@, outcome),
{
    match outcome {
        Ok(()) => enter_slot(
            Session { serial: session.serial, pin_verified: true },
            key,
            ephemeral_pubkey,
        ),
        Err(CardError::Pcsc) => answer_ecdh(session, Err(EcdhError::Disconnected)),
        Err(CardError::WrongPin { tries }) => answer_ecdh(
            session,
            Err(EcdhError::WrongPin { tries }),
        ),
        Err(CardError::PinLocked) => answer_ecdh(session, Err(EcdhError::PinLocked)),
        Err(CardError::Other) => answer_ecdh(session, Err(EcdhError::PinRejected)),
    }
}

fn continue_with_certificate(
    session: Session,
    key: KeyRef,
    ephemeral_pubkey: PublicKey,
    certificate: Result<SlotCertificate, CardError>,
) -> (t: (Worker, WorkerStep))
    ensures
        (t.0@, t.1@) == key_read(session, key, ephemeral_pubkey@, certificate),
{
    match read_slot_pubkey(certificate, key.slot, key.tag) {
        Ok(recipient_pubkey) => (
            Worker::Agreeing(session, key, recipient_pubkey),
            WorkerStep::Command(
                CardCommand::Decrypt {
                    slot: key.slot,
                    point: ephemeral_pubkey.to_encoded_point(false),
                },
            ),
        ),
        Err(e) => answer_ecdh(session, Err(e)),
    }
}

fn finish_ecdh(
    session: Session,
    recipient_pubkey: PublicKey,
    secret: Result<Vec<u8>, CardError>,
) -> (t: (Worker, WorkerStep))
    ensures
        (t.0@, t.1@) == secret_computed(session, recipient_pubkey@, secret),
{
    match secret {
        Ok(mut raw) => {
            let got: usize = raw.len();
            match take_array::<32>(&mut raw) {
                Some(shared_secret) => answer_ecdh(
                    session,
                    Ok(EcdhResponse { shared_secret, recipient_pubkey }),
                ),
                None => answer_ecdh(session, Err(EcdhError::SharedSecretLength { got })),
            }
        },
        Err(e) => {
            if is_session_fatal(&e) {
                answer_ecdh(session, Err(EcdhError::Disconnected))
            } else {
                answer_ecdh(session, Err(EcdhError::EcdhFailed))
            }
        },
    }
}

/// Serves an ECDH request with the session at hand, or refuses it without one. Either way the
/// PIN is gone afterwards.
pub fn serve_ecdh(
    session: Option<Session>,
    key: KeyRef,
    ephemeral_pubkey: PublicKey,
    pin: &mut Option<String>,
) -> (t: (Worker, WorkerStep))
    ensures
        (t.0@, t.1@) == served(
            session,
            (WorkerRequest::Ecdh { key, ephemeral_pubkey, pin: *old(pin) }),
        ),
        is_gone(*final(pin)),
{
    match session {
        Some(session) => handle_ecdh(session, key, ephemeral_pubkey, pin),
        None => {
            discard_pin(pin);
            (Worker::Idle(None), WorkerStep::EcdhReply(Err(EcdhError::Disconnected)))
        },
    }
}

/// Whether nothing of a request's PIN is left.
pub open spec fn is_spent(request: WorkerRequest) -> bool {
    request matches WorkerRequest::Ecdh { pin, .. } ==> is_gone(pin)
}

/// Serves a request with the session at hand, or refuses it without one. Afterwards the PIN of
/// the request is gone.
pub fn serve(session: Option<Session>, request: &mut WorkerRequest) -> (t: (Worker, WorkerStep))
    ensures
        (t.0@, t.1@) == served(session, *old(request)),
        is_spent(*final(request)),
{
    match request {
        WorkerRequest::ProbeKey(key) => match session {
            Some(session) => handle_probe_key(session, *key),
            None => (
                Worker::Idle(None),
                WorkerStep::ProbeKeyReply(ProbeKeyResult::ChipUnavailable),
            ),
        },
        WorkerRequest::Ecdh { key, ephemeral_pubkey, pin } => serve_ecdh(
            session,
            *key,
            *ephemeral_pubkey,
            pin,
        ),
    }
}

impl Worker {
    /// A worker without a session.
    pub fn new() -> (r: Worker)
        ensures
            r@ == WorkerView::Idle(None),
    {
        Worker::Idle(None)
    }

    /// Whether `event` is what the worker waits for.
    pub fn awaits(&self, event: &CardEvent) -> (r: bool)
        ensures
            r == awaits(self@, *event),
    {
        match self {
            Worker::Idle(_) => false,
            Worker::Opening(_) => matches!(event, CardEvent::Opened(_)),
            Worker::CheckingPin(_, _, _) => matches!(event, CardEvent::PinVerified(_)),
            Worker::Probing(_, _) => matches!(event, CardEvent::CertificateRead(_)),
            Worker::ReadingKey(_, _, _) => matches!(event, CardEvent::CertificateRead(_)),
            Worker::Agreeing(_, _, _) => matches!(event, CardEvent::Decrypted(_)),
        }
    }

    /// Takes up a request.
    pub fn accept(self, request: WorkerRequest) -> (t: (Worker, WorkerStep))
        requires
            self@ is Idle,
        ensures
            (t.0@, t.1@) == accepted(self@->Idle_0, request),
    {
        match self {
            Worker::Idle(Some(session)) => {
                let mut request = request;
                serve(Some(session), &mut request)
            },
            _ => (Worker::Opening(request), WorkerStep::Command(CardCommand::Open)),
        }
    }

    /// Goes on with a request after the card carried out the last command.
    pub fn resume(self, event: CardEvent) -> (t: (Worker, WorkerStep))
        requires
            awaits(self@, event),
        ensures
            (t.0@, t.1@) == resumed(self@, event),
    {
        match (self, event) {
            (Worker::Opening(mut request), CardEvent::Opened(opened)) => {
                match Session::new(opened) {
                    Ok(session) => serve(Some(session), &mut request),
                    Err(_) => serve(None, &mut request),
                }
            },
            (Worker::Probing(session, key), CardEvent::CertificateRead(certificate)) => {
                finish_probe_key(session, key, certificate)
            },
            (
                Worker::CheckingPin(session, key, ephemeral_pubkey),
                CardEvent::PinVerified(outcome),
            ) => continue_with_pin(session, key, ephemeral_pubkey, outcome),
            (
                Worker::ReadingKey(session, key, ephemeral_pubkey),
                CardEvent::CertificateRead(certificate),
            ) => continue_with_certificate(session, key, ephemeral_pubkey, certificate),
            (
                Worker::Agreeing(session, _, recipient_pubkey),
                CardEvent::Decrypted(secret),
            ) => finish_ecdh(session, recipient_pubkey, secret),
            _ => vstd::pervasive::unreached(),
        }
    }
}

/// How a request fared that was handed to the worker.
pub enum Delivery<T> {
    /// The worker no longer takes requests.
    NotSent,
    /// The worker took the request and never answered.
    Dropped,
    Answered(T),
}

/// What a client's probe is answered.
pub open spec fn probe_delivered(delivery: Delivery<ProbeKeyResult>) -> ProbeKeyResult {
    match delivery {
        Delivery::NotSent => ProbeKeyResult::WorkerExited,
        Delivery::Dropped => ProbeKeyResult::WorkerDropped,
        Delivery::Answered(answer) => answer,
    }
}

/// What a client's ECDH request is answered.
pub open spec fn ecdh_delivered(delivery: Delivery<EcdhResult>) -> EcdhResult {
    match delivery {
        Delivery::Answered(answer) => answer,
        _ => Err(EcdhError::Disconnected),
    }
}

/// What the daemon does about an event of its listener.
pub open spec fn listened(event: ListenerEvent) -> ListenerAction {
    match event {
        ListenerEvent::Connection => ListenerAction::Serve,
        ListenerEvent::AcceptError => ListenerAction::Ignore,
        _ => ListenerAction::Stop,
    }
}

/// The answer to a client's probe.
pub fn probe_key(delivery: Delivery<ProbeKeyResult>) -> (r: ProbeKeyResult)
    ensures
        r == probe_delivered(delivery),
{
    match delivery {
        Delivery::NotSent => ProbeKeyResult::WorkerExited,
        Delivery::Dropped => ProbeKeyResult::WorkerDropped,
        Delivery::Answered(answer) => answer,
    }
}

/// The answer to a client's ECDH request.
pub fn ecdh(delivery: Delivery<EcdhResult>) -> (r: EcdhResult)
    ensures
        r == ecdh_delivered(delivery),
{
    match delivery {
        Delivery::NotSent => Err(EcdhError::Disconnected),
        Delivery::Dropped => Err(EcdhError::Disconnected),
        Delivery::Answered(answer) => answer,
    }
}

/// What the daemon's listener waits for.
#[derive(Clone, Copy, Debug, PartialEq, Eq, Structural)]
pub enum ListenerEvent {
    Interrupt,
    Terminate,
    Connection,
    AcceptError,
    Closed,
}

/// What the daemon does about it.
#[derive(Clone, Copy, Debug, PartialEq, Eq, Structural)]
pub enum ListenerAction {
    /// Serve the new connection and go on.
    Serve,
    /// Go on.
    Ignore,
    /// Shut down.
    Stop,
}

/// Serves requests until SIGINT or SIGTERM: a failed accept does not end the daemon, a closed
/// listener does.
pub fn run(event: ListenerEvent) -> (r: ListenerAction)
    ensures
        r == listened(event),
{
    match event {
        ListenerEvent::Interrupt => ListenerAction::Stop,
        ListenerEvent::Terminate => ListenerAction::Stop,
        ListenerEvent::Connection => ListenerAction::Serve,
        ListenerEvent::AcceptError => ListenerAction::Ignore,
        ListenerEvent::Closed => ListenerAction::Stop,
    }
}

} // verus!
