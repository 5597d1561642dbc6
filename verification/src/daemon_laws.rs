//! What holds of the worker from one step to the next, and so of every run of it.
use vstd::prelude::*;

use crate::daemon::{
    CardCommand, CardError, CardEvent, KeyRef, Session, SlotCertificate, StepView, Worker,
    WorkerRequest, WorkerStep, WorkerView,
};
use crate::keys::PublicKey;
use crate::protocol::{EcdhError, EcdhResponse, EcdhResult, ProbeKeyResult};

verus! {

/// The session of a worker, if it has one.
pub open spec fn session_of(w: WorkerView) -> Option<Session> {
    match w {
        WorkerView::Idle(session) => session,
        WorkerView::Opening(_) => None,
        WorkerView::Probing(session, _) => Some(session),
        WorkerView::CheckingPin(session, _, _) => Some(session),
        WorkerView::ReadingKey(session, _, _) => Some(session),
        WorkerView::Agreeing(session, _, _) => Some(session),
    }
}

/// What a worker has established before it waits: the serial number is the one asked for,
/// the slot exists before its certificate is read, the PIN was verified before an ECDH goes
/// on, and the key that it is with has the tag asked for.
pub open spec fn well_formed(w: WorkerView) -> bool {
    match w {
        WorkerView::Idle(_) | WorkerView::Opening(_) => true,
        WorkerView::Probing(session, key) => {
            &&& session.serial == key.serial
            &&& crate::daemon::is_retired_slot(key.slot)
        },
        WorkerView::CheckingPin(session, key, _) => session.serial == key.serial,
        WorkerView::ReadingKey(session, key, _) => {
            &&& session.serial == key.serial
            &&& session.pin_verified
            &&& crate::daemon::is_retired_slot(key.slot)
        },
        WorkerView::Agreeing(session, key, recipient_pubkey) => {
            &&& session.serial == key.serial
            &&& session.pin_verified
            &&& crate::daemon::is_retired_slot(key.slot)
            &&& crate::daemon::recipient_tag(recipient_pubkey) == key.tag@
        },
    }
}

/// Whether a step is an answer.
pub open spec fn is_reply(step: StepView) -> bool {
    step is ProbeKeyReply || step is EcdhReply
}

/// Whether a step tells the client that the card was lost.
pub open spec fn is_disconnection(step: StepView) -> bool {
    ||| step == StepView::ProbeKeyReply(ProbeKeyResult::Disconnected)
    ||| step == StepView::EcdhReply(Err(EcdhError::Disconnected))
}

/// How many events from the card a worker waits for at most before it answers.
pub open spec fn events_ahead(w: WorkerView) -> nat {
    match w {
        WorkerView::Idle(_) => 0,
        WorkerView::Opening(_) => 4,
        WorkerView::CheckingPin(_, _, _) => 3,
        WorkerView::ReadingKey(_, _, _) => 2,
        WorkerView::Probing(_, _) | WorkerView::Agreeing(_, _, _) => 1,
    }
}

/// Whether a worker is busy with a probe.
pub open spec fn serves_probe(w: WorkerView) -> bool {
    match w {
        WorkerView::Opening(request) => request is ProbeKey,
        WorkerView::Probing(_, _) => true,
        _ => false,
    }
}

/// Every step keeps a worker well formed.
pub proof fn law_well_formed_kept(w: WorkerView, request: WorkerRequest, event: CardEvent)
    requires
        well_formed(w),
    ensures
        w is Idle ==> well_formed(crate::daemon::accepted(w->Idle_0, request).0),
        crate::daemon::awaits(w, event) ==> well_formed(crate::daemon::resumed(w, event).0),
{
}

/// The card multiplies only when serial, PIN, slot and tag have been verified: the session is
/// with the YubiKey that the request names, its PIN was verified, the slot exists, and the
/// certificate just read from that slot certifies the key that the tag names. What it
/// multiplies is the ephemeral key of the request.
pub proof fn law_ecdh_is_authorised(
    w: WorkerView,
    request: WorkerRequest,
    event: CardEvent,
    slot: u8,
    point: Seq<u8>,
)
    requires
        well_formed(w),
    ensures
        w is Idle ==> crate::daemon::accepted(w->Idle_0, request).1 !is Decrypt,
        crate::daemon::awaits(w, event) && crate::daemon::resumed(w, event).1
            == (StepView::Decrypt { slot, point }) ==> {
            &&& w matches WorkerView::ReadingKey(session, key, ephemeral_pubkey)
            &&& session.serial == key.serial
            &&& session.pin_verified
            &&& crate::daemon::is_retired_slot(slot)
            &&& slot == key.slot
            &&& event matches CardEvent::CertificateRead(certificate)
            &&& crate::daemon::slot_pubkey(certificate, slot, key.tag@) matches Ok(sec1)
            &&& crate::daemon::recipient_tag(sec1) == key.tag@
            &&& point == crate::keys::p256_uncompressed(ephemeral_pubkey)
        },
{
}

/// A successful answer holds what the card computed, and the key that it computed with, whose
/// tag is the one that the request names.
pub proof fn law_answer_is_the_cards(
    w: WorkerView,
    event: CardEvent,
    response: crate::protocol::EcdhResponseView,
)
    requires
        well_formed(w),
        crate::daemon::awaits(w, event),
        crate::daemon::resumed(w, event).1 == StepView::EcdhReply(Ok(response)),
    ensures
        w matches WorkerView::Agreeing(session, key, recipient_pubkey) && {
            &&& response.recipient_pubkey == recipient_pubkey
            &&& crate::daemon::recipient_tag(response.recipient_pubkey) == key.tag@
            &&& event matches CardEvent::Decrypted(Ok(raw))
            &&& raw@.len() == 32
            &&& response.shared_secret == raw@
        },
{
}

/// If the serial number is that of the connected YubiKey, the slot exists and its certificate
/// certifies the key that the tag names, then a probe matches. An ECDH request for that key
/// succeeds, once the PIN was verified, if the card computes a shared secret of the right
/// length: one certificate is read, one point multiplied, and the session is kept.
pub proof fn law_matching_key_agrees(
    session: Session,
    key: KeyRef,
    ephemeral_pubkey: crate::keys::PublicKey,
    pin: Option<String>,
    certificate: Result<SlotCertificate, CardError>,
    raw: Vec<u8>,
)
    requires
        session.serial == key.serial,
        session.pin_verified,
        crate::daemon::is_retired_slot(key.slot),
        crate::daemon::slot_pubkey(certificate, key.slot, key.tag@) is Ok,
        raw@.len() == 32,
    ensures
        ({
            let recipient_pubkey = crate::daemon::slot_pubkey(
                certificate,
                key.slot,
                key.tag@,
            )->Ok_0;
            let first = crate::daemon::accepted(
                Some(session),
                WorkerRequest::Ecdh { key, ephemeral_pubkey, pin },
            );
            let second = crate::daemon::resumed(first.0, CardEvent::CertificateRead(certificate));
            let third = crate::daemon::resumed(second.0, CardEvent::Decrypted(Ok(raw)));
            let probe = crate::daemon::accepted(Some(session), WorkerRequest::ProbeKey(key));
            let probed = crate::daemon::resumed(probe.0, CardEvent::CertificateRead(certificate));
            &&& first.1 == StepView::ReadCertificate(key.slot)
            &&& second.1 == (StepView::Decrypt {
                slot: key.slot,
                point: crate::keys::p256_uncompressed(ephemeral_pubkey@),
            })
            &&& third.0 == WorkerView::Idle(Some(session))
            &&& third.1 == StepView::EcdhReply(
                Ok(
                    crate::protocol::EcdhResponseView {
                        shared_secret: raw@,
                        recipient_pubkey,
                    },
                ),
            )
            &&& probe.1 == StepView::ReadCertificate(key.slot)
            &&& probed.0 == WorkerView::Idle(Some(session))
            &&& probed.1 == StepView::ProbeKeyReply(ProbeKeyResult::Match)
        }),
{
}

/// A probe is answered with a match only if the serial number is that of the connected YubiKey,
/// the slot exists and its certificate certifies the key that the tag names.
pub proof fn law_match_means_the_key(w: WorkerView, event: CardEvent)
    requires
        well_formed(w),
        crate::daemon::awaits(w, event),
        crate::daemon::resumed(w, event).1 == StepView::ProbeKeyReply(ProbeKeyResult::Match),
    ensures
        w matches WorkerView::Probing(session, key) && {
            &&& session.serial == key.serial
            &&& crate::daemon::is_retired_slot(key.slot)
            &&& event matches CardEvent::CertificateRead(Ok(certificate))
            &&& crate::daemon::slot_pubkey(Ok(certificate), key.slot, key.tag@) is Ok
        },
{
}

/// A probe needs no PIN and no touch: serving it never asks the card to check a PIN or to
/// multiply, and every state on the way serves the probe.
pub proof fn law_probe_needs_no_pin(w: WorkerView, key: KeyRef, event: CardEvent)
    ensures
        w is Idle ==> {
            let (next, step) = crate::daemon::accepted(w->Idle_0, WorkerRequest::ProbeKey(key));
            step !is VerifyPin && step !is Decrypt && (serves_probe(next) || is_reply(step))
        },
        serves_probe(w) && crate::daemon::awaits(w, event) ==> {
            let (next, step) = crate::daemon::resumed(w, event);
            step !is VerifyPin && step !is Decrypt && (serves_probe(next) || is_reply(step))
        },
{
}

/// Once verified, the PIN stays verified for the lifetime of the session: a step keeps the
/// session as it is or drops it, and an ECDH request on it needs no PIN.
pub proof fn law_pin_verification_lasts(
    w: WorkerView,
    session: Session,
    request: WorkerRequest,
    event: CardEvent,
)
    requires
        session_of(w) == Some(session),
        session.pin_verified,
    ensures
        w is Idle ==> {
            let (next, step) = crate::daemon::accepted(w->Idle_0, request);
            &&& session_of(next) == Some(session)
            &&& step !is VerifyPin
            &&& step != StepView::EcdhReply(Err(EcdhError::NeedPin))
        },
        crate::daemon::awaits(w, event) ==> {
            let (next, step) = crate::daemon::resumed(w, event);
            &&& session_of(next) is Some ==> session_of(next) == Some(session)
            &&& step !is VerifyPin
            &&& step != StepView::EcdhReply(Err(EcdhError::NeedPin))
        },
{
}

/// Only the card verifies a PIN: a session becomes verified when the card has just accepted the
/// PIN on it, and no other way.
pub proof fn law_only_the_card_verifies(
    w: WorkerView,
    session: Session,
    request: WorkerRequest,
    event: CardEvent,
)
    requires
        session.pin_verified,
        session_of(w) != Some(session),
    ensures
        w is Idle ==> session_of(crate::daemon::accepted(w->Idle_0, request).0) != Some(session),
        crate::daemon::awaits(w, event) && session_of(crate::daemon::resumed(w, event).0) == Some(
            session,
        ) ==> {
            &&& w is CheckingPin
            &&& event matches CardEvent::PinVerified(Ok(_))
            &&& session_of(w) == Some(Session { serial: session.serial, pin_verified: false })
        },
{
}

/// A session that the worker opens has no PIN verified: the first ECDH request on it needs one.
pub proof fn law_new_session_needs_pin(
    w: WorkerView,
    key: KeyRef,
    ephemeral_pubkey: crate::keys::PublicKey,
    event: CardEvent,
)
    requires
        w == WorkerView::Opening(
            WorkerRequest::Ecdh { key, ephemeral_pubkey, pin: None },
        ),
        event == CardEvent::Opened(Ok(Some(key.serial))),
    ensures
        crate::daemon::resumed(w, event) == (
            WorkerView::Idle(Some(Session { serial: key.serial, pin_verified: false })),
            StepView::EcdhReply(
                Err::<crate::protocol::EcdhResponseView, _>(EcdhError::NeedPin),
            ),
        ),
{
}

/// A worker with a session keeps it until it tells a client that the card was lost, and drops
/// it then; the next request opens the card anew.
pub proof fn law_session_dropped_on_disconnection(
    w: WorkerView,
    request: WorkerRequest,
    event: CardEvent,
)
    requires
        session_of(w) is Some,
    ensures
        w is Idle ==> session_of(crate::daemon::accepted(w->Idle_0, request).0) is Some,
        crate::daemon::awaits(w, event) ==> {
            let (next, step) = crate::daemon::resumed(w, event);
            session_of(next) is None <==> is_disconnection(step)
        },
        crate::daemon::accepted(None, request) == (WorkerView::Opening(request), StepView::Open),
{
}

/// Every request is answered, after at most four commands to the card: a step is an answer
/// exactly when the worker is idle again, and every event brings the answer nearer.
pub proof fn law_every_request_is_answered(w: WorkerView, request: WorkerRequest, event: CardEvent)
    ensures
        w is Idle ==> {
            let (next, step) = crate::daemon::accepted(w->Idle_0, request);
            &&& is_reply(step) <==> next is Idle
            &&& events_ahead(next) <= 4
        },
        crate::daemon::awaits(w, event) ==> {
            let (next, step) = crate::daemon::resumed(w, event);
            &&& is_reply(step) <==> next is Idle
            &&& events_ahead(next) < events_ahead(w)
        },
{
}

/// Whether a worker is busy with an ECDH request.
pub open spec fn serves_ecdh(w: WorkerView) -> bool {
    match w {
        WorkerView::Opening(request) => request is Ecdh,
        WorkerView::CheckingPin(_, _, _) | WorkerView::ReadingKey(_, _, _)
        | WorkerView::Agreeing(_, _, _) => true,
        _ => false,
    }
}

/// A probe gets the answer to a probe and an ECDH request that to an ECDH.
pub proof fn law_answer_fits_request(w: WorkerView, request: WorkerRequest, event: CardEvent)
    ensures
        w is Idle ==> {
            let (next, step) = crate::daemon::accepted(w->Idle_0, request);
            &&& request is ProbeKey ==> serves_probe(next) || step is ProbeKeyReply
            &&& request is Ecdh ==> serves_ecdh(next) || step is EcdhReply
        },
        crate::daemon::awaits(w, event) ==> {
            let (next, step) = crate::daemon::resumed(w, event);
            &&& serves_probe(w) ==> serves_probe(next) || step is ProbeKeyReply
            &&& serves_ecdh(w) ==> serves_ecdh(next) || step is EcdhReply
        },
{
}

/// The PIN of a request is not kept: it goes to the card at most once, with the step that takes
/// the request up or the one after opening, and no later state holds it.
pub proof fn law_pin_is_not_kept(w: WorkerView, request: WorkerRequest, event: CardEvent)
    ensures
        w is Idle ==> (crate::daemon::accepted(w->Idle_0, request).1 matches StepView::VerifyPin(
            pin,
        ) ==> {
            &&& crate::daemon::accepted(w->Idle_0, request).0 !is Opening
            &&& request matches WorkerRequest::Ecdh { key, ephemeral_pubkey, pin: Some(given) }
            &&& pin == given@
        }),
        crate::daemon::awaits(w, event) ==> crate::daemon::resumed(w, event).0 !is Opening,
        crate::daemon::awaits(w, event) ==> (crate::daemon::resumed(
            w,
            event,
        ).1 matches StepView::VerifyPin(pin) ==> {
            &&& w matches WorkerView::Opening(request)
            &&& request matches WorkerRequest::Ecdh { key, ephemeral_pubkey, pin: Some(given) }
            &&& pin == given@
        }),
{
}

/// The key of a slot is accepted exactly if the certificate there was read, certifies a P-256 key
/// that is a point of the curve, whichever it is, and the SHA-256 digest of its compressed form
/// begins with the four bytes of the tag. Each error has its one cause: a lost connection, a
/// certificate that cannot be read, a key of another kind, a point that is no key, another tag.
pub proof fn law_slot_key_is_accepted_by_its_tag(
    certificate: Result<SlotCertificate, CardError>,
    slot: u8,
    tag: Seq<u8>,
    r: Result<PublicKey, EcdhError>,
)
    requires
        crate::daemon::key_view(r) == crate::daemon::slot_pubkey(certificate, slot, tag),
    ensures
        r == Err::<PublicKey, _>(EcdhError::Disconnected) <==> certificate == Err::<
            SlotCertificate,
            _,
        >(CardError::Pcsc),
        r == Err::<PublicKey, _>(EcdhError::CertRead(slot)) <==> (certificate matches Err(c) && c
            != CardError::Pcsc),
        r == Err::<PublicKey, _>(EcdhError::CertNotP256(slot)) <==> (certificate matches Ok(
            SlotCertificate::Other,
        )),
        r == Err::<PublicKey, _>(EcdhError::CertInvalidKey) <==> (certificate matches Ok(
            SlotCertificate::EcP256(point),
        ) && crate::keys::p256_point(point@) is None),
        r == Err::<PublicKey, _>(EcdhError::TagMismatch { slot }) <==> (certificate matches Ok(
            SlotCertificate::EcP256(point),
        ) && crate::keys::p256_point(point@) matches Some(sec1) && crate::crypto::sha256(sec1).take(
            4,
        ) != tag),
        r is Ok <==> (certificate matches Ok(SlotCertificate::EcP256(point))
            && crate::keys::p256_point(point@) matches Some(sec1) && crate::crypto::sha256(
            sec1,
        ).take(4) == tag),
        r matches Ok(key) ==> certificate matches Ok(SlotCertificate::EcP256(point))
            && crate::keys::p256_point(point@) == Some(key@),
{
}

/// A request is served with the session that there is. Without one the card is opened first, and
/// the session is then new: with the serial number that the card has, and no PIN verified.
pub proof fn law_request_gets_a_session(
    session: Session,
    request: WorkerRequest,
    serial: u32,
    e: CardError,
    next: Worker,
    step: WorkerStep,
)
    ensures
        (next@, step@) == crate::daemon::accepted(Worker::Idle(None)@->Idle_0, request) ==> next
            == Worker::Opening(request) && step == WorkerStep::Command(CardCommand::Open),
        crate::daemon::accepted(Worker::Idle(Some(session))@->Idle_0, request)
            == crate::daemon::served(Some(session), request),
        crate::daemon::resumed(Worker::Opening(request)@, CardEvent::Opened(Ok(Some(serial))))
            == crate::daemon::served(Some(Session { serial, pin_verified: false }), request),
        crate::daemon::resumed(Worker::Opening(request)@, CardEvent::Opened(Ok(None)))
            == crate::daemon::served(None, request),
        crate::daemon::resumed(Worker::Opening(request)@, CardEvent::Opened(Err(e)))
            == crate::daemon::served(None, request),
        request matches WorkerRequest::ProbeKey(key) ==> crate::daemon::probe_begun(session, key)
            == crate::daemon::served(Some(session), request),
        request matches WorkerRequest::Ecdh { key, ephemeral_pubkey, pin } ==> (
        crate::daemon::ecdh_begun(
            session,
            key,
            ephemeral_pubkey@,
            match pin {
                Some(pin) => Some(pin@),
                None => None,
            },
        ) == crate::daemon::served(Some(session), request) && crate::daemon::pin_view(pin) == (
        match pin {
            Some(pin) => Some(pin@),
            None => None,
        })),
{
}

/// Without a session a probe is told that the YubiKey is not available, and an ECDH request that
/// it is disconnected, whatever they ask for.
pub proof fn law_no_session_no_service(request: WorkerRequest, next: Worker, step: WorkerStep)
    requires
        (next@, step@) == crate::daemon::served(None, request),
    ensures
        next == Worker::Idle(None),
        request is ProbeKey ==> step == WorkerStep::ProbeKeyReply(ProbeKeyResult::ChipUnavailable),
        request is Ecdh ==> (step matches WorkerStep::EcdhReply(Err(e)) && e
            == EcdhError::Disconnected),
{
}

/// A probe of another serial number is a mismatch, a slot outside 0x82 to 0x95 is invalid, and for
/// every other probe the certificate of the slot asked for is read; none is refused otherwise,
/// and the session stays.
pub proof fn law_probe_reads_the_slot_asked_for(
    session: Session,
    key: KeyRef,
    next: Worker,
    step: WorkerStep,
)
    requires
        (next@, step@) == crate::daemon::served(Some(session), WorkerRequest::ProbeKey(key)),
    ensures
        session.serial != key.serial ==> {
            &&& step == WorkerStep::ProbeKeyReply(ProbeKeyResult::SerialMismatch)
            &&& next == Worker::Idle(Some(session))
        },
        session.serial == key.serial && !(0x82 <= key.slot <= 0x95) ==> {
            &&& step == WorkerStep::ProbeKeyReply(ProbeKeyResult::InvalidSlot(key.slot))
            &&& next == Worker::Idle(Some(session))
        },
        session.serial == key.serial && 0x82 <= key.slot <= 0x95 ==> {
            &&& step == WorkerStep::Command(CardCommand::ReadCertificate(key.slot))
            &&& next == Worker::Probing(session, key)
        },
{
}

/// A probe's answer is a match exactly if the key of the slot was accepted, a disconnection
/// exactly if the connection was lost, and else names the error found. Only a lost connection
/// drops the session.
pub proof fn law_probe_answers_what_the_slot_holds(
    session: Session,
    key: KeyRef,
    certificate: Result<SlotCertificate, CardError>,
    found: Result<PublicKey, EcdhError>,
    next: Worker,
    step: WorkerStep,
)
    requires
        crate::daemon::key_view(found) == crate::daemon::slot_pubkey(
            certificate,
            key.slot,
            key.tag@,
        ),
        (next@, step@) == crate::daemon::resumed(
            Worker::Probing(session, key)@,
            CardEvent::CertificateRead(certificate),
        ),
    ensures
        certificate == Err::<SlotCertificate, _>(CardError::Pcsc) ==> {
            &&& step == WorkerStep::ProbeKeyReply(ProbeKeyResult::Disconnected)
            &&& next == Worker::Idle(None)
        },
        found is Ok ==> {
            &&& step == WorkerStep::ProbeKeyReply(ProbeKeyResult::Match)
            &&& next == Worker::Idle(Some(session))
        },
        found matches Err(e) ==> (certificate != Err::<SlotCertificate, _>(CardError::Pcsc) ==> {
            &&& step == WorkerStep::ProbeKeyReply(ProbeKeyResult::SlotCheck(e))
            &&& next == Worker::Idle(Some(session))
        }),
{
}

/// An ECDH request of another serial number is a mismatch, whatever its PIN. On a session without
/// a verified PIN, one without a PIN is told that it needs one, and every PIN given goes to the
/// card as it is. On a verified session, no PIN is looked at: a slot outside 0x82 to 0x95 is
/// invalid, and for every other the certificate of the slot asked for is read.
pub proof fn law_every_pin_goes_to_the_card(
    session: Session,
    key: KeyRef,
    ephemeral_pubkey: PublicKey,
    pin: Option<String>,
    next: Worker,
    step: WorkerStep,
)
    requires
        (next@, step@) == crate::daemon::served(
            Some(session),
            (WorkerRequest::Ecdh { key, ephemeral_pubkey, pin }),
        ),
    ensures
        session.serial != key.serial ==> {
            &&& step matches WorkerStep::EcdhReply(Err(e))
            &&& e == EcdhError::SerialMismatch
            &&& next == Worker::Idle(Some(session))
        },
        session.serial == key.serial && !session.pin_verified && pin is None ==> {
            &&& step matches WorkerStep::EcdhReply(Err(e))
            &&& e == EcdhError::NeedPin
            &&& next == Worker::Idle(Some(session))
        },
        session.serial == key.serial && !session.pin_verified ==> (pin matches Some(given) ==> {
            &&& step matches WorkerStep::Command(CardCommand::VerifyPin(sent))
            &&& sent@ == given@
            &&& next matches Worker::CheckingPin(s, k, pk)
            &&& s == session
            &&& k == key
            &&& pk@ == ephemeral_pubkey@
        }),
        session.serial == key.serial && session.pin_verified && !(0x82 <= key.slot <= 0x95) ==> {
            &&& step matches WorkerStep::EcdhReply(Err(e))
            &&& e == EcdhError::InvalidSlot(key.slot)
            &&& next == Worker::Idle(Some(session))
        },
        session.serial == key.serial && session.pin_verified && 0x82 <= key.slot <= 0x95 ==> {
            &&& step == WorkerStep::Command(CardCommand::ReadCertificate(key.slot))
            &&& next matches Worker::ReadingKey(s, k, pk)
            &&& s == session
            &&& k == key
            &&& pk@ == ephemeral_pubkey@
        },
{
}

/// After the card accepted a PIN the session is verified, and the request goes on to its slot. A
/// PIN that the card refused is answered with the card's reason, and the session stays as it
/// was; a lost connection drops it.
pub proof fn law_the_card_decides_on_the_pin(
    session: Session,
    key: KeyRef,
    ephemeral_pubkey: PublicKey,
    outcome: Result<(), CardError>,
    next: Worker,
    step: WorkerStep,
)
    requires
        (next@, step@) == crate::daemon::resumed(
            Worker::CheckingPin(session, key, ephemeral_pubkey)@,
            CardEvent::PinVerified(outcome),
        ),
    ensures
        outcome is Ok && !(0x82 <= key.slot <= 0x95) ==> {
            &&& step matches WorkerStep::EcdhReply(Err(e))
            &&& e == EcdhError::InvalidSlot(key.slot)
            &&& next == Worker::Idle(Some(Session { serial: session.serial, pin_verified: true }))
        },
        outcome is Ok && 0x82 <= key.slot <= 0x95 ==> {
            &&& step == WorkerStep::Command(CardCommand::ReadCertificate(key.slot))
            &&& next matches Worker::ReadingKey(s, k, pk)
            &&& s == (Session { serial: session.serial, pin_verified: true })
            &&& k == key
            &&& pk@ == ephemeral_pubkey@
        },
        outcome matches Err(c) ==> {
            &&& step matches WorkerStep::EcdhReply(Err(e))
            &&& c == CardError::Pcsc <==> e == EcdhError::Disconnected
            &&& c matches CardError::WrongPin { tries } ==> e == (EcdhError::WrongPin { tries })
            &&& c == CardError::PinLocked ==> e == EcdhError::PinLocked
            &&& c == CardError::Other ==> e == EcdhError::PinRejected
            &&& c == CardError::Pcsc ==> next == Worker::Idle(None)
            &&& c != CardError::Pcsc ==> next == Worker::Idle(Some(session))
        },
{
}

/// A PIN is called wrong, locked or rejected only after the card refused it so.
pub proof fn law_only_the_card_refuses_a_pin(
    w: WorkerView,
    request: WorkerRequest,
    event: CardEvent,
    tries: u8,
)
    ensures
        w is Idle ==> {
            let step = crate::daemon::accepted(w->Idle_0, request).1;
            &&& step != StepView::EcdhReply(Err(EcdhError::PinRejected))
            &&& step != StepView::EcdhReply(Err(EcdhError::PinLocked))
            &&& step != StepView::EcdhReply(Err(EcdhError::WrongPin { tries }))
        },
        crate::daemon::awaits(w, event) ==> {
            let step = crate::daemon::resumed(w, event).1;
            &&& step == StepView::EcdhReply(Err(EcdhError::PinRejected)) ==> (
            event matches CardEvent::PinVerified(Err(c)) && c == CardError::Other)
            &&& step == StepView::EcdhReply(Err(EcdhError::PinLocked)) ==> (
            event matches CardEvent::PinVerified(Err(c)) && c == CardError::PinLocked)
            &&& step == StepView::EcdhReply(Err(EcdhError::WrongPin { tries })) ==> (
            event matches CardEvent::PinVerified(Err(c)) && c == (CardError::WrongPin { tries }))
        },
{
}

/// With every key that the slot check accepts the card multiplies the request's ephemeral key,
/// uncompressed, in the slot asked for. Each other outcome of the check is the answer, and only
/// a lost connection drops the session.
pub proof fn law_accepted_key_is_multiplied(
    session: Session,
    key: KeyRef,
    ephemeral_pubkey: PublicKey,
    certificate: Result<SlotCertificate, CardError>,
    found: Result<PublicKey, EcdhError>,
    next: Worker,
    step: WorkerStep,
)
    requires
        crate::daemon::key_view(found) == crate::daemon::slot_pubkey(
            certificate,
            key.slot,
            key.tag@,
        ),
        (next@, step@) == crate::daemon::resumed(
            Worker::ReadingKey(session, key, ephemeral_pubkey)@,
            CardEvent::CertificateRead(certificate),
        ),
    ensures
        found matches Ok(recipient_pubkey) ==> {
            &&& step matches WorkerStep::Command(CardCommand::Decrypt { slot, point })
            &&& slot == key.slot
            &&& point@ == crate::keys::p256_uncompressed(ephemeral_pubkey@)
            &&& next matches Worker::Agreeing(s, k, pk)
            &&& s == session
            &&& k == key
            &&& pk@ == recipient_pubkey@
        },
        found matches Err(e) ==> {
            &&& step matches WorkerStep::EcdhReply(Err(answer))
            &&& answer == e
            &&& e == EcdhError::Disconnected ==> next == Worker::Idle(None)
            &&& e != EcdhError::Disconnected ==> next == Worker::Idle(Some(session))
        },
{
}

/// Every shared secret of 32 bytes that the card computes is handed on as it is, with the
/// recipient's key. One of another length is refused with that length, a lost connection drops
/// the session, and any other failure of the card is a failed ECDH.
pub proof fn law_every_secret_is_handed_on(
    session: Session,
    key: KeyRef,
    recipient_pubkey: PublicKey,
    secret: Result<Vec<u8>, CardError>,
    next: Worker,
    step: WorkerStep,
)
    requires
        (next@, step@) == crate::daemon::resumed(
            Worker::Agreeing(session, key, recipient_pubkey)@,
            CardEvent::Decrypted(secret),
        ),
    ensures
        step is EcdhReply,
        secret matches Ok(raw) ==> (raw@.len() == 32 ==> {
            &&& step matches WorkerStep::EcdhReply(Ok(response))
            &&& response.shared_secret@ == raw@
            &&& response.recipient_pubkey@ == recipient_pubkey@
            &&& next == Worker::Idle(Some(session))
        }),
        secret matches Ok(raw) ==> (raw@.len() != 32 ==> {
            &&& step matches WorkerStep::EcdhReply(Err(e))
            &&& e == (EcdhError::SharedSecretLength { got: raw@.len() as usize })
            &&& next == Worker::Idle(Some(session))
        }),
        secret == Err::<Vec<u8>, _>(CardError::Pcsc) ==> {
            &&& step matches WorkerStep::EcdhReply(Err(e))
            &&& e == EcdhError::Disconnected
            &&& next == Worker::Idle(None)
        },
        secret matches Err(c) ==> (c != CardError::Pcsc ==> {
            &&& step matches WorkerStep::EcdhReply(Err(e))
            &&& e == EcdhError::EcdhFailed
            &&& next == Worker::Idle(Some(session))
        }),
{
}

/// Whether an event says what came of a command.
pub open spec fn comes_of(command: CardCommand, event: CardEvent) -> bool {
    match command {
        CardCommand::Open => event is Opened,
        CardCommand::VerifyPin(_) => event is PinVerified,
        CardCommand::ReadCertificate(_) => event is CertificateRead,
        CardCommand::Decrypt { .. } => event is Decrypted,
    }
}

/// A worker that gave the card a command waits for what comes of it, whatever that is, and for
/// nothing else; an idle worker waits for no card.
pub proof fn law_what_comes_of_a_command_is_awaited(
    worker: Worker,
    request: WorkerRequest,
    event: CardEvent,
    next: Worker,
    command: CardCommand,
    reply: CardEvent,
)
    requires
        ({
            let step = WorkerStep::Command(command);
            ||| worker@ is Idle && (next@, step@) == crate::daemon::accepted(
                worker@->Idle_0,
                request,
            )
            ||| crate::daemon::awaits(worker@, event) && (next@, step@) == crate::daemon::resumed(
                worker@,
                event,
            )
        }),
    ensures
        crate::daemon::awaits(next@, reply) <==> comes_of(command, reply),
        !crate::daemon::awaits(Worker::Idle(session_of(next@))@, reply),
{
}

/// A client gets the worker's answer, whatever it is. Where there is none, a probe is told which
/// end failed, and an ECDH request that the card is disconnected.
pub proof fn law_client_gets_the_workers_answer(probe: ProbeKeyResult, ecdh: EcdhResult)
    ensures
        crate::daemon::probe_delivered(crate::daemon::Delivery::Answered(probe)) == probe,
        crate::daemon::probe_delivered(crate::daemon::Delivery::NotSent)
            == ProbeKeyResult::WorkerExited,
        crate::daemon::probe_delivered(crate::daemon::Delivery::Dropped)
            == ProbeKeyResult::WorkerDropped,
        crate::daemon::ecdh_delivered(crate::daemon::Delivery::Answered(ecdh)) == ecdh,
        crate::daemon::ecdh_delivered(crate::daemon::Delivery::NotSent) == Err::<
            EcdhResponse,
            _,
        >(EcdhError::Disconnected),
        crate::daemon::ecdh_delivered(crate::daemon::Delivery::Dropped) == Err::<
            EcdhResponse,
            _,
        >(EcdhError::Disconnected),
{
}

/// A connection is served, a failed accept ignored, and a signal or a closed listener ends the
/// daemon.
pub proof fn law_signals_end_the_daemon(event: crate::daemon::ListenerEvent)
    ensures
        crate::daemon::listened(event) is Serve <==> event is Connection,
        crate::daemon::listened(event) is Ignore <==> event is AcceptError,
        crate::daemon::listened(event) is Stop <==> event is Interrupt || event is Terminate
            || event is Closed,
{
}

/// Nothing of a PIN that is gone is left to read, in a request or outside one.
pub proof fn law_gone_pin_is_empty(
    pin: Option<String>,
    key: KeyRef,
    ephemeral_pubkey: PublicKey,
)
    ensures
        crate::daemon::is_gone(pin) ==> pin is None || pin->0@.len() == 0,
        crate::daemon::is_spent(WorkerRequest::Ecdh { key, ephemeral_pubkey, pin }) ==> pin is None
            || pin->0@.len() == 0,
{
}

} // verus!
