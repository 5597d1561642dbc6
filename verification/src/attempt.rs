//! One attempt to open a stanza through the daemon: probe first, then ECDH, asking for the
//! PIN only when the daemon needs it.
//!
//! The daemon and the user are outside. Each step names what to ask of them; their answer comes
//! back as an event.
use vstd::prelude::*;

use crate::daemon::KeyRef;
use crate::keys::PublicKey;
use crate::plugin::{Candidate, IdentityError};
use crate::protocol::{EcdhError, EcdhResponse, EcdhResult, ProbeKeyResult};
use crate::stanza::{FileKey, Stanza};
use crate::text::{decimal_text, joined};

verus! {

/// Outcome of a single decryption attempt for one candidate.
pub enum DecryptResult {
    /// File key successfully unwrapped.
    Decrypted(FileKey),
    /// ECDH succeeded but AEAD verification failed: wrong key or tampered ciphertext.
    AeadFailed,
    /// The daemon's YubiKey is not the one that this candidate needs. Not an error.
    SerialMismatch,
    /// A reportable error (PIN rejected, chip unavailable, etc.).
    Failed(IdentityError),
}

/// A [`DecryptResult`] as plain sequences.
pub enum DecryptView {
    Decrypted(Seq<u8>),
    AeadFailed,
    SerialMismatch,
    Failed(crate::plugin::IdentityErrorView),
}

impl View for DecryptResult {
    type V = DecryptView;

    open spec fn view(&self) -> DecryptView {
        match *self {
            DecryptResult::Decrypted(key) => DecryptView::Decrypted(key@),
            DecryptResult::AeadFailed => DecryptView::AeadFailed,
            DecryptResult::SerialMismatch => DecryptView::SerialMismatch,
            DecryptResult::Failed(e) => DecryptView::Failed(e@),
        }
    }
}

/// Where an attempt stands.
pub enum Attempt {
    /// Waiting for the answer to the probe.
    Probing,
    /// Waiting for the answer to an ECDH request without a PIN.
    Agreeing,
    /// Waiting for the PIN.
    AskingPin,
    /// Telling the user to touch the YubiKey, with the PIN at hand.
    Announcing(String),
    /// Waiting for the answer to an ECDH request with the PIN.
    AgreeingWithPin,
    /// Over.
    Ended,
}

/// An [`Attempt`] with the PIN as a sequence of characters.
pub enum AttemptView {
    Probing,
    Agreeing,
    AskingPin,
    Announcing(Seq<char>),
    AgreeingWithPin,
    Ended,
}

impl View for Attempt {
    type V = AttemptView;

    open spec fn view(&self) -> AttemptView {
        match *self {
            Attempt::Probing => AttemptView::Probing,
            Attempt::Agreeing => AttemptView::Agreeing,
            Attempt::AskingPin => AttemptView::AskingPin,
            Attempt::Announcing(pin) => AttemptView::Announcing(pin@),
            Attempt::AgreeingWithPin => AttemptView::AgreeingWithPin,
            Attempt::Ended => AttemptView::Ended,
        }
    }
}

/// What came of asking the user for the PIN.
pub enum SecretReply {
    Given(String),
    /// The user gave none.
    Declined,
    /// The pipe to age is broken.
    Broken,
}

/// An answer of the daemon or the user. Where a call to the daemon failed, the text of the
/// error stands in place of the answer.
pub enum AttemptEvent {
    Probed(Result<ProbeKeyResult, String>),
    Agreed(Result<EcdhResult, String>),
    Secret(SecretReply),
    Announced,
}

/// What to do next.
pub enum AttemptAction {
    ProbeKey(KeyRef),
    Ecdh { key: KeyRef, ephemeral_pubkey: PublicKey, pin: Option<String> },
    /// Ask the user for a secret, with a prompt.
    RequestSecret(String),
    /// Show the user a message.
    Message(String),
    Finish(DecryptResult),
    /// Give up the whole run.
    Abort,
}

/// An [`AttemptAction`] as plain sequences.
pub enum ActionView {
    ProbeKey { serial: u32, slot: u8, tag: Seq<u8> },
    Ecdh {
        serial: u32,
        slot: u8,
        tag: Seq<u8>,
        ephemeral_pubkey: Seq<u8>,
        pin: Option<Seq<char>>,
    },
    RequestSecret(Seq<char>),
    Message(Seq<char>),
    Finish(DecryptView),
    Abort,
}

impl View for AttemptAction {
    type V = ActionView;

    open spec fn view(&self) -> ActionView {
        match *self {
            AttemptAction::ProbeKey(key) => ActionView::ProbeKey {
                serial: key.serial,
                slot: key.slot,
                tag: key.tag@,
            },
            AttemptAction::Ecdh { key, ephemeral_pubkey, pin } => ActionView::Ecdh {
                serial: key.serial,
                slot: key.slot,
                tag: key.tag@,
                ephemeral_pubkey: ephemeral_pubkey@,
                pin: crate::daemon::pin_view(pin),
            },
            AttemptAction::RequestSecret(prompt) => ActionView::RequestSecret(prompt@),
            AttemptAction::Message(text) => ActionView::Message(text@),
            AttemptAction::Finish(result) => ActionView::Finish(result@),
            AttemptAction::Abort => ActionView::Abort,
        }
    }
}

/// An attempt and what to do next.
pub type Move = (AttemptView, ActionView);

/// The end of an attempt.
pub open spec fn finished(result: DecryptView) -> Move {
    (AttemptView::Ended, ActionView::Finish(result))
}

/// The end of an attempt that an identity's YubiKey prevented.
pub open spec fn identity_failed(
    candidate: crate::plugin::CandidateView,
    message: Seq<char>,
) -> Move {
    finished(
        DecryptView::Failed(
            crate::plugin::IdentityErrorView::Identity {
                index: candidate.identity_index,
                message,
            },
        ),
    )
}

/// The end of an attempt whose call to the daemon failed.
pub open spec fn rpc_failed(error: Seq<char>) -> Move {
    finished(
        DecryptView::Failed(
            crate::plugin::IdentityErrorView::Internal { message: "Daemon RPC error: "@ + error },
        ),
    )
}

/// The first thing to do: probe the daemon for the candidate's key.
pub open spec fn begun(candidate: crate::plugin::CandidateView) -> Move {
    (
        AttemptView::Probing,
        ActionView::ProbeKey {
            serial: candidate.serial,
            slot: candidate.slot,
            tag: candidate.tag,
        },
    )
}

/// The ECDH request for a candidate.
pub open spec fn ecdh_request(
    candidate: crate::plugin::CandidateView,
    pin: Option<Seq<char>>,
) -> ActionView {
    ActionView::Ecdh {
        serial: candidate.serial,
        slot: candidate.slot,
        tag: candidate.tag,
        ephemeral_pubkey: candidate.parsed.ephemeral_pubkey,
        pin,
    }
}

/// After the probe: go on only on a match.
pub open spec fn probed(
    candidate: crate::plugin::CandidateView,
    reply: Result<ProbeKeyResult, String>,
) -> Move {
    match reply {
        Err(e) => rpc_failed(e@),
        Ok(ProbeKeyResult::Match) => (AttemptView::Agreeing, ecdh_request(candidate, None)),
        Ok(ProbeKeyResult::SerialMismatch) => finished(DecryptView::SerialMismatch),
        Ok(other) => identity_failed(candidate, other.text()),
    }
}

/// What an ECDH answer amounts to.
pub open spec fn concluded(candidate: crate::plugin::CandidateView, reply: EcdhResult) -> Move {
    match reply {
        Ok(response) => finished(
            match crate::stanza::unwrapped(
                candidate.parsed,
                response.shared_secret@,
                response.recipient_pubkey@,
            ) {
                Some(key) => DecryptView::Decrypted(key),
                None => DecryptView::AeadFailed,
            },
        ),
        Err(e) => identity_failed(candidate, e.text()),
    }
}

/// After the first ECDH request: ask for the PIN if that is what the daemon needs.
pub open spec fn agreed(
    candidate: crate::plugin::CandidateView,
    reply: Result<EcdhResult, String>,
) -> Move {
    match reply {
        Err(e) => rpc_failed(e@),
        Ok(Err(EcdhError::NeedPin)) => (
            AttemptView::AskingPin,
            ActionView::RequestSecret(
                "Enter PIN for YubiKey serial "@ + crate::text::decimal(candidate.serial as nat),
            ),
        ),
        Ok(result) => concluded(candidate, result),
    }
}

/// After the user was asked for the PIN.
pub open spec fn pin_answered(candidate: crate::plugin::CandidateView, reply: SecretReply) -> Move {
    match reply {
        SecretReply::Given(pin) => (
            AttemptView::Announcing(pin@),
            ActionView::Message("Touch your YubiKey"@),
        ),
        SecretReply::Declined => identity_failed(
            candidate,
            "PIN required for YubiKey serial "@ + crate::text::decimal(candidate.serial as nat),
        ),
        SecretReply::Broken => (AttemptView::Ended, ActionView::Abort),
    }
}

/// After the second ECDH request.
pub open spec fn agreed_with_pin(
    candidate: crate::plugin::CandidateView,
    reply: Result<EcdhResult, String>,
) -> Move {
    match reply {
        Err(e) => rpc_failed(e@),
        Ok(result) => concluded(candidate, result),
    }
}

/// Whether `event` is what an attempt waits for.
pub open spec fn expects(attempt: AttemptView, event: AttemptEvent) -> bool {
    match attempt {
        AttemptView::Probing => event is Probed,
        AttemptView::Agreeing | AttemptView::AgreeingWithPin => event is Agreed,
        AttemptView::AskingPin => event is Secret,
        AttemptView::Announcing(_) => event is Announced,
        AttemptView::Ended => false,
    }
}

/// What an attempt does about an event.
pub open spec fn moved(
    candidate: crate::plugin::CandidateView,
    attempt: AttemptView,
    event: AttemptEvent,
) -> Move {
    match (attempt, event) {
        (AttemptView::Probing, AttemptEvent::Probed(reply)) => probed(candidate, reply),
        (AttemptView::Agreeing, AttemptEvent::Agreed(reply)) => agreed(candidate, reply),
        (AttemptView::AskingPin, AttemptEvent::Secret(reply)) => pin_answered(candidate, reply),
        (AttemptView::Announcing(pin), AttemptEvent::Announced) => (
            AttemptView::AgreeingWithPin,
            ecdh_request(candidate, Some(pin)),
        ),
        (AttemptView::AgreeingWithPin, AttemptEvent::Agreed(reply)) => agreed_with_pin(
            candidate,
            reply,
        ),
        _ => arbitrary(),
    }
}

fn finish(result: DecryptResult) -> (t: (Attempt, AttemptAction))
    ensures
        (t.0@, t.1@) == finished(result@),
{
    (Attempt::Ended, AttemptAction::Finish(result))
}

fn fail_identity(candidate: &Candidate, message: String) -> (t: (Attempt, AttemptAction))
    ensures
        (t.0@, t.1@) == identity_failed(candidate@, message@),
{
    finish(
        DecryptResult::Failed(
            IdentityError::Identity { index: candidate.identity_index, message },
        ),
    )
}

fn fail_rpc(error: String) -> (t: (Attempt, AttemptAction))
    ensures
        (t.0@, t.1@) == rpc_failed(error@),
{
    let message = joined("Daemon RPC error: ", error.as_str());
    finish(DecryptResult::Failed(IdentityError::Internal { message }))
}

fn key_of(candidate: &Candidate) -> (r: KeyRef)
    ensures
        r.serial == candidate.serial,
        r.slot == candidate.slot,
        r.tag == candidate.tag,
{
    KeyRef { serial: candidate.serial, slot: candidate.slot, tag: candidate.tag }
}

fn ask_ecdh(candidate: &Candidate, pin: Option<String>) -> (r: AttemptAction)
    ensures
        r@ == ecdh_request(candidate@, crate::daemon::pin_view(pin)),
{
    AttemptAction::Ecdh {
        key: key_of(candidate),
        ephemeral_pubkey: candidate.parsed.ephemeral_pubkey,
        pin,
    }
}

/// What unwrapping a file key after a successful ECDH amounts to.
pub fn decrypt_result(derived: Result<FileKey, ()>) -> (r: DecryptResult)
    ensures
        r == match derived {
            Ok(key) => DecryptResult::Decrypted(key),
            Err(_) => DecryptResult::AeadFailed,
        },
{
    match derived {
        Ok(key) => DecryptResult::Decrypted(key),
        Err(()) => DecryptResult::AeadFailed,
    }
}

fn conclude(candidate: &Candidate, reply: EcdhResult) -> (t: (Attempt, AttemptAction))
    ensures
        (t.0@, t.1@) == concluded(candidate@, reply),
{
    match reply {
        Ok(response) => finish(
            decrypt_result(
                candidate.parsed.derive_file_key(
                    &response.shared_secret,
                    &response.recipient_pubkey,
                ),
            ),
        ),
        Err(e) => fail_identity(candidate, e.to_string()),
    }
}

impl Attempt {
    /// Whether `event` is what the attempt waits for.
    pub fn expects(&self, event: &AttemptEvent) -> (r: bool)
        ensures
            r == expects(self@, *event),
    {
        match self {
            Attempt::Probing => matches!(event, AttemptEvent::Probed(_)),
            Attempt::Agreeing => matches!(event, AttemptEvent::Agreed(_)),
            Attempt::AskingPin => matches!(event, AttemptEvent::Secret(_)),
            Attempt::Announcing(_) => matches!(event, AttemptEvent::Announced),
            Attempt::AgreeingWithPin => matches!(event, AttemptEvent::Agreed(_)),
            Attempt::Ended => false,
        }
    }
}

/// Begins an attempt for a candidate.
pub fn begin(candidate: &Candidate) -> (t: (Attempt, AttemptAction))
    ensures
        (t.0@, t.1@) == begun(candidate@),
{
    (Attempt::Probing, AttemptAction::ProbeKey(key_of(candidate)))
}

/// Goes on with the attempt for a candidate. Probes first to check serial and tag; the PIN is
/// requested only after the probe confirmed that the right YubiKey is connected.
pub fn process_candidate(candidate: &Candidate, attempt: Attempt, event: AttemptEvent) -> (t: (
    Attempt,
    AttemptAction,
))
    requires
        expects(attempt@, event),
    ensures
        (t.0@, t.1@) == moved(candidate@, attempt@, event),
{
    match (attempt, event) {
        (_, AttemptEvent::Probed(Err(e))) => fail_rpc(e),
        (_, AttemptEvent::Probed(Ok(ProbeKeyResult::Match))) => {
            (Attempt::Agreeing, ask_ecdh(candidate, None))
        },
        (_, AttemptEvent::Probed(Ok(ProbeKeyResult::SerialMismatch))) => {
            finish(DecryptResult::SerialMismatch)
        },
        (_, AttemptEvent::Probed(Ok(other))) => fail_identity(candidate, other.to_string()),
        (_, AttemptEvent::Agreed(Err(e))) => fail_rpc(e),
        (Attempt::Agreeing, AttemptEvent::Agreed(Ok(Err(EcdhError::NeedPin)))) => {
            let serial = decimal_text(candidate.serial as usize);
            (
                Attempt::AskingPin,
                AttemptAction::RequestSecret(
                    joined("Enter PIN for YubiKey serial ", serial.as_str()),
                ),
            )
        },
        (_, AttemptEvent::Agreed(Ok(result))) => conclude(candidate, result),
        (_, AttemptEvent::Secret(SecretReply::Given(pin))) => {
            (
                Attempt::Announcing(pin),
                AttemptAction::Message(String::from_str("Touch your YubiKey")),
            )
        },
        (_, AttemptEvent::Secret(SecretReply::Declined)) => {
            let serial = decimal_text(candidate.serial as usize);
            fail_identity(candidate, joined("PIN required for YubiKey serial ", serial.as_str()))
        },
        (_, AttemptEvent::Secret(SecretReply::Broken)) => (Attempt::Ended, AttemptAction::Abort),
        (Attempt::Announcing(pin), AttemptEvent::Announced) => {
            (Attempt::AgreeingWithPin, ask_ecdh(candidate, Some(pin)))
        },
        _ => vstd::pervasive::unreached(),
    }
}

/// A stanza that was written for the owner of a key gives its file key to the attempt to open
/// it, once the daemon answers with that key and the shared secret, with the PIN or without.
pub proof fn law_written_stanza_is_decrypted(
    candidate: crate::plugin::CandidateView,
    s: Stanza,
    response: EcdhResponse,
    tag: Seq<u8>,
    ephemeral_pubkey: Seq<u8>,
    file_key: Seq<u8>,
)
    requires
        s.tag@ == "piv-p256"@,
        s.args@.len() == 2,
        s.args@[0]@ == crate::encoding::base64_text(tag),
        s.args@[1]@ == crate::encoding::base64_text(ephemeral_pubkey),
        s.body@.len() == crate::stanza::ENCRYPTED_FILE_KEY_BYTES,
        tag.len() == crate::protocol::TAG_BYTES,
        ephemeral_pubkey.len() == crate::stanza::EPK_BYTES,
        crate::keys::p256_point(ephemeral_pubkey) == Some(ephemeral_pubkey),
        crate::crypto::aead_opened(
            crate::stanza::wrapping_key(
                ephemeral_pubkey,
                response.recipient_pubkey@,
                response.shared_secret@,
            ),
            crate::stanza::FILE_KEY_BYTES as nat,
            s.body@,
        ) == Some(file_key),
        crate::stanza::parsed_stanza(s) == Some(Ok::<_, ()>(candidate.parsed)),
    ensures
        candidate.parsed.tag == tag,
        ({
            let reply = AttemptEvent::Agreed(Ok(Ok(response)));
            let done = finished(DecryptView::Decrypted(file_key));
            &&& moved(candidate, AttemptView::Agreeing, reply) == done
            &&& moved(candidate, AttemptView::AgreeingWithPin, reply) == done
        }),
{
    crate::stanza::law_written_stanza_opens(
        s,
        tag,
        ephemeral_pubkey,
        response.recipient_pubkey@,
        response.shared_secret@,
        file_key,
    );
}

/// Where an attempt stands, and what it did last, after some events.
pub open spec fn after(
    candidate: crate::plugin::CandidateView,
    events: Seq<AttemptEvent>,
) -> Move
    decreases events.len(),
{
    if events.len() == 0 {
        begun(candidate)
    } else {
        moved(candidate, after(candidate, events.drop_last()).0, events.last())
    }
}

/// Whether every event was the one waited for.
pub open spec fn orderly(
    candidate: crate::plugin::CandidateView,
    events: Seq<AttemptEvent>,
) -> bool
    decreases events.len(),
{
    events.len() > 0 ==> {
        &&& orderly(candidate, events.drop_last())
        &&& expects(after(candidate, events.drop_last()).0, events.last())
    }
}

/// An attempt is over after at most five events. The user is asked for the PIN only when the
/// probe matched and the daemon said that it needs the PIN, and so at most once; a message is
/// shown only when the user gave the PIN; the PIN is sent only then, and it is the one given.
pub proof fn law_pin_asked_only_after_match(
    candidate: crate::plugin::CandidateView,
    events: Seq<AttemptEvent>,
)
    requires
        orderly(candidate, events),
    ensures
        events.len() <= 5,
        events.len() == 5 ==> after(candidate, events).0 is Ended,
        after(candidate, events).1 is RequestSecret ==> {
            &&& events.len() == 2
            &&& events[0] == AttemptEvent::Probed(Ok(ProbeKeyResult::Match))
            &&& events[1] == AttemptEvent::Agreed(Ok(Err(EcdhError::NeedPin)))
        },
        after(candidate, events).1 is Message ==> {
            &&& events.len() == 3
            &&& events[0] == AttemptEvent::Probed(Ok(ProbeKeyResult::Match))
            &&& events[2] matches AttemptEvent::Secret(SecretReply::Given(_))
        },
        after(candidate, events).1 matches ActionView::Ecdh { pin: Some(pin), .. } ==> {
            &&& events.len() == 4
            &&& events[0] == AttemptEvent::Probed(Ok(ProbeKeyResult::Match))
            &&& events[2] matches AttemptEvent::Secret(SecretReply::Given(given))
            &&& given@ == pin
        },
{
    lemma_path(candidate, events);
    if events.len() > 0 {
        lemma_path(candidate, events.drop_last());
    }
}

/// The one way to each place that an attempt waits at.
proof fn lemma_path(candidate: crate::plugin::CandidateView, events: Seq<AttemptEvent>)
    requires
        orderly(candidate, events),
    ensures
        match after(candidate, events).0 {
            AttemptView::Probing => events.len() == 0,
            AttemptView::Agreeing => events.len() == 1,
            AttemptView::AskingPin => {
                &&& events.len() == 2
                &&& events[1] == AttemptEvent::Agreed(Ok(Err(EcdhError::NeedPin)))
            },
            AttemptView::Announcing(pin) => {
                &&& events.len() == 3
                &&& events[2] matches AttemptEvent::Secret(SecretReply::Given(given))
                &&& given@ == pin
            },
            AttemptView::AgreeingWithPin => {
                &&& events.len() == 4
                &&& events[2] is Secret
            },
            AttemptView::Ended => 1 <= events.len() <= 5,
        },
        after(candidate, events).0 !is Probing && after(candidate, events).0 !is Ended
            ==> events[0] == AttemptEvent::Probed(Ok(ProbeKeyResult::Match)),
    decreases events.len(),
{
    if events.len() > 0 {
        lemma_path(candidate, events.drop_last());
    }
}

/// An attempt begins with a probe for the candidate's key.
pub proof fn law_attempt_begins_with_a_probe(
    candidate: Candidate,
    next: Attempt,
    action: AttemptAction,
)
    requires
        (next@, action@) == begun(candidate@),
    ensures
        next is Probing,
        action matches AttemptAction::ProbeKey(key) && key.serial == candidate.serial && key.slot
            == candidate.slot && key.tag@ == candidate.tag@,
{
}

/// Whatever an attempt asks of the daemon, a probe or an ECDH with a PIN or without, it asks for
/// the candidate's serial number, slot and tag, and with the ephemeral key of the candidate's
/// stanza.
pub proof fn law_daemon_is_asked_for_the_candidates_key(
    candidate: Candidate,
    attempt: Attempt,
    event: AttemptEvent,
    next: Attempt,
    action: AttemptAction,
)
    requires
        expects(attempt@, event),
        (next@, action@) == moved(candidate@, attempt@, event),
    ensures
        action !is ProbeKey,
        action matches AttemptAction::Ecdh { key, ephemeral_pubkey, .. } ==> {
            &&& key.serial == candidate.serial
            &&& key.slot == candidate.slot
            &&& key.tag@ == candidate.tag@
            &&& ephemeral_pubkey@ == candidate.parsed.ephemeral_pubkey@
        },
{
}

/// Every probe that matches is followed by an ECDH request without a PIN, and no other is. A
/// mismatch of the serial number ends the attempt without an error; any other answer ends it
/// with that answer's message, under the identity's place, and a failed call with its error.
pub proof fn law_what_follows_a_probe(
    candidate: Candidate,
    reply: Result<ProbeKeyResult, String>,
    next: Attempt,
    action: AttemptAction,
)
    requires
        (next@, action@) == moved(candidate@, Attempt::Probing@, AttemptEvent::Probed(reply)),
    ensures
        reply == Ok::<_, String>(ProbeKeyResult::Match) <==> action is Ecdh,
        action matches AttemptAction::Ecdh { pin, .. } ==> pin is None && next is Agreeing,
        reply == Ok::<_, String>(ProbeKeyResult::SerialMismatch) <==> action
            == AttemptAction::Finish(DecryptResult::SerialMismatch),
        action !is Ecdh ==> next is Ended && action is Finish,
        reply matches Ok(r) ==> (r != ProbeKeyResult::Match && r != ProbeKeyResult::SerialMismatch
            ==> {
            &&& action matches AttemptAction::Finish(
                DecryptResult::Failed(IdentityError::Identity { index, message }),
            )
            &&& index == candidate.identity_index
            &&& message@ == r.text()
        }),
        reply matches Err(e) ==> {
            &&& action matches AttemptAction::Finish(
                DecryptResult::Failed(IdentityError::Internal { message }),
            )
            &&& message@ == "Daemon RPC error: "@ + e@
        },
{
}

/// What an attempt ends with after an answer to an ECDH request. Every response whose secret and
/// key open the stanza's body gives what it opens to; one that does not is an AEAD failure. An
/// error is reported with its message, under the identity's place.
pub open spec fn is_verdict(
    candidate: Candidate,
    reply: EcdhResult,
    next: Attempt,
    action: AttemptAction,
) -> bool {
    &&& next is Ended
    &&& match reply {
        Ok(response) => match crate::crypto::aead_opened(
            crate::crypto::hkdf_sha256(
                candidate.parsed.ephemeral_pubkey@ + response.recipient_pubkey@,
                seq![0x70, 0x69, 0x76, 0x2d, 0x70, 0x32, 0x35, 0x36],
                response.shared_secret@,
            ),
            16,
            candidate.parsed.encrypted_file_key@,
        ) {
            Some(opened) => action matches AttemptAction::Finish(DecryptResult::Decrypted(key))
                && key@ == opened,
            None => action == AttemptAction::Finish(DecryptResult::AeadFailed),
        },
        Err(e) => {
            &&& action matches AttemptAction::Finish(
                DecryptResult::Failed(IdentityError::Identity { index, message }),
            )
            &&& index == candidate.identity_index
            &&& message@ == e.text()
        },
    }
}

/// The user is asked for the PIN exactly if the first ECDH request is answered that it needs one,
/// by a prompt with the serial number. Every other answer, and every answer to the second
/// request, ends the attempt; a failed call ends it with its error.
pub proof fn law_what_follows_an_ecdh(
    candidate: Candidate,
    with_pin: bool,
    reply: Result<EcdhResult, String>,
    next: Attempt,
    action: AttemptAction,
)
    requires
        (next@, action@) == moved(
            candidate@,
            if with_pin {
                Attempt::AgreeingWithPin@
            } else {
                Attempt::Agreeing@
            },
            AttemptEvent::Agreed(reply),
        ),
    ensures
        action is RequestSecret <==> !with_pin && reply == Ok::<EcdhResult, String>(
            Err(EcdhError::NeedPin),
        ),
        action matches AttemptAction::RequestSecret(prompt) ==> {
            &&& next is AskingPin
            &&& prompt@ == "Enter PIN for YubiKey serial "@ + crate::text::decimal(
                candidate.serial as nat,
            )
        },
        action !is RequestSecret ==> (reply matches Ok(result) ==> is_verdict(
            candidate,
            result,
            next,
            action,
        )),
        reply matches Err(e) ==> {
            &&& next is Ended
            &&& action matches AttemptAction::Finish(
                DecryptResult::Failed(IdentityError::Internal { message }),
            )
            &&& message@ == "Daemon RPC error: "@ + e@
        },
{
    let label: Seq<u8> = seq![0x70, 0x69, 0x76, 0x2d, 0x70, 0x32, 0x35, 0x36];
    reveal_strlit("piv-p256");
    if let Ok(Ok(response)) = reply {
        crate::stanza::law_file_key_is_what_the_body_opens_to(
            candidate.parsed,
            response.shared_secret@,
            response.recipient_pubkey@,
            label,
        );
    }
}

/// Every PIN that the user gives goes to the daemon as it is, after the user is told to touch the
/// YubiKey. A user who gives none ends the attempt with an error that says so; a broken pipe ends
/// the whole run.
pub proof fn law_every_pin_given_is_sent(
    candidate: Candidate,
    reply: SecretReply,
    next: Attempt,
    action: AttemptAction,
    after_message: Attempt,
    request: AttemptAction,
)
    requires
        (next@, action@) == moved(candidate@, Attempt::AskingPin@, AttemptEvent::Secret(reply)),
        reply is Given ==> (after_message@, request@) == moved(
            candidate@,
            next@,
            AttemptEvent::Announced,
        ),
    ensures
        reply matches SecretReply::Given(given) ==> {
            &&& action matches AttemptAction::Message(text)
            &&& text@ == "Touch your YubiKey"@
            &&& expects(next@, AttemptEvent::Announced)
            &&& after_message is AgreeingWithPin
            &&& request matches AttemptAction::Ecdh { pin, .. }
            &&& pin matches Some(sent)
            &&& sent@ == given@
        },
        reply is Declined ==> {
            &&& next is Ended
            &&& action matches AttemptAction::Finish(
                DecryptResult::Failed(IdentityError::Identity { index, message }),
            )
            &&& index == candidate.identity_index
            &&& message@ == "PIN required for YubiKey serial "@ + crate::text::decimal(
                candidate.serial as nat,
            )
        },
        reply is Broken ==> next is Ended && action is Abort,
{
}

/// Whether an event says what came of an action.
pub open spec fn comes_of(action: AttemptAction, event: AttemptEvent) -> bool {
    match action {
        AttemptAction::ProbeKey(_) => event is Probed,
        AttemptAction::Ecdh { .. } => event is Agreed,
        AttemptAction::RequestSecret(_) => event is Secret,
        AttemptAction::Message(_) => event is Announced,
        AttemptAction::Finish(_) | AttemptAction::Abort => false,
    }
}

/// An attempt waits for what comes of its last action, whatever that is, and for nothing else.
pub proof fn law_what_comes_of_an_action_is_expected(
    candidate: Candidate,
    attempt: Attempt,
    event: AttemptEvent,
    next: Attempt,
    action: AttemptAction,
    reply: AttemptEvent,
)
    requires
        (next@, action@) == begun(candidate@) || expects(attempt@, event) && (next@, action@)
            == moved(candidate@, attempt@, event),
    ensures
        expects(next@, reply) <==> comes_of(action, reply),
{
}

/// The view of an outcome has its kind, and the key or the error.
pub proof fn law_outcome_view_keeps_the_outcome(outcome: DecryptResult)
    ensures
        match outcome {
            DecryptResult::Decrypted(key) => outcome@ == DecryptView::Decrypted(key@),
            DecryptResult::AeadFailed => outcome@ == DecryptView::AeadFailed,
            DecryptResult::SerialMismatch => outcome@ == DecryptView::SerialMismatch,
            DecryptResult::Failed(e) => outcome@ == DecryptView::Failed(e@),
        },
{
}

} // verus!
