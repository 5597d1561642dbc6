//! What the plugin and the daemon say to each other.
//!
//! Two operations:
//! - `probe_key`: cheap pre-flight: does the connected YubiKey have a matching P-256 key? No
//!   PIN, no touch, no ECDH.
//! - `ecdh`: perform ECDH on the card and return the shared secret and the recipient's
//!   public key.
use vstd::prelude::*;

use crate::keys::PublicKey;
use crate::text::{decimal_text, hex_text, joined};

verus! {

/// Length of the tag that identifies a recipient.
pub const TAG_BYTES: usize = 4;

/// Why an ECDH request was refused.
#[derive(Clone, Copy, Debug, PartialEq, Eq, Structural)]
pub enum EcdhError {
    NeedPin,
    ChipUnavailable,
    Disconnected,
    SerialMismatch,
    WrongPin { tries: u8 },
    PinLocked,
    PinRejected,
    InvalidSlot(u8),
    CertRead(u8),
    CertNotP256(u8),
    CertInvalidKey,
    TagMismatch { slot: u8 },
    EcdhFailed,
    SharedSecretLength { got: usize },
}

impl EcdhError {
    /// The message shown to the user.
    pub open spec fn text(self) -> Seq<char> {
        match self {
            EcdhError::NeedPin => "YubiKey PIN required"@,
            EcdhError::ChipUnavailable => "YubiKey not available"@,
            EcdhError::Disconnected => "YubiKey disconnected mid-operation"@,
            EcdhError::SerialMismatch => "serial mismatch: daemon serves a different YubiKey"@,
            EcdhError::WrongPin { tries } => "wrong PIN ("@ + crate::text::decimal(tries as nat)
                + " tries remaining)"@,
            EcdhError::PinLocked => "PIN locked"@,
            EcdhError::PinRejected => "PIN verification failed"@,
            EcdhError::InvalidSlot(slot) => "invalid slot: 0x"@ + crate::text::hex_byte(slot),
            EcdhError::CertRead(slot) => "failed to read certificate from slot 0x"@
                + crate::text::hex_byte(slot),
            EcdhError::CertNotP256(slot) => "certificate in slot 0x"@ + crate::text::hex_byte(slot)
                + " is not a P-256 key"@,
            EcdhError::CertInvalidKey => "invalid P-256 public key in certificate"@,
            EcdhError::TagMismatch { slot } => "tag mismatch in slot 0x"@
                + crate::text::hex_byte(slot),
            EcdhError::EcdhFailed => "ECDH operation failed"@,
            EcdhError::SharedSecretLength { got } =>
                "shared secret has wrong length (expected 32, got "@ + crate::text::decimal(
                got as nat,
            ) + ")"@,
        }
    }

    /// The message shown to the user.
    pub fn to_string(&self) -> (r: String)
        ensures
            r@ == self.text(),
    {
        match *self {
            EcdhError::NeedPin => String::from_str("YubiKey PIN required"),
            EcdhError::ChipUnavailable => String::from_str("YubiKey not available"),
            EcdhError::Disconnected => String::from_str("YubiKey disconnected mid-operation"),
            EcdhError::SerialMismatch => String::from_str(
                "serial mismatch: daemon serves a different YubiKey",
            ),
            EcdhError::WrongPin { tries } => joined(
                joined("wrong PIN (", decimal_text(tries as usize).as_str()).as_str(),
                " tries remaining)",
            ),
            EcdhError::PinLocked => String::from_str("PIN locked"),
            EcdhError::PinRejected => String::from_str("PIN verification failed"),
            EcdhError::InvalidSlot(slot) => joined("invalid slot: 0x", hex_text(slot).as_str()),
            EcdhError::CertRead(slot) => joined(
                "failed to read certificate from slot 0x",
                hex_text(slot).as_str(),
            ),
            EcdhError::CertNotP256(slot) => joined(
                joined("certificate in slot 0x", hex_text(slot).as_str()).as_str(),
                " is not a P-256 key",
            ),
            EcdhError::CertInvalidKey => String::from_str(
                "invalid P-256 public key in certificate",
            ),
            EcdhError::TagMismatch { slot } => joined(
                "tag mismatch in slot 0x",
                hex_text(slot).as_str(),
            ),
            EcdhError::EcdhFailed => String::from_str("ECDH operation failed"),
            EcdhError::SharedSecretLength { got } => joined(
                joined(
                    "shared secret has wrong length (expected 32, got ",
                    decimal_text(got).as_str(),
                ).as_str(),
                ")",
            ),
        }
    }
}

/// The answer to a probe.
#[derive(Clone, Copy, Debug, PartialEq, Eq, Structural)]
pub enum ProbeKeyResult {
    Match,
    SerialMismatch,
    Disconnected,
    WorkerDropped,
    WorkerExited,
    ChipUnavailable,
    InvalidSlot(u8),
    SlotCheck(EcdhError),
}

impl ProbeKeyResult {
    /// The message shown to the user.
    pub open spec fn text(self) -> Seq<char> {
        match self {
            ProbeKeyResult::Match => "match"@,
            ProbeKeyResult::SerialMismatch => "serial mismatch"@,
            ProbeKeyResult::Disconnected => "YubiKey disconnected"@,
            ProbeKeyResult::WorkerDropped => "worker dropped reply channel"@,
            ProbeKeyResult::WorkerExited => "worker exited"@,
            ProbeKeyResult::ChipUnavailable => "YubiKey not available"@,
            ProbeKeyResult::InvalidSlot(slot) => "invalid slot: 0x"@ + crate::text::hex_byte(slot),
            ProbeKeyResult::SlotCheck(e) => e.text(),
        }
    }

    /// The message shown to the user.
    pub fn to_string(&self) -> (r: String)
        ensures
            r@ == self.text(),
    {
        match *self {
            ProbeKeyResult::Match => String::from_str("match"),
            ProbeKeyResult::SerialMismatch => String::from_str("serial mismatch"),
            ProbeKeyResult::Disconnected => String::from_str("YubiKey disconnected"),
            ProbeKeyResult::WorkerDropped => String::from_str("worker dropped reply channel"),
            ProbeKeyResult::WorkerExited => String::from_str("worker exited"),
            ProbeKeyResult::ChipUnavailable => String::from_str("YubiKey not available"),
            ProbeKeyResult::InvalidSlot(slot) => joined("invalid slot: 0x", hex_text(slot).as_str()),
            ProbeKeyResult::SlotCheck(e) => e.to_string(),
        }
    }
}

/// What a successful ECDH gives.
#[derive(Clone, Copy, Debug, PartialEq, Eq)]
pub struct EcdhResponse {
    pub shared_secret: [u8; 32],
    pub recipient_pubkey: PublicKey,
}

/// An [`EcdhResponse`] as sequences of bytes.
pub struct EcdhResponseView {
    pub shared_secret: Seq<u8>,
    pub recipient_pubkey: Seq<u8>,
}

impl View for EcdhResponse {
    type V = EcdhResponseView;

    open spec fn view(&self) -> EcdhResponseView {
        EcdhResponseView {
            shared_secret: self.shared_secret@,
            recipient_pubkey: self.recipient_pubkey@,
        }
    }
}

pub type EcdhResult = Result<EcdhResponse, EcdhError>;

/// An [`EcdhResult`] with the response as sequences of bytes.
pub open spec fn ecdh_view(r: EcdhResult) -> Result<EcdhResponseView, EcdhError> {
    match r {
        Ok(response) => Ok(response@),
        Err(e) => Err(e),
    }
}

/// The messages that hold a number spell that number, in decimal or as the hexadecimal slot, and
/// a probe's check of a slot speaks with the words of the error found there.
pub proof fn law_messages_name_the_number(
    tries: u8,
    slot: u8,
    got: usize,
    e: EcdhError,
)
    ensures
        (EcdhError::WrongPin { tries }).text() == "wrong PIN ("@ + crate::text::decimal(
            tries as nat,
        ) + " tries remaining)"@,
        EcdhError::InvalidSlot(slot).text() == "invalid slot: 0x"@ + crate::text::hex_byte(slot),
        EcdhError::CertRead(slot).text() == "failed to read certificate from slot 0x"@
            + crate::text::hex_byte(slot),
        EcdhError::CertNotP256(slot).text() == "certificate in slot 0x"@ + crate::text::hex_byte(
            slot,
        ) + " is not a P-256 key"@,
        (EcdhError::TagMismatch { slot }).text() == "tag mismatch in slot 0x"@
            + crate::text::hex_byte(slot),
        (EcdhError::SharedSecretLength { got }).text()
            == "shared secret has wrong length (expected 32, got "@ + crate::text::decimal(
            got as nat,
        ) + ")"@,
        ProbeKeyResult::InvalidSlot(slot).text() == "invalid slot: 0x"@ + crate::text::hex_byte(
            slot,
        ),
        ProbeKeyResult::SlotCheck(e).text() == e.text(),
{
}

/// The messages without a number.
pub proof fn law_plain_messages()
    ensures
        EcdhError::NeedPin.text() == "YubiKey PIN required"@,
        EcdhError::ChipUnavailable.text() == "YubiKey not available"@,
        EcdhError::Disconnected.text() == "YubiKey disconnected mid-operation"@,
        EcdhError::SerialMismatch.text() == "serial mismatch: daemon serves a different YubiKey"@,
        EcdhError::PinLocked.text() == "PIN locked"@,
        EcdhError::PinRejected.text() == "PIN verification failed"@,
        EcdhError::CertInvalidKey.text() == "invalid P-256 public key in certificate"@,
        EcdhError::EcdhFailed.text() == "ECDH operation failed"@,
        ProbeKeyResult::Match.text() == "match"@,
        ProbeKeyResult::SerialMismatch.text() == "serial mismatch"@,
        ProbeKeyResult::Disconnected.text() == "YubiKey disconnected"@,
        ProbeKeyResult::WorkerDropped.text() == "worker dropped reply channel"@,
        ProbeKeyResult::WorkerExited.text() == "worker exited"@,
        ProbeKeyResult::ChipUnavailable.text() == "YubiKey not available"@,
{
}

/// The view of a result is the result: the same error, or the same secret and key.
pub proof fn law_ecdh_view_keeps_the_result(r: EcdhResult)
    ensures
        match r {
            Ok(response) => ecdh_view(r) matches Ok(v) && v.shared_secret == response.shared_secret@
                && v.recipient_pubkey == response.recipient_pubkey@,
            Err(e) => ecdh_view(r) == Err::<EcdhResponseView, _>(e),
        },
{
}

} // verus!
