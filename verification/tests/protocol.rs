use age_plugin_yubikey_agent::protocol::{EcdhError, ProbeKeyResult, TAG_BYTES};
use age_plugin_yubikey_agent::text::{decimal_text, hex_text, joined, to_upper};

#[test]
fn ecdh_error_messages() {
    let cases = [
        (EcdhError::NeedPin, "YubiKey PIN required"),
        (EcdhError::ChipUnavailable, "YubiKey not available"),
        (EcdhError::Disconnected, "YubiKey disconnected mid-operation"),
        (
            EcdhError::SerialMismatch,
            "serial mismatch: daemon serves a different YubiKey",
        ),
        (EcdhError::WrongPin { tries: 2 }, "wrong PIN (2 tries remaining)"),
        (EcdhError::WrongPin { tries: 255 }, "wrong PIN (255 tries remaining)"),
        (EcdhError::PinLocked, "PIN locked"),
        (EcdhError::PinRejected, "PIN verification failed"),
        (EcdhError::InvalidSlot(0x9a), "invalid slot: 0x9a"),
        (
            EcdhError::CertRead(0x82),
            "failed to read certificate from slot 0x82",
        ),
        (
            EcdhError::CertNotP256(0x0f),
            "certificate in slot 0x0f is not a P-256 key",
        ),
        (
            EcdhError::CertInvalidKey,
            "invalid P-256 public key in certificate",
        ),
        (EcdhError::TagMismatch { slot: 0 }, "tag mismatch in slot 0x00"),
        (EcdhError::EcdhFailed, "ECDH operation failed"),
        (
            EcdhError::SharedSecretLength { got: 31 },
            "shared secret has wrong length (expected 32, got 31)",
        ),
    ];
    for (error, message) in cases {
        assert_eq!(error.to_string(), message);
    }
}

#[test]
fn probe_result_messages() {
    let cases = [
        (ProbeKeyResult::Match, "match"),
        (ProbeKeyResult::SerialMismatch, "serial mismatch"),
        (ProbeKeyResult::Disconnected, "YubiKey disconnected"),
        (ProbeKeyResult::WorkerDropped, "worker dropped reply channel"),
        (ProbeKeyResult::WorkerExited, "worker exited"),
        (ProbeKeyResult::ChipUnavailable, "YubiKey not available"),
        (ProbeKeyResult::InvalidSlot(0xff), "invalid slot: 0xff"),
        (
            ProbeKeyResult::SlotCheck(EcdhError::CertRead(0x83)),
            "failed to read certificate from slot 0x83",
        ),
    ];
    for (result, message) in cases {
        assert_eq!(result.to_string(), message);
    }
}

#[test]
fn numbers_as_text() {
    assert_eq!(TAG_BYTES, 4);
    for n in [0, 7, 10, 99, 100, 1234567890, usize::MAX] {
        assert_eq!(decimal_text(n), format!("{n}"));
    }
    for b in 0..=255u8 {
        assert_eq!(hex_text(b), format!("{b:02x}"));
    }
}

#[test]
fn text_upper_case_and_joining() {
    assert_eq!(to_upper("age-plugin-1q{z"), "AGE-PLUGIN-1Q{Z");
    assert_eq!(joined("piv-", "p256"), "piv-p256");
    assert_eq!(joined("", ""), "");
}
