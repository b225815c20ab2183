use base64::engine::general_purpose::STANDARD;
use base64::Engine;
use rsi_terminal::clipboard::{copied, osc52, same_readback};

#[test]
fn osc52_is_bounded_and_never_claims_confirmed_delivery() {
    let text = "x".repeat(24 * 1024);
    let delivery = osc52(&text);
    assert!(delivery.status.contains("unverified"));
    let osc = delivery.osc.unwrap();
    let encoded = osc
        .strip_prefix("\x1b]52;c;")
        .unwrap()
        .strip_suffix('\x07')
        .unwrap();
    assert_eq!(encoded.len(), 32 * 1024);
    assert_eq!(STANDARD.decode(encoded).unwrap(), text.as_bytes());
    assert!(osc52(&(text + "x")).osc.is_none());
}

#[test]
fn a_short_selection_is_encoded() {
    assert_eq!(osc52("hi").osc.unwrap(), "\x1b]52;c;aGk=\x07");
}

#[test]
fn the_first_helper_that_gave_the_text_back_counts() {
    assert_eq!(copied("text", true, true).status, "Copied and verified via wl-copy");
    assert_eq!(copied("text", false, true).status, "Copied and verified via xclip");
    assert!(copied("text", false, false).osc.is_some());
    let large = "x".repeat(24 * 1024 + 1);
    assert_eq!(
        copied(&large, false, false).status,
        "Copy failed: native clipboard unavailable; selection exceeds OSC52's 32 KiB encoded limit"
    );
}

#[test]
fn only_the_same_bytes_are_a_readback() {
    assert!(same_readback("verified", b"verified"));
    assert!(!same_readback("verified", b"different"));
    assert!(!same_readback("verified", b"verified\n"));
}
